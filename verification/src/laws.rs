use vstd::prelude::*;
use vstd::map::*;

use crate::broker::{ActionView, CommandView, SubscriberId, broker_transition, topic_set};
use crate::session::{SessionEventView, session_transition};

verus! {

/// Law: at most one subscriber is bound to a topic at any time. While `t`
/// is bound, a further subscribe to `t` is rejected: the table does not
/// move, the standing binding stays what it was, and nothing is delivered.
pub proof fn lemma_second_subscribe_rejected(
    m: Map<Seq<char>, SubscriberId>,
    t: Seq<char>,
    h2: SubscriberId,
)
    requires
        m.contains_key(t),
    ensures
        ({
            let (m2, a) = broker_transition(m, CommandView::Subscribe { topic: t, subscriber: h2 });
            m2 == m && m2[t] == m[t] && a == ActionView::NoDelivery
        }),
{
}

/// Law: publishing to a topic with no bound subscriber is a no-op. Nothing
/// is delivered, no error arises, and no binding appears.
pub proof fn lemma_publish_unbound_no_op(
    m: Map<Seq<char>, SubscriberId>,
    t: Seq<char>,
    payload: Seq<char>,
)
    requires
        !m.contains_key(t),
    ensures
        ({
            let (m2, a) = broker_transition(m, CommandView::Publish { topic: t, message: payload });
            m2 == m && a == ActionView::NoDelivery && !m2.contains_key(t)
        }),
{
}

/// Law: a publish to `t` while a subscriber is bound to `t` is delivered to
/// that subscriber and to no other: the one delivery asked for names the
/// bound subscriber, the topic and the payload, and the table does not move.
pub proof fn lemma_publish_delivered_to_subscriber(
    m: Map<Seq<char>, SubscriberId>,
    t: Seq<char>,
    payload: Seq<char>,
)
    requires
        m.contains_key(t),
    ensures
        ({
            let (m2, a) = broker_transition(m, CommandView::Publish { topic: t, message: payload });
            m2 == m && a == ActionView::Deliver { subscriber: m[t], topic: t, message: payload }
        }),
{
}

/// Law: every exit of a connection handler releases every topic the
/// session held — whether the peer closed cleanly, the transport failed, or
/// the broker dropped the delivery channel. The closing handler sends one
/// unsubscribe carrying all its topics; once the broker has executed it, a
/// publish to any of those topics finds no bound subscriber and delivers
/// nothing.
pub proof fn lemma_disconnect_releases_all(
    m: Map<Seq<char>, SubscriberId>,
    topics: Seq<Seq<char>>,
    subscriber: SubscriberId,
    i: int,
    payload: Seq<char>,
    ev: SessionEventView,
)
    requires
        0 <= i < topics.len(),
        ev is PeerClosed || ev is PeerTransportError || ev is DeliveryChannelClosed,
    ensures
        ({
            let (_, effects) = session_transition(topics, subscriber, ev);
            let (m2, _) = broker_transition(m, CommandView::Unsubscribe { topics });
            let (m3, a) = broker_transition(
                m2,
                CommandView::Publish { topic: topics[i], message: payload },
            );
            effects.to_broker == Some(CommandView::Unsubscribe { topics }) && effects.stop
                && !m2.contains_key(topics[i]) && a == ActionView::NoDelivery && m3 == m2
        }),
{
    assert(topic_set(topics).contains(topics[i]));
}

/// Law: an unsubscribe for a topic that was never bound is a no-op: no
/// error, no delivery, and no change to any binding.
pub proof fn lemma_unsubscribe_unbound_no_op(m: Map<Seq<char>, SubscriberId>, t: Seq<char>)
    requires
        !m.contains_key(t),
    ensures
        ({
            let (m2, a) = broker_transition(m, CommandView::Unsubscribe { topics: seq![t] });
            m2 == m && a == ActionView::NoDelivery
        }),
{
    let keys = topic_set(seq![t]);
    assert_maps_equal!(m.remove_keys(keys), m, k => {
        if k != t {
            if keys.contains(k) {
                let i = choose|i: int| 0 <= i < seq![t].len() && seq![t][i] == k;
                assert(seq![t][i] == k);
                assert(false);
            }
        }
    });
}

} // verus!
