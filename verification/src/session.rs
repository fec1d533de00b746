use vstd::prelude::*;

use crate::broker::{BrokerCommand, CommandView, SubscriberId};
use crate::messages::{Message, MessageView};

verus! {

/// The per-connection state a handler owns: which subscriber id the broker
/// delivers through for this connection, and every topic this connection has
/// asked to consume.
pub struct Session {
    /// The id under which this connection's delivery channel is registered.
    pub subscriber: SubscriberId,
    /// The topics this connection has subscribed to, in the order asked.
    pub subscriptions: Vec<String>,
}

impl Session {
    /// The subscription list as a sequence of topics.
    pub open spec fn topics(&self) -> Seq<Seq<char>> {
        self.subscriptions@.map_values(|t: String| t@)
    }

    /// A fresh session for subscriber `subscriber`: no topics yet.
    pub fn new(subscriber: SubscriberId) -> (r: Session)
        ensures
            r.subscriber == subscriber,
            r.topics() == Seq::<Seq<char>>::empty(),
    {
        let r = Session { subscriber, subscriptions: Vec::new() };
        proof {
            assert(r.topics() =~= Seq::<Seq<char>>::empty());
        }
        r
    }
}

/// One thing a connection handler can wake up to: the next ready event from
/// either of its two sources, the broker's delivery channel or the network
/// peer, in whichever order events become ready.
pub enum SessionEvent {
    /// The broker pushed a payload for a topic this connection is bound to.
    Delivery { topic: String, message: String },
    /// The broker side dropped this connection's delivery channel.
    DeliveryChannelClosed,
    /// One protocol message arrived from the network peer.
    PeerMessage { message: Message },
    /// A message arrived from the peer but did not decode.
    PeerDecodeError,
    /// The peer closed the connection cleanly.
    PeerClosed,
    /// The transport to the peer failed for good.
    PeerTransportError,
}

/// The mathematical value of a `SessionEvent`.
pub enum SessionEventView {
    Delivery { topic: Seq<char>, message: Seq<char> },
    DeliveryChannelClosed,
    PeerMessage { message: MessageView },
    PeerDecodeError,
    PeerClosed,
    PeerTransportError,
}

impl View for SessionEvent {
    type V = SessionEventView;

    open spec fn view(&self) -> SessionEventView {
        match self {
            SessionEvent::Delivery { topic, message } => SessionEventView::Delivery {
                topic: topic@,
                message: message@,
            },
            SessionEvent::DeliveryChannelClosed => SessionEventView::DeliveryChannelClosed,
            SessionEvent::PeerMessage { message } => SessionEventView::PeerMessage {
                message: message@,
            },
            SessionEvent::PeerDecodeError => SessionEventView::PeerDecodeError,
            SessionEvent::PeerClosed => SessionEventView::PeerClosed,
            SessionEvent::PeerTransportError => SessionEventView::PeerTransportError,
        }
    }
}

/// What a connection handler must do after one event: forward at most one
/// message to the peer, send at most one command to the broker, and stop or
/// keep running.
pub struct SessionEffects {
    /// A message to write to the network peer.
    pub send_peer: Option<Message>,
    /// A command to send to the broker actor.
    pub to_broker: Option<BrokerCommand>,
    /// Whether the handler is done and the connection ends.
    pub stop: bool,
}

/// The mathematical value of a `SessionEffects`.
pub struct SessionEffectsView {
    pub send_peer: Option<MessageView>,
    pub to_broker: Option<CommandView>,
    pub stop: bool,
}

impl View for SessionEffects {
    type V = SessionEffectsView;

    open spec fn view(&self) -> SessionEffectsView {
        SessionEffectsView {
            send_peer: match &self.send_peer {
                Some(m) => Some(m@),
                None => None,
            },
            to_broker: match &self.to_broker {
                Some(c) => Some(c@),
                None => None,
            },
            stop: self.stop,
        }
    }
}

/// How one event moves a session and what it makes the handler do: the
/// entire decision logic of a connection handler on one event.
///
/// A delivery from the broker is forwarded to the peer as a `Deliver`
/// message. A `Consume` from the peer is recorded and turned into a
/// subscribe command; a `Publish` is turned into a publish command; any
/// other peer message, and any message that failed to decode, is ignored.
/// The handler stops when the peer closes, when the transport fails, and
/// when the broker drops the delivery channel; on every one of these exits
/// it tells the broker to release every topic this session holds.
pub open spec fn session_transition(topics: Seq<Seq<char>>, subscriber: SubscriberId, ev: SessionEventView) -> (Seq<
    Seq<char>,
>, SessionEffectsView) {
    match ev {
        SessionEventView::Delivery { topic, message } => (
            topics,
            SessionEffectsView {
                send_peer: Some(MessageView::Deliver { topic, message }),
                to_broker: None,
                stop: false,
            },
        ),
        SessionEventView::DeliveryChannelClosed => (
            Seq::<Seq<char>>::empty(),
            SessionEffectsView {
                send_peer: None,
                to_broker: Some(CommandView::Unsubscribe { topics }),
                stop: true,
            },
        ),
        SessionEventView::PeerMessage { message } => match message {
            MessageView::Consume { topic } => (
                topics.push(topic),
                SessionEffectsView {
                    send_peer: None,
                    to_broker: Some(CommandView::Subscribe { topic, subscriber }),
                    stop: false,
                },
            ),
            MessageView::Publish { topic, message } => (
                topics,
                SessionEffectsView {
                    send_peer: None,
                    to_broker: Some(CommandView::Publish { topic, message }),
                    stop: false,
                },
            ),
            _ => (topics, SessionEffectsView { send_peer: None, to_broker: None, stop: false }),
        },
        SessionEventView::PeerDecodeError => (
            topics,
            SessionEffectsView { send_peer: None, to_broker: None, stop: false },
        ),
        SessionEventView::PeerClosed | SessionEventView::PeerTransportError => (
            Seq::<Seq<char>>::empty(),
            SessionEffectsView {
                send_peer: None,
                to_broker: Some(CommandView::Unsubscribe { topics }),
                stop: true,
            },
        ),
    }
}

/// One step of a connection handler: react to `event` and say what must be
/// sent where, and whether the connection is over. The behaviour is exactly
/// [`session_transition`] on the session's topics.
pub fn session_step(session: &mut Session, event: SessionEvent) -> (effects: SessionEffects)
    ensures
        final(session).subscriber == old(session).subscriber,
        (final(session).topics(), effects@) == session_transition(
            old(session).topics(),
            old(session).subscriber,
            event@,
        ),
{
    match event {
        SessionEvent::Delivery { topic, message } => SessionEffects {
            send_peer: Some(Message::Deliver { topic, message }),
            to_broker: None,
            stop: false,
        },
        SessionEvent::PeerMessage { message } => match message {
            Message::Consume { topic } => {
                let registered = topic.clone();
                session.subscriptions.push(registered);
                proof {
                    assert(session.topics() =~= old(session).topics().push(topic@));
                }
                SessionEffects {
                    send_peer: None,
                    to_broker: Some(
                        BrokerCommand::Subscribe { topic, subscriber: session.subscriber },
                    ),
                    stop: false,
                }
            },
            Message::Publish { topic, message } => SessionEffects {
                send_peer: None,
                to_broker: Some(BrokerCommand::Publish { topic, message }),
                stop: false,
            },
            _ => SessionEffects { send_peer: None, to_broker: None, stop: false },
        },
        SessionEvent::PeerDecodeError => SessionEffects {
            send_peer: None,
            to_broker: None,
            stop: false,
        },
        SessionEvent::DeliveryChannelClosed
        | SessionEvent::PeerClosed
        | SessionEvent::PeerTransportError => {
            let mut drained: Vec<String> = Vec::new();
            core::mem::swap(&mut drained, &mut session.subscriptions);
            proof {
                assert(session.topics() =~= Seq::<Seq<char>>::empty());
            }
            SessionEffects {
                send_peer: None,
                to_broker: Some(BrokerCommand::Unsubscribe { topics: drained }),
                stop: true,
            }
        },
    }
}

} // verus!
