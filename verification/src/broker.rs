use vstd::prelude::*;
use vstd::map::*;

verus! {

/// Identifies the delivery channel of one connection, as registered with the
/// broker actor. The surrounding runtime maps each id to a concrete channel.
pub type SubscriberId = u64;

/// A routing command sent from a connection handler to the broker actor.
pub enum BrokerCommand {
    /// Forward `message` to whatever subscriber is bound to `topic`.
    Publish { topic: String, message: String },
    /// Bind `topic` to `subscriber`, unless the topic is already bound.
    Subscribe { topic: String, subscriber: SubscriberId },
    /// Drop the bindings of all the given topics.
    Unsubscribe { topics: Vec<String> },
}

/// The mathematical value of a `BrokerCommand`.
pub enum CommandView {
    Publish { topic: Seq<char>, message: Seq<char> },
    Subscribe { topic: Seq<char>, subscriber: SubscriberId },
    Unsubscribe { topics: Seq<Seq<char>> },
}

impl View for BrokerCommand {
    type V = CommandView;

    open spec fn view(&self) -> CommandView {
        match self {
            BrokerCommand::Publish { topic, message } => CommandView::Publish {
                topic: topic@,
                message: message@,
            },
            BrokerCommand::Subscribe { topic, subscriber } => CommandView::Subscribe {
                topic: topic@,
                subscriber: *subscriber,
            },
            BrokerCommand::Unsubscribe { topics } => CommandView::Unsubscribe {
                topics: topics@.map_values(|t: String| t@),
            },
        }
    }
}

/// What the broker actor asks its surroundings to do after one command:
/// push a payload to exactly one subscriber, or nothing at all.
pub enum BrokerAction {
    Deliver { subscriber: SubscriberId, topic: String, message: String },
    NoDelivery,
}

/// The mathematical value of a `BrokerAction`.
pub enum ActionView {
    Deliver { subscriber: SubscriberId, topic: Seq<char>, message: Seq<char> },
    NoDelivery,
}

impl View for BrokerAction {
    type V = ActionView;

    open spec fn view(&self) -> ActionView {
        match self {
            BrokerAction::Deliver { subscriber, topic, message } => ActionView::Deliver {
                subscriber: *subscriber,
                topic: topic@,
                message: message@,
            },
            BrokerAction::NoDelivery => ActionView::NoDelivery,
        }
    }
}

/// The set of topics named by a sequence of topics.
pub open spec fn topic_set(topics: Seq<Seq<char>>) -> Set<Seq<char>> {
    Set::new(|t: Seq<char>| exists|i: int| 0 <= i < topics.len() && topics[i] == t)
}

/// How one command moves the routing table, and what it makes the broker do:
/// the entire behaviour of the broker actor on one command.
///
/// A publish leaves the table as it is and asks for a delivery to the bound
/// subscriber, or for nothing when the topic is unbound. A subscribe binds an
/// unbound topic and is rejected without effect on a bound one. An
/// unsubscribe drops every named binding, and silently passes over topics
/// that are not bound.
pub open spec fn broker_transition(m: Map<Seq<char>, SubscriberId>, c: CommandView) -> (Map<
    Seq<char>,
    SubscriberId,
>, ActionView) {
    match c {
        CommandView::Publish { topic, message } => (
            m,
            if m.contains_key(topic) {
                ActionView::Deliver { subscriber: m[topic], topic, message }
            } else {
                ActionView::NoDelivery
            },
        ),
        CommandView::Subscribe { topic, subscriber } => (
            if m.contains_key(topic) {
                m
            } else {
                m.insert(topic, subscriber)
            },
            ActionView::NoDelivery,
        ),
        CommandView::Unsubscribe { topics } => (m.remove_keys(topic_set(topics)), ActionView::NoDelivery),
    }
}

/// The topic -> subscriber binding set. A topic is bound to at most one
/// subscriber at a time; the broker actor is its sole owner and mutator.
pub struct RoutingTable {
    entries: Vec<(String, SubscriberId)>,
}

impl View for RoutingTable {
    type V = Map<Seq<char>, SubscriberId>;

    closed spec fn view(&self) -> Map<Seq<char>, SubscriberId> {
        Map::new(
            |t: Seq<char>| exists|i: int| self.has_key_at(i, t),
            |t: Seq<char>| self.entries@[choose|i: int| self.has_key_at(i, t)].1,
        )
    }
}

impl RoutingTable {
    /// Entry `i` exists and binds `topic`.
    spec fn has_key_at(&self, i: int, topic: Seq<char>) -> bool {
        0 <= i < self.entries@.len() && self.entries@[i].0@ == topic
    }

    /// No topic occurs in two entries.
    pub closed spec fn wf(&self) -> bool {
        forall|i: int, j: int|
            0 <= i < j < self.entries@.len() ==> self.entries@[i].0@ != self.entries@[j].0@
    }

    /// An empty table: nothing is bound.
    pub fn new() -> (r: RoutingTable)
        ensures
            r.wf(),
            r@ == Map::<Seq<char>, SubscriberId>::empty(),
    {
        let r = RoutingTable { entries: Vec::new() };
        proof {
            assert(r@ =~= Map::<Seq<char>, SubscriberId>::empty());
        }
        r
    }

    /// The position of the entry binding `topic`, if one exists.
    fn index_of(&self, topic: &String) -> (r: Option<usize>)
        ensures
            match r {
                Some(i) => self.has_key_at(i as int, topic@),
                None => forall|i: int| !self.has_key_at(i, topic@),
            },
    {
        let n = self.entries.len();
        for i in 0..n
            invariant
                n == self.entries@.len(),
                forall|j: int| 0 <= j < i ==> self.entries@[j].0@ != topic@,
        {
            if self.entries[i].0 == *topic {
                return Some(i);
            }
        }
        None
    }

    /// The subscriber bound to `topic`, if the topic is bound.
    pub fn lookup(&self, topic: &String) -> (r: Option<SubscriberId>)
        requires
            self.wf(),
        ensures
            match r {
                Some(s) => self@.contains_key(topic@) && self@[topic@] == s,
                None => !self@.contains_key(topic@),
            },
    {
        match self.index_of(topic) {
            Some(i) => {
                let s = self.entries[i].1;
                proof {
                    let j = choose|j: int| self.has_key_at(j, topic@);
                    assert(self.has_key_at(i as int, topic@));
                    assert(j == i as int);
                }
                Some(s)
            },
            None => {
                proof {
                    assert(!(exists|i: int| self.has_key_at(i, topic@)));
                }
                None
            },
        }
    }

    /// Bind `topic` to `subscriber` if the topic is unbound; reject the
    /// request, leaving the table untouched, if it is already bound.
    /// Returns whether the binding was made.
    pub fn bind(&mut self, topic: String, subscriber: SubscriberId) -> (r: bool)
        requires
            old(self).wf(),
        ensures
            final(self).wf(),
            r == !old(self)@.contains_key(topic@),
            r ==> final(self)@ == old(self)@.insert(topic@, subscriber),
            !r ==> *final(self) == *old(self),
    {
        match self.index_of(&topic) {
            Some(_) => false,
            None => {
                let ghost oldself = *self;
                self.entries.push((topic, subscriber));
                proof {
                    let n = oldself.entries@.len() as int;
                    let newm = oldself@.insert(topic@, subscriber);
                    assert forall|i: int, j: int|
                        0 <= i < j < self.entries@.len() implies self.entries@[i].0@
                        != self.entries@[j].0@ by {
                        if j < n {
                            assert(oldself.entries@[i].0@ != oldself.entries@[j].0@);
                        } else {
                            assert(!oldself.has_key_at(i, topic@));
                        }
                    }
                    assert_maps_equal!(self@, newm, t => {
                        if t == topic@ {
                            assert(self.has_key_at(n, t));
                            if self@.contains_key(t) {
                                let k = choose|k: int| self.has_key_at(k, t);
                                assert(self.has_key_at(k, t));
                                if k != n {
                                    assert(!oldself.has_key_at(k, topic@));
                                    assert(false);
                                }
                            }
                        } else {
                            if self@.contains_key(t) {
                                let k = choose|k: int| self.has_key_at(k, t);
                                assert(self.has_key_at(k, t));
                                assert(k != n);
                                assert(oldself.has_key_at(k, t));
                                let k2 = choose|k2: int| oldself.has_key_at(k2, t);
                                assert(oldself.has_key_at(k2, t));
                                assert(self.has_key_at(k2, t));
                                assert(k2 == k);
                            }
                            if oldself@.contains_key(t) {
                                let k = choose|k: int| oldself.has_key_at(k, t);
                                assert(oldself.has_key_at(k, t));
                                assert(self.has_key_at(k, t));
                                let k2 = choose|k2: int| self.has_key_at(k2, t);
                                assert(self.has_key_at(k2, t));
                                assert(k2 == k);
                            }
                        }
                    });
                }
                true
            },
        }
    }

    /// Drop the binding of `topic`; doing so when the topic is unbound is a
    /// no-op.
    pub fn unbind(&mut self, topic: &String)
        requires
            old(self).wf(),
        ensures
            final(self).wf(),
            final(self)@ == old(self)@.remove(topic@),
    {
        match self.index_of(topic) {
            Some(i) => {
                let ghost oldself = *self;
                self.entries.remove(i);
                proof {
                    let n = oldself.entries@.len() as int;
                    let ii = i as int;
                    let newm = oldself@.remove(topic@);
                    assert forall|a: int|
                        0 <= a < self.entries@.len() implies (self.entries@[a] == (
                    if a < ii {
                        oldself.entries@[a]
                    } else {
                        oldself.entries@[a + 1]
                    })) by {}
                    assert forall|a: int, b: int|
                        0 <= a < b < self.entries@.len() implies self.entries@[a].0@
                        != self.entries@[b].0@ by {
                        let oa = if a < ii { a } else { a + 1 };
                        let ob = if b < ii { b } else { b + 1 };
                        assert(oldself.entries@[oa].0@ != oldself.entries@[ob].0@);
                    }
                    assert_maps_equal!(self@, newm, t => {
                        if t == topic@ {
                            if self@.contains_key(t) {
                                let a = choose|a: int| self.has_key_at(a, t);
                                assert(self.has_key_at(a, t));
                                let o = if a < ii { a } else { a + 1 };
                                assert(oldself.has_key_at(o, t));
                                assert(oldself.has_key_at(ii, t));
                                assert(false);
                            }
                        } else {
                            if self@.contains_key(t) {
                                let a = choose|a: int| self.has_key_at(a, t);
                                assert(self.has_key_at(a, t));
                                let o = if a < ii { a } else { a + 1 };
                                assert(oldself.has_key_at(o, t));
                                let o2 = choose|o2: int| oldself.has_key_at(o2, t);
                                assert(oldself.has_key_at(o2, t));
                                assert(o2 == o);
                            }
                            if oldself@.contains_key(t) {
                                let o = choose|o: int| oldself.has_key_at(o, t);
                                assert(oldself.has_key_at(o, t));
                                assert(oldself.has_key_at(ii, topic@));
                                assert(o != ii);
                                let a = if o < ii { o } else { o - 1 };
                                assert(self.has_key_at(a, t));
                                let a2 = choose|a2: int| self.has_key_at(a2, t);
                                assert(self.has_key_at(a2, t));
                                assert(a2 == a);
                            }
                        }
                    });
                }
            },
            None => {
                proof {
                    assert(!self@.contains_key(topic@));
                    assert(self@ =~= self@.remove(topic@));
                }
            },
        }
    }

    /// Drop the bindings of every topic in `topics`; topics that are not
    /// bound are passed over silently.
    pub fn unbind_all(&mut self, topics: &Vec<String>)
        requires
            old(self).wf(),
        ensures
            final(self).wf(),
            final(self)@ == old(self)@.remove_keys(topic_set(topics@.map_values(|t: String| t@))),
            forall|i: int| #![auto]
                0 <= i < topics@.len() ==> !final(self)@.contains_key(topics@[i]@),
    {
        let ghost orig = *self;
        let ghost all = topics@.map_values(|t: String| t@);
        let n = topics.len();
        for k in 0..n
            invariant
                n == topics@.len(),
                all == topics@.map_values(|t: String| t@),
                self.wf(),
                self@ == orig@.remove_keys(topic_set(all.take(k as int))),
        {
            let ghost before = *self;
            self.unbind(&topics[k]);
            proof {
                assert(all.take(k + 1).drop_last() =~= all.take(k as int));
                assert forall|t: Seq<char>| #![auto]
                    topic_set(all.take(k + 1)).contains(t) == (topic_set(all.take(k as int)).contains(
                    t) || t == all[k as int]) by {
                    if t == all[k as int] {
                        assert(all.take(k + 1)[k as int] == t);
                    }
                    if topic_set(all.take(k as int)).contains(t) {
                        let i = choose|i: int|
                            0 <= i < all.take(k as int).len() && #[trigger] all.take(k as int)[i]
                                == t;
                        assert(all.take(k + 1)[i] == t);
                    }
                    if topic_set(all.take(k + 1)).contains(t) && t != all[k as int] {
                        let i = choose|i: int|
                            0 <= i < all.take(k + 1).len() && #[trigger] all.take(k + 1)[i] == t;
                        assert(all.take(k as int)[i] == t);
                    }
                }
                assert(self@ =~= orig@.remove_keys(topic_set(all.take(k + 1))));
            }
        }
        proof {
            assert(all.take(n as int) =~= all);
            assert forall|i: int| #![auto]
                0 <= i < topics@.len() implies !self@.contains_key(topics@[i]@) by {
                assert(topic_set(all).contains(all[i]));
            }
        }
    }
}

/// One step of the broker actor: execute `command` against `table` and say
/// what, if anything, must be delivered. The behaviour is exactly
/// [`broker_transition`] on the table's mathematical value.
pub fn broker_step(table: &mut RoutingTable, command: BrokerCommand) -> (action: BrokerAction)
    requires
        old(table).wf(),
    ensures
        final(table).wf(),
        (final(table)@, action@) == broker_transition(old(table)@, command@),
{
    match command {
        BrokerCommand::Publish { topic, message } => {
            match table.lookup(&topic) {
                Some(subscriber) => BrokerAction::Deliver { subscriber, topic, message },
                None => BrokerAction::NoDelivery,
            }
        },
        BrokerCommand::Subscribe { topic, subscriber } => {
            table.bind(topic, subscriber);
            BrokerAction::NoDelivery
        },
        BrokerCommand::Unsubscribe { topics } => {
            table.unbind_all(&topics);
            BrokerAction::NoDelivery
        },
    }
}

} // verus!
