//! The decisions of the gossip engine. The networking glue polls the notification service, the
//! sync service and the subscribers' channels, hands what it saw to these functions and performs
//! the actions they return; the engine keeps the forwarding state and the subscribers of each
//! topic.
use vstd::prelude::*;
use crate::keyed_map::KeyedMap;

verus! {

/// A gossip topic (a block hash).
pub type Topic = [u8; 32];

/// A peer of the network, by the bytes of its id.
pub type PeerId = Vec<u8>;

/// A subscriber's channel, by the handle the glue gave it.
pub type SinkId = u64;

/// A notification on a topic, as it is forwarded to subscribers.
#[derive(Clone, Debug, PartialEq, Eq)]
pub struct TopicNotification {
    /// The message.
    pub message: Vec<u8>,
    /// The peer that sent it, if it came from the network.
    pub sender: Option<PeerId>,
}

/// The role a peer was observed in.
#[derive(Clone, Copy, Debug, PartialEq, Eq, Structural)]
pub enum ObservedRole {
    /// A full node.
    Full,
    /// A light client.
    Light,
    /// An authority.
    Authority,
}

/// An event of the notification service, with what the network says of the peer's role.
#[derive(Debug)]
pub enum NotificationEvent {
    /// A peer asks to open a substream; `role` is the peer's role as far as it can be
    /// determined from its handshake.
    ValidateInboundSubstream { peer: PeerId, role: Option<ObservedRole> },
    /// A substream to a peer was opened.
    NotificationStreamOpened { peer: PeerId, role: Option<ObservedRole> },
    /// A substream to a peer was closed.
    NotificationStreamClosed { peer: PeerId },
    /// A notification arrived; `to_forward` is what the consensus gossip made of it: the
    /// notifications for local subscribers, by topic.
    NotificationReceived { peer: PeerId, to_forward: Vec<(Topic, TopicNotification)> },
}

/// An event of the sync service.
#[derive(Debug)]
pub enum SyncEvent {
    /// A peer connected.
    PeerConnected(PeerId),
    /// A peer disconnected.
    PeerDisconnected(PeerId),
}

/// What polling a stream gave.
#[derive(Debug)]
pub enum Polled<T> {
    /// Nothing yet.
    Pending,
    /// The stream ended.
    Closed,
    /// An item.
    Ready(T),
}

/// What the glue must do for an event.
#[derive(Debug)]
pub enum GossipAction {
    /// Answer a substream request: accept it or reject it.
    AnswerValidation { accept: bool },
    /// Tell the consensus gossip of a new peer.
    NewPeer { peer: PeerId, role: ObservedRole },
    /// Note that the role of a peer could not be determined.
    UnknownRole { peer: PeerId },
    /// Tell the consensus gossip that a peer disconnected.
    PeerDisconnected { peer: PeerId },
    /// Add a peer to the reserved set of the gossip protocol.
    AddReserved { peer: PeerId },
    /// Remove a peer from the reserved set of the gossip protocol.
    RemoveReserved { peer: PeerId },
}

/// What one round of polling the network gave, while the engine is idle.
#[derive(Debug)]
pub enum IdleOutcome {
    /// Both streams are pending: stop polling the network.
    Wait,
    /// Perform the actions and poll again.
    Continue(Vec<GossipAction>),
    /// Perform the actions; then the engine has terminated.
    Terminate(Vec<GossipAction>),
}

/// A step of forwarding buffered notifications.
#[derive(Debug)]
pub enum BusyStep {
    /// Nothing was buffered: the engine is idle again.
    Idle,
    /// The front notification's topic has no subscriber: it was dropped.
    Dropped,
    /// The front notification waits for these subscribers of its topic to be polled.
    CheckSinks { topic: Topic, sinks: Vec<SinkId> },
}

/// What polling a subscriber's channel gave.
#[derive(Clone, Copy, Debug, PartialEq, Eq, Structural)]
pub enum SinkPoll {
    /// It can take a notification.
    Ready,
    /// Its receiver was dropped.
    Closed,
    /// It is full.
    Pending,
}

/// What to do with the front notification once its subscribers were polled.
#[derive(Debug)]
pub enum Delivery {
    /// A subscriber is full: the notification stays in front; stop forwarding for now.
    Blocked,
    /// Every subscriber was closed: the topic and the notification were dropped.
    Dropped,
    /// Send the notification to each of these subscribers.
    Send { sinks: Vec<SinkId>, notification: TopicNotification },
}

/// The smallest buffer of a subscriber's channel.
pub open spec fn min_channel_capacity() -> nat {
    10
}

/// The subscribers of a topic that stay: those whose channel was not found closed.
pub open spec fn open_sinks(sinks: Seq<SinkId>, polls: Seq<SinkPoll>) -> Seq<SinkId>
    decreases sinks.len(),
{
    if sinks.len() == 0 || polls.len() == 0 {
        Seq::empty()
    } else {
        let rest = open_sinks(sinks.drop_last(), polls.drop_last());
        if polls.last() is Closed { rest } else { rest.push(sinks.last()) }
    }
}

/// The sinks of a list that are not in `closed`.
pub open spec fn without(sinks: Seq<SinkId>, closed: Seq<SinkId>) -> Seq<SinkId> {
    sinks.filter(|s: SinkId| !closed.contains(s))
}

/// The gossip engine's forwarding state and subscribers.
pub struct GossipForwarder {
    busy: bool,
    to_forward: Vec<(Topic, TopicNotification)>,
    message_sinks: KeyedMap<Topic, Vec<SinkId>>,
    terminated: bool,
}

impl GossipForwarder {
    /// Whether the engine forwards buffered notifications (and does not poll the network).
    pub closed spec fn is_busy(&self) -> bool {
        self.busy
    }

    /// The buffered notifications, front first.
    pub closed spec fn buffered(&self) -> Seq<(Topic, TopicNotification)> {
        self.to_forward@
    }

    /// The subscribers of each topic.
    pub closed spec fn sinks(&self) -> Map<Seq<u8>, Seq<SinkId>> {
        Map::new(|t: Seq<u8>| self.message_sinks@.contains_key(t), |t: Seq<u8>| self.message_sinks@[t]@)
    }

    /// Whether the engine terminated.
    pub closed spec fn terminated(&self) -> bool {
        self.terminated
    }

    /// Every topic that is kept has a subscriber, and an idle engine buffers nothing.
    pub closed spec fn wf(&self) -> bool {
        &&& forall|t: Seq<u8>| #[trigger] self.message_sinks@.contains_key(t) ==> self.message_sinks@[t]@.len() > 0
        &&& !self.busy ==> self.to_forward@.len() == 0
    }

    /// A new engine: idle, with no subscribers.
    pub fn new() -> (engine: GossipForwarder)
        ensures
            engine.wf(),
            !engine.is_busy(),
            engine.buffered() == Seq::<(Topic, TopicNotification)>::empty(),
            engine.sinks() == Map::<Seq<u8>, Seq<SinkId>>::empty(),
            !engine.terminated(),
    {
        let engine = GossipForwarder {
            busy: false,
            to_forward: Vec::new(),
            message_sinks: KeyedMap::new(),
            terminated: false,
        };
        assert(engine.sinks() =~= Map::<Seq<u8>, Seq<SinkId>>::empty());
        engine
    }

    /// Whether the engine terminated.
    pub fn is_terminated(&self) -> (t: bool)
        ensures
            t == self.terminated(),
    {
        self.terminated
    }

    /// Whether the engine is forwarding buffered notifications.
    pub fn is_forwarding(&self) -> (b: bool)
        ensures
            b == self.is_busy(),
    {
        self.busy
    }

    /// Subscribe `sink` to `topic`, after `past` earlier messages of the topic: the channel must
    /// be able to hold all of them and at least ten. Returns that capacity; the glue opens the
    /// channel with it and sends the earlier messages into it.
    pub fn messages_for(&mut self, topic: Topic, past: usize, sink: SinkId) -> (capacity: usize)
        requires
            old(self).wf(),
        ensures
            final(self).wf(),
            capacity == if past > min_channel_capacity() { past as nat } else { min_channel_capacity() },
            final(self).sinks() == old(self).sinks().insert(topic@,
                if old(self).sinks().contains_key(topic@) { old(self).sinks()[topic@] } else { Seq::empty() }.push(sink)),
            final(self).is_busy() == old(self).is_busy(),
            final(self).buffered() == old(self).buffered(),
            final(self).terminated() == old(self).terminated(),
    {
        let mut sinks = match self.message_sinks.remove(&topic) {
            Some(s) => s,
            None => Vec::new(),
        };
        sinks.push(sink);
        self.message_sinks.insert(topic, sinks);
        proof {
            assert(self.sinks() =~= old(self).sinks().insert(topic@,
                if old(self).sinks().contains_key(topic@) { old(self).sinks()[topic@] } else { Seq::empty() }.push(sink)));
        }
        if past > 10 { past } else { 10 }
    }
}

/// The actions for an event of the notification service.
pub open spec fn event_actions(ev: NotificationEvent) -> Seq<GossipAction> {
    match ev {
        NotificationEvent::ValidateInboundSubstream { peer, role } => seq![GossipAction::AnswerValidation { accept: role is Some }],
        NotificationEvent::NotificationStreamOpened { peer, role } => match role {
            Some(r) => seq![GossipAction::NewPeer { peer, role: r }],
            None => seq![GossipAction::UnknownRole { peer }],
        },
        NotificationEvent::NotificationStreamClosed { peer } => seq![GossipAction::PeerDisconnected { peer }],
        NotificationEvent::NotificationReceived { peer, to_forward } => Seq::empty(),
    }
}

/// The actions for an event of the sync service.
pub open spec fn sync_actions(ev: SyncEvent) -> Seq<GossipAction> {
    match ev {
        SyncEvent::PeerConnected(peer) => seq![GossipAction::AddReserved { peer }],
        SyncEvent::PeerDisconnected(peer) => seq![GossipAction::RemoveReserved { peer }],
    }
}

/// The actions of one round of polling the network: those of the notification event, then
/// those of the sync event, unless the notification stream ended first.
pub open spec fn idle_actions(n: Polled<NotificationEvent>, s: Polled<SyncEvent>) -> Seq<GossipAction> {
    match n {
        Polled::Closed => Seq::empty(),
        Polled::Ready(ev) => event_actions(ev) + match s {
            Polled::Ready(e) => sync_actions(e),
            _ => Seq::empty(),
        },
        Polled::Pending => match s {
            Polled::Ready(e) => sync_actions(e),
            _ => Seq::empty(),
        },
    }
}

/// Whether a round of polling ends the engine: one of the streams ended.
pub open spec fn idle_terminates(n: Polled<NotificationEvent>, s: Polled<SyncEvent>) -> bool {
    n is Closed || s is Closed
}

impl GossipForwarder {
    /// One round of polling the network while idle: `notification` and `sync` are what polling
    /// the two streams gave. A received notification makes the engine forward what the
    /// consensus gossip made of it; the end of either stream terminates the engine.
    pub fn on_idle_poll(&mut self, notification: Polled<NotificationEvent>, sync: Polled<SyncEvent>) -> (outcome: IdleOutcome)
        requires
            old(self).wf(),
            !old(self).is_busy(),
        ensures
            final(self).wf(),
            match outcome {
                IdleOutcome::Wait => notification is Pending && sync is Pending,
                IdleOutcome::Continue(actions) => !(notification is Pending && sync is Pending)
                    && !idle_terminates(notification, sync) && actions@ == idle_actions(notification, sync),
                IdleOutcome::Terminate(actions) => idle_terminates(notification, sync)
                    && actions@ == idle_actions(notification, sync),
            },
            final(self).terminated() == (old(self).terminated() || idle_terminates(notification, sync)),
            final(self).sinks() == old(self).sinks(),
            notification matches Polled::Ready(NotificationEvent::ValidateInboundSubstream { peer, role }) ==> match outcome {
                IdleOutcome::Continue(actions) => actions@.len() > 0
                    && actions@[0] == (GossipAction::AnswerValidation { accept: role matches Some(_) }),
                IdleOutcome::Terminate(actions) => actions@.len() > 0
                    && actions@[0] == (GossipAction::AnswerValidation { accept: role matches Some(_) }),
                IdleOutcome::Wait => false,
            },
            notification matches Polled::Ready(NotificationEvent::NotificationReceived { peer, to_forward })
                ==> final(self).is_busy() && final(self).buffered() == to_forward@,
            !(notification matches Polled::Ready(NotificationEvent::NotificationReceived { peer, to_forward }))
                ==> !final(self).is_busy() && final(self).buffered() == old(self).buffered(),
    {
        let notification_pending = match notification {
            Polled::Pending => true,
            _ => false,
        };
        let sync_pending = match sync {
            Polled::Pending => true,
            _ => false,
        };
        if notification_pending && sync_pending {
            return IdleOutcome::Wait;
        }
        let mut actions: Vec<GossipAction> = Vec::new();
        let ghost n = notification;
        let ghost sy = sync;
        match notification {
            Polled::Ready(event) => {
                match event {
                    NotificationEvent::ValidateInboundSubstream { peer, role } => {
                        actions.push(GossipAction::AnswerValidation { accept: role.is_some() });
                    },
                    NotificationEvent::NotificationStreamOpened { peer, role } => {
                        match role {
                            Some(r) => actions.push(GossipAction::NewPeer { peer, role: r }),
                            None => actions.push(GossipAction::UnknownRole { peer }),
                        }
                    },
                    NotificationEvent::NotificationStreamClosed { peer } => {
                        actions.push(GossipAction::PeerDisconnected { peer });
                    },
                    NotificationEvent::NotificationReceived { peer, to_forward } => {
                        self.to_forward = to_forward;
                        self.busy = true;
                    },
                }
            },
            Polled::Closed => {
                self.terminated = true;
                assert(actions@ =~= idle_actions(n, sy));
                return IdleOutcome::Terminate(actions);
            },
            Polled::Pending => {},
        }
        let ghost first = actions@;
        match sync {
            Polled::Ready(event) => match event {
                SyncEvent::PeerConnected(peer) => actions.push(GossipAction::AddReserved { peer }),
                SyncEvent::PeerDisconnected(peer) => actions.push(GossipAction::RemoveReserved { peer }),
            },
            Polled::Closed => {
                self.terminated = true;
                assert(actions@ =~= idle_actions(n, sy));
                return IdleOutcome::Terminate(actions);
            },
            Polled::Pending => {},
        }
        assert(actions@ =~= idle_actions(n, sy));
        IdleOutcome::Continue(actions)
    }

    /// Take the next step of forwarding: go idle when nothing is buffered, drop the front
    /// notification when its topic has no subscriber, or name the subscribers that the glue must
    /// poll before the front notification can be delivered.
    pub fn step_busy(&mut self) -> (step: BusyStep)
        requires
            old(self).wf(),
            old(self).is_busy(),
        ensures
            final(self).wf(),
            final(self).sinks() == old(self).sinks(),
            final(self).terminated() == old(self).terminated(),
            old(self).buffered().len() == 0 ==> step is Idle && !final(self).is_busy(),
            old(self).buffered().len() > 0 && !old(self).sinks().contains_key(old(self).buffered()[0].0@)
                ==> step is Dropped && final(self).is_busy() && final(self).buffered() == old(self).buffered().drop_first(),
            step is Dropped ==> forwarding_step(*old(self), *final(self), Seq::<SinkId>::empty()),
            old(self).buffered().len() > 0 && old(self).sinks().contains_key(old(self).buffered()[0].0@)
                ==> (step matches BusyStep::CheckSinks { topic, sinks } && topic == old(self).buffered()[0].0
                    && sinks@ == old(self).sinks()[topic@]) && final(self).is_busy()
                    && final(self).buffered() == old(self).buffered(),
    {
        if self.to_forward.len() == 0 {
            self.busy = false;
            return BusyStep::Idle;
        }
        let topic = self.to_forward[0].0;
        match self.message_sinks.get(&topic) {
            Some(sinks) => {
                let copy = sinks.clone();
                assert(copy@ =~= sinks@);
                BusyStep::CheckSinks { topic, sinks: copy }
            },
            None => {
                self.to_forward.remove(0);
                assert(self.to_forward@ =~= old(self).to_forward@.drop_first());
                BusyStep::Dropped
            },
        }
    }

    /// Deliver the front notification, given what polling each subscriber of its topic gave
    /// (in the order `step_busy` named them). A full subscriber blocks delivery; otherwise the
    /// notification leaves the buffer, closed subscribers are dropped (with the topic when none
    /// is left) and the notification goes to the others.
    pub fn deliver_front(&mut self, polls: Vec<SinkPoll>) -> (delivery: Delivery)
        requires
            old(self).wf(),
            old(self).is_busy(),
            old(self).buffered().len() > 0,
            old(self).sinks().contains_key(old(self).buffered()[0].0@),
            polls@.len() == old(self).sinks()[old(self).buffered()[0].0@].len(),
        ensures
            final(self).wf(),
            final(self).is_busy(),
            final(self).terminated() == old(self).terminated(),
            ({
                let (topic, notification) = old(self).buffered()[0];
                let kept = open_sinks(old(self).sinks()[topic@], polls@);
                &&& (exists|i: int| 0 <= i < polls@.len() && polls@[i] is Pending) ==> {
                    &&& delivery is Blocked
                    &&& final(self).buffered() == old(self).buffered()
                    &&& final(self).sinks() == old(self).sinks()
                }
                &&& !(exists|i: int| 0 <= i < polls@.len() && polls@[i] is Pending) ==> {
                    &&& final(self).buffered() == old(self).buffered().drop_first()
                    &&& kept.len() == 0 ==> delivery is Dropped && final(self).sinks() == old(self).sinks().remove(topic@)
                    &&& kept.len() > 0 ==> (delivery matches Delivery::Send { sinks, notification: n }
                        && sinks@ == kept && n == notification)
                        && final(self).sinks() == old(self).sinks().insert(topic@, kept)
                }
            }),
            (forall|i: int| 0 <= i < polls@.len() ==> !(#[trigger] polls@[i] is Closed))
                ==> forwarding_step(*old(self), *final(self), match delivery {
                    Delivery::Send { sinks, notification } => sinks@,
                    _ => Seq::<SinkId>::empty(),
                }),
    {
        if any_pending(&polls) {
            return Delivery::Blocked;
        }
        let (topic, notification) = self.to_forward.remove(0);
        let sinks = match self.message_sinks.remove(&topic) {
            Some(s) => s,
            None => Vec::new(),
        };
        let kept = keep_open(&sinks, &polls);
        proof {
            assert(self.to_forward@ =~= old(self).to_forward@.drop_first());
            if forall|i: int| 0 <= i < polls@.len() ==> !(#[trigger] polls@[i] is Closed) {
                assert forall|i: int| 0 <= i < polls@.len() implies #[trigger] polls@[i] is Ready by {
                    assert(!(polls@[i] is Closed));
                    assert(!(polls@[i] is Pending));
                }
                Self::lemma_ready_subscribers_kept(sinks@, polls@);
                assert(old(self).sinks().insert(topic@, sinks@) =~= old(self).sinks());
            }
        }
        if kept.len() == 0 {
            proof {
                assert(self.sinks() =~= old(self).sinks().remove(topic@));
            }
            return Delivery::Dropped;
        }
        let copy = kept.clone();
        assert(copy@ =~= kept@);
        self.message_sinks.insert(topic, kept);
        proof {
            assert(self.sinks() =~= old(self).sinks().insert(topic@, copy@));
        }
        Delivery::Send { sinks: copy, notification }
    }
}

/// Whether some subscriber is full.
fn any_pending(polls: &Vec<SinkPoll>) -> (pending: bool)
    ensures
        pending == exists|i: int| 0 <= i < polls@.len() && polls@[i] is Pending,
{
    let mut i: usize = 0;
    while i < polls.len()
        invariant
            0 <= i <= polls@.len(),
            forall|j: int| 0 <= j < i ==> !(polls@[j] is Pending),
        decreases polls@.len() - i,
    {
        if polls[i] == SinkPoll::Pending {
            return true;
        }
        i = i + 1;
    }
    false
}

/// The subscribers whose channel was not found closed.
fn keep_open(sinks: &Vec<SinkId>, polls: &Vec<SinkPoll>) -> (kept: Vec<SinkId>)
    requires
        sinks@.len() == polls@.len(),
    ensures
        kept@ == open_sinks(sinks@, polls@),
{
    let mut kept: Vec<SinkId> = Vec::new();
    let mut i: usize = 0;
    while i < sinks.len()
        invariant
            0 <= i <= sinks@.len(),
            sinks@.len() == polls@.len(),
            kept@ == open_sinks(sinks@.take(i as int), polls@.take(i as int)),
        decreases sinks@.len() - i,
    {
        proof {
            assert(sinks@.take(i as int + 1).drop_last() =~= sinks@.take(i as int));
            assert(polls@.take(i as int + 1).drop_last() =~= polls@.take(i as int));
        }
        if polls[i] != SinkPoll::Closed {
            kept.push(sinks[i]);
        }
        i = i + 1;
    }
    assert(sinks@.take(i as int) =~= sinks@);
    assert(polls@.take(i as int) =~= polls@);
    kept
}

/// Whether a subscriber is in a list.
fn in_list(list: &Vec<SinkId>, x: SinkId) -> (found: bool)
    ensures
        found == list@.contains(x),
{
    let mut i: usize = 0;
    while i < list.len()
        invariant
            0 <= i <= list@.len(),
            forall|j: int| 0 <= j < i ==> list@[j] != x,
        decreases list@.len() - i,
    {
        if list[i] == x {
            return true;
        }
        i = i + 1;
    }
    false
}

/// The subscribers of a list that are not closed.
fn keep_unclosed(sinks: &Vec<SinkId>, closed: &Vec<SinkId>) -> (kept: Vec<SinkId>)
    ensures
        kept@ == without(sinks@, closed@),
{
    let ghost pred = |s: SinkId| !closed@.contains(s);
    let mut kept: Vec<SinkId> = Vec::new();
    let mut i: usize = 0;
    assert(sinks@.take(0) =~= Seq::<SinkId>::empty());
    while i < sinks.len()
        invariant
            0 <= i <= sinks@.len(),
            pred == (|s: SinkId| !closed@.contains(s)),
            kept@ == sinks@.take(i as int).filter(pred),
        decreases sinks@.len() - i,
    {
        proof {
            assert(sinks@.take(i as int + 1) =~= sinks@.take(i as int).push(sinks@[i as int]));
            sinks@.take(i as int).lemma_filter_push(sinks@[i as int], pred);
        }
        if !in_list(closed, sinks[i]) {
            kept.push(sinks[i]);
        }
        i = i + 1;
    }
    assert(sinks@.take(i as int) =~= sinks@);
    kept
}

/// The subscribers of each topic once the closed ones are gone; topics left without any are
/// dropped.
pub open spec fn after_cleanup(sinks: Map<Seq<u8>, Seq<SinkId>>, closed: Seq<SinkId>) -> Map<Seq<u8>, Seq<SinkId>> {
    Map::new(
        |t: Seq<u8>| sinks.contains_key(t) && without(sinks[t], closed).len() > 0,
        |t: Seq<u8>| without(sinks[t], closed),
    )
}

impl GossipForwarder {
    /// Periodic maintenance: drop the subscribers whose channel is closed (`closed`, as the glue
    /// found them), and the topics left without subscribers.
    pub fn drop_closed_sinks(&mut self, closed: &Vec<SinkId>)
        requires
            old(self).wf(),
        ensures
            final(self).wf(),
            final(self).sinks() == after_cleanup(old(self).sinks(), closed@),
            final(self).is_busy() == old(self).is_busy(),
            final(self).buffered() == old(self).buffered(),
            final(self).terminated() == old(self).terminated(),
    {
        let topics = self.message_sinks.keys();
        let ghost old_ms = self.message_sinks@;
        let ghost order = self.message_sinks.key_seq();
        proof {
            assert forall|j: int| 0 <= j < topics@.len() implies #[trigger] topics@[j]@ == order[j] by {
                assert(topics@.map_values(|k: Topic| k@)[j] == topics@[j]@);
            }
        }
        let mut i: usize = 0;
        while i < topics.len()
            invariant
                0 <= i <= topics@.len(),
                topics@.len() == order.len(),
                forall|j: int| 0 <= j < topics@.len() ==> #[trigger] topics@[j]@ == order[j],
                order.no_duplicates(),
                order.to_set() == old_ms.dom(),
                old_ms == old(self).message_sinks@,
                self.busy == old(self).busy,
                self.to_forward@ == old(self).to_forward@,
                self.terminated == old(self).terminated,
                forall|t: Seq<u8>| #[trigger] self.message_sinks@.contains_key(t) ==> self.message_sinks@[t]@.len() > 0,
                forall|t: Seq<u8>| #[trigger] order.take(i as int).contains(t) ==> {
                    &&& self.message_sinks@.contains_key(t) == (old_ms.contains_key(t) && without(old_ms[t]@, closed@).len() > 0)
                    &&& self.message_sinks@.contains_key(t) ==> self.message_sinks@[t]@ == without(old_ms[t]@, closed@)
                },
                forall|t: Seq<u8>| !#[trigger] order.take(i as int).contains(t) ==> {
                    &&& self.message_sinks@.contains_key(t) == old_ms.contains_key(t)
                    &&& self.message_sinks@.contains_key(t) ==> self.message_sinks@[t] == old_ms[t]
                },
            decreases topics@.len() - i,
        {
            let topic = topics[i];
            let ghost before = self.message_sinks@;
            let ghost done = order.take(i as int);
            let ghost next = order.take(i as int + 1);
            proof {
                assert(next =~= done.push(topic@));
                assert(!done.contains(topic@)) by {
                    if done.contains(topic@) {
                        let j = choose|j: int| 0 <= j < done.len() && #[trigger] done[j] == topic@;
                        assert(order[j] == order[i as int]);
                    }
                }
            }
            match self.message_sinks.remove(&topic) {
                Some(sinks) => {
                    let kept = keep_unclosed(&sinks, closed);
                    if kept.len() > 0 {
                        self.message_sinks.insert(topic, kept);
                    }
                },
                None => {},
            }
            proof {
                assert forall|t: Seq<u8>| t != topic@ implies
                    self.message_sinks@.contains_key(t) == before.contains_key(t)
                    && (self.message_sinks@.contains_key(t) ==> self.message_sinks@[t] == before[t]) by {}
                assert forall|t: Seq<u8>| #[trigger] next.contains(t) implies {
                    &&& self.message_sinks@.contains_key(t) == (old_ms.contains_key(t) && without(old_ms[t]@, closed@).len() > 0)
                    &&& self.message_sinks@.contains_key(t) ==> self.message_sinks@[t]@ == without(old_ms[t]@, closed@)
                } by {
                    if t != topic@ {
                        let j = choose|j: int| 0 <= j < next.len() && #[trigger] next[j] == t;
                        assert(done[j] == t);
                        assert(done.contains(t));
                    }
                }
                assert forall|t: Seq<u8>| !#[trigger] next.contains(t) implies {
                    &&& self.message_sinks@.contains_key(t) == old_ms.contains_key(t)
                    &&& self.message_sinks@.contains_key(t) ==> self.message_sinks@[t] == old_ms[t]
                } by {
                    assert(next[i as int] == topic@);
                    if done.contains(t) {
                        let j = choose|j: int| 0 <= j < done.len() && #[trigger] done[j] == t;
                        assert(next[j] == t);
                    }
                }
            }
            i = i + 1;
        }
        proof {
            assert(order.take(i as int) =~= order);
            assert forall|t: Seq<u8>| !order.contains(t) implies !old_ms.contains_key(t) by {
                assert(!order.to_set().contains(t));
            }
            assert(self.sinks() =~= after_cleanup(old(self).sinks(), closed@));
        }
    }
}

impl GossipForwarder {
    /// In a consistent engine every topic that is kept has a subscriber, and an idle engine
    /// buffers nothing.
    pub proof fn lemma_consistent(&self, topic: Seq<u8>)
        requires
            self.wf(),
        ensures
            self.sinks().contains_key(topic) ==> self.sinks()[topic].len() > 0,
            !self.is_busy() ==> self.buffered().len() == 0,
    {
        if self.sinks().contains_key(topic) {
            assert(self.message_sinks@.contains_key(topic));
        }
    }
}

/// How many notifications of a buffer have topic `t`.
pub open spec fn topic_count(buffer: Seq<(Topic, TopicNotification)>, t: Seq<u8>) -> nat
    decreases buffer.len(),
{
    if buffer.len() == 0 {
        0
    } else {
        topic_count(buffer.drop_last(), t) + if buffer.last().0@ == t { 1nat } else { 0nat }
    }
}

/// The subscribers of topic `t`, none when the topic is not kept.
pub open spec fn subscribers(sinks: Map<Seq<u8>, Seq<SinkId>>, t: Seq<u8>) -> Seq<SinkId> {
    if sinks.contains_key(t) { sinks[t] } else { Seq::empty() }
}

/// One step of a forwarding run in which no subscriber's channel is closed, from `before` to
/// `after`, sending `sent`: either a subscriber of the front notification's topic was full and
/// nothing changed (what `deliver_front` does when it answers `Blocked`), or the front
/// notification left the buffer and went to every subscriber of its topic, none when the topic
/// has none (what `step_busy` answering `Dropped`, or `deliver_front` with every subscriber
/// ready, does), and the subscribers stayed.
pub open spec fn forwarding_step(before: GossipForwarder, after: GossipForwarder, sent: Seq<SinkId>) -> bool {
    &&& before.buffered().len() > 0
    &&& after.sinks() == before.sinks()
    &&& {
        ||| after.buffered() == before.buffered() && sent.len() == 0
        ||| after.buffered() == before.buffered().drop_first()
            && sent == subscribers(before.sinks(), before.buffered()[0].0@)
    }
}

/// A run of forwarding steps: `states[i]` goes to `states[i + 1]` sending `sent[i]`.
pub open spec fn forwarding_run(states: Seq<GossipForwarder>, sent: Seq<Seq<SinkId>>) -> bool {
    &&& states.len() == sent.len() + 1
    &&& forall|i: int| #![trigger sent[i]] 0 <= i < sent.len() ==> forwarding_step(states[i], states[i + 1], sent[i])
}

/// How many copies the subscribers of topic `t` received over the first `n` steps of a run.
pub open spec fn copies_received(states: Seq<GossipForwarder>, sent: Seq<Seq<SinkId>>, t: Seq<u8>, n: nat) -> nat
    decreases n,
{
    if n == 0 {
        0
    } else {
        copies_received(states, sent, t, (n - 1) as nat)
            + if states[n - 1].buffered()[0].0@ == t { sent[n - 1].len() } else { 0nat }
    }
}

impl GossipForwarder {
    /// When every subscriber of the front notification's topic is ready, none is dropped:
    /// `deliver_front` then sends the notification to each of them and keeps them all.
    pub proof fn lemma_ready_subscribers_kept(sinks: Seq<SinkId>, polls: Seq<SinkPoll>)
        requires
            sinks.len() == polls.len(),
            forall|i: int| 0 <= i < polls.len() ==> #[trigger] polls[i] is Ready,
        ensures
            open_sinks(sinks, polls) == sinks,
        decreases sinks.len(),
    {
        if sinks.len() > 0 {
            let (s, q) = (sinks.drop_last(), polls.drop_last());
            assert forall|i: int| 0 <= i < q.len() implies #[trigger] q[i] is Ready by {
                assert(q[i] == polls[i]);
            }
            Self::lemma_ready_subscribers_kept(s, q);
            assert(polls.last() == polls[polls.len() - 1]);
            assert(s.push(sinks.last()) =~= sinks);
        }
    }

    /// Over a run of forwarding in which no subscriber's channel is closed (whatever the
    /// channels' capacities: a full subscriber only delays delivery), the subscribers of each
    /// topic receive, all together, as many copies as there were notifications of that topic
    /// among those that left the buffer, times the number of its subscribers; once the buffer
    /// is empty, that is every buffered notification of the topic.
    pub proof fn lemma_forwarding_run_copies(states: Seq<GossipForwarder>, sent: Seq<Seq<SinkId>>, t: Seq<u8>)
        requires
            forwarding_run(states, sent),
        ensures
            states.last().buffered().len() <= states[0].buffered().len(),
            copies_received(states, sent, t, sent.len())
                == topic_count(states[0].buffered().take(states[0].buffered().len() - states.last().buffered().len()), t)
                    * subscribers(states[0].sinks(), t).len(),
            states.last().buffered().len() == 0 ==> copies_received(states, sent, t, sent.len())
                == topic_count(states[0].buffered(), t) * subscribers(states[0].sinks(), t).len(),
    {
        Self::lemma_forwarding_run_prefix(states, sent, t, sent.len());
        let b = states[0].buffered();
        assert(states.last() == states[sent.len() as int]);
        if states.last().buffered().len() == 0 {
            assert(b.take(b.len() as int) =~= b);
        }
    }

    /// The first `n` steps of a forwarding run: `k` notifications left the buffer.
    proof fn lemma_forwarding_run_prefix(states: Seq<GossipForwarder>, sent: Seq<Seq<SinkId>>, t: Seq<u8>, n: nat)
        requires
            forwarding_run(states, sent),
            n <= sent.len(),
        ensures
            states[n as int].buffered().len() <= states[0].buffered().len(),
            states[n as int].buffered()
                == states[0].buffered().skip(states[0].buffered().len() - states[n as int].buffered().len()),
            states[n as int].sinks() == states[0].sinks(),
            copies_received(states, sent, t, n)
                == topic_count(states[0].buffered().take(states[0].buffered().len() - states[n as int].buffered().len()), t)
                    * subscribers(states[0].sinks(), t).len(),
        decreases n,
    {
        let b = states[0].buffered();
        let len = subscribers(states[0].sinks(), t).len();
        if n == 0 {
            assert(b.skip(0) =~= b);
            assert(b.take(0) =~= Seq::<(Topic, TopicNotification)>::empty());
            assert(topic_count(b.take(0), t) == 0);
            assert(0 * len == 0);
        } else {
            let m = (n - 1) as nat;
            Self::lemma_forwarding_run_prefix(states, sent, t, m);
            let i = m as int;
            assert(forwarding_step(states[i], states[i + 1], sent[i]));
            let k = b.len() - states[i].buffered().len();
            let c = topic_count(b.take(k), t);
            let prev = copies_received(states, sent, t, m);
            assert(prev == c * len);
            assert(copies_received(states, sent, t, n) == prev
                + if states[i].buffered()[0].0@ == t { sent[i].len() } else { 0nat });
            if states[i + 1].buffered() == states[i].buffered() && sent[i].len() == 0 {
                assert(copies_received(states, sent, t, n) == prev);
            } else {
                assert(states[i + 1].buffered() =~= b.skip(k + 1));
                assert(b.take(k + 1).drop_last() =~= b.take(k));
                assert(states[i].buffered()[0] == b[k]);
                assert(b.take(k + 1).last() == b[k]);
                assert(topic_count(b.take(k + 1), t) == c + if b[k].0@ == t { 1nat } else { 0nat });
                if b[k].0@ == t {
                    assert(sent[i] == subscribers(states[0].sinks(), t));
                    assert((c + 1) * len == c * len + len) by (nonlinear_arith);
                    assert(copies_received(states, sent, t, n) == prev + len);
                } else {
                    assert(copies_received(states, sent, t, n) == prev);
                }
            }
        }
    }
}

/// A peer that asks for a substream is accepted exactly when its role can be determined, whatever
/// that role is (full node, light client or authority), and rejected when it cannot.
pub proof fn lemma_validation_accepts_known_roles(peer: PeerId, role: Option<ObservedRole>)
    ensures
        role is Some ==> event_actions(NotificationEvent::ValidateInboundSubstream { peer, role })
            == seq![GossipAction::AnswerValidation { accept: true }],
        role is None ==> event_actions(NotificationEvent::ValidateInboundSubstream { peer, role })
            == seq![GossipAction::AnswerValidation { accept: false }],
{
}

} // verus!
