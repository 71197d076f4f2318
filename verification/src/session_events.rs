//! The events of a session, and those who follow them.

use std::collections::VecDeque;
use vstd::prelude::*;
use crate::error::{LimitKind, LinkError};
use crate::liveness::ConnectionQuality;
use crate::ordering::{MapKey, Position, number_position};
use crate::resume::SessionContinuity;
use crate::sorted_map::SortedMap;

verus! {

#[derive(Clone, Copy, Debug, Eq, PartialEq, Structural)]
pub enum SessionState {
    Connecting,
    Handshaking,
    Established,
    Draining,
    Closed,
    Failed,
}

/// Why a session ended.
#[derive(Clone, Copy, Debug, Eq, PartialEq, Structural)]
pub enum CloseReason {
    Graceful,
    LocalAbort,
    RemoteClosed,
    Timeout,
    AuthenticationFailed,
    ProtocolViolation,
    TransportFailure,
}

#[derive(Clone, Copy, Debug, Eq, PartialEq)]
pub enum SessionEvent {
    StateChanged(SessionState),
    ContinuityChanged(SessionContinuity),
    QualityChanged(ConnectionQuality),
    Closed(CloseReason),
    EventsDropped(u64),
}

#[derive(Clone, Copy, Debug, Eq, Ord, PartialEq, PartialOrd, Structural)]
pub struct EventSubscriberId(u64);

impl View for EventSubscriberId {
    type V = u64;

    closed spec fn view(&self) -> u64 {
        self.0
    }
}

/// Ordered by number.
impl MapKey for EventSubscriberId {
    open spec fn rank(v: u64) -> Seq<int> {
        seq![v as int]
    }

    proof fn rank_injective(a: u64, b: u64) {
        assert(Self::rank(a)[0] == a as int);
        assert(Self::rank(b)[0] == b as int);
    }

    fn position(&self, other: &Self) -> (p: Position) {
        number_position(self.0, other.0)
    }
}

/// One who follows the events of a session at their own pace.
#[derive(Debug)]
struct Subscriber {
    queue: VecDeque<SessionEvent>,
    capacity: usize,
    dropped: u64,
}

/// The events that wait for a subscriber, and how many were dropped unseen.
#[verifier::ext_equal]
pub struct SubscriberView {
    pub queue: Seq<SessionEvent>,
    pub capacity: usize,
    pub dropped: u64,
}

impl View for Subscriber {
    type V = SubscriberView;

    closed spec fn view(&self) -> SubscriberView {
        SubscriberView { queue: self.queue@, capacity: self.capacity, dropped: self.dropped }
    }
}

impl SubscriberView {
    /// Whether the queue is within its capacity.
    pub open spec fn wf(self) -> bool {
        0 < self.capacity && self.queue.len() <= self.capacity
    }

    /// With one more event. Where the queue is full the oldest event makes room.
    pub open spec fn told(self, event: SessionEvent) -> SubscriberView {
        if self.queue.len() == self.capacity {
            SubscriberView {
                queue: self.queue.drop_first().push(event),
                dropped: if self.dropped == u64::MAX {
                    u64::MAX
                } else {
                    (self.dropped + 1) as u64
                },
                ..self
            }
        } else {
            SubscriberView { queue: self.queue.push(event), ..self }
        }
    }

    /// The next event: how many were dropped comes first.
    pub open spec fn heard(self) -> (SubscriberView, Option<SessionEvent>) {
        if self.dropped > 0 {
            (
                SubscriberView { dropped: 0, ..self },
                Some(SessionEvent::EventsDropped(self.dropped)),
            )
        } else if self.queue.len() == 0 {
            (self, None)
        } else {
            (SubscriberView { queue: self.queue.drop_first(), ..self }, Some(self.queue[0]))
        }
    }
}

/// Hands the events of a session to bounded queues, and never waits.
#[derive(Debug)]
pub struct SessionEventBus {
    max_subscribers: usize,
    next_id: u64,
    subscribers: SortedMap<EventSubscriberId, Subscriber>,
}

#[verifier::ext_equal]
pub struct BusView {
    pub max_subscribers: usize,
    pub next_id: u64,
    pub subscribers: Map<u64, SubscriberView>,
}

impl View for SessionEventBus {
    type V = BusView;

    closed spec fn view(&self) -> BusView {
        BusView {
            max_subscribers: self.max_subscribers,
            next_id: self.next_id,
            subscribers: self.subscribers@.map_values(|s: Subscriber| s@),
        }
    }
}

impl BusView {
    /// A bus that nobody follows.
    pub open spec fn empty(max_subscribers: usize) -> BusView {
        BusView { max_subscribers, next_id: 1, subscribers: Map::empty() }
    }

    /// Whether numbers are fresh and all bounds are kept.
    pub open spec fn wf(self) -> bool {
        &&& 0 < self.max_subscribers
        &&& self.subscribers.dom().finite()
        &&& self.subscribers.dom().len() <= self.max_subscribers
        &&& forall|id: u64| #[trigger]
            self.subscribers.contains_key(id) ==> id < self.next_id && self.subscribers[id].wf()
    }

    /// Why nobody more can follow.
    pub open spec fn subscribe_fault(self, capacity: usize) -> Option<LinkError> {
        if capacity == 0 {
            Some(LinkError::InvalidInput("event queue capacity must be positive"))
        } else if self.subscribers.dom().len() >= self.max_subscribers {
            Some(
                LinkError::LimitExceeded {
                    kind: LimitKind::EventSubscribers,
                    limit: self.max_subscribers,
                },
            )
        } else if self.next_id == u64::MAX {
            Some(LinkError::Closed)
        } else {
            None
        }
    }

    /// With one more subscriber.
    pub open spec fn joined(self, capacity: usize) -> BusView {
        BusView {
            next_id: (self.next_id + 1) as u64,
            subscribers: self.subscribers.insert(
                self.next_id,
                SubscriberView { queue: Seq::empty(), capacity, dropped: 0 },
            ),
            ..self
        }
    }

    /// With an event handed to all.
    pub open spec fn published(self, event: SessionEvent) -> BusView {
        BusView {
            subscribers: self.subscribers.map_values(|s: SubscriberView| s.told(event)),
            ..self
        }
    }

    /// With the next event of a subscriber taken.
    pub open spec fn taken(self, id: u64) -> (BusView, Option<SessionEvent>) {
        if self.subscribers.contains_key(id) {
            let (after, event) = self.subscribers[id].heard();
            (BusView { subscribers: self.subscribers.insert(id, after), ..self }, event)
        } else {
            (self, None)
        }
    }
}

impl SessionEventBus {
    /// Whether the bus is valid.
    pub closed spec fn wf(&self) -> bool {
        self.subscribers.wf() && self@.wf()
    }

    /// What is known of a valid bus.
    pub proof fn lemma_wf(&self)
        requires
            self.wf(),
        ensures
            self@.wf(),
    {
    }

    proof fn lemma_subscribers(&self)
        requires
            self.subscribers.wf(),
        ensures
            self@.subscribers.dom() == self.subscribers@.dom(),
            self.subscribers.keys().len() == self@.subscribers.dom().len(),
    {
        self.subscribers.lemma_entries();
        assert(self@.subscribers.dom() =~= self.subscribers@.dom());
    }

    pub fn new(max_subscribers: usize) -> (bus: Result<Self, LinkError>)
        ensures
            match bus {
                Ok(b) => max_subscribers > 0 && b.wf() && b@ == BusView::empty(max_subscribers),
                Err(e) => max_subscribers == 0 && e == LinkError::InvalidInput(
                    "event subscriber limit must be positive",
                ),
            },
    {
        if max_subscribers == 0 {
            return Err(LinkError::InvalidInput("event subscriber limit must be positive"));
        }
        let bus = SessionEventBus { max_subscribers, next_id: 1, subscribers: SortedMap::new() };
        proof {
            bus.lemma_subscribers();
            assert(bus@.subscribers =~= Map::empty());
        }
        Ok(bus)
    }

    /// Starts to follow, with room for some events.
    pub fn subscribe(&mut self, capacity: usize) -> (id: Result<EventSubscriberId, LinkError>)
        requires
            old(self).wf(),
        ensures
            final(self).wf(),
            match id {
                Ok(id) => {
                    &&& old(self)@.subscribe_fault(capacity) is None
                    &&& id@ == old(self)@.next_id
                    &&& final(self)@ == old(self)@.joined(capacity)
                },
                Err(e) => old(self)@.subscribe_fault(capacity) == Some(e) && final(self)@ == old(
                    self,
                )@,
            },
    {
        let ghost before = self@;
        if capacity == 0 {
            return Err(LinkError::InvalidInput("event queue capacity must be positive"));
        }
        proof {
            self.lemma_subscribers();
        }
        if self.subscribers.len() >= self.max_subscribers {
            return Err(
                LinkError::LimitExceeded {
                    kind: LimitKind::EventSubscribers,
                    limit: self.max_subscribers,
                },
            );
        }
        let id = EventSubscriberId(self.next_id);
        self.next_id = match self.next_id.checked_add(1) {
            Some(next) => next,
            None => {
                return Err(LinkError::Closed);
            },
        };
        let subscriber = Subscriber { queue: VecDeque::new(), capacity, dropped: 0 };
        assert(subscriber@.queue =~= Seq::empty());
        self.subscribers.insert(id, subscriber);
        proof {
            self.lemma_subscribers();
            assert(self@.subscribers =~= before.joined(capacity).subscribers);
            assert(self@ =~= before.joined(capacity));
        }
        Ok(id)
    }

    /// Hands an event to all who follow.
    pub fn publish(&mut self, event: SessionEvent)
        requires
            old(self).wf(),
        ensures
            final(self).wf(),
            final(self)@ == old(self)@.published(event),
    {
        let ghost before = self@;
        proof {
            self.lemma_subscribers();
            self.subscribers.lemma_entries();
        }
        let len: usize = self.subscribers.len();
        let mut i: usize = 0;
        let ghost keys = self.subscribers.keys();
        while i < len
            invariant
                self.subscribers.wf(),
                self.subscribers.keys() == keys,
                len == keys.len(),
                i <= len,
                self.max_subscribers == before.max_subscribers,
                self.next_id == before.next_id,
                keys.no_duplicates(),
                self@.subscribers.dom() == before.subscribers.dom(),
                forall|j: int|
                    0 <= j < len ==> before.subscribers[#[trigger] keys[j]].wf()
                        && self@.subscribers[keys[j]] == (if j < i {
                        before.subscribers[keys[j]].told(event)
                    } else {
                        before.subscribers[keys[j]]
                    }),
            decreases len - i,
        {
            proof {
                self.subscribers.lemma_entries();
                assert(self.subscribers@.contains_key(keys[i as int]));
            }
            let ghost at = self@;
            let subscriber = self.subscribers.value_mut(i);
            let ghost was = *subscriber;
            assert(was@ == before.subscribers[keys[i as int]]);
            if subscriber.queue.len() == subscriber.capacity {
                subscriber.queue.pop_front();
                subscriber.dropped = subscriber.dropped.saturating_add(1);
            }
            subscriber.queue.push_back(event);
            assert(subscriber@.queue =~= was@.told(event).queue);
            assert(subscriber@ =~= was@.told(event));
            proof {
                assert(self@.subscribers =~= at.subscribers.insert(
                    keys[i as int],
                    was@.told(event),
                ));
                assert(self@.subscribers.dom() =~= before.subscribers.dom());
            }
            i = i + 1;
        }
        proof {
            self.subscribers.lemma_entries();
            self.lemma_subscribers();
            let after = before.published(event);
            assert forall|k: u64| #[trigger] self@.subscribers.contains_key(k) implies self@.subscribers[k]
                == after.subscribers[k] && self@.subscribers[k].wf() by {
                assert(keys.to_set().contains(k));
                let j = keys.index_of(k);
                assert(keys[j] == k);
            }
            assert(self@.subscribers =~= after.subscribers);
            assert(self@ =~= after);
        }
    }

    /// The next event of a subscriber, if one waits.
    pub fn next(&mut self, id: EventSubscriberId) -> (event: Option<SessionEvent>)
        requires
            old(self).wf(),
        ensures
            final(self).wf(),
            (final(self)@, event) == old(self)@.taken(id@),
    {
        let ghost before = self@;
        proof {
            self.lemma_subscribers();
        }
        match self.subscribers.get_mut(&id) {
            None => None,
            Some(subscriber) => {
                let ghost was = *subscriber;
                assert(was@ == before.subscribers[id@]);
                let event = if subscriber.dropped > 0 {
                    let dropped: u64 = subscriber.dropped;
                    subscriber.dropped = 0;
                    Some(SessionEvent::EventsDropped(dropped))
                } else {
                    subscriber.queue.pop_front()
                };
                assert(subscriber@.queue =~= was@.heard().0.queue);
                assert(subscriber@ =~= was@.heard().0);
                proof {
                    self.lemma_subscribers();
                    let after = before.taken(id@).0;
                    assert(self@.subscribers =~= after.subscribers);
                    assert(self@.subscribers.dom() =~= before.subscribers.dom());
                    assert(self@ =~= after);
                }
                event
            },
        }
    }

    /// Stops to follow and tells whether anyone did under the number.
    pub fn unsubscribe(&mut self, id: EventSubscriberId) -> (followed: bool)
        requires
            old(self).wf(),
        ensures
            final(self).wf(),
            followed == old(self)@.subscribers.contains_key(id@),
            final(self)@ == (BusView {
                subscribers: old(self)@.subscribers.remove(id@),
                ..old(self)@
            }),
    {
        let ghost before = self@;
        proof {
            self.lemma_subscribers();
        }
        let removed = self.subscribers.remove(&id);
        proof {
            self.lemma_subscribers();
            assert(self@.subscribers =~= before.subscribers.remove(id@));
        }
        removed.is_some()
    }
}

/// However slow a subscriber is, an event is handed over at once: it is the last one
/// of the queue, the queue stays within its capacity, and an event that made room is
/// counted.
pub proof fn slow_subscribers_never_block(bus: BusView, event: SessionEvent, id: u64)
    requires
        bus.wf(),
        bus.subscribers.contains_key(id),
    ensures
        bus.published(event).wf(),
        ({
            let before = bus.subscribers[id];
            let after = bus.published(event).subscribers[id];
            &&& after.queue.last() == event
            &&& after.queue.len() <= after.capacity
            &&& after.dropped >= before.dropped
            &&& before.dropped < u64::MAX ==> after.queue.len() + after.dropped
                == before.queue.len() + before.dropped + 1
        }),
{
    let published = bus.published(event);
    assert(published.subscribers.dom() =~= bus.subscribers.dom());
    assert forall|k: u64| #[trigger] published.subscribers.contains_key(k) implies k < published.next_id
        && published.subscribers[k].wf() by {
        assert(bus.subscribers.contains_key(k));
    }
}

/// What one subscriber does leaves what the others hear unchanged.
pub proof fn subscribers_are_independent(bus: BusView, id: u64, other: u64)
    requires
        id != other,
    ensures
        bus.taken(id).0.taken(other).1 == bus.taken(other).1,
{
}

/// Events are heard in the order in which they were told, each once.
pub proof fn events_are_heard_in_order(subscriber: SubscriberView, first: SessionEvent, second: SessionEvent)
    requires
        subscriber.capacity >= 2,
        subscriber.queue.len() == 0,
        subscriber.dropped == 0,
    ensures
        ({
            let told = subscriber.told(first).told(second);
            let (once, a) = told.heard();
            let (twice, b) = once.heard();
            &&& a == Some(first)
            &&& b == Some(second)
            &&& twice.heard().1 is None
            &&& twice == subscriber
        }),
{
    let told = subscriber.told(first).told(second);
    assert(told.queue =~= seq![first, second]);
    assert(told.queue.drop_first() =~= seq![second]);
    assert(seq![second].drop_first() =~= Seq::<SessionEvent>::empty());
    assert(subscriber.queue =~= Seq::<SessionEvent>::empty());
}

/// Where the queue of a subscriber is full the oldest event is lost, and how many were is
/// heard first; the others follow in their order.
pub proof fn lost_events_are_told_first(subscriber: SubscriberView, event: SessionEvent)
    requires
        subscriber.queue.len() == subscriber.capacity,
        subscriber.capacity > 0,
        subscriber.dropped < u64::MAX,
    ensures
        ({
            let told = subscriber.told(event);
            let (after, heard) = told.heard();
            &&& heard == Some(SessionEvent::EventsDropped((subscriber.dropped + 1) as u64))
            &&& after.dropped == 0
            &&& after.queue == subscriber.queue.skip(1).push(event)
            &&& after.heard().1 == Some(if subscriber.capacity > 1 {
                subscriber.queue[1]
            } else {
                event
            })
        }),
{
    assert(subscriber.queue.drop_first() =~= subscriber.queue.skip(1));
}

/// An event reaches every subscriber, and only what was told reaches one: who joins later
/// hears nothing of before.
pub proof fn published_events_reach_all(bus: BusView, event: SessionEvent, id: u64, capacity: usize)
    requires
        bus.wf(),
        bus.next_id < u64::MAX,
    ensures
        bus.subscribers.contains_key(id) == bus.published(event).subscribers.contains_key(id),
        bus.subscribers.contains_key(id) ==> bus.published(event).subscribers[id].queue.last() == event,
        ({
            let joined = bus.joined(capacity);
            &&& !bus.subscribers.contains_key(bus.next_id)
            &&& joined.subscribers.contains_key(bus.next_id)
            &&& joined.taken(bus.next_id).1 is None
            &&& joined.subscribers.dom().len() == bus.subscribers.dom().len() + 1
            &&& bus.subscribers.contains_key(id) ==> joined.subscribers[id] == bus.subscribers[id]
            &&& joined.next_id == bus.next_id + 1
        }),
{
}

/// One more may follow as long as there is room, and with a queue that holds at least an
/// event.
pub proof fn subscribers_are_admitted_up_to_the_limit(bus: BusView, capacity: usize)
    requires
        bus.next_id < u64::MAX,
    ensures
        bus.subscribe_fault(capacity) is None <==> capacity >= 1 && bus.subscribers.dom().len() + 1
            <= bus.max_subscribers,
{
}

/// Who no longer follows is told nothing more, and everyone else is told as before.
pub proof fn former_subscribers_hear_nothing(before: SessionEventBus, id: EventSubscriberId)
    ensures
        forall|lent: &mut SessionEventBus, followed: bool|
            *lent == before && #[trigger] call_ensures(
                SessionEventBus::unsubscribe,
                (lent, id),
                followed,
            ) ==> {
                let after = final(lent)@;
                &&& followed <==> before@.subscribers.contains_key(id@)
                &&& !after.subscribers.contains_key(id@)
                &&& after.taken(id@).1 is None
                &&& forall|other: u64|
                    other != id@ && #[trigger] before@.subscribers.contains_key(other) ==> {
                        &&& after.subscribers.contains_key(other)
                        &&& after.subscribers[other] == before@.subscribers[other]
                    }
                &&& after.next_id == before@.next_id
                &&& after.max_subscribers == before@.max_subscribers
            },
{
}

} // verus!
