//! The live broadcast hub: every subscriber gets every event published
//! while it is subscribed, in the order of publishing, out of a backlog of
//! bounded size. A subscriber that falls behind loses the oldest events and
//! is told how many; it never holds up the publisher or the others.

use std::collections::VecDeque;
use vstd::prelude::*;
use crate::timestamp::Timestamp;

verus! {

/// How many events the backlog of the application's hub holds.
pub const DEFAULT_CAPACITY: usize = 1024;

/// A message on its way to the open conversation views.
pub struct BroadcastEvent {
    pub sender_id: i32,
    pub receiver_id: i32,
    pub message: String,
    pub created_at: Timestamp,
}

/// What an event says.
pub ghost struct EventRecord {
    pub sender_id: int,
    pub receiver_id: int,
    pub message: Seq<char>,
    pub created_at: int,
}

impl View for BroadcastEvent {
    type V = EventRecord;

    open spec fn view(&self) -> EventRecord {
        EventRecord {
            sender_id: self.sender_id as int,
            receiver_id: self.receiver_id as int,
            message: self.message@,
            created_at: self.created_at@,
        }
    }
}

impl BroadcastEvent {
    /// A copy of the event.
    pub fn duplicate(&self) -> (copy: BroadcastEvent)
        ensures
            copy == *self,
    {
        BroadcastEvent {
            sender_id: self.sender_id,
            receiver_id: self.receiver_id,
            message: self.message.clone(),
            created_at: self.created_at,
        }
    }
}

/// What a poll hands to a subscriber.
pub enum Delivery {
    /// The oldest event that the subscriber has not seen.
    Event(BroadcastEvent),
    /// The subscriber fell behind: so many events were lost to it. The next
    /// poll goes on with the oldest event that is left.
    Lagged(u64),
    /// Nothing is waiting.
    Empty,
    /// Nothing is waiting and nothing will come: the hub was closed.
    Closed,
    /// The subscription is not registered.
    Cancelled,
}

/// What a delivery says.
pub ghost enum DeliveryRecord {
    Event(EventRecord),
    Lagged(int),
    Empty,
    Closed,
    Cancelled,
}

impl View for Delivery {
    type V = DeliveryRecord;

    open spec fn view(&self) -> DeliveryRecord {
        match self {
            Delivery::Event(e) => DeliveryRecord::Event(e@),
            Delivery::Lagged(n) => DeliveryRecord::Lagged(*n as int),
            Delivery::Empty => DeliveryRecord::Empty,
            Delivery::Closed => DeliveryRecord::Closed,
            Delivery::Cancelled => DeliveryRecord::Cancelled,
        }
    }
}

/// A subscriber as the hub's contracts speak of it: the events that wait
/// for it, oldest first, and how many were lost to it since it was last
/// told.
pub ghost struct SubscriberRecord {
    pub id: int,
    pub pending: Seq<EventRecord>,
    pub missed: int,
}

/// The hub as its contracts speak of it.
pub ghost struct HubState {
    pub capacity: int,
    pub subscribers: Seq<SubscriberRecord>,
    pub next_id: int,
    pub closed: bool,
}

/// What holds of every hub: a backlog of at least one event, no
/// subscription registered twice, and no subscriber with more waiting than
/// the backlog can hold.
pub open spec fn hub_invariant(s: HubState) -> bool {
    &&& 1 <= s.capacity
    &&& 0 <= s.next_id <= u64::MAX
    &&& forall|i: int, j: int|
        0 <= i < j < s.subscribers.len() ==> (#[trigger] s.subscribers[i]).id != (
        #[trigger] s.subscribers[j]).id
    &&& forall|i: int|
        0 <= i < s.subscribers.len() ==> {
            let sub = #[trigger] s.subscribers[i];
            0 <= sub.id < s.next_id && sub.pending.len() <= s.capacity && 0 <= sub.missed
                <= u64::MAX
        }
}

/// The subscription `id` is registered.
pub open spec fn is_subscribed(s: HubState, id: int) -> bool {
    exists|i: int| 0 <= i < s.subscribers.len() && (#[trigger] s.subscribers[i]).id == id
}

/// The place of the subscription `id` in the registry.
pub open spec fn place_of(s: HubState, id: int) -> int
    recommends
        is_subscribed(s, id),
{
    choose|i: int| 0 <= i < s.subscribers.len() && (#[trigger] s.subscribers[i]).id == id
}

/// The subscriber registered as `id`.
pub open spec fn subscriber(s: HubState, id: int) -> SubscriberRecord
    recommends
        is_subscribed(s, id),
{
    s.subscribers[place_of(s, id)]
}

/// A new hub.
pub open spec fn fresh(capacity: int) -> HubState {
    HubState { capacity, subscribers: Seq::empty(), next_id: 0, closed: false }
}

/// A subscriber after one more event was published: the event waits for it
/// behind the others, and where that is more than the backlog holds, the
/// oldest is lost to it and counted.
pub open spec fn after_event(sub: SubscriberRecord, e: EventRecord, capacity: int) -> SubscriberRecord {
    if sub.pending.len() < capacity {
        SubscriberRecord { pending: sub.pending.push(e), ..sub }
    } else {
        SubscriberRecord {
            pending: sub.pending.drop_first().push(e),
            missed: if sub.missed < u64::MAX {
                sub.missed + 1
            } else {
                sub.missed
            },
            ..sub
        }
    }
}

/// The hub takes events: it is open and somebody is subscribed.
pub open spec fn accepts(s: HubState) -> bool {
    !s.closed && s.subscribers.len() > 0
}

/// The hub after `e` was published: handed to every subscriber where the
/// hub takes events, dropped where it does not.
pub open spec fn after_publish(s: HubState, e: EventRecord) -> HubState {
    if accepts(s) {
        HubState {
            subscribers: Seq::new(
                s.subscribers.len(),
                |i: int| after_event(s.subscribers[i], e, s.capacity),
            ),
            ..s
        }
    } else {
        s
    }
}

/// The hub can register one more subscription.
pub open spec fn can_subscribe(s: HubState) -> bool {
    !s.closed && s.next_id < u64::MAX
}

/// The hub after a subscription was registered under the next identifier,
/// with nothing waiting for it.
pub open spec fn after_subscribe(s: HubState) -> HubState {
    HubState {
        subscribers: s.subscribers.push(
            SubscriberRecord { id: s.next_id, pending: Seq::empty(), missed: 0 },
        ),
        next_id: s.next_id + 1,
        ..s
    }
}

/// The hub after the subscription `id` was cancelled.
pub open spec fn after_unsubscribe(s: HubState, id: int) -> HubState {
    if is_subscribed(s, id) {
        HubState { subscribers: s.subscribers.remove(place_of(s, id)), ..s }
    } else {
        s
    }
}

/// What a poll of the subscription `id` hands out.
pub open spec fn delivery_to(s: HubState, id: int) -> DeliveryRecord {
    if !is_subscribed(s, id) {
        DeliveryRecord::Cancelled
    } else if subscriber(s, id).missed > 0 {
        DeliveryRecord::Lagged(subscriber(s, id).missed)
    } else if subscriber(s, id).pending.len() > 0 {
        DeliveryRecord::Event(subscriber(s, id).pending[0])
    } else if s.closed {
        DeliveryRecord::Closed
    } else {
        DeliveryRecord::Empty
    }
}

/// The hub after a poll of the subscription `id`.
pub open spec fn after_poll(s: HubState, id: int) -> HubState {
    if !is_subscribed(s, id) {
        s
    } else {
        let sub = subscriber(s, id);
        if sub.missed > 0 {
            HubState {
                subscribers: s.subscribers.update(
                    place_of(s, id),
                    SubscriberRecord { missed: 0, ..sub },
                ),
                ..s
            }
        } else if sub.pending.len() > 0 {
            HubState {
                subscribers: s.subscribers.update(
                    place_of(s, id),
                    SubscriberRecord { pending: sub.pending.drop_first(), ..sub },
                ),
                ..s
            }
        } else {
            s
        }
    }
}

/// What a run of events says.
pub open spec fn event_records(events: Seq<BroadcastEvent>) -> Seq<EventRecord> {
    Seq::new(events.len(), |i: int| events[i]@)
}

struct Subscriber {
    id: u64,
    unread: usize,
    missed: u64,
}

/// The hub. All subscribers read from one backlog; each has its own place
/// in it.
pub struct Hub {
    capacity: usize,
    retained: VecDeque<BroadcastEvent>,
    subscribers: Vec<Subscriber>,
    next_id: u64,
    closed: bool,
}

spec fn record_of(sub: Subscriber, retained: Seq<EventRecord>) -> SubscriberRecord {
    SubscriberRecord {
        id: sub.id as int,
        pending: retained.subrange(retained.len() - sub.unread, retained.len() as int),
        missed: sub.missed as int,
    }
}

spec fn records_of(subs: Seq<Subscriber>, retained: Seq<EventRecord>) -> Seq<SubscriberRecord> {
    Seq::new(subs.len(), |i: int| record_of(subs[i], retained))
}

spec fn state_of(
    capacity: usize,
    retained: Seq<BroadcastEvent>,
    subs: Seq<Subscriber>,
    next_id: u64,
    closed: bool,
) -> HubState {
    HubState {
        capacity: capacity as int,
        subscribers: records_of(subs, event_records(retained)),
        next_id: next_id as int,
        closed,
    }
}

spec fn parts_fit(
    capacity: usize,
    retained: Seq<BroadcastEvent>,
    subs: Seq<Subscriber>,
    next_id: u64,
) -> bool {
    &&& 1 <= capacity
    &&& retained.len() <= capacity
    &&& forall|i: int, j: int|
        0 <= i < j < subs.len() ==> (#[trigger] subs[i]).id != (#[trigger] subs[j]).id
    &&& forall|i: int|
        0 <= i < subs.len() ==> (#[trigger] subs[i]).id < next_id && subs[i].unread
            <= retained.len()
}

proof fn lemma_parts_give_invariant(
    capacity: usize,
    retained: Seq<BroadcastEvent>,
    subs: Seq<Subscriber>,
    next_id: u64,
    closed: bool,
)
    requires
        parts_fit(capacity, retained, subs, next_id),
    ensures
        hub_invariant(state_of(capacity, retained, subs, next_id, closed)),
{
    let s = state_of(capacity, retained, subs, next_id, closed);
    assert forall|i: int, j: int| 0 <= i < j < s.subscribers.len() implies (
    #[trigger] s.subscribers[i]).id != (#[trigger] s.subscribers[j]).id by {
        assert(subs[i].id != subs[j].id);
    }
    assert forall|i: int| 0 <= i < s.subscribers.len() implies {
        let sub = #[trigger] s.subscribers[i];
        0 <= sub.id < s.next_id && sub.pending.len() <= s.capacity && 0 <= sub.missed <= u64::MAX
    } by {
        assert(subs[i].id < next_id);
    }
}

impl View for Hub {
    type V = HubState;

    closed spec fn view(&self) -> HubState {
        state_of(self.capacity, self.retained@, self.subscribers@, self.next_id, self.closed)
    }
}

impl Hub {
    /// What holds of every hub as it is kept: the backlog is within its
    /// bounds, and every subscriber has its own place in it.
    #[verifier::type_invariant]
    pub closed spec fn well_formed(self) -> bool {
        parts_fit(self.capacity, self.retained@, self.subscribers@, self.next_id)
    }

    /// What holds of every hub holds of what this one shows.
    pub proof fn lemma_shows_a_hub(self)
        requires
            self.well_formed(),
        ensures
            hub_invariant(self@),
    {
        lemma_parts_give_invariant(
            self.capacity,
            self.retained@,
            self.subscribers@,
            self.next_id,
            self.closed,
        );
    }

    /// A hub whose backlog holds `capacity` events, open and without
    /// subscribers. There is no hub without a backlog.
    pub fn new(capacity: usize) -> (made: Option<Hub>)
        ensures
            made is Some <==> capacity >= 1,
            made matches Some(hub) ==> hub@ == fresh(capacity as int),
    {
        if capacity == 0 {
            return None;
        }
        let hub = Hub {
            capacity,
            retained: VecDeque::new(),
            subscribers: Vec::new(),
            next_id: 0,
            closed: false,
        };
        assert(hub@.subscribers =~= Seq::<SubscriberRecord>::empty());
        Some(hub)
    }

    /// How many events the backlog holds.
    pub fn capacity(&self) -> (capacity: usize)
        ensures
            hub_invariant(self@),
            capacity == self@.capacity,
    {
        proof {
            use_type_invariant(self);
            lemma_parts_give_invariant(
                self.capacity,
                self.retained@,
                self.subscribers@,
                self.next_id,
                self.closed,
            );
        }
        self.capacity
    }

    /// How many subscriptions are registered.
    pub fn subscriber_count(&self) -> (count: usize)
        ensures
            count == self@.subscribers.len(),
    {
        self.subscribers.len()
    }

    /// Whether the hub was closed.
    pub fn is_closed(&self) -> (closed: bool)
        ensures
            closed == self@.closed,
    {
        self.closed
    }

    fn find(&self, id: u64) -> (found: Option<usize>)
        ensures
            hub_invariant(self@),
            found is Some <==> is_subscribed(self@, id as int),
            found matches Some(i) ==> i < self.subscribers@.len() && i == place_of(self@, id as int)
                && self.subscribers@[i as int].id == id,
    {
        proof {
            use_type_invariant(self);
            lemma_parts_give_invariant(
                self.capacity,
                self.retained@,
                self.subscribers@,
                self.next_id,
                self.closed,
            );
        }
        let ghost s = self@;
        let mut i: usize = 0;
        while i < self.subscribers.len()
            invariant
                i <= self.subscribers.len(),
                s == self@,
                hub_invariant(s),
                s.subscribers.len() == self.subscribers@.len(),
                forall|k: int| 0 <= k < i ==> (#[trigger] s.subscribers[k]).id != id,
            decreases self.subscribers.len() - i,
        {
            if self.subscribers[i].id == id {
                proof {
                    assert(s.subscribers[i as int].id == id);
                    let k = place_of(s, id as int);
                    if k < i {
                        assert(s.subscribers[k].id != s.subscribers[i as int].id);
                    } else if i < k {
                        assert(s.subscribers[i as int].id != s.subscribers[k].id);
                    }
                }
                return Some(i);
            }
            i += 1;
        }
        None
    }

    /// Whether the subscription `id` is registered.
    pub fn has_subscriber(&self, id: u64) -> (registered: bool)
        ensures
            registered == is_subscribed(self@, id as int),
    {
        self.find(id).is_some()
    }

    /// Registers a subscription and returns its identifier. The subscriber
    /// gets every event published from now on, and none published before.
    /// A closed hub registers nobody, nor does one that has handed out
    /// every identifier.
    pub fn subscribe(&mut self) -> (id: Option<u64>)
        ensures
            hub_invariant(old(self)@),
            hub_invariant(final(self)@),
            id is Some <==> can_subscribe(old(self)@),
            id matches Some(n) ==> n == old(self)@.next_id && final(self)@ == after_subscribe(
                old(self)@,
            ),
            id is None ==> final(self)@ == old(self)@,
    {
        proof {
            use_type_invariant(&*self);
            lemma_parts_give_invariant(
                self.capacity,
                self.retained@,
                self.subscribers@,
                self.next_id,
                self.closed,
            );
        }
        if self.closed || self.next_id == u64::MAX {
            return None;
        }
        let ghost before = self@;
        let mut taken = Hub::hollow();
        std::mem::swap(self, &mut taken);
        let Hub { capacity, retained, subscribers, next_id, closed } = taken;
        let mut subscribers = subscribers;
        let id = next_id;
        let ghost old_subs = subscribers@;
        let newcomer = Subscriber { id, unread: 0, missed: 0 };
        subscribers.push(newcomer);
        proof {
            let made = state_of(capacity, retained@, subscribers@, (id + 1) as u64, closed);
            assert(record_of(newcomer, event_records(retained@)).pending =~= Seq::<
                EventRecord,
            >::empty());
            assert(made.subscribers =~= after_subscribe(before).subscribers);
            assert forall|p: int, q: int| 0 <= p < q < subscribers@.len() implies (
            #[trigger] subscribers@[p]).id != (#[trigger] subscribers@[q]).id by {
                if q == old_subs.len() {
                    assert(old_subs[p].id < next_id);
                } else {
                    assert(old_subs[p].id != old_subs[q].id);
                }
            }
            assert forall|p: int| 0 <= p < subscribers@.len() implies (#[trigger] subscribers@[p]).id
                < id + 1 && subscribers@[p].unread <= retained@.len() by {
                if p < old_subs.len() {
                    assert(old_subs[p].id < next_id);
                }
            }
            lemma_parts_give_invariant(capacity, retained@, subscribers@, (id + 1) as u64, closed);
        }
        *self = Hub { capacity, retained, subscribers, next_id: id + 1, closed };
        Some(id)
    }

    /// The hub that stands in for one whose parts are taken out to be
    /// changed: closed, without subscribers, with the smallest backlog.
    fn hollow() -> (hub: Hub)
        ensures
            hub@ == (HubState { closed: true, ..fresh(1) }),
    {
        let hub = Hub {
            capacity: 1,
            retained: VecDeque::new(),
            subscribers: Vec::new(),
            next_id: 0,
            closed: true,
        };
        assert(hub@.subscribers =~= Seq::<SubscriberRecord>::empty());
        hub
    }

    /// Cancels the subscription `id`; the hub keeps nothing of it. Says
    /// whether it was registered.
    pub fn unsubscribe(&mut self, id: u64) -> (cancelled: bool)
        ensures
            hub_invariant(old(self)@),
            hub_invariant(final(self)@),
            cancelled == is_subscribed(old(self)@, id as int),
            final(self)@ == after_unsubscribe(old(self)@, id as int),
            !is_subscribed(final(self)@, id as int),
    {
        let ghost before = self@;
        match self.find(id) {
            Some(i) => {
                proof {
                    use_type_invariant(&*self);
                }
                let mut taken = Hub::hollow();
                std::mem::swap(self, &mut taken);
                let Hub { capacity, retained, subscribers, next_id, closed } = taken;
                let mut subscribers = subscribers;
                let ghost old_subs = subscribers@;
                subscribers.remove(i);
                proof {
                    let made = state_of(capacity, retained@, subscribers@, next_id, closed);
                    assert(made.subscribers =~= before.subscribers.remove(i as int));
                    assert forall|p: int, q: int| 0 <= p < q < subscribers@.len() implies (
                    #[trigger] subscribers@[p]).id != (#[trigger] subscribers@[q]).id by {
                        let pp = if p < i { p } else { p + 1 };
                        let qq = if q < i { q } else { q + 1 };
                        assert(old_subs[pp].id != old_subs[qq].id);
                    }
                    assert forall|p: int| 0 <= p < subscribers@.len() implies (
                    #[trigger] subscribers@[p]).id < next_id && subscribers@[p].unread
                        <= retained@.len() by {
                        let pp = if p < i { p } else { p + 1 };
                        assert(old_subs[pp].id < next_id);
                    }
                    lemma_parts_give_invariant(capacity, retained@, subscribers@, next_id, closed);
                    if is_subscribed(made, id as int) {
                        let p = place_of(made, id as int);
                        let pp = if p < i { p } else { p + 1 };
                        assert(made.subscribers[p].id == old_subs[pp].id);
                        if pp < i {
                            assert(old_subs[pp].id != old_subs[i as int].id);
                        } else {
                            assert(old_subs[i as int].id != old_subs[pp].id);
                        }
                    }
                }
                *self = Hub { capacity, retained, subscribers, next_id, closed };
                true
            },
            None => false,
        }
    }

    /// Closes the hub: it takes no more events and registers nobody. What
    /// waits for a subscriber stays until it is polled.
    pub fn close(&mut self)
        ensures
            hub_invariant(final(self)@),
            final(self)@ == (HubState { closed: true, ..old(self)@ }),
    {
        proof {
            use_type_invariant(&*self);
        }
        let mut taken = Hub::hollow();
        std::mem::swap(self, &mut taken);
        let Hub { capacity, retained, subscribers, next_id, closed } = taken;
        proof {
            lemma_parts_give_invariant(capacity, retained@, subscribers@, next_id, true);
        }
        *self = Hub { capacity, retained, subscribers, next_id, closed: true };
    }

    /// Publishes an event to every subscriber and returns how many there
    /// are. Never waits and never fails: with nobody subscribed, or on a
    /// closed hub, the event is dropped and the hub stays as it was.
    pub fn publish(&mut self, event: BroadcastEvent) -> (receivers: usize)
        ensures
            hub_invariant(old(self)@),
            hub_invariant(final(self)@),
            final(self)@ == after_publish(old(self)@, event@),
            receivers == if accepts(old(self)@) {
                old(self)@.subscribers.len()
            } else {
                0
            },
    {
        proof {
            use_type_invariant(&*self);
            lemma_parts_give_invariant(
                self.capacity,
                self.retained@,
                self.subscribers@,
                self.next_id,
                self.closed,
            );
        }
        if self.closed || self.subscribers.len() == 0 {
            return 0;
        }
        let ghost before = self@;
        let mut taken = Hub::hollow();
        std::mem::swap(self, &mut taken);
        let Hub { capacity, retained, subscribers, next_id, closed } = taken;
        let mut retained = retained;
        let mut subscribers = subscribers;
        let ghost old_retained = event_records(retained@);
        let ghost old_subs = subscribers@;
        let was_full = retained.len() == capacity;
        if was_full {
            let _ = retained.pop_front();
        }
        retained.push_back(event);
        let ghost new_retained = event_records(retained@);
        proof {
            if was_full {
                assert(new_retained =~= old_retained.drop_first().push(event@));
            } else {
                assert(new_retained =~= old_retained.push(event@));
            }
        }
        let mut i: usize = 0;
        while i < subscribers.len()
            invariant
                i <= subscribers.len(),
                1 <= capacity,
                subscribers@.len() == old_subs.len(),
                old_retained.len() <= capacity,
                was_full == (old_retained.len() == capacity),
                new_retained == event_records(retained@),
                new_retained == if was_full {
                    old_retained.drop_first().push(event@)
                } else {
                    old_retained.push(event@)
                },
                forall|k: int| 0 <= k < old_subs.len() ==> (#[trigger] old_subs[k]).unread
                    <= old_retained.len(),
                forall|k: int| i <= k < old_subs.len() ==> subscribers@[k] == old_subs[k],
                forall|k: int|
                    0 <= k < i ==> (#[trigger] subscribers@[k]).id == old_subs[k].id
                        && subscribers@[k].unread <= new_retained.len() && record_of(
                        subscribers@[k],
                        new_retained,
                    ) == after_event(record_of(old_subs[k], old_retained), event@, capacity as int),
            decreases subscribers.len() - i,
        {
            let id = subscribers[i].id;
            let unread = subscribers[i].unread;
            let missed = subscribers[i].missed;
            let ghost old_record = record_of(old_subs[i as int], old_retained);
            proof {
                assert(old_subs[i as int].unread <= old_retained.len());
            }
            let next = if unread == capacity {
                Subscriber {
                    id,
                    unread,
                    missed: if missed < u64::MAX {
                        missed + 1
                    } else {
                        missed
                    },
                }
            } else {
                Subscriber { id, unread: unread + 1, missed }
            };
            proof {
                let wanted = after_event(old_record, event@, capacity as int);
                assert(record_of(next, new_retained).pending =~= wanted.pending);
            }
            subscribers.set(i, next);
            i += 1;
        }
        proof {
            let made = state_of(capacity, retained@, subscribers@, next_id, closed);
            assert(made.subscribers =~= after_publish(before, event@).subscribers);
            assert forall|p: int, q: int| 0 <= p < q < subscribers@.len() implies (
            #[trigger] subscribers@[p]).id != (#[trigger] subscribers@[q]).id by {
                assert(old_subs[p].id != old_subs[q].id);
            }
            assert forall|p: int| 0 <= p < subscribers@.len() implies (#[trigger] subscribers@[p]).id
                < next_id && subscribers@[p].unread <= retained@.len() by {
                assert(old_subs[p].id < next_id);
            }
            lemma_parts_give_invariant(capacity, retained@, subscribers@, next_id, closed);
        }
        let receivers = subscribers.len();
        *self = Hub { capacity, retained, subscribers, next_id, closed };
        receivers
    }

    /// Hands the subscription `id` what waits for it: first the news that
    /// events were lost, if any were; else the oldest event it has not
    /// seen; else the news that nothing waits, or that nothing will come.
    pub fn poll(&mut self, id: u64) -> (delivery: Delivery)
        ensures
            hub_invariant(old(self)@),
            hub_invariant(final(self)@),
            delivery@ == delivery_to(old(self)@, id as int),
            final(self)@ == after_poll(old(self)@, id as int),
    {
        let ghost before = self@;
        let i = match self.find(id) {
            Some(i) => i,
            None => {
                return Delivery::Cancelled;
            },
        };
        proof {
            use_type_invariant(&*self);
        }
        let unread = self.subscribers[i].unread;
        let missed = self.subscribers[i].missed;
        let ghost retained_records = event_records(self.retained@);
        let ghost sub = record_of(self.subscribers@[i as int], retained_records);
        proof {
            assert(sub == subscriber(before, id as int));
        }
        if missed == 0 && unread == 0 {
            return if self.closed {
                Delivery::Closed
            } else {
                Delivery::Empty
            };
        }
        let mut taken = Hub::hollow();
        std::mem::swap(self, &mut taken);
        let Hub { capacity, retained, subscribers, next_id, closed } = taken;
        let mut subscribers = subscribers;
        let ghost old_subs = subscribers@;
        let delivery = if missed > 0 {
            subscribers.set(i, Subscriber { id, unread, missed: 0 });
            Delivery::Lagged(missed)
        } else {
            let at = retained.len() - unread;
            let event = retained[at].duplicate();
            subscribers.set(i, Subscriber { id, unread: unread - 1, missed });
            proof {
                assert(event@ == sub.pending[0]);
                assert(record_of(subscribers@[i as int], retained_records).pending
                    =~= sub.pending.drop_first());
            }
            Delivery::Event(event)
        };
        proof {
            let made = state_of(capacity, retained@, subscribers@, next_id, closed);
            assert(made.subscribers =~= after_poll(before, id as int).subscribers);
            assert forall|p: int, q: int| 0 <= p < q < subscribers@.len() implies (
            #[trigger] subscribers@[p]).id != (#[trigger] subscribers@[q]).id by {
                assert(old_subs[p].id != old_subs[q].id);
            }
            assert forall|p: int| 0 <= p < subscribers@.len() implies (#[trigger] subscribers@[p]).id
                < next_id && subscribers@[p].unread <= retained@.len() by {
                assert(old_subs[p].id < next_id);
            }
            lemma_parts_give_invariant(capacity, retained@, subscribers@, next_id, closed);
        }
        *self = Hub { capacity, retained, subscribers, next_id, closed };
        delivery
    }
}

/// The hub after each of `events` was published, in their order.
pub open spec fn after_publish_all(s: HubState, events: Seq<EventRecord>) -> HubState
    decreases events.len(),
{
    if events.len() == 0 {
        s
    } else {
        after_publish(after_publish_all(s, events.drop_last()), events.last())
    }
}

/// Where the registry holds the subscription `id`, there is its place.
pub proof fn lemma_place_of(s: HubState, i: int)
    requires
        hub_invariant(s),
        0 <= i < s.subscribers.len(),
    ensures
        is_subscribed(s, s.subscribers[i].id),
        place_of(s, s.subscribers[i].id) == i,
        subscriber(s, s.subscribers[i].id) == s.subscribers[i],
{
    let id = s.subscribers[i].id;
    let k = place_of(s, id);
    if k < i {
        assert(s.subscribers[k].id != s.subscribers[i].id);
    } else if i < k {
        assert(s.subscribers[i].id != s.subscribers[k].id);
    }
}

/// Publishing keeps a hub a hub, keeps every subscription, and hands each
/// subscriber the event as `after_event` says.
pub proof fn lemma_publish(s: HubState, e: EventRecord, id: int)
    requires
        hub_invariant(s),
    ensures
        hub_invariant(after_publish(s, e)),
        is_subscribed(after_publish(s, e), id) == is_subscribed(s, id),
        is_subscribed(s, id) && accepts(s) ==> subscriber(after_publish(s, e), id) == after_event(
            subscriber(s, id),
            e,
            s.capacity,
        ),
        after_publish(s, e).next_id == s.next_id,
        after_publish(s, e).closed == s.closed,
        after_publish(s, e).capacity == s.capacity,
{
    let t = after_publish(s, e);
    if accepts(s) {
        assert forall|i: int, j: int| 0 <= i < j < t.subscribers.len() implies (
        #[trigger] t.subscribers[i]).id != (#[trigger] t.subscribers[j]).id by {
            assert(s.subscribers[i].id != s.subscribers[j].id);
        }
        assert forall|i: int| 0 <= i < t.subscribers.len() implies {
            let sub = #[trigger] t.subscribers[i];
            0 <= sub.id < t.next_id && sub.pending.len() <= t.capacity && 0 <= sub.missed
                <= u64::MAX
        } by {
            let was = s.subscribers[i];
            assert(0 <= was.id < s.next_id);
        }
        if is_subscribed(s, id) {
            let i = place_of(s, id);
            assert(t.subscribers[i].id == id);
            lemma_place_of(t, i);
        }
        if is_subscribed(t, id) {
            let i = place_of(t, id);
            assert(s.subscribers[i].id == id);
        }
    }
}

/// Subscribing keeps a hub a hub, registers the new subscription with
/// nothing waiting for it, and leaves every other subscriber as it was.
pub proof fn lemma_subscribe(s: HubState, other: int)
    requires
        hub_invariant(s),
        can_subscribe(s),
    ensures
        hub_invariant(after_subscribe(s)),
        !is_subscribed(s, s.next_id),
        is_subscribed(after_subscribe(s), s.next_id),
        subscriber(after_subscribe(s), s.next_id) == (SubscriberRecord {
            id: s.next_id,
            pending: Seq::empty(),
            missed: 0,
        }),
        is_subscribed(s, other) ==> is_subscribed(after_subscribe(s), other) && subscriber(
            after_subscribe(s),
            other,
        ) == subscriber(s, other),
{
    let t = after_subscribe(s);
    let n = s.subscribers.len() as int;
    assert forall|i: int, j: int| 0 <= i < j < t.subscribers.len() implies (
    #[trigger] t.subscribers[i]).id != (#[trigger] t.subscribers[j]).id by {
        if j == n {
            assert(s.subscribers[i].id < s.next_id);
        } else {
            assert(s.subscribers[i].id != s.subscribers[j].id);
        }
    }
    assert forall|i: int| 0 <= i < t.subscribers.len() implies {
        let sub = #[trigger] t.subscribers[i];
        0 <= sub.id < t.next_id && sub.pending.len() <= t.capacity && 0 <= sub.missed <= u64::MAX
    } by {
        if i < n {
            let was = s.subscribers[i];
            assert(0 <= was.id < s.next_id);
        }
    }
    if is_subscribed(s, s.next_id) {
        let i = place_of(s, s.next_id);
        assert(s.subscribers[i].id < s.next_id);
    }
    assert(t.subscribers[n].id == s.next_id);
    lemma_place_of(t, n);
    if is_subscribed(s, other) {
        let i = place_of(s, other);
        assert(t.subscribers[i] == s.subscribers[i]);
        lemma_place_of(t, i);
    }
}

/// A poll keeps a hub a hub. A subscriber that lost nothing and has events
/// waiting is handed the oldest of them, and the rest goes on waiting. No
/// poll touches what waits for another subscriber.
pub proof fn lemma_poll(s: HubState, id: int, other: int)
    requires
        hub_invariant(s),
    ensures
        hub_invariant(after_poll(s, id)),
        is_subscribed(after_poll(s, id), other) == is_subscribed(s, other),
        is_subscribed(s, id) && subscriber(s, id).missed == 0 && subscriber(s, id).pending.len() > 0
            ==> delivery_to(s, id) == DeliveryRecord::Event(subscriber(s, id).pending[0])
            && subscriber(after_poll(s, id), id).pending == subscriber(s, id).pending.drop_first()
            && subscriber(after_poll(s, id), id).missed == 0,
        is_subscribed(s, other) && other != id ==> subscriber(after_poll(s, id), other)
            == subscriber(s, other),
{
    let t = after_poll(s, id);
    if is_subscribed(s, id) {
        let i = place_of(s, id);
        assert(t.subscribers.len() == s.subscribers.len());
        assert forall|k: int| 0 <= k < t.subscribers.len() implies (#[trigger] t.subscribers[k]).id
            == s.subscribers[k].id by {}
        assert forall|p: int, q: int| 0 <= p < q < t.subscribers.len() implies (
        #[trigger] t.subscribers[p]).id != (#[trigger] t.subscribers[q]).id by {
            assert(s.subscribers[p].id != s.subscribers[q].id);
        }
        assert forall|k: int| 0 <= k < t.subscribers.len() implies {
            let sub = #[trigger] t.subscribers[k];
            0 <= sub.id < t.next_id && sub.pending.len() <= t.capacity && 0 <= sub.missed
                <= u64::MAX
        } by {
            let was = s.subscribers[k];
            assert(0 <= was.id < s.next_id);
        }
        lemma_place_of(t, i);
        if is_subscribed(s, other) {
            let k = place_of(s, other);
            assert(t.subscribers[k].id == other);
            lemma_place_of(t, k);
        }
        if is_subscribed(t, other) {
            let k = place_of(t, other);
            assert(s.subscribers[k].id == other);
        }
    }
}

/// Cancelling keeps a hub a hub, removes the subscription, and leaves every
/// other subscriber as it was.
pub proof fn lemma_unsubscribe(s: HubState, id: int, other: int)
    requires
        hub_invariant(s),
    ensures
        hub_invariant(after_unsubscribe(s, id)),
        !is_subscribed(after_unsubscribe(s, id), id),
        other != id ==> is_subscribed(after_unsubscribe(s, id), other) == is_subscribed(s, other),
        is_subscribed(s, other) && other != id ==> subscriber(after_unsubscribe(s, id), other)
            == subscriber(s, other),
{
    let t = after_unsubscribe(s, id);
    if is_subscribed(s, id) {
        let i = place_of(s, id);
        assert forall|p: int, q: int| 0 <= p < q < t.subscribers.len() implies (
        #[trigger] t.subscribers[p]).id != (#[trigger] t.subscribers[q]).id by {
            let pp = if p < i { p } else { p + 1 };
            let qq = if q < i { q } else { q + 1 };
            assert(s.subscribers[pp].id != s.subscribers[qq].id);
        }
        assert forall|k: int| 0 <= k < t.subscribers.len() implies {
            let sub = #[trigger] t.subscribers[k];
            0 <= sub.id < t.next_id && sub.pending.len() <= t.capacity && 0 <= sub.missed
                <= u64::MAX
        } by {
            let kk = if k < i { k } else { k + 1 };
            let was = s.subscribers[kk];
            assert(0 <= was.id < s.next_id);
        }
        if is_subscribed(t, id) {
            let p = place_of(t, id);
            let pp = if p < i { p } else { p + 1 };
            assert(t.subscribers[p] == s.subscribers[pp]);
            if pp < i {
                assert(s.subscribers[pp].id != s.subscribers[i].id);
            } else {
                assert(s.subscribers[i].id != s.subscribers[pp].id);
            }
        }
        if other != id {
            if is_subscribed(s, other) {
                let k = place_of(s, other);
                let kk = if k < i { k } else { k - 1 };
                assert(t.subscribers[kk] == s.subscribers[k]);
                lemma_place_of(t, kk);
            }
            if is_subscribed(t, other) {
                let k = place_of(t, other);
                let kk = if k < i { k } else { k + 1 };
                assert(s.subscribers[kk].id == other);
            }
        }
    }
}

/// Delivery after subscribing: an event published after a subscription
/// was registered is the next thing that the subscription is handed.
pub proof fn lemma_delivery_after_subscribe(s: HubState, e: EventRecord)
    requires
        hub_invariant(s),
        can_subscribe(s),
    ensures
        delivery_to(after_publish(after_subscribe(s), e), s.next_id) == DeliveryRecord::Event(e),
{
    let id = s.next_id;
    let s1 = after_subscribe(s);
    lemma_subscribe(s, id);
    lemma_publish(s1, e, id);
    let sub = subscriber(after_publish(s1, e), id);
    assert(sub.pending =~= seq![e]);
}

/// Nothing is lost short of overflow: after a subscription was registered,
/// as many events as the backlog holds, or fewer, all wait for it in the
/// order in which they were published, and it is told of no loss.
pub proof fn lemma_backlog_after_subscribe(s: HubState, events: Seq<EventRecord>)
    requires
        hub_invariant(s),
        can_subscribe(s),
        events.len() <= s.capacity,
    ensures
        hub_invariant(after_publish_all(after_subscribe(s), events)),
        is_subscribed(after_publish_all(after_subscribe(s), events), s.next_id),
        subscriber(after_publish_all(after_subscribe(s), events), s.next_id) == (SubscriberRecord {
            id: s.next_id,
            pending: events,
            missed: 0,
        }),
        after_publish_all(after_subscribe(s), events).capacity == s.capacity,
        after_publish_all(after_subscribe(s), events).closed == s.closed,
    decreases events.len(),
{
    let id = s.next_id;
    let s1 = after_subscribe(s);
    lemma_subscribe(s, id);
    if events.len() == 0 {
        assert(events =~= Seq::<EventRecord>::empty());
    } else {
        let earlier = events.drop_last();
        lemma_backlog_after_subscribe(s, earlier);
        let mid = after_publish_all(s1, earlier);
        lemma_publish(mid, events.last(), id);
        assert(accepts(mid)) by {
            let i = place_of(mid, id);
            assert(0 <= i < mid.subscribers.len());
        }
        assert(earlier.push(events.last()) =~= events);
    }
}

/// What can be done to a hub.
pub ghost enum HubOp {
    /// An event is published.
    Publish(EventRecord),
    /// The subscription with this identifier is polled.
    Poll(int),
    /// A subscription is registered.
    Subscribe,
    /// The subscription with this identifier is cancelled.
    Unsubscribe(int),
}

/// The hub after one thing was done to it.
pub open spec fn after_op(s: HubState, op: HubOp) -> HubState {
    match op {
        HubOp::Publish(e) => after_publish(s, e),
        HubOp::Poll(id) => after_poll(s, id),
        HubOp::Subscribe => if can_subscribe(s) {
            after_subscribe(s)
        } else {
            s
        },
        HubOp::Unsubscribe(id) => after_unsubscribe(s, id),
    }
}

/// The hub after a run of things was done to it, in their order.
pub open spec fn after_ops(s: HubState, ops: Seq<HubOp>) -> HubState
    decreases ops.len(),
{
    if ops.len() == 0 {
        s
    } else {
        after_op(after_ops(s, ops.drop_last()), ops.last())
    }
}

/// The events that a run publishes, in their order.
pub open spec fn published_in(ops: Seq<HubOp>) -> Seq<EventRecord>
    decreases ops.len(),
{
    if ops.len() == 0 {
        Seq::empty()
    } else {
        match ops.last() {
            HubOp::Publish(e) => published_in(ops.drop_last()).push(e),
            _ => published_in(ops.drop_last()),
        }
    }
}

/// The events that the subscription `id` is handed by the polls of a run,
/// in their order.
pub open spec fn handed_in(s: HubState, ops: Seq<HubOp>, id: int) -> Seq<EventRecord>
    decreases ops.len(),
{
    if ops.len() == 0 {
        Seq::empty()
    } else {
        let before = handed_in(s, ops.drop_last(), id);
        match ops.last() {
            HubOp::Poll(polled) => if polled == id {
                match delivery_to(after_ops(s, ops.drop_last()), id) {
                    DeliveryRecord::Event(e) => before.push(e),
                    _ => before,
                }
            } else {
                before
            },
            _ => before,
        }
    }
}

/// The run leaves the subscription `id` undisturbed: it does not cancel
/// it, and whenever it publishes, the subscriber's backlog has room.
pub open spec fn undisturbed(s: HubState, ops: Seq<HubOp>, id: int) -> bool
    decreases ops.len(),
{
    if ops.len() == 0 {
        true
    } else {
        &&& undisturbed(s, ops.drop_last(), id)
        &&& match ops.last() {
            HubOp::Publish(_) => subscriber(after_ops(s, ops.drop_last()), id).pending.len()
                < s.capacity,
            HubOp::Unsubscribe(cancelled) => cancelled != id,
            _ => true,
        }
    }
}

/// Delivery after subscribing, whatever else happens: on an open hub, a
/// subscriber that has lost nothing and is left undisturbed by a run of
/// publishes, polls, registrations and cancellations, in any order and by
/// anybody, loses nothing in it. What waited for it and what the run
/// published is, in this order, what its polls were handed and what waits
/// for it afterwards: every event once, none left out, in the order of
/// publishing.
pub proof fn lemma_nothing_is_lost(s: HubState, ops: Seq<HubOp>, id: int)
    requires
        hub_invariant(s),
        !s.closed,
        is_subscribed(s, id),
        subscriber(s, id).missed == 0,
        undisturbed(s, ops, id),
    ensures
        hub_invariant(after_ops(s, ops)),
        !after_ops(s, ops).closed,
        after_ops(s, ops).capacity == s.capacity,
        is_subscribed(after_ops(s, ops), id),
        subscriber(after_ops(s, ops), id).missed == 0,
        subscriber(s, id).pending + published_in(ops) == handed_in(s, ops, id) + subscriber(
            after_ops(s, ops),
            id,
        ).pending,
    decreases ops.len(),
{
    if ops.len() == 0 {
        assert(subscriber(s, id).pending + published_in(ops) =~= handed_in(s, ops, id)
            + subscriber(s, id).pending);
    } else {
        let earlier = ops.drop_last();
        lemma_nothing_is_lost(s, earlier, id);
        let mid = after_ops(s, earlier);
        let end = after_ops(s, ops);
        let waited = subscriber(s, id).pending;
        let sub = subscriber(mid, id);
        assert(waited + published_in(earlier) == handed_in(s, earlier, id) + sub.pending);
        match ops.last() {
            HubOp::Publish(e) => {
                lemma_publish(mid, e, id);
                assert(accepts(mid)) by {
                    let i = place_of(mid, id);
                    assert(0 <= i < mid.subscribers.len());
                }
                assert(subscriber(end, id).pending == sub.pending.push(e));
                assert(waited + published_in(ops) =~= (waited + published_in(earlier)).push(e));
                assert(handed_in(s, ops, id) + sub.pending.push(e) =~= (handed_in(s, earlier, id)
                    + sub.pending).push(e));
            },
            HubOp::Poll(polled) => {
                lemma_poll(mid, polled, id);
                if polled == id {
                    if sub.pending.len() > 0 {
                        assert(handed_in(s, ops, id) == handed_in(s, earlier, id).push(
                            sub.pending[0],
                        ));
                        assert(handed_in(s, ops, id) + sub.pending.drop_first() =~= handed_in(
                            s,
                            earlier,
                            id,
                        ) + sub.pending);
                    } else {
                        assert(end == mid);
                    }
                }
            },
            HubOp::Subscribe => {
                if can_subscribe(mid) {
                    lemma_subscribe(mid, id);
                }
            },
            HubOp::Unsubscribe(cancelled) => {
                lemma_unsubscribe(mid, cancelled, id);
            },
        }
    }
}

/// A subscription sees all that is published after it was registered: what
/// a run published while leaving it undisturbed is, in this order, what its
/// polls were handed and what still waits for it.
pub proof fn lemma_subscription_sees_all(s: HubState, ops: Seq<HubOp>)
    requires
        hub_invariant(s),
        can_subscribe(s),
        undisturbed(after_subscribe(s), ops, s.next_id),
    ensures
        published_in(ops) == handed_in(after_subscribe(s), ops, s.next_id) + subscriber(
            after_ops(after_subscribe(s), ops),
            s.next_id,
        ).pending,
{
    lemma_subscribe(s, s.next_id);
    lemma_nothing_is_lost(after_subscribe(s), ops, s.next_id);
    assert(Seq::<EventRecord>::empty() + published_in(ops) =~= published_in(ops));
}

} // verus!
