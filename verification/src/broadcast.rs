//! The event broadcaster: a registry of live subscribers, each with an
//! optional schema filter and a bounded queue of pending events.
//!
//! Publishing never blocks and never fails.  A subscriber whose queue is
//! full misses its oldest pending event and goes on from the next one:
//! delivery is at most once, without replay.

use crate::dto::log_dto::{LogEvent, LogEventView};
use crate::seqs::lemma_filter_keeps_all;
use vstd::prelude::*;

verus! {

/// Where a subscriber is in its life.
#[derive(Debug, Clone, Copy, PartialEq, Eq, Structural)]
pub enum SessionState {
    /// Accepted, not yet receiving.
    Connecting,
    /// Receiving the events that pass its filter.
    Active,
    /// One of its two paths has ended; the other is being stopped.
    Closing,
    /// Both paths have stopped and the registration is released.
    Closed,
}

/// What can happen to a subscriber.
#[derive(Debug, Clone, Copy, PartialEq, Eq, Structural)]
pub enum SessionSignal {
    /// The connection is established.
    Upgraded,
    /// An event was written to the peer.
    EventSent,
    /// Writing to the peer failed.
    SendFailed,
    /// The feed of events has ended.
    FeedEnded,
    /// The peer sent a ping, a pong or a text.
    PeerMessage,
    /// The peer asked to close.
    PeerClosed,
    /// The peer is gone.
    PeerGone,
    /// The server shuts the connection.
    Shutdown,
    /// Both paths have stopped.
    HalvesStopped,
}

/// What the connection's owner has to do after a signal.
#[derive(Debug, Clone, Copy, PartialEq, Eq, Structural)]
pub enum SessionAction {
    Nothing,
    /// Stop the path that reads from the peer.
    CancelInbound,
    /// Stop the path that writes to the peer.
    CancelOutbound,
    /// Stop both paths.
    CancelBoth,
    /// Release the registration.
    Release,
}

/// Whether a signal ends a connection that is open.
pub open spec fn ends(signal: SessionSignal) -> bool {
    signal is SendFailed || signal is FeedEnded || signal is PeerClosed || signal is PeerGone
        || signal is Shutdown
}

/// The state after a signal, and what is to be done.
pub open spec fn session_next(state: SessionState, signal: SessionSignal) -> (
    SessionState,
    SessionAction,
) {
    match state {
        SessionState::Connecting => if signal is Upgraded {
            (SessionState::Active, SessionAction::Nothing)
        } else if ends(signal) {
            (SessionState::Closed, SessionAction::Release)
        } else {
            (SessionState::Connecting, SessionAction::Nothing)
        },
        SessionState::Active => if signal is SendFailed || signal is FeedEnded {
            (SessionState::Closing, SessionAction::CancelInbound)
        } else if signal is PeerClosed || signal is PeerGone {
            (SessionState::Closing, SessionAction::CancelOutbound)
        } else if signal is Shutdown {
            (SessionState::Closing, SessionAction::CancelBoth)
        } else {
            (SessionState::Active, SessionAction::Nothing)
        },
        SessionState::Closing => if signal is HalvesStopped {
            (SessionState::Closed, SessionAction::Release)
        } else {
            (SessionState::Closing, SessionAction::Nothing)
        },
        SessionState::Closed => (SessionState::Closed, SessionAction::Nothing),
    }
}

/// Moves a subscriber on by one signal.
pub fn session_step(state: SessionState, signal: SessionSignal) -> (r: (SessionState, SessionAction))
    ensures
        r == session_next(state, signal),
{
    match state {
        SessionState::Connecting => match signal {
            SessionSignal::Upgraded => (SessionState::Active, SessionAction::Nothing),
            SessionSignal::SendFailed
            | SessionSignal::FeedEnded
            | SessionSignal::PeerClosed
            | SessionSignal::PeerGone
            | SessionSignal::Shutdown => (SessionState::Closed, SessionAction::Release),
            _ => (SessionState::Connecting, SessionAction::Nothing),
        },
        SessionState::Active => match signal {
            SessionSignal::SendFailed | SessionSignal::FeedEnded => (
                SessionState::Closing,
                SessionAction::CancelInbound,
            ),
            SessionSignal::PeerClosed | SessionSignal::PeerGone => (
                SessionState::Closing,
                SessionAction::CancelOutbound,
            ),
            SessionSignal::Shutdown => (SessionState::Closing, SessionAction::CancelBoth),
            _ => (SessionState::Active, SessionAction::Nothing),
        },
        SessionState::Closing => match signal {
            SessionSignal::HalvesStopped => (SessionState::Closed, SessionAction::Release),
            _ => (SessionState::Closing, SessionAction::Nothing),
        },
        SessionState::Closed => (SessionState::Closed, SessionAction::Nothing),
    }
}

/// The state after a run of signals.
pub open spec fn session_run(state: SessionState, signals: Seq<SessionSignal>) -> SessionState
    decreases signals.len(),
{
    if signals.len() == 0 {
        state
    } else {
        session_next(session_run(state, signals.drop_last()), signals.last()).0
    }
}

/// Whether a filter lets an event of the given schema through.
pub open spec fn filter_admits(filter: Option<u128>, schema_id: u128) -> bool {
    match filter {
        Some(wanted) => wanted == schema_id,
        None => true,
    }
}

/// Whether a subscriber with this filter is to get an event of this schema.
pub fn should_send(filter: Option<u128>, schema_id: u128) -> (r: bool)
    ensures
        r == filter_admits(filter, schema_id),
{
    match filter {
        Some(wanted) => wanted == schema_id,
        None => true,
    }
}

/// A registered subscriber.
#[derive(Debug)]
pub struct Subscriber {
    id: u64,
    filter: Option<u128>,
    state: SessionState,
    pending: Vec<LogEvent>,
    missed: u64,
}

/// A subscriber as plain values.
pub struct SubscriberView {
    pub id: u64,
    pub filter: Option<u128>,
    pub state: SessionState,
    /// The events that wait to be written to the peer, oldest first.
    pub pending: Seq<LogEventView>,
    /// How many events the subscriber has missed, up to the largest count.
    pub missed: u64,
}

/// The views of a sequence of events.
pub open spec fn event_views(events: Seq<LogEvent>) -> Seq<LogEventView> {
    events.map_values(|e: LogEvent| e@)
}

impl View for Subscriber {
    type V = SubscriberView;

    closed spec fn view(&self) -> SubscriberView {
        SubscriberView {
            id: self.id,
            filter: self.filter,
            state: self.state,
            pending: event_views(self.pending@),
            missed: self.missed,
        }
    }
}

/// The views of a sequence of subscribers.
pub open spec fn subscriber_views(subscribers: Seq<Subscriber>) -> Seq<SubscriberView> {
    subscribers.map_values(|s: Subscriber| s@)
}

/// Whether a subscriber gets the event: it is active and its filter lets
/// the event through.
pub open spec fn receives(s: SubscriberView, e: LogEventView) -> bool {
    s.state is Active && filter_admits(s.filter, e.schema_id())
}

/// The filter that keeps the subscribers that get the event.
pub open spec fn receivers(e: LogEventView) -> spec_fn(SubscriberView) -> bool {
    |s: SubscriberView| receives(s, e)
}

/// A queue after one more event: where it is full, the oldest event
/// leaves.
pub open spec fn enqueued(pending: Seq<LogEventView>, e: LogEventView, limit: nat) -> Seq<
    LogEventView,
> {
    if pending.len() < limit {
        pending.push(e)
    } else {
        pending.drop_first().push(e)
    }
}

/// A count after one more miss; it stops at the largest count.
pub open spec fn one_more(missed: u64) -> u64 {
    if missed < u64::MAX {
        (missed + 1) as u64
    } else {
        missed
    }
}

/// A subscriber after an event is published.
pub open spec fn after_publish(s: SubscriberView, e: LogEventView, limit: nat) -> SubscriberView {
    if receives(s, e) {
        SubscriberView {
            id: s.id,
            filter: s.filter,
            state: s.state,
            pending: enqueued(s.pending, e, limit),
            missed: if s.pending.len() < limit {
                s.missed
            } else {
                one_more(s.missed)
            },
        }
    } else {
        s
    }
}

/// The subscribers after an event is published.
pub open spec fn all_after_publish(subscribers: Seq<SubscriberView>, e: LogEventView, limit: nat) -> Seq<
    SubscriberView,
> {
    subscribers.map_values(|s: SubscriberView| after_publish(s, e, limit))
}

/// Whether a subscriber with this identifier is registered.
pub open spec fn registered(subscribers: Seq<SubscriberView>, id: u64) -> bool {
    exists|i: int| 0 <= i < subscribers.len() && (#[trigger] subscribers[i]).id == id
}

/// The state of the subscriber with this identifier; `Closed` where none
/// is registered.
pub open spec fn state_in(subscribers: Seq<SubscriberView>, id: u64) -> SessionState {
    if registered(subscribers, id) {
        let i = choose|i: int| 0 <= i < subscribers.len() && (#[trigger] subscribers[i]).id == id;
        subscribers[i].state
    } else {
        SessionState::Closed
    }
}

/// How many events the subscriber with this identifier has missed; none
/// where it is not registered.
pub open spec fn missed_in(subscribers: Seq<SubscriberView>, id: u64) -> u64 {
    if registered(subscribers, id) {
        let i = choose|i: int| 0 <= i < subscribers.len() && (#[trigger] subscribers[i]).id == id;
        subscribers[i].missed
    } else {
        0
    }
}

/// A subscriber after a signal: it moves to the next state, and loses its
/// pending events when it stops being active.
pub open spec fn moved(s: SubscriberView, signal: SessionSignal) -> SubscriberView {
    let next = session_next(s.state, signal).0;
    SubscriberView {
        id: s.id,
        filter: s.filter,
        state: next,
        pending: if next is Active {
            s.pending
        } else {
            Seq::empty()
        },
        missed: s.missed,
    }
}

/// The change that a signal for the subscriber `id` makes to each
/// subscriber.
pub open spec fn moving(id: u64, signal: SessionSignal) -> spec_fn(SubscriberView) -> SubscriberView {
    |s: SubscriberView|
        if s.id == id {
            moved(s, signal)
        } else {
            s
        }
}

/// The filter that keeps the subscribers that are not closed.
pub open spec fn open_ones() -> spec_fn(SubscriberView) -> bool {
    |s: SubscriberView| !(s.state is Closed)
}

/// The registry after a signal for the subscriber `id`: that subscriber
/// moves on, and leaves the registry when it is closed.
pub open spec fn after_signal(subscribers: Seq<SubscriberView>, id: u64, signal: SessionSignal) -> Seq<
    SubscriberView,
> {
    subscribers.map_values(moving(id, signal)).filter(open_ones())
}

/// A subscriber as it is registered: connecting, with nothing pending and
/// nothing missed.
pub open spec fn newcomer(id: u64, filter: Option<u128>) -> SubscriberView {
    SubscriberView {
        id,
        filter,
        state: SessionState::Connecting,
        pending: Seq::empty(),
        missed: 0,
    }
}

/// A subscriber after its oldest pending event was taken.
pub open spec fn drained(s: SubscriberView) -> SubscriberView {
    SubscriberView {
        id: s.id,
        filter: s.filter,
        state: s.state,
        pending: s.pending.drop_first(),
        missed: s.missed,
    }
}

/// Whether `after` is `before` with the oldest pending event of the
/// subscriber `id` taken, and `e` is that event.
pub open spec fn taken_from(
    before: Seq<SubscriberView>,
    after: Seq<SubscriberView>,
    id: u64,
    e: LogEventView,
) -> bool {
    exists|i: int|
        {
            &&& 0 <= i < before.len()
            &&& (#[trigger] before[i]).id == id
            &&& before[i].pending.len() > 0
            &&& e == before[i].pending[0]
            &&& after == before.update(i, drained(before[i]))
        }
}

/// Whether nothing waits for the subscriber `id`.
pub open spec fn nothing_pending(subscribers: Seq<SubscriberView>, id: u64) -> bool {
    forall|i: int|
        0 <= i < subscribers.len() && (#[trigger] subscribers[i]).id == id
            ==> subscribers[i].pending.len() == 0
}

/// The rules that the registry keeps: identifiers are unique and were
/// issued, no queue is longer than the limit, only active subscribers have
/// pending events, and a closed subscriber is not registered.
pub open spec fn registry_ok(subscribers: Seq<SubscriberView>, limit: nat, next: u64) -> bool {
    &&& limit >= 1
    &&& forall|i: int, j: int|
        0 <= i < j < subscribers.len() ==> (#[trigger] subscribers[i]).id != (
        #[trigger] subscribers[j]).id
    &&& forall|i: int|
        0 <= i < subscribers.len() ==> {
            &&& (#[trigger] subscribers[i]).id < next
            &&& subscribers[i].pending.len() <= limit
            &&& !(subscribers[i].state is Closed)
            &&& (!(subscribers[i].state is Active) ==> subscribers[i].pending.len() == 0)
        }
}

/// The registry of live subscribers.
pub struct EventBroadcaster {
    capacity: usize,
    next_id: u64,
    subscribers: Vec<Subscriber>,
}

impl EventBroadcaster {
    #[verifier::type_invariant]
    closed spec fn inv(&self) -> bool {
        registry_ok(subscriber_views(self.subscribers@), self.capacity as nat, self.next_id)
    }

    /// The registered subscribers, in the order in which they connected.
    pub closed spec fn subscribers(&self) -> Seq<SubscriberView> {
        subscriber_views(self.subscribers@)
    }

    /// How many events may wait for one subscriber.
    pub closed spec fn limit(&self) -> nat {
        self.capacity as nat
    }

    /// How many identifiers were issued.
    pub closed spec fn issued(&self) -> u64 {
        self.next_id
    }

    /// A registry without subscribers, whose queues hold `capacity` events.
    pub fn new(capacity: usize) -> (r: EventBroadcaster)
        requires
            capacity >= 1,
        ensures
            r.subscribers() == Seq::<SubscriberView>::empty(),
            r.limit() == capacity,
            r.issued() == 0,
            registry_ok(r.subscribers(), r.limit(), r.issued()),
    {
        let r = EventBroadcaster { capacity, next_id: 0, subscribers: Vec::new() };
        assert(subscriber_views(r.subscribers@) =~= Seq::<SubscriberView>::empty());
        r
    }

    /// How many subscribers are registered.
    pub fn subscriber_count(&self) -> (r: usize)
        ensures
            r == self.subscribers().len(),
    {
        self.subscribers.len()
    }

    /// Registers a subscriber with an optional schema filter and returns
    /// its identifier; nothing once every identifier has been issued.
    pub fn connect(&mut self, filter: Option<u128>) -> (r: Option<u64>)
        ensures
            registry_ok(final(self).subscribers(), final(self).limit(), final(self).issued()),
            final(self).limit() == old(self).limit(),
            match r {
                Some(id) => {
                    &&& id == old(self).issued()
                    &&& final(self).issued() == id + 1
                    &&& !registered(old(self).subscribers(), id)
                    &&& final(self).subscribers() == old(self).subscribers().push(
                        newcomer(id, filter),
                    )
                },
                None => {
                    &&& old(self).issued() == u64::MAX
                    &&& final(self).issued() == u64::MAX
                    &&& final(self).subscribers() == old(self).subscribers()
                },
            },
    {
        proof {
            use_type_invariant(&*self);
        }
        if self.next_id == u64::MAX {
            return None;
        }
        let id = self.next_id;
        let ghost before = subscriber_views(self.subscribers@);
        let subscriber = Subscriber {
            id,
            filter,
            state: SessionState::Connecting,
            pending: Vec::new(),
            missed: 0,
        };
        proof {
            assert(event_views(subscriber.pending@) =~= Seq::<LogEventView>::empty());
            assert(subscriber@ == newcomer(id, filter));
            let after = before.push(newcomer(id, filter));
            assert(subscriber_views(self.subscribers@.push(subscriber)) =~= after);
            assert forall|i: int, j: int| 0 <= i < j < after.len() implies (#[trigger] after[i]).id
                != (#[trigger] after[j]).id by {
                assert(after[i] == before[i]);
                if j < before.len() {
                    assert(after[j] == before[j]);
                }
            }
            assert forall|i: int| 0 <= i < after.len() implies {
                &&& (#[trigger] after[i]).id < id + 1
                &&& after[i].pending.len() <= self.capacity
                &&& !(after[i].state is Closed)
                &&& (!(after[i].state is Active) ==> after[i].pending.len() == 0)
            } by {
                if i < before.len() {
                    assert(after[i] == before[i]);
                }
            }
        }
        let mut subscribers: Vec<Subscriber> = Vec::new();
        core::mem::swap(&mut self.subscribers, &mut subscribers);
        subscribers.push(subscriber);
        self.next_id = id + 1;
        self.subscribers = subscribers;
        Some(id)
    }

    /// Where the subscriber with this identifier is registered, if it is.
    fn place_of(&self, id: u64) -> (r: Option<usize>)
        ensures
            match r {
                Some(at) => {
                    &&& at < self.subscribers@.len()
                    &&& self.subscribers@[at as int].id == id
                    &&& registered(self.subscribers(), id)
                    &&& state_in(self.subscribers(), id) == self.subscribers@[at as int].state
                    &&& missed_in(self.subscribers(), id) == self.subscribers@[at as int].missed
                },
                None => !registered(self.subscribers(), id),
            },
    {
        proof {
            use_type_invariant(self);
        }
        let ghost all = subscriber_views(self.subscribers@);
        let mut i: usize = 0;
        while i < self.subscribers.len()
            invariant
                i <= self.subscribers.len(),
                all == subscriber_views(self.subscribers@),
                registry_ok(all, self.capacity as nat, self.next_id),
                forall|j: int| 0 <= j < i ==> (#[trigger] all[j]).id != id,
            decreases self.subscribers.len() - i,
        {
            if self.subscribers[i].id == id {
                proof {
                    assert(all[i as int].id == id);
                    let k = choose|k: int| 0 <= k < all.len() && (#[trigger] all[k]).id == id;
                    if k < i {
                        assert(all[k].id != all[i as int].id);
                    }
                    if k > i {
                        assert(all[i as int].id != all[k].id);
                    }
                }
                return Some(i);
            }
            i += 1;
        }
        None
    }

    /// The state of a subscriber; `Closed` where it is not registered.
    pub fn state_of(&self, id: u64) -> (r: SessionState)
        ensures
            r == state_in(self.subscribers(), id),
    {
        match self.place_of(id) {
            Some(at) => self.subscribers[at].state,
            None => SessionState::Closed,
        }
    }

    /// How many events a subscriber has missed because its queue was full.
    pub fn missed_by(&self, id: u64) -> (r: u64)
        ensures
            r == missed_in(self.subscribers(), id),
    {
        match self.place_of(id) {
            Some(at) => self.subscribers[at].missed,
            None => 0,
        }
    }

    /// Hands an event to every active subscriber whose filter lets it
    /// through, and says how many there were.  A full queue loses its
    /// oldest event.
    pub fn publish(&mut self, event: &LogEvent) -> (reached: usize)
        ensures
            registry_ok(final(self).subscribers(), final(self).limit(), final(self).issued()),
            final(self).limit() == old(self).limit(),
            final(self).issued() == old(self).issued(),
            final(self).subscribers() == all_after_publish(
                old(self).subscribers(),
                event@,
                old(self).limit(),
            ),
            reached == old(self).subscribers().filter(receivers(event@)).len(),
    {
        proof {
            use_type_invariant(&*self);
        }
        let capacity = self.capacity;
        let ghost next = self.next_id;
        let ghost before = subscriber_views(self.subscribers@);
        let ghost e = event@;
        let ghost limit = capacity as nat;
        let mut subscribers: Vec<Subscriber> = Vec::new();
        core::mem::swap(&mut self.subscribers, &mut subscribers);
        let n = subscribers.len();
        let mut reached: usize = 0;
        let mut i: usize = 0;
        while i < n
            invariant
                i <= n,
                n == subscribers.len(),
                n == before.len(),
                e == event@,
                limit == capacity as nat,
                registry_ok(before, limit, next),
                reached == before.take(i as int).filter(receivers(e)).len(),
                reached <= i,
                forall|j: int|
                    0 <= j < i ==> (#[trigger] subscribers@[j])@ == after_publish(before[j], e, limit),
                forall|j: int| i <= j < n ==> (#[trigger] subscribers@[j])@ == before[j],
            decreases n - i,
        {
            proof {
                reveal(Seq::filter);
                let t = before.take(i + 1);
                assert(t.drop_last() =~= before.take(i as int));
                assert(t.last() == before[i as int]);
                assert(subscribers@[i as int]@ == before[i as int]);
            }
            let active = match subscribers[i].state {
                SessionState::Active => true,
                _ => false,
            };
            if active && should_send(subscribers[i].filter, event.schema_id()) {
                let ghost queue = event_views(subscribers@[i as int].pending@);
                if subscribers[i].pending.len() >= capacity {
                    subscribers[i].pending.remove(0);
                    if subscribers[i].missed < u64::MAX {
                        subscribers[i].missed = subscribers[i].missed + 1;
                    }
                    assert(event_views(subscribers@[i as int].pending@) =~= queue.drop_first());
                }
                let ghost shorter = event_views(subscribers@[i as int].pending@);
                subscribers[i].pending.push(event.clone());
                assert(event_views(subscribers@[i as int].pending@) =~= shorter.push(e));
                reached += 1;
            }
            i += 1;
        }
        proof {
            assert(before.take(n as int) =~= before);
            let after = all_after_publish(before, e, limit);
            assert(subscriber_views(subscribers@) =~= after);
            assert forall|a: int, b: int| 0 <= a < b < after.len() implies (#[trigger] after[a]).id
                != (#[trigger] after[b]).id by {
                assert(before[a].id != before[b].id);
            }
            assert forall|a: int| 0 <= a < after.len() implies {
                &&& (#[trigger] after[a]).id < next
                &&& after[a].pending.len() <= limit
                &&& !(after[a].state is Closed)
                &&& (!(after[a].state is Active) ==> after[a].pending.len() == 0)
            } by {
                assert(before[a].id < next);
            }
        }
        self.subscribers = subscribers;
        reached
    }

    /// Takes the oldest pending event of a subscriber, if it has one.
    pub fn next_event(&mut self, id: u64) -> (r: Option<LogEvent>)
        ensures
            registry_ok(final(self).subscribers(), final(self).limit(), final(self).issued()),
            final(self).limit() == old(self).limit(),
            final(self).issued() == old(self).issued(),
            match r {
                Some(e) => taken_from(old(self).subscribers(), final(self).subscribers(), id, e@),
                None => final(self).subscribers() == old(self).subscribers() && nothing_pending(
                    old(self).subscribers(),
                    id,
                ),
            },
    {
        proof {
            use_type_invariant(&*self);
        }
        let ghost before = subscriber_views(self.subscribers@);
        let ghost next = self.next_id;
        let ghost limit = self.capacity as nat;
        let at = match self.place_of(id) {
            Some(at) => at,
            None => {
                return None;
            },
        };
        assert(before[at as int].id == id);
        assert(before[at as int] == self.subscribers@[at as int]@);
        if self.subscribers[at].pending.len() == 0 {
            assert forall|i: int|
                0 <= i < before.len() && (#[trigger] before[i]).id == id implies before[i].pending.len()
                == 0 by {
                assert(i == at);
            }
            return None;
        }
        let mut subscribers: Vec<Subscriber> = Vec::new();
        core::mem::swap(&mut self.subscribers, &mut subscribers);
        let ghost queue = event_views(subscribers@[at as int].pending@);
        let event = subscribers[at].pending.remove(0);
        proof {
            assert(event@ == queue[0]);
            assert(event_views(subscribers@[at as int].pending@) =~= queue.drop_first());
            let after = before.update(at as int, drained(before[at as int]));
            assert(subscriber_views(subscribers@) =~= after);
            assert forall|a: int, b: int| 0 <= a < b < after.len() implies (#[trigger] after[a]).id
                != (#[trigger] after[b]).id by {
                assert(before[a].id != before[b].id);
            }
            assert forall|a: int| 0 <= a < after.len() implies {
                &&& (#[trigger] after[a]).id < next
                &&& after[a].pending.len() <= limit
                &&& !(after[a].state is Closed)
                &&& (!(after[a].state is Active) ==> after[a].pending.len() == 0)
            } by {
                assert(before[a].id < next);
            }
        }
        self.subscribers = subscribers;
        Some(event)
    }

    /// Applies a signal to a subscriber and says what is to be done.  A
    /// subscriber that is closed leaves the registry; a signal for one
    /// that is not registered changes nothing.
    pub fn signal(&mut self, id: u64, signal: SessionSignal) -> (r: SessionAction)
        ensures
            registry_ok(final(self).subscribers(), final(self).limit(), final(self).issued()),
            final(self).limit() == old(self).limit(),
            final(self).issued() == old(self).issued(),
            r == session_next(state_in(old(self).subscribers(), id), signal).1,
            final(self).subscribers() == after_signal(old(self).subscribers(), id, signal),
            state_in(final(self).subscribers(), id) == session_next(
                state_in(old(self).subscribers(), id),
                signal,
            ).0,
    {
        proof {
            use_type_invariant(&*self);
        }
        let ghost before = subscriber_views(self.subscribers@);
        let ghost next = self.next_id;
        let ghost limit = self.capacity as nat;
        let ghost mapped = before.map_values(moving(id, signal));
        let at = match self.place_of(id) {
            Some(at) => at,
            None => {
                proof {
                    assert(mapped =~= before);
                    lemma_filter_keeps_all(before, open_ones());
                }
                return SessionAction::Nothing;
            },
        };
        proof {
            assert(before[at as int].id == id);
            assert(before[at as int] == self.subscribers@[at as int]@);
            let k = choose|k: int| 0 <= k < before.len() && (#[trigger] before[k]).id == id;
            assert(k == at);
            assert(mapped =~= before.update(at as int, moved(before[at as int], signal)));
        }
        let (state, action) = session_step(self.subscribers[at].state, signal);
        let mut subscribers: Vec<Subscriber> = Vec::new();
        core::mem::swap(&mut self.subscribers, &mut subscribers);
        match state {
            SessionState::Closed => {
                subscribers.remove(at);
                proof {
                    let after = before.remove(at as int);
                    assert(subscriber_views(subscribers@) =~= after);
                    crate::seqs::lemma_filter_removes_one(mapped, open_ones(), at as int);
                    assert(mapped.remove(at as int) =~= after);
                    assert forall|a: int, b: int| 0 <= a < b < after.len() implies (
                    #[trigger] after[a]).id != (#[trigger] after[b]).id by {
                        let a0 = if a < at { a } else { a + 1 };
                        let b0 = if b < at { b } else { b + 1 };
                        assert(after[a] == before[a0]);
                        assert(after[b] == before[b0]);
                    }
                    assert forall|a: int| 0 <= a < after.len() implies {
                        &&& (#[trigger] after[a]).id != id
                        &&& after[a].id < next
                        &&& after[a].pending.len() <= limit
                        &&& !(after[a].state is Closed)
                        &&& (!(after[a].state is Active) ==> after[a].pending.len() == 0)
                    } by {
                        let a0 = if a < at { a } else { a + 1 };
                        assert(after[a] == before[a0]);
                        assert(before[a0].id != before[at as int].id);
                    }
                    assert(!registered(after, id));
                }
            },
            _ => {
                let keep = match state {
                    SessionState::Active => true,
                    _ => false,
                };
                subscribers[at].state = state;
                if !keep {
                    subscribers[at].pending = Vec::new();
                    assert(event_views(subscribers@[at as int].pending@) =~= Seq::<
                        LogEventView,
                    >::empty());
                }
                proof {
                    let after = before.update(at as int, moved(before[at as int], signal));
                    assert(subscriber_views(subscribers@) =~= after);
                    lemma_filter_keeps_all(mapped, open_ones());
                    assert forall|a: int, b: int| 0 <= a < b < after.len() implies (
                    #[trigger] after[a]).id != (#[trigger] after[b]).id by {
                        assert(before[a].id != before[b].id);
                    }
                    assert forall|a: int| 0 <= a < after.len() implies {
                        &&& (#[trigger] after[a]).id < next
                        &&& after[a].pending.len() <= limit
                        &&& !(after[a].state is Closed)
                        &&& (!(after[a].state is Active) ==> after[a].pending.len() == 0)
                    } by {
                        assert(before[a].id < next);
                    }
                    assert(after[at as int].id == id);
                    let k = choose|k: int| 0 <= k < after.len() && (#[trigger] after[k]).id == id;
                    assert(k == at);
                }
            },
        }
        self.subscribers = subscribers;
        action
    }
}

} // verus!
