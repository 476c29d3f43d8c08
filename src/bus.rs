//! The event bus: a single publish sequence, a retention window of the last
//! `capacity` events, and subscriptions that are cursors into the sequence.

use std::collections::VecDeque;
use vstd::prelude::*;

verus! {

/// The number of events a bus keeps for subscribers that are behind.
pub const DEFAULT_CAPACITY: usize = 10000;

/// What a subscription gets when it asks for its next event.
#[derive(Debug, PartialEq, Eq)]
pub enum Recv {
    /// The next event in publish order.
    Event(String),
    /// The subscription fell out of the retention window; this many events
    /// were skipped and the cursor now points at the oldest retained one.
    Lagged(u64),
    /// Nothing newer than the cursor yet; the caller waits for a publish.
    Empty,
    /// The bus is closed and the subscription has seen everything.
    Closed,
}

/// The bus refuses publishes and subscriptions once it is closed.
#[derive(Debug, Clone, Copy, PartialEq, Eq)]
pub struct BusClosed;

/// Index of the oldest event still retained after `count` publishes.
pub open spec fn window_start(count: nat, capacity: nat) -> nat {
    if count > capacity {
        (count - capacity) as nat
    } else {
        0
    }
}

/// The outcome of one `next` by a subscription at `cursor`, and its new cursor.
pub open spec fn next_of(events: Seq<String>, capacity: nat, closed: bool, cursor: nat) -> (Recv, nat) {
    let start = window_start(events.len(), capacity);
    if cursor < start {
        (Recv::Lagged((start - cursor) as u64), start)
    } else if cursor < events.len() {
        (Recv::Event(events[cursor as int]), cursor + 1)
    } else if closed {
        (Recv::Closed, cursor)
    } else {
        (Recv::Empty, cursor)
    }
}

/// Everything a subscription at `cursor` receives by calling `next` on an
/// open bus until it would have to wait.
pub open spec fn drain(events: Seq<String>, capacity: nat, cursor: nat) -> Seq<Recv>
    decreases events.len() - cursor,
{
    let start = window_start(events.len(), capacity);
    if cursor < start {
        seq![Recv::Lagged((start - cursor) as u64)] + drain(events, capacity, start)
    } else if cursor < events.len() {
        seq![Recv::Event(events[cursor as int])] + drain(events, capacity, cursor + 1)
    } else {
        seq![]
    }
}

/// Each event, as a delivery.
pub open spec fn deliveries(events: Seq<String>) -> Seq<Recv> {
    events.map_values(|e: String| Recv::Event(e))
}

/// A broadcast bus with bounded history.
pub struct EventBus {
    capacity: usize,
    window: VecDeque<String>,
    count: u64,
    closed: bool,
    history: Ghost<Seq<String>>,
}

/// A cursor into a bus's publish sequence: the index of the next event it reads.
pub struct Subscription {
    cursor: u64,
}

impl Subscription {
    /// The index of the next event this subscription reads.
    pub closed spec fn position(&self) -> nat {
        self.cursor as nat
    }
}

impl EventBus {
    /// Every event published so far, in publish order.
    pub closed spec fn published(&self) -> Seq<String> {
        self.history@
    }

    /// The events currently kept in memory.
    pub closed spec fn retained(&self) -> Seq<String> {
        self.window@
    }

    /// How many events the bus retains.
    pub closed spec fn capacity_spec(&self) -> nat {
        self.capacity as nat
    }

    pub closed spec fn is_closed(&self) -> bool {
        self.closed
    }

    /// The window holds exactly the latest published events, at most `capacity`.
    pub closed spec fn wf(&self) -> bool {
        &&& self.capacity > 0
        &&& self.count as nat == self.history@.len()
        &&& self.window@ == self.history@.subrange(
            window_start(self.history@.len(), self.capacity as nat) as int,
            self.history@.len() as int,
        )
    }

    /// A bus that keeps the last `capacity` events.
    pub fn new(capacity: usize) -> (r: EventBus)
        requires
            capacity > 0,
        ensures
            r.wf(),
            r.published() == Seq::<String>::empty(),
            r.capacity_spec() == capacity,
            !r.is_closed(),
    {
        let r = EventBus {
            capacity,
            window: VecDeque::new(),
            count: 0,
            closed: false,
            history: Ghost(Seq::empty()),
        };
        proof {
            assert(r.window@ =~= r.history@.subrange(0, 0));
        }
        r
    }

    pub fn capacity(&self) -> (r: usize)
        ensures
            r == self.capacity_spec(),
    {
        self.capacity
    }

    /// How many events have been published.
    pub fn published_count(&self) -> (r: u64)
        requires
            self.wf(),
        ensures
            r == self.published().len(),
    {
        self.count
    }

    /// How many events are kept in memory.
    pub fn retained_count(&self) -> (r: usize)
        requires
            self.wf(),
        ensures
            r == self.retained().len(),
    {
        self.window.len()
    }

    pub fn closed(&self) -> (r: bool)
        ensures
            r == self.is_closed(),
    {
        self.closed
    }

    /// Appends `event` to the publish sequence, evicting the oldest retained
    /// event when the window is full. Fails, changing nothing, once closed.
    pub fn publish(&mut self, event: String) -> (r: Result<u64, BusClosed>)
        requires
            old(self).wf(),
            old(self).published().len() < u64::MAX,
        ensures
            final(self).wf(),
            final(self).capacity_spec() == old(self).capacity_spec(),
            final(self).is_closed() == old(self).is_closed(),
            old(self).is_closed() ==> r == Err::<u64, BusClosed>(BusClosed) && final(self).published()
                == old(self).published(),
            !old(self).is_closed() ==> r == Ok::<u64, BusClosed>(old(self).published().len() as u64)
                && final(self).published() == old(self).published().push(event),
            final(self).retained().len() <= final(self).capacity_spec(),
    {
        if self.closed {
            return Err(BusClosed);
        }
        let seq_no = self.count;
        let ghost old_history = self.history@;
        let ghost old_window = self.window@;
        if self.window.len() == self.capacity {
            self.window.pop_front();
        }
        self.window.push_back(event);
        self.count = self.count + 1;
        self.history = Ghost(old_history.push(event));
        proof {
            let n = old_history.len();
            let cap = self.capacity as nat;
            let s0 = window_start(n, cap);
            let s1 = window_start(n + 1, cap);
            assert(old_window.len() == n - s0);
            if old_window.len() == cap {
                assert(s1 == s0 + 1);
            } else {
                assert(s1 == s0);
            }
            assert(self.window@ =~= self.history@.subrange(s1 as int, (n + 1) as int));
        }
        Ok(seq_no)
    }

    /// A subscription positioned after every event published so far.
    pub fn subscribe(&self) -> (r: Result<Subscription, BusClosed>)
        requires
            self.wf(),
        ensures
            self.is_closed() ==> r matches Err(BusClosed),
            !self.is_closed() ==> (r matches Ok(s) && s.position() == self.published().len()),
    {
        if self.closed {
            Err(BusClosed)
        } else {
            Ok(Subscription { cursor: self.count })
        }
    }

    /// Reads the next event for `sub`: the oldest one newer than its cursor,
    /// or `Lagged` when the cursor has fallen out of the window.
    pub fn next(&self, sub: &mut Subscription) -> (r: Recv)
        requires
            self.wf(),
        ensures
            (r, final(sub).position()) == next_of(
                self.published(),
                self.capacity_spec(),
                self.is_closed(),
                old(sub).position(),
            ),
    {
        let start: u64 = if self.count > self.capacity as u64 {
            self.count - self.capacity as u64
        } else {
            0
        };
        if sub.cursor < start {
            let skipped = start - sub.cursor;
            sub.cursor = start;
            Recv::Lagged(skipped)
        } else if sub.cursor < self.count {
            let i = (sub.cursor - start) as usize;
            let event = self.window[i].clone();
            sub.cursor = sub.cursor + 1;
            Recv::Event(event)
        } else if self.closed {
            Recv::Closed
        } else {
            Recv::Empty
        }
    }

    /// Closes the bus: later publishes and subscriptions fail, and caught-up
    /// subscriptions read `Closed`.
    pub fn close(&mut self)
        requires
            old(self).wf(),
        ensures
            final(self).wf(),
            final(self).is_closed(),
            final(self).published() == old(self).published(),
            final(self).capacity_spec() == old(self).capacity_spec(),
    {
        self.closed = true;
    }
}

/// The events a subscription at `cursor` still gets to read: everything from
/// its cursor on, or from the oldest retained event if it fell behind.
pub open spec fn readable(events: Seq<String>, capacity: nat, cursor: nat) -> Seq<String> {
    let start = window_start(events.len(), capacity);
    if cursor < start {
        events.subrange(start as int, events.len() as int)
    } else if cursor <= events.len() {
        events.subrange(cursor as int, events.len() as int)
    } else {
        seq![]
    }
}

/// The lag report a subscription at `cursor` gets before reading, if any.
pub open spec fn lag_report(events: Seq<String>, capacity: nat, cursor: nat) -> Seq<Recv> {
    let start = window_start(events.len(), capacity);
    if cursor < start {
        seq![Recv::Lagged((start - cursor) as u64)]
    } else {
        seq![]
    }
}

proof fn lemma_drain_in_window(events: Seq<String>, capacity: nat, cursor: nat)
    requires
        window_start(events.len(), capacity) <= cursor <= events.len(),
    ensures
        drain(events, capacity, cursor) == deliveries(
            events.subrange(cursor as int, events.len() as int),
        ),
    decreases events.len() - cursor,
{
    let rest = events.subrange(cursor as int, events.len() as int);
    if cursor < events.len() {
        lemma_drain_in_window(events, capacity, cursor + 1);
        assert(rest.drop_first() =~= events.subrange((cursor + 1) as int, events.len() as int));
        assert(deliveries(rest) =~= seq![Recv::Event(events[cursor as int])] + deliveries(
            rest.drop_first(),
        ));
    } else {
        assert(deliveries(rest) =~= seq![]);
    }
}

/// Whatever its position, a subscription drained from an open bus receives
/// at most one lag report, first, and then every readable event once, in
/// publish order.
pub proof fn lemma_drain_shape(events: Seq<String>, capacity: nat, cursor: nat)
    ensures
        drain(events, capacity, cursor) == lag_report(events, capacity, cursor) + deliveries(
            readable(events, capacity, cursor),
        ),
{
    let start = window_start(events.len(), capacity);
    if cursor < start {
        lemma_drain_in_window(events, capacity, start);
    } else if cursor <= events.len() {
        lemma_drain_in_window(events, capacity, cursor);
        assert(lag_report(events, capacity, cursor) + drain(events, capacity, cursor) =~= drain(
            events,
            capacity,
            cursor,
        ));
    } else {
        assert(deliveries(seq![]) =~= seq![]);
        assert(lag_report(events, capacity, cursor) + deliveries(seq![]) =~= seq![]);
    }
}

/// Retention is bounded by the capacity however many events were published,
/// and what is retained is the latest published events.
pub proof fn lemma_retention_bounded(bus: &EventBus)
    requires
        bus.wf(),
    ensures
        bus.retained().len() <= bus.capacity_spec(),
        bus.retained() == bus.published().subrange(
            window_start(bus.published().len(), bus.capacity_spec()) as int,
            bus.published().len() as int,
        ),
{
}

/// A subscription taken before `later` was published, and read once they
/// all were, receives exactly `later`: in order, each once, when they fit
/// in the window.
pub proof fn lemma_receives_in_order(earlier: Seq<String>, later: Seq<String>, capacity: nat)
    requires
        later.len() <= capacity,
    ensures
        drain(earlier + later, capacity, earlier.len()) == deliveries(later),
{
    let events = earlier + later;
    lemma_drain_in_window(events, capacity, earlier.len());
    assert(events.subrange(earlier.len() as int, events.len() as int) =~= later);
}

/// A subscription taken after `earlier` receives nothing of it: what it
/// gets is what a subscription to a bus that only ever saw `later` gets.
pub proof fn lemma_no_replay(earlier: Seq<String>, later: Seq<String>, capacity: nat)
    ensures
        drain(earlier + later, capacity, earlier.len()) == drain(later, capacity, 0),
{
    let events = earlier + later;
    lemma_drain_shape(events, capacity, earlier.len());
    lemma_drain_shape(later, capacity, 0);
    let s1 = window_start(events.len(), capacity);
    let s2 = window_start(later.len(), capacity);
    assert(readable(events, capacity, earlier.len()) =~= readable(later, capacity, 0));
    if earlier.len() < s1 {
        assert(s1 - earlier.len() == s2);
    }
}

/// A subscription more than `capacity` events behind receives exactly one
/// `Lagged` counting the evicted events it missed, then the retained events
/// in order.
pub proof fn lemma_lagged_once(events: Seq<String>, capacity: nat, cursor: nat)
    requires
        cursor + capacity < events.len(),
    ensures
        drain(events, capacity, cursor) == seq![
            Recv::Lagged((events.len() - capacity - cursor) as u64),
        ] + deliveries(events.subrange(events.len() - capacity, events.len() as int)),
{
    lemma_drain_shape(events, capacity, cursor);
}

/// All subscriptions see one order: of two subscriptions, what the one
/// further ahead still reads is the tail of what the other reads.
pub proof fn lemma_one_order(events: Seq<String>, capacity: nat, c1: nat, c2: nat)
    requires
        c1 <= c2 <= events.len(),
    ensures
        readable(events, capacity, c2) == readable(events, capacity, c1).subrange(
            readable(events, capacity, c1).len() - readable(events, capacity, c2).len(),
            readable(events, capacity, c1).len() as int,
        ),
        drain(events, capacity, c1) == lag_report(events, capacity, c1) + deliveries(
            readable(events, capacity, c1),
        ),
        drain(events, capacity, c2) == lag_report(events, capacity, c2) + deliveries(
            readable(events, capacity, c2),
        ),
{
    lemma_drain_shape(events, capacity, c1);
    lemma_drain_shape(events, capacity, c2);
    let r1 = readable(events, capacity, c1);
    let r2 = readable(events, capacity, c2);
    assert(r2 =~= r1.subrange(r1.len() - r2.len(), r1.len() as int));
}

} // verus!
