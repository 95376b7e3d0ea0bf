use vstd::prelude::*;

use crate::event::ProxyEvent;

verus! {

/// One subscription's cursor: the next event it will be handed, and how many
/// events it has lost to lag so far.
#[derive(Clone, Copy, PartialEq, Eq, Structural, Debug)]
pub struct BusSubscriber {
    pub next_pos: usize,
    pub lag: usize,
}

/// What one receive step yields: the index of the next event, notice that
/// `0` dropped events were skipped because the subscriber fell behind, or
/// nothing new yet.
#[derive(Clone, Copy, PartialEq, Eq, Structural, Debug)]
pub enum RecvOutcome {
    Item(usize),
    Lagged(usize),
    Empty,
}

/// The event bus: a broadcast channel that keeps the last `capacity` events
/// for its subscribers. A sender always succeeds at once; a subscriber that
/// falls more than `capacity` behind loses the oldest events and is told how
/// many. The history of everything ever sent is the model against which the
/// cursors and the lag counters are stated.
#[derive(Debug)]
pub struct EventBus {
    pub capacity: usize,
    pub events: Vec<ProxyEvent>,
    pub subs: Vec<BusSubscriber>,
}

impl EventBus {
    /// Every cursor lies within the history, and nobody lost more events than
    /// it has moved past.
    pub open spec fn well_formed(&self) -> bool {
        &&& self.capacity >= 1
        &&& forall|s: int|
            0 <= s < self.subs@.len() ==> ((#[trigger] self.subs@[s]).lag <= self.subs@[s].next_pos
                && self.subs@[s].next_pos <= self.events@.len())
    }

    /// The oldest position still retained: everything before it has been
    /// dropped for laggards.
    pub open spec fn cutoff(&self) -> int {
        if self.events@.len() > self.capacity {
            self.events@.len() - self.capacity
        } else {
            0
        }
    }

    /// A bus with the given retention capacity and no subscribers yet.
    pub fn new(capacity: usize) -> (r: EventBus)
        requires
            capacity >= 1,
        ensures
            r.well_formed(),
            r.capacity == capacity,
            r.events@.len() == 0,
            r.subs@.len() == 0,
    {
        EventBus { capacity, events: Vec::new(), subs: Vec::new() }
    }

    /// Add a subscriber. It starts at the present end of the history: a late
    /// subscriber sees only events emitted after it subscribed.
    pub fn subscribe(&mut self) -> (sub: usize)
        requires
            old(self).well_formed(),
        ensures
            final(self).well_formed(),
            final(self).capacity == old(self).capacity,
            final(self).events@ == old(self).events@,
            sub == old(self).subs@.len(),
            final(self).subs@ == old(self).subs@.push(
                BusSubscriber { next_pos: old(self).events@.len() as usize, lag: 0 },
            ),
    {
        let sub = self.subs.len();
        let pos = self.events.len();
        self.subs.push(BusSubscriber { next_pos: pos, lag: 0 });
        sub
    }

    /// Publish an event. Sending never blocks and never fails: the event is
    /// appended to the history whatever any subscriber is doing.
    pub fn send(&mut self, ev: ProxyEvent)
        requires
            old(self).well_formed(),
            old(self).events@.len() < usize::MAX,
        ensures
            final(self).well_formed(),
            final(self).capacity == old(self).capacity,
            final(self).subs@ == old(self).subs@,
            final(self).events@ == old(self).events@.push(ev),
    {
        self.events.push(ev);
    }

    /// One receive step for a subscriber. In order of precedence: if the
    /// cursor fell behind the retained window, it is snapped forward to the
    /// cutoff, the subscriber's lag counter grows by the number of events
    /// lost, and that number is reported; otherwise the next event's index is
    /// handed out and the cursor moves one forward; otherwise there is
    /// nothing new.
    pub fn recv(&mut self, sub: usize) -> (r: RecvOutcome)
        requires
            old(self).well_formed(),
            sub < old(self).subs@.len(),
        ensures
            final(self).well_formed(),
            final(self).capacity == old(self).capacity,
            final(self).events@ == old(self).events@,
            final(self).subs@.len() == old(self).subs@.len(),
            forall|s: int|
                0 <= s < old(self).subs@.len() && s != sub ==> final(self).subs@[s] == old(
                    self,
                ).subs@[s],
            ({
                let pos = old(self).subs@[sub as int].next_pos;
                let lag = old(self).subs@[sub as int].lag;
                let cut = old(self).cutoff();
                if pos < cut {
                    r == RecvOutcome::Lagged((cut - pos) as usize) && final(self).subs@[sub as int]
                        == (BusSubscriber {
                        next_pos: cut as usize,
                        lag: (lag + cut - pos) as usize,
                    })
                } else if pos < old(self).events@.len() {
                    r == RecvOutcome::Item(pos) && final(self).subs@[sub as int]
                        == (BusSubscriber { next_pos: (pos + 1) as usize, lag })
                } else {
                    r == RecvOutcome::Empty && final(self).subs@[sub as int] == old(
                        self,
                    ).subs@[sub as int]
                }
            }),
    {
        let len = self.events.len();
        let cut: usize = if len > self.capacity {
            len - self.capacity
        } else {
            0
        };
        let cur = self.subs[sub];
        if cur.next_pos < cut {
            let skipped = cut - cur.next_pos;
            self.subs.set(sub, BusSubscriber { next_pos: cut, lag: cur.lag + skipped });
            RecvOutcome::Lagged(skipped)
        } else if cur.next_pos < len {
            self.subs.set(sub, BusSubscriber { next_pos: cur.next_pos + 1, lag: cur.lag });
            RecvOutcome::Item(cur.next_pos)
        } else {
            RecvOutcome::Empty
        }
    }

    /// How many events this subscriber has lost to lag so far.
    pub fn lag(&self, sub: usize) -> (r: usize)
        requires
            sub < self.subs@.len(),
        ensures
            r == self.subs@[sub as int].lag,
    {
        self.subs[sub].lag
    }

    /// The event at a given position of the history.
    pub fn event_at(&self, i: usize) -> (r: &ProxyEvent)
        requires
            i < self.events@.len(),
        ensures
            *r == self.events@[i as int],
    {
        &self.events[i]
    }

    /// How many events were ever published.
    pub fn history_len(&self) -> (r: usize)
        ensures
            r == self.events@.len(),
    {
        self.events.len()
    }

    /// Stop the bus: publish the shutdown event under id 0. Subscribers read
    /// what remains and end.
    pub fn shutdown(&mut self)
        requires
            old(self).well_formed(),
            old(self).events@.len() < usize::MAX,
        ensures
            final(self).well_formed(),
            final(self).capacity == old(self).capacity,
            final(self).subs@ == old(self).subs@,
            final(self).events@.len() == old(self).events@.len() + 1,
            final(self).events@.subrange(0, old(self).events@.len() as int) == old(self).events@,
            final(self).events@.last()@.id == 0,
            final(self).events@.last()@.event == crate::event::ProxyStateView::Shutdown,
            !final(self).events@.last()@.callback,
    {
        let ev = ProxyEvent::shutdown();
        self.send(ev);
        proof {
            assert(self.events@.subrange(0, old(self).events@.len() as int) =~= old(self).events@);
        }
    }
}

} // verus!
