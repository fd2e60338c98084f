//! The bounded buffer of pending triggers awaiting a frame match.

use vstd::prelude::*;
use crate::trigger::TriggerEvent;

verus! {

/// Capacity of the pending buffer; pushing past it evicts the oldest entry.
pub const MAX_PENDING: usize = 100;

/// The ids of a sequence of trigger events, in order.
pub open spec fn trigger_ids(s: Seq<TriggerEvent>) -> Seq<u64> {
    s.map_values(|e: TriggerEvent| e.id)
}

/// Contents of the buffer after one push: the event goes to the back, and
/// when the buffer was already full the front element leaves.
pub open spec fn queue_after_push(q: Seq<TriggerEvent>, ev: TriggerEvent) -> Seq<TriggerEvent> {
    if q.len() < MAX_PENDING as int {
        q.push(ev)
    } else {
        q.skip(1).push(ev)
    }
}

/// The event, if any, that one push evicts.
pub open spec fn evicted_by_push(q: Seq<TriggerEvent>, ev: TriggerEvent) -> Option<TriggerEvent> {
    if q.len() < MAX_PENDING as int {
        None
    } else {
        Some(q[0])
    }
}

/// Contents of the buffer after pushing a whole batch, front to back.
pub open spec fn queue_after_pushes(q: Seq<TriggerEvent>, evs: Seq<TriggerEvent>) -> Seq<TriggerEvent>
    decreases evs.len(),
{
    if evs.len() == 0 {
        q
    } else {
        queue_after_pushes(queue_after_push(q, evs[0]), evs.skip(1))
    }
}

/// The ids evicted while pushing a whole batch, in eviction order.
pub open spec fn evicted_ids_by_pushes(q: Seq<TriggerEvent>, evs: Seq<TriggerEvent>) -> Seq<u64>
    decreases evs.len(),
{
    if evs.len() == 0 {
        Seq::empty()
    } else {
        let head: Seq<u64> = if q.len() < MAX_PENDING as int {
            Seq::empty()
        } else {
            seq![q[0].id]
        };
        head + evicted_ids_by_pushes(queue_after_push(q, evs[0]), evs.skip(1))
    }
}

/// Bounded, arrival-ordered buffer of trigger events awaiting a frame.
pub struct PendingTriggerQueue {
    events: Vec<TriggerEvent>,
}

impl View for PendingTriggerQueue {
    type V = Seq<TriggerEvent>;

    closed spec fn view(&self) -> Seq<TriggerEvent> {
        self.events@
    }
}

impl PendingTriggerQueue {
    /// The buffer never holds more than `MAX_PENDING` events.
    pub open spec fn wf(&self) -> bool {
        self@.len() <= MAX_PENDING as int
    }

    /// An empty buffer.
    pub fn new() -> (q: Self)
        ensures
            q@ == Seq::<TriggerEvent>::empty(),
            q.wf(),
    {
        PendingTriggerQueue { events: Vec::new() }
    }

    pub fn len(&self) -> (n: usize)
        ensures
            n == self@.len(),
    {
        self.events.len()
    }

    pub fn is_empty(&self) -> (b: bool)
        ensures
            b <==> self@.len() == 0,
    {
        self.events.len() == 0
    }

    /// Read access to the event at a position, oldest first.
    pub fn get(&self, index: usize) -> (ev: &TriggerEvent)
        requires
            index < self@.len(),
        ensures
            *ev == self@[index as int],
    {
        &self.events[index]
    }

    /// Appends an event at the back; when the buffer was full, removes and
    /// returns the oldest (front) event.
    pub fn push(&mut self, ev: TriggerEvent) -> (evicted: Option<TriggerEvent>)
        requires
            old(self).wf(),
        ensures
            final(self).wf(),
            final(self)@ == queue_after_push(old(self)@, ev),
            evicted == evicted_by_push(old(self)@, ev),
    {
        self.events.push(ev);
        if self.events.len() > MAX_PENDING {
            let front = self.events.remove(0);
            proof {
                assert(self.events@ =~= old(self)@.skip(1).push(ev));
            }
            Some(front)
        } else {
            None
        }
    }

    /// Removes and returns the event at a position, shifting later events
    /// forward.
    pub fn remove_at(&mut self, index: usize) -> (ev: TriggerEvent)
        requires
            index < old(self)@.len(),
        ensures
            ev == old(self)@[index as int],
            final(self)@ == old(self)@.remove(index as int),
            old(self).wf() ==> final(self).wf(),
    {
        self.events.remove(index)
    }

    /// Removes and returns the oldest event, if any.
    pub fn pop_front(&mut self) -> (front: Option<TriggerEvent>)
        ensures
            old(self)@.len() == 0 ==> final(self)@ == old(self)@ && front is None,
            old(self)@.len() > 0 ==> final(self)@ == old(self)@.skip(1)
                && front == Some(old(self)@[0]),
            old(self).wf() ==> final(self).wf(),
    {
        if self.events.len() == 0 {
            None
        } else {
            let ev = self.events.remove(0);
            proof {
                assert(self.events@ =~= old(self)@.skip(1));
            }
            Some(ev)
        }
    }
}

/// How a batch of pushes rearranges the buffer: the result is the suffix of
/// old-contents-then-batch that fits in `MAX_PENDING` slots, and what was
/// evicted is exactly the prefix that did not fit, in FIFO order.
pub proof fn lemma_pushes_keep_fifo(q: Seq<TriggerEvent>, evs: Seq<TriggerEvent>)
    requires
        q.len() <= MAX_PENDING as int,
    ensures
        ({
            let all = q + evs;
            let ovf: int = if all.len() > MAX_PENDING as int {
                all.len() - MAX_PENDING as int
            } else {
                0
            };
            &&& queue_after_pushes(q, evs) == all.skip(ovf)
            &&& evicted_ids_by_pushes(q, evs) == trigger_ids(all.take(ovf))
        }),
    decreases evs.len(),
{
    let all = q + evs;
    let ovf: int = if all.len() > MAX_PENDING as int {
        all.len() - MAX_PENDING as int
    } else {
        0
    };
    if evs.len() == 0 {
        assert(all =~= q);
        assert(queue_after_pushes(q, evs) =~= all.skip(0));
        assert(evicted_ids_by_pushes(q, evs) =~= trigger_ids(all.take(0)));
    } else {
        let q1 = queue_after_push(q, evs[0]);
        lemma_pushes_keep_fifo(q1, evs.skip(1));
        let all1 = q1 + evs.skip(1);
        let ovf1: int = if all1.len() > MAX_PENDING as int {
            all1.len() - MAX_PENDING as int
        } else {
            0
        };
        if q.len() < MAX_PENDING as int {
            assert(all1 =~= all);
            assert(queue_after_pushes(q, evs) == all.skip(ovf));
            assert(evicted_ids_by_pushes(q, evs) =~= trigger_ids(all.take(ovf)));
        } else {
            // The buffer was full: the front element q[0] left at once.
            assert(all1 =~= all.skip(1));
            assert(ovf1 == ovf - 1);
            assert(all.skip(1).skip(ovf - 1) =~= all.skip(ovf));
            assert(queue_after_pushes(q, evs) == all.skip(ovf));
            assert(trigger_ids(all.skip(1).take(ovf - 1)) =~= trigger_ids(all.take(ovf)).skip(1));
            assert(evicted_ids_by_pushes(q, evs) =~= trigger_ids(all.take(ovf)));
        }
    }
}

/// Queue-bound law: starting from an empty buffer, no sequence of pushes
/// grows it past `MAX_PENDING`; once more than `MAX_PENDING` events were
/// pushed, exactly the earliest surplus events have been evicted, in FIFO
/// order, and the buffer holds the most recent `MAX_PENDING` of them.
pub proof fn lemma_queue_bound(evs: Seq<TriggerEvent>)
    ensures
        queue_after_pushes(Seq::empty(), evs).len() <= MAX_PENDING as int,
        evs.len() <= MAX_PENDING as int ==> queue_after_pushes(Seq::empty(), evs) == evs
            && evicted_ids_by_pushes(Seq::empty(), evs) == Seq::<u64>::empty(),
        evs.len() > MAX_PENDING as int ==> queue_after_pushes(Seq::empty(), evs)
            == evs.skip(evs.len() - MAX_PENDING as int)
            && evicted_ids_by_pushes(Seq::empty(), evs)
            == trigger_ids(evs.take(evs.len() - MAX_PENDING as int)),
{
    lemma_pushes_keep_fifo(Seq::empty(), evs);
    assert(Seq::empty() + evs =~= evs);
    if evs.len() <= MAX_PENDING as int {
        assert(evs.skip(0) =~= evs);
        assert(trigger_ids(evs.take(0)) =~= Seq::<u64>::empty());
    }
}

} // verus!
