//! The reconciliation state machine: one-time backlog replay, then live
//! alternation of trigger ingestion and frame matching. The blocking parts
//! (bus polling, frame acquisition, sleeping) live with the caller, which
//! hands each step the events it drained and the frame timestamp it got;
//! every deployment variant therefore shares these matching semantics.

use vstd::prelude::*;
use crate::trigger::TriggerEvent;
use crate::queue::PendingTriggerQueue;
use crate::queue::queue_after_pushes;
use crate::queue::evicted_ids_by_pushes;
use crate::matcher::MatchResult;
use crate::matcher::match_frame;
use crate::matcher::match_outcome;

verus! {

/// Where the loop stands: replaying the retained backlog (once, at
/// startup) or processing live traffic.
#[derive(Clone, Copy, Debug, PartialEq, Eq, Structural)]
pub enum Phase {
    Replay,
    Live,
}

/// What one live step produced: the ids evicted by overflow while
/// ingesting, and the match outcome for the frame, if one was found.
pub struct StepReport {
    pub evicted_ids: Vec<u64>,
    pub outcome: Option<MatchResult>,
}

/// The reconciliation loop's whole state; no ambient counters.
pub struct Reconciler {
    pub queue: PendingTriggerQueue,
    pub phase: Phase,
    /// How many backlog events the startup replay drained.
    pub history_count: u64,
    /// Frames seen so far, for the frame-skip decision; wraps.
    pub frame_counter: u32,
    /// Process one of every `skip_ratio` frames; at least 1.
    pub skip_ratio: u32,
}

impl Reconciler {
    pub open spec fn wf(&self) -> bool {
        &&& self.queue.wf()
        &&& self.skip_ratio >= 1
    }

    /// A fresh loop in the replay phase with an empty buffer.
    pub fn new(skip_ratio: u32) -> (r: Self)
        requires
            skip_ratio >= 1,
        ensures
            r.wf(),
            r.phase == Phase::Replay,
            r.queue@ == Seq::<TriggerEvent>::empty(),
            r.history_count == 0,
            r.frame_counter == 0,
            r.skip_ratio == skip_ratio,
    {
        Reconciler {
            queue: PendingTriggerQueue::new(),
            phase: Phase::Replay,
            history_count: 0,
            frame_counter: 0,
            skip_ratio,
        }
    }

    /// Pushes a batch of drained trigger events into the buffer, front to
    /// back, and returns the ids that overflow evicted, in order.
    pub fn ingest(&mut self, events: &Vec<TriggerEvent>) -> (evicted_ids: Vec<u64>)
        requires
            old(self).wf(),
        ensures
            final(self).wf(),
            final(self).queue@ == queue_after_pushes(old(self).queue@, events@),
            evicted_ids@ == evicted_ids_by_pushes(old(self).queue@, events@),
            final(self).phase == old(self).phase,
            final(self).history_count == old(self).history_count,
            final(self).frame_counter == old(self).frame_counter,
            final(self).skip_ratio == old(self).skip_ratio,
    {
        let ghost q0 = self.queue@;
        let ghost s = events@;
        let ghost phase0 = self.phase;
        let ghost history0 = self.history_count;
        let ghost frames0 = self.frame_counter;
        let ghost skip0 = self.skip_ratio;
        let mut evicted_ids: Vec<u64> = Vec::new();
        let mut i: usize = 0;
        proof {
            assert(s.skip(0) =~= s);
            assert(Seq::<u64>::empty() + evicted_ids_by_pushes(q0, s)
                =~= evicted_ids_by_pushes(q0, s));
        }
        while i < events.len()
            invariant
                self.wf(),
                s == events@,
                i <= s.len(),
                queue_after_pushes(q0, s) == queue_after_pushes(self.queue@, s.skip(i as int)),
                evicted_ids_by_pushes(q0, s)
                    == evicted_ids@ + evicted_ids_by_pushes(self.queue@, s.skip(i as int)),
                self.phase == phase0,
                self.history_count == history0,
                self.frame_counter == frames0,
                self.skip_ratio == skip0,
            decreases s.len() - i,
        {
            let ghost q_before = self.queue@;
            let ghost acc_before = evicted_ids@;
            let ev = events[i];
            let evicted = self.queue.push(ev);
            match evicted {
                Some(old_ev) => evicted_ids.push(old_ev.id),
                None => {},
            }
            proof {
                assert(s.skip(i as int)[0] == s[i as int]);
                assert(s.skip(i as int).skip(1) =~= s.skip(i as int + 1));
                assert(queue_after_pushes(q_before, s.skip(i as int))
                    == queue_after_pushes(self.queue@, s.skip(i as int + 1)));
                let head: Seq<u64> = if q_before.len() < crate::queue::MAX_PENDING as int {
                    Seq::empty()
                } else {
                    seq![q_before[0].id]
                };
                assert(evicted_ids_by_pushes(q_before, s.skip(i as int))
                    == head + evicted_ids_by_pushes(self.queue@, s.skip(i as int + 1)));
                assert(evicted_ids@ =~= acc_before + head);
                assert((acc_before + head) + evicted_ids_by_pushes(self.queue@, s.skip(i as int + 1))
                    =~= acc_before + (head + evicted_ids_by_pushes(self.queue@, s.skip(i as int + 1))));
            }
            i = i + 1;
        }
        proof {
            assert(s.skip(s.len() as int) =~= Seq::<TriggerEvent>::empty());
            assert(evicted_ids@ + Seq::<u64>::empty() =~= evicted_ids@);
        }
        evicted_ids
    }

    /// Startup history replay: drains the retained backlog through the
    /// normal push path — the same overflow rule applies — counts it, and
    /// moves the loop to the live phase.
    pub fn replay(&mut self, backlog: &Vec<TriggerEvent>) -> (evicted_ids: Vec<u64>)
        requires
            old(self).wf(),
            old(self).phase == Phase::Replay,
        ensures
            final(self).wf(),
            final(self).phase == Phase::Live,
            final(self).history_count == backlog@.len(),
            final(self).queue@ == queue_after_pushes(old(self).queue@, backlog@),
            evicted_ids@ == evicted_ids_by_pushes(old(self).queue@, backlog@),
            final(self).frame_counter == old(self).frame_counter,
            final(self).skip_ratio == old(self).skip_ratio,
    {
        let evicted_ids = self.ingest(backlog);
        self.phase = Phase::Live;
        self.history_count = backlog.len() as u64;
        evicted_ids
    }

    /// Counts one delivered frame and says whether it should be processed:
    /// every `skip_ratio`-th frame is, the others are skipped.
    pub fn record_frame_arrival(&mut self) -> (process: bool)
        requires
            old(self).wf(),
        ensures
            final(self).wf(),
            final(self).frame_counter == (old(self).frame_counter + 1) % 0x1_0000_0000,
            process <==> final(self).frame_counter % final(self).skip_ratio == 0,
            final(self).queue@ == old(self).queue@,
            final(self).phase == old(self).phase,
            final(self).history_count == old(self).history_count,
            final(self).skip_ratio == old(self).skip_ratio,
    {
        self.frame_counter = self.frame_counter.wrapping_add(1);
        self.frame_counter % self.skip_ratio == 0
    }

    /// One live step: ingest the just-drained trigger events, then attempt
    /// to match the frame that arrived at `frame_timestamp_ns` against the
    /// refreshed buffer.
    pub fn process_frame(&mut self, events: &Vec<TriggerEvent>, frame_timestamp_ns: u64)
        -> (step: StepReport)
        requires
            old(self).wf(),
            old(self).phase == Phase::Live,
        ensures
            final(self).wf(),
            step.evicted_ids@ == evicted_ids_by_pushes(old(self).queue@, events@),
            match_outcome(
                queue_after_pushes(old(self).queue@, events@),
                frame_timestamp_ns,
                step.outcome,
                final(self).queue@,
            ),
            final(self).phase == Phase::Live,
            final(self).history_count == old(self).history_count,
            final(self).frame_counter == old(self).frame_counter,
            final(self).skip_ratio == old(self).skip_ratio,
    {
        let evicted_ids = self.ingest(events);
        let outcome = match_frame(frame_timestamp_ns, &mut self.queue);
        StepReport { evicted_ids, outcome }
    }
}

} // verus!
