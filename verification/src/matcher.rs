//! Nearest-match scoring of a frame against the pending triggers, with
//! asymmetric weighting of future-dated triggers and stale-entry cleanup.

use vstd::prelude::*;
use crate::trigger::TriggerEvent;
use crate::queue::PendingTriggerQueue;
use crate::queue::trigger_ids;

verus! {

/// Maximum absolute distance, in nanoseconds, between a frame arrival and a
/// trigger for the two to be considered correlated (500 ms).
pub const TOLERANCE_NS: u64 = 500_000_000;

/// Absolute distance between a trigger's exposure instant and a frame's
/// arrival instant, in nanoseconds.
pub open spec fn delta_ns(hw_ts: u64, frame_ts: u64) -> int {
    if hw_ts <= frame_ts {
        frame_ts - hw_ts
    } else {
        hw_ts - frame_ts
    }
}

/// A trigger fired before the frame arrived. Such a trigger can genuinely
/// have caused the frame, so it carries no penalty.
pub open spec fn is_past(hw_ts: u64, frame_ts: u64) -> bool {
    hw_ts < frame_ts
}

/// Matching score: the raw distance for past triggers, twice the distance
/// for future-dated ones, which are kept only as a fallback.
pub open spec fn score_of(hw_ts: u64, frame_ts: u64) -> int {
    if is_past(hw_ts, frame_ts) {
        delta_ns(hw_ts, frame_ts)
    } else {
        2 * delta_ns(hw_ts, frame_ts)
    }
}

/// A candidate may be selected only when it lies strictly within tolerance.
pub open spec fn eligible(hw_ts: u64, frame_ts: u64) -> bool {
    delta_ns(hw_ts, frame_ts) < TOLERANCE_NS as int
}

/// Some pending trigger is eligible for this frame.
pub open spec fn has_candidate(q: Seq<TriggerEvent>, frame_ts: u64) -> bool {
    exists|j: int|
        #![trigger q[j]]
        0 <= j < q.len() && eligible(q[j].hardware_timestamp_ns, frame_ts)
}

/// Position `k` is the one the matcher selects: eligible, of minimal score,
/// and the earliest-inserted position among candidates of that score.
pub open spec fn selects(q: Seq<TriggerEvent>, frame_ts: u64, k: int) -> bool {
    &&& 0 <= k < q.len()
    &&& eligible(q[k].hardware_timestamp_ns, frame_ts)
    &&& forall|j: int|
        #![trigger q[j]]
        0 <= j < q.len() && eligible(q[j].hardware_timestamp_ns, frame_ts)
            ==> score_of(q[k].hardware_timestamp_ns, frame_ts)
                <= score_of(q[j].hardware_timestamp_ns, frame_ts)
    &&& forall|j: int|
        #![trigger q[j]]
        0 <= j < k && eligible(q[j].hardware_timestamp_ns, frame_ts)
            ==> score_of(q[k].hardware_timestamp_ns, frame_ts)
                < score_of(q[j].hardware_timestamp_ns, frame_ts)
}

/// Whether the matched trigger fired before or after the frame arrived.
#[derive(Clone, Copy, Debug, PartialEq, Eq, Structural)]
pub enum TriggerKind {
    Past,
    Future,
}

/// The synchronized record produced for a matched frame. Times are kept in
/// integer nanoseconds; a sink may format them as milliseconds.
#[derive(Clone, Debug)]
pub struct MatchResult {
    /// The matched trigger event.
    pub trigger: TriggerEvent,
    /// Arrival instant of the frame that was matched.
    pub frame_timestamp_ns: u64,
    /// Signed frame-arrival minus exposure distance; negative for a match
    /// of kind `Future`.
    pub latency_ns: i64,
    /// The winning score, in nanoseconds.
    pub score_ns: u64,
    /// Whether the matched trigger fired before the frame arrived.
    pub kind: TriggerKind,
    /// Ids of the stale triggers discarded by the cleanup pass, oldest
    /// first; their number is the matched trigger's original position.
    pub cleaned_ids: Vec<u64>,
}

impl MatchResult {
    /// How many stale triggers the cleanup pass discarded.
    pub fn cleaned_count(&self) -> (n: usize)
        ensures
            n == self.cleaned_ids@.len(),
    {
        self.cleaned_ids.len()
    }
}

/// Everything `match_frame` promises, as one statement: on `None` no
/// candidate was eligible and the buffer is untouched; on `Some` the record
/// describes the selected position `k` (recoverable as the number of
/// cleaned ids) and the buffer keeps exactly the events that followed it.
pub open spec fn match_outcome(
    q: Seq<TriggerEvent>,
    frame_ts: u64,
    outcome: Option<MatchResult>,
    q_after: Seq<TriggerEvent>,
) -> bool {
    match outcome {
        None => !has_candidate(q, frame_ts) && q_after == q,
        Some(m) => {
            let k = m.cleaned_ids@.len() as int;
            &&& selects(q, frame_ts, k)
            &&& m.trigger == q[k]
            &&& m.frame_timestamp_ns == frame_ts
            &&& m.score_ns == score_of(q[k].hardware_timestamp_ns, frame_ts)
            &&& m.kind == (if is_past(q[k].hardware_timestamp_ns, frame_ts) {
                TriggerKind::Past
            } else {
                TriggerKind::Future
            })
            &&& m.latency_ns == frame_ts - q[k].hardware_timestamp_ns
            &&& m.cleaned_ids@ == trigger_ids(q.take(k))
            &&& q_after == q.skip(k + 1)
        },
    }
}

/// Selects the best-matching pending trigger for a frame that arrived at
/// `frame_timestamp_ns`, removes it, and discards every older pending
/// trigger; returns `None`, leaving the buffer unchanged, when no trigger
/// lies within tolerance.
pub fn match_frame(frame_timestamp_ns: u64, queue: &mut PendingTriggerQueue)
    -> (outcome: Option<MatchResult>)
    ensures
        match_outcome(old(queue)@, frame_timestamp_ns, outcome, final(queue)@),
        old(queue).wf() ==> final(queue).wf(),
{
    let ghost q0 = queue@;
    let n = queue.len();
    let mut found = false;
    let mut best_index: usize = 0;
    let mut best_score: u64 = 0;
    let mut i: usize = 0;
    while i < n
        invariant
            queue@ == q0,
            n == q0.len(),
            i <= n,
            found ==> best_index < i
                && eligible(q0[best_index as int].hardware_timestamp_ns, frame_timestamp_ns)
                && best_score == score_of(
                    q0[best_index as int].hardware_timestamp_ns,
                    frame_timestamp_ns,
                ),
            forall|j: int|
                #![trigger q0[j]]
                0 <= j < i && eligible(q0[j].hardware_timestamp_ns, frame_timestamp_ns)
                    ==> found && best_score
                        <= score_of(q0[j].hardware_timestamp_ns, frame_timestamp_ns),
            forall|j: int|
                #![trigger q0[j]]
                0 <= j < best_index
                    && eligible(q0[j].hardware_timestamp_ns, frame_timestamp_ns)
                    ==> best_score < score_of(q0[j].hardware_timestamp_ns, frame_timestamp_ns),
        decreases n - i,
    {
        let hw = queue.get(i).hardware_timestamp_ns;
        let delta: u64 = if hw <= frame_timestamp_ns {
            frame_timestamp_ns - hw
        } else {
            hw - frame_timestamp_ns
        };
        if delta < TOLERANCE_NS {
            let sc: u64 = if hw < frame_timestamp_ns {
                delta
            } else {
                2 * delta
            };
            if !found || sc < best_score {
                found = true;
                best_index = i;
                best_score = sc;
            }
        }
        i = i + 1;
    }

    if !found {
        return None;
    }

    let matched = queue.remove_at(best_index);
    let mut cleaned_ids: Vec<u64> = Vec::new();
    let mut c: usize = 0;
    while c < best_index
        invariant
            best_index < q0.len(),
            c <= best_index,
            queue@ == q0.remove(best_index as int).skip(c as int),
            cleaned_ids@ == trigger_ids(q0.take(c as int)),
        decreases best_index - c,
    {
        proof {
            assert(queue@.len() == q0.len() - 1 - c);
            assert(queue@[0] == q0.remove(best_index as int)[c as int]);
            assert(q0.remove(best_index as int)[c as int] == q0[c as int]);
        }
        match queue.pop_front() {
            Some(front) => {
                cleaned_ids.push(front.id);
                proof {
                    assert(cleaned_ids@ =~= trigger_ids(q0.take(c + 1)));
                }
            },
            None => {
                proof {
                    assert(false);
                }
            },
        }
        c = c + 1;
    }
    proof {
        assert(queue@ =~= q0.skip(best_index + 1));
    }

    let hw = matched.hardware_timestamp_ns;
    let latency_ns: i64 = if hw <= frame_timestamp_ns {
        (frame_timestamp_ns - hw) as i64
    } else {
        -((hw - frame_timestamp_ns) as i64)
    };
    let kind = if hw < frame_timestamp_ns {
        TriggerKind::Past
    } else {
        TriggerKind::Future
    };
    Some(MatchResult {
        trigger: matched,
        frame_timestamp_ns,
        latency_ns,
        score_ns: best_score,
        kind,
        cleaned_ids,
    })
}

/// Tolerance law: a trigger whose distance to the frame reaches the
/// tolerance is never the selected one, whatever its score.
pub proof fn lemma_tolerance(q: Seq<TriggerEvent>, frame_ts: u64, k: int)
    requires
        selects(q, frame_ts, k),
    ensures
        delta_ns(q[k].hardware_timestamp_ns, frame_ts) < TOLERANCE_NS as int,
{
}

/// Tie-break law: of two eligible candidates with identical score, the
/// later-inserted one is never selected.
pub proof fn lemma_tie_break(q: Seq<TriggerEvent>, frame_ts: u64, k: int, i: int, j: int)
    requires
        selects(q, frame_ts, k),
        0 <= i < j < q.len(),
        eligible(q[i].hardware_timestamp_ns, frame_ts),
        eligible(q[j].hardware_timestamp_ns, frame_ts),
        score_of(q[i].hardware_timestamp_ns, frame_ts)
            == score_of(q[j].hardware_timestamp_ns, frame_ts),
    ensures
        k != j,
{
    if k == j {
        assert(score_of(q[k].hardware_timestamp_ns, frame_ts)
            < score_of(q[i].hardware_timestamp_ns, frame_ts));
        assert(false);
    }
}

/// Past-preference law: of an eligible past candidate and an eligible
/// future candidate at the same raw distance, the future one is never
/// selected, since its score is doubled.
pub proof fn lemma_past_preference(q: Seq<TriggerEvent>, frame_ts: u64, k: int, i: int, j: int)
    requires
        selects(q, frame_ts, k),
        0 <= i < q.len(),
        0 <= j < q.len(),
        eligible(q[i].hardware_timestamp_ns, frame_ts),
        eligible(q[j].hardware_timestamp_ns, frame_ts),
        is_past(q[i].hardware_timestamp_ns, frame_ts),
        !is_past(q[j].hardware_timestamp_ns, frame_ts),
        delta_ns(q[i].hardware_timestamp_ns, frame_ts)
            == delta_ns(q[j].hardware_timestamp_ns, frame_ts),
    ensures
        k != j,
{
    assert(delta_ns(q[i].hardware_timestamp_ns, frame_ts) > 0);
    assert(score_of(q[k].hardware_timestamp_ns, frame_ts)
        <= score_of(q[i].hardware_timestamp_ns, frame_ts));
    if k == j {
        assert(false);
    }
}

/// Cleanup-completeness law: after a successful match at original position
/// `k`, nothing that stood at positions `0..k` remains; the buffer holds
/// exactly the events that followed the matched one, in order.
pub proof fn lemma_cleanup_complete(
    q: Seq<TriggerEvent>,
    frame_ts: u64,
    m: MatchResult,
    q_after: Seq<TriggerEvent>,
)
    requires
        match_outcome(q, frame_ts, Some(m), q_after),
    ensures
        q_after == q.skip(m.cleaned_ids@.len() as int + 1),
        q_after.len() == q.len() - m.cleaned_ids@.len() - 1,
        forall|j: int| 0 <= j < q_after.len()
            ==> q_after[j] == q[m.cleaned_ids@.len() + 1 + j],
        m.cleaned_ids@ == trigger_ids(q.take(m.cleaned_ids@.len() as int)),
{
}

/// No-match law: a frame that matches no pending trigger mutates nothing.
pub proof fn lemma_no_match_no_mutation(
    q: Seq<TriggerEvent>,
    frame_ts: u64,
    q_after: Seq<TriggerEvent>,
)
    requires
        match_outcome(q, frame_ts, None, q_after),
    ensures
        q_after == q,
        !has_candidate(q, frame_ts),
{
}

} // verus!

