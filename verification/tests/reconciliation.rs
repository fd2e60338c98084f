use camera_sync::engine::{Phase, Reconciler};
use camera_sync::matcher::{match_frame, TriggerKind, TOLERANCE_NS};
use camera_sync::queue::{PendingTriggerQueue, MAX_PENDING};
use camera_sync::trigger::{TriggerEvent, TriggerSource};

fn ev(id: u64, hw_ts: u64) -> TriggerEvent {
    TriggerEvent { id, hardware_timestamp_ns: hw_ts, publish_timestamp_ns: hw_ts }
}

#[test]
fn push_within_capacity_evicts_nothing() {
    let mut q = PendingTriggerQueue::new();
    for i in 1..=100u64 {
        assert_eq!(q.push(ev(i, i * 1_000)), None);
    }
    assert_eq!(q.len(), 100);
    assert_eq!(q.get(0).id, 1);
    assert_eq!(q.get(99).id, 100);
}

#[test]
fn push_past_capacity_evicts_front() {
    let mut q = PendingTriggerQueue::new();
    for i in 1..=100u64 {
        assert_eq!(q.push(ev(i, i * 1_000)), None);
    }
    let evicted = q.push(ev(101, 101_000));
    assert_eq!(evicted, Some(ev(1, 1_000)));
    assert_eq!(q.len(), MAX_PENDING);
    assert_eq!(q.get(0).id, 2);
    assert_eq!(q.get(99).id, 101);
}

#[test]
fn scenario_d_sequential_overflow() {
    // 105 pushes with ids 1..=105: ids 1..=5 leave in FIFO order and the
    // buffer ends up holding ids 6..=105.
    let mut q = PendingTriggerQueue::new();
    let mut evicted_ids = Vec::new();
    for i in 1..=105u64 {
        if let Some(old) = q.push(ev(i, i * 1_000_000)) {
            evicted_ids.push(old.id);
        }
    }
    assert_eq!(evicted_ids, vec![1, 2, 3, 4, 5]);
    assert_eq!(q.len(), 100);
    for pos in 0..100usize {
        assert_eq!(q.get(pos).id, 6 + pos as u64);
    }
}

#[test]
fn pop_front_on_empty_returns_none() {
    let mut q = PendingTriggerQueue::new();
    assert_eq!(q.pop_front(), None);
    assert_eq!(q.len(), 0);
}

#[test]
fn pop_front_returns_oldest() {
    let mut q = PendingTriggerQueue::new();
    q.push(ev(7, 70));
    q.push(ev(8, 80));
    assert_eq!(q.pop_front(), Some(ev(7, 70)));
    assert_eq!(q.pop_front(), Some(ev(8, 80)));
    assert_eq!(q.pop_front(), None);
}

#[test]
fn remove_at_shifts_later_entries() {
    let mut q = PendingTriggerQueue::new();
    q.push(ev(1, 10));
    q.push(ev(2, 20));
    q.push(ev(3, 30));
    let removed = q.remove_at(1);
    assert_eq!(removed, ev(2, 20));
    assert_eq!(q.len(), 2);
    assert_eq!(q.get(0).id, 1);
    assert_eq!(q.get(1).id, 3);
}

#[test]
fn scenario_a_closest_past_trigger_wins() {
    let mut q = PendingTriggerQueue::new();
    q.push(ev(1, 1_000_000_000));
    q.push(ev(2, 1_033_000_000));
    let m = match_frame(1_050_000_000, &mut q).expect("a match within tolerance");
    assert_eq!(m.trigger.id, 2);
    assert_eq!(m.kind, TriggerKind::Past);
    assert_eq!(m.score_ns, 17_000_000);
    assert_eq!(m.score_ns as f64 / 1e6, 17.0);
    assert_eq!(m.latency_ns, 17_000_000);
    assert_eq!(m.frame_timestamp_ns, 1_050_000_000);
    assert_eq!(m.cleaned_ids, vec![1]);
    assert_eq!(m.cleaned_count(), 1);
    assert_eq!(q.len(), 0);
}

#[test]
fn scenario_b_out_of_tolerance_leaves_queue_unchanged() {
    let mut q = PendingTriggerQueue::new();
    q.push(ev(5, 2_000_000_000));
    // The frame arrives 700 ms later: no candidate within 500 ms.
    let outcome = match_frame(2_700_000_000, &mut q);
    assert!(outcome.is_none());
    assert_eq!(q.len(), 1);
    assert_eq!(q.get(0).id, 5);
}

#[test]
fn scenario_c_future_trigger_matches_with_penalty() {
    let mut q = PendingTriggerQueue::new();
    q.push(ev(9, 5_000_000_000));
    // The frame arrived 10 ms before the trigger fired.
    let m = match_frame(4_990_000_000, &mut q).expect("a future match within tolerance");
    assert_eq!(m.trigger.id, 9);
    assert_eq!(m.kind, TriggerKind::Future);
    assert_eq!(m.score_ns, 20_000_000);
    assert_eq!(m.score_ns as f64 / 1e6, 20.0);
    assert_eq!(m.latency_ns, -10_000_000);
    assert_eq!(m.cleaned_ids, Vec::<u64>::new());
    assert_eq!(q.len(), 0);
}

#[test]
fn tolerance_is_strict_at_the_boundary() {
    let mut q = PendingTriggerQueue::new();
    q.push(ev(1, 1_000_000_000));
    // Exactly 500 ms away: rejected.
    assert!(match_frame(1_000_000_000 + TOLERANCE_NS, &mut q).is_none());
    assert_eq!(q.len(), 1);
    // One nanosecond inside the tolerance: accepted.
    let m = match_frame(1_000_000_000 + TOLERANCE_NS - 1, &mut q).expect("within tolerance");
    assert_eq!(m.trigger.id, 1);
    assert_eq!(m.score_ns, TOLERANCE_NS - 1);
}

#[test]
fn equal_scores_keep_the_earlier_entry() {
    let frame = 10_000_000_000u64;
    // A future trigger 50 ms away scores 100 ms, the same as a past
    // trigger 100 ms away; the earlier-inserted one must win.
    let mut q = PendingTriggerQueue::new();
    q.push(ev(1, frame + 50_000_000));
    q.push(ev(2, frame - 100_000_000));
    let m = match_frame(frame, &mut q).expect("a match");
    assert_eq!(m.trigger.id, 1);
    assert_eq!(m.kind, TriggerKind::Future);
    assert_eq!(m.score_ns, 100_000_000);
    assert_eq!(m.cleaned_count(), 0);
    assert_eq!(q.len(), 1);

    // Inserted the other way round, the other one wins.
    let mut q = PendingTriggerQueue::new();
    q.push(ev(2, frame - 100_000_000));
    q.push(ev(1, frame + 50_000_000));
    let m = match_frame(frame, &mut q).expect("a match");
    assert_eq!(m.trigger.id, 2);
    assert_eq!(m.kind, TriggerKind::Past);
    assert_eq!(m.score_ns, 100_000_000);
}

#[test]
fn past_beats_future_at_equal_distance() {
    let frame = 10_000_000_000u64;
    let mut q = PendingTriggerQueue::new();
    q.push(ev(1, frame + 100_000_000));
    q.push(ev(2, frame - 100_000_000));
    let m = match_frame(frame, &mut q).expect("a match");
    assert_eq!(m.trigger.id, 2);
    assert_eq!(m.kind, TriggerKind::Past);
    assert_eq!(m.score_ns, 100_000_000);
    assert_eq!(m.cleaned_ids, vec![1]);
    assert_eq!(q.len(), 0);
}

#[test]
fn empty_queue_never_matches() {
    let mut q = PendingTriggerQueue::new();
    assert!(match_frame(1_000, &mut q).is_none());
    assert_eq!(q.len(), 0);
}

#[test]
fn cleanup_spares_entries_after_the_match() {
    let frame = 5_000_000_000u64;
    let mut q = PendingTriggerQueue::new();
    q.push(ev(1, frame - 400_000_000));
    q.push(ev(2, frame - 10_000_000));
    q.push(ev(3, frame + 200_000_000));
    let m = match_frame(frame, &mut q).expect("a match");
    assert_eq!(m.trigger.id, 2);
    assert_eq!(m.cleaned_ids, vec![1]);
    assert_eq!(q.len(), 1);
    assert_eq!(q.get(0).id, 3);
}

#[test]
fn trigger_source_counts_from_one() {
    let mut source = TriggerSource::new();
    let a = source.next_event(100, 110);
    let b = source.next_event(200, 230);
    assert_eq!(a.id, 1);
    assert_eq!(a.hardware_timestamp_ns, 100);
    assert_eq!(a.publish_timestamp_ns, 110);
    assert_eq!(b.id, 2);
    assert_eq!(source.last_id, 2);
}

#[test]
fn replay_counts_backlog_and_goes_live() {
    let mut rec = Reconciler::new(1);
    assert_eq!(rec.phase, Phase::Replay);
    let backlog = vec![ev(1, 100), ev(2, 200), ev(3, 300)];
    let evicted = rec.replay(&backlog);
    assert_eq!(rec.phase, Phase::Live);
    assert_eq!(rec.history_count, 3);
    assert!(evicted.is_empty());
    assert_eq!(rec.queue.len(), 3);
}

#[test]
fn replay_applies_the_overflow_rule() {
    let mut rec = Reconciler::new(1);
    let backlog: Vec<TriggerEvent> = (1..=105u64).map(|i| ev(i, i * 1_000_000)).collect();
    let evicted = rec.replay(&backlog);
    assert_eq!(evicted, vec![1, 2, 3, 4, 5]);
    assert_eq!(rec.history_count, 105);
    assert_eq!(rec.queue.len(), 100);
    assert_eq!(rec.queue.get(0).id, 6);
}

#[test]
fn live_step_ingests_then_matches() {
    let mut rec = Reconciler::new(1);
    rec.replay(&vec![ev(1, 1_000_000_000)]);
    let fresh = vec![ev(2, 1_033_000_000)];
    let step = rec.process_frame(&fresh, 1_050_000_000);
    assert!(step.evicted_ids.is_empty());
    let m = step.outcome.expect("a match");
    assert_eq!(m.trigger.id, 2);
    assert_eq!(m.cleaned_ids, vec![1]);
    assert_eq!(rec.queue.len(), 0);
}

#[test]
fn unmatched_live_step_mutates_nothing_but_ingest() {
    let mut rec = Reconciler::new(1);
    rec.replay(&vec![ev(5, 2_000_000_000)]);
    let step = rec.process_frame(&Vec::new(), 2_700_000_000);
    assert!(step.evicted_ids.is_empty());
    assert!(step.outcome.is_none());
    assert_eq!(rec.queue.len(), 1);
    assert_eq!(rec.queue.get(0).id, 5);
}

#[test]
fn frame_skipping_processes_every_nth_frame() {
    let mut rec = Reconciler::new(3);
    let decisions: Vec<bool> = (0..6).map(|_| rec.record_frame_arrival()).collect();
    assert_eq!(decisions, vec![false, false, true, false, false, true]);
    assert_eq!(rec.frame_counter, 6);

    // A ratio of 1 processes every frame.
    let mut rec = Reconciler::new(1);
    assert!(rec.record_frame_arrival());
    assert!(rec.record_frame_arrival());
}
