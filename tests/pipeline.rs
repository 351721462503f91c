use pegasus::{delta_nanos, CleanupLatch, Phase, Pipeline, Received, POOL_SIZE};

fn no_entry_on_both_sides(p: &Pipeline) -> bool {
    let r = p.recorder_queue();
    let q = p.presenter_queue();
    let queued_apart = r.iter().all(|e| !q.contains(e));
    let held_apart = match (p.recording(), p.submitting()) {
        (Some(a), Some(b)) => a != b,
        _ => true,
    };
    let recording_unqueued = p.recording().map_or(true, |e| !r.contains(&e) && !q.contains(&e));
    let submitting_unqueued = p.submitting().map_or(true, |e| !r.contains(&e) && !q.contains(&e));
    queued_apart && held_apart && recording_unqueued && submitting_unqueued
}

/// One recorder iteration: take an entry, draw, send it on.
fn record(p: &mut Pipeline) -> Received {
    let r = p.recorder_receive();
    if let Received::Entry(_) = r {
        assert!(p.recorder_send());
    }
    r
}

/// One presenter call: take an entry, submit it, hand it back; the latch
/// stands for the scoped handle given to the caller.
fn present(p: &mut Pipeline) -> Option<CleanupLatch> {
    match p.presenter_receive() {
        Received::Entry(_) => {
            if p.presenter_send() {
                Some(CleanupLatch::armed())
            } else {
                None
            }
        }
        _ => None,
    }
}

#[test]
fn new_pipeline_seeds_recorder_queue() {
    let p = Pipeline::new();
    assert_eq!(p.recorder_queue(), &vec![0u64, 1u64]);
    assert!(p.presenter_queue().is_empty());
    assert_eq!(p.recording(), None);
    assert_eq!(p.submitting(), None);
    assert_eq!(p.in_circulation(), POOL_SIZE);
    assert_eq!(p.phase(), Phase::Running);
}

#[test]
fn pool_size_is_conserved_while_running() {
    let mut p = Pipeline::new();
    for round in 0..50u32 {
        if round % 3 != 2 {
            let r = p.recorder_receive();
            assert_eq!(p.in_circulation(), 2);
            if let Received::Entry(_) = r {
                p.recorder_send();
            }
        }
        assert_eq!(p.in_circulation(), 2);
        if round % 2 == 0 {
            if let Received::Entry(_) = p.presenter_receive() {
                assert_eq!(p.in_circulation(), 2);
                p.presenter_send();
            }
        }
        assert_eq!(p.in_circulation(), 2);
        assert!(p.discarded().is_empty());
    }
}

#[test]
fn roles_never_share_an_entry() {
    let mut p = Pipeline::new();
    assert_eq!(p.recorder_receive(), Received::Entry(0));
    assert!(p.recorder_send());
    assert_eq!(p.recorder_receive(), Received::Entry(1));
    assert_eq!(p.presenter_receive(), Received::Entry(0));
    assert_eq!(p.recording(), Some(1));
    assert_eq!(p.submitting(), Some(0));
    assert!(no_entry_on_both_sides(&p));
    assert!(p.presenter_send());
    assert!(p.recorder_send());
    assert!(no_entry_on_both_sides(&p));
    assert_eq!(p.recorder_queue(), &vec![0u64]);
    assert_eq!(p.presenter_queue(), &vec![1u64]);
}

#[test]
fn recorder_stays_within_one_frame_of_presents() {
    let mut p = Pipeline::new();
    let mut records: u64 = 0;
    let mut presents: u64 = 0;
    for round in 0..200u64 {
        let bursts = 1 + round % 3;
        for _ in 0..bursts {
            if let Received::Entry(_) = record(&mut p) {
                records += 1;
            }
        }
        assert!(records <= presents + 2);
        if present(&mut p).is_some() {
            presents += 1;
            assert!(presents <= records && records <= presents + 1);
        }
    }
    assert!(presents > 0);
}

#[test]
fn presenter_waits_for_first_recording() {
    let mut p = Pipeline::new();
    assert_eq!(p.presenter_receive(), Received::Pending);
    assert_eq!(record(&mut p), Received::Entry(0));
    let handle = present(&mut p);
    assert!(handle.is_some());
    assert!(handle.unwrap().is_armed());
    assert_eq!(p.recorder_queue(), &vec![1u64, 0u64]);
}

#[test]
fn presenter_sees_closure_after_recorder_leaves_at_startup() {
    let mut p = Pipeline::new();
    p.close_recorder();
    assert_eq!(p.phase(), Phase::Draining);
    assert_eq!(p.discarded(), &vec![0u64, 1u64]);
    assert_eq!(p.presenter_receive(), Received::Closed);
    assert!(present(&mut p).is_none());
    p.close_presenter();
    assert_eq!(p.phase(), Phase::Stopped);
}

#[test]
fn thousand_cycles_run_cleanup_once_each() {
    let mut p = Pipeline::new();
    let mut cleanups: u32 = 0;
    for _ in 0..1000u32 {
        assert_eq!(record(&mut p), Received::Entry(p.presenter_queue()[0]));
        assert!(no_entry_on_both_sides(&p));
        let mut handle = present(&mut p).expect("a frame is presented");
        assert!(no_entry_on_both_sides(&p));
        if handle.release() {
            cleanups += 1;
        }
    }
    assert_eq!(cleanups, 1000);
    assert_eq!(p.in_circulation(), 2);
}

#[test]
fn predicate_false_on_fifth_iteration_stops_the_presenter() {
    let mut p = Pipeline::new();
    let mut iteration: u32 = 0;
    loop {
        iteration += 1;
        if let Received::Entry(_) = p.recorder_receive() {
            p.recorder_send();
        }
        if !p.end_iteration(iteration != 5) {
            break;
        }
        if iteration % 2 == 0 {
            present(&mut p);
        }
    }
    assert_eq!(iteration, 5);
    assert!(!p.is_recorder_open());
    let mut calls: u32 = 0;
    while present(&mut p).is_some() || p.presenter_receive() != Received::Closed {
        calls += 1;
        assert!(calls <= POOL_SIZE as u32);
    }
    assert_eq!(p.presenter_receive(), Received::Closed);
    assert_eq!(p.in_circulation() + p.discarded().len(), 2);
}

#[test]
fn presenter_leaving_drops_its_queue_and_fails_recorder_sends() {
    let mut p = Pipeline::new();
    assert_eq!(record(&mut p), Received::Entry(0));
    p.close_presenter();
    assert_eq!(p.discarded(), &vec![0u64]);
    assert_eq!(p.recorder_receive(), Received::Entry(1));
    assert!(!p.recorder_send());
    assert_eq!(p.discarded(), &vec![0u64, 1u64]);
    assert_eq!(p.recorder_receive(), Received::Closed);
    assert_eq!(p.in_circulation(), 0);
}

#[test]
fn presenter_send_fails_once_recorder_is_gone() {
    let mut p = Pipeline::new();
    assert_eq!(record(&mut p), Received::Entry(0));
    assert_eq!(p.presenter_receive(), Received::Entry(0));
    p.close_recorder();
    assert!(!p.presenter_send());
    assert_eq!(p.discarded(), &vec![1u64, 0u64]);
}

#[test]
fn end_iteration_true_keeps_state() {
    let mut p = Pipeline::new();
    assert!(p.end_iteration(true));
    assert!(p.is_recorder_open());
    assert_eq!(p.recorder_queue(), &vec![0u64, 1u64]);
}

#[test]
fn releasing_twice_runs_cleanup_once() {
    let mut latch = CleanupLatch::armed();
    let mut runs: u32 = 0;
    if latch.release() {
        runs += 1;
    }
    if latch.release() {
        runs += 1;
    }
    assert_eq!(runs, 1);
    assert!(!latch.is_armed());
}

#[test]
fn delta_in_nanoseconds() {
    assert_eq!(delta_nanos(0, 0), 0);
    assert_eq!(delta_nanos(1, 500), 1_000_000_500);
    assert_eq!(delta_nanos(0, 16_666_667), 16_666_667);
    assert_eq!(delta_nanos(18_446_744_073, 709_551_615), u64::MAX);
    assert_eq!(delta_nanos(18_446_744_073, 709_551_616), u64::MAX);
    assert_eq!(delta_nanos(u64::MAX, 0), u64::MAX);
}
