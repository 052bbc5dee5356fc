use galemind::config::BatchConfig;
use galemind::dispatch::{
    batch_records, decide_queue, decide_training, plan_extraction, route_results,
    training_schedule, BatchRecords, NonBlockingSemaphore,
    QueueAction, QueueState, TrainingAction, TrainingState,
};
use galemind::error::BatchError;
use galemind::time::Span;

fn state(queue_len: usize, first_ms: u64, last_ms: u64, locked: bool) -> QueueState {
    QueueState {
        queue_len,
        first_wait: Span::from_millis(first_ms),
        last_wait: Span::from_millis(last_ms),
        o_a: 2_000_000,
        o_b: 1_000_000,
        wait_time: Span::from_millis(50),
        semaphore_locked: locked,
    }
}

fn config() -> BatchConfig {
    BatchConfig::new().max_batch_size(8).max_latency_ms(100)
}

#[test]
fn empty_queue_is_idle() {
    assert_eq!(decide_queue(&state(0, 0, 0, false), &config()), QueueAction::Idle);
}

#[test]
fn late_request_is_cancelled_with_its_estimate() {
    // 95 ms waited + 2 ms * 2 + 1 ms = 100 ms >= 100 ms
    let a = decide_queue(&state(2, 95, 1, false), &config());
    assert_eq!(
        a,
        QueueAction::CancelOldest {
            error: BatchError::TimeoutExceeded { expected_ms: 100, actual_ms: 100 },
            estimated_latency: Some(Span::from_millis(100)),
        }
    );
}

#[test]
fn locked_semaphore_cancels_only_a_lone_timed_out_request() {
    let a = decide_queue(&state(1, 100, 100, true), &config());
    assert_eq!(
        a,
        QueueAction::CancelOldest {
            error: BatchError::TimeoutExceeded { expected_ms: 100, actual_ms: 100 },
            estimated_latency: None,
        }
    );
    assert_eq!(decide_queue(&state(1, 10, 10, true), &config()), QueueAction::Idle);
}

#[test]
fn cork_waits_while_the_queue_is_cheap_to_hold() {
    // 2 * (1 ms + 1 ms + 2 ms) = 8 ms <= 0.95 * 50 ms
    assert_eq!(decide_queue(&state(2, 1, 1, false), &config()), QueueAction::Idle);
    // 7 * (5 ms + 1 ms + 2 ms) = 56 ms > 47.5 ms: dispatch all seven
    assert_eq!(
        decide_queue(&state(7, 5, 5, false), &config()),
        QueueAction::Dispatch { batch_size: 7 }
    );
}

#[test]
fn full_queue_dispatches_the_maximum_batch() {
    let a = decide_queue(&state(20, 1, 1, false), &config().max_latency_ms(1_000));
    assert_eq!(a, QueueAction::Dispatch { batch_size: 8 });
}

#[test]
fn training_waits_fills_and_dispatches() {
    let cfg = config();
    let st = TrainingState {
        queue_len: 1,
        first_wait: Span::from_millis(1),
        o_a: 2_000_000,
        o_b: 1_000_000,
        semaphore_locked: false,
    };
    assert_eq!(decide_training(&st, &cfg, 6, 0, 3), TrainingAction::Wait);
    assert_eq!(decide_training(&st, &cfg, 6, 0, 1), TrainingAction::Dispatch { batch_size: 1 });
    let full = TrainingState { queue_len: 3, ..st };
    assert_eq!(decide_training(&full, &cfg, 6, 0, 3), TrainingAction::Dispatch { batch_size: 3 });
    let locked = TrainingState { semaphore_locked: true, ..full };
    assert_eq!(decide_training(&locked, &cfg, 6, 0, 3), TrainingAction::Wait);
    let empty = TrainingState { queue_len: 0, ..st };
    assert_eq!(decide_training(&empty, &cfg, 6, 0, 1), TrainingAction::Wait);
}

#[test]
fn training_cancels_surplus_timed_out_requests() {
    let cfg = config();
    let st = TrainingState {
        queue_len: 2,
        first_wait: Span::from_millis(150),
        o_a: 2_000_000,
        o_b: 1_000_000,
        semaphore_locked: false,
    };
    // 2 requests wait, but 6 are still needed: keep them
    assert_eq!(decide_training(&st, &cfg, 6, 0, 1), TrainingAction::Dispatch { batch_size: 1 });
    // the phase already has more than it needs (6 - 7 < 2): cancel the oldest
    assert_eq!(
        decide_training(&st, &cfg, 6, 7, 1),
        TrainingAction::CancelOldest {
            error: BatchError::TimeoutExceeded { expected_ms: 100, actual_ms: 150 }
        }
    );
}

#[test]
fn extraction_takes_requests_that_fit() {
    assert_eq!(plan_extraction(&[1, 1, 1, 1], 3), 3);
    assert_eq!(plan_extraction(&[2, 2, 1], 3), 1);
    assert_eq!(plan_extraction(&[5, 1], 3), 0);
    assert_eq!(plan_extraction(&[], 3), 0);
    assert_eq!(plan_extraction(&[0, 0, 0, 0], 2), 2);
}

#[test]
fn results_are_routed_to_their_jobs() {
    let ok = route_results(3, Ok(vec!['a', 'b', 'c']));
    assert_eq!(ok, vec![Ok('a'), Ok('b'), Ok('c')]);
    let short = route_results(2, Ok(vec![1u8]));
    let msg = String::from("Batch processor returned incorrect number of results");
    assert_eq!(
        short,
        vec![Err(BatchError::ProcessingError(msg.clone())), Err(BatchError::ProcessingError(msg))]
    );
    let failed: Vec<Result<u8, BatchError>> = route_results(2, Err(BatchError::Shutdown));
    assert_eq!(failed, vec![Err(BatchError::Shutdown), Err(BatchError::Shutdown)]);
}

#[test]
fn semaphore_counts_permits() {
    let mut s = NonBlockingSemaphore::new(1);
    assert!(!s.is_locked());
    assert!(s.try_acquire());
    assert!(s.is_locked());
    assert!(!s.try_acquire());
    s.release();
    assert!(!s.is_locked());
}

#[test]
fn training_runs_four_phases() {
    assert_eq!(training_schedule(2), vec![(2, 8, 1), (6, 1, 1), (5, 1, 2), (3, 1, 3)]);
    assert_eq!(training_schedule(0)[0], (0, 6, 1));
}

#[test]
fn batch_outcomes_decide_what_is_recorded() {
    let all = batch_records(Some(3), 3, false);
    assert_eq!(all, BatchRecords { latencies: true, processing_error: false, optimizer_sample: true });
    let short = batch_records(Some(2), 3, true);
    assert_eq!(short, BatchRecords { latencies: false, processing_error: false, optimizer_sample: false });
    let failed = batch_records(None, 3, false);
    assert_eq!(failed, BatchRecords { latencies: false, processing_error: true, optimizer_sample: true });
}
