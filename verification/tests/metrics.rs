use galemind::metrics::{MetricsCollector, MetricsState};
use galemind::time::Span;

#[test]
fn state_records_batches_and_latencies() {
    let mut m = MetricsState::empty();
    m.record_batch(4, Span::from_millis(10), Span::from_millis(2));
    m.record_batch(4, Span::from_millis(20), Span::from_millis(4));
    m.record_batch(1, Span::from_millis(5), Span::from_millis(1));
    assert_eq!(m.batches_of_size(4), 2);
    assert_eq!(m.batches_of_size(1), 1);
    assert_eq!(m.batches_of_size(7), 0);
    assert_eq!(m.total_processing_time, Span::from_millis(35));
    assert_eq!(m.total_wait_time, Span::from_millis(7));
    assert_eq!(m.processing_count, 3);
    assert_eq!(m.wait_count, 3);
    assert_eq!(m.requests_processed, 9);
    m.record_latency(Span::from_millis(12));
    assert_eq!(m.latency_count, 1);
    assert_eq!(m.total_latency, Span::from_millis(12));
    m.record_timeout_error();
    m.record_processing_error();
    m.record_parameter_update(Span::from_secs(3));
    assert_eq!((m.timeout_errors, m.processing_errors, m.parameter_updates), (1, 1, 1));
    assert_eq!(m.last_update, Some(Span::from_secs(3)));
}

#[test]
fn overflowing_records_are_detected() {
    let mut m = MetricsState::empty();
    m.requests_processed = u64::MAX - 1;
    assert!(m.fits_batch(1, Span::zero(), Span::zero()));
    assert!(!m.fits_batch(2, Span::zero(), Span::zero()));
    let max = Span::new(u64::MAX, 999_999_999);
    m.total_latency = max;
    assert!(!m.fits_latency(Span::from_nanos(1)));
    assert!(m.fits_latency(Span::zero()));
}

#[test]
fn collector_records_and_resets() {
    let mut c = MetricsCollector::new(Span::from_secs(1));
    c.record_batch(2, Span::from_millis(4), Span::from_millis(1));
    c.record_batch(3, Span::from_millis(6), Span::from_millis(2));
    c.record_latency(Span::from_millis(9));
    c.record_processing_error();
    c.record_timeout_error();
    c.record_parameter_update(Span::from_secs(2));
    let m = c.counters();
    assert_eq!(m.requests_processed, 5);
    assert_eq!(m.processing_count, 2);
    assert_eq!(m.total_processing_time, Span::from_millis(10));
    assert_eq!(m.latency_count, 1);
    assert_eq!(m.processing_errors, 1);
    assert_eq!(m.timeout_errors, 1);
    assert_eq!(m.parameter_updates, 1);
    assert_eq!(m.last_update, Some(Span::from_secs(2)));
    assert_eq!(m.start_time, Some(Span::from_secs(1)));
    c.reset(Span::from_secs(10));
    c.record_batch(1, Span::zero(), Span::zero());
    let m = c.counters();
    assert_eq!(m.requests_processed, 1);
    assert_eq!(m.processing_errors, 0);
    assert_eq!(m.start_time, Some(Span::from_secs(10)));
}

#[test]
fn requests_processed_match_the_histogram() {
    let mut c = MetricsCollector::new(Span::zero());
    c.record_batch(3, Span::from_millis(1), Span::from_millis(1));
    c.record_batch(5, Span::from_millis(1), Span::from_millis(1));
    c.record_batch(3, Span::from_millis(1), Span::from_millis(1));
    let m = c.counters();
    let weighted: u64 = m.batch_size_counts.iter().map(|(size, n)| *size as u64 * n).sum();
    let batches: u64 = m.batch_size_counts.values().sum();
    assert_eq!(m.requests_processed, 11);
    assert_eq!(weighted, m.requests_processed);
    assert_eq!(batches, m.processing_count);
    assert!(m.start_time.is_some());
}
