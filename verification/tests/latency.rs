use galemind::latency::{percentile, summarize_latencies};
use galemind::time::Span;

fn ms(n: u64) -> Span {
    Span::from_millis(n)
}

#[test]
fn summary_counts_sorts_and_averages_successes() {
    let outcomes = vec![(true, ms(30)), (false, ms(500)), (true, ms(10)), (true, ms(20)), (false, ms(1))];
    let s = summarize_latencies(&outcomes);
    assert_eq!(s.successful, 3);
    assert_eq!(s.failed, 2);
    assert_eq!(s.sorted, vec![ms(10), ms(20), ms(30)]);
    assert_eq!(s.average, Some(ms(20)));
}

#[test]
fn average_rounds_down_to_whole_nanoseconds() {
    let outcomes = vec![(true, Span::from_nanos(1)), (true, Span::from_nanos(2))];
    assert_eq!(summarize_latencies(&outcomes).average, Some(Span::from_nanos(1)));
}

#[test]
fn no_success_has_no_average() {
    let s = summarize_latencies(&[(false, ms(5))]);
    assert_eq!((s.successful, s.failed), (0, 1));
    assert!(s.sorted.is_empty());
    assert_eq!(s.average, None);
    let empty = summarize_latencies(&[]);
    assert_eq!((empty.successful, empty.failed, empty.average), (0, 0, None));
}

#[test]
fn percentiles_pick_from_the_sorted_latencies() {
    let sorted: Vec<Span> = (1..=20).map(ms).collect();
    assert_eq!(percentile(&sorted, sorted.len() / 2), ms(11));
    assert_eq!(percentile(&sorted, (sorted.len() as f64 * 0.95) as usize), ms(20));
    assert_eq!(percentile(&sorted, 20), Span::zero());
}
