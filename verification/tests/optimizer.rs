use galemind::optimizer::{Optimizer, TokenBucket};
use galemind::regression::{least_squares_regression, LineFit, OptimizationSample};
use galemind::time::Span;
use std::collections::VecDeque;

fn sample(batch_size: usize, duration_ns: u64, wait_ns: u64) -> OptimizationSample {
    OptimizationSample {
        batch_size,
        duration: Span::from_nanos(duration_ns),
        wait_time: Span::from_nanos(wait_ns),
        timestamp: Span::zero(),
    }
}

#[test]
fn least_squares_fits_an_exact_line() {
    // duration = 2 * batch_size + 1
    let samples: VecDeque<_> = vec![sample(1, 3, 0), sample(2, 5, 0), sample(3, 7, 0)].into();
    let fit = least_squares_regression(&samples).unwrap();
    assert_eq!(fit, LineFit { slope_num: 12, intercept_num: 6, denominator: 6 });
    assert_eq!(fit.slope_num / fit.denominator, 2);
    assert_eq!(fit.intercept_num / fit.denominator, 1);
}

#[test]
fn least_squares_fails_on_a_singular_system() {
    let same: VecDeque<_> = vec![sample(4, 10, 0), sample(4, 12, 0)].into();
    assert_eq!(least_squares_regression(&same), None);
    let empty: VecDeque<OptimizationSample> = VecDeque::new();
    assert_eq!(least_squares_regression(&empty), None);
}

#[test]
fn initial_parameters_follow_the_latency_bound() {
    let opt = Optimizer::new(Span::from_millis(100), 50, 2, Span::from_secs(5), Span::zero());
    // o_a = min(2 s, 100 ms * 2 / 30), o_b = min(1 s, 100 ms / 30), rounded up to whole ns
    assert_eq!(opt.parameters(), (6_666_667, 3_333_334, 0));
    assert_eq!(opt.sample_count(), 0);
    let slow = Optimizer::new(Span::from_secs(60), 50, 2, Span::from_secs(5), Span::zero());
    assert_eq!(slow.parameters(), (2_000_000_000, 1_000_000_000, 0));
}

#[test]
fn initial_parameters_are_positive_for_tiny_latency_bounds() {
    let tiny = Optimizer::new(Span::from_nanos(1), 50, 2, Span::from_secs(5), Span::zero());
    assert_eq!(tiny.parameters(), (1, 1, 0));
    let mut under = Optimizer::new(Span::from_nanos(14), 50, 0, Span::from_secs(5), Span::zero());
    assert_eq!(under.parameters(), (1, 1, 0));
    // a single sample does not refit: o_a stays positive
    under.log_batch(1, Span::from_nanos(1), Span::from_nanos(1), Span::zero());
    assert_eq!(under.parameters().0, 1);
}

#[test]
fn optimizer_skips_first_batches_and_refits() {
    let mut opt = Optimizer::new(Span::from_millis(100), 3, 1, Span::from_secs(5), Span::zero());
    // skipped: the first batch
    opt.log_batch(9, Span::from_nanos(100), Span::from_nanos(999), Span::zero());
    assert_eq!(opt.sample_count(), 0);
    assert_eq!(opt.parameters(), (6_666_667, 3_333_334, 0));
    // duration = 5000 * batch + 200, wait 100/300
    opt.log_batch(1, Span::from_nanos(100), Span::from_nanos(5_200), Span::zero());
    assert_eq!(opt.sample_count(), 1);
    // a single sample is a singular system: parameters unchanged
    assert_eq!(opt.parameters(), (6_666_667, 3_333_334, 0));
    opt.log_batch(2, Span::from_nanos(300), Span::from_nanos(10_200), Span::zero());
    // the bucket held two tokens: this second refresh fits the line
    assert_eq!(opt.parameters(), (5_000, 200, 200));
    assert_eq!(opt.estimate_duration(4).as_nanos(), 20_200);
    assert_eq!(opt.current_wait_time(), Span::from_nanos(200));
}

#[test]
fn optimizer_window_keeps_most_recent_samples() {
    let mut opt = Optimizer::new(Span::from_millis(100), 2, 0, Span::from_secs(5), Span::zero());
    for b in 1..=5 {
        opt.log_batch(b, Span::zero(), Span::from_nanos(1_000 * b as u64), Span::zero());
    }
    assert_eq!(opt.sample_count(), 2);
}

#[test]
fn refresh_clamps_slope_and_intercept() {
    let mut opt = Optimizer::new(Span::from_millis(100), 10, 0, Span::from_secs(5), Span::zero());
    // a decreasing line: slope negative, intercept large
    opt.log_batch(1, Span::zero(), Span::from_nanos(900), Span::zero());
    opt.log_batch(2, Span::zero(), Span::from_nanos(800), Span::zero());
    let (o_a, o_b, _) = opt.parameters();
    assert_eq!(o_a, 1_000);
    assert_eq!(o_b, 1_000);
}

#[test]
fn latency_check_adds_wait_and_estimate() {
    let opt = Optimizer::new(Span::from_millis(30), 50, 2, Span::from_secs(5), Span::zero());
    // o_a = 2 ms, o_b = 1 ms
    assert_eq!(opt.parameters().0, 2_000_000);
    assert!(!opt.would_exceed_latency(10, Span::from_millis(9)));
    assert!(opt.would_exceed_latency(10, Span::from_nanos(9_000_001)));
}

#[test]
fn token_bucket_limits_refreshes() {
    let mut b = TokenBucket::new(2, Span::from_secs(5), Span::zero());
    assert!(b.consume(Span::from_secs(1), Span::zero()));
    assert!(b.consume(Span::from_secs(1), Span::zero()));
    assert!(!b.consume(Span::from_secs(1), Span::from_millis(500)));
    // 4 s later: refilled by 4/5 of a token, still not enough
    assert!(!b.consume(Span::from_secs(1), Span::from_secs(4)));
    // at 6 s another 2 s of refill: 6/5 of a token, enough for one
    assert!(b.consume(Span::from_secs(1), Span::from_secs(6)));
    let mut z = TokenBucket::new(2, Span::zero(), Span::zero());
    assert!(z.consume(Span::from_secs(1), Span::zero()));
    assert!(z.consume(Span::from_secs(1), Span::zero()));
    assert!(!z.consume(Span::from_secs(1), Span::zero()));
    assert!(z.consume(Span::from_secs(1), Span::from_secs(1)));
}

#[test]
fn sample_count_after_m_batches() {
    // skip 2, keep 3: after m batches, min(m - 2, 3) samples
    let mut opt = Optimizer::new(Span::from_millis(100), 3, 2, Span::from_secs(5), Span::zero());
    let expected = [0, 0, 0, 1, 2, 3, 3];
    for (m, want) in expected.iter().enumerate().skip(1) {
        opt.log_batch(1, Span::from_nanos(10), Span::from_nanos(1000 * m as u64), Span::zero());
        assert_eq!(opt.sample_count(), *want, "after {} batches", m);
    }
}

#[test]
fn token_buckets_of_any_u8_capacity() {
    let mut b = TokenBucket::new(5, Span::from_secs(1), Span::zero());
    for _ in 0..5 {
        assert!(b.consume(Span::zero(), Span::zero()));
    }
    assert!(!b.consume(Span::zero(), Span::zero()));
    let big = TokenBucket::new(255, Span::new(u64::MAX, 999_999_999), Span::zero());
    assert_eq!(big.capacity, 255 * 18446744073709551615999999999u128);
}
