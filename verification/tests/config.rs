use galemind::config::BatchConfig;
use galemind::error::BatchError;
use galemind::time::Span;

fn config_message(cfg: &BatchConfig) -> Option<String> {
    match cfg.validate() {
        Ok(()) => None,
        Err(BatchError::ConfigError(m)) => Some(m),
        Err(other) => panic!("unexpected error {:?}", other),
    }
}

#[test]
fn default_config_values() {
    let c = BatchConfig::new();
    assert_eq!(c.max_batch_size, 32);
    assert_eq!(c.max_latency, Span::from_millis(100));
    assert_eq!(c.tick_interval, Span::from_millis(1));
    assert_eq!(c.n_kept_samples, 50);
    assert_eq!(c.n_skipped_samples, 2);
    assert_eq!(c.refresh_interval, Span::from_secs(5));
    assert!(!c.enable_metrics);
    assert_eq!(c.batch_dims, (0, 0));
    assert_eq!(c, BatchConfig::default());
    assert!(c.validate().is_ok());
}

#[test]
fn builders_set_one_field_each() {
    let c = BatchConfig::new()
        .max_batch_size(16)
        .max_latency_ms(200)
        .tick_interval(Span::from_millis(3))
        .n_kept_samples(10)
        .n_skipped_samples(1)
        .refresh_interval(Span::from_secs(2))
        .enable_metrics(true)
        .batch_dims(4, 8);
    assert_eq!(c.max_batch_size, 16);
    assert_eq!(c.max_latency.as_millis(), 200);
    assert_eq!(c.tick_interval.as_nanos(), 3_000_000);
    assert_eq!(c.n_kept_samples, 10);
    assert_eq!(c.n_skipped_samples, 1);
    assert_eq!(c.refresh_interval.as_secs(), 2);
    assert!(c.enable_metrics);
    assert_eq!(c.batch_dims, (4, 8));
    let d = c.max_latency(Span::from_nanos(7));
    assert_eq!(d.max_latency.as_nanos(), 7);
    assert_eq!(d.max_batch_size, 16);
}

#[test]
fn validate_reports_first_invalid_setting() {
    let c = BatchConfig::new().max_batch_size(0).n_kept_samples(0);
    assert_eq!(config_message(&c).as_deref(), Some("max_batch_size must be greater than 0"));
    let c = BatchConfig::new().max_latency_ms(0);
    assert_eq!(config_message(&c).as_deref(), Some("max_latency must be greater than 0"));
    let c = BatchConfig::new().tick_interval(Span::zero());
    assert_eq!(config_message(&c).as_deref(), Some("tick_interval must be greater than 0"));
    let c = BatchConfig::new().n_kept_samples(0);
    assert_eq!(config_message(&c).as_deref(), Some("n_kept_samples must be greater than 0"));
    let c = BatchConfig::new().n_skipped_samples(0).refresh_interval(Span::zero());
    assert_eq!(config_message(&c), None);
}

#[test]
fn spans_behave_like_durations() {
    let a = Span::new(2, 1_500_000_000);
    assert_eq!(a.as_secs(), 3);
    assert_eq!(a.subsec_nanos(), 500_000_000);
    assert_eq!(a.as_millis(), 3_500);
    let b = Span::from_millis(500);
    assert_eq!(a.add(b).as_nanos(), 4_000_000_000);
    assert_eq!(b.saturating_sub(a), Span::zero());
    assert_eq!(a.saturating_sub(b).as_secs(), 3);
    assert!(Span::zero().is_zero());
    assert_eq!(Span::checked_from_nanos(u128::MAX), None);
    let max = Span::new(u64::MAX, 999_999_999);
    assert_eq!(max.checked_add(Span::from_nanos(1)), None);
    assert_eq!(max.as_secs(), u64::MAX);
}
