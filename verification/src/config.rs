//! Configuration of the adaptive batching dispatcher.
use crate::error::BatchError;
use crate::time::{Span, NANOS_PER_MILLI, NANOS_PER_SEC};
use vstd::prelude::*;

verus! {

/// Default maximum batch size.
pub const MAX_BATCH_SIZE: usize = 32;

/// Default maximum latency, in milliseconds.
pub const MAX_LATENCY_MS: u64 = 100;

/// Default interval between dispatcher ticks, in milliseconds.
pub const TICK_INTERVAL_MS: u64 = 1;

/// Default number of samples kept for optimization.
pub const N_KEPT_SAMPLES: usize = 50;

/// Default number of initial samples skipped by the optimizer.
pub const N_SKIPPED_SAMPLES: usize = 2;

/// Default interval for refreshing the optimization parameters, in seconds.
pub const REFRESH_INTERVAL_SECS: u64 = 5;

/// Configuration for the adaptive batching dispatcher.
#[derive(Clone, Copy, Debug, PartialEq, Eq)]
pub struct BatchConfig {
    /// Maximum batch size allowed
    pub max_batch_size: usize,
    /// Maximum latency allowed for processing requests
    pub max_latency: Span,
    /// Interval between dispatcher ticks
    pub tick_interval: Span,
    /// Number of samples to keep for optimization
    pub n_kept_samples: usize,
    /// Number of initial samples to skip for optimization
    pub n_skipped_samples: usize,
    /// Interval for refreshing optimization parameters
    pub refresh_interval: Span,
    /// Enable metrics collection
    pub enable_metrics: bool,
    /// Batch dimensions (input_dim, output_dim)
    pub batch_dims: (usize, usize),
}

/// The message `validate` reports for `cfg`, or `None` when `cfg` is valid.
/// The checks run in this order and the first failing one is reported.
pub open spec fn config_problem(cfg: BatchConfig) -> Option<Seq<char>> {
    if cfg.max_batch_size == 0 {
        Some("max_batch_size must be greater than 0"@)
    } else if cfg.max_latency@ == 0 {
        Some("max_latency must be greater than 0"@)
    } else if cfg.tick_interval@ == 0 {
        Some("tick_interval must be greater than 0"@)
    } else if cfg.n_kept_samples == 0 {
        Some("n_kept_samples must be greater than 0"@)
    } else {
        None
    }
}

/// The default configuration: batches of at most 32, a 100 ms latency bound, a 1 ms
/// tick, 50 kept and 2 skipped samples, a 5 s refresh interval, metrics off, no dims.
pub open spec fn is_default_config(c: BatchConfig) -> bool {
    &&& c.max_batch_size == MAX_BATCH_SIZE
    &&& c.max_latency@ == MAX_LATENCY_MS * NANOS_PER_MILLI
    &&& c.tick_interval@ == TICK_INTERVAL_MS * NANOS_PER_MILLI
    &&& c.n_kept_samples == N_KEPT_SAMPLES
    &&& c.n_skipped_samples == N_SKIPPED_SAMPLES
    &&& c.refresh_interval@ == REFRESH_INTERVAL_SECS * NANOS_PER_SEC
    &&& c.enable_metrics == false
    &&& c.batch_dims == (0usize, 0usize)
}

impl Default for BatchConfig {
    fn default() -> (c: Self)
        ensures
            is_default_config(c),
    {
        BatchConfig {
            max_batch_size: MAX_BATCH_SIZE,
            max_latency: Span::from_millis(MAX_LATENCY_MS),
            tick_interval: Span::from_millis(TICK_INTERVAL_MS),
            n_kept_samples: N_KEPT_SAMPLES,
            n_skipped_samples: N_SKIPPED_SAMPLES,
            refresh_interval: Span::from_secs(REFRESH_INTERVAL_SECS),
            enable_metrics: false,
            batch_dims: (0, 0),
        }
    }
}

impl BatchConfig {
    /// Create a new batch configuration with default values.
    pub fn new() -> (c: Self)
        ensures
            is_default_config(c),
    {
        Self::default()
    }

    /// Set the maximum batch size.
    pub fn max_batch_size(self, size: usize) -> (c: Self)
        ensures
            c == (BatchConfig { max_batch_size: size, ..self }),
    {
        let mut c = self;
        c.max_batch_size = size;
        c
    }

    /// Set the maximum latency in milliseconds.
    pub fn max_latency_ms(self, ms: u64) -> (c: Self)
        ensures
            c.max_latency@ == ms * NANOS_PER_MILLI,
            c == (BatchConfig { max_latency: c.max_latency, ..self }),
    {
        let mut c = self;
        c.max_latency = Span::from_millis(ms);
        c
    }

    /// Set the maximum latency.
    pub fn max_latency(self, duration: Span) -> (c: Self)
        ensures
            c == (BatchConfig { max_latency: duration, ..self }),
    {
        let mut c = self;
        c.max_latency = duration;
        c
    }

    /// Set the tick interval.
    pub fn tick_interval(self, duration: Span) -> (c: Self)
        ensures
            c == (BatchConfig { tick_interval: duration, ..self }),
    {
        let mut c = self;
        c.tick_interval = duration;
        c
    }

    /// Set the number of samples to keep for optimization.
    pub fn n_kept_samples(self, n: usize) -> (c: Self)
        ensures
            c == (BatchConfig { n_kept_samples: n, ..self }),
    {
        let mut c = self;
        c.n_kept_samples = n;
        c
    }

    /// Set the number of initial samples to skip.
    pub fn n_skipped_samples(self, n: usize) -> (c: Self)
        ensures
            c == (BatchConfig { n_skipped_samples: n, ..self }),
    {
        let mut c = self;
        c.n_skipped_samples = n;
        c
    }

    /// Set the refresh interval for optimization parameters.
    pub fn refresh_interval(self, duration: Span) -> (c: Self)
        ensures
            c == (BatchConfig { refresh_interval: duration, ..self }),
    {
        let mut c = self;
        c.refresh_interval = duration;
        c
    }

    /// Enable or disable metrics collection.
    pub fn enable_metrics(self, enable: bool) -> (c: Self)
        ensures
            c == (BatchConfig { enable_metrics: enable, ..self }),
    {
        let mut c = self;
        c.enable_metrics = enable;
        c
    }

    /// Set batch dimensions.
    pub fn batch_dims(self, input_dim: usize, output_dim: usize) -> (c: Self)
        ensures
            c == (BatchConfig { batch_dims: (input_dim, output_dim), ..self }),
    {
        let mut c = self;
        c.batch_dims = (input_dim, output_dim);
        c
    }

    /// Validate the configuration: the batch size, latency bound, tick interval and
    /// number of kept samples must all be positive.
    pub fn validate(&self) -> (r: Result<(), BatchError>)
        ensures
            r is Ok <==> config_problem(*self) is None,
            r is Err ==> (r matches Err(BatchError::ConfigError(m)) && config_problem(*self)
                == Some(m@)),
    {
        if self.max_batch_size == 0 {
            return Err(
                BatchError::ConfigError(String::from_str("max_batch_size must be greater than 0")),
            );
        }
        if self.max_latency.is_zero() {
            return Err(
                BatchError::ConfigError(String::from_str("max_latency must be greater than 0")),
            );
        }
        if self.tick_interval.is_zero() {
            return Err(
                BatchError::ConfigError(String::from_str("tick_interval must be greater than 0")),
            );
        }
        if self.n_kept_samples == 0 {
            return Err(
                BatchError::ConfigError(String::from_str("n_kept_samples must be greater than 0")),
            );
        }
        Ok(())
    }
}

} // verus!
