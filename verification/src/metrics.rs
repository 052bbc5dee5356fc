//! Metrics of batch processing: counters and time totals, and the collector that
//! records into them.
use crate::time::{Span, SPAN_MAX_NANOS};
use std::collections::HashMap;
use vstd::prelude::*;

verus! {

broadcast use vstd::std_specs::hash::group_hash_axioms;

/// The counters and totals the collector keeps.
#[derive(Debug)]
pub struct MetricsState {
    /// Number of batches of each size
    pub batch_size_counts: HashMap<usize, u64>,
    /// Total processing time of the batches
    pub total_processing_time: Span,
    pub processing_count: u64,
    /// Total latency of the requests
    pub total_latency: Span,
    pub latency_count: u64,
    /// Total wait time of the batches before processing
    pub total_wait_time: Span,
    pub wait_count: u64,
    /// Number of optimization parameter updates, and the time of the last one
    pub parameter_updates: u64,
    pub last_update: Option<Span>,
    /// Error counts
    pub timeout_errors: u64,
    pub processing_errors: u64,
    /// Requests processed, and when collection started (on the caller's clock)
    pub requests_processed: u64,
    pub start_time: Option<Span>,
}

/// The number of batches of size `size` recorded in `m`.
pub open spec fn batches_of_size(m: Map<usize, u64>, size: usize) -> nat {
    if m.contains_key(size) {
        m[size] as nat
    } else {
        0
    }
}

/// Over the batch sizes below `k`: the sum of `size · count` (`weighted`) or of `count`
/// (otherwise) in the histogram `m`.
pub open spec fn histogram_sum(m: Map<usize, u64>, k: nat, weighted: bool) -> nat
    decreases k,
{
    if k == 0 {
        0
    } else {
        let size = (k - 1) as nat;
        let term = if weighted {
            size * batches_of_size(m, size as usize)
        } else {
            batches_of_size(m, size as usize)
        };
        histogram_sum(m, size, weighted) + term
    }
}

/// The number of batch sizes there are: every `usize`.
pub open spec fn all_sizes() -> nat {
    usize::MAX as nat + 1
}

/// The requests the histogram `m` accounts for: `Σ size · count`.
pub open spec fn histogram_requests(m: Map<usize, u64>) -> nat {
    histogram_sum(m, all_sizes(), true)
}

/// The batches the histogram `m` accounts for: `Σ count`.
pub open spec fn histogram_batches(m: Map<usize, u64>) -> nat {
    histogram_sum(m, all_sizes(), false)
}

/// An empty histogram accounts for nothing.
proof fn lemma_histogram_empty(k: nat, weighted: bool)
    ensures
        histogram_sum(Map::<usize, u64>::empty(), k, weighted) == 0,
    decreases k,
{
    if k > 0 {
        lemma_histogram_empty((k - 1) as nat, weighted);
    }
}

/// Counting one more batch of size `b` adds `b` requests and one batch.
proof fn lemma_histogram_count_one(m: Map<usize, u64>, b: usize, k: nat, weighted: bool)
    requires
        batches_of_size(m, b) < u64::MAX,
        k <= all_sizes(),
    ensures
        histogram_sum(m.insert(b, (batches_of_size(m, b) + 1) as u64), k, weighted) == histogram_sum(
            m,
            k,
            weighted,
        ) + if b < k {
            if weighted {
                b as nat
            } else {
                1
            }
        } else {
            0
        },
    decreases k,
{
    if k > 0 {
        let size = (k - 1) as nat;
        lemma_histogram_count_one(m, b, size, weighted);
        let m2 = m.insert(b, (batches_of_size(m, b) + 1) as u64);
        assert(size as usize == size);
        if size == b {
            assert(batches_of_size(m2, b) == batches_of_size(m, b) + 1);
            if weighted {
                assert(size * (batches_of_size(m, b) + 1) == size * batches_of_size(m, b) + size)
                    by (nonlinear_arith);
            }
        } else {
            assert(batches_of_size(m2, size as usize) == batches_of_size(m, size as usize));
        }
    }
}

impl MetricsState {
    /// Every batch record adds one processing time and one wait time, one batch to the
    /// histogram, and its size to the requests processed: the requests processed are
    /// `Σ size · count` over the histogram, and the batches `Σ count`.
    pub open spec fn wf(&self) -> bool {
        &&& self.processing_count == self.wait_count
        &&& self.requests_processed == histogram_requests(self.batch_size_counts@)
        &&& self.processing_count == histogram_batches(self.batch_size_counts@)
    }

    /// All counters and totals are zero, and no time is set.
    pub open spec fn is_empty(&self) -> bool {
        &&& self.batch_size_counts@ == Map::<usize, u64>::empty()
        &&& self.total_processing_time@ == 0
        &&& self.processing_count == 0
        &&& self.total_latency@ == 0
        &&& self.latency_count == 0
        &&& self.total_wait_time@ == 0
        &&& self.wait_count == 0
        &&& self.parameter_updates == 0
        &&& self.last_update is None
        &&& self.timeout_errors == 0
        &&& self.processing_errors == 0
        &&& self.requests_processed == 0
        &&& self.start_time is None
    }

    /// Recording this batch keeps every counter and total within its type.
    pub open spec fn can_record_batch(
        &self,
        batch_size: usize,
        processing_time: Span,
        wait_time: Span,
    ) -> bool {
        &&& batches_of_size(self.batch_size_counts@, batch_size) < u64::MAX
        &&& self.total_processing_time@ + processing_time@ <= SPAN_MAX_NANOS
        &&& self.processing_count < u64::MAX
        &&& self.total_wait_time@ + wait_time@ <= SPAN_MAX_NANOS
        &&& self.wait_count < u64::MAX
        &&& self.requests_processed + batch_size <= u64::MAX
    }

    /// Recording this latency keeps its total and count within their types.
    pub open spec fn can_record_latency(&self, latency: Span) -> bool {
        &&& self.total_latency@ + latency@ <= SPAN_MAX_NANOS
        &&& self.latency_count < u64::MAX
    }

    /// No counter, total or time set.
    pub fn empty() -> (m: Self)
        ensures
            m.is_empty(),
            m.wf(),
    {
        proof {
            lemma_histogram_empty(all_sizes(), true);
            lemma_histogram_empty(all_sizes(), false);
        }
        MetricsState {
            batch_size_counts: HashMap::new(),
            total_processing_time: Span::zero(),
            processing_count: 0,
            total_latency: Span::zero(),
            latency_count: 0,
            total_wait_time: Span::zero(),
            wait_count: 0,
            parameter_updates: 0,
            last_update: None,
            timeout_errors: 0,
            processing_errors: 0,
            requests_processed: 0,
            start_time: None,
        }
    }

    /// The number of batches of `batch_size` recorded so far.
    pub fn batches_of_size(&self, batch_size: usize) -> (n: u64)
        ensures
            n == batches_of_size(self.batch_size_counts@, batch_size),
    {
        match self.batch_size_counts.get(&batch_size) {
            Some(c) => *c,
            None => 0,
        }
    }

    /// Whether `can_record_batch` holds.
    pub fn fits_batch(&self, batch_size: usize, processing_time: Span, wait_time: Span) -> (b: bool)
        ensures
            b == self.can_record_batch(batch_size, processing_time, wait_time),
    {
        let pt = processing_time.as_nanos();
        let wt = wait_time.as_nanos();
        let tp = self.total_processing_time.as_nanos();
        let tw = self.total_wait_time.as_nanos();
        self.batches_of_size(batch_size) < u64::MAX && tp + pt <= SPAN_MAX_NANOS
            && self.processing_count < u64::MAX && tw + wt <= SPAN_MAX_NANOS && self.wait_count
            < u64::MAX && (batch_size as u128) + (self.requests_processed as u128) <= (
        u64::MAX as u128)
    }

    /// Whether `can_record_latency` holds.
    pub fn fits_latency(&self, latency: Span) -> (b: bool)
        ensures
            b == self.can_record_latency(latency),
    {
        self.total_latency.as_nanos() + latency.as_nanos() <= SPAN_MAX_NANOS && self.latency_count
            < u64::MAX
    }

    /// Record a batch: its size in the histogram, its processing and wait times in the
    /// totals, and its requests as processed.
    pub fn record_batch(&mut self, batch_size: usize, processing_time: Span, wait_time: Span)
        requires
            old(self).can_record_batch(batch_size, processing_time, wait_time),
        ensures
            final(self).batch_size_counts@ == old(self).batch_size_counts@.insert(
                batch_size,
                (batches_of_size(old(self).batch_size_counts@, batch_size) + 1) as u64,
            ),
            final(self).total_processing_time@ == old(self).total_processing_time@
                + processing_time@,
            final(self).processing_count == old(self).processing_count + 1,
            final(self).total_wait_time@ == old(self).total_wait_time@ + wait_time@,
            final(self).wait_count == old(self).wait_count + 1,
            final(self).requests_processed == old(self).requests_processed + batch_size,
            final(self).total_latency == old(self).total_latency,
            final(self).latency_count == old(self).latency_count,
            final(self).parameter_updates == old(self).parameter_updates,
            final(self).last_update == old(self).last_update,
            final(self).timeout_errors == old(self).timeout_errors,
            final(self).processing_errors == old(self).processing_errors,
            final(self).start_time == old(self).start_time,
            old(self).wf() ==> final(self).wf(),
    {
        let count = self.batches_of_size(batch_size);
        proof {
            lemma_histogram_count_one(self.batch_size_counts@, batch_size, all_sizes(), true);
            lemma_histogram_count_one(self.batch_size_counts@, batch_size, all_sizes(), false);
        }
        self.batch_size_counts.insert(batch_size, count + 1);
        self.total_processing_time = self.total_processing_time.add(processing_time);
        self.processing_count = self.processing_count + 1;
        self.total_wait_time = self.total_wait_time.add(wait_time);
        self.wait_count = self.wait_count + 1;
        self.requests_processed = self.requests_processed + batch_size as u64;
    }

    /// Record a request latency.
    pub fn record_latency(&mut self, latency: Span)
        requires
            old(self).can_record_latency(latency),
        ensures
            final(self).total_latency@ == old(self).total_latency@ + latency@,
            final(self).latency_count == old(self).latency_count + 1,
            final(self).batch_size_counts@ == old(self).batch_size_counts@,
            final(self).total_processing_time == old(self).total_processing_time,
            final(self).processing_count == old(self).processing_count,
            final(self).total_wait_time == old(self).total_wait_time,
            final(self).wait_count == old(self).wait_count,
            final(self).requests_processed == old(self).requests_processed,
            final(self).parameter_updates == old(self).parameter_updates,
            final(self).last_update == old(self).last_update,
            final(self).timeout_errors == old(self).timeout_errors,
            final(self).processing_errors == old(self).processing_errors,
            final(self).start_time == old(self).start_time,
    {
        self.total_latency = self.total_latency.add(latency);
        self.latency_count = self.latency_count + 1;
    }

    /// Record an optimization parameter update made at `now`.
    pub fn record_parameter_update(&mut self, now: Span)
        requires
            old(self).parameter_updates < u64::MAX,
        ensures
            final(self).parameter_updates == old(self).parameter_updates + 1,
            final(self).last_update == Some(now),
            final(self).batch_size_counts@ == old(self).batch_size_counts@,
            final(self).total_processing_time == old(self).total_processing_time,
            final(self).processing_count == old(self).processing_count,
            final(self).total_latency == old(self).total_latency,
            final(self).latency_count == old(self).latency_count,
            final(self).total_wait_time == old(self).total_wait_time,
            final(self).wait_count == old(self).wait_count,
            final(self).requests_processed == old(self).requests_processed,
            final(self).timeout_errors == old(self).timeout_errors,
            final(self).processing_errors == old(self).processing_errors,
            final(self).start_time == old(self).start_time,
    {
        self.parameter_updates = self.parameter_updates + 1;
        self.last_update = Some(now);
    }

    /// Record a timeout error.
    pub fn record_timeout_error(&mut self)
        requires
            old(self).timeout_errors < u64::MAX,
        ensures
            final(self).timeout_errors == old(self).timeout_errors + 1,
            final(self).batch_size_counts@ == old(self).batch_size_counts@,
            final(self).total_processing_time == old(self).total_processing_time,
            final(self).processing_count == old(self).processing_count,
            final(self).total_latency == old(self).total_latency,
            final(self).latency_count == old(self).latency_count,
            final(self).total_wait_time == old(self).total_wait_time,
            final(self).wait_count == old(self).wait_count,
            final(self).requests_processed == old(self).requests_processed,
            final(self).parameter_updates == old(self).parameter_updates,
            final(self).last_update == old(self).last_update,
            final(self).processing_errors == old(self).processing_errors,
            final(self).start_time == old(self).start_time,
    {
        self.timeout_errors = self.timeout_errors + 1;
    }

    /// Record a processing error.
    pub fn record_processing_error(&mut self)
        requires
            old(self).processing_errors < u64::MAX,
        ensures
            final(self).processing_errors == old(self).processing_errors + 1,
            final(self).batch_size_counts@ == old(self).batch_size_counts@,
            final(self).total_processing_time == old(self).total_processing_time,
            final(self).processing_count == old(self).processing_count,
            final(self).total_latency == old(self).total_latency,
            final(self).latency_count == old(self).latency_count,
            final(self).total_wait_time == old(self).total_wait_time,
            final(self).wait_count == old(self).wait_count,
            final(self).requests_processed == old(self).requests_processed,
            final(self).parameter_updates == old(self).parameter_updates,
            final(self).last_update == old(self).last_update,
            final(self).timeout_errors == old(self).timeout_errors,
            final(self).start_time == old(self).start_time,
    {
        self.processing_errors = self.processing_errors + 1;
    }
}

/// `m` is what a collection started at `now` holds: nothing recorded yet.
pub open spec fn is_started_at(m: MetricsState, now: Span) -> bool {
    &&& m.batch_size_counts@ == Map::<usize, u64>::empty()
    &&& m.total_processing_time@ == 0 && m.processing_count == 0
    &&& m.total_latency@ == 0 && m.latency_count == 0
    &&& m.total_wait_time@ == 0 && m.wait_count == 0
    &&& m.parameter_updates == 0 && m.last_update is None
    &&& m.timeout_errors == 0 && m.processing_errors == 0 && m.requests_processed == 0
    &&& m.start_time == Some(now)
}

/// `n` is `m` with one batch recorded: its size counted in the histogram, its
/// processing and wait times added, and its requests counted as processed.
pub open spec fn batch_recorded(
    m: MetricsState,
    n: MetricsState,
    batch_size: usize,
    processing_time: Span,
    wait_time: Span,
) -> bool {
    &&& n.batch_size_counts@ == m.batch_size_counts@.insert(
        batch_size,
        (batches_of_size(m.batch_size_counts@, batch_size) + 1) as u64,
    )
    &&& n.total_processing_time@ == m.total_processing_time@ + processing_time@
    &&& n.processing_count == m.processing_count + 1
    &&& n.total_wait_time@ == m.total_wait_time@ + wait_time@
    &&& n.wait_count == m.wait_count + 1
    &&& n.requests_processed == m.requests_processed + batch_size
    &&& n.total_latency == m.total_latency && n.latency_count == m.latency_count
    &&& n.parameter_updates == m.parameter_updates && n.last_update == m.last_update
    &&& n.timeout_errors == m.timeout_errors && n.processing_errors == m.processing_errors
    &&& n.start_time == m.start_time
}

/// `n` is `m` with everything but the named counters and times kept.
pub open spec fn others_kept(
    m: MetricsState,
    n: MetricsState,
    latency: bool,
    update: bool,
    timeout: bool,
    error: bool,
) -> bool {
    &&& n.batch_size_counts@ == m.batch_size_counts@
    &&& n.total_processing_time == m.total_processing_time
    &&& n.processing_count == m.processing_count
    &&& n.total_wait_time == m.total_wait_time && n.wait_count == m.wait_count
    &&& n.requests_processed == m.requests_processed && n.start_time == m.start_time
    &&& !latency ==> n.total_latency == m.total_latency && n.latency_count == m.latency_count
    &&& !update ==> n.parameter_updates == m.parameter_updates && n.last_update == m.last_update
    &&& !timeout ==> n.timeout_errors == m.timeout_errors
    &&& !error ==> n.processing_errors == m.processing_errors
}

/// The state a collector starts from at time `now`: empty, started at `now`.
fn started_state(now: Span) -> (m: MetricsState)
    ensures
        m.wf(),
        is_started_at(m, now),
{
    let mut m = MetricsState::empty();
    m.start_time = Some(now);
    m
}

/// Metrics collector for batch processing: the counters and totals of one collection.
/// Callers that record from several tasks share it under a lock.
pub struct MetricsCollector {
    state: MetricsState,
}

impl MetricsCollector {
    /// The counters and totals collected so far.
    pub closed spec fn counters_spec(&self) -> MetricsState {
        self.state
    }

    /// Create a new metrics collector whose collection starts at `now`.
    pub fn new(now: Span) -> (c: Self)
        ensures
            c.counters_spec().wf(),
            is_started_at(c.counters_spec(), now),
    {
        MetricsCollector { state: started_state(now) }
    }

    /// Record a batch processing event.
    pub fn record_batch(&mut self, batch_size: usize, processing_time: Span, wait_time: Span)
        requires
            old(self).counters_spec().can_record_batch(batch_size, processing_time, wait_time),
        ensures
            batch_recorded(
                old(self).counters_spec(),
                final(self).counters_spec(),
                batch_size,
                processing_time,
                wait_time,
            ),
            old(self).counters_spec().wf() ==> final(self).counters_spec().wf(),
    {
        self.state.record_batch(batch_size, processing_time, wait_time);
    }

    /// Record a request latency.
    pub fn record_latency(&mut self, latency: Span)
        requires
            old(self).counters_spec().can_record_latency(latency),
        ensures
            final(self).counters_spec().total_latency@ == old(self).counters_spec().total_latency@
                + latency@,
            final(self).counters_spec().latency_count == old(self).counters_spec().latency_count
                + 1,
            others_kept(old(self).counters_spec(), final(self).counters_spec(), true, false, false, false),
            old(self).counters_spec().wf() ==> final(self).counters_spec().wf(),
    {
        self.state.record_latency(latency);
    }

    /// Record an optimization parameter update made at `now`.
    pub fn record_parameter_update(&mut self, now: Span)
        requires
            old(self).counters_spec().parameter_updates < u64::MAX,
        ensures
            final(self).counters_spec().parameter_updates == old(
                self,
            ).counters_spec().parameter_updates + 1,
            final(self).counters_spec().last_update == Some(now),
            others_kept(old(self).counters_spec(), final(self).counters_spec(), false, true, false, false),
            old(self).counters_spec().wf() ==> final(self).counters_spec().wf(),
    {
        self.state.record_parameter_update(now);
    }

    /// Record a timeout error.
    pub fn record_timeout_error(&mut self)
        requires
            old(self).counters_spec().timeout_errors < u64::MAX,
        ensures
            final(self).counters_spec().timeout_errors == old(self).counters_spec().timeout_errors
                + 1,
            others_kept(old(self).counters_spec(), final(self).counters_spec(), false, false, true, false),
            old(self).counters_spec().wf() ==> final(self).counters_spec().wf(),
    {
        self.state.record_timeout_error();
    }

    /// Record a processing error.
    pub fn record_processing_error(&mut self)
        requires
            old(self).counters_spec().processing_errors < u64::MAX,
        ensures
            final(self).counters_spec().processing_errors == old(
                self,
            ).counters_spec().processing_errors + 1,
            others_kept(old(self).counters_spec(), final(self).counters_spec(), false, false, false, true),
            old(self).counters_spec().wf() ==> final(self).counters_spec().wf(),
    {
        self.state.record_processing_error();
    }

    /// The current counters and totals.
    pub fn counters(&self) -> (m: &MetricsState)
        ensures
            *m == self.counters_spec(),
    {
        &self.state
    }

    /// Reset all metrics; collection restarts at `now`.
    pub fn reset(&mut self, now: Span)
        ensures
            final(self).counters_spec().wf(),
            is_started_at(final(self).counters_spec(), now),
    {
        self.state = started_state(now);
    }
}

} // verus!
