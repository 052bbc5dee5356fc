//! The decisions of the CORK dispatcher.
//!
//! The dispatcher's controller runs a loop of waiting, reading the queue and processing
//! batches. Each step's decision is a function here, from what the controller observed
//! (queue length, wait times, optimizer parameters, semaphore state) to an action.
use crate::config::{config_problem, BatchConfig};
use crate::metrics::{is_started_at, MetricsCollector};
use crate::optimizer::{fresh_bucket, initial_intercept, initial_slope, Optimizer};
use crate::regression::OptimizationSample;
use crate::error::{BatchError, Result};
use crate::time::{Span, NANOS_PER_MILLI, SPAN_MAX_NANOS};
use vstd::prelude::*;

verus! {

/// Semaphore for controlling concurrent batch processing: a count of free permits.
#[derive(Debug)]
pub struct NonBlockingSemaphore {
    permits: usize,
}

impl NonBlockingSemaphore {
    /// The number of free permits.
    pub closed spec fn permits_spec(&self) -> nat {
        self.permits as nat
    }

    /// A semaphore with `permits` free permits.
    pub fn new(permits: usize) -> (s: Self)
        ensures
            s.permits_spec() == permits,
    {
        NonBlockingSemaphore { permits }
    }

    /// Takes a permit if one is free; reports whether it did.
    pub fn try_acquire(&mut self) -> (ok: bool)
        ensures
            ok == (old(self).permits_spec() > 0),
            final(self).permits_spec() == if ok {
                old(self).permits_spec() - 1
            } else {
                old(self).permits_spec() as int
            },
    {
        if self.permits > 0 {
            self.permits = self.permits - 1;
            true
        } else {
            false
        }
    }

    /// Whether no permit is free.
    pub fn is_locked(&self) -> (b: bool)
        ensures
            b == (self.permits_spec() == 0),
    {
        self.permits == 0
    }

    /// Gives a permit back.
    pub fn release(&mut self)
        requires
            old(self).permits_spec() < usize::MAX,
        ensures
            final(self).permits_spec() == old(self).permits_spec() + 1,
    {
        self.permits = self.permits + 1;
    }
}

/// A timed-out request, as reported to its caller.
pub open spec fn timeout_error(expected: nat, actual: nat) -> BatchError {
    BatchError::TimeoutExceeded {
        expected_ms: (expected / NANOS_PER_MILLI as nat) as u64,
        actual_ms: (actual / NANOS_PER_MILLI as nat) as u64,
    }
}

/// What the controller does with its queue on one step.
#[derive(Debug, PartialEq, Eq)]
pub enum QueueAction {
    /// Nothing to do now.
    Idle,
    /// Cancel the oldest request, answering it with `error` and counting a timeout
    /// error. `estimated_latency` is the latency the dispatcher estimated for it,
    /// recorded in the metrics when set.
    CancelOldest { error: BatchError, estimated_latency: Option<Span> },
    /// Take a permit and process a batch of up to `batch_size` requests.
    Dispatch { batch_size: usize },
}

/// What the controller observed of its queue and optimizer.
#[derive(Clone, Copy, Debug, PartialEq, Eq)]
pub struct QueueState {
    /// Number of requests waiting
    pub queue_len: usize,
    /// How long the oldest request has waited
    pub first_wait: Span,
    /// How long the newest request has waited
    pub last_wait: Span,
    /// The optimizer's `o_a`, in nanoseconds per item
    pub o_a: u128,
    /// The optimizer's `o_b`, in nanoseconds
    pub o_b: u128,
    /// The optimizer's average wait time
    pub wait_time: Span,
    /// Whether the batch semaphore has no free permit
    pub semaphore_locked: bool,
}

/// The latency estimated for the oldest request: its wait so far plus the estimated
/// processing time of the whole queue, `o_a · queue_len + o_b`.
pub open spec fn estimated_latency(st: QueueState) -> nat {
    (st.first_wait@ + st.o_a * st.queue_len + st.o_b) as nat
}

/// The CORK condition to keep waiting for more requests: the queue is below the batch
/// limit and `queue_len · (last_wait + tick + o_a) <= 0.95 · wait_time`.
pub open spec fn should_wait(st: QueueState, cfg: BatchConfig) -> bool {
    &&& st.queue_len < cfg.max_batch_size
    &&& 100 * (st.queue_len * (st.last_wait@ + cfg.tick_interval@ + st.o_a)) <= 95 * st.wait_time@
}

/// `a` is the action of one step of the CORK algorithm on `st`:
/// - an empty queue needs nothing;
/// - with several requests waiting, when the oldest one's estimated latency reaches the
///   bound, it is cancelled (its estimate recorded);
/// - when the semaphore is taken, a lone request that has waited past the bound is
///   cancelled, and otherwise nothing happens;
/// - otherwise the dispatcher keeps waiting while the CORK condition holds, and else
///   dispatches up to `max_batch_size` requests.
pub open spec fn is_queue_action(st: QueueState, cfg: BatchConfig, a: QueueAction) -> bool {
    if st.queue_len == 0 {
        a == QueueAction::Idle
    } else if st.queue_len > 1 && estimated_latency(st) >= cfg.max_latency@ {
        a matches QueueAction::CancelOldest { error, estimated_latency: Some(d) } && error
            == timeout_error(cfg.max_latency@, estimated_latency(st)) && d@ == estimated_latency(
            st,
        )
    } else if st.semaphore_locked {
        if st.queue_len == 1 && st.first_wait@ >= cfg.max_latency@ {
            a == QueueAction::CancelOldest {
                error: timeout_error(cfg.max_latency@, st.first_wait@),
                estimated_latency: None,
            }
        } else {
            a == QueueAction::Idle
        }
    } else if should_wait(st, cfg) {
        a == QueueAction::Idle
    } else {
        a == QueueAction::Dispatch {
            batch_size: if st.queue_len < cfg.max_batch_size {
                st.queue_len
            } else {
                cfg.max_batch_size
            },
        }
    }
}

/// The time-out error for a request whose latency bound is `expected` and whose
/// (waited or estimated) latency is `actual`.
fn timeout(expected: Span, actual: Span) -> (e: BatchError)
    ensures
        e == timeout_error(expected@, actual@),
{
    BatchError::TimeoutExceeded {
        expected_ms: expected.as_millis() as u64,
        actual_ms: actual.as_millis() as u64,
    }
}

/// One step of the CORK algorithm on the observed queue state.
pub fn decide_queue(st: &QueueState, cfg: &BatchConfig) -> (a: QueueAction)
    requires
        st.queue_len > 0 ==> estimated_latency(*st) <= SPAN_MAX_NANOS,
    ensures
        is_queue_action(*st, *cfg, a),
{
    if st.queue_len == 0 {
        return QueueAction::Idle;
    }
    let n = st.queue_len as u128;
    assert(st.o_a * n <= SPAN_MAX_NANOS) by (nonlinear_arith)
        requires
            st.first_wait@ + st.o_a * n + st.o_b <= SPAN_MAX_NANOS,
            st.first_wait@ >= 0,
            st.o_b >= 0,
    ;
    let est_ns = st.first_wait.as_nanos() + st.o_a * n + st.o_b;
    let est = match Span::checked_from_nanos(est_ns) {
        Some(d) => d,
        None => {
            return QueueAction::Idle;
        },
    };
    if st.queue_len > 1 && est.as_nanos() >= cfg.max_latency.as_nanos() {
        return QueueAction::CancelOldest {
            error: timeout(cfg.max_latency, est),
            estimated_latency: Some(est),
        };
    }
    if st.semaphore_locked {
        if st.queue_len == 1 && st.first_wait.as_nanos() >= cfg.max_latency.as_nanos() {
            return QueueAction::CancelOldest {
                error: timeout(cfg.max_latency, st.first_wait),
                estimated_latency: None,
            };
        }
        return QueueAction::Idle;
    }
    if st.queue_len < cfg.max_batch_size && cork_wait(st, cfg) {
        return QueueAction::Idle;
    }
    QueueAction::Dispatch {
        batch_size: if st.queue_len < cfg.max_batch_size {
            st.queue_len
        } else {
            cfg.max_batch_size
        },
    }
}

/// The arithmetic of the CORK condition, `100 · n · (last + tick + o_a) <= 95 · wait`;
/// when the left side leaves `u128` it is larger than the right side.
fn cork_wait(st: &QueueState, cfg: &BatchConfig) -> (b: bool)
    ensures
        b == (100 * (st.queue_len * (st.last_wait@ + cfg.tick_interval@ + st.o_a)) <= 95
            * st.wait_time@),
{
    let per_item = st.last_wait.as_nanos() + cfg.tick_interval.as_nanos();
    let w = st.wait_time.as_nanos();
    let rhs: u128 = 95 * w;
    let m = st.queue_len as u128;
    let ghost p = st.last_wait@ + cfg.tick_interval@ + st.o_a;
    assert(m * p == p * m) by (nonlinear_arith);
    match per_item.checked_add(st.o_a) {
        Some(q) => match q.checked_mul(m) {
            Some(r) => match r.checked_mul(100) {
                Some(v) => {
                    assert(v == 100 * (m * p));
                    v <= rhs
                },
                None => {
                    assert(100 * (m * p) > u128::MAX);
                    false
                },
            },
            None => {
                assert(100 * (q * m) > u128::MAX) by (nonlinear_arith)
                    requires
                        q * m > u128::MAX,
                ;
                false
            },
        },
        None => {
            assert(100 * (m * p) > u128::MAX || m == 0) by (nonlinear_arith)
                requires
                    p > u128::MAX,
                    m >= 0,
            ;
            if m == 0 {
                assert(m * p == 0) by (nonlinear_arith)
                    requires
                        m == 0,
                ;
                true
            } else {
                false
            }
        },
    }
}

/// What the controller does on one step of a training phase.
#[derive(Debug, PartialEq, Eq)]
pub enum TrainingAction {
    /// Sleep one tick and look again.
    Wait,
    /// Cancel the oldest request, answering it with `error` and counting a timeout
    /// error.
    CancelOldest { error: BatchError },
    /// Take a permit and process a training batch of up to `batch_size` requests.
    Dispatch { batch_size: usize },
}

/// What the controller observed during a training phase.
#[derive(Clone, Copy, Debug, PartialEq, Eq)]
pub struct TrainingState {
    /// Number of requests waiting
    pub queue_len: usize,
    /// How long the oldest request has waited
    pub first_wait: Span,
    /// The optimizer's `o_a`, in nanoseconds per item
    pub o_a: u128,
    /// The optimizer's `o_b`, in nanoseconds
    pub o_b: u128,
    /// Whether the batch semaphore has no free permit
    pub semaphore_locked: bool,
}

/// The batch size a training phase uses: its own size, capped by the configuration.
pub open spec fn training_batch(training_batch_size: usize, cfg: BatchConfig) -> usize {
    if training_batch_size < cfg.max_batch_size {
        training_batch_size
    } else {
        cfg.max_batch_size
    }
}

/// Whether the oldest request is cancelled: more requests wait than the phase still
/// needs (`num_required_reqs - req_count`, which may be negative) and it has waited past
/// the latency bound.
pub open spec fn training_cancels(
    st: TrainingState,
    cfg: BatchConfig,
    num_required_reqs: usize,
    req_count: usize,
) -> bool {
    &&& st.queue_len > num_required_reqs - req_count
    &&& st.first_wait@ >= cfg.max_latency@
}

/// `a` is the action of one training step: with an empty queue, wait; cancel the oldest
/// request when `training_cancels`; with batches larger than one, wait for the queue to
/// fill while the estimated latency of a full training batch stays within 95% of the
/// bound; wait while the semaphore is taken; else dispatch a training batch.
pub open spec fn is_training_action(
    st: TrainingState,
    cfg: BatchConfig,
    num_required_reqs: usize,
    req_count: usize,
    training_batch_size: usize,
    a: TrainingAction,
) -> bool {
    let b = training_batch(training_batch_size, cfg);
    if st.queue_len == 0 {
        a == TrainingAction::Wait
    } else if training_cancels(st, cfg, num_required_reqs, req_count) {
        a == TrainingAction::CancelOldest {
            error: timeout_error(cfg.max_latency@, st.first_wait@),
        }
    } else if b > 1 && st.queue_len < b && 100 * (st.o_a * b + st.o_b + st.first_wait@) <= 95
        * cfg.max_latency@ {
        a == TrainingAction::Wait
    } else if st.semaphore_locked {
        a == TrainingAction::Wait
    } else {
        a == TrainingAction::Dispatch { batch_size: b }
    }
}

/// One step of a training phase on the observed state.
pub fn decide_training(
    st: &TrainingState,
    cfg: &BatchConfig,
    num_required_reqs: usize,
    req_count: usize,
    training_batch_size: usize,
) -> (a: TrainingAction)
    requires
        ({
            let b = training_batch(training_batch_size, *cfg);
            st.queue_len > 0 && !training_cancels(*st, *cfg, num_required_reqs, req_count) && b > 1
                ==> {
                &&& st.o_a * b + st.o_b <= SPAN_MAX_NANOS
                &&& st.queue_len < b ==> st.o_a * b + st.o_b + st.first_wait@ <= SPAN_MAX_NANOS
            }
        }),
    ensures
        is_training_action(*st, *cfg, num_required_reqs, req_count, training_batch_size, a),
{
    let b = if training_batch_size < cfg.max_batch_size {
        training_batch_size
    } else {
        cfg.max_batch_size
    };
    if st.queue_len == 0 {
        return TrainingAction::Wait;
    }
    let first = st.first_wait.as_nanos();
    if (st.queue_len as u128) + (req_count as u128) > (num_required_reqs as u128) && first
        >= cfg.max_latency.as_nanos() {
        return TrainingAction::CancelOldest { error: timeout(cfg.max_latency, st.first_wait) };
    }
    if b > 1 {
        assert(st.o_a * (b as u128) <= SPAN_MAX_NANOS);
        let est = st.o_a * (b as u128) + st.o_b;
        if st.queue_len < b {
            let total = est + first;
            let lat = cfg.max_latency.as_nanos();
            if 100 * total <= 95 * lat {
                return TrainingAction::Wait;
            }
        }
    }
    if st.semaphore_locked {
        return TrainingAction::Wait;
    }
    TrainingAction::Dispatch { batch_size: b }
}

/// How many requests, from the front of a queue whose batch sizes are `sizes`, go into a
/// batch of at most `max_count`: requests are taken in order while fewer than `max_count`
/// are taken and the next one still fits the remaining size.
pub open spec fn extraction_count(sizes: Seq<usize>, max_count: nat, taken: nat, filled: nat) -> nat
    decreases sizes.len(),
{
    if taken >= max_count || sizes.len() == 0 {
        taken
    } else if filled + sizes[0] <= max_count {
        extraction_count(sizes.drop_first(), max_count, taken + 1, filled + sizes[0] as nat)
    } else {
        taken
    }
}

/// The number of requests to extract from the front of the queue for a batch of at most
/// `max_count`, given the batch size of each queued request.
pub fn plan_extraction(sizes: &[usize], max_count: usize) -> (n: usize)
    ensures
        n == extraction_count(sizes@, max_count as nat, 0, 0),
        n <= max_count,
        n <= sizes@.len(),
{
    let mut taken: usize = 0;
    let mut filled: u128 = 0;
    assert(sizes@.skip(0) =~= sizes@);
    while taken < max_count && taken < sizes.len()
        invariant
            taken <= max_count,
            taken <= sizes@.len(),
            filled <= max_count,
            extraction_count(sizes@, max_count as nat, 0, 0) == extraction_count(
                sizes@.skip(taken as int),
                max_count as nat,
                taken as nat,
                filled as nat,
            ),
        decreases sizes.len() - taken,
    {
        let size = sizes[taken];
        let ghost rest = sizes@.skip(taken as int);
        assert(rest[0] == size);
        assert(rest.drop_first() =~= sizes@.skip(taken as int + 1));
        if filled + (size as u128) <= (max_count as u128) {
            filled = filled + (size as u128);
            taken = taken + 1;
        } else {
            return taken;
        }
    }
    proof {
        if taken < max_count {
            assert(sizes@.skip(taken as int) =~= Seq::<usize>::empty());
        }
    }
    taken
}

/// The message jobs get when the processor returns a wrong number of results.
pub open spec fn result_count_mismatch_message() -> Seq<char> {
    "Batch processor returned incorrect number of results"@
}

/// The response each of `n_jobs` jobs gets from the processor's `result`: its own result
/// when the processor returned one per job; otherwise an error for every job (the
/// processor's error, or a processing error when the count of results is wrong).
pub fn route_results<R>(n_jobs: usize, result: Result<Vec<R>>) -> (out: Vec<Result<R>>)
    ensures
        out@.len() == n_jobs,
        match result {
            Ok(rs) => if rs@.len() == n_jobs {
                forall|i: int|
                    0 <= i < n_jobs ==> out@[i] == Ok::<R, BatchError>(#[trigger] rs@[i])
            } else {
                forall|i: int|
                    0 <= i < n_jobs ==> (#[trigger] out@[i] matches Err(
                        BatchError::ProcessingError(m),
                    ) && m@ == result_count_mismatch_message())
            },
            Err(e) => forall|i: int|
                0 <= i < n_jobs ==> #[trigger] out@[i] == Err::<R, BatchError>(e),
        },
{
    let mut out: Vec<Result<R>> = Vec::new();
    match result {
        Ok(rs) => {
            if rs.len() == n_jobs {
                let mut rs = rs;
                let ghost all = rs@;
                while rs.len() > 0
                    invariant
                        out@.len() + rs@.len() == n_jobs,
                        all.len() == n_jobs,
                        rs@ == all.skip(out@.len() as int),
                        forall|i: int| 0 <= i < out@.len() ==> out@[i] == Ok::<R, BatchError>(
                            #[trigger] all[i],
                        ),
                    decreases rs@.len(),
                {
                    let ghost k = out@.len() as int;
                    let r = rs.remove(0);
                    assert(r == all[k]);
                    assert(rs@ =~= all.skip(k + 1));
                    out.push(Ok(r));
                }
            } else {
                while out.len() < n_jobs
                    invariant
                        out@.len() <= n_jobs,
                        forall|i: int|
                            0 <= i < out@.len() ==> (#[trigger] out@[i] matches Err(
                                BatchError::ProcessingError(m),
                            ) && m@ == result_count_mismatch_message()),
                    decreases n_jobs - out.len(),
                {
                    out.push(
                        Err(
                            BatchError::ProcessingError(
                                String::from_str("Batch processor returned incorrect number of results"),
                            ),
                        ),
                    );
                }
            }
        },
        Err(e) => {
            while out.len() < n_jobs
                invariant
                    out@.len() <= n_jobs,
                    forall|i: int| 0 <= i < out@.len() ==> #[trigger] out@[i] == Err::<R, BatchError>(e),
                decreases n_jobs - out.len(),
            {
                out.push(Err(e.duplicate()));
            }
        },
    }
    out
}

/// Law: when the queue holds requests, the semaphore is free, the queue is below the
/// batch limit and the oldest request is not cancelled (a single request, or a latency
/// estimate `first_wait + o_a·queue_len + o_b` below the bound), the step keeps waiting
/// exactly when `queue_len · (last_wait + tick + o_a) <= 0.95 · wait_time` — the CORK
/// condition on the newest request's wait — and otherwise dispatches the whole queue.
pub proof fn lemma_cork_waits_on_newest(st: QueueState, cfg: BatchConfig, a: QueueAction)
    requires
        is_queue_action(st, cfg, a),
        st.queue_len > 0,
        !st.semaphore_locked,
        st.queue_len < cfg.max_batch_size,
        st.queue_len == 1 || st.first_wait@ + st.o_a * st.queue_len + st.o_b < cfg.max_latency@,
    ensures
        (a == QueueAction::Idle) == (100 * (st.queue_len * (st.last_wait@ + cfg.tick_interval@
            + st.o_a)) <= 95 * st.wait_time@),
        a != QueueAction::Idle ==> a == (QueueAction::Dispatch { batch_size: st.queue_len }),
{
}

/// Law: in a training step with requests queued, no cancellation (at most the
/// requests the phase still needs are queued, or the oldest is within the bound), a
/// training batch `b = min(training_batch_size, max_batch_size)` of more than one
/// request that the queue has not filled, and a free semaphore, the step waits for the
/// batch to fill exactly when the oldest request's wait plus the batch's estimated
/// duration, `first_wait + o_a·b + o_b`, is within 95% of the latency bound; otherwise it
/// dispatches a batch of `b`.
pub proof fn lemma_training_fill_respects_latency(
    st: TrainingState,
    cfg: BatchConfig,
    num_required_reqs: usize,
    req_count: usize,
    training_batch_size: usize,
    a: TrainingAction,
)
    requires
        is_training_action(st, cfg, num_required_reqs, req_count, training_batch_size, a),
        st.queue_len > 0,
        st.queue_len + req_count <= num_required_reqs || st.first_wait@ < cfg.max_latency@,
        !st.semaphore_locked,
    ensures
        ({
            let b: nat = if training_batch_size < cfg.max_batch_size {
                training_batch_size as nat
            } else {
                cfg.max_batch_size as nat
            };
            b > 1 && st.queue_len < b ==> {
                &&& (a == TrainingAction::Wait) == (100 * (st.first_wait@ + st.o_a * b + st.o_b)
                    <= 95 * cfg.max_latency@)
                &&& a != TrainingAction::Wait ==> a == (TrainingAction::Dispatch {
                    batch_size: b as usize,
                })
            }
        }),
{
}

/// Law: the CORK step never dispatches more requests than are queued or than the
/// configured maximum batch size, and dispatches only when the semaphore is free.
pub proof fn lemma_dispatch_within_limits(st: QueueState, cfg: BatchConfig, a: QueueAction)
    requires
        is_queue_action(st, cfg, a),
    ensures
        a matches QueueAction::Dispatch { batch_size } ==> batch_size <= st.queue_len
            && batch_size <= cfg.max_batch_size && !st.semaphore_locked,
{
}

/// Law: with several requests queued, a request whose estimated latency reaches the
/// bound is never dispatched: it is cancelled.
pub proof fn lemma_late_requests_are_cancelled(st: QueueState, cfg: BatchConfig, a: QueueAction)
    requires
        is_queue_action(st, cfg, a),
        st.queue_len > 1,
        estimated_latency(st) >= cfg.max_latency@,
    ensures
        a is CancelOldest,
{
}

/// The sum of the first `k` sizes.
pub open spec fn prefix_total(sizes: Seq<usize>, k: int) -> nat
    decreases k,
{
    if k <= 0 {
        0
    } else {
        prefix_total(sizes, k - 1) + sizes[k - 1] as nat
    }
}

/// The extraction keeps its running total: the requests taken so far add up to `filled`.
proof fn lemma_extraction_total(sizes: Seq<usize>, max_count: nat, taken: nat, filled: nat)
    requires
        filled <= max_count,
    ensures
        extraction_count(sizes, max_count, taken, filled) >= taken,
        extraction_count(sizes, max_count, taken, filled) - taken <= sizes.len(),
        filled + prefix_total(sizes, extraction_count(sizes, max_count, taken, filled) - taken)
            <= max_count,
    decreases sizes.len(),
{
    if taken >= max_count || sizes.len() == 0 {
    } else if filled + sizes[0] <= max_count {
        let rest = sizes.drop_first();
        lemma_extraction_total(rest, max_count, taken + 1, filled + sizes[0] as nat);
        let k = extraction_count(rest, max_count, taken + 1, filled + sizes[0] as nat) - (taken + 1);
        lemma_prefix_total_shift(sizes, k);
    } else {
    }
}

/// Summing the first `k + 1` sizes is the first size plus the first `k` of the rest.
proof fn lemma_prefix_total_shift(sizes: Seq<usize>, k: int)
    requires
        sizes.len() > 0,
        0 <= k < sizes.len(),
    ensures
        prefix_total(sizes, k + 1) == sizes[0] + prefix_total(sizes.drop_first(), k),
    decreases k,
{
    let rest = sizes.drop_first();
    if k > 0 {
        lemma_prefix_total_shift(sizes, k - 1);
        assert(rest[k - 1] == sizes[k]);
        assert(prefix_total(rest, k) == prefix_total(rest, k - 1) + rest[k - 1] as nat);
        assert(prefix_total(sizes, k + 1) == prefix_total(sizes, k) + sizes[k] as nat);
    } else {
        assert(prefix_total(sizes, 1) == prefix_total(sizes, 0) + sizes[0] as nat);
        assert(prefix_total(rest, 0) == 0);
    }
}

/// Law: the requests extracted for a batch add up to at most `max_count`, so a batch
/// never exceeds the size it was extracted for.
pub proof fn lemma_extraction_fits(sizes: Seq<usize>, max_count: nat)
    ensures
        prefix_total(sizes, extraction_count(sizes, max_count, 0, 0) as int) <= max_count,
        extraction_count(sizes, max_count, 0, 0) <= sizes.len(),
{
    lemma_extraction_total(sizes, max_count, 0, 0);
}

impl QueueState {
    /// Whether `decide_queue` may be called on this state: the estimated latency of a
    /// non-empty queue stays within the range of a `Span`.
    pub fn fits(&self) -> (b: bool)
        ensures
            b == (self.queue_len > 0 ==> estimated_latency(*self) <= SPAN_MAX_NANOS),
    {
        if self.queue_len == 0 {
            return true;
        }
        let first = self.first_wait.as_nanos();
        match self.o_a.checked_mul(self.queue_len as u128) {
            Some(p) => match p.checked_add(self.o_b) {
                Some(q) => match q.checked_add(first) {
                    Some(t) => t <= SPAN_MAX_NANOS,
                    None => false,
                },
                None => false,
            },
            None => {
                assert(self.o_a * self.queue_len > u128::MAX);
                false
            },
        }
    }
}

impl TrainingState {
    /// Whether `decide_training` may be called with these arguments: the estimates it
    /// forms stay within the range of a `Span`.
    pub fn fits(
        &self,
        cfg: &BatchConfig,
        num_required_reqs: usize,
        req_count: usize,
        training_batch_size: usize,
    ) -> (b: bool)
        ensures
            b == ({
                let bs = training_batch(training_batch_size, *cfg);
                self.queue_len > 0 && !training_cancels(*self, *cfg, num_required_reqs, req_count)
                    && bs > 1 ==> {
                    &&& self.o_a * bs + self.o_b <= SPAN_MAX_NANOS
                    &&& self.queue_len < bs ==> self.o_a * bs + self.o_b + self.first_wait@
                        <= SPAN_MAX_NANOS
                }
            }),
    {
        let bs = if training_batch_size < cfg.max_batch_size {
            training_batch_size
        } else {
            cfg.max_batch_size
        };
        let first = self.first_wait.as_nanos();
        let cancels = (self.queue_len as u128) + (req_count as u128) > (num_required_reqs as u128)
            && first >= cfg.max_latency.as_nanos();
        if self.queue_len == 0 || cancels || bs <= 1 {
            return true;
        }
        let est = match self.o_a.checked_mul(bs as u128) {
            Some(p) => match p.checked_add(self.o_b) {
                Some(q) => q,
                None => {
                    return false;
                },
            },
            None => {
                assert(self.o_a * bs > u128::MAX);
                return false;
            },
        };
        if est > SPAN_MAX_NANOS {
            return false;
        }
        if self.queue_len < bs {
            est + first <= SPAN_MAX_NANOS
        } else {
            true
        }
    }
}

/// The training phases the controller runs before serving, in order, each as
/// (requests required, requests to train on, batch size): a warm-up on single requests
/// past the skipped samples, then phases with batches of 1, 2 and 3.
pub fn training_schedule(n_skipped_samples: usize) -> (r: Vec<(usize, usize, usize)>)
    requires
        n_skipped_samples + 6 <= usize::MAX,
    ensures
        r@ == seq![
            (n_skipped_samples, (n_skipped_samples + 6) as usize, 1usize),
            (6usize, 1usize, 1usize),
            (5usize, 1usize, 2usize),
            (3usize, 1usize, 3usize),
        ],
{
    let mut r: Vec<(usize, usize, usize)> = Vec::new();
    r.push((n_skipped_samples, n_skipped_samples + 6, 1));
    r.push((6, 1, 1));
    r.push((5, 1, 2));
    r.push((3, 1, 3));
    assert(r@ =~= seq![
        (n_skipped_samples, (n_skipped_samples + 6) as usize, 1usize),
        (6usize, 1usize, 1usize),
        (5usize, 1usize, 2usize),
        (3usize, 1usize, 3usize),
    ]);
    r
}

/// What is recorded of a processed batch.
#[derive(Clone, Copy, Debug, PartialEq, Eq)]
pub struct BatchRecords {
    /// Each request's latency, in the metrics
    pub latencies: bool,
    /// A processing error, in the metrics
    pub processing_error: bool,
    /// The batch, in the optimizer's samples
    pub optimizer_sample: bool,
}

/// What is recorded of a batch of `batch_size` requests whose processor answered
/// `result_count` results (`None` when it failed): the latencies when every request got
/// its result, a processing error when the processor failed, and an optimizer sample
/// outside training. The batch itself is always recorded in the metrics.
pub fn batch_records(result_count: Option<usize>, batch_size: usize, is_training: bool) -> (r:
    BatchRecords)
    ensures
        r.latencies == (result_count == Some(batch_size)),
        r.processing_error == (result_count is None),
        r.optimizer_sample == !is_training,
{
    let latencies = match result_count {
        Some(n) => n == batch_size,
        None => false,
    };
    BatchRecords { latencies, processing_error: result_count.is_none(), optimizer_sample: !is_training }
}

/// The state the dispatcher's controller works on: its configuration, the optimizer,
/// the batch semaphore and, when enabled, the metrics collector.
pub struct DispatcherCore {
    pub config: BatchConfig,
    pub optimizer: Optimizer,
    pub semaphore: NonBlockingSemaphore,
    pub metrics: Option<MetricsCollector>,
}

impl DispatcherCore {
    /// Create the controller state for `config` at time `now`: the configuration is
    /// validated first; the optimizer starts from the configured latency bound and sample
    /// window, one batch may run at a time, and metrics are collected when enabled.
    pub fn new(config: BatchConfig, now: Span) -> (r: Result<Self>)
        ensures
            r is Ok <==> config_problem(config) is None,
            r is Err ==> (r matches Err(BatchError::ConfigError(m)) && config_problem(config)
                == Some(m@)),
            r matches Ok(c) ==> {
                &&& c.config == config
                &&& c.optimizer.wf()
                &&& c.optimizer.samples_spec() == Seq::<OptimizationSample>::empty()
                &&& c.optimizer.o_a_spec() == initial_slope(config.max_latency@)
                &&& c.optimizer.o_b_spec() == initial_intercept(config.max_latency@)
                &&& c.optimizer.o_a_spec() > 0 && c.optimizer.o_b_spec() > 0
                &&& c.optimizer.wait_spec()@ == 0
                &&& c.optimizer.batch_count() == 0
                &&& c.optimizer.max_latency_spec() == config.max_latency
                &&& c.optimizer.n_kept_spec() == config.n_kept_samples
                &&& c.optimizer.n_skipped_spec() == config.n_skipped_samples
                &&& c.optimizer.refresh_interval_spec() == config.refresh_interval
                &&& c.optimizer.bucket_spec() == fresh_bucket(2, config.refresh_interval, now)
                &&& c.semaphore.permits_spec() == 1
                &&& (c.metrics is Some <==> config.enable_metrics)
                &&& (c.metrics matches Some(m) ==> m.counters_spec().wf() && is_started_at(
                    m.counters_spec(),
                    now,
                ))
            },
    {
        match config.validate() {
            Ok(()) => {},
            Err(e) => {
                return Err(e);
            },
        }
        let optimizer = Optimizer::new(
            config.max_latency,
            config.n_kept_samples,
            config.n_skipped_samples,
            config.refresh_interval,
            now,
        );
        let metrics = if config.enable_metrics {
            Some(MetricsCollector::new(now))
        } else {
            None
        };
        Ok(DispatcherCore { config, optimizer, semaphore: NonBlockingSemaphore::new(1), metrics })
    }
}

} // verus!
