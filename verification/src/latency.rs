//! Latency statistics of a run of requests: how many succeeded and failed, their
//! latencies in ascending order, their average, and percentile picks.
use crate::time::{Span, SPAN_MAX_NANOS};
use vstd::prelude::*;

verus! {

broadcast use vstd::seq_lib::group_to_multiset_ensures;

/// The latencies of the successful outcomes, in the order of the outcomes.
pub open spec fn successful_latencies(outcomes: Seq<(bool, Span)>) -> Seq<Span>
    decreases outcomes.len(),
{
    if outcomes.len() == 0 {
        Seq::empty()
    } else {
        let rest = successful_latencies(outcomes.drop_last());
        if outcomes.last().0 {
            rest.push(outcomes.last().1)
        } else {
            rest
        }
    }
}

/// The summed latencies, in nanoseconds.
pub open spec fn total_latency(s: Seq<Span>) -> nat
    decreases s.len(),
{
    if s.len() == 0 {
        0
    } else {
        total_latency(s.drop_last()) + s.last()@
    }
}

/// `s` is in ascending order of length.
pub open spec fn ascending(s: Seq<Span>) -> bool {
    forall|i: int, j: int| 0 <= i <= j < s.len() ==> s[i]@ <= s[j]@
}

/// What a run of requests came to.
#[derive(Debug, Clone)]
pub struct LatencySummary {
    /// Number of successful requests
    pub successful: usize,
    /// Number of failed requests
    pub failed: usize,
    /// The latencies of the successful requests, shortest first
    pub sorted: Vec<Span>,
    /// The average latency of the successful requests, rounded down to whole
    /// nanoseconds; `None` when none succeeded
    pub average: Option<Span>,
}

/// Taking fewer outcomes never adds to the successful latencies' sum.
proof fn lemma_total_of_prefix(o: Seq<(bool, Span)>, i: int)
    requires
        0 <= i <= o.len(),
    ensures
        total_latency(successful_latencies(o.take(i))) <= total_latency(successful_latencies(o)),
    decreases o.len(),
{
    if i < o.len() {
        assert(o.take(i) =~= o.drop_last().take(i));
        lemma_total_of_prefix(o.drop_last(), i);
        let rest = successful_latencies(o.drop_last());
        if o.last().0 {
            assert(rest.push(o.last().1).drop_last() =~= rest);
        }
    } else {
        assert(o.take(i) =~= o);
    }
}

/// Summarise the outcomes `(success, latency)` of a run of requests.
pub fn summarize_latencies(outcomes: &[(bool, Span)]) -> (s: LatencySummary)
    requires
        total_latency(successful_latencies(outcomes@)) <= SPAN_MAX_NANOS,
    ensures
        s.successful == successful_latencies(outcomes@).len(),
        s.failed == outcomes@.len() - s.successful,
        s.sorted@.to_multiset() == successful_latencies(outcomes@).to_multiset(),
        ascending(s.sorted@),
        s.average is Some <==> s.successful > 0,
        s.average matches Some(a) ==> a@ == total_latency(successful_latencies(outcomes@))
            / (s.successful as nat),
{
    let n = outcomes.len();
    let mut successful: usize = 0;
    let mut sorted: Vec<Span> = Vec::new();
    let mut total: u128 = 0;
    let mut i: usize = 0;
    while i < n
        invariant
            i <= n,
            n == outcomes@.len(),
            total_latency(successful_latencies(outcomes@)) <= SPAN_MAX_NANOS,
            successful == successful_latencies(outcomes@.take(i as int)).len(),
            successful <= i,
            sorted@.to_multiset() == successful_latencies(outcomes@.take(i as int)).to_multiset(),
            ascending(sorted@),
            total == total_latency(successful_latencies(outcomes@.take(i as int))),
        decreases n - i,
    {
        let ghost before = outcomes@.take(i as int);
        assert(outcomes@.take(i + 1).drop_last() =~= before);
        let (ok, latency) = outcomes[i];
        assert(outcomes@.take(i + 1).last() == (ok, latency));
        let ghost succ_before = successful_latencies(before);
        assert(succ_before.push(latency).drop_last() =~= succ_before);
        if ok {
            proof {
                lemma_total_of_prefix(outcomes@, i + 1);
                assert(total_latency(succ_before.push(latency)) == total + latency@);
            }
            let x = latency.as_nanos();
            let mut pos: usize = 0;
            while pos < sorted.len() && sorted[pos].as_nanos() <= x
                invariant
                    pos <= sorted@.len(),
                    forall|k: int| 0 <= k < pos ==> #[trigger] sorted@[k]@ <= x,
                decreases sorted@.len() - pos,
            {
                pos = pos + 1;
            }
            let ghost old_sorted = sorted@;
            sorted.insert(pos, latency);
            proof {
                assert(sorted@.remove(pos as int) =~= old_sorted);
                assert(sorted@.to_multiset() =~= old_sorted.to_multiset().insert(latency));
                assert forall|a: int, b: int| 0 <= a <= b < sorted@.len() implies sorted@[a]@
                    <= sorted@[b]@ by {
                    if b < pos {
                    } else if a > pos {
                    } else if a == pos && b > pos {
                        assert(sorted@[b] == old_sorted[b - 1]);
                    } else if a < pos && b > pos {
                        assert(sorted@[b] == old_sorted[b - 1]);
                        assert(old_sorted[a]@ <= x);
                    }
                }
            }
            total = total + x;
            successful = successful + 1;
        }
        i = i + 1;
    }
    assert(outcomes@.take(n as int) =~= outcomes@);
    let average = if successful > 0 {
        Span::checked_from_nanos(total / (successful as u128))
    } else {
        None
    };
    LatencySummary { successful, failed: n - successful, sorted, average }
}

/// The `i`-th shortest latency of `sorted`, or zero when there is none.
pub fn percentile(sorted: &[Span], i: usize) -> (p: Span)
    ensures
        i < sorted@.len() ==> p == sorted@[i as int],
        i >= sorted@.len() ==> p@ == 0,
{
    if i < sorted.len() {
        sorted[i]
    } else {
        Span::zero()
    }
}

} // verus!
