//! The client workload of the neural-network demo: how the requests are shared among
//! concurrent clients, the configurations a benchmark compares, the input sizes a CNN
//! takes, and the arrival times of a realistic workload.
use rand::rngs::StdRng;
use rand::{Rng, SeedableRng};
use vstd::prelude::*;

verus! {

/// The seeded random generator of the demo (`rand::rngs::StdRng`).
#[verifier::external_type_specification]
#[verifier::external_body]
pub struct ExStdRng(StdRng);

/// `StdRng::seed_from_u64(seed)`: a generator whose sequence is fixed by `seed`.
#[verifier::external_body]
fn seeded_rng(seed: u64) -> StdRng {
    StdRng::seed_from_u64(seed)
}

/// `rng.gen_range(low..high)`: a value drawn from `[low, high)`; the range must not be
/// empty, on which `gen_range` panics.
#[verifier::external_body]
fn draw_below(rng: &mut StdRng, low: u64, high: u64) -> (r: u64)
    requires
        low < high,
    ensures
        low <= r < high,
{
    rng.gen_range(low..high)
}

/// The requests of client `c` out of `k` sharing `n` requests: each client takes
/// `n / k` consecutive requests, and the last one also takes the remainder.
pub open spec fn client_span(n: nat, k: nat, c: nat) -> (nat, nat) {
    let per = n / k;
    let start = c * per;
    (start, if c + 1 == k { n } else { start + per })
}

/// The index ranges `[start, end)` of the requests of each of `concurrency` clients
/// sharing `num_requests` requests.
pub fn client_ranges(num_requests: usize, concurrency: usize) -> (r: Vec<(usize, usize)>)
    requires
        concurrency > 0,
    ensures
        r.len() == concurrency,
        forall|c: int|
            0 <= c < concurrency ==> {
                let span = client_span(num_requests as nat, concurrency as nat, c as nat);
                #[trigger] r@[c].0 == span.0 && r@[c].1 == span.1
            },
{
    let per = num_requests / concurrency;
    let mut r: Vec<(usize, usize)> = Vec::new();
    let mut c: usize = 0;
    while c < concurrency
        invariant
            c <= concurrency,
            per == num_requests as nat / concurrency as nat,
            r.len() == c,
            forall|i: int|
                0 <= i < c ==> {
                    let span = client_span(num_requests as nat, concurrency as nat, i as nat);
                    #[trigger] r@[i].0 == span.0 && r@[i].1 == span.1
                },
        decreases concurrency - c,
    {
        proof {
            lemma_share_fits(num_requests as nat, concurrency as nat, c as nat);
        }
        let start = c * per;
        let end = if c + 1 == concurrency {
            num_requests
        } else {
            start + per
        };
        r.push((start, end));
        c = c + 1;
    }
    r
}

/// `c` full shares of `n / k` fit in `n`, and so does one more when `c + 1 < k`.
proof fn lemma_share_fits(n: nat, k: nat, c: nat)
    requires
        k > 0,
        c < k,
    ensures
        c * (n / k) + n / k <= n,
        c * (n / k) <= n,
{
    let per = n / k;
    assert(k * per <= n) by (nonlinear_arith)
        requires
            k > 0,
            per == n / k,
    ;
    assert(c * per + per <= k * per) by (nonlinear_arith)
        requires
            c < k,
    ;
}

/// The clients' ranges partition the requests: the first starts at 0, each one ends
/// where the next starts, the last ends at the number of requests, and no range runs
/// backwards.
pub proof fn lemma_client_spans_partition(n: nat, k: nat)
    requires
        k > 0,
    ensures
        client_span(n, k, 0).0 == 0,
        client_span(n, k, (k - 1) as nat).1 == n,
        forall|c: nat| c + 1 < k ==> #[trigger] client_span(n, k, c).1 == client_span(n, k, c + 1).0,
        forall|c: nat| c < k ==> #[trigger] client_span(n, k, c).0 <= client_span(n, k, c).1 <= n,
{
    assert(0 * (n / k) == 0) by (nonlinear_arith);
    assert forall|c: nat| c + 1 < k implies #[trigger] client_span(n, k, c).1 == client_span(
        n,
        k,
        c + 1,
    ).0 by {
        let per = n / k;
        assert((c + 1) * per == c * per + per) by (nonlinear_arith);
    }
    assert forall|c: nat| c < k implies #[trigger] client_span(n, k, c).0 <= client_span(n, k, c).1
        <= n by {
        lemma_share_fits(n, k, c);
    }
}

/// The configurations a benchmark compares, as (name, maximum batch size, maximum
/// latency in ms): no batching, batches of 4, 8 and 16, and the adaptive dispatcher with
/// the requested limit; all under the requested latency bound.
pub fn benchmark_configurations(max_batch_size: usize, max_latency_ms: u64) -> (r: Vec<
    (String, usize, u64),
>)
    ensures
        r.len() == 5,
        r@[0].0@ == "No Batching"@ && r@[0].1 == 1,
        r@[1].0@ == "Small Batches"@ && r@[1].1 == 4,
        r@[2].0@ == "Medium Batches"@ && r@[2].1 == 8,
        r@[3].0@ == "Large Batches"@ && r@[3].1 == 16,
        r@[4].0@ == "Adaptive (CORK)"@ && r@[4].1 == max_batch_size,
        forall|i: int| 0 <= i < 5 ==> #[trigger] r@[i].2 == max_latency_ms,
{
    let mut r: Vec<(String, usize, u64)> = Vec::new();
    r.push(("No Batching".to_string(), 1, max_latency_ms));
    r.push(("Small Batches".to_string(), 4, max_latency_ms));
    r.push(("Medium Batches".to_string(), 8, max_latency_ms));
    r.push(("Large Batches".to_string(), 16, max_latency_ms));
    r.push(("Adaptive (CORK)".to_string(), max_batch_size, max_latency_ms));
    r
}

/// A CNN input size: `size` rounded up to a multiple of 32.
pub fn cnn_input_size(size: u32) -> (r: u32)
    requires
        size + 31 <= u32::MAX,
    ensures
        r == (size + 31) / 32 * 32,
        r % 32 == 0,
        size <= r < size + 32,
{
    ((size + 31) / 32) * 32
}

/// The range `[low, high)` of the gap before the `i`-th arrival of a realistic workload,
/// in ms, by the phase `i % 20`: a burst (10–50), a normal period (50–150), a slow period
/// (150–300), another burst (5–20), and a very slow period (200–500).
pub open spec fn arrival_gap_range(i: int) -> (u64, u64) {
    let phase = i % 20;
    if phase <= 5 {
        (10, 50)
    } else if phase <= 10 {
        (50, 150)
    } else if phase <= 15 {
        (150, 300)
    } else if phase <= 17 {
        (5, 20)
    } else {
        (200, 500)
    }
}

/// The gap before the `i`-th arrival lies in its phase's range.
pub open spec fn gap_in_phase(times: Seq<u64>, i: int) -> bool {
    let prev: int = if i == 0 { 0 } else { times[i - 1] as int };
    let bounds = arrival_gap_range(i);
    bounds.0 <= times[i] - prev < bounds.1
}

/// Every gap between arrivals lies in its phase's range.
pub open spec fn gaps_within_phases(times: Seq<u64>) -> bool {
    forall|i: int| 0 <= i < times.len() ==> #[trigger] gap_in_phase(times, i)
}

/// The arrival times of a workload.
pub open spec fn arrival_times<T>(timed: Seq<(T, u64)>) -> Seq<u64> {
    timed.map_values(|p: (T, u64)| p.1)
}

/// `arrival_gap_range` as numbers.
fn arrival_gap_bounds(i: usize) -> (r: (u64, u64))
    ensures
        r == arrival_gap_range(i as int),
{
    let phase = i % 20;
    if phase <= 5 {
        (10, 50)
    } else if phase <= 10 {
        (50, 150)
    } else if phase <= 15 {
        (150, 300)
    } else if phase <= 17 {
        (5, 20)
    } else {
        (200, 500)
    }
}

/// Gives each request a time of arrival, in ms from the start: each gap is drawn from a
/// generator seeded with 456, within the range of the request's phase.
pub fn generate_realistic_workload_pattern<T>(base_requests: Vec<T>) -> (r: Vec<(T, u64)>)
    requires
        base_requests.len() * 500 <= u64::MAX,
    ensures
        r.len() == base_requests.len(),
        forall|i: int| 0 <= i < r.len() ==> (#[trigger] r@[i]).0 == base_requests@[i],
        gaps_within_phases(arrival_times(r@)),
{
    let n = base_requests.len();
    let mut rng = seeded_rng(456);
    let mut times: Vec<u64> = Vec::new();
    let mut current_time: u64 = 0;
    let mut i: usize = 0;
    while i < n
        invariant
            i <= n,
            n * 500 <= u64::MAX,
            times.len() == i,
            current_time <= 500 * i,
            i > 0 ==> current_time == times@[i - 1],
            i == 0 ==> current_time == 0,
            gaps_within_phases(times@),
        decreases n - i,
    {
        let (low, high) = arrival_gap_bounds(i);
        let delay = draw_below(&mut rng, low, high);
        current_time = current_time + delay;
        let ghost before = times@;
        times.push(current_time);
        assert(gap_in_phase(times@, i as int));
        assert forall|j: int| 0 <= j < times@.len() implies #[trigger] gap_in_phase(times@, j) by {
            if j < i {
                assert(gap_in_phase(before, j));
            }
        }
        i = i + 1;
    }
    // Pair the requests with their times: take them from the back, then restore the order.
    let mut rest = base_requests;
    let mut reversed: Vec<(T, u64)> = Vec::new();
    while rest.len() > 0
        invariant
            n == base_requests.len(),
            times.len() == n,
            rest@ == base_requests@.take(rest.len() as int),
            reversed.len() + rest.len() == n,
            forall|k: int|
                0 <= k < reversed.len() ==> #[trigger] reversed@[k] == (
                    base_requests@[n - 1 - k],
                    times@[n - 1 - k],
                ),
        decreases rest.len(),
    {
        let ghost before = rest@;
        let item = rest.pop().unwrap();
        assert(rest@ =~= base_requests@.take(rest.len() as int));
        assert(item == before[rest.len() as int]);
        let t = times[rest.len()];
        reversed.push((item, t));
    }
    let mut r: Vec<(T, u64)> = Vec::new();
    while reversed.len() > 0
        invariant
            n == base_requests.len(),
            times.len() == n,
            r.len() + reversed.len() == n,
            forall|k: int|
                0 <= k < reversed.len() ==> #[trigger] reversed@[k] == (
                    base_requests@[n - 1 - k],
                    times@[n - 1 - k],
                ),
            forall|k: int|
                0 <= k < r.len() ==> #[trigger] r@[k] == (base_requests@[k], times@[k]),
        decreases reversed.len(),
    {
        let pair = reversed.pop().unwrap();
        r.push(pair);
    }
    assert(arrival_times(r@) =~= times@);
    r
}

/// In a workload whose gaps lie in their phases' ranges, arrivals come strictly one
/// after another.
pub proof fn lemma_arrivals_increase(times: Seq<u64>)
    requires
        gaps_within_phases(times),
    ensures
        forall|i: int, j: int| 0 <= i < j < times.len() ==> times[i] < times[j],
    decreases times.len(),
{
    if times.len() > 0 {
        let init = times.drop_last();
        assert forall|i: int| 0 <= i < init.len() implies #[trigger] gap_in_phase(init, i) by {
            assert(gap_in_phase(times, i));
        }
        lemma_arrivals_increase(init);
        let last = times.len() - 1;
        assert(gap_in_phase(times, last));
        if last > 0 {
            assert(times[last - 1] < times[last]);
        }
        assert forall|i: int, j: int| 0 <= i < j < times.len() implies times[i] < times[j] by {
            if j < last {
                assert(init[i] < init[j]);
            } else if i < last - 1 {
                assert(init[i] < init[last - 1]);
            }
        }
    }
}

} // verus!
