use vstd::prelude::*;

verus! {

/// How many round trips the latency estimate averages.
pub const ROUND_TRIPS: usize = 5;

/// The total of a sequence of durations.
pub open spec fn total(d: Seq<u64>) -> int
    decreases d.len(),
{
    if d.len() == 0 {
        0
    } else {
        total(d.drop_last()) + d.last()
    }
}

proof fn lemma_total_bounded(d: Seq<u64>)
    ensures
        0 <= total(d) <= d.len() * (u64::MAX as int),
    decreases d.len(),
{
    if d.len() > 0 {
        lemma_total_bounded(d.drop_last());
    }
}

/// The round-trip time estimate, in microseconds: the mean of the measured
/// round trips, rounded down.
pub fn estimate_rtt(round_trips: &Vec<u64>) -> (r: u64)
    requires
        round_trips@.len() > 0,
    ensures
        r == total(round_trips@) / (round_trips@.len() as int),
{
    let n = round_trips.len();
    let mut sum: u128 = 0;
    let mut i: usize = 0;
    while i < n
        invariant
            n == round_trips@.len(),
            i <= n,
            sum == total(round_trips@.take(i as int)),
        decreases n - i,
    {
        assert(round_trips@.take(i + 1).drop_last() =~= round_trips@.take(i as int));
        proof {
            lemma_total_bounded(round_trips@.take(i as int));
            assert(i * (u64::MAX as int) <= 0x1_0000_0000_0000_0000 * 0x1_0000_0000_0000_0000 - 0x1_0000_0000_0000_0000) by (nonlinear_arith)
                requires
                    i < 0x1_0000_0000_0000_0000,
            ;
        }
        sum = sum + round_trips[i] as u128;
        i = i + 1;
    }
    assert(round_trips@.take(n as int) =~= round_trips@);
    proof {
        lemma_total_bounded(round_trips@);
        let t = sum as int;
        assert(t / (n as int) <= u64::MAX) by (nonlinear_arith)
            requires
                0 <= t <= n * (u64::MAX as int),
                n > 0,
        ;
    }
    (sum / n as u128) as u64
}

/// A link whose every round trip takes the same time is estimated at exactly
/// that time.
pub proof fn lemma_steady_latency_estimate(d: Seq<u64>, latency: u64)
    requires
        d.len() > 0,
        forall|i: int| 0 <= i < d.len() ==> d[i] == latency,
    ensures
        total(d) / (d.len() as int) == latency,
{
    lemma_total_constant(d, latency);
    let n = d.len() as int;
    assert((n * latency) / n == latency) by (nonlinear_arith)
        requires
            n > 0,
    ;
}

proof fn lemma_total_constant(d: Seq<u64>, latency: u64)
    requires
        forall|i: int| 0 <= i < d.len() ==> d[i] == latency,
    ensures
        total(d) == d.len() * latency,
    decreases d.len(),
{
    if d.len() > 0 {
        lemma_total_constant(d.drop_last(), latency);
        assert(total(d) == (d.len() - 1) * latency + latency);
        assert((d.len() - 1) * latency + latency == d.len() * latency) by (nonlinear_arith);
    }
}

} // verus!
