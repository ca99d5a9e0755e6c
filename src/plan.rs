use vstd::prelude::*;
use vstd::arithmetic::div_mod::{lemma_div_multiples_vanish, lemma_fundamental_div_mod};

verus! {

/// Spacing between planned offsets, in microseconds.
pub const STRIDE_MICROS: i64 = 10_000;

/// Fixed margin before the boundary, added to half the round-trip time.
pub const LEAD_MICROS: i64 = 500_000;

/// Fixed margin after the boundary.
pub const TAIL_MICROS: i64 = 100_000;

/// The earliest offset the window admits for a round-trip time.
pub open spec fn window_start(rtt_micros: u64) -> int {
    -((rtt_micros / 2) as int + LEAD_MICROS)
}

/// An offset the plan must hold: a multiple of the stride within the window.
pub open spec fn in_window(rtt_micros: u64, x: int) -> bool {
    window_start(rtt_micros) <= x <= TAIL_MICROS && x % (STRIDE_MICROS as int) == 0
}

/// How many strides the first planned offset lies before the boundary.
pub open spec fn strides_before(rtt_micros: u64) -> int {
    ((rtt_micros / 2) as int + LEAD_MICROS) / (STRIDE_MICROS as int)
}

/// The planned offsets: every multiple of the stride in the window, ascending.
pub open spec fn planned_offsets(rtt_micros: u64) -> Seq<i64> {
    let k = strides_before(rtt_micros);
    Seq::new(
        (k + TAIL_MICROS / STRIDE_MICROS + 1) as nat,
        |i: int| ((i - k) * STRIDE_MICROS) as i64,
    )
}

/// The offsets from the next second boundary at which to probe, for a
/// measured round-trip time: each multiple of the stride from
/// `-(rtt/2 + LEAD_MICROS)` up to `TAIL_MICROS`, in increasing order.
pub fn plan(rtt_micros: u64) -> (r: Vec<i64>)
    requires
        rtt_micros <= i64::MAX as u64,
    ensures
        r@ == planned_offsets(rtt_micros),
{
    let half: i64 = (rtt_micros / 2) as i64;
    let k: i64 = (half + LEAD_MICROS) / STRIDE_MICROS;
    let ghost count: int = k + 11;
    assert(TAIL_MICROS / STRIDE_MICROS == 10);
    let mut offsets: Vec<i64> = Vec::new();
    let mut next: i64 = -(k * STRIDE_MICROS);
    while next <= TAIL_MICROS
        invariant
            k == strides_before(rtt_micros),
            0 <= k <= i64::MAX / STRIDE_MICROS,
            count == k + 11,
            offsets@.len() <= count,
            next == (offsets@.len() - k) * STRIDE_MICROS,
            next <= TAIL_MICROS + STRIDE_MICROS,
            offsets@ == planned_offsets(rtt_micros).take(offsets@.len() as int),
        decreases TAIL_MICROS + STRIDE_MICROS - next,
    {
        offsets.push(next);
        next = next + STRIDE_MICROS;
    }
    assert(offsets@ =~= planned_offsets(rtt_micros));
    offsets
}

/// The plan is strictly increasing, so holds no offset twice; each offset is
/// a multiple of the stride inside the window; the last one is `TAIL_MICROS`,
/// past the boundary; and every multiple of the stride in the window is
/// planned.
pub proof fn lemma_plan_shape(rtt_micros: u64)
    requires
        rtt_micros <= i64::MAX as u64,
    ensures
        ({
            let p = planned_offsets(rtt_micros);
            &&& p.len() > 0
            &&& forall|i: int, j: int| 0 <= i < j < p.len() ==> p[i] < p[j]
            &&& p.no_duplicates()
            &&& forall|i: int| 0 <= i < p.len() ==> #[trigger] in_window(rtt_micros, p[i] as int)
            &&& p.last() == TAIL_MICROS
            &&& p.last() >= 0
            &&& forall|x: int| #[trigger]
                in_window(rtt_micros, x) ==> exists|i: int| 0 <= i < p.len() && p[i] == x
        }),
{
    let p = planned_offsets(rtt_micros);
    let k = strides_before(rtt_micros);
    let s = STRIDE_MICROS as int;
    let n = (rtt_micros / 2) as int + LEAD_MICROS;
    assert(k * s <= n < (k + 1) * s) by (nonlinear_arith)
        requires
            k == n / s,
            s > 0,
            n >= 0,
    ;
    assert forall|i: int, j: int| 0 <= i < j < p.len() implies p[i] < p[j] by {
        assert((i - k) * s < (j - k) * s) by (nonlinear_arith)
            requires
                i < j,
                s > 0,
        ;
    }
    assert forall|i: int| 0 <= i < p.len() implies #[trigger] in_window(
        rtt_micros,
        p[i] as int,
    ) by {
        assert(((i - k) * s) % s == 0) by (nonlinear_arith)
            requires
                s > 0,
        ;
        assert((i - k) * s >= -k * s) by (nonlinear_arith)
            requires
                i >= 0,
                s > 0,
        ;
        assert((i - k) * s <= 10 * s) by (nonlinear_arith)
            requires
                i <= k + 10,
                s > 0,
        ;
    }
    assert(p.no_duplicates()) by {
        assert forall|i: int, j: int| 0 <= i < p.len() && 0 <= j < p.len() && i != j implies p[i]
            != p[j] by {
            if i < j {
                assert(p[i] < p[j]);
            } else {
                assert(p[j] < p[i]);
            }
        }
    }
    assert forall|x: int| #[trigger]
        in_window(rtt_micros, x) implies exists|i: int| 0 <= i < p.len() && p[i] == x by {
        let m = x / s;
        assert(x == m * s) by (nonlinear_arith)
            requires
                x % s == 0,
                m == x / s,
                s > 0,
        ;
        assert(-k <= m <= 10) by (nonlinear_arith)
            requires
                x == m * s,
                -n <= x <= 10 * s,
                n < (k + 1) * s,
                s > 0,
        ;
        let i = m + k;
        assert(p[i] == x);
    }
}

/// When half the round-trip time is a whole number of strides, the plan starts
/// exactly at the window's lower bound `-(rtt/2 + LEAD_MICROS)`.
pub proof fn lemma_plan_starts_at_window_start(rtt_micros: u64)
    requires
        rtt_micros <= i64::MAX as u64,
        (rtt_micros / 2) % (STRIDE_MICROS as u64) == 0,
    ensures
        planned_offsets(rtt_micros)[0] == window_start(rtt_micros),
{
    let s = STRIDE_MICROS as int;
    let h = (rtt_micros / 2) as int;
    let q = h / s + 50;
    lemma_fundamental_div_mod(h, s);
    assert(h + LEAD_MICROS == s * q);
    lemma_div_multiples_vanish(q, s);
}

} // verus!
