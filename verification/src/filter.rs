//! Single-pole low-pass filter over an interleaved multi-channel buffer.
//!
//! Each channel lane is smoothed independently with the recurrence
//! `y[i] = a * x[i] + (1 - a) * y[i - channels]`, where the smoothing
//! coefficient is `a = dt / (rc + dt)` for an elapsed time per batch `dt`
//! and a time constant `rc` (both in micro-seconds, which coincide with
//! micro-units of seconds).

use crate::fixed::div_unit;
use crate::fixed::scale_down;
use crate::fixed::UNIT;
use vstd::arithmetic::div_mod::lemma_div_is_ordered;
use vstd::arithmetic::div_mod::lemma_div_multiples_vanish;
use vstd::arithmetic::div_mod::lemma_div_pos_is_pos;
use vstd::arithmetic::div_mod::lemma_hoist_over_denominator;
use vstd::arithmetic::mul::lemma_mul_inequality;
use vstd::math::abs;
use vstd::prelude::*;

verus! {

/// Largest sample magnitude the filter accepts; keeps every intermediate
/// product inside `i64`.
pub const SAMPLE_LIMIT: i64 = 0x8000_0000;

/// Largest time value (micro-seconds) accepted when deriving the smoothing
/// coefficient; keeps `dt * UNIT` inside `i64`.
pub const TIME_LIMIT: i64 = 0x40_0000_0000;

/// The smoothing coefficient `a = dt / (rc + dt)`, as a scaled value in
/// `[0, UNIT]`.
pub open spec fn alpha_spec(dt: int, rc: int) -> int {
    (dt * (UNIT as int)) / (rc + dt)
}

/// One filter step: the new lane value from the current input `xi` and the
/// previous lane value `prev`, with smoothing coefficient `a`.
pub open spec fn filter_step(a: int, xi: int, prev: int) -> int {
    scale_down(a * xi + ((UNIT as int) - a) * prev)
}

/// The filter's output at index `i`: the first `ch` entries start their lane
/// from rest (a previous value of zero), later entries recur on the value
/// `ch` positions back.
pub open spec fn filter_at(a: int, ch: int, x: Seq<i64>, i: int) -> int
    decreases i when 0 < ch
{
    filter_step(a, x[i] as int, if i < ch { 0 } else { filter_at(a, ch, x, i - ch) })
}

/// Exec computation of the smoothing coefficient.
pub fn alpha(dt: i64, rc: i64) -> (a: i64)
    requires
        0 <= dt <= TIME_LIMIT,
        0 <= rc <= TIME_LIMIT,
        0 < dt + rc,
    ensures
        a == alpha_spec(dt as int, rc as int),
        0 <= a <= UNIT,
{
    proof {
        let di = dt as int;
        let ri = rc as int;
        let ui = UNIT as int;
        lemma_div_pos_is_pos(di * ui, ri + di);
        // dt * UNIT <= (rc + dt) * UNIT, so the quotient is at most UNIT.
        lemma_mul_inequality(di, ri + di, ui);
        lemma_div_is_ordered(di * ui, (ri + di) * ui, ri + di);
        assert((ri + di) * ui == ui * (ri + di)) by (nonlinear_arith);
        lemma_div_multiples_vanish(ui, ri + di);
        assert(di * ui <= (TIME_LIMIT as int) * (UNIT as int)) by (nonlinear_arith)
            requires
                0 <= di <= TIME_LIMIT as int,
                0 < ui == UNIT as int,
        ;
    }
    let num: u64 = (dt as u64) * (UNIT as u64);
    let den: u64 = (rc as u64) + (dt as u64);
    let q: u64 = num / den;
    q as i64
}

/// Low-pass filter over an interleaved buffer.
///
/// Returns a buffer of the input's length whose entries follow
/// [`filter_at`]; an input shorter than one frame yields an empty buffer.
pub fn low_pass(samples: &Vec<i64>, dt: i64, rc: i64, channels: usize) -> (out: Vec<i64>)
    requires
        0 <= dt <= TIME_LIMIT,
        0 <= rc <= TIME_LIMIT,
        0 < dt + rc,
        0 < channels,
        forall|i: int|
            0 <= i < samples@.len() ==> -SAMPLE_LIMIT <= #[trigger] samples@[i] <= SAMPLE_LIMIT,
    ensures
        out@.len() == if samples@.len() >= channels {
            samples@.len() as int
        } else {
            0int
        },
        forall|i: int|
            0 <= i < out@.len() ==> #[trigger] out@[i] == filter_at(
                alpha_spec(dt as int, rc as int),
                channels as int,
                samples@,
                i,
            ),
        forall|i: int| 0 <= i < out@.len() ==> -SAMPLE_LIMIT <= #[trigger] out@[i] <= SAMPLE_LIMIT,
{
    let len = samples.len();
    let mut out: Vec<i64> = Vec::new();
    if len < channels {
        return out;
    }
    let a = alpha(dt, rc);
    let ghost ai = a as int;
    let ghost ch = channels as int;
    let mut i: usize = 0;
    while i < channels
        invariant
            0 <= i <= channels <= len == samples@.len(),
            out@.len() == i,
            ai == a as int,
            ch == channels as int,
            a == alpha_spec(dt as int, rc as int),
            0 <= a <= UNIT,
            forall|j: int|
                0 <= j < samples@.len() ==> -SAMPLE_LIMIT <= #[trigger] samples@[j] <= SAMPLE_LIMIT,
            forall|j: int| 0 <= j < i ==> #[trigger] out@[j] == filter_at(ai, ch, samples@, j),
            forall|j: int| 0 <= j < i ==> -SAMPLE_LIMIT <= #[trigger] out@[j] <= SAMPLE_LIMIT,
        decreases channels - i,
    {
        let xi = samples[i];
        proof {
            lemma_filter_step_bounded(ai, xi as int, 0, SAMPLE_LIMIT as int);
        }
        let y = div_unit(a * xi);
        proof {
            assert((UNIT as int - ai) * 0int == 0int);
            assert(y == filter_at(ai, ch, samples@, i as int));
        }
        out.push(y);
        i = i + 1;
    }
    while i < len
        invariant
            channels <= i <= len == samples@.len(),
            0 < channels,
            out@.len() == i,
            ai == a as int,
            ch == channels as int,
            a == alpha_spec(dt as int, rc as int),
            0 <= a <= UNIT,
            forall|j: int|
                0 <= j < samples@.len() ==> -SAMPLE_LIMIT <= #[trigger] samples@[j] <= SAMPLE_LIMIT,
            forall|j: int| 0 <= j < i ==> #[trigger] out@[j] == filter_at(ai, ch, samples@, j),
            forall|j: int| 0 <= j < i ==> -SAMPLE_LIMIT <= #[trigger] out@[j] <= SAMPLE_LIMIT,
        decreases len - i,
    {
        let xi = samples[i];
        let prev = out[i - channels];
        proof {
            lemma_filter_step_bounded(ai, xi as int, prev as int, SAMPLE_LIMIT as int);
        }
        let y = div_unit(a * xi + (UNIT - a) * prev);
        proof {
            assert(y == filter_at(ai, ch, samples@, i as int));
        }
        out.push(y);
        i = i + 1;
    }
    out
}

/// A filter step keeps lane values inside any symmetric bound that holds for
/// its inputs, and its intermediate products inside `i64`.
pub proof fn lemma_filter_step_bounded(a: int, xi: int, prev: int, bound: int)
    requires
        0 <= a <= UNIT,
        0 < bound <= SAMPLE_LIMIT,
        -bound <= xi <= bound,
        -bound <= prev <= bound,
    ensures
        -bound <= filter_step(a, xi, prev) <= bound,
        -(0x4000_0000_0000_0000) < a * xi + ((UNIT as int) - a) * prev < 0x4000_0000_0000_0000,
        -(0x4000_0000_0000_0000) < a * xi < 0x4000_0000_0000_0000,
        -(0x4000_0000_0000_0000) < ((UNIT as int) - a) * prev < 0x4000_0000_0000_0000,
{
    let ui = UNIT as int;
    let n = a * xi + (ui - a) * prev;
    assert(-(ui * bound) <= a * xi + (ui - a) * prev <= ui * bound) by (nonlinear_arith)
        requires
            0 <= a <= ui,
            -bound <= xi <= bound,
            -bound <= prev <= bound,
            0 < bound,
    ;
    assert(-(0x4000_0000_0000_0000) < a * xi < 0x4000_0000_0000_0000) by (nonlinear_arith)
        requires
            0 <= a <= ui,
            ui == UNIT as int,
            -bound <= xi <= bound,
            0 < bound <= SAMPLE_LIMIT,
    ;
    assert(-(0x4000_0000_0000_0000) < (ui - a) * prev < 0x4000_0000_0000_0000) by (nonlinear_arith)
        requires
            0 <= a <= ui,
            ui == UNIT as int,
            -bound <= prev <= bound,
            0 < bound <= SAMPLE_LIMIT,
    ;
    assert(ui * bound < 0x4000_0000_0000_0000) by (nonlinear_arith)
        requires
            ui == UNIT as int,
            0 < bound <= SAMPLE_LIMIT,
    ;
    lemma_div_is_ordered(-(ui * bound), n, ui);
    lemma_div_is_ordered(n, ui * bound, ui);
    lemma_div_multiples_vanish(bound, ui);
    lemma_div_multiples_vanish(-bound, ui);
}

/// Steady-state pass-through: a lane already at the input's constant value
/// stays there exactly.
pub proof fn lemma_filter_steady(a: int, k: int)
    requires
        0 <= a <= UNIT,
    ensures
        filter_step(a, k, k) == k,
{
    let ui = UNIT as int;
    assert(a * k + (ui - a) * k == ui * k) by (nonlinear_arith);
    lemma_div_multiples_vanish(k, ui);
}

/// A filter step never moves a lane away from a constant input, and makes
/// strict progress toward it while the gap is at least `UNIT / a`.
pub proof fn lemma_filter_step_approaches(a: int, k: int, prev: int)
    requires
        1 <= a <= UNIT,
        -SAMPLE_LIMIT <= k <= SAMPLE_LIMIT,
        -SAMPLE_LIMIT <= prev <= SAMPLE_LIMIT,
    ensures
        abs(filter_step(a, k, prev) - k) <= abs(prev - k),
        a * abs(prev - k) >= UNIT ==> abs(filter_step(a, k, prev) - k) < abs(prev - k),
{
    let ui = UNIT as int;
    let d = prev - k;
    let m = (ui - a) * d;
    assert(a * k + (ui - a) * prev == m + k * ui) by (nonlinear_arith)
        requires
            m == (ui - a) * (prev - k),
    ;
    lemma_hoist_over_denominator(m, k, UNIT as nat);
    assert(filter_step(a, k, prev) == k + m / ui);
    let e = m / ui;
    if d == 0 {
        assert(m == 0) by (nonlinear_arith)
            requires
                m == (ui - a) * d,
                d == 0,
        ;
        assert(e == 0) by {
            vstd::arithmetic::div_mod::lemma_div_of0(ui);
        }
    } else if d > 0 {
        assert(0 <= m) by (nonlinear_arith)
            requires
                m == (ui - a) * d,
                0 <= ui - a,
                0 < d,
        ;
        lemma_div_pos_is_pos(m, ui);
        assert(m <= ui * d) by (nonlinear_arith)
            requires
                m == (ui - a) * d,
                1 <= a,
                ui - a < ui,
                0 < d,
        ;
        lemma_div_is_ordered(m, ui * d, ui);
        lemma_div_multiples_vanish(d, ui);
        if a * d >= ui {
            assert(m <= ui * (d - 1)) by (nonlinear_arith)
                requires
                    m == (ui - a) * d,
                    a * d >= ui,
            ;
            lemma_div_is_ordered(m, ui * (d - 1), ui);
            lemma_div_multiples_vanish(d - 1, ui);
        }
    } else {
        assert(m <= 0) by (nonlinear_arith)
            requires
                m == (ui - a) * d,
                0 <= ui - a,
                d < 0,
        ;
        assert(ui * d <= m) by (nonlinear_arith)
            requires
                m == (ui - a) * d,
                1 <= a <= ui,
                d < 0,
        ;
        lemma_div_is_ordered(ui * d, m, ui);
        lemma_div_multiples_vanish(d, ui);
        assert(e <= 0) by {
            lemma_div_is_ordered(m, 0, ui);
            vstd::arithmetic::div_mod::lemma_div_of0(ui);
        }
        if a * abs(d) >= ui {
            assert(ui * (d + 1) <= m) by (nonlinear_arith)
                requires
                    m == (ui - a) * d,
                    a * (-d) >= ui,
                    d < 0,
                    abs(d) == -d,
            ;
            lemma_div_is_ordered(ui * (d + 1), m, ui);
            lemma_div_multiples_vanish(d + 1, ui);
        }
    }
}

/// Every filter output stays inside the bound that holds for the input
/// samples.
pub proof fn lemma_filter_at_bounded(a: int, ch: int, x: Seq<i64>, i: int, bound: int)
    requires
        0 <= a <= UNIT,
        0 < ch,
        0 < bound <= SAMPLE_LIMIT,
        0 <= i < x.len(),
        forall|j: int| 0 <= j < x.len() ==> -bound <= #[trigger] x[j] <= bound,
    ensures
        -bound <= filter_at(a, ch, x, i) <= bound,
    decreases i,
{
    if i < ch {
        lemma_filter_step_bounded(a, x[i] as int, 0, bound);
    } else {
        lemma_filter_at_bounded(a, ch, x, i - ch, bound);
        lemma_filter_step_bounded(a, x[i] as int, filter_at(a, ch, x, i - ch), bound);
    }
}

/// Steady-state convergence on a constant input: along each channel lane
/// the filter output never moves away from the input's constant value, and
/// makes strict progress toward it while the remaining gap is at least
/// `UNIT / a`.  Together with [`lemma_filter_steady`], the lane settles at
/// the constant value (to within the fixed-point resolution) once the
/// buffer is long enough.
pub proof fn lemma_filter_constant_converges(a: int, ch: int, x: Seq<i64>, k: int, i: int)
    requires
        1 <= a <= UNIT,
        0 < ch,
        -SAMPLE_LIMIT <= k <= SAMPLE_LIMIT,
        ch <= i < x.len(),
        forall|j: int| 0 <= j < x.len() ==> #[trigger] x[j] == k,
    ensures
        abs(filter_at(a, ch, x, i) - k) <= abs(filter_at(a, ch, x, i - ch) - k),
        a * abs(filter_at(a, ch, x, i - ch) - k) >= UNIT ==> abs(filter_at(a, ch, x, i) - k) < abs(
            filter_at(a, ch, x, i - ch) - k,
        ),
{
    let bound: int = if -1 <= k <= 1 {
        1
    } else {
        abs(k) as int
    };
    assert(forall|j: int| 0 <= j < x.len() ==> -bound <= #[trigger] x[j] <= bound);
    lemma_filter_at_bounded(a, ch, x, i - ch, bound);
    let prev = filter_at(a, ch, x, i - ch);
    lemma_filter_step_approaches(a, k, prev);
    assert(x[i] == k);
    assert(filter_at(a, ch, x, i) == filter_step(a, k, prev));
}

} // verus!
