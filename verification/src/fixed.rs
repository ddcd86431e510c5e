//! Fixed-point base: scaled integers standing for real numbers.
//!
//! A value `v: i64` stands for the real number `v / UNIT`.  Products of two
//! scaled values are scaled back down with a floor division, so every
//! operation here has an exact mathematical description over `int`.

use vstd::arithmetic::div_mod::lemma_fundamental_div_mod;
use vstd::arithmetic::div_mod::lemma_fundamental_div_mod_converse;
use vstd::prelude::*;

verus! {

/// One fixed-point unit: the scaled representation of the real value `1.0`.
pub const UNIT: i64 = 1_000_000;

/// Scale a widened product back down by one unit (floor division).
pub open spec fn scale_down(n: int) -> int {
    n / (UNIT as int)
}

/// The product of two scaled values, scaled back down to a value.
pub open spec fn fp_mul(a: int, b: int) -> int {
    scale_down(a * b)
}

/// Clamp `v` into the interval `[lo, hi]`.
pub open spec fn clamp_spec(v: int, lo: int, hi: int) -> int {
    if v < lo {
        lo
    } else if v > hi {
        hi
    } else {
        v
    }
}

/// Exec clamp matching `clamp_spec`.
pub fn clamp_i64(v: i64, lo: i64, hi: i64) -> (r: i64)
    requires
        lo <= hi,
    ensures
        r == clamp_spec(v as int, lo as int, hi as int),
        lo <= r <= hi,
{
    if v < lo {
        lo
    } else if v > hi {
        hi
    } else {
        v
    }
}

/// Floor division of a scaled quantity by one unit.
pub fn div_unit(n: i64) -> (r: i64)
    requires
        i64::MIN < n,
    ensures
        r == scale_down(n as int),
{
    let u: u64 = UNIT as u64;
    if n >= 0 {
        let q: u64 = (n as u64) / u;
        proof {
            assert(q == n as int / (UNIT as int));
        }
        q as i64
    } else {
        let m: u64 = ((-n) as u64 + (u - 1)) / u;
        proof {
            let ni = n as int;
            let ui = UNIT as int;
            let mi = m as int;
            // m is the ceiling of (-n)/UNIT, so -m is the floor of n/UNIT.
            assert(mi == ((-ni) + (ui - 1)) / ui);
            lemma_fundamental_div_mod((-ni) + (ui - 1), ui);
            let rem = ((-ni) + (ui - 1)) % ui;
            assert((-ni) + (ui - 1) == ui * mi + rem);
            assert(0 <= rem < ui);
            let r2 = ni - ui * (-mi);
            assert(r2 == (ui - 1) - rem);
            assert(0 <= r2 < ui);
            lemma_fundamental_div_mod_converse(ni, ui, -mi, r2);
            assert(-mi == ni / ui);
        }
        -(m as i64)
    }
}

/// Fixed-point multiply: exec counterpart of `fp_mul`.
///
/// The operand bound keeps the widened product inside `i64`.
pub fn mul_unit(a: i64, b: i64) -> (r: i64)
    requires
        -0x8000_0000 <= a <= 0x8000_0000,
        -0x8000_0000 <= b <= 0x8000_0000,
    ensures
        r == fp_mul(a as int, b as int),
{
    proof {
        assert((a as int) * (b as int) <= 0x4000_0000_0000_0000 && -0x4000_0000_0000_0000 <= (
        a as int) * (b as int)) by (nonlinear_arith)
            requires
                -0x8000_0000 <= a <= 0x8000_0000,
                -0x8000_0000 <= b <= 0x8000_0000,
        ;
    }
    let p: i64 = a * b;
    div_unit(p)
}

/// A product scaled down stays under the same product's plain bound:
/// if `0 <= a <= UNIT` and `0 <= b <= hi`, then `fp_mul(a, b) <= hi`.
pub proof fn lemma_fp_mul_unit_bound(a: int, b: int, hi: int)
    requires
        0 <= a <= UNIT as int,
        0 <= b <= hi,
    ensures
        0 <= fp_mul(a, b) <= hi,
{
    let ui = UNIT as int;
    assert(a * b <= ui * hi) by (nonlinear_arith)
        requires
            0 <= a <= ui,
            0 <= b <= hi,
    ;
    assert(a * b >= 0) by (nonlinear_arith)
        requires
            0 <= a,
            0 <= b,
    ;
    vstd::arithmetic::div_mod::lemma_div_pos_is_pos(a * b, ui);
    vstd::arithmetic::div_mod::lemma_div_is_ordered(a * b, ui * hi, ui);
    vstd::arithmetic::div_mod::lemma_div_multiples_vanish(hi, ui);
}

} // verus!
