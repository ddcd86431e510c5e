//! Per-channel RMS power extraction and cross-channel averaging.
//!
//! A buffer of interleaved samples is split into whole frames; for each
//! channel the mean of the squared samples over those frames is taken, its
//! integer square root is the channel's RMS power, clamped into `[0, UNIT]`.
//! The cross-channel loudness is the arithmetic mean of the channel powers.

use crate::fixed::clamp_spec;
use crate::fixed::UNIT;
use vstd::arithmetic::div_mod::lemma_div_is_ordered;
use vstd::arithmetic::div_mod::lemma_div_multiples_vanish;
use vstd::arithmetic::div_mod::lemma_div_pos_is_pos;
use vstd::arithmetic::div_mod::lemma_fundamental_div_mod;
use vstd::prelude::*;

verus! {

/// `r` is the integer square root of `n`.
pub open spec fn is_isqrt(r: int, n: int) -> bool {
    &&& 0 <= r
    &&& r * r <= n
    &&& n < (r + 1) * (r + 1)
}

/// The integer square root, defined by counting up.
pub open spec fn isqrt_spec(n: int) -> int
    decreases n when 0 <= n
{
    if n <= 0 {
        0
    } else {
        let r = isqrt_spec(n - 1);
        if (r + 1) * (r + 1) <= n {
            r + 1
        } else {
            r
        }
    }
}

/// Sum of the squares of channel `c`'s samples over the first `n` frames of
/// an interleaved buffer.
pub open spec fn lane_square_sum(x: Seq<i64>, ch: int, c: int, n: int) -> int
    decreases n when 0 <= n
{
    if n <= 0 {
        0
    } else {
        lane_square_sum(x, ch, c, n - 1) + (x[(n - 1) * ch + c] as int) * (x[(n - 1) * ch
            + c] as int)
    }
}

/// The number of whole frames in an interleaved buffer.
pub open spec fn frame_count(x: Seq<i64>, ch: int) -> int {
    (x.len() as int) / ch
}

/// Mean square of channel `c` over all whole frames.
pub open spec fn lane_mean_square(x: Seq<i64>, ch: int, c: int) -> int {
    lane_square_sum(x, ch, c, frame_count(x, ch)) / frame_count(x, ch)
}

/// The RMS power of channel `c`, clamped into `[0, UNIT]`.
pub open spec fn channel_power(x: Seq<i64>, ch: int, c: int) -> int {
    clamp_spec(isqrt_spec(lane_mean_square(x, ch, c)), 0, UNIT as int)
}

/// Sum of the first `n` entries of a buffer.
pub open spec fn seq_sum(x: Seq<i64>, n: int) -> int
    decreases n when 0 <= n
{
    if n <= 0 {
        0
    } else {
        seq_sum(x, n - 1) + x[n - 1]
    }
}

/// `isqrt_spec` really is the integer square root.
pub proof fn lemma_isqrt_spec_correct(n: int)
    requires
        0 <= n,
    ensures
        is_isqrt(isqrt_spec(n), n),
    decreases n,
{
    if n == 0 {
    } else {
        lemma_isqrt_spec_correct(n - 1);
        let r = isqrt_spec(n - 1);
        assert(is_isqrt(isqrt_spec(n), n)) by (nonlinear_arith)
            requires
                0 <= r,
                r * r <= n - 1,
                n - 1 < (r + 1) * (r + 1),
                isqrt_spec(n) == if (r + 1) * (r + 1) <= n {
                    r + 1
                } else {
                    r
                },
        ;
    }
}

/// Two integer square roots of the same number are equal.
pub proof fn lemma_isqrt_unique(r1: int, r2: int, n: int)
    requires
        is_isqrt(r1, n),
        is_isqrt(r2, n),
    ensures
        r1 == r2,
{
    assert(r1 == r2) by (nonlinear_arith)
        requires
            0 <= r1,
            0 <= r2,
            r1 * r1 <= n,
            n < (r1 + 1) * (r1 + 1),
            r2 * r2 <= n,
            n < (r2 + 1) * (r2 + 1),
    ;
}

/// Integer square root by binary search.
pub fn isqrt(n: u64) -> (r: u64)
    ensures
        is_isqrt(r as int, n as int),
        r == isqrt_spec(n as int),
{
    let mut lo: u64 = 0;
    let mut hi: u64 = 0x1_0000_0000;
    proof {
        assert((0x1_0000_0000int) * (0x1_0000_0000int) > u64::MAX);
    }
    while lo + 1 < hi
        invariant
            lo < hi <= 0x1_0000_0000,
            (lo as int) * (lo as int) <= n as int,
            (n as int) < (hi as int) * (hi as int),
        decreases hi - lo,
    {
        let mid = lo + (hi - lo) / 2;
        proof {
            assert(0 <= (mid as int) * (mid as int) <= 0x1_0000_0000_0000_0000int)
                by (nonlinear_arith)
                requires
                    0 <= mid as int <= 0x1_0000_0000int,
            ;
        }
        if (mid as u128) * (mid as u128) <= n as u128 {
            lo = mid;
        } else {
            hi = mid;
        }
    }
    proof {
        lemma_isqrt_spec_correct(n as int);
        lemma_isqrt_unique(lo as int, isqrt_spec(n as int), n as int);
    }
    lo
}

/// Per-channel RMS power of an interleaved buffer.
///
/// Needs at least one whole frame; a trailing partial frame is ignored.
pub fn calculate_power(samples: &Vec<i64>, channels: usize) -> (out: Vec<i64>)
    requires
        0 < channels <= samples@.len(),
        forall|i: int|
            0 <= i < samples@.len() ==> -crate::filter::SAMPLE_LIMIT <= #[trigger] samples@[i]
                <= crate::filter::SAMPLE_LIMIT,
    ensures
        out@.len() == channels,
        forall|c: int|
            0 <= c < channels ==> #[trigger] out@[c] == channel_power(
                samples@,
                channels as int,
                c,
            ),
        forall|c: int| 0 <= c < channels ==> 0 <= #[trigger] out@[c] <= UNIT,
{
    let len = samples.len();
    let frames = len / channels;
    proof {
        lemma_div_pos_is_pos(len as int, channels as int);
        assert(frames >= 1) by {
            lemma_div_is_ordered(channels as int, len as int, channels as int);
            vstd::arithmetic::div_mod::lemma_div_by_self(channels as int);
        }
        lemma_fundamental_div_mod(len as int, channels as int);
    }
    let mut out: Vec<i64> = Vec::new();
    let mut c: usize = 0;
    while c < channels
        invariant
            0 <= c <= channels,
            0 < channels <= samples@.len(),
            len == samples@.len(),
            frames == (len as int) / (channels as int),
            1 <= frames,
            (frames as int) * (channels as int) <= len as int,
            forall|i: int|
                0 <= i < samples@.len() ==> -crate::filter::SAMPLE_LIMIT <= #[trigger] samples@[i]
                    <= crate::filter::SAMPLE_LIMIT,
            out@.len() == c,
            forall|j: int|
                0 <= j < c ==> #[trigger] out@[j] == channel_power(samples@, channels as int, j),
            forall|j: int| 0 <= j < c ==> 0 <= #[trigger] out@[j] <= UNIT,
        decreases channels - c,
    {
        let mut acc: u128 = 0;
        let mut f: usize = 0;
        while f < frames
            invariant
                0 <= f <= frames,
                0 <= c < channels,
                0 < channels <= samples@.len(),
                len == samples@.len(),
                frames == (len as int) / (channels as int),
                (frames as int) * (channels as int) <= len as int,
                forall|i: int|
                    0 <= i < samples@.len() ==> -crate::filter::SAMPLE_LIMIT
                        <= #[trigger] samples@[i] <= crate::filter::SAMPLE_LIMIT,
                acc == lane_square_sum(samples@, channels as int, c as int, f as int),
                acc <= (f as int) * 0x4000_0000_0000_0000,
            decreases frames - f,
        {
            proof {
                assert((f as int) * (channels as int) + (c as int) < len as int
                    && 0 <= (f as int) * (channels as int)) by (nonlinear_arith)
                    requires
                        0 <= f < frames,
                        0 <= c < channels,
                        (frames as int) * (channels as int) <= len as int,
                ;
            }
            let idx = f * channels + c;
            let xi = samples[idx];
            proof {
                assert((xi as int) * (xi as int) <= 0x4000_0000_0000_0000 && 0 <= (xi as int) * (
                xi as int)) by (nonlinear_arith)
                    requires
                        -crate::filter::SAMPLE_LIMIT <= xi as int <= crate::filter::SAMPLE_LIMIT,
                ;
                assert(acc + (xi as int) * (xi as int) <= ((f + 1) as int) * 0x4000_0000_0000_0000)
                    by (nonlinear_arith)
                    requires
                        acc <= (f as int) * 0x4000_0000_0000_0000,
                        (xi as int) * (xi as int) <= 0x4000_0000_0000_0000,
                ;
                assert(((f + 1) as int) * 0x4000_0000_0000_0000 <= 0x1_0000_0000_0000_0000int
                    * 0x4000_0000_0000_0000) by (nonlinear_arith)
                    requires
                        f + 1 <= 0x1_0000_0000_0000_0000int,
                ;
            }
            let sq: u128 = (xi as i128 * xi as i128) as u128;
            acc = acc + sq;
            f = f + 1;
        }
        let mean: u128 = acc / (frames as u128);
        proof {
            let sum = lane_square_sum(samples@, channels as int, c as int, frames as int);
            assert(mean == sum / (frames as int));
            lemma_div_pos_is_pos(sum, frames as int);
            assert(sum <= (frames as int) * 0x4000_0000_0000_0000);
            lemma_div_is_ordered(sum, (frames as int) * 0x4000_0000_0000_0000, frames as int);
            lemma_div_multiples_vanish(0x4000_0000_0000_0000, frames as int);
            assert((frames as int) * 0x4000_0000_0000_0000 == 0x4000_0000_0000_0000int * (
            frames as int)) by (nonlinear_arith);
            assert(mean <= 0x4000_0000_0000_0000);
        }
        let mean64: u64 = mean as u64;
        let root = isqrt(mean64);
        let power: i64 = if root > UNIT as u64 {
            UNIT
        } else {
            root as i64
        };
        proof {
            assert(power == channel_power(samples@, channels as int, c as int));
        }
        out.push(power);
        c = c + 1;
    }
    out
}

/// Arithmetic mean of a buffer of scaled values in `[0, UNIT]`.
pub fn avg(samples: &Vec<i64>) -> (r: i64)
    requires
        0 < samples@.len(),
        forall|i: int| 0 <= i < samples@.len() ==> 0 <= #[trigger] samples@[i] <= UNIT,
    ensures
        r == seq_sum(samples@, samples@.len() as int) / (samples@.len() as int),
        0 <= r <= UNIT,
{
    let len = samples.len();
    let mut acc: u128 = 0;
    let mut i: usize = 0;
    while i < len
        invariant
            0 <= i <= len,
            len == samples@.len(),
            forall|j: int| 0 <= j < samples@.len() ==> 0 <= #[trigger] samples@[j] <= UNIT,
            acc == seq_sum(samples@, i as int),
            acc <= (i as int) * (UNIT as int),
        decreases len - i,
    {
        let xi = samples[i];
        proof {
            assert(acc + xi <= ((i + 1) as int) * (UNIT as int) && ((i + 1) as int) * (
            UNIT as int) <= 0x1_0000_0000_0000_0000int * (UNIT as int)) by (nonlinear_arith)
                requires
                    acc <= (i as int) * (UNIT as int),
                    0 <= xi <= UNIT as int,
                    i + 1 <= 0x1_0000_0000_0000_0000int,
            ;
        }
        acc = acc + (xi as u128);
        i = i + 1;
    }
    let q: u128 = acc / (len as u128);
    proof {
        let sum = seq_sum(samples@, len as int);
        lemma_div_pos_is_pos(sum, len as int);
        assert(sum <= (len as int) * (UNIT as int));
        lemma_div_is_ordered(sum, (len as int) * (UNIT as int), len as int);
        lemma_div_multiples_vanish(UNIT as int, len as int);
        assert((len as int) * (UNIT as int) == (UNIT as int) * (len as int)) by (nonlinear_arith);
    }
    q as i64
}

/// An all-zero buffer has zero power on every channel.
pub proof fn lemma_power_all_zero(x: Seq<i64>, ch: int, c: int)
    requires
        0 < ch <= x.len(),
        0 <= c < ch,
        forall|i: int| 0 <= i < x.len() ==> #[trigger] x[i] == 0,
    ensures
        channel_power(x, ch, c) == 0,
{
    let frames = frame_count(x, ch);
    lemma_div_pos_is_pos(x.len() as int, ch);
    lemma_fundamental_div_mod(x.len() as int, ch);
    lemma_lane_square_sum_constant(x, ch, c, frames, 0);
    assert(frames >= 1) by {
        lemma_div_is_ordered(ch, x.len() as int, ch);
        vstd::arithmetic::div_mod::lemma_div_by_self(ch);
    }
    assert(lane_square_sum(x, ch, c, frames) == frames * 0);
    assert(frames * 0 == 0) by (nonlinear_arith);
    vstd::arithmetic::div_mod::lemma_div_of0(frames);
    assert(lane_mean_square(x, ch, c) == 0);
    assert(isqrt_spec(0) == 0);
}

/// A buffer constant at `k` has `k * k` as every lane's square sum per frame.
pub proof fn lemma_lane_square_sum_constant(x: Seq<i64>, ch: int, c: int, n: int, k: int)
    requires
        0 < ch,
        0 <= c < ch,
        0 <= n,
        n * ch <= x.len(),
        forall|i: int| 0 <= i < x.len() ==> #[trigger] x[i] == k,
    ensures
        lane_square_sum(x, ch, c, n) == n * (k * k),
    decreases n,
{
    if n == 0 {
        assert(0int * (k * k) == 0) by (nonlinear_arith);
    } else {
        assert((n - 1) * ch <= x.len() && 0 <= (n - 1) * ch + c < x.len()) by (nonlinear_arith)
            requires
                0 < ch,
                0 <= c < ch,
                1 <= n,
                n * ch <= x.len(),
        ;
        lemma_lane_square_sum_constant(x, ch, c, n - 1, k);
        assert(x[(n - 1) * ch + c] == k);
        assert((n - 1) * (k * k) + k * k == n * (k * k)) by (nonlinear_arith);
    }
}

/// A buffer constant at `k` with `|k| <= UNIT` has channel power exactly
/// `|k|` on every channel: RMS is exact for constant signals.
pub proof fn lemma_power_constant(x: Seq<i64>, ch: int, c: int, k: int)
    requires
        0 < ch <= x.len(),
        0 <= c < ch,
        -(UNIT as int) <= k <= UNIT as int,
        forall|i: int| 0 <= i < x.len() ==> #[trigger] x[i] == k,
    ensures
        channel_power(x, ch, c) == vstd::math::abs(k),
{
    let frames = frame_count(x, ch);
    lemma_div_pos_is_pos(x.len() as int, ch);
    lemma_fundamental_div_mod(x.len() as int, ch);
    assert(frames >= 1) by {
        lemma_div_is_ordered(ch, x.len() as int, ch);
        vstd::arithmetic::div_mod::lemma_div_by_self(ch);
    }
    assert(frames * ch <= x.len()) by (nonlinear_arith)
        requires
            frames == (x.len() as int) / ch,
            0 < ch,
            x.len() as int == ch * frames + (x.len() as int) % ch,
            0 <= (x.len() as int) % ch,
    ;
    lemma_lane_square_sum_constant(x, ch, c, frames, k);
    assert(lane_mean_square(x, ch, c) == (frames * (k * k)) / frames);
    assert(frames * (k * k) == (k * k) * frames) by (nonlinear_arith);
    assert(0 <= k * k) by (nonlinear_arith);
    lemma_div_multiples_vanish(k * k, frames);
    assert(lane_mean_square(x, ch, c) == k * k);
    let a = vstd::math::abs(k);
    assert(is_isqrt(a as int, k * k)) by (nonlinear_arith)
        requires
            a == vstd::math::abs(k),
            a == if k >= 0 {
                k
            } else {
                -k
            },
    ;
    lemma_isqrt_spec_correct(k * k);
    lemma_isqrt_unique(a as int, isqrt_spec(k * k), k * k);
    assert(a <= UNIT as int);
}

} // verus!
