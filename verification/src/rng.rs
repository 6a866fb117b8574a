//! Draws from the pseudo-random generator that the whole process shares.
//!
//! The generator lives in `quad-rand`, which `macroquad` hands on as its
//! module `rand`. Nothing is known of a draw but its range.

use vstd::prelude::*;

verus! {

/// The largest bound of a draw: 2^53, up to which every integer is a
/// double-precision number.
pub const DRAW_LIMIT: u64 = 0x20_0000_0000_0000;

/// Calls `srand` of `quad-rand`, which restarts the shared generator from
/// `seed`. Nothing is claimed of it.
#[verifier::external_body]
pub(crate) fn reseed(seed: u64) {
    macroquad::rand::srand(seed);
}

/// Calls `gen_range` of `quad-rand` on `u64`, from zero to `bound`. It
/// scales the 32 bits `k` of the generator to `bound * k / 2^32` in double
/// precision and drops the fraction. `k` is below 2^32, and `bound` is a
/// double-precision number itself, so the result is below `bound`.
#[verifier::external_body]
pub(crate) fn draw_below(bound: u64) -> (r: u64)
    requires
        0 < bound <= DRAW_LIMIT,
    ensures
        r < bound,
{
    macroquad::rand::gen_range(0u64, bound)
}

/// Draws an integer from `lo` up to, but not including, `hi`; `lo` itself
/// where there is none.
///
/// An interval wider than `DRAW_LIMIT` is drawn from in 2^32 equal steps,
/// which is as fine as the generator's 32 bits are.
pub fn draw_between(lo: i64, hi: i64) -> (r: i64)
    ensures
        lo <= r,
        lo < hi ==> r < hi,
        hi <= lo ==> r == lo,
        lo < hi ==> exists|k: u64| k < spec_draw_bound(lo, hi) && r == spec_spread(lo, hi, k),
{
    if hi <= lo {
        return lo;
    }
    let k: u64 = draw_below(draw_bound(lo, hi));
    let r: i64 = spread(lo, hi, k);
    assert(k < spec_draw_bound(lo, hi) && r == spec_spread(lo, hi, k));
    r
}

/// What the generator is asked to stay below for a draw from `lo` up to
/// `hi`: the width of the interval, or 2^32 where the interval is wider
/// than `DRAW_LIMIT`.
pub open spec fn spec_draw_bound(lo: i64, hi: i64) -> int {
    if hi - lo <= DRAW_LIMIT {
        hi - lo
    } else {
        0x1_0000_0000
    }
}

/// Where the draw `k` lands between `lo` and `hi`: `k` above `lo`, or `k`
/// steps above it, each a 2^32th of the width rounded down, where the
/// interval is wider than `DRAW_LIMIT`.
pub open spec fn spec_spread(lo: i64, hi: i64, k: u64) -> int {
    if hi - lo <= DRAW_LIMIT {
        lo + k
    } else {
        lo + ((hi - lo) / 0x1_0000_0000) * k
    }
}

/// Computes the bound of the draw for an interval that is not empty.
pub fn draw_bound(lo: i64, hi: i64) -> (r: u64)
    requires
        lo < hi,
    ensures
        r == spec_draw_bound(lo, hi),
        0 < r <= DRAW_LIMIT,
{
    let span: u64 = (hi as i128 - lo as i128) as u64;
    if span <= DRAW_LIMIT {
        span
    } else {
        0x1_0000_0000
    }
}

/// Places a draw below the bound of the interval into the interval.
pub fn spread(lo: i64, hi: i64, k: u64) -> (r: i64)
    requires
        lo < hi,
        k < spec_draw_bound(lo, hi),
    ensures
        r == spec_spread(lo, hi, k),
        lo <= r < hi,
{
    let span: u64 = (hi as i128 - lo as i128) as u64;
    let offset: u64 = if span <= DRAW_LIMIT {
        k
    } else {
        let step: u64 = span / 0x1_0000_0000;
        assert(step * k < span) by (nonlinear_arith)
            requires
                step == span / 0x1_0000_0000,
                0 <= k < 0x1_0000_0000,
                span > 0x1_0000_0000,
        ;
        step * k
    };
    (lo as i128 + offset as i128) as i64
}

} // verus!
