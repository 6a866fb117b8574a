//! Fixed-point numbers with six decimal places and saturating arithmetic.
//!
//! A [`Fixed`] holds a count of millionths in an `i64`. Sums, products and
//! quotients are taken exactly in the integers, rounded toward zero where a
//! quotient is not whole, and then brought back into the range of `i64`:
//! a result too large to hold becomes the largest value, as an overflowing
//! measurement would become an infinity.

use vstd::prelude::*;

verus! {

/// Raw units per whole unit.
pub const SCALE: i64 = 1_000_000;

/// The integer nearest to `v` that an `i64` can hold.
pub open spec fn clamp(v: int) -> int {
    if v < i64::MIN {
        i64::MIN as int
    } else if v > i64::MAX {
        i64::MAX as int
    } else {
        v
    }
}

/// The quotient of `a` by a non-zero `b`, rounded toward zero.
pub open spec fn quot(a: int, b: int) -> int {
    if a >= 0 {
        a / b
    } else {
        -((-a) / b)
    }
}

/// A quotient is no larger in magnitude than its dividend.
pub proof fn lemma_quot_bounded(a: int, b: int)
    requires
        b != 0,
    ensures
        a >= 0 ==> -a <= a / b <= a,
        a >= 0 ==> -a <= quot(a, b) <= a,
        a < 0 ==> a <= quot(a, b) <= -a,
{
    let m = if a >= 0 { a } else { -a };
    assert(-m <= m / b <= m) by (nonlinear_arith)
        requires
            m >= 0,
            b != 0,
    ;
}

/// `r` is the integer square root of `n`: the largest integer whose square
/// does not exceed `n`.
pub open spec fn is_root(n: int, r: int) -> bool {
    0 <= r && r * r <= n && n < (r + 1) * (r + 1)
}

/// The integer square root of a non-negative `n`.
pub open spec fn root(n: int) -> int {
    choose|r: int| is_root(n, r)
}

/// A number has at most one integer square root.
pub proof fn lemma_root_unique(n: int, a: int, b: int)
    requires
        is_root(n, a),
        is_root(n, b),
    ensures
        a == b,
{
    assert(a == b) by (nonlinear_arith)
        requires
            0 <= a,
            0 <= b,
            a * a <= n,
            n < (a + 1) * (a + 1),
            b * b <= n,
            n < (b + 1) * (b + 1),
    ;
}

/// Every non-negative number has an integer square root, and `root` names it.
pub proof fn lemma_root_exists(n: int)
    requires
        0 <= n,
    ensures
        is_root(n, root(n)),
    decreases n,
{
    if n == 0 {
        assert(is_root(0, 0));
    } else {
        lemma_root_exists(n - 1);
        let r = root(n - 1);
        if (r + 1) * (r + 1) <= n {
            assert(is_root(n, r + 1)) by (nonlinear_arith)
                requires
                    0 <= r,
                    n - 1 < (r + 1) * (r + 1),
                    (r + 1) * (r + 1) <= n,
            ;
        } else {
            assert(is_root(n, r));
        }
    }
}

/// The integer square root is what `r` is, once `r` is known to be one.
pub proof fn lemma_root_is(n: int, r: int)
    requires
        is_root(n, r),
    ensures
        root(n) == r,
{
    lemma_root_unique(n, r, root(n));
}

/// A larger number has no smaller root.
pub proof fn lemma_root_monotone(m: int, n: int)
    requires
        0 <= m <= n,
    ensures
        root(m) <= root(n),
{
    lemma_root_exists(m);
    lemma_root_exists(n);
    let a = root(m);
    let b = root(n);
    assert(a <= b) by (nonlinear_arith)
        requires
            0 <= a,
            0 <= b,
            a * a <= m,
            m <= n,
            n < (b + 1) * (b + 1),
    ;
}

/// Computes the integer square root by bisection.
pub fn isqrt(n: u128) -> (r: u64)
    ensures
        is_root(n as int, r as int),
        r == root(n as int),
{
    let mut lo: u128 = 0;
    let mut hi: u128 = 0x1_0000_0000_0000_0000;
    assert(n < hi * hi) by (nonlinear_arith)
        requires
            hi == 0x1_0000_0000_0000_0000,
            n <= u128::MAX,
    ;
    while hi - lo > 1
        invariant
            lo < hi <= 0x1_0000_0000_0000_0000,
            lo * lo <= n,
            n < hi * hi,
        decreases hi - lo,
    {
        let mid: u128 = lo + (hi - lo) / 2;
        assert(mid * mid <= u128::MAX) by (nonlinear_arith)
            requires
                mid < 0x1_0000_0000_0000_0000,
        ;
        if mid * mid <= n {
            lo = mid;
        } else {
            hi = mid;
        }
    }
    proof {
        assert(hi == lo + 1);
        lemma_root_is(n as int, lo as int);
    }
    lo as u64
}

/// Brings a wide integer into the range of `i64`.
pub fn narrow(v: i128) -> (r: i64)
    ensures
        r == clamp(v as int),
{
    if v < i64::MIN as i128 {
        i64::MIN
    } else if v > i64::MAX as i128 {
        i64::MAX
    } else {
        v as i64
    }
}

/// A number of millionths.
#[derive(Clone, Copy, Debug, PartialEq, Eq, Structural)]
pub struct Fixed {
    pub raw: i64,
}

impl Fixed {
    /// The number that stands for the integer `v` of raw units, saturated.
    pub open spec fn of(v: int) -> Fixed {
        (Fixed { raw: clamp(v) as i64 })
    }

    pub open spec fn spec_zero() -> Fixed {
        (Fixed { raw: 0 })
    }

    pub open spec fn spec_from_int(v: i32) -> Fixed {
        (Fixed { raw: (v * SCALE) as i64 })
    }

    pub open spec fn spec_plus(self, rhs: Fixed) -> Fixed {
        Fixed::of(self.raw + rhs.raw)
    }

    pub open spec fn spec_minus(self, rhs: Fixed) -> Fixed {
        Fixed::of(self.raw - rhs.raw)
    }

    pub open spec fn spec_negated(self) -> Fixed {
        Fixed::of(-self.raw)
    }

    pub open spec fn spec_times(self, rhs: Fixed) -> Fixed {
        Fixed::of(quot(self.raw * rhs.raw, SCALE as int))
    }

    pub open spec fn spec_over(self, rhs: Fixed) -> Fixed {
        Fixed::of(quot(self.raw * SCALE, rhs.raw as int))
    }

    pub open spec fn spec_sqrt(self) -> Fixed {
        if self.raw <= 0 {
            Fixed::spec_zero()
        } else {
            Fixed::of(root(self.raw * SCALE))
        }
    }

    /// The nearest number between zero and one.
    pub open spec fn spec_unit_clamped(self) -> Fixed {
        if self.raw < 0 {
            Fixed::spec_zero()
        } else if self.raw > SCALE {
            (Fixed { raw: SCALE })
        } else {
            self
        }
    }

    /// Zero.
    #[verifier::when_used_as_spec(spec_zero)]
    pub fn zero() -> (r: Fixed)
        ensures
            r == Fixed::spec_zero(),
    {
        Fixed { raw: 0 }
    }

    /// The number with the given count of millionths.
    pub fn from_raw(raw: i64) -> (r: Fixed)
        ensures
            r.raw == raw,
    {
        Fixed { raw }
    }

    /// The whole number `v`.
    #[verifier::when_used_as_spec(spec_from_int)]
    pub fn from_int(v: i32) -> (r: Fixed)
        ensures
            r == Fixed::spec_from_int(v),
            r.raw == v * 1_000_000,
    {
        let wide: i64 = v as i64;
        Fixed { raw: wide * SCALE }
    }

    /// The sum, saturated.
    #[verifier::when_used_as_spec(spec_plus)]
    pub fn plus(self, rhs: Fixed) -> (r: Fixed)
        ensures
            r == self.spec_plus(rhs),
    {
        Fixed { raw: narrow(self.raw as i128 + rhs.raw as i128) }
    }

    /// The difference, saturated.
    #[verifier::when_used_as_spec(spec_minus)]
    pub fn minus(self, rhs: Fixed) -> (r: Fixed)
        ensures
            r == self.spec_minus(rhs),
    {
        Fixed { raw: narrow(self.raw as i128 - rhs.raw as i128) }
    }

    /// The opposite number, saturated.
    #[verifier::when_used_as_spec(spec_negated)]
    pub fn negated(self) -> (r: Fixed)
        ensures
            r == self.spec_negated(),
    {
        Fixed { raw: narrow(-(self.raw as i128)) }
    }

    /// The product, rounded toward zero and saturated.
    #[verifier::when_used_as_spec(spec_times)]
    pub fn times(self, rhs: Fixed) -> (r: Fixed)
        ensures
            r == self.spec_times(rhs),
    {
        let a: i128 = self.raw as i128;
        let b: i128 = rhs.raw as i128;
        assert(-0x4000_0000_0000_0000_0000_0000_0000_0000 <= a * b
            <= 0x4000_0000_0000_0000_0000_0000_0000_0000) by (nonlinear_arith)
            requires
                -0x8000_0000_0000_0000 <= a <= 0x8000_0000_0000_0000,
                -0x8000_0000_0000_0000 <= b <= 0x8000_0000_0000_0000,
        ;
        let wide: i128 = a * b;
        Fixed { raw: narrow(wide / 1_000_000) }
    }

    /// The quotient by a non-zero number, rounded toward zero and saturated.
    #[verifier::when_used_as_spec(spec_over)]
    pub fn over(self, rhs: Fixed) -> (r: Fixed)
        requires
            rhs.raw != 0,
        ensures
            r == self.spec_over(rhs),
    {
        let wide: i128 = (self.raw as i128) * 1_000_000;
        proof {
            lemma_quot_bounded(wide as int, rhs.raw as int);
        }
        Fixed { raw: narrow(wide / (rhs.raw as i128)) }
    }

    /// The square root, rounded down; zero for a number that is not positive.
    #[verifier::when_used_as_spec(spec_sqrt)]
    pub fn sqrt(self) -> (r: Fixed)
        ensures
            r == self.spec_sqrt(),
    {
        if self.raw <= 0 {
            Fixed { raw: 0 }
        } else {
            let wide: u128 = (self.raw as u128) * 1_000_000;
            let r: u64 = isqrt(wide);
            proof {
                assert(r * r <= wide);
                assert(r < 0x8000_0000_0000_0000) by (nonlinear_arith)
                    requires
                        r * r <= wide,
                        wide <= 0x8000_0000_0000_0000 * 1_000_000,
                ;
            }
            Fixed { raw: r as i64 }
        }
    }
}

/// A product with a whole number is exact: it is the product of the raw
/// units by that number, saturated.
pub proof fn lemma_times_whole(a: Fixed, k: i32)
    ensures
        a.spec_times(Fixed::spec_from_int(k)) == Fixed::of(a.raw * k),
{
    let p = a.raw * k;
    assert(a.raw * (k * 1_000_000) == p * 1_000_000) by (nonlinear_arith)
        requires
            p == a.raw * k,
    ;
}

} // verus!
