//! Points and displacements in the plane, over fixed-point coordinates.

use vstd::prelude::*;
use crate::fixed::{isqrt, root, Fixed};

verus! {

/// A pair of coordinates.
#[derive(Clone, Copy, Debug, PartialEq, Eq, Structural)]
pub struct Vec2 {
    pub x: Fixed,
    pub y: Fixed,
}

/// The magnitude of a raw coordinate.
pub fn magnitude(v: i64) -> (r: u128)
    ensures
        r == if v < 0 { -v } else { v as int },
        r <= 0x8000_0000_0000_0000,
{
    if v < 0 {
        (-(v as i128)) as u128
    } else {
        v as u128
    }
}

impl Vec2 {
    pub open spec fn spec_zero() -> Vec2 {
        (Vec2 { x: Fixed::spec_zero(), y: Fixed::spec_zero() })
    }

    pub open spec fn spec_plus(self, rhs: Vec2) -> Vec2 {
        (Vec2 { x: self.x.spec_plus(rhs.x), y: self.y.spec_plus(rhs.y) })
    }

    pub open spec fn spec_minus(self, rhs: Vec2) -> Vec2 {
        (Vec2 { x: self.x.spec_minus(rhs.x), y: self.y.spec_minus(rhs.y) })
    }

    pub open spec fn spec_negated(self) -> Vec2 {
        (Vec2 { x: self.x.spec_negated(), y: self.y.spec_negated() })
    }

    pub open spec fn spec_scaled(self, k: Fixed) -> Vec2 {
        (Vec2 { x: self.x.spec_times(k), y: self.y.spec_times(k) })
    }

    pub open spec fn spec_shrunk(self, k: Fixed) -> Vec2 {
        (Vec2 { x: self.x.spec_over(k), y: self.y.spec_over(k) })
    }

    /// The squared length, exact, in squares of raw units.
    pub open spec fn spec_length_squared(self) -> int {
        self.x.raw * self.x.raw + self.y.raw * self.y.raw
    }

    /// The length, rounded down to a raw unit.
    pub open spec fn spec_length(self) -> Fixed {
        Fixed::of(root(self.spec_length_squared()))
    }

    /// The vector of length one in the same direction; zero where the
    /// length rounds to zero.
    pub open spec fn spec_normalized(self) -> Vec2 {
        if self.spec_length().raw == 0 {
            Vec2::spec_zero()
        } else {
            self.spec_shrunk(self.spec_length())
        }
    }

    pub fn new(x: Fixed, y: Fixed) -> (r: Vec2)
        ensures
            r == (Vec2 { x, y }),
    {
        Vec2 { x, y }
    }

    /// The origin.
    #[verifier::when_used_as_spec(spec_zero)]
    pub fn zero() -> (r: Vec2)
        ensures
            r == Vec2::spec_zero(),
    {
        Vec2 { x: Fixed::zero(), y: Fixed::zero() }
    }

    #[verifier::when_used_as_spec(spec_plus)]
    pub fn plus(self, rhs: Vec2) -> (r: Vec2)
        ensures
            r == self.spec_plus(rhs),
    {
        Vec2 { x: self.x.plus(rhs.x), y: self.y.plus(rhs.y) }
    }

    #[verifier::when_used_as_spec(spec_minus)]
    pub fn minus(self, rhs: Vec2) -> (r: Vec2)
        ensures
            r == self.spec_minus(rhs),
    {
        Vec2 { x: self.x.minus(rhs.x), y: self.y.minus(rhs.y) }
    }

    #[verifier::when_used_as_spec(spec_negated)]
    pub fn negated(self) -> (r: Vec2)
        ensures
            r == self.spec_negated(),
    {
        Vec2 { x: self.x.negated(), y: self.y.negated() }
    }

    /// Both coordinates multiplied by `k`.
    #[verifier::when_used_as_spec(spec_scaled)]
    pub fn scaled(self, k: Fixed) -> (r: Vec2)
        ensures
            r == self.spec_scaled(k),
    {
        Vec2 { x: self.x.times(k), y: self.y.times(k) }
    }

    /// Both coordinates divided by a non-zero `k`.
    #[verifier::when_used_as_spec(spec_shrunk)]
    pub fn shrunk(self, k: Fixed) -> (r: Vec2)
        requires
            k.raw != 0,
        ensures
            r == self.spec_shrunk(k),
    {
        Vec2 { x: self.x.over(k), y: self.y.over(k) }
    }

    /// The squared length, exact, in squares of raw units.
    pub fn length_squared(self) -> (r: u128)
        ensures
            r == self.spec_length_squared(),
    {
        let ax: u128 = magnitude(self.x.raw);
        let ay: u128 = magnitude(self.y.raw);
        assert(ax * ax == self.x.raw * self.x.raw && ax * ax
            <= 0x4000_0000_0000_0000_0000_0000_0000_0000) by (nonlinear_arith)
            requires
                ax == self.x.raw || ax == -self.x.raw,
                0 <= ax <= 0x8000_0000_0000_0000,
        ;
        assert(ay * ay == self.y.raw * self.y.raw && ay * ay
            <= 0x4000_0000_0000_0000_0000_0000_0000_0000) by (nonlinear_arith)
            requires
                ay == self.y.raw || ay == -self.y.raw,
                0 <= ay <= 0x8000_0000_0000_0000,
        ;
        ax * ax + ay * ay
    }

    #[verifier::when_used_as_spec(spec_length)]
    pub fn length(self) -> (r: Fixed)
        ensures
            r == self.spec_length(),
    {
        let r: u64 = isqrt(self.length_squared());
        if r > 0x7fff_ffff_ffff_ffff {
            Fixed { raw: i64::MAX }
        } else {
            Fixed { raw: r as i64 }
        }
    }

    #[verifier::when_used_as_spec(spec_normalized)]
    pub fn normalized(self) -> (r: Vec2)
        ensures
            r == self.spec_normalized(),
    {
        let len: Fixed = self.length();
        if len.raw == 0 {
            Vec2::zero()
        } else {
            self.shrunk(len)
        }
    }
}

} // verus!
