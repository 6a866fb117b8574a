//! The integration pass: the move along the velocity, the wrap at the
//! bounds, the pull of the pointer and of the origin, and the friction.

use vstd::prelude::*;
use crate::fixed::{Fixed, SCALE};
use crate::particle::Particle;
use crate::vector::Vec2;

verus! {

/// The pointer pulls a particle that is nearer than 200 units: this is the
/// square of that distance, in squares of raw units.
pub const POINTER_REACH_SQ: u128 = 40_000_000_000_000_000;

/// The gain of the pointer's pull: a tenth.
pub const POINTER_GAIN: i64 = 100_000;

/// One coordinate after the wrap. A coordinate above `max` that still moves
/// up comes back by the width of the interval, and one below `min` that
/// still moves down goes forward by it; any other stays.
pub open spec fn spec_wrap_axis(x: Fixed, v: Fixed, min: Fixed, max: Fixed) -> Fixed {
    if x.raw > max.raw && v.raw > 0 {
        x.spec_minus(max.spec_minus(min))
    } else if x.raw < min.raw && v.raw < 0 {
        x.spec_plus(max.spec_minus(min))
    } else {
        x
    }
}

/// Wraps one coordinate.
#[verifier::when_used_as_spec(spec_wrap_axis)]
pub fn wrap_axis(x: Fixed, v: Fixed, min: Fixed, max: Fixed) -> (r: Fixed)
    ensures
        r == spec_wrap_axis(x, v, min, max),
{
    if x.raw > max.raw && v.raw > 0 {
        x.minus(max.minus(min))
    } else if x.raw < min.raw && v.raw < 0 {
        x.plus(max.minus(min))
    } else {
        x
    }
}

/// What the pointer adds to the velocity of a particle at `position` in
/// the time `dt`: nothing without a pointer or at 200 units or more from
/// it, else a tenth of the direction to the pointer times `dt` times the
/// squared distance.
pub open spec fn spec_pointer_pull(position: Vec2, dt: Fixed, pointer: Option<Vec2>) -> Vec2 {
    match pointer {
        Some(target) => {
            let diff = target.spec_minus(position);
            let d2 = diff.spec_length_squared();
            if d2 < POINTER_REACH_SQ {
                diff.spec_normalized().spec_scaled(dt).spec_scaled(
                    Fixed::of(d2 / (SCALE as int)),
                ).spec_scaled(Fixed { raw: POINTER_GAIN })
            } else {
                Vec2::spec_zero()
            }
        },
        None => Vec2::spec_zero(),
    }
}

/// Computes the pull of the pointer.
#[verifier::when_used_as_spec(spec_pointer_pull)]
pub fn pointer_pull(position: Vec2, dt: Fixed, pointer: Option<Vec2>) -> (r: Vec2)
    ensures
        r == spec_pointer_pull(position, dt, pointer),
{
    match pointer {
        Some(target) => {
            let diff: Vec2 = target.minus(position);
            let d2: u128 = diff.length_squared();
            if d2 < POINTER_REACH_SQ {
                let squared: Fixed = Fixed { raw: (d2 / 1_000_000) as i64 };
                diff.normalized().scaled(dt).scaled(squared).scaled(Fixed { raw: POINTER_GAIN })
            } else {
                Vec2::zero()
            }
        },
        None => Vec2::zero(),
    }
}

/// What the origin adds to the velocity of a particle at `position`: the
/// direction to the origin times the square root of the distance, over 20;
/// nothing where the distance rounds to zero.
pub open spec fn spec_centering_pull(position: Vec2) -> Vec2 {
    let len = position.spec_length();
    if len.raw == 0 {
        Vec2::spec_zero()
    } else {
        position.spec_negated().spec_normalized().spec_scaled(len.spec_sqrt()).spec_shrunk(
            Fixed::spec_from_int(20),
        )
    }
}

/// Computes the pull of the origin.
#[verifier::when_used_as_spec(spec_centering_pull)]
pub fn centering_pull(position: Vec2) -> (r: Vec2)
    ensures
        r == spec_centering_pull(position),
{
    let len: Fixed = position.length();
    if len.raw == 0 {
        Vec2::zero()
    } else {
        position.negated().normalized().scaled(len.sqrt()).shrunk(Fixed::from_int(20))
    }
}

impl Particle {
    pub open spec fn spec_elliptic_space(position: Vec2, velocity: Vec2, min: Vec2, max: Vec2) -> Vec2 {
        (Vec2 {
            x: spec_wrap_axis(position.x, velocity.x, min.x, max.x),
            y: spec_wrap_axis(position.y, velocity.y, min.y, max.y),
        })
    }

    /// Wraps a position into the rectangle from `min` to `max`, each
    /// coordinate by itself and only in the direction of travel. This is no
    /// clamp: the result may still lie outside the rectangle.
    #[verifier::when_used_as_spec(spec_elliptic_space)]
    pub fn elliptic_space(position: Vec2, velocity: Vec2, min: Vec2, max: Vec2) -> (r: Vec2)
        ensures
            r == Particle::spec_elliptic_space(position, velocity, min, max),
    {
        Vec2 {
            x: wrap_axis(position.x, velocity.x, min.x, max.x),
            y: wrap_axis(position.y, velocity.y, min.y, max.y),
        }
    }

    /// Where the particle stands after the move and the wrap.
    pub open spec fn spec_moved(&self, dt: Fixed) -> Vec2 {
        Particle::spec_elliptic_space(
            self.position.spec_plus(self.velocity.spec_scaled(dt)),
            self.velocity,
            self.bounds.min,
            self.bounds.max,
        )
    }

    /// The particle after one step of integration: moved along its
    /// velocity and wrapped, then its velocity raised by the pull of the
    /// pointer and of the origin, both taken at the new position, and
    /// multiplied by the friction.
    pub open spec fn spec_after_integrate(&self, dt: Fixed, pointer: Option<Vec2>) -> Particle {
        let moved = self.spec_moved(dt);
        (Particle {
            position: moved,
            velocity: self.velocity.spec_plus(spec_pointer_pull(moved, dt, pointer)).spec_plus(
                spec_centering_pull(moved),
            ).spec_scaled(self.settings.friction),
            accel: self.accel,
            species: self.species,
            settings: self.settings,
            bounds: self.bounds,
        })
    }

    /// Advances the particle by the time `dt`. `mouse_pos` is the pointer,
    /// while it is held down.
    pub fn integrate(&mut self, dt: Fixed, mouse_pos: Option<Vec2>)
        ensures
            *final(self) == old(self).spec_after_integrate(dt, mouse_pos),
            old(self).wf() ==> final(self).wf(),
    {
        self.position = self.position.plus(self.velocity.scaled(dt));
        self.position = Particle::elliptic_space(
            self.position,
            self.velocity,
            self.bounds.min,
            self.bounds.max,
        );
        self.velocity = self.velocity.plus(pointer_pull(self.position, dt, mouse_pos));
        self.velocity = self.velocity.plus(centering_pull(self.position));
        self.velocity = self.velocity.scaled(self.settings.friction);
    }
}

} // verus!
