//! Particles: their state, and what makes one well formed.

use std::sync::Arc;
use vstd::prelude::*;
use crate::fixed::{isqrt, lemma_root_exists, root, Fixed, SCALE};
use crate::laws::launch_speed;
use crate::rng::{draw_between, spec_draw_bound, spec_spread};
use crate::settings::{Color, SimulationSettings, Species};
use crate::vector::Vec2;

verus! {

/// The rectangle that a particle wraps within.
#[derive(Clone, Copy, Debug, PartialEq, Eq, Structural)]
pub struct Bounds {
    pub min: Vec2,
    pub max: Vec2,
}

/// A particle: its place and motion, its species, the rectangle that it
/// wraps within, and the settings that it shares with the others.
#[derive(Clone, Debug)]
pub struct Particle {
    pub position: Vec2,
    pub velocity: Vec2,
    pub accel: Vec2,
    pub species: Species,
    pub settings: Arc<SimulationSettings>,
    pub bounds: Bounds,
}

/// A straight stroke, for whoever draws.
#[derive(Clone, Copy, Debug, PartialEq, Eq, Structural)]
pub struct Line {
    pub from: Vec2,
    pub to: Vec2,
    pub thickness: Fixed,
    pub color: Color,
}

/// A filled disc, for whoever draws.
#[derive(Clone, Copy, Debug, PartialEq, Eq, Structural)]
pub struct Circle {
    pub center: Vec2,
    pub radius: Fixed,
    pub color: Color,
}

/// The square of a quarter, in squares of raw units: an aim shorter than a
/// quarter is not taken for a direction.
pub const AIM_MIN_SQ: u128 = 62_500_000_000;

/// The square of one, in squares of raw units.
pub const AIM_MAX_SQ: u128 = 1_000_000_000_000;

/// How often `draw_aim` draws before it settles for the x axis.
pub const AIM_TRIES: u8 = 16;

/// An aim is a point of the unit disc that is no nearer to the origin than
/// a quarter.
pub open spec fn is_aim(aim: Vec2) -> bool {
    AIM_MIN_SQ <= aim.spec_length_squared() <= AIM_MAX_SQ
}

/// The velocity of a fresh particle that sets out toward `aim`: 100 units
/// in that direction.
pub open spec fn spec_launch(aim: Vec2) -> Vec2 {
    aim.spec_normalized().spec_scaled(Fixed::spec_from_int(100))
}

/// A velocity of 100 units, to within a thousandth of a unit.
pub open spec fn at_launch_speed(v: Vec2) -> bool {
    99_999_000 * 99_999_000 <= v.spec_length_squared() <= 100_001_000 * 100_001_000
}

/// Computes the velocity of a fresh particle from its aim.
#[verifier::when_used_as_spec(spec_launch)]
pub fn launch(aim: Vec2) -> (r: Vec2)
    ensures
        r == spec_launch(aim),
        is_aim(aim) ==> at_launch_speed(r),
{
    proof {
        if is_aim(aim) {
            launch_speed(aim);
        }
    }
    aim.normalized().scaled(Fixed::from_int(100))
}

/// The least squared speed, in squares of raw units, at which the stroke
/// of the velocity is white: the square of 100/9, rounded up.
pub const WHITE_SQ: u128 = 123_456_790_123_457;

/// The grey of the stroke of a velocity whose squared length is `n2`
/// squares of raw units: three tenths of the square root of the speed, but
/// no more than one. The speed is itself a square root, so in raw units
/// the grey is the fourth root of 8.1e9 times `n2`; it is rounded down
/// once, at the end.
pub open spec fn spec_shade(n2: int) -> Fixed {
    Fixed::of(root(root(8_100_000_000 * n2))).spec_unit_clamped()
}

/// Computes the grey of the stroke from the squared speed.
pub fn shade(n2: u128) -> (r: Fixed)
    ensures
        r == spec_shade(n2 as int),
{
    if n2 >= WHITE_SQ {
        proof {
            lemma_shade_is_white(n2 as int);
        }
        Fixed { raw: SCALE }
    } else {
        let wide: u128 = 8_100_000_000 * n2;
        let first: u64 = isqrt(wide);
        let second: u64 = isqrt(first as u128);
        assert(first < 1_000_000_000_000) by (nonlinear_arith)
            requires
                first * first <= wide,
                wide < 1_000_000_000_000_000_000_000_000,
        ;
        assert(second < 1_000_000) by (nonlinear_arith)
            requires
                second * second <= first,
                first < 1_000_000_000_000,
        ;
        Fixed { raw: second as i64 }
    }
}

/// From the square of 100/9 on, the grey is one.
pub proof fn lemma_shade_is_white(n2: int)
    requires
        n2 >= WHITE_SQ,
    ensures
        spec_shade(n2) == (Fixed { raw: SCALE }),
{
    let wide = 8_100_000_000 * n2;
    lemma_root_exists(wide);
    let first = root(wide);
    assert(first >= 1_000_000_000_000) by (nonlinear_arith)
        requires
            0 <= first,
            wide < (first + 1) * (first + 1),
            wide >= 1_000_000_000_000_000_000_000_000,
    ;
    lemma_root_exists(first);
    let second = root(first);
    assert(second >= 1_000_000) by (nonlinear_arith)
        requires
            0 <= second,
            first < (second + 1) * (second + 1),
            first >= 1_000_000_000_000,
    ;
}

/// The point with the raw coordinates `x` and `y`, if it is an aim.
pub open spec fn spec_aim_at(x: i64, y: i64) -> Option<Vec2> {
    let p = Vec2 { x: Fixed { raw: x }, y: Fixed { raw: y } };
    if is_aim(p) {
        Some(p)
    } else {
        None
    }
}

/// Decides whether a drawn point is an aim.
#[verifier::when_used_as_spec(spec_aim_at)]
pub fn aim_at(x: i64, y: i64) -> (r: Option<Vec2>)
    ensures
        r == spec_aim_at(x, y),
{
    let p: Vec2 = Vec2 { x: Fixed { raw: x }, y: Fixed { raw: y } };
    let d2: u128 = p.length_squared();
    if AIM_MIN_SQ <= d2 && d2 <= AIM_MAX_SQ {
        Some(p)
    } else {
        None
    }
}

/// The aim where no drawn point was one: the point one on the x axis.
pub open spec fn spec_default_aim() -> Vec2 {
    (Vec2 { x: Fixed { raw: SCALE }, y: Fixed { raw: 0 } })
}

/// The aim that a run of drawn points gives: the first of them that is an
/// aim, and the point one on the x axis where none is.
pub open spec fn spec_first_aim(points: Seq<(i64, i64)>) -> Vec2
    decreases points.len(),
{
    if points.len() == 0 {
        spec_default_aim()
    } else {
        match spec_aim_at(points[0].0, points[0].1) {
            Some(aim) => aim,
            None => spec_first_aim(points.drop_first()),
        }
    }
}

/// None of the points is an aim.
pub open spec fn all_miss(points: Seq<(i64, i64)>) -> bool {
    forall|i: int|
        0 <= i < points.len() ==> spec_aim_at((#[trigger] points[i]).0, points[i].1) is None
}

/// A run of points as `draw_aim` draws it: points of the square around the
/// unit disc, none an aim but perhaps the last, and `AIM_TRIES` of them
/// unless the last is an aim.
pub open spec fn is_run(points: Seq<(i64, i64)>) -> bool {
    &&& points.len() <= AIM_TRIES
    &&& forall|i: int|
        0 <= i < points.len() ==> -SCALE <= (#[trigger] points[i]).0 <= SCALE && -SCALE
            <= points[i].1 <= SCALE
    &&& points.len() == AIM_TRIES && all_miss(points) || points.len() > 0 && all_miss(
        points.drop_last(),
    ) && spec_aim_at(points.last().0, points.last().1) is Some
}

/// Points that are no aims do not count: the aim of a run that begins
/// with them is the aim of the rest.
pub proof fn lemma_misses_do_not_count(misses: Seq<(i64, i64)>, rest: Seq<(i64, i64)>)
    requires
        all_miss(misses),
    ensures
        spec_first_aim(misses + rest) == spec_first_aim(rest),
    decreases misses.len(),
{
    if misses.len() == 0 {
        assert(misses + rest =~= rest);
    } else {
        let run = misses + rest;
        assert(run[0] == misses[0]);
        assert(run.drop_first() =~= misses.drop_first() + rest);
        assert(forall|i: int|
            0 <= i < misses.drop_first().len() ==> #[trigger] misses.drop_first()[i] == misses[i
                + 1]);
        lemma_misses_do_not_count(misses.drop_first(), rest);
    }
}

/// Draws an aim: points of the square around the unit disc, until one is
/// an aim. The ring of the aims is round, so no direction is preferred.
/// After `AIM_TRIES` points that were none, which a fair generator brings
/// about less than once in a billion calls, the aim is the point one on
/// the x axis.
pub fn draw_aim() -> (aim: Vec2)
    ensures
        is_aim(aim),
        exists|points: Seq<(i64, i64)>| is_run(points) && aim == spec_first_aim(points),
{
    let ghost mut points: Seq<(i64, i64)> = Seq::empty();
    let mut tries: u8 = 0;
    while tries < AIM_TRIES
        invariant
            tries <= AIM_TRIES,
            points.len() == tries,
            all_miss(points),
            forall|i: int|
                0 <= i < points.len() ==> -SCALE <= (#[trigger] points[i]).0 <= SCALE && -SCALE
                    <= points[i].1 <= SCALE,
        decreases AIM_TRIES - tries,
    {
        let x: i64 = draw_between(-1_000_000, 1_000_001);
        let y: i64 = draw_between(-1_000_000, 1_000_001);
        match aim_at(x, y) {
            Some(aim) => {
                proof {
                    let hit = seq![(x, y)];
                    let run = points.push((x, y));
                    lemma_misses_do_not_count(points, hit);
                    assert(run =~= points + hit);
                    assert(run.drop_last() =~= points);
                    assert(hit.drop_first().len() == 0);
                    assert(spec_first_aim(hit) == aim);
                    assert(is_run(run) && aim == spec_first_aim(run));
                }
                return aim;
            },
            None => {
                proof {
                    points = points.push((x, y));
                }
            },
        }
        tries += 1;
    }
    let aim: Vec2 = Vec2 { x: Fixed { raw: 1_000_000 }, y: Fixed { raw: 0 } };
    assert(aim.x.raw * aim.x.raw == AIM_MAX_SQ && aim.y.raw * aim.y.raw == 0) by (nonlinear_arith)
        requires
            aim.x.raw == 1_000_000,
            aim.y.raw == 0,
            AIM_MAX_SQ == 1_000_000_000_000,
    ;
    proof {
        lemma_misses_do_not_count(points, Seq::empty());
        assert(points + Seq::<(i64, i64)>::empty() =~= points);
        assert(is_run(points) && aim == spec_first_aim(points));
    }
    aim
}

/// Draws an index below `count`.
fn pick_below(count: usize) -> (r: usize)
    requires
        0 < count,
    ensures
        r < count,
        exists|k: u64|
            k < spec_draw_bound(0, index_top(count)) && r == spec_spread(0, index_top(count), k),
{
    let wide: u64 = count as u64;
    let top: i64 = if wide > 0x7fff_ffff_ffff_ffff {
        i64::MAX
    } else {
        wide as i64
    };
    let drawn: i64 = draw_between(0, top);
    proof {
        assert(top == index_top(count));
        let k = choose|k: u64| k < spec_draw_bound(0, top) && drawn == spec_spread(0, top, k);
        assert(k < spec_draw_bound(0, top) && drawn == spec_spread(0, top, k));
    }
    drawn as usize
}

/// The upper end of the interval that an index below `count` is drawn
/// from: `count` itself, as far as an `i64` holds it.
pub open spec fn index_top(count: usize) -> i64 {
    if count > i64::MAX {
        i64::MAX
    } else {
        count as i64
    }
}

impl Particle {
    /// The settings are valid and know the particle's species.
    pub open spec fn wf(&self) -> bool {
        self.settings.valid() && self.species.0 < self.settings.species_count()
    }

    /// The particle's settings know the species of `other`.
    pub open spec fn accepts(&self, other: &Particle) -> bool {
        other.species.0 < self.settings.species_count()
    }

    /// The particle's settings know the species of all of `others`.
    pub open spec fn accepts_all(&self, others: Seq<Particle>) -> bool {
        forall|i: int| 0 <= i < others.len() ==> self.accepts(#[trigger] &others[i])
    }

    /// A particle at rest in its acceleration, if the settings are valid
    /// and know the species.
    pub fn new(
        settings: Arc<SimulationSettings>,
        species: Species,
        position: Vec2,
        velocity: Vec2,
        min: Vec2,
        max: Vec2,
    ) -> (r: Option<Particle>)
        ensures
            r is Some <==> settings.valid() && species.0 < settings.species_count(),
            r matches Some(p) ==> p == (Particle {
                position,
                velocity,
                accel: Vec2::spec_zero(),
                species,
                settings,
                bounds: Bounds { min, max },
            }),
    {
        if settings.is_valid() && species.0 < settings.count() {
            Some(
                Particle {
                    position,
                    velocity,
                    accel: Vec2::zero(),
                    species,
                    settings,
                    bounds: Bounds { min, max },
                },
            )
        } else {
            None
        }
    }

    /// A fresh particle: of a species drawn among those of the settings, at
    /// a place drawn inside the rectangle from `min` to `max`, setting out
    /// at 100 units in a drawn direction.
    pub fn random(settings: Arc<SimulationSettings>, min: Vec2, max: Vec2) -> (r: Particle)
        requires
            settings.valid(),
            0 < settings.species_count(),
        ensures
            r.wf(),
            r.settings == settings,
            r.bounds == (Bounds { min, max }),
            r.accel == Vec2::spec_zero(),
            min.x.raw <= r.position.x.raw,
            min.x.raw < max.x.raw ==> r.position.x.raw < max.x.raw,
            max.x.raw <= min.x.raw ==> r.position.x == min.x,
            min.y.raw <= r.position.y.raw,
            min.y.raw < max.y.raw ==> r.position.y.raw < max.y.raw,
            max.y.raw <= min.y.raw ==> r.position.y == min.y,
            exists|aim: Vec2| is_aim(aim) && r.velocity == spec_launch(aim),
            at_launch_speed(r.velocity),
    {
        let count: usize = settings.count();
        let species: Species = Species(pick_below(count));
        let aim: Vec2 = draw_aim();
        let velocity: Vec2 = launch(aim);
        let position: Vec2 = Vec2 {
            x: Fixed { raw: draw_between(min.x.raw, max.x.raw) },
            y: Fixed { raw: draw_between(min.y.raw, max.y.raw) },
        };
        assert(is_aim(aim) && velocity == spec_launch(aim));
        Particle {
            position,
            velocity,
            accel: Vec2::zero(),
            species,
            settings,
            bounds: Bounds { min, max },
        }
    }

    /// Where the particle will be in a tenth of a unit of time, if nothing
    /// turns it.
    pub open spec fn spec_predicted(&self) -> Vec2 {
        self.position.spec_plus(self.velocity.spec_scaled(Fixed { raw: 100_000 }))
    }

    /// The stroke that shows the velocity: from the particle to where it
    /// will be in a tenth of a unit of time, two units thick, and the
    /// lighter the faster: its grey is the shade of the speed.
    pub open spec fn spec_draw_vel(&self) -> Line {
        (Line {
            from: self.position,
            to: self.spec_predicted(),
            thickness: Fixed::spec_from_int(2),
            color: Color::spec_gray(spec_shade(self.velocity.spec_length_squared())),
        })
    }

    /// The stroke that shows the velocity.
    #[verifier::when_used_as_spec(spec_draw_vel)]
    pub fn draw_vel(&self) -> (r: Line)
        ensures
            r == self.spec_draw_vel(),
    {
        let predicted: Vec2 = self.position.plus(self.velocity.scaled(Fixed { raw: 100_000 }));
        let level: Fixed = shade(self.velocity.length_squared());
        Line {
            from: self.position,
            to: predicted,
            thickness: Fixed::from_int(2),
            color: Color::gray(level),
        }
    }

    /// The disc that shows the particle: at its place, of the radius that
    /// the settings give, in the colour of its species.
    pub fn draw(&self) -> (r: Circle)
        requires
            self.wf(),
        ensures
            r == (Circle {
                center: self.position,
                radius: self.settings.particle_size,
                color: self.settings.species@[self.species.0 as int],
            }),
    {
        Circle {
            center: self.position,
            radius: self.settings.particle_size,
            color: self.settings.species[self.species.0],
        }
    }

    /// Tests whether the particle is well formed.
    pub fn is_well_formed(&self) -> (r: bool)
        ensures
            r == self.wf(),
    {
        self.settings.is_valid() && self.species.0 < self.settings.count()
    }

    /// Tests whether the particle's settings know the species of every
    /// particle of `others`.
    pub fn knows_all(&self, others: &[Particle]) -> (r: bool)
        ensures
            r == self.accepts_all(others@),
    {
        let n: usize = self.settings.count();
        let mut i: usize = 0;
        while i < others.len()
            invariant
                i <= others@.len(),
                n == self.settings.species_count(),
                forall|k: int| 0 <= k < i ==> self.accepts(#[trigger] &others@[k]),
            decreases others@.len() - i,
        {
            if others[i].species.0 >= n {
                return false;
            }
            i += 1;
        }
        true
    }
}

} // verus!
