//! What holds of the two passes, whatever the particles and the settings.

use vstd::prelude::*;
use vstd::seq_lib::{to_multiset_contains, to_multiset_len, to_multiset_remove};
use crate::fixed::{
    lemma_root_exists, lemma_root_is, lemma_root_monotone, lemma_times_whole, quot, root, Fixed,
    SCALE,
};
use crate::integration::{spec_centering_pull, spec_wrap_axis};
use crate::interaction::{spec_pair_effect, Effect, Tally, NEAR_SQ};
use crate::particle::{
    at_launch_speed, is_aim, lemma_shade_is_white, spec_launch, spec_shade, Particle, WHITE_SQ,
};
use crate::settings::Color;
use crate::settings::Interaction;
use crate::vector::Vec2;

verus! {

/// The magnitude of an integer.
pub open spec fn abs(v: int) -> int {
    if v < 0 {
        -v
    } else {
        v
    }
}

/// The sums may count any one effect last: they are the sums over the
/// others with that one counted in.
pub proof fn tally_takes_out(effects: Seq<Effect>, i: int)
    requires
        0 <= i < effects.len(),
    ensures
        Tally::of(effects) == Tally::of(effects.remove(i)).joined(effects[i]),
    decreases effects.len(),
{
    if i == effects.len() - 1 {
        assert(effects.remove(i) =~= effects.drop_last());
    } else {
        tally_takes_out(effects.drop_last(), i);
        assert(effects.remove(i).drop_last() =~= effects.drop_last().remove(i));
        assert(effects.remove(i).last() == effects.last());
    }
}

/// Two populations that hold the same particles as often as each other
/// give the same sums.
proof fn lemma_tally_of_shuffled(p: Particle, a: Seq<Particle>, b: Seq<Particle>)
    requires
        a.to_multiset() == b.to_multiset(),
    ensures
        Tally::of(p.spec_effects(a)) == Tally::of(p.spec_effects(b)),
    decreases a.len(),
{
    to_multiset_len(a);
    to_multiset_len(b);
    if a.len() == 0 {
        assert(p.spec_effects(a) =~= p.spec_effects(b));
    } else {
        let x = a.last();
        assert(a[a.len() - 1] == x);
        assert(a.contains(x));
        to_multiset_contains(a, x);
        to_multiset_contains(b, x);
        let j = choose|j: int| 0 <= j < b.len() && b[j] == x;
        to_multiset_remove(a, a.len() - 1);
        to_multiset_remove(b, j);
        assert(a.remove(a.len() - 1) =~= a.drop_last());
        lemma_tally_of_shuffled(p, a.drop_last(), b.remove(j));
        assert(p.spec_effects(a).drop_last() =~= p.spec_effects(a.drop_last()));
        assert(p.spec_effects(b).remove(j) =~= p.spec_effects(b.remove(j)));
        tally_takes_out(p.spec_effects(b), j);
    }
}

/// The pass does not go by the order of the population: two populations
/// that hold the same particles as often as each other leave the particle
/// in the same state.
pub proof fn order_is_immaterial(p: Particle, dt: Fixed, others: Seq<Particle>, shuffled: Seq<Particle>)
    requires
        others.to_multiset() == shuffled.to_multiset(),
    ensures
        p.spec_after_interact(dt, others) == p.spec_after_interact(dt, shuffled),
{
    lemma_tally_of_shuffled(p, others, shuffled);
}

/// The sums over a list are the sums over its two parts, added: the list
/// may be cut anywhere and the parts summed apart, in any grouping.
pub proof fn tally_splits(a: Seq<Effect>, b: Seq<Effect>)
    ensures
        Tally::of(a + b).force_x == Tally::of(a).force_x + Tally::of(b).force_x,
        Tally::of(a + b).force_y == Tally::of(a).force_y + Tally::of(b).force_y,
        Tally::of(a + b).clear_x == Tally::of(a).clear_x + Tally::of(b).clear_x,
        Tally::of(a + b).clear_y == Tally::of(a).clear_y + Tally::of(b).clear_y,
        Tally::of(a + b).overlaps == Tally::of(a).overlaps + Tally::of(b).overlaps,
    decreases b.len(),
{
    if b.len() == 0 {
        assert(a + b =~= a);
    } else {
        tally_splits(a, b.drop_last());
        assert((a + b).drop_last() =~= a + b.drop_last());
        assert((a + b).last() == b.last());
    }
}

/// A neighbour at the very place of a particle, as the particle itself is
/// when it stands in the population, has no effect on it.
pub proof fn no_self_force(here: Vec2, rule: Interaction, size: Fixed, reach: Fixed)
    ensures
        spec_pair_effect(here, here, rule, size, reach) == Effect::spec_none(),
{
    let to_other = here.spec_minus(here);
    assert(to_other == Vec2::spec_zero());
    assert(to_other.spec_length_squared() == 0) by (nonlinear_arith)
        requires
            to_other.x.raw == 0,
            to_other.y.raw == 0,
    ;
}

/// A neighbour nearer than the threshold of coincidence, whose square is
/// `NEAR_SQ`, has no effect.
pub proof fn no_force_at_the_same_point(
    here: Vec2,
    there: Vec2,
    rule: Interaction,
    size: Fixed,
    reach: Fixed,
)
    requires
        there.spec_minus(here).spec_length_squared() < NEAR_SQ,
    ensures
        spec_pair_effect(here, there, rule, size, reach) == Effect::spec_none(),
{
}

/// A neighbour farther away than the forces reach has no effect: neither
/// force nor overlap.
pub proof fn no_force_beyond_reach(
    here: Vec2,
    there: Vec2,
    rule: Interaction,
    size: Fixed,
    reach: Fixed,
)
    requires
        there.spec_minus(here).spec_length_squared() > reach.raw * reach.raw,
    ensures
        spec_pair_effect(here, there, rule, size, reach) == Effect::spec_none(),
{
}

/// A neighbour without effect may be taken out of the population,
/// wherever it stands: the pass ends in the same state. So it is for the
/// particle itself and for every neighbour out of reach.
pub proof fn idle_neighbour_changes_nothing(p: Particle, dt: Fixed, others: Seq<Particle>, i: int)
    requires
        0 <= i < others.len(),
        p.spec_effect_of(&others[i]) == Effect::spec_none(),
    ensures
        p.spec_after_interact(dt, others.remove(i)) == p.spec_after_interact(dt, others),
{
    let effects = p.spec_effects(others);
    assert(p.spec_effects(others.remove(i)) =~= effects.remove(i));
    tally_takes_out(effects, i);
}

/// The pass over a population in which the particle itself stands ends as
/// the pass over the others alone.
pub proof fn own_presence_changes_nothing(p: Particle, dt: Fixed, others: Seq<Particle>, i: int)
    requires
        0 <= i < others.len(),
        others[i].position == p.position,
    ensures
        p.spec_after_interact(dt, others.remove(i)) == p.spec_after_interact(dt, others),
{
    no_self_force(
        p.position,
        p.settings.spec_interaction(p.species, others[i].species),
        p.settings.particle_size,
        p.settings.interaction_dist,
    );
    idle_neighbour_changes_nothing(p, dt, others, i);
}

/// A population that is empty, or holds the particle alone, exerts no
/// force: the acceleration is zero, and place and velocity stay.
pub proof fn alone_nothing_moves(p: Particle, dt: Fixed, others: Seq<Particle>)
    requires
        others.len() == 0 || (others.len() == 1 && others[0].position == p.position),
    ensures
        p.spec_after_interact(dt, others).position == p.position,
        p.spec_after_interact(dt, others).velocity == p.velocity,
        p.spec_after_interact(dt, others).accel == Vec2::spec_zero(),
{
    if others.len() == 1 {
        own_presence_changes_nothing(p, dt, others, 0);
        assert(others.remove(0) =~= Seq::<Particle>::empty());
    }
    let none = Seq::<Particle>::empty();
    assert(others.len() == 0 ==> others =~= none);
    assert(p.spec_effects(none) =~= Seq::<Effect>::empty());
    lemma_zero_scaled(Fixed::spec_from_int(100));
    lemma_zero_scaled(dt);
}

/// Zero times anything is zero.
pub proof fn lemma_zero_scaled(k: Fixed)
    ensures
        Vec2::spec_zero().spec_scaled(k) == Vec2::spec_zero(),
{
    assert(0 * k.raw == 0) by (nonlinear_arith);
}

/// The force on a particle from a neighbour goes by the entry of the table
/// in the particle's row and the neighbour's column, and by no other: two
/// sets of settings that agree in that entry, in the radius and in the
/// reach give the same effect, whatever else their tables hold.
pub proof fn lookup_is_ordered(a: Particle, b: Particle, twin: Particle)
    requires
        twin.position == a.position,
        twin.species == a.species,
        twin.settings.particle_size == a.settings.particle_size,
        twin.settings.interaction_dist == a.settings.interaction_dist,
        twin.settings.spec_interaction(a.species, b.species) == a.settings.spec_interaction(
            a.species,
            b.species,
        ),
    ensures
        twin.spec_effect_of(&b) == a.spec_effect_of(&b),
        a.spec_effect_of(&b) == spec_pair_effect(
            a.position,
            b.position,
            a.settings.species_relations@[a.species.0 as int]@[b.species.0 as int],
            a.settings.particle_size,
            a.settings.interaction_dist,
        ),
{
}

/// With at most one overlapping neighbour the particle keeps its place,
/// and the force is the sum of the forces alone.
pub proof fn one_overlap_keeps_place(p: Particle, dt: Fixed, others: Seq<Particle>)
    requires
        Tally::of(p.spec_effects(others)).overlaps <= 1,
    ensures
        p.spec_after_interact(dt, others).position == p.position,
        p.spec_after_interact(dt, others).accel == Tally::of(p.spec_effects(others)).force().spec_scaled(
            Fixed::spec_from_int(100),
        ),
{
}

/// With two or more overlapping neighbours the particle moves to the mean
/// of the points of separation.
pub proof fn crowd_moves_to_mean(p: Particle, dt: Fixed, others: Seq<Particle>)
    requires
        Tally::of(p.spec_effects(others)).overlaps >= 2,
    ensures
        p.spec_after_interact(dt, others).position == Tally::of(p.spec_effects(others)).clear_point(),
{
}

/// The state after the pass is a function of the particle, the time and
/// the population: equal inputs give equal states.
pub proof fn interact_is_a_function(
    p: Particle,
    q: Particle,
    dt: Fixed,
    others: Seq<Particle>,
    again: Seq<Particle>,
)
    requires
        p == q,
        others =~= again,
    ensures
        p.spec_after_interact(dt, others) == q.spec_after_interact(dt, again),
{
}

/// The wrap of one coordinate between bounds in order, where nothing
/// saturates: a coordinate above the upper bound that still moves up comes
/// back by exactly the width, one below the lower bound that still moves
/// down goes forward by it, and any other stays where it is. A coordinate
/// that was no farther outside than one width lands between the bounds.
pub proof fn wrap_moves_by_the_width(x: Fixed, v: Fixed, min: Fixed, max: Fixed)
    requires
        min.raw <= max.raw,
        -0x2000_0000_0000_0000 <= x.raw <= 0x2000_0000_0000_0000,
        -0x2000_0000_0000_0000 <= min.raw,
        max.raw <= 0x2000_0000_0000_0000,
    ensures
        x.raw > max.raw && v.raw > 0 ==> spec_wrap_axis(x, v, min, max).raw == x.raw - (max.raw
            - min.raw),
        x.raw < min.raw && v.raw < 0 ==> spec_wrap_axis(x, v, min, max).raw == x.raw + (max.raw
            - min.raw),
        !(x.raw > max.raw && v.raw > 0) && !(x.raw < min.raw && v.raw < 0) ==> spec_wrap_axis(
            x,
            v,
            min,
            max,
        ) == x,
        max.raw < x.raw <= max.raw + (max.raw - min.raw) && v.raw > 0 ==> min.raw < spec_wrap_axis(
            x,
            v,
            min,
            max,
        ).raw <= max.raw,
        min.raw - (max.raw - min.raw) <= x.raw < min.raw && v.raw < 0 ==> min.raw <= spec_wrap_axis(
            x,
            v,
            min,
            max,
        ).raw < max.raw,
{
}

/// Friction below one makes a number smaller in magnitude, unless it is
/// zero, and does not turn its sign.
pub proof fn friction_shrinks(v: Fixed, friction: Fixed)
    requires
        0 <= friction.raw < SCALE,
    ensures
        abs(v.spec_times(friction).raw as int) <= abs(v.raw as int),
        v.raw != 0 ==> abs(v.spec_times(friction).raw as int) < abs(v.raw as int),
        v.raw >= 0 ==> v.spec_times(friction).raw >= 0,
        v.raw <= 0 ==> v.spec_times(friction).raw <= 0,
{
    let m = abs(v.raw as int);
    let f = friction.raw as int;
    assert(0 <= m * f <= m * 999_999) by (nonlinear_arith)
        requires
            0 <= m,
            0 <= f <= 999_999,
    ;
    assert(v.raw * f == if v.raw < 0 {
        -(m * f)
    } else {
        m * f
    }) by (nonlinear_arith)
        requires
            m == abs(v.raw as int),
    ;
}

/// A number of smaller magnitude has a smaller square, and one of equal or
/// smaller magnitude has no larger square.
pub proof fn lemma_smaller_square(a: int, b: int)
    ensures
        abs(a) <= abs(b) ==> a * a <= b * b,
        abs(a) < abs(b) ==> a * a < b * b,
{
    assert(abs(a) <= abs(b) ==> a * a <= b * b) by (nonlinear_arith);
    assert(abs(a) < abs(b) ==> a * a < b * b) by (nonlinear_arith);
}

/// Friction below one makes a velocity shorter, unless it is zero.
pub proof fn friction_shortens(v: Vec2, friction: Fixed)
    requires
        0 <= friction.raw < SCALE,
    ensures
        v.spec_scaled(friction).spec_length_squared() < v.spec_length_squared() || v
            == Vec2::spec_zero(),
        v == Vec2::spec_zero() ==> v.spec_scaled(friction) == Vec2::spec_zero(),
{
    friction_shrinks(v.x, friction);
    friction_shrinks(v.y, friction);
    let after = v.spec_scaled(friction);
    lemma_smaller_square(after.x.raw as int, v.x.raw as int);
    lemma_smaller_square(after.y.raw as int, v.y.raw as int);
}

/// A velocity after `ticks` steps of friction alone.
pub open spec fn damped(v: Vec2, friction: Fixed, ticks: nat) -> Vec2
    decreases ticks,
{
    if ticks == 0 {
        v
    } else {
        damped(v, friction, (ticks - 1) as nat).spec_scaled(friction)
    }
}

/// The larger magnitude of the two coordinates, in raw units.
pub open spec fn reach_of(v: Vec2) -> int {
    if abs(v.x.raw as int) >= abs(v.y.raw as int) {
        abs(v.x.raw as int)
    } else {
        abs(v.y.raw as int)
    }
}

/// Under friction alone a velocity loses at least one raw unit of its
/// larger coordinate with every step, until it is zero: after `ticks`
/// steps no coordinate exceeds what it began with less `ticks`.
pub proof fn friction_brings_to_rest(v: Vec2, friction: Fixed, ticks: nat)
    requires
        0 <= friction.raw < SCALE,
    ensures
        reach_of(damped(v, friction, ticks)) <= reach_of(v),
        reach_of(damped(v, friction, ticks)) + ticks <= reach_of(v) || damped(v, friction, ticks)
            == Vec2::spec_zero(),
        ticks >= reach_of(v) ==> damped(v, friction, ticks) == Vec2::spec_zero(),
    decreases ticks,
{
    if ticks > 0 {
        let before = damped(v, friction, (ticks - 1) as nat);
        friction_brings_to_rest(v, friction, (ticks - 1) as nat);
        friction_shrinks(before.x, friction);
        friction_shrinks(before.y, friction);
    }
}

/// Where neither the pointer nor the origin pulls, a step of integration
/// leaves of the velocity what the friction leaves: each coordinate is
/// smaller in magnitude than before, unless it was zero.
pub proof fn friction_bound(p: Particle, dt: Fixed)
    requires
        0 <= p.settings.friction.raw < SCALE,
        spec_centering_pull(p.spec_moved(dt)) == Vec2::spec_zero(),
    ensures
        p.spec_after_integrate(dt, None).velocity == p.velocity.spec_scaled(p.settings.friction),
        p.spec_after_integrate(dt, None).velocity == damped(p.velocity, p.settings.friction, 1),
        p.spec_after_integrate(dt, None).velocity.spec_length_squared()
            < p.velocity.spec_length_squared() || p.velocity == Vec2::spec_zero(),
{
    friction_shortens(p.velocity, p.settings.friction);
    assert(damped(p.velocity, p.settings.friction, 0) == p.velocity);
    assert(damped(p.velocity, p.settings.friction, 1) == damped(
        p.velocity,
        p.settings.friction,
        0,
    ).spec_scaled(p.settings.friction));
}

/// The magnitude of a coordinate of a direction: of `x` over `len`, where
/// `len` is no shorter than `x`. It is the exact quotient rounded down, and
/// no more than one.
proof fn lemma_direction_coordinate(x: int, len: int) -> (d: int)
    requires
        0 < len,
        -len <= x <= len,
    ensures
        d == abs(quot(x * SCALE, len)),
        0 <= d <= SCALE,
        d * len <= abs(x) * SCALE,
        abs(x) * SCALE < (d + 1) * len,
{
    let a = abs(x) * SCALE;
    let d = a / len;
    assert(x * SCALE == if x < 0 {
        -a
    } else {
        a
    });
    assert(d * len <= a && a < (d + 1) * len && 0 <= d) by (nonlinear_arith)
        requires
            d == a / len,
            0 < len,
            0 <= a,
    ;
    assert(d <= SCALE) by (nonlinear_arith)
        requires
            d * len <= a,
            a <= len * 1_000_000,
            0 < len,
            SCALE == 1_000_000,
    ;
    d
}

/// A fresh particle sets out at 100 units, to within a thousandth of a
/// unit, whatever its aim.
pub proof fn launch_speed(aim: Vec2)
    requires
        is_aim(aim),
    ensures
        at_launch_speed(spec_launch(aim)),
{
    let x = aim.x.raw as int;
    let y = aim.y.raw as int;
    let n2 = aim.spec_length_squared();
    lemma_root_exists(n2);
    let len = root(n2);
    assert(250_000 <= len <= 1_000_000) by (nonlinear_arith)
        requires
            0 <= len,
            len * len <= n2,
            n2 < (len + 1) * (len + 1),
            62_500_000_000 <= n2 <= 1_000_000_000_000,
    ;
    assert(-len <= x <= len && -len <= y <= len) by (nonlinear_arith)
        requires
            0 <= len,
            n2 == x * x + y * y,
            n2 < (len + 1) * (len + 1),
    ;
    assert(aim.spec_length().raw == len);
    let dx = lemma_direction_coordinate(x, len);
    let dy = lemma_direction_coordinate(y, len);
    let dir = aim.spec_normalized();
    assert(abs(dir.x.raw as int) == dx);
    assert(abs(dir.y.raw as int) == dy);
    let v = spec_launch(aim);
    lemma_times_whole(dir.x, 100);
    lemma_times_whole(dir.y, 100);
    assert(abs(v.x.raw as int) == 100 * dx);
    assert(abs(v.y.raw as int) == 100 * dy);
    let d2 = dx * dx + dy * dy;
    assert(v.spec_length_squared() == 10_000 * d2) by (nonlinear_arith)
        requires
            abs(v.x.raw as int) == 100 * dx,
            abs(v.y.raw as int) == 100 * dy,
            v.spec_length_squared() == v.x.raw * v.x.raw + v.y.raw * v.y.raw,
            d2 == dx * dx + dy * dy,
    ;
    let ax = abs(x);
    let ay = abs(y);
    assert(n2 == ax * ax + ay * ay) by (nonlinear_arith)
        requires
            n2 == x * x + y * y,
            ax == abs(x),
            ay == abs(y),
    ;
    // no longer than one and a hundred-thousandth
    assert(d2 * (len * len) <= n2 * 1_000_000_000_000) by (nonlinear_arith)
        requires
            d2 == dx * dx + dy * dy,
            n2 == ax * ax + ay * ay,
            0 <= dx,
            0 <= dy,
            0 <= ax,
            0 <= ay,
            0 < len,
            dx * len <= ax * 1_000_000,
            dy * len <= ay * 1_000_000,
    ;
    assert(d2 <= 1_000_010 * 1_000_010) by (nonlinear_arith)
        requires
            d2 * (len * len) <= n2 * 1_000_000_000_000,
            n2 < (len + 1) * (len + 1),
            250_000 <= len,
            0 <= d2,
    ;
    // no shorter than one less a hundred-thousandth
    assert(n2 * 1_000_000_000_000 < ((dx + 1) * (dx + 1) + (dy + 1) * (dy + 1)) * (len * len))
        by (nonlinear_arith)
        requires
            n2 == ax * ax + ay * ay,
            0 <= dx,
            0 <= dy,
            0 <= ax,
            0 <= ay,
            0 < len,
            ax * 1_000_000 < (dx + 1) * len,
            ay * 1_000_000 < (dy + 1) * len,
            62_500_000_000 <= n2,
    ;
    assert(d2 >= 999_990 * 999_990) by (nonlinear_arith)
        requires
            n2 * 1_000_000_000_000 < ((dx + 1) * (dx + 1) + (dy + 1) * (dy + 1)) * (len * len),
            len * len <= n2,
            0 < len,
            0 <= dx <= 1_000_000,
            0 <= dy <= 1_000_000,
            d2 == dx * dx + dy * dy,
    ;
}

/// The grey of the stroke is one exactly from the speed 100/9 on, where
/// three tenths of the root of the speed reach one, and below one at every
/// lower speed; at rest it is zero.
pub proof fn shade_is_white_from_a_ninth_of_a_hundred(n2: int)
    requires
        0 <= n2,
    ensures
        81 * n2 >= 10_000_000_000_000_000 <==> spec_shade(n2) == (Fixed { raw: SCALE }),
        0 <= spec_shade(n2).raw <= SCALE,
        n2 == 0 ==> spec_shade(n2) == Fixed::spec_zero(),
{
    let wide = 8_100_000_000 * n2;
    lemma_root_exists(wide);
    let first = root(wide);
    lemma_root_exists(first);
    let second = root(first);
    if n2 >= WHITE_SQ {
        lemma_shade_is_white(n2);
    } else {
        assert(first < 1_000_000_000_000) by (nonlinear_arith)
            requires
                0 <= first,
                first * first <= wide,
                wide < 1_000_000_000_000_000_000_000_000,
        ;
        assert(second < 1_000_000) by (nonlinear_arith)
            requires
                0 <= second,
                second * second <= first,
                first < 1_000_000_000_000,
        ;
    }
    if n2 == 0 {
        lemma_root_is(0, 0);
    }
}

/// The grey of the stroke does not fall as the speed rises.
pub proof fn shade_grows_with_speed(slow: int, fast: int)
    requires
        0 <= slow <= fast,
    ensures
        spec_shade(slow).raw <= spec_shade(fast).raw,
{
    lemma_root_exists(8_100_000_000 * slow);
    lemma_root_exists(8_100_000_000 * fast);
    lemma_root_monotone(8_100_000_000 * slow, 8_100_000_000 * fast);
    lemma_root_exists(root(8_100_000_000 * slow));
    lemma_root_exists(root(8_100_000_000 * fast));
    lemma_root_monotone(root(8_100_000_000 * slow), root(8_100_000_000 * fast));
}

/// The stroke of a particle at the speed 100/9 or faster is white, and
/// that of a particle at rest is black.
pub proof fn stroke_is_white_when_fast(p: Particle)
    ensures
        81 * p.velocity.spec_length_squared() >= 10_000_000_000_000_000 ==> p.spec_draw_vel().color
            == Color::spec_gray(Fixed { raw: SCALE }),
        p.velocity == Vec2::spec_zero() ==> p.spec_draw_vel().color == Color::spec_gray(
            Fixed::spec_zero(),
        ),
{
    let n2 = p.velocity.spec_length_squared();
    assert(0 <= n2) by (nonlinear_arith)
        requires
            n2 == p.velocity.x.raw * p.velocity.x.raw + p.velocity.y.raw * p.velocity.y.raw,
    ;
    shade_is_white_from_a_ninth_of_a_hundred(n2);
    if p.velocity == Vec2::spec_zero() {
        assert(n2 == 0) by (nonlinear_arith)
            requires
                n2 == p.velocity.x.raw * p.velocity.x.raw + p.velocity.y.raw * p.velocity.y.raw,
                p.velocity.x.raw == 0,
                p.velocity.y.raw == 0,
        ;
    }
}

} // verus!
