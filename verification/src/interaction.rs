//! The interaction pass: the force that a particle feels from each of the
//! others, the sums over a population, and the change of velocity.

use rayon::iter::{IntoParallelRefIterator, ParallelIterator};
use vstd::prelude::*;
use crate::fixed::{lemma_quot_bounded, lemma_root_exists, narrow, quot, root, Fixed};
use crate::particle::Particle;
use crate::settings::Interaction;
use crate::vector::Vec2;

verus! {

/// Two particles whose squared distance, in squares of raw units, is below
/// this are taken to be at the same point: a thousandth of a square unit.
pub const NEAR_SQ: u128 = 1_000_000_000;

/// What one neighbour does to a particle.
#[derive(Clone, Copy, Debug)]
pub struct Effect {
    /// The force from the neighbour.
    pub force: Vec2,
    /// Where the particle would stand clear of the neighbour, if the two
    /// overlap.
    pub separation: Option<Vec2>,
}

impl Effect {
    pub open spec fn spec_none() -> Effect {
        (Effect { force: Vec2::spec_zero(), separation: None })
    }

    /// No force and no overlap.
    #[verifier::when_used_as_spec(spec_none)]
    pub fn none() -> (r: Effect)
        ensures
            r == Effect::spec_none(),
    {
        Effect { force: Vec2::zero(), separation: None }
    }
}

/// What a particle at `here` feels from one at `there`, under the rule
/// `rule` for the ordered pair of their species, with particles of radius
/// `size` and forces that reach as far as `reach`.
pub open spec fn spec_pair_effect(
    here: Vec2,
    there: Vec2,
    rule: Interaction,
    size: Fixed,
    reach: Fixed,
) -> Effect {
    let to_other = there.spec_minus(here);
    let d2 = to_other.spec_length_squared();
    if d2 < NEAR_SQ || d2 > reach.raw * reach.raw {
        Effect::spec_none()
    } else {
        let dist = to_other.spec_length();
        let dir = to_other.spec_shrunk(dist);
        let contact = size.spec_times(Fixed::spec_from_int(2));
        let gap = dist.spec_minus(contact);
        Effect {
            force: dir.spec_scaled(rule.strength).spec_scaled(rule.dist.spec_minus(gap)).spec_shrunk(
                reach,
            ),
            separation: if dist.raw < contact.raw {
                Some(
                    here.spec_plus(to_other.spec_shrunk(Fixed::spec_from_int(2))).spec_minus(
                        dir.spec_scaled(size),
                    ),
                )
            } else {
                None
            },
        }
    }
}

/// Computes the effect of one neighbour.
#[verifier::when_used_as_spec(spec_pair_effect)]
pub fn pair_effect(here: Vec2, there: Vec2, rule: Interaction, size: Fixed, reach: Fixed) -> (r:
    Effect)
    requires
        reach.raw > 0,
    ensures
        r == spec_pair_effect(here, there, rule, size, reach),
{
    let to_other: Vec2 = there.minus(here);
    let d2: u128 = to_other.length_squared();
    let span: u128 = reach.raw as u128;
    assert(span * span <= 0x4000_0000_0000_0000_0000_0000_0000_0000) by (nonlinear_arith)
        requires
            0 <= span <= 0x8000_0000_0000_0000,
    ;
    if d2 < NEAR_SQ || d2 > span * span {
        return Effect::none();
    }
    let dist: Fixed = to_other.length();
    proof {
        lemma_root_exists(d2 as int);
        let r = root(d2 as int);
        assert(r != 0) by (nonlinear_arith)
            requires
                1 <= d2,
                d2 < (r + 1) * (r + 1),
        ;
        assert(r <= span) by (nonlinear_arith)
            requires
                0 <= r,
                0 <= span,
                r * r <= d2,
                d2 <= span * span,
        ;
    }
    let dir: Vec2 = to_other.shrunk(dist);
    let contact: Fixed = size.times(Fixed::from_int(2));
    let gap: Fixed = dist.minus(contact);
    let force: Vec2 = dir.scaled(rule.strength).scaled(rule.dist.minus(gap)).shrunk(reach);
    let separation: Option<Vec2> = if dist.raw < contact.raw {
        Some(here.plus(to_other.shrunk(Fixed::from_int(2))).minus(dir.scaled(size)))
    } else {
        None
    };
    Effect { force, separation }
}

/// The exact sums over a list of effects: of the forces, of the points of
/// separation, and the number of neighbours that overlap.
pub struct Tally {
    pub force_x: int,
    pub force_y: int,
    pub clear_x: int,
    pub clear_y: int,
    pub overlaps: nat,
}

impl Tally {
    pub open spec fn empty() -> Tally {
        (Tally { force_x: 0, force_y: 0, clear_x: 0, clear_y: 0, overlaps: 0 })
    }

    /// The sums with one more effect counted in.
    pub open spec fn joined(self, e: Effect) -> Tally {
        (Tally {
            force_x: self.force_x + e.force.x.raw,
            force_y: self.force_y + e.force.y.raw,
            clear_x: self.clear_x + match e.separation {
                Some(p) => p.x.raw as int,
                None => 0,
            },
            clear_y: self.clear_y + match e.separation {
                Some(p) => p.y.raw as int,
                None => 0,
            },
            overlaps: self.overlaps + if e.separation is Some {
                1nat
            } else {
                0nat
            },
        })
    }

    /// The sums over all of `effects`.
    pub open spec fn of(effects: Seq<Effect>) -> Tally
        decreases effects.len(),
    {
        if effects.len() == 0 {
            Tally::empty()
        } else {
            Tally::of(effects.drop_last()).joined(effects.last())
        }
    }

    /// The sum of the forces, saturated.
    pub open spec fn force(self) -> Vec2 {
        (Vec2 { x: Fixed::of(self.force_x), y: Fixed::of(self.force_y) })
    }

    /// The mean of the points of separation, each coordinate rounded
    /// toward zero.
    pub open spec fn clear_point(self) -> Vec2 {
        (Vec2 {
            x: Fixed::of(quot(self.clear_x, self.overlaps as int)),
            y: Fixed::of(quot(self.clear_y, self.overlaps as int)),
        })
    }
}

/// The sums of a `Tally`, as the machine holds them.
pub struct Sums {
    pub force_x: i128,
    pub force_y: i128,
    pub clear_x: i128,
    pub clear_y: i128,
    pub overlaps: usize,
}

impl View for Sums {
    type V = Tally;

    open spec fn view(&self) -> Tally {
        (Tally {
            force_x: self.force_x as int,
            force_y: self.force_y as int,
            clear_x: self.clear_x as int,
            clear_y: self.clear_y as int,
            overlaps: self.overlaps as nat,
        })
    }
}

/// Adds up a list of effects. No sum can overflow: a list has fewer than
/// 2^64 entries, each below 2^63 in magnitude.
pub fn tally_effects(effects: &Vec<Effect>) -> (r: Sums)
    ensures
        r@ == Tally::of(effects@),
        r.overlaps <= effects@.len(),
{
    let mut sums = Sums { force_x: 0, force_y: 0, clear_x: 0, clear_y: 0, overlaps: 0 };
    let n: usize = effects.len();
    let mut i: usize = 0;
    while i < n
        invariant
            i <= n,
            n == effects@.len(),
            sums@ == Tally::of(effects@.take(i as int)),
            sums.overlaps <= i,
            -i * 0x8000_0000_0000_0000 <= sums.force_x <= i * 0x8000_0000_0000_0000,
            -i * 0x8000_0000_0000_0000 <= sums.force_y <= i * 0x8000_0000_0000_0000,
            -i * 0x8000_0000_0000_0000 <= sums.clear_x <= i * 0x8000_0000_0000_0000,
            -i * 0x8000_0000_0000_0000 <= sums.clear_y <= i * 0x8000_0000_0000_0000,
        decreases n - i,
    {
        let e: Effect = effects[i];
        proof {
            assert(effects@.take(i + 1).drop_last() =~= effects@.take(i as int));
            assert(effects@.take(i + 1).last() == e);
        }
        sums.force_x = sums.force_x + e.force.x.raw as i128;
        sums.force_y = sums.force_y + e.force.y.raw as i128;
        match e.separation {
            Some(p) => {
                sums.clear_x = sums.clear_x + p.x.raw as i128;
                sums.clear_y = sums.clear_y + p.y.raw as i128;
                sums.overlaps = sums.overlaps + 1;
            },
            None => {},
        }
        i += 1;
    }
    proof {
        assert(effects@.take(n as int) =~= effects@);
    }
    sums
}

impl Particle {
    /// What the particle feels from `other`.
    pub open spec fn spec_effect_of(&self, other: &Particle) -> Effect {
        spec_pair_effect(
            self.position,
            other.position,
            self.settings.spec_interaction(self.species, other.species),
            self.settings.particle_size,
            self.settings.interaction_dist,
        )
    }

    /// Computes what the particle feels from `other`.
    #[verifier::when_used_as_spec(spec_effect_of)]
    pub fn effect_of(&self, other: &Particle) -> (r: Effect)
        requires
            self.wf(),
            self.accepts(other),
        ensures
            r == self.spec_effect_of(other),
    {
        let rule: &Interaction = self.settings.interaction(self.species, other.species);
        pair_effect(
            self.position,
            other.position,
            *rule,
            self.settings.particle_size,
            self.settings.interaction_dist,
        )
    }

    /// What the particle feels from each of `others`, in their order.
    pub open spec fn spec_effects(&self, others: Seq<Particle>) -> Seq<Effect> {
        Seq::new(others.len(), |i: int| self.spec_effect_of(&others[i]))
    }

    /// The particle after it has felt `others` for the time `dt`.
    ///
    /// The forces are summed. Where more than one neighbour overlaps the
    /// particle, it moves at once to the mean of the points of separation,
    /// and a spring toward that point, ten times the displacement, joins
    /// the force. The acceleration is a hundred times the force, and the
    /// velocity gains the acceleration times `dt`.
    pub open spec fn spec_after_interact(&self, dt: Fixed, others: Seq<Particle>) -> Particle {
        let tally = Tally::of(self.spec_effects(others));
        let crowded = tally.overlaps > 1;
        let target = tally.clear_point();
        let force = if crowded {
            tally.force().spec_plus(
                target.spec_minus(self.position).spec_scaled(Fixed::spec_from_int(10)),
            )
        } else {
            tally.force()
        };
        let accel = force.spec_scaled(Fixed::spec_from_int(100));
        (Particle {
            position: if crowded {
                target
            } else {
                self.position
            },
            velocity: self.velocity.spec_plus(accel.spec_scaled(dt)),
            accel,
            species: self.species,
            settings: self.settings,
            bounds: self.bounds,
        })
    }

    /// Lets the particle feel every particle of `other` for the time `dt`.
    /// `other` is the population as it stood before this step, and may hold
    /// the particle itself.
    pub fn interact(&mut self, dt: Fixed, other: &[Particle])
        requires
            old(self).wf(),
            old(self).accepts_all(other@),
        ensures
            *final(self) == old(self).spec_after_interact(dt, other@),
            final(self).wf(),
    {
        let effects: Vec<Effect> = effects_in_parallel(self, other);
        proof {
            assert(effects@ =~= self.spec_effects(other@));
        }
        let sums: Sums = tally_effects(&effects);
        let mut force: Vec2 = Vec2 {
            x: Fixed { raw: narrow(sums.force_x) },
            y: Fixed { raw: narrow(sums.force_y) },
        };
        if sums.overlaps > 1 {
            let n: i128 = sums.overlaps as i128;
            proof {
                lemma_quot_bounded(sums.clear_x as int, n as int);
                lemma_quot_bounded(sums.clear_y as int, n as int);
            }
            let target: Vec2 = Vec2 {
                x: Fixed { raw: narrow(sums.clear_x / n) },
                y: Fixed { raw: narrow(sums.clear_y / n) },
            };
            force = force.plus(target.minus(self.position).scaled(Fixed::from_int(10)));
            self.position = target;
        }
        self.accel = force.scaled(Fixed::from_int(100));
        self.velocity = self.velocity.plus(self.accel.scaled(dt));
    }
}

/// Maps `effect_of` over the neighbours on rayon's threads, with `par_iter`,
/// `map` and `collect`. A slice is an indexed parallel iterator, and rayon
/// collects one into a `Vec` by writing the item of index `i` into slot
/// `i`: entry `i` is the effect of neighbour `i`, whichever thread
/// computed it.
#[verifier::external_body]
fn effects_in_parallel(me: &Particle, others: &[Particle]) -> (r: Vec<Effect>)
    requires
        me.wf(),
        me.accepts_all(others@),
    ensures
        r@.len() == others@.len(),
        forall|i: int| 0 <= i < others@.len() ==> r@[i] == me.spec_effect_of(&others@[i]),
{
    others.par_iter().map(|o| me.effect_of(o)).collect()
}

} // verus!
