//! The tunables of a run: the table of interactions between species, the
//! palette, and the global constants of the force law.

use vstd::prelude::*;
use crate::fixed::{Fixed, SCALE};
use crate::rng::{draw_between, reseed};

verus! {

/// How one species responds to another.
#[derive(Clone, Copy, Debug, PartialEq, Eq, Structural)]
pub struct Interaction {
    /// The gap between two surfaces at which the force vanishes.
    pub dist: Fixed,
    /// The scale of the force; its sign is the sign of the force at
    /// contact.
    pub strength: Fixed,
}

/// An index into the palette and into both axes of the interaction table.
#[derive(Clone, Copy, Debug, PartialEq, Eq, Structural)]
pub struct Species(pub usize);

/// A colour with four channels, each between zero and one.
#[derive(Clone, Copy, Debug, PartialEq, Eq, Structural)]
pub struct Color {
    pub r: Fixed,
    pub g: Fixed,
    pub b: Fixed,
    pub a: Fixed,
}

/// The channel value of a byte: the byte over 255, rounded down.
pub open spec fn channel(byte: u8) -> Fixed {
    (Fixed { raw: ((byte as int) * SCALE / 255) as i64 })
}

fn channel_of(byte: u8) -> (r: Fixed)
    ensures
        r == channel(byte),
{
    let wide: i64 = byte as i64;
    Fixed { raw: wide * 1_000_000 / 255 }
}

impl Color {
    pub open spec fn spec_from_rgba(r: u8, g: u8, b: u8, a: u8) -> Color {
        (Color { r: channel(r), g: channel(g), b: channel(b), a: channel(a) })
    }

    pub open spec fn spec_gray(level: Fixed) -> Color {
        (Color { r: level, g: level, b: level, a: Fixed { raw: SCALE } })
    }

    /// The colour of four bytes.
    #[verifier::when_used_as_spec(spec_from_rgba)]
    pub fn from_rgba(r: u8, g: u8, b: u8, a: u8) -> (c: Color)
        ensures
            c == Color::spec_from_rgba(r, g, b, a),
    {
        Color { r: channel_of(r), g: channel_of(g), b: channel_of(b), a: channel_of(a) }
    }

    /// The opaque grey between black, at level zero, and white, at level
    /// one.
    #[verifier::when_used_as_spec(spec_gray)]
    pub fn gray(level: Fixed) -> (c: Color)
        ensures
            c == Color::spec_gray(level),
    {
        Color { r: level, g: level, b: level, a: Fixed { raw: SCALE } }
    }
}

/// The palette that a fresh set of settings starts with.
pub open spec fn default_palette() -> Seq<Color> {
    seq![
        Color::spec_from_rgba(243, 139, 168, 255),
        Color::spec_from_rgba(250, 179, 135, 255),
        Color::spec_from_rgba(249, 226, 175, 255),
        Color::spec_from_rgba(166, 227, 161, 255),
        Color::spec_from_rgba(148, 226, 213, 255),
        Color::spec_from_rgba(137, 180, 250, 255),
        Color::spec_from_rgba(203, 166, 247, 255),
    ]
}

/// Builds the default palette.
pub fn palette() -> (r: Vec<Color>)
    ensures
        r@ == default_palette(),
{
    let mut r: Vec<Color> = Vec::new();
    r.push(Color::from_rgba(243, 139, 168, 255));
    r.push(Color::from_rgba(250, 179, 135, 255));
    r.push(Color::from_rgba(249, 226, 175, 255));
    r.push(Color::from_rgba(166, 227, 161, 255));
    r.push(Color::from_rgba(148, 226, 213, 255));
    r.push(Color::from_rgba(137, 180, 250, 255));
    r.push(Color::from_rgba(203, 166, 247, 255));
    assert(r@ =~= default_palette());
    r
}

/// Everything that is shared by the particles of a run.
#[derive(Clone, Debug)]
pub struct SimulationSettings {
    /// Row `a`, column `b`: what a particle of species `a` feels from one
    /// of species `b`.
    pub species_relations: Vec<Vec<Interaction>>,
    /// One colour for each species.
    pub species: Vec<Color>,
    /// The radius of a particle.
    pub particle_size: Fixed,
    /// The distance beyond which no force acts.
    pub interaction_dist: Fixed,
    /// What is left of a velocity after one step of integration.
    pub friction: Fixed,
}

impl SimulationSettings {
    /// The number of species.
    pub open spec fn species_count(&self) -> nat {
        self.species@.len()
    }

    /// The table is square with one row and one column for each species,
    /// the friction lies in `[0, 1)`, and both lengths are positive.
    pub open spec fn valid(&self) -> bool {
        &&& self.species_relations@.len() == self.species@.len()
        &&& forall|i: int|
            0 <= i < self.species_relations@.len() ==> (#[trigger] self.species_relations@[i])@.len()
                == self.species@.len()
        &&& 0 <= self.friction.raw < SCALE
        &&& self.interaction_dist.raw > 0
        &&& self.particle_size.raw > 0
    }

    /// The entry of the table for the ordered pair `(first, second)`.
    pub open spec fn spec_interaction(&self, first: Species, second: Species) -> Interaction {
        self.species_relations@[first.0 as int]@[second.0 as int]
    }

    /// Puts the parts together, and refuses them unless they are valid.
    pub fn new(
        species_relations: Vec<Vec<Interaction>>,
        species: Vec<Color>,
        particle_size: Fixed,
        interaction_dist: Fixed,
        friction: Fixed,
    ) -> (r: Option<SimulationSettings>)
        ensures
            match r {
                Some(s) => s.valid() && s == (SimulationSettings {
                    species_relations,
                    species,
                    particle_size,
                    interaction_dist,
                    friction,
                }),
                None => !(SimulationSettings {
                    species_relations,
                    species,
                    particle_size,
                    interaction_dist,
                    friction,
                }).valid(),
            },
    {
        let s = SimulationSettings {
            species_relations,
            species,
            particle_size,
            interaction_dist,
            friction,
        };
        if s.is_valid() {
            Some(s)
        } else {
            None
        }
    }

    /// Every entry of the table is one that `random` may draw: a distance
    /// from 0 up to 100 and a strength from -2 up to 1, the upper ends left
    /// out.
    pub open spec fn drawn(&self) -> bool {
        forall|i: int, j: int|
            0 <= i < self.species_relations@.len() && 0 <= j < self.species_relations@[i]@.len()
                ==> Self::drawn_entry(#[trigger] self.species_relations@[i]@[j])
    }

    pub open spec fn drawn_entry(e: Interaction) -> bool {
        &&& 0 <= e.dist.raw < 100 * SCALE
        &&& -2 * SCALE <= e.strength.raw < SCALE
    }

    /// Fresh settings: the default palette, friction 0.9, forces that reach
    /// 70 units, particles of radius 5, and a table drawn entry by entry
    /// from the shared generator, which is first restarted from `seed`.
    pub fn random(seed: u64) -> (r: SimulationSettings)
        ensures
            r.valid(),
            r.species@ == default_palette(),
            r.friction == (Fixed { raw: 900_000 }),
            r.interaction_dist == Fixed::spec_from_int(70),
            r.particle_size == Fixed::spec_from_int(5),
            r.drawn(),
    {
        let species: Vec<Color> = palette();
        let count: usize = species.len();
        reseed(seed);
        let mut table: Vec<Vec<Interaction>> = Vec::new();
        let mut i: usize = 0;
        while i < count
            invariant
                i <= count,
                table@.len() == i,
                forall|a: int| 0 <= a < i ==> (#[trigger] table@[a])@.len() == count,
                forall|a: int, b: int|
                    0 <= a < i && 0 <= b < count ==> Self::drawn_entry(#[trigger] table@[a]@[b]),
            decreases count - i,
        {
            let mut row: Vec<Interaction> = Vec::new();
            let mut j: usize = 0;
            while j < count
                invariant
                    j <= count,
                    row@.len() == j,
                    forall|b: int| 0 <= b < j ==> Self::drawn_entry(#[trigger] row@[b]),
                decreases count - j,
            {
                let dist: i64 = draw_between(0, 100_000_000);
                let strength: i64 = draw_between(-2_000_000, 1_000_000);
                row.push(Interaction { dist: Fixed { raw: dist }, strength: Fixed { raw: strength } });
                j += 1;
            }
            table.push(row);
            i += 1;
        }
        SimulationSettings {
            species_relations: table,
            species,
            particle_size: Fixed::from_int(5),
            interaction_dist: Fixed::from_int(70),
            friction: Fixed { raw: 900_000 },
        }
    }

    /// Tests validity.
    pub fn is_valid(&self) -> (r: bool)
        ensures
            r == self.valid(),
    {
        let n: usize = self.species.len();
        if self.species_relations.len() != n {
            return false;
        }
        if self.friction.raw < 0 || self.friction.raw >= SCALE {
            return false;
        }
        if self.interaction_dist.raw <= 0 || self.particle_size.raw <= 0 {
            return false;
        }
        let mut i: usize = 0;
        while i < n
            invariant
                i <= n,
                n == self.species@.len(),
                n == self.species_relations@.len(),
                forall|k: int| 0 <= k < i ==> (#[trigger] self.species_relations@[k])@.len() == n,
            decreases n - i,
        {
            if self.species_relations[i].len() != n {
                return false;
            }
            i += 1;
        }
        true
    }

    /// The number of species.
    pub fn count(&self) -> (r: usize)
        ensures
            r == self.species_count(),
    {
        self.species.len()
    }

    /// The colour of a species, if the palette has one for it.
    pub fn species_color(&self, species: Species) -> (r: Option<Color>)
        ensures
            r == if species.0 < self.species_count() {
                Some(self.species@[species.0 as int])
            } else {
                None
            },
    {
        if species.0 < self.species.len() {
            Some(self.species[species.0])
        } else {
            None
        }
    }

    /// What a particle of species `first` feels from one of species
    /// `second`. The order matters: the table need not be symmetric.
    pub fn interaction(&self, first: Species, second: Species) -> (r: &Interaction)
        requires
            self.valid(),
            first.0 < self.species_count(),
            second.0 < self.species_count(),
        ensures
            *r == self.spec_interaction(first, second),
    {
        &self.species_relations[first.0][second.0]
    }
}

} // verus!
