use std::sync::Arc;

use particle_life::fixed::Fixed;
use particle_life::interaction::{pair_effect, tally_effects, Effect};
use particle_life::particle::Particle;
use particle_life::settings::{Color, Interaction, SimulationSettings, Species};
use particle_life::vector::Vec2;

fn fx(raw: i64) -> Fixed {
    Fixed::from_raw(raw)
}

fn at(x: i32, y: i32) -> Vec2 {
    Vec2::new(Fixed::from_int(x), Fixed::from_int(y))
}

fn raw_at(x: i64, y: i64) -> Vec2 {
    Vec2::new(fx(x), fx(y))
}

fn rule(dist: i32, strength_raw: i64) -> Interaction {
    Interaction { dist: Fixed::from_int(dist), strength: fx(strength_raw) }
}

fn two_species(
    own: Interaction,
    first_to_second: Interaction,
    second_to_first: Interaction,
) -> Arc<SimulationSettings> {
    let table = vec![vec![own, first_to_second], vec![second_to_first, own]];
    let palette = vec![Color::from_rgba(255, 0, 0, 255), Color::from_rgba(0, 0, 255, 255)];
    let settings = SimulationSettings::new(
        table,
        palette,
        Fixed::from_int(5),
        Fixed::from_int(100),
        fx(900_000),
    );
    Arc::new(settings.unwrap())
}

fn particle(settings: &Arc<SimulationSettings>, species: usize, position: Vec2) -> Particle {
    Particle::new(
        settings.clone(),
        Species(species),
        position,
        Vec2::zero(),
        at(-1000, -1000),
        at(1000, 1000),
    )
    .unwrap()
}

#[test]
fn force_at_separation_fifty_is_a_tenth_along_the_line() {
    let settings = two_species(rule(0, 0), rule(50, 1_000_000), rule(10, -500_000));
    let a = particle(&settings, 0, at(0, 0));
    let b = particle(&settings, 1, at(50, 0));
    let effect = a.effect_of(&b);
    assert_eq!(effect.force, raw_at(100_000, 0));
    assert!(effect.separation.is_none());
}

#[test]
fn force_points_along_the_line_between_the_two() {
    let settings = two_species(rule(0, 0), rule(50, 1_000_000), rule(10, -500_000));
    let a = particle(&settings, 0, at(0, 0));
    let b = particle(&settings, 1, at(30, -40));
    let effect = a.effect_of(&b);
    assert_eq!(effect.force, raw_at(60_000, -80_000));
}

#[test]
fn interact_turns_force_into_acceleration_and_velocity() {
    let settings = two_species(rule(0, 0), rule(50, 1_000_000), rule(10, -500_000));
    let mut a = particle(&settings, 0, at(0, 0));
    let b = particle(&settings, 1, at(50, 0));
    let population = vec![a.clone(), b];
    a.interact(fx(500_000), &population);
    assert_eq!(a.accel, at(10, 0));
    assert_eq!(a.velocity, at(5, 0));
    assert_eq!(a.position, at(0, 0));
}

#[test]
fn lookup_goes_by_row_of_the_particle_and_column_of_the_neighbour() {
    let settings = two_species(rule(0, 0), rule(50, 1_000_000), rule(10, -500_000));
    let a = particle(&settings, 0, at(0, 0));
    let b = particle(&settings, 1, at(50, 0));
    assert_eq!(a.effect_of(&b).force, raw_at(100_000, 0));
    assert_eq!(b.effect_of(&a).force, raw_at(-150_000, 0));
    assert_eq!(settings.interaction(Species(0), Species(1)), &rule(50, 1_000_000));
    assert_eq!(settings.interaction(Species(1), Species(0)), &rule(10, -500_000));
}

#[test]
fn a_particle_exerts_no_force_on_itself() {
    let settings = two_species(rule(50, 1_000_000), rule(50, 1_000_000), rule(50, 1_000_000));
    let mut a = particle(&settings, 0, at(3, 4));
    a.velocity = at(1, 2);
    let effect = a.effect_of(&a);
    assert_eq!(effect.force, Vec2::zero());
    assert!(effect.separation.is_none());
    let population = vec![a.clone()];
    a.interact(Fixed::from_int(1), &population);
    assert_eq!(a.accel, Vec2::zero());
    assert_eq!(a.velocity, at(1, 2));
    assert_eq!(a.position, at(3, 4));
}

#[test]
fn an_empty_population_exerts_no_force() {
    let settings = two_species(rule(50, 1_000_000), rule(50, 1_000_000), rule(50, 1_000_000));
    let mut a = particle(&settings, 0, at(3, 4));
    a.velocity = at(1, 2);
    a.accel = at(9, 9);
    a.interact(Fixed::from_int(1), &[]);
    assert_eq!(a.accel, Vec2::zero());
    assert_eq!(a.velocity, at(1, 2));
    assert_eq!(a.position, at(3, 4));
}

#[test]
fn a_neighbour_nearer_than_the_threshold_is_skipped() {
    let settings = two_species(rule(50, 1_000_000), rule(50, 1_000_000), rule(50, 1_000_000));
    let a = particle(&settings, 0, at(0, 0));
    let near = particle(&settings, 1, raw_at(31_622, 0));
    let effect = a.effect_of(&near);
    assert_eq!(effect.force, Vec2::zero());
    assert!(effect.separation.is_none());
    let not_so_near = particle(&settings, 1, raw_at(31_623, 0));
    let effect = a.effect_of(&not_so_near);
    assert_eq!(effect.force, raw_at(599_683, 0));
    assert_eq!(effect.separation, Some(raw_at(-4_984_189, 0)));
}

#[test]
fn a_neighbour_beyond_the_reach_is_skipped() {
    let settings = two_species(rule(0, 0), rule(50, 1_000_000), rule(50, 1_000_000));
    let a = particle(&settings, 0, at(0, 0));
    let far = particle(&settings, 1, raw_at(100_000_001, 0));
    let effect = a.effect_of(&far);
    assert_eq!(effect.force, Vec2::zero());
    assert!(effect.separation.is_none());
    let diagonal = particle(&settings, 1, at(80, 61));
    assert_eq!(a.effect_of(&diagonal).force, Vec2::zero());
}

#[test]
fn a_neighbour_at_the_very_reach_still_acts() {
    let settings = two_species(rule(0, 0), rule(50, 1_000_000), rule(50, 1_000_000));
    let a = particle(&settings, 0, at(0, 0));
    let edge = particle(&settings, 1, at(100, 0));
    assert_eq!(a.effect_of(&edge).force, raw_at(-400_000, 0));
    let diagonal = particle(&settings, 1, at(80, 60));
    assert_eq!(a.effect_of(&diagonal).force, raw_at(-320_000, -240_000));
}

#[test]
fn neighbours_out_of_reach_do_not_change_the_pass() {
    let settings = two_species(rule(20, 700_000), rule(50, 1_000_000), rule(50, 1_000_000));
    let a = particle(&settings, 0, at(0, 0));
    let b = particle(&settings, 1, at(30, 40));
    let far = particle(&settings, 0, at(500, 500));
    let mut with = a.clone();
    with.interact(fx(16_000), &[far.clone(), a.clone(), b.clone(), far]);
    let mut without = a.clone();
    without.interact(fx(16_000), &[b]);
    assert_eq!(with.accel, without.accel);
    assert_eq!(with.velocity, without.velocity);
    assert_eq!(with.position, without.position);
}

#[test]
fn one_overlap_gives_a_point_of_separation_but_no_move() {
    let settings = two_species(rule(10, 1_000_000), rule(0, 0), rule(0, 0));
    let mut a = particle(&settings, 0, at(0, 0));
    let b = particle(&settings, 0, at(6, 0));
    let effect = a.effect_of(&b);
    assert_eq!(effect.force, raw_at(140_000, 0));
    assert_eq!(effect.separation, Some(at(-2, 0)));
    a.interact(fx(10_000), &[a.clone(), b]);
    assert_eq!(a.position, at(0, 0));
    assert_eq!(a.accel, at(14, 0));
    assert_eq!(a.velocity, raw_at(140_000, 0));
}

#[test]
fn two_overlaps_move_the_particle_to_the_mean_at_once() {
    let settings = two_species(rule(0, 0), rule(0, 0), rule(0, 0));
    let mut a = particle(&settings, 0, at(0, 0));
    let b = particle(&settings, 0, at(6, 0));
    let c = particle(&settings, 1, at(0, 8));
    assert_eq!(a.effect_of(&b).separation, Some(at(-2, 0)));
    assert_eq!(a.effect_of(&c).separation, Some(at(0, -1)));
    a.interact(fx(10_000), &[a.clone(), b, c]);
    assert_eq!(a.position, raw_at(-1_000_000, -500_000));
    assert_eq!(a.accel, at(-1000, -500));
    assert_eq!(a.velocity, at(-10, -5));
}

#[test]
fn three_overlaps_average_over_three() {
    let settings = two_species(rule(0, 0), rule(0, 0), rule(0, 0));
    let mut a = particle(&settings, 0, at(0, 0));
    let b = particle(&settings, 0, at(6, 0));
    let c = particle(&settings, 1, at(0, 8));
    let d = particle(&settings, 1, at(-4, 0));
    assert_eq!(a.effect_of(&d).separation, Some(at(3, 0)));
    a.interact(Fixed::zero(), &[b, c, d]);
    assert_eq!(a.position, raw_at(333_333, -333_333));
    assert_eq!(a.accel, raw_at(333_333_000, -333_333_000));
    assert_eq!(a.velocity, Vec2::zero());
}

#[test]
fn touching_at_exactly_twice_the_radius_is_no_overlap() {
    let settings = two_species(rule(0, 0), rule(0, 0), rule(0, 0));
    let a = particle(&settings, 0, at(0, 0));
    let b = particle(&settings, 0, at(10, 0));
    assert!(a.effect_of(&b).separation.is_none());
    let c = particle(&settings, 0, raw_at(9_999_999, 0));
    assert!(a.effect_of(&c).separation.is_some());
}

#[test]
fn the_pass_gives_the_same_state_every_time() {
    let settings = two_species(rule(20, 700_000), rule(50, 1_000_000), rule(10, -500_000));
    let mut population = Vec::new();
    for i in 0..40 {
        let mut p = particle(&settings, (i % 2) as usize, at(i * 3 - 60, (i * 7) % 50 - 25));
        p.velocity = at(i, -i);
        population.push(p);
    }
    let mut first = population[5].clone();
    first.interact(fx(16_666), &population);
    for _ in 0..20 {
        let mut again = population[5].clone();
        again.interact(fx(16_666), &population);
        assert_eq!(again.position, first.position);
        assert_eq!(again.velocity, first.velocity);
        assert_eq!(again.accel, first.accel);
    }
    assert_ne!(first.velocity, population[5].velocity);
}

#[test]
fn the_pass_is_the_sum_of_the_effects() {
    let settings = two_species(rule(30, 700_000), rule(50, 1_000_000), rule(10, -500_000));
    let a = particle(&settings, 0, at(0, 0));
    let others = vec![
        particle(&settings, 1, at(50, 0)),
        particle(&settings, 0, at(-30, 0)),
        particle(&settings, 1, at(0, 20)),
    ];
    let mut x: i64 = 0;
    let mut y: i64 = 0;
    for o in others.iter() {
        let e = a.effect_of(o);
        x += e.force.x.raw;
        y += e.force.y.raw;
    }
    assert_eq!((x, y), (100_000 - 70_000, 400_000));
    let mut moved = a.clone();
    moved.interact(Fixed::from_int(1), &others);
    assert_eq!(moved.accel, raw_at(x * 100, y * 100));
    assert_eq!(moved.velocity, raw_at(x * 100, y * 100));
}

#[test]
fn tally_adds_up_forces_points_and_overlaps() {
    let effects = vec![
        Effect { force: raw_at(5, -7), separation: None },
        Effect { force: raw_at(i64::MAX, i64::MIN), separation: Some(raw_at(10, 20)) },
        Effect { force: raw_at(i64::MAX, i64::MIN), separation: Some(raw_at(-4, 1)) },
        Effect::none(),
    ];
    let sums = tally_effects(&effects);
    assert_eq!(sums.force_x, 2 * (i64::MAX as i128) + 5);
    assert_eq!(sums.force_y, 2 * (i64::MIN as i128) - 7);
    assert_eq!(sums.clear_x, 6);
    assert_eq!(sums.clear_y, 21);
    assert_eq!(sums.overlaps, 2);
    let empty = tally_effects(&Vec::new());
    assert_eq!((empty.force_x, empty.force_y, empty.clear_x, empty.clear_y, empty.overlaps), (0, 0, 0, 0, 0));
}

#[test]
fn pair_effect_goes_by_the_rule_it_is_given() {
    let here = at(0, 0);
    let there = at(50, 0);
    let size = Fixed::from_int(5);
    let reach = Fixed::from_int(100);
    assert_eq!(pair_effect(here, there, rule(50, 1_000_000), size, reach).force, raw_at(100_000, 0));
    assert_eq!(pair_effect(here, there, rule(50, -2_000_000), size, reach).force, raw_at(-200_000, 0));
    assert_eq!(pair_effect(here, there, rule(40, 1_000_000), size, reach).force, Vec2::zero());
    assert_eq!(pair_effect(here, there, rule(0, 1_000_000), size, reach).force, raw_at(-400_000, 0));
}

#[test]
fn particles_of_other_settings_are_known_by_their_species() {
    let settings = two_species(rule(0, 0), rule(0, 0), rule(0, 0));
    let a = particle(&settings, 0, at(0, 0));
    let b = particle(&settings, 1, at(1, 1));
    assert!(a.knows_all(&[a.clone(), b.clone()]));
    assert!(a.knows_all(&[]));
    let mut stranger = b.clone();
    stranger.species = Species(2);
    assert!(!a.knows_all(&[b, stranger.clone()]));
    assert!(!stranger.is_well_formed());
    assert!(a.is_well_formed());
}

#[test]
fn the_order_of_the_population_is_immaterial() {
    let settings = two_species(rule(20, 700_000), rule(50, 1_000_000), rule(10, -500_000));
    let mut population = Vec::new();
    for i in 0..30 {
        population.push(particle(&settings, (i % 2) as usize, at(i * 2 - 30, (i * 11) % 40 - 20)));
    }
    let mut forward = population[7].clone();
    forward.interact(fx(16_666), &population);
    let mut reversed = population.clone();
    reversed.reverse();
    let mut backward = population[7].clone();
    backward.interact(fx(16_666), &reversed);
    assert_eq!(forward.position, backward.position);
    assert_eq!(forward.velocity, backward.velocity);
    assert_eq!(forward.accel, backward.accel);
    assert_ne!(forward.accel, Vec2::zero());
}
