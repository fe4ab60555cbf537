use nbody::body::Body;
use nbody::generation::{draw_body, draw_magnitude, effective_seed, GenerationSettings};
use nbody::universe::{Universe, UniverseSettings};
use notan::math::DVec2;
use notan::random::rand::Rng;
use notan::random::utils::Random;
use std::ops::Range;

fn less(a: &f64, b: &f64) -> bool {
    a < b
}

fn sample(mut generator: Random, range: &Range<f64>) -> (f64, Random) {
    let value = generator.random_range(range.clone());
    (value, generator)
}

fn turn_back(angle: &f64) -> f64 {
    angle - std::f64::consts::PI / 2.0
}

fn polar(angle: &f64, magnitude: &f64) -> DVec2 {
    DVec2::new(angle.cos(), angle.sin()) * *magnitude
}

fn full_turn() -> Range<f64> {
    0.0..(std::f64::consts::PI * 2.0)
}

fn settings(seed: u64, body_amount: usize) -> GenerationSettings<f64> {
    GenerationSettings {
        seed,
        body_amount,
        position_range: 0.0..250.0,
        velocity_range: 0.0..125.0,
        mass_range: 1.0..10.0,
        tangential_velocity: false,
    }
}

fn empty_universe() -> Universe<DVec2, f64> {
    Universe::new(UniverseSettings { gravitational_constant: 100.0, enable_collisions: true })
}

fn generate(from: &GenerationSettings<f64>, clock_seconds: u64) -> Vec<Body<DVec2, f64>> {
    let mut universe = empty_universe();
    universe.generate_bodies(from, clock_seconds, &full_turn(), &less, &sample, &turn_back, &polar);
    universe.bodies
}

fn same(first: &Vec<Body<DVec2, f64>>, second: &Vec<Body<DVec2, f64>>) -> bool {
    if first.len() != second.len() {
        return false;
    }
    for k in 0..first.len() {
        let (a, b) = (&first[k], &second[k]);
        if a.position.x.to_bits() != b.position.x.to_bits()
            || a.position.y.to_bits() != b.position.y.to_bits()
            || a.velocity.x.to_bits() != b.velocity.x.to_bits()
            || a.velocity.y.to_bits() != b.velocity.y.to_bits()
            || a.mass.to_bits() != b.mass.to_bits()
        {
            return false;
        }
    }
    true
}

#[test]
fn effective_seed_keeps_a_seed_that_is_not_zero() {
    assert_eq!(effective_seed(7, 1_700_000_000), 7);
    assert_eq!(effective_seed(u64::MAX, 0), u64::MAX);
    assert_eq!(effective_seed(1, 0), 1);
}

#[test]
fn effective_seed_takes_the_clock_for_zero() {
    assert_eq!(effective_seed(0, 1_700_000_000), 1_700_000_000);
    assert_eq!(effective_seed(0, 0), 0);
}

#[test]
fn same_seed_gives_the_same_bodies() {
    let first = generate(&settings(42, 50), 1_000);
    let second = generate(&settings(42, 50), 2_000);
    assert_eq!(first.len(), 50);
    assert!(same(&first, &second));
}

#[test]
fn different_seeds_give_different_bodies() {
    let first = generate(&settings(42, 50), 1_000);
    let second = generate(&settings(43, 50), 1_000);
    assert!(!same(&first, &second));
}

#[test]
fn seed_zero_follows_the_clock() {
    let first = generate(&settings(0, 20), 1_000);
    let second = generate(&settings(0, 20), 1_001);
    assert!(!same(&first, &second));
    // and it is the clock reading that seeds the generator
    let seeded = generate(&settings(1_000, 20), 5);
    assert!(same(&first, &seeded));
}

#[test]
fn generator_is_the_one_that_the_seed_names() {
    // the first body, drawn here by hand from a generator of the same seed
    let mut generator = Random::new(42);
    let position_angle = generator.random_range(full_turn());
    let velocity_angle = generator.random_range(full_turn());
    let position_magnitude = generator.random_range(0.0..250.0);
    let velocity_magnitude = generator.random_range(0.0..125.0);
    let mass = generator.random_range(1.0..10.0);
    let bodies = generate(&settings(42, 3), 9);
    assert_eq!(bodies[0].position, polar(&position_angle, &position_magnitude));
    assert_eq!(bodies[0].velocity, polar(&velocity_angle, &velocity_magnitude));
    assert_eq!(bodies[0].mass, mass);
    // the second body goes on where the first one stopped
    let next_angle = generator.random_range(full_turn());
    let _ = generator.random_range(full_turn());
    let next_magnitude = generator.random_range(0.0..250.0);
    assert_eq!(bodies[1].position, polar(&next_angle, &next_magnitude));
}

#[test]
fn no_bodies_asked_for_gives_an_empty_universe() {
    let bodies = generate(&settings(42, 0), 1);
    assert_eq!(bodies.len(), 0);
}

#[test]
fn generation_replaces_the_population() {
    let mut universe = empty_universe();
    universe.bodies.push(Body {
        position: DVec2::new(1.0, 1.0),
        velocity: DVec2::new(0.0, 0.0),
        mass: 77.0,
    });
    universe.generate_bodies(
        &settings(3, 4),
        0,
        &full_turn(),
        &less,
        &sample,
        &turn_back,
        &polar,
    );
    assert_eq!(universe.bodies.len(), 4);
    for b in universe.bodies.iter() {
        assert!(b.mass != 77.0);
    }
    assert_eq!(universe.universe_settings.gravitational_constant, 100.0);
    assert!(universe.universe_settings.enable_collisions);
    universe.generate_bodies(
        &settings(3, 0),
        0,
        &full_turn(),
        &less,
        &sample,
        &turn_back,
        &polar,
    );
    assert_eq!(universe.bodies.len(), 0);
}

#[test]
fn drawn_values_lie_in_their_ranges() {
    let bodies = generate(&settings(11, 200), 0);
    assert_eq!(bodies.len(), 200);
    for b in bodies.iter() {
        assert!(b.position.length() < 250.0 + 1e-9);
        assert!(b.velocity.length() < 125.0 + 1e-9);
        assert!(b.mass >= 1.0 && b.mass < 10.0);
    }
}

#[test]
fn empty_position_range_collapses_to_its_start() {
    let mut from = settings(5, 100);
    from.position_range = 5.0..5.0;
    let bodies = generate(&from, 0);
    assert_eq!(bodies.len(), 100);
    for b in bodies.iter() {
        assert!((b.position.length() - 5.0).abs() < 1e-12);
    }
}

#[test]
fn empty_ranges_draw_nothing() {
    // with all three ranges empty only the two angles are drawn
    let mut from = settings(5, 2);
    from.position_range = 5.0..5.0;
    from.velocity_range = 2.0..2.0;
    from.mass_range = 3.0..3.0;
    let bodies = generate(&from, 0);
    let mut generator = Random::new(5);
    let a0 = generator.random_range(full_turn());
    let b0 = generator.random_range(full_turn());
    let a1 = generator.random_range(full_turn());
    let b1 = generator.random_range(full_turn());
    assert_eq!(bodies[0].position, polar(&a0, &5.0));
    assert_eq!(bodies[0].velocity, polar(&b0, &2.0));
    assert_eq!(bodies[0].mass, 3.0);
    assert_eq!(bodies[1].position, polar(&a1, &5.0));
    assert_eq!(bodies[1].velocity, polar(&b1, &2.0));
    assert_eq!(bodies[1].mass, 3.0);
}

#[test]
fn draw_magnitude_of_an_empty_range_leaves_the_generator() {
    let (value, mut after) = draw_magnitude(Random::new(9), &(5.0..5.0), &less, &sample);
    assert_eq!(value, 5.0);
    let mut fresh = Random::new(9);
    assert_eq!(after.random_range(0.0..1.0), fresh.random_range(0.0..1.0));
}

#[test]
fn draw_magnitude_of_a_reversed_range_takes_its_start() {
    let (value, _) = draw_magnitude(Random::new(9), &(5.0..1.0), &less, &sample);
    assert_eq!(value, 5.0);
}

#[test]
fn draw_magnitude_samples_a_range_that_is_not_empty() {
    let (value, mut after) = draw_magnitude(Random::new(9), &(1.0..2.0), &less, &sample);
    let mut fresh = Random::new(9);
    assert_eq!(value, fresh.random_range(1.0..2.0));
    assert!(value >= 1.0 && value < 2.0);
    assert_eq!(after.random_range(0.0..1.0), fresh.random_range(0.0..1.0));
}

#[test]
fn tangential_velocity_is_at_right_angles_to_the_position() {
    let mut from = settings(8, 100);
    from.tangential_velocity = true;
    let bodies = generate(&from, 0);
    for b in bodies.iter() {
        let cosine = b.position.normalize().dot(b.velocity.normalize());
        assert!(cosine.abs() < 1e-9);
    }
}

#[test]
fn tangential_velocity_draws_one_angle_only() {
    let mut from = settings(8, 1);
    from.tangential_velocity = true;
    let bodies = generate(&from, 0);
    let mut generator = Random::new(8);
    let angle = generator.random_range(full_turn());
    let position_magnitude = generator.random_range(0.0..250.0);
    let velocity_magnitude = generator.random_range(0.0..125.0);
    let mass = generator.random_range(1.0..10.0);
    assert_eq!(bodies[0].position, polar(&angle, &position_magnitude));
    assert_eq!(bodies[0].velocity, polar(&turn_back(&angle), &velocity_magnitude));
    assert_eq!(bodies[0].mass, mass);
}

#[test]
fn draw_body_hands_the_generator_on() {
    let from = settings(1, 1);
    let (first, after) =
        draw_body(Random::new(21), &from, &full_turn(), &less, &sample, &turn_back, &polar);
    let (second, _) = draw_body(after, &from, &full_turn(), &less, &sample, &turn_back, &polar);
    let bodies = generate(&settings(21, 2), 0);
    assert_eq!(bodies[0].position, first.position);
    assert_eq!(bodies[0].mass, first.mass);
    assert_eq!(bodies[1].position, second.position);
    assert_eq!(bodies[1].velocity, second.velocity);
    assert_eq!(bodies[1].mass, second.mass);
}
