use nbody::body::Body;
use nbody::collision::{first_contact, merge_pair, resolve_collisions, settle};
use nbody::gravity::{apply_gravity, pull_pair};
use nbody::universe::{integrate, Universe, UniverseSettings};
use notan::math::DVec2;

type Mass = Body<DVec2, f64>;

fn body(x: f64, y: f64, vx: f64, vy: f64, mass: f64) -> Mass {
    Body { position: DVec2::new(x, y), velocity: DVec2::new(vx, vy), mass }
}

fn still(x: f64, y: f64, mass: f64) -> Mass {
    body(x, y, 0.0, 0.0, mass)
}

fn collides(a: &Mass, b: &Mass) -> bool {
    a.position.distance(b.position) <= a.mass.cbrt() + b.mass.cbrt()
}

fn never(_a: &Mass, _b: &Mass) -> bool {
    false
}

fn merge(a: &Mass, b: &Mass) -> Mass {
    let total_mass = a.mass + b.mass;
    let first_share = a.mass / total_mass;
    let second_share = 1.0 - first_share;
    Body {
        position: a.position * first_share + b.position * second_share,
        velocity: a.velocity * first_share + b.velocity * second_share,
        mass: total_mass,
    }
}

fn pull(a: &Mass, b: &Mass, constant: &f64, delta_time: &f64) -> Option<(DVec2, DVec2)> {
    let distance_squared = a.position.distance_squared(b.position);
    if distance_squared > 0.0 {
        let force = (b.position - a.position).normalize() * *constant / distance_squared;
        Some((
            a.velocity + force * b.mass * *delta_time,
            b.velocity - force * a.mass * *delta_time,
        ))
    } else {
        None
    }
}

fn advance(position: &DVec2, velocity: &DVec2, delta_time: &f64) -> DVec2 {
    *position + *velocity * *delta_time
}

fn universe(constant: f64, enable_collisions: bool, bodies: Vec<Mass>) -> Universe<DVec2, f64> {
    let mut made = Universe::new(UniverseSettings {
        gravitational_constant: constant,
        enable_collisions,
    });
    made.bodies = bodies;
    made
}

fn masses(bodies: &Vec<Mass>) -> Vec<f64> {
    let mut out = Vec::new();
    for b in bodies.iter() {
        out.push(b.mass);
    }
    out
}

#[test]
fn new_universe_is_empty_and_keeps_its_settings() {
    let made: Universe<DVec2, f64> = Universe::new(UniverseSettings {
        gravitational_constant: 100.0,
        enable_collisions: true,
    });
    assert_eq!(made.bodies.len(), 0);
    assert_eq!(made.universe_settings.gravitational_constant, 100.0);
    assert!(made.universe_settings.enable_collisions);
}

#[test]
fn body_update_moves_along_the_velocity() {
    let mut b = body(1.0, 2.0, 3.0, -4.0, 5.0);
    b.update(&0.5, &advance);
    assert_eq!(b.position, DVec2::new(2.5, 0.0));
    assert_eq!(b.velocity, DVec2::new(3.0, -4.0));
    assert_eq!(b.mass, 5.0);
}

#[test]
fn body_update_with_no_time_changes_nothing() {
    let mut b = body(1.0, 2.0, 3.0, -4.0, 5.0);
    b.update(&0.0, &advance);
    assert_eq!(b.position, DVec2::new(1.0, 2.0));
}

#[test]
fn integrate_moves_every_body_once() {
    let mut bodies = vec![body(0.0, 0.0, 1.0, 0.0, 1.0), body(5.0, 5.0, 0.0, -2.0, 3.0)];
    integrate(&mut bodies, &2.0, &advance);
    assert_eq!(bodies.len(), 2);
    assert_eq!(bodies[0].position, DVec2::new(2.0, 0.0));
    assert_eq!(bodies[1].position, DVec2::new(5.0, 1.0));
    assert_eq!(bodies[0].velocity, DVec2::new(1.0, 0.0));
    assert_eq!(bodies[1].mass, 3.0);
}

#[test]
fn two_bodies_attract_each_other_symmetrically() {
    let mut u = universe(1.0, false, vec![still(0.0, 0.0, 1.0), still(1.0, 0.0, 1.0)]);
    u.update(&1.0, &collides, &merge, &pull, &advance);
    assert_eq!(u.bodies.len(), 2);
    assert!(u.bodies[0].velocity.x > 0.0);
    assert!(u.bodies[1].velocity.x < 0.0);
    assert_eq!(u.bodies[0].velocity.x, -u.bodies[1].velocity.x);
    assert_eq!(u.bodies[0].velocity, DVec2::new(1.0, 0.0));
    assert_eq!(u.bodies[1].velocity, DVec2::new(-1.0, 0.0));
    // positions move by the velocity that the forces have just made
    assert_eq!(u.bodies[0].position, DVec2::new(1.0, 0.0));
    assert_eq!(u.bodies[1].position, DVec2::new(0.0, 0.0));
}

#[test]
fn force_follows_the_inverse_square_and_the_other_mass() {
    let mut u = universe(8.0, false, vec![still(0.0, 0.0, 3.0), still(0.0, 2.0, 5.0)]);
    u.update(&0.5, &collides, &merge, &pull, &advance);
    // 8 / 4 = 2 along +y; times the other mass, times the time
    assert_eq!(u.bodies[0].velocity, DVec2::new(0.0, 5.0));
    assert_eq!(u.bodies[1].velocity, DVec2::new(0.0, -3.0));
    assert_eq!(u.bodies[0].position, DVec2::new(0.0, 2.5));
    assert_eq!(u.bodies[1].position, DVec2::new(0.0, 0.5));
    assert_eq!(masses(&u.bodies), vec![3.0, 5.0]);
}

#[test]
fn negative_constant_repels() {
    let mut u = universe(-1.0, false, vec![still(0.0, 0.0, 1.0), still(1.0, 0.0, 1.0)]);
    u.update(&1.0, &collides, &merge, &pull, &advance);
    assert_eq!(u.bodies[0].velocity, DVec2::new(-1.0, 0.0));
    assert_eq!(u.bodies[1].velocity, DVec2::new(1.0, 0.0));
}

#[test]
fn colliding_pair_merges_into_one_body() {
    let mut u = universe(1.0, true, vec![still(0.0, 0.0, 1.0), still(0.01, 0.0, 1.0)]);
    u.update(&1.0, &collides, &merge, &pull, &advance);
    assert_eq!(u.bodies.len(), 1);
    assert_eq!(u.bodies[0].mass, 2.0);
    assert_eq!(u.bodies[0].position, DVec2::new(0.005, 0.0));
    assert_eq!(u.bodies[0].velocity, DVec2::new(0.0, 0.0));
}

#[test]
fn merge_weighs_position_and_velocity_by_mass() {
    let mut bodies = vec![body(0.0, 0.0, 4.0, 0.0, 1.0), body(1.0, 0.0, 0.0, 8.0, 3.0)];
    resolve_collisions(&mut bodies, &collides, &merge);
    assert_eq!(bodies.len(), 1);
    assert_eq!(bodies[0].mass, 4.0);
    assert_eq!(bodies[0].position, DVec2::new(0.75, 0.0));
    assert_eq!(bodies[0].velocity, DVec2::new(1.0, 6.0));
}

#[test]
fn bodies_touch_at_exactly_the_sum_of_their_radii() {
    // radii 1 and 2, centres 3 apart
    let mut bodies = vec![still(0.0, 0.0, 1.0), still(3.0, 0.0, 8.0)];
    assert_eq!(first_contact(&bodies, 0, &collides), Some(1));
    bodies[1].position = DVec2::new(3.5, 0.0);
    assert_eq!(first_contact(&bodies, 0, &collides), None);
}

#[test]
fn disabled_collisions_merge_nothing() {
    let mut u = universe(0.0, false, vec![still(0.0, 0.0, 1.0), still(0.01, 0.0, 1.0)]);
    u.update(&1.0, &collides, &merge, &pull, &advance);
    assert_eq!(u.bodies.len(), 2);
    assert_eq!(masses(&u.bodies), vec![1.0, 1.0]);
}

#[test]
fn first_contact_takes_the_lowest_partner() {
    let bodies = vec![
        still(0.0, 0.0, 1.0),
        still(100.0, 0.0, 1.0),
        still(0.5, 0.0, 1.0),
        still(0.25, 0.0, 1.0),
    ];
    assert_eq!(first_contact(&bodies, 0, &collides), Some(2));
    assert_eq!(first_contact(&bodies, 1, &collides), None);
    assert_eq!(first_contact(&bodies, 2, &collides), Some(3));
    assert_eq!(first_contact(&bodies, 3, &collides), None);
    assert_eq!(first_contact(&bodies, 4, &collides), None);
    assert_eq!(first_contact(&bodies, 17, &collides), None);
}

#[test]
fn merge_pair_appends_and_removes_both() {
    let mut bodies = vec![
        still(0.0, 0.0, 1.0),
        still(1.0, 0.0, 2.0),
        still(2.0, 0.0, 3.0),
        still(3.0, 0.0, 4.0),
    ];
    merge_pair(&mut bodies, 1, 3, still(9.0, 9.0, 6.0));
    assert_eq!(masses(&bodies), vec![1.0, 3.0, 6.0]);
    assert_eq!(bodies[2].position, DVec2::new(9.0, 9.0));
}

#[test]
fn settle_reports_whether_it_merged() {
    let mut bodies = vec![still(0.0, 0.0, 1.0), still(50.0, 0.0, 1.0), still(0.5, 0.0, 2.0)];
    assert!(!settle(&mut bodies, 1, &collides, &merge));
    assert_eq!(masses(&bodies), vec![1.0, 1.0, 2.0]);
    assert!(settle(&mut bodies, 0, &collides, &merge));
    assert_eq!(masses(&bodies), vec![1.0, 3.0]);
    assert!(!settle(&mut bodies, 5, &collides, &merge));
    assert_eq!(masses(&bodies), vec![1.0, 3.0]);
}

#[test]
fn sweep_merges_at_most_once_per_index() {
    // all four overlap: index 0 merges a and b, index 1 then merges d with
    // the new body, and the last two indices find nothing behind them
    let mut bodies = vec![
        still(0.0, 0.0, 1.0),
        still(0.1, 0.0, 2.0),
        still(0.2, 0.0, 4.0),
        still(0.3, 0.0, 8.0),
    ];
    resolve_collisions(&mut bodies, &collides, &merge);
    assert_eq!(masses(&bodies), vec![4.0, 11.0]);
}

#[test]
fn sweep_goes_on_with_the_shifted_population() {
    // 0 touches 2 only; after the merge the far body stands at index 0 and
    // the merged one at index 1
    let mut bodies = vec![still(0.0, 0.0, 1.0), still(100.0, 0.0, 2.0), still(0.5, 0.0, 4.0)];
    resolve_collisions(&mut bodies, &collides, &merge);
    assert_eq!(masses(&bodies), vec![2.0, 5.0]);
    assert_eq!(bodies[0].position, DVec2::new(100.0, 0.0));
    assert_eq!(bodies[1].position, DVec2::new(0.4, 0.0));
}

#[test]
fn sweep_leaves_distant_bodies_alone() {
    let mut bodies = vec![still(0.0, 0.0, 1.0), still(10.0, 0.0, 1.0), still(20.0, 0.0, 1.0)];
    resolve_collisions(&mut bodies, &collides, &merge);
    assert_eq!(masses(&bodies), vec![1.0, 1.0, 1.0]);
    assert_eq!(bodies[1].position, DVec2::new(10.0, 0.0));
}

#[test]
fn sweep_of_nothing_is_nothing() {
    let mut bodies: Vec<Mass> = Vec::new();
    resolve_collisions(&mut bodies, &collides, &merge);
    assert_eq!(bodies.len(), 0);
}

#[test]
fn step_conserves_the_total_mass() {
    let mut u = universe(
        1.0,
        true,
        vec![
            still(0.0, 0.0, 1.0),
            still(0.1, 0.0, 2.0),
            still(50.0, 0.0, 4.0),
            still(50.0, 0.5, 8.0),
            still(-70.0, 3.0, 16.0),
        ],
    );
    let before: f64 = masses(&u.bodies).iter().sum();
    u.update(&0.25, &collides, &merge, &pull, &advance);
    let after: f64 = masses(&u.bodies).iter().sum();
    assert_eq!(before, 31.0);
    assert_eq!(after, 31.0);
    // the first two merge; the body that moves down to index 0 is not
    // looked at again in this step, so the other close pair stays apart
    assert_eq!(masses(&u.bodies), vec![4.0, 8.0, 16.0, 3.0]);
}

#[test]
fn merged_mass_is_the_sum_of_the_two() {
    let merged = merge(&still(0.0, 0.0, 0.1), &still(0.0, 0.0, 0.2));
    assert_eq!(merged.mass, 0.1 + 0.2);
    let mut bodies = vec![still(0.0, 0.0, 0.1), still(0.0, 0.0, 0.2)];
    resolve_collisions(&mut bodies, &collides, &merge);
    assert_eq!(bodies.len(), 1);
    assert_eq!(bodies[0].mass, 0.1 + 0.2);
}

#[test]
fn lone_body_keeps_its_velocity() {
    let mut u = universe(100.0, false, vec![body(1.0, 1.0, 2.0, -3.0, 7.0)]);
    for _ in 0..10 {
        u.update(&0.5, &collides, &merge, &pull, &advance);
    }
    assert_eq!(u.bodies.len(), 1);
    assert_eq!(u.bodies[0].velocity, DVec2::new(2.0, -3.0));
    assert_eq!(u.bodies[0].mass, 7.0);
    assert_eq!(u.bodies[0].position, DVec2::new(11.0, -14.0));
}

#[test]
fn lone_body_keeps_its_velocity_with_collisions_enabled() {
    let mut u = universe(100.0, true, vec![body(1.0, 1.0, 2.0, -3.0, 7.0)]);
    u.update(&1.0, &collides, &merge, &pull, &advance);
    assert_eq!(u.bodies.len(), 1);
    assert_eq!(u.bodies[0].velocity, DVec2::new(2.0, -3.0));
    assert_eq!(u.bodies[0].position, DVec2::new(3.0, -2.0));
}

#[test]
fn coincident_bodies_do_not_act_on_each_other() {
    let mut u = universe(
        100.0,
        false,
        vec![body(3.0, 4.0, 1.0, 0.0, 2.0), body(3.0, 4.0, 0.0, 1.0, 5.0)],
    );
    u.update(&1.0, &collides, &merge, &pull, &advance);
    assert_eq!(u.bodies.len(), 2);
    assert_eq!(u.bodies[0].velocity, DVec2::new(1.0, 0.0));
    assert_eq!(u.bodies[1].velocity, DVec2::new(0.0, 1.0));
    assert!(u.bodies[0].position.is_finite());
    assert!(u.bodies[1].position.is_finite());
    assert_eq!(u.bodies[0].position, DVec2::new(4.0, 4.0));
    assert_eq!(u.bodies[1].position, DVec2::new(3.0, 5.0));
}

#[test]
fn pull_pair_writes_only_the_two_velocities() {
    let mut bodies = vec![still(0.0, 0.0, 1.0), still(7.0, 7.0, 9.0), still(2.0, 0.0, 4.0)];
    pull_pair(&mut bodies, 0, 2, &4.0, &1.0, &pull);
    assert_eq!(bodies[0].velocity, DVec2::new(4.0, 0.0));
    assert_eq!(bodies[2].velocity, DVec2::new(-1.0, 0.0));
    assert_eq!(bodies[1].velocity, DVec2::new(0.0, 0.0));
    assert_eq!(bodies[0].position, DVec2::new(0.0, 0.0));
    assert_eq!(bodies[2].position, DVec2::new(2.0, 0.0));
    assert_eq!(masses(&bodies), vec![1.0, 9.0, 4.0]);
}

#[test]
fn pull_pair_skips_coincident_bodies() {
    let mut bodies = vec![body(1.0, 1.0, 2.0, 0.0, 1.0), body(1.0, 1.0, 0.0, 2.0, 1.0)];
    pull_pair(&mut bodies, 0, 1, &4.0, &1.0, &pull);
    assert_eq!(bodies[0].velocity, DVec2::new(2.0, 0.0));
    assert_eq!(bodies[1].velocity, DVec2::new(0.0, 2.0));
}

#[test]
fn gravity_visits_every_pair_once_in_order() {
    // with a "pull" that only counts, each body ends with the number of
    // pairs that it stood in, and the pairs come in rising order
    fn count(a: &Mass, b: &Mass, _c: &f64, _t: &f64) -> Option<(DVec2, DVec2)> {
        // x counts the visits; y remembers the mass of the last partner
        Some((DVec2::new(a.velocity.x + 1.0, b.mass), DVec2::new(b.velocity.x + 1.0, a.mass)))
    }
    let mut bodies = vec![
        still(0.0, 0.0, 1.0),
        still(1.0, 0.0, 2.0),
        still(2.0, 0.0, 3.0),
        still(3.0, 0.0, 4.0),
    ];
    apply_gravity(&mut bodies, &1.0, &1.0, &count);
    for b in bodies.iter() {
        assert_eq!(b.velocity.x, 3.0);
    }
    // the last pair of each body: (0,3), (1,3), (2,3), (2,3)
    assert_eq!(bodies[0].velocity.y, 4.0);
    assert_eq!(bodies[1].velocity.y, 4.0);
    assert_eq!(bodies[2].velocity.y, 4.0);
    assert_eq!(bodies[3].velocity.y, 3.0);
}

#[test]
fn gravity_uses_velocities_as_they_stand() {
    // three bodies on a line: the middle one is pulled both ways
    let mut bodies = vec![still(-1.0, 0.0, 1.0), still(0.0, 0.0, 1.0), still(1.0, 0.0, 1.0)];
    apply_gravity(&mut bodies, &1.0, &1.0, &pull);
    assert_eq!(bodies[0].velocity, DVec2::new(1.25, 0.0));
    assert_eq!(bodies[1].velocity, DVec2::new(0.0, 0.0));
    assert_eq!(bodies[2].velocity, DVec2::new(-1.25, 0.0));
}

#[test]
fn empty_universe_steps_to_an_empty_universe() {
    let mut u = universe(1.0, true, Vec::new());
    u.update(&1.0, &collides, &merge, &pull, &advance);
    assert_eq!(u.bodies.len(), 0);
}

#[test]
fn update_keeps_the_settings() {
    let mut u = universe(12.5, true, vec![still(0.0, 0.0, 1.0)]);
    u.update(&1.0, &never, &merge, &pull, &advance);
    assert_eq!(u.universe_settings.gravitational_constant, 12.5);
    assert!(u.universe_settings.enable_collisions);
}

#[test]
fn interactions_counts_ordered_pairs() {
    let mut u = universe(1.0, true, Vec::new());
    assert_eq!(u.interactions(), 0);
    u.bodies.push(still(0.0, 0.0, 1.0));
    assert_eq!(u.interactions(), 0);
    u.bodies.push(still(1.0, 0.0, 1.0));
    assert_eq!(u.interactions(), 2);
    u.bodies.push(still(2.0, 0.0, 1.0));
    u.bodies.push(still(3.0, 0.0, 1.0));
    assert_eq!(u.interactions(), 12);
}
