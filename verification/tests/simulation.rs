use galactic::particle::{highlight_color, orbit_particle, Color, Particle};
use galactic::sim::Simulation;

fn white() -> Color {
    Color { red: 255, green: 255, blue: 255, alpha: 255 }
}

fn body(mass: i64, vx: i64, vy: i64, x: i64, y: i64) -> Particle {
    Particle { mass, vx, vy, x, y, color: white(), to_destroy: false }
}

#[test]
fn two_heavy_closing_bodies_merge() {
    // Two bodies of mass 1000 at (0,0) and (1,0); the second closes at
    // 200 units per second.  radius(1000) = 0.6, so they overlap, and the
    // relative speed is above the cutoff: they merge into one body of mass
    // 2000 with the momentum-conserving velocity (-100, 0).
    let mut sim = Simulation::new();
    sim.add_particle(1_000_000_000, 0, 0, 0, 0, white());
    sim.add_particle(1_000_000_000, -200_000_000, 0, 1_000_000, 0, white());
    sim.update(0, 1_000_000);
    assert_eq!(sim.len(), 1);
    let p = &sim.particles()[0];
    assert_eq!(p.mass, 2_000_000_000);
    assert_eq!(p.vx, -100_000_000);
    assert_eq!(p.vy, 0);
    assert_eq!(p.x, 0);
    assert_eq!(p.y, 0);
}

#[test]
fn light_pair_feels_no_force() {
    // Two bodies of mass 10, both below the significance cutoff of 50:
    // the force either exerts is exactly zero, and with zero initial
    // velocity their positions never change, tick after tick.
    let mut sim = Simulation::new();
    sim.add_particle(10_000_000, 0, 0, 0, 0, white());
    sim.add_particle(10_000_000, 0, 0, 5_000_000, 0, white());
    for _ in 0..5 {
        sim.update(16_000, 1_000_000);
    }
    assert_eq!(sim.len(), 2);
    assert_eq!(sim.particles()[0].x, 0);
    assert_eq!(sim.particles()[0].vx, 0);
    assert_eq!(sim.particles()[1].x, 5_000_000);
    assert_eq!(sim.particles()[1].vy, 0);
}

#[test]
fn light_pair_force_is_exactly_zero() {
    let a = body(10_000_000, 0, 0, 0, 0);
    let b = body(10_000_000, 0, 0, 5_000_000, 0);
    assert_eq!(a.force_from(&b), (0, 0));
    assert_eq!(b.force_from(&a), (0, 0));
}

#[test]
fn newtonian_force_for_separated_bodies() {
    // Masses 100 and 100 at distance 10: f = 100 * 100 / 100 = 100,
    // entirely along the x axis, attractive in both directions.
    let a = body(100_000_000, 0, 0, 0, 0);
    let b = body(100_000_000, 0, 0, 10_000_000, 0);
    assert_eq!(a.force_from(&b), (100_000_000, 0));
    assert_eq!(b.force_from(&a), (-100_000_000, 0));
}

#[test]
fn overlapping_bodies_exert_no_force() {
    // Masses 1000 at distance 1 overlap (radius sum 1.2): zero force.
    let a = body(1_000_000_000, 0, 0, 0, 0);
    let b = body(1_000_000_000, 0, 0, 1_000_000, 0);
    assert_eq!(a.force_from(&b), (0, 0));
}

#[test]
fn radius_is_a_fifth_of_the_mass_log() {
    assert_eq!(body(1_000_000_000, 0, 0, 0, 0).radius(), 600_000);
    assert_eq!(body(10_000_000, 0, 0, 0, 0).radius(), 200_000);
    assert_eq!(body(1_000_000, 0, 0, 0, 0).radius(), 0);
    assert_eq!(body(100_000, 0, 0, 0, 0).radius(), -200_000);
}

#[test]
fn radius_floors_to_the_half_decade_below() {
    // log10(999)/5 = 0.59991: floored to the tenth-of-a-unit grid, 0.5.
    assert_eq!(body(999_000_000, 0, 0, 0, 0).radius(), 500_000);
    // log10(150)/5 = 0.43522: floored, 0.4.
    assert_eq!(body(150_000_000, 0, 0, 0, 0).radius(), 400_000);
    // log10(2)/5 = 0.06021: floored, 0.0.
    assert_eq!(body(2_000_000, 0, 0, 0, 0).radius(), 0);
    // sqrt(10) is the half-decade boundary: 3.162277 is still below it.
    assert_eq!(body(3_162_277, 0, 0, 0, 0).radius(), 0);
    assert_eq!(body(3_162_278, 0, 0, 0, 0).radius(), 100_000);
}

#[test]
fn distance_resolves_below_one_thousandth() {
    // Separations well under a thousandth of a unit are still nonzero.
    let a = body(1_000_000, 0, 0, 0, 0);
    let b = body(1_000_000, 0, 0, 500, 0);
    assert_eq!(a.distance_to(&b), 500);
    assert_eq!(a.distance_to(&a), 0);
}

#[test]
fn distance_of_a_three_four_five_triangle() {
    let a = body(1_000_000, 0, 0, 0, 0);
    let b = body(1_000_000, 0, 0, 3_000_000, 4_000_000);
    assert_eq!(a.distance_to(&b), 5_000_000);
    assert_eq!(b.distance_to(&a), 5_000_000);
}

#[test]
fn merge_takes_the_highlight_color() {
    let mut sim = Simulation::new();
    sim.add_particle(1_000_000_000, 0, 0, 0, 0, white());
    sim.add_particle(1_000_000_000, -200_000_000, 0, 1_000_000, 0, highlight_color());
    sim.update(0, 1_000_000);
    assert_eq!(sim.len(), 1);
    assert_eq!(sim.particles()[0].color, highlight_color());
}

#[test]
fn merge_keeps_the_absorbers_color_otherwise() {
    let mut sim = Simulation::new();
    let grey = Color { red: 7, green: 7, blue: 7, alpha: 255 };
    sim.add_particle(1_000_000_000, 0, 0, 0, 0, grey);
    sim.add_particle(1_000_000_000, -200_000_000, 0, 1_000_000, 0, white());
    sim.update(0, 1_000_000);
    assert_eq!(sim.particles()[0].color, grey);
}

#[test]
fn slow_overlapping_bodies_do_not_merge() {
    // Overlapping heavy pair closing at only 100 units per second, below
    // the 160 cutoff: no merge, both bodies survive the tick.
    let mut sim = Simulation::new();
    sim.add_particle(1_000_000_000, 0, 0, 0, 0, white());
    sim.add_particle(1_000_000_000, -100_000_000, 0, 1_000_000, 0, white());
    sim.update(0, 1_000_000);
    assert_eq!(sim.len(), 2);
}

#[test]
fn compaction_keeps_survivors_in_order() {
    // The middle body is absorbed by the first; the far light body keeps
    // its slot right after the absorber.
    let mut sim = Simulation::new();
    sim.add_particle(1_000_000_000, 0, 0, 0, 0, white());
    sim.add_particle(1_000_000_000, -200_000_000, 0, 1_000_000, 0, white());
    sim.add_particle(10_000_000, 0, 0, 400_000_000_000, 0, white());
    sim.update(0, 1_000_000);
    assert_eq!(sim.len(), 2);
    assert_eq!(sim.particles()[0].mass, 2_000_000_000);
    assert_eq!(sim.particles()[1].mass, 10_000_000);
    assert_eq!(sim.particles()[1].x, 400_000_000_000);
}

#[test]
fn mass_is_conserved_across_a_merging_tick() {
    let mut sim = Simulation::new();
    sim.add_particle(1_000_000_000, 0, 0, 0, 0, white());
    sim.add_particle(1_000_000_000, -200_000_000, 0, 1_000_000, 0, white());
    sim.add_particle(10_000_000, 0, 0, 400_000_000_000, 0, white());
    let before: i64 = sim.particles().iter().map(|p| p.mass).sum();
    sim.update(250_000, 1_000_000);
    let after: i64 = sim.particles().iter().map(|p| p.mass).sum();
    assert_eq!(before, after);
}

#[test]
fn zero_dt_keeps_positions_and_velocities_without_merges() {
    let mut sim = Simulation::new();
    sim.add_particle(1_000_000_000, 3_000_000, -2_000_000, 0, 0, white());
    sim.add_particle(70_000_000, 0, 0, 50_000_000, 10_000_000, white());
    sim.update(0, 1_000_000);
    assert_eq!(sim.len(), 2);
    let p0 = &sim.particles()[0];
    assert_eq!((p0.x, p0.y, p0.vx, p0.vy), (0, 0, 3_000_000, -2_000_000));
    let p1 = &sim.particles()[1];
    assert_eq!((p1.x, p1.y, p1.vx, p1.vy), (50_000_000, 10_000_000, 0, 0));
}

#[test]
fn a_single_body_coasts_under_its_own_velocity() {
    // One body, velocity (2, 0), one tick of one second: no
    // self-interaction, the body just moves by its velocity.
    let mut sim = Simulation::new();
    sim.add_particle(1_000_000_000, 2_000_000, 0, 0, 0, white());
    sim.update(1_000_000, 1_000_000);
    assert_eq!(sim.len(), 1);
    let p = &sim.particles()[0];
    assert_eq!(p.x, 2_000_000);
    assert_eq!(p.vx, 2_000_000);
    assert_eq!(p.mass, 1_000_000_000);
}

#[test]
fn time_scale_multiplies_the_delta() {
    // dt 0.5 at time scale 2.0 moves a coasting body by its velocity.
    let mut sim = Simulation::new();
    sim.add_particle(1_000_000_000, 3_000_000, 0, 0, 0, white());
    sim.update(500_000, 2_000_000);
    assert_eq!(sim.particles()[0].x, 3_000_000);
}

#[test]
fn orbit_particle_matches_the_circular_orbit_formula() {
    // Star of mass 3, planet of mass 1 at radius 1: speed sqrt(4) = 2.
    // With theta = 90 degrees (sin 1, cos 0) and direction 1 the velocity
    // is tangential (2, 0) and the planet sits below the star.
    let p = orbit_particle(
        3_000_000,
        1_000_000,
        1_000_000,
        1_000_000,
        0,
        1_000_000,
        5_000_000,
        7_000_000,
        white(),
    );
    assert_eq!(p.mass, 1_000_000);
    assert_eq!(p.vx, 2_000_000);
    assert_eq!(p.vy, 0);
    assert_eq!(p.x, 5_000_000);
    assert_eq!(p.y, 6_000_000);
    assert!(!p.to_destroy);
}

#[test]
fn coincident_bodies_exert_no_force() {
    // A vanishing speck at the exact position of a significant body: the
    // radius sum is negative, so the overlap test does not fire, and the
    // zero distance is treated as contact instead of dividing by it.
    let speck = body(1, 0, 0, 0, 0);
    let heavy = body(50_000_000, 0, 0, 0, 0);
    assert_eq!(speck.force_from(&heavy), (0, 0));
}

#[test]
fn radius_of_a_tiny_mass_is_negative() {
    assert_eq!(body(1, 0, 0, 0, 0).radius(), -1_200_000);
}

#[test]
fn bodies_compare_by_state_not_by_tombstone() {
    let a = body(5_000_000, 1, 2, 3, 4);
    let mut b = a;
    b.to_destroy = true;
    assert!(a == b);
    b.mass = 6_000_000;
    assert!(a != b);
}
