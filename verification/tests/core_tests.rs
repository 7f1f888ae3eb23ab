use pearl_calculator::aabb::AABBBox;
use pearl_calculator::angles::{atan2_deg, from_angle};
use pearl_calculator::calculation::{
    calculate_pearl_trace, calculate_raw_trace, calculate_tnt_amount, calculate_tnt_vectors,
    closest_approach,
};
use pearl_calculator::direction::{Direction, LayoutDirection, resolve_corners};
use pearl_calculator::fx::{FX_HALF, FX_MAX_RAW, FX_SCALE, Fx};
use pearl_calculator::inputs::{Cannon, Pearl};
use pearl_calculator::movement::{PearlEntity, PearlVersion, run_pearl_tick};
use pearl_calculator::settings::CannonMode;
use pearl_calculator::simulation::calculate_tnt_motion;
use pearl_calculator::space::Space3D;

fn fxi(v: i32) -> Fx {
    Fx::from_i32(v)
}

fn v3i(x: i32, y: i32, z: i32) -> Space3D {
    Space3D { x: fxi(x), y: fxi(y), z: fxi(z) }
}

fn zero3() -> Space3D {
    v3i(0, 0, 0)
}

/// A cannon at the origin with unit corner offsets, red defaulting to the
/// north-west corner and blue to the north-east one.
fn unit_cannon() -> Cannon {
    Cannon {
        pearl: Pearl { position: zero3(), motion: zero3(), offset: zero3() },
        red_tnt_override: None,
        blue_tnt_override: None,
        vertical_tnt: None,
        mode: CannonMode::Standard,
        north_west_tnt: v3i(-1, 0, -1),
        north_east_tnt: v3i(1, 0, -1),
        south_west_tnt: v3i(-1, 0, 1),
        south_east_tnt: v3i(1, 0, 1),
        default_red_duper: Some(LayoutDirection::NorthWest),
        default_blue_duper: Some(LayoutDirection::NorthEast),
    }
}

fn dist2d(a: &Space3D, bx: i128, bz: i128) -> f64 {
    let dx = (a.x.raw - bx) as f64 / FX_SCALE as f64;
    let dz = (a.z.raw - bz) as f64 / FX_SCALE as f64;
    (dx * dx + dz * dz).sqrt()
}

#[test]
fn fx_addition_is_exact_in_band() {
    assert_eq!(fxi(3).fadd(fxi(4)).raw, 7 * FX_SCALE);
    assert_eq!(fxi(3).fsub(fxi(5)).raw, -2 * FX_SCALE);
}

#[test]
fn fx_addition_saturates_at_band_edge() {
    let top = Fx { raw: FX_MAX_RAW };
    assert_eq!(top.fadd(fxi(1)).raw, FX_MAX_RAW);
    assert_eq!(top.fneg().fsub(fxi(1)).raw, -FX_MAX_RAW);
}

#[test]
fn fx_multiplication_truncates_toward_zero() {
    // 1.5 * 1.5 = 2.25
    let one_half = Fx { raw: FX_SCALE + FX_HALF };
    assert_eq!(one_half.fmul(one_half).raw, 2 * FX_SCALE + FX_SCALE / 4);
    // (-1.5) * 1.5 = -2.25
    assert_eq!(one_half.fneg().fmul(one_half).raw, -(2 * FX_SCALE + FX_SCALE / 4));
}

#[test]
fn fx_sqrt_of_perfect_square_is_exact() {
    assert_eq!(fxi(4).fsqrt().raw, 2 * FX_SCALE);
    assert_eq!(fxi(0).fsqrt().raw, 0);
}

#[test]
fn fx_round_ties_away_from_zero() {
    assert_eq!(Fx { raw: FX_HALF }.round_units(), 1);
    assert_eq!(Fx { raw: -FX_HALF }.round_units(), -1);
    assert_eq!(Fx { raw: FX_HALF - 1 }.round_units(), 0);
}

#[test]
fn impulse_is_zero_beyond_explosion_radius() {
    // Distance 10 exceeds the radius of 8.
    let r = calculate_tnt_motion(zero3(), v3i(10, 0, 0));
    assert_eq!(r, zero3());
}

#[test]
fn impulse_is_zero_exactly_at_explosion_radius() {
    let r = calculate_tnt_motion(zero3(), v3i(0, -9, 0));
    // Adjusted charge sits slightly above -9, still at distance >= 8.
    assert_eq!(r, zero3());
}

#[test]
fn impulse_degenerate_direction_yields_zero_not_panic() {
    // The entity position that makes the direction vector exactly zero:
    // its y cancels the vertical term of the impulse direction.
    let pearl = Space3D { x: fxi(0), y: Fx { raw: -2537554 }, z: fxi(0) };
    let r = calculate_tnt_motion(pearl, zero3());
    assert_eq!(r, zero3());
}

#[test]
fn impulse_magnitude_falls_off_with_distance() {
    let near = calculate_tnt_motion(zero3(), v3i(-2, 0, 0));
    let far = calculate_tnt_motion(zero3(), v3i(-4, 0, 0));
    assert!(near.x.raw > far.x.raw);
    assert!(far.x.raw > 0);
}

#[test]
fn motionless_entity_without_gravity_never_moves() {
    // Movement model round trip: gravity off, zero motion, every rule-set.
    let boxes = vec![AABBBox { min: v3i(0, 0, 0), max: v3i(10, 10, 10) }];
    for version in [PearlVersion::Legacy, PearlVersion::Post1205, PearlVersion::Post1212] {
        let mut pearl = PearlEntity { position: v3i(2, 3, 4), motion: zero3(), is_gravity: false };
        for _ in 0..25 {
            run_pearl_tick(version, &mut pearl, &boxes);
        }
        assert_eq!(pearl.position, v3i(2, 3, 4));
        assert_eq!(pearl.motion, zero3());
    }
}

#[test]
fn one_tick_full_precision_applies_drag_then_gravity() {
    let mut pearl = PearlEntity { position: zero3(), motion: v3i(1, 0, 0), is_gravity: true };
    run_pearl_tick(PearlVersion::Post1205, &mut pearl, &Vec::new());
    assert_eq!(pearl.position, v3i(1, 0, 0));
    assert_eq!(pearl.motion.x.raw, 16609443);  // 0.99 on the grid
    assert_eq!(pearl.motion.y.raw, -503316);  // -0.03 on the grid
    assert_eq!(pearl.motion.z.raw, 0);
}

#[test]
fn one_tick_legacy_runs_on_the_coarse_grid() {
    let mut pearl = PearlEntity { position: zero3(), motion: v3i(1, 0, 0), is_gravity: true };
    run_pearl_tick(PearlVersion::Legacy, &mut pearl, &Vec::new());
    assert_eq!(pearl.position, v3i(1, 0, 0));
    assert_eq!(pearl.motion.x.raw, 16609280);  // 0.99 truncated to the coarse grid
    assert_eq!(pearl.motion.y.raw, -499712);  // -0.03 truncated to the coarse grid
}

#[test]
fn one_tick_gravity_first_moves_by_updated_motion() {
    let mut pearl = PearlEntity { position: zero3(), motion: zero3(), is_gravity: true };
    run_pearl_tick(PearlVersion::Post1212, &mut pearl, &Vec::new());
    // Gravity applies before the move, so the entity drops on its first tick.
    assert!(pearl.position.y.raw < 0);
    assert_eq!(pearl.position.y.raw, pearl.motion.y.raw);
}

#[test]
fn collision_box_stops_downward_motion() {
    let boxes = vec![AABBBox { min: v3i(-10, -5, -10), max: v3i(10, -4, 10) }];
    let mut pearl = PearlEntity { position: zero3(), motion: v3i(0, -100, 0), is_gravity: false };
    run_pearl_tick(PearlVersion::Post1205, &mut pearl, &boxes);
    assert_eq!(pearl.position.y.raw, -4 * FX_SCALE);
}

#[test]
fn resolver_keeps_blue_when_it_shares_no_heading_component() {
    // Flying south, blue defaulting north-east: blue keeps its corner.
    let (red, blue) = resolve_corners(
        Direction::South,
        LayoutDirection::NorthWest,
        LayoutDirection::NorthEast,
    );
    assert_eq!(blue, LayoutDirection::NorthEast);
    assert_eq!(red, LayoutDirection::NorthWest);
}

#[test]
fn resolver_derives_blue_when_it_overlaps_the_heading() {
    // Flying east, blue defaulting north-east overlaps: red keeps its corner
    // and blue takes the remaining one.
    let (red, blue) = resolve_corners(
        Direction::East,
        LayoutDirection::NorthWest,
        LayoutDirection::NorthEast,
    );
    assert_eq!(red, LayoutDirection::NorthWest);
    assert_eq!(blue, LayoutDirection::SouthWest);
}

#[test]
fn from_angle_quantizes_to_the_nearest_cardinal() {
    assert_eq!(from_angle(fxi(0)), Direction::South);
    assert_eq!(from_angle(fxi(90)), Direction::West);
    assert_eq!(from_angle(fxi(180)), Direction::North);
    assert_eq!(from_angle(fxi(-90)), Direction::East);
}

#[test]
fn from_angle_boundary_belongs_to_the_clockwise_next_cardinal() {
    // The exact diagonal at 45 degrees quantizes to west, not south.
    assert_eq!(from_angle(fxi(45)), Direction::West);
    assert_eq!(from_angle(fxi(-45)), Direction::South);
    assert_eq!(from_angle(fxi(135)), Direction::North);
}

#[test]
fn atan2_is_exact_on_the_diagonal() {
    assert_eq!(atan2_deg(fxi(1), fxi(1)).raw, 45 * FX_SCALE);
    assert_eq!(atan2_deg(fxi(0), fxi(1)).raw, 0);
    assert_eq!(atan2_deg(fxi(1), fxi(0)).raw, 90 * FX_SCALE);
}

#[test]
fn tnt_vectors_need_both_default_corners() {
    let mut cannon = unit_cannon();
    cannon.default_blue_duper = None;
    assert!(calculate_tnt_vectors(&cannon, Direction::South).is_none());
    assert!(calculate_pearl_trace(&cannon, 1, 1, 0, Direction::South, 10, &Vec::new(),
        PearlVersion::Post1212).is_none());
}

#[test]
fn trace_is_identical_across_repeated_runs() {
    // Forward simulator idempotence on identical inputs.
    let cannon = unit_cannon();
    let a = calculate_pearl_trace(&cannon, 3, 2, 0, Direction::South, 50, &Vec::new(),
        PearlVersion::Post1212).unwrap();
    let b = calculate_pearl_trace(&cannon, 3, 2, 0, Direction::South, 50, &Vec::new(),
        PearlVersion::Post1212).unwrap();
    assert_eq!(a, b);
}

#[test]
fn raw_trace_with_two_charge_groups_moves_and_keeps_motion() {
    // Two charge groups south of the start push the entity into flight.
    let charges = vec![(v3i(-1, 0, -1), 10u32), (v3i(1, 0, -1), 5u32)];
    let r = calculate_raw_trace(zero3(), zero3(), charges, 100, &Vec::new(),
        PearlVersion::Post1212).unwrap();
    assert!(r.pearl_trace.len() > 1);
    let m = r.final_motion;
    assert!(m.x.raw != 0 || m.y.raw != 0 || m.z.raw != 0);
}

#[test]
fn raw_trace_ignores_groups_with_zero_count() {
    let none = calculate_raw_trace(zero3(), zero3(), vec![(v3i(-1, 0, -1), 0u32)], 5,
        &Vec::new(), PearlVersion::Post1205).unwrap();
    let empty = calculate_raw_trace(zero3(), zero3(), Vec::new(), 5, &Vec::new(),
        PearlVersion::Post1205).unwrap();
    assert_eq!(none.landing_position, empty.landing_position);
    assert_eq!(none.final_motion, empty.final_motion);
}

#[test]
fn solver_returns_empty_when_start_and_destination_coincide() {
    let cannon = unit_cannon();
    let r = calculate_tnt_amount(&cannon, zero3(), 0, None, 50, fxi(5),
        PearlVersion::Post1212);
    assert!(r.is_empty());
}

#[test]
fn solver_returns_empty_without_default_corners() {
    let mut cannon = unit_cannon();
    cannon.default_red_duper = None;
    let r = calculate_tnt_amount(&cannon, v3i(100, 0, 100), 0, None, 50, fxi(5),
        PearlVersion::Post1212);
    assert!(r.is_empty());
}

#[test]
fn solver_finds_the_exact_configuration_it_was_aimed_from() {
    // Build the destination by simulating a known configuration forward,
    // then ask the solver to recover it.
    let cannon = unit_cannon();
    let trace = calculate_pearl_trace(&cannon, 3, 2, 0, Direction::South, 50, &Vec::new(),
        PearlVersion::Post1212).unwrap();
    let landing = trace.landing_position;
    let destination = Space3D { x: landing.x, y: fxi(0), z: landing.z };
    let results = calculate_tnt_amount(&cannon, destination, 0, None, 60, fxi(1),
        PearlVersion::Post1212);
    assert!(!results.is_empty());
    let exact = results.iter().find(|r| r.red == 3 && r.blue == 2);
    assert!(exact.is_some());
    assert_eq!(exact.unwrap().distance.raw, 0);
}

#[test]
fn solver_reaches_a_distant_diagonal_destination() {
    // Concrete scenario: corners at unit offsets, destination at (100, 100).
    let cannon = unit_cannon();
    let results = calculate_tnt_amount(&cannon, v3i(100, 0, 100), 500, None, 200, fxi(5),
        PearlVersion::Post1212);
    assert!(!results.is_empty());
    for r in &results {
        assert!(dist2d(&r.pearl_end_pos, 100 * FX_SCALE, 100 * FX_SCALE) <= 5.0 + 1e-9);
    }
    for w in results.windows(2) {
        assert!(w[0].distance.raw <= w[1].distance.raw);
    }
}

#[test]
fn equal_distances_resolve_to_the_lowest_tick() {
    // A zero-count candidate falls straight down, so every eligible tick is
    // equally far from the destination; the reported tick must be the lowest.
    let cannon = unit_cannon();
    let results = calculate_tnt_amount(&cannon, v3i(3, 0, 0), 0, None, 30, fxi(5),
        PearlVersion::Post1205);
    let still = results.iter().find(|r| r.red == 0 && r.blue == 0);
    assert!(still.is_some());
    assert_eq!(still.unwrap().tick, 1);
}

#[test]
fn closest_approach_picks_the_minimum_and_keeps_the_first() {
    let trace = vec![v3i(0, 0, 0), v3i(3, 7, 4), v3i(10, 0, 10), v3i(3, -2, 4)];
    let (tick, point, dist) = closest_approach(&trace, fxi(3), fxi(4)).unwrap();
    assert_eq!(tick, 1);
    assert_eq!(point, v3i(3, 7, 4));
    assert_eq!(dist.raw, 0);
    assert!(closest_approach(&Vec::new(), fxi(0), fxi(0)).is_none());
}

#[test]
fn trace_collapses_consecutive_duplicate_points() {
    // A motionless start under the move-first rules repeats its first
    // position; the recorded trace collapses the duplicates.
    let r = calculate_raw_trace(zero3(), zero3(), Vec::new(), 3, &Vec::new(),
        PearlVersion::Post1205).unwrap();
    for w in r.pearl_trace.windows(2) {
        assert_ne!(w[0], w[1]);
    }
    assert_eq!(r.tick, 3);
}

#[test]
fn solver_recovers_a_configuration_with_a_vertical_group() {
    // With a vertical group the solver runs the three-unknown solve; aim it
    // from a simulated flight and expect the exact triple back.
    let mut cannon = unit_cannon();
    cannon.vertical_tnt = Some(Space3D { x: fxi(0), y: Fx { raw: -FX_SCALE / 2 }, z: fxi(0) });
    let trace = calculate_pearl_trace(&cannon, 3, 2, 1, Direction::South, 50, &Vec::new(),
        PearlVersion::Post1212).unwrap();
    let destination = trace.landing_position;
    let results = calculate_tnt_amount(&cannon, destination, 0, None, 60, fxi(1),
        PearlVersion::Post1212);
    assert!(!results.is_empty());
    let exact = results.iter().find(|r| r.red == 3 && r.blue == 2 && r.vertical == 1);
    assert!(exact.is_some());
    assert_eq!(exact.unwrap().distance.raw, 0);
}

#[test]
fn vertical_cap_limits_the_recovered_counts() {
    let mut cannon = unit_cannon();
    cannon.vertical_tnt = Some(Space3D { x: fxi(0), y: Fx { raw: -FX_SCALE / 2 }, z: fxi(0) });
    let trace = calculate_pearl_trace(&cannon, 3, 2, 1, Direction::South, 50, &Vec::new(),
        PearlVersion::Post1212).unwrap();
    let destination = trace.landing_position;
    let results = calculate_tnt_amount(&cannon, destination, 0, Some(0), 60, fxi(5),
        PearlVersion::Post1212);
    assert!(results.iter().all(|r| r.vertical == 0));
}
