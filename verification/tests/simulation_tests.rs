use pearl_calculator::direction::LayoutDirection;
use pearl_calculator::fx::{FX_SCALE, Fx};
use pearl_calculator::inputs::{Cannon, GeneralData, TNT};
use pearl_calculator::movement::{
    MovementLegacy, MovementPost1205, MovementPost1212, PearlEntity, PearlMovement, PearlVersion,
};
use pearl_calculator::settings::{AppSettings, CannonMode, CannonSettings, PearlInfo, Surface2D};
use pearl_calculator::simulation::{check_landing, run, scan_trajectory};
use pearl_calculator::space::Space3D;

fn fxi(v: i32) -> Fx {
    Fx::from_i32(v)
}

fn v3i(x: i32, y: i32, z: i32) -> Space3D {
    Space3D { x: fxi(x), y: fxi(y), z: fxi(z) }
}

fn zero3() -> Space3D {
    v3i(0, 0, 0)
}

#[test]
fn movement_strategies_agree_with_the_dispatching_tick() {
    // Each strategy implements the same tick its version tag selects.
    let start = PearlEntity { position: v3i(1, 2, 3), motion: v3i(1, 1, 1), is_gravity: true };
    let boxes: Vec<pearl_calculator::aabb::AABBBox> = Vec::new();

    let mut by_trait = start;
    MovementLegacy::run_tick_sequence(&mut by_trait, &boxes);
    let mut by_tag = start;
    pearl_calculator::movement::run_pearl_tick(PearlVersion::Legacy, &mut by_tag, &boxes);
    assert_eq!(by_trait, by_tag);

    let mut by_trait = start;
    MovementPost1205::run_tick_sequence(&mut by_trait, &boxes);
    let mut by_tag = start;
    pearl_calculator::movement::run_pearl_tick(PearlVersion::Post1205, &mut by_tag, &boxes);
    assert_eq!(by_trait, by_tag);

    let mut by_trait = start;
    MovementPost1212::run_tick_sequence(&mut by_trait, &boxes);
    let mut by_tag = start;
    pearl_calculator::movement::run_pearl_tick(PearlVersion::Post1212, &mut by_tag, &boxes);
    assert_eq!(by_trait, by_tag);
}

#[test]
fn run_records_one_point_per_tick_before_collapsing() {
    let data = GeneralData {
        pearl_position: zero3(),
        pearl_motion: v3i(1, 0, 0),
        tnt_charges: Vec::new(),
    };
    let r = run(&data, None, 4, &Vec::new(), None, PearlVersion::Post1205).unwrap();
    // A moving entity keeps every recorded point distinct: five points remain.
    assert_eq!(r.pearl_trace.len(), 5);
    assert_eq!(r.pearl_trace[0], zero3());
    assert!(!r.is_successful);
    assert_eq!(r.distance.raw, 0);
}

#[test]
fn run_reports_success_within_the_success_radius() {
    let data = GeneralData {
        pearl_position: zero3(),
        pearl_motion: zero3(),
        tnt_charges: Vec::new(),
    };
    let r = run(&data, Some(zero3()), 3, &Vec::new(), None, PearlVersion::Post1205).unwrap();
    // The entity falls straight down, still over the destination in 2D.
    assert!(r.is_successful);
    assert_eq!(r.distance.raw, 0);
}

#[test]
fn run_fires_charges_at_their_fuse_tick() {
    let charge = TNT { position: v3i(0, -2, 0), fuse: 2 };
    let quiet = GeneralData {
        pearl_position: zero3(),
        pearl_motion: zero3(),
        tnt_charges: Vec::new(),
    };
    let with_charge = GeneralData {
        pearl_position: zero3(),
        pearl_motion: zero3(),
        tnt_charges: vec![charge],
    };
    let a = run(&quiet, None, 5, &Vec::new(), None, PearlVersion::Post1205).unwrap();
    let b = run(&with_charge, None, 5, &Vec::new(), None, PearlVersion::Post1205).unwrap();
    // Both flights agree until the fuse tick; the charge below the entity
    // then pushes it upward.
    assert_eq!(a.pearl_trace[0], b.pearl_trace[0]);
    assert_eq!(a.pearl_trace[1], b.pearl_trace[1]);
    assert!(b.landing_position.y.raw > a.landing_position.y.raw);
}

#[test]
fn run_applies_the_world_offset_to_positions_only() {
    let data = GeneralData {
        pearl_position: zero3(),
        pearl_motion: v3i(1, 0, 0),
        tnt_charges: Vec::new(),
    };
    let off = v3i(10, 0, 20);
    let plain = run(&data, None, 2, &Vec::new(), None, PearlVersion::Post1205).unwrap();
    let moved = run(&data, None, 2, &Vec::new(), Some(off), PearlVersion::Post1205).unwrap();
    assert_eq!(moved.landing_position.x.raw, plain.landing_position.x.raw + 10 * FX_SCALE);
    assert_eq!(moved.pearl_trace[0], off);
    assert_eq!(moved.pearl_motion_trace, plain.pearl_motion_trace);
}

#[test]
fn scan_records_hits_only_at_eligible_ticks_within_range() {
    let data = GeneralData {
        pearl_position: zero3(),
        pearl_motion: zero3(),
        tnt_charges: Vec::new(),
    };
    // The entity falls in place: its 2D distance to (3, 0) is always 3.
    let valid = vec![false, true, false, true];
    let hits = scan_trajectory(&data, v3i(3, 0, 0), 3, &valid, &Vec::new(), zero3(),
        PearlVersion::Post1205, fxi(25));
    assert_eq!(hits.len(), 2);
    assert_eq!(hits[0].tick, 1);
    assert_eq!(hits[1].tick, 3);
    assert_eq!(hits[0].distance.raw, 3 * FX_SCALE);
    assert_eq!(hits[1].distance.raw, 3 * FX_SCALE);
}

#[test]
fn scan_rejects_hits_beyond_the_distance_bound() {
    let data = GeneralData {
        pearl_position: zero3(),
        pearl_motion: zero3(),
        tnt_charges: Vec::new(),
    };
    // Squared bound of 4 rejects a squared distance of 9.
    let valid = vec![false, true, true];
    let hits = scan_trajectory(&data, v3i(3, 0, 0), 2, &valid, &Vec::new(), zero3(),
        PearlVersion::Post1205, fxi(4));
    assert!(hits.is_empty());
}

#[test]
fn check_landing_reports_the_resting_point_within_range() {
    let data = GeneralData {
        pearl_position: zero3(),
        pearl_motion: zero3(),
        tnt_charges: Vec::new(),
    };
    let r = check_landing(&data, v3i(1, 0, 0), 5, &Vec::new(), zero3(), PearlVersion::Post1205,
        fxi(25));
    let (pos, _motion, tick) = r.unwrap();
    assert_eq!(pos.x.raw, 0);
    assert_eq!(pos.z.raw, 0);
    assert_eq!(tick, 5);
    let miss = check_landing(&data, v3i(10, 0, 0), 5, &Vec::new(), zero3(),
        PearlVersion::Post1205, fxi(25));
    assert!(miss.is_none());
}

#[test]
fn cannon_from_settings_keeps_the_horizontal_offset_flat() {
    let mut settings = CannonSettings::default();
    settings.offset = Surface2D { x: fxi(3), z: fxi(7) };
    settings.pearl = PearlInfo { motion: zero3(), position: v3i(0, 80, 0) };
    settings.default_red_direction = Some(LayoutDirection::SouthEast);
    settings.mode = CannonMode::Accumulation;
    let cannon = Cannon::from_settings(&settings);
    assert_eq!(cannon.pearl.offset, v3i(3, 0, 7));
    assert_eq!(cannon.pearl.position, v3i(0, 80, 0));
    assert_eq!(cannon.default_red_duper, Some(LayoutDirection::SouthEast));
    assert_eq!(cannon.mode, CannonMode::Accumulation);
}

#[test]
fn default_settings_hold_one_zero_cannon() {
    let app = AppSettings::default();
    assert_eq!(app.cannon_settings.len(), 1);
    let c = &app.cannon_settings[0];
    assert_eq!(c.max_tnt, 0);
    assert_eq!(c.default_red_direction, None);
    assert_eq!(c.north_west_tnt, zero3());
    assert_eq!(c.mode, CannonMode::Standard);
}

#[test]
fn general_data_default_starts_centered_on_a_spawn_block() {
    let d = GeneralData::default();
    assert_eq!(d.pearl_position.x.raw, FX_SCALE / 2);
    assert_eq!(d.pearl_position.y.raw, 4 * FX_SCALE + FX_SCALE / 16);
    assert_eq!(d.pearl_motion, zero3());
    assert!(d.tnt_charges.is_empty());
}

#[test]
fn pearl_entity_new_enables_gravity() {
    let e = PearlEntity::new(v3i(1, 2, 3), v3i(4, 5, 6));
    assert!(e.is_gravity);
    assert_eq!(e.position, v3i(1, 2, 3));
    assert_eq!(e.motion, v3i(4, 5, 6));
}
