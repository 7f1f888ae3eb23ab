use vstd::prelude::*;

verus! {

// Physical constants of the per-tick model, as fixed-point raws
// (counts of 1/FX_SCALE units). They are process-wide and never change.

/// Per-tick drag multiplier applied to motion: 0.99 on the grid.
pub const PEARL_DRAG_RAW: i128 = 16609443;

/// Per-tick gravity acceleration subtracted from vertical motion: 0.03 on the grid.
pub const PEARL_GRAVITY_RAW: i128 = 503316;

/// Radius beyond which a charge imparts no impulse: 8 units.
pub const TNT_EXPLOSION_RADIUS_RAW: i128 = 134217728;

/// Vertical adjustment applied to a charge's position before computing its
/// impulse: 0.06125 on the grid.
pub const TNT_ENTITY_Y_OFFSET_RAW: i128 = 1027604;

/// Height of the simulated entity: 0.25 on the grid.
pub const PEARL_HEIGHT_RAW: i128 = 4194304;

/// Fraction of the entity height entering the vertical impulse term: 0.85 on the grid.
pub const PEARL_EXPLOSION_Y_FACTOR_RAW: i128 = 14260634;

/// The one shared near-zero threshold: a single grid step.
pub const PRECISION_EPSILON_RAW: i128 = 1;

/// A landing within this 2D distance of the destination is a success: 0.25 on the grid.
pub const SUCCESS_RADIUS_RAW: i128 = 4194304;

/// Coarser grid step used by the legacy movement rules, standing in for their
/// narrower arithmetic: 1/4096 of a unit.
pub const LEGACY_REDUCE_STEP: i128 = 4096;

/// Fixed half-width of the integer search neighborhood around each analytic center.
pub const SEARCH_RADIUS: i32 = 5;

} // verus!
