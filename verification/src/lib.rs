//! A charge-count calculator for a discrete per-tick physics model: it
//! simulates an entity's flight under gravity, drag and explosion impulses,
//! and inverts that model to propose and verify integer charge counts that
//! carry the entity to a destination. All arithmetic runs on an exact
//! fixed-point grid, so every function's behavior is fully specified.

pub mod aabb;
pub mod angles;
pub mod calculation;
pub mod constants;
pub mod direction;
pub mod fx;
pub mod inputs;
pub mod laws;
pub mod movement;
pub mod optimizer;
pub mod results;
pub mod settings;
pub mod simulation;
pub mod space;
