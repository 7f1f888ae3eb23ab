use vstd::prelude::*;
use crate::direction::Direction;
use crate::fx::Fx;
use crate::space::Space3D;

verus! {

/// One verified candidate: its charge counts, the tick of its closest
/// approach, and the simulated landing.
#[derive(Clone, Copy, Debug, PartialEq, Eq, Structural)]
pub struct TNTResult {
    pub distance: Fx,
    pub tick: u32,
    pub blue: u32,
    pub red: u32,
    pub vertical: u32,
    pub yaw: Fx,
    pub pitch: Fx,
    pub total: u32,
    pub pearl_end_pos: Space3D,
    pub pearl_end_motion: Space3D,
    pub direction: Direction,
}

/// A full simulated flight: the landing, the per-tick traces with consecutive
/// duplicates collapsed, and the outcome against an optional destination.
#[derive(Clone, Debug, PartialEq, Eq)]
pub struct CalculationResult {
    pub landing_position: Space3D,
    pub pearl_trace: Vec<Space3D>,
    pub pearl_motion_trace: Vec<Space3D>,
    pub is_successful: bool,
    pub tick: u32,
    pub final_motion: Space3D,
    pub distance: Fx,
}

} // verus!
