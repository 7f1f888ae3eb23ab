use vstd::prelude::*;
use crate::direction::LayoutDirection;
use crate::fx::Fx;
use crate::space::{Space3D, v3};

verus! {

/// How the per-side capacity cap is enforced: accumulation mode disables the
/// rejection of candidates whose larger side exceeds the cap.
#[derive(Clone, Copy, Debug, PartialEq, Eq, Structural)]
pub enum CannonMode {
    Standard,
    Accumulation,
}

/// A 2D horizontal offset.
#[derive(Clone, Copy, Debug, PartialEq, Eq, Structural)]
pub struct Surface2D {
    pub x: Fx,
    pub z: Fx,
}

impl Surface2D {
    pub open spec fn wf(self) -> bool {
        self.x.wf() && self.z.wf()
    }
}

/// Start position and motion of the launched entity.
#[derive(Clone, Copy, Debug, PartialEq, Eq, Structural)]
pub struct PearlInfo {
    pub motion: Space3D,
    pub position: Space3D,
}

impl PearlInfo {
    pub open spec fn wf(self) -> bool {
        self.motion.wf() && self.position.wf()
    }
}

/// Stored configuration of one cannon.
#[derive(Clone, Copy, Debug, PartialEq, Eq, Structural)]
pub struct CannonSettings {
    pub max_tnt: u32,
    pub default_red_direction: Option<LayoutDirection>,
    pub default_blue_direction: Option<LayoutDirection>,
    pub red_tnt: Option<Space3D>,
    pub blue_tnt: Option<Space3D>,
    pub vertical_tnt: Option<Space3D>,
    pub mode: CannonMode,
    pub north_west_tnt: Space3D,
    pub north_east_tnt: Space3D,
    pub south_west_tnt: Space3D,
    pub south_east_tnt: Space3D,
    pub offset: Surface2D,
    pub pearl: PearlInfo,
}

impl CannonSettings {
    pub open spec fn wf(self) -> bool {
        &&& self.north_west_tnt.wf()
        &&& self.north_east_tnt.wf()
        &&& self.south_west_tnt.wf()
        &&& self.south_east_tnt.wf()
        &&& self.offset.wf()
        &&& self.pearl.wf()
        &&& (self.red_tnt matches Some(v) ==> v.wf())
        &&& (self.blue_tnt matches Some(v) ==> v.wf())
        &&& (self.vertical_tnt matches Some(v) ==> v.wf())
    }
}

impl Default for CannonSettings {
    /// All-zero cannon with no defaults chosen and no capacity cap.
    fn default() -> (r: CannonSettings)
        ensures
            r == default_cannon_settings_s(),
    {
        CannonSettings {
            max_tnt: 0,
            default_red_direction: None,
            default_blue_direction: None,
            red_tnt: None,
            blue_tnt: None,
            vertical_tnt: None,
            mode: CannonMode::Standard,
            north_west_tnt: Space3D::zero(),
            north_east_tnt: Space3D::zero(),
            south_west_tnt: Space3D::zero(),
            south_east_tnt: Space3D::zero(),
            offset: Surface2D { x: Fx { raw: 0 }, z: Fx { raw: 0 } },
            pearl: PearlInfo { motion: Space3D::zero(), position: Space3D::zero() },
        }
    }
}

/// The all-zero cannon configuration.
pub open spec fn default_cannon_settings_s() -> CannonSettings {
    CannonSettings {
        max_tnt: 0,
        default_red_direction: None,
        default_blue_direction: None,
        red_tnt: None,
        blue_tnt: None,
        vertical_tnt: None,
        mode: CannonMode::Standard,
        north_west_tnt: v3(0, 0, 0),
        north_east_tnt: v3(0, 0, 0),
        south_west_tnt: v3(0, 0, 0),
        south_east_tnt: v3(0, 0, 0),
        offset: Surface2D { x: Fx { raw: 0 }, z: Fx { raw: 0 } },
        pearl: PearlInfo { motion: v3(0, 0, 0), position: v3(0, 0, 0) },
    }
}

/// The stored application configuration: one entry per cannon.
#[derive(Clone, Debug, PartialEq, Eq)]
pub struct AppSettings {
    pub cannon_settings: Vec<CannonSettings>,
}

impl Default for AppSettings {
    /// One default cannon.
    fn default() -> (r: AppSettings)
        ensures
            r.cannon_settings@ == seq![default_cannon_settings_s()],
    {
        let mut v: Vec<CannonSettings> = Vec::new();
        v.push(CannonSettings::default());
        proof {
            assert(v@ =~= seq![default_cannon_settings_s()]);
        }
        AppSettings { cannon_settings: v }
    }
}

} // verus!
