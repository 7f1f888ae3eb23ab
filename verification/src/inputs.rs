use vstd::prelude::*;
use crate::direction::LayoutDirection;
use crate::fx::Fx;
use crate::settings::{CannonMode, CannonSettings};
use crate::space::{Space3D, v3};

verus! {

/// One charge: a fixed position and the tick at which its impulse fires.
#[derive(Clone, Copy, Debug, PartialEq, Eq, Structural)]
pub struct TNT {
    pub position: Space3D,
    pub fuse: u32,
}

impl TNT {
    pub open spec fn wf(self) -> bool {
        self.position.wf()
    }
}

/// Every charge in the list is well formed.
pub open spec fn charges_wf(charges: Seq<TNT>) -> bool {
    forall|i: int| 0 <= i < charges.len() ==> (#[trigger] charges[i]).wf()
}

/// The inputs a single simulation run consumes.
#[derive(Clone, Debug, PartialEq, Eq)]
pub struct GeneralData {
    pub pearl_position: Space3D,
    pub pearl_motion: Space3D,
    pub tnt_charges: Vec<TNT>,
}

impl GeneralData {
    pub open spec fn wf(self) -> bool {
        self.pearl_position.wf() && self.pearl_motion.wf() && charges_wf(self.tnt_charges@)
    }
}

impl Default for GeneralData {
    /// A motionless entity at the center of a spawn block, with no charges.
    fn default() -> (r: GeneralData)
        ensures
            r.pearl_position == v3(8388608, 68157440, 8388608),
            r.pearl_motion == v3(0, 0, 0),
            r.tnt_charges@ == Seq::<TNT>::empty(),
    {
        GeneralData {
            pearl_position: Space3D {
                x: Fx { raw: 8388608 },  // 0.5
                y: Fx { raw: 68157440 },  // 4.0625
                z: Fx { raw: 8388608 },  // 0.5
            },
            pearl_motion: Space3D::zero(),
            tnt_charges: Vec::new(),
        }
    }
}

/// The launched entity's start state and the cannon's horizontal offset.
#[derive(Clone, Copy, Debug, PartialEq, Eq, Structural, Default)]
pub struct Pearl {
    pub position: Space3D,
    pub motion: Space3D,
    pub offset: Space3D,
}

impl Pearl {
    pub open spec fn wf(self) -> bool {
        self.position.wf() && self.motion.wf() && self.offset.wf()
    }
}

/// A cannon: the launched entity, the four corner charge groups, the optional
/// vertical group, and the configured default corners.
#[derive(Clone, Copy, Debug, PartialEq, Eq, Structural)]
pub struct Cannon {
    pub pearl: Pearl,
    pub red_tnt_override: Option<Space3D>,
    pub blue_tnt_override: Option<Space3D>,
    pub vertical_tnt: Option<Space3D>,
    pub mode: CannonMode,
    pub north_west_tnt: Space3D,
    pub north_east_tnt: Space3D,
    pub south_west_tnt: Space3D,
    pub south_east_tnt: Space3D,
    pub default_red_duper: Option<LayoutDirection>,
    pub default_blue_duper: Option<LayoutDirection>,
}

impl Cannon {
    pub open spec fn wf(self) -> bool {
        &&& self.pearl.wf()
        &&& self.north_west_tnt.wf()
        &&& self.north_east_tnt.wf()
        &&& self.south_west_tnt.wf()
        &&& self.south_east_tnt.wf()
        &&& (self.red_tnt_override matches Some(v) ==> v.wf())
        &&& (self.blue_tnt_override matches Some(v) ==> v.wf())
        &&& (self.vertical_tnt matches Some(v) ==> v.wf())
    }

    /// A cannon built from stored settings: the horizontal offset keeps x and z
    /// and has no vertical part.
    pub fn from_settings(settings: &CannonSettings) -> (r: Cannon)
        ensures
            r == cannon_from_settings_s(*settings),
    {
        Cannon {
            pearl: Pearl {
                position: settings.pearl.position,
                motion: settings.pearl.motion,
                offset: Space3D { x: settings.offset.x, y: Fx { raw: 0 }, z: settings.offset.z },
            },
            red_tnt_override: settings.red_tnt,
            blue_tnt_override: settings.blue_tnt,
            vertical_tnt: settings.vertical_tnt,
            mode: settings.mode,
            north_west_tnt: settings.north_west_tnt,
            north_east_tnt: settings.north_east_tnt,
            south_west_tnt: settings.south_west_tnt,
            south_east_tnt: settings.south_east_tnt,
            default_red_duper: settings.default_red_direction,
            default_blue_duper: settings.default_blue_direction,
        }
    }
}

/// The cannon a stored configuration stands for.
pub open spec fn cannon_from_settings_s(settings: CannonSettings) -> Cannon {
    Cannon {
        pearl: Pearl {
            position: settings.pearl.position,
            motion: settings.pearl.motion,
            offset: Space3D { x: settings.offset.x, y: Fx { raw: 0 }, z: settings.offset.z },
        },
        red_tnt_override: settings.red_tnt,
        blue_tnt_override: settings.blue_tnt,
        vertical_tnt: settings.vertical_tnt,
        mode: settings.mode,
        north_west_tnt: settings.north_west_tnt,
        north_east_tnt: settings.north_east_tnt,
        south_west_tnt: settings.south_west_tnt,
        south_east_tnt: settings.south_east_tnt,
        default_red_duper: settings.default_red_direction,
        default_blue_duper: settings.default_blue_direction,
    }
}

} // verus!
