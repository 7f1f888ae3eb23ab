use vstd::prelude::*;
use crate::aabb::{AABBBox, Axis, boxes_wf, clamp_axis, clamp_axis_s};
use crate::constants::{LEGACY_REDUCE_STEP, PEARL_DRAG_RAW, PEARL_GRAVITY_RAW};
use crate::fx::{Fx, fx_mul_s, fx_quant_s, fx_sub_s};
use crate::space::{Space3D, v3};

verus! {

/// The rule-set under which one tick of movement is computed.
#[derive(Clone, Copy, Debug, PartialEq, Eq, Structural)]
pub enum PearlVersion {
    /// Coarse arithmetic; move, then drag, then gravity.
    Legacy,
    /// Full-precision arithmetic; move, then drag, then gravity.
    Post1205,
    /// Full-precision arithmetic; gravity, then drag, then move.
    Post1212,
}

/// The state of the one simulated entity: where it is, how it moves, and
/// whether gravity pulls it.
#[derive(Clone, Copy, Debug, PartialEq, Eq, Structural)]
pub struct PearlEntity {
    pub position: Space3D,
    pub motion: Space3D,
    pub is_gravity: bool,
}

impl PearlEntity {
    pub open spec fn wf(self) -> bool {
        self.position.wf() && self.motion.wf()
    }

    pub fn new(position: Space3D, motion: Space3D) -> (r: PearlEntity)
        ensures
            r == (PearlEntity { position, motion, is_gravity: true }),
    {
        PearlEntity { position, motion, is_gravity: true }
    }
}

/// Displace a position by a motion, each axis clamped against the boxes in the
/// order y, x, z; an empty list leaves the motion unobstructed.
pub open spec fn move_entity_s(pos: Space3D, motion: Space3D, boxes: Seq<AABBBox>) -> Space3D {
    let dy = clamp_axis_s(pos, motion.y.raw as int, Axis::Y, boxes);
    let p1 = v3(pos.x.raw as int, crate::fx::fx_add_s(pos.y.raw as int, dy), pos.z.raw as int);
    let dx = clamp_axis_s(p1, motion.x.raw as int, Axis::X, boxes);
    let p2 = v3(crate::fx::fx_add_s(p1.x.raw as int, dx), p1.y.raw as int, p1.z.raw as int);
    let dz = clamp_axis_s(p2, motion.z.raw as int, Axis::Z, boxes);
    v3(p2.x.raw as int, p2.y.raw as int, crate::fx::fx_add_s(p2.z.raw as int, dz))
}

/// One motion component under the legacy rules: drag applied on the coarse grid.
pub open spec fn legacy_drag_s(c: int) -> int {
    fx_quant_s(fx_mul_s(fx_quant_s(c, LEGACY_REDUCE_STEP as int), PEARL_DRAG_RAW as int),
        LEGACY_REDUCE_STEP as int)
}

/// Motion after drag and gravity under the legacy rules.
pub open spec fn legacy_motion_s(m: Space3D, is_gravity: bool) -> Space3D {
    let mx = legacy_drag_s(m.x.raw as int);
    let my0 = legacy_drag_s(m.y.raw as int);
    let mz = legacy_drag_s(m.z.raw as int);
    let my = if is_gravity {
        fx_quant_s(fx_sub_s(my0, PEARL_GRAVITY_RAW as int), LEGACY_REDUCE_STEP as int)
    } else {
        my0
    };
    v3(mx, my, mz)
}

/// Motion after drag and gravity under the full-precision rules.
pub open spec fn precise_motion_s(m: Space3D, is_gravity: bool) -> Space3D {
    let mx = fx_mul_s(m.x.raw as int, PEARL_DRAG_RAW as int);
    let my0 = fx_mul_s(m.y.raw as int, PEARL_DRAG_RAW as int);
    let mz = fx_mul_s(m.z.raw as int, PEARL_DRAG_RAW as int);
    let my = if is_gravity {
        fx_sub_s(my0, PEARL_GRAVITY_RAW as int)
    } else {
        my0
    };
    v3(mx, my, mz)
}

/// One tick of movement under the chosen rule-set.
#[verifier::opaque]
pub open spec fn tick_spec(version: PearlVersion, e: PearlEntity, boxes: Seq<AABBBox>)
    -> PearlEntity {
    match version {
        PearlVersion::Legacy => {
            let pos = move_entity_s(e.position, e.motion, boxes);
            PearlEntity {
                position: pos,
                motion: legacy_motion_s(e.motion, e.is_gravity),
                is_gravity: e.is_gravity,
            }
        },
        PearlVersion::Post1205 => {
            let pos = move_entity_s(e.position, e.motion, boxes);
            PearlEntity {
                position: pos,
                motion: precise_motion_s(e.motion, e.is_gravity),
                is_gravity: e.is_gravity,
            }
        },
        PearlVersion::Post1212 => {
            let m1 = if e.is_gravity {
                v3(
                    e.motion.x.raw as int,
                    fx_sub_s(e.motion.y.raw as int, PEARL_GRAVITY_RAW as int),
                    e.motion.z.raw as int,
                )
            } else {
                e.motion
            };
            let m2 = crate::space::vscale_s(m1, PEARL_DRAG_RAW as int);
            let pos = move_entity_s(e.position, m2, boxes);
            PearlEntity { position: pos, motion: m2, is_gravity: e.is_gravity }
        },
    }
}

/// Displace the entity's position by a motion, clamped against the boxes.
fn move_entity(pos: Space3D, motion: Space3D, boxes: &Vec<AABBBox>) -> (r: Space3D)
    requires
        pos.wf(),
        motion.wf(),
        boxes_wf(boxes@),
    ensures
        r == move_entity_s(pos, motion, boxes@),
        r.wf(),
{
    let dy = clamp_axis(pos, motion.y, Axis::Y, boxes);
    let p1 = Space3D { x: pos.x, y: pos.y.fadd(dy), z: pos.z };
    let dx = clamp_axis(p1, motion.x, Axis::X, boxes);
    let p2 = Space3D { x: p1.x.fadd(dx), y: p1.y, z: p1.z };
    let dz = clamp_axis(p2, motion.z, Axis::Z, boxes);
    Space3D { x: p2.x, y: p2.y, z: p2.z.fadd(dz) }
}

/// Apply drag to one motion component under the legacy rules.
fn legacy_drag(c: Fx) -> (r: Fx)
    requires
        c.wf(),
    ensures
        r.raw == legacy_drag_s(c.raw as int),
        r.wf(),
{
    c.fquant(LEGACY_REDUCE_STEP).fmul(Fx { raw: PEARL_DRAG_RAW }).fquant(LEGACY_REDUCE_STEP)
}

/// Advance the entity by one tick under the chosen rule-set.
pub fn run_pearl_tick(version: PearlVersion, pearl: &mut PearlEntity, world_collisions: &Vec<AABBBox>)
    requires
        old(pearl).wf(),
        boxes_wf(world_collisions@),
    ensures
        *final(pearl) == tick_spec(version, *old(pearl), world_collisions@),
        final(pearl).wf(),
{
    proof {
        reveal(tick_spec);
    }
    match version {
        PearlVersion::Legacy => {
            let pos = move_entity(pearl.position, pearl.motion, world_collisions);
            let mx = legacy_drag(pearl.motion.x);
            let my0 = legacy_drag(pearl.motion.y);
            let mz = legacy_drag(pearl.motion.z);
            let my = if pearl.is_gravity {
                my0.fsub(Fx { raw: PEARL_GRAVITY_RAW }).fquant(LEGACY_REDUCE_STEP)
            } else {
                my0
            };
            pearl.position = pos;
            pearl.motion = Space3D { x: mx, y: my, z: mz };
        },
        PearlVersion::Post1205 => {
            let pos = move_entity(pearl.position, pearl.motion, world_collisions);
            let drag = Fx { raw: PEARL_DRAG_RAW };
            let mx = pearl.motion.x.fmul(drag);
            let my0 = pearl.motion.y.fmul(drag);
            let mz = pearl.motion.z.fmul(drag);
            let my = if pearl.is_gravity {
                my0.fsub(Fx { raw: PEARL_GRAVITY_RAW })
            } else {
                my0
            };
            pearl.position = pos;
            pearl.motion = Space3D { x: mx, y: my, z: mz };
        },
        PearlVersion::Post1212 => {
            let m1 = if pearl.is_gravity {
                Space3D {
                    x: pearl.motion.x,
                    y: pearl.motion.y.fsub(Fx { raw: PEARL_GRAVITY_RAW }),
                    z: pearl.motion.z,
                }
            } else {
                pearl.motion
            };
            let m2 = m1.vscale(Fx { raw: PEARL_DRAG_RAW });
            let pos = move_entity(pearl.position, m2, world_collisions);
            pearl.position = pos;
            pearl.motion = m2;
        },
    }
}

/// The movement strategy interface: one tick's update of the entity.
pub trait PearlMovement {
    /// The rule-set this strategy stands for.
    spec fn version() -> PearlVersion;

    /// Run one tick of the strategy's movement rules.
    fn run_tick_sequence(pearl: &mut PearlEntity, world_collisions: &Vec<AABBBox>)
        requires
            old(pearl).wf(),
            boxes_wf(world_collisions@),
        ensures
            *final(pearl) == tick_spec(Self::version(), *old(pearl), world_collisions@),
            final(pearl).wf(),
    ;
}

/// Movement under the oldest rules: coarse arithmetic, move before drag and gravity.
#[derive(Clone, Copy, Debug)]
pub struct MovementLegacy;

impl PearlMovement for MovementLegacy {
    open spec fn version() -> PearlVersion {
        PearlVersion::Legacy
    }

    fn run_tick_sequence(pearl: &mut PearlEntity, world_collisions: &Vec<AABBBox>) {
        run_pearl_tick(PearlVersion::Legacy, pearl, world_collisions)
    }
}

/// Movement with full-precision arithmetic, move before drag and gravity.
#[derive(Clone, Copy, Debug)]
pub struct MovementPost1205;

impl PearlMovement for MovementPost1205 {
    open spec fn version() -> PearlVersion {
        PearlVersion::Post1205
    }

    fn run_tick_sequence(pearl: &mut PearlEntity, world_collisions: &Vec<AABBBox>) {
        run_pearl_tick(PearlVersion::Post1205, pearl, world_collisions)
    }
}

/// Movement with gravity and drag applied before the move.
#[derive(Clone, Copy, Debug)]
pub struct MovementPost1212;

impl PearlMovement for MovementPost1212 {
    open spec fn version() -> PearlVersion {
        PearlVersion::Post1212
    }

    fn run_tick_sequence(pearl: &mut PearlEntity, world_collisions: &Vec<AABBBox>) {
        run_pearl_tick(PearlVersion::Post1212, pearl, world_collisions)
    }
}


/// One tick's update always leaves the entity within the representable band:
/// the position is clamped and each motion pipeline ends in a saturating or
/// shrinking operation.
pub proof fn lemma_tick_wf(version: PearlVersion, e: PearlEntity, boxes: Seq<AABBBox>)
    ensures
        tick_spec(version, e, boxes).wf(),
{
    reveal(tick_spec);
    if version == PearlVersion::Legacy {
        crate::fx::lemma_quant_wf(fx_mul_s(fx_quant_s(e.motion.x.raw as int,
            LEGACY_REDUCE_STEP as int), PEARL_DRAG_RAW as int), LEGACY_REDUCE_STEP as int);
        crate::fx::lemma_quant_wf(fx_mul_s(fx_quant_s(e.motion.y.raw as int,
            LEGACY_REDUCE_STEP as int), PEARL_DRAG_RAW as int), LEGACY_REDUCE_STEP as int);
        crate::fx::lemma_quant_wf(fx_mul_s(fx_quant_s(e.motion.z.raw as int,
            LEGACY_REDUCE_STEP as int), PEARL_DRAG_RAW as int), LEGACY_REDUCE_STEP as int);
        crate::fx::lemma_quant_wf(fx_sub_s(legacy_drag_s(e.motion.y.raw as int),
            PEARL_GRAVITY_RAW as int), LEGACY_REDUCE_STEP as int);
    }
}

} // verus!
