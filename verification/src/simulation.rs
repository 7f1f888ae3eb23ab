use vstd::prelude::*;
use crate::aabb::{AABBBox, boxes_wf};
use crate::constants::{
    PEARL_EXPLOSION_Y_FACTOR_RAW, PEARL_HEIGHT_RAW, PRECISION_EPSILON_RAW, SUCCESS_RADIUS_RAW,
    TNT_ENTITY_Y_OFFSET_RAW, TNT_EXPLOSION_RADIUS_RAW,
};
use crate::fx::{Fx, FX_SCALE, fx_add_s, fx_div_s, fx_mul_s, fx_sqrt_s, fx_sub_s};
use crate::inputs::{GeneralData, TNT, charges_wf};
use crate::movement::{PearlEntity, PearlVersion, run_pearl_tick, tick_spec};
use crate::results::CalculationResult;
use crate::space::{
    Space3D, distance_2d_sq_s, length_sq_s, lemma_distance_2d_sq_nonneg, v3, vadd_s, vsub_s,
};

verus! {

/// One qualifying hit found while scanning a trajectory.
#[derive(Clone, Copy, Debug, PartialEq, Eq, Structural)]
pub struct SimResult {
    pub tick: u32,
    pub position: Space3D,
    pub motion: Space3D,
    pub distance: Fx,
}

/// The impulse one charge at `tnt_pos` imparts to an entity at `pearl_pos`:
/// zero at or beyond the explosion radius and in the degenerate direction
/// case, otherwise the normalized direction scaled by the linear falloff.
#[verifier::opaque]
pub open spec fn tnt_motion_s(pearl_pos: Space3D, tnt_pos: Space3D) -> Space3D {
    let adj_y = fx_add_s(tnt_pos.y.raw as int, TNT_ENTITY_Y_OFFSET_RAW as int);
    let adj = v3(tnt_pos.x.raw as int, adj_y, tnt_pos.z.raw as int);
    let dvec = vsub_s(pearl_pos, adj);
    let dist = fx_sqrt_s(length_sq_s(dvec));
    if dist >= TNT_EXPLOSION_RADIUS_RAW {
        v3(0, 0, 0)
    } else {
        let vy = fx_sub_s(
            fx_add_s(
                pearl_pos.y.raw as int,
                fx_mul_s(PEARL_EXPLOSION_Y_FACTOR_RAW as int, PEARL_HEIGHT_RAW as int),
            ),
            adj_y,
        );
        let expl = v3(dvec.x.raw as int, vy, dvec.z.raw as int);
        let el = fx_sqrt_s(length_sq_s(expl));
        if el < PRECISION_EPSILON_RAW {
            v3(0, 0, 0)
        } else {
            let strength = fx_sub_s(FX_SCALE as int, fx_div_s(dist, TNT_EXPLOSION_RADIUS_RAW as int));
            v3(
                fx_mul_s(fx_div_s(expl.x.raw as int, el), strength),
                fx_mul_s(fx_div_s(expl.y.raw as int, el), strength),
                fx_mul_s(fx_div_s(expl.z.raw as int, el), strength),
            )
        }
    }
}

/// Motion after every charge whose fuse equals `tick` has fired, in list order.
pub open spec fn boost_s(pos: Space3D, motion: Space3D, charges: Seq<TNT>, tick: int) -> Space3D
    decreases charges.len(),
{
    if charges.len() == 0 {
        motion
    } else {
        let m1 = if charges[0].fuse == tick {
            vadd_s(motion, tnt_motion_s(pos, charges[0].position))
        } else {
            motion
        };
        boost_s(pos, m1, charges.skip(1), tick)
    }
}

/// The entity with the charges of `tick` applied to its motion.
pub open spec fn boosted_s(e: PearlEntity, charges: Seq<TNT>, tick: int) -> PearlEntity {
    PearlEntity { position: e.position, motion: boost_s(e.position, e.motion, charges, tick), is_gravity: e.is_gravity }
}

/// The entity after `n` ticks: before each tick the charges of that tick fire.
pub open spec fn state_s(
    version: PearlVersion,
    init: PearlEntity,
    charges: Seq<TNT>,
    boxes: Seq<AABBBox>,
    n: nat,
) -> PearlEntity
    decreases n,
{
    if n == 0 {
        init
    } else {
        tick_spec(
            version,
            boosted_s(state_s(version, init, charges, boxes, (n - 1) as nat), charges, n - 1),
            boxes,
        )
    }
}

/// The entity a simulation run starts from: gravity is always on.
pub open spec fn sim_init_s(data: GeneralData) -> PearlEntity {
    PearlEntity { position: data.pearl_position, motion: data.pearl_motion, is_gravity: true }
}

/// The recorded positions of a run: one per tick, including tick zero.
pub open spec fn run_positions_s(
    version: PearlVersion,
    init: PearlEntity,
    charges: Seq<TNT>,
    boxes: Seq<AABBBox>,
    max: nat,
) -> Seq<Space3D> {
    Seq::new(max + 1, |i: int| state_s(version, init, charges, boxes, i as nat).position)
}

/// The recorded motions of a run: one per tick, including tick zero.
pub open spec fn run_motions_s(
    version: PearlVersion,
    init: PearlEntity,
    charges: Seq<TNT>,
    boxes: Seq<AABBBox>,
    max: nat,
) -> Seq<Space3D> {
    Seq::new(max + 1, |i: int| state_s(version, init, charges, boxes, i as nat).motion)
}

/// Collapse runs of consecutive equal points, keeping the first of each run.
pub open spec fn dedup_s(s: Seq<Space3D>) -> Seq<Space3D>
    decreases s.len(),
{
    if s.len() <= 1 {
        s
    } else {
        let init = dedup_s(s.drop_last());
        if s[s.len() - 2] == s[s.len() - 1] {
            init
        } else {
            init.push(s.last())
        }
    }
}

/// Shift every point of a sequence by a constant offset.
pub open spec fn offset_seq_s(s: Seq<Space3D>, off: Space3D) -> Seq<Space3D> {
    s.map(|i: int, p: Space3D| vadd_s(p, off))
}

/// Compute the impulse one charge imparts to the entity.
pub fn calculate_tnt_motion(pearl_pos: Space3D, tnt_pos: Space3D) -> (r: Space3D)
    requires
        pearl_pos.wf(),
        tnt_pos.wf(),
    ensures
        r == tnt_motion_s(pearl_pos, tnt_pos),
        r.wf(),
{
    proof {
        reveal(tnt_motion_s);
    }
    let adj = Space3D {
        x: tnt_pos.x,
        y: tnt_pos.y.fadd(Fx { raw: TNT_ENTITY_Y_OFFSET_RAW }),
        z: tnt_pos.z,
    };
    let dvec = pearl_pos.vsub(adj);
    let dist = dvec.length();
    if dist.raw >= TNT_EXPLOSION_RADIUS_RAW {
        return Space3D::zero();
    }
    let vy = pearl_pos.y.fadd(
        Fx { raw: PEARL_EXPLOSION_Y_FACTOR_RAW }.fmul(Fx { raw: PEARL_HEIGHT_RAW }),
    ).fsub(adj.y);
    let expl = Space3D { x: dvec.x, y: vy, z: dvec.z };
    let el = expl.length();
    if el.raw < PRECISION_EPSILON_RAW {
        return Space3D::zero();
    }
    let strength = Fx { raw: FX_SCALE }.fsub(dist.fdiv(Fx { raw: TNT_EXPLOSION_RADIUS_RAW }));
    Space3D {
        x: expl.x.fdiv(el).fmul(strength),
        y: expl.y.fdiv(el).fmul(strength),
        z: expl.z.fdiv(el).fmul(strength),
    }
}

/// Add to `motion` the impulse of every charge whose fuse equals `tick`.
fn apply_charges(pos: Space3D, motion: Space3D, charges: &Vec<TNT>, tick: u32) -> (r: Space3D)
    requires
        pos.wf(),
        motion.wf(),
        charges_wf(charges@),
    ensures
        r == boost_s(pos, motion, charges@, tick as int),
        r.wf(),
{
    let mut cur = motion;
    let mut i: usize = 0;
    proof {
        assert(charges@.skip(0) =~= charges@);
    }
    while i < charges.len()
        invariant
            0 <= i <= charges.len(),
            pos.wf(),
            cur.wf(),
            charges_wf(charges@),
            boost_s(pos, motion, charges@, tick as int) == boost_s(
                pos,
                cur,
                charges@.skip(i as int),
                tick as int,
            ),
        decreases charges.len() - i,
    {
        proof {
            assert(charges@.skip(i as int)[0] == charges@[i as int]);
            assert(charges@.skip(i as int).skip(1) =~= charges@.skip(i as int + 1));
        }
        let tnt = charges[i];
        if tnt.fuse == tick {
            cur = cur.vadd(calculate_tnt_motion(pos, tnt.position));
        }
        i = i + 1;
    }
    proof {
        assert(charges@.skip(i as int) =~= Seq::<TNT>::empty());
    }
    cur
}

/// Collapse consecutive duplicates of a recorded trace.
fn dedup_points(v: &Vec<Space3D>) -> (r: Vec<Space3D>)
    ensures
        r@ == dedup_s(v@),
{
    let mut out: Vec<Space3D> = Vec::new();
    let mut i: usize = 0;
    while i < v.len()
        invariant
            0 <= i <= v.len(),
            out@ == dedup_s(v@.take(i as int)),
        decreases v.len() - i,
    {
        proof {
            assert(v@.take(i as int + 1).drop_last() =~= v@.take(i as int));
        }
        if i == 0 || v[i].x.raw != v[i - 1].x.raw || v[i].y.raw != v[i - 1].y.raw || v[i].z.raw
            != v[i - 1].z.raw {
            out.push(v[i]);
        } else {
            proof {
                assert(v@.take(i as int + 1)[i as int] == v@[i as int]);
                assert(v@.take(i as int + 1)[i as int - 1] == v@[i as int - 1]);
            }
        }
        i = i + 1;
    }
    proof {
        assert(v@.take(i as int) =~= v@);
    }
    out
}

/// Shift every point of a trace by a constant offset.
fn offset_points(v: &Vec<Space3D>, off: Space3D) -> (r: Vec<Space3D>)
    requires
        off.wf(),
        forall|i: int| 0 <= i < v@.len() ==> (#[trigger] v@[i]).wf(),
    ensures
        r@ == offset_seq_s(v@, off),
{
    let mut out: Vec<Space3D> = Vec::new();
    let mut i: usize = 0;
    while i < v.len()
        invariant
            0 <= i <= v.len(),
            off.wf(),
            forall|j: int| 0 <= j < v@.len() ==> (#[trigger] v@[j]).wf(),
            out@ =~= offset_seq_s(v@.take(i as int), off),
        decreases v.len() - i,
    {
        out.push(v[i].vadd(off));
        proof {
            assert(out@ =~= offset_seq_s(v@.take(i as int + 1), off));
        }
        i = i + 1;
    }
    proof {
        assert(v@.take(i as int) =~= v@);
    }
    out
}

/// The 2D distance from the landing point to the destination, if one is given.
pub open spec fn run_distance_s(
    version: PearlVersion,
    init: PearlEntity,
    charges: Seq<TNT>,
    boxes: Seq<AABBBox>,
    max: nat,
    destination: Option<Space3D>,
) -> int {
    match destination {
        Some(dest) => fx_sqrt_s(
            distance_2d_sq_s(state_s(version, init, charges, boxes, max).position, dest),
        ),
        None => 0,
    }
}

/// What a full trace reports, given the initial entity, the charge list and
/// the tick bound: the landing with the optional offset applied, both traces
/// with consecutive duplicates collapsed, and the outcome against the
/// optional destination.
pub open spec fn trace_matches_s(
    res: CalculationResult,
    version: PearlVersion,
    init: PearlEntity,
    charges: Seq<TNT>,
    boxes: Seq<AABBBox>,
    max_ticks: u32,
    destination: Option<Space3D>,
    offset: Option<Space3D>,
) -> bool {
    let fin = state_s(version, init, charges, boxes, max_ticks as nat);
    let dist = run_distance_s(version, init, charges, boxes, max_ticks as nat, destination);
    &&& res.landing_position == (match offset {
        Some(o) => vadd_s(fin.position, o),
        None => fin.position,
    })
    &&& res.pearl_trace@ == (match offset {
        Some(o) => offset_seq_s(dedup_s(run_positions_s(version, init, charges, boxes,
            max_ticks as nat)), o),
        None => dedup_s(run_positions_s(version, init, charges, boxes, max_ticks as nat)),
    })
    &&& res.pearl_motion_trace@ == dedup_s(run_motions_s(version, init, charges, boxes,
        max_ticks as nat))
    &&& res.is_successful == (destination matches Some(_) && dist <= SUCCESS_RADIUS_RAW)
    &&& res.tick == max_ticks
    &&& res.final_motion == fin.motion
    &&& res.distance.raw == dist
}

/// Run a full trace: tick the entity `max_ticks` times, fire each charge at
/// its fuse tick, record every position and motion, collapse consecutive
/// duplicates, and report the landing against the optional destination with
/// the optional world offset applied to positions.
pub fn run(
    data: &GeneralData,
    destination: Option<Space3D>,
    max_ticks: u32,
    world_collisions: &Vec<AABBBox>,
    offset: Option<Space3D>,
    version: PearlVersion,
) -> (r: Option<CalculationResult>)
    requires
        data.wf(),
        boxes_wf(world_collisions@),
        destination matches Some(d) ==> d.wf(),
        offset matches Some(o) ==> o.wf(),
    ensures
        r matches Some(res) && trace_matches_s(res, version, sim_init_s(*data), data.tnt_charges@,
            world_collisions@, max_ticks, destination, offset),
{
    let ghost init = sim_init_s(*data);
    let ghost charges = data.tnt_charges@;
    let ghost boxes = world_collisions@;
    let mut pearl = PearlEntity {
        position: data.pearl_position,
        motion: data.pearl_motion,
        is_gravity: true,
    };
    let mut traces: Vec<Space3D> = Vec::new();
    let mut motion_traces: Vec<Space3D> = Vec::new();
    traces.push(pearl.position);
    motion_traces.push(pearl.motion);
    let mut tick: u32 = 0;
    while tick < max_ticks
        invariant
            0 <= tick <= max_ticks,
            data.wf(),
            boxes_wf(boxes),
            boxes == world_collisions@,
            charges == data.tnt_charges@,
            init == sim_init_s(*data),
            pearl == state_s(version, init, charges, boxes, tick as nat),
            pearl.wf(),
            traces@ =~= Seq::new(tick as nat + 1, |i: int| state_s(version, init, charges, boxes,
                i as nat).position),
            motion_traces@ =~= Seq::new(tick as nat + 1, |i: int| state_s(version, init, charges,
                boxes, i as nat).motion),
            forall|j: int| 0 <= j < traces@.len() ==> (#[trigger] traces@[j]).wf(),
        decreases max_ticks - tick,
    {
        let boosted = apply_charges(pearl.position, pearl.motion, &data.tnt_charges, tick);
        pearl.motion = boosted;
        proof {
            assert(pearl == boosted_s(state_s(version, init, charges, boxes, tick as nat), charges,
                tick as int));
        }
        run_pearl_tick(version, &mut pearl, world_collisions);
        proof {
            assert(pearl == state_s(version, init, charges, boxes, tick as nat + 1));
        }
        traces.push(pearl.position);
        motion_traces.push(pearl.motion);
        tick = tick + 1;
        proof {
            assert(traces@ =~= Seq::new(tick as nat + 1, |i: int| state_s(version, init, charges,
                boxes, i as nat).position));
            assert(motion_traces@ =~= Seq::new(tick as nat + 1, |i: int| state_s(version, init,
                charges, boxes, i as nat).motion));
        }
    }
    let final_landing_pos = pearl.position;
    let (distance_to_dest, is_success): (Fx, bool) = match destination {
        Some(dest) => {
            let d = final_landing_pos.distance_2d(dest);
            (d, d.raw <= SUCCESS_RADIUS_RAW)
        },
        None => (Fx { raw: 0 }, false),
    };
    let final_traces = dedup_points(&traces);
    let final_motion_traces = dedup_points(&motion_traces);
    proof {
        lemma_dedup_wf(traces@);
    }
    let (landing, out_traces): (Space3D, Vec<Space3D>) = match offset {
        Some(off) => (final_landing_pos.vadd(off), offset_points(&final_traces, off)),
        None => (final_landing_pos, final_traces),
    };
    Some(
        CalculationResult {
            landing_position: landing,
            pearl_trace: out_traces,
            pearl_motion_trace: final_motion_traces,
            is_successful: is_success,
            tick: max_ticks,
            final_motion: pearl.motion,
            distance: distance_to_dest,
        },
    )
}

/// Collapsing duplicates keeps every point well formed.
proof fn lemma_dedup_wf(s: Seq<Space3D>)
    requires
        forall|i: int| 0 <= i < s.len() ==> (#[trigger] s[i]).wf(),
    ensures
        forall|i: int| 0 <= i < dedup_s(s).len() ==> (#[trigger] dedup_s(s)[i]).wf(),
    decreases s.len(),
{
    if s.len() <= 1 {
    } else {
        assert(forall|i: int|
            0 <= i < s.drop_last().len() ==> (#[trigger] s.drop_last()[i]) == s[i]);
        lemma_dedup_wf(s.drop_last());
        let init = dedup_s(s.drop_last());
        if s[s.len() - 2] == s[s.len() - 1] {
        } else {
            assert(dedup_s(s) == init.push(s.last()));
            assert(forall|i: int|
                0 <= i < init.len() ==> (#[trigger] init.push(s.last())[i]) == init[i]);
            assert(init.push(s.last())[init.len() as int] == s.last());
        }
    }
}

/// The hits a scan records from tick `t` on, given the entity state before
/// tick `t`: each eligible tick close enough to the destination yields a hit,
/// and the scan stops early once the motion's squared length falls below the
/// near-zero threshold.
pub open spec fn scan_rec_s(
    version: PearlVersion,
    st: PearlEntity,
    charges: Seq<TNT>,
    boxes: Seq<AABBBox>,
    destination: Space3D,
    offset: Space3D,
    valid: Seq<bool>,
    max_dist_sq: int,
    t: nat,
    max: nat,
) -> Seq<SimResult>
    decreases max + 1 - t,
{
    if t > max || t == 0 {
        Seq::empty()
    } else {
        let s1 = boosted_s(st, charges, t - 1);
        let s2 = tick_spec(version, s1, boxes);
        let cur = vadd_s(s2.position, offset);
        let dist_sq = distance_2d_sq_s(cur, destination);
        let hits = if t < valid.len() && valid[t as int] && dist_sq <= max_dist_sq {
            seq![
                SimResult {
                    tick: t as u32,
                    position: cur,
                    motion: s2.motion,
                    distance: Fx { raw: fx_sqrt_s(dist_sq) as i128 },
                },
            ]
        } else {
            Seq::empty()
        };
        if length_sq_s(s2.motion) < PRECISION_EPSILON_RAW {
            hits
        } else {
            hits + scan_rec_s(version, s2, charges, boxes, destination, offset, valid, max_dist_sq,
                t + 1, max)
        }
    }
}

/// One unfolding step of `scan_rec_s` at a tick within bounds.
proof fn lemma_scan_unfold(
    version: PearlVersion,
    st: PearlEntity,
    charges: Seq<TNT>,
    boxes: Seq<AABBBox>,
    destination: Space3D,
    offset: Space3D,
    valid: Seq<bool>,
    md: int,
    t: nat,
    max: nat,
)
    requires
        1 <= t <= max,
    ensures
        ({
            let s2 = tick_spec(version, boosted_s(st, charges, t - 1), boxes);
            let cur = vadd_s(s2.position, offset);
            let dist_sq = distance_2d_sq_s(cur, destination);
            let hits = if t < valid.len() && valid[t as int] && dist_sq <= md {
                seq![
                    SimResult {
                        tick: t as u32,
                        position: cur,
                        motion: s2.motion,
                        distance: Fx { raw: fx_sqrt_s(dist_sq) as i128 },
                    },
                ]
            } else {
                Seq::<SimResult>::empty()
            };
            scan_rec_s(version, st, charges, boxes, destination, offset, valid, md, t, max) == (
            if length_sq_s(s2.motion) < PRECISION_EPSILON_RAW {
                hits
            } else {
                hits + scan_rec_s(version, s2, charges, boxes, destination, offset, valid, md,
                    t + 1, max)
            })
        }),
{
}

/// Scan a trajectory: tick forward and record a hit at every eligible tick
/// whose offset position lies within the distance bound; stop early once the
/// motion is near zero.
#[verifier::rlimit(100)]
#[verifier::spinoff_prover]
pub fn scan_trajectory(
    data: &GeneralData,
    destination: Space3D,
    max_tick: u32,
    valid_ticks: &Vec<bool>,
    world_collisions: &Vec<AABBBox>,
    offset: Space3D,
    version: PearlVersion,
    max_distance_sq: Fx,
) -> (r: Vec<SimResult>)
    requires
        data.wf(),
        destination.wf(),
        boxes_wf(world_collisions@),
        offset.wf(),
        max_distance_sq.wf(),
    ensures
        r@ == scan_rec_s(version, sim_init_s(*data), data.tnt_charges@, world_collisions@,
            destination, offset, valid_ticks@, max_distance_sq.raw as int, 1, max_tick as nat),
{
    let ghost charges = data.tnt_charges@;
    let ghost boxes = world_collisions@;
    let mut results: Vec<SimResult> = Vec::new();
    let mut pearl = PearlEntity {
        position: data.pearl_position,
        motion: data.pearl_motion,
        is_gravity: true,
    };
    let mut t: u64 = 1;
    let mut stopped = false;
    while t <= max_tick as u64 && !stopped
        invariant
            1 <= t <= max_tick as nat + 1,
            data.wf(),
            boxes_wf(boxes),
            boxes == world_collisions@,
            charges == data.tnt_charges@,
            pearl.wf(),
            destination.wf(),
            offset.wf(),
            max_distance_sq.wf(),
            scan_rec_s(version, sim_init_s(*data), charges, boxes, destination, offset,
                valid_ticks@, max_distance_sq.raw as int, 1, max_tick as nat) == results@ + (
            if stopped {
                Seq::<SimResult>::empty()
            } else {
                scan_rec_s(version, pearl, charges, boxes, destination, offset, valid_ticks@,
                    max_distance_sq.raw as int, t as nat, max_tick as nat)
            }),
        decreases 2 * (max_tick as int + 1 - t as int) + (if stopped { 0int } else { 1int }),
    {
        let ghost st = pearl;
        let boosted = apply_charges(pearl.position, pearl.motion, &data.tnt_charges, (t - 1) as u32);
        pearl.motion = boosted;
        proof {
            assert(pearl == boosted_s(st, charges, t - 1));
        }
        run_pearl_tick(version, &mut pearl, world_collisions);
        let cur = pearl.position.vadd(offset);
        let ghost hits_before = results@;
        if (t as usize) < valid_ticks.len() && valid_ticks[t as usize] {
            let dist_sq = cur.distance_2d_sq(destination);
            if dist_sq.raw <= max_distance_sq.raw {
                let d = dist_sq.fsqrt();
                results.push(
                    SimResult { tick: t as u32, position: cur, motion: pearl.motion, distance: d },
                );
            }
        }
        let msq = pearl.motion.length_sq();
        if msq.raw < PRECISION_EPSILON_RAW {
            stopped = true;
        }
        proof {
            let md = max_distance_sq.raw as int;
            let hit_seq = results@.skip(hits_before.len() as int);
            let dist_sq = distance_2d_sq_s(cur, destination);
            assert(results@ =~= hits_before + hit_seq);
            lemma_scan_unfold(version, st, charges, boxes, destination, offset, valid_ticks@, md,
                t as nat, max_tick as nat);
            if t < valid_ticks@.len() && valid_ticks@[t as int] && dist_sq <= md {
                assert(hit_seq =~= seq![
                    SimResult {
                        tick: t as u32,
                        position: cur,
                        motion: pearl.motion,
                        distance: Fx { raw: fx_sqrt_s(dist_sq) as i128 },
                    },
                ]);
            } else {
                assert(hit_seq =~= Seq::<SimResult>::empty());
            }
            let tail = if stopped {
                Seq::<SimResult>::empty()
            } else {
                scan_rec_s(version, pearl, charges, boxes, destination, offset, valid_ticks@, md,
                    t as nat + 1, max_tick as nat)
            };
            assert(scan_rec_s(version, st, charges, boxes, destination, offset, valid_ticks@, md,
                t as nat, max_tick as nat) == hit_seq + tail);
            assert(hits_before + (hit_seq + tail) =~= (hits_before + hit_seq) + tail);
        }
        t = t + 1;
    }
    proof {
        if !stopped {
            assert(scan_rec_s(version, pearl, charges, boxes, destination, offset, valid_ticks@,
                max_distance_sq.raw as int, t as nat, max_tick as nat) =~= Seq::<
                SimResult,
            >::empty());
        }
        assert(results@ =~= results@ + Seq::<SimResult>::empty());
    }
    results
}

/// The entity state when a landing check ends: either after `max` ticks or at
/// the first tick whose motion is near zero.
pub open spec fn check_state_s(
    version: PearlVersion,
    st: PearlEntity,
    charges: Seq<TNT>,
    boxes: Seq<AABBBox>,
    t: nat,
    max: nat,
) -> PearlEntity
    decreases max - t,
{
    if t >= max {
        st
    } else {
        let s2 = tick_spec(version, boosted_s(st, charges, t as int), boxes);
        if length_sq_s(s2.motion) < PRECISION_EPSILON_RAW {
            s2
        } else {
            check_state_s(version, s2, charges, boxes, t + 1, max)
        }
    }
}

/// Simulate to rest or to the tick bound and report the offset landing point,
/// final motion and tick bound, or nothing when the landing lies outside the
/// distance bound.
pub fn check_landing(
    data: &GeneralData,
    destination: Space3D,
    max_ticks: u32,
    world_collisions: &Vec<AABBBox>,
    offset: Space3D,
    version: PearlVersion,
    max_distance_sq: Fx,
) -> (r: Option<(Space3D, Space3D, u32)>)
    requires
        data.wf(),
        destination.wf(),
        boxes_wf(world_collisions@),
        offset.wf(),
        max_distance_sq.wf(),
    ensures
        ({
            let fin = check_state_s(version, sim_init_s(*data), data.tnt_charges@,
                world_collisions@, 0, max_ticks as nat);
            let final_pos = vadd_s(fin.position, offset);
            if distance_2d_sq_s(final_pos, destination) <= max_distance_sq.raw {
                r matches Some(v) && v == (final_pos, fin.motion, max_ticks)
            } else {
                r is None
            }
        }),
{
    let ghost charges = data.tnt_charges@;
    let ghost boxes = world_collisions@;
    let mut pearl = PearlEntity {
        position: data.pearl_position,
        motion: data.pearl_motion,
        is_gravity: true,
    };
    let mut t: u32 = 0;
    let mut stopped = false;
    while t < max_ticks && !stopped
        invariant
            0 <= t <= max_ticks,
            data.wf(),
            boxes_wf(boxes),
            boxes == world_collisions@,
            charges == data.tnt_charges@,
            pearl.wf(),
            check_state_s(version, sim_init_s(*data), charges, boxes, 0, max_ticks as nat)
                == (if stopped {
                pearl
            } else {
                check_state_s(version, pearl, charges, boxes, t as nat, max_ticks as nat)
            }),
        decreases max_ticks - t + (if stopped { 0int } else { 1int }),
    {
        let ghost st = pearl;
        let boosted = apply_charges(pearl.position, pearl.motion, &data.tnt_charges, t);
        pearl.motion = boosted;
        proof {
            assert(pearl == boosted_s(st, charges, t as int));
        }
        run_pearl_tick(version, &mut pearl, world_collisions);
        let msq = pearl.motion.length_sq();
        if msq.raw < PRECISION_EPSILON_RAW {
            stopped = true;
        }
        t = t + 1;
    }
    let final_pos = pearl.position.vadd(offset);
    let d = final_pos.distance_2d_sq(destination);
    if d.raw <= max_distance_sq.raw {
        Some((final_pos, pearl.motion, max_ticks))
    } else {
        None
    }
}


/// Every hit a scan records lies within the representable band.
pub proof fn lemma_scan_hits_wf(
    version: PearlVersion,
    st: PearlEntity,
    charges: Seq<TNT>,
    boxes: Seq<AABBBox>,
    destination: Space3D,
    offset: Space3D,
    valid: Seq<bool>,
    md: int,
    t: nat,
    max: nat,
)
    ensures
        forall|i: int|
            0 <= i < scan_rec_s(version, st, charges, boxes, destination, offset, valid, md, t,
                max).len() ==> {
                let h = #[trigger] scan_rec_s(version, st, charges, boxes, destination, offset,
                    valid, md, t, max)[i];
                h.position.wf() && h.motion.wf() && h.distance.wf()
            },
    decreases max + 1 - t,
{
    if t > max || t == 0 {
    } else {
        let s1 = boosted_s(st, charges, t - 1);
        let s2 = tick_spec(version, s1, boxes);
        crate::movement::lemma_tick_wf(version, s1, boxes);
        let cur = vadd_s(s2.position, offset);
        let dist_sq = distance_2d_sq_s(cur, destination);
        lemma_distance_2d_sq_nonneg(cur, destination);
        crate::fx::lemma_fx_sqrt_wf(dist_sq);
        let full = scan_rec_s(version, st, charges, boxes, destination, offset, valid, md, t, max);
        let hits = if t < valid.len() && valid[t as int] && dist_sq <= md {
            seq![
                SimResult {
                    tick: t as u32,
                    position: cur,
                    motion: s2.motion,
                    distance: Fx { raw: fx_sqrt_s(dist_sq) as i128 },
                },
            ]
        } else {
            Seq::<SimResult>::empty()
        };
        let tail = if length_sq_s(s2.motion) < PRECISION_EPSILON_RAW {
            Seq::<SimResult>::empty()
        } else {
            scan_rec_s(version, s2, charges, boxes, destination, offset, valid, md, t + 1, max)
        };
        lemma_scan_unfold(version, st, charges, boxes, destination, offset, valid, md, t, max);
        assert(full == hits + tail);
        if length_sq_s(s2.motion) < PRECISION_EPSILON_RAW {
        } else {
            lemma_scan_hits_wf(version, s2, charges, boxes, destination, offset, valid, md, t + 1,
                max);
        }
        assert forall|i: int| 0 <= i < full.len() implies {
            let h = #[trigger] full[i];
            h.position.wf() && h.motion.wf() && h.distance.wf()
        } by {
            if i < hits.len() {
                assert(full[i] == hits[0]);
            } else {
                assert(full[i] == tail[i - hits.len()]);
            }
        }
    }
}

} // verus!
