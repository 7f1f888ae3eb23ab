use vstd::prelude::*;
use crate::aabb::{AABBBox, boxes_wf};
use crate::angles::{angle_to_yaw, angle_to_yaw_s, atan2_deg, from_angle, from_angle_s, pitch_of,
    pitch_of_s, yaw_of_s};
use crate::constants::{PEARL_DRAG_RAW, PEARL_GRAVITY_RAW, PRECISION_EPSILON_RAW, SEARCH_RADIUS};
use crate::direction::{Direction, LayoutDirection, resolve_corners, resolve_corners_s};
use crate::fx::{FX_SCALE, Fx, fx_add_s, fx_div_s, fx_mul_s, fx_quant_s, fx_round_s, fx_sqrt_s,
    fx_sub_s, iabs};
use crate::inputs::{Cannon, GeneralData, TNT};
use crate::movement::{PearlEntity, PearlVersion, legacy_drag_s};
use crate::optimizer::{CandSeq, SearchParams, cands_view, gen_cands_s, generate_candidates,
    groups_view};
use crate::results::{CalculationResult, TNTResult};
use crate::simulation::{self, SimResult, scan_rec_s, tnt_motion_s, trace_matches_s};
use crate::space::{Space3D, cross_s, dot_s, length_sq_s, v3, vadd_s, vscale_s, vsub_s};

verus! {

/// The corner charge position a layout direction names.
pub open spec fn tnt_loc_s(cannon: Cannon, dir: LayoutDirection) -> Space3D {
    match dir {
        LayoutDirection::NorthWest => cannon.north_west_tnt,
        LayoutDirection::NorthEast => cannon.north_east_tnt,
        LayoutDirection::SouthWest => cannon.south_west_tnt,
        LayoutDirection::SouthEast => cannon.south_east_tnt,
    }
}

/// The entity position at which per-unit impulse vectors are evaluated: the
/// horizontal offset at the actual spawn height.
pub open spec fn vec_calc_pos_s(cannon: Cannon) -> Space3D {
    Space3D { x: cannon.pearl.offset.x, y: cannon.pearl.position.y, z: cannon.pearl.offset.z }
}

/// The per-unit impulse vectors of the red and blue groups for a flight
/// direction, or nothing when a default corner is not configured.
pub open spec fn calc_tnt_vectors_s(cannon: Cannon, direction: Direction) -> Option<
    (Space3D, Space3D),
> {
    if cannon.default_blue_duper is None || cannon.default_red_duper is None {
        None
    } else {
        let corners = resolve_corners_s(direction, cannon.default_red_duper->0,
            cannon.default_blue_duper->0);
        let p = vec_calc_pos_s(cannon);
        Some((tnt_motion_s(p, tnt_loc_s(cannon, corners.0)), tnt_motion_s(p, tnt_loc_s(cannon,
            corners.1))))
    }
}

/// The per-unit impulse vector of the vertical group, if one is configured.
pub open spec fn vertical_vec_s(cannon: Cannon) -> Option<Space3D> {
    match cannon.vertical_tnt {
        Some(vp) => Some(tnt_motion_s(vec_calc_pos_s(cannon), vp)),
        None => None,
    }
}

/// The launch motion of a configured trace: the entity's own motion plus the
/// group vectors scaled by their counts; nothing when a default corner is
/// not configured.
pub open spec fn pearl_trace_motion_s(
    cannon: Cannon,
    red_tnt: u32,
    blue_tnt: u32,
    vertical_tnt: u32,
    direction: Direction,
) -> Option<Space3D> {
    match calc_tnt_vectors_s(cannon, direction) {
        None => None,
        Some(vecs) => {
            let horizontal = vadd_s(vscale_s(vecs.0, red_tnt * FX_SCALE), vscale_s(vecs.1,
                blue_tnt * FX_SCALE));
            let total = match vertical_vec_s(cannon) {
                Some(vv) => vadd_s(horizontal, vscale_s(vv, vertical_tnt * FX_SCALE)),
                None => horizontal,
            };
            Some(vadd_s(cannon.pearl.motion, total))
        },
    }
}

/// The corner charge position a layout direction names.
pub fn tnt_loc_from_layout(cannon: &Cannon, dir: LayoutDirection) -> (r: Space3D)
    ensures
        r == tnt_loc_s(*cannon, dir),
{
    match dir {
        LayoutDirection::NorthWest => cannon.north_west_tnt,
        LayoutDirection::NorthEast => cannon.north_east_tnt,
        LayoutDirection::SouthWest => cannon.south_west_tnt,
        LayoutDirection::SouthEast => cannon.south_east_tnt,
    }
}

/// Resolve the red and blue corners for a flight direction and compute their
/// per-unit impulse vectors; nothing when a default corner is not configured.
pub fn calculate_tnt_vectors(cannon: &Cannon, direction: Direction) -> (r: Option<
    (Space3D, Space3D)>)
    requires
        cannon.wf(),
    ensures
        r == calc_tnt_vectors_s(*cannon, direction),
        r matches Some(p) ==> p.0.wf() && p.1.wf(),
{
    let blue_duper = match cannon.default_blue_duper {
        Some(d) => d,
        None => {
            return None;
        },
    };
    let red_duper = match cannon.default_red_duper {
        Some(d) => d,
        None => {
            return None;
        },
    };
    let mut pearl_pos_for_vec_calc = cannon.pearl.offset;
    pearl_pos_for_vec_calc.y = cannon.pearl.position.y;
    let corners = resolve_corners(direction, red_duper, blue_duper);
    let red_tnt_loc = tnt_loc_from_layout(cannon, corners.0);
    let blue_tnt_loc = tnt_loc_from_layout(cannon, corners.1);
    let red_tnt_vec = simulation::calculate_tnt_motion(pearl_pos_for_vec_calc, red_tnt_loc);
    let blue_tnt_vec = simulation::calculate_tnt_motion(pearl_pos_for_vec_calc, blue_tnt_loc);
    Some((red_tnt_vec, blue_tnt_vec))
}

/// Build the run inputs for a start state and launch motion and run the trace.
fn run_trace_internal(
    position: Space3D,
    motion: Space3D,
    offset: Option<Space3D>,
    max_ticks: u32,
    world_collisions: &Vec<AABBBox>,
    version: PearlVersion,
) -> (r: Option<CalculationResult>)
    requires
        position.wf(),
        motion.wf(),
        offset matches Some(o) ==> o.wf(),
        boxes_wf(world_collisions@),
    ensures
        r matches Some(res) && trace_matches_s(res, version, PearlEntity { position, motion,
            is_gravity: true }, Seq::<TNT>::empty(), world_collisions@, max_ticks, None, offset),
{
    let general_data = GeneralData {
        pearl_position: position,
        pearl_motion: motion,
        tnt_charges: Vec::new(),
    };
    proof {
        assert(general_data.tnt_charges@ =~= Seq::<TNT>::empty());
    }
    simulation::run(&general_data, None, max_ticks, world_collisions, offset, version)
}

/// Trace the flight of the entity launched by whole charge groups: resolve the
/// per-unit vectors for the direction, scale them by the counts, and run a
/// full trace with the cannon's offset applied; nothing when a default corner
/// is not configured.
pub fn calculate_pearl_trace(
    cannon: &Cannon,
    red_tnt: u32,
    blue_tnt: u32,
    vertical_tnt: u32,
    direction: Direction,
    max_ticks: u32,
    world_collisions: &Vec<AABBBox>,
    version: PearlVersion,
) -> (r: Option<CalculationResult>)
    requires
        cannon.wf(),
        boxes_wf(world_collisions@),
    ensures
        match pearl_trace_motion_s(*cannon, red_tnt, blue_tnt, vertical_tnt, direction) {
            None => r is None,
            Some(m) => r matches Some(res) && trace_matches_s(res, version, PearlEntity {
                position: cannon.pearl.position,
                motion: m,
                is_gravity: true,
            }, Seq::<TNT>::empty(), world_collisions@, max_ticks, None, Some(cannon.pearl.offset)),
        },
{
    let vecs = match calculate_tnt_vectors(cannon, direction) {
        Some(v) => v,
        None => {
            return None;
        },
    };
    let mut total = vecs.0.vscale(Fx::from_u32(red_tnt)).vadd(vecs.1.vscale(Fx::from_u32(
        blue_tnt)));
    if let Some(vp) = cannon.vertical_tnt {
        let vv = simulation::calculate_tnt_motion(
            Space3D { x: cannon.pearl.offset.x, y: cannon.pearl.position.y, z: cannon.pearl.offset.z },
            vp,
        );
        total = total.vadd(vv.vscale(Fx::from_u32(vertical_tnt)));
    }
    let final_motion = cannon.pearl.motion.vadd(total);
    run_trace_internal(
        cannon.pearl.position,
        final_motion,
        Some(cannon.pearl.offset),
        max_ticks,
        world_collisions,
        version,
    )
}

/// The combined impulse of a free-form charge list at the start position:
/// each group's per-unit impulse scaled by its count, groups with a zero
/// count skipped, summed in list order.
pub open spec fn raw_total_s(pos: Space3D, charges: Seq<(Space3D, u32)>, n: nat) -> Space3D
    decreases n,
{
    if n == 0 {
        v3(0, 0, 0)
    } else {
        let acc = raw_total_s(pos, charges, (n - 1) as nat);
        let c = charges[n - 1];
        if c.1 > 0 {
            vadd_s(acc, vscale_s(tnt_motion_s(pos, c.0), c.1 * FX_SCALE))
        } else {
            acc
        }
    }
}

/// Trace the flight of the entity under a free-form charge list whose
/// impulses all fire at launch, with no destination and no offset.
pub fn calculate_raw_trace(
    pearl_position: Space3D,
    pearl_motion: Space3D,
    tnt_charges: Vec<(Space3D, u32)>,
    max_ticks: u32,
    world_collisions: &Vec<AABBBox>,
    version: PearlVersion,
) -> (r: Option<CalculationResult>)
    requires
        pearl_position.wf(),
        pearl_motion.wf(),
        forall|i: int| 0 <= i < tnt_charges@.len() ==> (#[trigger] tnt_charges@[i]).0.wf(),
        boxes_wf(world_collisions@),
    ensures
        r matches Some(res) && trace_matches_s(res, version, PearlEntity {
            position: pearl_position,
            motion: vadd_s(pearl_motion, raw_total_s(pearl_position, tnt_charges@,
                tnt_charges@.len())),
            is_gravity: true,
        }, Seq::<TNT>::empty(), world_collisions@, max_ticks, None, None),
{
    let mut total = Space3D::zero();
    let mut i: usize = 0;
    while i < tnt_charges.len()
        invariant
            0 <= i <= tnt_charges.len(),
            pearl_position.wf(),
            forall|j: int| 0 <= j < tnt_charges@.len() ==> (#[trigger] tnt_charges@[j]).0.wf(),
            total == raw_total_s(pearl_position, tnt_charges@, i as nat),
            total.wf(),
        decreases tnt_charges.len() - i,
    {
        let (tnt_pos, count) = tnt_charges[i];
        if count > 0 {
            let unit = simulation::calculate_tnt_motion(pearl_position, tnt_pos);
            total = total.vadd(unit.vscale(Fx::from_u32(count)));
        }
        i = i + 1;
    }
    run_trace_internal(
        pearl_position,
        pearl_motion.vadd(total),
        None,
        max_ticks,
        world_collisions,
        version,
    )
}


/// The drag multiplier raised to the `t`-th power, on the grid.
pub open spec fn pow_s(t: nat) -> int
    decreases t,
{
    if t == 0 {
        FX_SCALE as int
    } else {
        fx_mul_s(pow_s((t - 1) as nat), PEARL_DRAG_RAW as int)
    }
}

/// The geometric-series factor converting one unit of impulse into net
/// displacement after `t` ticks of drag decay; the extra drag factor of the
/// gravity-first rules absorbs their reordering.
pub open spec fn divider_s(version: PearlVersion, t: nat) -> int {
    let num = fx_sub_s(FX_SCALE as int, pow_s(t));
    let dc = fx_sub_s(FX_SCALE as int, PEARL_DRAG_RAW as int);
    match version {
        PearlVersion::Legacy | PearlVersion::Post1205 => fx_div_s(num, dc),
        PearlVersion::Post1212 => fx_div_s(fx_mul_s(PEARL_DRAG_RAW as int, num), dc),
    }
}

/// Vertical velocity and accumulated fall of an impulse-free entity after `t`
/// ticks, iterating the movement rules on a scalar pair seeded at zero.
pub open spec fn fall_s(version: PearlVersion, t: nat) -> (int, int)
    decreases t,
{
    if t == 0 {
        (0, 0)
    } else {
        let prev = fall_s(version, (t - 1) as nat);
        match version {
            PearlVersion::Legacy => (
                fx_quant_s(fx_sub_s(legacy_drag_s(prev.0), PEARL_GRAVITY_RAW as int),
                    crate::constants::LEGACY_REDUCE_STEP as int),
                fx_add_s(prev.1, prev.0),
            ),
            PearlVersion::Post1205 => (
                fx_sub_s(fx_mul_s(prev.0, PEARL_DRAG_RAW as int), PEARL_GRAVITY_RAW as int),
                fx_add_s(prev.1, prev.0),
            ),
            PearlVersion::Post1212 => {
                let v = fx_mul_s(fx_sub_s(prev.0, PEARL_GRAVITY_RAW as int),
                    PEARL_DRAG_RAW as int);
                (v, fx_add_s(prev.1, v))
            },
        }
    }
}

/// Saturate a whole-unit count into the signed 32-bit range.
pub open spec fn clamp_i32_s(x: int) -> int {
    if x > 2147483647 {
        2147483647
    } else if x < -2147483648 {
        -2147483648
    } else {
        x
    }
}

/// The analytic center of a tick when only the two horizontal groups exist:
/// the tick-independent solution scaled by the tick's divider, rounded.
pub open spec fn center2d_s(tr: int, tb: int, version: PearlVersion, t: nat) -> Option<
    (i32, i32, i32),
> {
    let div = divider_s(version, t);
    if div == 0 {
        None
    } else {
        let cr = fx_round_s(fx_div_s(tr, div));
        let cb = fx_round_s(fx_div_s(tb, div));
        Some((clamp_i32_s(cr) as i32, clamp_i32_s(cb) as i32, 0i32))
    }
}

/// The analytic center of a tick when a vertical group exists: the 3x3 system
/// with the group vectors as columns, solved by Cramer's rule on the
/// fall-compensated displacement; a near-zero determinant skips the tick.
pub open spec fn center3d_s(
    td: Space3D,
    rv: Space3D,
    bv: Space3D,
    vv: Space3D,
    version: PearlVersion,
    t: nat,
) -> Option<(i32, i32, i32)> {
    let div = divider_s(version, t);
    if div == 0 {
        None
    } else {
        let fall = fall_s(version, t).1;
        let rhs = v3(
            fx_div_s(td.x.raw as int, div),
            fx_div_s(fx_sub_s(td.y.raw as int, fall), div),
            fx_div_s(td.z.raw as int, div),
        );
        let det = dot_s(rv, cross_s(bv, vv));
        if iabs(det) < PRECISION_EPSILON_RAW {
            None
        } else {
            let cr = fx_round_s(fx_div_s(dot_s(rhs, cross_s(bv, vv)), det));
            let cb = fx_round_s(fx_div_s(dot_s(rv, cross_s(rhs, vv)), det));
            let cv = fx_round_s(fx_div_s(dot_s(rv, cross_s(bv, rhs)), det));
            Some((clamp_i32_s(cr) as i32, clamp_i32_s(cb) as i32, clamp_i32_s(cv) as i32))
        }
    }
}

/// The analytic center of a tick, for either solver shape.
pub open spec fn center_at_s(
    td: Space3D,
    rv: Space3D,
    bv: Space3D,
    vvopt: Option<Space3D>,
    tr: int,
    tb: int,
    version: PearlVersion,
    t: nat,
) -> Option<(i32, i32, i32)> {
    match vvopt {
        Some(vv) => center3d_s(td, rv, bv, vv, version, t),
        None => center2d_s(tr, tb, version, t),
    }
}

/// The analytic centers' tick buckets.
pub type GroupSeq = Seq<((i32, i32, i32), Seq<u32>)>;

/// Append a tick to its center's bucket: the first entry with the same key
/// gains the tick, a missing key is appended at the end.
pub open spec fn bucket_s(acc: GroupSeq, k: (i32, i32, i32), tick: u32) -> GroupSeq
    decreases acc.len(),
{
    if acc.len() == 0 {
        seq![(k, seq![tick])]
    } else if acc[0].0 == k {
        seq![(acc[0].0, acc[0].1.push(tick))] + acc.skip(1)
    } else {
        seq![acc[0]] + bucket_s(acc.skip(1), k, tick)
    }
}

/// The tick buckets after the first `t` ticks have been solved.
pub open spec fn groups_upto_s(
    td: Space3D,
    rv: Space3D,
    bv: Space3D,
    vvopt: Option<Space3D>,
    tr: int,
    tb: int,
    version: PearlVersion,
    t: nat,
) -> GroupSeq
    decreases t,
{
    if t == 0 {
        Seq::empty()
    } else {
        let g = groups_upto_s(td, rv, bv, vvopt, tr, tb, version, (t - 1) as nat);
        match center_at_s(td, rv, bv, vvopt, tr, tb, version, t) {
            Some(k) => bucket_s(g, k, t as u32),
            None => g,
        }
    }
}

/// The largest tick in a list; zero for an empty list.
pub open spec fn seq_max_s(s: Seq<u32>) -> u32
    decreases s.len(),
{
    if s.len() == 0 {
        0u32
    } else {
        let m = seq_max_s(s.drop_last());
        if s.last() > m {
            s.last()
        } else {
            m
        }
    }
}

/// Every tick is bounded by the list's maximum.
proof fn lemma_seq_max_bound(s: Seq<u32>)
    ensures
        forall|i: int| 0 <= i < s.len() ==> (#[trigger] s[i]) <= seq_max_s(s),
    decreases s.len(),
{
    if s.len() == 0 {
    } else {
        lemma_seq_max_bound(s.drop_last());
        assert(forall|i: int| 0 <= i < s.len() - 1 ==> (#[trigger] s[i]) == s.drop_last()[i]);
    }
}

/// The launch motion of a candidate: the entity's own motion plus each group
/// vector scaled by its count, added one group at a time.
pub open spec fn cand_motion_s(
    cannon: Cannon,
    rv: Space3D,
    bv: Space3D,
    vvopt: Option<Space3D>,
    k: (u32, u32, u32),
) -> Space3D {
    let m1 = vadd_s(cannon.pearl.motion, vscale_s(rv, k.0 * FX_SCALE));
    let m2 = vadd_s(m1, vscale_s(bv, k.1 * FX_SCALE));
    match vvopt {
        Some(vv) => vadd_s(m2, vscale_s(vv, k.2 * FX_SCALE)),
        None => m2,
    }
}

/// Strict lexicographic order on hits: closer first, then earlier.
pub open spec fn hit_lt_s(a: SimResult, b: SimResult) -> bool {
    a.distance.raw < b.distance.raw || (a.distance.raw == b.distance.raw && a.tick < b.tick)
}

/// The hit with the smallest (distance, tick); among equals the later one.
pub open spec fn best_hit_s(hits: Seq<SimResult>) -> SimResult
    decreases hits.len(),
{
    if hits.len() <= 1 {
        hits[0]
    } else {
        let b = best_hit_s(hits.drop_last());
        if hit_lt_s(b, hits.last()) {
            b
        } else {
            hits.last()
        }
    }
}

/// Saturate a sum of counts into the unsigned 32-bit range.
pub open spec fn sat_u32_s(x: int) -> int {
    if x > 4294967295 {
        4294967295
    } else {
        x
    }
}

/// The verified result of one candidate: its simulated closest approach among
/// its eligible ticks, with yaw, pitch and outgoing direction computed from
/// the net flight vector; nothing when no eligible tick qualifies.
pub open spec fn result_of_cand_s(
    cannon: Cannon,
    start: Space3D,
    destination: Space3D,
    rv: Space3D,
    bv: Space3D,
    vvopt: Option<Space3D>,
    maxd2: int,
    version: PearlVersion,
    k: (u32, u32, u32),
    ticks: Seq<u32>,
) -> Option<TNTResult> {
    if ticks.len() == 0 {
        None
    } else {
        let maxt = seq_max_s(ticks);
        if maxt == 0 {
            None
        } else {
            let valid = Seq::new(maxt as nat + 1, |i: int| ticks.contains(i as u32));
            let motion = cand_motion_s(cannon, rv, bv, vvopt, k);
            let hits = scan_rec_s(version, PearlEntity {
                position: cannon.pearl.position,
                motion: motion,
                is_gravity: true,
            }, Seq::<TNT>::empty(), Seq::empty(), destination, cannon.pearl.offset, valid, maxd2,
                1, maxt as nat);
            if hits.len() == 0 {
                None
            } else {
                let best = best_hit_s(hits);
                let net = vsub_s(best.position, start);
                let yaw = yaw_of_s(net.x.raw as int, net.z.raw as int);
                let horiz = fx_sqrt_s(length_sq_s(v3(net.x.raw as int, 0, net.z.raw as int)));
                Some(TNTResult {
                    distance: best.distance,
                    tick: best.tick,
                    blue: k.1,
                    red: k.0,
                    vertical: k.2,
                    yaw: Fx { raw: yaw as i128 },
                    pitch: Fx { raw: pitch_of_s(net.y.raw as int, horiz) as i128 },
                    total: sat_u32_s(k.0 + k.1 + k.2) as u32,
                    pearl_end_pos: best.position,
                    pearl_end_motion: best.motion,
                    direction: from_angle_s(yaw),
                })
            }
        }
    }
}

/// The verified results of the first `i` candidates, in candidate order.
pub open spec fn raw_upto_s(
    cannon: Cannon,
    start: Space3D,
    destination: Space3D,
    rv: Space3D,
    bv: Space3D,
    vvopt: Option<Space3D>,
    maxd2: int,
    version: PearlVersion,
    cands: CandSeq,
    i: nat,
) -> Seq<TNTResult>
    decreases i,
{
    if i == 0 {
        Seq::empty()
    } else {
        let p = raw_upto_s(cannon, start, destination, rv, bv, vvopt, maxd2, version, cands,
            (i - 1) as nat);
        match result_of_cand_s(cannon, start, destination, rv, bv, vvopt, maxd2, version,
            cands[i - 1].0, cands[i - 1].1) {
            Some(r) => p.push(r),
            None => p,
        }
    }
}

/// Whether one result beats another for the same candidate triple: smaller
/// distance wins; distances within the near-zero threshold prefer the
/// earlier tick.
pub open spec fn better_s(a: TNTResult, b: TNTResult) -> bool {
    if iabs(a.distance.raw - b.distance.raw) < PRECISION_EPSILON_RAW {
        a.tick < b.tick
    } else {
        a.distance.raw < b.distance.raw
    }
}

/// Keep the best result per candidate triple: a new key is appended, a known
/// key keeps the better of the two results.
pub open spec fn upsert_best_s(acc: Seq<TNTResult>, res: TNTResult) -> Seq<TNTResult>
    decreases acc.len(),
{
    if acc.len() == 0 {
        seq![res]
    } else if acc[0].red == res.red && acc[0].blue == res.blue && acc[0].vertical == res.vertical {
        if better_s(res, acc[0]) {
            seq![res] + acc.skip(1)
        } else {
            acc
        }
    } else {
        seq![acc[0]] + upsert_best_s(acc.skip(1), res)
    }
}

/// The best results of the first `i` raw results, keyed by candidate triple.
pub open spec fn dedup_upto_s(raw: Seq<TNTResult>, i: nat) -> Seq<TNTResult>
    decreases i,
{
    if i == 0 {
        Seq::empty()
    } else {
        upsert_best_s(dedup_upto_s(raw, (i - 1) as nat), raw[i - 1])
    }
}

/// Insert a result before the first strictly more distant entry.
pub open spec fn insert_sorted_s(out: Seq<TNTResult>, x: TNTResult) -> Seq<TNTResult>
    decreases out.len(),
{
    if out.len() == 0 {
        seq![x]
    } else if x.distance.raw < out[0].distance.raw {
        seq![x] + out
    } else {
        seq![out[0]] + insert_sorted_s(out.skip(1), x)
    }
}

/// The first `i` results sorted ascending by distance, insertion order kept
/// among equal distances.
pub open spec fn sorted_upto_s(s: Seq<TNTResult>, i: nat) -> Seq<TNTResult>
    decreases i,
{
    if i == 0 {
        Seq::empty()
    } else {
        insert_sorted_s(sorted_upto_s(s, (i - 1) as nat), s[i - 1])
    }
}

/// Every result of the charge-count search, in final order: the ranked,
/// deduplicated verified candidates, or the empty list when the start and
/// destination share their horizontal position, a default corner is missing,
/// or the two horizontal group vectors cannot independently control
/// horizontal displacement.
pub open spec fn tnt_amount_results_s(
    cannon: Cannon,
    destination: Space3D,
    max_tnt: u32,
    max_vertical_tnt: Option<u32>,
    max_ticks: u32,
    max_distance: Fx,
    version: PearlVersion,
) -> Seq<TNTResult> {
    let start = vadd_s(cannon.pearl.position, cannon.pearl.offset);
    let td = vsub_s(destination, start);
    if td.x.raw == 0 && td.z.raw == 0 {
        Seq::empty()
    } else {
        let dir = from_angle_s(angle_to_yaw_s(start, destination));
        match calc_tnt_vectors_s(cannon, dir) {
            None => Seq::empty(),
            Some(vecs) => {
                let rv = vecs.0;
                let bv = vecs.1;
                let vvopt = vertical_vec_s(cannon);
                let den = fx_sub_s(fx_mul_s(rv.z.raw as int, bv.x.raw as int),
                    fx_mul_s(bv.z.raw as int, rv.x.raw as int));
                if vvopt is None && (iabs(den) < PRECISION_EPSILON_RAW || bv.x.raw == 0) {
                    Seq::empty()
                } else {
                    let tr = fx_div_s(fx_sub_s(fx_mul_s(td.z.raw as int, bv.x.raw as int),
                        fx_mul_s(td.x.raw as int, bv.z.raw as int)), den);
                    let tb = fx_div_s(fx_sub_s(td.x.raw as int, fx_mul_s(tr, rv.x.raw as int)),
                        bv.x.raw as int);
                    let groups = groups_upto_s(td, rv, bv, vvopt, tr, tb, version,
                        max_ticks as nat);
                    let params = SearchParams {
                        max_tnt,
                        max_vertical_tnt,
                        search_radius: SEARCH_RADIUS,
                        has_vertical: vvopt is Some,
                        cannon_mode: cannon.mode,
                    };
                    let cands = gen_cands_s(groups, params, 0, Seq::empty());
                    let maxd2 = fx_mul_s(max_distance.raw as int, max_distance.raw as int);
                    let raw = raw_upto_s(cannon, start, destination, rv, bv, vvopt, maxd2,
                        version, cands, cands.len());
                    let deduped = dedup_upto_s(raw, raw.len());
                    sorted_upto_s(deduped, deduped.len())
                }
            },
        }
    }
}

/// Bucketing at the first index holding the key updates exactly that entry.
proof fn lemma_bucket_at(acc: GroupSeq, k: (i32, i32, i32), tick: u32, i: int)
    requires
        0 <= i < acc.len(),
        acc[i].0 == k,
        forall|j: int| 0 <= j < i ==> (#[trigger] acc[j]).0 != k,
    ensures
        bucket_s(acc, k, tick) =~= acc.update(i, (k, acc[i].1.push(tick))),
    decreases acc.len(),
{
    if i == 0 {
        assert(bucket_s(acc, k, tick) == seq![(acc[0].0, acc[0].1.push(tick))] + acc.skip(1));
    } else {
        assert(forall|j: int| 0 <= j < i - 1 ==> (#[trigger] acc.skip(1)[j]).0 != k);
        lemma_bucket_at(acc.skip(1), k, tick, i - 1);
        assert(bucket_s(acc, k, tick) == seq![acc[0]] + bucket_s(acc.skip(1), k, tick));
    }
}

/// Bucketing a key absent from the list appends a new entry.
proof fn lemma_bucket_missing(acc: GroupSeq, k: (i32, i32, i32), tick: u32)
    requires
        forall|j: int| 0 <= j < acc.len() ==> (#[trigger] acc[j]).0 != k,
    ensures
        bucket_s(acc, k, tick) =~= acc.push((k, seq![tick])),
    decreases acc.len(),
{
    if acc.len() == 0 {
    } else {
        assert(forall|j: int| 0 <= j < acc.skip(1).len() ==> (#[trigger] acc.skip(1)[j]).0 != k);
        lemma_bucket_missing(acc.skip(1), k, tick);
        assert(bucket_s(acc, k, tick) == seq![acc[0]] + bucket_s(acc.skip(1), k, tick));
    }
}

/// Append a tick to its center's bucket, as `bucket_s` describes.
fn bucket_push(acc: &mut Vec<((i32, i32, i32), Vec<u32>)>, k: (i32, i32, i32), tick: u32)
    ensures
        groups_view(final(acc)@) == bucket_s(groups_view(old(acc)@), k, tick),
{
    let mut i: usize = 0;
    while i < acc.len()
        invariant
            0 <= i <= acc.len(),
            acc@ == old(acc)@,
            forall|j: int| 0 <= j < i ==> (#[trigger] acc@[j]).0 != k,
        decreases acc.len() - i,
    {
        let cur = &acc[i];
        if cur.0.0 == k.0 && cur.0.1 == k.1 && cur.0.2 == k.2 {
            let mut merged: Vec<u32> = Vec::new();
            let mut j: usize = 0;
            while j < acc[i].1.len()
                invariant
                    0 <= j <= acc@[i as int].1.len(),
                    0 <= i < acc.len(),
                    acc@ == old(acc)@,
                    merged@ =~= acc@[i as int].1@.take(j as int),
                decreases acc@[i as int].1.len() - j,
            {
                let v = acc[i].1[j];
                merged.push(v);
                proof {
                    assert(merged@ =~= acc@[i as int].1@.take(j as int + 1));
                }
                j = j + 1;
            }
            proof {
                assert(acc@[i as int].1@.take(j as int) =~= acc@[i as int].1@);
            }
            merged.push(tick);
            let ghost before = groups_view(acc@);
            acc.set(i, (k, merged));
            proof {
                assert(before[i as int].0 == k);
                lemma_bucket_at(before, k, tick, i as int);
                assert(groups_view(acc@) =~= before.update(i as int, (k, before[i as int].1.push(
                    tick))));
            }
            return ;
        }
        i = i + 1;
    }
    let ghost before = groups_view(acc@);
    let mut fresh: Vec<u32> = Vec::new();
    fresh.push(tick);
    acc.push((k, fresh));
    proof {
        assert(forall|j: int| 0 <= j < before.len() ==> (#[trigger] before[j]).0 != k);
        lemma_bucket_missing(before, k, tick);
        assert(groups_view(acc@) =~= before.push((k, seq![tick])));
    }
}

/// The largest tick in a list; zero for an empty list.
fn seq_max(s: &Vec<u32>) -> (r: u32)
    ensures
        r == seq_max_s(s@),
{
    let mut m: u32 = 0;
    let mut i: usize = 0;
    proof {
        assert(s@.take(0) =~= Seq::<u32>::empty());
    }
    while i < s.len()
        invariant
            0 <= i <= s.len(),
            m == seq_max_s(s@.take(i as int)),
        decreases s.len() - i,
    {
        proof {
            assert(s@.take(i as int + 1).drop_last() =~= s@.take(i as int));
            assert(s@.take(i as int + 1).last() == s@[i as int]);
        }
        if s[i] > m {
            m = s[i];
        }
        i = i + 1;
    }
    proof {
        assert(s@.take(i as int) =~= s@);
    }
    m
}

/// Membership in one more element of a prefix.
proof fn lemma_contains_take_step(s: Seq<u32>, i: int, v: u32)
    requires
        0 <= i < s.len(),
    ensures
        s.take(i + 1).contains(v) <==> (s.take(i).contains(v) || s[i] == v),
{
    if s.take(i + 1).contains(v) {
        let j = choose|j: int| 0 <= j < s.take(i + 1).len() && #[trigger] s.take(i + 1)[j] == v;
        if j < i {
            assert(s.take(i)[j] == v);
        } else {
            assert(s[i] == v);
        }
    }
    if s.take(i).contains(v) {
        let j = choose|j: int| 0 <= j < s.take(i).len() && #[trigger] s.take(i)[j] == v;
        assert(s.take(i + 1)[j] == v);
    }
    if s[i] == v {
        assert(s.take(i + 1)[i] == v);
    }
}

/// A full prefix contains exactly what the sequence contains.
proof fn lemma_contains_take_all(s: Seq<u32>, v: u32)
    ensures
        s.take(s.len() as int).contains(v) <==> s.contains(v),
{
    assert(s.take(s.len() as int) =~= s);
}

/// The per-tick eligibility table of a tick list: true exactly at the listed
/// ticks, with one slot per tick up to the largest.
fn build_valid_map(ticks: &Vec<u32>, maxt: u32) -> (r: Vec<bool>)
    requires
        maxt == seq_max_s(ticks@),
    ensures
        r@ == Seq::new(maxt as nat + 1, |i: int| ticks@.contains(i as u32)),
{
    let mut out: Vec<bool> = Vec::new();
    let mut j: u64 = 0;
    while j <= maxt as u64
        invariant
            0 <= j <= maxt as u64 + 1,
            out@ =~= Seq::new(j as nat, |i: int| false),
        decreases maxt as u64 + 1 - j,
    {
        out.push(false);
        proof {
            assert(out@ =~= Seq::new(j as nat + 1, |i: int| false));
        }
        j = j + 1;
    }
    proof {
        lemma_seq_max_bound(ticks@);
        assert(ticks@.take(0) =~= Seq::<u32>::empty());
        assert forall|p: int| 0 <= p < out@.len() implies out@[p] == ticks@.take(0).contains(
            p as u32) by {
            if ticks@.take(0).contains(p as u32) {
                let w = choose|w: int| 0 <= w < 0 && ticks@.take(0)[w] == p as u32;
            }
        }
    }
    let mut i: usize = 0;
    while i < ticks.len()
        invariant
            0 <= i <= ticks.len(),
            maxt == seq_max_s(ticks@),
            out@.len() == maxt as nat + 1,
            forall|w: int| 0 <= w < ticks@.len() ==> (#[trigger] ticks@[w]) <= maxt,
            forall|p: int|
                0 <= p < out@.len() ==> (#[trigger] out@[p]) == ticks@.take(i as int).contains(
                    p as u32),
        decreases ticks.len() - i,
    {
        let t = ticks[i];
        out.set(t as usize, true);
        proof {
            assert forall|p: int|
                0 <= p < out@.len() implies (#[trigger] out@[p]) == ticks@.take(i as int
                + 1).contains(p as u32) by {
                lemma_contains_take_step(ticks@, i as int, p as u32);
            }
        }
        i = i + 1;
    }
    proof {
        assert(ticks@.take(i as int) =~= ticks@);
        assert(out@ =~= Seq::new(maxt as nat + 1, |i: int| ticks@.contains(i as u32)));
    }
    out
}

/// The hit with the smallest (distance, tick).
fn best_hit(hits: &Vec<SimResult>) -> (r: SimResult)
    requires
        hits@.len() > 0,
    ensures
        r == best_hit_s(hits@),
{
    let mut best = hits[0];
    let mut i: usize = 1;
    proof {
        assert(hits@.take(1) =~= seq![hits@[0]]);
    }
    while i < hits.len()
        invariant
            1 <= i <= hits.len(),
            best == best_hit_s(hits@.take(i as int)),
        decreases hits.len() - i,
    {
        proof {
            assert(hits@.take(i as int + 1).drop_last() =~= hits@.take(i as int));
            assert(hits@.take(i as int + 1).last() == hits@[i as int]);
        }
        let h = hits[i];
        let best_lt = best.distance.raw < h.distance.raw || (best.distance.raw == h.distance.raw
            && best.tick < h.tick);
        if !best_lt {
            best = h;
        }
        i = i + 1;
    }
    proof {
        assert(hits@.take(i as int) =~= hits@);
    }
    best
}

/// Replacing the best at the first index holding the key updates that entry.
proof fn lemma_upsert_best_at(acc: Seq<TNTResult>, res: TNTResult, i: int)
    requires
        0 <= i < acc.len(),
        acc[i].red == res.red && acc[i].blue == res.blue && acc[i].vertical == res.vertical,
        forall|j: int|
            0 <= j < i ==> !((#[trigger] acc[j]).red == res.red && acc[j].blue == res.blue
                && acc[j].vertical == res.vertical),
    ensures
        upsert_best_s(acc, res) =~= (if better_s(res, acc[i]) {
            acc.update(i, res)
        } else {
            acc
        }),
    decreases acc.len(),
{
    if i == 0 {
        if better_s(res, acc[0]) {
            assert(upsert_best_s(acc, res) == seq![res] + acc.skip(1));
        }
    } else {
        assert(forall|j: int|
            0 <= j < i - 1 ==> !((#[trigger] acc.skip(1)[j]).red == res.red
                && acc.skip(1)[j].blue == res.blue && acc.skip(1)[j].vertical == res.vertical));
        lemma_upsert_best_at(acc.skip(1), res, i - 1);
        assert(upsert_best_s(acc, res) == seq![acc[0]] + upsert_best_s(acc.skip(1), res));
    }
}

/// Recording a new candidate triple appends its result.
proof fn lemma_upsert_best_missing(acc: Seq<TNTResult>, res: TNTResult)
    requires
        forall|j: int|
            0 <= j < acc.len() ==> !((#[trigger] acc[j]).red == res.red && acc[j].blue == res.blue
                && acc[j].vertical == res.vertical),
    ensures
        upsert_best_s(acc, res) =~= acc.push(res),
    decreases acc.len(),
{
    if acc.len() == 0 {
    } else {
        assert(forall|j: int|
            0 <= j < acc.skip(1).len() ==> !((#[trigger] acc.skip(1)[j]).red == res.red
                && acc.skip(1)[j].blue == res.blue && acc.skip(1)[j].vertical == res.vertical));
        lemma_upsert_best_missing(acc.skip(1), res);
        assert(upsert_best_s(acc, res) == seq![acc[0]] + upsert_best_s(acc.skip(1), res));
    }
}

/// Keep the best result per candidate triple, as `upsert_best_s` describes.
fn upsert_best(acc: &mut Vec<TNTResult>, res: TNTResult)
    ensures
        final(acc)@ == upsert_best_s(old(acc)@, res),
{
    let mut i: usize = 0;
    while i < acc.len()
        invariant
            0 <= i <= acc.len(),
            acc@ == old(acc)@,
            forall|j: int|
                0 <= j < i ==> !((#[trigger] acc@[j]).red == res.red && acc@[j].blue == res.blue
                    && acc@[j].vertical == res.vertical),
        decreases acc.len() - i,
    {
        let cur = &acc[i];
        if cur.red == res.red && cur.blue == res.blue && cur.vertical == res.vertical {
            let ghost before = acc@;
            let cur_dist = acc[i].distance.raw;
            proof {
                assert((iabs(res.distance.raw - cur_dist) < PRECISION_EPSILON_RAW) <==> (
                res.distance.raw == cur_dist));
            }
            let is_better: bool = if res.distance.raw == cur_dist {
                res.tick < acc[i].tick
            } else {
                res.distance.raw < cur_dist
            };
            if is_better {
                acc.set(i, res);
            }
            proof {
                lemma_upsert_best_at(before, res, i as int);
            }
            return ;
        }
        i = i + 1;
    }
    let ghost before = acc@;
    acc.push(res);
    proof {
        lemma_upsert_best_missing(before, res);
    }
}

/// Inserting before the first strictly more distant entry splits the list
/// around the insertion point.
proof fn lemma_insert_sorted_at(out: Seq<TNTResult>, x: TNTResult, j: int)
    requires
        0 <= j <= out.len(),
        forall|w: int| 0 <= w < j ==> !(x.distance.raw < (#[trigger] out[w]).distance.raw),
        j < out.len() ==> x.distance.raw < out[j].distance.raw,
    ensures
        insert_sorted_s(out, x) =~= out.take(j) + seq![x] + out.skip(j),
    decreases j,
{
    if j == 0 {
        if out.len() > 0 {
            assert(insert_sorted_s(out, x) == seq![x] + out);
        }
    } else {
        assert(forall|w: int|
            0 <= w < j - 1 ==> !(x.distance.raw < (#[trigger] out.skip(1)[w]).distance.raw));
        assert(!(x.distance.raw < out[0].distance.raw));
        lemma_insert_sorted_at(out.skip(1), x, j - 1);
        assert(insert_sorted_s(out, x) == seq![out[0]] + insert_sorted_s(out.skip(1), x));
        assert(out.skip(1).take(j - 1) =~= out.take(j).skip(1));
        assert(out.skip(1).skip(j - 1) =~= out.skip(j));
    }
}

/// Insert a result before the first strictly more distant entry.
fn insert_sorted(out: Vec<TNTResult>, x: TNTResult) -> (r: Vec<TNTResult>)
    ensures
        r@ == insert_sorted_s(out@, x),
{
    let mut res: Vec<TNTResult> = Vec::new();
    let mut j: usize = 0;
    while j < out.len() && !(x.distance.raw < out[j].distance.raw)
        invariant
            0 <= j <= out.len(),
            res@ =~= out@.take(j as int),
            forall|w: int| 0 <= w < j ==> !(x.distance.raw < (#[trigger] out@[w]).distance.raw),
        decreases out.len() - j,
    {
        res.push(out[j]);
        proof {
            assert(res@ =~= out@.take(j as int + 1));
        }
        j = j + 1;
    }
    proof {
        lemma_insert_sorted_at(out@, x, j as int);
    }
    let ghost split = j as int;
    res.push(x);
    let mut w: usize = j;
    while w < out.len()
        invariant
            0 <= split <= w <= out.len(),
            split <= out@.len(),
            res@ =~= out@.take(split) + seq![x] + out@.skip(split).take(w - split),
        decreases out.len() - w,
    {
        res.push(out[w]);
        proof {
            assert(out@.skip(split)[w - split] == out@[w as int]);
            assert(out@.skip(split).take(w - split + 1) =~= out@.skip(split).take(w - split).push(
                out@[w as int]));
            assert(res@ =~= out@.take(split) + seq![x] + out@.skip(split).take(w - split + 1));
        }
        w = w + 1;
    }
    proof {
        assert(out@.skip(split).take(out@.len() - split) =~= out@.skip(split));
    }
    res
}


/// Saturate a whole-unit count into the signed 32-bit range.
fn clamp_i32(x: i64) -> (r: i32)
    ensures
        r as int == clamp_i32_s(x as int),
{
    if x > 2147483647 {
        2147483647
    } else if x < -2147483648 {
        -2147483648
    } else {
        x as i32
    }
}

/// The analytic center of one tick, given the running drag power and fall.
fn compute_center(
    td: Space3D,
    rv: Space3D,
    bv: Space3D,
    vvopt: Option<Space3D>,
    tr: Fx,
    tb: Fx,
    pow_t: Fx,
    fall_t: Fx,
    version: PearlVersion,
    Ghost(t): Ghost<nat>,
) -> (r: Option<(i32, i32, i32)>)
    requires
        td.wf(),
        rv.wf(),
        bv.wf(),
        vvopt matches Some(v) ==> v.wf(),
        tr.wf(),
        tb.wf(),
        pow_t.wf(),
        fall_t.wf(),
        pow_t.raw == pow_s(t),
        fall_t.raw == fall_s(version, t).1,
    ensures
        r == center_at_s(td, rv, bv, vvopt, tr.raw as int, tb.raw as int, version, t),
{
    let one = Fx { raw: FX_SCALE };
    let dc = one.fsub(Fx { raw: PEARL_DRAG_RAW });
    let num = one.fsub(pow_t);
    let divider = match version {
        PearlVersion::Legacy | PearlVersion::Post1205 => num.fdiv(dc),
        PearlVersion::Post1212 => Fx { raw: PEARL_DRAG_RAW }.fmul(num).fdiv(dc),
    };
    if divider.raw == 0 {
        return None;
    }
    match vvopt {
        None => {
            let cr = clamp_i32(tr.fdiv(divider).round_units());
            let cb = clamp_i32(tb.fdiv(divider).round_units());
            Some((cr, cb, 0))
        },
        Some(vv) => {
            let rhs = Space3D {
                x: td.x.fdiv(divider),
                y: td.y.fsub(fall_t).fdiv(divider),
                z: td.z.fdiv(divider),
            };
            let det = rv.dot(bv.cross(vv));
            if det.fabs().raw < PRECISION_EPSILON_RAW {
                return None;
            }
            let cr = clamp_i32(rhs.dot(bv.cross(vv)).fdiv(det).round_units());
            let cb = clamp_i32(rv.dot(rhs.cross(vv)).fdiv(det).round_units());
            let cv = clamp_i32(rv.dot(bv.cross(rhs)).fdiv(det).round_units());
            Some((cr, cb, cv))
        },
    }
}

/// The chosen best hit is one of the hits.
proof fn lemma_best_hit_in(hits: Seq<SimResult>)
    requires
        hits.len() > 0,
    ensures
        hits.contains(best_hit_s(hits)),
    decreases hits.len(),
{
    if hits.len() == 1 {
        assert(hits[0] == best_hit_s(hits));
    } else {
        lemma_best_hit_in(hits.drop_last());
        let b = best_hit_s(hits.drop_last());
        if hit_lt_s(b, hits.last()) {
            let j = choose|j: int|
                0 <= j < hits.drop_last().len() && #[trigger] hits.drop_last()[j] == b;
            assert(hits[j] == b);
        } else {
            assert(hits[hits.len() - 1] == best_hit_s(hits));
        }
    }
}

/// Verify one candidate: simulate its launch, collect the qualifying hits
/// among its eligible ticks, and report its closest approach.
fn evaluate_candidate(
    cannon: &Cannon,
    start: Space3D,
    destination: Space3D,
    rv: Space3D,
    bv: Space3D,
    vvopt: Option<Space3D>,
    maxd2: Fx,
    version: PearlVersion,
    k: (u32, u32, u32),
    ticks: &Vec<u32>,
) -> (r: Option<TNTResult>)
    requires
        cannon.wf(),
        start.wf(),
        destination.wf(),
        rv.wf(),
        bv.wf(),
        vvopt matches Some(v) ==> v.wf(),
        maxd2.wf(),
    ensures
        r == result_of_cand_s(*cannon, start, destination, rv, bv, vvopt, maxd2.raw as int,
            version, k, ticks@),
{
    if ticks.len() == 0 {
        return None;
    }
    let maxt = seq_max(ticks);
    if maxt == 0 {
        return None;
    }
    let valid = build_valid_map(ticks, maxt);
    let m1 = cannon.pearl.motion.vadd(rv.vscale(Fx::from_u32(k.0)));
    let m2 = m1.vadd(bv.vscale(Fx::from_u32(k.1)));
    let motion = match vvopt {
        Some(vv) => m2.vadd(vv.vscale(Fx::from_u32(k.2))),
        None => m2,
    };
    proof {
        assert(motion == cand_motion_s(*cannon, rv, bv, vvopt, k));
    }
    let data = GeneralData {
        pearl_position: cannon.pearl.position,
        pearl_motion: motion,
        tnt_charges: Vec::new(),
    };
    let boxes: Vec<AABBBox> = Vec::new();
    proof {
        assert(data.tnt_charges@ =~= Seq::<TNT>::empty());
        assert(boxes@ =~= Seq::<AABBBox>::empty());
    }
    let hits = simulation::scan_trajectory(&data, destination, maxt, &valid, &boxes,
        cannon.pearl.offset, version, maxd2);
    if hits.len() == 0 {
        return None;
    }
    let best = best_hit(&hits);
    proof {
        simulation::lemma_scan_hits_wf(version, PearlEntity {
            position: cannon.pearl.position,
            motion: motion,
            is_gravity: true,
        }, Seq::<TNT>::empty(), Seq::empty(), destination, cannon.pearl.offset, valid@,
            maxd2.raw as int, 1, maxt as nat);
        let sr = scan_rec_s(version, PearlEntity {
            position: cannon.pearl.position,
            motion: motion,
            is_gravity: true,
        }, Seq::<TNT>::empty(), Seq::empty(), destination, cannon.pearl.offset, valid@,
            maxd2.raw as int, 1, maxt as nat);
        assert(hits@ == sr);
        lemma_best_hit_in(sr);
        let j = choose|j: int| 0 <= j < sr.len() && #[trigger] sr[j] == best;
        assert(sr[j].position.wf() && sr[j].motion.wf() && sr[j].distance.wf());
    }
    let net = best.position.vsub(start);
    let yaw = atan2_deg(net.x.fneg(), net.z);
    let pitch = pitch_of(net.y, net.x, net.z);
    let direction = from_angle(yaw);
    let sum: u64 = k.0 as u64 + k.1 as u64 + k.2 as u64;
    let total: u32 = if sum > 4294967295u64 {
        4294967295u32
    } else {
        sum as u32
    };
    Some(TNTResult {
        distance: best.distance,
        tick: best.tick,
        blue: k.1,
        red: k.0,
        vertical: k.2,
        yaw,
        pitch,
        total,
        pearl_end_pos: best.position,
        pearl_end_motion: best.motion,
        direction,
    })
}

/// Search for the charge counts that carry the entity from the cannon to the
/// destination: quantize the flight direction, back-solve ideal counts per
/// tick, expand each center into its integer neighborhood, re-simulate every
/// candidate, keep the best result per candidate triple, and rank the rest by
/// distance; the list is empty when the destination shares the start's
/// horizontal position, a default corner is missing, or the group vectors are
/// degenerate.
#[verifier::rlimit(100)]
pub fn calculate_tnt_amount(
    cannon: &Cannon,
    destination: Space3D,
    max_tnt: u32,
    max_vertical_tnt: Option<u32>,
    max_ticks: u32,
    max_distance: Fx,
    version: PearlVersion,
) -> (r: Vec<TNTResult>)
    requires
        cannon.wf(),
        destination.wf(),
        max_distance.wf(),
    ensures
        r@ == tnt_amount_results_s(*cannon, destination, max_tnt, max_vertical_tnt, max_ticks,
            max_distance, version),
{
    let pearl_start_pos = cannon.pearl.position.vadd(cannon.pearl.offset);
    let true_distance = destination.vsub(pearl_start_pos);
    if true_distance.x.raw == 0 && true_distance.z.raw == 0 {
        let out: Vec<TNTResult> = Vec::new();
        proof {
            assert(out@ =~= tnt_amount_results_s(*cannon, destination, max_tnt, max_vertical_tnt,
                max_ticks, max_distance, version));
        }
        return out;
    }
    let yaw = angle_to_yaw(pearl_start_pos, destination);
    let flight_direction = from_angle(yaw);
    let vecs = match calculate_tnt_vectors(cannon, flight_direction) {
        Some(v) => v,
        None => {
            let out: Vec<TNTResult> = Vec::new();
            proof {
                assert(out@ =~= tnt_amount_results_s(*cannon, destination, max_tnt,
                    max_vertical_tnt, max_ticks, max_distance, version));
            }
            return out;
        },
    };
    let (red_tnt_vec, blue_tnt_vec) = vecs;
    let vert_vec: Option<Space3D> = match cannon.vertical_tnt {
        Some(vp) => Some(simulation::calculate_tnt_motion(
            Space3D { x: cannon.pearl.offset.x, y: cannon.pearl.position.y, z: cannon.pearl.offset.z },
            vp,
        )),
        None => None,
    };
    proof {
        assert(vert_vec == vertical_vec_s(*cannon));
    }
    let denominator = red_tnt_vec.z.fmul(blue_tnt_vec.x).fsub(blue_tnt_vec.z.fmul(red_tnt_vec.x));
    if vert_vec.is_none() && (denominator.fabs().raw < PRECISION_EPSILON_RAW
        || blue_tnt_vec.x.raw == 0) {
        let out: Vec<TNTResult> = Vec::new();
        proof {
            assert(out@ =~= tnt_amount_results_s(*cannon, destination, max_tnt, max_vertical_tnt,
                max_ticks, max_distance, version));
        }
        return out;
    }
    let ghost tr_g: int = fx_div_s(fx_sub_s(fx_mul_s(true_distance.z.raw as int,
        blue_tnt_vec.x.raw as int), fx_mul_s(true_distance.x.raw as int,
        blue_tnt_vec.z.raw as int)), denominator.raw as int);
    let ghost tb_g: int = fx_div_s(fx_sub_s(true_distance.x.raw as int, fx_mul_s(tr_g,
        red_tnt_vec.x.raw as int)), blue_tnt_vec.x.raw as int);
    let (true_red, true_blue): (Fx, Fx) = if vert_vec.is_none() {
        let tr = true_distance.z.fmul(blue_tnt_vec.x).fsub(true_distance.x.fmul(
            blue_tnt_vec.z)).fdiv(denominator);
        let tb = true_distance.x.fsub(tr.fmul(red_tnt_vec.x)).fdiv(blue_tnt_vec.x);
        proof {
            assert(tr.raw as int == tr_g);
            assert(tb.raw as int == tb_g);
        }
        (tr, tb)
    } else {
        (Fx { raw: 0 }, Fx { raw: 0 })
    };
    let mut groups_vec: Vec<((i32, i32, i32), Vec<u32>)> = Vec::new();
    let mut pow = Fx { raw: FX_SCALE };
    let mut vel = Fx { raw: 0 };
    let mut fall = Fx { raw: 0 };
    let mut t: u64 = 1;
    proof {
        assert(groups_view(groups_vec@) =~= Seq::<((i32, i32, i32), Seq<u32>)>::empty());
    }
    while t <= max_ticks as u64
        invariant
            1 <= t <= max_ticks as nat + 1,
            true_distance.wf(),
            red_tnt_vec.wf(),
            blue_tnt_vec.wf(),
            vert_vec matches Some(v) ==> v.wf(),
            vert_vec is Some <==> vertical_vec_s(*cannon) is Some,
            true_red.wf(),
            true_blue.wf(),
            pow.wf(),
            vel.wf(),
            fall.wf(),
            vert_vec is None ==> (true_red.raw as int == tr_g && true_blue.raw as int == tb_g),
            pow.raw == pow_s((t - 1) as nat),
            vel.raw == fall_s(version, (t - 1) as nat).0,
            fall.raw == fall_s(version, (t - 1) as nat).1,
            groups_view(groups_vec@) == groups_upto_s(true_distance, red_tnt_vec, blue_tnt_vec,
                vert_vec, tr_g, tb_g, version, (t - 1) as nat),
        decreases max_ticks - t + 1,
    {
        pow = pow.fmul(Fx { raw: PEARL_DRAG_RAW });
        let (new_vel, new_fall): (Fx, Fx) = match version {
            PearlVersion::Legacy => {
                let nf = fall.fadd(vel);
                let nv = crate::fx::Fx::fquant(vel.fquant(crate::constants::LEGACY_REDUCE_STEP)
                    .fmul(Fx { raw: PEARL_DRAG_RAW }).fquant(crate::constants::LEGACY_REDUCE_STEP)
                    .fsub(Fx { raw: PEARL_GRAVITY_RAW }), crate::constants::LEGACY_REDUCE_STEP);
                (nv, nf)
            },
            PearlVersion::Post1205 => {
                let nf = fall.fadd(vel);
                let nv = vel.fmul(Fx { raw: PEARL_DRAG_RAW }).fsub(Fx { raw: PEARL_GRAVITY_RAW });
                (nv, nf)
            },
            PearlVersion::Post1212 => {
                let nv = vel.fsub(Fx { raw: PEARL_GRAVITY_RAW }).fmul(Fx { raw: PEARL_DRAG_RAW });
                let nf = fall.fadd(nv);
                (nv, nf)
            },
        };
        vel = new_vel;
        fall = new_fall;
        proof {
            assert(pow.raw == pow_s(t as nat));
            assert(vel.raw == fall_s(version, t as nat).0);
            assert(fall.raw == fall_s(version, t as nat).1);
        }
        let center = compute_center(true_distance, red_tnt_vec, blue_tnt_vec, vert_vec, true_red,
            true_blue, pow, fall, version, Ghost(t as nat));
        proof {
            if vert_vec is None {
                assert(center == center_at_s(true_distance, red_tnt_vec, blue_tnt_vec, vert_vec,
                    tr_g, tb_g, version, t as nat));
            }
        }
        if let Some(k) = center {
            bucket_push(&mut groups_vec, k, t as u32);
        }
        t = t + 1;
    }
    let params = SearchParams {
        max_tnt,
        max_vertical_tnt,
        search_radius: SEARCH_RADIUS,
        has_vertical: vert_vec.is_some(),
        cannon_mode: cannon.mode,
    };
    let ghost groups_g = groups_view(groups_vec@);
    let candidates = generate_candidates(groups_vec, &params);
    let ghost cands_g = cands_view(candidates@);
    let max_distance_sq = max_distance.fmul(max_distance);
    let mut raw_results: Vec<TNTResult> = Vec::new();
    let mut ci: usize = 0;
    while ci < candidates.len()
        invariant
            0 <= ci <= candidates.len(),
            cannon.wf(),
            pearl_start_pos.wf(),
            destination.wf(),
            red_tnt_vec.wf(),
            blue_tnt_vec.wf(),
            vert_vec matches Some(v) ==> v.wf(),
            max_distance_sq.wf(),
            cands_g == cands_view(candidates@),
            raw_results@ == raw_upto_s(*cannon, pearl_start_pos, destination, red_tnt_vec,
                blue_tnt_vec, vert_vec, max_distance_sq.raw as int, version, cands_g, ci as nat),
        decreases candidates.len() - ci,
    {
        let k = candidates[ci].0;
        let res = evaluate_candidate(cannon, pearl_start_pos, destination, red_tnt_vec,
            blue_tnt_vec, vert_vec, max_distance_sq, version, k, &candidates[ci].1);
        if let Some(rr) = res {
            raw_results.push(rr);
        }
        ci = ci + 1;
    }
    let mut best_map: Vec<TNTResult> = Vec::new();
    let mut ri: usize = 0;
    while ri < raw_results.len()
        invariant
            0 <= ri <= raw_results.len(),
            best_map@ == dedup_upto_s(raw_results@, ri as nat),
        decreases raw_results.len() - ri,
    {
        upsert_best(&mut best_map, raw_results[ri]);
        ri = ri + 1;
    }
    let mut out: Vec<TNTResult> = Vec::new();
    let mut si: usize = 0;
    while si < best_map.len()
        invariant
            0 <= si <= best_map.len(),
            out@ == sorted_upto_s(best_map@, si as nat),
        decreases best_map.len() - si,
    {
        out = insert_sorted(out, best_map[si]);
        si = si + 1;
    }
    proof {
        assert(groups_g == groups_upto_s(true_distance, red_tnt_vec, blue_tnt_vec, vert_vec, tr_g,
            tb_g, version, max_ticks as nat));
        assert(out@ == tnt_amount_results_s(*cannon, destination, max_tnt, max_vertical_tnt,
            max_ticks, max_distance, version));
    }
    out
}


/// The closest point of a trace to a 2D destination, scanned front to back:
/// index, point and distance of the first minimum.
pub open spec fn closest_upto_s(trace: Seq<Space3D>, dest: Space3D, i: nat) -> (nat, Space3D, int)
    decreases i,
{
    if i <= 1 {
        (0, trace[0], fx_sqrt_s(crate::space::distance_2d_sq_s(trace[0], dest)))
    } else {
        let p = closest_upto_s(trace, dest, (i - 1) as nat);
        let d = fx_sqrt_s(crate::space::distance_2d_sq_s(trace[i - 1], dest));
        if d < p.2 {
            ((i - 1) as nat, trace[i - 1], d)
        } else {
            p
        }
    }
}

/// The point of a recorded trace that comes closest in 2D to a destination:
/// its index, the point itself and its distance; the first such point when
/// several are equally close. Nothing for an empty trace.
pub fn closest_approach(trace: &Vec<Space3D>, dest_x: Fx, dest_z: Fx) -> (r: Option<
    (u32, Space3D, Fx)>)
    requires
        forall|i: int| 0 <= i < trace@.len() ==> (#[trigger] trace@[i]).wf(),
        dest_x.wf(),
        dest_z.wf(),
        trace@.len() <= 4294967295,
    ensures
        ({
            let dest = Space3D { x: dest_x, y: Fx { raw: 0 }, z: dest_z };
            if trace@.len() == 0 {
                r is None
            } else {
                let c = closest_upto_s(trace@, dest, trace@.len());
                r matches Some(v) && v.0 == c.0 && v.1 == c.1 && v.2.raw == c.2
            }
        }),
{
    if trace.len() == 0 {
        return None;
    }
    let dest = Space3D { x: dest_x, y: Fx { raw: 0 }, z: dest_z };
    let mut best_idx: usize = 0;
    let mut best_point = trace[0];
    let mut best_dist = trace[0].distance_2d(dest);
    let mut i: usize = 1;
    while i < trace.len()
        invariant
            1 <= i <= trace@.len(),
            trace@.len() <= 4294967295,
            forall|j: int| 0 <= j < trace@.len() ==> (#[trigger] trace@[j]).wf(),
            dest.wf(),
            0 <= best_idx < i,
            (best_idx as nat, best_point, best_dist.raw as int) == closest_upto_s(trace@, dest,
                i as nat),
            best_dist.wf(),
        decreases trace@.len() - i,
    {
        let d = trace[i].distance_2d(dest);
        if d.raw < best_dist.raw {
            best_idx = i;
            best_point = trace[i];
            best_dist = d;
        }
        i = i + 1;
    }
    Some((best_idx as u32, best_point, best_dist))
}

} // verus!
