use vstd::prelude::*;
use crate::aabb::{AABBBox, Axis, clamp_axis_s};
use crate::calculation::{best_hit_s, hit_lt_s};
use crate::constants::{
    PRECISION_EPSILON_RAW, TNT_ENTITY_Y_OFFSET_RAW, TNT_EXPLOSION_RADIUS_RAW,
};
use crate::fx::{FX_SCALE, fx_add_s, fx_div_s, fx_mul_s, fx_quant_s, fx_sqrt_s, fx_sub_s, iabs};
use crate::inputs::TNT;
use crate::movement::{PearlEntity, PearlVersion, tick_spec};
use crate::results::CalculationResult;
use crate::simulation::{SimResult, state_s, tnt_motion_s, trace_matches_s};
use crate::space::{Space3D, length_sq_s, v3, vsub_s};

verus! {

/// The linear falloff factor of an impulse at a given distance from the
/// charge: one at zero distance, zero at the explosion radius.
pub open spec fn impulse_falloff_s(dist: int) -> int {
    fx_sub_s(FX_SCALE as int, fx_div_s(dist, TNT_EXPLOSION_RADIUS_RAW as int))
}

/// An impulse is the zero vector whenever the entity stands at or beyond the
/// explosion radius from the adjusted charge position.
pub proof fn lemma_impulse_zero_beyond_radius(pearl_pos: Space3D, tnt_pos: Space3D)
    requires
        ({
            let adj = v3(
                tnt_pos.x.raw as int,
                fx_add_s(tnt_pos.y.raw as int, TNT_ENTITY_Y_OFFSET_RAW as int),
                tnt_pos.z.raw as int,
            );
            fx_sqrt_s(length_sq_s(vsub_s(pearl_pos, adj))) >= TNT_EXPLOSION_RADIUS_RAW
        }),
    ensures
        tnt_motion_s(pearl_pos, tnt_pos) == v3(0, 0, 0),
{
    reveal(tnt_motion_s);
}

/// An impulse whose direction degenerates to the near-zero length is the zero
/// vector rather than an undefined value: the model never divides there.
pub proof fn lemma_impulse_degenerate_zero(pearl_pos: Space3D, tnt_pos: Space3D)
    requires
        ({
            let adj_y = fx_add_s(tnt_pos.y.raw as int, TNT_ENTITY_Y_OFFSET_RAW as int);
            let adj = v3(tnt_pos.x.raw as int, adj_y, tnt_pos.z.raw as int);
            let dvec = vsub_s(pearl_pos, adj);
            let vy = fx_sub_s(
                fx_add_s(
                    pearl_pos.y.raw as int,
                    fx_mul_s(crate::constants::PEARL_EXPLOSION_Y_FACTOR_RAW as int,
                        crate::constants::PEARL_HEIGHT_RAW as int),
                ),
                adj_y,
            );
            fx_sqrt_s(length_sq_s(v3(dvec.x.raw as int, vy, dvec.z.raw as int)))
                < PRECISION_EPSILON_RAW
        }),
    ensures
        tnt_motion_s(pearl_pos, tnt_pos) == v3(0, 0, 0),
{
    reveal(tnt_motion_s);
}

/// The falloff factor never increases as the distance to the charge grows,
/// and it is exactly zero at the explosion radius. (On this grid the factor
/// is weakly, not strictly, decreasing: truncation can map two neighboring
/// distances to the same factor.)
pub proof fn lemma_impulse_falloff_monotone(d1: int, d2: int)
    requires
        0 <= d1 <= d2,
    ensures
        impulse_falloff_s(d2) <= impulse_falloff_s(d1),
        impulse_falloff_s(TNT_EXPLOSION_RADIUS_RAW as int) == 0,
{
    let s = FX_SCALE as int;
    let rr = TNT_EXPLOSION_RADIUS_RAW as int;
    assert(d1 * s <= d2 * s) by (nonlinear_arith)
        requires
            0 <= d1 <= d2,
            s > 0,
    ;
    vstd::arithmetic::div_mod::lemma_div_is_ordered(d1 * s, d2 * s, rr);
    vstd::arithmetic::div_mod::lemma_div_pos_is_pos(d1 * s, rr);
    assert(rr * s == s * rr) by (nonlinear_arith);
    vstd::arithmetic::div_mod::lemma_div_multiples_vanish(s, rr);
}

/// In the live case, an impulse is exactly the normalized direction vector
/// scaled by the falloff factor of the distance to the adjusted charge, so
/// the falloff bounds above speak about the impulse itself.
pub proof fn lemma_impulse_is_scaled_falloff(pearl_pos: Space3D, tnt_pos: Space3D)
    requires
        ({
            let adj = v3(
                tnt_pos.x.raw as int,
                fx_add_s(tnt_pos.y.raw as int, TNT_ENTITY_Y_OFFSET_RAW as int),
                tnt_pos.z.raw as int,
            );
            fx_sqrt_s(length_sq_s(vsub_s(pearl_pos, adj))) < TNT_EXPLOSION_RADIUS_RAW
        }),
    ensures
        ({
            let adj_y = fx_add_s(tnt_pos.y.raw as int, TNT_ENTITY_Y_OFFSET_RAW as int);
            let adj = v3(tnt_pos.x.raw as int, adj_y, tnt_pos.z.raw as int);
            let dvec = vsub_s(pearl_pos, adj);
            let dist = fx_sqrt_s(length_sq_s(dvec));
            let vy = fx_sub_s(
                fx_add_s(
                    pearl_pos.y.raw as int,
                    fx_mul_s(crate::constants::PEARL_EXPLOSION_Y_FACTOR_RAW as int,
                        crate::constants::PEARL_HEIGHT_RAW as int),
                ),
                adj_y,
            );
            let expl = v3(dvec.x.raw as int, vy, dvec.z.raw as int);
            let el = fx_sqrt_s(length_sq_s(expl));
            el >= PRECISION_EPSILON_RAW ==> tnt_motion_s(pearl_pos, tnt_pos) == v3(
                fx_mul_s(fx_div_s(expl.x.raw as int, el), impulse_falloff_s(dist)),
                fx_mul_s(fx_div_s(expl.y.raw as int, el), impulse_falloff_s(dist)),
                fx_mul_s(fx_div_s(expl.z.raw as int, el), impulse_falloff_s(dist)),
            )
        }),
{
    reveal(tnt_motion_s);
}

/// With gravity disabled, zero motion and no charges, the entity never moves:
/// its whole state is unchanged after any number of ticks, under every
/// movement rule-set and any obstacle list.
pub proof fn lemma_rest_entity_stationary(
    version: PearlVersion,
    e: PearlEntity,
    boxes: Seq<AABBBox>,
    n: nat,
)
    requires
        e.wf(),
        !e.is_gravity,
        e.motion == v3(0, 0, 0),
    ensures
        state_s(version, e, Seq::<TNT>::empty(), boxes, n) == e,
    decreases n,
{
    if n == 0 {
    } else {
        lemma_rest_entity_stationary(version, e, boxes, (n - 1) as nat);
        assert(crate::simulation::boost_s(e.position, e.motion, Seq::<TNT>::empty(), n - 1)
            == e.motion);
        lemma_rest_tick(version, e, boxes);
    }
}

/// One tick of any rule-set leaves a gravity-free, motionless entity alone.
proof fn lemma_rest_tick(version: PearlVersion, e: PearlEntity, boxes: Seq<AABBBox>)
    requires
        e.wf(),
        !e.is_gravity,
        e.motion == v3(0, 0, 0),
    ensures
        tick_spec(version, e, boxes) == e,
{
    reveal(tick_spec);
    lemma_move_zero(e.position, boxes);
    vstd::arithmetic::div_mod::lemma_div_of0(FX_SCALE as int);
    vstd::arithmetic::div_mod::lemma_div_of0(crate::constants::LEGACY_REDUCE_STEP as int);
    assert(iabs(0) * iabs(crate::constants::PEARL_DRAG_RAW as int) == 0) by (nonlinear_arith);
    assert(fx_mul_s(0, crate::constants::PEARL_DRAG_RAW as int) == 0);
    assert(fx_quant_s(0, crate::constants::LEGACY_REDUCE_STEP as int) == 0);
}

/// Clamping a zero displacement against any boxes moves nothing.
proof fn lemma_move_zero(pos: Space3D, boxes: Seq<AABBBox>)
    requires
        pos.wf(),
    ensures
        crate::movement::move_entity_s(pos, v3(0, 0, 0), boxes) == pos,
{
    lemma_clamp_zero_any(pos, Axis::Y, boxes);
    lemma_clamp_zero_any(pos, Axis::X, boxes);
    lemma_clamp_zero_any(pos, Axis::Z, boxes);
}

/// A zero displacement stays zero under clamping, for any box list.
proof fn lemma_clamp_zero_any(pos: Space3D, ax: Axis, boxes: Seq<AABBBox>)
    requires
        pos.wf(),
    ensures
        clamp_axis_s(pos, 0, ax, boxes) == 0,
    decreases boxes.len(),
{
    if boxes.len() == 0 {
    } else {
        lemma_clamp_zero_any(pos, ax, boxes.skip(1));
    }
}

/// Tracing is a pure function of its inputs: two results that both satisfy
/// the trace contract for the same inputs agree in every field, so running
/// the same trace twice yields identical output.
pub proof fn lemma_trace_idempotent(
    r1: CalculationResult,
    r2: CalculationResult,
    version: PearlVersion,
    init: PearlEntity,
    charges: Seq<TNT>,
    boxes: Seq<AABBBox>,
    max_ticks: u32,
    destination: Option<Space3D>,
    offset: Option<Space3D>,
)
    requires
        trace_matches_s(r1, version, init, charges, boxes, max_ticks, destination, offset),
        trace_matches_s(r2, version, init, charges, boxes, max_ticks, destination, offset),
    ensures
        r1.landing_position == r2.landing_position,
        r1.pearl_trace@ == r2.pearl_trace@,
        r1.pearl_motion_trace@ == r2.pearl_motion_trace@,
        r1.is_successful == r2.is_successful,
        r1.tick == r2.tick,
        r1.final_motion == r2.final_motion,
        r1.distance == r2.distance,
{
}

/// The final result list never places a farther candidate before a closer
/// one.
pub open spec fn sorted_by_distance_s(s: Seq<crate::results::TNTResult>) -> bool {
    forall|i: int, j: int|
        0 <= i <= j < s.len() ==> (#[trigger] s[i]).distance.raw <= (#[trigger] s[j]).distance.raw
}

/// Inserting before the first strictly more distant entry keeps a list
/// sorted by distance.
proof fn lemma_insert_sorted_keeps_order(out: Seq<crate::results::TNTResult>,
    x: crate::results::TNTResult)
    requires
        sorted_by_distance_s(out),
    ensures
        sorted_by_distance_s(crate::calculation::insert_sorted_s(out, x)),
    decreases out.len(),
{
    let r = crate::calculation::insert_sorted_s(out, x);
    if out.len() == 0 {
    } else if x.distance.raw < out[0].distance.raw {
        assert(r == seq![x] + out);
    } else {
        assert(sorted_by_distance_s(out.skip(1))) by {
            assert(forall|i: int, j: int|
                0 <= i <= j < out.skip(1).len() ==> (#[trigger] out.skip(1)[i]).distance.raw
                    <= (#[trigger] out.skip(1)[j]).distance.raw);
        }
        lemma_insert_sorted_keeps_order(out.skip(1), x);
        assert(r == seq![out[0]] + crate::calculation::insert_sorted_s(out.skip(1), x));
        lemma_insert_head_bound(out.skip(1), x, out[0].distance.raw as int);
        assert forall|i: int, j: int| 0 <= i <= j < r.len() implies (#[trigger] r[i]).distance.raw
            <= (#[trigger] r[j]).distance.raw by {
            if i > 0 {
                assert(r[i] == crate::calculation::insert_sorted_s(out.skip(1), x)[i - 1]);
            }
            if j > 0 {
                assert(r[j] == crate::calculation::insert_sorted_s(out.skip(1), x)[j - 1]);
            }
        }
    }
}

/// Every entry of an insertion stays at or above a lower bound that held for
/// the list and the inserted element.
proof fn lemma_insert_head_bound(out: Seq<crate::results::TNTResult>,
    x: crate::results::TNTResult, bound: int)
    requires
        bound <= x.distance.raw,
        forall|i: int| 0 <= i < out.len() ==> bound <= (#[trigger] out[i]).distance.raw,
    ensures
        forall|i: int|
            0 <= i < crate::calculation::insert_sorted_s(out, x).len() ==> bound <= (
            #[trigger] crate::calculation::insert_sorted_s(out, x)[i]).distance.raw,
    decreases out.len(),
{
    if out.len() == 0 {
    } else if x.distance.raw < out[0].distance.raw {
    } else {
        assert(forall|i: int|
            0 <= i < out.skip(1).len() ==> bound <= (#[trigger] out.skip(1)[i]).distance.raw);
        lemma_insert_head_bound(out.skip(1), x, bound);
        assert(crate::calculation::insert_sorted_s(out, x) == seq![out[0]]
            + crate::calculation::insert_sorted_s(out.skip(1), x));
    }
}

/// Folding results through sorted insertion yields a list sorted ascending
/// by distance; every list the solver returns has this shape.
pub proof fn lemma_sorted_upto_sorted(s: Seq<crate::results::TNTResult>, i: nat)
    ensures
        sorted_by_distance_s(crate::calculation::sorted_upto_s(s, i)),
    decreases i,
{
    if i == 0 {
    } else {
        lemma_sorted_upto_sorted(s, (i - 1) as nat);
        lemma_insert_sorted_keeps_order(crate::calculation::sorted_upto_s(s, (i - 1) as nat),
            s[i - 1]);
    }
}

/// The ranked result list of the charge-count search is sorted ascending by
/// distance, whatever the inputs.
pub proof fn lemma_solver_results_sorted(
    cannon: crate::inputs::Cannon,
    destination: Space3D,
    max_tnt: u32,
    max_vertical_tnt: Option<u32>,
    max_ticks: u32,
    max_distance: crate::fx::Fx,
    version: PearlVersion,
)
    ensures
        sorted_by_distance_s(crate::calculation::tnt_amount_results_s(cannon, destination,
            max_tnt, max_vertical_tnt, max_ticks, max_distance, version)),
{
    let r = crate::calculation::tnt_amount_results_s(cannon, destination, max_tnt,
        max_vertical_tnt, max_ticks, max_distance, version);
    if r.len() == 0 {
    } else {
        let start = crate::space::vadd_s(cannon.pearl.position, cannon.pearl.offset);
        let td = vsub_s(destination, start);
        let dir = crate::angles::from_angle_s(crate::angles::angle_to_yaw_s(start, destination));
        match crate::calculation::calc_tnt_vectors_s(cannon, dir) {
            None => {
            },
            Some(vecs) => {
                let rv = vecs.0;
                let bv = vecs.1;
                let vvopt = crate::calculation::vertical_vec_s(cannon);
                let tr = ({
                    let den = fx_sub_s(fx_mul_s(rv.z.raw as int, bv.x.raw as int),
                        fx_mul_s(bv.z.raw as int, rv.x.raw as int));
                    fx_div_s(fx_sub_s(fx_mul_s(td.z.raw as int, bv.x.raw as int),
                        fx_mul_s(td.x.raw as int, bv.z.raw as int)), den)
                });
                let tb = fx_div_s(fx_sub_s(td.x.raw as int, fx_mul_s(tr, rv.x.raw as int)),
                    bv.x.raw as int);
                let groups = crate::calculation::groups_upto_s(td, rv, bv, vvopt, tr, tb, version,
                    max_ticks as nat);
                let params = crate::optimizer::SearchParams {
                    max_tnt,
                    max_vertical_tnt,
                    search_radius: crate::constants::SEARCH_RADIUS,
                    has_vertical: vvopt is Some,
                    cannon_mode: cannon.mode,
                };
                let cands = crate::optimizer::gen_cands_s(groups, params, 0, Seq::empty());
                let maxd2 = fx_mul_s(max_distance.raw as int, max_distance.raw as int);
                let raw = crate::calculation::raw_upto_s(cannon, start, destination, rv, bv,
                    vvopt, maxd2, version, cands, cands.len());
                let deduped = crate::calculation::dedup_upto_s(raw, raw.len());
                lemma_sorted_upto_sorted(deduped, deduped.len());
            },
        }
    }
}

/// No two entries share a candidate triple.
pub open spec fn unique_keys_s(s: Seq<crate::results::TNTResult>) -> bool {
    forall|i: int, j: int|
        0 <= i < j < s.len() ==> !((#[trigger] s[i]).red == (#[trigger] s[j]).red && s[i].blue
            == s[j].blue && s[i].vertical == s[j].vertical)
}

/// Keeping the best result per triple preserves key uniqueness.
proof fn lemma_upsert_best_unique(acc: Seq<crate::results::TNTResult>,
    res: crate::results::TNTResult)
    requires
        unique_keys_s(acc),
    ensures
        unique_keys_s(crate::calculation::upsert_best_s(acc, res)),
        forall|i: int|
            0 <= i < crate::calculation::upsert_best_s(acc, res).len() ==> {
                let e = #[trigger] crate::calculation::upsert_best_s(acc, res)[i];
                (e.red == res.red && e.blue == res.blue && e.vertical == res.vertical) || exists|
                    j: int|
                    0 <= j < acc.len() && (#[trigger] acc[j]).red == e.red && acc[j].blue == e.blue
                        && acc[j].vertical == e.vertical
            },
    decreases acc.len(),
{
    let r = crate::calculation::upsert_best_s(acc, res);
    if acc.len() == 0 {
    } else if acc[0].red == res.red && acc[0].blue == res.blue && acc[0].vertical
        == res.vertical {
        assert forall|i: int| 0 <= i < r.len() implies {
            let e = #[trigger] r[i];
            (e.red == res.red && e.blue == res.blue && e.vertical == res.vertical) || exists|
                j: int|
                0 <= j < acc.len() && (#[trigger] acc[j]).red == e.red && acc[j].blue == e.blue
                    && acc[j].vertical == e.vertical
        } by {
            if !crate::calculation::better_s(res, acc[0]) || i > 0 {
                assert(0 <= i < acc.len() && acc[i].red == r[i].red && acc[i].blue == r[i].blue
                    && acc[i].vertical == r[i].vertical);
            }
        }
    } else {
        assert(unique_keys_s(acc.skip(1))) by {
            assert(forall|i: int, j: int|
                0 <= i < j < acc.skip(1).len() ==> !((#[trigger] acc.skip(1)[i]).red == (
                #[trigger] acc.skip(1)[j]).red && acc.skip(1)[i].blue == acc.skip(1)[j].blue
                    && acc.skip(1)[i].vertical == acc.skip(1)[j].vertical));
        }
        lemma_upsert_best_unique(acc.skip(1), res);
        let rest = crate::calculation::upsert_best_s(acc.skip(1), res);
        assert(r == seq![acc[0]] + rest);
        assert forall|i: int, j: int| 0 <= i < j < r.len() implies !((#[trigger] r[i]).red == (
        #[trigger] r[j]).red && r[i].blue == r[j].blue && r[i].vertical == r[j].vertical) by {
            if i == 0 {
                assert(r[j] == rest[j - 1]);
                let e = rest[j - 1];
                if e.red == res.red && e.blue == res.blue && e.vertical == res.vertical {
                } else {
                    let w = choose|w: int|
                        0 <= w < acc.skip(1).len() && (#[trigger] acc.skip(1)[w]).red == e.red
                            && acc.skip(1)[w].blue == e.blue && acc.skip(1)[w].vertical
                            == e.vertical;
                    assert(acc[w + 1] == acc.skip(1)[w]);
                }
            } else {
                assert(r[i] == rest[i - 1] && r[j] == rest[j - 1]);
            }
        }
        assert forall|i: int| 0 <= i < r.len() implies {
            let e = #[trigger] r[i];
            (e.red == res.red && e.blue == res.blue && e.vertical == res.vertical) || exists|
                j: int|
                0 <= j < acc.len() && (#[trigger] acc[j]).red == e.red && acc[j].blue == e.blue
                    && acc[j].vertical == e.vertical
        } by {
            if i == 0 {
                assert(acc[0].red == r[0].red && acc[0].blue == r[0].blue && acc[0].vertical
                    == r[0].vertical);
            } else {
                let e = rest[i - 1];
                if e.red == res.red && e.blue == res.blue && e.vertical == res.vertical {
                } else {
                    let w = choose|w: int|
                        0 <= w < acc.skip(1).len() && (#[trigger] acc.skip(1)[w]).red == e.red
                            && acc.skip(1)[w].blue == e.blue && acc.skip(1)[w].vertical
                            == e.vertical;
                    assert(acc[w + 1] == acc.skip(1)[w]);
                }
            }
        }
    }
}

/// After the global dedup, the result set holds each candidate triple at
/// most once.
pub proof fn lemma_dedup_unique_keys(raw: Seq<crate::results::TNTResult>, i: nat)
    ensures
        unique_keys_s(crate::calculation::dedup_upto_s(raw, i)),
    decreases i,
{
    if i == 0 {
    } else {
        lemma_dedup_unique_keys(raw, (i - 1) as nat);
        lemma_upsert_best_unique(crate::calculation::dedup_upto_s(raw, (i - 1) as nat),
            raw[i - 1]);
    }
}

/// Two results stand for the same candidate triple.
pub open spec fn same_key_s(a: crate::results::TNTResult, b: crate::results::TNTResult) -> bool {
    a.red == b.red && a.blue == b.blue && a.vertical == b.vertical
}

/// `better_s` orders results strictly: staying at or below one result and
/// improving on it compose.
proof fn lemma_better_compose(a: crate::results::TNTResult, b: crate::results::TNTResult,
    c: crate::results::TNTResult)
    requires
        !crate::calculation::better_s(a, b),
        c == b || crate::calculation::better_s(c, b),
    ensures
        !crate::calculation::better_s(a, c),
{
}

/// Every candidate whose verification succeeded leaves its result in the raw
/// result list.
proof fn lemma_raw_upto_contains(
    cannon: crate::inputs::Cannon,
    start: Space3D,
    destination: Space3D,
    rv: Space3D,
    bv: Space3D,
    vvopt: Option<Space3D>,
    maxd2: int,
    version: PearlVersion,
    cands: crate::optimizer::CandSeq,
    i: int,
    n: nat,
)
    requires
        0 <= i < n <= cands.len(),
        crate::calculation::result_of_cand_s(cannon, start, destination, rv, bv, vvopt, maxd2,
            version, cands[i].0, cands[i].1) is Some,
    ensures
        crate::calculation::raw_upto_s(cannon, start, destination, rv, bv, vvopt, maxd2, version,
            cands, n).contains(crate::calculation::result_of_cand_s(cannon, start, destination,
            rv, bv, vvopt, maxd2, version, cands[i].0, cands[i].1)->0),
    decreases n,
{
    let res = crate::calculation::result_of_cand_s(cannon, start, destination, rv, bv, vvopt,
        maxd2, version, cands[i].0, cands[i].1)->0;
    let cur = crate::calculation::raw_upto_s(cannon, start, destination, rv, bv, vvopt, maxd2,
        version, cands, n);
    let prev = crate::calculation::raw_upto_s(cannon, start, destination, rv, bv, vvopt, maxd2,
        version, cands, (n - 1) as nat);
    if i == n - 1 {
        assert(cur == prev.push(res));
        assert(cur[cur.len() - 1] == res);
    } else {
        lemma_raw_upto_contains(cannon, start, destination, rv, bv, vvopt, maxd2, version, cands,
            i, (n - 1) as nat);
        let j = choose|j: int| 0 <= j < prev.len() && #[trigger] prev[j] == res;
        assert(cur[j] == res);
    }
}

/// Merging a result keeps, for every candidate already covered, an entry
/// with the same key that is at least as good; the merged result itself is
/// covered too.
proof fn lemma_upsert_best_covers(acc: Seq<crate::results::TNTResult>,
    res: crate::results::TNTResult)
    ensures
        forall|m: int|
            0 <= m < acc.len() ==> exists|w: int|
                0 <= w < crate::calculation::upsert_best_s(acc, res).len() && same_key_s(
                    #[trigger] acc[m],
                    #[trigger] crate::calculation::upsert_best_s(acc, res)[w],
                ) && (crate::calculation::upsert_best_s(acc, res)[w] == acc[m]
                    || crate::calculation::better_s(crate::calculation::upsert_best_s(acc, res)[w],
                    acc[m])),
        exists|w: int|
            0 <= w < crate::calculation::upsert_best_s(acc, res).len() && same_key_s(res,
                #[trigger] crate::calculation::upsert_best_s(acc, res)[w])
                && !crate::calculation::better_s(res, crate::calculation::upsert_best_s(acc,
                res)[w]),
    decreases acc.len(),
{
    let r = crate::calculation::upsert_best_s(acc, res);
    if acc.len() == 0 {
        assert(same_key_s(res, r[0]) && !crate::calculation::better_s(res, r[0]));
    } else if acc[0].red == res.red && acc[0].blue == res.blue && acc[0].vertical
        == res.vertical {
        if crate::calculation::better_s(res, acc[0]) {
            assert(r == seq![res] + acc.skip(1));
            assert forall|m: int| 0 <= m < acc.len() implies exists|w: int|
                0 <= w < r.len() && same_key_s(#[trigger] acc[m], #[trigger] r[w]) && (r[w]
                    == acc[m] || crate::calculation::better_s(r[w], acc[m])) by {
                if m == 0 {
                    assert(same_key_s(acc[0], r[0]) && crate::calculation::better_s(r[0], acc[0]));
                } else {
                    assert(r[m] == acc[m]);
                    assert(same_key_s(acc[m], r[m]) && r[m] == acc[m]);
                }
            }
            assert(same_key_s(res, r[0]) && !crate::calculation::better_s(res, r[0]));
        } else {
            assert(r == acc);
            assert forall|m: int| 0 <= m < acc.len() implies exists|w: int|
                0 <= w < r.len() && same_key_s(#[trigger] acc[m], #[trigger] r[w]) && (r[w]
                    == acc[m] || crate::calculation::better_s(r[w], acc[m])) by {
                assert(same_key_s(acc[m], r[m]) && r[m] == acc[m]);
            }
            assert(same_key_s(res, r[0]) && !crate::calculation::better_s(res, r[0]));
        }
    } else {
        lemma_upsert_best_covers(acc.skip(1), res);
        let rest = crate::calculation::upsert_best_s(acc.skip(1), res);
        assert(r == seq![acc[0]] + rest);
        assert forall|m: int| 0 <= m < acc.len() implies exists|w: int|
            0 <= w < r.len() && same_key_s(#[trigger] acc[m], #[trigger] r[w]) && (r[w] == acc[m]
                || crate::calculation::better_s(r[w], acc[m])) by {
            if m == 0 {
                assert(same_key_s(acc[0], r[0]) && r[0] == acc[0]);
            } else {
                assert(acc.skip(1)[m - 1] == acc[m]);
                let w0 = choose|w0: int|
                    0 <= w0 < rest.len() && same_key_s(acc.skip(1)[m - 1], #[trigger] rest[w0]) && (
                    rest[w0] == acc.skip(1)[m - 1] || crate::calculation::better_s(rest[w0],
                        acc.skip(1)[m - 1]));
                assert(r[w0 + 1] == rest[w0]);
                assert(same_key_s(acc[m], r[w0 + 1]) && (r[w0 + 1] == acc[m]
                    || crate::calculation::better_s(r[w0 + 1], acc[m])));
            }
        }
        let w1 = choose|w1: int|
            0 <= w1 < rest.len() && same_key_s(res, #[trigger] rest[w1])
                && !crate::calculation::better_s(res, rest[w1]);
        assert(r[w1 + 1] == rest[w1]);
        assert(same_key_s(res, r[w1 + 1]) && !crate::calculation::better_s(res, r[w1 + 1]));
    }
}

/// After the global dedup, every raw result is represented by an entry with
/// its key that is at least as good.
proof fn lemma_dedup_covers(raw: Seq<crate::results::TNTResult>, n: nat)
    requires
        n <= raw.len(),
    ensures
        forall|j: int|
            0 <= j < n ==> exists|m: int|
                0 <= m < crate::calculation::dedup_upto_s(raw, n).len() && same_key_s(
                    #[trigger] raw[j],
                    #[trigger] crate::calculation::dedup_upto_s(raw, n)[m],
                ) && !crate::calculation::better_s(raw[j], crate::calculation::dedup_upto_s(raw,
                    n)[m]),
    decreases n,
{
    if n == 0 {
    } else {
        lemma_dedup_covers(raw, (n - 1) as nat);
        let prev = crate::calculation::dedup_upto_s(raw, (n - 1) as nat);
        let cur = crate::calculation::dedup_upto_s(raw, n);
        lemma_upsert_best_covers(prev, raw[n - 1]);
        assert forall|j: int| 0 <= j < n implies exists|m: int|
            0 <= m < cur.len() && same_key_s(#[trigger] raw[j], #[trigger] cur[m])
                && !crate::calculation::better_s(raw[j], cur[m]) by {
            if j < n - 1 {
                let m0 = choose|m0: int|
                    0 <= m0 < prev.len() && same_key_s(raw[j], #[trigger] prev[m0])
                        && !crate::calculation::better_s(raw[j], prev[m0]);
                let w = choose|w: int|
                    0 <= w < cur.len() && same_key_s(#[trigger] prev[m0], #[trigger] cur[w]) && (
                    cur[w] == prev[m0] || crate::calculation::better_s(cur[w], prev[m0]));
                lemma_better_compose(raw[j], prev[m0], cur[w]);
                assert(same_key_s(raw[j], cur[w]) && !crate::calculation::better_s(raw[j],
                    cur[w]));
            } else {
                let w = choose|w: int|
                    0 <= w < cur.len() && same_key_s(raw[n - 1], #[trigger] cur[w])
                        && !crate::calculation::better_s(raw[n - 1], cur[w]);
                assert(same_key_s(raw[j], cur[w]) && !crate::calculation::better_s(raw[j],
                    cur[w]));
            }
        }
    }
}

/// Sorted insertion loses no element.
proof fn lemma_insert_sorted_contains(out: Seq<crate::results::TNTResult>,
    x: crate::results::TNTResult, y: crate::results::TNTResult)
    requires
        out.contains(y) || y == x,
    ensures
        crate::calculation::insert_sorted_s(out, x).contains(y),
    decreases out.len(),
{
    let r = crate::calculation::insert_sorted_s(out, x);
    if out.len() == 0 {
        assert(r[0] == x);
    } else if x.distance.raw < out[0].distance.raw {
        assert(r == seq![x] + out);
        if y == x {
            assert(r[0] == y);
        } else {
            let j = choose|j: int| 0 <= j < out.len() && #[trigger] out[j] == y;
            assert(r[j + 1] == y);
        }
    } else {
        assert(r == seq![out[0]] + crate::calculation::insert_sorted_s(out.skip(1), x));
        if out.contains(y) {
            let j = choose|j: int| 0 <= j < out.len() && #[trigger] out[j] == y;
            if j == 0 {
                assert(r[0] == y);
            } else {
                assert(out.skip(1)[j - 1] == y);
                lemma_insert_sorted_contains(out.skip(1), x, y);
                let w = choose|w: int|
                    0 <= w < crate::calculation::insert_sorted_s(out.skip(1), x).len()
                        && #[trigger] crate::calculation::insert_sorted_s(out.skip(1), x)[w] == y;
                assert(r[w + 1] == y);
            }
        } else {
            lemma_insert_sorted_contains(out.skip(1), x, y);
            let w = choose|w: int|
                0 <= w < crate::calculation::insert_sorted_s(out.skip(1), x).len()
                    && #[trigger] crate::calculation::insert_sorted_s(out.skip(1), x)[w] == y;
            assert(r[w + 1] == y);
        }
    }
}

/// The ranked list keeps every deduplicated entry.
proof fn lemma_sorted_upto_contains(s: Seq<crate::results::TNTResult>, n: nat, j: int)
    requires
        0 <= j < n <= s.len(),
    ensures
        crate::calculation::sorted_upto_s(s, n).contains(s[j]),
    decreases n,
{
    let cur = crate::calculation::sorted_upto_s(s, n);
    let prev = crate::calculation::sorted_upto_s(s, (n - 1) as nat);
    if j == n - 1 {
        lemma_insert_sorted_contains(prev, s[n - 1], s[n - 1]);
    } else {
        lemma_sorted_upto_contains(s, (n - 1) as nat, j);
        lemma_insert_sorted_contains(prev, s[n - 1], s[j]);
    }
}

/// Verified-candidate completeness: when the search runs (the destination is
/// apart from the start, both default corners are configured, and the two
/// horizontal group vectors are independent), every expanded candidate whose
/// re-simulation found a qualifying hit appears in the final list under its
/// triple, with a result at least as good as its own.
pub proof fn lemma_solver_keeps_verified_candidates(
    cannon: crate::inputs::Cannon,
    destination: Space3D,
    max_tnt: u32,
    max_vertical_tnt: Option<u32>,
    max_ticks: u32,
    max_distance: crate::fx::Fx,
    version: PearlVersion,
    i: int,
)
    requires
        ({
            let start = crate::space::vadd_s(cannon.pearl.position, cannon.pearl.offset);
            let td = vsub_s(destination, start);
            let dir = crate::angles::from_angle_s(crate::angles::angle_to_yaw_s(start,
                destination));
            &&& !(td.x.raw == 0 && td.z.raw == 0)
            &&& crate::calculation::calc_tnt_vectors_s(cannon, dir) is Some
            &&& {
                let vecs = crate::calculation::calc_tnt_vectors_s(cannon, dir)->0;
                let vvopt = crate::calculation::vertical_vec_s(cannon);
                let den = fx_sub_s(fx_mul_s(vecs.0.z.raw as int, vecs.1.x.raw as int),
                    fx_mul_s(vecs.1.z.raw as int, vecs.0.x.raw as int));
                !(vvopt is None && (iabs(den) < PRECISION_EPSILON_RAW || vecs.1.x.raw == 0))
            }
            &&& 0 <= i < solver_candidates_s(cannon, destination, max_tnt, max_vertical_tnt,
                max_ticks, version).len()
            &&& solver_candidate_result_s(cannon, destination, max_distance, version,
                solver_candidates_s(cannon, destination, max_tnt, max_vertical_tnt, max_ticks,
                    version)[i]) is Some
        }),
    ensures
        ({
            let res = solver_candidate_result_s(cannon, destination, max_distance, version,
                solver_candidates_s(cannon, destination, max_tnt, max_vertical_tnt, max_ticks,
                    version)[i])->0;
            let out = crate::calculation::tnt_amount_results_s(cannon, destination, max_tnt,
                max_vertical_tnt, max_ticks, max_distance, version);
            exists|j: int|
                0 <= j < out.len() && same_key_s(res, #[trigger] out[j])
                    && !crate::calculation::better_s(res, out[j])
        }),
{
    let start = crate::space::vadd_s(cannon.pearl.position, cannon.pearl.offset);
    let td = vsub_s(destination, start);
    let dir = crate::angles::from_angle_s(crate::angles::angle_to_yaw_s(start, destination));
    let vecs = crate::calculation::calc_tnt_vectors_s(cannon, dir)->0;
    let rv = vecs.0;
    let bv = vecs.1;
    let vvopt = crate::calculation::vertical_vec_s(cannon);
    let maxd2 = fx_mul_s(max_distance.raw as int, max_distance.raw as int);
    let cands = solver_candidates_s(cannon, destination, max_tnt, max_vertical_tnt, max_ticks,
        version);
    let raw = crate::calculation::raw_upto_s(cannon, start, destination, rv, bv, vvopt, maxd2,
        version, cands, cands.len());
    let deduped = crate::calculation::dedup_upto_s(raw, raw.len());
    let out = crate::calculation::tnt_amount_results_s(cannon, destination, max_tnt,
        max_vertical_tnt, max_ticks, max_distance, version);
    let res = solver_candidate_result_s(cannon, destination, max_distance, version, cands[i])->0;
    assert(out == crate::calculation::sorted_upto_s(deduped, deduped.len()));
    lemma_raw_upto_contains(cannon, start, destination, rv, bv, vvopt, maxd2, version, cands, i,
        cands.len());
    let jr = choose|jr: int| 0 <= jr < raw.len() && #[trigger] raw[jr] == res;
    lemma_dedup_covers(raw, raw.len());
    let m = choose|m: int|
        0 <= m < deduped.len() && same_key_s(raw[jr], #[trigger] deduped[m])
            && !crate::calculation::better_s(raw[jr], deduped[m]);
    lemma_sorted_upto_contains(deduped, deduped.len(), m);
    let j = choose|j: int| 0 <= j < out.len() && #[trigger] out[j] == deduped[m];
    assert(same_key_s(res, out[j]) && !crate::calculation::better_s(res, out[j]));
}

/// The expanded candidate list the solver works through, when it runs.
pub open spec fn solver_candidates_s(
    cannon: crate::inputs::Cannon,
    destination: Space3D,
    max_tnt: u32,
    max_vertical_tnt: Option<u32>,
    max_ticks: u32,
    version: PearlVersion,
) -> crate::optimizer::CandSeq {
    let start = crate::space::vadd_s(cannon.pearl.position, cannon.pearl.offset);
    let td = vsub_s(destination, start);
    let dir = crate::angles::from_angle_s(crate::angles::angle_to_yaw_s(start, destination));
    let vecs = crate::calculation::calc_tnt_vectors_s(cannon, dir)->0;
    let rv = vecs.0;
    let bv = vecs.1;
    let vvopt = crate::calculation::vertical_vec_s(cannon);
    let den = fx_sub_s(fx_mul_s(rv.z.raw as int, bv.x.raw as int), fx_mul_s(bv.z.raw as int,
        rv.x.raw as int));
    let tr = fx_div_s(fx_sub_s(fx_mul_s(td.z.raw as int, bv.x.raw as int),
        fx_mul_s(td.x.raw as int, bv.z.raw as int)), den);
    let tb = fx_div_s(fx_sub_s(td.x.raw as int, fx_mul_s(tr, rv.x.raw as int)), bv.x.raw as int);
    let groups = crate::calculation::groups_upto_s(td, rv, bv, vvopt, tr, tb, version,
        max_ticks as nat);
    let params = crate::optimizer::SearchParams {
        max_tnt,
        max_vertical_tnt,
        search_radius: crate::constants::SEARCH_RADIUS,
        has_vertical: vvopt is Some,
        cannon_mode: cannon.mode,
    };
    crate::optimizer::gen_cands_s(groups, params, 0, Seq::empty())
}

/// The verified result of one expanded candidate, when the solver runs.
pub open spec fn solver_candidate_result_s(
    cannon: crate::inputs::Cannon,
    destination: Space3D,
    max_distance: crate::fx::Fx,
    version: PearlVersion,
    cand: ((u32, u32, u32), Seq<u32>),
) -> Option<crate::results::TNTResult> {
    let start = crate::space::vadd_s(cannon.pearl.position, cannon.pearl.offset);
    let dir = crate::angles::from_angle_s(crate::angles::angle_to_yaw_s(start, destination));
    let vecs = crate::calculation::calc_tnt_vectors_s(cannon, dir)->0;
    crate::calculation::result_of_cand_s(cannon, start, destination, vecs.0, vecs.1,
        crate::calculation::vertical_vec_s(cannon), fx_mul_s(max_distance.raw as int,
            max_distance.raw as int), version, cand.0, cand.1)
}

/// A displacement along one cardinal axis quantizes to that cardinal: the
/// flight direction chosen for an axis-aligned destination is the axis
/// itself.
pub proof fn lemma_cardinal_displacement_quantizes(dx: int, dz: int)
    requires
        crate::fx::fx_wf(dx),
        crate::fx::fx_wf(dz),
    ensures
        dx == 0 && dz > 0 ==> crate::angles::from_angle_s(crate::angles::yaw_of_s(dx, dz))
            == crate::direction::Direction::South,
        dx == 0 && dz < 0 ==> crate::angles::from_angle_s(crate::angles::yaw_of_s(dx, dz))
            == crate::direction::Direction::North,
        dx > 0 && dz == 0 ==> crate::angles::from_angle_s(crate::angles::yaw_of_s(dx, dz))
            == crate::direction::Direction::East,
        dx < 0 && dz == 0 ==> crate::angles::from_angle_s(crate::angles::yaw_of_s(dx, dz))
            == crate::direction::Direction::West,
{
    let s = FX_SCALE as int;
    vstd::arithmetic::div_mod::lemma_div_of0(s);
    if dx != 0 {
        vstd::arithmetic::div_mod::lemma_div_of0(iabs(dx));
    }
    if dz != 0 {
        vstd::arithmetic::div_mod::lemma_div_of0(iabs(dz));
    }
    if dx == 0 && dz > 0 {
        assert(crate::angles::yaw_of_s(dx, dz) == 0);
        assert(0int % (crate::angles::FULL_TURN_RAW as int) == 0) by {
            vstd::arithmetic::div_mod::lemma_small_mod(0nat,
                crate::angles::FULL_TURN_RAW as nat);
        }
    } else if dx == 0 && dz < 0 {
        assert(crate::angles::yaw_of_s(dx, dz) == crate::angles::HALF_TURN_RAW);
        assert((crate::angles::HALF_TURN_RAW as int) % (crate::angles::FULL_TURN_RAW as int)
            == crate::angles::HALF_TURN_RAW) by {
            vstd::arithmetic::div_mod::lemma_small_mod(crate::angles::HALF_TURN_RAW as nat,
                crate::angles::FULL_TURN_RAW as nat);
        }
    } else if dx > 0 && dz == 0 {
        assert(crate::angles::yaw_of_s(dx, dz) == -(crate::angles::QUARTER_TURN_RAW as int));
        assert((-(crate::angles::QUARTER_TURN_RAW as int)) % (
        crate::angles::FULL_TURN_RAW as int) == 3 * (crate::angles::QUARTER_TURN_RAW as int))
            by {
            vstd::arithmetic::div_mod::lemma_fundamental_div_mod_converse(
                -(crate::angles::QUARTER_TURN_RAW as int), crate::angles::FULL_TURN_RAW as int,
                -1, 3 * (crate::angles::QUARTER_TURN_RAW as int));
        }
    } else if dx < 0 && dz == 0 {
        assert(crate::angles::yaw_of_s(dx, dz) == crate::angles::QUARTER_TURN_RAW);
        assert((crate::angles::QUARTER_TURN_RAW as int) % (crate::angles::FULL_TURN_RAW as int)
            == crate::angles::QUARTER_TURN_RAW) by {
            vstd::arithmetic::div_mod::lemma_small_mod(crate::angles::QUARTER_TURN_RAW as nat,
                crate::angles::FULL_TURN_RAW as nat);
        }
    }
}

/// The selected hit of a candidate is lexicographically minimal: no other hit
/// is closer, and among hits at the same distance none has an earlier tick.
/// Two hits at equal distance therefore resolve to the lower tick.
pub proof fn lemma_best_hit_minimal(hits: Seq<SimResult>)
    requires
        hits.len() > 0,
    ensures
        forall|k: int| 0 <= k < hits.len() ==> !hit_lt_s(#[trigger] hits[k], best_hit_s(hits)),
    decreases hits.len(),
{
    if hits.len() == 1 {
    } else {
        lemma_best_hit_minimal(hits.drop_last());
        assert(forall|k: int| 0 <= k < hits.len() - 1 ==> hits.drop_last()[k] == #[trigger] hits[
            k]);
    }
}

} // verus!
