use vstd::prelude::*;
use crate::settings::CannonMode;

verus! {

/// The constraints a candidate must satisfy to enter verification.
#[derive(Clone, Copy, Debug, PartialEq, Eq, Structural)]
pub struct SearchParams {
    /// Cap on either side's count; zero means unlimited.
    pub max_tnt: u32,
    /// Cap on the vertical count, if one is configured.
    pub max_vertical_tnt: Option<u32>,
    /// Half-width of the integer neighborhood searched around each center.
    pub search_radius: i32,
    /// Whether a vertical charge group exists.
    pub has_vertical: bool,
    /// Accumulation mode disables the per-side cap.
    pub cannon_mode: CannonMode,
}

/// An association list from candidate triples to their eligible ticks.
pub type CandSeq = Seq<((u32, u32, u32), Seq<u32>)>;

/// The candidate an analytic center plus an offset stands for, or nothing
/// when a count is negative or a cap is exceeded.
pub open spec fn cand_key_s(
    center: (i32, i32, i32),
    dr: int,
    db: int,
    dv: int,
    params: SearchParams,
) -> Option<(u32, u32, u32)> {
    let cr = center.0 + dr;
    let cb = center.1 + db;
    let cv = center.2 + dv;
    if cr < 0 || cb < 0 || cv < 0 {
        None
    } else {
        let side_max = if cr >= cb {
            cr
        } else {
            cb
        };
        if params.max_tnt > 0 && params.cannon_mode != CannonMode::Accumulation
            && !params.has_vertical && side_max > params.max_tnt {
            None
        } else if params.max_vertical_tnt matches Some(mv) && cv > mv {
            None
        } else {
            Some((cr as u32, cb as u32, cv as u32))
        }
    }
}

/// Merge one candidate's ticks into the list: the first entry with the same
/// key gains the ticks, a missing key is appended at the end.
pub open spec fn upsert_s(acc: CandSeq, k: (u32, u32, u32), ticks: Seq<u32>) -> CandSeq
    decreases acc.len(),
{
    if acc.len() == 0 {
        seq![(k, ticks)]
    } else if acc[0].0 == k {
        seq![(acc[0].0, acc[0].1 + ticks)] + acc.skip(1)
    } else {
        seq![acc[0]] + upsert_s(acc.skip(1), k, ticks)
    }
}

/// Merge the candidate of one offset, if it passes the constraints.
pub open spec fn merge_cand_s(
    acc: CandSeq,
    center: (i32, i32, i32),
    ticks: Seq<u32>,
    dr: int,
    db: int,
    dv: int,
    params: SearchParams,
) -> CandSeq {
    match cand_key_s(center, dr, db, dv, params) {
        Some(k) => upsert_s(acc, k, ticks),
        None => acc,
    }
}

/// Lowest vertical offset searched.
pub open spec fn v_lo_s(params: SearchParams) -> int {
    if params.has_vertical {
        -1
    } else {
        0
    }
}

/// Highest vertical offset searched.
pub open spec fn v_hi_s(params: SearchParams) -> int {
    if params.has_vertical {
        1
    } else {
        0
    }
}

/// Merge the candidates of one (red, blue) offset pair, all vertical offsets.
pub open spec fn process_v_s(
    acc: CandSeq,
    center: (i32, i32, i32),
    ticks: Seq<u32>,
    dr: int,
    db: int,
    dv: int,
    params: SearchParams,
) -> CandSeq
    decreases v_hi_s(params) + 1 - dv,
{
    if dv > v_hi_s(params) {
        acc
    } else {
        process_v_s(merge_cand_s(acc, center, ticks, dr, db, dv, params), center, ticks, dr, db,
            dv + 1, params)
    }
}

/// Merge the candidates of one red offset, all blue offsets.
pub open spec fn process_b_s(
    acc: CandSeq,
    center: (i32, i32, i32),
    ticks: Seq<u32>,
    dr: int,
    db: int,
    params: SearchParams,
) -> CandSeq
    decreases params.search_radius + 1 - db,
{
    if db > params.search_radius {
        acc
    } else {
        process_b_s(process_v_s(acc, center, ticks, dr, db, v_lo_s(params), params), center, ticks,
            dr, db + 1, params)
    }
}

/// Merge the candidates of one analytic center, all offsets.
pub open spec fn process_r_s(
    acc: CandSeq,
    center: (i32, i32, i32),
    ticks: Seq<u32>,
    dr: int,
    params: SearchParams,
) -> CandSeq
    decreases params.search_radius + 1 - dr,
{
    if dr > params.search_radius {
        acc
    } else {
        process_r_s(process_b_s(acc, center, ticks, dr, -params.search_radius, params), center,
            ticks, dr + 1, params)
    }
}

/// Merge the candidates of every analytic center, in list order.
pub open spec fn gen_cands_s(
    groups: Seq<((i32, i32, i32), Seq<u32>)>,
    params: SearchParams,
    gi: nat,
    acc: CandSeq,
) -> CandSeq
    decreases groups.len() - gi,
{
    if gi >= groups.len() {
        acc
    } else {
        gen_cands_s(groups, params, gi + 1,
            process_r_s(acc, groups[gi as int].0, groups[gi as int].1, -params.search_radius,
                params))
    }
}

/// The association list a candidate vector stands for.
pub open spec fn cands_view(v: Seq<((u32, u32, u32), Vec<u32>)>) -> CandSeq {
    Seq::new(v.len(), |i: int| (v[i].0, v[i].1@))
}

/// The association list a group vector stands for.
pub open spec fn groups_view(v: Seq<((i32, i32, i32), Vec<u32>)>) -> Seq<
    ((i32, i32, i32), Seq<u32>),
> {
    Seq::new(v.len(), |i: int| (v[i].0, v[i].1@))
}

/// Merging at the first index holding the key updates exactly that entry.
proof fn lemma_upsert_at(acc: CandSeq, k: (u32, u32, u32), ticks: Seq<u32>, i: int)
    requires
        0 <= i < acc.len(),
        acc[i].0 == k,
        forall|j: int| 0 <= j < i ==> (#[trigger] acc[j]).0 != k,
    ensures
        upsert_s(acc, k, ticks) =~= acc.update(i, (k, acc[i].1 + ticks)),
    decreases acc.len(),
{
    if i == 0 {
        assert(upsert_s(acc, k, ticks) == seq![(acc[0].0, acc[0].1 + ticks)] + acc.skip(1));
    } else {
        assert(forall|j: int| 0 <= j < i - 1 ==> (#[trigger] acc.skip(1)[j]).0 != k);
        lemma_upsert_at(acc.skip(1), k, ticks, i - 1);
        assert(upsert_s(acc, k, ticks) == seq![acc[0]] + upsert_s(acc.skip(1), k, ticks));
    }
}

/// Merging a key absent from the list appends a new entry.
proof fn lemma_upsert_missing(acc: CandSeq, k: (u32, u32, u32), ticks: Seq<u32>)
    requires
        forall|j: int| 0 <= j < acc.len() ==> (#[trigger] acc[j]).0 != k,
    ensures
        upsert_s(acc, k, ticks) =~= acc.push((k, ticks)),
    decreases acc.len(),
{
    if acc.len() == 0 {
    } else {
        assert(forall|j: int| 0 <= j < acc.skip(1).len() ==> (#[trigger] acc.skip(1)[j]).0 != k);
        lemma_upsert_missing(acc.skip(1), k, ticks);
        assert(upsert_s(acc, k, ticks) == seq![acc[0]] + upsert_s(acc.skip(1), k, ticks));
    }
}

/// Append a copy of every tick in `src` to `dst`.
fn push_all(dst: &mut Vec<u32>, src: &Vec<u32>)
    ensures
        final(dst)@ == old(dst)@ + src@,
{
    let mut i: usize = 0;
    while i < src.len()
        invariant
            0 <= i <= src.len(),
            dst@ =~= old(dst)@ + src@.take(i as int),
        decreases src.len() - i,
    {
        dst.push(src[i]);
        proof {
            assert(dst@ =~= old(dst)@ + src@.take(i as int + 1));
        }
        i = i + 1;
    }
    proof {
        assert(src@.take(i as int) =~= src@);
    }
}

/// Copy a tick list.
fn clone_ticks(src: &Vec<u32>) -> (r: Vec<u32>)
    ensures
        r@ == src@,
{
    let mut out: Vec<u32> = Vec::new();
    push_all(&mut out, src);
    proof {
        assert(Seq::<u32>::empty() + src@ =~= src@);
    }
    out
}

/// Merge one candidate's ticks into the vector, as `upsert_s` describes.
fn upsert(acc: &mut Vec<((u32, u32, u32), Vec<u32>)>, k: (u32, u32, u32), ticks: &Vec<u32>)
    ensures
        cands_view(final(acc)@) == upsert_s(cands_view(old(acc)@), k, ticks@),
{
    let mut i: usize = 0;
    while i < acc.len()
        invariant
            0 <= i <= acc.len(),
            acc@ == old(acc)@,
            forall|j: int| 0 <= j < i ==> (#[trigger] acc@[j]).0 != k,
        decreases acc.len() - i,
    {
        let cur = &acc[i];
        if cur.0.0 == k.0 && cur.0.1 == k.1 && cur.0.2 == k.2 {
            let mut merged = clone_ticks(&acc[i].1);
            push_all(&mut merged, ticks);
            let ghost before = cands_view(acc@);
            acc.set(i, (k, merged));
            proof {
                assert(before[i as int].0 == k);
                lemma_upsert_at(before, k, ticks@, i as int);
                assert(cands_view(acc@) =~= before.update(i as int, (k, before[i as int].1
                    + ticks@)));
            }
            return ;
        }
        i = i + 1;
    }
    let ghost before = cands_view(acc@);
    acc.push((k, clone_ticks(ticks)));
    proof {
        assert(forall|j: int| 0 <= j < before.len() ==> (#[trigger] before[j]).0 != k);
        lemma_upsert_missing(before, k, ticks@);
        assert(cands_view(acc@) =~= before.push((k, ticks@)));
    }
}

/// The candidate of one offset, or nothing when it fails the constraints.
fn cand_key(center: (i32, i32, i32), dr: i64, db: i64, dv: i64, params: &SearchParams) -> (r:
    Option<(u32, u32, u32)>)
    requires
        -2147483648 <= dr <= 2147483647,
        -2147483648 <= db <= 2147483647,
        -2147483648 <= dv <= 2147483647,
    ensures
        r == cand_key_s(center, dr as int, db as int, dv as int, *params),
{
    let cr: i64 = center.0 as i64 + dr;
    let cb: i64 = center.1 as i64 + db;
    let cv: i64 = center.2 as i64 + dv;
    if cr < 0 || cb < 0 || cv < 0 {
        return None;
    }
    let side_max: i64 = if cr >= cb {
        cr
    } else {
        cb
    };
    if params.max_tnt > 0 && !matches!(params.cannon_mode, CannonMode::Accumulation)
        && !params.has_vertical && side_max > params.max_tnt as i64 {
        return None;
    }
    if let Some(mv) = params.max_vertical_tnt {
        if cv > mv as i64 {
            return None;
        }
    }
    Some((cr as u32, cb as u32, cv as u32))
}

/// Expand every analytic center into its integer neighborhood, drop candidates
/// that fail the constraints, and merge eligible ticks per candidate; the
/// result keeps first-appearance order and holds each candidate once.
pub fn generate_candidates(
    theoretical_groups: Vec<((i32, i32, i32), Vec<u32>)>,
    params: &SearchParams,
) -> (r: Vec<((u32, u32, u32), Vec<u32>)>)
    requires
        0 <= params.search_radius < 2147483647,
    ensures
        cands_view(r@) == gen_cands_s(groups_view(theoretical_groups@), *params, 0, Seq::empty()),
{
    let ghost groups = groups_view(theoretical_groups@);
    let radius: i64 = params.search_radius as i64;
    let (v_lo, v_hi): (i64, i64) = if params.has_vertical {
        (-1, 1)
    } else {
        (0, 0)
    };
    let mut acc: Vec<((u32, u32, u32), Vec<u32>)> = Vec::new();
    proof {
        assert(cands_view(acc@) =~= Seq::<((u32, u32, u32), Seq<u32>)>::empty());
    }
    let mut gi: usize = 0;
    while gi < theoretical_groups.len()
        invariant
            0 <= gi <= theoretical_groups.len(),
            groups == groups_view(theoretical_groups@),
            radius == params.search_radius as i64,
            v_lo == v_lo_s(*params),
            v_hi == v_hi_s(*params),
            0 <= params.search_radius < 2147483647,
            gen_cands_s(groups, *params, 0, Seq::empty()) == gen_cands_s(groups, *params,
                gi as nat, cands_view(acc@)),
        decreases theoretical_groups.len() - gi,
    {
        let center = theoretical_groups[gi].0;
        let ticks = &theoretical_groups[gi].1;
        let ghost acc0 = cands_view(acc@);
        let mut dr: i64 = -radius;
        while dr <= radius
            invariant
                -radius <= dr <= radius + 1,
                radius == params.search_radius as i64,
                0 <= radius < 2147483647,
                v_lo == v_lo_s(*params),
                v_hi == v_hi_s(*params),
                center == groups[gi as int].0,
                ticks@ == groups[gi as int].1,
                0 <= gi < groups.len(),
                process_r_s(acc0, center, ticks@, -radius as int, *params) == process_r_s(
                    cands_view(acc@),
                    center,
                    ticks@,
                    dr as int,
                    *params,
                ),
            decreases radius + 1 - dr,
        {
            let ghost acc_r = cands_view(acc@);
            let mut db: i64 = -radius;
            while db <= radius
                invariant
                    -radius <= db <= radius + 1,
                    -radius <= dr <= radius,
                    radius == params.search_radius as i64,
                    0 <= radius < 2147483647,
                    v_lo == v_lo_s(*params),
                    v_hi == v_hi_s(*params),
                    center == groups[gi as int].0,
                    ticks@ == groups[gi as int].1,
                    0 <= gi < groups.len(),
                    process_b_s(acc_r, center, ticks@, dr as int, -radius as int, *params)
                        == process_b_s(cands_view(acc@), center, ticks@, dr as int, db as int,
                        *params),
                decreases radius + 1 - db,
            {
                let ghost acc_b = cands_view(acc@);
                let mut dv: i64 = v_lo;
                while dv <= v_hi
                    invariant
                        v_lo <= dv <= v_hi + 1,
                        -radius <= db <= radius,
                        -radius <= dr <= radius,
                        radius == params.search_radius as i64,
                        0 <= radius < 2147483647,
                        v_lo == v_lo_s(*params),
                        v_hi == v_hi_s(*params),
                        center == groups[gi as int].0,
                        ticks@ == groups[gi as int].1,
                        0 <= gi < groups.len(),
                        process_v_s(acc_b, center, ticks@, dr as int, db as int, v_lo as int,
                            *params) == process_v_s(cands_view(acc@), center, ticks@, dr as int,
                            db as int, dv as int, *params),
                    decreases v_hi + 1 - dv,
                {
                    match cand_key(center, dr, db, dv, params) {
                        Some(k) => {
                            upsert(&mut acc, k, ticks);
                        },
                        None => {},
                    }
                    dv = dv + 1;
                }
                db = db + 1;
            }
            dr = dr + 1;
        }
        gi = gi + 1;
    }
    acc
}

} // verus!
