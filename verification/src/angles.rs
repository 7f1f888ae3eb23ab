use vstd::prelude::*;
use crate::direction::Direction;
use crate::fx::{FX_SCALE, Fx, fx_sqrt_s, fx_wf, iabs};
use crate::space::{Space3D, distance_2d_sq_s, lemma_distance_2d_sq_nonneg, vsub_s};

verus! {

/// Degrees of a quarter turn, as a raw.
pub const QUARTER_TURN_RAW: i128 = 1509949440;  // 90 on the grid

/// Degrees of a half turn, as a raw.
pub const HALF_TURN_RAW: i128 = 3019898880;  // 180 on the grid

/// Degrees of a full turn, as a raw.
pub const FULL_TURN_RAW: i128 = 6039797760;  // 360 on the grid

/// Approximate arc tangent in degrees of a ratio `t` within the unit interval
/// (both as raws): a quadratic fit that is exact at zero and at one.
pub open spec fn atan01_s(t: int) -> int {
    (t * (59 * FX_SCALE - 14 * t)) / (FX_SCALE as int)
}

/// The quadratic fit stays within the first half-quadrant.
pub proof fn lemma_atan01_bounds(t: int)
    requires
        0 <= t <= FX_SCALE,
    ensures
        0 <= atan01_s(t) <= 45 * FX_SCALE,
{
    let s = FX_SCALE as int;
    assert(0 <= t * (59 * s - 14 * t) <= 45 * s * s) by (nonlinear_arith)
        requires
            0 <= t <= s,
            s == FX_SCALE as int,
    ;
    vstd::arithmetic::div_mod::lemma_div_pos_is_pos(t * (59 * s - 14 * t), s);
    assert(45 * s * s == s * (45 * s)) by (nonlinear_arith);
    vstd::arithmetic::div_mod::lemma_multiply_divide_le(t * (59 * s - 14 * t), s, 45 * s);
}

/// Approximate planar angle of the point `(x, y)` in degrees, as a raw in
/// the closed half-turn band: zero along positive `x`, a quarter turn along
/// positive `y`.
pub open spec fn atan2_deg_s(y: int, x: int) -> int {
    let ax = iabs(x);
    let ay = iabs(y);
    if ax == 0 && ay == 0 {
        0
    } else {
        let base = if ax >= ay {
            atan01_s((ay * FX_SCALE) / ax)
        } else {
            QUARTER_TURN_RAW - atan01_s((ax * FX_SCALE) / ay)
        };
        if x >= 0 && y >= 0 {
            base
        } else if x < 0 && y >= 0 {
            HALF_TURN_RAW - base
        } else if x < 0 {
            base - HALF_TURN_RAW
        } else {
            -base
        }
    }
}

/// The angle lies within the closed half-turn band.
pub proof fn lemma_atan2_bounds(y: int, x: int)
    requires
        fx_wf(x),
        fx_wf(y),
    ensures
        -HALF_TURN_RAW <= atan2_deg_s(y, x) <= HALF_TURN_RAW,
{
    let ax = iabs(x);
    let ay = iabs(y);
    if ax == 0 && ay == 0 {
    } else {
        let s = FX_SCALE as int;
        if ax >= ay {
            assert(ay * s <= ax * s) by (nonlinear_arith)
                requires
                    ay <= ax,
                    s > 0,
            ;
            vstd::arithmetic::div_mod::lemma_multiply_divide_le(ay * s, ax, s);
            vstd::arithmetic::div_mod::lemma_div_pos_is_pos(ay * s, ax);
            lemma_atan01_bounds((ay * s) / ax);
        } else {
            assert(ax * s <= ay * s) by (nonlinear_arith)
                requires
                    ax <= ay,
                    s > 0,
            ;
            vstd::arithmetic::div_mod::lemma_multiply_divide_le(ax * s, ay, s);
            vstd::arithmetic::div_mod::lemma_div_pos_is_pos(ax * s, ay);
            lemma_atan01_bounds((ax * s) / ay);
        }
    }
}

/// Approximate arc tangent in degrees of `t` in the unit interval.
fn atan01(t: i128) -> (r: i128)
    requires
        0 <= t <= FX_SCALE,
    ensures
        r as int == atan01_s(t as int),
        0 <= r <= 45 * FX_SCALE,
{
    proof {
        lemma_atan01_bounds(t as int);
        let s = FX_SCALE as int;
        assert(0 <= t * (59 * s - 14 * t) <= 45 * s * s) by (nonlinear_arith)
            requires
                0 <= t <= s,
                s == FX_SCALE as int,
        ;
    }
    let p: u128 = (t as u128) * ((59 * FX_SCALE - 14 * t) as u128);
    let q: u128 = p / (FX_SCALE as u128);
    q as i128
}

/// Approximate planar angle of `(x, y)` in degrees.
pub fn atan2_deg(y: Fx, x: Fx) -> (r: Fx)
    requires
        x.wf(),
        y.wf(),
    ensures
        r.raw as int == atan2_deg_s(y.raw as int, x.raw as int),
        -HALF_TURN_RAW <= r.raw <= HALF_TURN_RAW,
        r.wf(),
{
    proof {
        lemma_atan2_bounds(y.raw as int, x.raw as int);
    }
    let ax: i128 = if x.raw < 0 {
        -x.raw
    } else {
        x.raw
    };
    let ay: i128 = if y.raw < 0 {
        -y.raw
    } else {
        y.raw
    };
    if ax == 0 && ay == 0 {
        return Fx { raw: 0 };
    }
    let base: i128 = if ax >= ay {
        proof {
            let s = FX_SCALE as int;
            assert(ay * s <= ax * s) by (nonlinear_arith)
                requires
                    ay <= ax,
                    s > 0,
            ;
            vstd::arithmetic::div_mod::lemma_multiply_divide_le(ay as int * s, ax as int, s);
            vstd::arithmetic::div_mod::lemma_div_pos_is_pos(ay as int * s, ax as int);
        }
        let t: u128 = ((ay as u128) * (FX_SCALE as u128)) / (ax as u128);
        atan01(t as i128)
    } else {
        proof {
            let s = FX_SCALE as int;
            assert(ax * s <= ay * s) by (nonlinear_arith)
                requires
                    ax <= ay,
                    s > 0,
            ;
            vstd::arithmetic::div_mod::lemma_multiply_divide_le(ax as int * s, ay as int, s);
            vstd::arithmetic::div_mod::lemma_div_pos_is_pos(ax as int * s, ay as int);
        }
        let t: u128 = ((ax as u128) * (FX_SCALE as u128)) / (ay as u128);
        QUARTER_TURN_RAW - atan01(t as i128)
    };
    if x.raw >= 0 && y.raw >= 0 {
        Fx { raw: base }
    } else if x.raw < 0 && y.raw >= 0 {
        Fx { raw: HALF_TURN_RAW - base }
    } else if x.raw < 0 {
        Fx { raw: base - HALF_TURN_RAW }
    } else {
        Fx { raw: -base }
    }
}

/// The yaw of a horizontal displacement, in degrees: zero along positive `z`,
/// a quarter turn along negative `x`.
pub open spec fn yaw_of_s(dx: int, dz: int) -> int {
    atan2_deg_s(-dx, dz)
}

/// The pitch of a flight vector, in degrees: negative when climbing.
pub open spec fn pitch_of_s(dy: int, horiz: int) -> int {
    -atan2_deg_s(dy, horiz)
}

/// The yaw from one point toward another, in degrees.
pub open spec fn angle_to_yaw_s(from: Space3D, to: Space3D) -> int {
    let d = vsub_s(to, from);
    yaw_of_s(d.x.raw as int, d.z.raw as int)
}

/// Compute the yaw from one point toward another.
pub fn angle_to_yaw(from: Space3D, to: Space3D) -> (r: Fx)
    requires
        from.wf(),
        to.wf(),
    ensures
        r.raw as int == angle_to_yaw_s(from, to),
        r.wf(),
        -HALF_TURN_RAW <= r.raw <= HALF_TURN_RAW,
{
    let d = to.vsub(from);
    proof {
        lemma_atan2_bounds(-d.x.raw as int, d.z.raw as int);
    }
    atan2_deg(d.x.fneg(), d.z)
}

/// The pitch of a flight vector.
pub fn pitch_of(dy: Fx, dx: Fx, dz: Fx) -> (r: Fx)
    requires
        dy.wf(),
        dx.wf(),
        dz.wf(),
    ensures
        r.raw as int == pitch_of_s(
            dy.raw as int,
            fx_sqrt_s(crate::space::length_sq_s(Space3D { x: dx, y: Fx { raw: 0 }, z: dz })),
        ),
        r.wf(),
{
    let horiz = Space3D { x: dx, y: Fx { raw: 0 }, z: dz }.length();
    let a = atan2_deg(dy, horiz);
    a.fneg()
}

/// The cardinal direction nearest a yaw: zero degrees faces south, a quarter
/// turn west, a half turn north, three quarter turns east; each boundary
/// exactly between two cardinals belongs to the clockwise-next one.
pub open spec fn from_angle_s(yaw: int) -> Direction {
    let m = yaw % (FULL_TURN_RAW as int);
    if m < 45 * FX_SCALE {
        Direction::South
    } else if m < 135 * FX_SCALE {
        Direction::West
    } else if m < 225 * FX_SCALE {
        Direction::North
    } else if m < 315 * FX_SCALE {
        Direction::East
    } else {
        Direction::South
    }
}

/// Quantize a yaw to the nearest cardinal direction.
pub fn from_angle(yaw: Fx) -> (r: Direction)
    requires
        yaw.wf(),
    ensures
        r == from_angle_s(yaw.raw as int),
{
    let m: i128 = if yaw.raw >= 0 {
        ((yaw.raw as u128) % (FULL_TURN_RAW as u128)) as i128
    } else {
        let rem: u128 = ((-yaw.raw) as u128) % (FULL_TURN_RAW as u128);
        proof {
            let d = FULL_TURN_RAW as int;
            let n = (-yaw.raw) as int;
            vstd::arithmetic::div_mod::lemma_fundamental_div_mod(n, d);
            vstd::arithmetic::div_mod::lemma_mod_bound(n, d);
            let q = n / d;
            let rr = n % d;
            if rr == 0 {
                vstd::arithmetic::div_mod::lemma_fundamental_div_mod_converse(
                    yaw.raw as int, d, -q, 0);
            } else {
                assert(yaw.raw as int == d * (-q - 1) + (d - rr)) by (nonlinear_arith)
                    requires
                        n == d * q + rr,
                        n == -(yaw.raw as int),
                ;
                vstd::arithmetic::div_mod::lemma_fundamental_div_mod_converse(
                    yaw.raw as int, d, -q - 1, d - rr);
            }
        }
        if rem == 0 {
            0
        } else {
            FULL_TURN_RAW - (rem as i128)
        }
    };
    proof {
        vstd::arithmetic::div_mod::lemma_mod_bound(yaw.raw as int, FULL_TURN_RAW as int);
    }
    if m < 45 * FX_SCALE {
        Direction::South
    } else if m < 135 * FX_SCALE {
        Direction::West
    } else if m < 225 * FX_SCALE {
        Direction::North
    } else if m < 315 * FX_SCALE {
        Direction::East
    } else {
        Direction::South
    }
}

} // verus!
