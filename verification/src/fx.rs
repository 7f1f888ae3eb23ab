use vstd::prelude::*;

verus! {

/// Number of fractional steps per unit: every physical quantity in the
/// simulation is an integer count of 1/FX_SCALE units held in an `i128`.
/// Arithmetic truncates toward zero at this grid and saturates at the band
/// below, so every operation is total and exactly specified.
pub const FX_SCALE: i128 = 16777216;

/// Half of one unit, used when rounding to the nearest whole unit.
pub const FX_HALF: i128 = 8388608;

/// Largest raw magnitude a `Fx` may hold. The band is symmetric and chosen so
/// that a product of two in-band raws always fits in an `i128`.
pub const FX_MAX_RAW: i128 = 9223372036854775807;

/// A fixed-point number: `raw` counts of 1/FX_SCALE of a unit.
#[derive(Clone, Copy, Debug, PartialEq, Eq, Structural)]
pub struct Fx {
    pub raw: i128,
}

/// The raw value lies within the representable band.
pub open spec fn fx_wf(r: int) -> bool {
    -FX_MAX_RAW <= r <= FX_MAX_RAW
}

/// Clamp a mathematical integer into the representable band.
pub open spec fn fx_sat(x: int) -> int {
    if x > FX_MAX_RAW {
        FX_MAX_RAW as int
    } else if x < -FX_MAX_RAW {
        -(FX_MAX_RAW as int)
    } else {
        x
    }
}

/// Absolute value of a mathematical integer.
pub open spec fn iabs(x: int) -> int {
    if x < 0 {
        -x
    } else {
        x
    }
}

/// Saturating sum of two raws.
pub open spec fn fx_add_s(a: int, b: int) -> int {
    fx_sat(a + b)
}

/// Saturating difference of two raws.
pub open spec fn fx_sub_s(a: int, b: int) -> int {
    fx_sat(a - b)
}

/// Negation of a raw (the band is symmetric, so no clamping is needed).
pub open spec fn fx_neg_s(a: int) -> int {
    -a
}

/// Product of two raws: magnitudes are multiplied, rescaled with truncation
/// toward zero, clamped, and given the sign of the exact product.
pub open spec fn fx_mul_s(a: int, b: int) -> int {
    let m = (iabs(a) * iabs(b)) / (FX_SCALE as int);
    if (a < 0) == (b < 0) {
        fx_sat(m)
    } else {
        fx_sat(-m)
    }
}

/// Quotient of two raws (b != 0), truncated toward zero and clamped.
pub open spec fn fx_div_s(a: int, b: int) -> int {
    let m = (iabs(a) * (FX_SCALE as int)) / iabs(b);
    if (a < 0) == (b < 0) {
        fx_sat(m)
    } else {
        fx_sat(-m)
    }
}

/// Truncate a raw toward zero onto a coarser grid of the given step.
pub open spec fn fx_quant_s(a: int, step: int) -> int {
    if a >= 0 {
        (a / step) * step
    } else {
        -(((-a) / step) * step)
    }
}

/// Nearest whole number of units, ties rounded away from zero.
pub open spec fn fx_round_s(a: int) -> int {
    if a >= 0 {
        (a + FX_HALF) / (FX_SCALE as int)
    } else {
        -(((-a) + FX_HALF) / (FX_SCALE as int))
    }
}

/// Floor of the square root of a nonnegative integer, defined by counting up.
pub open spec fn sqrt_floor(n: int) -> int
    decreases n,
{
    if n <= 0 {
        0
    } else {
        let r = sqrt_floor(n - 1);
        if (r + 1) * (r + 1) <= n {
            r + 1
        } else {
            r
        }
    }
}

/// Square root of a nonnegative fixed-point raw, in fixed-point raw form.
pub open spec fn fx_sqrt_s(a: int) -> int {
    sqrt_floor(a * (FX_SCALE as int))
}

/// `sqrt_floor` brackets its argument between consecutive squares.
pub proof fn lemma_sqrt_floor_bounds(n: int)
    requires
        n >= 0,
    ensures
        0 <= sqrt_floor(n),
        sqrt_floor(n) * sqrt_floor(n) <= n,
        n < (sqrt_floor(n) + 1) * (sqrt_floor(n) + 1),
    decreases n,
{
    if n == 0 {
    } else {
        lemma_sqrt_floor_bounds(n - 1);
        let r = sqrt_floor(n - 1);
        if (r + 1) * (r + 1) <= n {
            assert(n < (r + 2) * (r + 2)) by (nonlinear_arith)
                requires
                    r >= 0,
                    n - 1 < (r + 1) * (r + 1),
            ;
        }
    }
}

/// Any value bracketed between consecutive squares is the floor square root.
pub proof fn lemma_sqrt_floor_unique(n: int, r: int)
    requires
        n >= 0,
        r >= 0,
        r * r <= n,
        n < (r + 1) * (r + 1),
    ensures
        r == sqrt_floor(n),
{
    lemma_sqrt_floor_bounds(n);
    let s = sqrt_floor(n);
    assert(r == s) by (nonlinear_arith)
        requires
            r >= 0,
            s >= 0,
            r * r <= n,
            n < (r + 1) * (r + 1),
            s * s <= n,
            n < (s + 1) * (s + 1),
    ;
}

/// Floor square root by binary search over `u128` magnitudes.
fn isqrt_u(n: u128) -> (r: u128)
    requires
        n < 309485009821345068724781056,  // 2^88
    ensures
        r * r <= n < (r + 1) * (r + 1),
{
    let mut lo: u128 = 0;
    let mut hi: u128 = 17592186044416;  // 2^44, whose square exceeds the bound on n
    assert(hi * hi == 309485009821345068724781056) by (nonlinear_arith)
        requires
            hi == 17592186044416u128,
    ;
    while lo + 1 < hi
        invariant
            0 <= lo < hi <= 17592186044416,
            lo * lo <= n,
            n < hi * hi,
        decreases hi - lo,
    {
        let mid: u128 = lo + (hi - lo) / 2;
        assert(mid * mid <= 309485009821345068724781056) by (nonlinear_arith)
            requires
                mid <= 17592186044416u128,
        ;
        if mid * mid <= n {
            lo = mid;
        } else {
            hi = mid;
        }
    }
    lo
}

/// Magnitude of an in-band raw as a `u128`.
fn mag(x: i128) -> (m: u128)
    requires
        fx_wf(x as int),
    ensures
        m == iabs(x as int),
{
    if x < 0 {
        (-x) as u128
    } else {
        x as u128
    }
}

/// Clamp a nonnegative magnitude to the band and apply a sign.
fn signed_sat(m: u128, negative: bool) -> (r: i128)
    ensures
        r as int == if negative {
            fx_sat(-(m as int))
        } else {
            fx_sat(m as int)
        },
{
    if m > FX_MAX_RAW as u128 {
        if negative {
            -FX_MAX_RAW
        } else {
            FX_MAX_RAW
        }
    } else {
        let v = m as i128;
        if negative {
            -v
        } else {
            v
        }
    }
}

impl Fx {
    pub open spec fn wf(self) -> bool {
        fx_wf(self.raw as int)
    }

    /// The zero value.
    pub fn zero() -> (r: Fx)
        ensures
            r.raw == 0,
            r.wf(),
    {
        Fx { raw: 0 }
    }

    /// A whole number of units.
    pub fn from_i32(v: i32) -> (r: Fx)
        ensures
            r.raw == v as int * FX_SCALE,
            r.wf(),
    {
        Fx { raw: (v as i128) * FX_SCALE }
    }

    /// A whole number of units from an unsigned count.
    pub fn from_u32(v: u32) -> (r: Fx)
        ensures
            r.raw == v as int * FX_SCALE,
            r.wf(),
    {
        Fx { raw: (v as i128) * FX_SCALE }
    }

    /// Saturating addition.
    pub fn fadd(self, other: Fx) -> (r: Fx)
        requires
            self.wf(),
            other.wf(),
        ensures
            r.raw == fx_add_s(self.raw as int, other.raw as int),
            r.wf(),
    {
        let s: i128 = self.raw + other.raw;
        if s > FX_MAX_RAW {
            Fx { raw: FX_MAX_RAW }
        } else if s < -FX_MAX_RAW {
            Fx { raw: -FX_MAX_RAW }
        } else {
            Fx { raw: s }
        }
    }

    /// Saturating subtraction.
    pub fn fsub(self, other: Fx) -> (r: Fx)
        requires
            self.wf(),
            other.wf(),
        ensures
            r.raw == fx_sub_s(self.raw as int, other.raw as int),
            r.wf(),
    {
        let s: i128 = self.raw - other.raw;
        if s > FX_MAX_RAW {
            Fx { raw: FX_MAX_RAW }
        } else if s < -FX_MAX_RAW {
            Fx { raw: -FX_MAX_RAW }
        } else {
            Fx { raw: s }
        }
    }

    /// Negation.
    pub fn fneg(self) -> (r: Fx)
        requires
            self.wf(),
        ensures
            r.raw == fx_neg_s(self.raw as int),
            r.wf(),
    {
        Fx { raw: -self.raw }
    }

    /// Absolute value.
    pub fn fabs(self) -> (r: Fx)
        requires
            self.wf(),
        ensures
            r.raw == iabs(self.raw as int),
            r.wf(),
    {
        if self.raw < 0 {
            Fx { raw: -self.raw }
        } else {
            self
        }
    }

    /// Saturating multiplication, truncating toward zero at the grid.
    pub fn fmul(self, other: Fx) -> (r: Fx)
        requires
            self.wf(),
            other.wf(),
        ensures
            r.raw == fx_mul_s(self.raw as int, other.raw as int),
            r.wf(),
    {
        let pa = mag(self.raw);
        let pb = mag(other.raw);
        assert(pa * pb <= (FX_MAX_RAW as u128) * (FX_MAX_RAW as u128)) by (nonlinear_arith)
            requires
                pa <= FX_MAX_RAW as u128,
                pb <= FX_MAX_RAW as u128,
        ;
        assert((FX_MAX_RAW as u128) * (FX_MAX_RAW as u128) < u128::MAX) by (nonlinear_arith);
        let p: u128 = pa * pb;
        let q: u128 = p / (FX_SCALE as u128);
        let negative = (self.raw < 0) != (other.raw < 0);
        let raw = signed_sat(q, negative);
        Fx { raw }
    }

    /// Saturating division, truncating toward zero at the grid.
    pub fn fdiv(self, other: Fx) -> (r: Fx)
        requires
            self.wf(),
            other.wf(),
            other.raw != 0,
        ensures
            r.raw == fx_div_s(self.raw as int, other.raw as int),
            r.wf(),
    {
        let pa = mag(self.raw);
        let pb = mag(other.raw);
        assert(pa * (FX_SCALE as u128) <= (FX_MAX_RAW as u128) * (FX_SCALE as u128))
            by (nonlinear_arith)
            requires
                pa <= FX_MAX_RAW as u128,
        ;
        assert((FX_MAX_RAW as u128) * (FX_SCALE as u128) < u128::MAX) by (nonlinear_arith);
        let p: u128 = pa * (FX_SCALE as u128);
        let q: u128 = p / pb;
        let negative = (self.raw < 0) != (other.raw < 0);
        let raw = signed_sat(q, negative);
        Fx { raw }
    }

    /// Floor square root of a nonnegative value, at the grid.
    pub fn fsqrt(self) -> (r: Fx)
        requires
            self.wf(),
            self.raw >= 0,
        ensures
            r.raw == fx_sqrt_s(self.raw as int),
            r.wf(),
            r.raw >= 0,
    {
        let pa = self.raw as u128;
        assert(pa * (FX_SCALE as u128) <= (FX_MAX_RAW as u128) * (FX_SCALE as u128))
            by (nonlinear_arith)
            requires
                pa <= FX_MAX_RAW as u128,
        ;
        assert((FX_MAX_RAW as u128) * (FX_SCALE as u128) < 309485009821345068724781056) by (nonlinear_arith);
        let n: u128 = pa * (FX_SCALE as u128);
        let s = isqrt_u(n);
        proof {
            lemma_sqrt_floor_unique(n as int, s as int);
            assert(s as int <= sqrt_floor(n as int) + 0);
            assert((s as int) * (s as int) <= n as int);
            assert(s as u128 <= 17592186044416u128) by (nonlinear_arith)
                requires
                    (s as int) * (s as int) <= n as int,
                    n < 309485009821345068724781056,
            ;
        }
        Fx { raw: s as i128 }
    }

    /// Truncate toward zero onto a coarser grid of the given step.
    pub fn fquant(self, step: i128) -> (r: Fx)
        requires
            self.wf(),
            0 < step <= FX_MAX_RAW,
        ensures
            r.raw == fx_quant_s(self.raw as int, step as int),
            r.wf(),
    {
        let pa = mag(self.raw);
        proof {
            vstd::arithmetic::div_mod::lemma_fundamental_div_mod(pa as int, step as int);
            vstd::arithmetic::div_mod::lemma_mod_bound(pa as int, step as int);
            vstd::arithmetic::div_mod::lemma_div_pos_is_pos(pa as int, step as int);
            vstd::arithmetic::mul::lemma_mul_is_commutative(step as int, (pa as int) / (step as int));
            assert(((pa as int) / (step as int)) * (step as int) <= pa as int);
        }
        let q: u128 = (pa / (step as u128)) * (step as u128);
        if self.raw < 0 {
            Fx { raw: -(q as i128) }
        } else {
            Fx { raw: q as i128 }
        }
    }

    /// Nearest whole number of units, ties away from zero, as an `i64`.
    pub fn round_units(self) -> (r: i64)
        requires
            self.wf(),
        ensures
            r as int == fx_round_s(self.raw as int),
    {
        let pa = mag(self.raw);
        let q: u128 = (pa + FX_HALF as u128) / (FX_SCALE as u128);
        proof {
            assert((FX_SCALE as int) * 1099511627776int == 18446744073709551616int)
                by (nonlinear_arith);
            vstd::arithmetic::div_mod::lemma_multiply_divide_lt((pa + FX_HALF as u128) as int,
                FX_SCALE as int, 1099511627776int);
            vstd::arithmetic::div_mod::lemma_div_pos_is_pos((pa + FX_HALF as u128) as int,
                FX_SCALE as int);
        }
        if self.raw < 0 {
            -(q as i64)
        } else {
            q as i64
        }
    }
}


/// Truncating onto a coarser grid keeps a raw within the band.
pub proof fn lemma_quant_wf(a: int, step: int)
    requires
        fx_wf(a),
        0 < step,
    ensures
        fx_wf(fx_quant_s(a, step)),
        iabs(fx_quant_s(a, step)) <= iabs(a),
{
    let p = iabs(a);
    vstd::arithmetic::div_mod::lemma_fundamental_div_mod(p, step);
    vstd::arithmetic::div_mod::lemma_mod_bound(p, step);
    vstd::arithmetic::div_mod::lemma_div_pos_is_pos(p, step);
    vstd::arithmetic::mul::lemma_mul_is_commutative(step, p / step);
    assert((p / step) * step <= p);
}

/// The floor square root of an in-band raw is in band.
pub proof fn lemma_fx_sqrt_wf(a: int)
    requires
        0 <= a <= FX_MAX_RAW,
    ensures
        0 <= fx_sqrt_s(a) <= FX_MAX_RAW,
{
    let n = a * (FX_SCALE as int);
    assert(a * (FX_SCALE as int) >= 0) by (nonlinear_arith)
        requires
            a >= 0,
            (FX_SCALE as int) > 0,
    ;
    lemma_sqrt_floor_bounds(n);
    let r = sqrt_floor(n);
    assert(r <= FX_MAX_RAW) by (nonlinear_arith)
        requires
            r >= 0,
            r * r <= a * (FX_SCALE as int),
            0 <= a <= FX_MAX_RAW,
            (FX_SCALE as int) == 16777216,
            (FX_MAX_RAW as int) == 9223372036854775807,
    ;
}

} // verus!
