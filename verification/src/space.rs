use vstd::prelude::*;
use crate::fx::{Fx, fx_add_s, fx_sub_s, fx_mul_s, fx_sqrt_s, iabs};

verus! {

/// A point or displacement in 3D space, one fixed-point coordinate per axis.
#[derive(Clone, Copy, Debug, PartialEq, Eq, Structural)]
pub struct Space3D {
    pub x: Fx,
    pub y: Fx,
    pub z: Fx,
}

/// Build a vector from three raws.
pub open spec fn v3(xr: int, yr: int, zr: int) -> Space3D {
    Space3D { x: Fx { raw: xr as i128 }, y: Fx { raw: yr as i128 }, z: Fx { raw: zr as i128 } }
}

/// Componentwise sum.
pub open spec fn vadd_s(a: Space3D, b: Space3D) -> Space3D {
    v3(
        fx_add_s(a.x.raw as int, b.x.raw as int),
        fx_add_s(a.y.raw as int, b.y.raw as int),
        fx_add_s(a.z.raw as int, b.z.raw as int),
    )
}

/// Componentwise difference.
pub open spec fn vsub_s(a: Space3D, b: Space3D) -> Space3D {
    v3(
        fx_sub_s(a.x.raw as int, b.x.raw as int),
        fx_sub_s(a.y.raw as int, b.y.raw as int),
        fx_sub_s(a.z.raw as int, b.z.raw as int),
    )
}

/// Componentwise scaling by a fixed-point factor.
pub open spec fn vscale_s(a: Space3D, k: int) -> Space3D {
    v3(
        fx_mul_s(a.x.raw as int, k),
        fx_mul_s(a.y.raw as int, k),
        fx_mul_s(a.z.raw as int, k),
    )
}

/// Squared euclidean length, accumulated left to right.
pub open spec fn length_sq_s(a: Space3D) -> int {
    fx_add_s(
        fx_add_s(
            fx_mul_s(a.x.raw as int, a.x.raw as int),
            fx_mul_s(a.y.raw as int, a.y.raw as int),
        ),
        fx_mul_s(a.z.raw as int, a.z.raw as int),
    )
}

/// Dot product.
pub open spec fn dot_s(a: Space3D, b: Space3D) -> int {
    fx_add_s(
        fx_add_s(
            fx_mul_s(a.x.raw as int, b.x.raw as int),
            fx_mul_s(a.y.raw as int, b.y.raw as int),
        ),
        fx_mul_s(a.z.raw as int, b.z.raw as int),
    )
}

/// Cross product.
pub open spec fn cross_s(a: Space3D, b: Space3D) -> Space3D {
    v3(
        fx_sub_s(
            fx_mul_s(a.y.raw as int, b.z.raw as int),
            fx_mul_s(a.z.raw as int, b.y.raw as int),
        ),
        fx_sub_s(
            fx_mul_s(a.z.raw as int, b.x.raw as int),
            fx_mul_s(a.x.raw as int, b.z.raw as int),
        ),
        fx_sub_s(
            fx_mul_s(a.x.raw as int, b.y.raw as int),
            fx_mul_s(a.y.raw as int, b.x.raw as int),
        ),
    )
}

/// Squared 2D (x,z) distance between two points.
pub open spec fn distance_2d_sq_s(a: Space3D, b: Space3D) -> int {
    let dx = fx_sub_s(a.x.raw as int, b.x.raw as int);
    let dz = fx_sub_s(a.z.raw as int, b.z.raw as int);
    fx_add_s(fx_mul_s(dx, dx), fx_mul_s(dz, dz))
}

/// A square on the grid is never negative.
pub proof fn lemma_fx_square_nonneg(a: int)
    ensures
        fx_mul_s(a, a) >= 0,
{
    assert(iabs(a) * iabs(a) >= 0) by (nonlinear_arith)
        requires
            iabs(a) >= 0,
    ;
    vstd::arithmetic::div_mod::lemma_div_pos_is_pos(iabs(a) * iabs(a), crate::fx::FX_SCALE as int);
}

/// A squared length is never negative.
pub proof fn lemma_length_sq_nonneg(a: Space3D)
    ensures
        length_sq_s(a) >= 0,
{
    lemma_fx_square_nonneg(a.x.raw as int);
    lemma_fx_square_nonneg(a.y.raw as int);
    lemma_fx_square_nonneg(a.z.raw as int);
}

/// A squared 2D distance is never negative.
pub proof fn lemma_distance_2d_sq_nonneg(a: Space3D, b: Space3D)
    ensures
        distance_2d_sq_s(a, b) >= 0,
{
    let dx = fx_sub_s(a.x.raw as int, b.x.raw as int);
    let dz = fx_sub_s(a.z.raw as int, b.z.raw as int);
    lemma_fx_square_nonneg(dx);
    lemma_fx_square_nonneg(dz);
}

impl Space3D {
    pub open spec fn wf(self) -> bool {
        self.x.wf() && self.y.wf() && self.z.wf()
    }

    pub fn new(x: Fx, y: Fx, z: Fx) -> (r: Space3D)
        ensures
            r == (Space3D { x, y, z }),
    {
        Space3D { x, y, z }
    }

    /// The origin / zero displacement.
    pub fn zero() -> (r: Space3D)
        ensures
            r == v3(0, 0, 0),
            r.wf(),
    {
        Space3D { x: Fx { raw: 0 }, y: Fx { raw: 0 }, z: Fx { raw: 0 } }
    }

    pub fn vadd(self, other: Space3D) -> (r: Space3D)
        requires
            self.wf(),
            other.wf(),
        ensures
            r == vadd_s(self, other),
            r.wf(),
    {
        Space3D { x: self.x.fadd(other.x), y: self.y.fadd(other.y), z: self.z.fadd(other.z) }
    }

    pub fn vsub(self, other: Space3D) -> (r: Space3D)
        requires
            self.wf(),
            other.wf(),
        ensures
            r == vsub_s(self, other),
            r.wf(),
    {
        Space3D { x: self.x.fsub(other.x), y: self.y.fsub(other.y), z: self.z.fsub(other.z) }
    }

    pub fn vscale(self, k: Fx) -> (r: Space3D)
        requires
            self.wf(),
            k.wf(),
        ensures
            r == vscale_s(self, k.raw as int),
            r.wf(),
    {
        Space3D { x: self.x.fmul(k), y: self.y.fmul(k), z: self.z.fmul(k) }
    }

    pub fn length_sq(self) -> (r: Fx)
        requires
            self.wf(),
        ensures
            r.raw == length_sq_s(self),
            r.wf(),
            r.raw >= 0,
    {
        proof {
            lemma_length_sq_nonneg(self);
        }
        self.x.fmul(self.x).fadd(self.y.fmul(self.y)).fadd(self.z.fmul(self.z))
    }

    pub fn length(self) -> (r: Fx)
        requires
            self.wf(),
        ensures
            r.raw == fx_sqrt_s(length_sq_s(self)),
            r.wf(),
            r.raw >= 0,
    {
        self.length_sq().fsqrt()
    }

    pub fn dot(self, other: Space3D) -> (r: Fx)
        requires
            self.wf(),
            other.wf(),
        ensures
            r.raw == dot_s(self, other),
            r.wf(),
    {
        self.x.fmul(other.x).fadd(self.y.fmul(other.y)).fadd(self.z.fmul(other.z))
    }

    pub fn cross(self, other: Space3D) -> (r: Space3D)
        requires
            self.wf(),
            other.wf(),
        ensures
            r == cross_s(self, other),
            r.wf(),
    {
        Space3D {
            x: self.y.fmul(other.z).fsub(self.z.fmul(other.y)),
            y: self.z.fmul(other.x).fsub(self.x.fmul(other.z)),
            z: self.x.fmul(other.y).fsub(self.y.fmul(other.x)),
        }
    }

    pub fn distance_2d_sq(self, other: Space3D) -> (r: Fx)
        requires
            self.wf(),
            other.wf(),
        ensures
            r.raw == distance_2d_sq_s(self, other),
            r.wf(),
            r.raw >= 0,
    {
        proof {
            lemma_distance_2d_sq_nonneg(self, other);
        }
        let dx = self.x.fsub(other.x);
        let dz = self.z.fsub(other.z);
        dx.fmul(dx).fadd(dz.fmul(dz))
    }

    pub fn distance_2d(self, other: Space3D) -> (r: Fx)
        requires
            self.wf(),
            other.wf(),
        ensures
            r.raw == fx_sqrt_s(distance_2d_sq_s(self, other)),
            r.wf(),
            r.raw >= 0,
    {
        self.distance_2d_sq(other).fsqrt()
    }
}

impl Default for Space3D {
    /// The zero vector.
    fn default() -> (r: Space3D)
        ensures
            r == v3(0, 0, 0),
    {
        Space3D { x: Fx { raw: 0 }, y: Fx { raw: 0 }, z: Fx { raw: 0 } }
    }
}

} // verus!
