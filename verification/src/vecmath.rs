//! Fixed-point vectors and quaternions.
//!
//! Each executable operation is pinned to a spec-level counterpart that
//! states the exact result component by component over the saturating
//! fixed-point arithmetic of [`crate::fixed`].

use vstd::prelude::*;

use crate::fixed::{fx_add, fx_mul, fx_neg, fx_sub, Fixed, FX_ONE};

verus! {

/// Spec-level saturating addition on `Fixed`.
pub open spec fn sfx_add(a: Fixed, b: Fixed) -> Fixed {
    Fixed { raw: fx_add(a.raw as int, b.raw as int) as i32 }
}

/// Spec-level saturating subtraction on `Fixed`.
pub open spec fn sfx_sub(a: Fixed, b: Fixed) -> Fixed {
    Fixed { raw: fx_sub(a.raw as int, b.raw as int) as i32 }
}

/// Spec-level saturating multiplication on `Fixed`.
pub open spec fn sfx_mul(a: Fixed, b: Fixed) -> Fixed {
    Fixed { raw: fx_mul(a.raw as int, b.raw as int) as i32 }
}

/// Spec-level saturating negation on `Fixed`.
pub open spec fn sfx_neg(a: Fixed) -> Fixed {
    Fixed { raw: fx_neg(a.raw as int) as i32 }
}

/// A three-component fixed-point vector.
#[derive(Clone, Copy, Debug, PartialEq, Eq, Structural)]
pub struct FxVec3 {
    pub x: Fixed,
    pub y: Fixed,
    pub z: Fixed,
}

/// A two-component fixed-point vector (texture coordinates).
#[derive(Clone, Copy, Debug, PartialEq, Eq, Structural)]
pub struct FxVec2 {
    pub x: Fixed,
    pub y: Fixed,
}

/// A four-component fixed-point vector (joint weights, raw rotations).
#[derive(Clone, Copy, Debug, PartialEq, Eq, Structural)]
pub struct FxVec4 {
    pub x: Fixed,
    pub y: Fixed,
    pub z: Fixed,
    pub w: Fixed,
}

/// Four joint indices attached to one vertex.
#[derive(Clone, Copy, Debug, PartialEq, Eq, Structural)]
pub struct JointIndices {
    pub x: u32,
    pub y: u32,
    pub z: u32,
    pub w: u32,
}

/// Componentwise vector sum.
pub open spec fn spec_v3_add(a: FxVec3, b: FxVec3) -> FxVec3 {
    FxVec3 { x: sfx_add(a.x, b.x), y: sfx_add(a.y, b.y), z: sfx_add(a.z, b.z) }
}

/// Componentwise vector difference.
pub open spec fn spec_v3_sub(a: FxVec3, b: FxVec3) -> FxVec3 {
    FxVec3 { x: sfx_sub(a.x, b.x), y: sfx_sub(a.y, b.y), z: sfx_sub(a.z, b.z) }
}

/// Componentwise negation.
pub open spec fn spec_v3_neg(a: FxVec3) -> FxVec3 {
    FxVec3 { x: sfx_neg(a.x), y: sfx_neg(a.y), z: sfx_neg(a.z) }
}

/// Vector scaled by a scalar.
pub open spec fn spec_v3_scale(a: FxVec3, s: Fixed) -> FxVec3 {
    FxVec3 { x: sfx_mul(a.x, s), y: sfx_mul(a.y, s), z: sfx_mul(a.z, s) }
}

/// Cross product, each component the usual difference of products.
pub open spec fn spec_v3_cross(a: FxVec3, b: FxVec3) -> FxVec3 {
    FxVec3 {
        x: sfx_sub(sfx_mul(a.y, b.z), sfx_mul(a.z, b.y)),
        y: sfx_sub(sfx_mul(a.z, b.x), sfx_mul(a.x, b.z)),
        z: sfx_sub(sfx_mul(a.x, b.y), sfx_mul(a.y, b.x)),
    }
}

impl FxVec3 {
    /// The zero vector.
    pub fn zero() -> (r: FxVec3)
        ensures
            r.x.raw == 0 && r.y.raw == 0 && r.z.raw == 0,
    {
        FxVec3 { x: Fixed::zero(), y: Fixed::zero(), z: Fixed::zero() }
    }

    /// Build a vector from three scalars.
    pub fn new(x: Fixed, y: Fixed, z: Fixed) -> (r: FxVec3)
        ensures
            r == (FxVec3 { x, y, z }),
    {
        FxVec3 { x, y, z }
    }

    /// Componentwise sum.
    pub fn add(self, o: FxVec3) -> (r: FxVec3)
        ensures
            r == spec_v3_add(self, o),
    {
        FxVec3 { x: self.x.add(o.x), y: self.y.add(o.y), z: self.z.add(o.z) }
    }

    /// Componentwise difference.
    pub fn sub(self, o: FxVec3) -> (r: FxVec3)
        ensures
            r == spec_v3_sub(self, o),
    {
        FxVec3 { x: self.x.sub(o.x), y: self.y.sub(o.y), z: self.z.sub(o.z) }
    }

    /// Componentwise negation.
    pub fn neg(self) -> (r: FxVec3)
        ensures
            r == spec_v3_neg(self),
    {
        FxVec3 { x: self.x.neg(), y: self.y.neg(), z: self.z.neg() }
    }

    /// Scale by a scalar.
    pub fn scale(self, s: Fixed) -> (r: FxVec3)
        ensures
            r == spec_v3_scale(self, s),
    {
        FxVec3 { x: self.x.mul(s), y: self.y.mul(s), z: self.z.mul(s) }
    }

    /// Cross product.
    pub fn cross(self, o: FxVec3) -> (r: FxVec3)
        ensures
            r == spec_v3_cross(self, o),
    {
        FxVec3 {
            x: self.y.mul(o.z).sub(self.z.mul(o.y)),
            y: self.z.mul(o.x).sub(self.x.mul(o.z)),
            z: self.x.mul(o.y).sub(self.y.mul(o.x)),
        }
    }
}

/// Dot product of two vectors.
pub open spec fn spec_v3_dot(a: FxVec3, b: FxVec3) -> Fixed {
    sfx_add(sfx_add(sfx_mul(a.x, b.x), sfx_mul(a.y, b.y)), sfx_mul(a.z, b.z))
}

/// Squared distance between two points.
pub open spec fn spec_v3_dist2(a: FxVec3, b: FxVec3) -> Fixed {
    let d = spec_v3_sub(a, b);
    spec_v3_dot(d, d)
}

impl FxVec3 {
    /// Dot product.
    pub fn dot(self, o: FxVec3) -> (r: Fixed)
        ensures
            r == spec_v3_dot(self, o),
    {
        self.x.mul(o.x).add(self.y.mul(o.y)).add(self.z.mul(o.z))
    }

    /// Squared distance to another point (saturating).
    pub fn dist2(self, o: FxVec3) -> (r: Fixed)
        ensures
            r == spec_v3_dist2(self, o),
            r.raw >= 0,
    {
        let d = self.sub(o);
        proof {
            crate::fixed::lemma_fx_square_nonneg(d.x.raw as int);
            crate::fixed::lemma_fx_square_nonneg(d.y.raw as int);
            crate::fixed::lemma_fx_square_nonneg(d.z.raw as int);
        }
        d.dot(d)
    }
}

/// A fixed-point quaternion; `x`, `y`, `z` form the vector part.
#[derive(Clone, Copy, Debug, PartialEq, Eq, Structural)]
pub struct FxQuat {
    pub x: Fixed,
    pub y: Fixed,
    pub z: Fixed,
    pub w: Fixed,
}

/// The identity rotation.
pub open spec fn spec_quat_identity() -> FxQuat {
    FxQuat { x: Fixed { raw: 0 }, y: Fixed { raw: 0 }, z: Fixed { raw: 0 }, w: Fixed { raw: FX_ONE } }
}

/// Hamilton product; `a * b` applies `b` first, then `a`.
pub open spec fn spec_q_mul(a: FxQuat, b: FxQuat) -> FxQuat {
    FxQuat {
        x: sfx_sub(
            sfx_add(sfx_add(sfx_mul(a.w, b.x), sfx_mul(a.x, b.w)), sfx_mul(a.y, b.z)),
            sfx_mul(a.z, b.y),
        ),
        y: sfx_add(
            sfx_add(sfx_sub(sfx_mul(a.w, b.y), sfx_mul(a.x, b.z)), sfx_mul(a.y, b.w)),
            sfx_mul(a.z, b.x),
        ),
        z: sfx_add(
            sfx_sub(sfx_add(sfx_mul(a.w, b.z), sfx_mul(a.x, b.y)), sfx_mul(a.y, b.x)),
            sfx_mul(a.z, b.w),
        ),
        w: sfx_sub(
            sfx_sub(sfx_sub(sfx_mul(a.w, b.w), sfx_mul(a.x, b.x)), sfx_mul(a.y, b.y)),
            sfx_mul(a.z, b.z),
        ),
    }
}

/// The conjugate rotation (inverse for unit quaternions).
pub open spec fn spec_q_conjugate(a: FxQuat) -> FxQuat {
    FxQuat { x: sfx_neg(a.x), y: sfx_neg(a.y), z: sfx_neg(a.z), w: a.w }
}

/// The vector part of a quaternion.
pub open spec fn spec_q_vec(a: FxQuat) -> FxVec3 {
    FxVec3 { x: a.x, y: a.y, z: a.z }
}

/// Rotation of a vector: `v + 2 * (q.xyz x (q.xyz x v + w * v))`.
pub open spec fn spec_q_rotate(q: FxQuat, v: FxVec3) -> FxVec3 {
    let t = spec_v3_add(spec_v3_cross(spec_q_vec(q), v), spec_v3_scale(v, q.w));
    spec_v3_add(v, spec_v3_scale(spec_v3_cross(spec_q_vec(q), t), Fixed { raw: 131072 }))
}

impl FxQuat {
    /// The identity rotation.
    pub fn identity() -> (r: FxQuat)
        ensures
            r == spec_quat_identity(),
    {
        FxQuat { x: Fixed::zero(), y: Fixed::zero(), z: Fixed::zero(), w: Fixed::one() }
    }

    /// Build a quaternion from its components.
    pub fn new(x: Fixed, y: Fixed, z: Fixed, w: Fixed) -> (r: FxQuat)
        ensures
            r == (FxQuat { x, y, z, w }),
    {
        FxQuat { x, y, z, w }
    }

    /// Hamilton product.
    pub fn mul(self, b: FxQuat) -> (r: FxQuat)
        ensures
            r == spec_q_mul(self, b),
    {
        let a = self;
        FxQuat {
            x: a.w.mul(b.x).add(a.x.mul(b.w)).add(a.y.mul(b.z)).sub(a.z.mul(b.y)),
            y: a.w.mul(b.y).sub(a.x.mul(b.z)).add(a.y.mul(b.w)).add(a.z.mul(b.x)),
            z: a.w.mul(b.z).add(a.x.mul(b.y)).sub(a.y.mul(b.x)).add(a.z.mul(b.w)),
            w: a.w.mul(b.w).sub(a.x.mul(b.x)).sub(a.y.mul(b.y)).sub(a.z.mul(b.z)),
        }
    }

    /// The conjugate rotation.
    pub fn conjugate(self) -> (r: FxQuat)
        ensures
            r == spec_q_conjugate(self),
    {
        FxQuat { x: self.x.neg(), y: self.y.neg(), z: self.z.neg(), w: self.w }
    }

    /// Rotate a vector by this quaternion.
    pub fn rotate(self, v: FxVec3) -> (r: FxVec3)
        ensures
            r == spec_q_rotate(self, v),
    {
        let qv = FxVec3 { x: self.x, y: self.y, z: self.z };
        let t = qv.cross(v).add(v.scale(self.w));
        v.add(qv.cross(t).scale(Fixed::from_raw(131072)))
    }
}

/// Scalar linear interpolation: `a + (b - a) * t`.
pub open spec fn spec_fx_lerp(a: Fixed, b: Fixed, t: Fixed) -> Fixed {
    sfx_add(a, sfx_mul(sfx_sub(b, a), t))
}

/// The four-component dot product of two quaternions.
pub open spec fn spec_q_dot(a: FxQuat, b: FxQuat) -> Fixed {
    sfx_add(
        sfx_add(sfx_mul(a.x, b.x), sfx_mul(a.y, b.y)),
        sfx_add(sfx_mul(a.z, b.z), sfx_mul(a.w, b.w)),
    )
}

/// Componentwise negation of a quaternion (the same rotation).
pub open spec fn spec_q_neg(a: FxQuat) -> FxQuat {
    FxQuat { x: sfx_neg(a.x), y: sfx_neg(a.y), z: sfx_neg(a.z), w: sfx_neg(a.w) }
}

/// Scale a quaternion back to unit length; a degenerate (zero-length)
/// input yields the identity rotation.
pub open spec fn spec_q_normalize(a: FxQuat) -> FxQuat {
    let n2 = spec_q_dot(a, a);
    if n2.raw <= 0 {
        spec_quat_identity()
    } else {
        let len = Fixed { raw: crate::fixed::spec_isqrt(n2.raw as int * 65536) as i32 };
        if len.raw == 0 {
            spec_quat_identity()
        } else {
            FxQuat {
                x: Fixed { raw: crate::fixed::fx_div(a.x.raw as int, len.raw as int) as i32 },
                y: Fixed { raw: crate::fixed::fx_div(a.y.raw as int, len.raw as int) as i32 },
                z: Fixed { raw: crate::fixed::fx_div(a.z.raw as int, len.raw as int) as i32 },
                w: Fixed { raw: crate::fixed::fx_div(a.w.raw as int, len.raw as int) as i32 },
            }
        }
    }
}

/// Normalized componentwise blend of two rotations along the shorter
/// arc: the sign flip keeps the blend from swinging the long way
/// around, and the renormalization returns it to unit length.
pub open spec fn spec_q_blend(a: FxQuat, b: FxQuat, t: Fixed) -> FxQuat {
    let b2 = if spec_q_dot(a, b).raw < 0 {
        spec_q_neg(b)
    } else {
        b
    };
    spec_q_normalize(
        FxQuat {
            x: spec_fx_lerp(a.x, b2.x, t),
            y: spec_fx_lerp(a.y, b2.y, t),
            z: spec_fx_lerp(a.z, b2.z, t),
            w: spec_fx_lerp(a.w, b2.w, t),
        },
    )
}

impl FxQuat {
    /// The four-component dot product.
    pub fn dot(self, b: FxQuat) -> (r: Fixed)
        ensures
            r == spec_q_dot(self, b),
    {
        self.x.mul(b.x).add(self.y.mul(b.y)).add(self.z.mul(b.z).add(self.w.mul(b.w)))
    }

    /// Componentwise negation (the same rotation).
    pub fn negate(self) -> (r: FxQuat)
        ensures
            r == spec_q_neg(self),
    {
        FxQuat { x: self.x.neg(), y: self.y.neg(), z: self.z.neg(), w: self.w.neg() }
    }

    /// Scale back to unit length; a degenerate input yields the
    /// identity rotation.
    pub fn normalize(self) -> (r: FxQuat)
        ensures
            r == spec_q_normalize(self),
    {
        let n2 = self.dot(self);
        proof {
            crate::fixed::lemma_fx_square_nonneg(self.x.raw as int);
            crate::fixed::lemma_fx_square_nonneg(self.y.raw as int);
            crate::fixed::lemma_fx_square_nonneg(self.z.raw as int);
            crate::fixed::lemma_fx_square_nonneg(self.w.raw as int);
        }
        if n2.raw <= 0 {
            FxQuat::identity()
        } else {
            let len = n2.sqrt();
            if len.raw == 0 {
                FxQuat::identity()
            } else {
                FxQuat {
                    x: self.x.div(len),
                    y: self.y.div(len),
                    z: self.z.div(len),
                    w: self.w.div(len),
                }
            }
        }
    }

    /// Normalized blend along the shorter arc.
    pub fn blend(self, b: FxQuat, t: Fixed) -> (r: FxQuat)
        ensures
            r == spec_q_blend(self, b, t),
    {
        let b2 = if self.dot(b).raw < 0 {
            b.negate()
        } else {
            b
        };
        FxQuat {
            x: self.x.add(b2.x.sub(self.x).mul(t)),
            y: self.y.add(b2.y.sub(self.y).mul(t)),
            z: self.z.add(b2.z.sub(self.z).mul(t)),
            w: self.w.add(b2.w.sub(self.w).mul(t)),
        }.normalize()
    }
}

/// Rotating by the identity quaternion returns the vector unchanged.
pub proof fn lemma_q_rotate_identity(v: FxVec3)
    ensures
        spec_q_rotate(spec_quat_identity(), v) == v,
{
    crate::fixed::lemma_fx_mul_zero(v.x.raw as int);
    crate::fixed::lemma_fx_mul_zero(v.y.raw as int);
    crate::fixed::lemma_fx_mul_zero(v.z.raw as int);
    let t = spec_v3_add(
        spec_v3_cross(spec_q_vec(spec_quat_identity()), v),
        spec_v3_scale(v, spec_quat_identity().w),
    );
    crate::fixed::lemma_fx_mul_zero(t.x.raw as int);
    crate::fixed::lemma_fx_mul_zero(t.y.raw as int);
    crate::fixed::lemma_fx_mul_zero(t.z.raw as int);
    crate::fixed::lemma_fx_add_zero(v.x.raw as int);
    crate::fixed::lemma_fx_add_zero(v.y.raw as int);
    crate::fixed::lemma_fx_add_zero(v.z.raw as int);
}

/// Multiplying by the identity quaternion on either side is exact.
pub proof fn lemma_q_mul_identity(q: FxQuat)
    ensures
        spec_q_mul(q, spec_quat_identity()) == q,
        spec_q_mul(spec_quat_identity(), q) == q,
{
    crate::fixed::lemma_fx_mul_one(q.x.raw as int);
    crate::fixed::lemma_fx_mul_one(q.y.raw as int);
    crate::fixed::lemma_fx_mul_one(q.z.raw as int);
    crate::fixed::lemma_fx_mul_one(q.w.raw as int);
    crate::fixed::lemma_fx_mul_zero(q.x.raw as int);
    crate::fixed::lemma_fx_mul_zero(q.y.raw as int);
    crate::fixed::lemma_fx_mul_zero(q.z.raw as int);
    crate::fixed::lemma_fx_mul_zero(q.w.raw as int);
    crate::fixed::lemma_fx_add_zero(q.x.raw as int);
    crate::fixed::lemma_fx_add_zero(q.y.raw as int);
    crate::fixed::lemma_fx_add_zero(q.z.raw as int);
    crate::fixed::lemma_fx_add_zero(q.w.raw as int);
}

/// Rotating the zero vector gives the zero vector.
pub proof fn lemma_q_rotate_zero(q: FxQuat)
    ensures
        spec_q_rotate(q, FxVec3 { x: Fixed { raw: 0 }, y: Fixed { raw: 0 }, z: Fixed { raw: 0 } })
            == (FxVec3 { x: Fixed { raw: 0 }, y: Fixed { raw: 0 }, z: Fixed { raw: 0 } }),
{
    let z = FxVec3 { x: Fixed { raw: 0 }, y: Fixed { raw: 0 }, z: Fixed { raw: 0 } };
    crate::fixed::lemma_fx_mul_zero(q.x.raw as int);
    crate::fixed::lemma_fx_mul_zero(q.y.raw as int);
    crate::fixed::lemma_fx_mul_zero(q.z.raw as int);
    crate::fixed::lemma_fx_mul_zero(q.w.raw as int);
    let t = spec_v3_add(spec_v3_cross(spec_q_vec(q), z), spec_v3_scale(z, q.w));
    assert(t == z);
    crate::fixed::lemma_fx_mul_zero(t.x.raw as int);
    crate::fixed::lemma_fx_mul_zero(t.y.raw as int);
    crate::fixed::lemma_fx_mul_zero(t.z.raw as int);
}

} // verus!
