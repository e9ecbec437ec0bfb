//! Similarity transforms: translation + uniform scale + rotation.
//!
//! A `Similarity` is the node-transform building block: cheaper to
//! compose than a full 4x4 matrix.  Composition applies the right-hand
//! transform in the left-hand transform's space.

use vstd::prelude::*;

use crate::fixed::{fx_div, Fixed, FX_ONE};
use crate::vecmath::{
    spec_q_conjugate, spec_q_mul, spec_q_rotate, spec_quat_identity, spec_v3_add, spec_v3_neg,
    spec_v3_scale, sfx_add, sfx_mul, sfx_sub, FxQuat, FxVec3,
};

verus! {

/// A rigid transform with one uniform scale factor.
#[derive(Clone, Copy, Debug, PartialEq, Eq, Structural)]
pub struct Similarity {
    pub translation: FxVec3,
    pub scale: Fixed,
    pub rotation: FxQuat,
}

/// The identity transform.
pub open spec fn spec_identity() -> Similarity {
    Similarity {
        translation: FxVec3 { x: Fixed { raw: 0 }, y: Fixed { raw: 0 }, z: Fixed { raw: 0 } },
        scale: Fixed { raw: FX_ONE },
        rotation: spec_quat_identity(),
    }
}

/// Where a point lands under a transform: `t + R(s * v)`.
pub open spec fn spec_apply(s: Similarity, v: FxVec3) -> FxVec3 {
    spec_v3_add(s.translation, spec_q_rotate(s.rotation, spec_v3_scale(v, s.scale)))
}

/// Composition: `a.compose(b)` applies `b` in `a`'s space, so its
/// translation is `b`'s translation carried through `a`.
pub open spec fn spec_compose(a: Similarity, b: Similarity) -> Similarity {
    Similarity {
        translation: spec_apply(a, b.translation),
        scale: sfx_mul(a.scale, b.scale),
        rotation: spec_q_mul(a.rotation, b.rotation),
    }
}

/// The inverse transform: undo the rotation, undo the scale, and move
/// the origin back.
pub open spec fn spec_inverse(s: Similarity) -> Similarity {
    let inv_scale = Fixed { raw: fx_div(FX_ONE as int, s.scale.raw as int) as i32 };
    Similarity {
        translation: spec_v3_scale(
            spec_q_rotate(spec_q_conjugate(s.rotation), spec_v3_neg(s.translation)),
            inv_scale,
        ),
        scale: inv_scale,
        rotation: spec_q_conjugate(s.rotation),
    }
}

impl Similarity {
    /// The identity transform.
    pub fn identity() -> (r: Similarity)
        ensures
            r == spec_identity(),
    {
        Similarity {
            translation: FxVec3::zero(),
            scale: Fixed::one(),
            rotation: FxQuat::identity(),
        }
    }

    /// Build a transform from its parts.
    pub fn new(translation: FxVec3, scale: Fixed, rotation: FxQuat) -> (r: Similarity)
        ensures
            r == (Similarity { translation, scale, rotation }),
    {
        Similarity { translation, scale, rotation }
    }

    /// Where a point lands under this transform.
    pub fn apply_to_point(&self, v: FxVec3) -> (r: FxVec3)
        ensures
            r == spec_apply(*self, v),
    {
        self.translation.add(self.rotation.rotate(v.scale(self.scale)))
    }

    /// Apply `child` in this transform's space.
    pub fn compose(&self, child: &Similarity) -> (r: Similarity)
        ensures
            r == spec_compose(*self, *child),
    {
        Similarity {
            translation: self.apply_to_point(child.translation),
            scale: self.scale.mul(child.scale),
            rotation: self.rotation.mul(child.rotation),
        }
    }

    /// The inverse transform.  A zero scale has no inverse and is
    /// excluded by contract.
    pub fn inverse(&self) -> (r: Similarity)
        requires
            self.scale.raw != 0,
        ensures
            r == spec_inverse(*self),
    {
        let inv_scale = Fixed::one().div(self.scale);
        Similarity {
            translation: self.rotation.conjugate().rotate(self.translation.neg()).scale(
                inv_scale,
            ),
            scale: inv_scale,
            rotation: self.rotation.conjugate(),
        }
    }
}

/// Tolerance, in raw 1/65536 units, under which the three scale
/// components of a node are considered uniform.
pub const SCALE_EPS: i32 = 1;

impl Similarity {
    /// Build a transform from glTF translation/rotation/scale parts.
    /// A similarity has one scale factor, so a non-uniform scale is
    /// approximated by its largest component; the second result is true
    /// exactly when that approximation lost information, so the caller
    /// can surface a diagnostic instead of rejecting the asset.
    pub fn new_from_gltf(translation: FxVec3, rotation: FxQuat, scale: FxVec3) -> (r: (
        Similarity,
        bool,
    ))
        ensures
            r.0.translation == translation,
            r.0.rotation == rotation,
            r.0.scale.raw == if scale.x.raw >= scale.y.raw && scale.x.raw >= scale.z.raw {
                scale.x.raw
            } else if scale.y.raw >= scale.z.raw {
                scale.y.raw
            } else {
                scale.z.raw
            },
            r.1 == !(-(SCALE_EPS as int) <= scale.x.raw - scale.y.raw <= SCALE_EPS as int
                && -(SCALE_EPS as int) <= scale.x.raw - scale.z.raw <= SCALE_EPS as int),
    {
        let dxy: i64 = scale.x.raw as i64 - scale.y.raw as i64;
        let dxz: i64 = scale.x.raw as i64 - scale.z.raw as i64;
        let uniform = -(SCALE_EPS as i64) <= dxy && dxy <= SCALE_EPS as i64
            && -(SCALE_EPS as i64) <= dxz && dxz <= SCALE_EPS as i64;
        let max_scale = scale.x.max(scale.y).max(scale.z);
        (Similarity { translation, scale: max_scale, rotation }, !uniform)
    }
}

/// The fixed-point length of a three-component column.
pub open spec fn spec_column_norm(a: Fixed, b: Fixed, c: Fixed) -> Fixed {
    let n2 = sfx_add(sfx_add(sfx_mul(a, a), sfx_mul(b, b)), sfx_mul(c, c));
    Fixed { raw: crate::fixed::spec_isqrt(n2.raw as int * 65536) as i32 }
}

/// One rotation-matrix entry normalized by its column's length.
pub open spec fn spec_rot_entry(v: Fixed, norm: Fixed) -> Fixed {
    if norm.raw == 0 {
        Fixed { raw: 0 }
    } else {
        Fixed { raw: crate::fixed::fx_div(v.raw as int, norm.raw as int) as i32 }
    }
}

/// The quaternion of a normalized rotation matrix (columns `x`, `y`,
/// `z` of the upper-left block), by the standard trace construction.
/// A degenerate block (zero divisor) falls back to the identity
/// rotation.
pub open spec fn spec_quat_from_rot(
    r00: Fixed,
    r01: Fixed,
    r02: Fixed,
    r10: Fixed,
    r11: Fixed,
    r12: Fixed,
    r20: Fixed,
    r21: Fixed,
    r22: Fixed,
) -> FxQuat {
    let one = Fixed { raw: 65536 };
    let quarter = Fixed { raw: 16384 };
    let two = Fixed { raw: 131072 };
    let trace = sfx_add(sfx_add(r00, r11), r22);
    if trace.raw > 0 {
        let s = sfx_mul(
            Fixed { raw: crate::fixed::spec_isqrt(sfx_add(trace, one).raw as int * 65536) as i32 },
            two,
        );
        if s.raw == 0 {
            spec_quat_identity()
        } else {
            FxQuat {
                x: Fixed { raw: crate::fixed::fx_div(sfx_sub(r21, r12).raw as int, s.raw as int) as i32 },
                y: Fixed { raw: crate::fixed::fx_div(sfx_sub(r02, r20).raw as int, s.raw as int) as i32 },
                z: Fixed { raw: crate::fixed::fx_div(sfx_sub(r10, r01).raw as int, s.raw as int) as i32 },
                w: sfx_mul(quarter, s),
            }
        }
    } else if r00.raw > r11.raw && r00.raw > r22.raw {
        let d2 = sfx_sub(sfx_sub(sfx_add(one, r00), r11), r22);
        let s = if d2.raw <= 0 {
            Fixed { raw: 0 }
        } else {
            sfx_mul(Fixed { raw: crate::fixed::spec_isqrt(d2.raw as int * 65536) as i32 }, two)
        };
        if s.raw == 0 {
            spec_quat_identity()
        } else {
            FxQuat {
                x: sfx_mul(quarter, s),
                y: Fixed { raw: crate::fixed::fx_div(sfx_add(r01, r10).raw as int, s.raw as int) as i32 },
                z: Fixed { raw: crate::fixed::fx_div(sfx_add(r02, r20).raw as int, s.raw as int) as i32 },
                w: Fixed { raw: crate::fixed::fx_div(sfx_sub(r21, r12).raw as int, s.raw as int) as i32 },
            }
        }
    } else if r11.raw > r22.raw {
        let d2 = sfx_sub(sfx_sub(sfx_add(one, r11), r00), r22);
        let s = if d2.raw <= 0 {
            Fixed { raw: 0 }
        } else {
            sfx_mul(Fixed { raw: crate::fixed::spec_isqrt(d2.raw as int * 65536) as i32 }, two)
        };
        if s.raw == 0 {
            spec_quat_identity()
        } else {
            FxQuat {
                x: Fixed { raw: crate::fixed::fx_div(sfx_add(r01, r10).raw as int, s.raw as int) as i32 },
                y: sfx_mul(quarter, s),
                z: Fixed { raw: crate::fixed::fx_div(sfx_add(r12, r21).raw as int, s.raw as int) as i32 },
                w: Fixed { raw: crate::fixed::fx_div(sfx_sub(r02, r20).raw as int, s.raw as int) as i32 },
            }
        }
    } else {
        let d2 = sfx_sub(sfx_sub(sfx_add(one, r22), r00), r11);
        let s = if d2.raw <= 0 {
            Fixed { raw: 0 }
        } else {
            sfx_mul(Fixed { raw: crate::fixed::spec_isqrt(d2.raw as int * 65536) as i32 }, two)
        };
        if s.raw == 0 {
            spec_quat_identity()
        } else {
            FxQuat {
                x: Fixed { raw: crate::fixed::fx_div(sfx_add(r02, r20).raw as int, s.raw as int) as i32 },
                y: Fixed { raw: crate::fixed::fx_div(sfx_add(r12, r21).raw as int, s.raw as int) as i32 },
                z: sfx_mul(quarter, s),
                w: Fixed { raw: crate::fixed::fx_div(sfx_sub(r10, r01).raw as int, s.raw as int) as i32 },
            }
        }
    }
}

/// The similarity a column-major 4x4 matrix decomposes to: the
/// translation column, the largest column length as the scale, and
/// the trace-construction quaternion of the normalized basis.
pub open spec fn spec_similarity_from_mat4(m: Seq<Fixed>) -> Similarity {
    let sx = spec_column_norm(m[0], m[1], m[2]);
    let sy = spec_column_norm(m[4], m[5], m[6]);
    let sz = spec_column_norm(m[8], m[9], m[10]);
    Similarity {
        translation: FxVec3 { x: m[12], y: m[13], z: m[14] },
        scale: if sx.raw >= sy.raw && sx.raw >= sz.raw {
            sx
        } else if sy.raw >= sz.raw {
            sy
        } else {
            sz
        },
        rotation: spec_quat_from_rot(
            spec_rot_entry(m[0], sx),
            spec_rot_entry(m[4], sy),
            spec_rot_entry(m[8], sz),
            spec_rot_entry(m[1], sx),
            spec_rot_entry(m[5], sy),
            spec_rot_entry(m[9], sz),
            spec_rot_entry(m[2], sx),
            spec_rot_entry(m[6], sy),
            spec_rot_entry(m[10], sz),
        ),
    }
}

/// Fixed-point square root of a nonnegative scalar, shared by the
/// decomposition steps.
fn col_norm(a: Fixed, b: Fixed, c: Fixed) -> (r: Fixed)
    ensures
        r == spec_column_norm(a, b, c),
        r.raw >= 0,
{
    proof {
        crate::fixed::lemma_fx_square_nonneg(a.raw as int);
        crate::fixed::lemma_fx_square_nonneg(b.raw as int);
        crate::fixed::lemma_fx_square_nonneg(c.raw as int);
    }
    a.mul(a).add(b.mul(b)).add(c.mul(c)).sqrt()
}

/// One rotation-matrix entry normalized by its column's length.
fn rot_entry(v: Fixed, norm: Fixed) -> (r: Fixed)
    ensures
        r == spec_rot_entry(v, norm),
{
    if norm.raw == 0 {
        Fixed::zero()
    } else {
        v.div(norm)
    }
}

/// Square root of a nonnegative scalar, zero otherwise.
fn sqrt_or_zero(v: Fixed) -> (r: Fixed)
    ensures
        v.raw > 0 ==> r == (Fixed { raw: crate::fixed::spec_isqrt(v.raw as int * 65536) as i32 }),
        v.raw <= 0 ==> r.raw == 0,
        r.raw >= 0,
{
    if v.raw <= 0 {
        Fixed::zero()
    } else {
        v.sqrt()
    }
}

impl Similarity {
    /// Build a transform from a column-major 4x4 matrix: the
    /// translation column is taken as is, each basis column's length
    /// becomes a scale component (largest wins, as in
    /// `new_from_gltf`), and the rotation is recovered from the
    /// normalized upper-left block by the standard trace
    /// construction.  Reflections and shear are not represented; a
    /// degenerate block yields the identity rotation.
    pub fn new_from_mat4(m: &[Fixed; 16]) -> (r: (Similarity, bool))
        ensures
            r.0 == spec_similarity_from_mat4(m@),
            r.0.translation == (FxVec3 { x: m@[12], y: m@[13], z: m@[14] }),
            ({
                let sx = spec_column_norm(m@[0], m@[1], m@[2]);
                let sy = spec_column_norm(m@[4], m@[5], m@[6]);
                let sz = spec_column_norm(m@[8], m@[9], m@[10]);
                &&& r.0.scale.raw == if sx.raw >= sy.raw && sx.raw >= sz.raw {
                    sx.raw
                } else if sy.raw >= sz.raw {
                    sy.raw
                } else {
                    sz.raw
                }
                &&& r.0.rotation == spec_quat_from_rot(
                    spec_rot_entry(m@[0], sx),
                    spec_rot_entry(m@[4], sy),
                    spec_rot_entry(m@[8], sz),
                    spec_rot_entry(m@[1], sx),
                    spec_rot_entry(m@[5], sy),
                    spec_rot_entry(m@[9], sz),
                    spec_rot_entry(m@[2], sx),
                    spec_rot_entry(m@[6], sy),
                    spec_rot_entry(m@[10], sz),
                )
            }),
    {
        let translation = FxVec3 { x: m[12], y: m[13], z: m[14] };
        let sx = col_norm(m[0], m[1], m[2]);
        let sy = col_norm(m[4], m[5], m[6]);
        let sz = col_norm(m[8], m[9], m[10]);
        let r00 = rot_entry(m[0], sx);
        let r10 = rot_entry(m[1], sx);
        let r20 = rot_entry(m[2], sx);
        let r01 = rot_entry(m[4], sy);
        let r11 = rot_entry(m[5], sy);
        let r21 = rot_entry(m[6], sy);
        let r02 = rot_entry(m[8], sz);
        let r12 = rot_entry(m[9], sz);
        let r22 = rot_entry(m[10], sz);
        let one = Fixed::one();
        let quarter = Fixed::from_raw(16384);
        let two = Fixed::from_raw(131072);
        let trace = r00.add(r11).add(r22);
        let rotation = if trace.raw > 0 {
            let s = trace.add(one).sqrt().mul(two);
            if s.raw == 0 {
                FxQuat::identity()
            } else {
                FxQuat {
                    x: r21.sub(r12).div(s),
                    y: r02.sub(r20).div(s),
                    z: r10.sub(r01).div(s),
                    w: quarter.mul(s),
                }
            }
        } else if r00.raw > r11.raw && r00.raw > r22.raw {
            let s = sqrt_or_zero(one.add(r00).sub(r11).sub(r22)).mul(two);
            if s.raw == 0 {
                FxQuat::identity()
            } else {
                FxQuat {
                    x: quarter.mul(s),
                    y: r01.add(r10).div(s),
                    z: r02.add(r20).div(s),
                    w: r21.sub(r12).div(s),
                }
            }
        } else if r11.raw > r22.raw {
            let s = sqrt_or_zero(one.add(r11).sub(r00).sub(r22)).mul(two);
            if s.raw == 0 {
                FxQuat::identity()
            } else {
                FxQuat {
                    x: r01.add(r10).div(s),
                    y: quarter.mul(s),
                    z: r12.add(r21).div(s),
                    w: r02.sub(r20).div(s),
                }
            }
        } else {
            let s = sqrt_or_zero(one.add(r22).sub(r00).sub(r11)).mul(two);
            if s.raw == 0 {
                FxQuat::identity()
            } else {
                FxQuat {
                    x: r02.add(r20).div(s),
                    y: r12.add(r21).div(s),
                    z: quarter.mul(s),
                    w: r10.sub(r01).div(s),
                }
            }
        };
        let (sim, warn) = Similarity::new_from_gltf(
            translation,
            rotation,
            FxVec3 { x: sx, y: sy, z: sz },
        );
        (sim, warn)
    }
}

/// Composing any transform with the identity on the right is exact:
/// `S.compose(IDENTITY) == S`.
pub proof fn lemma_compose_identity_right(s: Similarity)
    ensures
        spec_compose(s, spec_identity()) == s,
{
    crate::fixed::lemma_fx_mul_one(s.scale.raw as int);
    crate::fixed::lemma_fx_mul_zero(s.scale.raw as int);
    crate::vecmath::lemma_q_mul_identity(s.rotation);
    crate::vecmath::lemma_q_rotate_zero(s.rotation);
    crate::fixed::lemma_fx_add_zero(s.translation.x.raw as int);
    crate::fixed::lemma_fx_add_zero(s.translation.y.raw as int);
    crate::fixed::lemma_fx_add_zero(s.translation.z.raw as int);
}

/// Composing any transform with the identity on the left is exact:
/// `IDENTITY.compose(S) == S`.
pub proof fn lemma_compose_identity_left(s: Similarity)
    ensures
        spec_compose(spec_identity(), s) == s,
{
    crate::fixed::lemma_fx_mul_one(s.scale.raw as int);
    crate::fixed::lemma_fx_mul_one(s.translation.x.raw as int);
    crate::fixed::lemma_fx_mul_one(s.translation.y.raw as int);
    crate::fixed::lemma_fx_mul_one(s.translation.z.raw as int);
    crate::vecmath::lemma_q_mul_identity(s.rotation);
    crate::vecmath::lemma_q_rotate_identity(s.translation);
    crate::fixed::lemma_fx_add_zero(s.translation.x.raw as int);
    crate::fixed::lemma_fx_add_zero(s.translation.y.raw as int);
    crate::fixed::lemma_fx_add_zero(s.translation.z.raw as int);
}

/// Inverse round trip, shown exactly on the rigid translation case:
/// for a transform with unit scale and identity rotation,
/// `S.compose(S.inverse()) == IDENTITY` with no rounding at all.  For a
/// general scale or rotation the fixed-point round trip is only
/// approximate (division and products truncate), so only this exact
/// fragment is stated.
pub proof fn lemma_inverse_round_trip_rigid(s: Similarity)
    requires
        s.scale == (Fixed { raw: FX_ONE }),
        s.rotation == spec_quat_identity(),
        s.translation.x.raw != i32::MIN,
        s.translation.y.raw != i32::MIN,
        s.translation.z.raw != i32::MIN,
    ensures
        spec_compose(s, spec_inverse(s)) == spec_identity(),
{
    let inv = spec_inverse(s);
    assert(fx_div(FX_ONE as int, FX_ONE as int) == FX_ONE as int);
    crate::fixed::lemma_fx_neg_in_range(s.translation.x.raw as int);
    crate::fixed::lemma_fx_neg_in_range(s.translation.y.raw as int);
    crate::fixed::lemma_fx_neg_in_range(s.translation.z.raw as int);
    crate::vecmath::lemma_q_rotate_identity(spec_v3_neg(s.translation));
    crate::fixed::lemma_fx_mul_one(inv.translation.x.raw as int);
    crate::fixed::lemma_fx_mul_one(inv.translation.y.raw as int);
    crate::fixed::lemma_fx_mul_one(inv.translation.z.raw as int);
    crate::vecmath::lemma_q_mul_identity(spec_quat_identity());
    crate::vecmath::lemma_q_rotate_identity(spec_v3_scale(inv.translation, s.scale));
    crate::fixed::lemma_fx_mul_one(FX_ONE as int);
}

} // verus!
