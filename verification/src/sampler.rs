//! Keyframe animation sampling.
//!
//! A channel holds sorted keyframe timestamps and per-keyframe output
//! values for one node.  Sampling outside the keyframe span produces
//! nothing (the previous pose persists); an exact timestamp hit
//! returns that keyframe's value; anything in between interpolates by
//! the channel's mode: step (hold the earlier keyframe), linear, or
//! cubic Hermite over the glTF in-tangent/value/out-tangent triples.

use vstd::prelude::*;

use crate::document::Interpolation;
use crate::fixed::Fixed;
use crate::joints::AnimationJoints;
use crate::vecmath::{
    spec_fx_lerp, spec_q_blend, spec_v3_add, spec_v3_scale, spec_v3_sub, sfx_add, sfx_mul, sfx_sub,
    FxQuat, FxVec3,
};

verus! {

/// The Hermite basis weight of the starting value: `2t^3 - 3t^2 + 1`.
pub open spec fn spec_h00(t2: Fixed, t3: Fixed) -> Fixed {
    sfx_add(sfx_sub(sfx_mul(Fixed { raw: 131072 }, t3), sfx_mul(Fixed { raw: 196608 }, t2)), Fixed { raw: 65536 })
}

/// The Hermite basis weight of the starting tangent: `t^3 - 2t^2 + t`.
pub open spec fn spec_h10(t: Fixed, t2: Fixed, t3: Fixed) -> Fixed {
    sfx_add(sfx_sub(t3, sfx_mul(Fixed { raw: 131072 }, t2)), t)
}

/// The Hermite basis weight of the ending value: `3t^2 - 2t^3`.
pub open spec fn spec_h01(t2: Fixed, t3: Fixed) -> Fixed {
    sfx_sub(sfx_mul(Fixed { raw: 196608 }, t2), sfx_mul(Fixed { raw: 131072 }, t3))
}

/// The Hermite basis weight of the ending tangent: `t^3 - t^2`.
pub open spec fn spec_h11(t2: Fixed, t3: Fixed) -> Fixed {
    sfx_sub(t3, t2)
}

/// A value a channel can animate: it can be blended linearly and along
/// a cubic Hermite spline.
pub trait Interpolate: Sized + Copy {
    /// Exact meaning of the linear blend.
    spec fn spec_lerp(a: Self, b: Self, t: Fixed) -> Self;

    /// Exact meaning of the cubic Hermite blend; tangents are scaled
    /// by the time between the keyframes, as the glTF spline requires.
    spec fn spec_cubic(
        starting_point: Self,
        starting_out_tangent: Self,
        ending_point: Self,
        ending_in_tangent: Self,
        time_between_keyframes: Fixed,
        t: Fixed,
    ) -> Self;

    /// Blend linearly from `a` (at `t = 0`) to `b` (at `t = 1`).
    fn lerp(a: Self, b: Self, t: Fixed) -> (r: Self)
        ensures
            r == Self::spec_lerp(a, b, t),
    ;

    /// Blend along the cubic Hermite spline between two keyframes.
    fn cubic(
        starting_point: Self,
        starting_out_tangent: Self,
        ending_point: Self,
        ending_in_tangent: Self,
        time_between_keyframes: Fixed,
        t: Fixed,
    ) -> (r: Self)
        ensures
            r == Self::spec_cubic(
                starting_point,
                starting_out_tangent,
                ending_point,
                ending_in_tangent,
                time_between_keyframes,
                t,
            ),
    ;
}

impl Interpolate for Fixed {
    open spec fn spec_lerp(a: Self, b: Self, t: Fixed) -> Self {
        spec_fx_lerp(a, b, t)
    }

    open spec fn spec_cubic(
        starting_point: Self,
        starting_out_tangent: Self,
        ending_point: Self,
        ending_in_tangent: Self,
        time_between_keyframes: Fixed,
        t: Fixed,
    ) -> Self {
        let m0 = sfx_mul(starting_out_tangent, time_between_keyframes);
        let m1 = sfx_mul(ending_in_tangent, time_between_keyframes);
        let t2 = sfx_mul(t, t);
        let t3 = sfx_mul(t2, t);
        sfx_add(
            sfx_add(
                sfx_mul(starting_point, spec_h00(t2, t3)),
                sfx_mul(m0, spec_h10(t, t2, t3)),
            ),
            sfx_add(sfx_mul(ending_point, spec_h01(t2, t3)), sfx_mul(m1, spec_h11(t2, t3))),
        )
    }

    fn lerp(a: Self, b: Self, t: Fixed) -> (r: Self) {
        a.add(b.sub(a).mul(t))
    }

    fn cubic(
        starting_point: Self,
        starting_out_tangent: Self,
        ending_point: Self,
        ending_in_tangent: Self,
        time_between_keyframes: Fixed,
        t: Fixed,
    ) -> (r: Self) {
        let m0 = starting_out_tangent.mul(time_between_keyframes);
        let m1 = ending_in_tangent.mul(time_between_keyframes);
        let t2 = t.mul(t);
        let t3 = t2.mul(t);
        let h00 = Fixed::from_raw(131072).mul(t3).sub(Fixed::from_raw(196608).mul(t2)).add(
            Fixed::from_raw(65536),
        );
        let h10 = t3.sub(Fixed::from_raw(131072).mul(t2)).add(t);
        let h01 = Fixed::from_raw(196608).mul(t2).sub(Fixed::from_raw(131072).mul(t3));
        let h11 = t3.sub(t2);
        starting_point.mul(h00).add(m0.mul(h10)).add(ending_point.mul(h01).add(m1.mul(h11)))
    }
}

impl Interpolate for FxVec3 {
    open spec fn spec_lerp(a: Self, b: Self, t: Fixed) -> Self {
        spec_v3_add(a, spec_v3_scale(spec_v3_sub(b, a), t))
    }

    open spec fn spec_cubic(
        starting_point: Self,
        starting_out_tangent: Self,
        ending_point: Self,
        ending_in_tangent: Self,
        time_between_keyframes: Fixed,
        t: Fixed,
    ) -> Self {
        let m0 = spec_v3_scale(starting_out_tangent, time_between_keyframes);
        let m1 = spec_v3_scale(ending_in_tangent, time_between_keyframes);
        let t2 = sfx_mul(t, t);
        let t3 = sfx_mul(t2, t);
        spec_v3_add(
            spec_v3_add(
                spec_v3_scale(starting_point, spec_h00(t2, t3)),
                spec_v3_scale(m0, spec_h10(t, t2, t3)),
            ),
            spec_v3_add(
                spec_v3_scale(ending_point, spec_h01(t2, t3)),
                spec_v3_scale(m1, spec_h11(t2, t3)),
            ),
        )
    }

    fn lerp(a: Self, b: Self, t: Fixed) -> (r: Self) {
        a.add(b.sub(a).scale(t))
    }

    fn cubic(
        starting_point: Self,
        starting_out_tangent: Self,
        ending_point: Self,
        ending_in_tangent: Self,
        time_between_keyframes: Fixed,
        t: Fixed,
    ) -> (r: Self) {
        let m0 = starting_out_tangent.scale(time_between_keyframes);
        let m1 = ending_in_tangent.scale(time_between_keyframes);
        let t2 = t.mul(t);
        let t3 = t2.mul(t);
        let h00 = Fixed::from_raw(131072).mul(t3).sub(Fixed::from_raw(196608).mul(t2)).add(
            Fixed::from_raw(65536),
        );
        let h10 = t3.sub(Fixed::from_raw(131072).mul(t2)).add(t);
        let h01 = Fixed::from_raw(196608).mul(t2).sub(Fixed::from_raw(131072).mul(t3));
        let h11 = t3.sub(t2);
        starting_point.scale(h00).add(m0.scale(h10)).add(
            ending_point.scale(h01).add(m1.scale(h11)),
        )
    }
}

impl Interpolate for FxQuat {
    /// Rotations blend along the shorter arc and are renormalized; a
    /// normalized componentwise blend stands in for the spherical one,
    /// which fixed-point arithmetic cannot express exactly.
    open spec fn spec_lerp(a: Self, b: Self, t: Fixed) -> Self {
        spec_q_blend(a, b, t)
    }

    /// Cubic Hermite on the four components, renormalized afterwards
    /// (the spline is not norm-preserving).
    open spec fn spec_cubic(
        starting_point: Self,
        starting_out_tangent: Self,
        ending_point: Self,
        ending_in_tangent: Self,
        time_between_keyframes: Fixed,
        t: Fixed,
    ) -> Self {
        crate::vecmath::spec_q_normalize(
            FxQuat {
                x: Fixed::spec_cubic(
                    starting_point.x,
                    starting_out_tangent.x,
                    ending_point.x,
                    ending_in_tangent.x,
                    time_between_keyframes,
                    t,
                ),
                y: Fixed::spec_cubic(
                    starting_point.y,
                    starting_out_tangent.y,
                    ending_point.y,
                    ending_in_tangent.y,
                    time_between_keyframes,
                    t,
                ),
                z: Fixed::spec_cubic(
                    starting_point.z,
                    starting_out_tangent.z,
                    ending_point.z,
                    ending_in_tangent.z,
                    time_between_keyframes,
                    t,
                ),
                w: Fixed::spec_cubic(
                    starting_point.w,
                    starting_out_tangent.w,
                    ending_point.w,
                    ending_in_tangent.w,
                    time_between_keyframes,
                    t,
                ),
            },
        )
    }

    fn lerp(a: Self, b: Self, t: Fixed) -> (r: Self) {
        a.blend(b, t)
    }

    fn cubic(
        starting_point: Self,
        starting_out_tangent: Self,
        ending_point: Self,
        ending_in_tangent: Self,
        time_between_keyframes: Fixed,
        t: Fixed,
    ) -> (r: Self) {
        FxQuat {
            x: Fixed::cubic(
                starting_point.x,
                starting_out_tangent.x,
                ending_point.x,
                ending_in_tangent.x,
                time_between_keyframes,
                t,
            ),
            y: Fixed::cubic(
                starting_point.y,
                starting_out_tangent.y,
                ending_point.y,
                ending_in_tangent.y,
                time_between_keyframes,
                t,
            ),
            z: Fixed::cubic(
                starting_point.z,
                starting_out_tangent.z,
                ending_point.z,
                ending_in_tangent.z,
                time_between_keyframes,
                t,
            ),
            w: Fixed::cubic(
                starting_point.w,
                starting_out_tangent.w,
                ending_point.w,
                ending_in_tangent.w,
                time_between_keyframes,
                t,
            ),
        }.normalize()
    }
}

/// One animation channel: keyframe timestamps, output values and the
/// node the samples drive.
#[derive(Clone, Debug)]
pub struct Channel<T> {
    pub interpolation: Interpolation,
    pub inputs: Vec<Fixed>,
    pub outputs: Vec<T>,
    pub node_index: usize,
}

impl<T: Interpolate> Channel<T> {
    /// A channel is well formed when it has at least one keyframe, its
    /// timestamps never decrease, and it holds one output value per
    /// keyframe — three for cubic channels (in-tangent, value,
    /// out-tangent).
    pub open spec fn wf(self) -> bool {
        &&& self.inputs.len() >= 1
        &&& forall|i: int, j: int|
            0 <= i <= j < self.inputs.len() ==> (#[trigger] self.inputs[i]).raw
                <= (#[trigger] self.inputs[j]).raw
        &&& self.outputs.len() == if self.interpolation == Interpolation::CubicSpline {
            3 * self.inputs.len() as int
        } else {
            self.inputs.len() as int
        }
    }

    /// The keyframe index a time maps to: the greatest index whose
    /// timestamp does not exceed `t`.
    pub open spec fn spec_floor_index(self, t: Fixed) -> int {
        choose|i: int|
            0 <= i < self.inputs.len() && (#[trigger] self.inputs[i]).raw <= t.raw && (i
                == self.inputs.len() - 1 || self.inputs[i + 1].raw > t.raw)
    }

    /// The value stored at keyframe `i` (cubic channels store it in
    /// the middle of each triple).
    pub open spec fn spec_keyframe_value(self, i: int) -> T {
        if self.interpolation == Interpolation::CubicSpline {
            self.outputs[3 * i + 1]
        } else {
            self.outputs[i]
        }
    }

    /// What sampling at `t` produces: nothing outside the keyframe
    /// span; the stored value on an exact timestamp hit; otherwise the
    /// channel's interpolation between the bracketing keyframes.
    /// Opaque so that callers reason through `sample`'s contract
    /// instead of unfolding the interpolation formulas.
    #[verifier::opaque]
    pub open spec fn spec_sample(self, t: Fixed) -> Option<(usize, T)> {
        if t.raw < self.inputs[0].raw || t.raw > self.inputs[self.inputs.len() - 1].raw {
            None
        } else {
            let i = self.spec_floor_index(t);
            if self.inputs[i].raw == t.raw {
                Some((self.node_index, self.spec_keyframe_value(i)))
            } else {
                let delta = sfx_sub(self.inputs[i + 1], self.inputs[i]);
                let factor = Fixed {
                    raw: crate::fixed::fx_div(
                        sfx_sub(t, self.inputs[i]).raw as int,
                        delta.raw as int,
                    ) as i32,
                };
                match self.interpolation {
                    Interpolation::Step => Some((self.node_index, self.outputs[i])),
                    Interpolation::Linear => Some(
                        (self.node_index, T::spec_lerp(self.outputs[i], self.outputs[i + 1], factor)),
                    ),
                    Interpolation::CubicSpline => Some(
                        (
                            self.node_index,
                            T::spec_cubic(
                                self.outputs[3 * i + 1],
                                self.outputs[3 * i + 2],
                                self.outputs[3 * i + 4],
                                self.outputs[3 * i + 3],
                                delta,
                                factor,
                            ),
                        ),
                    ),
                }
            }
        }
    }

    /// Any index with the floor property is the floor index.
    proof fn lemma_floor_index_unique(self, t: Fixed, i: int)
        requires
            self.wf(),
            0 <= i < self.inputs.len(),
            self.inputs[i].raw <= t.raw,
            i == self.inputs.len() - 1 || self.inputs[i + 1].raw > t.raw,
        ensures
            self.spec_floor_index(t) == i,
    {
        assert(0 <= i < self.inputs.len() && (#[trigger] self.inputs[i]).raw <= t.raw && (i
            == self.inputs.len() - 1 || self.inputs[i + 1].raw > t.raw));
        let j = self.spec_floor_index(t);
        assert(0 <= j < self.inputs.len() && self.inputs[j].raw <= t.raw && (j == self.inputs.len()
            - 1 || self.inputs[j + 1].raw > t.raw));
        if j < i {
            assert(self.inputs[j + 1].raw <= self.inputs[i].raw);
        }
        if i < j {
            assert(self.inputs[i + 1].raw <= self.inputs[j].raw);
        }
    }

    /// Sample the channel at a time, exactly as `spec_sample` states.
    pub fn sample(&self, t: Fixed) -> (r: Option<(usize, T)>)
        requires
            self.wf(),
        ensures
            r == self.spec_sample(t),
            r matches Some(sample) ==> sample.0 == self.node_index,
    {
        proof {
            reveal(Channel::spec_sample);
        }
        let n = self.inputs.len();
        if t.raw < self.inputs[0].raw || t.raw > self.inputs[n - 1].raw {
            return None;
        }
        // Binary search for the greatest index whose timestamp is <= t.
        let mut lo: usize = 0;
        let mut hi: usize = n - 1;
        while lo < hi
            invariant
                self.wf(),
                n == self.inputs.len(),
                lo <= hi < n,
                self.inputs[lo as int].raw <= t.raw,
                hi == n - 1 || self.inputs[hi + 1].raw > t.raw,
            decreases hi - lo,
        {
            let mid = lo + (hi - lo + 1) / 2;
            if self.inputs[mid].raw <= t.raw {
                lo = mid;
            } else {
                hi = mid - 1;
            }
        }
        let i = lo;
        proof {
            self.lemma_floor_index_unique(t, i as int);
        }
        if self.inputs[i].raw == t.raw {
            let value = if matches!(self.interpolation, Interpolation::CubicSpline) {
                self.outputs[3 * i + 1]
            } else {
                self.outputs[i]
            };
            return Some((self.node_index, value));
        }
        assert(i < n - 1);
        let delta = self.inputs[i + 1].sub(self.inputs[i]);
        assert(delta.raw > 0);
        let factor = t.sub(self.inputs[i]).div(delta);
        let value = match self.interpolation {
            Interpolation::Step => self.outputs[i],
            Interpolation::Linear => T::lerp(self.outputs[i], self.outputs[i + 1], factor),
            Interpolation::CubicSpline => T::cubic(
                self.outputs[3 * i + 1],
                self.outputs[3 * i + 2],
                self.outputs[3 * i + 4],
                self.outputs[3 * i + 3],
                delta,
                factor,
            ),
        };
        Some((self.node_index, value))
    }
}

/// Whether keyframe timestamps are strictly increasing, as the glTF
/// format requires of animation inputs.
pub open spec fn spec_strictly_sorted(inputs: Seq<Fixed>) -> bool {
    forall|i: int, j: int|
        0 <= i < j < inputs.len() ==> (#[trigger] inputs[i]).raw < (#[trigger] inputs[j]).raw
}

/// Step interpolation: sampling a step channel exactly at a keyframe
/// timestamp returns that keyframe's value, and sampling strictly
/// between two keyframes returns the earlier keyframe's value
/// unchanged.
pub proof fn lemma_step_interpolation<T: Interpolate>(c: Channel<T>, t: Fixed, i: int)
    requires
        c.wf(),
        spec_strictly_sorted(c.inputs@),
        c.interpolation == Interpolation::Step,
        0 <= i < c.inputs.len(),
    ensures
        t.raw == c.inputs[i].raw ==> c.spec_sample(t) == Some((c.node_index, c.outputs[i])),
        i < c.inputs.len() - 1 && c.inputs[i].raw < t.raw < c.inputs[i + 1].raw ==> c.spec_sample(t)
            == Some((c.node_index, c.outputs[i])),
{
    reveal(Channel::spec_sample);
    if t.raw == c.inputs[i].raw {
        c.lemma_floor_index_unique(t, i);
    }
    if i < c.inputs.len() - 1 && c.inputs[i].raw < t.raw < c.inputs[i + 1].raw {
        c.lemma_floor_index_unique(t, i);
        assert(t.raw <= c.inputs[c.inputs.len() - 1].raw);
    }
}

/// Linear interpolation boundaries: sampling a linear channel at its
/// first keyframe timestamp returns the first value, and at its last
/// keyframe timestamp returns the last value.
pub proof fn lemma_linear_boundaries<T: Interpolate>(c: Channel<T>)
    requires
        c.wf(),
        spec_strictly_sorted(c.inputs@),
        c.interpolation == Interpolation::Linear,
    ensures
        c.spec_sample(c.inputs[0]) == Some((c.node_index, c.outputs[0])),
        c.spec_sample(c.inputs[c.inputs.len() - 1]) == Some(
            (c.node_index, c.outputs[c.inputs.len() - 1]),
        ),
{
    reveal(Channel::spec_sample);
    c.lemma_floor_index_unique(c.inputs[0], 0);
    c.lemma_floor_index_unique(c.inputs[c.inputs.len() - 1], c.inputs.len() - 1);
}

/// Advance an animation clock by one tick and wrap it into
/// `[0, total_time)` by the modulo rule, so a looping animation
/// replays from its start.  A clock of a zero-length animation stays
/// at zero.
pub fn advance_animation_time(time: Fixed, step: Fixed, total_time: Fixed) -> (r: Fixed)
    requires
        time.raw >= 0,
        step.raw >= 0,
        total_time.raw >= 0,
    ensures
        total_time.raw > 0 ==> r.raw == crate::fixed::fx_add(time.raw as int, step.raw as int)
            % (total_time.raw as int),
        total_time.raw == 0 ==> r.raw == 0,
        0 <= r.raw,
        total_time.raw > 0 ==> r.raw < total_time.raw,
{
    if total_time.raw == 0 {
        return Fixed::from_raw(0);
    }
    let sum = time.add(step);
    let wrapped: u32 = (sum.raw as u32) % (total_time.raw as u32);
    Fixed { raw: wrapped as i32 }
}

/// Locals after the translation channels up to `k` have written their
/// samples, in order (a later channel targeting the same node wins).
pub open spec fn spec_apply_translations(
    locals: Seq<crate::similarity::Similarity>,
    cs: Seq<Channel<FxVec3>>,
    t: Fixed,
    k: int,
) -> Seq<crate::similarity::Similarity>
    decreases k,
{
    if k <= 0 || k > cs.len() {
        locals
    } else {
        let prev = spec_apply_translations(locals, cs, t, k - 1);
        match cs[k - 1].spec_sample(t) {
            None => prev,
            Some(sample) => prev.update(
                sample.0 as int,
                crate::similarity::Similarity { translation: sample.1, ..prev[sample.0 as int] },
            ),
        }
    }
}

/// Locals after the rotation channels up to `k` have written their
/// samples, in order.
pub open spec fn spec_apply_rotations(
    locals: Seq<crate::similarity::Similarity>,
    cs: Seq<Channel<FxQuat>>,
    t: Fixed,
    k: int,
) -> Seq<crate::similarity::Similarity>
    decreases k,
{
    if k <= 0 || k > cs.len() {
        locals
    } else {
        let prev = spec_apply_rotations(locals, cs, t, k - 1);
        match cs[k - 1].spec_sample(t) {
            None => prev,
            Some(sample) => prev.update(
                sample.0 as int,
                crate::similarity::Similarity { rotation: sample.1, ..prev[sample.0 as int] },
            ),
        }
    }
}

/// Locals after the scale channels up to `k` have written their
/// samples, in order.
pub open spec fn spec_apply_scales(
    locals: Seq<crate::similarity::Similarity>,
    cs: Seq<Channel<Fixed>>,
    t: Fixed,
    k: int,
) -> Seq<crate::similarity::Similarity>
    decreases k,
{
    if k <= 0 || k > cs.len() {
        locals
    } else {
        let prev = spec_apply_scales(locals, cs, t, k - 1);
        match cs[k - 1].spec_sample(t) {
            None => prev,
            Some(sample) => prev.update(
                sample.0 as int,
                crate::similarity::Similarity { scale: sample.1, ..prev[sample.0 as int] },
            ),
        }
    }
}

/// One animation: translation, rotation and scale channel sets and the
/// largest keyframe timestamp across all of them.
#[derive(Clone, Debug)]
pub struct Animation {
    pub total_time: Fixed,
    pub translation_channels: Vec<Channel<FxVec3>>,
    pub rotation_channels: Vec<Channel<FxQuat>>,
    pub scale_channels: Vec<Channel<Fixed>>,
}

impl Animation {
    /// Whether every channel is well formed and targets a node inside
    /// a table of `n` nodes.
    pub open spec fn wf_for(self, n: int) -> bool {
        &&& forall|i: int|
            0 <= i < self.translation_channels.len() ==> (
            #[trigger] self.translation_channels[i]).wf() && self.translation_channels[i].node_index
                < n
        &&& forall|i: int|
            0 <= i < self.rotation_channels.len() ==> (#[trigger] self.rotation_channels[i]).wf()
                && self.rotation_channels[i].node_index < n
        &&& forall|i: int|
            0 <= i < self.scale_channels.len() ==> (#[trigger] self.scale_channels[i]).wf()
                && self.scale_channels[i].node_index < n
    }

    /// Assemble an animation from its channels; the total duration is
    /// the largest final keyframe timestamp over every channel of
    /// every kind, and zero when there are no channels at all (or when
    /// every timestamp is negative, which only a malformed asset
    /// produces).
    pub fn new(
        translation_channels: Vec<Channel<FxVec3>>,
        rotation_channels: Vec<Channel<FxQuat>>,
        scale_channels: Vec<Channel<Fixed>>,
    ) -> (r: Animation)
        requires
            forall|i: int|
                0 <= i < translation_channels.len() ==> (#[trigger] translation_channels[i]).wf(),
            forall|i: int|
                0 <= i < rotation_channels.len() ==> (#[trigger] rotation_channels[i]).wf(),
            forall|i: int| 0 <= i < scale_channels.len() ==> (#[trigger] scale_channels[i]).wf(),
        ensures
            r.translation_channels == translation_channels,
            r.rotation_channels == rotation_channels,
            r.scale_channels == scale_channels,
            r.total_time.raw >= 0,
            forall|i: int|
                0 <= i < translation_channels.len() ==> (#[trigger] translation_channels[i]).inputs[
                    translation_channels[i].inputs.len() - 1
                ].raw <= r.total_time.raw,
            forall|i: int|
                0 <= i < rotation_channels.len() ==> (#[trigger] rotation_channels[i]).inputs[
                    rotation_channels[i].inputs.len() - 1
                ].raw <= r.total_time.raw,
            forall|i: int|
                0 <= i < scale_channels.len() ==> (#[trigger] scale_channels[i]).inputs[
                    scale_channels[i].inputs.len() - 1
                ].raw <= r.total_time.raw,
            r.total_time.raw == 0 || (exists|i: int|
                0 <= i < translation_channels.len() && (#[trigger] translation_channels[i]).inputs[
                    translation_channels[i].inputs.len() - 1
                ].raw == r.total_time.raw) || (exists|i: int|
                0 <= i < rotation_channels.len() && (#[trigger] rotation_channels[i]).inputs[
                    rotation_channels[i].inputs.len() - 1
                ].raw == r.total_time.raw) || (exists|i: int|
                0 <= i < scale_channels.len() && (#[trigger] scale_channels[i]).inputs[
                    scale_channels[i].inputs.len() - 1
                ].raw == r.total_time.raw),
    {
        let mut total = Fixed::zero();
        let mut i: usize = 0;
        while i < translation_channels.len()
            invariant
                i <= translation_channels.len(),
                total.raw >= 0,
                forall|j: int|
                    0 <= j < translation_channels.len() ==> (
                    #[trigger] translation_channels[j]).wf(),
                forall|j: int|
                    0 <= j < i ==> (#[trigger] translation_channels[j]).inputs[
                        translation_channels[j].inputs.len() - 1
                    ].raw <= total.raw,
                total.raw == 0 || exists|j: int|
                    0 <= j < i && (#[trigger] translation_channels[j]).inputs[
                        translation_channels[j].inputs.len() - 1
                    ].raw == total.raw,
            decreases translation_channels.len() - i,
        {
            let ch = &translation_channels[i];
            let last = ch.inputs[ch.inputs.len() - 1];
            if last.raw > total.raw {
                total = last;
            }
            i += 1;
        }
        let ghost total0 = total;
        let mut i: usize = 0;
        while i < rotation_channels.len()
            invariant
                i <= rotation_channels.len(),
                total.raw >= total0.raw >= 0,
                forall|j: int|
                    0 <= j < rotation_channels.len() ==> (#[trigger] rotation_channels[j]).wf(),
                forall|j: int|
                    0 <= j < i ==> (#[trigger] rotation_channels[j]).inputs[
                        rotation_channels[j].inputs.len() - 1
                    ].raw <= total.raw,
                total == total0 || exists|j: int|
                    0 <= j < i && (#[trigger] rotation_channels[j]).inputs[
                        rotation_channels[j].inputs.len() - 1
                    ].raw == total.raw,
            decreases rotation_channels.len() - i,
        {
            let ch = &rotation_channels[i];
            let last = ch.inputs[ch.inputs.len() - 1];
            if last.raw > total.raw {
                total = last;
            }
            i += 1;
        }
        let ghost total1 = total;
        let mut i: usize = 0;
        while i < scale_channels.len()
            invariant
                i <= scale_channels.len(),
                total.raw >= total1.raw >= 0,
                forall|j: int| 0 <= j < scale_channels.len() ==> (#[trigger] scale_channels[j]).wf(),
                forall|j: int|
                    0 <= j < i ==> (#[trigger] scale_channels[j]).inputs[
                        scale_channels[j].inputs.len() - 1
                    ].raw <= total.raw,
                total == total1 || exists|j: int|
                    0 <= j < i && (#[trigger] scale_channels[j]).inputs[
                        scale_channels[j].inputs.len() - 1
                    ].raw == total.raw,
            decreases scale_channels.len() - i,
        {
            let ch = &scale_channels[i];
            let last = ch.inputs[ch.inputs.len() - 1];
            if last.raw > total.raw {
                total = last;
            }
            i += 1;
        }
        Animation { total_time: total, translation_channels, rotation_channels, scale_channels }
    }

    /// The animation's duration: the largest keyframe timestamp.
    pub fn total_time(&self) -> (r: Fixed)
        ensures
            r == self.total_time,
    {
        self.total_time
    }

    /// Sample every channel at `time` and write the produced values
    /// into the pose's local transforms, channel order deciding ties
    /// (a later channel targeting the same node wins).  Channels whose
    /// keyframe span excludes `time` write nothing, so the previous
    /// pose persists for their nodes.  Global transforms are untouched
    /// until the next propagation pass.
    #[verifier::rlimit(60)]
    pub fn animate(&self, animation_joints: &mut AnimationJoints, time: Fixed)
        requires
            self.wf_for(old(animation_joints).local_transforms.len() as int),
        ensures
            final(animation_joints).global_transforms@ == old(
                animation_joints,
            ).global_transforms@,
            final(animation_joints).local_transforms@ == spec_apply_scales(
                spec_apply_rotations(
                    spec_apply_translations(
                        old(animation_joints).local_transforms@,
                        self.translation_channels@,
                        time,
                        self.translation_channels@.len() as int,
                    ),
                    self.rotation_channels@,
                    time,
                    self.rotation_channels@.len() as int,
                ),
                self.scale_channels@,
                time,
                self.scale_channels@.len() as int,
            ),
    {
        let ghost locals0 = animation_joints.local_transforms@;
        let n = animation_joints.local_transforms.len();
        let mut k: usize = 0;
        while k < self.translation_channels.len()
            invariant
                k <= self.translation_channels.len(),
                self.wf_for(n as int),
                animation_joints.local_transforms.len() == n,
                animation_joints.global_transforms@ == old(animation_joints).global_transforms@,
                animation_joints.local_transforms@ == spec_apply_translations(
                    locals0,
                    self.translation_channels@,
                    time,
                    k as int,
                ),
            decreases self.translation_channels.len() - k,
        {
            match self.translation_channels[k].sample(time) {
                Some(sample) => {
                    let mut slot = animation_joints.local_transforms[sample.0];
                    slot.translation = sample.1;
                    animation_joints.local_transforms.set(sample.0, slot);
                },
                None => {},
            }
            k += 1;
        }
        let ghost locals1 = animation_joints.local_transforms@;
        let mut k: usize = 0;
        while k < self.rotation_channels.len()
            invariant
                k <= self.rotation_channels.len(),
                self.wf_for(n as int),
                animation_joints.local_transforms.len() == n,
                animation_joints.global_transforms@ == old(animation_joints).global_transforms@,
                locals1 == spec_apply_translations(
                    locals0,
                    self.translation_channels@,
                    time,
                    self.translation_channels@.len() as int,
                ),
                animation_joints.local_transforms@ == spec_apply_rotations(
                    locals1,
                    self.rotation_channels@,
                    time,
                    k as int,
                ),
            decreases self.rotation_channels.len() - k,
        {
            match self.rotation_channels[k].sample(time) {
                Some(sample) => {
                    let mut slot = animation_joints.local_transforms[sample.0];
                    slot.rotation = sample.1;
                    animation_joints.local_transforms.set(sample.0, slot);
                },
                None => {},
            }
            k += 1;
        }
        let ghost locals2 = animation_joints.local_transforms@;
        let mut k: usize = 0;
        while k < self.scale_channels.len()
            invariant
                k <= self.scale_channels.len(),
                self.wf_for(n as int),
                animation_joints.local_transforms.len() == n,
                animation_joints.global_transforms@ == old(animation_joints).global_transforms@,
                locals2 == spec_apply_rotations(
                    locals1,
                    self.rotation_channels@,
                    time,
                    self.rotation_channels@.len() as int,
                ),
                locals1 == spec_apply_translations(
                    locals0,
                    self.translation_channels@,
                    time,
                    self.translation_channels@.len() as int,
                ),
                animation_joints.local_transforms@ == spec_apply_scales(
                    locals2,
                    self.scale_channels@,
                    time,
                    k as int,
                ),
            decreases self.scale_channels.len() - k,
        {
            match self.scale_channels[k].sample(time) {
                Some(sample) => {
                    let mut slot = animation_joints.local_transforms[sample.0];
                    slot.scale = sample.1;
                    animation_joints.local_transforms.set(sample.0, slot);
                },
                None => {},
            }
            k += 1;
        }
    }
}

} // verus!
