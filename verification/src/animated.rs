//! Animated (skinned) model decoding.
//!
//! An animated model adds per-vertex joint data, a skeletal traversal
//! order, decoded animation channels and the skin's inverse bind
//! transforms to the primitive pipeline.  Instance placement comes
//! from the instance transform, so primitives carry the identity.

use vstd::prelude::*;

use crate::document::{ChannelProperty, GltfDocument};
use crate::error::LoadError;
use crate::fixed::Fixed;
use crate::joints::AnimationJoints;
use crate::model::{
    collect_all_primitives, read_buffer_with_accessor, spec_prim_matches, Model, Primitive,
    PrimitiveRanges, RangeU32, StagedModel, StagingBuckets, StagingBuffers, StagingPrimitive,
    StagingPrimitiveLod,
};
use crate::nodes::{DepthFirstNodes, NodeTree};
use crate::sampler::{Animation, Channel};
use crate::similarity::Similarity;
use crate::vecmath::{FxQuat, FxVec3, FxVec4};

verus! {

/// Decoded animation data of a skinned model.
pub struct AnimatedModelData {
    pub animations: Vec<Animation>,
    pub depth_first_nodes: DepthFirstNodes,
    pub inverse_bind_transforms: Vec<Similarity>,
    pub joint_indices_to_node_indices: Vec<usize>,
    pub animation_joints: AnimationJoints,
}

impl AnimatedModelData {
    /// What the per-frame skinning pass needs: a well-formed
    /// traversal, pose state sized to it, a joint table inside the
    /// node table with one inverse bind transform per joint, and
    /// channels targeting nodes inside the table.
    pub open spec fn wf(self) -> bool {
        &&& self.depth_first_nodes.wf()
        &&& self.animation_joints.wf_for(self.depth_first_nodes)
        &&& self.inverse_bind_transforms.len() == self.joint_indices_to_node_indices.len()
        &&& forall|j: int|
            0 <= j < self.joint_indices_to_node_indices.len()
                ==> (#[trigger] self.joint_indices_to_node_indices[j])
                < self.depth_first_nodes.num_nodes
        &&& forall|a: int|
            0 <= a < self.animations.len() ==> (#[trigger] self.animations[a]).wf_for(
                self.depth_first_nodes.num_nodes as int,
            )
    }
}

/// A decoded animated model before its GPU upload.
pub struct StagedAnimatedModel {
    pub primitives: Vec<Primitive>,
    pub primitive_ranges: PrimitiveRanges,
    pub staging_buffers: StagingBuffers,
    pub animation_data: AnimatedModelData,
    /// Whether any channel drove a property the runtime does not
    /// support, or more than one skin was present; the caller can
    /// surface a diagnostic.
    pub warnings: bool,
}

/// A finished animated model.
pub struct AnimatedModel {
    pub primitives: Vec<Primitive>,
    pub primitive_ranges: PrimitiveRanges,
    pub index_buffer_range: RangeU32,
    pub vertex_buffer_range: RangeU32,
    pub animation_data: AnimatedModelData,
}

/// How many joint transforms one 64 KiB joint uniform buffer holds
/// (32 bytes per joint record).
pub const JOINT_BUFFER_CAPACITY: usize = 2048;

impl AnimatedModel {
    /// Number of joints the skin drives.
    pub fn num_joints(&self) -> (r: usize)
        ensures
            r == self.animation_data.joint_indices_to_node_indices.len(),
    {
        self.animation_data.joint_indices_to_node_indices.len()
    }

    /// How many instances of this model fit in one joint buffer.
    pub fn max_instances_per_joint_buffer(&self) -> (r: usize)
        requires
            self.animation_data.joint_indices_to_node_indices.len() > 0,
        ensures
            r == JOINT_BUFFER_CAPACITY as int
                / self.animation_data.joint_indices_to_node_indices.len() as int,
    {
        JOINT_BUFFER_CAPACITY / self.animation_data.joint_indices_to_node_indices.len()
    }

    /// Re-base a staged animated model by the spans the GPU allocator
    /// assigned, exactly as for a static model: indices in the staging
    /// buffer move by the vertex span's start and every local index
    /// range by the index span's start, while the animation data is
    /// carried unchanged.  Succeeds exactly when no shift would leave
    /// 32-bit addressing.
    pub fn from_staged(
        staged: StagedAnimatedModel,
        vertex_buffer_start: u32,
        index_buffer_start: u32,
    ) -> (r: Result<(AnimatedModel, StagingBuffers), LoadError>)
        requires
            staged.staging_buffers.wf(),
        ensures
            r.is_ok() <==> {
                &&& vertex_buffer_start + staged.staging_buffers.positions.len() <= u32::MAX
                &&& index_buffer_start + staged.staging_buffers.indices.len() <= u32::MAX
                &&& crate::model::spec_prims_shiftable(
                    staged.primitives@,
                    index_buffer_start as int,
                )
                &&& crate::model::spec_ranges_shiftable(
                    staged.primitive_ranges,
                    index_buffer_start as int,
                )
            },
            r matches Err(e) ==> e == LoadError::AssetTooLarge,
            r.is_ok() ==> {
                let m = r->Ok_0.0;
                let upload = r->Ok_0.1;
                let sb = staged.staging_buffers;
                &&& m.animation_data == staged.animation_data
                &&& upload.positions@ == sb.positions@
                &&& upload.normals@ == sb.normals@
                &&& upload.uvs@ == sb.uvs@
                &&& upload.lightmap_uvs@ == sb.lightmap_uvs@
                &&& upload.joint_indices@ == sb.joint_indices@
                &&& upload.joint_weights@ == sb.joint_weights@
                &&& upload.indices.len() == sb.indices.len()
                &&& forall|i: int|
                    0 <= i < sb.indices.len() ==> (#[trigger] upload.indices[i]) == sb.indices[i]
                        + vertex_buffer_start
                &&& m.primitives.len() == staged.primitives.len()
                &&& forall|k: int|
                    0 <= k < staged.primitives.len() ==> crate::model::spec_prim_shifted(
                        (#[trigger] staged.primitives[k]),
                        m.primitives[k],
                        index_buffer_start as int,
                    )
                &&& m.vertex_buffer_range.start == vertex_buffer_start
                &&& m.vertex_buffer_range.end == vertex_buffer_start + sb.positions.len()
                &&& m.index_buffer_range.start == index_buffer_start
                &&& m.index_buffer_range.end == index_buffer_start + sb.indices.len()
            },
    {
        let StagedAnimatedModel {
            primitives,
            primitive_ranges,
            staging_buffers,
            animation_data,
            warnings: _,
        } = staged;
        let inner = StagedModel { primitives, primitive_ranges, staging_buffers };
        match Model::from_staged(inner, vertex_buffer_start, index_buffer_start) {
            Ok((m, upload)) => Ok(
                (
                    AnimatedModel {
                        primitives: m.primitives,
                        primitive_ranges: m.primitive_ranges,
                        index_buffer_range: m.index_buffer_range,
                        vertex_buffer_range: m.vertex_buffer_range,
                        animation_data,
                    },
                    upload,
                ),
            ),
            Err(e) => Err(e),
        }
    }
}

/// Whether keyframe timestamps never decrease.
fn check_sorted(inputs: &Vec<Fixed>) -> (r: bool)
    ensures
        r == (forall|i: int, j: int|
            0 <= i <= j < inputs.len() ==> (#[trigger] inputs[i]).raw <= (#[trigger] inputs[j]).raw),
{
    let mut k: usize = 1;
    if inputs.len() == 0 {
        return true;
    }
    while k < inputs.len()
        invariant
            1 <= k,
            k <= inputs.len() || inputs.len() == 0,
            forall|i: int, j: int|
                0 <= i <= j < k ==> (#[trigger] inputs[i]).raw <= (#[trigger] inputs[j]).raw,
        decreases inputs.len() - k,
    {
        if inputs[k - 1].raw > inputs[k].raw {
            return false;
        }
        proof {
            assert forall|i: int, j: int| 0 <= i <= j < k + 1 implies (#[trigger] inputs[i]).raw
                <= (#[trigger] inputs[j]).raw by {
                if j == k && i < k {
                    assert(inputs[i].raw <= inputs[k - 1].raw);
                }
            }
        }
        k += 1;
    }
    true
}

/// Whether one channel decodes: a supported property needs an
/// in-range target node, a nonempty sorted scalar keyframe input,
/// and an output accessor of the property's type holding one value
/// per keyframe (three for cubic channels).  Unsupported properties
/// are skipped, so nothing is required of them.
pub open spec fn spec_channel_ok(
    doc: GltfDocument,
    views: Seq<Seq<u8>>,
    ch: crate::document::AnimChannelDef,
    n_nodes: int,
) -> bool {
    ch.property == ChannelProperty::Unsupported || {
        let ia = doc.accessors@[ch.input as int];
        let ibytes = crate::model::spec_accessor_bytes(doc, views, ch.input as int);
        let needed = if ch.interpolation == crate::document::Interpolation::CubicSpline {
            3 * ia.count as int
        } else {
            ia.count as int
        };
        &&& ch.node_index < n_nodes
        &&& crate::model::spec_accessor_ok(doc, views, ch.input as int)
        &&& crate::accessor::spec_scalar_supported(
            ia.component_type,
            ia.normalized,
            crate::model::spec_attr_stride(doc, ch.input as int),
        )
        &&& ibytes.len() >= 4 * ia.count
        &&& ia.count >= 1
        &&& forall|i: int, j: int|
            0 <= i <= j < ia.count ==> (#[trigger] crate::accessor::spec_scalar_at(ibytes, i)).raw
                <= (#[trigger] crate::accessor::spec_scalar_at(ibytes, j)).raw
        &&& (ch.interpolation == crate::document::Interpolation::CubicSpline ==> ia.count
            <= usize::MAX / 3)
        &&& (ch.property == ChannelProperty::Translation ==> crate::model::spec_vec3_attr_ok(
            doc,
            views,
            ch.output as int,
            needed,
        ))
        &&& (ch.property == ChannelProperty::Rotation ==> crate::model::spec_vec4_attr_ok(
            doc,
            views,
            ch.output as int,
            needed,
        ))
        &&& (ch.property == ChannelProperty::Scale ==> crate::model::spec_vec3_attr_ok(
            doc,
            views,
            ch.output as int,
            needed,
        ))
    }
}

/// The channels of one animation driving `prop`, in declaration
/// order, among the first `k`.
pub open spec fn spec_channels_with(
    defs: Seq<crate::document::AnimChannelDef>,
    prop: ChannelProperty,
    k: int,
) -> Seq<crate::document::AnimChannelDef>
    decreases k,
{
    if k <= 0 || k > defs.len() {
        Seq::empty()
    } else {
        let prev = spec_channels_with(defs, prop, k - 1);
        if defs[k - 1].property == prop {
            prev.push(defs[k - 1])
        } else {
            prev
        }
    }
}

/// Whether an unsupported-property channel occurs before animation
/// `a`, channel `c` in iteration order.
pub open spec fn spec_unsupported_before(doc: GltfDocument, a: int, c: int) -> bool {
    (exists|a2: int, c2: int|
        0 <= a2 < a && a2 < doc.animations.len() && 0 <= c2 < doc.animations@[a2].channels.len()
            && (#[trigger] doc.animations@[a2].channels@[c2]).property
            == ChannelProperty::Unsupported) || (0 <= a < doc.animations.len() && exists|c2: int|
        0 <= c2 < c && c2 < doc.animations@[a].channels.len() && (
        #[trigger] doc.animations@[a].channels@[c2]).property == ChannelProperty::Unsupported)
}

/// Whether any channel of any animation drives an unsupported
/// property (the loader's warning condition).
pub open spec fn spec_any_unsupported(doc: GltfDocument) -> bool {
    exists|a: int, c: int|
        0 <= a < doc.animations.len() && 0 <= c < doc.animations@[a].channels.len() && (
        #[trigger] doc.animations@[a].channels@[c]).property == ChannelProperty::Unsupported
}

/// Whether a decoded translation channel carries exactly its
/// definition's interpolation, target and decoded keyframe data.
pub open spec fn spec_translation_channel_of(
    doc: GltfDocument,
    views: Seq<Seq<u8>>,
    def: crate::document::AnimChannelDef,
    c: Channel<FxVec3>,
) -> bool {
    let ibytes = crate::model::spec_accessor_bytes(doc, views, def.input as int);
    let obytes = crate::model::spec_accessor_bytes(doc, views, def.output as int);
    let oa = doc.accessors@[def.output as int];
    &&& c.interpolation == def.interpolation
    &&& c.node_index == def.node_index
    &&& c.inputs.len() == doc.accessors@[def.input as int].count
    &&& forall|i: int|
        0 <= i < c.inputs.len() ==> (#[trigger] c.inputs[i]) == crate::accessor::spec_scalar_at(
            ibytes,
            i,
        )
    &&& c.outputs.len() == oa.count
    &&& forall|i: int|
        0 <= i < c.outputs.len() ==> (#[trigger] c.outputs[i]) == crate::accessor::spec_vec3_at(
            obytes,
            oa.component_type,
            oa.normalized,
            i,
        )
}

/// Whether a decoded rotation channel carries its definition's data:
/// each output quaternion is the four decoded components.
pub open spec fn spec_rotation_channel_of(
    doc: GltfDocument,
    views: Seq<Seq<u8>>,
    def: crate::document::AnimChannelDef,
    c: Channel<FxQuat>,
) -> bool {
    let ibytes = crate::model::spec_accessor_bytes(doc, views, def.input as int);
    let obytes = crate::model::spec_accessor_bytes(doc, views, def.output as int);
    let oa = doc.accessors@[def.output as int];
    &&& c.interpolation == def.interpolation
    &&& c.node_index == def.node_index
    &&& c.inputs.len() == doc.accessors@[def.input as int].count
    &&& forall|i: int|
        0 <= i < c.inputs.len() ==> (#[trigger] c.inputs[i]) == crate::accessor::spec_scalar_at(
            ibytes,
            i,
        )
    &&& c.outputs.len() == oa.count
    &&& forall|i: int|
        0 <= i < c.outputs.len() ==> {
            let v = crate::accessor::spec_vec4_at(obytes, oa.component_type, i);
            (#[trigger] c.outputs[i]) == (FxQuat { x: v.x, y: v.y, z: v.z, w: v.w })
        }
}

/// Whether a decoded scale channel carries its definition's data:
/// each output scalar is the largest component of the decoded scale
/// vector (the uniform-scale approximation).
pub open spec fn spec_scale_channel_of(
    doc: GltfDocument,
    views: Seq<Seq<u8>>,
    def: crate::document::AnimChannelDef,
    c: Channel<Fixed>,
) -> bool {
    let ibytes = crate::model::spec_accessor_bytes(doc, views, def.input as int);
    let obytes = crate::model::spec_accessor_bytes(doc, views, def.output as int);
    let oa = doc.accessors@[def.output as int];
    &&& c.interpolation == def.interpolation
    &&& c.node_index == def.node_index
    &&& c.inputs.len() == doc.accessors@[def.input as int].count
    &&& forall|i: int|
        0 <= i < c.inputs.len() ==> (#[trigger] c.inputs[i]) == crate::accessor::spec_scalar_at(
            ibytes,
            i,
        )
    &&& c.outputs.len() == oa.count
    &&& forall|i: int|
        0 <= i < c.outputs.len() ==> {
            let v = crate::accessor::spec_vec3_at(obytes, oa.component_type, oa.normalized, i);
            (#[trigger] c.outputs[i]) == (Fixed {
                raw: if v.x.raw >= v.y.raw && v.x.raw >= v.z.raw {
                    v.x.raw
                } else if v.y.raw >= v.z.raw {
                    v.y.raw
                } else {
                    v.z.raw
                },
            })
        }
}

/// Whether a decoded animation carries its definition's channels:
/// partitioned by target property in declaration order, each with its
/// decoded keyframe data, and the total time bounding every channel's
/// final timestamp (attained unless every timestamp is negative or
/// there are no channels).
pub open spec fn spec_animation_decoded(
    doc: GltfDocument,
    views: Seq<Seq<u8>>,
    a: int,
    anim: Animation,
) -> bool {
    let defs = doc.animations@[a].channels@;
    let tdefs = spec_channels_with(defs, ChannelProperty::Translation, defs.len() as int);
    let rdefs = spec_channels_with(defs, ChannelProperty::Rotation, defs.len() as int);
    let sdefs = spec_channels_with(defs, ChannelProperty::Scale, defs.len() as int);
    &&& anim.translation_channels.len() == tdefs.len()
    &&& forall|k: int|
        0 <= k < tdefs.len() ==> spec_translation_channel_of(
            doc,
            views,
            tdefs[k],
            (#[trigger] anim.translation_channels[k]),
        )
    &&& anim.rotation_channels.len() == rdefs.len()
    &&& forall|k: int|
        0 <= k < rdefs.len() ==> spec_rotation_channel_of(
            doc,
            views,
            rdefs[k],
            (#[trigger] anim.rotation_channels[k]),
        )
    &&& anim.scale_channels.len() == sdefs.len()
    &&& forall|k: int|
        0 <= k < sdefs.len() ==> spec_scale_channel_of(
            doc,
            views,
            sdefs[k],
            (#[trigger] anim.scale_channels[k]),
        )
    &&& anim.total_time.raw >= 0
    &&& forall|k: int|
        0 <= k < anim.translation_channels.len() ==> (#[trigger] anim.translation_channels[k]).inputs[
            anim.translation_channels[k].inputs.len() - 1
        ].raw <= anim.total_time.raw
    &&& forall|k: int|
        0 <= k < anim.rotation_channels.len() ==> (#[trigger] anim.rotation_channels[k]).inputs[
            anim.rotation_channels[k].inputs.len() - 1
        ].raw <= anim.total_time.raw
    &&& forall|k: int|
        0 <= k < anim.scale_channels.len() ==> (#[trigger] anim.scale_channels[k]).inputs[
            anim.scale_channels[k].inputs.len() - 1
        ].raw <= anim.total_time.raw
    &&& (anim.total_time.raw == 0 || (exists|k: int|
        0 <= k < anim.translation_channels.len() && (#[trigger] anim.translation_channels[k]).inputs[
            anim.translation_channels[k].inputs.len() - 1
        ].raw == anim.total_time.raw) || (exists|k: int|
        0 <= k < anim.rotation_channels.len() && (#[trigger] anim.rotation_channels[k]).inputs[
            anim.rotation_channels[k].inputs.len() - 1
        ].raw == anim.total_time.raw) || (exists|k: int|
        0 <= k < anim.scale_channels.len() && (#[trigger] anim.scale_channels[k]).inputs[
            anim.scale_channels[k].inputs.len() - 1
        ].raw == anim.total_time.raw))
}

/// Whether every channel of every animation decodes.
pub open spec fn spec_animations_ok(doc: GltfDocument, views: Seq<Seq<u8>>) -> bool {
    forall|a: int, c: int|
        0 <= a < doc.animations.len() && 0 <= c < doc.animations@[a].channels.len()
            ==> spec_channel_ok(doc, views, (#[trigger] doc.animations@[a].channels@[c]), doc.nodes.len() as int)
}

/// Decode one channel's keyframe timestamps.
fn read_channel_inputs(doc: &GltfDocument, views: &Vec<Vec<u8>>, accessor_index: usize) -> (r:
    Result<Vec<Fixed>, LoadError>)
    requires
        views.len() == doc.buffer_views.len(),
    ensures
        r.is_ok() <==> {
            let a = doc.accessors@[accessor_index as int];
            &&& crate::model::spec_accessor_ok(*doc, crate::model::spec_views(views@), accessor_index as int)
            &&& crate::accessor::spec_scalar_supported(
                a.component_type,
                a.normalized,
                crate::model::spec_attr_stride(*doc, accessor_index as int),
            )
            &&& crate::model::spec_accessor_bytes(
                *doc,
                crate::model::spec_views(views@),
                accessor_index as int,
            ).len() >= 4 * a.count
        },
        r matches Ok(v) ==> {
            let a = doc.accessors@[accessor_index as int];
            &&& v.len() == a.count
            &&& forall|i: int|
                0 <= i < v.len() ==> (#[trigger] v[i]) == crate::accessor::spec_scalar_at(
                    crate::model::spec_accessor_bytes(
                        *doc,
                        crate::model::spec_views(views@),
                        accessor_index as int,
                    ),
                    i,
                )
        },
{
    let (bytes, stride) = match read_buffer_with_accessor(doc, views, accessor_index) {
        Ok(p) => p,
        Err(e) => {
            return Err(e);
        },
    };
    let a = &doc.accessors[accessor_index];
    crate::accessor::read_fixed_scalars(
        bytes.as_slice(),
        a.component_type,
        a.normalized,
        stride,
        a.count,
    )
}

/// Decode every animation of a document into sampled channel sets.
/// Channels driving unsupported properties are skipped with a warning
/// flag rather than failing the asset.  Succeeds exactly when every
/// channel decodes: failures are decreasing timestamps, an output
/// count that does not match the keyframe count (three per keyframe
/// for cubic channels), a target node outside the table, or an
/// undecodable accessor.
#[verifier::rlimit(100)]
pub fn read_animations(doc: &GltfDocument, views: &Vec<Vec<u8>>) -> (r: Result<
    (Vec<Animation>, bool),
    LoadError,
>)
    requires
        views.len() == doc.buffer_views.len(),
    ensures
        r.is_ok() <==> spec_animations_ok(*doc, crate::model::spec_views(views@)),
        r matches Ok(p) ==> p.0.len() == doc.animations.len() && forall|a: int|
            0 <= a < p.0.len() ==> (#[trigger] p.0[a]).wf_for(doc.nodes.len() as int),
        r matches Ok(p) ==> p.1 == spec_any_unsupported(*doc) && forall|a: int|
            0 <= a < p.0.len() ==> spec_animation_decoded(
                *doc,
                crate::model::spec_views(views@),
                a,
                (#[trigger] p.0[a]),
            ),
{
    let ghost sv = crate::model::spec_views(views@);
    let n = doc.nodes.len();
    let mut out: Vec<Animation> = Vec::new();
    let mut warned = false;
    let mut a: usize = 0;
    while a < doc.animations.len()
        invariant
            a <= doc.animations.len(),
            n == doc.nodes.len(),
            views.len() == doc.buffer_views.len(),
            sv == crate::model::spec_views(views@),
            out.len() == a,
            warned == spec_unsupported_before(*doc, a as int, 0),
            forall|k: int| 0 <= k < a ==> (#[trigger] out[k]).wf_for(n as int),
            forall|k: int|
                0 <= k < a ==> spec_animation_decoded(*doc, sv, k, (#[trigger] out[k])),
            forall|k: int, c2: int|
                0 <= k < a && 0 <= c2 < doc.animations@[k].channels.len() ==> spec_channel_ok(
                    *doc,
                    sv,
                    (#[trigger] doc.animations@[k].channels@[c2]),
                    n as int,
                ),
        decreases doc.animations.len() - a,
    {
        let animation = &doc.animations[a];
        let mut translation_channels: Vec<Channel<FxVec3>> = Vec::new();
        let mut rotation_channels: Vec<Channel<FxQuat>> = Vec::new();
        let mut scale_channels: Vec<Channel<Fixed>> = Vec::new();
        let mut c: usize = 0;
        while c < animation.channels.len()
            invariant
                c <= animation.channels.len(),
                a < doc.animations.len(),
                *animation == doc.animations@[a as int],
                n == doc.nodes.len(),
                views.len() == doc.buffer_views.len(),
                sv == crate::model::spec_views(views@),
                forall|k: int, c2: int|
                    0 <= k < a && 0 <= c2 < doc.animations@[k].channels.len() ==> spec_channel_ok(
                        *doc,
                        sv,
                        (#[trigger] doc.animations@[k].channels@[c2]),
                        n as int,
                    ),
                forall|c2: int|
                    0 <= c2 < c ==> spec_channel_ok(
                        *doc,
                        sv,
                        (#[trigger] doc.animations@[a as int].channels@[c2]),
                        n as int,
                    ),
                warned == spec_unsupported_before(*doc, a as int, c as int),
                translation_channels.len() == spec_channels_with(
                    doc.animations@[a as int].channels@,
                    ChannelProperty::Translation,
                    c as int,
                ).len(),
                forall|k: int|
                    0 <= k < translation_channels.len() ==> spec_translation_channel_of(
                        *doc,
                        sv,
                        spec_channels_with(
                            doc.animations@[a as int].channels@,
                            ChannelProperty::Translation,
                            c as int,
                        )[k],
                        (#[trigger] translation_channels[k]),
                    ),
                rotation_channels.len() == spec_channels_with(
                    doc.animations@[a as int].channels@,
                    ChannelProperty::Rotation,
                    c as int,
                ).len(),
                forall|k: int|
                    0 <= k < rotation_channels.len() ==> spec_rotation_channel_of(
                        *doc,
                        sv,
                        spec_channels_with(
                            doc.animations@[a as int].channels@,
                            ChannelProperty::Rotation,
                            c as int,
                        )[k],
                        (#[trigger] rotation_channels[k]),
                    ),
                scale_channels.len() == spec_channels_with(
                    doc.animations@[a as int].channels@,
                    ChannelProperty::Scale,
                    c as int,
                ).len(),
                forall|k: int|
                    0 <= k < scale_channels.len() ==> spec_scale_channel_of(
                        *doc,
                        sv,
                        spec_channels_with(
                            doc.animations@[a as int].channels@,
                            ChannelProperty::Scale,
                            c as int,
                        )[k],
                        (#[trigger] scale_channels[k]),
                    ),
                forall|k: int|
                    0 <= k < a ==> spec_animation_decoded(*doc, sv, k, (#[trigger] out[k])),
                out.len() == a,
                forall|k: int|
                    0 <= k < translation_channels.len() ==> (#[trigger] translation_channels[k]).wf()
                        && translation_channels[k].node_index < n,
                forall|k: int|
                    0 <= k < rotation_channels.len() ==> (#[trigger] rotation_channels[k]).wf()
                        && rotation_channels[k].node_index < n,
                forall|k: int|
                    0 <= k < scale_channels.len() ==> (#[trigger] scale_channels[k]).wf()
                        && scale_channels[k].node_index < n,
            decreases animation.channels.len() - c,
        {
            let channel = &animation.channels[c];
            proof {
                assert(doc.animations@[a as int].channels@[c as int] == *channel);
            }
            let skip = matches!(channel.property, ChannelProperty::Unsupported);
            if skip {
                warned = true;
                proof {
                    assert(doc.animations@[a as int].channels@[c as int].property
                        == ChannelProperty::Unsupported);
                    assert(spec_unsupported_before(*doc, a as int, c + 1));
                    assert(spec_channels_with(
                        doc.animations@[a as int].channels@,
                        ChannelProperty::Translation,
                        c + 1,
                    ) == spec_channels_with(
                        doc.animations@[a as int].channels@,
                        ChannelProperty::Translation,
                        c as int,
                    ));
                    assert(spec_channels_with(
                        doc.animations@[a as int].channels@,
                        ChannelProperty::Rotation,
                        c + 1,
                    ) == spec_channels_with(
                        doc.animations@[a as int].channels@,
                        ChannelProperty::Rotation,
                        c as int,
                    ));
                    assert(spec_channels_with(
                        doc.animations@[a as int].channels@,
                        ChannelProperty::Scale,
                        c + 1,
                    ) == spec_channels_with(
                        doc.animations@[a as int].channels@,
                        ChannelProperty::Scale,
                        c as int,
                    ));
                }
            } else {
                if channel.node_index >= n {
                    proof {
                        assert(!spec_channel_ok(*doc, sv, *channel, n as int));
                    }
                    return Err(LoadError::BadAnimationChannel);
                }
                let inputs = match read_channel_inputs(doc, views, channel.input) {
                    Ok(v) => v,
                    Err(e) => {
                        proof {
                            assert(!spec_channel_ok(*doc, sv, *channel, n as int));
                        }
                        return Err(e);
                    },
                };
                let ghost ibytes = crate::model::spec_accessor_bytes(*doc, sv, channel.input as int);
                if inputs.len() == 0 || !check_sorted(&inputs) {
                    proof {
                        if inputs.len() > 0 {
                            let ia = doc.accessors@[channel.input as int];
                            assert(exists|i: int, j: int|
                                0 <= i <= j < inputs.len() && (#[trigger] inputs@[i]).raw > (
                                #[trigger] inputs@[j]).raw);
                            let (i, j) = choose|i: int, j: int|
                                0 <= i <= j < inputs.len() && (#[trigger] inputs@[i]).raw > (
                                #[trigger] inputs@[j]).raw;
                            assert(crate::accessor::spec_scalar_at(ibytes, i).raw
                                > crate::accessor::spec_scalar_at(ibytes, j).raw);
                        }
                        assert(!spec_channel_ok(*doc, sv, *channel, n as int));
                    }
                    return Err(LoadError::BadAnimationChannel);
                }
                proof {
                    let ia = doc.accessors@[channel.input as int];
                    assert forall|i: int, j: int| 0 <= i <= j < ia.count implies (
                    #[trigger] crate::accessor::spec_scalar_at(ibytes, i)).raw
                        <= (#[trigger] crate::accessor::spec_scalar_at(ibytes, j)).raw by {
                        assert(inputs@[i] == crate::accessor::spec_scalar_at(ibytes, i));
                        assert(inputs@[j] == crate::accessor::spec_scalar_at(ibytes, j));
                    }
                }
                let needed = if matches!(
                    channel.interpolation,
                    crate::document::Interpolation::CubicSpline,
                ) {
                    if inputs.len() > usize::MAX / 3 {
                        proof {
                            assert(!spec_channel_ok(*doc, sv, *channel, n as int));
                        }
                        return Err(LoadError::AssetTooLarge);
                    }
                    3 * inputs.len()
                } else {
                    inputs.len()
                };
                let (bytes, stride) = match read_buffer_with_accessor(doc, views, channel.output) {
                    Ok(p) => p,
                    Err(e) => {
                        proof {
                            assert(!spec_channel_ok(*doc, sv, *channel, n as int));
                        }
                        return Err(e);
                    },
                };
                let oa = &doc.accessors[channel.output];
                match channel.property {
                    ChannelProperty::Translation => {
                        let outputs = match crate::accessor::read_vec3s(
                            bytes.as_slice(),
                            oa.component_type,
                            oa.normalized,
                            stride,
                            oa.count,
                        ) {
                            Ok(v) => v,
                            Err(e) => {
                                proof {
                                    assert(!spec_channel_ok(*doc, sv, *channel, n as int));
                                }
                                return Err(e);
                            },
                        };
                        if outputs.len() != needed {
                            proof {
                                assert(!spec_channel_ok(*doc, sv, *channel, n as int));
                            }
                            return Err(LoadError::BadAnimationChannel);
                        }
                        proof {
                            assert(spec_channel_ok(*doc, sv, *channel, n as int));
                        }
                        let new_channel = Channel {
                            interpolation: channel.interpolation,
                            inputs,
                            outputs,
                            node_index: channel.node_index,
                        };
                        proof {
                            let defs = doc.animations@[a as int].channels@;
                            assert(spec_channels_with(defs, ChannelProperty::Translation, c + 1)
                                =~= spec_channels_with(
                                defs,
                                ChannelProperty::Translation,
                                c as int,
                            ).push(defs[c as int]));
                            assert(spec_channels_with(defs, ChannelProperty::Rotation, c + 1)
                                == spec_channels_with(defs, ChannelProperty::Rotation, c as int));
                            assert(spec_channels_with(defs, ChannelProperty::Scale, c + 1)
                                == spec_channels_with(defs, ChannelProperty::Scale, c as int));
                            assert(spec_translation_channel_of(
                                *doc,
                                sv,
                                defs[c as int],
                                new_channel,
                            ));
                            assert(spec_unsupported_before(*doc, a as int, c + 1)
                                == spec_unsupported_before(*doc, a as int, c as int));
                        }
                        translation_channels.push(new_channel);
                    },
                    ChannelProperty::Rotation => {
                        let raw = match crate::accessor::read_vec4s(
                            bytes.as_slice(),
                            oa.component_type,
                            oa.normalized,
                            stride,
                            oa.count,
                        ) {
                            Ok(v) => v,
                            Err(e) => {
                                proof {
                                    assert(!spec_channel_ok(*doc, sv, *channel, n as int));
                                }
                                return Err(e);
                            },
                        };
                        if raw.len() != needed {
                            proof {
                                assert(!spec_channel_ok(*doc, sv, *channel, n as int));
                            }
                            return Err(LoadError::BadAnimationChannel);
                        }
                        proof {
                            assert(spec_channel_ok(*doc, sv, *channel, n as int));
                        }
                        let ghost obytes = crate::model::spec_accessor_bytes(
                            *doc,
                            sv,
                            channel.output as int,
                        );
                        let mut outputs: Vec<FxQuat> = Vec::new();
                        let mut q: usize = 0;
                        while q < raw.len()
                            invariant
                                q <= raw.len(),
                                outputs.len() == q,
                                obytes == crate::model::spec_accessor_bytes(
                                    *doc,
                                    sv,
                                    channel.output as int,
                                ),
                                forall|qi: int|
                                    0 <= qi < raw.len() ==> (#[trigger] raw[qi])
                                        == crate::accessor::spec_vec4_at(
                                        obytes,
                                        doc.accessors@[channel.output as int].component_type,
                                        qi,
                                    ),
                                forall|qi: int|
                                    0 <= qi < q ==> {
                                        let v = crate::accessor::spec_vec4_at(
                                            obytes,
                                            doc.accessors@[channel.output as int].component_type,
                                            qi,
                                        );
                                        (#[trigger] outputs[qi]) == (FxQuat {
                                            x: v.x,
                                            y: v.y,
                                            z: v.z,
                                            w: v.w,
                                        })
                                    },
                            decreases raw.len() - q,
                        {
                            let v = raw[q];
                            outputs.push(FxQuat { x: v.x, y: v.y, z: v.z, w: v.w });
                            q += 1;
                        }
                        let new_channel = Channel {
                            interpolation: channel.interpolation,
                            inputs,
                            outputs,
                            node_index: channel.node_index,
                        };
                        proof {
                            let defs = doc.animations@[a as int].channels@;
                            assert(spec_channels_with(defs, ChannelProperty::Rotation, c + 1)
                                =~= spec_channels_with(
                                defs,
                                ChannelProperty::Rotation,
                                c as int,
                            ).push(defs[c as int]));
                            assert(spec_channels_with(defs, ChannelProperty::Translation, c + 1)
                                == spec_channels_with(
                                defs,
                                ChannelProperty::Translation,
                                c as int,
                            ));
                            assert(spec_channels_with(defs, ChannelProperty::Scale, c + 1)
                                == spec_channels_with(defs, ChannelProperty::Scale, c as int));
                            assert(spec_rotation_channel_of(*doc, sv, defs[c as int], new_channel));
                            assert(spec_unsupported_before(*doc, a as int, c + 1)
                                == spec_unsupported_before(*doc, a as int, c as int));
                        }
                        rotation_channels.push(new_channel);
                    },
                    ChannelProperty::Scale => {
                        let raw = match crate::accessor::read_vec3s(
                            bytes.as_slice(),
                            oa.component_type,
                            oa.normalized,
                            stride,
                            oa.count,
                        ) {
                            Ok(v) => v,
                            Err(e) => {
                                proof {
                                    assert(!spec_channel_ok(*doc, sv, *channel, n as int));
                                }
                                return Err(e);
                            },
                        };
                        if raw.len() != needed {
                            proof {
                                assert(!spec_channel_ok(*doc, sv, *channel, n as int));
                            }
                            return Err(LoadError::BadAnimationChannel);
                        }
                        proof {
                            assert(spec_channel_ok(*doc, sv, *channel, n as int));
                        }
                        // A scale keyframe is a vector; a similarity
                        // has one scale, so the largest component
                        // stands for it, as in the node transforms.
                        let ghost obytes = crate::model::spec_accessor_bytes(
                            *doc,
                            sv,
                            channel.output as int,
                        );
                        let mut outputs: Vec<Fixed> = Vec::new();
                        let mut q: usize = 0;
                        while q < raw.len()
                            invariant
                                q <= raw.len(),
                                outputs.len() == q,
                                obytes == crate::model::spec_accessor_bytes(
                                    *doc,
                                    sv,
                                    channel.output as int,
                                ),
                                forall|qi: int|
                                    0 <= qi < raw.len() ==> (#[trigger] raw[qi])
                                        == crate::accessor::spec_vec3_at(
                                        obytes,
                                        doc.accessors@[channel.output as int].component_type,
                                        doc.accessors@[channel.output as int].normalized,
                                        qi,
                                    ),
                                forall|qi: int|
                                    0 <= qi < q ==> {
                                        let v = crate::accessor::spec_vec3_at(
                                            obytes,
                                            doc.accessors@[channel.output as int].component_type,
                                            doc.accessors@[channel.output as int].normalized,
                                            qi,
                                        );
                                        (#[trigger] outputs[qi]) == (Fixed {
                                            raw: if v.x.raw >= v.y.raw && v.x.raw >= v.z.raw {
                                                v.x.raw
                                            } else if v.y.raw >= v.z.raw {
                                                v.y.raw
                                            } else {
                                                v.z.raw
                                            },
                                        })
                                    },
                            decreases raw.len() - q,
                        {
                            let v = raw[q];
                            outputs.push(v.x.max(v.y).max(v.z));
                            q += 1;
                        }
                        let new_channel = Channel {
                            interpolation: channel.interpolation,
                            inputs,
                            outputs,
                            node_index: channel.node_index,
                        };
                        proof {
                            let defs = doc.animations@[a as int].channels@;
                            assert(spec_channels_with(defs, ChannelProperty::Scale, c + 1)
                                =~= spec_channels_with(
                                defs,
                                ChannelProperty::Scale,
                                c as int,
                            ).push(defs[c as int]));
                            assert(spec_channels_with(defs, ChannelProperty::Translation, c + 1)
                                == spec_channels_with(
                                defs,
                                ChannelProperty::Translation,
                                c as int,
                            ));
                            assert(spec_channels_with(defs, ChannelProperty::Rotation, c + 1)
                                == spec_channels_with(defs, ChannelProperty::Rotation, c as int));
                            assert(spec_scale_channel_of(*doc, sv, defs[c as int], new_channel));
                            assert(spec_unsupported_before(*doc, a as int, c + 1)
                                == spec_unsupported_before(*doc, a as int, c as int));
                        }
                        scale_channels.push(new_channel);
                    },
                    ChannelProperty::Unsupported => {
                        return Err(LoadError::BadAnimationChannel);
                    },
                }
            }
            c += 1;
        }
        let anim = Animation::new(translation_channels, rotation_channels, scale_channels);
        proof {
            assert(spec_animation_decoded(*doc, sv, a as int, anim));
            assert(spec_unsupported_before(*doc, a + 1, 0) == spec_unsupported_before(
                *doc,
                a as int,
                doc.animations@[a as int].channels.len() as int,
            ));
        }
        out.push(anim);
        a += 1;
    }
    proof {
        if warned {
            assert(spec_any_unsupported(*doc));
        }
        if spec_any_unsupported(*doc) {
            let (a2, c2) = choose|a2: int, c2: int|
                0 <= a2 < doc.animations.len() && 0 <= c2 < doc.animations@[a2].channels.len() && (
                #[trigger] doc.animations@[a2].channels@[c2]).property
                    == ChannelProperty::Unsupported;
            assert(spec_unsupported_before(*doc, n as int, 0) || spec_unsupported_before(
                *doc,
                doc.animations.len() as int,
                0,
            ));
        }
    }
    Ok((out, warned))
}

/// Whether every staged primitive of every bucket carries the
/// identity transform and no coverage thresholds, as animated
/// primitives must (instances supply placement).
pub open spec fn spec_buckets_identity(buckets: StagingBuckets) -> bool {
    &&& forall|i: int|
        0 <= i < buckets.opaque_single.len() ==> (#[trigger] buckets.opaque_single[i]).transform
            == crate::similarity::spec_identity() && buckets.opaque_single[i].screen_coverages@.len()
            == 0
    &&& forall|i: int|
        0 <= i < buckets.opaque_double.len() ==> (#[trigger] buckets.opaque_double[i]).transform
            == crate::similarity::spec_identity() && buckets.opaque_double[i].screen_coverages@.len()
            == 0
    &&& forall|i: int|
        0 <= i < buckets.alpha_clipped_single.len() ==> (
        #[trigger] buckets.alpha_clipped_single[i]).transform == crate::similarity::spec_identity()
            && buckets.alpha_clipped_single[i].screen_coverages@.len() == 0
    &&& forall|i: int|
        0 <= i < buckets.alpha_clipped_double.len() ==> (
        #[trigger] buckets.alpha_clipped_double[i]).transform == crate::similarity::spec_identity()
            && buckets.alpha_clipped_double[i].screen_coverages@.len() == 0
    &&& forall|i: int|
        0 <= i < buckets.alpha_blended_single.len() ==> (
        #[trigger] buckets.alpha_blended_single[i]).transform == crate::similarity::spec_identity()
            && buckets.alpha_blended_single[i].screen_coverages@.len() == 0
    &&& forall|i: int|
        0 <= i < buckets.alpha_blended_double.len() ==> (
        #[trigger] buckets.alpha_blended_double[i]).transform == crate::similarity::spec_identity()
            && buckets.alpha_blended_double[i].screen_coverages@.len() == 0
}

/// Whether one node decodes for the animated pipeline: mesh-less, or
/// an in-range mesh with every primitive decodable and every named
/// material inside the table.
pub open spec fn spec_animated_node_ok(doc: GltfDocument, views: Seq<Seq<u8>>, i: int) -> bool {
    doc.nodes@[i].mesh is None || {
        let m = doc.nodes@[i].mesh->0 as int;
        &&& m < doc.meshes.len()
        &&& crate::model::spec_mesh_prims_ok(doc, views, m)
        &&& crate::model::spec_mesh_materials_ok(doc, m)
    }
}

/// Whether the skin decodes: no skin at all, or a first skin whose
/// joints stay inside the node table and whose inverse bind matrices
/// are present, decodable, and one per joint.
pub open spec fn spec_skin_ok(doc: GltfDocument, views: Seq<Seq<u8>>) -> bool {
    doc.skins.len() == 0 || {
        let skin = doc.skins@[0];
        &&& forall|j: int|
            0 <= j < skin.joints.len() ==> (#[trigger] skin.joints@[j]) < doc.nodes.len()
        &&& skin.inverse_bind_matrices is Some
        &&& {
            let ib = skin.inverse_bind_matrices->0 as int;
            let ia = doc.accessors@[ib];
            &&& crate::model::spec_accessor_ok(doc, views, ib)
            &&& crate::accessor::spec_mat4_supported(
                ia.component_type,
                ia.normalized,
                crate::model::spec_attr_stride(doc, ib),
            )
            &&& crate::model::spec_accessor_bytes(doc, views, ib).len() >= 64 * ia.count
            &&& ia.count == skin.joints.len()
        }
    }
}

/// How many primitives the first `k` nodes contribute to an animated
/// model: each mesh-bearing node with an in-range mesh contributes
/// one per primitive.
pub open spec fn spec_animated_primitive_count(doc: GltfDocument, k: int) -> int
    decreases k,
{
    if k <= 0 || k > doc.nodes.len() {
        0
    } else {
        spec_animated_primitive_count(doc, k - 1) + {
            let node = doc.nodes@[k - 1];
            if node.mesh is Some && (node.mesh->0 as int) < doc.meshes.len() {
                doc.meshes@[node.mesh->0 as int].primitives.len() as int
            } else {
                0
            }
        }
    }
}

/// Whether a whole document decodes as an animated model.
pub open spec fn spec_animated_doc_ok(doc: GltfDocument, views: Seq<Seq<u8>>) -> bool {
    &&& crate::nodes::spec_children_in_range(doc.nodes@)
    &&& forall|i: int| 0 <= i < doc.nodes.len() ==> #[trigger] spec_animated_node_ok(doc, views, i)
    &&& spec_animations_ok(doc, views)
    &&& spec_skin_ok(doc, views)
}

/// Decode a whole document into a staged animated model: primitives
/// carry the identity transform (instances supply placement) and a
/// single detail level, and the skeleton, skin and animations are
/// decoded alongside.  When several skins are present the first one
/// wins, with a warning; a model without a skin drives every node
/// directly with identity inverse binds.  A decodable document whose
/// hierarchy names each node at most one parent always succeeds
/// unless its combined data outgrows 32-bit addressing.
#[verifier::rlimit(100)]
pub fn build_animated_model(doc: &GltfDocument, views: &Vec<Vec<u8>>) -> (r: Result<
    StagedAnimatedModel,
    LoadError,
>)
    requires
        views.len() == doc.buffer_views.len(),
    ensures
        r.is_ok() ==> spec_animated_doc_ok(*doc, crate::model::spec_views(views@)),
        spec_animated_doc_ok(*doc, crate::model::spec_views(views@))
            && crate::nodes::spec_listed_at_most_once(doc.nodes@) ==> r.is_ok() || r == Err::<
            StagedAnimatedModel,
            LoadError,
        >(LoadError::AssetTooLarge),
        r.is_ok() ==> {
            let sm = r->Ok_0;
            &&& sm.staging_buffers.wf()
            &&& sm.animation_data.wf()
            &&& sm.animation_data.animations.len() == doc.animations.len()
            &&& (doc.skins.len() > 0 ==> sm.animation_data.joint_indices_to_node_indices@
                == doc.skins@[0].joints@)
            &&& (doc.skins.len() == 0 ==> sm.animation_data.joint_indices_to_node_indices.len()
                == doc.nodes.len() && forall|k: int|
                0 <= k < doc.nodes.len()
                    ==> (#[trigger] sm.animation_data.joint_indices_to_node_indices[k]) == k)
            &&& (doc.skins.len() == 0 ==> forall|k: int|
                0 <= k < sm.animation_data.inverse_bind_transforms.len()
                    ==> (#[trigger] sm.animation_data.inverse_bind_transforms[k])
                    == crate::similarity::spec_identity())
            &&& (doc.skins.len() > 0 ==> {
                let skin = doc.skins@[0];
                let ibytes = crate::model::spec_accessor_bytes(
                    *doc,
                    crate::model::spec_views(views@),
                    skin.inverse_bind_matrices->0 as int,
                );
                &&& sm.animation_data.inverse_bind_transforms.len() == skin.joints.len()
                &&& forall|k: int|
                    0 <= k < sm.animation_data.inverse_bind_transforms.len()
                        ==> (#[trigger] sm.animation_data.inverse_bind_transforms[k])
                        == crate::similarity::spec_similarity_from_mat4(
                        crate::accessor::spec_mat4_at(ibytes, k),
                    )
            })
            &&& sm.warnings == (spec_any_unsupported(*doc) || doc.skins.len() > 1)
            &&& forall|a: int|
                0 <= a < sm.animation_data.animations.len() ==> spec_animation_decoded(
                    *doc,
                    crate::model::spec_views(views@),
                    a,
                    (#[trigger] sm.animation_data.animations[a]),
                )
            &&& sm.primitives.len() == spec_animated_primitive_count(*doc, doc.nodes.len() as int)
            &&& forall|k: int|
                0 <= k < sm.primitives.len() ==> (#[trigger] sm.primitives[k]).lods.len() >= 1
            &&& forall|k: int|
                0 <= k < sm.primitives.len() ==> (#[trigger] sm.primitives[k]).transform
                    == crate::similarity::spec_identity() && sm.primitives[k].screen_coverages@.len()
                    == 0
        },
{
    let ghost sv = crate::model::spec_views(views@);
    let node_tree = match NodeTree::new(&doc.nodes) {
        Ok(t) => t,
        Err(e) => {
            return Err(e);
        },
    };
    let depth_first_nodes = match DepthFirstNodes::new(&doc.nodes, &node_tree) {
        Ok(d) => d,
        Err(e) => {
            proof {
                // A well-formed hierarchy cannot fail the traversal.
                if crate::nodes::spec_children_in_range(doc.nodes@)
                    && crate::nodes::spec_listed_at_most_once(doc.nodes@) {
                    assert(false);
                }
            }
            return Err(e);
        },
    };
    let n = doc.nodes.len();
    let mut warnings = false;
    let mut buckets = StagingBuckets::new_empty();
    let mut node_index: usize = 0;
    while node_index < n
        invariant
            node_index <= n,
            n == doc.nodes.len(),
            views.len() == doc.buffer_views.len(),
            sv == crate::model::spec_views(views@),
            buckets.wf(),
            spec_buckets_identity(buckets),
            forall|i2: int|
                0 <= i2 < node_index ==> #[trigger] spec_animated_node_ok(*doc, sv, i2),
            buckets.opaque_single.len() + buckets.opaque_double.len()
                + buckets.alpha_clipped_single.len() + buckets.alpha_clipped_double.len()
                + buckets.alpha_blended_single.len() + buckets.alpha_blended_double.len()
                == spec_animated_primitive_count(*doc, node_index as int),
        decreases n - node_index,
    {
        let node = &doc.nodes[node_index];
        match node.mesh {
            Some(mesh_index) => {
                if mesh_index >= doc.meshes.len() {
                    proof {
                        assert(!spec_animated_node_ok(*doc, sv, node_index as int));
                    }
                    return Err(LoadError::MeshOutOfRange { mesh: mesh_index });
                }
                let num_primitives = doc.meshes[mesh_index].primitives.len();
                let mut primitive_index: usize = 0;
                while primitive_index < num_primitives
                    invariant
                        primitive_index <= num_primitives,
                        n == doc.nodes.len(),
                        node_index < n,
                        views.len() == doc.buffer_views.len(),
                        sv == crate::model::spec_views(views@),
                        buckets.wf(),
                        spec_buckets_identity(buckets),
                        doc.nodes@[node_index as int].mesh == Some(mesh_index),
                        mesh_index < doc.meshes.len(),
                        num_primitives == doc.meshes@[mesh_index as int].primitives.len(),
                        buckets.opaque_single.len() + buckets.opaque_double.len()
                            + buckets.alpha_clipped_single.len()
                            + buckets.alpha_clipped_double.len()
                            + buckets.alpha_blended_single.len()
                            + buckets.alpha_blended_double.len()
                            == spec_animated_primitive_count(*doc, node_index as int)
                            + primitive_index,
                        forall|p: int|
                            0 <= p < primitive_index ==> crate::model::spec_staging_ok(
                                *doc,
                                sv,
                                (#[trigger] doc.meshes@[mesh_index as int].primitives@[p]),
                            ),
                        forall|p: int|
                            0 <= p < primitive_index ==> ((#[trigger] doc.meshes@[
                                mesh_index as int
                            ].primitives@[p]).material matches Some(mm) ==> (mm as int)
                                < doc.materials.len()),
                    decreases num_primitives - primitive_index,
                {
                    let prim = &doc.meshes[mesh_index].primitives[primitive_index];
                    let buffers = match StagingBuffers::new(
                        doc,
                        views,
                        prim,
                        node_index as u32,
                    ) {
                        Ok(b) => b,
                        Err(e) => {
                            proof {
                                assert(!crate::model::spec_mesh_prims_ok(
                                    *doc,
                                    sv,
                                    mesh_index as int,
                                ));
                                assert(!spec_animated_node_ok(*doc, sv, node_index as int));
                            }
                            return Err(e);
                        },
                    };
                    let material_index = match prim.material {
                        Some(m) => m,
                        None => 0,
                    };
                    let (alpha_mode, double_sided) = match prim.material {
                        Some(m) => {
                            if m < doc.materials.len() {
                                let mat = &doc.materials[m];
                                (mat.alpha_mode, mat.double_sided)
                            } else {
                                proof {
                                    assert(!crate::model::spec_mesh_materials_ok(
                                        *doc,
                                        mesh_index as int,
                                    ));
                                    assert(!spec_animated_node_ok(*doc, sv, node_index as int));
                                }
                                return Err(LoadError::MaterialOutOfRange { material: m });
                            }
                        },
                        None => (crate::document::AlphaMode::Opaque, false),
                    };
                    let bounding_box = crate::culling::BoundingBox::new(&buffers.positions);
                    let bounding_sphere = crate::culling::BoundingSphere::new(&buffers.positions);
                    let staged = StagingPrimitive {
                        lods: {
                            let mut lods: Vec<StagingPrimitiveLod> = Vec::new();
                            lods.push(StagingPrimitiveLod { buffers, material_index });
                            lods
                        },
                        bounding_box,
                        bounding_sphere,
                        transform: Similarity::identity(),
                        screen_coverages: Vec::new(),
                    };
                    match (alpha_mode, double_sided) {
                        (crate::document::AlphaMode::Opaque, false) => buckets.opaque_single.push(
                            staged,
                        ),
                        (crate::document::AlphaMode::Opaque, true) => buckets.opaque_double.push(
                            staged,
                        ),
                        (crate::document::AlphaMode::Mask, false) => buckets.alpha_clipped_single
                            .push(staged),
                        (crate::document::AlphaMode::Mask, true) => buckets.alpha_clipped_double
                            .push(staged),
                        (crate::document::AlphaMode::Blend, false) => buckets.alpha_blended_single
                            .push(staged),
                        (crate::document::AlphaMode::Blend, true) => buckets.alpha_blended_double
                            .push(staged),
                    }
                    primitive_index += 1;
                }
                proof {
                    assert(crate::model::spec_mesh_prims_ok(*doc, sv, mesh_index as int));
                    assert(crate::model::spec_mesh_materials_ok(*doc, mesh_index as int));
                    assert(spec_animated_node_ok(*doc, sv, node_index as int));
                }
            },
            None => {
                proof {
                    assert(spec_animated_node_ok(*doc, sv, node_index as int));
                }
            },
        }
        node_index += 1;
    }
    let (primitive_ranges, primitives, staging_buffers) = match collect_all_primitives(&buckets) {
        Ok(t) => t,
        Err(e) => {
            return Err(e);
        },
    };
    proof {
        let pr = primitive_ranges;
        assert forall|k: int| 0 <= k < primitives.len() implies (
        #[trigger] primitives[k]).lods.len() >= 1 && primitives[k].transform
            == crate::similarity::spec_identity() && primitives[k].screen_coverages@.len() == 0 by {
            if k < pr.opaque.single.primitives.end {
                assert(spec_prim_matches(
                    primitives[k],
                    buckets.opaque_single[k - pr.opaque.single.primitives.start],
                    pr.opaque.single.indices.start as int,
                    pr.opaque.single.indices.end as int,
                ));
            } else if k < pr.opaque.double.primitives.end {
                assert(spec_prim_matches(
                    primitives[k],
                    buckets.opaque_double[k - pr.opaque.double.primitives.start],
                    pr.opaque.double.indices.start as int,
                    pr.opaque.double.indices.end as int,
                ));
            } else if k < pr.alpha_clipped.single.primitives.end {
                assert(spec_prim_matches(
                    primitives[k],
                    buckets.alpha_clipped_single[k - pr.alpha_clipped.single.primitives.start],
                    pr.alpha_clipped.single.indices.start as int,
                    pr.alpha_clipped.single.indices.end as int,
                ));
            } else if k < pr.alpha_clipped.double.primitives.end {
                assert(spec_prim_matches(
                    primitives[k],
                    buckets.alpha_clipped_double[k - pr.alpha_clipped.double.primitives.start],
                    pr.alpha_clipped.double.indices.start as int,
                    pr.alpha_clipped.double.indices.end as int,
                ));
            } else if k < pr.alpha_blended.single.primitives.end {
                assert(spec_prim_matches(
                    primitives[k],
                    buckets.alpha_blended_single[k - pr.alpha_blended.single.primitives.start],
                    pr.alpha_blended.single.indices.start as int,
                    pr.alpha_blended.single.indices.end as int,
                ));
            } else {
                assert(spec_prim_matches(
                    primitives[k],
                    buckets.alpha_blended_double[k - pr.alpha_blended.double.primitives.start],
                    pr.alpha_blended.double.indices.start as int,
                    pr.alpha_blended.double.indices.end as int,
                ));
            }
        }
    }
    let (animations, anim_warned) = match read_animations(doc, views) {
        Ok(p) => p,
        Err(e) => {
            return Err(e);
        },
    };
    if anim_warned {
        warnings = true;
    }
    if doc.skins.len() > 1 {
        warnings = true;
    }
    let mut joint_indices_to_node_indices: Vec<usize> = Vec::new();
    let mut inverse_bind_transforms: Vec<Similarity> = Vec::new();
    if doc.skins.len() > 0 {
        let skin = &doc.skins[0];
        let mut j: usize = 0;
        while j < skin.joints.len()
            invariant
                j <= skin.joints.len(),
                n == doc.nodes.len(),
                doc.skins.len() > 0,
                *skin == doc.skins@[0],
                joint_indices_to_node_indices.len() == j,
                forall|k: int|
                    0 <= k < j ==> (#[trigger] joint_indices_to_node_indices[k]) < n,
                forall|k: int|
                    0 <= k < j ==> (#[trigger] joint_indices_to_node_indices[k]) == doc.skins@[0].joints[k],
            decreases skin.joints.len() - j,
        {
            let node = skin.joints[j];
            if node >= n {
                proof {
                    assert(doc.skins@[0].joints@[j as int] == node);
                    assert(!spec_skin_ok(*doc, sv));
                }
                return Err(LoadError::ChildOutOfRange { child: node });
            }
            joint_indices_to_node_indices.push(node);
            j += 1;
        }
        let ibm_accessor = match skin.inverse_bind_matrices {
            Some(a) => a,
            None => {
                proof {
                    assert(!spec_skin_ok(*doc, sv));
                }
                return Err(LoadError::MissingInverseBindMatrices);
            },
        };
        let (bytes, stride) = match read_buffer_with_accessor(doc, views, ibm_accessor) {
            Ok(p) => p,
            Err(e) => {
                proof {
                    assert(!spec_skin_ok(*doc, sv));
                }
                return Err(e);
            },
        };
        let ia = &doc.accessors[ibm_accessor];
        let decoded = match crate::accessor::read_mat4_similarities(
            bytes.as_slice(),
            ia.component_type,
            ia.normalized,
            stride,
            ia.count,
        ) {
            Ok(v) => v,
            Err(e) => {
                proof {
                    assert(!spec_skin_ok(*doc, sv));
                }
                return Err(e);
            },
        };
        if decoded.len() != joint_indices_to_node_indices.len() {
            proof {
                assert(!spec_skin_ok(*doc, sv));
            }
            return Err(
                LoadError::AttributeCountMismatch {
                    expected: joint_indices_to_node_indices.len(),
                    got: decoded.len(),
                },
            );
        }
        inverse_bind_transforms = decoded;
        proof {
            assert forall|jq: int| 0 <= jq < doc.skins@[0].joints.len() implies (
            #[trigger] doc.skins@[0].joints@[jq]) < n by {
                assert(joint_indices_to_node_indices[jq] == doc.skins@[0].joints[jq]);
                assert(joint_indices_to_node_indices[jq] < n);
            }
            assert(spec_skin_ok(*doc, sv));
        }
    } else {
        let mut j: usize = 0;
        while j < n
            invariant
                j <= n,
                joint_indices_to_node_indices.len() == j,
                inverse_bind_transforms.len() == j,
                forall|k: int|
                    0 <= k < j ==> (#[trigger] joint_indices_to_node_indices[k]) < n,
                forall|k: int|
                    0 <= k < j ==> (#[trigger] joint_indices_to_node_indices[k]) == k,
                forall|k: int|
                    0 <= k < j ==> (#[trigger] inverse_bind_transforms[k])
                        == crate::similarity::spec_identity(),
            decreases n - j,
        {
            joint_indices_to_node_indices.push(j);
            inverse_bind_transforms.push(Similarity::identity());
            j += 1;
        }
        proof {
            assert(spec_skin_ok(*doc, sv));
        }
    }
    let mut initial_locals: Vec<Similarity> = Vec::new();
    let mut j: usize = 0;
    while j < n
        invariant
            j <= n,
            n == doc.nodes.len(),
            initial_locals.len() == j,
        decreases n - j,
    {
        initial_locals.push(doc.nodes[j].local_transform);
        j += 1;
    }
    let animation_joints = AnimationJoints::new(&initial_locals, &depth_first_nodes);
    Ok(
        StagedAnimatedModel {
            primitives,
            primitive_ranges,
            staging_buffers,
            animation_data: AnimatedModelData {
                animations,
                depth_first_nodes,
                inverse_bind_transforms,
                joint_indices_to_node_indices,
                animation_joints,
            },
            warnings,
        },
    )
}

} // verus!
