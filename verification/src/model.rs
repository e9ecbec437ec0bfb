//! Primitive batching and staging buffers.
//!
//! Decoded primitives are bucketed by blend mode and face sidedness,
//! their vertex and index data merged into shared staging buffers with
//! indices re-based by the running vertex count, and every insertion
//! returns a half-open local range.  After the caller uploads the
//! staging data, the local ranges are re-based once more by the
//! destination buffer's start offset, so the batching logic never
//! depends on the final buffer layout.

use vstd::prelude::*;

use crate::culling::{BoundingBox, BoundingSphere};
use crate::document::{GltfDocument, PrimitiveDef};
use crate::error::LoadError;
use crate::fixed::Fixed;
use crate::similarity::Similarity;
use crate::vecmath::{FxVec2, FxVec3, FxVec4, JointIndices};

verus! {

/// A half-open range of indices in a GPU buffer.
#[derive(Clone, Copy, Debug, PartialEq, Eq, Structural)]
pub struct RangeU32 {
    pub start: u32,
    pub end: u32,
}

/// A half-open range of positions in a host-side list.
#[derive(Clone, Copy, Debug, PartialEq, Eq, Structural)]
pub struct RangeUsize {
    pub start: usize,
    pub end: usize,
}

/// One level of detail of a drawable primitive.
#[derive(Clone, Copy, Debug, PartialEq, Eq, Structural)]
pub struct PrimitiveLod {
    pub index_buffer_range: RangeU32,
    pub material_index: usize,
    pub is_lightmapped: bool,
}

/// One drawable primitive with its levels of detail, bounding
/// volumes, pre-baked transform and coverage thresholds.
#[derive(Clone, Debug)]
pub struct Primitive {
    pub lods: Vec<PrimitiveLod>,
    pub bounding_box: BoundingBox,
    pub bounding_sphere: BoundingSphere,
    pub transform: Similarity,
    pub screen_coverages: Vec<Fixed>,
}

impl Primitive {
    /// What level-of-detail selection and culling need of a
    /// primitive: one more level than coverage thresholds, thresholds
    /// ascending.
    pub open spec fn wf(self) -> bool {
        &&& self.lods.len() == self.screen_coverages.len() + 1
        &&& forall|i: int, j: int|
            0 <= i <= j < self.screen_coverages.len() ==> (#[trigger] self.screen_coverages[i]).raw
                <= (#[trigger] self.screen_coverages[j]).raw
    }

    /// Runtime check of `wf`, for callers handing primitives to the
    /// per-frame scan.
    pub fn is_cullable(&self) -> (r: bool)
        ensures
            r == self.wf(),
    {
        if self.lods.len() == 0 || self.lods.len() - 1 != self.screen_coverages.len() {
            return false;
        }
        let mut i: usize = 1;
        while i < self.screen_coverages.len()
            invariant
                1 <= i,
                i <= self.screen_coverages.len() || self.screen_coverages.len() == 0,
                forall|a: int, b: int|
                    0 <= a <= b < i ==> (#[trigger] self.screen_coverages[a]).raw
                        <= (#[trigger] self.screen_coverages[b]).raw,
            decreases self.screen_coverages.len() - i,
        {
            if self.screen_coverages[i - 1].raw > self.screen_coverages[i].raw {
                return false;
            }
            proof {
                assert forall|a: int, b: int| 0 <= a <= b < i + 1 implies (
                #[trigger] self.screen_coverages[a]).raw
                    <= (#[trigger] self.screen_coverages[b]).raw by {
                    if b == i && a < i {
                        assert(self.screen_coverages[a].raw <= self.screen_coverages[i - 1].raw);
                    }
                }
            }
            i += 1;
        }
        true
    }
}

/// The index and primitive spans one bucket occupies after
/// collection.
#[derive(Clone, Copy, Debug, PartialEq, Eq, Structural)]
pub struct Ranges {
    pub indices: RangeU32,
    pub primitives: RangeUsize,
}

/// The two face-sidedness variants of one blend mode.
#[derive(Clone, Copy, Debug, PartialEq, Eq, Structural)]
pub struct FaceSidesRanges {
    pub single: Ranges,
    pub double: Ranges,
}

/// Where each of the six (blend mode x sidedness) buckets landed.
#[derive(Clone, Copy, Debug, PartialEq, Eq, Structural)]
pub struct PrimitiveRanges {
    pub opaque: FaceSidesRanges,
    pub alpha_clipped: FaceSidesRanges,
    pub alpha_blended: FaceSidesRanges,
}

/// Host-side vertex and index data accumulated before one GPU upload.
#[derive(Clone, Debug)]
pub struct StagingBuffers {
    pub indices: Vec<u32>,
    pub positions: Vec<FxVec3>,
    pub normals: Vec<FxVec3>,
    pub uvs: Vec<FxVec2>,
    pub lightmap_uvs: Vec<FxVec2>,
    pub joint_indices: Vec<JointIndices>,
    pub joint_weights: Vec<FxVec4>,
    pub is_lightmapped: bool,
}

impl StagingBuffers {
    /// Attribute lists of equal length, every index inside them, and
    /// few enough vertices that indices fit the GPU's 32-bit type.
    pub open spec fn wf(self) -> bool {
        &&& self.normals.len() == self.positions.len()
        &&& self.uvs.len() == self.positions.len()
        &&& self.lightmap_uvs.len() == self.positions.len()
        &&& self.joint_indices.len() == self.positions.len()
        &&& self.joint_weights.len() == self.positions.len()
        &&& self.positions.len() <= u32::MAX
        &&& forall|i: int|
            0 <= i < self.indices.len() ==> (#[trigger] self.indices[i]) < self.positions.len()
    }

    /// An empty staging buffer.
    pub fn new_empty() -> (r: StagingBuffers)
        ensures
            r.wf(),
            r.indices.len() == 0,
            r.positions.len() == 0,
            r.is_lightmapped == false,
    {
        StagingBuffers {
            indices: Vec::new(),
            positions: Vec::new(),
            normals: Vec::new(),
            uvs: Vec::new(),
            lightmap_uvs: Vec::new(),
            joint_indices: Vec::new(),
            joint_weights: Vec::new(),
            is_lightmapped: false,
        }
    }

    /// Number of indices staged so far.
    pub fn num_indices(&self) -> (r: u32)
        requires
            self.indices.len() <= u32::MAX,
        ensures
            r == self.indices.len(),
    {
        self.indices.len() as u32
    }

    /// Append another primitive's data: its indices re-based by the
    /// running vertex count, its attributes concatenated.  Returns the
    /// half-open range the new indices occupy, local to this buffer.
    pub fn collect(&mut self, new: &StagingBuffers) -> (r: RangeU32)
        requires
            old(self).wf(),
            new.wf(),
            old(self).positions.len() + new.positions.len() <= u32::MAX,
            old(self).indices.len() + new.indices.len() <= u32::MAX,
        ensures
            final(self).wf(),
            r.start == old(self).indices.len(),
            r.end == final(self).indices.len(),
            final(self).indices.len() == old(self).indices.len() + new.indices.len(),
            final(self).positions.len() == old(self).positions.len() + new.positions.len(),
            final(self).positions@ == old(self).positions@ + new.positions@,
            final(self).normals@ == old(self).normals@ + new.normals@,
            final(self).uvs@ == old(self).uvs@ + new.uvs@,
            final(self).lightmap_uvs@ == old(self).lightmap_uvs@ + new.lightmap_uvs@,
            final(self).joint_indices@ == old(self).joint_indices@ + new.joint_indices@,
            final(self).joint_weights@ == old(self).joint_weights@ + new.joint_weights@,
            forall|i: int|
                0 <= i < old(self).indices.len() ==> (#[trigger] final(self).indices[i]) == old(
                    self,
                ).indices[i],
            forall|i: int|
                0 <= i < new.indices.len() ==> (#[trigger] final(self).indices[
                    old(self).indices.len() + i
                ]) == new.indices[i] + old(self).positions.len(),
            final(self).is_lightmapped == old(self).is_lightmapped,
    {
        let indices_start = self.indices.len() as u32;
        let num_vertices = self.positions.len() as u32;
        let mut i: usize = 0;
        while i < new.indices.len()
            invariant
                new.wf(),
                num_vertices == old(self).positions.len(),
                self.indices.len() == old(self).indices.len() + i,
                old(self).indices.len() + new.indices.len() <= u32::MAX,
                old(self).positions.len() + new.positions.len() <= u32::MAX,
                i <= new.indices.len(),
                self.positions@ == old(self).positions@,
                self.normals@ == old(self).normals@,
                self.uvs@ == old(self).uvs@,
                self.lightmap_uvs@ == old(self).lightmap_uvs@,
                self.joint_indices@ == old(self).joint_indices@,
                self.joint_weights@ == old(self).joint_weights@,
                self.is_lightmapped == old(self).is_lightmapped,
                forall|j: int|
                    0 <= j < old(self).indices.len() ==> (#[trigger] self.indices[j]) == old(
                        self,
                    ).indices[j],
                forall|j: int|
                    0 <= j < i ==> (#[trigger] self.indices[old(self).indices.len() + j])
                        == new.indices[j] + old(self).positions.len(),
                forall|j: int|
                    0 <= j < self.indices.len() ==> (#[trigger] self.indices[j])
                        < old(self).positions.len() + new.positions.len(),
            decreases new.indices.len() - i,
        {
            let idx = new.indices[i];
            self.indices.push(idx + num_vertices);
            i += 1;
        }
        let ghost idxs_done = self.indices@;
        proof {
            assert(idxs_done.len() == old(self).indices.len() + new.indices.len());
        }
        let mut i: usize = 0;
        while i < new.positions.len()
            invariant
                i <= new.positions.len(),
                self.indices@ == idxs_done,
                self.normals@ == old(self).normals@,
                self.uvs@ == old(self).uvs@,
                self.lightmap_uvs@ == old(self).lightmap_uvs@,
                self.joint_indices@ == old(self).joint_indices@,
                self.joint_weights@ == old(self).joint_weights@,
                self.is_lightmapped == old(self).is_lightmapped,
                self.positions@ == old(self).positions@ + new.positions@.take(i as int),
            decreases new.positions.len() - i,
        {
            self.positions.push(new.positions[i]);
            proof {
                assert(new.positions@.take(i + 1) =~= new.positions@.take(i as int).push(
                    new.positions@[i as int],
                ));
            }
            i += 1;
        }
        let ghost pos_done = self.positions@;
        let mut i: usize = 0;
        while i < new.normals.len()
            invariant
                i <= new.normals.len(),
                self.indices@ == idxs_done,
                self.positions@ == pos_done,
                self.uvs@ == old(self).uvs@,
                self.lightmap_uvs@ == old(self).lightmap_uvs@,
                self.joint_indices@ == old(self).joint_indices@,
                self.joint_weights@ == old(self).joint_weights@,
                self.is_lightmapped == old(self).is_lightmapped,
                self.normals@ == old(self).normals@ + new.normals@.take(i as int),
            decreases new.normals.len() - i,
        {
            self.normals.push(new.normals[i]);
            proof {
                assert(new.normals@.take(i + 1) =~= new.normals@.take(i as int).push(
                    new.normals@[i as int],
                ));
            }
            i += 1;
        }
        let ghost norm_done = self.normals@;
        let mut i: usize = 0;
        while i < new.uvs.len()
            invariant
                i <= new.uvs.len(),
                self.indices@ == idxs_done,
                self.positions@ == pos_done,
                self.normals@ == norm_done,
                self.lightmap_uvs@ == old(self).lightmap_uvs@,
                self.joint_indices@ == old(self).joint_indices@,
                self.joint_weights@ == old(self).joint_weights@,
                self.is_lightmapped == old(self).is_lightmapped,
                self.uvs@ == old(self).uvs@ + new.uvs@.take(i as int),
            decreases new.uvs.len() - i,
        {
            self.uvs.push(new.uvs[i]);
            proof {
                assert(new.uvs@.take(i + 1) =~= new.uvs@.take(i as int).push(new.uvs@[i as int]));
            }
            i += 1;
        }
        let ghost uvs_done = self.uvs@;
        let mut i: usize = 0;
        while i < new.lightmap_uvs.len()
            invariant
                i <= new.lightmap_uvs.len(),
                self.indices@ == idxs_done,
                self.positions@ == pos_done,
                self.normals@ == norm_done,
                self.uvs@ == uvs_done,
                self.joint_indices@ == old(self).joint_indices@,
                self.joint_weights@ == old(self).joint_weights@,
                self.is_lightmapped == old(self).is_lightmapped,
                self.lightmap_uvs@ == old(self).lightmap_uvs@ + new.lightmap_uvs@.take(i as int),
            decreases new.lightmap_uvs.len() - i,
        {
            self.lightmap_uvs.push(new.lightmap_uvs[i]);
            proof {
                assert(new.lightmap_uvs@.take(i + 1) =~= new.lightmap_uvs@.take(i as int).push(
                    new.lightmap_uvs@[i as int],
                ));
            }
            i += 1;
        }
        let ghost lm_done = self.lightmap_uvs@;
        let mut i: usize = 0;
        while i < new.joint_indices.len()
            invariant
                i <= new.joint_indices.len(),
                self.indices@ == idxs_done,
                self.positions@ == pos_done,
                self.normals@ == norm_done,
                self.uvs@ == uvs_done,
                self.lightmap_uvs@ == lm_done,
                self.is_lightmapped == old(self).is_lightmapped,
                self.joint_weights@ == old(self).joint_weights@,
                self.joint_indices@ == old(self).joint_indices@ + new.joint_indices@.take(i as int),
            decreases new.joint_indices.len() - i,
        {
            self.joint_indices.push(new.joint_indices[i]);
            proof {
                assert(new.joint_indices@.take(i + 1) =~= new.joint_indices@.take(i as int).push(
                    new.joint_indices@[i as int],
                ));
            }
            i += 1;
        }
        let ghost ji_done = self.joint_indices@;
        let mut i: usize = 0;
        while i < new.joint_weights.len()
            invariant
                i <= new.joint_weights.len(),
                self.indices@ == idxs_done,
                self.positions@ == pos_done,
                self.normals@ == norm_done,
                self.uvs@ == uvs_done,
                self.lightmap_uvs@ == lm_done,
                self.joint_indices@ == ji_done,
                self.is_lightmapped == old(self).is_lightmapped,
                self.joint_weights@ == old(self).joint_weights@ + new.joint_weights@.take(i as int),
            decreases new.joint_weights.len() - i,
        {
            self.joint_weights.push(new.joint_weights[i]);
            proof {
                assert(new.joint_weights@.take(i + 1) =~= new.joint_weights@.take(i as int).push(
                    new.joint_weights@[i as int],
                ));
            }
            i += 1;
        }
        let indices_end = self.indices.len() as u32;
        proof {
            assert(self.indices@ == idxs_done);
            assert(self.positions@ =~= old(self).positions@ + new.positions@);
            assert(self.normals@ =~= old(self).normals@ + new.normals@);
            assert(self.uvs@ =~= old(self).uvs@ + new.uvs@);
            assert(self.lightmap_uvs@ =~= old(self).lightmap_uvs@ + new.lightmap_uvs@);
            assert(self.joint_indices@ =~= old(self).joint_indices@ + new.joint_indices@);
            assert(self.joint_weights@ =~= old(self).joint_weights@ + new.joint_weights@);
        }
        RangeU32 { start: indices_start, end: indices_end }
    }
}

/// The effective byte stride of an accessor: the compression
/// extension's stride, else the buffer view's, else the tight size of
/// one element.
pub open spec fn spec_accessor_stride(doc: GltfDocument, idx: int) -> int {
    let a = doc.accessors[idx];
    let bv = doc.buffer_views[a.buffer_view->0 as int];
    if bv.meshopt is Some {
        bv.meshopt->0.byte_stride as int
    } else if bv.byte_stride is Some {
        bv.byte_stride->0 as int
    } else {
        crate::document::spec_component_byte_size(a.component_type) as int
            * crate::document::spec_num_components(a.kind) as int
    }
}

/// Whether an accessor's byte window can be cut out of the loaded
/// buffer views.
pub open spec fn spec_accessor_ok(doc: GltfDocument, views: Seq<Seq<u8>>, idx: int) -> bool {
    &&& 0 <= idx < doc.accessors.len()
    &&& doc.accessors[idx].buffer_view is Some
    &&& (doc.accessors[idx].buffer_view->0 as int) < doc.buffer_views.len()
    &&& doc.accessors[idx].byte_offset + doc.accessors[idx].count * spec_accessor_stride(doc, idx)
        <= views[doc.accessors[idx].buffer_view->0 as int].len()
}

/// The byte window an accessor denotes.
pub open spec fn spec_accessor_bytes(doc: GltfDocument, views: Seq<Seq<u8>>, idx: int) -> Seq<u8> {
    let a = doc.accessors[idx];
    views[a.buffer_view->0 as int].subrange(
        a.byte_offset as int,
        a.byte_offset + a.count * spec_accessor_stride(doc, idx),
    )
}

/// The views of a list of byte buffers.
pub open spec fn spec_views(views: Seq<Vec<u8>>) -> Seq<Seq<u8>> {
    views.map_values(|v: Vec<u8>| v@)
}

/// Cut an accessor's byte window out of the loaded buffer views,
/// returning the bytes and the buffer view's declared stride.  Fails
/// with the exact malformation: a missing or out-of-range buffer
/// view, an out-of-range accessor index, or a window past the view's
/// bytes.
pub fn read_buffer_with_accessor(
    doc: &GltfDocument,
    views: &Vec<Vec<u8>>,
    accessor_index: usize,
) -> (r: Result<(Vec<u8>, Option<usize>), LoadError>)
    requires
        views.len() == doc.buffer_views.len(),
    ensures
        r.is_ok() <==> spec_accessor_ok(*doc, spec_views(views@), accessor_index as int),
        r matches Ok(p) ==> p.0@ == spec_accessor_bytes(*doc, spec_views(views@), accessor_index as int)
            && p.1 == doc.buffer_views@[doc.accessors@[accessor_index as int].buffer_view->0 as int].byte_stride,
{
    if accessor_index >= doc.accessors.len() {
        return Err(LoadError::AccessorOutOfRange { accessor: accessor_index });
    }
    let a = &doc.accessors[accessor_index];
    let bv_index = match a.buffer_view {
        Some(i) => i,
        None => {
            return Err(LoadError::MissingBufferView);
        },
    };
    if bv_index >= doc.buffer_views.len() {
        return Err(LoadError::BufferViewOutOfRange { buffer_view: bv_index });
    }
    let bv = &doc.buffer_views[bv_index];
    let stride: usize = match &bv.meshopt {
        Some(ext) => ext.byte_stride,
        None => match bv.byte_stride {
            Some(s) => s,
            None => {
                let cs = a.component_type.byte_size();
                let nc = a.kind.num_components();
                assert(cs <= 4 && nc <= 16);
                cs * nc
            },
        },
    };
    let view_bytes = &views[bv_index];
    let avail = view_bytes.len();
    if a.byte_offset > avail {
        return Err(LoadError::AccessorRangeOutOfBounds);
    }
    if stride > 0 && a.count > (avail - a.byte_offset) / stride {
        proof {
            let av = avail as int;
            let off = a.byte_offset as int;
            let st = stride as int;
            let q = (av - off) / st;
            let rm = (av - off) % st;
            vstd::arithmetic::div_mod::lemma_fundamental_div_mod(av - off, st);
            assert(a.count as int * st > av - off) by (nonlinear_arith)
                requires
                    a.count as int > q,
                    av - off == st * q + rm,
                    rm < st,
                    st > 0,
            ;
        }
        return Err(LoadError::AccessorRangeOutOfBounds);
    }
    proof {
        let av = avail as int;
        let off = a.byte_offset as int;
        let st = stride as int;
        if st > 0 {
            let q = (av - off) / st;
            let rm = (av - off) % st;
            vstd::arithmetic::div_mod::lemma_fundamental_div_mod(av - off, st);
            assert(a.count as int * st <= av - off) by (nonlinear_arith)
                requires
                    a.count as int <= q,
                    av - off == st * q + rm,
                    0 <= rm,
                    st > 0,
            ;
        } else {
            assert(a.count as int * st == 0) by (nonlinear_arith)
                requires
                    st == 0,
            ;
        }
        assert(a.count as int * st <= av - off);
    }
    let window = a.count * stride;
    let mut out: Vec<u8> = Vec::new();
    let mut i: usize = 0;
    while i < window
        invariant
            out.len() == i <= window,
            a.byte_offset + window <= view_bytes.len(),
            forall|j: int| 0 <= j < i ==> (#[trigger] out[j]) == view_bytes[a.byte_offset + j],
        decreases window - i,
    {
        out.push(view_bytes[a.byte_offset + i]);
        i += 1;
    }
    proof {
        assert(spec_views(views@)[bv_index as int] == view_bytes@);
        assert(out@ =~= spec_accessor_bytes(*doc, spec_views(views@), accessor_index as int));
    }
    Ok((out, bv.byte_stride))
}

/// The stride the accessor's buffer view declares (what the decode
/// table dispatches on).
pub open spec fn spec_attr_stride(doc: GltfDocument, idx: int) -> Option<usize> {
    doc.buffer_views@[doc.accessors@[idx].buffer_view->0 as int].byte_stride
}

/// Whether a three-component attribute accessor can be decoded, with
/// the expected element count.
pub open spec fn spec_vec3_attr_ok(
    doc: GltfDocument,
    views: Seq<Seq<u8>>,
    idx: int,
    expected_count: int,
) -> bool {
    let a = doc.accessors@[idx];
    &&& spec_accessor_ok(doc, views, idx)
    &&& crate::accessor::spec_vec3_supported(a.component_type, a.normalized, spec_attr_stride(doc, idx))
    &&& spec_accessor_bytes(doc, views, idx).len() >= a.count * crate::accessor::spec_vec3_elem_size(
        a.component_type,
        a.normalized,
        spec_attr_stride(doc, idx),
    )
    &&& a.count == expected_count
}

/// Whether a two-component attribute accessor can be decoded, with
/// the expected element count.
pub open spec fn spec_vec2_attr_ok(
    doc: GltfDocument,
    views: Seq<Seq<u8>>,
    idx: int,
    expected_count: int,
) -> bool {
    let a = doc.accessors@[idx];
    &&& spec_accessor_ok(doc, views, idx)
    &&& crate::accessor::spec_vec2_supported(a.component_type, a.normalized, spec_attr_stride(doc, idx))
    &&& spec_accessor_bytes(doc, views, idx).len() >= a.count * crate::accessor::spec_vec2_elem_size(
        a.component_type,
    )
    &&& a.count == expected_count
}

/// Whether a four-component attribute accessor can be decoded, with
/// the expected element count.
pub open spec fn spec_vec4_attr_ok(
    doc: GltfDocument,
    views: Seq<Seq<u8>>,
    idx: int,
    expected_count: int,
) -> bool {
    let a = doc.accessors@[idx];
    &&& spec_accessor_ok(doc, views, idx)
    &&& crate::accessor::spec_vec4_supported(a.component_type, a.normalized, spec_attr_stride(doc, idx))
    &&& spec_accessor_bytes(doc, views, idx).len() >= a.count * crate::accessor::spec_vec4_elem_size(
        a.component_type,
    )
    &&& a.count == expected_count
}

/// Whether a joint-index accessor can be decoded, with the expected
/// element count.
pub open spec fn spec_joints_attr_ok(
    doc: GltfDocument,
    views: Seq<Seq<u8>>,
    idx: int,
    expected_count: int,
) -> bool {
    let a = doc.accessors@[idx];
    &&& spec_accessor_ok(doc, views, idx)
    &&& crate::accessor::spec_joints_supported(a.component_type, a.normalized, spec_attr_stride(doc, idx))
    &&& spec_accessor_bytes(doc, views, idx).len() >= a.count * 4
    &&& a.count == expected_count
}

/// Whether an index accessor can be decoded and every decoded index
/// stays inside the vertex count.
pub open spec fn spec_index_attr_ok(
    doc: GltfDocument,
    views: Seq<Seq<u8>>,
    idx: int,
    vertex_count: int,
) -> bool {
    let a = doc.accessors@[idx];
    &&& spec_accessor_ok(doc, views, idx)
    &&& crate::accessor::spec_index_supported(a.component_type, a.normalized, spec_attr_stride(doc, idx))
    &&& spec_accessor_bytes(doc, views, idx).len() >= a.count
        * crate::accessor::spec_index_elem_size(a.component_type)
    &&& forall|i: int|
        0 <= i < a.count ==> (#[trigger] crate::accessor::spec_index_at(
            spec_accessor_bytes(doc, views, idx),
            a.component_type,
            i,
        )) < vertex_count
}

/// Whether one primitive's vertex and index data decodes: positions
/// present, decodable and few enough for 32-bit indices, and every
/// present attribute decodable with a matching element count (indices
/// additionally staying inside the vertex count).
pub open spec fn spec_staging_ok(doc: GltfDocument, views: Seq<Seq<u8>>, prim: PrimitiveDef) -> bool {
    &&& prim.attributes.position is Some
    &&& {
        let pidx = prim.attributes.position->0 as int;
        let count = doc.accessors@[pidx].count as int;
        &&& spec_vec3_attr_ok(doc, views, pidx, count)
        &&& count <= u32::MAX
        &&& (prim.indices matches Some(ii) ==> spec_index_attr_ok(doc, views, ii as int, count))
        &&& (prim.attributes.normal matches Some(ni) ==> spec_vec3_attr_ok(
            doc,
            views,
            ni as int,
            count,
        ))
        &&& (prim.attributes.texcoord_0 matches Some(ti) ==> spec_vec2_attr_ok(
            doc,
            views,
            ti as int,
            count,
        ))
        &&& (prim.attributes.texcoord_1 matches Some(li) ==> spec_vec2_attr_ok(
            doc,
            views,
            li as int,
            count,
        ))
        &&& (prim.attributes.joints_0 matches Some(ji) ==> spec_joints_attr_ok(
            doc,
            views,
            ji as int,
            count,
        ))
        &&& (prim.attributes.weights_0 matches Some(wi) ==> spec_vec4_attr_ok(
            doc,
            views,
            wi as int,
            count,
        ))
    }
}

impl StagingBuffers {
    /// Decode one primitive's vertex and index data.  Positions are
    /// required; missing indices become the sequential `0..n`;
    /// missing normals and texture coordinates become zero vectors; a
    /// second texture-coordinate set marks the primitive as
    /// lightmapped.  Vertices without joint data pin to the owning
    /// node: their joint indices become `node_index` and their weights
    /// `[1, 0, 0, 0]`.  Succeeds exactly when the primitive decodes.
    #[verifier::rlimit(100)]
    pub fn new(
        doc: &GltfDocument,
        views: &Vec<Vec<u8>>,
        primitive: &PrimitiveDef,
        node_index: u32,
    ) -> (r: Result<StagingBuffers, LoadError>)
        requires
            views.len() == doc.buffer_views.len(),
        ensures
            r.is_ok() <==> spec_staging_ok(*doc, spec_views(views@), *primitive),
            primitive.attributes.position is None ==> r == Err::<StagingBuffers, LoadError>(
                LoadError::MissingPositions,
            ),
            r matches Ok(sb) ==> {
                let pidx = primitive.attributes.position->0 as int;
                let pbytes = spec_accessor_bytes(*doc, spec_views(views@), pidx);
                let pa = doc.accessors@[pidx];
                &&& sb.wf()
                &&& primitive.attributes.position is Some
                &&& sb.positions.len() == pa.count
                &&& forall|i: int|
                    0 <= i < sb.positions.len() ==> (#[trigger] sb.positions[i])
                        == crate::accessor::spec_vec3_at(pbytes, pa.component_type, pa.normalized, i)
                &&& (primitive.indices is None ==> sb.indices.len() == sb.positions.len() && forall|
                    i: int,
                |
                    0 <= i < sb.indices.len() ==> (#[trigger] sb.indices[i]) == i)
                &&& (primitive.indices is Some ==> {
                    let ia = doc.accessors@[primitive.indices->0 as int];
                    let ibytes = spec_accessor_bytes(
                        *doc,
                        spec_views(views@),
                        primitive.indices->0 as int,
                    );
                    &&& sb.indices.len() == ia.count
                    &&& forall|i: int|
                        0 <= i < sb.indices.len() ==> (#[trigger] sb.indices[i])
                            == crate::accessor::spec_index_at(ibytes, ia.component_type, i)
                })
                &&& (primitive.attributes.normal is Some ==> {
                    let na = doc.accessors@[primitive.attributes.normal->0 as int];
                    let nbytes = spec_accessor_bytes(
                        *doc,
                        spec_views(views@),
                        primitive.attributes.normal->0 as int,
                    );
                    forall|i: int|
                        0 <= i < sb.normals.len() ==> (#[trigger] sb.normals[i])
                            == crate::accessor::spec_vec3_at(
                            nbytes,
                            na.component_type,
                            na.normalized,
                            i,
                        )
                })
                &&& (primitive.attributes.texcoord_0 is Some ==> {
                    let ua = doc.accessors@[primitive.attributes.texcoord_0->0 as int];
                    let ubytes = spec_accessor_bytes(
                        *doc,
                        spec_views(views@),
                        primitive.attributes.texcoord_0->0 as int,
                    );
                    forall|i: int|
                        0 <= i < sb.uvs.len() ==> (#[trigger] sb.uvs[i])
                            == crate::accessor::spec_vec2_at(ubytes, ua.component_type, i)
                })
                &&& (primitive.attributes.texcoord_1 is Some ==> {
                    let la = doc.accessors@[primitive.attributes.texcoord_1->0 as int];
                    let lbytes = spec_accessor_bytes(
                        *doc,
                        spec_views(views@),
                        primitive.attributes.texcoord_1->0 as int,
                    );
                    forall|i: int|
                        0 <= i < sb.lightmap_uvs.len() ==> (#[trigger] sb.lightmap_uvs[i])
                            == crate::accessor::spec_vec2_at(lbytes, la.component_type, i)
                })
                &&& (primitive.attributes.joints_0 is Some ==> {
                    let jbytes = spec_accessor_bytes(
                        *doc,
                        spec_views(views@),
                        primitive.attributes.joints_0->0 as int,
                    );
                    forall|i: int|
                        0 <= i < sb.joint_indices.len() ==> (#[trigger] sb.joint_indices[i])
                            == crate::accessor::spec_joints_at(jbytes, i)
                })
                &&& (primitive.attributes.weights_0 is Some ==> {
                    let wa = doc.accessors@[primitive.attributes.weights_0->0 as int];
                    let wbytes = spec_accessor_bytes(
                        *doc,
                        spec_views(views@),
                        primitive.attributes.weights_0->0 as int,
                    );
                    forall|i: int|
                        0 <= i < sb.joint_weights.len() ==> (#[trigger] sb.joint_weights[i])
                            == crate::accessor::spec_vec4_at(wbytes, wa.component_type, i)
                })
                &&& (primitive.attributes.normal is None ==> sb.normals.len()
                    == sb.positions.len() && forall|i: int|
                    0 <= i < sb.normals.len() ==> (#[trigger] sb.normals[i]) == (FxVec3 {
                        x: Fixed { raw: 0 },
                        y: Fixed { raw: 0 },
                        z: Fixed { raw: 0 },
                    }))
                &&& (primitive.attributes.texcoord_0 is None ==> sb.uvs.len()
                    == sb.positions.len() && forall|i: int|
                    0 <= i < sb.uvs.len() ==> (#[trigger] sb.uvs[i]) == (FxVec2 {
                        x: Fixed { raw: 0 },
                        y: Fixed { raw: 0 },
                    }))
                &&& (primitive.attributes.texcoord_1 is None ==> sb.lightmap_uvs.len()
                    == sb.positions.len() && forall|i: int|
                    0 <= i < sb.lightmap_uvs.len() ==> (#[trigger] sb.lightmap_uvs[i]) == (FxVec2 {
                        x: Fixed { raw: 0 },
                        y: Fixed { raw: 0 },
                    }))
                &&& (primitive.attributes.joints_0 is None ==> forall|i: int|
                    0 <= i < sb.joint_indices.len() ==> (#[trigger] sb.joint_indices[i])
                        == (JointIndices {
                        x: node_index,
                        y: node_index,
                        z: node_index,
                        w: node_index,
                    }))
                &&& (primitive.attributes.weights_0 is None ==> forall|i: int|
                    0 <= i < sb.joint_weights.len() ==> (#[trigger] sb.joint_weights[i])
                        == (FxVec4 {
                        x: Fixed { raw: 65536 },
                        y: Fixed { raw: 0 },
                        z: Fixed { raw: 0 },
                        w: Fixed { raw: 0 },
                    }))
                &&& sb.is_lightmapped == (primitive.attributes.texcoord_1 is Some)
            },
    {
        let pos_index = match primitive.attributes.position {
            Some(i) => i,
            None => {
                return Err(LoadError::MissingPositions);
            },
        };
        assert(primitive.attributes.position == Some(pos_index));
        let (pos_bytes, pos_stride) = match read_buffer_with_accessor(doc, views, pos_index) {
            Ok(p) => p,
            Err(e) => {
                return Err(e);
            },
        };
        let pa = &doc.accessors[pos_index];
        let positions = match crate::accessor::read_vec3s(
            pos_bytes.as_slice(),
            pa.component_type,
            pa.normalized,
            pos_stride,
            pa.count,
        ) {
            Ok(v) => v,
            Err(e) => {
                return Err(e);
            },
        };
        if positions.len() > u32::MAX as usize {
            return Err(LoadError::AssetTooLarge);
        }
        let indices: Vec<u32> = match primitive.indices {
            Some(aidx) => {
                let (bytes, stride) = match read_buffer_with_accessor(doc, views, aidx) {
                    Ok(p) => p,
                    Err(e) => {
                        return Err(e);
                    },
                };
                let ia = &doc.accessors[aidx];
                let decoded = match crate::accessor::read_index_u32s(
                    bytes.as_slice(),
                    ia.component_type,
                    ia.normalized,
                    stride,
                    ia.count,
                ) {
                    Ok(v) => v,
                    Err(e) => {
                        return Err(e);
                    },
                };
                let ghost ia_g = doc.accessors@[aidx as int];
                let ghost ibytes_g = spec_accessor_bytes(*doc, spec_views(views@), aidx as int);
                let mut k: usize = 0;
                while k < decoded.len()
                    invariant
                        k <= decoded.len(),
                        positions.len() <= u32::MAX,
                        primitive.attributes.position is Some,
                        primitive.indices == Some(aidx),
                        positions.len() == doc.accessors@[
                            primitive.attributes.position->0 as int
                        ].count,
                        ia_g == doc.accessors@[aidx as int],
                        ibytes_g == spec_accessor_bytes(*doc, spec_views(views@), aidx as int),
                        decoded.len() == ia_g.count,
                        forall|j: int|
                            0 <= j < decoded.len() ==> (#[trigger] decoded[j])
                                == crate::accessor::spec_index_at(ibytes_g, ia_g.component_type, j),
                        forall|j: int|
                            0 <= j < k ==> (#[trigger] decoded[j]) < positions.len(),
                    decreases decoded.len() - k,
                {
                    if decoded[k] as usize >= positions.len() {
                        proof {
                            assert(crate::accessor::spec_index_at(
                                ibytes_g,
                                ia_g.component_type,
                                k as int,
                            ) >= positions.len());
                            assert(!spec_index_attr_ok(
                                *doc,
                                spec_views(views@),
                                aidx as int,
                                positions.len() as int,
                            ));
                        }
                        return Err(LoadError::VertexIndexOutOfRange { index: decoded[k] });
                    }
                    k += 1;
                }
                proof {
                    assert forall|j: int| 0 <= j < ia_g.count implies (
                    #[trigger] crate::accessor::spec_index_at(
                        ibytes_g,
                        ia_g.component_type,
                        j,
                    )) < positions.len() by {
                        assert(decoded[j] == crate::accessor::spec_index_at(
                            ibytes_g,
                            ia_g.component_type,
                            j,
                        ));
                        assert(decoded[j] < positions.len());
                    }
                    assert(spec_index_attr_ok(
                        *doc,
                        spec_views(views@),
                        aidx as int,
                        positions.len() as int,
                    ));
                }
                decoded
            },
            None => {
                let mut seq_indices: Vec<u32> = Vec::new();
                let mut k: usize = 0;
                while k < positions.len()
                    invariant
                        k <= positions.len(),
                        positions.len() <= u32::MAX,
                        seq_indices.len() == k,
                        forall|j: int| 0 <= j < k ==> (#[trigger] seq_indices[j]) == j,
                    decreases positions.len() - k,
                {
                    seq_indices.push(k as u32);
                    k += 1;
                }
                seq_indices
            },
        };
        let normals: Vec<FxVec3> = match primitive.attributes.normal {
            Some(aidx) => {
                let (bytes, stride) = match read_buffer_with_accessor(doc, views, aidx) {
                    Ok(p) => p,
                    Err(e) => {
                        return Err(e);
                    },
                };
                let na = &doc.accessors[aidx];
                let decoded = match crate::accessor::read_vec3s(
                    bytes.as_slice(),
                    na.component_type,
                    na.normalized,
                    stride,
                    na.count,
                ) {
                    Ok(v) => v,
                    Err(e) => {
                        return Err(e);
                    },
                };
                if decoded.len() != positions.len() {
                    return Err(
                        LoadError::AttributeCountMismatch {
                            expected: positions.len(),
                            got: decoded.len(),
                        },
                    );
                }
                decoded
            },
            None => fill_zero_vec3(positions.len()),
        };
        let uvs: Vec<FxVec2> = match primitive.attributes.texcoord_0 {
            Some(aidx) => {
                let (bytes, stride) = match read_buffer_with_accessor(doc, views, aidx) {
                    Ok(p) => p,
                    Err(e) => {
                        return Err(e);
                    },
                };
                let ua = &doc.accessors[aidx];
                let decoded = match crate::accessor::read_vec2s(
                    bytes.as_slice(),
                    ua.component_type,
                    ua.normalized,
                    stride,
                    ua.count,
                ) {
                    Ok(v) => v,
                    Err(e) => {
                        return Err(e);
                    },
                };
                if decoded.len() != positions.len() {
                    return Err(
                        LoadError::AttributeCountMismatch {
                            expected: positions.len(),
                            got: decoded.len(),
                        },
                    );
                }
                decoded
            },
            None => fill_zero_vec2(positions.len()),
        };
        let joint_indices: Vec<JointIndices> = match primitive.attributes.joints_0 {
            Some(aidx) => {
                let (bytes, stride) = match read_buffer_with_accessor(doc, views, aidx) {
                    Ok(p) => p,
                    Err(e) => {
                        return Err(e);
                    },
                };
                let ja = &doc.accessors[aidx];
                let decoded = match crate::accessor::read_joint_indices(
                    bytes.as_slice(),
                    ja.component_type,
                    ja.normalized,
                    stride,
                    ja.count,
                ) {
                    Ok(v) => v,
                    Err(e) => {
                        return Err(e);
                    },
                };
                if decoded.len() != positions.len() {
                    return Err(
                        LoadError::AttributeCountMismatch {
                            expected: positions.len(),
                            got: decoded.len(),
                        },
                    );
                }
                decoded
            },
            None => fill_joint_default(positions.len(), node_index),
        };
        let joint_weights: Vec<FxVec4> = match primitive.attributes.weights_0 {
            Some(aidx) => {
                let (bytes, stride) = match read_buffer_with_accessor(doc, views, aidx) {
                    Ok(p) => p,
                    Err(e) => {
                        return Err(e);
                    },
                };
                let wa = &doc.accessors[aidx];
                let decoded = match crate::accessor::read_vec4s(
                    bytes.as_slice(),
                    wa.component_type,
                    wa.normalized,
                    stride,
                    wa.count,
                ) {
                    Ok(v) => v,
                    Err(e) => {
                        return Err(e);
                    },
                };
                if decoded.len() != positions.len() {
                    return Err(
                        LoadError::AttributeCountMismatch {
                            expected: positions.len(),
                            got: decoded.len(),
                        },
                    );
                }
                decoded
            },
            None => fill_weight_default(positions.len()),
        };
        let is_lightmapped = primitive.attributes.texcoord_1.is_some();
        let lightmap_uvs: Vec<FxVec2> = match primitive.attributes.texcoord_1 {
            Some(aidx) => {
                let (bytes, stride) = match read_buffer_with_accessor(doc, views, aidx) {
                    Ok(p) => p,
                    Err(e) => {
                        return Err(e);
                    },
                };
                let la = &doc.accessors[aidx];
                let decoded = match crate::accessor::read_vec2s(
                    bytes.as_slice(),
                    la.component_type,
                    la.normalized,
                    stride,
                    la.count,
                ) {
                    Ok(v) => v,
                    Err(e) => {
                        return Err(e);
                    },
                };
                if decoded.len() != positions.len() {
                    return Err(
                        LoadError::AttributeCountMismatch {
                            expected: positions.len(),
                            got: decoded.len(),
                        },
                    );
                }
                decoded
            },
            None => fill_zero_vec2(positions.len()),
        };
        proof {
            let sv = spec_views(views@);
            let pidx = primitive.attributes.position->0 as int;
            let count = doc.accessors@[pidx].count as int;
            assert(spec_vec3_attr_ok(*doc, sv, pidx, count));
            assert(primitive.indices matches Some(ii) ==> spec_index_attr_ok(*doc, sv, ii as int, count));
            assert(primitive.attributes.normal matches Some(ni) ==> spec_vec3_attr_ok(*doc, sv, ni as int, count));
            assert(primitive.attributes.texcoord_0 matches Some(ti) ==> spec_vec2_attr_ok(*doc, sv, ti as int, count));
            assert(primitive.attributes.texcoord_1 matches Some(li) ==> spec_vec2_attr_ok(*doc, sv, li as int, count));
            assert(primitive.attributes.joints_0 matches Some(ji) ==> spec_joints_attr_ok(*doc, sv, ji as int, count));
            assert(primitive.attributes.weights_0 matches Some(wi) ==> spec_vec4_attr_ok(*doc, sv, wi as int, count));
        }
        Ok(
            StagingBuffers {
                indices,
                positions,
                normals,
                uvs,
                lightmap_uvs,
                joint_indices,
                joint_weights,
                is_lightmapped,
            },
        )
    }
}

/// One level of detail waiting to be merged into the shared buffers.
pub struct StagingPrimitiveLod {
    pub buffers: StagingBuffers,
    pub material_index: usize,
}

/// One decoded primitive waiting to be merged into the shared
/// buffers.
pub struct StagingPrimitive {
    pub lods: Vec<StagingPrimitiveLod>,
    pub bounding_box: BoundingBox,
    pub bounding_sphere: BoundingSphere,
    pub transform: Similarity,
    pub screen_coverages: Vec<Fixed>,
}

impl StagingPrimitive {
    /// At least the base level is present, and every level's buffers
    /// are well formed.
    pub open spec fn wf(self) -> bool {
        &&& self.lods.len() >= 1
        &&& forall|l: int| 0 <= l < self.lods.len() ==> (#[trigger] self.lods[l]).buffers.wf()
    }
}

/// Whether one collected level of detail matches its staging source:
/// same material, lightmap flag taken from the buffers, a consistent
/// index range inside `[lo, hi)` whose length is the source's index
/// count.
pub open spec fn spec_lod_matches(lod: PrimitiveLod, sl: StagingPrimitiveLod, lo: int, hi: int) -> bool {
    &&& lod.material_index == sl.material_index
    &&& lod.is_lightmapped == sl.buffers.is_lightmapped
    &&& lo <= lod.index_buffer_range.start
    &&& lod.index_buffer_range.start <= lod.index_buffer_range.end
    &&& lod.index_buffer_range.end <= hi
    &&& lod.index_buffer_range.end - lod.index_buffer_range.start == sl.buffers.indices.len()
}

/// Whether one collected primitive matches its staging source, with
/// every level's index range inside `[lo, hi)`.
pub open spec fn spec_prim_matches(p: Primitive, sp: StagingPrimitive, lo: int, hi: int) -> bool {
    &&& p.transform == sp.transform
    &&& p.bounding_box == sp.bounding_box
    &&& p.bounding_sphere == sp.bounding_sphere
    &&& p.screen_coverages@ == sp.screen_coverages@
    &&& p.lods.len() == sp.lods.len()
    &&& forall|l: int|
        0 <= l < p.lods.len() ==> spec_lod_matches((#[trigger] p.lods[l]), sp.lods[l], lo, hi)
    &&& forall|l: int|
        0 <= l && l + 1 < p.lods.len() ==> (#[trigger] p.lods[l]).index_buffer_range.end == p.lods[
            l + 1
        ].index_buffer_range.start
}

/// Where the `k`-th collected primitive's first level must begin: at
/// the bucket span's start for the first one, else right where the
/// previous primitive's last level ended.  Together with the
/// adjacency of levels inside each primitive, the collected ranges
/// tile the bucket span without gaps or overlaps.
pub open spec fn spec_prim_chain_lo(prims: Seq<Primitive>, base: int, lo: int, k: int) -> int {
    if k <= 0 {
        lo
    } else {
        let q = prims[base + k - 1];
        q.lods[q.lods.len() - 1].index_buffer_range.end as int
    }
}

/// Total vertex count of the first `k` levels of one staged
/// primitive.
pub open spec fn spec_lods_vertices(lods: Seq<StagingPrimitiveLod>, k: int) -> int
    decreases k,
{
    if k <= 0 || k > lods.len() {
        0
    } else {
        spec_lods_vertices(lods, k - 1) + lods[k - 1].buffers.positions.len()
    }
}

/// Total index count of the first `k` levels of one staged primitive.
pub open spec fn spec_lods_indices(lods: Seq<StagingPrimitiveLod>, k: int) -> int
    decreases k,
{
    if k <= 0 || k > lods.len() {
        0
    } else {
        spec_lods_indices(lods, k - 1) + lods[k - 1].buffers.indices.len()
    }
}

/// Total vertex count of the first `k` staged primitives of a bucket,
/// all levels included.
pub open spec fn spec_bucket_vertices(bucket: Seq<StagingPrimitive>, k: int) -> int
    decreases k,
{
    if k <= 0 || k > bucket.len() {
        0
    } else {
        spec_bucket_vertices(bucket, k - 1) + spec_lods_vertices(
            bucket[k - 1].lods@,
            bucket[k - 1].lods@.len() as int,
        )
    }
}

/// Total index count of the first `k` staged primitives of a bucket.
pub open spec fn spec_bucket_indices(bucket: Seq<StagingPrimitive>, k: int) -> int
    decreases k,
{
    if k <= 0 || k > bucket.len() {
        0
    } else {
        spec_bucket_indices(bucket, k - 1) + spec_lods_indices(
            bucket[k - 1].lods@,
            bucket[k - 1].lods@.len() as int,
        )
    }
}

/// Prefix sums of level counts never decrease.
proof fn lemma_lods_sums_mono(lods: Seq<StagingPrimitiveLod>, a: int, b: int)
    requires
        0 <= a <= b <= lods.len(),
    ensures
        spec_lods_vertices(lods, a) <= spec_lods_vertices(lods, b),
        spec_lods_indices(lods, a) <= spec_lods_indices(lods, b),
    decreases b - a,
{
    if a < b {
        lemma_lods_sums_mono(lods, a, b - 1);
    }
}

/// Prefix sums of bucket counts never decrease.
proof fn lemma_bucket_sums_mono(bucket: Seq<StagingPrimitive>, a: int, b: int)
    requires
        0 <= a <= b <= bucket.len(),
    ensures
        spec_bucket_vertices(bucket, a) <= spec_bucket_vertices(bucket, b),
        spec_bucket_indices(bucket, a) <= spec_bucket_indices(bucket, b),
    decreases b - a,
{
    if a < b {
        lemma_bucket_sums_mono(bucket, a, b - 1);
        lemma_lods_sums_mono(bucket[b - 1].lods@, 0, bucket[b - 1].lods@.len() as int);
    }
}

/// A level match still holds when the allowed range widens.
proof fn lemma_lod_matches_widen(lod: PrimitiveLod, sl: StagingPrimitiveLod, lo: int, hi1: int, hi2: int)
    requires
        spec_lod_matches(lod, sl, lo, hi1),
        hi1 <= hi2,
    ensures
        spec_lod_matches(lod, sl, lo, hi2),
{
}

/// A primitive match still holds when the allowed range widens.
proof fn lemma_prim_matches_widen(p: Primitive, sp: StagingPrimitive, lo: int, hi1: int, hi2: int)
    requires
        spec_prim_matches(p, sp, lo, hi1),
        hi1 <= hi2,
    ensures
        spec_prim_matches(p, sp, lo, hi2),
{
    assert forall|l: int| 0 <= l < p.lods.len() implies spec_lod_matches(
        (#[trigger] p.lods[l]),
        sp.lods[l],
        lo,
        hi2,
    ) by {
        lemma_lod_matches_widen(p.lods[l], sp.lods[l], lo, hi1, hi2);
    }
}

/// Merge one bucket's primitives into the shared staging buffers,
/// appending a `Primitive` per staging primitive whose per-level index
/// ranges are local to the staging buffer.  Returns the bucket's index
/// and primitive spans.  Succeeds exactly when the accumulated vertex
/// and index totals stay inside 32-bit addressing.
pub fn collect_primitives(
    primitives: &mut Vec<Primitive>,
    staging_buffers: &mut StagingBuffers,
    staging_primitives: &Vec<StagingPrimitive>,
) -> (r: Result<Ranges, LoadError>)
    requires
        old(staging_buffers).wf(),
        old(staging_buffers).indices.len() <= u32::MAX,
        forall|i: int|
            0 <= i < staging_primitives.len() ==> (#[trigger] staging_primitives[i]).wf(),
    ensures
        final(staging_buffers).wf(),
        final(staging_buffers).indices.len() <= u32::MAX,
        forall|i: int|
            0 <= i < old(primitives).len() ==> (#[trigger] final(primitives)[i]) == old(
                primitives,
            )[i],
        old(staging_buffers).indices.len() <= final(staging_buffers).indices.len(),
        old(primitives).len() <= final(primitives).len(),
        r.is_ok() <==> old(staging_buffers).positions.len() + spec_bucket_vertices(
            staging_primitives@,
            staging_primitives@.len() as int,
        ) <= u32::MAX && old(staging_buffers).indices.len() + spec_bucket_indices(
            staging_primitives@,
            staging_primitives@.len() as int,
        ) <= u32::MAX,
        r matches Err(e) ==> e == LoadError::AssetTooLarge,
        r.is_ok() ==> {
            &&& final(staging_buffers).positions.len() == old(staging_buffers).positions.len()
                + spec_bucket_vertices(staging_primitives@, staging_primitives@.len() as int)
            &&& final(staging_buffers).indices.len() == old(staging_buffers).indices.len()
                + spec_bucket_indices(staging_primitives@, staging_primitives@.len() as int)
        },
        r.is_ok() ==> {
            let rg = r->Ok_0;
            &&& rg.primitives.start == old(primitives).len()
            &&& rg.primitives.end == final(primitives).len()
            &&& rg.indices.start == old(staging_buffers).indices.len()
            &&& rg.indices.end == final(staging_buffers).indices.len()
            &&& final(primitives).len() == old(primitives).len() + staging_primitives.len()
            &&& forall|i: int|
                0 <= i < staging_primitives.len() ==> spec_prim_matches(
                    final(primitives)[old(primitives).len() + i],
                    (#[trigger] staging_primitives[i]),
                    rg.indices.start as int,
                    rg.indices.end as int,
                )
            &&& forall|i: int|
                0 <= i < staging_primitives.len() ==> final(primitives)[old(primitives).len()
                    + i].lods[0].index_buffer_range.start == #[trigger] spec_prim_chain_lo(
                    final(primitives)@,
                    old(primitives).len() as int,
                    rg.indices.start as int,
                    i,
                )
            &&& spec_prim_chain_lo(
                final(primitives)@,
                old(primitives).len() as int,
                rg.indices.start as int,
                staging_primitives@.len() as int,
            ) == rg.indices.end
        },
        r matches Err(e) ==> e == LoadError::AssetTooLarge,
{
    let primitives_start = primitives.len();
    let indices_start = staging_buffers.num_indices();
    let ghost staging0 = *staging_buffers;
    let ghost prims0 = *primitives;
    let mut i: usize = 0;
    while i < staging_primitives.len()
        invariant
            i <= staging_primitives.len(),
            staging0 == *old(staging_buffers),
            prims0 == *old(primitives),
            staging_buffers.wf(),
            forall|k: int|
                0 <= k < staging_primitives.len() ==> (#[trigger] staging_primitives[k]).wf(),
            primitives_start == prims0.len(),
            indices_start == staging0.indices.len(),
            staging0.indices.len() <= staging_buffers.indices.len(),
            staging_buffers.positions.len() == staging0.positions.len() + spec_bucket_vertices(
                staging_primitives@,
                i as int,
            ),
            staging_buffers.indices.len() == staging0.indices.len() + spec_bucket_indices(
                staging_primitives@,
                i as int,
            ),
            primitives.len() == prims0.len() + i,
            forall|k: int| 0 <= k < prims0.len() ==> (#[trigger] primitives[k]) == prims0[k],
            staging_buffers.indices.len() <= u32::MAX,
            forall|k: int|
                0 <= k < i ==> spec_prim_matches(
                    primitives[prims0.len() + k],
                    (#[trigger] staging_primitives[k]),
                    staging0.indices.len() as int,
                    staging_buffers.indices.len() as int,
                ),
            forall|k: int|
                0 <= k < i ==> primitives[prims0.len() + k].lods[0].index_buffer_range.start
                    == #[trigger] spec_prim_chain_lo(
                    primitives@,
                    prims0.len() as int,
                    staging0.indices.len() as int,
                    k,
                ),
            staging_buffers.indices.len() == spec_prim_chain_lo(
                primitives@,
                prims0.len() as int,
                staging0.indices.len() as int,
                i as int,
            ),
        decreases staging_primitives.len() - i,
    {
        let sp = &staging_primitives[i];
        let ghost prim_lo = staging_buffers.indices.len() as int;
        let mut lods: Vec<PrimitiveLod> = Vec::new();
        let mut l: usize = 0;
        while l < sp.lods.len()
            invariant
                l <= sp.lods.len(),
                prim_lo == spec_prim_chain_lo(
                    primitives@,
                    prims0.len() as int,
                    staging0.indices.len() as int,
                    i as int,
                ),
                l == 0 ==> staging_buffers.indices.len() == prim_lo,
                l > 0 ==> lods[0].index_buffer_range.start == prim_lo,
                l > 0 ==> lods[l - 1].index_buffer_range.end == staging_buffers.indices.len(),
                forall|k: int|
                    0 <= k && k + 1 < l ==> (#[trigger] lods[k]).index_buffer_range.end == lods[
                        k + 1
                    ].index_buffer_range.start,
                forall|k: int|
                    0 <= k < i ==> primitives[prims0.len() + k].lods[0].index_buffer_range.start
                        == #[trigger] spec_prim_chain_lo(
                        primitives@,
                        prims0.len() as int,
                        staging0.indices.len() as int,
                        k,
                    ),
                staging0 == *old(staging_buffers),
                prims0 == *old(primitives),
                sp.wf(),
                staging_buffers.wf(),
                staging_buffers.indices.len() <= u32::MAX,
                staging0.indices.len() <= staging_buffers.indices.len(),
                staging_buffers.positions.len() == staging0.positions.len() + spec_bucket_vertices(
                    staging_primitives@,
                    i as int,
                ) + spec_lods_vertices(sp.lods@, l as int),
                staging_buffers.indices.len() == staging0.indices.len() + spec_bucket_indices(
                    staging_primitives@,
                    i as int,
                ) + spec_lods_indices(sp.lods@, l as int),
                lods.len() == l,
                forall|k: int|
                    0 <= k < l ==> spec_lod_matches(
                        (#[trigger] lods[k]),
                        sp.lods[k],
                        staging0.indices.len() as int,
                        staging_buffers.indices.len() as int,
                    ),
                primitives.len() == prims0.len() + i,
                forall|k: int| 0 <= k < prims0.len() ==> (#[trigger] primitives[k]) == prims0[k],
                forall|k: int|
                    0 <= k < i ==> spec_prim_matches(
                        primitives[prims0.len() + k],
                        (#[trigger] staging_primitives[k]),
                        staging0.indices.len() as int,
                        staging_buffers.indices.len() as int,
                    ),
                i < staging_primitives.len(),
                *sp == staging_primitives[i as int],
                forall|k: int|
                    0 <= k < staging_primitives.len() ==> (#[trigger] staging_primitives[k]).wf(),
                primitives_start == prims0.len(),
                indices_start == staging0.indices.len(),
            decreases sp.lods.len() - l,
        {
            let lod = &sp.lods[l];
            proof {
                lemma_lods_sums_mono(sp.lods@, l + 1, sp.lods@.len() as int);
                lemma_bucket_sums_mono(staging_primitives@, i + 1, staging_primitives@.len() as int);
                assert(spec_bucket_vertices(staging_primitives@, i + 1) == spec_bucket_vertices(
                    staging_primitives@,
                    i as int,
                ) + spec_lods_vertices(sp.lods@, sp.lods@.len() as int));
                assert(spec_bucket_indices(staging_primitives@, i + 1) == spec_bucket_indices(
                    staging_primitives@,
                    i as int,
                ) + spec_lods_indices(sp.lods@, sp.lods@.len() as int));
            }
            if staging_buffers.positions.len() > (u32::MAX as usize) - lod.buffers.positions.len() {
                return Err(LoadError::AssetTooLarge);
            }
            if lod.buffers.indices.len() > u32::MAX as usize || staging_buffers.indices.len() > (
            u32::MAX as usize) - lod.buffers.indices.len() {
                return Err(LoadError::AssetTooLarge);
            }
            let ghost hi_before = staging_buffers.indices.len() as int;
            let range = staging_buffers.collect(&lod.buffers);
            lods.push(
                PrimitiveLod {
                    index_buffer_range: range,
                    material_index: lod.material_index,
                    is_lightmapped: lod.buffers.is_lightmapped,
                },
            );
            proof {
                let hi_now = staging_buffers.indices.len() as int;
                assert forall|k: int| 0 <= k < l + 1 implies spec_lod_matches(
                    (#[trigger] lods[k]),
                    sp.lods[k],
                    staging0.indices.len() as int,
                    hi_now,
                ) by {
                    if k < l {
                        lemma_lod_matches_widen(
                            lods[k],
                            sp.lods[k],
                            staging0.indices.len() as int,
                            hi_before,
                            hi_now,
                        );
                    }
                }
                assert forall|k: int| 0 <= k < i implies spec_prim_matches(
                    primitives[prims0.len() + k],
                    (#[trigger] staging_primitives[k]),
                    staging0.indices.len() as int,
                    hi_now,
                ) by {
                    lemma_prim_matches_widen(
                        primitives[prims0.len() + k],
                        staging_primitives[k],
                        staging0.indices.len() as int,
                        hi_before,
                        hi_now,
                    );
                }
            }
            l += 1;
        }
        let ghost prims_before = primitives@;
        primitives.push(
            Primitive {
                lods,
                bounding_box: sp.bounding_box,
                bounding_sphere: sp.bounding_sphere,
                transform: sp.transform,
                screen_coverages: copy_fixed_vec(&sp.screen_coverages),
            },
        );
        proof {
            let base = prims0.len() as int;
            let lo0 = staging0.indices.len() as int;
            assert(forall|j: int| 0 <= j < prims_before.len() ==> primitives@[j] == prims_before[j]);
            assert(primitives@[base + i as int].lods[0].index_buffer_range.start == prim_lo);
            assert forall|k: int| 0 <= k < i + 1 implies primitives@[base + k].lods[
                0
            ].index_buffer_range.start == #[trigger] spec_prim_chain_lo(
                primitives@,
                base,
                lo0,
                k,
            ) by {
                if k < i {
                    assert(primitives@[base + k] == prims_before[base + k]);
                    if k > 0 {
                        assert(primitives@[base + k - 1] == prims_before[base + k - 1]);
                    }
                    assert(spec_prim_chain_lo(primitives@, base, lo0, k) == spec_prim_chain_lo(
                        prims_before,
                        base,
                        lo0,
                        k,
                    ));
                } else {
                    if k > 0 {
                        assert(primitives@[base + k - 1] == prims_before[base + k - 1]);
                    }
                    assert(spec_prim_chain_lo(primitives@, base, lo0, k) == prim_lo);
                }
            }
            assert(staging_buffers.indices.len() == spec_prim_chain_lo(
                primitives@,
                base,
                lo0,
                i + 1,
            ));
        }
        i += 1;
    }
    let indices_end = staging_buffers.num_indices();
    Ok(
        Ranges {
            indices: RangeU32 { start: indices_start, end: indices_end },
            primitives: RangeUsize { start: primitives_start, end: primitives.len() },
        },
    )
}

/// The six staging buckets: blend mode by face sidedness.
pub struct StagingBuckets {
    pub opaque_single: Vec<StagingPrimitive>,
    pub opaque_double: Vec<StagingPrimitive>,
    pub alpha_clipped_single: Vec<StagingPrimitive>,
    pub alpha_clipped_double: Vec<StagingPrimitive>,
    pub alpha_blended_single: Vec<StagingPrimitive>,
    pub alpha_blended_double: Vec<StagingPrimitive>,
}

impl StagingBuckets {
    /// Every staged primitive in every bucket is well formed.
    pub open spec fn wf(self) -> bool {
        &&& forall|i: int|
            0 <= i < self.opaque_single.len() ==> (#[trigger] self.opaque_single[i]).wf()
        &&& forall|i: int|
            0 <= i < self.opaque_double.len() ==> (#[trigger] self.opaque_double[i]).wf()
        &&& forall|i: int|
            0 <= i < self.alpha_clipped_single.len() ==> (
            #[trigger] self.alpha_clipped_single[i]).wf()
        &&& forall|i: int|
            0 <= i < self.alpha_clipped_double.len() ==> (
            #[trigger] self.alpha_clipped_double[i]).wf()
        &&& forall|i: int|
            0 <= i < self.alpha_blended_single.len() ==> (
            #[trigger] self.alpha_blended_single[i]).wf()
        &&& forall|i: int|
            0 <= i < self.alpha_blended_double.len() ==> (
            #[trigger] self.alpha_blended_double[i]).wf()
    }

    /// An empty set of buckets.
    pub fn new_empty() -> (r: StagingBuckets)
        ensures
            r.wf(),
            r.opaque_single.len() == 0 && r.opaque_double.len() == 0,
            r.alpha_clipped_single.len() == 0 && r.alpha_clipped_double.len() == 0,
            r.alpha_blended_single.len() == 0 && r.alpha_blended_double.len() == 0,
    {
        StagingBuckets {
            opaque_single: Vec::new(),
            opaque_double: Vec::new(),
            alpha_clipped_single: Vec::new(),
            alpha_clipped_double: Vec::new(),
            alpha_blended_single: Vec::new(),
            alpha_blended_double: Vec::new(),
        }
    }
}

/// Collect all six buckets into one primitive list and one shared
/// staging buffer, in the fixed bucket order.  The returned ranges
/// tile the primitive list and the index data without gaps, so the
/// renderer can draw one whole bucket as a contiguous span.  Succeeds
/// exactly when the grand vertex and index totals stay inside 32-bit
/// addressing.
pub fn collect_all_primitives(buckets: &StagingBuckets) -> (r: Result<
    (PrimitiveRanges, Vec<Primitive>, StagingBuffers),
    LoadError,
>)
    requires
        buckets.wf(),
    ensures
        r.is_ok() <==> spec_bucket_vertices(buckets.opaque_single@, buckets.opaque_single@.len() as int)
            + spec_bucket_vertices(buckets.opaque_double@, buckets.opaque_double@.len() as int)
            + spec_bucket_vertices(
            buckets.alpha_clipped_single@,
            buckets.alpha_clipped_single@.len() as int,
        ) + spec_bucket_vertices(
            buckets.alpha_clipped_double@,
            buckets.alpha_clipped_double@.len() as int,
        ) + spec_bucket_vertices(
            buckets.alpha_blended_single@,
            buckets.alpha_blended_single@.len() as int,
        ) + spec_bucket_vertices(
            buckets.alpha_blended_double@,
            buckets.alpha_blended_double@.len() as int,
        ) <= u32::MAX && spec_bucket_indices(
            buckets.opaque_single@,
            buckets.opaque_single@.len() as int,
        ) + spec_bucket_indices(buckets.opaque_double@, buckets.opaque_double@.len() as int)
            + spec_bucket_indices(
            buckets.alpha_clipped_single@,
            buckets.alpha_clipped_single@.len() as int,
        ) + spec_bucket_indices(
            buckets.alpha_clipped_double@,
            buckets.alpha_clipped_double@.len() as int,
        ) + spec_bucket_indices(
            buckets.alpha_blended_single@,
            buckets.alpha_blended_single@.len() as int,
        ) + spec_bucket_indices(
            buckets.alpha_blended_double@,
            buckets.alpha_blended_double@.len() as int,
        ) <= u32::MAX,
        r matches Err(e) ==> e == LoadError::AssetTooLarge,
        r.is_ok() ==> {
            let pr = r->Ok_0.0;
            let prims = r->Ok_0.1;
            let sb = r->Ok_0.2;
            &&& sb.wf()
            &&& pr.opaque.single.primitives.start == 0
            &&& pr.opaque.single.primitives.end == pr.opaque.double.primitives.start
            &&& pr.opaque.double.primitives.end == pr.alpha_clipped.single.primitives.start
            &&& pr.alpha_clipped.single.primitives.end == pr.alpha_clipped.double.primitives.start
            &&& pr.alpha_clipped.double.primitives.end == pr.alpha_blended.single.primitives.start
            &&& pr.alpha_blended.single.primitives.end == pr.alpha_blended.double.primitives.start
            &&& pr.alpha_blended.double.primitives.end == prims.len()
            &&& pr.opaque.single.indices.start == 0
            &&& pr.opaque.single.indices.end == pr.opaque.double.indices.start
            &&& pr.opaque.double.indices.end == pr.alpha_clipped.single.indices.start
            &&& pr.alpha_clipped.single.indices.end == pr.alpha_clipped.double.indices.start
            &&& pr.alpha_clipped.double.indices.end == pr.alpha_blended.single.indices.start
            &&& pr.alpha_blended.single.indices.end == pr.alpha_blended.double.indices.start
            &&& pr.alpha_blended.double.indices.end == sb.indices.len()
            &&& pr.opaque.single.primitives.end - pr.opaque.single.primitives.start
                == buckets.opaque_single.len()
            &&& pr.opaque.double.primitives.end - pr.opaque.double.primitives.start
                == buckets.opaque_double.len()
            &&& pr.alpha_clipped.single.primitives.end - pr.alpha_clipped.single.primitives.start
                == buckets.alpha_clipped_single.len()
            &&& pr.alpha_clipped.double.primitives.end - pr.alpha_clipped.double.primitives.start
                == buckets.alpha_clipped_double.len()
            &&& pr.alpha_blended.single.primitives.end - pr.alpha_blended.single.primitives.start
                == buckets.alpha_blended_single.len()
            &&& pr.alpha_blended.double.primitives.end - pr.alpha_blended.double.primitives.start
                == buckets.alpha_blended_double.len()
            &&& forall|i: int|
                0 <= i < buckets.opaque_single.len() ==> spec_prim_matches(
                    prims[pr.opaque.single.primitives.start + i],
                    (#[trigger] buckets.opaque_single[i]),
                    pr.opaque.single.indices.start as int,
                    pr.opaque.single.indices.end as int,
                )
            &&& forall|i: int|
                0 <= i < buckets.opaque_double.len() ==> spec_prim_matches(
                    prims[pr.opaque.double.primitives.start + i],
                    (#[trigger] buckets.opaque_double[i]),
                    pr.opaque.double.indices.start as int,
                    pr.opaque.double.indices.end as int,
                )
            &&& forall|i: int|
                0 <= i < buckets.alpha_clipped_single.len() ==> spec_prim_matches(
                    prims[pr.alpha_clipped.single.primitives.start + i],
                    (#[trigger] buckets.alpha_clipped_single[i]),
                    pr.alpha_clipped.single.indices.start as int,
                    pr.alpha_clipped.single.indices.end as int,
                )
            &&& forall|i: int|
                0 <= i < buckets.alpha_clipped_double.len() ==> spec_prim_matches(
                    prims[pr.alpha_clipped.double.primitives.start + i],
                    (#[trigger] buckets.alpha_clipped_double[i]),
                    pr.alpha_clipped.double.indices.start as int,
                    pr.alpha_clipped.double.indices.end as int,
                )
            &&& forall|i: int|
                0 <= i < buckets.alpha_blended_single.len() ==> spec_prim_matches(
                    prims[pr.alpha_blended.single.primitives.start + i],
                    (#[trigger] buckets.alpha_blended_single[i]),
                    pr.alpha_blended.single.indices.start as int,
                    pr.alpha_blended.single.indices.end as int,
                )
            &&& forall|i: int|
                0 <= i < buckets.alpha_blended_double.len() ==> spec_prim_matches(
                    prims[pr.alpha_blended.double.primitives.start + i],
                    (#[trigger] buckets.alpha_blended_double[i]),
                    pr.alpha_blended.double.indices.start as int,
                    pr.alpha_blended.double.indices.end as int,
                )
        },
        r matches Err(e) ==> e == LoadError::AssetTooLarge,
{
    let mut primitives: Vec<Primitive> = Vec::new();
    let mut staging_buffers = StagingBuffers::new_empty();
    proof {
        lemma_bucket_sums_mono(buckets.opaque_single@, 0, buckets.opaque_single@.len() as int);
        lemma_bucket_sums_mono(buckets.opaque_double@, 0, buckets.opaque_double@.len() as int);
        lemma_bucket_sums_mono(
            buckets.alpha_clipped_single@,
            0,
            buckets.alpha_clipped_single@.len() as int,
        );
        lemma_bucket_sums_mono(
            buckets.alpha_clipped_double@,
            0,
            buckets.alpha_clipped_double@.len() as int,
        );
        lemma_bucket_sums_mono(
            buckets.alpha_blended_single@,
            0,
            buckets.alpha_blended_single@.len() as int,
        );
        lemma_bucket_sums_mono(
            buckets.alpha_blended_double@,
            0,
            buckets.alpha_blended_double@.len() as int,
        );
    }
    let opaque_single = match collect_primitives(
        &mut primitives,
        &mut staging_buffers,
        &buckets.opaque_single,
    ) {
        Ok(rg) => rg,
        Err(e) => {
            return Err(e);
        },
    };
    let opaque_double = match collect_primitives(
        &mut primitives,
        &mut staging_buffers,
        &buckets.opaque_double,
    ) {
        Ok(rg) => rg,
        Err(e) => {
            return Err(e);
        },
    };
    let alpha_clipped_single = match collect_primitives(
        &mut primitives,
        &mut staging_buffers,
        &buckets.alpha_clipped_single,
    ) {
        Ok(rg) => rg,
        Err(e) => {
            return Err(e);
        },
    };
    let alpha_clipped_double = match collect_primitives(
        &mut primitives,
        &mut staging_buffers,
        &buckets.alpha_clipped_double,
    ) {
        Ok(rg) => rg,
        Err(e) => {
            return Err(e);
        },
    };
    let alpha_blended_single = match collect_primitives(
        &mut primitives,
        &mut staging_buffers,
        &buckets.alpha_blended_single,
    ) {
        Ok(rg) => rg,
        Err(e) => {
            return Err(e);
        },
    };
    let alpha_blended_double = match collect_primitives(
        &mut primitives,
        &mut staging_buffers,
        &buckets.alpha_blended_double,
    ) {
        Ok(rg) => rg,
        Err(e) => {
            return Err(e);
        },
    };
    let primitive_ranges = PrimitiveRanges {
        opaque: FaceSidesRanges { single: opaque_single, double: opaque_double },
        alpha_clipped: FaceSidesRanges {
            single: alpha_clipped_single,
            double: alpha_clipped_double,
        },
        alpha_blended: FaceSidesRanges {
            single: alpha_blended_single,
            double: alpha_blended_double,
        },
    };
    Ok((primitive_ranges, primitives, staging_buffers))
}

/// An owned copy of a scalar list.
fn copy_fixed_vec(v: &Vec<Fixed>) -> (r: Vec<Fixed>)
    ensures
        r@ == v@,
{
    let mut out: Vec<Fixed> = Vec::new();
    let mut k: usize = 0;
    while k < v.len()
        invariant
            k <= v.len(),
            out@ == v@.take(k as int),
        decreases v.len() - k,
    {
        out.push(v[k]);
        proof {
            assert(v@.take(k + 1) =~= v@.take(k as int).push(v@[k as int]));
        }
        k += 1;
    }
    proof {
        assert(v@.take(v@.len() as int) =~= v@);
    }
    out
}

/// Whether some node references `c` as a lower-detail variant; such
/// nodes are not instantiated on their own.
pub open spec fn spec_node_ignored(doc: GltfDocument, c: int) -> bool {
    exists|p: int, j: int|
        0 <= p < doc.nodes.len() && 0 <= j < doc.nodes@[p].lod_ids.len() && doc.nodes@[p].lod_ids@[j]
            == c
}

/// Whether the `j`-th lower-detail reference of node `i` names a
/// usable variant (in-range node carrying an in-range mesh); entries
/// that do not are skipped, never failed.
pub open spec fn spec_variant_premise(doc: GltfDocument, i: int, j: int) -> bool {
    let id = doc.nodes@[i].lod_ids@[j] as int;
    &&& id < doc.nodes.len()
    &&& doc.nodes@[id].mesh is Some
    &&& (doc.nodes@[id].mesh->0 as int) < doc.meshes.len()
}

/// The mesh a usable lower-detail reference names.
pub open spec fn spec_variant_mesh(doc: GltfDocument, i: int, j: int) -> int {
    doc.nodes@[doc.nodes@[i].lod_ids@[j] as int].mesh->0 as int
}

/// Whether every primitive of a mesh decodes.
pub open spec fn spec_mesh_prims_ok(doc: GltfDocument, views: Seq<Seq<u8>>, m: int) -> bool {
    forall|p: int|
        0 <= p < doc.meshes@[m].primitives.len() ==> spec_staging_ok(
            doc,
            views,
            (#[trigger] doc.meshes@[m].primitives@[p]),
        )
}

/// Whether every primitive of a mesh names only in-range materials.
pub open spec fn spec_mesh_materials_ok(doc: GltfDocument, m: int) -> bool {
    forall|p: int|
        0 <= p < doc.meshes@[m].primitives.len() ==> ((
        #[trigger] doc.meshes@[m].primitives@[p]).material matches Some(mm) ==> (mm as int)
            < doc.materials.len())
}

/// What a successful build guarantees of one node: it was skipped (a
/// lower-detail variant, or mesh-less), or its mesh is in range with
/// every primitive decoded and every named material inside the table.
pub open spec fn spec_model_node_ok(doc: GltfDocument, views: Seq<Seq<u8>>, i: int) -> bool {
    spec_node_ignored(doc, i) || doc.nodes@[i].mesh is None || {
        let m = doc.nodes@[i].mesh->0 as int;
        &&& m < doc.meshes.len()
        &&& spec_mesh_prims_ok(doc, views, m)
        &&& spec_mesh_materials_ok(doc, m)
        &&& forall|j: int|
            0 <= j < doc.nodes@[i].lod_ids.len() && #[trigger] spec_variant_premise(doc, i, j)
                ==> doc.meshes@[spec_variant_mesh(doc, i, j)].primitives.len()
                == doc.meshes@[m].primitives.len()
    }
}

/// How many primitives the first `k` nodes contribute to a static
/// model: each instantiated node (non-variant, mesh-bearing, mesh in
/// range) contributes one per primitive of its base mesh.
pub open spec fn spec_doc_primitive_count(doc: GltfDocument, k: int) -> int
    decreases k,
{
    if k <= 0 || k > doc.nodes.len() {
        0
    } else {
        spec_doc_primitive_count(doc, k - 1) + {
            let node = doc.nodes@[k - 1];
            if !spec_node_ignored(doc, k - 1) && node.mesh is Some && (node.mesh->0 as int)
                < doc.meshes.len() {
                doc.meshes@[node.mesh->0 as int].primitives.len() as int
            } else {
                0
            }
        }
    }
}

/// What a successful build guarantees of the whole document.
pub open spec fn spec_model_doc_ok(doc: GltfDocument, views: Seq<Seq<u8>>) -> bool {
    &&& crate::nodes::spec_children_in_range(doc.nodes@)
    &&& forall|i: int| 0 <= i < doc.nodes.len() ==> #[trigger] spec_model_node_ok(doc, views, i)
}

/// A document that decodes with no lower-detail references at all:
/// on such a document the build is owed success (up to the 32-bit
/// size limit).  Documents carrying detail variants decode too, but
/// their success condition additionally ties every variant's
/// primitive count and data to its base mesh, which this predicate
/// does not attempt to state.
pub open spec fn spec_model_doc_plain(doc: GltfDocument, views: Seq<Seq<u8>>) -> bool {
    &&& crate::nodes::spec_children_in_range(doc.nodes@)
    &&& forall|i: int|
        0 <= i < doc.nodes.len() ==> #[trigger] spec_node_ignored(doc, i) || doc.nodes@[i].mesh
            is None || {
            let m = doc.nodes@[i].mesh->0 as int;
            &&& doc.nodes@[i].lod_ids.len() == 0
            &&& m < doc.meshes.len()
            &&& spec_mesh_prims_ok(doc, views, m)
            &&& spec_mesh_materials_ok(doc, m)
        }
}

/// A decoded static model before its GPU upload: primitives with
/// buffer-local index ranges, the bucket spans, and the staging data
/// to upload.
pub struct StagedModel {
    pub primitives: Vec<Primitive>,
    pub primitive_ranges: PrimitiveRanges,
    pub staging_buffers: StagingBuffers,
}

/// Decode a whole document into a staged static model: build the node
/// hierarchy, decode each mesh-bearing node's primitives (and its
/// lower-detail variants), bucket them by blend mode and face
/// sidedness, and merge everything into one staging buffer.  Nodes
/// referenced as lower-detail variants are not instantiated on their
/// own.  A decodable document without detail variants always succeeds
/// unless its combined data outgrows 32-bit addressing; any malformed
/// reference, undecodable accessor or mismatched detail-level
/// primitive count fails the load.
#[verifier::rlimit(100)]
pub fn build_model(doc: &GltfDocument, views: &Vec<Vec<u8>>) -> (r: Result<StagedModel, LoadError>)
    requires
        views.len() == doc.buffer_views.len(),
    ensures
        r.is_ok() ==> spec_model_doc_ok(*doc, spec_views(views@)),
        spec_model_doc_plain(*doc, spec_views(views@)) ==> r.is_ok() || r == Err::<
            StagedModel,
            LoadError,
        >(LoadError::AssetTooLarge),
        r.is_ok() ==> {
            let sm = r->Ok_0;
            let pr = sm.primitive_ranges;
            &&& sm.staging_buffers.wf()
            &&& pr.opaque.single.primitives.start == 0
            &&& pr.opaque.single.primitives.end == pr.opaque.double.primitives.start
            &&& pr.opaque.double.primitives.end == pr.alpha_clipped.single.primitives.start
            &&& pr.alpha_clipped.single.primitives.end == pr.alpha_clipped.double.primitives.start
            &&& pr.alpha_clipped.double.primitives.end == pr.alpha_blended.single.primitives.start
            &&& pr.alpha_blended.single.primitives.end == pr.alpha_blended.double.primitives.start
            &&& pr.alpha_blended.double.primitives.end == sm.primitives.len()
            &&& pr.opaque.single.indices.start == 0
            &&& pr.opaque.single.indices.end == pr.opaque.double.indices.start
            &&& pr.opaque.double.indices.end == pr.alpha_clipped.single.indices.start
            &&& pr.alpha_clipped.single.indices.end == pr.alpha_clipped.double.indices.start
            &&& pr.alpha_clipped.double.indices.end == pr.alpha_blended.single.indices.start
            &&& pr.alpha_blended.single.indices.end == pr.alpha_blended.double.indices.start
            &&& pr.alpha_blended.double.indices.end == sm.staging_buffers.indices.len()
            &&& sm.primitives.len() == spec_doc_primitive_count(*doc, doc.nodes.len() as int)
            &&& forall|k: int|
                0 <= k < sm.primitives.len() ==> (#[trigger] sm.primitives[k]).lods.len() >= 1
        },
{
    let ghost sv = spec_views(views@);
    let node_tree = match crate::nodes::NodeTree::new(&doc.nodes) {
        Ok(t) => t,
        Err(e) => {
            return Err(e);
        },
    };
    proof {
        node_tree.lemma_matches_implies_parents_in_range(doc.nodes@);
    }
    let n = doc.nodes.len();
    let mut ignored: Vec<bool> = Vec::new();
    let mut i: usize = 0;
    while i < n
        invariant
            ignored.len() == i <= n,
            forall|c: int| 0 <= c < i ==> !(#[trigger] ignored[c]),
        decreases n - i,
    {
        ignored.push(false);
        i += 1;
    }
    let mut i: usize = 0;
    while i < n
        invariant
            ignored.len() == n == doc.nodes.len(),
            i <= n,
            forall|c: int|
                0 <= c < n ==> ((#[trigger] ignored[c]) <==> exists|p: int, jj: int|
                    0 <= p < i && 0 <= jj < doc.nodes@[p].lod_ids.len() && (
                    #[trigger] doc.nodes@[p].lod_ids@[jj]) == c as usize),
        decreases n - i,
    {
        let node = &doc.nodes[i];
        let m = node.lod_ids.len();
        let mut j: usize = 0;
        while j < m
            invariant
                ignored.len() == n == doc.nodes.len(),
                i < n,
                *node == doc.nodes@[i as int],
                j <= m,
                m == node.lod_ids.len(),
                forall|c: int|
                    0 <= c < n ==> ((#[trigger] ignored[c]) <==> (exists|p: int, jj: int|
                        0 <= p < i && 0 <= jj < doc.nodes@[p].lod_ids.len() && (
                        #[trigger] doc.nodes@[p].lod_ids@[jj]) == c as usize) || exists|jj: int|
                        0 <= jj < j && (#[trigger] doc.nodes@[i as int].lod_ids@[jj])
                            == c as usize),
            decreases m - j,
        {
            let id = node.lod_ids[j];
            if id < n {
                ignored.set(id, true);
                proof {
                    assert(doc.nodes@[i as int].lod_ids@[j as int] == id);
                }
            }
            j += 1;
        }
        i += 1;
    }
    proof {
        assert forall|c: int| 0 <= c < n implies ((#[trigger] ignored[c]) <==> spec_node_ignored(
            *doc,
            c,
        )) by {
            if spec_node_ignored(*doc, c) {
                let (p, jj) = choose|p: int, jj: int|
                    0 <= p < doc.nodes.len() && 0 <= jj < doc.nodes@[p].lod_ids.len()
                        && doc.nodes@[p].lod_ids@[jj] == c;
                assert(0 <= p < n && 0 <= jj < doc.nodes@[p].lod_ids.len() && (
                #[trigger] doc.nodes@[p].lod_ids@[jj]) == c as usize);
            }
        }
    }
    let mut buckets = StagingBuckets::new_empty();
    let mut node_index: usize = 0;
    while node_index < n
        invariant
            node_index <= n,
            n == doc.nodes.len(),
            ignored.len() == n,
            views.len() == doc.buffer_views.len(),
            sv == spec_views(views@),
            node_tree.inner.len() == n,
            node_tree.parents_in_range(),
            buckets.wf(),
            forall|c: int| 0 <= c < n ==> ((#[trigger] ignored[c]) <==> spec_node_ignored(*doc, c)),
            forall|i2: int| 0 <= i2 < node_index ==> #[trigger] spec_model_node_ok(*doc, sv, i2),
            buckets.opaque_single.len() + buckets.opaque_double.len()
                + buckets.alpha_clipped_single.len() + buckets.alpha_clipped_double.len()
                + buckets.alpha_blended_single.len() + buckets.alpha_blended_double.len()
                == spec_doc_primitive_count(*doc, node_index as int),
        decreases n - node_index,
    {
        let node = &doc.nodes[node_index];
        let take_node = !ignored[node_index] && node.mesh.is_some();
        if take_node {
            let mesh_index = match node.mesh {
                Some(m) => m,
                None => {
                    return Err(LoadError::MeshOutOfRange { mesh: 0 });
                },
            };
            if mesh_index >= doc.meshes.len() {
                proof {
                    assert(!spec_model_node_ok(*doc, sv, node_index as int));
                }
                return Err(LoadError::MeshOutOfRange { mesh: mesh_index });
            }
            let transform = node_tree.transform_of(node_index);
            // The base mesh plus every usable lower-detail variant,
            // each checked against the base primitive count as it is
            // discovered.
            let num_primitives = doc.meshes[mesh_index].primitives.len();
            let mut mesh_indices: Vec<usize> = Vec::new();
            mesh_indices.push(mesh_index);
            let mut j: usize = 0;
            while j < node.lod_ids.len()
                invariant
                    j <= node.lod_ids.len(),
                    n == doc.nodes.len(),
                    node_index < n,
                    sv == spec_views(views@),
                    *node == doc.nodes@[node_index as int],
                    !spec_node_ignored(*doc, node_index as int),
                    node.mesh == Some(mesh_index),
                    mesh_indices.len() >= 1,
                    mesh_indices.len() <= 1 + j,
                    forall|k: int|
                        0 <= k < mesh_indices.len() ==> (#[trigger] mesh_indices[k])
                            < doc.meshes.len(),
                    mesh_index < doc.meshes.len(),
                    mesh_indices[0] == mesh_index,
                    num_primitives == doc.meshes@[mesh_index as int].primitives.len(),
                    forall|k: int|
                        0 <= k < mesh_indices.len() ==> doc.meshes@[(
                        #[trigger] mesh_indices[k]) as int].primitives.len() == num_primitives,
                    forall|jj: int|
                        0 <= jj < j && #[trigger] spec_variant_premise(*doc, node_index as int, jj)
                            ==> doc.meshes@[spec_variant_mesh(*doc, node_index as int, jj)].primitives.len()
                            == num_primitives,
                decreases node.lod_ids.len() - j,
            {
                let id = node.lod_ids[j];
                if id < n {
                    match doc.nodes[id].mesh {
                        Some(m) => {
                            if m < doc.meshes.len() {
                                proof {
                                    assert(spec_variant_premise(*doc, node_index as int, j as int));
                                    assert(spec_variant_mesh(*doc, node_index as int, j as int)
                                        == m as int);
                                }
                                let got = doc.meshes[m].primitives.len();
                                if got != num_primitives {
                                    proof {
                                        assert(!spec_model_node_ok(*doc, sv, node_index as int));
                                    }
                                    return Err(
                                        LoadError::LodPrimitiveCountMismatch {
                                            expected: num_primitives,
                                            got,
                                        },
                                    );
                                }
                                mesh_indices.push(m);
                            }
                        },
                        None => {},
                    }
                }
                proof {
                    if !spec_variant_premise(*doc, node_index as int, j as int) {
                        assert(true);
                    }
                }
                j += 1;
            }
            let mut primitive_index: usize = 0;
            while primitive_index < num_primitives
                invariant
                    primitive_index <= num_primitives,
                    n == doc.nodes.len(),
                    node_index < n,
                    views.len() == doc.buffer_views.len(),
                    sv == spec_views(views@),
                    buckets.wf(),
                    *node == doc.nodes@[node_index as int],
                    !spec_node_ignored(*doc, node_index as int),
                    node.mesh == Some(mesh_index),
                    mesh_indices.len() >= 1,
                    mesh_indices.len() <= 1 + node.lod_ids.len(),
                    mesh_index < doc.meshes.len(),
                    mesh_indices[0] == mesh_index,
                    forall|k: int|
                        0 <= k < mesh_indices.len() ==> (#[trigger] mesh_indices[k])
                            < doc.meshes.len(),
                    forall|k: int|
                        0 <= k < mesh_indices.len() ==> doc.meshes@[(
                        #[trigger] mesh_indices[k]) as int].primitives.len() == num_primitives,
                    num_primitives == doc.meshes@[mesh_index as int].primitives.len(),
                    forall|p: int|
                        0 <= p < primitive_index ==> spec_staging_ok(
                            *doc,
                            sv,
                            (#[trigger] doc.meshes@[mesh_index as int].primitives@[p]),
                        ),
                    forall|p: int|
                        0 <= p < primitive_index ==> ((#[trigger] doc.meshes@[
                            mesh_index as int
                        ].primitives@[p]).material matches Some(mm) ==> (mm as int)
                            < doc.materials.len()),
                    !spec_node_ignored(*doc, node_index as int),
                    buckets.opaque_single.len() + buckets.opaque_double.len()
                        + buckets.alpha_clipped_single.len() + buckets.alpha_clipped_double.len()
                        + buckets.alpha_blended_single.len() + buckets.alpha_blended_double.len()
                        == spec_doc_primitive_count(*doc, node_index as int) + primitive_index,
                decreases num_primitives - primitive_index,
            {
                let mut lods: Vec<StagingPrimitiveLod> = Vec::new();
                let mut j: usize = 0;
                while j < mesh_indices.len()
                    invariant
                        j <= mesh_indices.len(),
                        n == doc.nodes.len(),
                        node_index < n,
                        views.len() == doc.buffer_views.len(),
                        sv == spec_views(views@),
                        *node == doc.nodes@[node_index as int],
                        !spec_node_ignored(*doc, node_index as int),
                        node.mesh == Some(mesh_index),
                        primitive_index < num_primitives,
                        lods.len() == j,
                        mesh_indices.len() >= 1,
                        mesh_indices.len() <= 1 + node.lod_ids.len(),
                        mesh_index < doc.meshes.len(),
                        mesh_indices[0] == mesh_index,
                        forall|k: int|
                            0 <= k < lods.len() ==> (#[trigger] lods[k]).buffers.wf(),
                        forall|k: int|
                            0 <= k < mesh_indices.len() ==> (#[trigger] mesh_indices[k])
                                < doc.meshes.len(),
                        forall|k: int|
                            0 <= k < mesh_indices.len() ==> doc.meshes@[(
                            #[trigger] mesh_indices[k]) as int].primitives.len() == num_primitives,
                        num_primitives == doc.meshes@[mesh_index as int].primitives.len(),
                        j > 0 ==> spec_staging_ok(
                            *doc,
                            sv,
                            doc.meshes@[mesh_index as int].primitives@[primitive_index as int],
                        ),
                    decreases mesh_indices.len() - j,
                {
                    let mesh = &doc.meshes[mesh_indices[j]];
                    let prim = &mesh.primitives[primitive_index];
                    let buffers = match StagingBuffers::new(doc, views, prim, node_index as u32) {
                        Ok(b) => b,
                        Err(e) => {
                            proof {
                                if j == 0 {
                                    assert(!spec_staging_ok(
                                        *doc,
                                        sv,
                                        doc.meshes@[mesh_index as int].primitives@[
                                            primitive_index as int
                                        ],
                                    ));
                                    assert(!spec_mesh_prims_ok(*doc, sv, mesh_index as int));
                                    assert(!spec_model_node_ok(*doc, sv, node_index as int));
                                } else {
                                    assert(doc.nodes@[node_index as int].lod_ids.len() > 0);
                                }
                            }
                            return Err(e);
                        },
                    };
                    let material_index = match prim.material {
                        Some(m) => m,
                        None => 0,
                    };
                    lods.push(StagingPrimitiveLod { buffers, material_index });
                    j += 1;
                }
                // Bucket by the base level's material properties; a
                // primitive without a material gets the default
                // opaque, single-sided treatment.
                let base_prim = &doc.meshes[mesh_index].primitives[primitive_index];
                let (alpha_mode, double_sided) = match base_prim.material {
                    Some(m) => {
                        if m < doc.materials.len() {
                            let mat = &doc.materials[m];
                            (mat.alpha_mode, mat.double_sided)
                        } else {
                            proof {
                                assert(!spec_mesh_materials_ok(*doc, mesh_index as int));
                                assert(!spec_model_node_ok(*doc, sv, node_index as int));
                            }
                            return Err(LoadError::MaterialOutOfRange { material: m });
                        }
                    },
                    None => (crate::document::AlphaMode::Opaque, false),
                };
                let bounding_box = BoundingBox::new(&lods[0].buffers.positions);
                let bounding_sphere = BoundingSphere::new(&lods[0].buffers.positions);
                let staged = StagingPrimitive {
                    lods,
                    bounding_box,
                    bounding_sphere,
                    transform,
                    screen_coverages: copy_fixed_vec(&node.screen_coverages),
                };
                match (alpha_mode, double_sided) {
                    (crate::document::AlphaMode::Opaque, false) => buckets.opaque_single.push(
                        staged,
                    ),
                    (crate::document::AlphaMode::Opaque, true) => buckets.opaque_double.push(
                        staged,
                    ),
                    (crate::document::AlphaMode::Mask, false) => buckets.alpha_clipped_single.push(
                        staged,
                    ),
                    (crate::document::AlphaMode::Mask, true) => buckets.alpha_clipped_double.push(
                        staged,
                    ),
                    (crate::document::AlphaMode::Blend, false) => buckets.alpha_blended_single.push(
                        staged,
                    ),
                    (crate::document::AlphaMode::Blend, true) => buckets.alpha_blended_double.push(
                        staged,
                    ),
                }
                primitive_index += 1;
            }
            proof {
                assert(spec_mesh_prims_ok(*doc, sv, mesh_index as int));
                assert(spec_mesh_materials_ok(*doc, mesh_index as int));
                assert(spec_model_node_ok(*doc, sv, node_index as int));
            }
        } else {
            proof {
                assert(spec_model_node_ok(*doc, sv, node_index as int));
            }
        }
        node_index += 1;
    }
    let (primitive_ranges, primitives, staging_buffers) = match collect_all_primitives(&buckets) {
        Ok(t) => t,
        Err(e) => {
            return Err(e);
        },
    };
    proof {
        let pr = primitive_ranges;
        assert forall|k: int| 0 <= k < primitives.len() implies (
        #[trigger] primitives[k]).lods.len() >= 1 by {
            if k < pr.opaque.single.primitives.end {
                assert(spec_prim_matches(
                    primitives[k],
                    buckets.opaque_single[k - pr.opaque.single.primitives.start],
                    pr.opaque.single.indices.start as int,
                    pr.opaque.single.indices.end as int,
                ));
            } else if k < pr.opaque.double.primitives.end {
                assert(spec_prim_matches(
                    primitives[k],
                    buckets.opaque_double[k - pr.opaque.double.primitives.start],
                    pr.opaque.double.indices.start as int,
                    pr.opaque.double.indices.end as int,
                ));
            } else if k < pr.alpha_clipped.single.primitives.end {
                assert(spec_prim_matches(
                    primitives[k],
                    buckets.alpha_clipped_single[k - pr.alpha_clipped.single.primitives.start],
                    pr.alpha_clipped.single.indices.start as int,
                    pr.alpha_clipped.single.indices.end as int,
                ));
            } else if k < pr.alpha_clipped.double.primitives.end {
                assert(spec_prim_matches(
                    primitives[k],
                    buckets.alpha_clipped_double[k - pr.alpha_clipped.double.primitives.start],
                    pr.alpha_clipped.double.indices.start as int,
                    pr.alpha_clipped.double.indices.end as int,
                ));
            } else if k < pr.alpha_blended.single.primitives.end {
                assert(spec_prim_matches(
                    primitives[k],
                    buckets.alpha_blended_single[k - pr.alpha_blended.single.primitives.start],
                    pr.alpha_blended.single.indices.start as int,
                    pr.alpha_blended.single.indices.end as int,
                ));
            } else {
                assert(spec_prim_matches(
                    primitives[k],
                    buckets.alpha_blended_double[k - pr.alpha_blended.double.primitives.start],
                    pr.alpha_blended.double.indices.start as int,
                    pr.alpha_blended.double.indices.end as int,
                ));
            }
        }
    }
    Ok(StagedModel { primitives, primitive_ranges, staging_buffers })
}

/// A finished static model: primitives with absolute GPU index
/// ranges, the bucket spans, and the spans the whole model occupies in
/// the shared GPU buffers.
pub struct Model {
    pub primitives: Vec<Primitive>,
    pub primitive_ranges: PrimitiveRanges,
    pub index_buffer_range: RangeU32,
    pub vertex_buffer_range: RangeU32,
}

/// Whether `b` is `a` with its index range shifted by `s`.
pub open spec fn spec_lod_shifted(a: PrimitiveLod, b: PrimitiveLod, s: int) -> bool {
    &&& b.material_index == a.material_index
    &&& b.is_lightmapped == a.is_lightmapped
    &&& b.index_buffer_range.start == a.index_buffer_range.start + s
    &&& b.index_buffer_range.end == a.index_buffer_range.end + s
}

/// Whether `b` is `a` with every level's index range shifted by `s`.
pub open spec fn spec_prim_shifted(a: Primitive, b: Primitive, s: int) -> bool {
    &&& b.transform == a.transform
    &&& b.bounding_box == a.bounding_box
    &&& b.bounding_sphere == a.bounding_sphere
    &&& b.screen_coverages@ == a.screen_coverages@
    &&& b.lods.len() == a.lods.len()
    &&& forall|l: int|
        0 <= l < a.lods.len() ==> spec_lod_shifted(a.lods[l], (#[trigger] b.lods[l]), s)
}

/// Whether every level's index range of every primitive can shift by
/// `s` without leaving 32-bit addressing.
pub open spec fn spec_prims_shiftable(prims: Seq<Primitive>, s: int) -> bool {
    forall|k: int, l: int|
        0 <= k < prims.len() && 0 <= l < prims[k].lods.len() ==> (#[trigger] prims[k].lods[
            l
        ]).index_buffer_range.start + s <= u32::MAX && prims[k].lods[l].index_buffer_range.end + s
            <= u32::MAX
}

/// Whether one bucket span can shift by `s` without leaving 32-bit
/// addressing.
pub open spec fn spec_bucket_shiftable(rg: Ranges, s: int) -> bool {
    rg.indices.start + s <= u32::MAX && rg.indices.end + s <= u32::MAX
}

/// Whether all six bucket spans can shift by `s`.
pub open spec fn spec_ranges_shiftable(pr: PrimitiveRanges, s: int) -> bool {
    &&& spec_bucket_shiftable(pr.opaque.single, s)
    &&& spec_bucket_shiftable(pr.opaque.double, s)
    &&& spec_bucket_shiftable(pr.alpha_clipped.single, s)
    &&& spec_bucket_shiftable(pr.alpha_clipped.double, s)
    &&& spec_bucket_shiftable(pr.alpha_blended.single, s)
    &&& spec_bucket_shiftable(pr.alpha_blended.double, s)
}

/// Whether `b` is `a` with its index span shifted by `s`.
pub open spec fn spec_bucket_shifted(a: Ranges, b: Ranges, s: int) -> bool {
    &&& b.primitives == a.primitives
    &&& b.indices.start == a.indices.start + s
    &&& b.indices.end == a.indices.end + s
}

impl Model {
    /// Turn a staged model into a finished one given where the GPU
    /// allocator placed its vertex and index data: indices in the
    /// staging buffer are re-based by the vertex span's start, and
    /// every local index range by the index span's start.  Returns
    /// the model and the upload-ready staging data.  Succeeds exactly
    /// when no shift would leave 32-bit addressing.
    pub fn from_staged(staged: StagedModel, vertex_buffer_start: u32, index_buffer_start: u32) -> (r:
        Result<(Model, StagingBuffers), LoadError>)
        requires
            staged.staging_buffers.wf(),
        ensures
            r.is_ok() <==> {
                &&& vertex_buffer_start + staged.staging_buffers.positions.len() <= u32::MAX
                &&& index_buffer_start + staged.staging_buffers.indices.len() <= u32::MAX
                &&& spec_prims_shiftable(staged.primitives@, index_buffer_start as int)
                &&& spec_ranges_shiftable(staged.primitive_ranges, index_buffer_start as int)
            },
            r matches Err(e) ==> e == LoadError::AssetTooLarge,
            r.is_ok() ==> {
                let m = r->Ok_0.0;
                let upload = r->Ok_0.1;
                let sb = staged.staging_buffers;
                &&& upload.positions@ == sb.positions@
                &&& upload.normals@ == sb.normals@
                &&& upload.uvs@ == sb.uvs@
                &&& upload.lightmap_uvs@ == sb.lightmap_uvs@
                &&& upload.joint_indices@ == sb.joint_indices@
                &&& upload.joint_weights@ == sb.joint_weights@
                &&& upload.indices.len() == sb.indices.len()
                &&& forall|i: int|
                    0 <= i < sb.indices.len() ==> (#[trigger] upload.indices[i]) == sb.indices[i]
                        + vertex_buffer_start
                &&& m.primitives.len() == staged.primitives.len()
                &&& forall|k: int|
                    0 <= k < staged.primitives.len() ==> spec_prim_shifted(
                        (#[trigger] staged.primitives[k]),
                        m.primitives[k],
                        index_buffer_start as int,
                    )
                &&& spec_bucket_shifted(
                    staged.primitive_ranges.opaque.single,
                    m.primitive_ranges.opaque.single,
                    index_buffer_start as int,
                )
                &&& spec_bucket_shifted(
                    staged.primitive_ranges.opaque.double,
                    m.primitive_ranges.opaque.double,
                    index_buffer_start as int,
                )
                &&& spec_bucket_shifted(
                    staged.primitive_ranges.alpha_clipped.single,
                    m.primitive_ranges.alpha_clipped.single,
                    index_buffer_start as int,
                )
                &&& spec_bucket_shifted(
                    staged.primitive_ranges.alpha_clipped.double,
                    m.primitive_ranges.alpha_clipped.double,
                    index_buffer_start as int,
                )
                &&& spec_bucket_shifted(
                    staged.primitive_ranges.alpha_blended.single,
                    m.primitive_ranges.alpha_blended.single,
                    index_buffer_start as int,
                )
                &&& spec_bucket_shifted(
                    staged.primitive_ranges.alpha_blended.double,
                    m.primitive_ranges.alpha_blended.double,
                    index_buffer_start as int,
                )
                &&& m.vertex_buffer_range.start == vertex_buffer_start
                &&& m.vertex_buffer_range.end == vertex_buffer_start + sb.positions.len()
                &&& m.index_buffer_range.start == index_buffer_start
                &&& m.index_buffer_range.end == index_buffer_start + sb.indices.len()
            },
    {
        let StagedModel { mut primitives, primitive_ranges, staging_buffers } = staged;
        let mut upload = staging_buffers;
        if upload.positions.len() > (u32::MAX as usize) - (vertex_buffer_start as usize) {
            return Err(LoadError::AssetTooLarge);
        }
        if upload.indices.len() > (u32::MAX as usize) - (index_buffer_start as usize) {
            return Err(LoadError::AssetTooLarge);
        }
        let ghost sb0 = upload;
        let mut i: usize = 0;
        while i < upload.indices.len()
            invariant
                i <= upload.indices.len(),
                upload.positions@ == sb0.positions@,
                upload.normals@ == sb0.normals@,
                upload.uvs@ == sb0.uvs@,
                upload.lightmap_uvs@ == sb0.lightmap_uvs@,
                upload.joint_indices@ == sb0.joint_indices@,
                upload.joint_weights@ == sb0.joint_weights@,
                upload.is_lightmapped == sb0.is_lightmapped,
                upload.indices.len() == sb0.indices.len(),
                sb0.wf(),
                vertex_buffer_start + sb0.positions.len() <= u32::MAX,
                forall|j: int|
                    0 <= j < i ==> (#[trigger] upload.indices[j]) == sb0.indices[j]
                        + vertex_buffer_start,
                forall|j: int|
                    i <= j < upload.indices.len() ==> (#[trigger] upload.indices[j]) == sb0.indices[j],
            decreases upload.indices.len() - i,
        {
            let shifted = upload.indices[i] + vertex_buffer_start;
            upload.indices.set(i, shifted);
            i += 1;
        }
        let ghost prims0 = primitives;
        proof {
            assert(prims0@ == staged.primitives@);
        }
        let mut k: usize = 0;
        while k < primitives.len()
            invariant
                k <= primitives.len(),
                primitives.len() == prims0.len(),
                prims0@ == staged.primitives@,
                vertex_buffer_start + staged.staging_buffers.positions.len() <= u32::MAX,
                index_buffer_start + staged.staging_buffers.indices.len() <= u32::MAX,
                index_buffer_start + sb0.indices.len() <= u32::MAX,
                forall|j: int|
                    0 <= j < k ==> spec_prim_shifted(
                        (#[trigger] prims0[j]),
                        primitives[j],
                        index_buffer_start as int,
                    ),
                forall|j: int|
                    k <= j < primitives.len() ==> (#[trigger] primitives[j]) == prims0[j],
            decreases primitives.len() - k,
        {
            let prim = &primitives[k];
            let mut new_lods: Vec<PrimitiveLod> = Vec::new();
            let mut l: usize = 0;
            let num_lods = prim.lods.len();
            while l < num_lods
                invariant
                    l <= num_lods,
                    k < primitives.len(),
                    primitives.len() == prims0.len(),
                    prims0@ == staged.primitives@,
                    vertex_buffer_start + staged.staging_buffers.positions.len() <= u32::MAX,
                    index_buffer_start + staged.staging_buffers.indices.len() <= u32::MAX,
                    primitives[k as int] == prims0[k as int],
                    num_lods == prims0[k as int].lods.len(),
                    index_buffer_start + sb0.indices.len() <= u32::MAX,
                    new_lods.len() == l,
                    forall|j: int|
                        0 <= j < l ==> spec_lod_shifted(
                            prims0[k as int].lods[j],
                            (#[trigger] new_lods[j]),
                            index_buffer_start as int,
                        ),
                decreases num_lods - l,
            {
                let lod = &primitives[k].lods[l];
                if lod.index_buffer_range.end > u32::MAX - index_buffer_start
                    || lod.index_buffer_range.start > u32::MAX - index_buffer_start {
                    proof {
                        assert(!spec_prims_shiftable(staged.primitives@, index_buffer_start as int));
                    }
                    return Err(LoadError::AssetTooLarge);
                }
                new_lods.push(
                    PrimitiveLod {
                        index_buffer_range: RangeU32 {
                            start: lod.index_buffer_range.start + index_buffer_start,
                            end: lod.index_buffer_range.end + index_buffer_start,
                        },
                        material_index: lod.material_index,
                        is_lightmapped: lod.is_lightmapped,
                    },
                );
                l += 1;
            }
            let old_prim = &primitives[k];
            let updated = Primitive {
                lods: new_lods,
                bounding_box: old_prim.bounding_box,
                bounding_sphere: old_prim.bounding_sphere,
                transform: old_prim.transform,
                screen_coverages: copy_fixed_vec(&old_prim.screen_coverages),
            };
            primitives.set(k, updated);
            k += 1;
        }
        proof {
            assert forall|kk: int, ll: int|
                0 <= kk < staged.primitives@.len() && 0 <= ll
                    < staged.primitives@[kk].lods.len() implies (
            #[trigger] staged.primitives@[kk].lods[ll]).index_buffer_range.start
                + index_buffer_start <= u32::MAX && staged.primitives@[kk].lods[
                ll
            ].index_buffer_range.end + index_buffer_start <= u32::MAX by {
                assert(spec_prim_shifted(
                    prims0[kk],
                    primitives[kk],
                    index_buffer_start as int,
                ));
                assert(spec_lod_shifted(
                    prims0[kk].lods[ll],
                    primitives[kk].lods[ll],
                    index_buffer_start as int,
                ));
            }
        }
        let ranges = match shift_all_ranges(&primitive_ranges, index_buffer_start) {
            Ok(rg) => rg,
            Err(e) => {
                return Err(e);
            },
        };
        let index_len = upload.indices.len() as u32;
        let vertex_len = upload.positions.len() as u32;
        Ok(
            (
                Model {
                    primitives,
                    primitive_ranges: ranges,
                    index_buffer_range: RangeU32 {
                        start: index_buffer_start,
                        end: index_buffer_start + index_len,
                    },
                    vertex_buffer_range: RangeU32 {
                        start: vertex_buffer_start,
                        end: vertex_buffer_start + vertex_len,
                    },
                },
                upload,
            ),
        )
    }
}

/// Shift one bucket span by the index buffer's start.
fn shift_bucket(rg: &Ranges, s: u32) -> (r: Result<Ranges, LoadError>)
    ensures
        r.is_ok() <==> spec_bucket_shiftable(*rg, s as int),
        r matches Ok(b) ==> spec_bucket_shifted(*rg, b, s as int),
        r matches Err(e) ==> e == LoadError::AssetTooLarge,
{
    if rg.indices.start > u32::MAX - s || rg.indices.end > u32::MAX - s {
        return Err(LoadError::AssetTooLarge);
    }
    Ok(
        Ranges {
            indices: RangeU32 { start: rg.indices.start + s, end: rg.indices.end + s },
            primitives: rg.primitives,
        },
    )
}

/// Shift all six bucket spans by the index buffer's start.
fn shift_all_ranges(pr: &PrimitiveRanges, s: u32) -> (r: Result<PrimitiveRanges, LoadError>)
    ensures
        r.is_ok() <==> spec_ranges_shiftable(*pr, s as int),
        r matches Err(e) ==> e == LoadError::AssetTooLarge,
        r matches Ok(b) ==> spec_bucket_shifted(pr.opaque.single, b.opaque.single, s as int)
            && spec_bucket_shifted(pr.opaque.double, b.opaque.double, s as int)
            && spec_bucket_shifted(pr.alpha_clipped.single, b.alpha_clipped.single, s as int)
            && spec_bucket_shifted(pr.alpha_clipped.double, b.alpha_clipped.double, s as int)
            && spec_bucket_shifted(pr.alpha_blended.single, b.alpha_blended.single, s as int)
            && spec_bucket_shifted(pr.alpha_blended.double, b.alpha_blended.double, s as int),
{
    let opaque_single = match shift_bucket(&pr.opaque.single, s) {
        Ok(b) => b,
        Err(e) => {
            return Err(e);
        },
    };
    let opaque_double = match shift_bucket(&pr.opaque.double, s) {
        Ok(b) => b,
        Err(e) => {
            return Err(e);
        },
    };
    let alpha_clipped_single = match shift_bucket(&pr.alpha_clipped.single, s) {
        Ok(b) => b,
        Err(e) => {
            return Err(e);
        },
    };
    let alpha_clipped_double = match shift_bucket(&pr.alpha_clipped.double, s) {
        Ok(b) => b,
        Err(e) => {
            return Err(e);
        },
    };
    let alpha_blended_single = match shift_bucket(&pr.alpha_blended.single, s) {
        Ok(b) => b,
        Err(e) => {
            return Err(e);
        },
    };
    let alpha_blended_double = match shift_bucket(&pr.alpha_blended.double, s) {
        Ok(b) => b,
        Err(e) => {
            return Err(e);
        },
    };
    Ok(
        PrimitiveRanges {
            opaque: FaceSidesRanges { single: opaque_single, double: opaque_double },
            alpha_clipped: FaceSidesRanges {
                single: alpha_clipped_single,
                double: alpha_clipped_double,
            },
            alpha_blended: FaceSidesRanges {
                single: alpha_blended_single,
                double: alpha_blended_double,
            },
        },
    )
}

/// A list of `n` zero vectors.
fn fill_zero_vec3(n: usize) -> (r: Vec<FxVec3>)
    ensures
        r.len() == n,
        forall|i: int|
            0 <= i < n ==> (#[trigger] r[i]) == (FxVec3 {
                x: Fixed { raw: 0 },
                y: Fixed { raw: 0 },
                z: Fixed { raw: 0 },
            }),
{
    let mut out: Vec<FxVec3> = Vec::new();
    let mut k: usize = 0;
    while k < n
        invariant
            out.len() == k <= n,
            forall|i: int|
                0 <= i < k ==> (#[trigger] out[i]) == (FxVec3 {
                    x: Fixed { raw: 0 },
                    y: Fixed { raw: 0 },
                    z: Fixed { raw: 0 },
                }),
        decreases n - k,
    {
        out.push(FxVec3::zero());
        k += 1;
    }
    out
}

/// `n` joint-index records all pinned to one node.
fn fill_joint_default(n: usize, node_index: u32) -> (r: Vec<JointIndices>)
    ensures
        r.len() == n,
        forall|i: int|
            0 <= i < n ==> (#[trigger] r[i]) == (JointIndices {
                x: node_index,
                y: node_index,
                z: node_index,
                w: node_index,
            }),
{
    let mut out: Vec<JointIndices> = Vec::new();
    let mut k: usize = 0;
    while k < n
        invariant
            out.len() == k <= n,
            forall|i: int|
                0 <= i < k ==> (#[trigger] out[i]) == (JointIndices {
                    x: node_index,
                    y: node_index,
                    z: node_index,
                    w: node_index,
                }),
        decreases n - k,
    {
        out.push(JointIndices { x: node_index, y: node_index, z: node_index, w: node_index });
        k += 1;
    }
    out
}

/// `n` weight records giving the first joint full influence.
fn fill_weight_default(n: usize) -> (r: Vec<FxVec4>)
    ensures
        r.len() == n,
        forall|i: int|
            0 <= i < n ==> (#[trigger] r[i]) == (FxVec4 {
                x: Fixed { raw: 65536 },
                y: Fixed { raw: 0 },
                z: Fixed { raw: 0 },
                w: Fixed { raw: 0 },
            }),
{
    let mut out: Vec<FxVec4> = Vec::new();
    let mut k: usize = 0;
    while k < n
        invariant
            out.len() == k <= n,
            forall|i: int|
                0 <= i < k ==> (#[trigger] out[i]) == (FxVec4 {
                    x: Fixed { raw: 65536 },
                    y: Fixed { raw: 0 },
                    z: Fixed { raw: 0 },
                    w: Fixed { raw: 0 },
                }),
        decreases n - k,
    {
        out.push(
            FxVec4 {
                x: Fixed::from_raw(65536),
                y: Fixed::zero(),
                z: Fixed::zero(),
                w: Fixed::zero(),
            },
        );
        k += 1;
    }
    out
}

/// A list of `n` zero texture coordinates.
fn fill_zero_vec2(n: usize) -> (r: Vec<FxVec2>)
    ensures
        r.len() == n,
        forall|i: int|
            0 <= i < n ==> (#[trigger] r[i]) == (FxVec2 { x: Fixed { raw: 0 }, y: Fixed { raw: 0 } }),
{
    let mut out: Vec<FxVec2> = Vec::new();
    let mut k: usize = 0;
    while k < n
        invariant
            out.len() == k <= n,
            forall|i: int|
                0 <= i < k ==> (#[trigger] out[i]) == (FxVec2 {
                    x: Fixed { raw: 0 },
                    y: Fixed { raw: 0 },
                }),
        decreases n - k,
    {
        out.push(FxVec2 { x: Fixed::zero(), y: Fixed::zero() });
        k += 1;
    }
    out
}

} // verus!
