//! The plain-value model of a parsed glTF document.
//!
//! The JSON chunk of an asset is turned into these types at the
//! library's boundary; everything the decoding pipeline reads — node
//! hierarchy, meshes, accessors, buffer views, skins and animation
//! channels — is held here as plain indices, integers and fixed-point
//! scalars, so the whole pipeline after parsing is verified.

use vstd::prelude::*;

use crate::fixed::Fixed;
use crate::similarity::Similarity;

verus! {

/// The scalar encoding of one accessor component.
#[derive(Clone, Copy, Debug, PartialEq, Eq, Structural)]
pub enum ComponentType {
    Byte,
    UnsignedByte,
    Short,
    UnsignedShort,
    UnsignedInt,
    Float,
}

impl ComponentType {
    /// Size of one component in bytes.
    pub fn byte_size(&self) -> (r: usize)
        ensures
            r == spec_component_byte_size(*self),
    {
        match self {
            ComponentType::Byte => 1,
            ComponentType::UnsignedByte => 1,
            ComponentType::Short => 2,
            ComponentType::UnsignedShort => 2,
            ComponentType::UnsignedInt => 4,
            ComponentType::Float => 4,
        }
    }
}

/// Size of one component in bytes.
pub open spec fn spec_component_byte_size(c: ComponentType) -> usize {
    match c {
        ComponentType::Byte => 1usize,
        ComponentType::UnsignedByte => 1usize,
        ComponentType::Short => 2usize,
        ComponentType::UnsignedShort => 2usize,
        ComponentType::UnsignedInt => 4usize,
        ComponentType::Float => 4usize,
    }
}

/// How many components one accessor element has.
#[derive(Clone, Copy, Debug, PartialEq, Eq, Structural)]
pub enum AccessorKind {
    Scalar,
    Vec2,
    Vec3,
    Vec4,
    Mat4,
}

impl AccessorKind {
    /// Number of components per element.
    pub fn num_components(&self) -> (r: usize)
        ensures
            r == spec_num_components(*self),
    {
        match self {
            AccessorKind::Scalar => 1,
            AccessorKind::Vec2 => 2,
            AccessorKind::Vec3 => 3,
            AccessorKind::Vec4 => 4,
            AccessorKind::Mat4 => 16,
        }
    }
}

/// Number of components per element.
pub open spec fn spec_num_components(k: AccessorKind) -> usize {
    match k {
        AccessorKind::Scalar => 1usize,
        AccessorKind::Vec2 => 2usize,
        AccessorKind::Vec3 => 3usize,
        AccessorKind::Vec4 => 4usize,
        AccessorKind::Mat4 => 16usize,
    }
}

/// One accessor: a typed window onto a buffer view.
#[derive(Clone, Debug)]
pub struct AccessorDef {
    pub buffer_view: Option<usize>,
    pub byte_offset: usize,
    pub count: usize,
    pub component_type: ComponentType,
    pub kind: AccessorKind,
    pub normalized: bool,
}

/// Compression metadata a buffer view may carry; the compressed stream
/// is decoded outside the library and handed back as plain bytes.
#[derive(Clone, Debug)]
pub struct MeshoptCompression {
    pub buffer: usize,
    pub byte_offset: usize,
    pub byte_length: usize,
    pub byte_stride: usize,
    pub count: usize,
    pub fallback: bool,
}

/// One buffer view: a byte range of a buffer, with an optional stride.
#[derive(Clone, Debug)]
pub struct BufferViewDef {
    pub buffer: usize,
    pub byte_offset: usize,
    pub byte_length: usize,
    pub byte_stride: Option<usize>,
    pub meshopt: Option<MeshoptCompression>,
}

/// One buffer: either carried by the binary chunk (no uri) or named
/// by a uri, held as raw bytes.  Embedded base64 payloads are decoded
/// by the library; other uris are resolved by the caller.  A buffer
/// marked as a compression fallback is never loaded.
#[derive(Clone, Debug)]
pub struct BufferDef {
    pub byte_length: usize,
    pub uri: Option<Vec<u8>>,
    pub meshopt_fallback: bool,
}

/// The vertex attributes a primitive may reference, by accessor index.
#[derive(Clone, Debug)]
pub struct PrimitiveAttributes {
    pub position: Option<usize>,
    pub normal: Option<usize>,
    pub texcoord_0: Option<usize>,
    pub texcoord_1: Option<usize>,
    pub joints_0: Option<usize>,
    pub weights_0: Option<usize>,
}

/// One drawable primitive of a mesh.
#[derive(Clone, Debug)]
pub struct PrimitiveDef {
    pub attributes: PrimitiveAttributes,
    pub indices: Option<usize>,
    pub material: Option<usize>,
}

/// One mesh: a list of primitives.
#[derive(Clone, Debug)]
pub struct MeshDef {
    pub primitives: Vec<PrimitiveDef>,
}

/// How a material's alpha channel is treated.
#[derive(Clone, Copy, Debug, PartialEq, Eq, Structural)]
pub enum AlphaMode {
    Opaque,
    Mask,
    Blend,
}

/// The two material properties that drive primitive batching.
#[derive(Clone, Debug)]
pub struct MaterialDef {
    pub alpha_mode: AlphaMode,
    pub double_sided: bool,
}

/// One node of the scene graph.
#[derive(Clone, Debug)]
pub struct NodeDef {
    pub local_transform: Similarity,
    pub children: Vec<usize>,
    pub mesh: Option<usize>,
    /// Nodes holding lower-detail variants of this node's mesh.
    pub lod_ids: Vec<usize>,
    /// Ascending screen-coverage thresholds, carried verbatim.
    pub screen_coverages: Vec<Fixed>,
}

/// One skin: the joint table and its inverse bind matrices.
#[derive(Clone, Debug)]
pub struct SkinDef {
    pub joints: Vec<usize>,
    pub inverse_bind_matrices: Option<usize>,
}

/// Which transform component an animation channel drives.
#[derive(Clone, Copy, Debug, PartialEq, Eq, Structural)]
pub enum ChannelProperty {
    Translation,
    Rotation,
    Scale,
    /// A property the runtime does not support; recorded so the loader
    /// can warn and skip rather than fail.
    Unsupported,
}

/// How samples between keyframes are interpolated.
#[derive(Clone, Copy, Debug, PartialEq, Eq, Structural)]
pub enum Interpolation {
    Step,
    Linear,
    CubicSpline,
}

/// One animation channel: keyframe input/output accessors and the node
/// the samples drive.
#[derive(Clone, Debug)]
pub struct AnimChannelDef {
    pub input: usize,
    pub output: usize,
    pub interpolation: Interpolation,
    pub node_index: usize,
    pub property: ChannelProperty,
}

/// One animation: its channels in declaration order.
#[derive(Clone, Debug)]
pub struct AnimationDef {
    pub channels: Vec<AnimChannelDef>,
}

/// Everything the decoding pipeline reads from a parsed document.
#[derive(Clone, Debug)]
pub struct GltfDocument {
    pub nodes: Vec<NodeDef>,
    pub meshes: Vec<MeshDef>,
    pub materials: Vec<MaterialDef>,
    pub accessors: Vec<AccessorDef>,
    pub buffer_views: Vec<BufferViewDef>,
    pub buffers: Vec<BufferDef>,
    pub skins: Vec<SkinDef>,
    pub animations: Vec<AnimationDef>,
}

} // verus!
