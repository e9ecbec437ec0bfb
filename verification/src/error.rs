//! Errors raised while decoding an asset.
//!
//! Every variant names the piece of the asset that was malformed, so a
//! failed load can be reported precisely and scoped to that one asset.

use vstd::prelude::*;

use crate::document::{AccessorKind, ComponentType};

verus! {

/// Why an asset failed to decode.
#[derive(Clone, Debug, PartialEq, Eq, Structural)]
pub enum LoadError {
    /// A node lists a child index outside the node table.
    ChildOutOfRange { child: usize },
    /// The node hierarchy is not a forest; traversal found more edges
    /// than nodes.
    NodeCycle,
    /// A primitive or channel names an accessor outside the accessor
    /// table.
    AccessorOutOfRange { accessor: usize },
    /// An accessor has no buffer view to read from.
    MissingBufferView,
    /// An accessor names a buffer view outside the table, or one with
    /// no loaded bytes.
    BufferViewOutOfRange { buffer_view: usize },
    /// An accessor's byte range runs past its buffer view's bytes.
    AccessorRangeOutOfBounds,
    /// The (component type, normalized, stride) combination is outside
    /// the supported decode table; the exact combination is carried so
    /// the report can name it.
    UnsupportedAccessor {
        component_type: ComponentType,
        kind: AccessorKind,
        normalized: bool,
        stride: Option<usize>,
    },
    /// A primitive has no position attribute.
    MissingPositions,
    /// A node references a mesh index outside the mesh table.
    MeshOutOfRange { mesh: usize },
    /// A primitive references a material index outside the table.
    MaterialOutOfRange { material: usize },
    /// Two levels of detail of one mesh disagree on primitive count.
    LodPrimitiveCountMismatch { expected: usize, got: usize },
    /// A skinned model has no inverse-bind-matrices accessor.
    MissingInverseBindMatrices,
    /// The byte buffer is not a well-formed binary glTF container.
    BadGlbContainer,
    /// An animation channel's timestamps are not sorted ascending, or
    /// its output count does not match its input count.
    BadAnimationChannel,
    /// A buffer or decompressed view the document references was not
    /// supplied by the caller.
    MissingBufferData { buffer: usize },
    /// An index in the index data points past the primitive's vertex
    /// count.
    VertexIndexOutOfRange { index: u32 },
    /// An attribute accessor holds a different number of elements than
    /// the position accessor.
    AttributeCountMismatch { expected: usize, got: usize },
    /// The asset's combined vertex or index data exceeds what 32-bit
    /// GPU buffer offsets can address.
    AssetTooLarge,
}

impl LoadError {
    /// A short description of the failure; the variant's fields carry
    /// the exact indices and combinations for callers that need them.
    pub fn message(&self) -> &'static str {
        match self {
            LoadError::ChildOutOfRange { .. } => "child index out of range",
            LoadError::NodeCycle => "node hierarchy is cyclic",
            LoadError::AccessorOutOfRange { .. } => "accessor index out of range",
            LoadError::MissingBufferView => "accessor is missing a buffer view",
            LoadError::BufferViewOutOfRange { .. } => "buffer view index out of range",
            LoadError::AccessorRangeOutOfBounds => "accessor byte range exceeds its buffer view",
            LoadError::UnsupportedAccessor { .. } => {
                "unsupported combination of component type, normalized and byte stride"
            },
            LoadError::MissingPositions => "primitive does not specify vertex positions",
            LoadError::MeshOutOfRange { .. } => "mesh index out of range",
            LoadError::MaterialOutOfRange { .. } => "material index out of range",
            LoadError::LodPrimitiveCountMismatch { .. } => {
                "mismatched primitive count across levels of detail"
            },
            LoadError::MissingInverseBindMatrices => {
                "skinned model is missing its inverse bind matrices accessor"
            },
            LoadError::BadGlbContainer => "bytes are not a well-formed binary container",
            LoadError::BadAnimationChannel => {
                "animation channel timestamps or output counts are malformed"
            },
            LoadError::MissingBufferData { .. } => "no bytes supplied for a referenced buffer",
            LoadError::VertexIndexOutOfRange { .. } => "vertex index exceeds the vertex count",
            LoadError::AttributeCountMismatch { .. } => {
                "attribute count differs from the position count"
            },
            LoadError::AssetTooLarge => "asset exceeds 32-bit buffer addressing",
        }
    }
}

} // verus!
