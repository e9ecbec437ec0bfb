//! Typed accessor decoding.
//!
//! Raw buffer-view bytes become typed elements through an explicit
//! table of supported (component type, normalized, byte stride)
//! combinations; any combination outside the table is a decode error
//! that names the exact combination, never a silent mis-decode.

use vstd::prelude::*;

use crate::document::{AccessorKind, ComponentType};
use crate::error::LoadError;
use crate::fixed::{fx_of_f32_bits, spec_snorm8, spec_snorm16, Fixed};
use crate::vecmath::{FxVec2, FxVec3, FxVec4, JointIndices};

verus! {

/// The value of two little-endian bytes.
pub open spec fn spec_le16(b: Seq<u8>, off: int) -> int {
    b[off] + 256 * b[off + 1]
}

/// The value of four little-endian bytes.
pub open spec fn spec_le32(b: Seq<u8>, off: int) -> int {
    b[off] + 256 * b[off + 1] + 65536 * b[off + 2] + 16777216 * b[off + 3]
}

/// The fixed-point value of four little-endian bytes read as an IEEE
/// 754 single.
pub open spec fn spec_f32_at(b: Seq<u8>, off: int) -> int {
    fx_of_f32_bits(spec_le32(b, off) as u32)
}

/// Read two little-endian bytes.
pub fn read_le16(bytes: &[u8], off: usize) -> (r: u16)
    requires
        off + 2 <= bytes.len(),
    ensures
        r == spec_le16(bytes@, off as int),
{
    (bytes[off] as u16) + 256 * (bytes[off + 1] as u16)
}

/// Read four little-endian bytes.
pub fn read_le32(bytes: &[u8], off: usize) -> (r: u32)
    requires
        off + 4 <= bytes.len(),
    ensures
        r == spec_le32(bytes@, off as int),
{
    (bytes[off] as u32) + 256 * (bytes[off + 1] as u32) + 65536 * (bytes[off + 2] as u32)
        + 16777216 * (bytes[off + 3] as u32)
}

/// Read a fixed-point scalar from four bytes of IEEE 754 single.
fn read_f32_at(bytes: &[u8], off: usize) -> (r: Fixed)
    requires
        off + 4 <= bytes.len(),
    ensures
        r.raw == spec_f32_at(bytes@, off as int),
{
    Fixed::from_f32_bits(read_le32(bytes, off))
}

/// The supported combinations for scalar keyframe data.
pub open spec fn spec_scalar_supported(ct: ComponentType, normalized: bool, stride: Option<usize>) -> bool {
    ct == ComponentType::Float && !normalized && stride is None
}

/// One decoded scalar element.
pub open spec fn spec_scalar_at(b: Seq<u8>, i: int) -> Fixed {
    Fixed { raw: spec_f32_at(b, 4 * i) as i32 }
}

/// Decode tightly packed float scalars (animation keyframe inputs and
/// outputs).  Succeeds exactly on the supported combination with
/// enough bytes; an unsupported combination is named in the error.
pub fn read_fixed_scalars(
    bytes: &[u8],
    component_type: ComponentType,
    normalized: bool,
    stride: Option<usize>,
    count: usize,
) -> (r: Result<Vec<Fixed>, LoadError>)
    ensures
        r.is_ok() <==> spec_scalar_supported(component_type, normalized, stride) && bytes@.len()
            >= 4 * count,
        r matches Ok(v) ==> v.len() == count && forall|i: int|
            0 <= i < count ==> (#[trigger] v[i]) == spec_scalar_at(bytes@, i),
        r matches Err(e) ==> if spec_scalar_supported(component_type, normalized, stride) {
            e == LoadError::AccessorRangeOutOfBounds
        } else {
            e == (LoadError::UnsupportedAccessor {
                component_type,
                kind: AccessorKind::Scalar,
                normalized,
                stride,
            })
        },
{
    match (component_type, normalized, stride) {
        (ComponentType::Float, false, Option::None) => {
            if bytes.len() / 4 < count {
                return Err(LoadError::AccessorRangeOutOfBounds);
            }
            let mut out: Vec<Fixed> = Vec::new();
            let mut i: usize = 0;
            while i < count
                invariant
                    out.len() == i <= count,
                    4 * count <= bytes.len(),
                    forall|j: int| 0 <= j < i ==> (#[trigger] out[j]) == spec_scalar_at(bytes@, j),
                decreases count - i,
            {
                out.push(read_f32_at(bytes, 4 * i));
                i += 1;
            }
            Ok(out)
        },
        _ => Err(
            LoadError::UnsupportedAccessor {
                component_type,
                kind: AccessorKind::Scalar,
                normalized,
                stride,
            },
        ),
    }
}

/// The supported combinations for three-component vectors (positions,
/// normals) and the byte width of one element under each.
pub open spec fn spec_vec3_supported(ct: ComponentType, normalized: bool, stride: Option<usize>) -> bool {
    ||| (ct == ComponentType::Float && !normalized && (stride is None || stride == Some(12usize)))
    ||| (ct == ComponentType::UnsignedShort && stride == Some(8usize))
    ||| (ct == ComponentType::Byte && normalized && stride == Some(4usize))
}

/// Byte width of one vector element under a supported combination.
pub open spec fn spec_vec3_elem_size(ct: ComponentType, normalized: bool, stride: Option<usize>) -> int {
    if ct == ComponentType::Float {
        12
    } else if ct == ComponentType::UnsignedShort {
        8
    } else {
        4
    }
}

/// One decoded three-component element.
pub open spec fn spec_vec3_at(
    b: Seq<u8>,
    ct: ComponentType,
    normalized: bool,
    i: int,
) -> FxVec3 {
    if ct == ComponentType::Float {
        FxVec3 {
            x: Fixed { raw: spec_f32_at(b, 12 * i) as i32 },
            y: Fixed { raw: spec_f32_at(b, 12 * i + 4) as i32 },
            z: Fixed { raw: spec_f32_at(b, 12 * i + 8) as i32 },
        }
    } else if ct == ComponentType::UnsignedShort && !normalized {
        FxVec3 {
            x: Fixed { raw: crate::fixed::fx_clip(65536 * spec_le16(b, 8 * i)) as i32 },
            y: Fixed { raw: crate::fixed::fx_clip(65536 * spec_le16(b, 8 * i + 2)) as i32 },
            z: Fixed { raw: crate::fixed::fx_clip(65536 * spec_le16(b, 8 * i + 4)) as i32 },
        }
    } else if ct == ComponentType::UnsignedShort {
        FxVec3 {
            x: Fixed { raw: ((65536 * spec_le16(b, 8 * i)) / 65535) as i32 },
            y: Fixed { raw: ((65536 * spec_le16(b, 8 * i + 2)) / 65535) as i32 },
            z: Fixed { raw: ((65536 * spec_le16(b, 8 * i + 4)) / 65535) as i32 },
        }
    } else {
        FxVec3 {
            x: Fixed { raw: spec_snorm8(b[4 * i] as int) as i32 },
            y: Fixed { raw: spec_snorm8(b[4 * i + 1] as int) as i32 },
            z: Fixed { raw: spec_snorm8(b[4 * i + 2] as int) as i32 },
        }
    }
}

/// Decode three-component vectors: tightly packed or strided floats,
/// unsigned shorts padded to eight bytes (raw or normalized to
/// `[0, 1]`), or normalized signed bytes padded to four.  An
/// unnormalized unsigned short decodes to its plain integer value, as
/// a widening float cast would.
pub fn read_vec3s(
    bytes: &[u8],
    component_type: ComponentType,
    normalized: bool,
    stride: Option<usize>,
    count: usize,
) -> (r: Result<Vec<FxVec3>, LoadError>)
    ensures
        r.is_ok() <==> spec_vec3_supported(component_type, normalized, stride) && bytes@.len()
            >= count * spec_vec3_elem_size(component_type, normalized, stride),
        r matches Ok(v) ==> v.len() == count && forall|i: int|
            0 <= i < count ==> (#[trigger] v[i]) == spec_vec3_at(
                bytes@,
                component_type,
                normalized,
                i,
            ),
        r matches Err(e) ==> if spec_vec3_supported(component_type, normalized, stride) {
            e == LoadError::AccessorRangeOutOfBounds
        } else {
            e == (LoadError::UnsupportedAccessor {
                component_type,
                kind: AccessorKind::Vec3,
                normalized,
                stride,
            })
        },
{
    match (component_type, normalized, stride) {
        (ComponentType::Float, false, Option::None) | (
            ComponentType::Float,
            false,
            Option::Some(12usize),
        ) => {
            if bytes.len() / 12 < count {
                return Err(LoadError::AccessorRangeOutOfBounds);
            }
            let mut out: Vec<FxVec3> = Vec::new();
            let mut i: usize = 0;
            while i < count
                invariant
                    out.len() == i <= count,
                    12 * count <= bytes.len(),
                    forall|j: int|
                        0 <= j < i ==> (#[trigger] out[j]) == spec_vec3_at(
                            bytes@,
                            ComponentType::Float,
                            false,
                            j,
                        ),
                decreases count - i,
            {
                out.push(
                    FxVec3 {
                        x: read_f32_at(bytes, 12 * i),
                        y: read_f32_at(bytes, 12 * i + 4),
                        z: read_f32_at(bytes, 12 * i + 8),
                    },
                );
                i += 1;
            }
            Ok(out)
        },
        (ComponentType::UnsignedShort, false, Option::Some(8usize)) => {
            if bytes.len() / 8 < count {
                return Err(LoadError::AccessorRangeOutOfBounds);
            }
            let mut out: Vec<FxVec3> = Vec::new();
            let mut i: usize = 0;
            while i < count
                invariant
                    out.len() == i <= count,
                    8 * count <= bytes.len(),
                    forall|j: int|
                        0 <= j < i ==> (#[trigger] out[j]) == spec_vec3_at(
                            bytes@,
                            ComponentType::UnsignedShort,
                            false,
                            j,
                        ),
                decreases count - i,
            {
                out.push(
                    FxVec3 {
                        x: Fixed::from_int(read_le16(bytes, 8 * i) as i32),
                        y: Fixed::from_int(read_le16(bytes, 8 * i + 2) as i32),
                        z: Fixed::from_int(read_le16(bytes, 8 * i + 4) as i32),
                    },
                );
                i += 1;
            }
            Ok(out)
        },
        (ComponentType::UnsignedShort, true, Option::Some(8usize)) => {
            if bytes.len() / 8 < count {
                return Err(LoadError::AccessorRangeOutOfBounds);
            }
            let mut out: Vec<FxVec3> = Vec::new();
            let mut i: usize = 0;
            while i < count
                invariant
                    out.len() == i <= count,
                    8 * count <= bytes.len(),
                    forall|j: int|
                        0 <= j < i ==> (#[trigger] out[j]) == spec_vec3_at(
                            bytes@,
                            ComponentType::UnsignedShort,
                            true,
                            j,
                        ),
                decreases count - i,
            {
                out.push(
                    FxVec3 {
                        x: Fixed::from_unorm16(read_le16(bytes, 8 * i)),
                        y: Fixed::from_unorm16(read_le16(bytes, 8 * i + 2)),
                        z: Fixed::from_unorm16(read_le16(bytes, 8 * i + 4)),
                    },
                );
                i += 1;
            }
            Ok(out)
        },
        (ComponentType::Byte, true, Option::Some(4usize)) => {
            if bytes.len() / 4 < count {
                return Err(LoadError::AccessorRangeOutOfBounds);
            }
            let mut out: Vec<FxVec3> = Vec::new();
            let mut i: usize = 0;
            while i < count
                invariant
                    out.len() == i <= count,
                    4 * count <= bytes.len(),
                    forall|j: int|
                        0 <= j < i ==> (#[trigger] out[j]) == spec_vec3_at(
                            bytes@,
                            ComponentType::Byte,
                            true,
                            j,
                        ),
                decreases count - i,
            {
                out.push(
                    FxVec3 {
                        x: Fixed::from_snorm8_bits(bytes[4 * i]),
                        y: Fixed::from_snorm8_bits(bytes[4 * i + 1]),
                        z: Fixed::from_snorm8_bits(bytes[4 * i + 2]),
                    },
                );
                i += 1;
            }
            Ok(out)
        },
        _ => Err(
            LoadError::UnsupportedAccessor {
                component_type,
                kind: AccessorKind::Vec3,
                normalized,
                stride,
            },
        ),
    }
}

/// The supported combinations for two-component vectors (texture
/// coordinates).
pub open spec fn spec_vec2_supported(ct: ComponentType, normalized: bool, stride: Option<usize>) -> bool {
    ||| (ct == ComponentType::Float && !normalized && (stride is None || stride == Some(8usize)))
    ||| (ct == ComponentType::UnsignedShort && normalized && stride == Some(4usize))
}

/// Byte width of one two-component element.
pub open spec fn spec_vec2_elem_size(ct: ComponentType) -> int {
    if ct == ComponentType::Float {
        8
    } else {
        4
    }
}

/// One decoded two-component element.
pub open spec fn spec_vec2_at(b: Seq<u8>, ct: ComponentType, i: int) -> FxVec2 {
    if ct == ComponentType::Float {
        FxVec2 {
            x: Fixed { raw: spec_f32_at(b, 8 * i) as i32 },
            y: Fixed { raw: spec_f32_at(b, 8 * i + 4) as i32 },
        }
    } else {
        FxVec2 {
            x: Fixed { raw: ((65536 * spec_le16(b, 4 * i)) / 65535) as i32 },
            y: Fixed { raw: ((65536 * spec_le16(b, 4 * i + 2)) / 65535) as i32 },
        }
    }
}

/// Decode two-component vectors: floats, tight or strided to eight
/// bytes, or normalized unsigned shorts.
pub fn read_vec2s(
    bytes: &[u8],
    component_type: ComponentType,
    normalized: bool,
    stride: Option<usize>,
    count: usize,
) -> (r: Result<Vec<FxVec2>, LoadError>)
    ensures
        r.is_ok() <==> spec_vec2_supported(component_type, normalized, stride) && bytes@.len()
            >= count * spec_vec2_elem_size(component_type),
        r matches Ok(v) ==> v.len() == count && forall|i: int|
            0 <= i < count ==> (#[trigger] v[i]) == spec_vec2_at(bytes@, component_type, i),
        r matches Err(e) ==> if spec_vec2_supported(component_type, normalized, stride) {
            e == LoadError::AccessorRangeOutOfBounds
        } else {
            e == (LoadError::UnsupportedAccessor {
                component_type,
                kind: AccessorKind::Vec2,
                normalized,
                stride,
            })
        },
{
    match (component_type, normalized, stride) {
        (ComponentType::Float, false, Option::None) | (
            ComponentType::Float,
            false,
            Option::Some(8usize),
        ) => {
            if bytes.len() / 8 < count {
                return Err(LoadError::AccessorRangeOutOfBounds);
            }
            let mut out: Vec<FxVec2> = Vec::new();
            let mut i: usize = 0;
            while i < count
                invariant
                    out.len() == i <= count,
                    8 * count <= bytes.len(),
                    forall|j: int|
                        0 <= j < i ==> (#[trigger] out[j]) == spec_vec2_at(
                            bytes@,
                            ComponentType::Float,
                            j,
                        ),
                decreases count - i,
            {
                out.push(
                    FxVec2 { x: read_f32_at(bytes, 8 * i), y: read_f32_at(bytes, 8 * i + 4) },
                );
                i += 1;
            }
            Ok(out)
        },
        (ComponentType::UnsignedShort, true, Option::Some(4usize)) => {
            if bytes.len() / 4 < count {
                return Err(LoadError::AccessorRangeOutOfBounds);
            }
            let mut out: Vec<FxVec2> = Vec::new();
            let mut i: usize = 0;
            while i < count
                invariant
                    out.len() == i <= count,
                    4 * count <= bytes.len(),
                    forall|j: int|
                        0 <= j < i ==> (#[trigger] out[j]) == spec_vec2_at(
                            bytes@,
                            ComponentType::UnsignedShort,
                            j,
                        ),
                decreases count - i,
            {
                out.push(
                    FxVec2 {
                        x: Fixed::from_unorm16(read_le16(bytes, 4 * i)),
                        y: Fixed::from_unorm16(read_le16(bytes, 4 * i + 2)),
                    },
                );
                i += 1;
            }
            Ok(out)
        },
        _ => Err(
            LoadError::UnsupportedAccessor {
                component_type,
                kind: AccessorKind::Vec2,
                normalized,
                stride,
            },
        ),
    }
}

/// The supported combinations for four-component vectors (rotations,
/// joint weights).
pub open spec fn spec_vec4_supported(ct: ComponentType, normalized: bool, stride: Option<usize>) -> bool {
    ||| (ct == ComponentType::Float && !normalized && stride is None)
    ||| (ct == ComponentType::UnsignedByte && normalized && stride == Some(4usize))
    ||| (ct == ComponentType::Short && normalized && stride is None)
}

/// Byte width of one four-component element.
pub open spec fn spec_vec4_elem_size(ct: ComponentType) -> int {
    if ct == ComponentType::Float {
        16
    } else if ct == ComponentType::Short {
        8
    } else {
        4
    }
}

/// One decoded four-component element.
pub open spec fn spec_vec4_at(b: Seq<u8>, ct: ComponentType, i: int) -> FxVec4 {
    if ct == ComponentType::Float {
        FxVec4 {
            x: Fixed { raw: spec_f32_at(b, 16 * i) as i32 },
            y: Fixed { raw: spec_f32_at(b, 16 * i + 4) as i32 },
            z: Fixed { raw: spec_f32_at(b, 16 * i + 8) as i32 },
            w: Fixed { raw: spec_f32_at(b, 16 * i + 12) as i32 },
        }
    } else if ct == ComponentType::Short {
        FxVec4 {
            x: Fixed { raw: spec_snorm16(spec_le16(b, 8 * i)) as i32 },
            y: Fixed { raw: spec_snorm16(spec_le16(b, 8 * i + 2)) as i32 },
            z: Fixed { raw: spec_snorm16(spec_le16(b, 8 * i + 4)) as i32 },
            w: Fixed { raw: spec_snorm16(spec_le16(b, 8 * i + 6)) as i32 },
        }
    } else {
        FxVec4 {
            x: Fixed { raw: (((b[4 * i] as int) * 65536) / 255) as i32 },
            y: Fixed { raw: (((b[4 * i + 1] as int) * 65536) / 255) as i32 },
            z: Fixed { raw: (((b[4 * i + 2] as int) * 65536) / 255) as i32 },
            w: Fixed { raw: (((b[4 * i + 3] as int) * 65536) / 255) as i32 },
        }
    }
}

/// Decode four-component vectors: tightly packed floats, normalized
/// unsigned bytes, or normalized signed shorts.
pub fn read_vec4s(
    bytes: &[u8],
    component_type: ComponentType,
    normalized: bool,
    stride: Option<usize>,
    count: usize,
) -> (r: Result<Vec<FxVec4>, LoadError>)
    ensures
        r.is_ok() <==> spec_vec4_supported(component_type, normalized, stride) && bytes@.len()
            >= count * spec_vec4_elem_size(component_type),
        r matches Ok(v) ==> v.len() == count && forall|i: int|
            0 <= i < count ==> (#[trigger] v[i]) == spec_vec4_at(bytes@, component_type, i),
        r matches Err(e) ==> if spec_vec4_supported(component_type, normalized, stride) {
            e == LoadError::AccessorRangeOutOfBounds
        } else {
            e == (LoadError::UnsupportedAccessor {
                component_type,
                kind: AccessorKind::Vec4,
                normalized,
                stride,
            })
        },
{
    match (component_type, normalized, stride) {
        (ComponentType::Float, false, Option::None) => {
            if bytes.len() / 16 < count {
                return Err(LoadError::AccessorRangeOutOfBounds);
            }
            let mut out: Vec<FxVec4> = Vec::new();
            let mut i: usize = 0;
            while i < count
                invariant
                    out.len() == i <= count,
                    16 * count <= bytes.len(),
                    forall|j: int|
                        0 <= j < i ==> (#[trigger] out[j]) == spec_vec4_at(
                            bytes@,
                            ComponentType::Float,
                            j,
                        ),
                decreases count - i,
            {
                out.push(
                    FxVec4 {
                        x: read_f32_at(bytes, 16 * i),
                        y: read_f32_at(bytes, 16 * i + 4),
                        z: read_f32_at(bytes, 16 * i + 8),
                        w: read_f32_at(bytes, 16 * i + 12),
                    },
                );
                i += 1;
            }
            Ok(out)
        },
        (ComponentType::Short, true, Option::None) => {
            if bytes.len() / 8 < count {
                return Err(LoadError::AccessorRangeOutOfBounds);
            }
            let mut out: Vec<FxVec4> = Vec::new();
            let mut i: usize = 0;
            while i < count
                invariant
                    out.len() == i <= count,
                    8 * count <= bytes.len(),
                    forall|j: int|
                        0 <= j < i ==> (#[trigger] out[j]) == spec_vec4_at(
                            bytes@,
                            ComponentType::Short,
                            j,
                        ),
                decreases count - i,
            {
                out.push(
                    FxVec4 {
                        x: Fixed::from_snorm16_bits(read_le16(bytes, 8 * i)),
                        y: Fixed::from_snorm16_bits(read_le16(bytes, 8 * i + 2)),
                        z: Fixed::from_snorm16_bits(read_le16(bytes, 8 * i + 4)),
                        w: Fixed::from_snorm16_bits(read_le16(bytes, 8 * i + 6)),
                    },
                );
                i += 1;
            }
            Ok(out)
        },
        (ComponentType::UnsignedByte, true, Option::Some(4usize)) => {
            if bytes.len() / 4 < count {
                return Err(LoadError::AccessorRangeOutOfBounds);
            }
            let mut out: Vec<FxVec4> = Vec::new();
            let mut i: usize = 0;
            while i < count
                invariant
                    out.len() == i <= count,
                    4 * count <= bytes.len(),
                    forall|j: int|
                        0 <= j < i ==> (#[trigger] out[j]) == spec_vec4_at(
                            bytes@,
                            ComponentType::UnsignedByte,
                            j,
                        ),
                decreases count - i,
            {
                out.push(
                    FxVec4 {
                        x: Fixed::from_unorm8(bytes[4 * i]),
                        y: Fixed::from_unorm8(bytes[4 * i + 1]),
                        z: Fixed::from_unorm8(bytes[4 * i + 2]),
                        w: Fixed::from_unorm8(bytes[4 * i + 3]),
                    },
                );
                i += 1;
            }
            Ok(out)
        },
        _ => Err(
            LoadError::UnsupportedAccessor {
                component_type,
                kind: AccessorKind::Vec4,
                normalized,
                stride,
            },
        ),
    }
}

/// The supported combinations for index data.
pub open spec fn spec_index_supported(ct: ComponentType, normalized: bool, stride: Option<usize>) -> bool {
    (ct == ComponentType::UnsignedShort || ct == ComponentType::UnsignedInt) && !normalized
        && stride is None
}

/// Byte width of one index.
pub open spec fn spec_index_elem_size(ct: ComponentType) -> int {
    if ct == ComponentType::UnsignedShort {
        2
    } else {
        4
    }
}

/// One decoded index.
pub open spec fn spec_index_at(b: Seq<u8>, ct: ComponentType, i: int) -> u32 {
    if ct == ComponentType::UnsignedShort {
        spec_le16(b, 2 * i) as u32
    } else {
        spec_le32(b, 4 * i) as u32
    }
}

/// Decode index data: tightly packed unsigned shorts (widened) or
/// unsigned ints.
pub fn read_index_u32s(
    bytes: &[u8],
    component_type: ComponentType,
    normalized: bool,
    stride: Option<usize>,
    count: usize,
) -> (r: Result<Vec<u32>, LoadError>)
    ensures
        r.is_ok() <==> spec_index_supported(component_type, normalized, stride) && bytes@.len()
            >= count * spec_index_elem_size(component_type),
        r matches Ok(v) ==> v.len() == count && forall|i: int|
            0 <= i < count ==> (#[trigger] v[i]) == spec_index_at(bytes@, component_type, i),
        r matches Err(e) ==> if spec_index_supported(component_type, normalized, stride) {
            e == LoadError::AccessorRangeOutOfBounds
        } else {
            e == (LoadError::UnsupportedAccessor {
                component_type,
                kind: AccessorKind::Scalar,
                normalized,
                stride,
            })
        },
{
    match (component_type, normalized, stride) {
        (ComponentType::UnsignedShort, false, Option::None) => {
            if bytes.len() / 2 < count {
                return Err(LoadError::AccessorRangeOutOfBounds);
            }
            let mut out: Vec<u32> = Vec::new();
            let mut i: usize = 0;
            while i < count
                invariant
                    out.len() == i <= count,
                    2 * count <= bytes.len(),
                    forall|j: int|
                        0 <= j < i ==> (#[trigger] out[j]) == spec_index_at(
                            bytes@,
                            ComponentType::UnsignedShort,
                            j,
                        ),
                decreases count - i,
            {
                out.push(read_le16(bytes, 2 * i) as u32);
                i += 1;
            }
            Ok(out)
        },
        (ComponentType::UnsignedInt, false, Option::None) => {
            if bytes.len() / 4 < count {
                return Err(LoadError::AccessorRangeOutOfBounds);
            }
            let mut out: Vec<u32> = Vec::new();
            let mut i: usize = 0;
            while i < count
                invariant
                    out.len() == i <= count,
                    4 * count <= bytes.len(),
                    forall|j: int|
                        0 <= j < i ==> (#[trigger] out[j]) == spec_index_at(
                            bytes@,
                            ComponentType::UnsignedInt,
                            j,
                        ),
                decreases count - i,
            {
                out.push(read_le32(bytes, 4 * i));
                i += 1;
            }
            Ok(out)
        },
        _ => Err(
            LoadError::UnsupportedAccessor {
                component_type,
                kind: AccessorKind::Scalar,
                normalized,
                stride,
            },
        ),
    }
}

/// The supported combination for inverse-bind matrices.
pub open spec fn spec_mat4_supported(ct: ComponentType, normalized: bool, stride: Option<usize>) -> bool {
    ct == ComponentType::Float && !normalized && stride is None
}

/// The sixteen fixed-point entries of the matrix at element `i`.
pub open spec fn spec_mat4_at(b: Seq<u8>, i: int) -> Seq<Fixed> {
    Seq::new(16, |c: int| Fixed { raw: spec_f32_at(b, 64 * i + 4 * c) as i32 })
}

/// Decode tightly packed 4x4 float matrices into similarity
/// transforms (the inverse bind transforms of a skin).  Each matrix
/// decomposes exactly as `Similarity::new_from_mat4` prescribes.
pub fn read_mat4_similarities(
    bytes: &[u8],
    component_type: ComponentType,
    normalized: bool,
    stride: Option<usize>,
    count: usize,
) -> (r: Result<Vec<crate::similarity::Similarity>, LoadError>)
    ensures
        r.is_ok() <==> spec_mat4_supported(component_type, normalized, stride) && bytes@.len() >= 64
            * count,
        r matches Ok(v) ==> v.len() == count && forall|i: int|
            0 <= i < count ==> (#[trigger] v[i]) == crate::similarity::spec_similarity_from_mat4(
                spec_mat4_at(bytes@, i),
            ),
        r matches Err(e) ==> if spec_mat4_supported(component_type, normalized, stride) {
            e == LoadError::AccessorRangeOutOfBounds
        } else {
            e == (LoadError::UnsupportedAccessor {
                component_type,
                kind: AccessorKind::Mat4,
                normalized,
                stride,
            })
        },
{
    match (component_type, normalized, stride) {
        (ComponentType::Float, false, Option::None) => {
            if bytes.len() / 64 < count {
                return Err(LoadError::AccessorRangeOutOfBounds);
            }
            let mut out: Vec<crate::similarity::Similarity> = Vec::new();
            let mut i: usize = 0;
            while i < count
                invariant
                    out.len() == i <= count,
                    64 * count <= bytes.len(),
                    forall|j: int|
                        0 <= j < i ==> (#[trigger] out[j])
                            == crate::similarity::spec_similarity_from_mat4(
                            spec_mat4_at(bytes@, j),
                        ),
                decreases count - i,
            {
                let base = 64 * i;
                let m: [Fixed; 16] = [
                    read_f32_at(bytes, base),
                    read_f32_at(bytes, base + 4),
                    read_f32_at(bytes, base + 8),
                    read_f32_at(bytes, base + 12),
                    read_f32_at(bytes, base + 16),
                    read_f32_at(bytes, base + 20),
                    read_f32_at(bytes, base + 24),
                    read_f32_at(bytes, base + 28),
                    read_f32_at(bytes, base + 32),
                    read_f32_at(bytes, base + 36),
                    read_f32_at(bytes, base + 40),
                    read_f32_at(bytes, base + 44),
                    read_f32_at(bytes, base + 48),
                    read_f32_at(bytes, base + 52),
                    read_f32_at(bytes, base + 56),
                    read_f32_at(bytes, base + 60),
                ];
                proof {
                    assert(m@ =~= spec_mat4_at(bytes@, i as int));
                }
                let (sim, _nonuniform) = crate::similarity::Similarity::new_from_mat4(&m);
                out.push(sim);
                i += 1;
            }
            Ok(out)
        },
        _ => Err(
            LoadError::UnsupportedAccessor {
                component_type,
                kind: AccessorKind::Mat4,
                normalized,
                stride,
            },
        ),
    }
}

/// The supported combinations for joint indices.
pub open spec fn spec_joints_supported(ct: ComponentType, normalized: bool, stride: Option<usize>) -> bool {
    ct == ComponentType::UnsignedByte && !normalized && (stride is None || stride
        == Some(4usize))
}

/// One decoded set of four joint indices.
pub open spec fn spec_joints_at(b: Seq<u8>, i: int) -> JointIndices {
    JointIndices {
        x: b[4 * i] as u32,
        y: b[4 * i + 1] as u32,
        z: b[4 * i + 2] as u32,
        w: b[4 * i + 3] as u32,
    }
}

/// Decode per-vertex joint indices: four unsigned bytes each.
pub fn read_joint_indices(
    bytes: &[u8],
    component_type: ComponentType,
    normalized: bool,
    stride: Option<usize>,
    count: usize,
) -> (r: Result<Vec<JointIndices>, LoadError>)
    ensures
        r.is_ok() <==> spec_joints_supported(component_type, normalized, stride) && bytes@.len()
            >= count * 4,
        r matches Ok(v) ==> v.len() == count && forall|i: int|
            0 <= i < count ==> (#[trigger] v[i]) == spec_joints_at(bytes@, i),
        r matches Err(e) ==> if spec_joints_supported(component_type, normalized, stride) {
            e == LoadError::AccessorRangeOutOfBounds
        } else {
            e == (LoadError::UnsupportedAccessor {
                component_type,
                kind: AccessorKind::Vec4,
                normalized,
                stride,
            })
        },
{
    match (component_type, normalized, stride) {
        (ComponentType::UnsignedByte, false, Option::None) | (
            ComponentType::UnsignedByte,
            false,
            Option::Some(4usize),
        ) => {
            if bytes.len() / 4 < count {
                return Err(LoadError::AccessorRangeOutOfBounds);
            }
            let mut out: Vec<JointIndices> = Vec::new();
            let mut i: usize = 0;
            while i < count
                invariant
                    out.len() == i <= count,
                    4 * count <= bytes.len(),
                    forall|j: int| 0 <= j < i ==> (#[trigger] out[j]) == spec_joints_at(bytes@, j),
                decreases count - i,
            {
                out.push(
                    JointIndices {
                        x: bytes[4 * i] as u32,
                        y: bytes[4 * i + 1] as u32,
                        z: bytes[4 * i + 2] as u32,
                        w: bytes[4 * i + 3] as u32,
                    },
                );
                i += 1;
            }
            Ok(out)
        },
        _ => Err(
            LoadError::UnsupportedAccessor {
                component_type,
                kind: AccessorKind::Vec4,
                normalized,
                stride,
            },
        ),
    }
}

} // verus!
