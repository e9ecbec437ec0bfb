//! The accessor decode table.

use scene_prep::accessor::{
    read_fixed_scalars, read_index_u32s, read_joint_indices, read_mat4_similarities, read_vec2s,
    read_vec3s, read_vec4s,
};
use scene_prep::document::{AccessorKind, ComponentType};
use scene_prep::error::LoadError;

const ONE: i32 = 65536;

fn f32s(values: &[f32]) -> Vec<u8> {
    let mut out = Vec::new();
    for v in values {
        out.extend_from_slice(&v.to_bits().to_le_bytes());
    }
    out
}

#[test]
fn float_scalars_decode() {
    let bytes = f32s(&[0.0, 1.0, -2.5]);
    let v = read_fixed_scalars(&bytes, ComponentType::Float, false, None, 3).unwrap();
    assert_eq!(v[0].raw, 0);
    assert_eq!(v[1].raw, ONE);
    assert_eq!(v[2].raw, -5 * ONE / 2);
}

#[test]
fn float_vec3_decodes_tight_and_strided() {
    let bytes = f32s(&[1.0, 2.0, 3.0, 4.0, 5.0, 6.0]);
    for stride in [None, Some(12usize)] {
        let v = read_vec3s(&bytes, ComponentType::Float, false, stride, 2).unwrap();
        assert_eq!(v[0].x.raw, ONE);
        assert_eq!(v[1].z.raw, 6 * ONE);
    }
}

#[test]
fn unsigned_short_vec3_padded_to_eight_bytes() {
    // Quantized positions: three u16 components and one padding word.
    let bytes: Vec<u8> = vec![1, 0, 2, 0, 3, 0, 0, 0];
    let v = read_vec3s(&bytes, ComponentType::UnsignedShort, false, Some(8), 1).unwrap();
    assert_eq!(v[0].x.raw, ONE);
    assert_eq!(v[0].y.raw, 2 * ONE);
    assert_eq!(v[0].z.raw, 3 * ONE);
    // Normalized variant maps 65535 to 1.0.
    let bytes: Vec<u8> = vec![255, 255, 0, 0, 0, 0, 0, 0];
    let v = read_vec3s(&bytes, ComponentType::UnsignedShort, true, Some(8), 1).unwrap();
    assert_eq!(v[0].x.raw, ONE);
}

#[test]
fn signed_byte_normals_clamp_at_minus_one() {
    let bytes: Vec<u8> = vec![127, 0x80, 0, 0];
    let v = read_vec3s(&bytes, ComponentType::Byte, true, Some(4), 1).unwrap();
    assert_eq!(v[0].x.raw, ONE);
    assert_eq!(v[0].y.raw, -ONE);
    assert_eq!(v[0].z.raw, 0);
}

#[test]
fn unsupported_combination_names_itself() {
    let bytes: Vec<u8> = vec![0; 16];
    match read_vec3s(&bytes, ComponentType::UnsignedInt, false, None, 1) {
        Err(LoadError::UnsupportedAccessor { component_type, kind, normalized, stride }) => {
            assert_eq!(component_type, ComponentType::UnsignedInt);
            assert_eq!(kind, AccessorKind::Vec3);
            assert!(!normalized);
            assert_eq!(stride, None);
        },
        other => panic!("expected an unsupported-combination error, got {:?}", other.is_ok()),
    }
}

#[test]
fn short_slice_is_a_range_error_not_a_misdecode() {
    let bytes: Vec<u8> = vec![0; 8];
    match read_vec3s(&bytes, ComponentType::Float, false, None, 1) {
        Err(LoadError::AccessorRangeOutOfBounds) => {},
        other => panic!("expected a range error, got {:?}", other.is_ok()),
    }
}

#[test]
fn uvs_decode_normalized_shorts() {
    let bytes: Vec<u8> = vec![255, 255, 0, 0];
    let v = read_vec2s(&bytes, ComponentType::UnsignedShort, true, Some(4), 1).unwrap();
    assert_eq!(v[0].x.raw, ONE);
    assert_eq!(v[0].y.raw, 0);
}

#[test]
fn weights_decode_normalized_bytes_and_shorts() {
    let bytes: Vec<u8> = vec![255, 0, 0, 0];
    let v = read_vec4s(&bytes, ComponentType::UnsignedByte, true, Some(4), 1).unwrap();
    assert_eq!(v[0].x.raw, ONE);
    assert_eq!(v[0].y.raw, 0);
    let bytes: Vec<u8> = vec![255, 127, 0, 0, 0, 0, 0, 0x80];
    let v = read_vec4s(&bytes, ComponentType::Short, true, None, 1).unwrap();
    assert_eq!(v[0].x.raw, ONE);
    assert_eq!(v[0].w.raw, -ONE);
}

#[test]
fn indices_decode_shorts_and_ints() {
    let bytes: Vec<u8> = vec![5, 0, 7, 0];
    let v = read_index_u32s(&bytes, ComponentType::UnsignedShort, false, None, 2).unwrap();
    assert_eq!(v, vec![5, 7]);
    let bytes: Vec<u8> = vec![1, 0, 0, 0, 2, 0, 0, 1];
    let v = read_index_u32s(&bytes, ComponentType::UnsignedInt, false, None, 2).unwrap();
    assert_eq!(v, vec![1, 0x0100_0002]);
    match read_index_u32s(&bytes, ComponentType::Float, false, None, 2) {
        Err(LoadError::UnsupportedAccessor { .. }) => {},
        other => panic!("expected an unsupported-combination error, got {:?}", other.is_ok()),
    }
}

#[test]
fn joint_indices_decode_bytes() {
    let bytes: Vec<u8> = vec![1, 2, 3, 4];
    for stride in [None, Some(4usize)] {
        let v = read_joint_indices(&bytes, ComponentType::UnsignedByte, false, stride, 1).unwrap();
        assert_eq!((v[0].x, v[0].y, v[0].z, v[0].w), (1, 2, 3, 4));
    }
}

#[test]
fn inverse_bind_matrices_carry_translation() {
    let mut m = [0f32; 16];
    m[0] = 1.0;
    m[5] = 1.0;
    m[10] = 1.0;
    m[12] = 4.0;
    m[13] = -1.0;
    m[14] = 0.5;
    m[15] = 1.0;
    let bytes = f32s(&m);
    let v = read_mat4_similarities(&bytes, ComponentType::Float, false, None, 1).unwrap();
    assert_eq!(v[0].translation.x.raw, 4 * ONE);
    assert_eq!(v[0].translation.y.raw, -ONE);
    assert_eq!(v[0].translation.z.raw, ONE / 2);
    assert_eq!(v[0].scale.raw, ONE);
}
