//! Similarity transform and fixed-point scalar behaviour.

use scene_prep::fixed::{isqrt_u64, Fixed};
use scene_prep::similarity::Similarity;
use scene_prep::vecmath::{FxQuat, FxVec3};

fn fx(raw: i32) -> Fixed {
    Fixed::from_raw(raw)
}

fn v3(x: i32, y: i32, z: i32) -> FxVec3 {
    FxVec3 { x: fx(x), y: fx(y), z: fx(z) }
}

const ONE: i32 = 65536;

#[test]
fn composition_identity_right() {
    let s = Similarity::new(
        v3(3 * ONE, -2 * ONE, ONE / 2),
        fx(3 * ONE / 2),
        FxQuat { x: fx(ONE / 3), y: fx(100), z: fx(-50), w: fx(ONE) },
    );
    let composed = s.compose(&Similarity::identity());
    assert_eq!(composed, s);
}

#[test]
fn composition_identity_left() {
    let s = Similarity::new(
        v3(-7 * ONE, 12345, 2 * ONE),
        fx(2 * ONE),
        FxQuat { x: fx(-1000), y: fx(2000), z: fx(42), w: fx(ONE - 3) },
    );
    let composed = Similarity::identity().compose(&s);
    assert_eq!(composed, s);
}

#[test]
fn inverse_round_trip_translation_exact() {
    // A rigid translation (unit scale, identity rotation) undoes
    // itself exactly, with no rounding at all.
    let s = Similarity::new(v3(5 * ONE, -3 * ONE, 12345), fx(ONE), FxQuat::identity());
    let round = s.compose(&s.inverse());
    assert_eq!(round, Similarity::identity());
}

#[test]
fn inverse_round_trip_scaled_approx() {
    // With a non-unit scale the fixed-point round trip is only
    // approximate: the scale returns within a few raw units of one.
    let s = Similarity::new(v3(ONE, 0, 0), fx(3 * ONE), FxQuat::identity());
    let round = s.compose(&s.inverse());
    assert!((round.scale.raw - ONE).abs() <= 4);
    assert!(round.translation.x.raw.abs() <= 4);
    assert_eq!(round.rotation, FxQuat::identity());
}

#[test]
fn compose_applies_child_in_parent_space() {
    // Parent translates by (1,0,0), child by (0,1,0): the composed
    // transform translates by (1,1,0).
    let parent = Similarity::new(v3(ONE, 0, 0), fx(ONE), FxQuat::identity());
    let child = Similarity::new(v3(0, ONE, 0), fx(ONE), FxQuat::identity());
    let composed = parent.compose(&child);
    assert_eq!(composed.translation, v3(ONE, ONE, 0));
}

#[test]
fn rotation_by_half_turn_about_z() {
    // The quaternion (0,0,1,0) is a half turn about z: (1,2,0) maps
    // to (-1,-2,0) exactly in fixed point.
    let q = FxQuat { x: fx(0), y: fx(0), z: fx(ONE), w: fx(0) };
    let rotated = q.rotate(v3(ONE, 2 * ONE, 0));
    assert_eq!(rotated, v3(-ONE, -2 * ONE, 0));
}

#[test]
fn non_uniform_scale_takes_maximum_and_warns() {
    let (s, warned) = Similarity::new_from_gltf(
        v3(0, 0, 0),
        FxQuat::identity(),
        v3(ONE, 2 * ONE, 3 * ONE),
    );
    assert!(warned);
    assert_eq!(s.scale.raw, 3 * ONE);
}

#[test]
fn uniform_scale_does_not_warn() {
    let (s, warned) = Similarity::new_from_gltf(v3(0, 0, 0), FxQuat::identity(), v3(
        2 * ONE,
        2 * ONE,
        2 * ONE,
    ));
    assert!(!warned);
    assert_eq!(s.scale.raw, 2 * ONE);
}

#[test]
fn mat4_identity_decomposes_to_identity() {
    let mut m = [fx(0); 16];
    m[0] = fx(ONE);
    m[5] = fx(ONE);
    m[10] = fx(ONE);
    m[15] = fx(ONE);
    let (s, warned) = Similarity::new_from_mat4(&m);
    assert!(!warned);
    assert_eq!(s.translation, v3(0, 0, 0));
    assert_eq!(s.scale.raw, ONE);
    assert_eq!(s.rotation, FxQuat::identity());
}

#[test]
fn mat4_translation_column_is_exact() {
    let mut m = [fx(0); 16];
    m[0] = fx(ONE);
    m[5] = fx(ONE);
    m[10] = fx(ONE);
    m[12] = fx(7 * ONE);
    m[13] = fx(-2 * ONE);
    m[14] = fx(12345);
    m[15] = fx(ONE);
    let (s, _) = Similarity::new_from_mat4(&m);
    assert_eq!(s.translation, v3(7 * ONE, -2 * ONE, 12345));
}

#[test]
fn float_bits_decode_exactly() {
    assert_eq!(Fixed::from_f32_bits(0f32.to_bits()).raw, 0);
    assert_eq!(Fixed::from_f32_bits(1f32.to_bits()).raw, ONE);
    assert_eq!(Fixed::from_f32_bits((-1f32).to_bits()).raw, -ONE);
    assert_eq!(Fixed::from_f32_bits(0.5f32.to_bits()).raw, ONE / 2);
    assert_eq!(Fixed::from_f32_bits(2.25f32.to_bits()).raw, 9 * ONE / 4);
    assert_eq!(Fixed::from_f32_bits((-2.5f32).to_bits()).raw, -5 * ONE / 2);
    // Saturation at the representable range.
    assert_eq!(Fixed::from_f32_bits(1.0e9f32.to_bits()).raw, i32::MAX);
    assert_eq!(Fixed::from_f32_bits((-1.0e9f32).to_bits()).raw, i32::MIN);
    // Not-a-number decodes to zero.
    assert_eq!(Fixed::from_f32_bits(f32::NAN.to_bits()).raw, 0);
}

#[test]
fn normalized_conversions() {
    assert_eq!(Fixed::from_unorm8(255).raw, ONE);
    assert_eq!(Fixed::from_unorm8(0).raw, 0);
    assert_eq!(Fixed::from_unorm16(65535).raw, ONE);
    assert_eq!(Fixed::from_snorm8_bits(127).raw, ONE);
    // The most negative byte clamps at -1 exactly, per the format.
    assert_eq!(Fixed::from_snorm8_bits(128).raw, -ONE);
    assert_eq!(Fixed::from_snorm16_bits(32767).raw, ONE);
    assert_eq!(Fixed::from_snorm16_bits(32768).raw, -ONE);
}

#[test]
fn saturating_arithmetic() {
    let big = fx(i32::MAX);
    assert_eq!(big.add(fx(1)).raw, i32::MAX);
    assert_eq!(fx(i32::MIN).sub(fx(1)).raw, i32::MIN);
    assert_eq!(fx(2 * ONE).mul(fx(3 * ONE)).raw, 6 * ONE);
    assert_eq!(fx(-3 * ONE).mul(fx(2 * ONE)).raw, -6 * ONE);
    assert_eq!(fx(ONE).div(fx(2 * ONE)).raw, ONE / 2);
    assert_eq!(fx(-ONE).div(fx(2 * ONE)).raw, -ONE / 2);
}

#[test]
fn integer_square_root() {
    assert_eq!(isqrt_u64(0), 0);
    assert_eq!(isqrt_u64(1), 1);
    assert_eq!(isqrt_u64(24), 4);
    assert_eq!(isqrt_u64(25), 5);
    assert_eq!(isqrt_u64(u64::MAX), 0xFFFF_FFFF);
    // Fixed-point square root: sqrt(4.0) == 2.0.
    assert_eq!(fx(4 * ONE).sqrt().raw, 2 * ONE);
}
