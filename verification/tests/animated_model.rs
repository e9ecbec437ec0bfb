//! The animated model pipeline: skinning data, channels and skins.

use scene_prep::animated::{build_animated_model, AnimatedModel};
use scene_prep::buffer_views::build_buffer_view_map;
use scene_prep::document::{
    AccessorDef, AccessorKind, AnimChannelDef, AnimationDef, BufferDef, BufferViewDef,
    ChannelProperty, ComponentType, GltfDocument, Interpolation, MeshDef, NodeDef,
    PrimitiveAttributes, PrimitiveDef, SkinDef,
};
use scene_prep::error::LoadError;
use scene_prep::similarity::Similarity;

const ONE: i32 = 65536;

fn f32s(values: &[f32]) -> Vec<u8> {
    let mut out = Vec::new();
    for v in values {
        out.extend_from_slice(&v.to_bits().to_le_bytes());
    }
    out
}

/// One triangle on node 0, a two-keyframe translation channel, and a
/// one-joint skin with an identity inverse bind matrix.
fn animated_document() -> (GltfDocument, Vec<u8>) {
    let mut bin = f32s(&[0.0, 0.0, 0.0, 1.0, 0.0, 0.0, 0.0, 1.0, 0.0]);  // positions (36 bytes)
    bin.extend_from_slice(&f32s(&[0.0, 1.0]));  // keyframe inputs (8)
    bin.extend_from_slice(&f32s(&[0.0, 0.0, 0.0, 2.0, 0.0, 0.0]));  // keyframe outputs (24)
    let mut ibm = [0f32; 16];
    ibm[0] = 1.0;
    ibm[5] = 1.0;
    ibm[10] = 1.0;
    ibm[15] = 1.0;
    bin.extend_from_slice(&f32s(&ibm));  // inverse bind matrix (64)
    let doc = GltfDocument {
        nodes: vec![NodeDef {
            local_transform: Similarity::identity(),
            children: Vec::new(),
            mesh: Some(0),
            lod_ids: Vec::new(),
            screen_coverages: Vec::new(),
        }],
        meshes: vec![MeshDef {
            primitives: vec![PrimitiveDef {
                attributes: PrimitiveAttributes {
                    position: Some(0),
                    normal: None,
                    texcoord_0: None,
                    texcoord_1: None,
                    joints_0: None,
                    weights_0: None,
                },
                indices: None,
                material: None,
            }],
        }],
        materials: Vec::new(),
        accessors: vec![
            AccessorDef {
                buffer_view: Some(0),
                byte_offset: 0,
                count: 3,
                component_type: ComponentType::Float,
                kind: AccessorKind::Vec3,
                normalized: false,
            },
            AccessorDef {
                buffer_view: Some(1),
                byte_offset: 0,
                count: 2,
                component_type: ComponentType::Float,
                kind: AccessorKind::Scalar,
                normalized: false,
            },
            AccessorDef {
                buffer_view: Some(2),
                byte_offset: 0,
                count: 2,
                component_type: ComponentType::Float,
                kind: AccessorKind::Vec3,
                normalized: false,
            },
            AccessorDef {
                buffer_view: Some(3),
                byte_offset: 0,
                count: 1,
                component_type: ComponentType::Float,
                kind: AccessorKind::Mat4,
                normalized: false,
            },
        ],
        buffer_views: vec![
            BufferViewDef {
                buffer: 0,
                byte_offset: 0,
                byte_length: 36,
                byte_stride: None,
                meshopt: None,
            },
            BufferViewDef {
                buffer: 0,
                byte_offset: 36,
                byte_length: 8,
                byte_stride: None,
                meshopt: None,
            },
            BufferViewDef {
                buffer: 0,
                byte_offset: 44,
                byte_length: 24,
                byte_stride: None,
                meshopt: None,
            },
            BufferViewDef {
                buffer: 0,
                byte_offset: 68,
                byte_length: 64,
                byte_stride: None,
                meshopt: None,
            },
        ],
        buffers: vec![BufferDef { byte_length: 132, uri: None, meshopt_fallback: false }],
        skins: vec![SkinDef { joints: vec![0], inverse_bind_matrices: Some(3) }],
        animations: vec![AnimationDef {
            channels: vec![AnimChannelDef {
                input: 1,
                output: 2,
                interpolation: Interpolation::Linear,
                node_index: 0,
                property: ChannelProperty::Translation,
            }],
        }],
    };
    (doc, bin)
}

#[test]
fn animated_model_decodes_skin_and_channels() {
    let (doc, bin) = animated_document();
    let views = build_buffer_view_map(&doc, &Some(bin), &vec![None], &vec![None, None, None, None])
        .unwrap();
    let staged = build_animated_model(&doc, &views).unwrap();
    assert!(!staged.warnings);
    assert_eq!(staged.primitives.len(), 1);
    // Unskinned vertices pin to their owning node: joint index 0 with
    // full weight on the first joint.
    let sb = &staged.staging_buffers;
    assert_eq!(sb.joint_indices.len(), 3);
    assert_eq!(sb.joint_indices[0].x, 0);
    assert_eq!(sb.joint_weights[0].x.raw, ONE);
    assert_eq!(sb.joint_weights[0].y.raw, 0);
    // The channel decoded to fixed-point keyframes.
    let data = &staged.animation_data;
    assert_eq!(data.animations.len(), 1);
    assert_eq!(data.animations[0].total_time().raw, ONE);
    assert_eq!(data.animations[0].translation_channels.len(), 1);
    let ch = &data.animations[0].translation_channels[0];
    assert_eq!(ch.inputs[1].raw, ONE);
    assert_eq!(ch.outputs[1].x.raw, 2 * ONE);
    assert_eq!(data.joint_indices_to_node_indices, vec![0]);
    assert_eq!(data.inverse_bind_transforms.len(), 1);
}

#[test]
fn animated_model_rebases_like_a_static_one() {
    let (doc, bin) = animated_document();
    let views = build_buffer_view_map(&doc, &Some(bin), &vec![None], &vec![None, None, None, None])
        .unwrap();
    let staged = build_animated_model(&doc, &views).unwrap();
    let (model, upload) = AnimatedModel::from_staged(staged, 10, 50).unwrap();
    assert_eq!(upload.indices, vec![10, 11, 12]);
    assert_eq!(model.primitives[0].lods[0].index_buffer_range.start, 50);
    assert_eq!(model.num_joints(), 1);
    assert_eq!(model.max_instances_per_joint_buffer(), 2048);
}

#[test]
fn skin_without_inverse_bind_matrices_fails() {
    let (mut doc, bin) = animated_document();
    doc.skins[0].inverse_bind_matrices = None;
    let views = build_buffer_view_map(&doc, &Some(bin), &vec![None], &vec![None, None, None, None])
        .unwrap();
    match build_animated_model(&doc, &views) {
        Err(LoadError::MissingInverseBindMatrices) => {},
        other => panic!("expected a missing-matrices error, got {:?}", other.is_ok()),
    }
}

#[test]
fn unsorted_channel_timestamps_fail() {
    let (mut doc, mut bin) = animated_document();
    // Swap the two keyframe timestamps so they decrease.
    let swapped = f32s(&[1.0, 0.0]);
    bin[36..44].copy_from_slice(&swapped);
    doc.animations[0].channels[0].input = 1;
    let views = build_buffer_view_map(&doc, &Some(bin), &vec![None], &vec![None, None, None, None])
        .unwrap();
    match build_animated_model(&doc, &views) {
        Err(LoadError::BadAnimationChannel) => {},
        other => panic!("expected a bad-channel error, got {:?}", other.is_ok()),
    }
}

#[test]
fn unsupported_channel_property_warns_and_skips() {
    let (mut doc, bin) = animated_document();
    doc.animations[0].channels[0].property = ChannelProperty::Unsupported;
    let views = build_buffer_view_map(&doc, &Some(bin), &vec![None], &vec![None, None, None, None])
        .unwrap();
    let staged = build_animated_model(&doc, &views).unwrap();
    assert!(staged.warnings);
    assert_eq!(staged.animation_data.animations[0].translation_channels.len(), 0);
}

#[test]
fn model_without_a_skin_drives_every_node() {
    let (mut doc, bin) = animated_document();
    doc.skins = Vec::new();
    let views = build_buffer_view_map(&doc, &Some(bin), &vec![None], &vec![None, None, None, None])
        .unwrap();
    let staged = build_animated_model(&doc, &views).unwrap();
    assert_eq!(staged.animation_data.joint_indices_to_node_indices, vec![0]);
    assert_eq!(staged.animation_data.inverse_bind_transforms.len(), 1);
}
