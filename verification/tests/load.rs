//! End-to-end decoding: container parsing, buffer assembly, and model
//! building.

use scene_prep::buffer_views::build_buffer_view_map;
use scene_prep::document::{
    AccessorDef, AccessorKind, AlphaMode, BufferDef, BufferViewDef, ComponentType, GltfDocument,
    MaterialDef, MeshDef, NodeDef, PrimitiveAttributes, PrimitiveDef,
};
use scene_prep::error::LoadError;
use scene_prep::glb::parse_glb;
use scene_prep::model::{build_model, Model};
use scene_prep::similarity::Similarity;

use base64::Engine;

const ONE: i32 = 65536;

fn minimal_json() -> Vec<u8> {
    let json = "{\"asset\":{\"version\":\"2.0\"},\
\"buffers\":[{\"byteLength\":36}],\
\"bufferViews\":[{\"buffer\":0,\"byteOffset\":0,\"byteLength\":36}],\
\"accessors\":[{\"bufferView\":0,\"componentType\":5126,\"count\":3,\"type\":\"VEC3\"}],\
\"meshes\":[{\"primitives\":[{\"attributes\":{\"POSITION\":0}}]}],\
\"nodes\":[{\"mesh\":0}],\
\"scenes\":[{\"nodes\":[0]}]}";
    json.as_bytes().to_vec()
}

fn triangle_bin() -> Vec<u8> {
    let mut out = Vec::new();
    for v in [0f32, 0.0, 0.0, 1.0, 0.0, 0.0, 0.0, 1.0, 0.0] {
        out.extend_from_slice(&v.to_bits().to_le_bytes());
    }
    out
}

fn minimal_glb() -> Vec<u8> {
    let json = minimal_json();
    let bin = triangle_bin();
    let total = 12 + 8 + json.len() + 8 + bin.len();
    let mut out = Vec::new();
    out.extend_from_slice(&0x46546C67u32.to_le_bytes());
    out.extend_from_slice(&2u32.to_le_bytes());
    out.extend_from_slice(&(total as u32).to_le_bytes());
    out.extend_from_slice(&(json.len() as u32).to_le_bytes());
    out.extend_from_slice(&0x4E4F534Au32.to_le_bytes());
    out.extend_from_slice(&json);
    out.extend_from_slice(&(bin.len() as u32).to_le_bytes());
    out.extend_from_slice(&0x004E4942u32.to_le_bytes());
    out.extend_from_slice(&bin);
    out
}

/// The document the minimal container's JSON describes.
fn minimal_document() -> GltfDocument {
    GltfDocument {
        nodes: vec![NodeDef {
            local_transform: Similarity::identity(),
            children: Vec::new(),
            mesh: Some(0),
            lod_ids: Vec::new(),
            screen_coverages: Vec::new(),
        }],
        meshes: vec![MeshDef {
            primitives: vec![PrimitiveDef {
                attributes: PrimitiveAttributes {
                    position: Some(0),
                    normal: None,
                    texcoord_0: None,
                    texcoord_1: None,
                    joints_0: None,
                    weights_0: None,
                },
                indices: None,
                material: None,
            }],
        }],
        materials: Vec::new(),
        accessors: vec![AccessorDef {
            buffer_view: Some(0),
            byte_offset: 0,
            count: 3,
            component_type: ComponentType::Float,
            kind: AccessorKind::Vec3,
            normalized: false,
        }],
        buffer_views: vec![BufferViewDef {
            buffer: 0,
            byte_offset: 0,
            byte_length: 36,
            byte_stride: None,
            meshopt: None,
        }],
        buffers: vec![BufferDef { byte_length: 36, uri: None, meshopt_fallback: false }],
        skins: Vec::new(),
        animations: Vec::new(),
    }
}

#[test]
fn glb_container_splits_into_json_and_bin() {
    let glb = minimal_glb();
    let parts = parse_glb(&glb).unwrap();
    assert_eq!(parts.json, minimal_json());
    assert_eq!(parts.bin.unwrap(), triangle_bin());
}

#[test]
fn glb_with_bad_magic_is_rejected() {
    let mut glb = minimal_glb();
    glb[0] = 0;
    match parse_glb(&glb) {
        Err(LoadError::BadGlbContainer) => {},
        other => panic!("expected a container error, got {:?}", other.is_ok()),
    }
}

#[test]
fn glb_with_wrong_total_length_is_rejected() {
    let mut glb = minimal_glb();
    glb.push(0);
    assert!(parse_glb(&glb).is_err());
}

#[test]
fn minimal_triangle_end_to_end() {
    // A minimal valid binary container with one triangle, no indices,
    // no normals, no texture coordinates: one primitive comes out,
    // the index data is the sequential 0,1,2, and the missing
    // attributes are zero-filled.
    let glb = minimal_glb();
    let parts = parse_glb(&glb).unwrap();
    let doc = minimal_document();
    let views = build_buffer_view_map(&doc, &parts.bin, &vec![None], &vec![None]).unwrap();
    assert_eq!(views.len(), 1);
    let staged = build_model(&doc, &views).unwrap();
    assert_eq!(staged.primitives.len(), 1);
    assert_eq!(staged.staging_buffers.indices, vec![0, 1, 2]);
    assert_eq!(staged.staging_buffers.positions.len(), 3);
    assert_eq!(staged.staging_buffers.positions[1].x.raw, ONE);
    assert_eq!(staged.staging_buffers.positions[2].y.raw, ONE);
    for n in &staged.staging_buffers.normals {
        assert_eq!((n.x.raw, n.y.raw, n.z.raw), (0, 0, 0));
    }
    for uv in &staged.staging_buffers.uvs {
        assert_eq!((uv.x.raw, uv.y.raw), (0, 0));
    }
    assert_eq!(staged.primitives[0].lods.len(), 1);
    let range = staged.primitives[0].lods[0].index_buffer_range;
    assert_eq!((range.start, range.end), (0, 3));
}

#[test]
fn rebasing_moves_indices_and_ranges() {
    let glb = minimal_glb();
    let parts = parse_glb(&glb).unwrap();
    let doc = minimal_document();
    let views = build_buffer_view_map(&doc, &parts.bin, &vec![None], &vec![None]).unwrap();
    let staged = build_model(&doc, &views).unwrap();
    let (model, upload) = Model::from_staged(staged, 100, 1000).unwrap();
    assert_eq!(upload.indices, vec![100, 101, 102]);
    assert_eq!(model.primitives[0].lods[0].index_buffer_range.start, 1000);
    assert_eq!(model.primitives[0].lods[0].index_buffer_range.end, 1003);
    assert_eq!((model.vertex_buffer_range.start, model.vertex_buffer_range.end), (100, 103));
    assert_eq!((model.index_buffer_range.start, model.index_buffer_range.end), (1000, 1003));
    assert_eq!(model.primitive_ranges.opaque.single.indices.start, 1000);
}

#[test]
fn embedded_base64_buffer_is_decoded() {
    // The same triangle, carried as an embedded data uri.  If the
    // decoder handed its argument back unchanged, the positions would
    // not survive the round trip.
    let bin = triangle_bin();
    let payload = base64::engine::general_purpose::STANDARD.encode(&bin);
    let mut uri = b"data:application/octet-stream;base64,".to_vec();
    uri.extend_from_slice(payload.as_bytes());
    let mut doc = minimal_document();
    doc.buffers[0].uri = Some(uri);
    let views = build_buffer_view_map(&doc, &None, &vec![None], &vec![None]).unwrap();
    let staged = build_model(&doc, &views).unwrap();
    assert_eq!(staged.staging_buffers.positions[1].x.raw, ONE);
}

#[test]
fn invalid_base64_fails_that_buffer() {
    let mut doc = minimal_document();
    doc.buffers[0].uri = Some(b"data:application/octet-stream;base64,!!notbase64!!".to_vec());
    match build_buffer_view_map(&doc, &None, &vec![None], &vec![None]) {
        Err(LoadError::MissingBufferData { buffer }) => assert_eq!(buffer, 0),
        other => panic!("expected a missing-data error, got {:?}", other.is_ok()),
    }
}

#[test]
fn external_buffer_must_be_supplied() {
    let mut doc = minimal_document();
    doc.buffers[0].uri = Some(b"mesh.bin".to_vec());
    match build_buffer_view_map(&doc, &None, &vec![None], &vec![None]) {
        Err(LoadError::MissingBufferData { buffer }) => assert_eq!(buffer, 0),
        other => panic!("expected a missing-data error, got {:?}", other.is_ok()),
    }
    let views = build_buffer_view_map(&doc, &None, &vec![Some(triangle_bin())], &vec![None])
        .unwrap();
    let staged = build_model(&doc, &views).unwrap();
    assert_eq!(staged.staging_buffers.positions.len(), 3);
}

#[test]
fn missing_positions_fail_the_load() {
    let mut doc = minimal_document();
    doc.meshes[0].primitives[0].attributes.position = None;
    let views = build_buffer_view_map(&doc, &Some(triangle_bin()), &vec![None], &vec![None])
        .unwrap();
    match build_model(&doc, &views) {
        Err(LoadError::MissingPositions) => {},
        other => panic!("expected a missing-positions error, got {:?}", other.is_ok()),
    }
}

#[test]
fn mismatched_lod_primitive_counts_fail_the_load() {
    let mut doc = minimal_document();
    // A second node whose mesh has two primitives, referenced as a
    // lower-detail variant of the first node's one-primitive mesh.
    let prim = doc.meshes[0].primitives[0].clone();
    doc.meshes.push(MeshDef { primitives: vec![prim.clone(), prim] });
    doc.nodes.push(NodeDef {
        local_transform: Similarity::identity(),
        children: Vec::new(),
        mesh: Some(1),
        lod_ids: Vec::new(),
        screen_coverages: Vec::new(),
    });
    doc.nodes[0].lod_ids = vec![1];
    let views = build_buffer_view_map(&doc, &Some(triangle_bin()), &vec![None], &vec![None])
        .unwrap();
    match build_model(&doc, &views) {
        Err(LoadError::LodPrimitiveCountMismatch { expected, got }) => {
            assert_eq!((expected, got), (1, 2));
        },
        other => panic!("expected a count-mismatch error, got {:?}", other.is_ok()),
    }
}

#[test]
fn material_buckets_partition_the_primitives() {
    let mut doc = minimal_document();
    doc.materials = vec![
        MaterialDef { alpha_mode: AlphaMode::Blend, double_sided: true },
    ];
    doc.meshes[0].primitives[0].material = Some(0);
    let views = build_buffer_view_map(&doc, &Some(triangle_bin()), &vec![None], &vec![None])
        .unwrap();
    let staged = build_model(&doc, &views).unwrap();
    let pr = staged.primitive_ranges;
    assert_eq!(pr.opaque.single.primitives.start, 0);
    assert_eq!(pr.opaque.single.primitives.end, 0);
    assert_eq!(pr.alpha_blended.double.primitives.start, 0);
    assert_eq!(pr.alpha_blended.double.primitives.end, 1);
    assert_eq!(pr.alpha_blended.double.indices.end, 3);
}

#[test]
fn out_of_range_material_fails_the_load() {
    let mut doc = minimal_document();
    doc.meshes[0].primitives[0].material = Some(3);
    let views = build_buffer_view_map(&doc, &Some(triangle_bin()), &vec![None], &vec![None])
        .unwrap();
    match build_model(&doc, &views) {
        Err(LoadError::MaterialOutOfRange { material }) => assert_eq!(material, 3),
        other => panic!("expected a material error, got {:?}", other.is_ok()),
    }
}

#[test]
fn out_of_range_accessor_fails_the_load() {
    let mut doc = minimal_document();
    doc.meshes[0].primitives[0].attributes.position = Some(9);
    let views = build_buffer_view_map(&doc, &Some(triangle_bin()), &vec![None], &vec![None])
        .unwrap();
    match build_model(&doc, &views) {
        Err(LoadError::AccessorOutOfRange { accessor }) => assert_eq!(accessor, 9),
        other => panic!("expected an accessor error, got {:?}", other.is_ok()),
    }
}

#[test]
fn accessor_without_buffer_view_fails_the_load() {
    let mut doc = minimal_document();
    doc.accessors[0].buffer_view = None;
    let views = build_buffer_view_map(&doc, &Some(triangle_bin()), &vec![None], &vec![None])
        .unwrap();
    match build_model(&doc, &views) {
        Err(LoadError::MissingBufferView) => {},
        other => panic!("expected a missing-view error, got {:?}", other.is_ok()),
    }
}

#[test]
fn out_of_range_buffer_view_fails_the_load() {
    let mut doc = minimal_document();
    doc.accessors[0].buffer_view = Some(4);
    let views = build_buffer_view_map(&doc, &Some(triangle_bin()), &vec![None], &vec![None])
        .unwrap();
    match build_model(&doc, &views) {
        Err(LoadError::BufferViewOutOfRange { buffer_view }) => assert_eq!(buffer_view, 4),
        other => panic!("expected a view-range error, got {:?}", other.is_ok()),
    }
}

#[test]
fn out_of_range_mesh_fails_the_load() {
    let mut doc = minimal_document();
    doc.nodes[0].mesh = Some(2);
    let views = build_buffer_view_map(&doc, &Some(triangle_bin()), &vec![None], &vec![None])
        .unwrap();
    match build_model(&doc, &views) {
        Err(LoadError::MeshOutOfRange { mesh }) => assert_eq!(mesh, 2),
        other => panic!("expected a mesh-range error, got {:?}", other.is_ok()),
    }
}

#[test]
fn vertex_index_past_the_vertex_count_fails() {
    let mut doc = minimal_document();
    // An index accessor holding the value 7, past the three vertices.
    doc.buffer_views.push(BufferViewDef {
        buffer: 0,
        byte_offset: 0,
        byte_length: 2,
        byte_stride: None,
        meshopt: None,
    });
    doc.accessors.push(AccessorDef {
        buffer_view: Some(1),
        byte_offset: 0,
        count: 1,
        component_type: ComponentType::UnsignedShort,
        kind: AccessorKind::Scalar,
        normalized: false,
    });
    doc.meshes[0].primitives[0].indices = Some(1);
    let mut bin = triangle_bin();
    bin[0] = 7;
    bin[1] = 0;
    let views = build_buffer_view_map(&doc, &Some(bin), &vec![None], &vec![None, None]).unwrap();
    match build_model(&doc, &views) {
        Err(LoadError::VertexIndexOutOfRange { index }) => assert_eq!(index, 7),
        other => panic!("expected an index-range error, got {:?}", other.is_ok()),
    }
}

#[test]
fn attribute_count_mismatch_fails() {
    let mut doc = minimal_document();
    // A normal accessor with only two elements against three vertices.
    doc.accessors.push(AccessorDef {
        buffer_view: Some(0),
        byte_offset: 0,
        count: 2,
        component_type: ComponentType::Float,
        kind: AccessorKind::Vec3,
        normalized: false,
    });
    doc.meshes[0].primitives[0].attributes.normal = Some(1);
    let views = build_buffer_view_map(&doc, &Some(triangle_bin()), &vec![None], &vec![None])
        .unwrap();
    match build_model(&doc, &views) {
        Err(LoadError::AttributeCountMismatch { expected, got }) => {
            assert_eq!((expected, got), (3, 2));
        },
        other => panic!("expected a count-mismatch error, got {:?}", other.is_ok()),
    }
}

#[test]
fn error_messages_name_the_failure() {
    assert_eq!(LoadError::MissingPositions.message(), "primitive does not specify vertex positions");
    assert!(LoadError::BadGlbContainer.message().contains("container"));
}
