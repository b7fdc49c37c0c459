use aether::error::{BoundsError, FormatError, GltfError, UnsupportedFeature};
use aether::glb::{GlbChunkType, GlbChunks, GLB_BIN_CHUNK_TYPE, GLB_JSON_CHUNK_TYPE};
use aether::gltf::{AccessorRef, Gltf, MeshRef, NodeRef, Transform};

fn glb(chunks: &[(u32, Vec<u8>)]) -> Vec<u8> {
    let mut out: Vec<u8> = Vec::new();
    out.extend_from_slice(&0x4654_6C67u32.to_le_bytes());
    out.extend_from_slice(&2u32.to_le_bytes());
    let mut total: u32 = 12;
    for (_, data) in chunks {
        total += 8 + data.len() as u32;
    }
    out.extend_from_slice(&total.to_le_bytes());
    for (ty, data) in chunks {
        out.extend_from_slice(&(data.len() as u32).to_le_bytes());
        out.extend_from_slice(&ty.to_le_bytes());
        out.extend_from_slice(data);
    }
    out
}

fn simple_glb(json: &str, bin: &[u8]) -> Vec<u8> {
    glb(&[
        (GLB_JSON_CHUNK_TYPE, json.as_bytes().to_vec()),
        (GLB_BIN_CHUNK_TYPE, bin.to_vec()),
    ])
}

#[test]
fn round_trip_extraction() {
    let json = r#"{
        "accessors": [{"bufferView": 0, "componentType": 5126, "count": 2, "type": "VEC3"}],
        "buffers": [{"byteLength": 24}],
        "bufferViews": [{"buffer": 0, "byteOffset": 0, "byteLength": 24}]
    }"#;
    let bin: Vec<u8> = (0u8..24).collect();
    let gltf = Gltf::load(&simple_glb(json, &bin)).unwrap();
    let data = AccessorRef(0).get_data(&gltf).unwrap();
    assert_eq!(data, &bin[..]);
    let again = gltf.load_accessor_data(AccessorRef(0)).unwrap();
    assert_eq!(again, &bin[..]);
}

#[test]
fn round_trip_extraction_with_offsets() {
    let json = r#"{
        "accessors": [{"bufferView": 0, "byteOffset": 4, "componentType": 5121, "count": 6, "type": "SCALAR"}],
        "buffers": [{"byteLength": 32}],
        "bufferViews": [{"buffer": 0, "byteOffset": 8, "byteLength": 20}]
    }"#;
    let bin: Vec<u8> = (100u8..132).collect();
    let gltf = Gltf::load(&simple_glb(json, &bin)).unwrap();
    let data = AccessorRef(0).get_data(&gltf).unwrap();
    // absolute offset 4 + 8 = 12, length 1 * 1 * 6 = 6
    assert_eq!(data, &bin[12..18]);
}

#[test]
fn bad_magic_rejected() {
    let mut bytes = simple_glb("{}", &[]);
    bytes[0] = 0x00;
    match Gltf::load(&bytes) {
        Err(GltfError::Format(FormatError::BadMagic(m))) => {
            assert_ne!(m, 0x4654_6C67);
        }
        other => panic!("expected BadMagic, got {:?}", other.err()),
    }
}

#[test]
fn bad_version_rejected() {
    let mut bytes = simple_glb("{}", &[]);
    bytes[4] = 3;
    match Gltf::load(&bytes) {
        Err(GltfError::Format(FormatError::BadVersion(v))) => assert_eq!(v, 3),
        other => panic!("expected BadVersion, got {:?}", other.err()),
    }
}

#[test]
fn truncated_header_rejected() {
    let bytes = vec![0x67u8, 0x6C, 0x54, 0x46, 2, 0, 0];
    assert!(matches!(
        Gltf::load(&bytes),
        Err(GltfError::Format(FormatError::TruncatedHeader))
    ));
}

#[test]
fn missing_binary_chunk_rejected() {
    let json = r#"{"buffers": [{"byteLength": 0}]}"#;
    let bytes = glb(&[(GLB_JSON_CHUNK_TYPE, json.as_bytes().to_vec())]);
    assert!(matches!(
        Gltf::load(&bytes),
        Err(GltfError::Format(FormatError::MissingBinaryChunk))
    ));
}

#[test]
fn missing_json_chunk_rejected() {
    let bytes = glb(&[(GLB_BIN_CHUNK_TYPE, vec![1, 2, 3, 4])]);
    assert!(matches!(
        Gltf::load(&bytes),
        Err(GltfError::Format(FormatError::MissingJsonChunk))
    ));
}

#[test]
fn unknown_chunk_type_rejected() {
    let bytes = glb(&[
        (GLB_JSON_CHUNK_TYPE, b"{}".to_vec()),
        (0xDEAD_BEEF, vec![0, 1]),
    ]);
    match Gltf::load(&bytes) {
        Err(GltfError::Format(FormatError::UnknownChunkType(t))) => assert_eq!(t, 0xDEAD_BEEF),
        other => panic!("expected UnknownChunkType, got {:?}", other.err()),
    }
}

#[test]
fn truncated_chunk_rejected() {
    let mut bytes = glb(&[(GLB_JSON_CHUNK_TYPE, b"{}".to_vec())]);
    // declare four more data bytes than the stream still holds
    let json_len = 2u32 + 4;
    bytes[12..16].copy_from_slice(&json_len.to_le_bytes());
    assert!(matches!(
        Gltf::load(&bytes),
        Err(GltfError::Format(FormatError::TruncatedChunk))
    ));
}

#[test]
fn truncated_chunk_header_rejected() {
    let mut bytes = glb(&[(GLB_JSON_CHUNK_TYPE, b"{}".to_vec())]);
    bytes.extend_from_slice(&[0, 0, 0]);
    assert!(matches!(
        Gltf::load(&bytes),
        Err(GltfError::Format(FormatError::TruncatedChunkHeader))
    ));
}

#[test]
fn get_chunk_finds_first_of_kind() {
    let bytes = glb(&[
        (GLB_JSON_CHUNK_TYPE, b"{}".to_vec()),
        (GLB_BIN_CHUNK_TYPE, vec![9, 9]),
        (GLB_BIN_CHUNK_TYPE, vec![7]),
    ]);
    let chunks = GlbChunks::parse(&bytes).unwrap();
    assert_eq!(chunks.get_chunk(GlbChunkType::Json).unwrap(), b"{}".to_vec());
    assert_eq!(chunks.get_chunk(GlbChunkType::Binary).unwrap(), vec![9, 9]);
}

#[test]
fn malformed_json_rejected() {
    let bytes = simple_glb("{not json", &[]);
    assert!(matches!(
        Gltf::load(&bytes),
        Err(GltfError::Format(FormatError::Json(_)))
    ));
}

#[test]
fn wrong_shape_field_rejected() {
    let bytes = simple_glb(r#"{"accessors": 5, "buffers": [{"byteLength": 0}]}"#, &[]);
    match Gltf::load(&bytes) {
        Err(GltfError::Format(FormatError::Schema(s))) => assert_eq!(s, "accessors"),
        other => panic!("expected Schema, got {:?}", other.err()),
    }
}

#[test]
fn missing_buffer_rejected() {
    let bytes = simple_glb("{}", &[1, 2]);
    assert!(matches!(
        Gltf::load(&bytes),
        Err(GltfError::Format(FormatError::MissingBuffer))
    ));
}

#[test]
fn multiple_buffers_unsupported() {
    let json = r#"{"buffers": [{"byteLength": 1}, {"byteLength": 1}]}"#;
    let bytes = simple_glb(json, &[0]);
    assert!(matches!(
        Gltf::load(&bytes),
        Err(GltfError::Unsupported(UnsupportedFeature::MultipleBuffers))
    ));
}

#[test]
fn external_buffer_unsupported() {
    let json = r#"{"buffers": [{"byteLength": 4, "uri": "model.bin"}]}"#;
    let bytes = simple_glb(json, &[0]);
    assert!(matches!(
        Gltf::load(&bytes),
        Err(GltfError::Unsupported(UnsupportedFeature::ExternalBufferData))
    ));
}

#[test]
fn bad_component_type_code_rejected() {
    let json = r#"{
        "accessors": [{"bufferView": 0, "componentType": 5124, "count": 1, "type": "SCALAR"}],
        "buffers": [{"byteLength": 4}],
        "bufferViews": [{"buffer": 0, "byteLength": 4}]
    }"#;
    match Gltf::load(&simple_glb(json, &[0, 0, 0, 0])) {
        Err(GltfError::Format(FormatError::BadComponentType(c))) => assert_eq!(c, 5124),
        other => panic!("expected BadComponentType, got {:?}", other.err()),
    }
}

#[test]
fn bad_element_type_string_rejected() {
    let json = r#"{
        "accessors": [{"bufferView": 0, "componentType": 5126, "count": 1, "type": "VEC5"}],
        "buffers": [{"byteLength": 4}],
        "bufferViews": [{"buffer": 0, "byteLength": 4}]
    }"#;
    match Gltf::load(&simple_glb(json, &[0, 0, 0, 0])) {
        Err(GltfError::Format(FormatError::BadElementType(t))) => assert_eq!(t, "VEC5"),
        other => panic!("expected BadElementType, got {:?}", other.err()),
    }
}

#[test]
fn bounds_error_surfaces_at_access_not_load() {
    // The accessor claims 100 float VEC3 elements: 1200 bytes, far past the
    // 8-byte buffer. Loading must succeed; extraction must fail.
    let json = r#"{
        "accessors": [{"bufferView": 0, "componentType": 5126, "count": 100, "type": "VEC3"}],
        "buffers": [{"byteLength": 8}],
        "bufferViews": [{"buffer": 0, "byteLength": 8}]
    }"#;
    let gltf = Gltf::load(&simple_glb(json, &[0; 8])).unwrap();
    match AccessorRef(0).get_data(&gltf) {
        Err(GltfError::OutOfBounds(BoundsError::DataRange { accessor })) => {
            assert_eq!(accessor, 0);
        }
        other => panic!("expected DataRange, got {:?}", other.err()),
    }
}

#[test]
fn dangling_accessor_reference_is_out_of_bounds() {
    let json = r#"{"buffers": [{"byteLength": 0}]}"#;
    let gltf = Gltf::load(&simple_glb(json, &[])).unwrap();
    assert!(matches!(
        AccessorRef(3).get_data(&gltf),
        Err(GltfError::OutOfBounds(BoundsError::AccessorIndex { index: 3 }))
    ));
}

#[test]
fn dangling_buffer_view_reference_is_out_of_bounds() {
    let json = r#"{
        "accessors": [{"bufferView": 7, "componentType": 5121, "count": 1, "type": "SCALAR"}],
        "buffers": [{"byteLength": 1}]
    }"#;
    let gltf = Gltf::load(&simple_glb(json, &[0])).unwrap();
    assert!(matches!(
        AccessorRef(0).get_data(&gltf),
        Err(GltfError::OutOfBounds(BoundsError::BufferViewIndex { index: 7 }))
    ));
}

#[test]
fn trs_components_kept_in_composition_order_slot() {
    let json = r#"{
        "buffers": [{"byteLength": 0}],
        "nodes": [{"scale": [2, 1, 1], "rotation": [0, 0, 0, 1], "translation": [5, 0, 0]}]
    }"#;
    let gltf = Gltf::load(&simple_glb(json, &[])).unwrap();
    assert_eq!(gltf.nodes.len(), 1);
    match &gltf.nodes[0].transform {
        Transform::Composed {
            translation,
            rotation,
            scale,
        } => {
            assert_eq!(scale.as_ref().unwrap(), &vec!["2", "1", "1"]);
            assert_eq!(rotation.as_ref().unwrap(), &vec!["0", "0", "0", "1"]);
            assert_eq!(translation.as_ref().unwrap(), &vec!["5", "0", "0"]);
        }
        Transform::Matrix(_) => panic!("expected a composed transform"),
    }
}

#[test]
fn absent_trs_components_stay_absent() {
    let json = r#"{
        "buffers": [{"byteLength": 0}],
        "nodes": [{"translation": [1, 2, 3]}]
    }"#;
    let gltf = Gltf::load(&simple_glb(json, &[])).unwrap();
    match &gltf.nodes[0].transform {
        Transform::Composed {
            translation,
            rotation,
            scale,
        } => {
            assert_eq!(translation.as_ref().unwrap(), &vec!["1", "2", "3"]);
            assert!(rotation.is_none());
            assert!(scale.is_none());
        }
        Transform::Matrix(_) => panic!("expected a composed transform"),
    }
}

#[test]
fn explicit_matrix_overrides_trs() {
    let json = r#"{
        "buffers": [{"byteLength": 0}],
        "nodes": [{
            "matrix": [1, 0, 0, 0, 0, 1, 0, 0, 0, 0, 1, 0, 10, 20, 30, 1],
            "scale": [9, 9, 9],
            "rotation": [1, 0, 0, 0],
            "translation": [7, 7, 7]
        }]
    }"#;
    let gltf = Gltf::load(&simple_glb(json, &[])).unwrap();
    match &gltf.nodes[0].transform {
        Transform::Matrix(m) => {
            assert_eq!(m.len(), 16);
            assert_eq!(m[12], "10");
            assert_eq!(m[13], "20");
            assert_eq!(m[14], "30");
        }
        Transform::Composed { .. } => panic!("matrix must override the TRS fields"),
    }
}

#[test]
fn wrong_matrix_arity_rejected() {
    let json = r#"{
        "buffers": [{"byteLength": 0}],
        "nodes": [{"matrix": [1, 0, 0]}]
    }"#;
    match Gltf::load(&simple_glb(json, &[])) {
        Err(GltfError::Format(FormatError::Schema(s))) => assert_eq!(s, "matrix"),
        other => panic!("expected Schema, got {:?}", other.err()),
    }
}

#[test]
fn nodes_scenes_and_references_resolve() {
    let json = r#"{
        "buffers": [{"byteLength": 0}],
        "meshes": [{"primitives": []}],
        "nodes": [{"children": [1], "mesh": 0}, {}],
        "scenes": [{"nodes": [0]}]
    }"#;
    let gltf = Gltf::load(&simple_glb(json, &[])).unwrap();
    assert_eq!(gltf.scenes.len(), 1);
    let root = gltf.scenes[0].nodes[0];
    let node = root.get(&gltf).unwrap();
    assert_eq!(node.children.len(), 1);
    let mesh_ref = node.mesh.unwrap();
    let mesh = mesh_ref.get(&gltf).unwrap();
    assert_eq!(mesh.primitives.len(), 0);
    assert!(matches!(
        NodeRef(9).get(&gltf),
        Err(GltfError::OutOfBounds(BoundsError::NodeIndex { index: 9 }))
    ));
    assert!(matches!(
        MeshRef(9).get(&gltf),
        Err(GltfError::OutOfBounds(BoundsError::MeshIndex { index: 9 }))
    ));
}

#[test]
fn unknown_fields_ignored_and_defaults_applied() {
    // Extra fields at every level are ignored; absent offsets default to
    // zero and the normalized flag defaults to false.
    let json = r#"{
        "asset": {"version": "2.0", "generator": "unit test"},
        "accessors": [
            {"bufferView": 0, "componentType": 5121, "count": 2, "type": "SCALAR", "max": [9]},
            {"bufferView": 0, "componentType": 5121, "count": 1, "type": "SCALAR", "normalized": true}
        ],
        "buffers": [{"byteLength": 2}],
        "bufferViews": [{"buffer": 0, "byteLength": 2, "target": 34962}],
        "extras": {"anything": [1, 2, 3]}
    }"#;
    let gltf = Gltf::load(&simple_glb(json, &[40, 41])).unwrap();
    assert!(!gltf.accessors[0].normalized);
    assert!(gltf.accessors[1].normalized);
    let data = AccessorRef(0).get_data(&gltf).unwrap();
    assert_eq!(data, &[40, 41]);
}
