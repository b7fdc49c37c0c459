use aether::error::{FormatError, GltfError, UnsupportedFeature};
use aether::glb::{GLB_BIN_CHUNK_TYPE, GLB_JSON_CHUNK_TYPE};
use aether::gltf::Gltf;
use aether::mesh::Vertex;

fn glb(chunks: &[(u32, Vec<u8>)]) -> Vec<u8> {
    let mut out: Vec<u8> = Vec::new();
    out.extend_from_slice(&0x4654_6C67u32.to_le_bytes());
    out.extend_from_slice(&2u32.to_le_bytes());
    let mut total: u32 = 12;
    for (_, data) in chunks {
        total += 8 + data.len() as u32;
    }
    out.extend_from_slice(&total.to_le_bytes());
    for (ty, data) in chunks {
        out.extend_from_slice(&(data.len() as u32).to_le_bytes());
        out.extend_from_slice(&ty.to_le_bytes());
        out.extend_from_slice(data);
    }
    out
}

fn simple_glb(json: &str, bin: &[u8]) -> Vec<u8> {
    glb(&[
        (GLB_JSON_CHUNK_TYPE, json.as_bytes().to_vec()),
        (GLB_BIN_CHUNK_TYPE, bin.to_vec()),
    ])
}

fn positions_bytes(values: &[f32]) -> Vec<u8> {
    let mut out = Vec::new();
    for v in values {
        out.extend_from_slice(&v.to_le_bytes());
    }
    out
}

fn index_bytes(values: &[u16]) -> Vec<u8> {
    let mut out = Vec::new();
    for v in values {
        out.extend_from_slice(&v.to_le_bytes());
    }
    out
}

#[test]
fn vertices_and_indices_decoded_exactly() {
    let mut bin = positions_bytes(&[1.0, 2.0, 3.0, -4.5, 0.25, 1000.0]);
    bin.extend_from_slice(&index_bytes(&[0, 1, 2]));
    // two VEC3 float vertices (24 bytes), then three u16 indices (6 bytes)
    let json = r#"{
        "accessors": [
            {"bufferView": 0, "componentType": 5126, "count": 2, "type": "VEC3"},
            {"bufferView": 1, "componentType": 5123, "count": 3, "type": "SCALAR"}
        ],
        "buffers": [{"byteLength": 30}],
        "bufferViews": [
            {"buffer": 0, "byteOffset": 0, "byteLength": 24},
            {"buffer": 0, "byteOffset": 24, "byteLength": 6}
        ],
        "meshes": [{"primitives": [{"attributes": {"POSITION": 0}, "indices": 1}]}]
    }"#;
    let gltf = Gltf::load(&simple_glb(json, &bin)).unwrap();
    let meshes = gltf.to_meshes().unwrap();
    assert_eq!(meshes.len(), 1);
    let md = &meshes[0];
    assert_eq!(
        md.vertices,
        vec![
            Vertex { position: [1.0f32.to_bits(), 2.0f32.to_bits(), 3.0f32.to_bits()] },
            Vertex { position: [(-4.5f32).to_bits(), 0.25f32.to_bits(), 1000.0f32.to_bits()] },
        ]
    );
    assert_eq!(md.indices, vec![0u32, 1, 2]);
}

#[test]
fn index_widening_is_little_endian() {
    let mut bin = positions_bytes(&[0.0, 0.0, 0.0]);
    bin.extend_from_slice(&[0x01, 0x02]);
    let json = r#"{
        "accessors": [
            {"bufferView": 0, "componentType": 5126, "count": 1, "type": "VEC3"},
            {"bufferView": 1, "componentType": 5123, "count": 1, "type": "SCALAR"}
        ],
        "buffers": [{"byteLength": 14}],
        "bufferViews": [
            {"buffer": 0, "byteOffset": 0, "byteLength": 12},
            {"buffer": 0, "byteOffset": 12, "byteLength": 2}
        ],
        "meshes": [{"primitives": [{"attributes": {"POSITION": 0}, "indices": 1}]}]
    }"#;
    let gltf = Gltf::load(&simple_glb(json, &bin)).unwrap();
    let meshes = gltf.to_meshes().unwrap();
    assert_eq!(meshes[0].indices, vec![0x0201u32]);
}

#[test]
fn multi_primitive_mesh_yields_independent_pairs() {
    let mut bin = positions_bytes(&[1.0, 0.0, 0.0, 0.0, 2.0, 0.0]);
    bin.extend_from_slice(&index_bytes(&[0, 0]));
    let json = r#"{
        "accessors": [
            {"bufferView": 0, "byteOffset": 0, "componentType": 5126, "count": 1, "type": "VEC3"},
            {"bufferView": 0, "byteOffset": 12, "componentType": 5126, "count": 1, "type": "VEC3"},
            {"bufferView": 1, "byteOffset": 0, "componentType": 5123, "count": 1, "type": "SCALAR"},
            {"bufferView": 1, "byteOffset": 2, "componentType": 5123, "count": 1, "type": "SCALAR"}
        ],
        "buffers": [{"byteLength": 28}],
        "bufferViews": [
            {"buffer": 0, "byteOffset": 0, "byteLength": 24},
            {"buffer": 0, "byteOffset": 24, "byteLength": 4}
        ],
        "meshes": [{"primitives": [
            {"attributes": {"POSITION": 0}, "indices": 2},
            {"attributes": {"POSITION": 1}, "indices": 3}
        ]}]
    }"#;
    let gltf = Gltf::load(&simple_glb(json, &bin)).unwrap();
    let meshes = gltf.to_meshes().unwrap();
    assert_eq!(meshes.len(), 2);
    assert_eq!(
        meshes[0].vertices,
        vec![Vertex { position: [1.0f32.to_bits(), 0.0f32.to_bits(), 0.0f32.to_bits()] }]
    );
    assert_eq!(
        meshes[1].vertices,
        vec![Vertex { position: [0.0f32.to_bits(), 2.0f32.to_bits(), 0.0f32.to_bits()] }]
    );
}

#[test]
fn non_indexed_primitive_unsupported() {
    let bin = positions_bytes(&[0.0, 0.0, 0.0]);
    let json = r#"{
        "accessors": [{"bufferView": 0, "componentType": 5126, "count": 1, "type": "VEC3"}],
        "buffers": [{"byteLength": 12}],
        "bufferViews": [{"buffer": 0, "byteLength": 12}],
        "meshes": [{"primitives": [{"attributes": {"POSITION": 0}}]}]
    }"#;
    let gltf = Gltf::load(&simple_glb(json, &bin)).unwrap();
    assert!(matches!(
        gltf.to_meshes(),
        Err(GltfError::Unsupported(UnsupportedFeature::NonIndexedPrimitive {
            mesh: 0,
            primitive: 0,
        }))
    ));
}

#[test]
fn missing_position_attribute_unsupported() {
    let json = r#"{
        "accessors": [{"bufferView": 0, "componentType": 5123, "count": 1, "type": "SCALAR"}],
        "buffers": [{"byteLength": 2}],
        "bufferViews": [{"buffer": 0, "byteLength": 2}],
        "meshes": [{"primitives": [{"attributes": {}, "indices": 0}]}]
    }"#;
    let gltf = Gltf::load(&simple_glb(json, &[0, 0])).unwrap();
    assert!(matches!(
        gltf.to_meshes(),
        Err(GltfError::Unsupported(UnsupportedFeature::MissingPositionAttribute {
            mesh: 0,
            primitive: 0,
        }))
    ));
}

#[test]
fn misaligned_vertex_run_rejected() {
    // Ten bytes of POSITION data is not a whole number of 12-byte vertices.
    let json = r#"{
        "accessors": [
            {"bufferView": 0, "componentType": 5121, "count": 10, "type": "SCALAR"},
            {"bufferView": 0, "componentType": 5123, "count": 1, "type": "SCALAR"}
        ],
        "buffers": [{"byteLength": 10}],
        "bufferViews": [{"buffer": 0, "byteLength": 10}],
        "meshes": [{"primitives": [{"attributes": {"POSITION": 0}, "indices": 1}]}]
    }"#;
    let gltf = Gltf::load(&simple_glb(json, &[0; 10])).unwrap();
    assert!(matches!(
        gltf.to_meshes(),
        Err(GltfError::Format(FormatError::MisalignedVertexData {
            mesh: 0,
            primitive: 0,
            accessor: 0,
        }))
    ));
}

#[test]
fn misaligned_index_run_rejected() {
    let mut bin = positions_bytes(&[0.0, 0.0, 0.0]);
    bin.push(0);
    let json = r#"{
        "accessors": [
            {"bufferView": 0, "componentType": 5126, "count": 1, "type": "VEC3"},
            {"bufferView": 1, "componentType": 5121, "count": 1, "type": "SCALAR"}
        ],
        "buffers": [{"byteLength": 13}],
        "bufferViews": [
            {"buffer": 0, "byteOffset": 0, "byteLength": 12},
            {"buffer": 0, "byteOffset": 12, "byteLength": 1}
        ],
        "meshes": [{"primitives": [{"attributes": {"POSITION": 0}, "indices": 1}]}]
    }"#;
    let gltf = Gltf::load(&simple_glb(json, &bin)).unwrap();
    assert!(matches!(
        gltf.to_meshes(),
        Err(GltfError::Format(FormatError::MisalignedIndexData {
            mesh: 0,
            primitive: 0,
            accessor: 1,
        }))
    ));
}

#[test]
fn materialize_primitive_matches_to_meshes() {
    let mut bin = positions_bytes(&[5.0, 6.0, 7.0]);
    bin.extend_from_slice(&index_bytes(&[0]));
    let json = r#"{
        "accessors": [
            {"bufferView": 0, "componentType": 5126, "count": 1, "type": "VEC3"},
            {"bufferView": 1, "componentType": 5123, "count": 1, "type": "SCALAR"}
        ],
        "buffers": [{"byteLength": 14}],
        "bufferViews": [
            {"buffer": 0, "byteOffset": 0, "byteLength": 12},
            {"buffer": 0, "byteOffset": 12, "byteLength": 2}
        ],
        "meshes": [{"primitives": [{"attributes": {"POSITION": 0}, "indices": 1}]}]
    }"#;
    let gltf = Gltf::load(&simple_glb(json, &bin)).unwrap();
    let one = gltf.materialize_primitive(0, 0).unwrap();
    let all = gltf.to_meshes().unwrap();
    assert_eq!(one.vertices, all[0].vertices);
    assert_eq!(one.indices, all[0].indices);
}

#[test]
fn all_attributes_kept_and_position_looked_up() {
    let mut bin = positions_bytes(&[1.0, 2.0, 3.0, 9.0, 9.0, 9.0]);
    bin.extend_from_slice(&index_bytes(&[0]));
    // POSITION and NORMAL name different accessors; both survive resolution,
    // and materialisation reads the POSITION one.
    let json = r#"{
        "accessors": [
            {"bufferView": 0, "byteOffset": 0, "componentType": 5126, "count": 1, "type": "VEC3"},
            {"bufferView": 0, "byteOffset": 12, "componentType": 5126, "count": 1, "type": "VEC3"},
            {"bufferView": 1, "componentType": 5123, "count": 1, "type": "SCALAR"}
        ],
        "buffers": [{"byteLength": 26}],
        "bufferViews": [
            {"buffer": 0, "byteOffset": 0, "byteLength": 24},
            {"buffer": 0, "byteOffset": 24, "byteLength": 2}
        ],
        "meshes": [{"primitives": [
            {"attributes": {"NORMAL": 1, "POSITION": 0}, "indices": 2}
        ]}]
    }"#;
    let gltf = Gltf::load(&simple_glb(json, &bin)).unwrap();
    let attrs = &gltf.meshes[0].primitives[0].attributes;
    assert_eq!(attrs.entries.len(), 2);
    assert!(attrs.entries.iter().any(|(k, r)| k == "POSITION" && r.0 == 0));
    assert!(attrs.entries.iter().any(|(k, r)| k == "NORMAL" && r.0 == 1));
    assert_eq!(attrs.position().unwrap().0, 0);
    let meshes = gltf.to_meshes().unwrap();
    assert_eq!(
        meshes[0].vertices,
        vec![Vertex { position: [1.0f32.to_bits(), 2.0f32.to_bits(), 3.0f32.to_bits()] }]
    );
}

#[test]
fn attributes_must_be_an_object_of_indices() {
    let not_object = r#"{
        "buffers": [{"byteLength": 0}],
        "meshes": [{"primitives": [{"attributes": 5, "indices": 0}]}]
    }"#;
    match Gltf::load(&simple_glb(not_object, &[])) {
        Err(GltfError::Format(FormatError::Schema(s))) => assert_eq!(s, "attributes"),
        other => panic!("expected Schema, got {:?}", other.err()),
    }
    let bad_value = r#"{
        "buffers": [{"byteLength": 0}],
        "meshes": [{"primitives": [{"attributes": {"POSITION": "zero"}, "indices": 0}]}]
    }"#;
    match Gltf::load(&simple_glb(bad_value, &[])) {
        Err(GltfError::Format(FormatError::Schema(s))) => assert_eq!(s, "attributes"),
        other => panic!("expected Schema, got {:?}", other.err()),
    }
}
