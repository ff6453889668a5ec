use mirgo_utils::flip::flip_all_normals;
use mirgo_utils::gltf::parse_gltf;
use mirgo_utils::gltf::FlipError;
use mirgo_utils::gltf::SchemaField;

#[test]
fn parses_full_document() {
    let text = r#"{
        "buffers": [{"uri": "model.bin"}],
        "accessors": [{"bufferView": 0, "count": 2, "componentType": 5126, "type": "VEC3", "byteOffset": 4}],
        "bufferViews": [{"byteOffset": 8, "byteStride": 16}],
        "meshes": [{"primitives": [{"attributes": {"POSITION": 1, "NORMAL": 0}}]}]
    }"#;
    let parsed = parse_gltf(text).unwrap();
    assert_eq!(parsed.buffer_uri.as_str(), "model.bin");
    assert_eq!(parsed.doc.accessors.len(), 1);
    assert_eq!(parsed.doc.accessors[0].buffer_view, Some(0));
    assert_eq!(parsed.doc.accessors[0].count, Some(2));
    assert_eq!(parsed.doc.accessors[0].component_type, 5126);
    assert_eq!(parsed.doc.accessors[0].element_type.as_str(), "VEC3");
    assert_eq!(parsed.doc.accessors[0].byte_offset, 4);
    assert_eq!(parsed.doc.buffer_views.len(), 1);
    assert_eq!(parsed.doc.buffer_views[0].byte_offset, 8);
    assert_eq!(parsed.doc.buffer_views[0].byte_stride, 16);
    assert_eq!(parsed.doc.normal_refs, vec![0]);
}

#[test]
fn absent_fields_get_format_defaults() {
    let text = r#"{
        "buffers": [{"uri": "m.bin"}],
        "accessors": [{"bufferView": 1, "count": 3}],
        "bufferViews": [{}],
        "meshes": []
    }"#;
    let parsed = parse_gltf(text).unwrap();
    let a = &parsed.doc.accessors[0];
    assert_eq!(a.component_type, 0);
    assert_eq!(a.element_type.as_str(), "");
    assert_eq!(a.byte_offset, 0);
    let v = &parsed.doc.buffer_views[0];
    assert_eq!(v.byte_offset, 0);
    assert_eq!(v.byte_stride, 12);
    assert!(parsed.doc.normal_refs.is_empty());
}

#[test]
fn negative_count_reads_as_absent() {
    let text = r#"{
        "buffers": [{"uri": "m.bin"}],
        "accessors": [{"bufferView": 0, "count": -1, "componentType": 5126, "type": "VEC3"}]
    }"#;
    let parsed = parse_gltf(text).unwrap();
    assert_eq!(parsed.doc.accessors[0].count, None);
}

#[test]
fn malformed_json_is_parse_error() {
    let r = parse_gltf("{ not json");
    assert!(matches!(r, Err(FlipError::ParseError(msg)) if !msg.is_empty()));
}

#[test]
fn missing_buffers_is_schema_violation() {
    let r = parse_gltf(r#"{"meshes": []}"#);
    assert!(matches!(r, Err(FlipError::SchemaViolation(SchemaField::Buffers))));
}

#[test]
fn non_array_buffers_is_schema_violation() {
    let r = parse_gltf(r#"{"buffers": 7}"#);
    assert!(matches!(r, Err(FlipError::SchemaViolation(SchemaField::Buffers))));
}

#[test]
fn empty_buffers_is_missing_uri() {
    let r = parse_gltf(r#"{"buffers": []}"#);
    assert!(matches!(r, Err(FlipError::SchemaViolation(SchemaField::BufferUri))));
}

#[test]
fn non_string_uri_is_missing_uri() {
    let r = parse_gltf(r#"{"buffers": [{"uri": 5}]}"#);
    assert!(matches!(r, Err(FlipError::SchemaViolation(SchemaField::BufferUri))));
}

#[test]
fn flips_normals_parsed_from_json() {
    let text = r#"{
        "buffers": [{"uri": "model.bin"}],
        "accessors": [
            {"bufferView": 0, "count": 1, "componentType": 5126, "type": "VEC3"},
            {"bufferView": 0, "count": 1, "componentType": 5126, "type": "VEC3", "byteOffset": 12}
        ],
        "bufferViews": [{"byteOffset": 0}],
        "meshes": [
            {"primitives": [{"attributes": {"NORMAL": 0}}]},
            {"primitives": [{"attributes": {"NORMAL": 1}}, {"attributes": {"POSITION": 0}}]}
        ]
    }"#;
    let parsed = parse_gltf(text).unwrap();
    assert_eq!(parsed.doc.normal_refs, vec![0, 1]);
    let mut bin = Vec::new();
    for v in [1.0f32, 2.0, -3.0, -4.0, 5.5, 6.25] {
        bin.extend_from_slice(&v.to_le_bytes());
    }
    let n = flip_all_normals(&parsed.doc, &mut bin);
    assert_eq!(n, 2);
    let mut expected = Vec::new();
    for v in [-1.0f32, -2.0, 3.0, 4.0, -5.5, -6.25] {
        expected.extend_from_slice(&v.to_le_bytes());
    }
    assert_eq!(bin, expected);
}

#[test]
fn gltf_without_normals_flips_nothing() {
    let text = r#"{
        "buffers": [{"uri": "model.bin"}],
        "accessors": [{"bufferView": 0, "count": 1, "componentType": 5126, "type": "VEC3"}],
        "bufferViews": [{"byteOffset": 0}],
        "meshes": [{"primitives": [{"attributes": {"POSITION": 0}}]}]
    }"#;
    let parsed = parse_gltf(text).unwrap();
    assert!(parsed.doc.normal_refs.is_empty());
    let original: Vec<u8> = (0u8..12).collect();
    let mut bin = original.clone();
    assert_eq!(flip_all_normals(&parsed.doc, &mut bin), 0);
    assert_eq!(bin, original);
}
