use mirgo_utils::flip::flip_accessor_normals;
use mirgo_utils::flip::flip_all_normals;
use mirgo_utils::gltf::Accessor;
use mirgo_utils::gltf::BufferView;
use mirgo_utils::gltf::GltfDoc;

fn accessor(buffer_view: Option<u64>, count: Option<u64>, component_type: u64, element_type: &str, byte_offset: u64) -> Accessor {
    Accessor {
        buffer_view,
        count,
        component_type,
        element_type: element_type.to_string(),
        byte_offset,
    }
}

fn single_accessor_doc(component_type: u64, element_type: &str, count: u64, stride: u64) -> GltfDoc {
    GltfDoc {
        accessors: vec![accessor(Some(0), Some(count), component_type, element_type, 0)],
        buffer_views: vec![BufferView { byte_offset: 0, byte_stride: stride }],
        normal_refs: vec![0],
    }
}

fn float_bytes(vals: &[f32]) -> Vec<u8> {
    let mut out = Vec::new();
    for v in vals {
        out.extend_from_slice(&v.to_le_bytes());
    }
    out
}

#[test]
fn flips_single_normal() {
    let doc = single_accessor_doc(5126, "VEC3", 1, 12);
    let mut bin = float_bytes(&[1.0, -2.0, 3.0]);
    let n = flip_all_normals(&doc, &mut bin);
    assert_eq!(n, 1);
    assert_eq!(bin, float_bytes(&[-1.0, 2.0, -3.0]));
}

#[test]
fn double_flip_restores_bytes() {
    let doc = single_accessor_doc(5126, "VEC3", 2, 12);
    let original = float_bytes(&[0.5, -1.25, 3.75, -0.0, 7.5, 1e-20]);
    let mut bin = original.clone();
    let first = flip_all_normals(&doc, &mut bin);
    assert_eq!(first, 2);
    assert_ne!(bin, original);
    let second = flip_all_normals(&doc, &mut bin);
    assert_eq!(second, 2);
    assert_eq!(bin, original);
}

#[test]
fn flip_toggles_exactly_the_sign_bytes() {
    // One vertex: bytes 3, 7 and 11 get their top bit toggled, nothing else
    // changes — the NaN pattern in the first component included.
    let doc = single_accessor_doc(5126, "VEC3", 1, 12);
    let original: Vec<u8> = vec![
        0x01, 0x00, 0xC0, 0x7F, 0xFF, 0xFF, 0xFF, 0xFF, 0x12, 0x34, 0x56, 0x00,
    ];
    let mut bin = original.clone();
    assert_eq!(flip_all_normals(&doc, &mut bin), 1);
    let expected: Vec<u8> = vec![
        0x01, 0x00, 0xC0, 0xFF, 0xFF, 0xFF, 0xFF, 0x7F, 0x12, 0x34, 0x56, 0x80,
    ];
    assert_eq!(bin, expected);
    assert_eq!(flip_all_normals(&doc, &mut bin), 1);
    assert_eq!(bin, original);
}

#[test]
fn duplicate_references_cancel_out() {
    // The same accessor referenced by two primitives is patched twice: the
    // bytes return to their original values, while both visits are counted.
    let doc = GltfDoc {
        accessors: vec![accessor(Some(0), Some(1), 5126, "VEC3", 0)],
        buffer_views: vec![BufferView { byte_offset: 0, byte_stride: 12 }],
        normal_refs: vec![0, 0],
    };
    let original = float_bytes(&[1.0, 2.0, 3.0]);
    let mut bin = original.clone();
    assert_eq!(flip_all_normals(&doc, &mut bin), 2);
    assert_eq!(bin, original);
}

#[test]
fn skips_non_float_accessor() {
    let doc = single_accessor_doc(5123, "VEC3", 1, 12);
    let original = float_bytes(&[1.0, 2.0, 3.0]);
    let mut bin = original.clone();
    let n = flip_all_normals(&doc, &mut bin);
    assert_eq!(n, 0);
    assert_eq!(bin, original);
}

#[test]
fn skips_non_vec3_accessor() {
    let doc = single_accessor_doc(5126, "VEC2", 1, 12);
    let original = float_bytes(&[1.0, 2.0, 3.0]);
    let mut bin = original.clone();
    let n = flip_all_normals(&doc, &mut bin);
    assert_eq!(n, 0);
    assert_eq!(bin, original);
}

#[test]
fn skips_accessor_without_buffer_view() {
    let doc = GltfDoc {
        accessors: vec![accessor(None, Some(1), 5126, "VEC3", 0)],
        buffer_views: vec![BufferView { byte_offset: 0, byte_stride: 12 }],
        normal_refs: vec![0],
    };
    let original = float_bytes(&[1.0, 2.0, 3.0]);
    let mut bin = original.clone();
    assert_eq!(flip_all_normals(&doc, &mut bin), 0);
    assert_eq!(bin, original);
}

#[test]
fn skips_missing_accessor_index() {
    let doc = GltfDoc {
        accessors: vec![accessor(Some(0), Some(1), 5126, "VEC3", 0)],
        buffer_views: vec![BufferView { byte_offset: 0, byte_stride: 12 }],
        normal_refs: vec![5],
    };
    let original = float_bytes(&[1.0, 2.0, 3.0]);
    let mut bin = original.clone();
    assert_eq!(flip_all_normals(&doc, &mut bin), 0);
    assert_eq!(bin, original);
}

#[test]
fn out_of_range_elements_skipped_others_flipped() {
    // Two normals fit in the buffer; the first accessor claims three, so its
    // third element fails the bounds check element by element, while the
    // second accessor still patches its own element.
    let doc = GltfDoc {
        accessors: vec![
            accessor(Some(0), Some(3), 5126, "VEC3", 0),
            accessor(Some(0), Some(1), 5126, "VEC3", 12),
        ],
        buffer_views: vec![BufferView { byte_offset: 0, byte_stride: 12 }],
        normal_refs: vec![0, 1],
    };
    let mut bin = float_bytes(&[1.0, 2.0, 3.0, 4.0, 5.0, 6.0]);
    let n = flip_all_normals(&doc, &mut bin);
    // The first accessor reports all three visited elements, the second one.
    assert_eq!(n, 4);
    // The first vertex was flipped once; the second twice, restoring it.
    assert_eq!(bin, float_bytes(&[-1.0, -2.0, -3.0, 4.0, 5.0, 6.0]));
}

#[test]
fn zero_normal_refs_reports_zero() {
    let doc = GltfDoc {
        accessors: vec![accessor(Some(0), Some(1), 5126, "VEC3", 0)],
        buffer_views: vec![BufferView { byte_offset: 0, byte_stride: 12 }],
        normal_refs: vec![],
    };
    let original = float_bytes(&[1.0, 2.0, 3.0]);
    let mut bin = original.clone();
    assert_eq!(flip_all_normals(&doc, &mut bin), 0);
    assert_eq!(bin, original);
}

#[test]
fn strided_normals_leave_padding_untouched() {
    // Stride 16: each vertex is 12 bytes of floats and 4 bytes of padding.
    let doc = single_accessor_doc(5126, "VEC3", 2, 16);
    let mut bin = Vec::new();
    bin.extend_from_slice(&float_bytes(&[1.0, 2.0, 3.0]));
    bin.extend_from_slice(&[0xAA, 0xBB, 0xCC, 0xDD]);
    bin.extend_from_slice(&float_bytes(&[-4.0, 5.0, -6.0]));
    bin.extend_from_slice(&[0x11, 0x22, 0x33, 0x44]);
    let n = flip_all_normals(&doc, &mut bin);
    assert_eq!(n, 2);
    let mut expected = Vec::new();
    expected.extend_from_slice(&float_bytes(&[-1.0, -2.0, -3.0]));
    expected.extend_from_slice(&[0xAA, 0xBB, 0xCC, 0xDD]);
    expected.extend_from_slice(&float_bytes(&[4.0, -5.0, 6.0]));
    expected.extend_from_slice(&[0x11, 0x22, 0x33, 0x44]);
    assert_eq!(bin, expected);
}

#[test]
fn buffer_view_offset_and_accessor_offset_add_up() {
    let doc = GltfDoc {
        accessors: vec![accessor(Some(0), Some(1), 5126, "VEC3", 4)],
        buffer_views: vec![BufferView { byte_offset: 8, byte_stride: 12 }],
        normal_refs: vec![0],
    };
    let mut bin = vec![0u8; 12];
    bin.extend_from_slice(&float_bytes(&[1.0, -1.0, 0.5]));
    let n = flip_all_normals(&doc, &mut bin);
    assert_eq!(n, 1);
    let mut expected = vec![0u8; 12];
    expected.extend_from_slice(&float_bytes(&[-1.0, 1.0, -0.5]));
    assert_eq!(bin, expected);
}

#[test]
fn single_accessor_call_reports_count() {
    let doc = single_accessor_doc(5126, "VEC3", 1, 12);
    let mut bin = float_bytes(&[1.0, -2.0, 3.0]);
    let n = flip_accessor_normals(&doc, 0, &mut bin);
    assert_eq!(n, 1);
    assert_eq!(bin, float_bytes(&[-1.0, 2.0, -3.0]));
}
