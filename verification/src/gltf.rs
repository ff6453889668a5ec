//! Plain-value model of the parts of a GLTF scene description that the
//! normal-flipping patch reads, and its verified extraction from a parsed
//! JSON document.
//!
//! A GLTF document is JSON; the model fields below mirror the entries that
//! the patch consults. Absent or ill-typed optional fields are recorded
//! with the defaults the format prescribes (a missing `byteOffset` is 0, a
//! missing `byteStride` means tightly packed VEC3 floats, 12 bytes), while
//! fields whose absence makes an accessor unusable stay `Option`. The spec
//! functions `doc_matches`, `doc_buffer_uri` and `doc_normal_refs` say,
//! over the document's `JsonData` model, exactly which model and buffer
//! path a document yields and when the run fails instead.

use vstd::prelude::*;

use crate::json;
use crate::json::json_of;
use crate::json::value_model;
use crate::json::JsonData;

verus! {

/// The GLTF component type code for 32-bit IEEE-754 floats.
pub const COMPONENT_TYPE_F32: u64 = 5126;

/// Default byte stride between two VEC3 float32 elements: tightly packed.
pub const DEFAULT_VEC3_STRIDE: u64 = 12;

/// A typed view into a buffer: which buffer view it reads, how many elements,
/// their component type and shape, and an extra byte offset.
pub struct Accessor {
    /// Index into the document's buffer views; an accessor without one is
    /// skipped by the patch.
    pub buffer_view: Option<u64>,
    /// Number of elements; an accessor without a count is skipped.
    pub count: Option<u64>,
    /// Component type code; 0 when the field is absent or not an integer.
    pub component_type: u64,
    /// Element shape, such as "VEC3"; empty when absent or not a string.
    pub element_type: String,
    /// Extra byte offset inside the buffer view; 0 when absent.
    pub byte_offset: u64,
}

/// A byte range descriptor inside the binary buffer.
pub struct BufferView {
    /// Start of the view inside the buffer; 0 when absent.
    pub byte_offset: u64,
    /// Distance in bytes between consecutive elements; 12 when absent.
    pub byte_stride: u64,
}

/// Everything the patch reads from a GLTF document: the accessor and buffer
/// view tables, and the accessor indices referenced by a `NORMAL` vertex
/// attribute of some mesh primitive, in document order.
pub struct GltfDoc {
    pub accessors: Vec<Accessor>,
    pub buffer_views: Vec<BufferView>,
    pub normal_refs: Vec<u64>,
}

/// The required GLTF field whose absence makes a run fail.
#[derive(Debug, PartialEq, Eq, Structural)]
pub enum SchemaField {
    /// The document has no `buffers` array.
    Buffers,
    /// The first buffer entry has no string `uri`.
    BufferUri,
}

/// A fatal failure of the patching run. Unusable accessors and out-of-range
/// elements are not fatal: they are skipped and the run continues.
#[derive(Debug)]
pub enum FlipError {
    /// No `.gltf` file where one was required.
    NotFound,
    /// The document text is not valid JSON; carries the parser's words.
    ParseError(String),
    /// A required GLTF field is missing.
    SchemaViolation(SchemaField),
}

/// Everything the patch needs from one GLTF document: the plain-value model
/// and the relative path of the first buffer's binary file.
pub struct ParsedGltf {
    pub doc: GltfDoc,
    pub buffer_uri: String,
}

/// The value under `key`, when the model is an object that has it.
pub open spec fn doc_field(m: JsonData, key: Seq<char>) -> Option<JsonData> {
    if m is Obj && m->Obj_0.dom().contains(key) {
        Some(m->Obj_0[key])
    } else {
        None
    }
}

/// The elements under `key`, when that field is an array.
pub open spec fn field_array(m: JsonData, key: Seq<char>) -> Option<Seq<JsonData>> {
    match doc_field(m, key) {
        Some(x) => if x is Arr {
            Some(x->Arr_0)
        } else {
            None
        },
        None => None,
    }
}

/// The u64 reading of a model value, when it is a number that has one.
pub open spec fn u64_of(m: JsonData) -> Option<u64> {
    if m is Num {
        m->Num_0
    } else {
        None
    }
}

/// The u64 reading of the field under `key`, when present.
pub open spec fn field_u64(m: JsonData, key: Seq<char>) -> Option<u64> {
    match doc_field(m, key) {
        Some(x) => u64_of(x),
        None => None,
    }
}

/// The u64 reading of the field under `key`, or `default` when the field
/// is absent or has no u64 reading.
pub open spec fn field_u64_or(m: JsonData, key: Seq<char>, default: u64) -> u64 {
    match field_u64(m, key) {
        Some(n) => n,
        None => default,
    }
}

/// The text of the field under `key`, when that field is a string.
pub open spec fn field_text(m: JsonData, key: Seq<char>) -> Option<Seq<char>> {
    match doc_field(m, key) {
        Some(x) => if x is Text {
            Some(x->Text_0)
        } else {
            None
        },
        None => None,
    }
}

/// An extracted accessor holds exactly what the document's model holds,
/// with the format's defaults for `componentType`, `type` and `byteOffset`.
pub open spec fn accessor_matches(a: Accessor, m: JsonData) -> bool {
    &&& a.buffer_view == field_u64(m, "bufferView"@)
    &&& a.count == field_u64(m, "count"@)
    &&& a.component_type == field_u64_or(m, "componentType"@, 0)
    &&& a.element_type@ == match field_text(m, "type"@) {
        Some(t) => t,
        None => Seq::<char>::empty(),
    }
    &&& a.byte_offset == field_u64_or(m, "byteOffset"@, 0)
}

/// An extracted buffer view holds exactly what the document's model holds,
/// with offset 0 and the tightly packed stride as defaults.
pub open spec fn buffer_view_matches(v: BufferView, m: JsonData) -> bool {
    &&& v.byte_offset == field_u64_or(m, "byteOffset"@, 0)
    &&& v.byte_stride == field_u64_or(m, "byteStride"@, DEFAULT_VEC3_STRIDE)
}

/// The `NORMAL` accessor index a primitive contributes: one entry when its
/// `attributes` object has a `NORMAL` field with a u64 reading, none
/// otherwise.
pub open spec fn primitive_normal_refs(p: JsonData) -> Seq<u64> {
    match doc_field(p, "attributes"@) {
        Some(attrs) => match doc_field(attrs, "NORMAL"@) {
            Some(nv) => match u64_of(nv) {
                Some(n) => seq![n],
                None => Seq::empty(),
            },
            None => Seq::empty(),
        },
        None => Seq::empty(),
    }
}

/// The `NORMAL` references of the first `n` primitives, in order.
pub open spec fn prims_normal_refs(prims: Seq<JsonData>, n: int) -> Seq<u64>
    decreases n,
{
    if n <= 0 {
        Seq::empty()
    } else {
        prims_normal_refs(prims, n - 1) + primitive_normal_refs(prims[n - 1])
    }
}

/// The `NORMAL` references of one mesh's primitives.
pub open spec fn mesh_normal_refs(mesh: JsonData) -> Seq<u64> {
    match field_array(mesh, "primitives"@) {
        Some(ps) => prims_normal_refs(ps, ps.len() as int),
        None => Seq::empty(),
    }
}

/// The `NORMAL` references of the first `n` meshes, in order.
pub open spec fn meshes_normal_refs(meshes: Seq<JsonData>, n: int) -> Seq<u64>
    decreases n,
{
    if n <= 0 {
        Seq::empty()
    } else {
        meshes_normal_refs(meshes, n - 1) + mesh_normal_refs(meshes[n - 1])
    }
}

/// Every `NORMAL` accessor reference of the document, in document order.
pub open spec fn doc_normal_refs(m: JsonData) -> Seq<u64> {
    match field_array(m, "meshes"@) {
        Some(ms) => meshes_normal_refs(ms, ms.len() as int),
        None => Seq::empty(),
    }
}

/// The extracted model holds exactly the document's accessor table, buffer
/// view table and `NORMAL` references; a missing or ill-typed table is
/// empty.
pub open spec fn doc_matches(doc: GltfDoc, m: JsonData) -> bool {
    &&& match field_array(m, "accessors"@) {
        Some(arr) => doc.accessors@.len() == arr.len() && (forall|i: int|
            0 <= i < arr.len() ==> #[trigger] accessor_matches(doc.accessors@[i], arr[i])),
        None => doc.accessors@.len() == 0,
    }
    &&& match field_array(m, "bufferViews"@) {
        Some(arr) => doc.buffer_views@.len() == arr.len() && (forall|i: int|
            0 <= i < arr.len() ==> #[trigger] buffer_view_matches(doc.buffer_views@[i], arr[i])),
        None => doc.buffer_views@.len() == 0,
    }
    &&& doc.normal_refs@ == doc_normal_refs(m)
}

/// The relative path of the first buffer's binary file: the string under
/// `buffers[0].uri`. Only the first buffer is ever consulted; `None` when
/// the array is empty or its first entry has no string `uri`.
pub open spec fn doc_buffer_uri(m: JsonData) -> Option<Seq<char>> {
    match field_array(m, "buffers"@) {
        Some(bufs) => if bufs.len() == 0 {
            None
        } else {
            field_text(bufs[0], "uri"@)
        },
        None => None,
    }
}

/// The integer under `key`, or `default` when the field is absent or not an
/// integer between 0 and u64::MAX.
fn u64_field_or(v: &serde_json::Value, key: &str, default: u64) -> (r: u64)
    ensures
        r == field_u64_or(value_model(*v), key@, default),
{
    match json::value_get(v, key) {
        Some(x) => match json::value_as_u64(x) {
            Some(n) => n,
            None => default,
        },
        None => default,
    }
}

/// The integer under `key`, when the field is present and is an integer
/// between 0 and u64::MAX.
fn opt_u64_field(v: &serde_json::Value, key: &str) -> (r: Option<u64>)
    ensures
        r == field_u64(value_model(*v), key@),
{
    match json::value_get(v, key) {
        Some(x) => json::value_as_u64(x),
        None => None,
    }
}

/// Read the fields of one accessor entry, with the format's defaults for
/// the optional ones.
fn extract_accessor(v: &serde_json::Value) -> (r: Accessor)
    ensures
        accessor_matches(r, value_model(*v)),
{
    let element_type: String = match json::value_get(v, "type") {
        Some(x) => match json::value_as_str(x) {
            Some(s) => s.to_owned(),
            None => "".to_owned(),
        },
        None => "".to_owned(),
    };
    proof {
        reveal_strlit("");
        assert(""@ =~= Seq::<char>::empty());
    }
    Accessor {
        buffer_view: opt_u64_field(v, "bufferView"),
        count: opt_u64_field(v, "count"),
        component_type: u64_field_or(v, "componentType", 0),
        element_type,
        byte_offset: u64_field_or(v, "byteOffset", 0),
    }
}

/// Read the fields of one buffer view entry, with the format's defaults.
fn extract_buffer_view(v: &serde_json::Value) -> (r: BufferView)
    ensures
        buffer_view_matches(r, value_model(*v)),
{
    BufferView {
        byte_offset: u64_field_or(v, "byteOffset", 0),
        byte_stride: u64_field_or(v, "byteStride", DEFAULT_VEC3_STRIDE),
    }
}

/// Collect the accessor table; missing or ill-typed means empty.
fn extract_accessors(root: &serde_json::Value) -> (r: Vec<Accessor>)
    ensures
        match field_array(value_model(*root), "accessors"@) {
            Some(arr) => r@.len() == arr.len() && (forall|i: int|
                0 <= i < arr.len() ==> #[trigger] accessor_matches(r@[i], arr[i])),
            None => r@.len() == 0,
        },
{
    let mut accessors: Vec<Accessor> = Vec::new();
    if let Some(av) = json::value_get(root, "accessors") {
        if let Some(arr) = json::value_as_array(av) {
            let ghost arrm = value_model(*av)->Arr_0;
            proof {
                assert(arr@.map_values(|x: serde_json::Value| value_model(x)) =~= arrm);
            }
            let mut i: usize = 0;
            while i < arr.len()
                invariant
                    i <= arr@.len(),
                    accessors@.len() == i,
                    arrm.len() == arr@.len(),
                    forall|j: int| 0 <= j < arr@.len() ==> arrm[j] == value_model(#[trigger] arr@[j]),
                    forall|j: int| 0 <= j < i ==> #[trigger] accessor_matches(accessors@[j], arrm[j]),
                decreases arr@.len() - i,
            {
                let a = extract_accessor(&arr[i]);
                accessors.push(a);
                i = i + 1;
            }
        }
    }
    accessors
}

/// Collect the buffer view table; missing or ill-typed means empty.
fn extract_buffer_views(root: &serde_json::Value) -> (r: Vec<BufferView>)
    ensures
        match field_array(value_model(*root), "bufferViews"@) {
            Some(arr) => r@.len() == arr.len() && (forall|i: int|
                0 <= i < arr.len() ==> #[trigger] buffer_view_matches(r@[i], arr[i])),
            None => r@.len() == 0,
        },
{
    let mut buffer_views: Vec<BufferView> = Vec::new();
    if let Some(bv) = json::value_get(root, "bufferViews") {
        if let Some(arr) = json::value_as_array(bv) {
            let ghost arrm = value_model(*bv)->Arr_0;
            proof {
                assert(arr@.map_values(|x: serde_json::Value| value_model(x)) =~= arrm);
            }
            let mut i: usize = 0;
            while i < arr.len()
                invariant
                    i <= arr@.len(),
                    buffer_views@.len() == i,
                    arrm.len() == arr@.len(),
                    forall|j: int| 0 <= j < arr@.len() ==> arrm[j] == value_model(#[trigger] arr@[j]),
                    forall|j: int| 0 <= j < i ==> #[trigger] buffer_view_matches(buffer_views@[j], arrm[j]),
                decreases arr@.len() - i,
            {
                let v = extract_buffer_view(&arr[i]);
                buffer_views.push(v);
                i = i + 1;
            }
        }
    }
    buffer_views
}

/// Append the `NORMAL` reference one primitive contributes, if any.
fn extract_primitive_normal_ref(prim: &serde_json::Value, refs: &mut Vec<u64>)
    ensures
        final(refs)@ == old(refs)@ + primitive_normal_refs(value_model(*prim)),
{
    let ghost pm = value_model(*prim);
    let mut pushed = false;
    if let Some(attrs) = json::value_get(prim, "attributes") {
        if let Some(nv) = json::value_get(attrs, "NORMAL") {
            if let Some(idx) = json::value_as_u64(nv) {
                refs.push(idx);
                pushed = true;
                proof {
                    assert(refs@ =~= old(refs)@ + primitive_normal_refs(pm));
                }
            }
        }
    }
    proof {
        if !pushed {
            assert(primitive_normal_refs(pm) =~= Seq::<u64>::empty());
            assert(refs@ =~= old(refs)@ + primitive_normal_refs(pm));
        }
    }
}

/// Append the `NORMAL` references of one mesh's primitives, in order.
fn extract_mesh_normal_refs(mesh: &serde_json::Value, refs: &mut Vec<u64>)
    ensures
        final(refs)@ == old(refs)@ + mesh_normal_refs(value_model(*mesh)),
{
    let ghost mm = value_model(*mesh);
    let mut walked = false;
    if let Some(pv) = json::value_get(mesh, "primitives") {
        if let Some(prims) = json::value_as_array(pv) {
            walked = true;
            let ghost psm = value_model(*pv)->Arr_0;
            proof {
                assert(prims@.map_values(|x: serde_json::Value| value_model(x)) =~= psm);
            }
            let mut p: usize = 0;
            while p < prims.len()
                invariant
                    p <= prims@.len(),
                    psm.len() == prims@.len(),
                    forall|j: int| 0 <= j < prims@.len() ==> psm[j] == value_model(
                        #[trigger] prims@[j],
                    ),
                    refs@ == old(refs)@ + prims_normal_refs(psm, p as int),
                decreases prims@.len() - p,
            {
                extract_primitive_normal_ref(&prims[p], refs);
                proof {
                    assert(refs@ =~= old(refs)@ + prims_normal_refs(psm, p as int + 1));
                }
                p = p + 1;
            }
            proof {
                assert(mesh_normal_refs(mm) == prims_normal_refs(psm, psm.len() as int));
            }
        }
    }
    proof {
        if !walked {
            assert(mesh_normal_refs(mm) =~= Seq::<u64>::empty());
            assert(refs@ =~= old(refs)@ + mesh_normal_refs(mm));
        }
    }
}

/// Collect the accessor indices that
/// `meshes[*].primitives[*].attributes.NORMAL` reference, in document
/// order.
fn extract_normal_refs(root: &serde_json::Value) -> (r: Vec<u64>)
    ensures
        r@ == doc_normal_refs(value_model(*root)),
{
    let ghost m = value_model(*root);
    let mut refs: Vec<u64> = Vec::new();
    let mut walked = false;
    if let Some(mv) = json::value_get(root, "meshes") {
        if let Some(meshes) = json::value_as_array(mv) {
            walked = true;
            let ghost msm = value_model(*mv)->Arr_0;
            proof {
                assert(meshes@.map_values(|x: serde_json::Value| value_model(x)) =~= msm);
            }
            let mut k: usize = 0;
            while k < meshes.len()
                invariant
                    k <= meshes@.len(),
                    msm.len() == meshes@.len(),
                    forall|j: int| 0 <= j < meshes@.len() ==> msm[j] == value_model(
                        #[trigger] meshes@[j],
                    ),
                    refs@ == meshes_normal_refs(msm, k as int),
                decreases meshes@.len() - k,
            {
                let ghost before = refs@;
                extract_mesh_normal_refs(&meshes[k], &mut refs);
                proof {
                    assert(refs@ =~= meshes_normal_refs(msm, k as int + 1));
                }
                k = k + 1;
            }
            proof {
                assert(doc_normal_refs(m) == meshes_normal_refs(msm, msm.len() as int));
            }
        }
    }
    proof {
        if !walked {
            assert(doc_normal_refs(m) =~= Seq::<u64>::empty());
        }
    }
    refs
}

/// Build the model of a parsed document: the tables and `NORMAL`
/// references that `doc_matches` describes. A missing or ill-typed table is
/// read as empty: its absence then makes every reference ineligible,
/// rather than failing the run.
fn extract_doc(root: &serde_json::Value) -> (r: GltfDoc)
    ensures
        doc_matches(r, value_model(*root)),
{
    GltfDoc {
        accessors: extract_accessors(root),
        buffer_views: extract_buffer_views(root),
        normal_refs: extract_normal_refs(root),
    }
}

/// Parse GLTF text and build the model of it that the patch reads.
///
/// The run fails here exactly as the format demands: `ParseError` if and
/// only if the text is not JSON that the parser accepts, `SchemaViolation`
/// if and only if the `buffers` array or the first buffer's string `uri`
/// is missing. On success the returned buffer path and tables are exactly
/// what the document's model holds.
pub fn parse_gltf(text: &str) -> (r: Result<ParsedGltf, FlipError>)
    ensures
        match r {
            Ok(p) => json_of(text@) is Some && {
                let m = json_of(text@)->Some_0;
                &&& field_array(m, "buffers"@) is Some
                &&& doc_buffer_uri(m) is Some
                &&& p.buffer_uri@ == doc_buffer_uri(m)->Some_0
                &&& doc_matches(p.doc, m)
            },
            Err(e) => match e {
                FlipError::ParseError(_) => json_of(text@) is None,
                FlipError::SchemaViolation(f) => json_of(text@) is Some && {
                    let m = json_of(text@)->Some_0;
                    match f {
                        SchemaField::Buffers => field_array(m, "buffers"@) is None,
                        SchemaField::BufferUri => field_array(m, "buffers"@) is Some
                            && doc_buffer_uri(m) is None,
                    }
                },
                FlipError::NotFound => false,
            },
        },
{
    let root = match json::parse_value(text) {
        Ok(v) => v,
        Err(e) => {
            return Err(FlipError::ParseError(json::parse_error_message(&e)));
        },
    };
    let ghost m = value_model(root);
    let buffer_uri: String = match json::value_get(&root, "buffers") {
        Some(bv) => match json::value_as_array(bv) {
            Some(arr) => {
                let ghost bufsm = value_model(*bv)->Arr_0;
                proof {
                    assert(arr@.map_values(|x: serde_json::Value| value_model(x)) =~= bufsm);
                }
                if arr.len() == 0 {
                    return Err(FlipError::SchemaViolation(SchemaField::BufferUri));
                }
                match json::value_get(&arr[0], "uri") {
                    Some(uv) => match json::value_as_str(uv) {
                        Some(s) => s.to_owned(),
                        None => {
                            return Err(FlipError::SchemaViolation(SchemaField::BufferUri));
                        },
                    },
                    None => {
                        return Err(FlipError::SchemaViolation(SchemaField::BufferUri));
                    },
                }
            },
            None => {
                return Err(FlipError::SchemaViolation(SchemaField::Buffers));
            },
        },
        None => {
            return Err(FlipError::SchemaViolation(SchemaField::Buffers));
        },
    };
    let doc = extract_doc(&root);
    Ok(ParsedGltf { doc, buffer_uri })
}

} // verus!
