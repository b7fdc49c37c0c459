//! The declarative glTF descriptor: the object graph the JSON chunk encodes,
//! with every cross-entity reference still a raw, unvalidated array index.
//!
//! The JSON text itself is decoded by serde_json behind the trusted items
//! below. What the decoder produced is mirrored by a ghost model,
//! [`JsonModel`]: `spec_decoded_json` names the model of the decode result as
//! a function of the bytes alone, and each trusted accessor states over the
//! model exactly what its serde_json call returns. Everything that maps the
//! decoded values onto the descriptor — field names, defaults for absent
//! fields, shape checks — is then verified against the model:
//! `parse_descriptor` succeeds exactly when the decoded document is a
//! well-shaped descriptor, and its result is pinned field by field.

use vstd::prelude::*;
use vstd::string::StringExecFns;

use crate::error::{FormatError, GltfError, UnsupportedFeature};

verus! {

#[verifier::external_type_specification]
#[verifier::external_body]
pub struct ExValue(serde_json::Value);

#[verifier::external_type_specification]
#[verifier::external_body]
pub struct ExError(serde_json::Error);

/// Ghost mirror of one decoded JSON value. A number carries the value
/// serde_json holds as an unsigned 64-bit integer, when it does, and the
/// decimal token its compact rendering prints; an object is the final map of
/// its members (a repeated key keeps the member the decoder kept).
pub enum JsonModel {
    Null,
    Bool(bool),
    Num { int_value: Option<u64>, token: Seq<char> },
    Text(Seq<char>),
    Arr(Seq<JsonModel>),
    Obj(Map<Seq<char>, JsonModel>),
}

// The model of a decoded serde_json value. This is the contents name the
// trusted accessors below share: each states its result over it.
pub uninterp spec fn value_model(v: serde_json::Value) -> JsonModel;

// The model of what serde_json::from_slice decodes the bytes to, `None` when
// decoding fails. The decode is a function of the bytes alone.
pub uninterp spec fn spec_decoded_json(bytes: Seq<u8>) -> Option<JsonModel>;

/// Relies on serde_json::from_slice::<Value>: decodes UTF-8 JSON text into a
/// generic JSON value, deterministically in the bytes alone, or fails with a
/// parse diagnostic.
#[verifier::external_body]
fn parse_value(bytes: &[u8]) -> (r: Result<serde_json::Value, serde_json::Error>)
    ensures
        match r {
            Ok(v) => spec_decoded_json(bytes@) == Some(value_model(v)),
            Err(_) => spec_decoded_json(bytes@) is None,
        },
{
    serde_json::from_slice(bytes)
}

/// Relies on serde_json::Error's Display: renders the parse diagnostic.
#[verifier::external_body]
fn error_message(e: &serde_json::Error) -> String {
    e.to_string()
}

/// Relies on serde_json::Value::is_object.
#[verifier::external_body]
fn value_is_object(v: &serde_json::Value) -> (r: bool)
    ensures
        r == value_model(*v) is Obj,
{
    v.is_object()
}

/// Relies on serde_json::Value::get with a string key: the member of an
/// object under that key, or None when absent or when `v` is not an object.
#[verifier::external_body]
fn value_get<'a>(v: &'a serde_json::Value, key: &str) -> (r: Option<&'a serde_json::Value>)
    ensures
        match value_model(*v) {
            JsonModel::Obj(m) => {
                &&& (m.contains_key(key@) ==> (r matches Some(w) && value_model(*w) == m[key@]))
                &&& (!m.contains_key(key@) ==> r is None)
            },
            _ => r is None,
        },
{
    v.get(key)
}

/// Relies on serde_json::Value::as_object and the member iterator of
/// serde_json::Map: every member of an object exactly once, as owned copies;
/// a map holds each key at most once.
#[verifier::external_body]
fn value_object_entries(v: &serde_json::Value) -> (r: Option<Vec<(String, serde_json::Value)>>)
    ensures
        match value_model(*v) {
            JsonModel::Obj(m) => r matches Some(entries) && {
                &&& m.dom().finite()
                &&& forall|i: int|
                    0 <= i < entries@.len() ==> m.dom().contains((#[trigger] entries@[i]).0@)
                        && value_model(entries@[i].1) == m[entries@[i].0@]
                &&& forall|i: int, k: int|
                    0 <= i < k < entries@.len() ==> (#[trigger] entries@[i]).0@ != (
                    #[trigger] entries@[k]).0@
                &&& forall|k: Seq<char>|
                    #[trigger] m.dom().contains(k) ==> exists|i: int|
                        0 <= i < entries@.len() && (#[trigger] entries@[i]).0@ == k
            },
            _ => r is None,
        },
{
    v.as_object().map(|m| m.iter().map(|(k, val)| (k.clone(), val.clone())).collect())
}

/// Relies on serde_json::Value::as_array.
#[verifier::external_body]
fn value_as_array<'a>(v: &'a serde_json::Value) -> (r: Option<&'a Vec<serde_json::Value>>)
    ensures
        match value_model(*v) {
            JsonModel::Arr(s) => r matches Some(items) && items@.len() == s.len() && (forall|
                i: int,
            |
                0 <= i < s.len() ==> value_model(#[trigger] items@[i]) == s[i]),
            _ => r is None,
        },
{
    v.as_array()
}

/// Relies on serde_json::Value::as_u64: the value of a number that serde_json
/// holds as an unsigned 64-bit integer, None otherwise.
#[verifier::external_body]
fn value_as_u64(v: &serde_json::Value) -> (r: Option<u64>)
    ensures
        r == (match value_model(*v) {
            JsonModel::Num { int_value, .. } => int_value,
            _ => None::<u64>,
        }),
{
    v.as_u64()
}

/// Relies on serde_json::Value::as_str.
#[verifier::external_body]
fn value_as_str<'a>(v: &'a serde_json::Value) -> (r: Option<&'a str>)
    ensures
        match value_model(*v) {
            JsonModel::Text(s) => r matches Some(t) && t@ == s,
            _ => r is None,
        },
{
    v.as_str()
}

/// Relies on serde_json::Value::as_bool.
#[verifier::external_body]
fn value_as_bool(v: &serde_json::Value) -> (r: Option<bool>)
    ensures
        r == (match value_model(*v) {
            JsonModel::Bool(b) => Some(b),
            _ => None::<bool>,
        }),
{
    v.as_bool()
}

/// Relies on serde_json::Value::is_number.
#[verifier::external_body]
fn value_is_number(v: &serde_json::Value) -> (r: bool)
    ensures
        r == value_model(*v) is Num,
{
    v.is_number()
}

/// Relies on serde_json::Value's Display: renders the value as compact JSON
/// text; for a number value, that is its decimal token.
#[verifier::external_body]
fn value_render(v: &serde_json::Value) -> (r: String)
    ensures
        value_model(*v) matches JsonModel::Num { token, .. } ==> r@ == token,
{
    v.to_string()
}

/// The member of an object model under `name`.
pub open spec fn m_field(j: JsonModel, name: Seq<char>) -> Option<JsonModel> {
    match j {
        JsonModel::Obj(m) => if m.contains_key(name) {
            Some(m[name])
        } else {
            None
        },
        _ => None,
    }
}

/// The unsigned 64-bit value of a number model, when it has one.
pub open spec fn m_u64(j: JsonModel) -> Option<u64> {
    match j {
        JsonModel::Num { int_value, .. } => int_value,
        _ => None,
    }
}

pub open spec fn m_bool(j: JsonModel) -> Option<bool> {
    match j {
        JsonModel::Bool(b) => Some(b),
        _ => None,
    }
}

pub open spec fn m_text(j: JsonModel) -> Option<Seq<char>> {
    match j {
        JsonModel::Text(s) => Some(s),
        _ => None,
    }
}

pub open spec fn m_arr(j: JsonModel) -> Option<Seq<JsonModel>> {
    match j {
        JsonModel::Arr(s) => Some(s),
        _ => None,
    }
}

/// A raw table index: an unsigned integer that fits the platform's sizes.
pub open spec fn m_index_ok(j: JsonModel) -> bool {
    m_u64(j) matches Some(x) && x <= usize::MAX
}

pub open spec fn m_index(j: JsonModel) -> usize {
    m_u64(j)->Some_0 as usize
}

pub open spec fn m_req_u64_ok(j: JsonModel, name: Seq<char>) -> bool {
    m_field(j, name) matches Some(f) && m_u64(f) is Some
}

pub open spec fn m_req_u64(j: JsonModel, name: Seq<char>) -> u64 {
    m_u64(m_field(j, name)->Some_0)->Some_0
}

pub open spec fn m_req_index_ok(j: JsonModel, name: Seq<char>) -> bool {
    m_field(j, name) matches Some(f) && m_index_ok(f)
}

pub open spec fn m_req_index(j: JsonModel, name: Seq<char>) -> usize {
    m_index(m_field(j, name)->Some_0)
}

pub open spec fn m_opt_u64_ok(j: JsonModel, name: Seq<char>) -> bool {
    match m_field(j, name) {
        None => true,
        Some(f) => m_u64(f) is Some,
    }
}

pub open spec fn m_opt_u64_or_zero(j: JsonModel, name: Seq<char>) -> u64 {
    match m_field(j, name) {
        None => 0,
        Some(f) => m_u64(f)->Some_0,
    }
}

pub open spec fn m_opt_index_ok(j: JsonModel, name: Seq<char>) -> bool {
    match m_field(j, name) {
        None => true,
        Some(f) => m_index_ok(f),
    }
}

pub open spec fn m_opt_bool_ok(j: JsonModel, name: Seq<char>) -> bool {
    match m_field(j, name) {
        None => true,
        Some(f) => m_bool(f) is Some,
    }
}

pub open spec fn m_opt_bool_or_false(j: JsonModel, name: Seq<char>) -> bool {
    match m_field(j, name) {
        None => false,
        Some(f) => m_bool(f)->Some_0,
    }
}

/// The member under `name` is absent, or an array of exactly `expected`
/// numbers.
pub open spec fn m_tokens_ok(j: JsonModel, name: Seq<char>, expected: int) -> bool {
    match m_field(j, name) {
        None => true,
        Some(f) => m_arr(f) matches Some(s) && s.len() == expected && (forall|i: int|
            0 <= i < s.len() ==> (#[trigger] s[i]) is Num),
    }
}

/// `o` carries exactly the decimal tokens of the number array under `name`,
/// or is `None` when the member is absent.
pub open spec fn m_tokens_match(o: Option<Vec<String>>, j: JsonModel, name: Seq<char>) -> bool {
    match m_field(j, name) {
        None => o is None,
        Some(f) => o matches Some(ts) && m_arr(f) matches Some(s) && ts@.len() == s.len() && (forall|
            i: int,
        |
            0 <= i < s.len() ==> ((#[trigger] s[i]) matches JsonModel::Num { token, .. } && ts@[i]@
                == token)),
    }
}

/// The member under `name` is absent, or an array of raw table indices.
pub open spec fn m_index_array_ok(j: JsonModel, name: Seq<char>) -> bool {
    match m_field(j, name) {
        None => true,
        Some(f) => m_arr(f) matches Some(s) && (forall|i: int|
            0 <= i < s.len() ==> m_index_ok(#[trigger] s[i])),
    }
}

/// `v` holds exactly the indices of the array under `name`, empty when the
/// member is absent.
pub open spec fn m_index_array_matches(v: Seq<usize>, j: JsonModel, name: Seq<char>) -> bool {
    match m_field(j, name) {
        None => v.len() == 0,
        Some(f) => m_arr(f) matches Some(s) && v.len() == s.len() && (forall|i: int|
            0 <= i < s.len() ==> v[i] == m_index(#[trigger] s[i])),
    }
}

/// Raw index of an accessor in the descriptor's accessor table.
#[derive(Debug, Clone, Copy, PartialEq, Eq, Structural)]
pub struct AccessorRef(pub usize);

/// Raw index of a buffer in the descriptor's buffer table.
#[derive(Debug, Clone, Copy, PartialEq, Eq, Structural)]
pub struct BufferRef(pub usize);

/// Raw index of a buffer view in the descriptor's buffer-view table.
#[derive(Debug, Clone, Copy, PartialEq, Eq, Structural)]
pub struct BufferViewRef(pub usize);

/// Raw index of a mesh in the descriptor's mesh table.
#[derive(Debug, Clone, Copy, PartialEq, Eq, Structural)]
pub struct MeshRef(pub usize);

/// Raw index of a node in the descriptor's node table.
#[derive(Debug, Clone, Copy, PartialEq, Eq, Structural)]
pub struct NodeRef(pub usize);

/// A typed, counted view into a buffer view, with its type codes still raw.
#[derive(Debug, Clone)]
pub struct Accessor {
    pub buffer_view: BufferViewRef,
    pub byte_offset: u64,
    pub component_type: u64,
    pub normalized: bool,
    pub count: u64,
    pub element_type: String,
}

/// A binary blob declaration; the data itself lives in the GLB binary chunk.
#[derive(Debug, Clone)]
pub struct Buffer {
    pub byte_length: u64,
}

/// A contiguous byte range within a buffer.
#[derive(Debug, Clone)]
pub struct BufferView {
    pub buffer: BufferRef,
    pub byte_offset: u64,
    pub byte_length: u64,
}

/// The mapping from attribute name to accessor reference of one primitive,
/// every attribute kept.
#[derive(Debug, Clone)]
pub struct MeshAttributes {
    pub entries: Vec<(String, AccessorRef)>,
}

/// One drawable surface within a mesh.
#[derive(Debug, Clone)]
pub struct MeshPrimitive {
    pub attributes: MeshAttributes,
    pub indices: Option<AccessorRef>,
}

/// A renderable object composed of primitives.
#[derive(Debug, Clone)]
pub struct Mesh {
    pub primitives: Vec<MeshPrimitive>,
}

/// A scene-graph node. The transform fields hold the raw decimal tokens of
/// the JSON numbers; composing them into a matrix is numeric work this crate
/// leaves to its caller.
#[derive(Debug, Clone)]
pub struct Node {
    pub children: Vec<NodeRef>,
    pub matrix: Option<Vec<String>>,
    pub translation: Option<Vec<String>>,
    pub rotation: Option<Vec<String>>,
    pub scale: Option<Vec<String>>,
    pub mesh: Option<MeshRef>,
}

/// A named root set of nodes.
#[derive(Debug, Clone)]
pub struct Scene {
    pub nodes: Vec<NodeRef>,
}

/// The whole declarative graph of one glTF descriptor. Every top-level table
/// defaults to empty when its array is absent from the JSON.
#[derive(Debug, Clone)]
pub struct Gltf {
    pub accessors: Vec<Accessor>,
    pub buffers: Vec<Buffer>,
    pub buffer_views: Vec<BufferView>,
    pub meshes: Vec<Mesh>,
    pub nodes: Vec<Node>,
    pub scenes: Vec<Scene>,
}

pub open spec fn spec_accessor_ok(j: JsonModel) -> bool {
    &&& m_req_index_ok(j, "bufferView"@)
    &&& m_opt_u64_ok(j, "byteOffset"@)
    &&& m_req_u64_ok(j, "componentType"@)
    &&& m_opt_bool_ok(j, "normalized"@)
    &&& m_req_u64_ok(j, "count"@)
    &&& (m_field(j, "type"@) matches Some(f) && m_text(f) is Some)
}

pub open spec fn spec_accessor_matches(a: Accessor, j: JsonModel) -> bool {
    &&& a.buffer_view.0 == m_req_index(j, "bufferView"@)
    &&& a.byte_offset == m_opt_u64_or_zero(j, "byteOffset"@)
    &&& a.component_type == m_req_u64(j, "componentType"@)
    &&& a.normalized == m_opt_bool_or_false(j, "normalized"@)
    &&& a.count == m_req_u64(j, "count"@)
    &&& a.element_type@ == m_text(m_field(j, "type"@)->Some_0)->Some_0
}

/// A buffer declaration this loader accepts: no external `uri`, a byte
/// length.
pub open spec fn spec_buffer_ok(j: JsonModel) -> bool {
    &&& m_field(j, "uri"@) is None
    &&& m_req_u64_ok(j, "byteLength"@)
}

pub open spec fn spec_buffer_matches(b: Buffer, j: JsonModel) -> bool {
    b.byte_length == m_req_u64(j, "byteLength"@)
}

pub open spec fn spec_buffer_view_ok(j: JsonModel) -> bool {
    &&& m_req_index_ok(j, "buffer"@)
    &&& m_opt_u64_ok(j, "byteOffset"@)
    &&& m_req_u64_ok(j, "byteLength"@)
}

pub open spec fn spec_buffer_view_matches(bv: BufferView, j: JsonModel) -> bool {
    &&& bv.buffer.0 == m_req_index(j, "buffer"@)
    &&& bv.byte_offset == m_opt_u64_or_zero(j, "byteOffset"@)
    &&& bv.byte_length == m_req_u64(j, "byteLength"@)
}

/// An attributes member: an object whose every member is a raw index.
pub open spec fn spec_attributes_ok(j: JsonModel) -> bool {
    match j {
        JsonModel::Obj(m) => m.dom().finite() && (forall|k: Seq<char>|
            #[trigger] m.dom().contains(k) ==> m_index_ok(m[k])),
        _ => false,
    }
}

/// The entry list carries exactly the members of the attributes object: each
/// entry a member, no name twice, every member present.
pub open spec fn spec_attributes_match(
    entries: Seq<(String, AccessorRef)>,
    m: Map<Seq<char>, JsonModel>,
) -> bool {
    &&& (forall|i: int|
        0 <= i < entries.len() ==> m.dom().contains((#[trigger] entries[i]).0@) && entries[i].1.0
            == m_index(m[entries[i].0@]))
    &&& (forall|i: int, k: int|
        0 <= i < k < entries.len() ==> (#[trigger] entries[i]).0@ != (#[trigger] entries[k]).0@)
    &&& (forall|k: Seq<char>|
        #[trigger] m.dom().contains(k) ==> exists|i: int|
            0 <= i < entries.len() && (#[trigger] entries[i]).0@ == k)
}

pub open spec fn spec_primitive_ok(j: JsonModel) -> bool {
    &&& (m_field(j, "attributes"@) matches Some(a) && spec_attributes_ok(a))
    &&& m_opt_index_ok(j, "indices"@)
}

pub open spec fn spec_primitive_matches(p: MeshPrimitive, j: JsonModel) -> bool {
    &&& (m_field(j, "attributes"@) matches Some(a) && a matches JsonModel::Obj(m)
        && spec_attributes_match(p.attributes.entries@, m))
    &&& (match m_field(j, "indices"@) {
        None => p.indices is None,
        Some(f) => p.indices matches Some(r) && r.0 == m_index(f),
    })
}

pub open spec fn spec_mesh_ok(j: JsonModel) -> bool {
    m_field(j, "primitives"@) matches Some(f) && m_arr(f) matches Some(s) && (forall|i: int|
        0 <= i < s.len() ==> spec_primitive_ok(#[trigger] s[i]))
}

pub open spec fn spec_mesh_matches(mesh: Mesh, j: JsonModel) -> bool {
    m_field(j, "primitives"@) matches Some(f) && m_arr(f) matches Some(s)
        && mesh.primitives@.len() == s.len() && (forall|i: int|
        0 <= i < s.len() ==> spec_primitive_matches(mesh.primitives@[i], #[trigger] s[i]))
}

pub open spec fn spec_node_ok(j: JsonModel) -> bool {
    &&& m_index_array_ok(j, "children"@)
    &&& m_tokens_ok(j, "matrix"@, 16)
    &&& m_tokens_ok(j, "translation"@, 3)
    &&& m_tokens_ok(j, "rotation"@, 4)
    &&& m_tokens_ok(j, "scale"@, 3)
    &&& m_opt_index_ok(j, "mesh"@)
}

pub open spec fn spec_node_matches(n: Node, j: JsonModel) -> bool {
    &&& m_index_array_matches(n.children@.map_values(|r: NodeRef| r.0), j, "children"@)
    &&& m_tokens_match(n.matrix, j, "matrix"@)
    &&& m_tokens_match(n.translation, j, "translation"@)
    &&& m_tokens_match(n.rotation, j, "rotation"@)
    &&& m_tokens_match(n.scale, j, "scale"@)
    &&& (match m_field(j, "mesh"@) {
        None => n.mesh is None,
        Some(f) => n.mesh matches Some(r) && r.0 == m_index(f),
    })
}

/// A scene must declare its root nodes.
pub open spec fn spec_scene_ok(j: JsonModel) -> bool {
    m_field(j, "nodes"@) is Some && m_index_array_ok(j, "nodes"@)
}

pub open spec fn spec_scene_matches(s: Scene, j: JsonModel) -> bool {
    m_field(j, "nodes"@) is Some && m_index_array_matches(
        s.nodes@.map_values(|r: NodeRef| r.0),
        j,
        "nodes"@,
    )
}

/// A top-level table member: absent, or an array.
pub open spec fn m_table_ok(j: JsonModel, name: Seq<char>) -> bool {
    match m_field(j, name) {
        None => true,
        Some(f) => m_arr(f) is Some,
    }
}

/// The entries of a top-level table, empty when the member is absent.
pub open spec fn m_table(j: JsonModel, name: Seq<char>) -> Seq<JsonModel> {
    match m_field(j, name) {
        None => Seq::empty(),
        Some(f) => m_arr(f)->Some_0,
    }
}

/// The decoded document is a well-shaped descriptor: an object whose six
/// tables, where present, are arrays of well-shaped entries.
pub open spec fn spec_descriptor_ok(j: JsonModel) -> bool {
    &&& j is Obj
    &&& m_table_ok(j, "accessors"@) && (forall|i: int|
        0 <= i < m_table(j, "accessors"@).len() ==> spec_accessor_ok(
            #[trigger] m_table(j, "accessors"@)[i],
        ))
    &&& m_table_ok(j, "buffers"@) && (forall|i: int|
        0 <= i < m_table(j, "buffers"@).len() ==> spec_buffer_ok(
            #[trigger] m_table(j, "buffers"@)[i],
        ))
    &&& m_table_ok(j, "bufferViews"@) && (forall|i: int|
        0 <= i < m_table(j, "bufferViews"@).len() ==> spec_buffer_view_ok(
            #[trigger] m_table(j, "bufferViews"@)[i],
        ))
    &&& m_table_ok(j, "meshes"@) && (forall|i: int|
        0 <= i < m_table(j, "meshes"@).len() ==> spec_mesh_ok(#[trigger] m_table(j, "meshes"@)[i]))
    &&& m_table_ok(j, "nodes"@) && (forall|i: int|
        0 <= i < m_table(j, "nodes"@).len() ==> spec_node_ok(#[trigger] m_table(j, "nodes"@)[i]))
    &&& m_table_ok(j, "scenes"@) && (forall|i: int|
        0 <= i < m_table(j, "scenes"@).len() ==> spec_scene_ok(#[trigger] m_table(j, "scenes"@)[i]))
}

/// The descriptor carries exactly what the decoded document declares, table
/// by table and field by field.
pub open spec fn spec_descriptor_matches(d: Gltf, j: JsonModel) -> bool {
    &&& d.accessors@.len() == m_table(j, "accessors"@).len() && (forall|i: int|
        0 <= i < d.accessors@.len() ==> spec_accessor_matches(
            d.accessors@[i],
            #[trigger] m_table(j, "accessors"@)[i],
        ))
    &&& d.buffers@.len() == m_table(j, "buffers"@).len() && (forall|i: int|
        0 <= i < d.buffers@.len() ==> spec_buffer_matches(
            d.buffers@[i],
            #[trigger] m_table(j, "buffers"@)[i],
        ))
    &&& d.buffer_views@.len() == m_table(j, "bufferViews"@).len() && (forall|i: int|
        0 <= i < d.buffer_views@.len() ==> spec_buffer_view_matches(
            d.buffer_views@[i],
            #[trigger] m_table(j, "bufferViews"@)[i],
        ))
    &&& d.meshes@.len() == m_table(j, "meshes"@).len() && (forall|i: int|
        0 <= i < d.meshes@.len() ==> spec_mesh_matches(
            d.meshes@[i],
            #[trigger] m_table(j, "meshes"@)[i],
        ))
    &&& d.nodes@.len() == m_table(j, "nodes"@).len() && (forall|i: int|
        0 <= i < d.nodes@.len() ==> spec_node_matches(
            d.nodes@[i],
            #[trigger] m_table(j, "nodes"@)[i],
        ))
    &&& d.scenes@.len() == m_table(j, "scenes"@).len() && (forall|i: int|
        0 <= i < d.scenes@.len() ==> spec_scene_matches(
            d.scenes@[i],
            #[trigger] m_table(j, "scenes"@)[i],
        ))
}

/// A shape error naming the field that did not fit.
fn schema_error(key: &str) -> (r: GltfError)
    ensures
        r matches GltfError::Format(FormatError::Schema(s)) && s@ == key@,
{
    GltfError::Format(FormatError::Schema(key.to_owned()))
}

/// The member under `key`, which must be a non-negative 64-bit integer.
fn req_u64(v: &serde_json::Value, key: &str) -> (r: Result<u64, GltfError>)
    ensures
        match r {
            Ok(x) => m_req_u64_ok(value_model(*v), key@) && x == m_req_u64(value_model(*v), key@),
            Err(e) => !m_req_u64_ok(value_model(*v), key@) && (e matches GltfError::Format(
                FormatError::Schema(s),
            ) && s@ == key@),
        },
{
    match value_get(v, key) {
        None => Err(schema_error(key)),
        Some(f) => match value_as_u64(f) {
            None => Err(schema_error(key)),
            Some(x) => Ok(x),
        },
    }
}

/// The member under `key` as an integer, or `None` when the member is absent.
fn opt_u64(v: &serde_json::Value, key: &str) -> (r: Result<Option<u64>, GltfError>)
    ensures
        match r {
            Ok(o) => m_opt_u64_ok(value_model(*v), key@) && (match m_field(value_model(*v), key@) {
                None => o is None,
                Some(f) => o == m_u64(f),
            }),
            Err(e) => !m_opt_u64_ok(value_model(*v), key@) && e is Format,
        },
{
    match value_get(v, key) {
        None => Ok(None),
        Some(f) => match value_as_u64(f) {
            None => Err(schema_error(key)),
            Some(x) => Ok(Some(x)),
        },
    }
}

/// A raw index, which must also fit the platform's table sizes.
fn u64_to_index(x: u64, key: &str) -> (r: Result<usize, GltfError>)
    ensures
        x <= usize::MAX ==> (r matches Ok(i) && i == x),
        x > usize::MAX ==> (r matches Err(e) && e is Format),
{
    if x <= usize::MAX as u64 {
        Ok(x as usize)
    } else {
        Err(schema_error(key))
    }
}

/// The member under `key`, which must be an array of exactly `expected`
/// numbers; returns their decimal tokens.
#[verifier::loop_isolation(false)]
fn number_tokens(v: &serde_json::Value, key: &str, expected: usize) -> (r: Result<
    Option<Vec<String>>,
    GltfError,
>)
    ensures
        match r {
            Ok(o) => m_tokens_ok(value_model(*v), key@, expected as int) && m_tokens_match(
                o,
                value_model(*v),
                key@,
            ),
            Err(e) => !m_tokens_ok(value_model(*v), key@, expected as int) && e is Format,
        },
{
    match value_get(v, key) {
        None => Ok(None),
        Some(f) => match value_as_array(f) {
            None => Err(schema_error(key)),
            Some(items) => {
                let ghost s = m_arr(value_model(*f))->Some_0;
                if items.len() != expected {
                    return Err(schema_error(key));
                }
                let mut tokens: Vec<String> = Vec::new();
                let mut i: usize = 0;
                while i < items.len()
                    invariant
                        tokens@.len() == i,
                        i <= items@.len(),
                        items@.len() == s.len(),
                        forall|q: int|
                            0 <= q < items@.len() ==> value_model(#[trigger] items@[q]) == s[q],
                        forall|q: int|
                            0 <= q < i ==> ((#[trigger] s[q]) matches JsonModel::Num { token, .. }
                                && tokens@[q]@ == token),
                    decreases items@.len() - i,
                {
                    let item = &items[i];
                    if !value_is_number(item) {
                        return Err(schema_error(key));
                    }
                    tokens.push(value_render(item));
                    i = i + 1;
                }
                Ok(Some(tokens))
            },
        },
    }
}

/// The member under `key`, which must be an array of raw indices.
#[verifier::loop_isolation(false)]
fn index_array(v: &serde_json::Value, key: &str) -> (r: Result<Vec<usize>, GltfError>)
    ensures
        match r {
            Ok(out) => m_index_array_ok(value_model(*v), key@) && m_index_array_matches(
                out@,
                value_model(*v),
                key@,
            ),
            Err(e) => !m_index_array_ok(value_model(*v), key@) && e is Format,
        },
{
    match value_get(v, key) {
        None => Ok(Vec::new()),
        Some(f) => match value_as_array(f) {
            None => Err(schema_error(key)),
            Some(items) => {
                let ghost s = m_arr(value_model(*f))->Some_0;
                let mut out: Vec<usize> = Vec::new();
                let mut i: usize = 0;
                while i < items.len()
                    invariant
                        out@.len() == i,
                        i <= items@.len(),
                        items@.len() == s.len(),
                        forall|q: int|
                            0 <= q < items@.len() ==> value_model(#[trigger] items@[q]) == s[q],
                        forall|q: int| 0 <= q < i ==> m_index_ok(#[trigger] s[q]),
                        forall|q: int| 0 <= q < i ==> out@[q] == m_index(#[trigger] s[q]),
                    decreases items@.len() - i,
                {
                    let item = &items[i];
                    match value_as_u64(item) {
                        None => {
                            return Err(schema_error(key));
                        },
                        Some(x) => {
                            out.push(u64_to_index(x, key)?);
                        },
                    }
                    i = i + 1;
                }
                Ok(out)
            },
        },
    }
}

fn parse_accessor(v: &serde_json::Value) -> (r: Result<Accessor, GltfError>)
    ensures
        match r {
            Ok(a) => spec_accessor_ok(value_model(*v)) && spec_accessor_matches(
                a,
                value_model(*v),
            ),
            Err(e) => !spec_accessor_ok(value_model(*v)) && e is Format,
        },
{
    let bv = req_u64(v, "bufferView")?;
    let buffer_view = u64_to_index(bv, "bufferView")?;
    let byte_offset = match opt_u64(v, "byteOffset")? {
        None => 0u64,
        Some(x) => x,
    };
    let component_type = req_u64(v, "componentType")?;
    let normalized = match value_get(v, "normalized") {
        None => false,
        Some(f) => match value_as_bool(f) {
            None => {
                return Err(schema_error("normalized"));
            },
            Some(b) => b,
        },
    };
    let count = req_u64(v, "count")?;
    let element_type = match value_get(v, "type") {
        None => {
            return Err(schema_error("type"));
        },
        Some(f) => match value_as_str(f) {
            None => {
                return Err(schema_error("type"));
            },
            Some(s) => s.to_owned(),
        },
    };
    Ok(
        Accessor {
            buffer_view: BufferViewRef(buffer_view),
            byte_offset,
            component_type,
            normalized,
            count,
            element_type,
        },
    )
}

fn parse_buffer(v: &serde_json::Value) -> (r: Result<Buffer, GltfError>)
    ensures
        match r {
            Ok(b) => spec_buffer_ok(value_model(*v)) && spec_buffer_matches(b, value_model(*v)),
            Err(e) => !spec_buffer_ok(value_model(*v)) && (e is Format || e is Unsupported),
        },
{
    if let Some(_uri) = value_get(v, "uri") {
        // Only data carried in the GLB binary chunk is supported; a buffer
        // that points at an external file is not approximated.
        return Err(GltfError::Unsupported(UnsupportedFeature::ExternalBufferData));
    }
    let byte_length = req_u64(v, "byteLength")?;
    Ok(Buffer { byte_length })
}

fn parse_buffer_view(v: &serde_json::Value) -> (r: Result<BufferView, GltfError>)
    ensures
        match r {
            Ok(bv) => spec_buffer_view_ok(value_model(*v)) && spec_buffer_view_matches(
                bv,
                value_model(*v),
            ),
            Err(e) => !spec_buffer_view_ok(value_model(*v)) && e is Format,
        },
{
    let b = req_u64(v, "buffer")?;
    let buffer = u64_to_index(b, "buffer")?;
    let byte_offset = match opt_u64(v, "byteOffset")? {
        None => 0u64,
        Some(x) => x,
    };
    let byte_length = req_u64(v, "byteLength")?;
    Ok(BufferView { buffer: BufferRef(buffer), byte_offset, byte_length })
}

#[verifier::loop_isolation(false)]
fn parse_primitive(v: &serde_json::Value) -> (r: Result<MeshPrimitive, GltfError>)
    ensures
        match r {
            Ok(p) => spec_primitive_ok(value_model(*v)) && spec_primitive_matches(
                p,
                value_model(*v),
            ),
            Err(e) => !spec_primitive_ok(value_model(*v)) && e is Format,
        },
{
    let attrs_value = match value_get(v, "attributes") {
        None => {
            return Err(schema_error("attributes"));
        },
        Some(a) => a,
    };
    let raw_entries = match value_object_entries(attrs_value) {
        None => {
            return Err(schema_error("attributes"));
        },
        Some(es) => es,
    };
    let ghost am = (match value_model(*attrs_value) {
        JsonModel::Obj(m) => m,
        _ => Map::empty(),
    });
    let mut entries: Vec<(String, AccessorRef)> = Vec::new();
    let mut i: usize = 0;
    while i < raw_entries.len()
        invariant
            entries@.len() == i,
            i <= raw_entries@.len(),
            value_model(*attrs_value) == JsonModel::Obj(am),
            forall|q: int|
                0 <= q < raw_entries@.len() ==> am.dom().contains((#[trigger] raw_entries@[q]).0@)
                    && value_model(raw_entries@[q].1) == am[raw_entries@[q].0@],
            forall|q: int, w: int|
                0 <= q < w < raw_entries@.len() ==> (#[trigger] raw_entries@[q]).0@ != (
                #[trigger] raw_entries@[w]).0@,
            forall|q: int|
                0 <= q < i ==> (#[trigger] entries@[q]).0@ == raw_entries@[q].0@ && m_index_ok(
                    am[entries@[q].0@],
                ) && entries@[q].1.0 == m_index(am[entries@[q].0@]),
        decreases raw_entries@.len() - i,
    {
        let raw = &raw_entries[i];
        let x = match value_as_u64(&raw.1) {
            None => {
                proof {
                    assert(!spec_attributes_ok(value_model(*attrs_value)));
                }
                return Err(schema_error("attributes"));
            },
            Some(x) => x,
        };
        let idx = match u64_to_index(x, "attributes") {
            Ok(idx) => idx,
            Err(e) => {
                proof {
                    assert(!m_index_ok(am[raw_entries@[i as int].0@]));
                    assert(!spec_attributes_ok(value_model(*attrs_value)));
                }
                return Err(e);
            },
        };
        entries.push((raw.0.clone(), AccessorRef(idx)));
        i = i + 1;
    }
    proof {
        assert forall|k: Seq<char>| #[trigger] am.dom().contains(k) implies exists|q: int|
            0 <= q < entries@.len() && (#[trigger] entries@[q]).0@ == k by {
            let w = choose|w: int|
                0 <= w < raw_entries@.len() && (#[trigger] raw_entries@[w]).0@ == k;
            assert(entries@[w].0@ == k);
        }
        assert(spec_attributes_ok(value_model(*attrs_value)));
        assert(spec_attributes_match(entries@, am));
    }
    let indices = match opt_u64(v, "indices")? {
        None => None,
        Some(x) => Some(AccessorRef(u64_to_index(x, "indices")?)),
    };
    Ok(MeshPrimitive { attributes: MeshAttributes { entries }, indices })
}

#[verifier::loop_isolation(false)]
fn parse_mesh(v: &serde_json::Value) -> (r: Result<Mesh, GltfError>)
    ensures
        match r {
            Ok(mh) => spec_mesh_ok(value_model(*v)) && spec_mesh_matches(mh, value_model(*v)),
            Err(e) => !spec_mesh_ok(value_model(*v)) && e is Format,
        },
{
    match value_get(v, "primitives") {
        None => Err(schema_error("primitives")),
        Some(f) => match value_as_array(f) {
            None => Err(schema_error("primitives")),
            Some(items) => {
                let ghost s = m_arr(value_model(*f))->Some_0;
                let mut primitives: Vec<MeshPrimitive> = Vec::new();
                let mut i: usize = 0;
                while i < items.len()
                    invariant
                        primitives@.len() == i,
                        i <= items@.len(),
                        items@.len() == s.len(),
                        forall|q: int|
                            0 <= q < items@.len() ==> value_model(#[trigger] items@[q]) == s[q],
                        forall|q: int| 0 <= q < i ==> spec_primitive_ok(#[trigger] s[q]),
                        forall|q: int|
                            0 <= q < i ==> spec_primitive_matches(
                                primitives@[q],
                                #[trigger] s[q],
                            ),
                    decreases items@.len() - i,
                {
                    primitives.push(parse_primitive(&items[i])?);
                    i = i + 1;
                }
                Ok(Mesh { primitives })
            },
        },
    }
}

fn parse_node(v: &serde_json::Value) -> (r: Result<Node, GltfError>)
    ensures
        match r {
            Ok(n) => spec_node_ok(value_model(*v)) && spec_node_matches(n, value_model(*v)),
            Err(e) => !spec_node_ok(value_model(*v)) && e is Format,
        },
{
    let child_indices = index_array(v, "children")?;
    let mut children: Vec<NodeRef> = Vec::new();
    let mut i: usize = 0;
    while i < child_indices.len()
        invariant
            children@.len() == i,
            i <= child_indices@.len(),
            forall|q: int| 0 <= q < i ==> (#[trigger] children@[q]).0 == child_indices@[q],
        decreases child_indices@.len() - i,
    {
        children.push(NodeRef(child_indices[i]));
        i = i + 1;
    }
    proof {
        assert(children@.map_values(|r: NodeRef| r.0) =~= child_indices@);
    }
    let matrix = number_tokens(v, "matrix", 16)?;
    let translation = number_tokens(v, "translation", 3)?;
    let rotation = number_tokens(v, "rotation", 4)?;
    let scale = number_tokens(v, "scale", 3)?;
    let mesh = match opt_u64(v, "mesh")? {
        None => None,
        Some(x) => Some(MeshRef(u64_to_index(x, "mesh")?)),
    };
    Ok(Node { children, matrix, translation, rotation, scale, mesh })
}

fn parse_scene(v: &serde_json::Value) -> (r: Result<Scene, GltfError>)
    ensures
        match r {
            Ok(s) => spec_scene_ok(value_model(*v)) && spec_scene_matches(s, value_model(*v)),
            Err(e) => !spec_scene_ok(value_model(*v)) && e is Format,
        },
{
    if let None = value_get(v, "nodes") {
        return Err(schema_error("nodes"));
    }
    let node_indices = index_array(v, "nodes")?;
    let mut nodes: Vec<NodeRef> = Vec::new();
    let mut i: usize = 0;
    while i < node_indices.len()
        invariant
            nodes@.len() == i,
            i <= node_indices@.len(),
            forall|q: int| 0 <= q < i ==> (#[trigger] nodes@[q]).0 == node_indices@[q],
        decreases node_indices@.len() - i,
    {
        nodes.push(NodeRef(node_indices[i]));
        i = i + 1;
    }
    proof {
        assert(nodes@.map_values(|r: NodeRef| r.0) =~= node_indices@);
    }
    Ok(Scene { nodes })
}

/// Deserialises the JSON chunk into the declarative descriptor. Succeeds
/// exactly when the bytes decode to a well-shaped descriptor document:
/// every top-level table defaults to empty when absent, unknown fields are
/// ignored, and the result carries field for field what the document
/// declares; malformed JSON fails with the parser's diagnostic, a value of
/// the wrong shape with the field that did not fit.
#[verifier::loop_isolation(false)]
pub fn parse_descriptor(bytes: &[u8]) -> (r: Result<Gltf, GltfError>)
    ensures
        match spec_decoded_json(bytes@) {
            None => r matches Err(e) && e matches GltfError::Format(FormatError::Json(_)),
            Some(j) => {
                &&& (spec_descriptor_ok(j) ==> (r matches Ok(d) && spec_descriptor_matches(
                    d,
                    j,
                )))
                &&& (!spec_descriptor_ok(j) ==> (r matches Err(e) && (e is Format
                    || e is Unsupported)))
            },
        },
{
    let root = match parse_value(bytes) {
        Err(e) => {
            return Err(GltfError::Format(FormatError::Json(error_message(&e))));
        },
        Ok(v) => v,
    };
    let ghost j = value_model(root);
    if !value_is_object(&root) {
        return Err(schema_error("root"));
    }
    let mut accessors: Vec<Accessor> = Vec::new();
    if let Some(f) = value_get(&root, "accessors") {
        match value_as_array(f) {
            None => {
                return Err(schema_error("accessors"));
            },
            Some(items) => {
                let ghost s = m_table(j, "accessors"@);
                let mut i: usize = 0;
                while i < items.len()
                    invariant
                        accessors@.len() == i,
                        i <= items@.len(),
                        items@.len() == s.len(),
                        forall|q: int|
                            0 <= q < items@.len() ==> value_model(#[trigger] items@[q]) == s[q],
                        forall|q: int| 0 <= q < i ==> spec_accessor_ok(#[trigger] s[q]),
                        forall|q: int|
                            0 <= q < i ==> spec_accessor_matches(accessors@[q], #[trigger] s[q]),
                    decreases items@.len() - i,
                {
                    accessors.push(parse_accessor(&items[i])?);
                    i = i + 1;
                }
            },
        }
    }
    let mut buffers: Vec<Buffer> = Vec::new();
    if let Some(f) = value_get(&root, "buffers") {
        match value_as_array(f) {
            None => {
                return Err(schema_error("buffers"));
            },
            Some(items) => {
                let ghost s = m_table(j, "buffers"@);
                let mut i: usize = 0;
                while i < items.len()
                    invariant
                        buffers@.len() == i,
                        i <= items@.len(),
                        items@.len() == s.len(),
                        forall|q: int|
                            0 <= q < items@.len() ==> value_model(#[trigger] items@[q]) == s[q],
                        forall|q: int| 0 <= q < i ==> spec_buffer_ok(#[trigger] s[q]),
                        forall|q: int|
                            0 <= q < i ==> spec_buffer_matches(buffers@[q], #[trigger] s[q]),
                    decreases items@.len() - i,
                {
                    buffers.push(parse_buffer(&items[i])?);
                    i = i + 1;
                }
            },
        }
    }
    let mut buffer_views: Vec<BufferView> = Vec::new();
    if let Some(f) = value_get(&root, "bufferViews") {
        match value_as_array(f) {
            None => {
                return Err(schema_error("bufferViews"));
            },
            Some(items) => {
                let ghost s = m_table(j, "bufferViews"@);
                let mut i: usize = 0;
                while i < items.len()
                    invariant
                        buffer_views@.len() == i,
                        i <= items@.len(),
                        items@.len() == s.len(),
                        forall|q: int|
                            0 <= q < items@.len() ==> value_model(#[trigger] items@[q]) == s[q],
                        forall|q: int| 0 <= q < i ==> spec_buffer_view_ok(#[trigger] s[q]),
                        forall|q: int|
                            0 <= q < i ==> spec_buffer_view_matches(
                                buffer_views@[q],
                                #[trigger] s[q],
                            ),
                    decreases items@.len() - i,
                {
                    buffer_views.push(parse_buffer_view(&items[i])?);
                    i = i + 1;
                }
            },
        }
    }
    let mut meshes: Vec<Mesh> = Vec::new();
    if let Some(f) = value_get(&root, "meshes") {
        match value_as_array(f) {
            None => {
                return Err(schema_error("meshes"));
            },
            Some(items) => {
                let ghost s = m_table(j, "meshes"@);
                let mut i: usize = 0;
                while i < items.len()
                    invariant
                        meshes@.len() == i,
                        i <= items@.len(),
                        items@.len() == s.len(),
                        forall|q: int|
                            0 <= q < items@.len() ==> value_model(#[trigger] items@[q]) == s[q],
                        forall|q: int| 0 <= q < i ==> spec_mesh_ok(#[trigger] s[q]),
                        forall|q: int|
                            0 <= q < i ==> spec_mesh_matches(meshes@[q], #[trigger] s[q]),
                    decreases items@.len() - i,
                {
                    meshes.push(parse_mesh(&items[i])?);
                    i = i + 1;
                }
            },
        }
    }
    let mut nodes: Vec<Node> = Vec::new();
    if let Some(f) = value_get(&root, "nodes") {
        match value_as_array(f) {
            None => {
                return Err(schema_error("nodes"));
            },
            Some(items) => {
                let ghost s = m_table(j, "nodes"@);
                let mut i: usize = 0;
                while i < items.len()
                    invariant
                        nodes@.len() == i,
                        i <= items@.len(),
                        items@.len() == s.len(),
                        forall|q: int|
                            0 <= q < items@.len() ==> value_model(#[trigger] items@[q]) == s[q],
                        forall|q: int| 0 <= q < i ==> spec_node_ok(#[trigger] s[q]),
                        forall|q: int|
                            0 <= q < i ==> spec_node_matches(nodes@[q], #[trigger] s[q]),
                    decreases items@.len() - i,
                {
                    nodes.push(parse_node(&items[i])?);
                    i = i + 1;
                }
            },
        }
    }
    let mut scenes: Vec<Scene> = Vec::new();
    if let Some(f) = value_get(&root, "scenes") {
        match value_as_array(f) {
            None => {
                return Err(schema_error("scenes"));
            },
            Some(items) => {
                let ghost s = m_table(j, "scenes"@);
                let mut i: usize = 0;
                while i < items.len()
                    invariant
                        scenes@.len() == i,
                        i <= items@.len(),
                        items@.len() == s.len(),
                        forall|q: int|
                            0 <= q < items@.len() ==> value_model(#[trigger] items@[q]) == s[q],
                        forall|q: int| 0 <= q < i ==> spec_scene_ok(#[trigger] s[q]),
                        forall|q: int|
                            0 <= q < i ==> spec_scene_matches(scenes@[q], #[trigger] s[q]),
                    decreases items@.len() - i,
                {
                    scenes.push(parse_scene(&items[i])?);
                    i = i + 1;
                }
            },
        }
    }
    Ok(Gltf { accessors, buffers, buffer_views, meshes, nodes, scenes })
}

} // verus!
