//! The resolved glTF aggregate: typed component/element tables, the owned
//! entity collections, eager index-reference resolution, and byte-exact
//! accessor data extraction with lazily enforced bounds.

use vstd::prelude::*;
use vstd::slice::slice_subrange;
use vstd::string::StringExecFns;

use crate::error::{BoundsError, FormatError, GltfError, UnsupportedFeature};
use crate::glb::{spec_get_chunk, spec_parse_glb, GlbChunkType, GlbChunks};
use crate::glb::{lemma_chunk_data_in_stream, lemma_get_chunk_is_member};
use crate::json;

verus! {

/// The six defined glTF component types of accessor data.
#[derive(Debug, Clone, Copy, PartialEq, Eq, Structural)]
pub enum AccessorComponentType {
    I8,
    U8,
    I16,
    U16,
    U32,
    F32,
}

impl AccessorComponentType {
    /// Byte width of one component.
    pub open spec fn spec_size(self) -> int {
        match self {
            AccessorComponentType::I8 => 1,
            AccessorComponentType::U8 => 1,
            AccessorComponentType::I16 => 2,
            AccessorComponentType::U16 => 2,
            AccessorComponentType::U32 => 4,
            AccessorComponentType::F32 => 4,
        }
    }

    /// The component type a glTF numeric code stands for, if any.
    pub open spec fn spec_from_code(code: u64) -> Option<AccessorComponentType> {
        if code == 5120 {
            Some(AccessorComponentType::I8)
        } else if code == 5121 {
            Some(AccessorComponentType::U8)
        } else if code == 5122 {
            Some(AccessorComponentType::I16)
        } else if code == 5123 {
            Some(AccessorComponentType::U16)
        } else if code == 5125 {
            Some(AccessorComponentType::U32)
        } else if code == 5126 {
            Some(AccessorComponentType::F32)
        } else {
            None
        }
    }

    /// Byte width of one component: 1 for the 8-bit types, 2 for the 16-bit
    /// types, 4 for the 32-bit types.
    pub fn get_size(&self) -> (s: usize)
        ensures
            s as int == self.spec_size(),
    {
        match self {
            AccessorComponentType::I8 => 1,
            AccessorComponentType::U8 => 1,
            AccessorComponentType::I16 => 2,
            AccessorComponentType::U16 => 2,
            AccessorComponentType::U32 => 4,
            AccessorComponentType::F32 => 4,
        }
    }

    /// Decodes a glTF component-type code; any code outside the six defined
    /// ones is a format error carrying that code.
    pub fn from_code(code: u64) -> (r: Result<AccessorComponentType, GltfError>)
        ensures
            r == match AccessorComponentType::spec_from_code(code) {
                Some(t) => Ok::<AccessorComponentType, GltfError>(t),
                None => Err::<AccessorComponentType, GltfError>(
                    GltfError::Format(FormatError::BadComponentType(code)),
                ),
            },
    {
        if code == 5120 {
            Ok(AccessorComponentType::I8)
        } else if code == 5121 {
            Ok(AccessorComponentType::U8)
        } else if code == 5122 {
            Ok(AccessorComponentType::I16)
        } else if code == 5123 {
            Ok(AccessorComponentType::U16)
        } else if code == 5125 {
            Ok(AccessorComponentType::U32)
        } else if code == 5126 {
            Ok(AccessorComponentType::F32)
        } else {
            Err(GltfError::Format(FormatError::BadComponentType(code)))
        }
    }
}

/// The seven defined glTF element types of an accessor.
#[derive(Debug, Clone, Copy, PartialEq, Eq, Structural)]
pub enum AccessorElementType {
    Scalar,
    Vec2,
    Vec3,
    Vec4,
    Mat2,
    Mat3,
    Mat4,
}

impl AccessorElementType {
    /// Number of components in one element.
    pub open spec fn spec_size(self) -> int {
        match self {
            AccessorElementType::Scalar => 1,
            AccessorElementType::Vec2 => 2,
            AccessorElementType::Vec3 => 3,
            AccessorElementType::Vec4 => 4,
            AccessorElementType::Mat2 => 4,
            AccessorElementType::Mat3 => 9,
            AccessorElementType::Mat4 => 16,
        }
    }

    /// The element type a glTF type string stands for, if any.
    pub open spec fn spec_from_name(s: Seq<char>) -> Option<AccessorElementType> {
        if s == "SCALAR"@ {
            Some(AccessorElementType::Scalar)
        } else if s == "VEC2"@ {
            Some(AccessorElementType::Vec2)
        } else if s == "VEC3"@ {
            Some(AccessorElementType::Vec3)
        } else if s == "VEC4"@ {
            Some(AccessorElementType::Vec4)
        } else if s == "MAT2"@ {
            Some(AccessorElementType::Mat2)
        } else if s == "MAT3"@ {
            Some(AccessorElementType::Mat3)
        } else if s == "MAT4"@ {
            Some(AccessorElementType::Mat4)
        } else {
            None
        }
    }

    /// Number of components in one element: 1, 2, 3, 4, 4, 9 and 16 for
    /// SCALAR, VEC2, VEC3, VEC4, MAT2, MAT3 and MAT4.
    pub fn get_size(&self) -> (s: usize)
        ensures
            s as int == self.spec_size(),
    {
        match self {
            AccessorElementType::Scalar => 1,
            AccessorElementType::Vec2 => 2,
            AccessorElementType::Vec3 => 3,
            AccessorElementType::Vec4 => 4,
            AccessorElementType::Mat2 => 4,
            AccessorElementType::Mat3 => 9,
            AccessorElementType::Mat4 => 16,
        }
    }

    /// Decodes a glTF element-type string; any string outside the seven
    /// defined ones is a format error carrying that string.
    pub fn from_name(s: &String) -> (r: Result<AccessorElementType, GltfError>)
        ensures
            AccessorElementType::spec_from_name(s@) matches Some(t) ==> r == Ok::<
                AccessorElementType,
                GltfError,
            >(t),
            AccessorElementType::spec_from_name(s@) is None ==> (r matches Err(e) && e matches
                GltfError::Format(FormatError::BadElementType(b)) && b@ == s@),
    {
        if *s == String::from_str("SCALAR") {
            Ok(AccessorElementType::Scalar)
        } else if *s == String::from_str("VEC2") {
            Ok(AccessorElementType::Vec2)
        } else if *s == String::from_str("VEC3") {
            Ok(AccessorElementType::Vec3)
        } else if *s == String::from_str("VEC4") {
            Ok(AccessorElementType::Vec4)
        } else if *s == String::from_str("MAT2") {
            Ok(AccessorElementType::Mat2)
        } else if *s == String::from_str("MAT3") {
            Ok(AccessorElementType::Mat3)
        } else if *s == String::from_str("MAT4") {
            Ok(AccessorElementType::Mat4)
        } else {
            Err(GltfError::Format(FormatError::BadElementType(s.clone())))
        }
    }
}

/// Resolved reference to an accessor of the aggregate.
#[derive(Debug, Clone, Copy, PartialEq, Eq, Structural)]
pub struct AccessorRef(pub usize);

/// Resolved reference to the buffer of the aggregate.
#[derive(Debug, Clone, Copy, PartialEq, Eq, Structural)]
pub struct BufferRef(pub usize);

/// Resolved reference to a buffer view of the aggregate.
#[derive(Debug, Clone, Copy, PartialEq, Eq, Structural)]
pub struct BufferViewRef(pub usize);

/// Resolved reference to a mesh of the aggregate.
#[derive(Debug, Clone, Copy, PartialEq, Eq, Structural)]
pub struct MeshRef(pub usize);

/// Resolved reference to a node of the aggregate.
#[derive(Debug, Clone, Copy, PartialEq, Eq, Structural)]
pub struct NodeRef(pub usize);

/// A typed, counted view into a buffer view.
#[derive(Debug, Clone)]
pub struct Accessor {
    pub buffer_view: BufferViewRef,
    pub offset: u64,
    pub component_type: AccessorComponentType,
    pub normalized: bool,
    pub count: u64,
    pub element_type: AccessorElementType,
}

/// The single binary blob backing all accessors: its declared length and the
/// raw bytes of the GLB binary chunk.
#[derive(Debug, Clone)]
pub struct Buffer {
    pub length: u64,
    pub data: Vec<u8>,
}

/// A contiguous byte range within the buffer.
#[derive(Debug, Clone)]
pub struct BufferView {
    pub buffer: BufferRef,
    pub offset: u64,
    pub length: u64,
}

/// The mapping from attribute name to accessor reference of one primitive,
/// every attribute kept.
#[derive(Debug, Clone)]
pub struct MeshAttributes {
    pub entries: Vec<(String, AccessorRef)>,
}

/// The accessor of the first entry named POSITION, if the mapping holds one.
pub open spec fn spec_attr_position(entries: Seq<(String, AccessorRef)>) -> Option<AccessorRef>
    decreases entries.len(),
{
    if entries.len() == 0 {
        None
    } else if entries[0].0@ == "POSITION"@ {
        Some(entries[0].1)
    } else {
        spec_attr_position(entries.drop_first())
    }
}

impl MeshAttributes {
    /// The accessor of the POSITION attribute, when the mapping holds one.
    pub fn position(&self) -> (r: Option<AccessorRef>)
        ensures
            r == spec_attr_position(self.entries@),
    {
        let n = self.entries.len();
        let mut i: usize = 0;
        proof {
            assert(self.entries@.skip(0) =~= self.entries@);
        }
        while i < n
            invariant
                0 <= i <= n,
                n == self.entries@.len(),
                spec_attr_position(self.entries@) == spec_attr_position(
                    self.entries@.skip(i as int),
                ),
            decreases n - i,
        {
            if self.entries[i].0 == String::from_str("POSITION") {
                proof {
                    assert(self.entries@.skip(i as int)[0] == self.entries@[i as int]);
                }
                return Some(self.entries[i].1);
            }
            proof {
                assert(self.entries@.skip(i as int)[0] == self.entries@[i as int]);
                assert(self.entries@.skip(i as int).drop_first() =~= self.entries@.skip(
                    i as int + 1,
                ));
            }
            i = i + 1;
        }
        proof {
            assert(self.entries@.skip(i as int) =~= Seq::<(String, AccessorRef)>::empty());
        }
        None
    }
}

/// One drawable surface within a mesh.
#[derive(Debug, Clone)]
pub struct MeshPrimitive {
    pub attributes: MeshAttributes,
    pub indices: Option<AccessorRef>,
}

/// A renderable object composed of primitives.
#[derive(Debug, Clone)]
pub struct Mesh {
    pub primitives: Vec<MeshPrimitive>,
}

/// A node's local transform. An explicit matrix is used verbatim
/// (column-major) and overrides the individual components entirely; otherwise
/// the transform is composed from the components that are present, applying
/// scale, then rotation, then translation, in that fixed order. The entries
/// are the raw decimal tokens of the JSON numbers; turning them into numbers
/// is the caller's numeric work.
#[derive(Debug, Clone)]
pub enum Transform {
    Matrix(Vec<String>),
    Composed {
        translation: Option<Vec<String>>,
        rotation: Option<Vec<String>>,
        scale: Option<Vec<String>>,
    },
}

/// A scene-graph node.
#[derive(Debug, Clone)]
pub struct Node {
    pub children: Vec<NodeRef>,
    pub transform: Transform,
    pub mesh: Option<MeshRef>,
}

/// A root set of nodes.
#[derive(Debug, Clone)]
pub struct Scene {
    pub nodes: Vec<NodeRef>,
}

/// The fully resolved aggregate: one owning collection per entity kind, with
/// every cross-entity relation a typed index into its table. Built once by
/// `load` and read-only thereafter.
#[derive(Debug, Clone)]
pub struct Gltf {
    pub accessors: Vec<Accessor>,
    pub buffer: Buffer,
    pub buffer_views: Vec<BufferView>,
    pub meshes: Vec<Mesh>,
    pub nodes: Vec<Node>,
    pub scenes: Vec<Scene>,
}

/// The resolved accessor a declarative one maps to, when both its type codes
/// are defined.
pub open spec fn spec_resolve_accessor(a: json::Accessor) -> Option<Accessor> {
    match (
        AccessorComponentType::spec_from_code(a.component_type),
        AccessorElementType::spec_from_name(a.element_type@),
    ) {
        (Some(c), Some(e)) => Some(
            Accessor {
                buffer_view: BufferViewRef(a.buffer_view.0),
                offset: a.byte_offset,
                component_type: c,
                normalized: a.normalized,
                count: a.count,
                element_type: e,
            },
        ),
        _ => None,
    }
}

/// The error an unresolvable declarative accessor produces: its component
/// code when that is undefined, else its element-type string.
pub open spec fn spec_accessor_error(a: json::Accessor, e: GltfError) -> bool {
    if AccessorComponentType::spec_from_code(a.component_type) is None {
        e == GltfError::Format(FormatError::BadComponentType(a.component_type))
    } else {
        e matches GltfError::Format(FormatError::BadElementType(b)) && b@ == a.element_type@
    }
}

/// Resolution of the accessor table fails at index `i` with error `e`:
/// every earlier accessor resolves, this one does not, and `e` names its
/// first undefined type code.
pub open spec fn spec_accessors_fail_at(d: json::Gltf, i: int, e: GltfError) -> bool {
    &&& 0 <= i < d.accessors@.len()
    &&& spec_resolve_accessor(d.accessors@[i]) is None
    &&& forall|j: int| 0 <= j < i ==> spec_resolve_accessor(#[trigger] d.accessors@[j]) is Some
    &&& spec_accessor_error(d.accessors@[i], e)
}

/// The resolved primitive carries exactly the declarative one: the same
/// attribute names and raw indices, wrapped in typed references.
pub open spec fn spec_primitive_resolved(r: MeshPrimitive, p: json::MeshPrimitive) -> bool {
    &&& r.attributes.entries@.len() == p.attributes.entries@.len()
    &&& (forall|i: int|
        0 <= i < p.attributes.entries@.len() ==> (#[trigger] r.attributes.entries@[i]).0@
            == p.attributes.entries@[i].0@ && r.attributes.entries@[i].1.0
            == p.attributes.entries@[i].1.0)
    &&& (match (r.indices, p.indices) {
        (Option::None, Option::None) => true,
        (Option::Some(a), Option::Some(b)) => a.0 == b.0,
        _ => false,
    })
}

/// Whether a resolved transform is the one a declarative node asks for: its
/// matrix verbatim when present, the individual components otherwise.
pub open spec fn spec_transform_matches(t: Transform, n: json::Node) -> bool {
    match n.matrix {
        Some(m) => t matches Transform::Matrix(v) && v.deep_view() == m.deep_view(),
        None => t matches Transform::Composed { translation, rotation, scale }
            && spec_opt_tokens_match(translation, n.translation) && spec_opt_tokens_match(
            rotation,
            n.rotation,
        ) && spec_opt_tokens_match(scale, n.scale),
    }
}

pub open spec fn spec_opt_tokens_match(a: Option<Vec<String>>, b: Option<Vec<String>>) -> bool {
    match (a, b) {
        (Option::None, Option::None) => true,
        (Option::Some(x), Option::Some(y)) => x.deep_view() == y.deep_view(),
        _ => false,
    }
}

/// Whether a resolved node carries exactly what a declarative one declares.
pub open spec fn spec_node_matches(r: Node, n: json::Node) -> bool {
    &&& r.children@.len() == n.children@.len()
    &&& forall|k: int|
        0 <= k < n.children@.len() ==> r.children@[k].0 == #[trigger] n.children@[k].0
    &&& spec_transform_matches(r.transform, n)
    &&& match (r.mesh, n.mesh) {
        (Option::None, Option::None) => true,
        (Option::Some(a), Option::Some(b)) => a.0 == b.0,
        _ => false,
    }
}

/// An exact byte-for-byte copy of a token vector.
fn clone_tokens(v: &Vec<String>) -> (r: Vec<String>)
    ensures
        r.deep_view() == v.deep_view(),
{
    let mut out: Vec<String> = Vec::new();
    let mut i: usize = 0;
    while i < v.len()
        invariant
            i <= v@.len(),
            out@.len() == i,
            forall|j: int| 0 <= j < i ==> out@[j]@ == #[trigger] v@[j]@,
        decreases v@.len() - i,
    {
        out.push(v[i].clone());
        i = i + 1;
    }
    proof {
        assert(out.deep_view() =~= v.deep_view());
    }
    out
}

fn clone_opt_tokens(v: &Option<Vec<String>>) -> (r: Option<Vec<String>>)
    ensures
        spec_opt_tokens_match(r, *v),
{
    match v {
        None => None,
        Some(ts) => Some(clone_tokens(ts)),
    }
}

/// Resolves a node's local transform: an explicit matrix is taken verbatim
/// and the translation, rotation and scale fields are then ignored entirely;
/// otherwise the components that are present are kept for composition in
/// scale-rotate-translate order.
pub fn resolve_transform(n: &json::Node) -> (t: Transform)
    ensures
        spec_transform_matches(t, *n),
{
    match &n.matrix {
        Some(m) => Transform::Matrix(clone_tokens(m)),
        None => Transform::Composed {
            translation: clone_opt_tokens(&n.translation),
            rotation: clone_opt_tokens(&n.rotation),
            scale: clone_opt_tokens(&n.scale),
        },
    }
}

/// An explicit matrix overrides the individual transform components
/// entirely: two nodes that declare the same matrix resolve to the same
/// transform, whatever their translation, rotation and scale fields hold.
pub proof fn lemma_matrix_overrides_trs(n1: json::Node, n2: json::Node, t1: Transform, t2: Transform)
    requires
        n1.matrix is Some,
        n2.matrix is Some,
        n1.matrix->0.deep_view() == n2.matrix->0.deep_view(),
        spec_transform_matches(t1, n1),
        spec_transform_matches(t2, n2),
    ensures
        t1 matches Transform::Matrix(v1) && t2 matches Transform::Matrix(v2) && v1.deep_view()
            == v2.deep_view(),
{
}

/// The byte length an accessor describes: component byte-width times element
/// component-count times element count.
pub open spec fn spec_accessor_length(a: Accessor) -> int {
    a.component_type.spec_size() * a.element_type.spec_size() * a.count as int
}

/// The exact byte range an accessor of the aggregate describes, or the bounds
/// error that its dangling reference or overlong range surfaces as.
pub open spec fn spec_accessor_data(g: Gltf, i: int) -> Result<Seq<u8>, GltfError> {
    if !(0 <= i < g.accessors@.len()) {
        Err(GltfError::OutOfBounds(BoundsError::AccessorIndex { index: i as usize }))
    } else {
        let a = g.accessors@[i];
        if a.buffer_view.0 >= g.buffer_views@.len() {
            Err(GltfError::OutOfBounds(BoundsError::BufferViewIndex { index: a.buffer_view.0 }))
        } else {
            let bv = g.buffer_views@[a.buffer_view.0 as int];
            let off = a.offset as int + bv.offset as int;
            let len = spec_accessor_length(a);
            if off + len > g.buffer.data@.len() {
                Err(GltfError::OutOfBounds(BoundsError::DataRange { accessor: i as usize }))
            } else {
                Ok(g.buffer.data@.subrange(off, off + len))
            }
        }
    }
}

/// The aggregate is the resolution of the descriptor against the binary
/// chunk's bytes: the buffer carries those bytes under the declared length,
/// and every table corresponds entry for entry.
pub open spec fn spec_resolved_from(g: Gltf, d: json::Gltf, bin: Seq<u8>) -> bool {
    &&& d.buffers@.len() == 1
    &&& g.buffer.length == d.buffers@[0].byte_length
    &&& g.buffer.data@ == bin
    &&& g.accessors@.len() == d.accessors@.len()
    &&& (forall|i: int|
        0 <= i < d.accessors@.len() ==> spec_resolve_accessor(#[trigger] d.accessors@[i]) == Some(
            g.accessors@[i],
        ))
    &&& g.buffer_views@.len() == d.buffer_views@.len()
    &&& (forall|i: int|
        0 <= i < d.buffer_views@.len() ==> {
            &&& (#[trigger] g.buffer_views@[i]).buffer.0 == d.buffer_views@[i].buffer.0
            &&& g.buffer_views@[i].offset == d.buffer_views@[i].byte_offset
            &&& g.buffer_views@[i].length == d.buffer_views@[i].byte_length
        })
    &&& g.meshes@.len() == d.meshes@.len()
    &&& (forall|m: int|
        0 <= m < d.meshes@.len() ==> {
            &&& (#[trigger] g.meshes@[m]).primitives@.len() == d.meshes@[m].primitives@.len()
            &&& (forall|p: int|
                0 <= p < d.meshes@[m].primitives@.len() ==> spec_primitive_resolved(
                    #[trigger] g.meshes@[m].primitives@[p],
                    d.meshes@[m].primitives@[p],
                ))
        })
    &&& g.nodes@.len() == d.nodes@.len()
    &&& (forall|i: int|
        0 <= i < d.nodes@.len() ==> spec_node_matches(#[trigger] g.nodes@[i], d.nodes@[i]))
    &&& g.scenes@.len() == d.scenes@.len()
    &&& (forall|i: int|
        0 <= i < d.scenes@.len() ==> {
            &&& (#[trigger] g.scenes@[i]).nodes@.len() == d.scenes@[i].nodes@.len()
            &&& (forall|k: int|
                0 <= k < d.scenes@[i].nodes@.len() ==> (#[trigger] g.scenes@[i].nodes@[k]).0
                    == d.scenes@[i].nodes@[k].0)
        })
}

/// A well-shaped declarative accessor's type codes are both defined.
pub open spec fn spec_accessor_resolvable(j: json::JsonModel) -> bool
    recommends
        json::spec_accessor_ok(j),
{
    &&& AccessorComponentType::spec_from_code(json::m_req_u64(j, "componentType"@)) is Some
    &&& AccessorElementType::spec_from_name(
        json::m_text(json::m_field(j, "type"@)->Some_0)->Some_0,
    ) is Some
}

/// A well-shaped decoded descriptor resolves exactly when it declares one
/// buffer and every accessor's component and element type codes are defined.
pub open spec fn spec_resolvable(j: json::JsonModel) -> bool
    recommends
        json::spec_descriptor_ok(j),
{
    &&& json::m_table(j, "buffers"@).len() == 1
    &&& (forall|i: int|
        0 <= i < json::m_table(j, "accessors"@).len() ==> spec_accessor_resolvable(
            #[trigger] json::m_table(j, "accessors"@)[i],
        ))
}

/// The aggregate is the resolution of some descriptor that carries exactly
/// the decoded document, against the binary chunk's bytes. The descriptor's
/// plain fields are pinned by the document, so this pins the aggregate.
pub open spec fn spec_loaded_matches(g: Gltf, j: json::JsonModel, bin: Seq<u8>) -> bool {
    exists|d: json::Gltf|
        #[trigger] json::spec_descriptor_matches(d, j) && spec_resolved_from(g, d, bin)
}

/// A descriptor that carries a well-shaped document resolves exactly when
/// the document is resolvable: the buffer counts agree, and each accessor's
/// resolution succeeds exactly when its declared type codes are defined.
proof fn lemma_resolvable_of_descriptor(d: json::Gltf, j: json::JsonModel)
    requires
        json::spec_descriptor_ok(j),
        json::spec_descriptor_matches(d, j),
    ensures
        d.buffers@.len() == json::m_table(j, "buffers"@).len(),
        d.accessors@.len() == json::m_table(j, "accessors"@).len(),
        forall|i: int|
            0 <= i < d.accessors@.len() ==> (spec_resolve_accessor(
                #[trigger] d.accessors@[i],
            ) is Some <==> spec_accessor_resolvable(json::m_table(j, "accessors"@)[i])),
{
    assert forall|i: int|
        0 <= i < d.accessors@.len() implies (spec_resolve_accessor(
        #[trigger] d.accessors@[i],
    ) is Some <==> spec_accessor_resolvable(json::m_table(j, "accessors"@)[i])) by {
        let jm = json::m_table(j, "accessors"@)[i];
        assert(json::spec_accessor_matches(d.accessors@[i], jm));
        assert(json::spec_accessor_ok(jm));
        assert(d.accessors@[i].component_type == json::m_req_u64(jm, "componentType"@));
        assert(d.accessors@[i].element_type@ == json::m_text(
            json::m_field(jm, "type"@)->Some_0,
        )->Some_0);
    }
}

impl Gltf {
    /// Byte length of an accessor's data, as an exact 128-bit value.
    pub fn get_accessor_length(a: &Accessor) -> (r: u128)
        ensures
            r as int == spec_accessor_length(*a),
            r <= 64 * (u64::MAX as u128),
    {
        let cs: u128 = a.component_type.get_size() as u128;
        let es: u128 = a.element_type.get_size() as u128;
        let cnt: u128 = a.count as u128;
        proof {
            assert(cs * es * cnt <= 64 * (u64::MAX as u128)) by (nonlinear_arith)
                requires
                    cs <= 4,
                    es <= 16,
                    cnt <= u64::MAX as u128,
            ;
            assert(cs * es * cnt == spec_accessor_length(*a)) by (nonlinear_arith)
                requires
                    cs == a.component_type.spec_size(),
                    es == a.element_type.spec_size(),
                    cnt == a.count as int,
            ;
        }
        cs * es * cnt
    }

    fn load_buffers(binary_chunk_data: Vec<u8>, d: &json::Gltf) -> (r: Result<Buffer, GltfError>)
        ensures
            d.buffers@.len() > 1 ==> r == Err::<Buffer, GltfError>(
                GltfError::Unsupported(UnsupportedFeature::MultipleBuffers),
            ),
            d.buffers@.len() == 0 ==> r == Err::<Buffer, GltfError>(
                GltfError::Format(FormatError::MissingBuffer),
            ),
            d.buffers@.len() == 1 ==> (r matches Ok(b) && b.length == d.buffers@[0].byte_length
                && b.data@ == binary_chunk_data@),
    {
        if d.buffers.len() > 1 {
            // Only data carried in the GLB binary chunk is supported.
            return Err(GltfError::Unsupported(UnsupportedFeature::MultipleBuffers));
        }
        if d.buffers.len() == 0 {
            return Err(GltfError::Format(FormatError::MissingBuffer));
        }
        Ok(Buffer { length: d.buffers[0].byte_length, data: binary_chunk_data })
    }

    fn load_buffer_views(d: &json::Gltf) -> (r: Vec<BufferView>)
        ensures
            r@.len() == d.buffer_views@.len(),
            forall|i: int|
                0 <= i < d.buffer_views@.len() ==> {
                    &&& (#[trigger] r@[i]).buffer.0 == d.buffer_views@[i].buffer.0
                    &&& r@[i].offset == d.buffer_views@[i].byte_offset
                    &&& r@[i].length == d.buffer_views@[i].byte_length
                },
    {
        let mut out: Vec<BufferView> = Vec::new();
        let mut i: usize = 0;
        while i < d.buffer_views.len()
            invariant
                i <= d.buffer_views@.len(),
                out@.len() == i,
                forall|j: int|
                    0 <= j < i ==> {
                        &&& (#[trigger] out@[j]).buffer.0 == d.buffer_views@[j].buffer.0
                        &&& out@[j].offset == d.buffer_views@[j].byte_offset
                        &&& out@[j].length == d.buffer_views@[j].byte_length
                    },
            decreases d.buffer_views@.len() - i,
        {
            let bv = &d.buffer_views[i];
            out.push(
                BufferView {
                    buffer: BufferRef(bv.buffer.0),
                    offset: bv.byte_offset,
                    length: bv.byte_length,
                },
            );
            i = i + 1;
        }
        out
    }

    fn load_accessors(d: &json::Gltf) -> (r: Result<Vec<Accessor>, GltfError>)
        ensures
            match r {
                Ok(out) => out@.len() == d.accessors@.len() && forall|i: int|
                    0 <= i < d.accessors@.len() ==> spec_resolve_accessor(
                        #[trigger] d.accessors@[i],
                    ) == Some(out@[i]),
                Err(e) => exists|i: int| spec_accessors_fail_at(*d, i, e),
            },
    {
        let mut out: Vec<Accessor> = Vec::new();
        let mut i: usize = 0;
        while i < d.accessors.len()
            invariant
                i <= d.accessors@.len(),
                out@.len() == i,
                forall|j: int|
                    0 <= j < i ==> spec_resolve_accessor(#[trigger] d.accessors@[j]) == Some(
                        out@[j],
                    ),
            decreases d.accessors@.len() - i,
        {
            let a = &d.accessors[i];
            let component_type = match AccessorComponentType::from_code(a.component_type) {
                Ok(c) => c,
                Err(e) => {
                    proof {
                        assert(spec_accessors_fail_at(*d, i as int, e));
                    }
                    return Err(e);
                },
            };
            let element_type = match AccessorElementType::from_name(&a.element_type) {
                Ok(t) => t,
                Err(e) => {
                    proof {
                        assert(spec_resolve_accessor(d.accessors@[i as int]) is None);
                        assert(spec_accessors_fail_at(*d, i as int, e));
                    }
                    return Err(e);
                },
            };
            out.push(
                Accessor {
                    buffer_view: BufferViewRef(a.buffer_view.0),
                    offset: a.byte_offset,
                    component_type,
                    normalized: a.normalized,
                    count: a.count,
                    element_type,
                },
            );
            i = i + 1;
        }
        Ok(out)
    }

    fn load_meshes(d: &json::Gltf) -> (r: Vec<Mesh>)
        ensures
            r@.len() == d.meshes@.len(),
            forall|m: int|
                0 <= m < d.meshes@.len() ==> {
                    &&& (#[trigger] r@[m]).primitives@.len() == d.meshes@[m].primitives@.len()
                    &&& forall|p: int|
                        0 <= p < d.meshes@[m].primitives@.len() ==> spec_primitive_resolved(
                            #[trigger] r@[m].primitives@[p],
                            d.meshes@[m].primitives@[p],
                        )
                },
    {
        let mut out: Vec<Mesh> = Vec::new();
        let mut m: usize = 0;
        while m < d.meshes.len()
            invariant
                m <= d.meshes@.len(),
                out@.len() == m,
                forall|k: int|
                    0 <= k < m ==> {
                        &&& (#[trigger] out@[k]).primitives@.len() == d.meshes@[k].primitives@.len()
                        &&& forall|p: int|
                            0 <= p < d.meshes@[k].primitives@.len() ==> spec_primitive_resolved(
                                #[trigger] out@[k].primitives@[p],
                                d.meshes@[k].primitives@[p],
                            )
                    },
            decreases d.meshes@.len() - m,
        {
            let src = &d.meshes[m];
            let mut primitives: Vec<MeshPrimitive> = Vec::new();
            let mut p: usize = 0;
            while p < src.primitives.len()
                invariant
                    p <= src.primitives@.len(),
                    primitives@.len() == p,
                    forall|q: int|
                        0 <= q < p ==> spec_primitive_resolved(
                            #[trigger] primitives@[q],
                            src.primitives@[q],
                        ),
                decreases src.primitives@.len() - p,
            {
                let prim = &src.primitives[p];
                let mut entries: Vec<(String, AccessorRef)> = Vec::new();
                let mut a: usize = 0;
                while a < prim.attributes.entries.len()
                    invariant
                        entries@.len() == a,
                        a <= prim.attributes.entries@.len(),
                        forall|q: int|
                            0 <= q < a ==> (#[trigger] entries@[q]).0@
                                == prim.attributes.entries@[q].0@ && entries@[q].1.0
                                == prim.attributes.entries@[q].1.0,
                    decreases prim.attributes.entries@.len() - a,
                {
                    let entry = &prim.attributes.entries[a];
                    entries.push((entry.0.clone(), AccessorRef(entry.1.0)));
                    a = a + 1;
                }
                let indices = match &prim.indices {
                    Some(r) => Some(AccessorRef(r.0)),
                    None => None,
                };
                primitives.push(
                    MeshPrimitive { attributes: MeshAttributes { entries }, indices },
                );
                p = p + 1;
            }
            out.push(Mesh { primitives });
            m = m + 1;
        }
        out
    }

    fn load_nodes(d: &json::Gltf) -> (r: Vec<Node>)
        ensures
            r@.len() == d.nodes@.len(),
            forall|i: int|
                0 <= i < d.nodes@.len() ==> spec_node_matches(#[trigger] r@[i], d.nodes@[i]),
    {
        let mut out: Vec<Node> = Vec::new();
        let mut i: usize = 0;
        while i < d.nodes.len()
            invariant
                i <= d.nodes@.len(),
                out@.len() == i,
                forall|j: int| 0 <= j < i ==> spec_node_matches(#[trigger] out@[j], d.nodes@[j]),
            decreases d.nodes@.len() - i,
        {
            let src = &d.nodes[i];
            let mut children: Vec<NodeRef> = Vec::new();
            let mut k: usize = 0;
            while k < src.children.len()
                invariant
                    k <= src.children@.len(),
                    children@.len() == k,
                    forall|q: int|
                        0 <= q < k ==> (#[trigger] children@[q]).0 == src.children@[q].0,
                decreases src.children@.len() - k,
            {
                children.push(NodeRef(src.children[k].0));
                k = k + 1;
            }
            let mesh = match &src.mesh {
                Some(r) => Some(MeshRef(r.0)),
                None => None,
            };
            out.push(Node { children, transform: resolve_transform(src), mesh });
            i = i + 1;
        }
        out
    }

    fn load_scenes(d: &json::Gltf) -> (r: Vec<Scene>)
        ensures
            r@.len() == d.scenes@.len(),
            forall|i: int|
                0 <= i < d.scenes@.len() ==> {
                    &&& (#[trigger] r@[i]).nodes@.len() == d.scenes@[i].nodes@.len()
                    &&& forall|k: int|
                        0 <= k < d.scenes@[i].nodes@.len() ==> (#[trigger] r@[i].nodes@[k]).0
                            == d.scenes@[i].nodes@[k].0
                },
    {
        let mut out: Vec<Scene> = Vec::new();
        let mut i: usize = 0;
        while i < d.scenes.len()
            invariant
                i <= d.scenes@.len(),
                out@.len() == i,
                forall|j: int|
                    0 <= j < i ==> {
                        &&& (#[trigger] out@[j]).nodes@.len() == d.scenes@[j].nodes@.len()
                        &&& forall|k: int|
                            0 <= k < d.scenes@[j].nodes@.len() ==> (#[trigger] out@[j].nodes@[k]).0
                                == d.scenes@[j].nodes@[k].0
                    },
            decreases d.scenes@.len() - i,
        {
            let src = &d.scenes[i];
            let mut nodes: Vec<NodeRef> = Vec::new();
            let mut k: usize = 0;
            while k < src.nodes.len()
                invariant
                    k <= src.nodes@.len(),
                    nodes@.len() == k,
                    forall|q: int| 0 <= q < k ==> (#[trigger] nodes@[q]).0 == src.nodes@[q].0,
                decreases src.nodes@.len() - k,
            {
                nodes.push(NodeRef(src.nodes[k].0));
                k = k + 1;
            }
            out.push(Scene { nodes });
            i = i + 1;
        }
        out
    }

    /// Loads a GLB byte stream into the resolved aggregate. The container is
    /// decoded first: a bad magic, a version other than 2, a malformed chunk
    /// or a missing JSON or binary chunk is rejected exactly as stated; the
    /// descriptor is then deserialised and resolved in one linear pass, with
    /// no byte-range bounds checking — out-of-range accessor ranges surface
    /// only at first data access.
    pub fn load(bytes: &[u8]) -> (r: Result<Gltf, GltfError>)
        ensures
            match spec_parse_glb(bytes@) {
                Err(e) => r == Err::<Gltf, GltfError>(e),
                Ok(chunks) => {
                    &&& (spec_get_chunk(chunks, GlbChunkType::Json) is None ==> r == Err::<
                        Gltf,
                        GltfError,
                    >(GltfError::Format(FormatError::MissingJsonChunk)))
                    &&& (spec_get_chunk(chunks, GlbChunkType::Json) is Some && spec_get_chunk(
                        chunks,
                        GlbChunkType::Binary,
                    ) is None ==> r == Err::<Gltf, GltfError>(
                        GltfError::Format(FormatError::MissingBinaryChunk),
                    ))
                    &&& (r matches Ok(g) ==> spec_get_chunk(chunks, GlbChunkType::Binary) matches
                        Some(bin) && g.buffer.data@ == bin)
                    &&& (match (
                        spec_get_chunk(chunks, GlbChunkType::Json),
                        spec_get_chunk(chunks, GlbChunkType::Binary),
                    ) {
                        (Some(jb), Some(bin)) => match json::spec_decoded_json(jb) {
                            None => (r matches Err(e) && e matches GltfError::Format(
                                FormatError::Json(_),
                            )),
                            Some(j) => {
                                &&& (!json::spec_descriptor_ok(j) ==> (r matches Err(e) && (
                                e is Format || e is Unsupported)))
                                &&& (json::spec_descriptor_ok(j) && spec_resolvable(j) ==> (
                                r matches Ok(g) && spec_loaded_matches(g, j, bin)))
                                &&& (json::spec_descriptor_ok(j) && !spec_resolvable(j)
                                    ==> r is Err)
                            },
                        },
                        _ => true,
                    })
                },
            },
    {
        let chunks = match GlbChunks::parse(bytes) {
            Ok(c) => c,
            Err(e) => {
                return Err(e);
            },
        };
        let json_chunk_data = match chunks.get_chunk(GlbChunkType::Json) {
            Some(d) => d,
            None => {
                return Err(GltfError::Format(FormatError::MissingJsonChunk));
            },
        };
        let binary_chunk_data = match chunks.get_chunk(GlbChunkType::Binary) {
            Some(d) => d,
            None => {
                return Err(GltfError::Format(FormatError::MissingBinaryChunk));
            },
        };
        let data = match json::parse_descriptor(json_chunk_data.as_slice()) {
            Ok(d) => d,
            Err(e) => {
                return Err(e);
            },
        };
        let ghost j = json::spec_decoded_json(json_chunk_data@)->Some_0;
        proof {
            assert(json::spec_descriptor_ok(j));
            assert(json::spec_descriptor_matches(data, j));
            lemma_resolvable_of_descriptor(data, j);
        }
        let r = Gltf::resolve(&data, binary_chunk_data);
        proof {
            match &r {
                Ok(g) => {
                    assert(spec_loaded_matches(*g, j, binary_chunk_data@));
                    assert forall|i: int|
                        0 <= i < json::m_table(j, "accessors"@).len() implies spec_accessor_resolvable(
                        #[trigger] json::m_table(j, "accessors"@)[i],
                    ) by {
                        assert(spec_resolve_accessor(data.accessors@[i]) is Some);
                    }
                    assert(spec_resolvable(j));
                },
                Err(e) => {
                    if spec_resolvable(j) {
                        assert(data.buffers@.len() == 1);
                        let i = choose|i: int| spec_accessors_fail_at(data, i, *e);
                        assert(spec_accessor_resolvable(json::m_table(j, "accessors"@)[i]));
                        assert(spec_resolve_accessor(data.accessors@[i]) is None);
                        assert(false);
                    }
                },
            }
        }
        r
    }

    /// Resolves the declarative descriptor against the binary chunk's bytes:
    /// the one place the loader itself decides success. Resolution succeeds
    /// exactly when the descriptor declares one buffer and every accessor's
    /// component and element type codes are defined; it validates no byte
    /// range and no cross-entity index — those surface at first access.
    pub fn resolve(data: &json::Gltf, binary_chunk_data: Vec<u8>) -> (r: Result<Gltf, GltfError>)
        ensures
            data.buffers@.len() > 1 ==> r == Err::<Gltf, GltfError>(
                GltfError::Unsupported(UnsupportedFeature::MultipleBuffers),
            ),
            data.buffers@.len() == 0 ==> r == Err::<Gltf, GltfError>(
                GltfError::Format(FormatError::MissingBuffer),
            ),
            data.buffers@.len() == 1 ==> match r {
                Ok(g) => spec_resolved_from(g, *data, binary_chunk_data@),
                Err(e) => exists|i: int| spec_accessors_fail_at(*data, i, e),
            },
    {
        let buffer = match Gltf::load_buffers(binary_chunk_data, data) {
            Ok(b) => b,
            Err(e) => {
                return Err(e);
            },
        };
        let accessors = match Gltf::load_accessors(data) {
            Ok(a) => a,
            Err(e) => {
                return Err(e);
            },
        };
        Ok(
            Gltf {
                accessors,
                buffer,
                buffer_views: Gltf::load_buffer_views(data),
                meshes: Gltf::load_meshes(data),
                nodes: Gltf::load_nodes(data),
                scenes: Gltf::load_scenes(data),
            },
        )
    }
}

impl AccessorRef {
    /// The exact byte slice this accessor describes: the buffer's bytes from
    /// the accessor's offset plus its view's offset, for the accessor's
    /// computed byte length. A dangling accessor or view reference, or a
    /// range that ends past the buffer's data, is an out-of-bounds error —
    /// this is the first point where an invalid reference surfaces.
    pub fn get_data<'a>(&self, gltf: &'a Gltf) -> (r: Result<&'a [u8], GltfError>)
        ensures
            match spec_accessor_data(*gltf, self.0 as int) {
                Ok(d) => r matches Ok(s) && s@ == d,
                Err(e) => r matches Err(e2) && e2 == e,
            },
    {
        if self.0 >= gltf.accessors.len() {
            return Err(GltfError::OutOfBounds(BoundsError::AccessorIndex { index: self.0 }));
        }
        let accessor = &gltf.accessors[self.0];
        if accessor.buffer_view.0 >= gltf.buffer_views.len() {
            return Err(
                GltfError::OutOfBounds(
                    BoundsError::BufferViewIndex { index: accessor.buffer_view.0 },
                ),
            );
        }
        let buffer_view = &gltf.buffer_views[accessor.buffer_view.0];
        let offset: u128 = accessor.offset as u128 + buffer_view.offset as u128;
        let length: u128 = Gltf::get_accessor_length(accessor);
        let end: u128 = offset + length;
        if end > gltf.buffer.data.len() as u128 {
            return Err(GltfError::OutOfBounds(BoundsError::DataRange { accessor: self.0 }));
        }
        let start_us: usize = offset as usize;
        let end_us: usize = end as usize;
        Ok(slice_subrange(gltf.buffer.data.as_slice(), start_us, end_us))
    }
}

impl Gltf {
    /// The byte slice an accessor reference describes; see
    /// [`AccessorRef::get_data`].
    pub fn load_accessor_data<'a>(&'a self, accessor_ref: AccessorRef) -> (r: Result<
        &'a [u8],
        GltfError,
    >)
        ensures
            match spec_accessor_data(*self, accessor_ref.0 as int) {
                Ok(d) => r matches Ok(s) && s@ == d,
                Err(e) => r matches Err(e2) && e2 == e,
            },
    {
        accessor_ref.get_data(self)
    }
}

impl MeshRef {
    /// The mesh this reference names, or an out-of-bounds error when the
    /// index falls outside the mesh table.
    pub fn get<'a>(&self, gltf: &'a Gltf) -> (r: Result<&'a Mesh, GltfError>)
        ensures
            self.0 < gltf.meshes@.len() ==> (r matches Ok(m) && *m == gltf.meshes@[self.0 as int]),
            self.0 >= gltf.meshes@.len() ==> (r matches Err(e) && e == GltfError::OutOfBounds(
                BoundsError::MeshIndex { index: self.0 },
            )),
    {
        if self.0 < gltf.meshes.len() {
            Ok(&gltf.meshes[self.0])
        } else {
            Err(GltfError::OutOfBounds(BoundsError::MeshIndex { index: self.0 }))
        }
    }
}

impl NodeRef {
    /// The node this reference names, or an out-of-bounds error when the
    /// index falls outside the node table.
    pub fn get<'a>(&self, gltf: &'a Gltf) -> (r: Result<&'a Node, GltfError>)
        ensures
            self.0 < gltf.nodes@.len() ==> (r matches Ok(n) && *n == gltf.nodes@[self.0 as int]),
            self.0 >= gltf.nodes@.len() ==> (r matches Err(e) && e == GltfError::OutOfBounds(
                BoundsError::NodeIndex { index: self.0 },
            )),
    {
        if self.0 < gltf.nodes.len() {
            Ok(&gltf.nodes[self.0])
        } else {
            Err(GltfError::OutOfBounds(BoundsError::NodeIndex { index: self.0 }))
        }
    }
}

/// Round trip of the container: when a stream parses, its binary chunk backs
/// the loaded buffer, and every successful extraction is a byte-exact slice
/// of the buffer at the declared offsets — and so a byte-exact contiguous
/// slice of the original stream.
pub proof fn lemma_extraction_round_trip(
    b: Seq<u8>,
    chunks: Seq<(GlbChunkType, Seq<u8>)>,
    g: Gltf,
    i: int,
    s: Seq<u8>,
)
    requires
        spec_parse_glb(b) == Ok::<Seq<(GlbChunkType, Seq<u8>)>, GltfError>(chunks),
        spec_get_chunk(chunks, GlbChunkType::Binary) == Some(g.buffer.data@),
        spec_accessor_data(g, i) == Ok::<Seq<u8>, GltfError>(s),
    ensures
        ({
            let a = g.accessors@[i];
            let bv = g.buffer_views@[a.buffer_view.0 as int];
            let off = a.offset as int + bv.offset as int;
            s == g.buffer.data@.subrange(off, off + spec_accessor_length(a))
        }),
        exists|o: int|
            0 <= o && o + s.len() <= b.len() && s == #[trigger] b.subrange(o, o + s.len() as int),
{
    let tail = b.skip(12);
    lemma_get_chunk_is_member(chunks, GlbChunkType::Binary);
    let k = choose|k: int|
        0 <= k < chunks.len() && chunks[k].0 == GlbChunkType::Binary && chunks[k].1
            == spec_get_chunk(chunks, GlbChunkType::Binary)->Some_0;
    lemma_chunk_data_in_stream(tail, chunks, k);
    let o1 = choose|o1: int|
        0 <= o1 && o1 + chunks[k].1.len() <= tail.len() && chunks[k].1 == #[trigger] tail.subrange(
            o1,
            o1 + chunks[k].1.len() as int,
        );
    let a = g.accessors@[i];
    let bv = g.buffer_views@[a.buffer_view.0 as int];
    let off = a.offset as int + bv.offset as int;
    let len = spec_accessor_length(a);
    assert(s == g.buffer.data@.subrange(off, off + len));
    let o = 12 + o1 + off;
    assert(s == b.subrange(o, o + s.len() as int)) by {
        assert(tail.subrange(o1, o1 + chunks[k].1.len() as int) =~= b.subrange(
            12 + o1,
            12 + o1 + chunks[k].1.len(),
        ));
        assert(b.subrange(12 + o1, 12 + o1 + chunks[k].1.len()).subrange(off, off + len)
            =~= b.subrange(o, o + len));
        assert(g.buffer.data@.subrange(off, off + len) == b.subrange(
            12 + o1,
            12 + o1 + chunks[k].1.len(),
        ).subrange(off, off + len));
    }
}

} // verus!
