//! Mesh materialisation: converts a mesh's primitives into flat vertex and
//! index arrays. A vertex is twelve bytes of POSITION data read as three
//! 32-bit words (the bit patterns of three little-endian 32-bit floats); an
//! index is one little-endian 16-bit word widened to 32 bits.

use vstd::prelude::*;
use vstd::arithmetic::div_mod::lemma_fundamental_div_mod;

use crate::error::{FormatError, GltfError, UnsupportedFeature};
use crate::glb::{le_u32, read_u32};
use crate::gltf::{spec_accessor_data, spec_attr_position, Gltf};

verus! {

/// One position vertex: the three 32-bit words of its POSITION bytes, in
/// x, y, z order. Each word is the bit pattern of a little-endian 32-bit
/// float; this crate never interprets the floats themselves.
#[derive(Debug, Clone, Copy, PartialEq, Eq)]
pub struct Vertex {
    pub position: [u32; 3],
}

/// Flat vertex and index content of one materialised primitive.
#[derive(Debug, Clone)]
pub struct MeshData {
    pub vertices: Vec<Vertex>,
    pub indices: Vec<u32>,
}

/// The little-endian 16-bit word at byte offset `i` of `b`.
pub open spec fn le_u16(b: Seq<u8>, i: int) -> u16
    recommends
        0 <= i,
        i + 2 <= b.len(),
{
    (b[i] as int + b[i + 1] as int * 0x100) as u16
}

/// Reads the little-endian 16-bit word at byte offset `pos`.
pub fn read_u16(b: &[u8], pos: usize) -> (r: u16)
    requires
        pos + 2 <= b@.len(),
    ensures
        r == le_u16(b@, pos as int),
{
    let b0 = b[pos] as u16;
    let b1 = b[pos + 1] as u16;
    b0 + b1 * 0x100
}

/// The vertices a POSITION byte run decodes to: one triple of 32-bit words
/// per twelve bytes.
pub open spec fn spec_vertices(b: Seq<u8>) -> Seq<(u32, u32, u32)> {
    Seq::new((b.len() / 12) as nat, |i: int| (le_u32(b, 12 * i), le_u32(b, 12 * i + 4), le_u32(b, 12 * i + 8)))
}

/// The indices an index byte run decodes to: one 16-bit word per two bytes,
/// widened to 32 bits.
pub open spec fn spec_indices(b: Seq<u8>) -> Seq<u32> {
    Seq::new((b.len() / 2) as nat, |i: int| le_u16(b, 2 * i) as u32)
}

/// The mathematical content of one vertex.
pub open spec fn vertex_model(v: Vertex) -> (u32, u32, u32) {
    (v.position@[0], v.position@[1], v.position@[2])
}

/// The mathematical content of one materialised primitive.
pub open spec fn md_model(md: MeshData) -> (Seq<(u32, u32, u32)>, Seq<u32>) {
    (md.vertices@.map_values(|v: Vertex| vertex_model(v)), md.indices@)
}

/// The mathematical content of a run of materialised primitives.
pub open spec fn spec_mesh_models(v: Seq<MeshData>) -> Seq<(Seq<(u32, u32, u32)>, Seq<u32>)> {
    v.map_values(|md: MeshData| md_model(md))
}

/// Materialisation of primitive `p` of mesh `m`: the decoded POSITION and
/// index content, or the first error of extracting and checking it — a
/// missing POSITION attribute, a missing index accessor, a bounds error of
/// either accessor, or a byte run that is not a whole number of elements.
pub open spec fn spec_prim(g: Gltf, m: int, p: int) -> Result<
    (Seq<(u32, u32, u32)>, Seq<u32>),
    GltfError,
>
    recommends
        0 <= m < g.meshes@.len(),
        0 <= p < g.meshes@[m].primitives@.len(),
{
    let prim = g.meshes@[m].primitives@[p];
    match spec_attr_position(prim.attributes.entries@) {
        None => Err(
            GltfError::Unsupported(
                UnsupportedFeature::MissingPositionAttribute {
                    mesh: m as usize,
                    primitive: p as usize,
                },
            ),
        ),
        Some(pa) => match spec_accessor_data(g, pa.0 as int) {
            Err(e) => Err(e),
            Ok(vb) => {
                if vb.len() % 12 != 0 {
                    Err(
                        GltfError::Format(
                            FormatError::MisalignedVertexData {
                                mesh: m as usize,
                                primitive: p as usize,
                                accessor: pa.0,
                            },
                        ),
                    )
                } else {
                    match prim.indices {
                        None => Err(
                            GltfError::Unsupported(
                                UnsupportedFeature::NonIndexedPrimitive {
                                    mesh: m as usize,
                                    primitive: p as usize,
                                },
                            ),
                        ),
                        Some(ia) => match spec_accessor_data(g, ia.0 as int) {
                            Err(e) => Err(e),
                            Ok(ib) => {
                                if ib.len() % 2 != 0 {
                                    Err(
                                        GltfError::Format(
                                            FormatError::MisalignedIndexData {
                                                mesh: m as usize,
                                                primitive: p as usize,
                                                accessor: ia.0,
                                            },
                                        ),
                                    )
                                } else {
                                    Ok((spec_vertices(vb), spec_indices(ib)))
                                }
                            },
                        },
                    }
                }
            },
        },
    }
}

/// Materialisation of every primitive from mesh `m`, primitive `p` on, in
/// mesh order and primitive order: the flat run of their contents, or the
/// first error.
pub open spec fn spec_materialize_from(g: Gltf, m: int, p: int) -> Result<
    Seq<(Seq<(u32, u32, u32)>, Seq<u32>)>,
    GltfError,
>
    decreases g.meshes@.len() - m, g.meshes@[m].primitives@.len() - p,
{
    if m < 0 || m >= g.meshes@.len() {
        Ok(Seq::empty())
    } else if p >= g.meshes@[m].primitives@.len() {
        spec_materialize_from(g, m + 1, 0)
    } else if p < 0 {
        Ok(Seq::empty())
    } else {
        match spec_prim(g, m, p) {
            Err(e) => Err(e),
            Ok(pr) => match spec_materialize_from(g, m, p + 1) {
                Err(e) => Err(e),
                Ok(t) => Ok(seq![pr] + t),
            },
        }
    }
}

/// Materialisation of the whole aggregate: one (vertices, indices) pair per
/// primitive, meshes in table order and primitives in declaration order; a
/// mesh with several primitives yields that many independent pairs.
pub open spec fn spec_to_meshes(g: Gltf) -> Result<
    Seq<(Seq<(u32, u32, u32)>, Seq<u32>)>,
    GltfError,
> {
    spec_materialize_from(g, 0, 0)
}

impl Gltf {
    /// Materialises one primitive: decodes its POSITION bytes into vertices
    /// (twelve bytes each) and its index bytes into 32-bit indices (two
    /// bytes each), or fails exactly as `spec_prim` states.
    pub fn materialize_primitive(&self, m: usize, p: usize) -> (r: Result<MeshData, GltfError>)
        requires
            m < self.meshes@.len(),
            p < self.meshes@[m as int].primitives@.len(),
        ensures
            match spec_prim(*self, m as int, p as int) {
                Ok(pr) => r matches Ok(md) && md_model(md) == pr,
                Err(e) => r matches Err(e2) && e2 == e,
            },
    {
        let prim = &self.meshes[m].primitives[p];
        let pa = match prim.attributes.position() {
            Some(a) => a,
            None => {
                return Err(
                    GltfError::Unsupported(
                        UnsupportedFeature::MissingPositionAttribute { mesh: m, primitive: p },
                    ),
                );
            },
        };
        let vbytes = match pa.get_data(self) {
            Ok(s) => s,
            Err(e) => {
                return Err(e);
            },
        };
        if vbytes.len() % 12 != 0 {
            return Err(
                GltfError::Format(
                    FormatError::MisalignedVertexData { mesh: m, primitive: p, accessor: pa.0 },
                ),
            );
        }
        let ia = match &prim.indices {
            Some(a) => *a,
            None => {
                return Err(
                    GltfError::Unsupported(
                        UnsupportedFeature::NonIndexedPrimitive { mesh: m, primitive: p },
                    ),
                );
            },
        };
        let ibytes = match ia.get_data(self) {
            Ok(s) => s,
            Err(e) => {
                return Err(e);
            },
        };
        if ibytes.len() % 2 != 0 {
            return Err(
                GltfError::Format(
                    FormatError::MisalignedIndexData { mesh: m, primitive: p, accessor: ia.0 },
                ),
            );
        }
        let nv = vbytes.len() / 12;
        let mut vertices: Vec<Vertex> = Vec::new();
        let mut i: usize = 0;
        while i < nv
            invariant
                i <= nv,
                nv == vbytes@.len() / 12,
                vbytes@.len() % 12 == 0,
                vbytes@.len() <= usize::MAX,
                vertices@.len() == i,
                forall|j: int|
                    0 <= j < i ==> vertex_model(#[trigger] vertices@[j]) == spec_vertices(
                        vbytes@,
                    )[j],
            decreases nv - i,
        {
            proof {
                lemma_fundamental_div_mod(vbytes@.len() as int, 12);
                assert(12 * (nv as int) == vbytes@.len());
                assert(12 * (i as int) + 12 <= vbytes@.len());
            }
            let base = 12 * i;
            let x = read_u32(vbytes, base);
            let y = read_u32(vbytes, base + 4);
            let z = read_u32(vbytes, base + 8);
            vertices.push(Vertex { position: [x, y, z] });
            i = i + 1;
        }
        let ni = ibytes.len() / 2;
        let mut indices: Vec<u32> = Vec::new();
        let mut k: usize = 0;
        while k < ni
            invariant
                k <= ni,
                ni == ibytes@.len() / 2,
                ibytes@.len() % 2 == 0,
                ibytes@.len() <= usize::MAX,
                indices@.len() == k,
                forall|j: int| 0 <= j < k ==> #[trigger] indices@[j] == spec_indices(ibytes@)[j],
            decreases ni - k,
        {
            proof {
                lemma_fundamental_div_mod(ibytes@.len() as int, 2);
                assert(2 * (ni as int) == ibytes@.len());
                assert(2 * (k as int) + 2 <= ibytes@.len());
            }
            let w = read_u16(ibytes, 2 * k);
            indices.push(w as u32);
            k = k + 1;
        }
        let md = MeshData { vertices, indices };
        proof {
            assert(md_model(md).0 =~= spec_vertices(vbytes@));
            assert(md_model(md).1 =~= spec_indices(ibytes@));
        }
        Ok(md)
    }

    /// Walks every mesh's primitives in order and materialises each: one
    /// flat (vertices, indices) pair per primitive, or the first error.
    pub fn to_meshes(&self) -> (r: Result<Vec<MeshData>, GltfError>)
        ensures
            match spec_to_meshes(*self) {
                Ok(s) => r matches Ok(out) && spec_mesh_models(out@) == s,
                Err(e) => r matches Err(e2) && e2 == e,
            },
    {
        let mut out: Vec<MeshData> = Vec::new();
        let mut m: usize = 0;
        proof {
            assert(spec_mesh_models(out@) =~= Seq::<(Seq<(u32, u32, u32)>, Seq<u32>)>::empty());
            if let Ok(t) = spec_materialize_from(*self, 0, 0) {
                assert(spec_mesh_models(out@) + t =~= t);
            }
        }
        while m < self.meshes.len()
            invariant
                m <= self.meshes@.len(),
                spec_to_meshes(*self) == (match spec_materialize_from(*self, m as int, 0) {
                    Ok(t) => Ok::<Seq<(Seq<(u32, u32, u32)>, Seq<u32>)>, GltfError>(
                        spec_mesh_models(out@) + t,
                    ),
                    Err(e) => Err::<Seq<(Seq<(u32, u32, u32)>, Seq<u32>)>, GltfError>(e),
                }),
            decreases self.meshes@.len() - m,
        {
            let np = self.meshes[m].primitives.len();
            let mut p: usize = 0;
            while p < np
                invariant
                    m < self.meshes@.len(),
                    np == self.meshes@[m as int].primitives@.len(),
                    p <= np,
                    spec_to_meshes(*self) == (match spec_materialize_from(
                        *self,
                        m as int,
                        p as int,
                    ) {
                        Ok(t) => Ok::<Seq<(Seq<(u32, u32, u32)>, Seq<u32>)>, GltfError>(
                            spec_mesh_models(out@) + t,
                        ),
                        Err(e) => Err::<Seq<(Seq<(u32, u32, u32)>, Seq<u32>)>, GltfError>(e),
                    }),
                decreases np - p,
            {
                let md = match self.materialize_primitive(m, p) {
                    Ok(md) => md,
                    Err(e) => {
                        return Err(e);
                    },
                };
                let ghost old_out = out@;
                let ghost pr = spec_prim(*self, m as int, p as int)->Ok_0;
                out.push(md);
                proof {
                    assert(spec_mesh_models(out@) =~= spec_mesh_models(old_out) + seq![pr]);
                    if let Ok(t) = spec_materialize_from(*self, m as int, p as int + 1) {
                        assert((spec_mesh_models(old_out) + (seq![pr] + t)) =~= (spec_mesh_models(
                            old_out,
                        ) + seq![pr]) + t);
                    }
                }
                p = p + 1;
            }
            m = m + 1;
        }
        proof {
            if let Ok(t) = spec_materialize_from(*self, m as int, 0) {
                assert(spec_mesh_models(out@) + t =~= spec_mesh_models(out@));
            }
        }
        Ok(out)
    }
}

/// Number of primitives of all meshes from `m` on.
pub open spec fn spec_primitive_count(g: Gltf, m: int) -> int
    decreases g.meshes@.len() - m,
{
    if m < 0 || m >= g.meshes@.len() {
        0
    } else {
        g.meshes@[m].primitives@.len() + spec_primitive_count(g, m + 1)
    }
}

proof fn lemma_materialize_from_len(g: Gltf, m: int, p: int)
    requires
        0 <= m,
        0 <= p,
        m < g.meshes@.len() ==> p <= g.meshes@[m].primitives@.len(),
        spec_materialize_from(g, m, p) is Ok,
    ensures
        m < g.meshes@.len() ==> spec_materialize_from(g, m, p)->Ok_0.len() == (
        g.meshes@[m].primitives@.len() - p) + spec_primitive_count(g, m + 1),
        m >= g.meshes@.len() ==> spec_materialize_from(g, m, p)->Ok_0.len() == 0,
    decreases g.meshes@.len() - m, g.meshes@[m].primitives@.len() - p,
{
    if m >= g.meshes@.len() {
    } else if p >= g.meshes@[m].primitives@.len() {
        lemma_materialize_from_len(g, m + 1, 0);
    } else {
        lemma_materialize_from_len(g, m, p + 1);
    }
}

/// A successful materialisation yields exactly one (vertices, indices) pair
/// per primitive: a mesh with several primitives contributes that many
/// independent pairs, never one merged pair.
pub proof fn lemma_one_pair_per_primitive(g: Gltf, s: Seq<(Seq<(u32, u32, u32)>, Seq<u32>)>)
    requires
        spec_to_meshes(g) == Ok::<Seq<(Seq<(u32, u32, u32)>, Seq<u32>)>, GltfError>(s),
    ensures
        s.len() == spec_primitive_count(g, 0),
{
    lemma_materialize_from_len(g, 0, 0);
}

} // verus!
