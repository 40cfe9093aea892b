use vstd::prelude::*;
use vstd::bytes::u32_from_le_bytes;
use vstd::slice::slice_subrange;
use crate::errors::TosError;
use crate::stream::le32_at;
use crate::xac::{XACFXBitmapParameter, XACFile, XACMesh, XACMesh2, XACSubMesh,
    XACVertexAttributeLayer, XacChunkData, opt_params};

verus! {

// Attribute kind ids of the vertex layers.
pub const ATTRIB_POSITIONS: u32 = 0;
pub const ATTRIB_NORMALS: u32 = 1;
pub const ATTRIB_TANGENTS: u32 = 2;
pub const ATTRIB_UVCOORDS: u32 = 3;
pub const ATTRIB_COLORS32: u32 = 4;
pub const ATTRIB_ORGVTXNUMBERS: u32 = 5;
pub const ATTRIB_COLORS128: u32 = 6;
pub const ATTRIB_BITANGENTS: u32 = 7;

/// Three float components, held as IEEE-754 bit patterns.
#[derive(Debug, Clone, Copy, PartialEq, Eq, Structural)]
pub struct Vec3Bits {
    pub x: u32,
    pub y: u32,
    pub z: u32,
}

/// Four float components, held as IEEE-754 bit patterns.
#[derive(Debug, Clone, Copy, PartialEq, Eq, Structural)]
pub struct Vec4Bits {
    pub x: u32,
    pub y: u32,
    pub z: u32,
    pub w: u32,
}

/// A texture coordinate pair, held as IEEE-754 bit patterns.
#[derive(Debug, Clone, Copy, PartialEq, Eq, Structural)]
pub struct UvBits {
    pub u: u32,
    pub v: u32,
}

/// One assembled submesh: the typed per-vertex columns sliced to this
/// submesh's vertex range, and its resolved texture name.
pub struct SubMesh {
    pub texture_name: String,
    pub position_count: usize,
    pub positions: Vec<Vec3Bits>,
    pub normal_count: usize,
    pub normals: Vec<Vec3Bits>,
    pub tangent_count: usize,
    pub tangents: Vec<Vec4Bits>,
    pub uvcoord_count: usize,
    pub uvcoords: Vec<UvBits>,
    pub color32_count: usize,
    pub colors32: Vec<u32>,
    pub original_vertex_numbers_count: usize,
    pub original_vertex_numbers: Vec<u32>,
    pub color128_count: usize,
    pub colors128: Vec<Vec4Bits>,
    pub bitangent_count: usize,
    pub bitangents: Vec<Vec3Bits>,
}

/// One assembled mesh: its submeshes in declaration order.
pub struct Mesh {
    pub submesh_count: usize,
    pub submeshes: Vec<SubMesh>,
}

/// Negation of a float, on its bit pattern: the sign bit flips and
/// nothing else moves.
pub open spec fn flip_sign(x: u32) -> u32 {
    x ^ 0x80000000u32
}

/// Row `i` (of width 12) of a three-float column, with the first
/// component's sign flipped, for vertices counted from `off`.
pub open spec fn flipped_vec3_rows(b: Seq<u8>, off: int, n: int) -> Seq<Vec3Bits> {
    Seq::new(
        n as nat,
        |i: int|
            Vec3Bits {
                x: flip_sign(le32_at(b, (off + i) * 12)),
                y: le32_at(b, (off + i) * 12 + 4),
                z: le32_at(b, (off + i) * 12 + 8),
            },
    )
}

/// Rows of a four-float column (width 16), passed through unchanged.
pub open spec fn vec4_rows(b: Seq<u8>, off: int, n: int) -> Seq<Vec4Bits> {
    Seq::new(
        n as nat,
        |i: int|
            Vec4Bits {
                x: le32_at(b, (off + i) * 16),
                y: le32_at(b, (off + i) * 16 + 4),
                z: le32_at(b, (off + i) * 16 + 8),
                w: le32_at(b, (off + i) * 16 + 12),
            },
    )
}

/// Rows of a texture-coordinate column (width 8), passed through.
pub open spec fn uv_rows(b: Seq<u8>, off: int, n: int) -> Seq<UvBits> {
    Seq::new(
        n as nat,
        |i: int| UvBits { u: le32_at(b, (off + i) * 8), v: le32_at(b, (off + i) * 8 + 4) },
    )
}

/// Rows of a packed 32-bit column (width 4), passed through.
pub open spec fn u32_rows(b: Seq<u8>, off: int, n: int) -> Seq<u32> {
    Seq::new(n as nat, |i: int| le32_at(b, (off + i) * 4))
}

/// The first layer of the given attribute kind, if any.
pub open spec fn find_layer(ls: Seq<XACVertexAttributeLayer>, t: u32) -> Option<
    XACVertexAttributeLayer,
>
    decreases ls.len(),
{
    if ls.len() == 0 {
        None
    } else if ls[0].layer_type_id == t {
        Some(ls[0])
    } else {
        find_layer(ls.drop_first(), t)
    }
}

/// The raw bytes of the first layer of the given kind, if any.
pub open spec fn layer_data(ls: Seq<XACVertexAttributeLayer>, t: u32) -> Option<Seq<u8>> {
    match find_layer(ls, t) {
        Some(l) => Some(l.mesh_data@),
        None => None,
    }
}

/// The attribute column `b` is too short for rows `[off, off+nv)` of
/// width `w`. With no rows requested nothing is read, so nothing fails.
pub open spec fn column_truncated(b: Option<Seq<u8>>, off: int, nv: int, w: int) -> bool {
    b is Some && nv > 0 && (off + nv) * w > b->Some_0.len()
}

/// The error assembling submesh `k` over vertices `[off, off+nv)`
/// raises, if any: the first attribute, in kind order, whose column is
/// too short for the requested range.
pub open spec fn submesh_asm_error(
    ls: Seq<XACVertexAttributeLayer>,
    off: int,
    nv: int,
    k: int,
) -> Option<TosError> {
    if column_truncated(layer_data(ls, ATTRIB_POSITIONS), off, nv, 12) {
        Some(TosError::TruncatedAttributeBuffer { layer_type: ATTRIB_POSITIONS, submesh_index: k as usize })
    } else if column_truncated(layer_data(ls, ATTRIB_NORMALS), off, nv, 12) {
        Some(TosError::TruncatedAttributeBuffer { layer_type: ATTRIB_NORMALS, submesh_index: k as usize })
    } else if column_truncated(layer_data(ls, ATTRIB_TANGENTS), off, nv, 16) {
        Some(TosError::TruncatedAttributeBuffer { layer_type: ATTRIB_TANGENTS, submesh_index: k as usize })
    } else if column_truncated(layer_data(ls, ATTRIB_UVCOORDS), off, nv, 8) {
        Some(TosError::TruncatedAttributeBuffer { layer_type: ATTRIB_UVCOORDS, submesh_index: k as usize })
    } else if column_truncated(layer_data(ls, ATTRIB_COLORS32), off, nv, 4) {
        Some(TosError::TruncatedAttributeBuffer { layer_type: ATTRIB_COLORS32, submesh_index: k as usize })
    } else if column_truncated(layer_data(ls, ATTRIB_ORGVTXNUMBERS), off, nv, 4) {
        Some(TosError::TruncatedAttributeBuffer { layer_type: ATTRIB_ORGVTXNUMBERS, submesh_index: k as usize })
    } else if column_truncated(layer_data(ls, ATTRIB_COLORS128), off, nv, 16) {
        Some(TosError::TruncatedAttributeBuffer { layer_type: ATTRIB_COLORS128, submesh_index: k as usize })
    } else if column_truncated(layer_data(ls, ATTRIB_BITANGENTS), off, nv, 12) {
        Some(TosError::TruncatedAttributeBuffer { layer_type: ATTRIB_BITANGENTS, submesh_index: k as usize })
    } else {
        None
    }
}

/// Where submesh `k`'s vertex range begins: the sum of the vertex
/// counts of the submeshes declared before it.
pub open spec fn vert_off(subs: Seq<XACSubMesh>, k: int) -> int
    decreases k,
{
    if k <= 0 {
        0
    } else {
        vert_off(subs, k - 1) + subs[k - 1].num_verts
    }
}

/// The error assembling submeshes from `k` on raises, if any, with
/// `off` vertices consumed so far.
pub open spec fn mesh_asm_error_from(
    ls: Seq<XACVertexAttributeLayer>,
    subs: Seq<XACSubMesh>,
    k: int,
    off: int,
) -> Option<TosError>
    decreases subs.len() - k,
{
    if k < 0 || k >= subs.len() {
        None
    } else {
        match submesh_asm_error(ls, off, subs[k].num_verts as int, k) {
            Some(e) => Some(e),
            None => mesh_asm_error_from(ls, subs, k + 1, off + subs[k].num_verts),
        }
    }
}

/// The error assembling a whole mesh raises, if any.
pub open spec fn mesh_asm_error(ls: Seq<XACVertexAttributeLayer>, subs: Seq<XACSubMesh>) -> Option<
    TosError,
> {
    mesh_asm_error_from(ls, subs, 0, 0)
}

/// The texture name a submesh with this material index resolves to: the
/// empty name for index zero or an out-of-range index.
pub open spec fn opt_name(names: Seq<Seq<char>>, mi: u32) -> Seq<char> {
    if mi != 0 && (mi as int) < names.len() {
        names[mi as int]
    } else {
        Seq::empty()
    }
}

/// `out` is submesh `k` of the mesh, assembled over vertex rows
/// `[off, off+num_verts)`: per attribute kind, the typed rows when the
/// mesh carries that column, and an empty list when it does not.
pub open spec fn asm_submesh(
    out: SubMesh,
    ls: Seq<XACVertexAttributeLayer>,
    names: Seq<Seq<char>>,
    off: int,
    sm: XACSubMesh,
) -> bool {
    let nv = sm.num_verts as int;
    &&& out.texture_name@ == opt_name(names, sm.material_index)
    &&& (match layer_data(ls, ATTRIB_POSITIONS) {
        Some(b) => out.positions@ == flipped_vec3_rows(b, off, nv),
        None => out.positions@.len() == 0,
    })
    &&& (match layer_data(ls, ATTRIB_NORMALS) {
        Some(b) => out.normals@ == flipped_vec3_rows(b, off, nv),
        None => out.normals@.len() == 0,
    })
    &&& (match layer_data(ls, ATTRIB_TANGENTS) {
        Some(b) => out.tangents@ == vec4_rows(b, off, nv),
        None => out.tangents@.len() == 0,
    })
    &&& (match layer_data(ls, ATTRIB_UVCOORDS) {
        Some(b) => out.uvcoords@ == uv_rows(b, off, nv),
        None => out.uvcoords@.len() == 0,
    })
    &&& (match layer_data(ls, ATTRIB_COLORS32) {
        Some(b) => out.colors32@ == u32_rows(b, off, nv),
        None => out.colors32@.len() == 0,
    })
    &&& (match layer_data(ls, ATTRIB_ORGVTXNUMBERS) {
        Some(b) => out.original_vertex_numbers@ == u32_rows(b, off, nv),
        None => out.original_vertex_numbers@.len() == 0,
    })
    &&& (match layer_data(ls, ATTRIB_COLORS128) {
        Some(b) => out.colors128@ == vec4_rows(b, off, nv),
        None => out.colors128@.len() == 0,
    })
    &&& (match layer_data(ls, ATTRIB_BITANGENTS) {
        Some(b) => out.bitangents@ == flipped_vec3_rows(b, off, nv),
        None => out.bitangents@.len() == 0,
    })
    &&& out.position_count == out.positions@.len()
    &&& out.normal_count == out.normals@.len()
    &&& out.tangent_count == out.tangents@.len()
    &&& out.uvcoord_count == out.uvcoords@.len()
    &&& out.color32_count == out.colors32@.len()
    &&& out.original_vertex_numbers_count == out.original_vertex_numbers@.len()
    &&& out.color128_count == out.colors128@.len()
    &&& out.bitangent_count == out.bitangents@.len()
}

/// `out` is the whole mesh assembled: one submesh per declared
/// submesh, in order, each over its own vertex range.
pub open spec fn asm_mesh(
    out: Seq<SubMesh>,
    ls: Seq<XACVertexAttributeLayer>,
    names: Seq<Seq<char>>,
    subs: Seq<XACSubMesh>,
) -> bool {
    &&& out.len() == subs.len()
    &&& forall|k: int|
        0 <= k < subs.len() ==> asm_submesh(
            #[trigger] out[k],
            ls,
            names,
            vert_off(subs, k),
            subs[k],
        )
}

/// The texture names one record contributes to the material name
/// table: its name for a standard material, one name per bitmap
/// parameter for an effect material, nothing otherwise.
pub open spec fn material_contrib(v: XacChunkData) -> Seq<Seq<char>> {
    match v {
        XacChunkData::XacStandardMaterial(m) => seq![m.material_name@],
        XacChunkData::XacStandardMaterial2(m) => seq![m.material_name@],
        XacChunkData::XacStandardMaterial3(m) => seq![m.material_name@],
        XacChunkData::XACFXMaterial(m) => bitmap_names(m.xac_fx_bitmap_parameter),
        XacChunkData::XACFXMaterial2(m) => bitmap_names(m.xac_fx_bitmap_parameter),
        XacChunkData::XACFXMaterial3(m) => bitmap_names(m.xac_fx_bitmap_parameter),
        _ => Seq::empty(),
    }
}

/// The bitmap value names of an effect material's parameter list.
pub open spec fn bitmap_names(o: Option<Vec<XACFXBitmapParameter>>) -> Seq<Seq<char>> {
    opt_params(o).map_values(|b: XACFXBitmapParameter| b.value_name@)
}

/// The material name table: what every record contributes, in decode
/// order.
pub open spec fn texture_names_of(cd: Seq<XacChunkData>) -> Seq<Seq<char>>
    decreases cd.len(),
{
    if cd.len() == 0 {
        Seq::empty()
    } else {
        texture_names_of(cd.drop_last()) + material_contrib(cd.last())
    }
}

/// The views of a list of strings.
pub open spec fn strings_view(v: Seq<String>) -> Seq<Seq<char>> {
    v.map_values(|s: String| s@)
}

/// Reads the `u32` held little-endian at byte offset `o` of `buf`.
fn buf_le32(buf: &Vec<u8>, o: usize) -> (x: u32)
    requires
        o + 4 <= buf@.len(),
    ensures
        x == le32_at(buf@, o as int),
{
    let n = buf.len();
    proof {
        assert(o + 4 <= n);
    }
    u32_from_le_bytes(slice_subrange(buf.as_slice(), o, o + 4))
}

/// The index of the first layer of the given kind, if any.
fn find_layer_idx(layers: &Vec<XACVertexAttributeLayer>, t: u32) -> (r: Option<usize>)
    ensures
        match r {
            Some(i) => {
                &&& i < layers@.len()
                &&& find_layer(layers@, t) == Some(layers@[i as int])
            },
            None => find_layer(layers@, t) is None,
        },
{
    let ghost ls = layers@;
    let mut i: usize = 0;
    proof {
        assert(ls.skip(0) =~= ls);
    }
    while i < layers.len()
        invariant
            ls == layers@,
            0 <= i <= ls.len(),
            find_layer(ls, t) == find_layer(ls.skip(i as int), t),
        decreases ls.len() - i,
    {
        proof {
            assert(ls.skip(i as int)[0] == ls[i as int]);
            assert(ls.skip(i as int).drop_first() =~= ls.skip(i + 1));
        }
        if layers[i].layer_type_id == t {
            return Some(i);
        }
        i = i + 1;
    }
    proof {
        assert(ls.skip(ls.len() as int) =~= Seq::<XACVertexAttributeLayer>::empty());
    }
    None
}

/// Reads `nv` sign-flipped three-float rows of width 12 starting at row `off`.
fn read_flipped_vec3_rows(buf: &Vec<u8>, off: u64, nv: u32) -> (rows: Vec<Vec3Bits>)
    requires
        nv > 0 ==> (off + nv) * 12 <= buf@.len(),
    ensures
        rows@ == flipped_vec3_rows(buf@, off as int, nv as int),
{
    let n = buf.len();
    let mut rows: Vec<Vec3Bits> = Vec::new();
    let mut j: u32 = 0;
    while j < nv
        invariant
            n == buf@.len(),
            nv > 0 ==> (off + nv) * 12 <= buf@.len(),
            0 <= j <= nv,
            rows@.len() == j,
            forall|t: int| 0 <= t < j ==> rows@[t] == flipped_vec3_rows(buf@, off as int, nv as int)[t],
        decreases nv - j,
    {
        proof {
            assert((off + j + 1) * 12 <= (off + nv) * 12) by (nonlinear_arith)
                requires
                    j < nv,
            ;
        }
        let base: usize = ((off + j as u64) as usize) * 12;
        let x = buf_le32(buf, base) ^ 0x80000000u32;
        let y = buf_le32(buf, base + 4);
        let z = buf_le32(buf, base + 8);
        rows.push(Vec3Bits { x, y, z });
        j = j + 1;
    }
    proof {
        assert(rows@ =~= flipped_vec3_rows(buf@, off as int, nv as int));
    }
    rows
}

/// Reads `nv` four-float rows of width 16 starting at row `off`.
fn read_vec4_rows(buf: &Vec<u8>, off: u64, nv: u32) -> (rows: Vec<Vec4Bits>)
    requires
        nv > 0 ==> (off + nv) * 16 <= buf@.len(),
    ensures
        rows@ == vec4_rows(buf@, off as int, nv as int),
{
    let n = buf.len();
    let mut rows: Vec<Vec4Bits> = Vec::new();
    let mut j: u32 = 0;
    while j < nv
        invariant
            n == buf@.len(),
            nv > 0 ==> (off + nv) * 16 <= buf@.len(),
            0 <= j <= nv,
            rows@.len() == j,
            forall|t: int| 0 <= t < j ==> rows@[t] == vec4_rows(buf@, off as int, nv as int)[t],
        decreases nv - j,
    {
        proof {
            assert((off + j + 1) * 16 <= (off + nv) * 16) by (nonlinear_arith)
                requires
                    j < nv,
            ;
        }
        let base: usize = ((off + j as u64) as usize) * 16;
        let x = buf_le32(buf, base);
        let y = buf_le32(buf, base + 4);
        let z = buf_le32(buf, base + 8);
        let w = buf_le32(buf, base + 12);
        rows.push(Vec4Bits { x, y, z, w });
        j = j + 1;
    }
    proof {
        assert(rows@ =~= vec4_rows(buf@, off as int, nv as int));
    }
    rows
}

/// Reads `nv` texture-coordinate rows of width 8 starting at row `off`.
fn read_uv_rows(buf: &Vec<u8>, off: u64, nv: u32) -> (rows: Vec<UvBits>)
    requires
        nv > 0 ==> (off + nv) * 8 <= buf@.len(),
    ensures
        rows@ == uv_rows(buf@, off as int, nv as int),
{
    let n = buf.len();
    let mut rows: Vec<UvBits> = Vec::new();
    let mut j: u32 = 0;
    while j < nv
        invariant
            n == buf@.len(),
            nv > 0 ==> (off + nv) * 8 <= buf@.len(),
            0 <= j <= nv,
            rows@.len() == j,
            forall|t: int| 0 <= t < j ==> rows@[t] == uv_rows(buf@, off as int, nv as int)[t],
        decreases nv - j,
    {
        proof {
            assert((off + j + 1) * 8 <= (off + nv) * 8) by (nonlinear_arith)
                requires
                    j < nv,
            ;
        }
        let base: usize = ((off + j as u64) as usize) * 8;
        let u = buf_le32(buf, base);
        let v = buf_le32(buf, base + 4);
        rows.push(UvBits { u, v });
        j = j + 1;
    }
    proof {
        assert(rows@ =~= uv_rows(buf@, off as int, nv as int));
    }
    rows
}

/// Reads `nv` packed 32-bit rows of width 4 starting at row `off`.
fn read_u32_rows(buf: &Vec<u8>, off: u64, nv: u32) -> (rows: Vec<u32>)
    requires
        nv > 0 ==> (off + nv) * 4 <= buf@.len(),
    ensures
        rows@ == u32_rows(buf@, off as int, nv as int),
{
    let n = buf.len();
    let mut rows: Vec<u32> = Vec::new();
    let mut j: u32 = 0;
    while j < nv
        invariant
            n == buf@.len(),
            nv > 0 ==> (off + nv) * 4 <= buf@.len(),
            0 <= j <= nv,
            rows@.len() == j,
            forall|t: int| 0 <= t < j ==> rows@[t] == u32_rows(buf@, off as int, nv as int)[t],
        decreases nv - j,
    {
        proof {
            assert((off + j + 1) * 4 <= (off + nv) * 4) by (nonlinear_arith)
                requires
                    j < nv,
            ;
        }
        let base: usize = ((off + j as u64) as usize) * 4;
        let x = buf_le32(buf, base);
        rows.push(x);
        j = j + 1;
    }
    proof {
        assert(rows@ =~= u32_rows(buf@, off as int, nv as int));
    }
    rows
}

proof fn lemma_vert_off_bound(subs: Seq<XACSubMesh>, k: int)
    requires
        0 <= k <= subs.len(),
    ensures
        0 <= vert_off(subs, k) <= k * 0xFFFFFFFFu32,
    decreases k,
{
    if k > 0 {
        lemma_vert_off_bound(subs, k - 1);
        assert((k - 1) * 0xFFFFFFFFu32 + 0xFFFFFFFFu32 == k * 0xFFFFFFFFu32) by (nonlinear_arith);
    }
}

/// Assembles submesh `k`, whose vertex rows are `[off, off+num_verts)`
/// of every attribute column present; fails with the first attribute
/// whose column is too short for that range.
#[verifier::rlimit(100)]
fn assemble_one(
    layers: &Vec<XACVertexAttributeLayer>,
    texture_names: &Vec<String>,
    sm: &XACSubMesh,
    off: u128,
    k: usize,
) -> (res: Result<SubMesh, TosError>)
    requires
        off <= 0x1000000000000000000000000u128,
    ensures
        match res {
            Ok(out) => {
                &&& submesh_asm_error(layers@, off as int, sm.num_verts as int, k as int) is None
                &&& asm_submesh(out, layers@, strings_view(texture_names@), off as int, *sm)
            },
            Err(e) => submesh_asm_error(layers@, off as int, sm.num_verts as int, k as int)
                == Some(e),
        },
{
    let nv = sm.num_verts;
    let texture_name = if sm.material_index != 0 && (sm.material_index as usize)
        < texture_names.len() {
        texture_names[sm.material_index as usize].clone()
    } else {
        String::new()
    };
    let off64: u64 = if off > 0xFFFFFFFFFFFFFFFFu128 {
        0xFFFFFFFFFFFFFFFFu64
    } else {
        off as u64
    };

    let mut positions: Vec<Vec3Bits> = Vec::new();
    match find_layer_idx(layers, ATTRIB_POSITIONS) {
        Some(li) => {
            let buf = &layers[li].mesh_data;
            if nv > 0 && (off + nv as u128) * 12 > buf.len() as u128 {
                return Err(TosError::TruncatedAttributeBuffer {
                    layer_type: ATTRIB_POSITIONS,
                    submesh_index: k,
                });
            }
            positions = read_flipped_vec3_rows(buf, off64, nv);
            proof {
                assert(positions@ =~= flipped_vec3_rows(buf@, off as int, nv as int));
            }
        },
        None => {},
    }

    let mut normals: Vec<Vec3Bits> = Vec::new();
    match find_layer_idx(layers, ATTRIB_NORMALS) {
        Some(li) => {
            let buf = &layers[li].mesh_data;
            if nv > 0 && (off + nv as u128) * 12 > buf.len() as u128 {
                return Err(TosError::TruncatedAttributeBuffer {
                    layer_type: ATTRIB_NORMALS,
                    submesh_index: k,
                });
            }
            normals = read_flipped_vec3_rows(buf, off64, nv);
            proof {
                assert(normals@ =~= flipped_vec3_rows(buf@, off as int, nv as int));
            }
        },
        None => {},
    }

    let mut tangents: Vec<Vec4Bits> = Vec::new();
    match find_layer_idx(layers, ATTRIB_TANGENTS) {
        Some(li) => {
            let buf = &layers[li].mesh_data;
            if nv > 0 && (off + nv as u128) * 16 > buf.len() as u128 {
                return Err(TosError::TruncatedAttributeBuffer {
                    layer_type: ATTRIB_TANGENTS,
                    submesh_index: k,
                });
            }
            tangents = read_vec4_rows(buf, off64, nv);
            proof {
                assert(tangents@ =~= vec4_rows(buf@, off as int, nv as int));
            }
        },
        None => {},
    }

    let mut uvcoords: Vec<UvBits> = Vec::new();
    match find_layer_idx(layers, ATTRIB_UVCOORDS) {
        Some(li) => {
            let buf = &layers[li].mesh_data;
            if nv > 0 && (off + nv as u128) * 8 > buf.len() as u128 {
                return Err(TosError::TruncatedAttributeBuffer {
                    layer_type: ATTRIB_UVCOORDS,
                    submesh_index: k,
                });
            }
            uvcoords = read_uv_rows(buf, off64, nv);
            proof {
                assert(uvcoords@ =~= uv_rows(buf@, off as int, nv as int));
            }
        },
        None => {},
    }

    let mut colors32: Vec<u32> = Vec::new();
    match find_layer_idx(layers, ATTRIB_COLORS32) {
        Some(li) => {
            let buf = &layers[li].mesh_data;
            if nv > 0 && (off + nv as u128) * 4 > buf.len() as u128 {
                return Err(TosError::TruncatedAttributeBuffer {
                    layer_type: ATTRIB_COLORS32,
                    submesh_index: k,
                });
            }
            colors32 = read_u32_rows(buf, off64, nv);
            proof {
                assert(colors32@ =~= u32_rows(buf@, off as int, nv as int));
            }
        },
        None => {},
    }

    let mut original_vertex_numbers: Vec<u32> = Vec::new();
    match find_layer_idx(layers, ATTRIB_ORGVTXNUMBERS) {
        Some(li) => {
            let buf = &layers[li].mesh_data;
            if nv > 0 && (off + nv as u128) * 4 > buf.len() as u128 {
                return Err(TosError::TruncatedAttributeBuffer {
                    layer_type: ATTRIB_ORGVTXNUMBERS,
                    submesh_index: k,
                });
            }
            original_vertex_numbers = read_u32_rows(buf, off64, nv);
            proof {
                assert(original_vertex_numbers@ =~= u32_rows(buf@, off as int, nv as int));
            }
        },
        None => {},
    }

    let mut colors128: Vec<Vec4Bits> = Vec::new();
    match find_layer_idx(layers, ATTRIB_COLORS128) {
        Some(li) => {
            let buf = &layers[li].mesh_data;
            if nv > 0 && (off + nv as u128) * 16 > buf.len() as u128 {
                return Err(TosError::TruncatedAttributeBuffer {
                    layer_type: ATTRIB_COLORS128,
                    submesh_index: k,
                });
            }
            colors128 = read_vec4_rows(buf, off64, nv);
            proof {
                assert(colors128@ =~= vec4_rows(buf@, off as int, nv as int));
            }
        },
        None => {},
    }

    let mut bitangents: Vec<Vec3Bits> = Vec::new();
    match find_layer_idx(layers, ATTRIB_BITANGENTS) {
        Some(li) => {
            let buf = &layers[li].mesh_data;
            if nv > 0 && (off + nv as u128) * 12 > buf.len() as u128 {
                return Err(TosError::TruncatedAttributeBuffer {
                    layer_type: ATTRIB_BITANGENTS,
                    submesh_index: k,
                });
            }
            bitangents = read_flipped_vec3_rows(buf, off64, nv);
            proof {
                assert(bitangents@ =~= flipped_vec3_rows(buf@, off as int, nv as int));
            }
        },
        None => {},
    }

    let position_count = positions.len();
    let normal_count = normals.len();
    let tangent_count = tangents.len();
    let uvcoord_count = uvcoords.len();
    let color32_count = colors32.len();
    let original_vertex_numbers_count = original_vertex_numbers.len();
    let color128_count = colors128.len();
    let bitangent_count = bitangents.len();
    Ok(SubMesh {
        texture_name,
        position_count,
        positions,
        normal_count,
        normals,
        tangent_count,
        tangents,
        uvcoord_count,
        uvcoords,
        color32_count,
        colors32,
        original_vertex_numbers_count,
        original_vertex_numbers,
        color128_count,
        colors128,
        bitangent_count,
        bitangents,
    })
}

/// The error assembling every mesh chunk of `cd` raises, if any: the
/// first mesh, in decode order, whose assembly fails.
pub open spec fn meshes_error(cd: Seq<XacChunkData>) -> Option<TosError>
    decreases cd.len(),
{
    if cd.len() == 0 {
        None
    } else {
        match cd[0] {
            XacChunkData::XACMesh(m) => match mesh_asm_error(
                m.vertex_attribute_layer@,
                m.sub_meshes@,
            ) {
                Some(e) => Some(e),
                None => meshes_error(cd.drop_first()),
            },
            XacChunkData::XACMesh2(m) => match mesh_asm_error(
                m.vertex_attribute_layer@,
                m.sub_meshes@,
            ) {
                Some(e) => Some(e),
                None => meshes_error(cd.drop_first()),
            },
            _ => meshes_error(cd.drop_first()),
        }
    }
}

/// `out` holds one assembled mesh per mesh chunk of `cd`, in order.
pub open spec fn asm_all_meshes(out: Seq<Mesh>, cd: Seq<XacChunkData>, names: Seq<Seq<char>>) -> bool
    decreases cd.len(),
{
    if cd.len() == 0 {
        out.len() == 0
    } else {
        match cd[0] {
            XacChunkData::XACMesh(m) => {
                &&& out.len() > 0
                &&& out[0].submesh_count == out[0].submeshes@.len()
                &&& asm_mesh(out[0].submeshes@, m.vertex_attribute_layer@, names, m.sub_meshes@)
                &&& asm_all_meshes(out.drop_first(), cd.drop_first(), names)
            },
            XacChunkData::XACMesh2(m) => {
                &&& out.len() > 0
                &&& out[0].submesh_count == out[0].submeshes@.len()
                &&& asm_mesh(out[0].submeshes@, m.vertex_attribute_layer@, names, m.sub_meshes@)
                &&& asm_all_meshes(out.drop_first(), cd.drop_first(), names)
            },
            _ => asm_all_meshes(out, cd.drop_first(), names),
        }
    }
}

/// Whether a record is a mesh chunk of either shape.
pub open spec fn is_mesh_chunk(v: XacChunkData) -> bool {
    v matches XacChunkData::XACMesh(_) || v matches XacChunkData::XACMesh2(_)
}

proof fn lemma_asm_all_snoc(
    out: Seq<Mesh>,
    cd: Seq<XacChunkData>,
    names: Seq<Seq<char>>,
    v: XacChunkData,
    x: Option<Mesh>,
)
    requires
        asm_all_meshes(out, cd, names),
        is_mesh_chunk(v) ==> {
            &&& x is Some
            &&& x->Some_0.submesh_count == x->Some_0.submeshes@.len()
            &&& (v matches XacChunkData::XACMesh(m) ==> asm_mesh(
                x->Some_0.submeshes@,
                m.vertex_attribute_layer@,
                names,
                m.sub_meshes@,
            ))
            &&& (v matches XacChunkData::XACMesh2(m) ==> asm_mesh(
                x->Some_0.submeshes@,
                m.vertex_attribute_layer@,
                names,
                m.sub_meshes@,
            ))
        },
        !is_mesh_chunk(v) ==> x is None,
    ensures
        asm_all_meshes(
            if x is Some {
                out.push(x->Some_0)
            } else {
                out
            },
            cd.push(v),
            names,
        ),
    decreases cd.len(),
{
    reveal_with_fuel(asm_all_meshes, 3);
    if cd.len() == 0 {
        assert(cd.push(v)[0] == v);
        assert(cd.push(v).drop_first() =~= Seq::<XacChunkData>::empty());
        if x is Some {
            let o2 = out.push(x->Some_0);
            assert(o2[0] == x->Some_0);
            assert(o2.drop_first() =~= Seq::<Mesh>::empty());
        }
    } else {
        assert(cd.push(v)[0] == cd[0]);
        assert(cd.push(v).drop_first() =~= cd.drop_first().push(v));
        match cd[0] {
            XacChunkData::XACMesh(_) | XacChunkData::XACMesh2(_) => {
                lemma_asm_all_snoc(out.drop_first(), cd.drop_first(), names, v, x);
                if x is Some {
                    assert(out.push(x->Some_0)[0] == out[0]);
                    assert(out.push(x->Some_0).drop_first() =~= out.drop_first().push(
                        x->Some_0,
                    ));
                }
            },
            _ => {
                lemma_asm_all_snoc(out, cd.drop_first(), names, v, x);
            },
        }
    }
}

impl XACFile {
    /// Builds the material name table by scanning every decoded record
    /// in order: one name per standard material, one name per bitmap
    /// parameter of an effect material.
    fn get_texture_names(&self) -> (r: Vec<String>)
        ensures
            strings_view(r@) == texture_names_of(self.chunk_data@),
    {
        let ghost cd = self.chunk_data@;
        let mut textures: Vec<String> = Vec::new();
        let mut i: usize = 0;
        proof {
            assert(cd.take(0) =~= Seq::<XacChunkData>::empty());
            assert(strings_view(textures@) =~= texture_names_of(cd.take(0)));
        }
        while i < self.chunk_data.len()
            invariant
                cd == self.chunk_data@,
                0 <= i <= cd.len(),
                strings_view(textures@) == texture_names_of(cd.take(i as int)),
            decreases cd.len() - i,
        {
            let ghost prev = strings_view(textures@);
            proof {
                assert(cd.take(i + 1).drop_last() =~= cd.take(i as int));
                assert(cd.take(i + 1).last() == cd[i as int]);
            }
            match &self.chunk_data[i] {
                XacChunkData::XacStandardMaterial(material) => {
                    textures.push(material.material_name.clone());
                    proof {
                        assert(strings_view(textures@) =~= prev + material_contrib(cd[i as int]));
                    }
                },
                XacChunkData::XacStandardMaterial2(material) => {
                    textures.push(material.material_name.clone());
                    proof {
                        assert(strings_view(textures@) =~= prev + material_contrib(cd[i as int]));
                    }
                },
                XacChunkData::XacStandardMaterial3(material) => {
                    textures.push(material.material_name.clone());
                    proof {
                        assert(strings_view(textures@) =~= prev + material_contrib(cd[i as int]));
                    }
                },
                XacChunkData::XACFXMaterial(material) => {
                    match &material.xac_fx_bitmap_parameter {
                        Some(bitmap_params) => {
                            push_bitmap_names(&mut textures, bitmap_params);
                        },
                        None => {},
                    }
                    proof {
                        assert(strings_view(textures@) =~= prev + material_contrib(cd[i as int]));
                    }
                },
                XacChunkData::XACFXMaterial2(material) => {
                    match &material.xac_fx_bitmap_parameter {
                        Some(bitmap_params) => {
                            push_bitmap_names(&mut textures, bitmap_params);
                        },
                        None => {},
                    }
                    proof {
                        assert(strings_view(textures@) =~= prev + material_contrib(cd[i as int]));
                    }
                },
                XacChunkData::XACFXMaterial3(material) => {
                    match &material.xac_fx_bitmap_parameter {
                        Some(bitmap_params) => {
                            push_bitmap_names(&mut textures, bitmap_params);
                        },
                        None => {},
                    }
                    proof {
                        assert(strings_view(textures@) =~= prev + material_contrib(cd[i as int]));
                    }
                },
                _ => {
                    proof {
                        assert(material_contrib(cd[i as int]) =~= Seq::<Seq<char>>::empty());
                        assert(strings_view(textures@) =~= prev + material_contrib(cd[i as int]));
                    }
                },
            }
            i = i + 1;
        }
        proof {
            assert(cd.take(cd.len() as int) =~= cd);
        }
        textures
    }

    /// Turns one first-shape mesh chunk into typed per-submesh geometry.
    pub fn export_to_struct(&self, mesh: &XACMesh) -> (res: Result<Mesh, TosError>)
        ensures
            ({
                let ls = mesh.vertex_attribute_layer@;
                let subs = mesh.sub_meshes@;
                let names = texture_names_of(self.chunk_data@);
                match res {
                    Ok(m) => {
                        &&& mesh_asm_error(ls, subs) is None
                        &&& m.submesh_count == m.submeshes@.len()
                        &&& asm_mesh(m.submeshes@, ls, names, subs)
                    },
                    Err(e) => mesh_asm_error(ls, subs) == Some(e),
                }
            }),
    {
        let texture_names = self.get_texture_names();
        assemble_mesh(&mesh.vertex_attribute_layer, &mesh.sub_meshes, &texture_names)
    }

    /// Turns one second-shape mesh chunk into typed per-submesh geometry.
    pub fn export_to_struct2(&self, mesh: &XACMesh2) -> (res: Result<Mesh, TosError>)
        ensures
            ({
                let ls = mesh.vertex_attribute_layer@;
                let subs = mesh.sub_meshes@;
                let names = texture_names_of(self.chunk_data@);
                match res {
                    Ok(m) => {
                        &&& mesh_asm_error(ls, subs) is None
                        &&& m.submesh_count == m.submeshes@.len()
                        &&& asm_mesh(m.submeshes@, ls, names, subs)
                    },
                    Err(e) => mesh_asm_error(ls, subs) == Some(e),
                }
            }),
    {
        let texture_names = self.get_texture_names();
        assemble_mesh(&mesh.vertex_attribute_layer, &mesh.sub_meshes, &texture_names)
    }

    /// Assembles every mesh chunk, in decode order. The first mesh whose
    /// assembly fails ends the call with that mesh's error.
    pub fn export_all_meshes_into_struct(&self) -> (res: Result<Vec<Mesh>, TosError>)
        ensures
            match res {
                Ok(v) => {
                    &&& meshes_error(self.chunk_data@) is None
                    &&& asm_all_meshes(
                        v@,
                        self.chunk_data@,
                        texture_names_of(self.chunk_data@),
                    )
                },
                Err(e) => meshes_error(self.chunk_data@) == Some(e),
            },
    {
        let ghost cd = self.chunk_data@;
        let ghost names = texture_names_of(cd);
        let mut all_meshes: Vec<Mesh> = Vec::new();
        let mut i: usize = 0;
        proof {
            assert(cd.take(0) =~= Seq::<XacChunkData>::empty());
            assert(cd.skip(0) =~= cd);
        }
        while i < self.chunk_data.len()
            invariant
                cd == self.chunk_data@,
                names == texture_names_of(cd),
                0 <= i <= cd.len(),
                asm_all_meshes(all_meshes@, cd.take(i as int), names),
                meshes_error(cd) == meshes_error(cd.skip(i as int)),
            decreases cd.len() - i,
        {
            proof {
                assert(cd.skip(i as int)[0] == cd[i as int]);
                assert(cd.skip(i as int).drop_first() =~= cd.skip(i + 1));
                assert(cd.take(i + 1) =~= cd.take(i as int).push(cd[i as int]));
            }
            let ghost pre = all_meshes@;
            match &self.chunk_data[i] {
                XacChunkData::XACMesh(mesh) => {
                    match self.export_to_struct(mesh) {
                        Ok(m) => {
                            all_meshes.push(m);
                            proof {
                                lemma_asm_all_snoc(
                                    pre,
                                    cd.take(i as int),
                                    names,
                                    cd[i as int],
                                    Some(all_meshes@.last()),
                                );
                            }
                        },
                        Err(e) => {
                            return Err(e);
                        },
                    }
                },
                XacChunkData::XACMesh2(mesh) => {
                    match self.export_to_struct2(mesh) {
                        Ok(m) => {
                            all_meshes.push(m);
                            proof {
                                lemma_asm_all_snoc(
                                    pre,
                                    cd.take(i as int),
                                    names,
                                    cd[i as int],
                                    Some(all_meshes@.last()),
                                );
                            }
                        },
                        Err(e) => {
                            return Err(e);
                        },
                    }
                },
                _ => {
                    proof {
                        lemma_asm_all_snoc(pre, cd.take(i as int), names, cd[i as int], None);
                    }
                },
            }
            i = i + 1;
        }
        proof {
            assert(cd.take(cd.len() as int) =~= cd);
            assert(cd.skip(cd.len() as int) =~= Seq::<XacChunkData>::empty());
        }
        Ok(all_meshes)
    }
}

/// The first `j` bitmap value names of a parameter list.
pub open spec fn bitmap_names_prefix(bp: Seq<XACFXBitmapParameter>, j: int) -> Seq<Seq<char>> {
    Seq::new(j as nat, |t: int| bp[t].value_name@)
}

/// Pushes the bitmap value names of one effect material onto the table.
fn push_bitmap_names(textures: &mut Vec<String>, bitmap_params: &Vec<XACFXBitmapParameter>)
    ensures
        strings_view(final(textures)@) == strings_view(old(textures)@) + bitmap_names(
            Some(*bitmap_params),
        ),
{
    let ghost base = strings_view(old(textures)@);
    let ghost bp = bitmap_params@;
    let mut j: usize = 0;
    proof {
        assert(strings_view(textures@) =~= base + bitmap_names_prefix(bp, 0));
    }
    while j < bitmap_params.len()
        invariant
            bp == bitmap_params@,
            0 <= j <= bp.len(),
            strings_view(textures@) == base + bitmap_names_prefix(bp, j as int),
        decreases bp.len() - j,
    {
        let ghost pre_t = textures@;
        textures.push(bitmap_params[j].value_name.clone());
        proof {
            let lhs = strings_view(textures@);
            let rhs = base + bitmap_names_prefix(bp, j + 1);
            assert(textures@ == pre_t.push(textures@.last()));
            assert(textures@.last()@ == bp[j as int].value_name@);
            assert(lhs.len() == textures@.len());
            assert(strings_view(pre_t).len() == pre_t.len());
            assert(pre_t.len() == base.len() + j);
            assert(lhs.len() == rhs.len());
            assert forall|t: int| 0 <= t < lhs.len() implies lhs[t] == rhs[t] by {
                assert(lhs[t] == textures@[t]@);
                if t < pre_t.len() {
                    assert(textures@[t] == pre_t[t]);
                    assert(strings_view(pre_t)[t] == pre_t[t]@);
                    assert(strings_view(pre_t)[t] == (base + bitmap_names_prefix(bp, j as int))[t]);
                    if t < base.len() {
                        assert(rhs[t] == base[t]);
                        assert((base + bitmap_names_prefix(bp, j as int))[t] == base[t]);
                    } else {
                        assert(rhs[t] == bitmap_names_prefix(bp, j + 1)[t - base.len()]);
                        assert(bitmap_names_prefix(bp, j + 1)[t - base.len()] == bp[t
                            - base.len()].value_name@);
                        assert((base + bitmap_names_prefix(bp, j as int))[t]
                            == bitmap_names_prefix(bp, j as int)[t - base.len()]);
                        assert(bitmap_names_prefix(bp, j as int)[t - base.len()] == bp[t
                            - base.len()].value_name@);
                    }
                } else {
                    assert(t == pre_t.len());
                    assert(textures@[t] == textures@.last());
                    assert(rhs[t] == bitmap_names_prefix(bp, j + 1)[j as int]);
                    assert(bitmap_names_prefix(bp, j + 1)[j as int] == bp[j as int].value_name@);
                }
            }
            assert(lhs =~= rhs);
        }
        j = j + 1;
    }
    proof {
        assert(bitmap_names_prefix(bp, bp.len() as int) =~= bitmap_names(Some(*bitmap_params)));
        assert(strings_view(textures@) =~= base + bitmap_names(Some(*bitmap_params)));
    }
}

/// Assembles a whole mesh from its attribute layers, submeshes and the
/// material name table: a running vertex offset partitions each flat
/// column into per-submesh ranges.
fn assemble_mesh(
    layers: &Vec<XACVertexAttributeLayer>,
    sub_meshes: &Vec<XACSubMesh>,
    texture_names: &Vec<String>,
) -> (res: Result<Mesh, TosError>)
    ensures
        match res {
            Ok(m) => {
                &&& mesh_asm_error(layers@, sub_meshes@) is None
                &&& m.submesh_count == m.submeshes@.len()
                &&& asm_mesh(m.submeshes@, layers@, strings_view(texture_names@), sub_meshes@)
            },
            Err(e) => mesh_asm_error(layers@, sub_meshes@) == Some(e),
        },
{
    let ghost ls = layers@;
    let ghost subs = sub_meshes@;
    let mut submeshes: Vec<SubMesh> = Vec::new();
    let mut vertex_offset: u128 = 0;
    let mut k: usize = 0;
    while k < sub_meshes.len()
        invariant
            ls == layers@,
            subs == sub_meshes@,
            0 <= k <= subs.len(),
            submeshes@.len() == k,
            vertex_offset == vert_off(subs, k as int),
            forall|t: int|
                0 <= t < k ==> asm_submesh(
                    #[trigger] submeshes@[t],
                    ls,
                    strings_view(texture_names@),
                    vert_off(subs, t),
                    subs[t],
                ),
            mesh_asm_error_from(ls, subs, 0, 0) == mesh_asm_error_from(
                ls,
                subs,
                k as int,
                vertex_offset as int,
            ),
        decreases subs.len() - k,
    {
        proof {
            lemma_vert_off_bound(subs, k as int);
        }
        let sm = &sub_meshes[k];
        match assemble_one(layers, texture_names, sm, vertex_offset, k) {
            Ok(out) => {
                submeshes.push(out);
            },
            Err(e) => {
                return Err(e);
            },
        }
        vertex_offset = vertex_offset + sm.num_verts as u128;
        k = k + 1;
    }
    let submesh_count = submeshes.len();
    Ok(Mesh { submesh_count, submeshes })
}

/// Law: axis convention of assembled rows. A position row keeps its
/// second and third components and flips only the sign bit of the
/// first — the bit-level form of negating the X float — while a
/// texture-coordinate row passes through unchanged.
pub proof fn lemma_row_axis_convention(b: Seq<u8>, off: int, n: int, i: int)
    requires
        0 <= i < n,
    ensures
        flipped_vec3_rows(b, off, n)[i] == (Vec3Bits {
            x: le32_at(b, (off + i) * 12) ^ 0x80000000u32,
            y: le32_at(b, (off + i) * 12 + 4),
            z: le32_at(b, (off + i) * 12 + 8),
        }),
        uv_rows(b, off, n)[i] == (UvBits {
            u: le32_at(b, (off + i) * 8),
            v: le32_at(b, (off + i) * 8 + 4),
        }),
{
}

/// Law: submesh slicing. In an assembled mesh, submesh `k`'s rows are
/// sliced from the shared flat position column starting at the sum of
/// the vertex counts declared before it — row `j` of submesh `k` is
/// row `vert_off(subs, k) + j` of the column, never row `j`.
pub proof fn lemma_submesh_slicing(
    out: Seq<SubMesh>,
    ls: Seq<XACVertexAttributeLayer>,
    names: Seq<Seq<char>>,
    subs: Seq<XACSubMesh>,
    k: int,
    j: int,
)
    requires
        asm_mesh(out, ls, names, subs),
        0 <= k < subs.len(),
        0 <= j < subs[k].num_verts,
        layer_data(ls, ATTRIB_POSITIONS) is Some,
    ensures
        out[k].positions@[j] == (Vec3Bits {
            x: flip_sign(le32_at(layer_data(ls, ATTRIB_POSITIONS)->Some_0, (vert_off(subs, k) + j) * 12)),
            y: le32_at(layer_data(ls, ATTRIB_POSITIONS)->Some_0, (vert_off(subs, k) + j) * 12 + 4),
            z: le32_at(layer_data(ls, ATTRIB_POSITIONS)->Some_0, (vert_off(subs, k) + j) * 12 + 8),
        }),
{
    assert(asm_submesh(out[k], ls, names, vert_off(subs, k), subs[k]));
}

} // verus!
