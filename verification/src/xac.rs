use vstd::prelude::*;
use crate::errors::TosError;
use crate::stream::{le16_at, le32_at, lossy_utf8, lossy_string, BinaryReader, SeekFrom};

verus! {

/// The four-byte tag a model file must start with, as a little-endian
/// `u32` (the characters `X`, `A`, `C`, space).
pub const XAC_MAGIC: u32 = 0x20434158;

// ---------------------------------------------------------------------
// Small value types. Floating-point fields of the file format are kept
// as their raw IEEE-754 bit patterns in `u32` fields; consumers turn
// them into floats outside the library.
// ---------------------------------------------------------------------

/// A color with four float components, held as bit patterns.
#[derive(Debug, Clone, Copy, PartialEq, Eq, Structural)]
pub struct FileColor {
    pub color_red: u32,
    pub color_green: u32,
    pub color_blue: u32,
    pub color_alpha: u32,
}

/// A 3D vector with float components held as bit patterns.
#[derive(Debug, Clone, Copy, PartialEq, Eq, Structural)]
pub struct FileVector3 {
    pub axis_x: u32,
    pub axis_y: u32,
    pub axis_z: u32,
}

/// A quaternion with float components held as bit patterns.
#[derive(Debug, Clone, Copy, PartialEq, Eq, Structural)]
pub struct FileQuaternion {
    pub axis_x: u32,
    pub axis_y: u32,
    pub axis_z: u32,
    pub axis_w: u32,
}

/// A compressed 3D vector of three 16-bit components.
#[derive(Debug, Clone, Copy, PartialEq, Eq, Structural)]
pub struct File16BitVector3 {
    pub axis_x: u16,
    pub axis_y: u16,
    pub axis_z: u16,
}

/// A compressed 3D vector of three 8-bit components.
#[derive(Debug, Clone, Copy, PartialEq, Eq, Structural)]
pub struct File8BitVector3 {
    pub axis_x: u8,
    pub axis_y: u8,
    pub axis_z: u8,
}

/// The model file header.
#[derive(Debug, Clone, Copy, PartialEq, Eq, Structural)]
pub struct XacHeader {
    pub fourcc: u32,
    pub hi_version: u8,
    pub lo_version: u8,
    pub endian_type: u8,
    pub mul_order: u8,
}

/// One chunk header: kind id, declared payload length, schema version.
#[derive(Debug, Clone, Copy, PartialEq, Eq, Structural)]
pub struct FileChunk {
    pub chunk_id: u32,
    pub size_in_bytes: u32,
    pub version: u32,
}

// ---------------------------------------------------------------------
// Spec readers for the small value types.
// ---------------------------------------------------------------------

/// The color whose four components start at `p`.
pub open spec fn color_at(d: Seq<u8>, p: int) -> FileColor {
    FileColor {
        color_red: le32_at(d, p),
        color_green: le32_at(d, p + 4),
        color_blue: le32_at(d, p + 8),
        color_alpha: le32_at(d, p + 12),
    }
}

/// The vector whose three components start at `p`.
pub open spec fn vec3_at(d: Seq<u8>, p: int) -> FileVector3 {
    FileVector3 {
        axis_x: le32_at(d, p),
        axis_y: le32_at(d, p + 4),
        axis_z: le32_at(d, p + 8),
    }
}

/// The quaternion whose four components start at `p`.
pub open spec fn quat_at(d: Seq<u8>, p: int) -> FileQuaternion {
    FileQuaternion {
        axis_x: le32_at(d, p),
        axis_y: le32_at(d, p + 4),
        axis_z: le32_at(d, p + 8),
        axis_w: le32_at(d, p + 12),
    }
}

/// The 16-bit vector whose components start at `p`.
pub open spec fn vec3_16_at(d: Seq<u8>, p: int) -> File16BitVector3 {
    File16BitVector3 {
        axis_x: le16_at(d, p),
        axis_y: le16_at(d, p + 2),
        axis_z: le16_at(d, p + 4),
    }
}

/// The 8-bit vector whose components start at `p`.
pub open spec fn vec3_8_at(d: Seq<u8>, p: int) -> File8BitVector3 {
    File8BitVector3 { axis_x: d[p], axis_y: d[p + 1], axis_z: d[p + 2] }
}

/// A length-prefixed string fits at `p`: four length bytes, then as many
/// raw bytes as the length says.
pub open spec fn lp_ok(d: Seq<u8>, p: int) -> bool {
    &&& p + 4 <= d.len()
    &&& p + 4 + le32_at(d, p) <= d.len()
}

/// The position just after the length-prefixed string at `p`.
pub open spec fn lp_end(d: Seq<u8>, p: int) -> int {
    p + 4 + le32_at(d, p)
}

/// The text of the length-prefixed string at `p`, decoded leniently.
pub open spec fn lp_str(d: Seq<u8>, p: int) -> Seq<char> {
    lossy_utf8(d.subrange(p + 4, p + 4 + le32_at(d, p)))
}

/// The `n` little-endian `u32` values starting at `p`.
pub open spec fn u32_seq_at(d: Seq<u8>, p: int, n: int) -> Seq<u32> {
    Seq::new(n as nat, |i: int| le32_at(d, p + 4 * i))
}

/// The `n` little-endian `u16` values starting at `p`.
pub open spec fn u16_seq_at(d: Seq<u8>, p: int, n: int) -> Seq<u16> {
    Seq::new(n as nat, |i: int| le16_at(d, p + 2 * i))
}

// ---------------------------------------------------------------------
// Exec readers for the shared pieces.
// ---------------------------------------------------------------------

/// Reads a four-component color.
fn read_color(r: &mut BinaryReader) -> (res: Result<FileColor, TosError>)
    ensures
        final(r).data() == old(r).data(),
        match res {
            Ok(v) => {
                &&& old(r).pos() + 16 <= old(r).data().len()
                &&& v == color_at(old(r).data(), old(r).pos())
                &&& final(r).pos() == old(r).pos() + 16
            },
            Err(e) => {
                &&& e == TosError::IoError
                &&& old(r).pos() + 16 > old(r).data().len()
            },
        },
{
    let color_red = r.read_u32()?;
    let color_green = r.read_u32()?;
    let color_blue = r.read_u32()?;
    let color_alpha = r.read_u32()?;
    Ok(FileColor { color_red, color_green, color_blue, color_alpha })
}

/// Reads a three-component vector.
fn read_vec3(r: &mut BinaryReader) -> (res: Result<FileVector3, TosError>)
    ensures
        final(r).data() == old(r).data(),
        match res {
            Ok(v) => {
                &&& old(r).pos() + 12 <= old(r).data().len()
                &&& v == vec3_at(old(r).data(), old(r).pos())
                &&& final(r).pos() == old(r).pos() + 12
            },
            Err(e) => {
                &&& e == TosError::IoError
                &&& old(r).pos() + 12 > old(r).data().len()
            },
        },
{
    let axis_x = r.read_u32()?;
    let axis_y = r.read_u32()?;
    let axis_z = r.read_u32()?;
    Ok(FileVector3 { axis_x, axis_y, axis_z })
}

/// Reads a four-component quaternion.
fn read_quat(r: &mut BinaryReader) -> (res: Result<FileQuaternion, TosError>)
    ensures
        final(r).data() == old(r).data(),
        match res {
            Ok(v) => {
                &&& old(r).pos() + 16 <= old(r).data().len()
                &&& v == quat_at(old(r).data(), old(r).pos())
                &&& final(r).pos() == old(r).pos() + 16
            },
            Err(e) => {
                &&& e == TosError::IoError
                &&& old(r).pos() + 16 > old(r).data().len()
            },
        },
{
    let axis_x = r.read_u32()?;
    let axis_y = r.read_u32()?;
    let axis_z = r.read_u32()?;
    let axis_w = r.read_u32()?;
    Ok(FileQuaternion { axis_x, axis_y, axis_z, axis_w })
}

/// Reads a length-prefixed string.
fn read_lpstring(r: &mut BinaryReader) -> (res: Result<String, TosError>)
    ensures
        final(r).data() == old(r).data(),
        match res {
            Ok(v) => {
                &&& lp_ok(old(r).data(), old(r).pos())
                &&& v@ == lp_str(old(r).data(), old(r).pos())
                &&& final(r).pos() == lp_end(old(r).data(), old(r).pos())
            },
            Err(e) => {
                &&& e == TosError::IoError
                &&& !lp_ok(old(r).data(), old(r).pos())
            },
        },
{
    let n = r.read_u32()?;
    let bytes = r.read_bytes(n as usize)?;
    Ok(lossy_string(bytes.as_slice()))
}

/// Reads `n` little-endian `u32` values.
fn read_u32_vec(r: &mut BinaryReader, n: u32) -> (res: Result<Vec<u32>, TosError>)
    ensures
        final(r).data() == old(r).data(),
        match res {
            Ok(v) => {
                &&& n > 0 ==> old(r).pos() + 4 * n <= old(r).data().len()
                &&& v@ == u32_seq_at(old(r).data(), old(r).pos(), n as int)
                &&& final(r).pos() == old(r).pos() + 4 * n
            },
            Err(e) => {
                &&& e == TosError::IoError
                &&& old(r).pos() + 4 * n > old(r).data().len()
            },
        },
{
    let ghost d = old(r).data();
    let ghost p = old(r).pos();
    let mut v: Vec<u32> = Vec::new();
    let mut i: u32 = 0;
    while i < n
        invariant
            r.data() == d,
            d == old(r).data(),
            p == old(r).pos(),
            0 <= i <= n,
            v@.len() == i,
            forall|j: int| 0 <= j < i ==> v@[j] == le32_at(d, p + 4 * j),
            r.pos() == p + 4 * i,
            i > 0 ==> p + 4 * i <= d.len(),
        decreases n - i,
    {
        match r.read_u32() {
            Ok(x) => {
                v.push(x);
            },
            Err(e) => {
                return Err(e);
            },
        }
        i = i + 1;
    }
    proof {
        assert(v@ =~= u32_seq_at(d, p, n as int));
    }
    Ok(v)
}

/// Reads `n` little-endian `u16` values.
fn read_u16_vec(r: &mut BinaryReader, n: u32) -> (res: Result<Vec<u16>, TosError>)
    ensures
        final(r).data() == old(r).data(),
        match res {
            Ok(v) => {
                &&& n > 0 ==> old(r).pos() + 2 * n <= old(r).data().len()
                &&& v@ == u16_seq_at(old(r).data(), old(r).pos(), n as int)
                &&& final(r).pos() == old(r).pos() + 2 * n
            },
            Err(e) => {
                &&& e == TosError::IoError
                &&& old(r).pos() + 2 * n > old(r).data().len()
            },
        },
{
    let ghost d = old(r).data();
    let ghost p = old(r).pos();
    let mut v: Vec<u16> = Vec::new();
    let mut i: u32 = 0;
    while i < n
        invariant
            r.data() == d,
            d == old(r).data(),
            p == old(r).pos(),
            0 <= i <= n,
            v@.len() == i,
            forall|j: int| 0 <= j < i ==> v@[j] == le16_at(d, p + 2 * j),
            r.pos() == p + 2 * i,
            i > 0 ==> p + 2 * i <= d.len(),
        decreases n - i,
    {
        match r.read_u16() {
            Ok(x) => {
                v.push(x);
            },
            Err(e) => {
                return Err(e);
            },
        }
        i = i + 1;
    }
    proof {
        assert(v@ =~= u16_seq_at(d, p, n as int));
    }
    Ok(v)
}

// ---------------------------------------------------------------------
// Records with fixed fields and length-prefixed strings.
// ---------------------------------------------------------------------

/// File information record, first shape.
pub struct XacInfo {
    pub repositioning_mask: u32,
    pub repositioning_node_index: u32,
    pub exporter_high_version: u8,
    pub exporter_low_version: u8,
    pub padding: u16,
    pub source_app: String,
    pub original_filename: String,
    pub compilation_date: String,
    pub actor_name: String,
}

pub open spec fn xac_info_ok(d: Seq<u8>, p: int) -> bool {
    let s0 = p + 12;
    let s1 = lp_end(d, s0);
    let s2 = lp_end(d, s1);
    let s3 = lp_end(d, s2);
    &&& p + 12 <= d.len()
    &&& lp_ok(d, s0)
    &&& lp_ok(d, s1)
    &&& lp_ok(d, s2)
    &&& lp_ok(d, s3)
}

pub open spec fn xac_info_end(d: Seq<u8>, p: int) -> int {
    lp_end(d, lp_end(d, lp_end(d, lp_end(d, p + 12))))
}

pub open spec fn xac_info_parsed(m: XacInfo, d: Seq<u8>, p: int) -> bool {
    let s0 = p + 12;
    let s1 = lp_end(d, s0);
    let s2 = lp_end(d, s1);
    let s3 = lp_end(d, s2);
    &&& m.repositioning_mask == le32_at(d, p)
    &&& m.repositioning_node_index == le32_at(d, p + 4)
    &&& m.exporter_high_version == d[p + 8]
    &&& m.exporter_low_version == d[p + 9]
    &&& m.padding == le16_at(d, p + 10)
    &&& m.source_app@ == lp_str(d, s0)
    &&& m.original_filename@ == lp_str(d, s1)
    &&& m.compilation_date@ == lp_str(d, s2)
    &&& m.actor_name@ == lp_str(d, s3)
}

fn read_xac_info(r: &mut BinaryReader) -> (res: Result<XacInfo, TosError>)
    ensures
        final(r).data() == old(r).data(),
        match res {
            Ok(m) => {
                &&& xac_info_ok(old(r).data(), old(r).pos())
                &&& xac_info_parsed(m, old(r).data(), old(r).pos())
                &&& final(r).pos() == xac_info_end(old(r).data(), old(r).pos())
            },
            Err(e) => {
                &&& e == TosError::IoError
                &&& !xac_info_ok(old(r).data(), old(r).pos())
            },
        },
{
    let repositioning_mask = r.read_u32()?;
    let repositioning_node_index = r.read_u32()?;
    let exporter_high_version = r.read_u8()?;
    let exporter_low_version = r.read_u8()?;
    let padding = r.read_u16()?;
    let source_app = read_lpstring(r)?;
    let original_filename = read_lpstring(r)?;
    let compilation_date = read_lpstring(r)?;
    let actor_name = read_lpstring(r)?;
    Ok(XacInfo {
        repositioning_mask,
        repositioning_node_index,
        exporter_high_version,
        exporter_low_version,
        padding,
        source_app,
        original_filename,
        compilation_date,
        actor_name,
    })
}

/// File information record, second shape: adds a retarget root offset.
pub struct XacInfo2 {
    pub repositioning_mask: u32,
    pub repositioning_node_index: u32,
    pub exporter_high_version: u8,
    pub exporter_low_version: u8,
    pub retarget_root_offset: u32,
    pub padding: u16,
    pub source_app: String,
    pub original_filename: String,
    pub compilation_date: String,
    pub actor_name: String,
}

pub open spec fn xac_info2_ok(d: Seq<u8>, p: int) -> bool {
    let s0 = p + 16;
    let s1 = lp_end(d, s0);
    let s2 = lp_end(d, s1);
    let s3 = lp_end(d, s2);
    &&& p + 16 <= d.len()
    &&& lp_ok(d, s0)
    &&& lp_ok(d, s1)
    &&& lp_ok(d, s2)
    &&& lp_ok(d, s3)
}

pub open spec fn xac_info2_end(d: Seq<u8>, p: int) -> int {
    lp_end(d, lp_end(d, lp_end(d, lp_end(d, p + 16))))
}

pub open spec fn xac_info2_parsed(m: XacInfo2, d: Seq<u8>, p: int) -> bool {
    let s0 = p + 16;
    let s1 = lp_end(d, s0);
    let s2 = lp_end(d, s1);
    let s3 = lp_end(d, s2);
    &&& m.repositioning_mask == le32_at(d, p)
    &&& m.repositioning_node_index == le32_at(d, p + 4)
    &&& m.exporter_high_version == d[p + 8]
    &&& m.exporter_low_version == d[p + 9]
    &&& m.retarget_root_offset == le32_at(d, p + 10)
    &&& m.padding == le16_at(d, p + 14)
    &&& m.source_app@ == lp_str(d, s0)
    &&& m.original_filename@ == lp_str(d, s1)
    &&& m.compilation_date@ == lp_str(d, s2)
    &&& m.actor_name@ == lp_str(d, s3)
}

fn read_xac_info2(r: &mut BinaryReader) -> (res: Result<XacInfo2, TosError>)
    ensures
        final(r).data() == old(r).data(),
        match res {
            Ok(m) => {
                &&& xac_info2_ok(old(r).data(), old(r).pos())
                &&& xac_info2_parsed(m, old(r).data(), old(r).pos())
                &&& final(r).pos() == xac_info2_end(old(r).data(), old(r).pos())
            },
            Err(e) => {
                &&& e == TosError::IoError
                &&& !xac_info2_ok(old(r).data(), old(r).pos())
            },
        },
{
    let repositioning_mask = r.read_u32()?;
    let repositioning_node_index = r.read_u32()?;
    let exporter_high_version = r.read_u8()?;
    let exporter_low_version = r.read_u8()?;
    let retarget_root_offset = r.read_u32()?;
    let padding = r.read_u16()?;
    let source_app = read_lpstring(r)?;
    let original_filename = read_lpstring(r)?;
    let compilation_date = read_lpstring(r)?;
    let actor_name = read_lpstring(r)?;
    Ok(XacInfo2 {
        repositioning_mask,
        repositioning_node_index,
        exporter_high_version,
        exporter_low_version,
        retarget_root_offset,
        padding,
        source_app,
        original_filename,
        compilation_date,
        actor_name,
    })
}

/// File information record, third shape: motion-extraction fields.
pub struct XacInfo3 {
    pub trajectory_node_index: u32,
    pub motion_extraction_node_index: u32,
    pub motion_extraction_mask: u32,
    pub exporter_high_version: u8,
    pub exporter_low_version: u8,
    pub retarget_root_offset: u32,
    pub padding: u16,
    pub source_app: String,
    pub original_filename: String,
    pub compilation_date: String,
    pub actor_name: String,
}

pub open spec fn xac_info3_ok(d: Seq<u8>, p: int) -> bool {
    let s0 = p + 20;
    let s1 = lp_end(d, s0);
    let s2 = lp_end(d, s1);
    let s3 = lp_end(d, s2);
    &&& p + 20 <= d.len()
    &&& lp_ok(d, s0)
    &&& lp_ok(d, s1)
    &&& lp_ok(d, s2)
    &&& lp_ok(d, s3)
}

pub open spec fn xac_info3_end(d: Seq<u8>, p: int) -> int {
    lp_end(d, lp_end(d, lp_end(d, lp_end(d, p + 20))))
}

pub open spec fn xac_info3_parsed(m: XacInfo3, d: Seq<u8>, p: int) -> bool {
    let s0 = p + 20;
    let s1 = lp_end(d, s0);
    let s2 = lp_end(d, s1);
    let s3 = lp_end(d, s2);
    &&& m.trajectory_node_index == le32_at(d, p)
    &&& m.motion_extraction_node_index == le32_at(d, p + 4)
    &&& m.motion_extraction_mask == le32_at(d, p + 8)
    &&& m.exporter_high_version == d[p + 12]
    &&& m.exporter_low_version == d[p + 13]
    &&& m.retarget_root_offset == le32_at(d, p + 14)
    &&& m.padding == le16_at(d, p + 18)
    &&& m.source_app@ == lp_str(d, s0)
    &&& m.original_filename@ == lp_str(d, s1)
    &&& m.compilation_date@ == lp_str(d, s2)
    &&& m.actor_name@ == lp_str(d, s3)
}

fn read_xac_info3(r: &mut BinaryReader) -> (res: Result<XacInfo3, TosError>)
    ensures
        final(r).data() == old(r).data(),
        match res {
            Ok(m) => {
                &&& xac_info3_ok(old(r).data(), old(r).pos())
                &&& xac_info3_parsed(m, old(r).data(), old(r).pos())
                &&& final(r).pos() == xac_info3_end(old(r).data(), old(r).pos())
            },
            Err(e) => {
                &&& e == TosError::IoError
                &&& !xac_info3_ok(old(r).data(), old(r).pos())
            },
        },
{
    let trajectory_node_index = r.read_u32()?;
    let motion_extraction_node_index = r.read_u32()?;
    let motion_extraction_mask = r.read_u32()?;
    let exporter_high_version = r.read_u8()?;
    let exporter_low_version = r.read_u8()?;
    let retarget_root_offset = r.read_u32()?;
    let padding = r.read_u16()?;
    let source_app = read_lpstring(r)?;
    let original_filename = read_lpstring(r)?;
    let compilation_date = read_lpstring(r)?;
    let actor_name = read_lpstring(r)?;
    Ok(XacInfo3 {
        trajectory_node_index,
        motion_extraction_node_index,
        motion_extraction_mask,
        exporter_high_version,
        exporter_low_version,
        retarget_root_offset,
        padding,
        source_app,
        original_filename,
        compilation_date,
        actor_name,
    })
}

/// File information record, fourth shape: level-of-detail count.
pub struct XacInfo4 {
    pub num_lods: u32,
    pub trajectory_node_index: u32,
    pub motion_extraction_node_index: u32,
    pub exporter_high_version: u8,
    pub exporter_low_version: u8,
    pub retarget_root_offset: u32,
    pub padding: u16,
    pub source_app: String,
    pub original_filename: String,
    pub compilation_date: String,
    pub actor_name: String,
}

pub open spec fn xac_info4_ok(d: Seq<u8>, p: int) -> bool {
    let s0 = p + 20;
    let s1 = lp_end(d, s0);
    let s2 = lp_end(d, s1);
    let s3 = lp_end(d, s2);
    &&& p + 20 <= d.len()
    &&& lp_ok(d, s0)
    &&& lp_ok(d, s1)
    &&& lp_ok(d, s2)
    &&& lp_ok(d, s3)
}

pub open spec fn xac_info4_end(d: Seq<u8>, p: int) -> int {
    lp_end(d, lp_end(d, lp_end(d, lp_end(d, p + 20))))
}

pub open spec fn xac_info4_parsed(m: XacInfo4, d: Seq<u8>, p: int) -> bool {
    let s0 = p + 20;
    let s1 = lp_end(d, s0);
    let s2 = lp_end(d, s1);
    let s3 = lp_end(d, s2);
    &&& m.num_lods == le32_at(d, p)
    &&& m.trajectory_node_index == le32_at(d, p + 4)
    &&& m.motion_extraction_node_index == le32_at(d, p + 8)
    &&& m.exporter_high_version == d[p + 12]
    &&& m.exporter_low_version == d[p + 13]
    &&& m.retarget_root_offset == le32_at(d, p + 14)
    &&& m.padding == le16_at(d, p + 18)
    &&& m.source_app@ == lp_str(d, s0)
    &&& m.original_filename@ == lp_str(d, s1)
    &&& m.compilation_date@ == lp_str(d, s2)
    &&& m.actor_name@ == lp_str(d, s3)
}

fn read_xac_info4(r: &mut BinaryReader) -> (res: Result<XacInfo4, TosError>)
    ensures
        final(r).data() == old(r).data(),
        match res {
            Ok(m) => {
                &&& xac_info4_ok(old(r).data(), old(r).pos())
                &&& xac_info4_parsed(m, old(r).data(), old(r).pos())
                &&& final(r).pos() == xac_info4_end(old(r).data(), old(r).pos())
            },
            Err(e) => {
                &&& e == TosError::IoError
                &&& !xac_info4_ok(old(r).data(), old(r).pos())
            },
        },
{
    let num_lods = r.read_u32()?;
    let trajectory_node_index = r.read_u32()?;
    let motion_extraction_node_index = r.read_u32()?;
    let exporter_high_version = r.read_u8()?;
    let exporter_low_version = r.read_u8()?;
    let retarget_root_offset = r.read_u32()?;
    let padding = r.read_u16()?;
    let source_app = read_lpstring(r)?;
    let original_filename = read_lpstring(r)?;
    let compilation_date = read_lpstring(r)?;
    let actor_name = read_lpstring(r)?;
    Ok(XacInfo4 {
        num_lods,
        trajectory_node_index,
        motion_extraction_node_index,
        exporter_high_version,
        exporter_low_version,
        retarget_root_offset,
        padding,
        source_app,
        original_filename,
        compilation_date,
        actor_name,
    })
}

/// Counts of the materials that follow in the file.
pub struct XACMaterialInfo {
    pub num_total_materials: u32,
    pub num_standard_materials: u32,
    pub num_fx_materials: u32,
}

pub open spec fn material_info_ok(d: Seq<u8>, p: int) -> bool {
    p + 12 <= d.len()
}

pub open spec fn material_info_parsed(m: XACMaterialInfo, d: Seq<u8>, p: int) -> bool {
    &&& m.num_total_materials == le32_at(d, p)
    &&& m.num_standard_materials == le32_at(d, p + 4)
    &&& m.num_fx_materials == le32_at(d, p + 8)
}

fn read_xac_material_info(r: &mut BinaryReader) -> (res: Result<XACMaterialInfo, TosError>)
    ensures
        final(r).data() == old(r).data(),
        match res {
            Ok(m) => {
                &&& material_info_ok(old(r).data(), old(r).pos())
                &&& material_info_parsed(m, old(r).data(), old(r).pos())
                &&& final(r).pos() == old(r).pos() + 12
            },
            Err(e) => {
                &&& e == TosError::IoError
                &&& !material_info_ok(old(r).data(), old(r).pos())
            },
        },
{
    let num_total_materials = r.read_u32()?;
    let num_standard_materials = r.read_u32()?;
    let num_fx_materials = r.read_u32()?;
    Ok(XACMaterialInfo { num_total_materials, num_standard_materials, num_fx_materials })
}

/// Counts of the materials that follow, with a level of detail.
pub struct XACMaterialInfo2 {
    pub lod: u32,
    pub num_total_materials: u32,
    pub num_standard_materials: u32,
    pub num_fx_materials: u32,
}

pub open spec fn material_info2_ok(d: Seq<u8>, p: int) -> bool {
    p + 16 <= d.len()
}

pub open spec fn material_info2_parsed(m: XACMaterialInfo2, d: Seq<u8>, p: int) -> bool {
    &&& m.lod == le32_at(d, p)
    &&& m.num_total_materials == le32_at(d, p + 4)
    &&& m.num_standard_materials == le32_at(d, p + 8)
    &&& m.num_fx_materials == le32_at(d, p + 12)
}

fn read_xac_material_info2(r: &mut BinaryReader) -> (res: Result<XACMaterialInfo2, TosError>)
    ensures
        final(r).data() == old(r).data(),
        match res {
            Ok(m) => {
                &&& material_info2_ok(old(r).data(), old(r).pos())
                &&& material_info2_parsed(m, old(r).data(), old(r).pos())
                &&& final(r).pos() == old(r).pos() + 16
            },
            Err(e) => {
                &&& e == TosError::IoError
                &&& !material_info2_ok(old(r).data(), old(r).pos())
            },
        },
{
    let lod = r.read_u32()?;
    let num_total_materials = r.read_u32()?;
    let num_standard_materials = r.read_u32()?;
    let num_fx_materials = r.read_u32()?;
    Ok(XACMaterialInfo2 { lod, num_total_materials, num_standard_materials, num_fx_materials })
}

/// One level-of-detail descriptor.
pub struct XACMeshLodLevel {
    pub lod_level: u32,
    pub size_in_bytes: u32,
}

pub open spec fn mesh_lod_ok(d: Seq<u8>, p: int) -> bool {
    p + 8 <= d.len()
}

pub open spec fn mesh_lod_parsed(m: XACMeshLodLevel, d: Seq<u8>, p: int) -> bool {
    &&& m.lod_level == le32_at(d, p)
    &&& m.size_in_bytes == le32_at(d, p + 4)
}

fn read_xac_mesh_lod_level(r: &mut BinaryReader) -> (res: Result<XACMeshLodLevel, TosError>)
    ensures
        final(r).data() == old(r).data(),
        match res {
            Ok(m) => {
                &&& mesh_lod_ok(old(r).data(), old(r).pos())
                &&& mesh_lod_parsed(m, old(r).data(), old(r).pos())
                &&& final(r).pos() == old(r).pos() + 8
            },
            Err(e) => {
                &&& e == TosError::IoError
                &&& !mesh_lod_ok(old(r).data(), old(r).pos())
            },
        },
{
    let lod_level = r.read_u32()?;
    let size_in_bytes = r.read_u32()?;
    Ok(XACMeshLodLevel { lod_level, size_in_bytes })
}

/// Transform limits for one node.
pub struct XACLimit {
    pub translation_min: FileVector3,
    pub translation_max: FileVector3,
    pub rotation_min: FileVector3,
    pub rotation_max: FileVector3,
    pub scale_min: FileVector3,
    pub scale_max: FileVector3,
    pub limit_flags: [u8; 9],
    pub node_number: u32,
}

pub open spec fn limit_ok(d: Seq<u8>, p: int) -> bool {
    p + 85 <= d.len()
}

pub open spec fn limit_parsed(m: XACLimit, d: Seq<u8>, p: int) -> bool {
    &&& m.translation_min == vec3_at(d, p)
    &&& m.translation_max == vec3_at(d, p + 12)
    &&& m.rotation_min == vec3_at(d, p + 24)
    &&& m.rotation_max == vec3_at(d, p + 36)
    &&& m.scale_min == vec3_at(d, p + 48)
    &&& m.scale_max == vec3_at(d, p + 60)
    &&& m.limit_flags@ == d.subrange(p + 72, p + 81)
    &&& m.node_number == le32_at(d, p + 81)
}

fn read_xac_limit(r: &mut BinaryReader) -> (res: Result<XACLimit, TosError>)
    ensures
        final(r).data() == old(r).data(),
        match res {
            Ok(m) => {
                &&& limit_ok(old(r).data(), old(r).pos())
                &&& limit_parsed(m, old(r).data(), old(r).pos())
                &&& final(r).pos() == old(r).pos() + 85
            },
            Err(e) => {
                &&& e == TosError::IoError
                &&& !limit_ok(old(r).data(), old(r).pos())
            },
        },
{
    let translation_min = read_vec3(r)?;
    let translation_max = read_vec3(r)?;
    let rotation_min = read_vec3(r)?;
    let rotation_max = read_vec3(r)?;
    let scale_min = read_vec3(r)?;
    let scale_max = read_vec3(r)?;
    let f0 = r.read_u8()?;
    let f1 = r.read_u8()?;
    let f2 = r.read_u8()?;
    let f3 = r.read_u8()?;
    let f4 = r.read_u8()?;
    let f5 = r.read_u8()?;
    let f6 = r.read_u8()?;
    let f7 = r.read_u8()?;
    let f8 = r.read_u8()?;
    let node_number = r.read_u32()?;
    let limit_flags = [f0, f1, f2, f3, f4, f5, f6, f7, f8];
    proof {
        assert(limit_flags@ =~= old(r).data().subrange(old(r).pos() + 72, old(r).pos() + 81));
    }
    Ok(XACLimit {
        translation_min,
        translation_max,
        rotation_min,
        rotation_max,
        scale_min,
        scale_max,
        limit_flags,
        node_number,
    })
}

/// Skinning record, first shape: only the node and a flag.
pub struct XacSkinningInfo {
    pub node_index: u32,
    pub is_for_collision_mesh: u8,
    pub padding: [u8; 3],
}

pub open spec fn skin1_ok(d: Seq<u8>, p: int) -> bool {
    p + 8 <= d.len()
}

pub open spec fn skin1_parsed(m: XacSkinningInfo, d: Seq<u8>, p: int) -> bool {
    &&& m.node_index == le32_at(d, p)
    &&& m.is_for_collision_mesh == d[p + 4]
    &&& m.padding@ == d.subrange(p + 5, p + 8)
}

fn read_xac_skinning_info(r: &mut BinaryReader) -> (res: Result<XacSkinningInfo, TosError>)
    ensures
        final(r).data() == old(r).data(),
        match res {
            Ok(m) => {
                &&& skin1_ok(old(r).data(), old(r).pos())
                &&& skin1_parsed(m, old(r).data(), old(r).pos())
                &&& final(r).pos() == old(r).pos() + 8
            },
            Err(e) => {
                &&& e == TosError::IoError
                &&& !skin1_ok(old(r).data(), old(r).pos())
            },
        },
{
    let node_index = r.read_u32()?;
    let is_for_collision_mesh = r.read_u8()?;
    let padding = r.read_u8_array_3()?;
    Ok(XacSkinningInfo { node_index, is_for_collision_mesh, padding })
}

/// Node indices used as motion sources.
pub struct XACNodeMotionSources {
    pub num_nodes: u32,
    pub node_indices: Vec<u16>,
}

pub open spec fn node_motion_sources_ok(d: Seq<u8>, p: int) -> bool {
    &&& p + 4 <= d.len()
    &&& p + 4 + 2 * le32_at(d, p) <= d.len()
}

pub open spec fn node_motion_sources_end(d: Seq<u8>, p: int) -> int {
    p + 4 + 2 * le32_at(d, p)
}

pub open spec fn node_motion_sources_parsed(m: XACNodeMotionSources, d: Seq<u8>, p: int) -> bool {
    &&& m.num_nodes == le32_at(d, p)
    &&& m.node_indices@ == u16_seq_at(d, p + 4, le32_at(d, p) as int)
}

fn read_xac_node_motion_sources(r: &mut BinaryReader) -> (res: Result<
    XACNodeMotionSources,
    TosError,
>)
    ensures
        final(r).data() == old(r).data(),
        match res {
            Ok(m) => {
                &&& node_motion_sources_ok(old(r).data(), old(r).pos())
                &&& node_motion_sources_parsed(m, old(r).data(), old(r).pos())
                &&& final(r).pos() == node_motion_sources_end(old(r).data(), old(r).pos())
            },
            Err(e) => {
                &&& e == TosError::IoError
                &&& !node_motion_sources_ok(old(r).data(), old(r).pos())
            },
        },
{
    let num_nodes = r.read_u32()?;
    let node_indices = read_u16_vec(r, num_nodes)?;
    Ok(XACNodeMotionSources { num_nodes, node_indices })
}

/// Node indices that carry attachments.
pub struct XACAttachmentNodes {
    pub num_nodes: u32,
    pub attachment_indices: Vec<u16>,
}

pub open spec fn attachment_nodes_ok(d: Seq<u8>, p: int) -> bool {
    &&& p + 4 <= d.len()
    &&& p + 4 + 2 * le32_at(d, p) <= d.len()
}

pub open spec fn attachment_nodes_end(d: Seq<u8>, p: int) -> int {
    p + 4 + 2 * le32_at(d, p)
}

pub open spec fn attachment_nodes_parsed(m: XACAttachmentNodes, d: Seq<u8>, p: int) -> bool {
    &&& m.num_nodes == le32_at(d, p)
    &&& m.attachment_indices@ == u16_seq_at(d, p + 4, le32_at(d, p) as int)
}

fn read_xac_attachment_nodes(r: &mut BinaryReader) -> (res: Result<XACAttachmentNodes, TosError>)
    ensures
        final(r).data() == old(r).data(),
        match res {
            Ok(m) => {
                &&& attachment_nodes_ok(old(r).data(), old(r).pos())
                &&& attachment_nodes_parsed(m, old(r).data(), old(r).pos())
                &&& final(r).pos() == attachment_nodes_end(old(r).data(), old(r).pos())
            },
            Err(e) => {
                &&& e == TosError::IoError
                &&& !attachment_nodes_ok(old(r).data(), old(r).pos())
            },
        },
{
    let num_nodes = r.read_u32()?;
    let attachment_indices = read_u16_vec(r, num_nodes)?;
    Ok(XACAttachmentNodes { num_nodes, attachment_indices })
}

/// A named group of nodes.
pub struct XACNodeGroup {
    pub num_nodes: u16,
    pub disabled_on_default: u8,
    pub name: String,
    pub data: Vec<u16>,
}

pub open spec fn node_group_ok(d: Seq<u8>, p: int) -> bool {
    &&& p + 3 <= d.len()
    &&& lp_ok(d, p + 3)
    &&& lp_end(d, p + 3) + 2 * le16_at(d, p) <= d.len()
}

pub open spec fn node_group_end(d: Seq<u8>, p: int) -> int {
    lp_end(d, p + 3) + 2 * le16_at(d, p)
}

pub open spec fn node_group_parsed(m: XACNodeGroup, d: Seq<u8>, p: int) -> bool {
    &&& m.num_nodes == le16_at(d, p)
    &&& m.disabled_on_default == d[p + 2]
    &&& m.name@ == lp_str(d, p + 3)
    &&& m.data@ == u16_seq_at(d, lp_end(d, p + 3), le16_at(d, p) as int)
}

fn read_xac_node_group(r: &mut BinaryReader) -> (res: Result<XACNodeGroup, TosError>)
    ensures
        final(r).data() == old(r).data(),
        match res {
            Ok(m) => {
                &&& node_group_ok(old(r).data(), old(r).pos())
                &&& node_group_parsed(m, old(r).data(), old(r).pos())
                &&& final(r).pos() == node_group_end(old(r).data(), old(r).pos())
            },
            Err(e) => {
                &&& e == TosError::IoError
                &&& !node_group_ok(old(r).data(), old(r).pos())
            },
        },
{
    let num_nodes = r.read_u16()?;
    let disabled_on_default = r.read_u8()?;
    let name = read_lpstring(r)?;
    let data = read_u16_vec(r, num_nodes as u32)?;
    Ok(XACNodeGroup { num_nodes, disabled_on_default, name, data })
}

// ---------------------------------------------------------------------
// Repetition of variable-size elements: the start of element `i` is the
// end of element `i - 1`, given by the element's end function.
// ---------------------------------------------------------------------

/// Where the `i`-th element of a run starting at `p` begins, when each
/// element ends where `f_end` says.
pub open spec fn rep_start(d: Seq<u8>, p: int, i: nat, f_end: spec_fn(Seq<u8>, int) -> int) -> int
    decreases i,
{
    if i == 0 {
        p
    } else {
        f_end(d, rep_start(d, p, (i - 1) as nat, f_end))
    }
}

// ---------------------------------------------------------------------
// Standard material layers.
// ---------------------------------------------------------------------

/// A texture layer of a standard material, first shape.
pub struct XACStandardMaterialLayer {
    pub amount: u32,
    pub u_offset: u32,
    pub v_offset: u32,
    pub u_tiling: u32,
    pub v_tiling: u32,
    pub rotation_radians: u32,
    pub material_number: u16,
    pub map_type: u8,
    pub padding: u8,
    pub texture_name: String,
}

pub open spec fn matlayer1_ok(d: Seq<u8>, p: int) -> bool {
    &&& p + 28 <= d.len()
    &&& lp_ok(d, p + 28)
}

pub open spec fn matlayer1_end(d: Seq<u8>, p: int) -> int {
    lp_end(d, p + 28)
}

pub open spec fn matlayer1_parsed(m: XACStandardMaterialLayer, d: Seq<u8>, p: int) -> bool {
    &&& m.amount == le32_at(d, p)
    &&& m.u_offset == le32_at(d, p + 4)
    &&& m.v_offset == le32_at(d, p + 8)
    &&& m.u_tiling == le32_at(d, p + 12)
    &&& m.v_tiling == le32_at(d, p + 16)
    &&& m.rotation_radians == le32_at(d, p + 20)
    &&& m.material_number == le16_at(d, p + 24)
    &&& m.map_type == d[p + 26]
    &&& m.padding == d[p + 27]
    &&& m.texture_name@ == lp_str(d, p + 28)
}

fn read_xac_standard_material_layer(r: &mut BinaryReader) -> (res: Result<
    XACStandardMaterialLayer,
    TosError,
>)
    ensures
        final(r).data() == old(r).data(),
        match res {
            Ok(m) => {
                &&& matlayer1_ok(old(r).data(), old(r).pos())
                &&& matlayer1_parsed(m, old(r).data(), old(r).pos())
                &&& final(r).pos() == matlayer1_end(old(r).data(), old(r).pos())
            },
            Err(e) => {
                &&& e == TosError::IoError
                &&& !matlayer1_ok(old(r).data(), old(r).pos())
            },
        },
{
    let amount = r.read_u32()?;
    let u_offset = r.read_u32()?;
    let v_offset = r.read_u32()?;
    let u_tiling = r.read_u32()?;
    let v_tiling = r.read_u32()?;
    let rotation_radians = r.read_u32()?;
    let material_number = r.read_u16()?;
    let map_type = r.read_u8()?;
    let padding = r.read_u8()?;
    let texture_name = read_lpstring(r)?;
    Ok(XACStandardMaterialLayer {
        amount,
        u_offset,
        v_offset,
        u_tiling,
        v_tiling,
        rotation_radians,
        material_number,
        map_type,
        padding,
        texture_name,
    })
}

/// A texture layer of a standard material, second shape: a blend mode
/// takes the padding byte's place.
pub struct XACStandardMaterialLayer2 {
    pub amount: u32,
    pub u_offset: u32,
    pub v_offset: u32,
    pub u_tiling: u32,
    pub v_tiling: u32,
    pub rotation_radians: u32,
    pub material_number: u16,
    pub map_type: u8,
    pub blend_mode: u8,
    pub texture_name: String,
}

pub open spec fn matlayer2_ok(d: Seq<u8>, p: int) -> bool {
    &&& p + 28 <= d.len()
    &&& lp_ok(d, p + 28)
}

pub open spec fn matlayer2_end(d: Seq<u8>, p: int) -> int {
    lp_end(d, p + 28)
}

/// The end function of a material-layer run.
pub open spec fn matlayer2_end_f() -> spec_fn(Seq<u8>, int) -> int {
    |d: Seq<u8>, p: int| matlayer2_end(d, p)
}

pub open spec fn matlayer2_parsed(m: XACStandardMaterialLayer2, d: Seq<u8>, p: int) -> bool {
    &&& m.amount == le32_at(d, p)
    &&& m.u_offset == le32_at(d, p + 4)
    &&& m.v_offset == le32_at(d, p + 8)
    &&& m.u_tiling == le32_at(d, p + 12)
    &&& m.v_tiling == le32_at(d, p + 16)
    &&& m.rotation_radians == le32_at(d, p + 20)
    &&& m.material_number == le16_at(d, p + 24)
    &&& m.map_type == d[p + 26]
    &&& m.blend_mode == d[p + 27]
    &&& m.texture_name@ == lp_str(d, p + 28)
}

pub open spec fn matlayers_ok(d: Seq<u8>, p: int, n: nat) -> bool {
    forall|i: nat| i < n ==> matlayer2_ok(d, #[trigger] rep_start(d, p, i, matlayer2_end_f()))
}

pub open spec fn matlayers_end(d: Seq<u8>, p: int, n: nat) -> int {
    rep_start(d, p, n, matlayer2_end_f())
}

pub open spec fn matlayers_parsed(
    v: Seq<XACStandardMaterialLayer2>,
    d: Seq<u8>,
    p: int,
    n: nat,
) -> bool {
    &&& v.len() == n
    &&& forall|i: nat|
        i < n ==> matlayer2_parsed(
            v[i as int],
            d,
            #[trigger] rep_start(d, p, i, matlayer2_end_f()),
        )
}

fn read_xac_standard_material_layer2(r: &mut BinaryReader) -> (res: Result<
    XACStandardMaterialLayer2,
    TosError,
>)
    ensures
        final(r).data() == old(r).data(),
        match res {
            Ok(m) => {
                &&& matlayer2_ok(old(r).data(), old(r).pos())
                &&& matlayer2_parsed(m, old(r).data(), old(r).pos())
                &&& final(r).pos() == matlayer2_end(old(r).data(), old(r).pos())
            },
            Err(e) => {
                &&& e == TosError::IoError
                &&& !matlayer2_ok(old(r).data(), old(r).pos())
            },
        },
{
    let amount = r.read_u32()?;
    let u_offset = r.read_u32()?;
    let v_offset = r.read_u32()?;
    let u_tiling = r.read_u32()?;
    let v_tiling = r.read_u32()?;
    let rotation_radians = r.read_u32()?;
    let material_number = r.read_u16()?;
    let map_type = r.read_u8()?;
    let blend_mode = r.read_u8()?;
    let texture_name = read_lpstring(r)?;
    Ok(XACStandardMaterialLayer2 {
        amount,
        u_offset,
        v_offset,
        u_tiling,
        v_tiling,
        rotation_radians,
        material_number,
        map_type,
        blend_mode,
        texture_name,
    })
}

/// Reads a run of `n` material layers.
fn read_matlayer2_vec(r: &mut BinaryReader, n: u32) -> (res: Result<
    Vec<XACStandardMaterialLayer2>,
    TosError,
>)
    ensures
        final(r).data() == old(r).data(),
        match res {
            Ok(v) => {
                &&& matlayers_ok(old(r).data(), old(r).pos(), n as nat)
                &&& matlayers_parsed(v@, old(r).data(), old(r).pos(), n as nat)
                &&& final(r).pos() == matlayers_end(old(r).data(), old(r).pos(), n as nat)
            },
            Err(e) => {
                &&& e == TosError::IoError
                &&& !matlayers_ok(old(r).data(), old(r).pos(), n as nat)
            },
        },
{
    let ghost d = old(r).data();
    let ghost p = old(r).pos();
    let mut v: Vec<XACStandardMaterialLayer2> = Vec::new();
    let mut i: u32 = 0;
    while i < n
        invariant
            r.data() == d,
            d == old(r).data(),
            p == old(r).pos(),
            0 <= i <= n,
            v@.len() == i,
            forall|j: nat|
                j < i ==> matlayer2_ok(d, #[trigger] rep_start(d, p, j, matlayer2_end_f())),
            forall|j: nat|
                j < i ==> matlayer2_parsed(
                    v@[j as int],
                    d,
                    #[trigger] rep_start(d, p, j, matlayer2_end_f()),
                ),
            r.pos() == rep_start(d, p, i as nat, matlayer2_end_f()),
        decreases n - i,
    {
        match read_xac_standard_material_layer2(r) {
            Ok(x) => {
                v.push(x);
                proof {
                    assert(rep_start(d, p, (i + 1) as nat, matlayer2_end_f()) == matlayer2_end(
                        d,
                        rep_start(d, p, i as nat, matlayer2_end_f()),
                    ));
                }
            },
            Err(e) => {
                proof {
                    assert(!matlayers_ok(d, p, n as nat)) by {
                        if matlayers_ok(d, p, n as nat) {
                            assert(matlayer2_ok(
                                d,
                                rep_start(d, p, i as nat, matlayer2_end_f()),
                            ));
                        }
                    }
                }
                return Err(e);
            },
        }
        i = i + 1;
    }
    Ok(v)
}

// ---------------------------------------------------------------------
// Standard materials.
// ---------------------------------------------------------------------

/// A standard material, first shape: colors and scalars, then the name.
pub struct XacStandardMaterial {
    pub ambient: FileColor,
    pub diffuse: FileColor,
    pub specular: FileColor,
    pub emissive: FileColor,
    pub shine: u32,
    pub shine_strength: u32,
    pub opacity: u32,
    pub ior: u32,
    pub double_sided: u8,
    pub wireframe: u8,
    pub transparency_type: u8,
    pub padding: u8,
    pub material_name: String,
}

pub open spec fn material1_ok(d: Seq<u8>, p: int) -> bool {
    &&& p + 84 <= d.len()
    &&& lp_ok(d, p + 84)
}

pub open spec fn material1_end(d: Seq<u8>, p: int) -> int {
    lp_end(d, p + 84)
}

pub open spec fn material1_parsed(m: XacStandardMaterial, d: Seq<u8>, p: int) -> bool {
    &&& m.ambient == color_at(d, p)
    &&& m.diffuse == color_at(d, p + 16)
    &&& m.specular == color_at(d, p + 32)
    &&& m.emissive == color_at(d, p + 48)
    &&& m.shine == le32_at(d, p + 64)
    &&& m.shine_strength == le32_at(d, p + 68)
    &&& m.opacity == le32_at(d, p + 72)
    &&& m.ior == le32_at(d, p + 76)
    &&& m.double_sided == d[p + 80]
    &&& m.wireframe == d[p + 81]
    &&& m.transparency_type == d[p + 82]
    &&& m.padding == d[p + 83]
    &&& m.material_name@ == lp_str(d, p + 84)
}

fn read_xac_standard_material(r: &mut BinaryReader) -> (res: Result<
    XacStandardMaterial,
    TosError,
>)
    ensures
        final(r).data() == old(r).data(),
        match res {
            Ok(m) => {
                &&& material1_ok(old(r).data(), old(r).pos())
                &&& material1_parsed(m, old(r).data(), old(r).pos())
                &&& final(r).pos() == material1_end(old(r).data(), old(r).pos())
            },
            Err(e) => {
                &&& e == TosError::IoError
                &&& !material1_ok(old(r).data(), old(r).pos())
            },
        },
{
    let ambient = read_color(r)?;
    let diffuse = read_color(r)?;
    let specular = read_color(r)?;
    let emissive = read_color(r)?;
    let shine = r.read_u32()?;
    let shine_strength = r.read_u32()?;
    let opacity = r.read_u32()?;
    let ior = r.read_u32()?;
    let double_sided = r.read_u8()?;
    let wireframe = r.read_u8()?;
    let transparency_type = r.read_u8()?;
    let padding = r.read_u8()?;
    let material_name = read_lpstring(r)?;
    Ok(XacStandardMaterial {
        ambient,
        diffuse,
        specular,
        emissive,
        shine,
        shine_strength,
        opacity,
        ior,
        double_sided,
        wireframe,
        transparency_type,
        padding,
        material_name,
    })
}

/// A standard material, second shape: carries its texture layers.
pub struct XacStandardMaterial2 {
    pub ambient: FileColor,
    pub diffuse: FileColor,
    pub specular: FileColor,
    pub emissive: FileColor,
    pub shine: u32,
    pub shine_strength: u32,
    pub opacity: u32,
    pub ior: u32,
    pub double_sided: u8,
    pub wireframe: u8,
    pub transparency_type: u8,
    pub num_layers: u8,
    pub material_name: String,
    pub standard_material_layer2: Vec<XACStandardMaterialLayer2>,
}

pub open spec fn material2_ok(d: Seq<u8>, p: int) -> bool {
    &&& p + 84 <= d.len()
    &&& lp_ok(d, p + 84)
    &&& matlayers_ok(d, lp_end(d, p + 84), d[p + 83] as nat)
}

pub open spec fn material2_end(d: Seq<u8>, p: int) -> int {
    matlayers_end(d, lp_end(d, p + 84), d[p + 83] as nat)
}

pub open spec fn material2_parsed(m: XacStandardMaterial2, d: Seq<u8>, p: int) -> bool {
    &&& m.ambient == color_at(d, p)
    &&& m.diffuse == color_at(d, p + 16)
    &&& m.specular == color_at(d, p + 32)
    &&& m.emissive == color_at(d, p + 48)
    &&& m.shine == le32_at(d, p + 64)
    &&& m.shine_strength == le32_at(d, p + 68)
    &&& m.opacity == le32_at(d, p + 72)
    &&& m.ior == le32_at(d, p + 76)
    &&& m.double_sided == d[p + 80]
    &&& m.wireframe == d[p + 81]
    &&& m.transparency_type == d[p + 82]
    &&& m.num_layers == d[p + 83]
    &&& m.material_name@ == lp_str(d, p + 84)
    &&& matlayers_parsed(
        m.standard_material_layer2@,
        d,
        lp_end(d, p + 84),
        d[p + 83] as nat,
    )
}

fn read_xac_standard_material2(r: &mut BinaryReader) -> (res: Result<
    XacStandardMaterial2,
    TosError,
>)
    ensures
        final(r).data() == old(r).data(),
        match res {
            Ok(m) => {
                &&& material2_ok(old(r).data(), old(r).pos())
                &&& material2_parsed(m, old(r).data(), old(r).pos())
                &&& final(r).pos() == material2_end(old(r).data(), old(r).pos())
            },
            Err(e) => {
                &&& e == TosError::IoError
                &&& !material2_ok(old(r).data(), old(r).pos())
            },
        },
{
    let ambient = read_color(r)?;
    let diffuse = read_color(r)?;
    let specular = read_color(r)?;
    let emissive = read_color(r)?;
    let shine = r.read_u32()?;
    let shine_strength = r.read_u32()?;
    let opacity = r.read_u32()?;
    let ior = r.read_u32()?;
    let double_sided = r.read_u8()?;
    let wireframe = r.read_u8()?;
    let transparency_type = r.read_u8()?;
    let num_layers = r.read_u8()?;
    let material_name = read_lpstring(r)?;
    let standard_material_layer2 = read_matlayer2_vec(r, num_layers as u32)?;
    Ok(XacStandardMaterial2 {
        ambient,
        diffuse,
        specular,
        emissive,
        shine,
        shine_strength,
        opacity,
        ior,
        double_sided,
        wireframe,
        transparency_type,
        num_layers,
        material_name,
        standard_material_layer2,
    })
}

/// A standard material, third shape: a level of detail leads.
pub struct XacStandardMaterial3 {
    pub lod: u32,
    pub ambient: FileColor,
    pub diffuse: FileColor,
    pub specular: FileColor,
    pub emissive: FileColor,
    pub shine: u32,
    pub shine_strength: u32,
    pub opacity: u32,
    pub ior: u32,
    pub double_sided: u8,
    pub wireframe: u8,
    pub transparency_type: u8,
    pub num_layers: u8,
    pub material_name: String,
    pub standard_material_layer2: Vec<XACStandardMaterialLayer2>,
}

pub open spec fn material3_ok(d: Seq<u8>, p: int) -> bool {
    &&& p + 88 <= d.len()
    &&& lp_ok(d, p + 88)
    &&& matlayers_ok(d, lp_end(d, p + 88), d[p + 87] as nat)
}

pub open spec fn material3_end(d: Seq<u8>, p: int) -> int {
    matlayers_end(d, lp_end(d, p + 88), d[p + 87] as nat)
}

pub open spec fn material3_parsed(m: XacStandardMaterial3, d: Seq<u8>, p: int) -> bool {
    &&& m.lod == le32_at(d, p)
    &&& m.ambient == color_at(d, p + 4)
    &&& m.diffuse == color_at(d, p + 20)
    &&& m.specular == color_at(d, p + 36)
    &&& m.emissive == color_at(d, p + 52)
    &&& m.shine == le32_at(d, p + 68)
    &&& m.shine_strength == le32_at(d, p + 72)
    &&& m.opacity == le32_at(d, p + 76)
    &&& m.ior == le32_at(d, p + 80)
    &&& m.double_sided == d[p + 84]
    &&& m.wireframe == d[p + 85]
    &&& m.transparency_type == d[p + 86]
    &&& m.num_layers == d[p + 87]
    &&& m.material_name@ == lp_str(d, p + 88)
    &&& matlayers_parsed(
        m.standard_material_layer2@,
        d,
        lp_end(d, p + 88),
        d[p + 87] as nat,
    )
}

fn read_xac_standard_material3(r: &mut BinaryReader) -> (res: Result<
    XacStandardMaterial3,
    TosError,
>)
    ensures
        final(r).data() == old(r).data(),
        match res {
            Ok(m) => {
                &&& material3_ok(old(r).data(), old(r).pos())
                &&& material3_parsed(m, old(r).data(), old(r).pos())
                &&& final(r).pos() == material3_end(old(r).data(), old(r).pos())
            },
            Err(e) => {
                &&& e == TosError::IoError
                &&& !material3_ok(old(r).data(), old(r).pos())
            },
        },
{
    let lod = r.read_u32()?;
    let ambient = read_color(r)?;
    let diffuse = read_color(r)?;
    let specular = read_color(r)?;
    let emissive = read_color(r)?;
    let shine = r.read_u32()?;
    let shine_strength = r.read_u32()?;
    let opacity = r.read_u32()?;
    let ior = r.read_u32()?;
    let double_sided = r.read_u8()?;
    let wireframe = r.read_u8()?;
    let transparency_type = r.read_u8()?;
    let num_layers = r.read_u8()?;
    let material_name = read_lpstring(r)?;
    let standard_material_layer2 = read_matlayer2_vec(r, num_layers as u32)?;
    Ok(XacStandardMaterial3 {
        lod,
        ambient,
        diffuse,
        specular,
        emissive,
        shine,
        shine_strength,
        opacity,
        ior,
        double_sided,
        wireframe,
        transparency_type,
        num_layers,
        material_name,
        standard_material_layer2,
    })
}

// ---------------------------------------------------------------------
// Node records.
// ---------------------------------------------------------------------

/// A transform-hierarchy node, first shape.
pub struct XacNode {
    pub local_quat: FileQuaternion,
    pub scale_rot: FileQuaternion,
    pub local_pos: FileVector3,
    pub local_scale: FileVector3,
    pub shear: FileVector3,
    pub skeletal_lods: u32,
    pub parent_index: u32,
    pub node_name: String,
}

pub open spec fn node1_ok(d: Seq<u8>, p: int) -> bool {
    &&& p + 76 <= d.len()
    &&& lp_ok(d, p + 76)
}

pub open spec fn node1_end(d: Seq<u8>, p: int) -> int {
    lp_end(d, p + 76)
}

pub open spec fn node1_parsed(m: XacNode, d: Seq<u8>, p: int) -> bool {
    &&& m.local_quat == quat_at(d, p)
    &&& m.scale_rot == quat_at(d, p + 16)
    &&& m.local_pos == vec3_at(d, p + 32)
    &&& m.local_scale == vec3_at(d, p + 44)
    &&& m.shear == vec3_at(d, p + 56)
    &&& m.skeletal_lods == le32_at(d, p + 68)
    &&& m.parent_index == le32_at(d, p + 72)
    &&& m.node_name@ == lp_str(d, p + 76)
}

fn read_xac_node(r: &mut BinaryReader) -> (res: Result<XacNode, TosError>)
    ensures
        final(r).data() == old(r).data(),
        match res {
            Ok(m) => {
                &&& node1_ok(old(r).data(), old(r).pos())
                &&& node1_parsed(m, old(r).data(), old(r).pos())
                &&& final(r).pos() == node1_end(old(r).data(), old(r).pos())
            },
            Err(e) => {
                &&& e == TosError::IoError
                &&& !node1_ok(old(r).data(), old(r).pos())
            },
        },
{
    let local_quat = read_quat(r)?;
    let scale_rot = read_quat(r)?;
    let local_pos = read_vec3(r)?;
    let local_scale = read_vec3(r)?;
    let shear = read_vec3(r)?;
    let skeletal_lods = r.read_u32()?;
    let parent_index = r.read_u32()?;
    let node_name = read_lpstring(r)?;
    Ok(XacNode {
        local_quat,
        scale_rot,
        local_pos,
        local_scale,
        shear,
        skeletal_lods,
        parent_index,
        node_name,
    })
}

/// A node, second shape: adds flag bits.
pub struct XacNode2 {
    pub local_quat: FileQuaternion,
    pub scale_rot: FileQuaternion,
    pub local_pos: FileVector3,
    pub local_scale: FileVector3,
    pub shear: FileVector3,
    pub skeletal_lods: u32,
    pub parent_index: u32,
    pub node_flags: u8,
    pub padding: [u8; 3],
    pub node_name: String,
}

pub open spec fn node2_ok(d: Seq<u8>, p: int) -> bool {
    &&& p + 80 <= d.len()
    &&& lp_ok(d, p + 80)
}

pub open spec fn node2_end(d: Seq<u8>, p: int) -> int {
    lp_end(d, p + 80)
}

pub open spec fn node2_parsed(m: XacNode2, d: Seq<u8>, p: int) -> bool {
    &&& m.local_quat == quat_at(d, p)
    &&& m.scale_rot == quat_at(d, p + 16)
    &&& m.local_pos == vec3_at(d, p + 32)
    &&& m.local_scale == vec3_at(d, p + 44)
    &&& m.shear == vec3_at(d, p + 56)
    &&& m.skeletal_lods == le32_at(d, p + 68)
    &&& m.parent_index == le32_at(d, p + 72)
    &&& m.node_flags == d[p + 76]
    &&& m.padding@ == d.subrange(p + 77, p + 80)
    &&& m.node_name@ == lp_str(d, p + 80)
}

fn read_xac_node2(r: &mut BinaryReader) -> (res: Result<XacNode2, TosError>)
    ensures
        final(r).data() == old(r).data(),
        match res {
            Ok(m) => {
                &&& node2_ok(old(r).data(), old(r).pos())
                &&& node2_parsed(m, old(r).data(), old(r).pos())
                &&& final(r).pos() == node2_end(old(r).data(), old(r).pos())
            },
            Err(e) => {
                &&& e == TosError::IoError
                &&& !node2_ok(old(r).data(), old(r).pos())
            },
        },
{
    let local_quat = read_quat(r)?;
    let scale_rot = read_quat(r)?;
    let local_pos = read_vec3(r)?;
    let local_scale = read_vec3(r)?;
    let shear = read_vec3(r)?;
    let skeletal_lods = r.read_u32()?;
    let parent_index = r.read_u32()?;
    let node_flags = r.read_u8()?;
    let padding = r.read_u8_array_3()?;
    let node_name = read_lpstring(r)?;
    Ok(XacNode2 {
        local_quat,
        scale_rot,
        local_pos,
        local_scale,
        shear,
        skeletal_lods,
        parent_index,
        node_flags,
        padding,
        node_name,
    })
}

/// A node, third shape: adds an oriented bounding box, held as sixteen
/// float bit patterns.
pub struct XacNode3 {
    pub local_quat: FileQuaternion,
    pub scale_rot: FileQuaternion,
    pub local_pos: FileVector3,
    pub local_scale: FileVector3,
    pub shear: FileVector3,
    pub skeletal_lods: u32,
    pub parent_index: u32,
    pub node_flags: u8,
    pub obb: Vec<u32>,
    pub padding: [u8; 3],
    pub node_name: String,
}

pub open spec fn node3_ok(d: Seq<u8>, p: int) -> bool {
    &&& p + 144 <= d.len()
    &&& lp_ok(d, p + 144)
}

pub open spec fn node3_end(d: Seq<u8>, p: int) -> int {
    lp_end(d, p + 144)
}

pub open spec fn node3_parsed(m: XacNode3, d: Seq<u8>, p: int) -> bool {
    &&& m.local_quat == quat_at(d, p)
    &&& m.scale_rot == quat_at(d, p + 16)
    &&& m.local_pos == vec3_at(d, p + 32)
    &&& m.local_scale == vec3_at(d, p + 44)
    &&& m.shear == vec3_at(d, p + 56)
    &&& m.skeletal_lods == le32_at(d, p + 68)
    &&& m.parent_index == le32_at(d, p + 72)
    &&& m.node_flags == d[p + 76]
    &&& m.obb@ == u32_seq_at(d, p + 77, 16)
    &&& m.padding@ == d.subrange(p + 141, p + 144)
    &&& m.node_name@ == lp_str(d, p + 144)
}

fn read_xac_node3(r: &mut BinaryReader) -> (res: Result<XacNode3, TosError>)
    ensures
        final(r).data() == old(r).data(),
        match res {
            Ok(m) => {
                &&& node3_ok(old(r).data(), old(r).pos())
                &&& node3_parsed(m, old(r).data(), old(r).pos())
                &&& final(r).pos() == node3_end(old(r).data(), old(r).pos())
            },
            Err(e) => {
                &&& e == TosError::IoError
                &&& !node3_ok(old(r).data(), old(r).pos())
            },
        },
{
    let local_quat = read_quat(r)?;
    let scale_rot = read_quat(r)?;
    let local_pos = read_vec3(r)?;
    let local_scale = read_vec3(r)?;
    let shear = read_vec3(r)?;
    let skeletal_lods = r.read_u32()?;
    let parent_index = r.read_u32()?;
    let node_flags = r.read_u8()?;
    let obb = read_u32_vec(r, 16)?;
    let padding = r.read_u8_array_3()?;
    let node_name = read_lpstring(r)?;
    Ok(XacNode3 {
        local_quat,
        scale_rot,
        local_pos,
        local_scale,
        shear,
        skeletal_lods,
        parent_index,
        node_flags,
        obb,
        padding,
        node_name,
    })
}

/// A node, fourth shape: motion levels, child count and an importance
/// factor join the third shape's fields.
pub struct XacNode4 {
    pub local_quat: FileQuaternion,
    pub scale_rot: FileQuaternion,
    pub local_pos: FileVector3,
    pub local_scale: FileVector3,
    pub shear: FileVector3,
    pub skeletal_lods: u32,
    pub motion_lods: u32,
    pub parent_index: u32,
    pub num_children: u32,
    pub node_flags: u8,
    pub obb: Vec<u32>,
    pub importance_factor: u32,
    pub padding: [u8; 3],
    pub node_name: String,
}

pub open spec fn node4_ok(d: Seq<u8>, p: int) -> bool {
    &&& p + 156 <= d.len()
    &&& lp_ok(d, p + 156)
}

pub open spec fn node4_end(d: Seq<u8>, p: int) -> int {
    lp_end(d, p + 156)
}

/// The end function of a run of fourth-shape nodes.
pub open spec fn node4_end_f() -> spec_fn(Seq<u8>, int) -> int {
    |d: Seq<u8>, p: int| node4_end(d, p)
}

pub open spec fn node4_parsed(m: XacNode4, d: Seq<u8>, p: int) -> bool {
    &&& m.local_quat == quat_at(d, p)
    &&& m.scale_rot == quat_at(d, p + 16)
    &&& m.local_pos == vec3_at(d, p + 32)
    &&& m.local_scale == vec3_at(d, p + 44)
    &&& m.shear == vec3_at(d, p + 56)
    &&& m.skeletal_lods == le32_at(d, p + 68)
    &&& m.motion_lods == le32_at(d, p + 72)
    &&& m.parent_index == le32_at(d, p + 76)
    &&& m.num_children == le32_at(d, p + 80)
    &&& m.node_flags == d[p + 84]
    &&& m.obb@ == u32_seq_at(d, p + 85, 16)
    &&& m.importance_factor == le32_at(d, p + 149)
    &&& m.padding@ == d.subrange(p + 153, p + 156)
    &&& m.node_name@ == lp_str(d, p + 156)
}

fn read_xac_node4(r: &mut BinaryReader) -> (res: Result<XacNode4, TosError>)
    ensures
        final(r).data() == old(r).data(),
        match res {
            Ok(m) => {
                &&& node4_ok(old(r).data(), old(r).pos())
                &&& node4_parsed(m, old(r).data(), old(r).pos())
                &&& final(r).pos() == node4_end(old(r).data(), old(r).pos())
            },
            Err(e) => {
                &&& e == TosError::IoError
                &&& !node4_ok(old(r).data(), old(r).pos())
            },
        },
{
    let local_quat = read_quat(r)?;
    let scale_rot = read_quat(r)?;
    let local_pos = read_vec3(r)?;
    let local_scale = read_vec3(r)?;
    let shear = read_vec3(r)?;
    let skeletal_lods = r.read_u32()?;
    let motion_lods = r.read_u32()?;
    let parent_index = r.read_u32()?;
    let num_children = r.read_u32()?;
    let node_flags = r.read_u8()?;
    let obb = read_u32_vec(r, 16)?;
    let importance_factor = r.read_u32()?;
    let padding = r.read_u8_array_3()?;
    let node_name = read_lpstring(r)?;
    Ok(XacNode4 {
        local_quat,
        scale_rot,
        local_pos,
        local_scale,
        shear,
        skeletal_lods,
        motion_lods,
        parent_index,
        num_children,
        node_flags,
        obb,
        importance_factor,
        padding,
        node_name,
    })
}

/// A whole node hierarchy: a run of fourth-shape nodes.
pub struct XACNodes {
    pub num_nodes: u32,
    pub num_root_nodes: u32,
    pub xac_node: Vec<XacNode4>,
}

pub open spec fn nodes_run_ok(d: Seq<u8>, p: int, n: nat) -> bool {
    forall|i: nat| i < n ==> node4_ok(d, #[trigger] rep_start(d, p, i, node4_end_f()))
}

pub open spec fn nodes_run_end(d: Seq<u8>, p: int, n: nat) -> int {
    rep_start(d, p, n, node4_end_f())
}

pub open spec fn nodes_run_parsed(v: Seq<XacNode4>, d: Seq<u8>, p: int, n: nat) -> bool {
    &&& v.len() == n
    &&& forall|i: nat|
        i < n ==> node4_parsed(v[i as int], d, #[trigger] rep_start(d, p, i, node4_end_f()))
}

pub open spec fn nodes_ok(d: Seq<u8>, p: int) -> bool {
    &&& p + 8 <= d.len()
    &&& nodes_run_ok(d, p + 8, le32_at(d, p) as nat)
}

pub open spec fn nodes_end(d: Seq<u8>, p: int) -> int {
    nodes_run_end(d, p + 8, le32_at(d, p) as nat)
}

pub open spec fn nodes_parsed(m: XACNodes, d: Seq<u8>, p: int) -> bool {
    &&& m.num_nodes == le32_at(d, p)
    &&& m.num_root_nodes == le32_at(d, p + 4)
    &&& nodes_run_parsed(m.xac_node@, d, p + 8, le32_at(d, p) as nat)
}

fn read_xac_nodes(r: &mut BinaryReader) -> (res: Result<XACNodes, TosError>)
    ensures
        final(r).data() == old(r).data(),
        match res {
            Ok(m) => {
                &&& nodes_ok(old(r).data(), old(r).pos())
                &&& nodes_parsed(m, old(r).data(), old(r).pos())
                &&& final(r).pos() == nodes_end(old(r).data(), old(r).pos())
            },
            Err(e) => {
                &&& e == TosError::IoError
                &&& !nodes_ok(old(r).data(), old(r).pos())
            },
        },
{
    let ghost d = old(r).data();
    let num_nodes = r.read_u32()?;
    let num_root_nodes = r.read_u32()?;
    let ghost q = old(r).pos() + 8;
    let mut xac_node: Vec<XacNode4> = Vec::new();
    let mut i: u32 = 0;
    while i < num_nodes
        invariant
            r.data() == d,
            d == old(r).data(),
            q == old(r).pos() + 8,
            num_nodes == le32_at(d, old(r).pos()),
            old(r).pos() + 8 <= d.len(),
            num_root_nodes == le32_at(d, old(r).pos() + 4),
            0 <= i <= num_nodes,
            xac_node@.len() == i,
            forall|j: nat| j < i ==> node4_ok(d, #[trigger] rep_start(d, q, j, node4_end_f())),
            forall|j: nat|
                j < i ==> node4_parsed(
                    xac_node@[j as int],
                    d,
                    #[trigger] rep_start(d, q, j, node4_end_f()),
                ),
            r.pos() == rep_start(d, q, i as nat, node4_end_f()),
        decreases num_nodes - i,
    {
        match read_xac_node4(r) {
            Ok(x) => {
                xac_node.push(x);
                proof {
                    assert(rep_start(d, q, (i + 1) as nat, node4_end_f()) == node4_end(
                        d,
                        rep_start(d, q, i as nat, node4_end_f()),
                    ));
                }
            },
            Err(e) => {
                proof {
                    assert(!nodes_run_ok(d, q, num_nodes as nat)) by {
                        if nodes_run_ok(d, q, num_nodes as nat) {
                            assert(node4_ok(d, rep_start(d, q, i as nat, node4_end_f())));
                        }
                    }
                }
                return Err(e);
            },
        }
        i = i + 1;
    }
    Ok(XACNodes { num_nodes, num_root_nodes, xac_node })
}

// ---------------------------------------------------------------------
// Submeshes and vertex attribute layers, the building blocks of meshes.
// ---------------------------------------------------------------------

/// One submesh: index and bone lists over the mesh-global vertex space.
pub struct XACSubMesh {
    pub num_indices: u32,
    pub num_verts: u32,
    pub material_index: u32,
    pub num_bones: u32,
    pub indices: Vec<u32>,
    pub bones: Vec<u32>,
}

pub open spec fn submesh_ok(d: Seq<u8>, p: int) -> bool {
    let ni = le32_at(d, p) as int;
    let nb = le32_at(d, p + 12) as int;
    &&& p + 16 <= d.len()
    &&& p + 16 + 4 * ni <= d.len()
    &&& p + 16 + 4 * ni + 4 * nb <= d.len()
}

pub open spec fn submesh_end(d: Seq<u8>, p: int) -> int {
    p + 16 + 4 * le32_at(d, p) + 4 * le32_at(d, p + 12)
}

/// The end function of a submesh run.
pub open spec fn submesh_end_f() -> spec_fn(Seq<u8>, int) -> int {
    |d: Seq<u8>, p: int| submesh_end(d, p)
}

pub open spec fn submesh_parsed(m: XACSubMesh, d: Seq<u8>, p: int) -> bool {
    let ni = le32_at(d, p) as int;
    let nb = le32_at(d, p + 12) as int;
    &&& m.num_indices == le32_at(d, p)
    &&& m.num_verts == le32_at(d, p + 4)
    &&& m.material_index == le32_at(d, p + 8)
    &&& m.num_bones == le32_at(d, p + 12)
    &&& m.indices@ == u32_seq_at(d, p + 16, ni)
    &&& m.bones@ == u32_seq_at(d, p + 16 + 4 * ni, nb)
}

pub open spec fn submeshes_ok(d: Seq<u8>, p: int, n: nat) -> bool {
    forall|i: nat| i < n ==> submesh_ok(d, #[trigger] rep_start(d, p, i, submesh_end_f()))
}

pub open spec fn submeshes_end(d: Seq<u8>, p: int, n: nat) -> int {
    rep_start(d, p, n, submesh_end_f())
}

pub open spec fn submeshes_parsed(v: Seq<XACSubMesh>, d: Seq<u8>, p: int, n: nat) -> bool {
    &&& v.len() == n
    &&& forall|i: nat|
        i < n ==> submesh_parsed(v[i as int], d, #[trigger] rep_start(d, p, i, submesh_end_f()))
}

fn read_xac_sub_mesh(r: &mut BinaryReader) -> (res: Result<XACSubMesh, TosError>)
    ensures
        final(r).data() == old(r).data(),
        match res {
            Ok(m) => {
                &&& submesh_ok(old(r).data(), old(r).pos())
                &&& submesh_parsed(m, old(r).data(), old(r).pos())
                &&& final(r).pos() == submesh_end(old(r).data(), old(r).pos())
            },
            Err(e) => {
                &&& e == TosError::IoError
                &&& !submesh_ok(old(r).data(), old(r).pos())
            },
        },
{
    let num_indices = r.read_u32()?;
    let num_verts = r.read_u32()?;
    let material_index = r.read_u32()?;
    let num_bones = r.read_u32()?;
    let indices = read_u32_vec(r, num_indices)?;
    let bones = read_u32_vec(r, num_bones)?;
    Ok(XACSubMesh { num_indices, num_verts, material_index, num_bones, indices, bones })
}

/// One per-vertex data column: a kind id, the per-vertex width, and the
/// raw bytes for every vertex of the mesh, uninterpreted until assembly.
pub struct XACVertexAttributeLayer {
    pub layer_type_id: u32,
    pub attrib_size_in_bytes: u32,
    pub enable_deformations: u8,
    pub is_scale: u8,
    pub padding: [u8; 2],
    pub mesh_data: Vec<u8>,
}

pub open spec fn layer_ok(d: Seq<u8>, p: int, tv: int) -> bool {
    &&& p + 12 <= d.len()
    &&& p + 12 + le32_at(d, p + 4) * tv <= d.len()
}

pub open spec fn layer_end(d: Seq<u8>, p: int, tv: int) -> int {
    p + 12 + le32_at(d, p + 4) * tv
}

/// The end function of a layer run over `tv` vertices.
pub open spec fn layer_end_f(tv: int) -> spec_fn(Seq<u8>, int) -> int {
    |d: Seq<u8>, p: int| layer_end(d, p, tv)
}

pub open spec fn layer_parsed(m: XACVertexAttributeLayer, d: Seq<u8>, p: int, tv: int) -> bool {
    &&& m.layer_type_id == le32_at(d, p)
    &&& m.attrib_size_in_bytes == le32_at(d, p + 4)
    &&& m.enable_deformations == d[p + 8]
    &&& m.is_scale == d[p + 9]
    &&& m.padding@ == d.subrange(p + 10, p + 12)
    &&& m.mesh_data@ == d.subrange(p + 12, p + 12 + le32_at(d, p + 4) * tv)
}

pub open spec fn layers_ok(d: Seq<u8>, p: int, n: nat, tv: int) -> bool {
    forall|i: nat| i < n ==> layer_ok(d, #[trigger] rep_start(d, p, i, layer_end_f(tv)), tv)
}

pub open spec fn layers_end(d: Seq<u8>, p: int, n: nat, tv: int) -> int {
    rep_start(d, p, n, layer_end_f(tv))
}

pub open spec fn layers_parsed(
    v: Seq<XACVertexAttributeLayer>,
    d: Seq<u8>,
    p: int,
    n: nat,
    tv: int,
) -> bool {
    &&& v.len() == n
    &&& forall|i: nat|
        i < n ==> layer_parsed(v[i as int], d, #[trigger] rep_start(d, p, i, layer_end_f(tv)), tv)
}

fn read_xac_vertex_attribute_layer(r: &mut BinaryReader, total_verts: u32) -> (res: Result<
    XACVertexAttributeLayer,
    TosError,
>)
    ensures
        final(r).data() == old(r).data(),
        match res {
            Ok(m) => {
                &&& layer_ok(old(r).data(), old(r).pos(), total_verts as int)
                &&& layer_parsed(m, old(r).data(), old(r).pos(), total_verts as int)
                &&& final(r).pos() == layer_end(old(r).data(), old(r).pos(), total_verts as int)
            },
            Err(e) => {
                &&& e == TosError::IoError
                &&& !layer_ok(old(r).data(), old(r).pos(), total_verts as int)
            },
        },
{
    let layer_type_id = r.read_u32()?;
    let attrib_size_in_bytes = r.read_u32()?;
    let enable_deformations = r.read_u8()?;
    let is_scale = r.read_u8()?;
    let pad0 = r.read_u8()?;
    let pad1 = r.read_u8()?;
    let padding = [pad0, pad1];
    proof {
        assert(padding@ =~= old(r).data().subrange(old(r).pos() + 10, old(r).pos() + 12));
        assert((attrib_size_in_bytes as u64) * (total_verts as u64) <= 0xFFFFFFFFu64
            * 0xFFFFFFFFu64) by (nonlinear_arith)
            requires
                attrib_size_in_bytes <= 0xFFFFFFFFu32 && total_verts <= 0xFFFFFFFFu32,
        ;
    }
    let need: u64 = (attrib_size_in_bytes as u64) * (total_verts as u64);
    let remaining: u64 = r.file_size() - r.tell();
    if need > remaining {
        return Err(TosError::IoError);
    }
    let cap = r.data.len();
    proof {
        assert(need <= cap);
    }
    let mesh_data = match r.read_bytes(need as usize) {
        Ok(v) => v,
        Err(e) => {
            return Err(e);
        },
    };
    Ok(XACVertexAttributeLayer {
        layer_type_id,
        attrib_size_in_bytes,
        enable_deformations,
        is_scale,
        padding,
        mesh_data,
    })
}

/// Reads a run of `n` vertex attribute layers.
fn read_layer_vec(r: &mut BinaryReader, n: u32, total_verts: u32) -> (res: Result<
    Vec<XACVertexAttributeLayer>,
    TosError,
>)
    ensures
        final(r).data() == old(r).data(),
        match res {
            Ok(v) => {
                &&& layers_ok(old(r).data(), old(r).pos(), n as nat, total_verts as int)
                &&& layers_parsed(v@, old(r).data(), old(r).pos(), n as nat, total_verts as int)
                &&& final(r).pos() == layers_end(
                    old(r).data(),
                    old(r).pos(),
                    n as nat,
                    total_verts as int,
                )
            },
            Err(e) => {
                &&& e == TosError::IoError
                &&& !layers_ok(old(r).data(), old(r).pos(), n as nat, total_verts as int)
            },
        },
{
    let ghost d = old(r).data();
    let ghost p = old(r).pos();
    let ghost tv = total_verts as int;
    let mut v: Vec<XACVertexAttributeLayer> = Vec::new();
    let mut i: u32 = 0;
    while i < n
        invariant
            r.data() == d,
            d == old(r).data(),
            p == old(r).pos(),
            tv == total_verts as int,
            0 <= i <= n,
            v@.len() == i,
            forall|j: nat|
                j < i ==> layer_ok(d, #[trigger] rep_start(d, p, j, layer_end_f(tv)), tv),
            forall|j: nat|
                j < i ==> layer_parsed(
                    v@[j as int],
                    d,
                    #[trigger] rep_start(d, p, j, layer_end_f(tv)),
                    tv,
                ),
            r.pos() == rep_start(d, p, i as nat, layer_end_f(tv)),
        decreases n - i,
    {
        match read_xac_vertex_attribute_layer(r, total_verts) {
            Ok(x) => {
                v.push(x);
                proof {
                    assert(rep_start(d, p, (i + 1) as nat, layer_end_f(tv)) == layer_end(
                        d,
                        rep_start(d, p, i as nat, layer_end_f(tv)),
                        tv,
                    ));
                }
            },
            Err(e) => {
                proof {
                    assert(!layers_ok(d, p, n as nat, tv)) by {
                        if layers_ok(d, p, n as nat, tv) {
                            assert(layer_ok(d, rep_start(d, p, i as nat, layer_end_f(tv)), tv));
                        }
                    }
                }
                return Err(e);
            },
        }
        i = i + 1;
    }
    Ok(v)
}

/// Reads a run of `n` submeshes.
fn read_submesh_vec(r: &mut BinaryReader, n: u32) -> (res: Result<Vec<XACSubMesh>, TosError>)
    ensures
        final(r).data() == old(r).data(),
        match res {
            Ok(v) => {
                &&& submeshes_ok(old(r).data(), old(r).pos(), n as nat)
                &&& submeshes_parsed(v@, old(r).data(), old(r).pos(), n as nat)
                &&& final(r).pos() == submeshes_end(old(r).data(), old(r).pos(), n as nat)
            },
            Err(e) => {
                &&& e == TosError::IoError
                &&& !submeshes_ok(old(r).data(), old(r).pos(), n as nat)
            },
        },
{
    let ghost d = old(r).data();
    let ghost p = old(r).pos();
    let mut v: Vec<XACSubMesh> = Vec::new();
    let mut i: u32 = 0;
    while i < n
        invariant
            r.data() == d,
            d == old(r).data(),
            p == old(r).pos(),
            0 <= i <= n,
            v@.len() == i,
            forall|j: nat| j < i ==> submesh_ok(d, #[trigger] rep_start(d, p, j, submesh_end_f())),
            forall|j: nat|
                j < i ==> submesh_parsed(
                    v@[j as int],
                    d,
                    #[trigger] rep_start(d, p, j, submesh_end_f()),
                ),
            r.pos() == rep_start(d, p, i as nat, submesh_end_f()),
        decreases n - i,
    {
        match read_xac_sub_mesh(r) {
            Ok(x) => {
                v.push(x);
                proof {
                    assert(rep_start(d, p, (i + 1) as nat, submesh_end_f()) == submesh_end(
                        d,
                        rep_start(d, p, i as nat, submesh_end_f()),
                    ));
                }
            },
            Err(e) => {
                proof {
                    assert(!submeshes_ok(d, p, n as nat)) by {
                        if submeshes_ok(d, p, n as nat) {
                            assert(submesh_ok(d, rep_start(d, p, i as nat, submesh_end_f())));
                        }
                    }
                }
                return Err(e);
            },
        }
        i = i + 1;
    }
    Ok(v)
}

// ---------------------------------------------------------------------
// Mesh records.
// ---------------------------------------------------------------------

/// A mesh, first shape: counts, then layers, then submeshes.
pub struct XACMesh {
    pub node_index: u32,
    pub num_org_verts: u32,
    pub total_verts: u32,
    pub total_indices: u32,
    pub num_sub_meshes: u32,
    pub num_layers: u32,
    pub is_collision_mesh: u8,
    pub padding: [u8; 3],
    pub vertex_attribute_layer: Vec<XACVertexAttributeLayer>,
    pub sub_meshes: Vec<XACSubMesh>,
}

pub open spec fn mesh1_ok(d: Seq<u8>, p: int) -> bool {
    let tv = le32_at(d, p + 8) as int;
    let ns = le32_at(d, p + 16) as nat;
    let nl = le32_at(d, p + 20) as nat;
    &&& p + 28 <= d.len()
    &&& layers_ok(d, p + 28, nl, tv)
    &&& submeshes_ok(d, layers_end(d, p + 28, nl, tv), ns)
}

pub open spec fn mesh1_end(d: Seq<u8>, p: int) -> int {
    let tv = le32_at(d, p + 8) as int;
    let ns = le32_at(d, p + 16) as nat;
    let nl = le32_at(d, p + 20) as nat;
    submeshes_end(d, layers_end(d, p + 28, nl, tv), ns)
}

pub open spec fn mesh1_parsed(m: XACMesh, d: Seq<u8>, p: int) -> bool {
    let tv = le32_at(d, p + 8) as int;
    let ns = le32_at(d, p + 16) as nat;
    let nl = le32_at(d, p + 20) as nat;
    &&& m.node_index == le32_at(d, p)
    &&& m.num_org_verts == le32_at(d, p + 4)
    &&& m.total_verts == le32_at(d, p + 8)
    &&& m.total_indices == le32_at(d, p + 12)
    &&& m.num_sub_meshes == le32_at(d, p + 16)
    &&& m.num_layers == le32_at(d, p + 20)
    &&& m.is_collision_mesh == d[p + 24]
    &&& m.padding@ == d.subrange(p + 25, p + 28)
    &&& layers_parsed(m.vertex_attribute_layer@, d, p + 28, nl, tv)
    &&& submeshes_parsed(m.sub_meshes@, d, layers_end(d, p + 28, nl, tv), ns)
}

fn read_xac_mesh(r: &mut BinaryReader) -> (res: Result<XACMesh, TosError>)
    ensures
        final(r).data() == old(r).data(),
        match res {
            Ok(m) => {
                &&& mesh1_ok(old(r).data(), old(r).pos())
                &&& mesh1_parsed(m, old(r).data(), old(r).pos())
                &&& final(r).pos() == mesh1_end(old(r).data(), old(r).pos())
            },
            Err(e) => {
                &&& e == TosError::IoError
                &&& !mesh1_ok(old(r).data(), old(r).pos())
            },
        },
{
    let node_index = r.read_u32()?;
    let num_org_verts = r.read_u32()?;
    let total_verts = r.read_u32()?;
    let total_indices = r.read_u32()?;
    let num_sub_meshes = r.read_u32()?;
    let num_layers = r.read_u32()?;
    let is_collision_mesh = r.read_u8()?;
    let padding = r.read_u8_array_3()?;
    let vertex_attribute_layer = read_layer_vec(r, num_layers, total_verts)?;
    let sub_meshes = read_submesh_vec(r, num_sub_meshes)?;
    Ok(XACMesh {
        node_index,
        num_org_verts,
        total_verts,
        total_indices,
        num_sub_meshes,
        num_layers,
        is_collision_mesh,
        padding,
        vertex_attribute_layer,
        sub_meshes,
    })
}

/// A mesh, second shape: a level of detail joins the counts.
pub struct XACMesh2 {
    pub node_index: u32,
    pub lod: u32,
    pub num_org_verts: u32,
    pub total_verts: u32,
    pub total_indices: u32,
    pub num_sub_meshes: u32,
    pub num_layers: u32,
    pub is_collision_mesh: u8,
    pub padding: [u8; 3],
    pub vertex_attribute_layer: Vec<XACVertexAttributeLayer>,
    pub sub_meshes: Vec<XACSubMesh>,
}

pub open spec fn mesh2_ok(d: Seq<u8>, p: int) -> bool {
    let tv = le32_at(d, p + 12) as int;
    let ns = le32_at(d, p + 20) as nat;
    let nl = le32_at(d, p + 24) as nat;
    &&& p + 32 <= d.len()
    &&& layers_ok(d, p + 32, nl, tv)
    &&& submeshes_ok(d, layers_end(d, p + 32, nl, tv), ns)
}

pub open spec fn mesh2_end(d: Seq<u8>, p: int) -> int {
    let tv = le32_at(d, p + 12) as int;
    let ns = le32_at(d, p + 20) as nat;
    let nl = le32_at(d, p + 24) as nat;
    submeshes_end(d, layers_end(d, p + 32, nl, tv), ns)
}

pub open spec fn mesh2_parsed(m: XACMesh2, d: Seq<u8>, p: int) -> bool {
    let tv = le32_at(d, p + 12) as int;
    let ns = le32_at(d, p + 20) as nat;
    let nl = le32_at(d, p + 24) as nat;
    &&& m.node_index == le32_at(d, p)
    &&& m.lod == le32_at(d, p + 4)
    &&& m.num_org_verts == le32_at(d, p + 8)
    &&& m.total_verts == le32_at(d, p + 12)
    &&& m.total_indices == le32_at(d, p + 16)
    &&& m.num_sub_meshes == le32_at(d, p + 20)
    &&& m.num_layers == le32_at(d, p + 24)
    &&& m.is_collision_mesh == d[p + 28]
    &&& m.padding@ == d.subrange(p + 29, p + 32)
    &&& layers_parsed(m.vertex_attribute_layer@, d, p + 32, nl, tv)
    &&& submeshes_parsed(m.sub_meshes@, d, layers_end(d, p + 32, nl, tv), ns)
}

fn read_xac_mesh2(r: &mut BinaryReader) -> (res: Result<XACMesh2, TosError>)
    ensures
        final(r).data() == old(r).data(),
        match res {
            Ok(m) => {
                &&& mesh2_ok(old(r).data(), old(r).pos())
                &&& mesh2_parsed(m, old(r).data(), old(r).pos())
                &&& final(r).pos() == mesh2_end(old(r).data(), old(r).pos())
            },
            Err(e) => {
                &&& e == TosError::IoError
                &&& !mesh2_ok(old(r).data(), old(r).pos())
            },
        },
{
    let node_index = r.read_u32()?;
    let lod = r.read_u32()?;
    let num_org_verts = r.read_u32()?;
    let total_verts = r.read_u32()?;
    let total_indices = r.read_u32()?;
    let num_sub_meshes = r.read_u32()?;
    let num_layers = r.read_u32()?;
    let is_collision_mesh = r.read_u8()?;
    let padding = r.read_u8_array_3()?;
    let vertex_attribute_layer = read_layer_vec(r, num_layers, total_verts)?;
    let sub_meshes = read_submesh_vec(r, num_sub_meshes)?;
    Ok(XACMesh2 {
        node_index,
        lod,
        num_org_verts,
        total_verts,
        total_indices,
        num_sub_meshes,
        num_layers,
        is_collision_mesh,
        padding,
        vertex_attribute_layer,
        sub_meshes,
    })
}

// ---------------------------------------------------------------------
// Skinning records with externally sized tables.
// ---------------------------------------------------------------------

/// One bone influence on a vertex: a weight (float bits) and a node.
pub struct XacSkinInfluence {
    pub weight: u32,
    pub node_number: u32,
}

/// One per-vertex entry into the influence array.
pub struct XacSkinningInfoTableEntry {
    pub start_index: u32,
    pub num_elements: u32,
}

pub open spec fn influence_at(d: Seq<u8>, p: int) -> XacSkinInfluence {
    XacSkinInfluence { weight: le32_at(d, p), node_number: le32_at(d, p + 4) }
}

pub open spec fn influences_at(d: Seq<u8>, p: int, n: int) -> Seq<XacSkinInfluence> {
    Seq::new(n as nat, |i: int| influence_at(d, p + 8 * i))
}

pub open spec fn table_entry_at(d: Seq<u8>, p: int) -> XacSkinningInfoTableEntry {
    XacSkinningInfoTableEntry { start_index: le32_at(d, p), num_elements: le32_at(d, p + 4) }
}

pub open spec fn table_entries_at(d: Seq<u8>, p: int, n: int) -> Seq<XacSkinningInfoTableEntry> {
    Seq::new(n as nat, |i: int| table_entry_at(d, p + 8 * i))
}

/// Reads `n` influences.
fn read_influences(r: &mut BinaryReader, n: u32) -> (res: Result<Vec<XacSkinInfluence>, TosError>)
    ensures
        final(r).data() == old(r).data(),
        match res {
            Ok(v) => {
                &&& n > 0 ==> old(r).pos() + 8 * n <= old(r).data().len()
                &&& v@ == influences_at(old(r).data(), old(r).pos(), n as int)
                &&& final(r).pos() == old(r).pos() + 8 * n
            },
            Err(e) => {
                &&& e == TosError::IoError
                &&& old(r).pos() + 8 * n > old(r).data().len()
            },
        },
{
    let ghost d = old(r).data();
    let ghost p = old(r).pos();
    let mut v: Vec<XacSkinInfluence> = Vec::new();
    let mut i: u32 = 0;
    while i < n
        invariant
            r.data() == d,
            d == old(r).data(),
            p == old(r).pos(),
            0 <= i <= n,
            v@.len() == i,
            forall|j: int| 0 <= j < i ==> v@[j] == influence_at(d, p + 8 * j),
            r.pos() == p + 8 * i,
            i > 0 ==> p + 8 * i <= d.len(),
        decreases n - i,
    {
        let weight = match r.read_u32() {
            Ok(x) => x,
            Err(e) => {
                return Err(e);
            },
        };
        let node_number = match r.read_u32() {
            Ok(x) => x,
            Err(e) => {
                return Err(e);
            },
        };
        v.push(XacSkinInfluence { weight, node_number });
        i = i + 1;
    }
    proof {
        assert(v@ =~= influences_at(d, p, n as int));
    }
    Ok(v)
}

/// Reads `n` table entries.
fn read_table_entries(r: &mut BinaryReader, n: u32) -> (res: Result<
    Vec<XacSkinningInfoTableEntry>,
    TosError,
>)
    ensures
        final(r).data() == old(r).data(),
        match res {
            Ok(v) => {
                &&& n > 0 ==> old(r).pos() + 8 * n <= old(r).data().len()
                &&& v@ == table_entries_at(old(r).data(), old(r).pos(), n as int)
                &&& final(r).pos() == old(r).pos() + 8 * n
            },
            Err(e) => {
                &&& e == TosError::IoError
                &&& old(r).pos() + 8 * n > old(r).data().len()
            },
        },
{
    let ghost d = old(r).data();
    let ghost p = old(r).pos();
    let mut v: Vec<XacSkinningInfoTableEntry> = Vec::new();
    let mut i: u32 = 0;
    while i < n
        invariant
            r.data() == d,
            d == old(r).data(),
            p == old(r).pos(),
            0 <= i <= n,
            v@.len() == i,
            forall|j: int| 0 <= j < i ==> v@[j] == table_entry_at(d, p + 8 * j),
            r.pos() == p + 8 * i,
            i > 0 ==> p + 8 * i <= d.len(),
        decreases n - i,
    {
        let start_index = match r.read_u32() {
            Ok(x) => x,
            Err(e) => {
                return Err(e);
            },
        };
        let num_elements = match r.read_u32() {
            Ok(x) => x,
            Err(e) => {
                return Err(e);
            },
        };
        v.push(XacSkinningInfoTableEntry { start_index, num_elements });
        i = i + 1;
    }
    proof {
        assert(v@ =~= table_entries_at(d, p, n as int));
    }
    Ok(v)
}

/// Skinning record, second shape. The table length `num_org_verts` is
/// not stored in the record: it comes from the mesh chunk that shares
/// this record's node index.
pub struct XacSkinningInfo2 {
    pub node_index: u32,
    pub num_total_influences: u32,
    pub is_for_collision_mesh: u8,
    pub padding: [u8; 3],
    pub skinning_influence: Vec<XacSkinInfluence>,
    pub skinning_info_table_entry: Vec<XacSkinningInfoTableEntry>,
}

pub open spec fn skin2_ok(d: Seq<u8>, p: int, nv: int) -> bool {
    let ni = le32_at(d, p + 4) as int;
    &&& p + 12 <= d.len()
    &&& p + 12 + 8 * ni <= d.len()
    &&& p + 12 + 8 * ni + 8 * nv <= d.len()
}

pub open spec fn skin2_end(d: Seq<u8>, p: int, nv: int) -> int {
    p + 12 + 8 * le32_at(d, p + 4) + 8 * nv
}

pub open spec fn skin2_parsed(m: XacSkinningInfo2, d: Seq<u8>, p: int, nv: int) -> bool {
    let ni = le32_at(d, p + 4) as int;
    &&& m.node_index == le32_at(d, p)
    &&& m.num_total_influences == le32_at(d, p + 4)
    &&& m.is_for_collision_mesh == d[p + 8]
    &&& m.padding@ == d.subrange(p + 9, p + 12)
    &&& m.skinning_influence@ == influences_at(d, p + 12, ni)
    &&& m.skinning_info_table_entry@ == table_entries_at(d, p + 12 + 8 * ni, nv)
}

fn read_xac_skinning_info2(r: &mut BinaryReader, num_org_verts: u32) -> (res: Result<
    XacSkinningInfo2,
    TosError,
>)
    ensures
        final(r).data() == old(r).data(),
        match res {
            Ok(m) => {
                &&& skin2_ok(old(r).data(), old(r).pos(), num_org_verts as int)
                &&& skin2_parsed(m, old(r).data(), old(r).pos(), num_org_verts as int)
                &&& final(r).pos() == skin2_end(
                    old(r).data(),
                    old(r).pos(),
                    num_org_verts as int,
                )
            },
            Err(e) => {
                &&& e == TosError::IoError
                &&& !skin2_ok(old(r).data(), old(r).pos(), num_org_verts as int)
            },
        },
{
    let node_index = r.read_u32()?;
    let num_total_influences = r.read_u32()?;
    let is_for_collision_mesh = r.read_u8()?;
    let padding = r.read_u8_array_3()?;
    let skinning_influence = read_influences(r, num_total_influences)?;
    let skinning_info_table_entry = read_table_entries(r, num_org_verts)?;
    Ok(XacSkinningInfo2 {
        node_index,
        num_total_influences,
        is_for_collision_mesh,
        padding,
        skinning_influence,
        skinning_info_table_entry,
    })
}

/// Skinning record, third shape: adds the local bone count.
pub struct XacSkinningInfo3 {
    pub node_index: u32,
    pub num_local_bones: u32,
    pub num_total_influences: u32,
    pub is_for_collision_mesh: u8,
    pub padding: [u8; 3],
    pub skinning_influence: Vec<XacSkinInfluence>,
    pub skinning_info_table_entry: Vec<XacSkinningInfoTableEntry>,
}

pub open spec fn skin3_ok(d: Seq<u8>, p: int, nv: int) -> bool {
    let ni = le32_at(d, p + 8) as int;
    &&& p + 16 <= d.len()
    &&& p + 16 + 8 * ni <= d.len()
    &&& p + 16 + 8 * ni + 8 * nv <= d.len()
}

pub open spec fn skin3_end(d: Seq<u8>, p: int, nv: int) -> int {
    p + 16 + 8 * le32_at(d, p + 8) + 8 * nv
}

pub open spec fn skin3_parsed(m: XacSkinningInfo3, d: Seq<u8>, p: int, nv: int) -> bool {
    let ni = le32_at(d, p + 8) as int;
    &&& m.node_index == le32_at(d, p)
    &&& m.num_local_bones == le32_at(d, p + 4)
    &&& m.num_total_influences == le32_at(d, p + 8)
    &&& m.is_for_collision_mesh == d[p + 12]
    &&& m.padding@ == d.subrange(p + 13, p + 16)
    &&& m.skinning_influence@ == influences_at(d, p + 16, ni)
    &&& m.skinning_info_table_entry@ == table_entries_at(d, p + 16 + 8 * ni, nv)
}

fn read_xac_skinning_info3(r: &mut BinaryReader, num_org_verts: u32) -> (res: Result<
    XacSkinningInfo3,
    TosError,
>)
    ensures
        final(r).data() == old(r).data(),
        match res {
            Ok(m) => {
                &&& skin3_ok(old(r).data(), old(r).pos(), num_org_verts as int)
                &&& skin3_parsed(m, old(r).data(), old(r).pos(), num_org_verts as int)
                &&& final(r).pos() == skin3_end(
                    old(r).data(),
                    old(r).pos(),
                    num_org_verts as int,
                )
            },
            Err(e) => {
                &&& e == TosError::IoError
                &&& !skin3_ok(old(r).data(), old(r).pos(), num_org_verts as int)
            },
        },
{
    let node_index = r.read_u32()?;
    let num_local_bones = r.read_u32()?;
    let num_total_influences = r.read_u32()?;
    let is_for_collision_mesh = r.read_u8()?;
    let padding = r.read_u8_array_3()?;
    let skinning_influence = read_influences(r, num_total_influences)?;
    let skinning_info_table_entry = read_table_entries(r, num_org_verts)?;
    Ok(XacSkinningInfo3 {
        node_index,
        num_local_bones,
        num_total_influences,
        is_for_collision_mesh,
        padding,
        skinning_influence,
        skinning_info_table_entry,
    })
}

/// Skinning record, fourth shape: adds a level of detail.
pub struct XacSkinningInfo4 {
    pub node_index: u32,
    pub lod: u32,
    pub num_local_bones: u32,
    pub num_total_influences: u32,
    pub is_for_collision_mesh: u8,
    pub padding: [u8; 3],
    pub skinning_influence: Vec<XacSkinInfluence>,
    pub skinning_info_table_entry: Vec<XacSkinningInfoTableEntry>,
}

pub open spec fn skin4_ok(d: Seq<u8>, p: int, nv: int) -> bool {
    let ni = le32_at(d, p + 12) as int;
    &&& p + 20 <= d.len()
    &&& p + 20 + 8 * ni <= d.len()
    &&& p + 20 + 8 * ni + 8 * nv <= d.len()
}

pub open spec fn skin4_end(d: Seq<u8>, p: int, nv: int) -> int {
    p + 20 + 8 * le32_at(d, p + 12) + 8 * nv
}

pub open spec fn skin4_parsed(m: XacSkinningInfo4, d: Seq<u8>, p: int, nv: int) -> bool {
    let ni = le32_at(d, p + 12) as int;
    &&& m.node_index == le32_at(d, p)
    &&& m.lod == le32_at(d, p + 4)
    &&& m.num_local_bones == le32_at(d, p + 8)
    &&& m.num_total_influences == le32_at(d, p + 12)
    &&& m.is_for_collision_mesh == d[p + 16]
    &&& m.padding@ == d.subrange(p + 17, p + 20)
    &&& m.skinning_influence@ == influences_at(d, p + 20, ni)
    &&& m.skinning_info_table_entry@ == table_entries_at(d, p + 20 + 8 * ni, nv)
}

fn read_xac_skinning_info4(r: &mut BinaryReader, num_org_verts: u32) -> (res: Result<
    XacSkinningInfo4,
    TosError,
>)
    ensures
        final(r).data() == old(r).data(),
        match res {
            Ok(m) => {
                &&& skin4_ok(old(r).data(), old(r).pos(), num_org_verts as int)
                &&& skin4_parsed(m, old(r).data(), old(r).pos(), num_org_verts as int)
                &&& final(r).pos() == skin4_end(
                    old(r).data(),
                    old(r).pos(),
                    num_org_verts as int,
                )
            },
            Err(e) => {
                &&& e == TosError::IoError
                &&& !skin4_ok(old(r).data(), old(r).pos(), num_org_verts as int)
            },
        },
{
    let node_index = r.read_u32()?;
    let lod = r.read_u32()?;
    let num_local_bones = r.read_u32()?;
    let num_total_influences = r.read_u32()?;
    let is_for_collision_mesh = r.read_u8()?;
    let padding = r.read_u8_array_3()?;
    let skinning_influence = read_influences(r, num_total_influences)?;
    let skinning_info_table_entry = read_table_entries(r, num_org_verts)?;
    Ok(XacSkinningInfo4 {
        node_index,
        lod,
        num_local_bones,
        num_total_influences,
        is_for_collision_mesh,
        padding,
        skinning_influence,
        skinning_info_table_entry,
    })
}

// ---------------------------------------------------------------------
// Effect-material parameters.
// ---------------------------------------------------------------------

/// An effect-material parameter: fx_int.
pub struct XACFXIntParameter {
    pub value: i32,
    pub name: String,
}

pub open spec fn fx_int_ok(d: Seq<u8>, p: int) -> bool {
    &&& p + 4 <= d.len()
    &&& lp_ok(d, p + 4)
}

pub open spec fn fx_int_end(d: Seq<u8>, p: int) -> int {
    lp_end(d, p + 4)
}

/// The end function of a run of these parameters.
pub open spec fn fx_int_end_f() -> spec_fn(Seq<u8>, int) -> int {
    |d: Seq<u8>, p: int| fx_int_end(d, p)
}

pub open spec fn fx_int_parsed(m: XACFXIntParameter, d: Seq<u8>, p: int) -> bool {
    &&& m.value == le32_at(d, p) as i32
    &&& m.name@ == lp_str(d, p + 4)
}

pub open spec fn fx_ints_ok(d: Seq<u8>, p: int, n: nat) -> bool {
    forall|i: nat| i < n ==> fx_int_ok(d, #[trigger] rep_start(d, p, i, fx_int_end_f()))
}

pub open spec fn fx_ints_end(d: Seq<u8>, p: int, n: nat) -> int {
    rep_start(d, p, n, fx_int_end_f())
}

pub open spec fn fx_ints_parsed(v: Seq<XACFXIntParameter>, d: Seq<u8>, p: int, n: nat) -> bool {
    &&& v.len() == n
    &&& forall|i: nat|
        i < n ==> fx_int_parsed(v[i as int], d, #[trigger] rep_start(d, p, i, fx_int_end_f()))
}

fn read_fx_int(r: &mut BinaryReader) -> (res: Result<XACFXIntParameter, TosError>)
    ensures
        final(r).data() == old(r).data(),
        match res {
            Ok(m) => {
                &&& fx_int_ok(old(r).data(), old(r).pos())
                &&& fx_int_parsed(m, old(r).data(), old(r).pos())
                &&& final(r).pos() == fx_int_end(old(r).data(), old(r).pos())
            },
            Err(e) => {
                &&& e == TosError::IoError
                &&& !fx_int_ok(old(r).data(), old(r).pos())
            },
        },
{
    let value = r.read_i32()?;
    let name = read_lpstring(r)?;
    Ok(XACFXIntParameter { value, name })
}

/// Reads a run of `n` of these parameters.
fn read_fx_int_vec(r: &mut BinaryReader, n: u32) -> (res: Result<Vec<XACFXIntParameter>, TosError>)
    ensures
        final(r).data() == old(r).data(),
        match res {
            Ok(v) => {
                &&& fx_ints_ok(old(r).data(), old(r).pos(), n as nat)
                &&& fx_ints_parsed(v@, old(r).data(), old(r).pos(), n as nat)
                &&& final(r).pos() == fx_ints_end(old(r).data(), old(r).pos(), n as nat)
            },
            Err(e) => {
                &&& e == TosError::IoError
                &&& !fx_ints_ok(old(r).data(), old(r).pos(), n as nat)
            },
        },
{
    let ghost d = old(r).data();
    let ghost p = old(r).pos();
    let mut v: Vec<XACFXIntParameter> = Vec::new();
    let mut i: u32 = 0;
    while i < n
        invariant
            r.data() == d,
            d == old(r).data(),
            p == old(r).pos(),
            0 <= i <= n,
            v@.len() == i,
            forall|j: nat| j < i ==> fx_int_ok(d, #[trigger] rep_start(d, p, j, fx_int_end_f())),
            forall|j: nat|
                j < i ==> fx_int_parsed(
                    v@[j as int],
                    d,
                    #[trigger] rep_start(d, p, j, fx_int_end_f()),
                ),
            r.pos() == rep_start(d, p, i as nat, fx_int_end_f()),
        decreases n - i,
    {
        match read_fx_int(r) {
            Ok(x) => {
                v.push(x);
                proof {
                    assert(rep_start(d, p, (i + 1) as nat, fx_int_end_f()) == fx_int_end(
                        d,
                        rep_start(d, p, i as nat, fx_int_end_f()),
                    ));
                }
            },
            Err(e) => {
                proof {
                    assert(!fx_ints_ok(d, p, n as nat)) by {
                        if fx_ints_ok(d, p, n as nat) {
                            assert(fx_int_ok(d, rep_start(d, p, i as nat, fx_int_end_f())));
                        }
                    }
                }
                return Err(e);
            },
        }
        i = i + 1;
    }
    Ok(v)
}

/// An effect-material parameter: fx_float.
pub struct XACFXFloatParameter {
    pub value: u32,
    pub name: String,
}

pub open spec fn fx_float_ok(d: Seq<u8>, p: int) -> bool {
    &&& p + 4 <= d.len()
    &&& lp_ok(d, p + 4)
}

pub open spec fn fx_float_end(d: Seq<u8>, p: int) -> int {
    lp_end(d, p + 4)
}

/// The end function of a run of these parameters.
pub open spec fn fx_float_end_f() -> spec_fn(Seq<u8>, int) -> int {
    |d: Seq<u8>, p: int| fx_float_end(d, p)
}

pub open spec fn fx_float_parsed(m: XACFXFloatParameter, d: Seq<u8>, p: int) -> bool {
    &&& m.value == le32_at(d, p)
    &&& m.name@ == lp_str(d, p + 4)
}

pub open spec fn fx_floats_ok(d: Seq<u8>, p: int, n: nat) -> bool {
    forall|i: nat| i < n ==> fx_float_ok(d, #[trigger] rep_start(d, p, i, fx_float_end_f()))
}

pub open spec fn fx_floats_end(d: Seq<u8>, p: int, n: nat) -> int {
    rep_start(d, p, n, fx_float_end_f())
}

pub open spec fn fx_floats_parsed(v: Seq<XACFXFloatParameter>, d: Seq<u8>, p: int, n: nat) -> bool {
    &&& v.len() == n
    &&& forall|i: nat|
        i < n ==> fx_float_parsed(v[i as int], d, #[trigger] rep_start(d, p, i, fx_float_end_f()))
}

fn read_fx_float(r: &mut BinaryReader) -> (res: Result<XACFXFloatParameter, TosError>)
    ensures
        final(r).data() == old(r).data(),
        match res {
            Ok(m) => {
                &&& fx_float_ok(old(r).data(), old(r).pos())
                &&& fx_float_parsed(m, old(r).data(), old(r).pos())
                &&& final(r).pos() == fx_float_end(old(r).data(), old(r).pos())
            },
            Err(e) => {
                &&& e == TosError::IoError
                &&& !fx_float_ok(old(r).data(), old(r).pos())
            },
        },
{
    let value = r.read_u32()?;
    let name = read_lpstring(r)?;
    Ok(XACFXFloatParameter { value, name })
}

/// Reads a run of `n` of these parameters.
fn read_fx_float_vec(r: &mut BinaryReader, n: u32) -> (res: Result<Vec<XACFXFloatParameter>, TosError>)
    ensures
        final(r).data() == old(r).data(),
        match res {
            Ok(v) => {
                &&& fx_floats_ok(old(r).data(), old(r).pos(), n as nat)
                &&& fx_floats_parsed(v@, old(r).data(), old(r).pos(), n as nat)
                &&& final(r).pos() == fx_floats_end(old(r).data(), old(r).pos(), n as nat)
            },
            Err(e) => {
                &&& e == TosError::IoError
                &&& !fx_floats_ok(old(r).data(), old(r).pos(), n as nat)
            },
        },
{
    let ghost d = old(r).data();
    let ghost p = old(r).pos();
    let mut v: Vec<XACFXFloatParameter> = Vec::new();
    let mut i: u32 = 0;
    while i < n
        invariant
            r.data() == d,
            d == old(r).data(),
            p == old(r).pos(),
            0 <= i <= n,
            v@.len() == i,
            forall|j: nat| j < i ==> fx_float_ok(d, #[trigger] rep_start(d, p, j, fx_float_end_f())),
            forall|j: nat|
                j < i ==> fx_float_parsed(
                    v@[j as int],
                    d,
                    #[trigger] rep_start(d, p, j, fx_float_end_f()),
                ),
            r.pos() == rep_start(d, p, i as nat, fx_float_end_f()),
        decreases n - i,
    {
        match read_fx_float(r) {
            Ok(x) => {
                v.push(x);
                proof {
                    assert(rep_start(d, p, (i + 1) as nat, fx_float_end_f()) == fx_float_end(
                        d,
                        rep_start(d, p, i as nat, fx_float_end_f()),
                    ));
                }
            },
            Err(e) => {
                proof {
                    assert(!fx_floats_ok(d, p, n as nat)) by {
                        if fx_floats_ok(d, p, n as nat) {
                            assert(fx_float_ok(d, rep_start(d, p, i as nat, fx_float_end_f())));
                        }
                    }
                }
                return Err(e);
            },
        }
        i = i + 1;
    }
    Ok(v)
}

/// An effect-material parameter: fx_color.
pub struct XACFXColorParameter {
    pub value: FileColor,
    pub name: String,
}

pub open spec fn fx_color_ok(d: Seq<u8>, p: int) -> bool {
    &&& p + 16 <= d.len()
    &&& lp_ok(d, p + 16)
}

pub open spec fn fx_color_end(d: Seq<u8>, p: int) -> int {
    lp_end(d, p + 16)
}

/// The end function of a run of these parameters.
pub open spec fn fx_color_end_f() -> spec_fn(Seq<u8>, int) -> int {
    |d: Seq<u8>, p: int| fx_color_end(d, p)
}

pub open spec fn fx_color_parsed(m: XACFXColorParameter, d: Seq<u8>, p: int) -> bool {
    &&& m.value == color_at(d, p)
    &&& m.name@ == lp_str(d, p + 16)
}

pub open spec fn fx_colors_ok(d: Seq<u8>, p: int, n: nat) -> bool {
    forall|i: nat| i < n ==> fx_color_ok(d, #[trigger] rep_start(d, p, i, fx_color_end_f()))
}

pub open spec fn fx_colors_end(d: Seq<u8>, p: int, n: nat) -> int {
    rep_start(d, p, n, fx_color_end_f())
}

pub open spec fn fx_colors_parsed(v: Seq<XACFXColorParameter>, d: Seq<u8>, p: int, n: nat) -> bool {
    &&& v.len() == n
    &&& forall|i: nat|
        i < n ==> fx_color_parsed(v[i as int], d, #[trigger] rep_start(d, p, i, fx_color_end_f()))
}

fn read_fx_color(r: &mut BinaryReader) -> (res: Result<XACFXColorParameter, TosError>)
    ensures
        final(r).data() == old(r).data(),
        match res {
            Ok(m) => {
                &&& fx_color_ok(old(r).data(), old(r).pos())
                &&& fx_color_parsed(m, old(r).data(), old(r).pos())
                &&& final(r).pos() == fx_color_end(old(r).data(), old(r).pos())
            },
            Err(e) => {
                &&& e == TosError::IoError
                &&& !fx_color_ok(old(r).data(), old(r).pos())
            },
        },
{
    let value = read_color(r)?;
    let name = read_lpstring(r)?;
    Ok(XACFXColorParameter { value, name })
}

/// Reads a run of `n` of these parameters.
fn read_fx_color_vec(r: &mut BinaryReader, n: u32) -> (res: Result<Vec<XACFXColorParameter>, TosError>)
    ensures
        final(r).data() == old(r).data(),
        match res {
            Ok(v) => {
                &&& fx_colors_ok(old(r).data(), old(r).pos(), n as nat)
                &&& fx_colors_parsed(v@, old(r).data(), old(r).pos(), n as nat)
                &&& final(r).pos() == fx_colors_end(old(r).data(), old(r).pos(), n as nat)
            },
            Err(e) => {
                &&& e == TosError::IoError
                &&& !fx_colors_ok(old(r).data(), old(r).pos(), n as nat)
            },
        },
{
    let ghost d = old(r).data();
    let ghost p = old(r).pos();
    let mut v: Vec<XACFXColorParameter> = Vec::new();
    let mut i: u32 = 0;
    while i < n
        invariant
            r.data() == d,
            d == old(r).data(),
            p == old(r).pos(),
            0 <= i <= n,
            v@.len() == i,
            forall|j: nat| j < i ==> fx_color_ok(d, #[trigger] rep_start(d, p, j, fx_color_end_f())),
            forall|j: nat|
                j < i ==> fx_color_parsed(
                    v@[j as int],
                    d,
                    #[trigger] rep_start(d, p, j, fx_color_end_f()),
                ),
            r.pos() == rep_start(d, p, i as nat, fx_color_end_f()),
        decreases n - i,
    {
        match read_fx_color(r) {
            Ok(x) => {
                v.push(x);
                proof {
                    assert(rep_start(d, p, (i + 1) as nat, fx_color_end_f()) == fx_color_end(
                        d,
                        rep_start(d, p, i as nat, fx_color_end_f()),
                    ));
                }
            },
            Err(e) => {
                proof {
                    assert(!fx_colors_ok(d, p, n as nat)) by {
                        if fx_colors_ok(d, p, n as nat) {
                            assert(fx_color_ok(d, rep_start(d, p, i as nat, fx_color_end_f())));
                        }
                    }
                }
                return Err(e);
            },
        }
        i = i + 1;
    }
    Ok(v)
}

/// An effect-material parameter: fx_vector3.
pub struct XACFXVector3Parameter {
    pub value: FileVector3,
    pub name: String,
}

pub open spec fn fx_vector3_ok(d: Seq<u8>, p: int) -> bool {
    &&& p + 12 <= d.len()
    &&& lp_ok(d, p + 12)
}

pub open spec fn fx_vector3_end(d: Seq<u8>, p: int) -> int {
    lp_end(d, p + 12)
}

/// The end function of a run of these parameters.
pub open spec fn fx_vector3_end_f() -> spec_fn(Seq<u8>, int) -> int {
    |d: Seq<u8>, p: int| fx_vector3_end(d, p)
}

pub open spec fn fx_vector3_parsed(m: XACFXVector3Parameter, d: Seq<u8>, p: int) -> bool {
    &&& m.value == vec3_at(d, p)
    &&& m.name@ == lp_str(d, p + 12)
}

pub open spec fn fx_vector3s_ok(d: Seq<u8>, p: int, n: nat) -> bool {
    forall|i: nat| i < n ==> fx_vector3_ok(d, #[trigger] rep_start(d, p, i, fx_vector3_end_f()))
}

pub open spec fn fx_vector3s_end(d: Seq<u8>, p: int, n: nat) -> int {
    rep_start(d, p, n, fx_vector3_end_f())
}

pub open spec fn fx_vector3s_parsed(v: Seq<XACFXVector3Parameter>, d: Seq<u8>, p: int, n: nat) -> bool {
    &&& v.len() == n
    &&& forall|i: nat|
        i < n ==> fx_vector3_parsed(v[i as int], d, #[trigger] rep_start(d, p, i, fx_vector3_end_f()))
}

fn read_fx_vector3(r: &mut BinaryReader) -> (res: Result<XACFXVector3Parameter, TosError>)
    ensures
        final(r).data() == old(r).data(),
        match res {
            Ok(m) => {
                &&& fx_vector3_ok(old(r).data(), old(r).pos())
                &&& fx_vector3_parsed(m, old(r).data(), old(r).pos())
                &&& final(r).pos() == fx_vector3_end(old(r).data(), old(r).pos())
            },
            Err(e) => {
                &&& e == TosError::IoError
                &&& !fx_vector3_ok(old(r).data(), old(r).pos())
            },
        },
{
    let value = read_vec3(r)?;
    let name = read_lpstring(r)?;
    Ok(XACFXVector3Parameter { value, name })
}

/// Reads a run of `n` of these parameters.
fn read_fx_vector3_vec(r: &mut BinaryReader, n: u32) -> (res: Result<Vec<XACFXVector3Parameter>, TosError>)
    ensures
        final(r).data() == old(r).data(),
        match res {
            Ok(v) => {
                &&& fx_vector3s_ok(old(r).data(), old(r).pos(), n as nat)
                &&& fx_vector3s_parsed(v@, old(r).data(), old(r).pos(), n as nat)
                &&& final(r).pos() == fx_vector3s_end(old(r).data(), old(r).pos(), n as nat)
            },
            Err(e) => {
                &&& e == TosError::IoError
                &&& !fx_vector3s_ok(old(r).data(), old(r).pos(), n as nat)
            },
        },
{
    let ghost d = old(r).data();
    let ghost p = old(r).pos();
    let mut v: Vec<XACFXVector3Parameter> = Vec::new();
    let mut i: u32 = 0;
    while i < n
        invariant
            r.data() == d,
            d == old(r).data(),
            p == old(r).pos(),
            0 <= i <= n,
            v@.len() == i,
            forall|j: nat| j < i ==> fx_vector3_ok(d, #[trigger] rep_start(d, p, j, fx_vector3_end_f())),
            forall|j: nat|
                j < i ==> fx_vector3_parsed(
                    v@[j as int],
                    d,
                    #[trigger] rep_start(d, p, j, fx_vector3_end_f()),
                ),
            r.pos() == rep_start(d, p, i as nat, fx_vector3_end_f()),
        decreases n - i,
    {
        match read_fx_vector3(r) {
            Ok(x) => {
                v.push(x);
                proof {
                    assert(rep_start(d, p, (i + 1) as nat, fx_vector3_end_f()) == fx_vector3_end(
                        d,
                        rep_start(d, p, i as nat, fx_vector3_end_f()),
                    ));
                }
            },
            Err(e) => {
                proof {
                    assert(!fx_vector3s_ok(d, p, n as nat)) by {
                        if fx_vector3s_ok(d, p, n as nat) {
                            assert(fx_vector3_ok(d, rep_start(d, p, i as nat, fx_vector3_end_f())));
                        }
                    }
                }
                return Err(e);
            },
        }
        i = i + 1;
    }
    Ok(v)
}

/// An effect-material parameter: fx_bool.
pub struct XACFXBoolParameter {
    pub value: u8,
    pub name: String,
}

pub open spec fn fx_bool_ok(d: Seq<u8>, p: int) -> bool {
    &&& p + 1 <= d.len()
    &&& lp_ok(d, p + 1)
}

pub open spec fn fx_bool_end(d: Seq<u8>, p: int) -> int {
    lp_end(d, p + 1)
}

/// The end function of a run of these parameters.
pub open spec fn fx_bool_end_f() -> spec_fn(Seq<u8>, int) -> int {
    |d: Seq<u8>, p: int| fx_bool_end(d, p)
}

pub open spec fn fx_bool_parsed(m: XACFXBoolParameter, d: Seq<u8>, p: int) -> bool {
    &&& m.value == d[p]
    &&& m.name@ == lp_str(d, p + 1)
}

pub open spec fn fx_bools_ok(d: Seq<u8>, p: int, n: nat) -> bool {
    forall|i: nat| i < n ==> fx_bool_ok(d, #[trigger] rep_start(d, p, i, fx_bool_end_f()))
}

pub open spec fn fx_bools_end(d: Seq<u8>, p: int, n: nat) -> int {
    rep_start(d, p, n, fx_bool_end_f())
}

pub open spec fn fx_bools_parsed(v: Seq<XACFXBoolParameter>, d: Seq<u8>, p: int, n: nat) -> bool {
    &&& v.len() == n
    &&& forall|i: nat|
        i < n ==> fx_bool_parsed(v[i as int], d, #[trigger] rep_start(d, p, i, fx_bool_end_f()))
}

fn read_fx_bool(r: &mut BinaryReader) -> (res: Result<XACFXBoolParameter, TosError>)
    ensures
        final(r).data() == old(r).data(),
        match res {
            Ok(m) => {
                &&& fx_bool_ok(old(r).data(), old(r).pos())
                &&& fx_bool_parsed(m, old(r).data(), old(r).pos())
                &&& final(r).pos() == fx_bool_end(old(r).data(), old(r).pos())
            },
            Err(e) => {
                &&& e == TosError::IoError
                &&& !fx_bool_ok(old(r).data(), old(r).pos())
            },
        },
{
    let value = r.read_u8()?;
    let name = read_lpstring(r)?;
    Ok(XACFXBoolParameter { value, name })
}

/// Reads a run of `n` of these parameters.
fn read_fx_bool_vec(r: &mut BinaryReader, n: u32) -> (res: Result<Vec<XACFXBoolParameter>, TosError>)
    ensures
        final(r).data() == old(r).data(),
        match res {
            Ok(v) => {
                &&& fx_bools_ok(old(r).data(), old(r).pos(), n as nat)
                &&& fx_bools_parsed(v@, old(r).data(), old(r).pos(), n as nat)
                &&& final(r).pos() == fx_bools_end(old(r).data(), old(r).pos(), n as nat)
            },
            Err(e) => {
                &&& e == TosError::IoError
                &&& !fx_bools_ok(old(r).data(), old(r).pos(), n as nat)
            },
        },
{
    let ghost d = old(r).data();
    let ghost p = old(r).pos();
    let mut v: Vec<XACFXBoolParameter> = Vec::new();
    let mut i: u32 = 0;
    while i < n
        invariant
            r.data() == d,
            d == old(r).data(),
            p == old(r).pos(),
            0 <= i <= n,
            v@.len() == i,
            forall|j: nat| j < i ==> fx_bool_ok(d, #[trigger] rep_start(d, p, j, fx_bool_end_f())),
            forall|j: nat|
                j < i ==> fx_bool_parsed(
                    v@[j as int],
                    d,
                    #[trigger] rep_start(d, p, j, fx_bool_end_f()),
                ),
            r.pos() == rep_start(d, p, i as nat, fx_bool_end_f()),
        decreases n - i,
    {
        match read_fx_bool(r) {
            Ok(x) => {
                v.push(x);
                proof {
                    assert(rep_start(d, p, (i + 1) as nat, fx_bool_end_f()) == fx_bool_end(
                        d,
                        rep_start(d, p, i as nat, fx_bool_end_f()),
                    ));
                }
            },
            Err(e) => {
                proof {
                    assert(!fx_bools_ok(d, p, n as nat)) by {
                        if fx_bools_ok(d, p, n as nat) {
                            assert(fx_bool_ok(d, rep_start(d, p, i as nat, fx_bool_end_f())));
                        }
                    }
                }
                return Err(e);
            },
        }
        i = i + 1;
    }
    Ok(v)
}

/// An effect-material parameter: a named bitmap reference.
pub struct XACFXBitmapParameter {
    pub name: String,
    pub value_name: String,
}

pub open spec fn fx_bitmap_ok(d: Seq<u8>, p: int) -> bool {
    &&& lp_ok(d, p)
    &&& lp_ok(d, lp_end(d, p))
}

pub open spec fn fx_bitmap_end(d: Seq<u8>, p: int) -> int {
    lp_end(d, lp_end(d, p))
}

/// The end function of a run of bitmap parameters.
pub open spec fn fx_bitmap_end_f() -> spec_fn(Seq<u8>, int) -> int {
    |d: Seq<u8>, p: int| fx_bitmap_end(d, p)
}

pub open spec fn fx_bitmap_parsed(m: XACFXBitmapParameter, d: Seq<u8>, p: int) -> bool {
    &&& m.name@ == lp_str(d, p)
    &&& m.value_name@ == lp_str(d, lp_end(d, p))
}

pub open spec fn fx_bitmaps_ok(d: Seq<u8>, p: int, n: nat) -> bool {
    forall|i: nat| i < n ==> fx_bitmap_ok(d, #[trigger] rep_start(d, p, i, fx_bitmap_end_f()))
}

pub open spec fn fx_bitmaps_end(d: Seq<u8>, p: int, n: nat) -> int {
    rep_start(d, p, n, fx_bitmap_end_f())
}

pub open spec fn fx_bitmaps_parsed(v: Seq<XACFXBitmapParameter>, d: Seq<u8>, p: int, n: nat) -> bool {
    &&& v.len() == n
    &&& forall|i: nat|
        i < n ==> fx_bitmap_parsed(
            v[i as int],
            d,
            #[trigger] rep_start(d, p, i, fx_bitmap_end_f()),
        )
}

fn read_fx_bitmap(r: &mut BinaryReader) -> (res: Result<XACFXBitmapParameter, TosError>)
    ensures
        final(r).data() == old(r).data(),
        match res {
            Ok(m) => {
                &&& fx_bitmap_ok(old(r).data(), old(r).pos())
                &&& fx_bitmap_parsed(m, old(r).data(), old(r).pos())
                &&& final(r).pos() == fx_bitmap_end(old(r).data(), old(r).pos())
            },
            Err(e) => {
                &&& e == TosError::IoError
                &&& !fx_bitmap_ok(old(r).data(), old(r).pos())
            },
        },
{
    let name = read_lpstring(r)?;
    let value_name = read_lpstring(r)?;
    Ok(XACFXBitmapParameter { name, value_name })
}

/// Reads a run of `n` bitmap parameters.
fn read_fx_bitmap_vec(r: &mut BinaryReader, n: u32) -> (res: Result<
    Vec<XACFXBitmapParameter>,
    TosError,
>)
    ensures
        final(r).data() == old(r).data(),
        match res {
            Ok(v) => {
                &&& fx_bitmaps_ok(old(r).data(), old(r).pos(), n as nat)
                &&& fx_bitmaps_parsed(v@, old(r).data(), old(r).pos(), n as nat)
                &&& final(r).pos() == fx_bitmaps_end(old(r).data(), old(r).pos(), n as nat)
            },
            Err(e) => {
                &&& e == TosError::IoError
                &&& !fx_bitmaps_ok(old(r).data(), old(r).pos(), n as nat)
            },
        },
{
    let ghost d = old(r).data();
    let ghost p = old(r).pos();
    let mut v: Vec<XACFXBitmapParameter> = Vec::new();
    let mut i: u32 = 0;
    while i < n
        invariant
            r.data() == d,
            d == old(r).data(),
            p == old(r).pos(),
            0 <= i <= n,
            v@.len() == i,
            forall|j: nat|
                j < i ==> fx_bitmap_ok(d, #[trigger] rep_start(d, p, j, fx_bitmap_end_f())),
            forall|j: nat|
                j < i ==> fx_bitmap_parsed(
                    v@[j as int],
                    d,
                    #[trigger] rep_start(d, p, j, fx_bitmap_end_f()),
                ),
            r.pos() == rep_start(d, p, i as nat, fx_bitmap_end_f()),
        decreases n - i,
    {
        match read_fx_bitmap(r) {
            Ok(x) => {
                v.push(x);
                proof {
                    assert(rep_start(d, p, (i + 1) as nat, fx_bitmap_end_f()) == fx_bitmap_end(
                        d,
                        rep_start(d, p, i as nat, fx_bitmap_end_f()),
                    ));
                }
            },
            Err(e) => {
                proof {
                    assert(!fx_bitmaps_ok(d, p, n as nat)) by {
                        if fx_bitmaps_ok(d, p, n as nat) {
                            assert(fx_bitmap_ok(d, rep_start(d, p, i as nat, fx_bitmap_end_f())));
                        }
                    }
                }
                return Err(e);
            },
        }
        i = i + 1;
    }
    Ok(v)
}

/// The items of an optional parameter list: empty when absent.
pub open spec fn opt_params<T>(o: Option<Vec<T>>) -> Seq<T> {
    match o {
        Some(v) => v@,
        None => Seq::empty(),
    }
}

// ---------------------------------------------------------------------
// Effect materials.
// ---------------------------------------------------------------------

/// An effect material, first shape: int, float, color and bitmap parameters.
pub struct XACFXMaterial {
    pub num_int_params: u32,
    pub num_float_params: u32,
    pub num_color_params: u32,
    pub num_bitmap_params: u32,
    pub name: String,
    pub effect_file: String,
    pub shader_technique: String,
    pub xac_fx_int_parameter: Option<Vec<XACFXIntParameter>>,
    pub xac_fx_float_parameter: Option<Vec<XACFXFloatParameter>>,
    pub xac_fx_color_parameter: Option<Vec<XACFXColorParameter>>,
    pub xac_fx_bitmap_parameter: Option<Vec<XACFXBitmapParameter>>,
}

pub open spec fn fx_material1_ok(d: Seq<u8>, p: int) -> bool {
    let s0 = p + 16;
    let s1 = lp_end(d, s0);
    let s2 = lp_end(d, s1);
    let q0 = lp_end(d, s2);
    let q1 = fx_ints_end(d, q0, le32_at(d, p + 0) as nat);
    let q2 = fx_floats_end(d, q1, le32_at(d, p + 4) as nat);
    let q3 = fx_colors_end(d, q2, le32_at(d, p + 8) as nat);

    &&& p + 16 <= d.len()
    &&& lp_ok(d, s0)
    &&& lp_ok(d, s1)
    &&& lp_ok(d, s2)
    &&& fx_ints_ok(d, q0, le32_at(d, p + 0) as nat)
    &&& fx_floats_ok(d, q1, le32_at(d, p + 4) as nat)
    &&& fx_colors_ok(d, q2, le32_at(d, p + 8) as nat)
    &&& fx_bitmaps_ok(d, q3, le32_at(d, p + 12) as nat)
}

pub open spec fn fx_material1_end(d: Seq<u8>, p: int) -> int {
    let s0 = p + 16;
    let s1 = lp_end(d, s0);
    let s2 = lp_end(d, s1);
    let q0 = lp_end(d, s2);
    let q1 = fx_ints_end(d, q0, le32_at(d, p + 0) as nat);
    let q2 = fx_floats_end(d, q1, le32_at(d, p + 4) as nat);
    let q3 = fx_colors_end(d, q2, le32_at(d, p + 8) as nat);

    fx_bitmaps_end(d, q3, le32_at(d, p + 12) as nat)
}

pub open spec fn fx_material1_parsed(m: XACFXMaterial, d: Seq<u8>, p: int) -> bool {
    let s0 = p + 16;
    let s1 = lp_end(d, s0);
    let s2 = lp_end(d, s1);
    let q0 = lp_end(d, s2);
    let q1 = fx_ints_end(d, q0, le32_at(d, p + 0) as nat);
    let q2 = fx_floats_end(d, q1, le32_at(d, p + 4) as nat);
    let q3 = fx_colors_end(d, q2, le32_at(d, p + 8) as nat);

    &&& m.num_int_params == le32_at(d, p + 0)
    &&& m.num_float_params == le32_at(d, p + 4)
    &&& m.num_color_params == le32_at(d, p + 8)
    &&& m.num_bitmap_params == le32_at(d, p + 12)
    &&& m.name@ == lp_str(d, s0)
    &&& m.effect_file@ == lp_str(d, s1)
    &&& m.shader_technique@ == lp_str(d, s2)
    &&& (m.xac_fx_int_parameter is Some <==> le32_at(d, p + 0) > 0)
    &&& fx_ints_parsed(opt_params(m.xac_fx_int_parameter), d, q0, le32_at(d, p + 0) as nat)
    &&& (m.xac_fx_float_parameter is Some <==> le32_at(d, p + 4) > 0)
    &&& fx_floats_parsed(opt_params(m.xac_fx_float_parameter), d, q1, le32_at(d, p + 4) as nat)
    &&& (m.xac_fx_color_parameter is Some <==> le32_at(d, p + 8) > 0)
    &&& fx_colors_parsed(opt_params(m.xac_fx_color_parameter), d, q2, le32_at(d, p + 8) as nat)
    &&& (m.xac_fx_bitmap_parameter is Some <==> le32_at(d, p + 12) > 0)
    &&& fx_bitmaps_parsed(opt_params(m.xac_fx_bitmap_parameter), d, q3, le32_at(d, p + 12) as nat)
}

fn read_fx_material1(r: &mut BinaryReader) -> (res: Result<XACFXMaterial, TosError>)
    ensures
        final(r).data() == old(r).data(),
        match res {
            Ok(m) => {
                &&& fx_material1_ok(old(r).data(), old(r).pos())
                &&& fx_material1_parsed(m, old(r).data(), old(r).pos())
                &&& final(r).pos() == fx_material1_end(old(r).data(), old(r).pos())
            },
            Err(e) => {
                &&& e == TosError::IoError
                &&& !fx_material1_ok(old(r).data(), old(r).pos())
            },
        },
{
    let num_int_params = r.read_u32()?;
    let num_float_params = r.read_u32()?;
    let num_color_params = r.read_u32()?;
    let num_bitmap_params = r.read_u32()?;
    let name = read_lpstring(r)?;
    let effect_file = read_lpstring(r)?;
    let shader_technique = read_lpstring(r)?;
    let xac_fx_int_parameter = if num_int_params > 0 {
        Some(read_fx_int_vec(r, num_int_params)?)
    } else {
        None
    };
    let xac_fx_float_parameter = if num_float_params > 0 {
        Some(read_fx_float_vec(r, num_float_params)?)
    } else {
        None
    };
    let xac_fx_color_parameter = if num_color_params > 0 {
        Some(read_fx_color_vec(r, num_color_params)?)
    } else {
        None
    };
    let xac_fx_bitmap_parameter = if num_bitmap_params > 0 {
        Some(read_fx_bitmap_vec(r, num_bitmap_params)?)
    } else {
        None
    };
    Ok(XACFXMaterial { num_int_params, num_float_params, num_color_params, num_bitmap_params, name, effect_file, shader_technique, xac_fx_int_parameter, xac_fx_float_parameter, xac_fx_color_parameter, xac_fx_bitmap_parameter })
}

/// An effect material, second shape: bool and vector parameters join in.
pub struct XACFXMaterial2 {
    pub num_int_params: u32,
    pub num_float_params: u32,
    pub num_color_params: u32,
    pub num_bool_params: u32,
    pub num_vector3_params: u32,
    pub num_bitmap_params: u32,
    pub name: String,
    pub effect_file: String,
    pub shader_technique: String,
    pub xac_fx_int_parameter: Option<Vec<XACFXIntParameter>>,
    pub xac_fx_float_parameter: Option<Vec<XACFXFloatParameter>>,
    pub xac_fx_color_parameter: Option<Vec<XACFXColorParameter>>,
    pub xac_fx_bool_parameter: Option<Vec<XACFXBoolParameter>>,
    pub xac_fx_vector3_parameter: Option<Vec<XACFXVector3Parameter>>,
    pub xac_fx_bitmap_parameter: Option<Vec<XACFXBitmapParameter>>,
}

pub open spec fn fx_material2_ok(d: Seq<u8>, p: int) -> bool {
    let s0 = p + 24;
    let s1 = lp_end(d, s0);
    let s2 = lp_end(d, s1);
    let q0 = lp_end(d, s2);
    let q1 = fx_ints_end(d, q0, le32_at(d, p + 0) as nat);
    let q2 = fx_floats_end(d, q1, le32_at(d, p + 4) as nat);
    let q3 = fx_colors_end(d, q2, le32_at(d, p + 8) as nat);
    let q4 = fx_bools_end(d, q3, le32_at(d, p + 12) as nat);
    let q5 = fx_vector3s_end(d, q4, le32_at(d, p + 16) as nat);

    &&& p + 24 <= d.len()
    &&& lp_ok(d, s0)
    &&& lp_ok(d, s1)
    &&& lp_ok(d, s2)
    &&& fx_ints_ok(d, q0, le32_at(d, p + 0) as nat)
    &&& fx_floats_ok(d, q1, le32_at(d, p + 4) as nat)
    &&& fx_colors_ok(d, q2, le32_at(d, p + 8) as nat)
    &&& fx_bools_ok(d, q3, le32_at(d, p + 12) as nat)
    &&& fx_vector3s_ok(d, q4, le32_at(d, p + 16) as nat)
    &&& fx_bitmaps_ok(d, q5, le32_at(d, p + 20) as nat)
}

pub open spec fn fx_material2_end(d: Seq<u8>, p: int) -> int {
    let s0 = p + 24;
    let s1 = lp_end(d, s0);
    let s2 = lp_end(d, s1);
    let q0 = lp_end(d, s2);
    let q1 = fx_ints_end(d, q0, le32_at(d, p + 0) as nat);
    let q2 = fx_floats_end(d, q1, le32_at(d, p + 4) as nat);
    let q3 = fx_colors_end(d, q2, le32_at(d, p + 8) as nat);
    let q4 = fx_bools_end(d, q3, le32_at(d, p + 12) as nat);
    let q5 = fx_vector3s_end(d, q4, le32_at(d, p + 16) as nat);

    fx_bitmaps_end(d, q5, le32_at(d, p + 20) as nat)
}

pub open spec fn fx_material2_parsed(m: XACFXMaterial2, d: Seq<u8>, p: int) -> bool {
    let s0 = p + 24;
    let s1 = lp_end(d, s0);
    let s2 = lp_end(d, s1);
    let q0 = lp_end(d, s2);
    let q1 = fx_ints_end(d, q0, le32_at(d, p + 0) as nat);
    let q2 = fx_floats_end(d, q1, le32_at(d, p + 4) as nat);
    let q3 = fx_colors_end(d, q2, le32_at(d, p + 8) as nat);
    let q4 = fx_bools_end(d, q3, le32_at(d, p + 12) as nat);
    let q5 = fx_vector3s_end(d, q4, le32_at(d, p + 16) as nat);

    &&& m.num_int_params == le32_at(d, p + 0)
    &&& m.num_float_params == le32_at(d, p + 4)
    &&& m.num_color_params == le32_at(d, p + 8)
    &&& m.num_bool_params == le32_at(d, p + 12)
    &&& m.num_vector3_params == le32_at(d, p + 16)
    &&& m.num_bitmap_params == le32_at(d, p + 20)
    &&& m.name@ == lp_str(d, s0)
    &&& m.effect_file@ == lp_str(d, s1)
    &&& m.shader_technique@ == lp_str(d, s2)
    &&& (m.xac_fx_int_parameter is Some <==> le32_at(d, p + 0) > 0)
    &&& fx_ints_parsed(opt_params(m.xac_fx_int_parameter), d, q0, le32_at(d, p + 0) as nat)
    &&& (m.xac_fx_float_parameter is Some <==> le32_at(d, p + 4) > 0)
    &&& fx_floats_parsed(opt_params(m.xac_fx_float_parameter), d, q1, le32_at(d, p + 4) as nat)
    &&& (m.xac_fx_color_parameter is Some <==> le32_at(d, p + 8) > 0)
    &&& fx_colors_parsed(opt_params(m.xac_fx_color_parameter), d, q2, le32_at(d, p + 8) as nat)
    &&& (m.xac_fx_bool_parameter is Some <==> le32_at(d, p + 12) > 0)
    &&& fx_bools_parsed(opt_params(m.xac_fx_bool_parameter), d, q3, le32_at(d, p + 12) as nat)
    &&& (m.xac_fx_vector3_parameter is Some <==> le32_at(d, p + 16) > 0)
    &&& fx_vector3s_parsed(opt_params(m.xac_fx_vector3_parameter), d, q4, le32_at(d, p + 16) as nat)
    &&& (m.xac_fx_bitmap_parameter is Some <==> le32_at(d, p + 20) > 0)
    &&& fx_bitmaps_parsed(opt_params(m.xac_fx_bitmap_parameter), d, q5, le32_at(d, p + 20) as nat)
}

fn read_fx_material2(r: &mut BinaryReader) -> (res: Result<XACFXMaterial2, TosError>)
    ensures
        final(r).data() == old(r).data(),
        match res {
            Ok(m) => {
                &&& fx_material2_ok(old(r).data(), old(r).pos())
                &&& fx_material2_parsed(m, old(r).data(), old(r).pos())
                &&& final(r).pos() == fx_material2_end(old(r).data(), old(r).pos())
            },
            Err(e) => {
                &&& e == TosError::IoError
                &&& !fx_material2_ok(old(r).data(), old(r).pos())
            },
        },
{
    let num_int_params = r.read_u32()?;
    let num_float_params = r.read_u32()?;
    let num_color_params = r.read_u32()?;
    let num_bool_params = r.read_u32()?;
    let num_vector3_params = r.read_u32()?;
    let num_bitmap_params = r.read_u32()?;
    let name = read_lpstring(r)?;
    let effect_file = read_lpstring(r)?;
    let shader_technique = read_lpstring(r)?;
    let xac_fx_int_parameter = if num_int_params > 0 {
        Some(read_fx_int_vec(r, num_int_params)?)
    } else {
        None
    };
    let xac_fx_float_parameter = if num_float_params > 0 {
        Some(read_fx_float_vec(r, num_float_params)?)
    } else {
        None
    };
    let xac_fx_color_parameter = if num_color_params > 0 {
        Some(read_fx_color_vec(r, num_color_params)?)
    } else {
        None
    };
    let xac_fx_bool_parameter = if num_bool_params > 0 {
        Some(read_fx_bool_vec(r, num_bool_params)?)
    } else {
        None
    };
    let xac_fx_vector3_parameter = if num_vector3_params > 0 {
        Some(read_fx_vector3_vec(r, num_vector3_params)?)
    } else {
        None
    };
    let xac_fx_bitmap_parameter = if num_bitmap_params > 0 {
        Some(read_fx_bitmap_vec(r, num_bitmap_params)?)
    } else {
        None
    };
    Ok(XACFXMaterial2 { num_int_params, num_float_params, num_color_params, num_bool_params, num_vector3_params, num_bitmap_params, name, effect_file, shader_technique, xac_fx_int_parameter, xac_fx_float_parameter, xac_fx_color_parameter, xac_fx_bool_parameter, xac_fx_vector3_parameter, xac_fx_bitmap_parameter })
}

/// An effect material, third shape: a level of detail leads.
pub struct XACFXMaterial3 {
    pub lod: u32,
    pub num_int_params: u32,
    pub num_float_params: u32,
    pub num_color_params: u32,
    pub num_bool_params: u32,
    pub num_vector3_params: u32,
    pub num_bitmap_params: u32,
    pub name: String,
    pub effect_file: String,
    pub shader_technique: String,
    pub xac_fx_int_parameter: Option<Vec<XACFXIntParameter>>,
    pub xac_fx_float_parameter: Option<Vec<XACFXFloatParameter>>,
    pub xac_fx_color_parameter: Option<Vec<XACFXColorParameter>>,
    pub xac_fx_bool_parameter: Option<Vec<XACFXBoolParameter>>,
    pub xac_fx_vector3_parameter: Option<Vec<XACFXVector3Parameter>>,
    pub xac_fx_bitmap_parameter: Option<Vec<XACFXBitmapParameter>>,
}

pub open spec fn fx_material3_ok(d: Seq<u8>, p: int) -> bool {
    let s0 = p + 28;
    let s1 = lp_end(d, s0);
    let s2 = lp_end(d, s1);
    let q0 = lp_end(d, s2);
    let q1 = fx_ints_end(d, q0, le32_at(d, p + 4) as nat);
    let q2 = fx_floats_end(d, q1, le32_at(d, p + 8) as nat);
    let q3 = fx_colors_end(d, q2, le32_at(d, p + 12) as nat);
    let q4 = fx_bools_end(d, q3, le32_at(d, p + 16) as nat);
    let q5 = fx_vector3s_end(d, q4, le32_at(d, p + 20) as nat);

    &&& p + 28 <= d.len()
    &&& lp_ok(d, s0)
    &&& lp_ok(d, s1)
    &&& lp_ok(d, s2)
    &&& fx_ints_ok(d, q0, le32_at(d, p + 4) as nat)
    &&& fx_floats_ok(d, q1, le32_at(d, p + 8) as nat)
    &&& fx_colors_ok(d, q2, le32_at(d, p + 12) as nat)
    &&& fx_bools_ok(d, q3, le32_at(d, p + 16) as nat)
    &&& fx_vector3s_ok(d, q4, le32_at(d, p + 20) as nat)
    &&& fx_bitmaps_ok(d, q5, le32_at(d, p + 24) as nat)
}

pub open spec fn fx_material3_end(d: Seq<u8>, p: int) -> int {
    let s0 = p + 28;
    let s1 = lp_end(d, s0);
    let s2 = lp_end(d, s1);
    let q0 = lp_end(d, s2);
    let q1 = fx_ints_end(d, q0, le32_at(d, p + 4) as nat);
    let q2 = fx_floats_end(d, q1, le32_at(d, p + 8) as nat);
    let q3 = fx_colors_end(d, q2, le32_at(d, p + 12) as nat);
    let q4 = fx_bools_end(d, q3, le32_at(d, p + 16) as nat);
    let q5 = fx_vector3s_end(d, q4, le32_at(d, p + 20) as nat);

    fx_bitmaps_end(d, q5, le32_at(d, p + 24) as nat)
}

pub open spec fn fx_material3_parsed(m: XACFXMaterial3, d: Seq<u8>, p: int) -> bool {
    let s0 = p + 28;
    let s1 = lp_end(d, s0);
    let s2 = lp_end(d, s1);
    let q0 = lp_end(d, s2);
    let q1 = fx_ints_end(d, q0, le32_at(d, p + 4) as nat);
    let q2 = fx_floats_end(d, q1, le32_at(d, p + 8) as nat);
    let q3 = fx_colors_end(d, q2, le32_at(d, p + 12) as nat);
    let q4 = fx_bools_end(d, q3, le32_at(d, p + 16) as nat);
    let q5 = fx_vector3s_end(d, q4, le32_at(d, p + 20) as nat);

    &&& m.lod == le32_at(d, p + 0)
    &&& m.num_int_params == le32_at(d, p + 4)
    &&& m.num_float_params == le32_at(d, p + 8)
    &&& m.num_color_params == le32_at(d, p + 12)
    &&& m.num_bool_params == le32_at(d, p + 16)
    &&& m.num_vector3_params == le32_at(d, p + 20)
    &&& m.num_bitmap_params == le32_at(d, p + 24)
    &&& m.name@ == lp_str(d, s0)
    &&& m.effect_file@ == lp_str(d, s1)
    &&& m.shader_technique@ == lp_str(d, s2)
    &&& (m.xac_fx_int_parameter is Some <==> le32_at(d, p + 4) > 0)
    &&& fx_ints_parsed(opt_params(m.xac_fx_int_parameter), d, q0, le32_at(d, p + 4) as nat)
    &&& (m.xac_fx_float_parameter is Some <==> le32_at(d, p + 8) > 0)
    &&& fx_floats_parsed(opt_params(m.xac_fx_float_parameter), d, q1, le32_at(d, p + 8) as nat)
    &&& (m.xac_fx_color_parameter is Some <==> le32_at(d, p + 12) > 0)
    &&& fx_colors_parsed(opt_params(m.xac_fx_color_parameter), d, q2, le32_at(d, p + 12) as nat)
    &&& (m.xac_fx_bool_parameter is Some <==> le32_at(d, p + 16) > 0)
    &&& fx_bools_parsed(opt_params(m.xac_fx_bool_parameter), d, q3, le32_at(d, p + 16) as nat)
    &&& (m.xac_fx_vector3_parameter is Some <==> le32_at(d, p + 20) > 0)
    &&& fx_vector3s_parsed(opt_params(m.xac_fx_vector3_parameter), d, q4, le32_at(d, p + 20) as nat)
    &&& (m.xac_fx_bitmap_parameter is Some <==> le32_at(d, p + 24) > 0)
    &&& fx_bitmaps_parsed(opt_params(m.xac_fx_bitmap_parameter), d, q5, le32_at(d, p + 24) as nat)
}

fn read_fx_material3(r: &mut BinaryReader) -> (res: Result<XACFXMaterial3, TosError>)
    ensures
        final(r).data() == old(r).data(),
        match res {
            Ok(m) => {
                &&& fx_material3_ok(old(r).data(), old(r).pos())
                &&& fx_material3_parsed(m, old(r).data(), old(r).pos())
                &&& final(r).pos() == fx_material3_end(old(r).data(), old(r).pos())
            },
            Err(e) => {
                &&& e == TosError::IoError
                &&& !fx_material3_ok(old(r).data(), old(r).pos())
            },
        },
{
    let lod = r.read_u32()?;
    let num_int_params = r.read_u32()?;
    let num_float_params = r.read_u32()?;
    let num_color_params = r.read_u32()?;
    let num_bool_params = r.read_u32()?;
    let num_vector3_params = r.read_u32()?;
    let num_bitmap_params = r.read_u32()?;
    let name = read_lpstring(r)?;
    let effect_file = read_lpstring(r)?;
    let shader_technique = read_lpstring(r)?;
    let xac_fx_int_parameter = if num_int_params > 0 {
        Some(read_fx_int_vec(r, num_int_params)?)
    } else {
        None
    };
    let xac_fx_float_parameter = if num_float_params > 0 {
        Some(read_fx_float_vec(r, num_float_params)?)
    } else {
        None
    };
    let xac_fx_color_parameter = if num_color_params > 0 {
        Some(read_fx_color_vec(r, num_color_params)?)
    } else {
        None
    };
    let xac_fx_bool_parameter = if num_bool_params > 0 {
        Some(read_fx_bool_vec(r, num_bool_params)?)
    } else {
        None
    };
    let xac_fx_vector3_parameter = if num_vector3_params > 0 {
        Some(read_fx_vector3_vec(r, num_vector3_params)?)
    } else {
        None
    };
    let xac_fx_bitmap_parameter = if num_bitmap_params > 0 {
        Some(read_fx_bitmap_vec(r, num_bitmap_params)?)
    } else {
        None
    };
    Ok(XACFXMaterial3 { lod, num_int_params, num_float_params, num_color_params, num_bool_params, num_vector3_params, num_bitmap_params, name, effect_file, shader_technique, xac_fx_int_parameter, xac_fx_float_parameter, xac_fx_color_parameter, xac_fx_bool_parameter, xac_fx_vector3_parameter, xac_fx_bitmap_parameter })
}

// ---------------------------------------------------------------------
// Morph targets.
// ---------------------------------------------------------------------

/// A node transform carried by a morph target.
pub struct XACPMorphTargetTransform {
    pub node_index: u32,
    pub rotation: FileQuaternion,
    pub scale_rotation: FileQuaternion,
    pub position: FileVector3,
    pub scale: FileVector3,
}

pub open spec fn transform_at(d: Seq<u8>, p: int) -> XACPMorphTargetTransform {
    XACPMorphTargetTransform {
        node_index: le32_at(d, p),
        rotation: quat_at(d, p + 4),
        scale_rotation: quat_at(d, p + 20),
        position: vec3_at(d, p + 36),
        scale: vec3_at(d, p + 48),
    }
}

pub open spec fn transforms_at(d: Seq<u8>, p: int, n: int) -> Seq<XACPMorphTargetTransform> {
    Seq::new(n as nat, |i: int| transform_at(d, p + 60 * i))
}

/// Reads `n` morph-target transforms.
fn read_transforms(r: &mut BinaryReader, n: u32) -> (res: Result<
    Vec<XACPMorphTargetTransform>,
    TosError,
>)
    ensures
        final(r).data() == old(r).data(),
        match res {
            Ok(v) => {
                &&& n > 0 ==> old(r).pos() + 60 * n <= old(r).data().len()
                &&& v@ == transforms_at(old(r).data(), old(r).pos(), n as int)
                &&& final(r).pos() == old(r).pos() + 60 * n
            },
            Err(e) => {
                &&& e == TosError::IoError
                &&& old(r).pos() + 60 * n > old(r).data().len()
            },
        },
{
    let ghost d = old(r).data();
    let ghost p = old(r).pos();
    let mut v: Vec<XACPMorphTargetTransform> = Vec::new();
    let mut i: u32 = 0;
    while i < n
        invariant
            r.data() == d,
            d == old(r).data(),
            p == old(r).pos(),
            0 <= i <= n,
            v@.len() == i,
            forall|j: int| 0 <= j < i ==> v@[j] == transform_at(d, p + 60 * j),
            r.pos() == p + 60 * i,
            i > 0 ==> p + 60 * i <= d.len(),
        decreases n - i,
    {
        let node_index = match r.read_u32() {
            Ok(x) => x,
            Err(e) => {
                return Err(e);
            },
        };
        let rotation = match read_quat(r) {
            Ok(x) => x,
            Err(e) => {
                return Err(e);
            },
        };
        let scale_rotation = match read_quat(r) {
            Ok(x) => x,
            Err(e) => {
                return Err(e);
            },
        };
        let position = match read_vec3(r) {
            Ok(x) => x,
            Err(e) => {
                return Err(e);
            },
        };
        let scale = match read_vec3(r) {
            Ok(x) => x,
            Err(e) => {
                return Err(e);
            },
        };
        v.push(XACPMorphTargetTransform { node_index, rotation, scale_rotation, position, scale });
        i = i + 1;
    }
    proof {
        assert(v@ =~= transforms_at(d, p, n as int));
    }
    Ok(v)
}

/// Per-mesh deformation deltas of a morph target: compressed positions,
/// normals and tangents, and the vertex numbers they apply to.
pub struct XACPMorphTargetMeshDeltas {
    pub node_index: u32,
    pub min_value: u32,
    pub max_value: u32,
    pub num_vertices: u32,
    pub delta_position_values: Vec<File16BitVector3>,
    pub delta_normal_values: Vec<File8BitVector3>,
    pub delta_tangent_values: Vec<File8BitVector3>,
    pub vertex_numbers: Vec<u32>,
}

pub open spec fn vec3_16_seq_at(d: Seq<u8>, p: int, n: int) -> Seq<File16BitVector3> {
    Seq::new(n as nat, |i: int| vec3_16_at(d, p + 6 * i))
}

pub open spec fn vec3_8_seq_at(d: Seq<u8>, p: int, n: int) -> Seq<File8BitVector3> {
    Seq::new(n as nat, |i: int| vec3_8_at(d, p + 3 * i))
}

pub open spec fn delta_ok(d: Seq<u8>, p: int) -> bool {
    let nv = le32_at(d, p + 12) as int;
    &&& p + 16 <= d.len()
    &&& p + 16 + 16 * nv <= d.len()
}

pub open spec fn delta_end(d: Seq<u8>, p: int) -> int {
    p + 16 + 16 * le32_at(d, p + 12)
}

/// The end function of a run of mesh-delta blocks.
pub open spec fn delta_end_f() -> spec_fn(Seq<u8>, int) -> int {
    |d: Seq<u8>, p: int| delta_end(d, p)
}

pub open spec fn delta_parsed(m: XACPMorphTargetMeshDeltas, d: Seq<u8>, p: int) -> bool {
    let nv = le32_at(d, p + 12) as int;
    &&& m.node_index == le32_at(d, p)
    &&& m.min_value == le32_at(d, p + 4)
    &&& m.max_value == le32_at(d, p + 8)
    &&& m.num_vertices == le32_at(d, p + 12)
    &&& m.delta_position_values@ == vec3_16_seq_at(d, p + 16, nv)
    &&& m.delta_normal_values@ == vec3_8_seq_at(d, p + 16 + 6 * nv, nv)
    &&& m.delta_tangent_values@ == vec3_8_seq_at(d, p + 16 + 9 * nv, nv)
    &&& m.vertex_numbers@ == u32_seq_at(d, p + 16 + 12 * nv, nv)
}

pub open spec fn deltas_ok(d: Seq<u8>, p: int, n: nat) -> bool {
    forall|i: nat| i < n ==> delta_ok(d, #[trigger] rep_start(d, p, i, delta_end_f()))
}

pub open spec fn deltas_end(d: Seq<u8>, p: int, n: nat) -> int {
    rep_start(d, p, n, delta_end_f())
}

pub open spec fn deltas_parsed(v: Seq<XACPMorphTargetMeshDeltas>, d: Seq<u8>, p: int, n: nat) -> bool {
    &&& v.len() == n
    &&& forall|i: nat|
        i < n ==> delta_parsed(v[i as int], d, #[trigger] rep_start(d, p, i, delta_end_f()))
}

/// Reads `n` compressed 16-bit vectors.
fn read_v16_vec(r: &mut BinaryReader, n: u32) -> (res: Result<Vec<File16BitVector3>, TosError>)
    ensures
        final(r).data() == old(r).data(),
        match res {
            Ok(v) => {
                &&& n > 0 ==> old(r).pos() + 6 * n <= old(r).data().len()
                &&& v@ == vec3_16_seq_at(old(r).data(), old(r).pos(), n as int)
                &&& final(r).pos() == old(r).pos() + 6 * n
            },
            Err(e) => {
                &&& e == TosError::IoError
                &&& old(r).pos() + 6 * n > old(r).data().len()
            },
        },
{
    let ghost d = old(r).data();
    let ghost p = old(r).pos();
    let mut v: Vec<File16BitVector3> = Vec::new();
    let mut i: u32 = 0;
    while i < n
        invariant
            r.data() == d,
            d == old(r).data(),
            p == old(r).pos(),
            0 <= i <= n,
            v@.len() == i,
            forall|j: int| 0 <= j < i ==> v@[j] == vec3_16_at(d, p + 6 * j),
            r.pos() == p + 6 * i,
            i > 0 ==> p + 6 * i <= d.len(),
        decreases n - i,
    {
        let axis_x = match r.read_u16() {
            Ok(x) => x,
            Err(e) => {
                return Err(e);
            },
        };
        let axis_y = match r.read_u16() {
            Ok(x) => x,
            Err(e) => {
                return Err(e);
            },
        };
        let axis_z = match r.read_u16() {
            Ok(x) => x,
            Err(e) => {
                return Err(e);
            },
        };
        v.push(File16BitVector3 { axis_x, axis_y, axis_z });
        i = i + 1;
    }
    proof {
        assert(v@ =~= vec3_16_seq_at(d, p, n as int));
    }
    Ok(v)
}

/// Reads `n` compressed 8-bit vectors.
fn read_v8_vec(r: &mut BinaryReader, n: u32) -> (res: Result<Vec<File8BitVector3>, TosError>)
    ensures
        final(r).data() == old(r).data(),
        match res {
            Ok(v) => {
                &&& n > 0 ==> old(r).pos() + 3 * n <= old(r).data().len()
                &&& v@ == vec3_8_seq_at(old(r).data(), old(r).pos(), n as int)
                &&& final(r).pos() == old(r).pos() + 3 * n
            },
            Err(e) => {
                &&& e == TosError::IoError
                &&& old(r).pos() + 3 * n > old(r).data().len()
            },
        },
{
    let ghost d = old(r).data();
    let ghost p = old(r).pos();
    let mut v: Vec<File8BitVector3> = Vec::new();
    let mut i: u32 = 0;
    while i < n
        invariant
            r.data() == d,
            d == old(r).data(),
            p == old(r).pos(),
            0 <= i <= n,
            v@.len() == i,
            forall|j: int| 0 <= j < i ==> v@[j] == vec3_8_at(d, p + 3 * j),
            r.pos() == p + 3 * i,
            i > 0 ==> p + 3 * i <= d.len(),
        decreases n - i,
    {
        let axis_x = match r.read_u8() {
            Ok(x) => x,
            Err(e) => {
                return Err(e);
            },
        };
        let axis_y = match r.read_u8() {
            Ok(x) => x,
            Err(e) => {
                return Err(e);
            },
        };
        let axis_z = match r.read_u8() {
            Ok(x) => x,
            Err(e) => {
                return Err(e);
            },
        };
        v.push(File8BitVector3 { axis_x, axis_y, axis_z });
        i = i + 1;
    }
    proof {
        assert(v@ =~= vec3_8_seq_at(d, p, n as int));
    }
    Ok(v)
}

/// Reads one mesh-delta block.
fn read_delta(r: &mut BinaryReader) -> (res: Result<XACPMorphTargetMeshDeltas, TosError>)
    ensures
        final(r).data() == old(r).data(),
        match res {
            Ok(m) => {
                &&& delta_ok(old(r).data(), old(r).pos())
                &&& delta_parsed(m, old(r).data(), old(r).pos())
                &&& final(r).pos() == delta_end(old(r).data(), old(r).pos())
                &&& final(r).pos() <= old(r).data().len()
            },
            Err(e) => {
                &&& e == TosError::IoError
                &&& !delta_ok(old(r).data(), old(r).pos())
            },
        },
{
    let node_index = r.read_u32()?;
    let min_value = r.read_u32()?;
    let max_value = r.read_u32()?;
    let num_vertices = r.read_u32()?;
    let delta_position_values = read_v16_vec(r, num_vertices)?;
    let delta_normal_values = read_v8_vec(r, num_vertices)?;
    let delta_tangent_values = read_v8_vec(r, num_vertices)?;
    let vertex_numbers = read_u32_vec(r, num_vertices)?;
    Ok(XACPMorphTargetMeshDeltas {
        node_index,
        min_value,
        max_value,
        num_vertices,
        delta_position_values,
        delta_normal_values,
        delta_tangent_values,
        vertex_numbers,
    })
}

/// Reads a run of `n` mesh-delta blocks.
fn read_delta_vec(r: &mut BinaryReader, n: u32) -> (res: Result<
    Vec<XACPMorphTargetMeshDeltas>,
    TosError,
>)
    ensures
        final(r).data() == old(r).data(),
        match res {
            Ok(v) => {
                &&& deltas_ok(old(r).data(), old(r).pos(), n as nat)
                &&& deltas_parsed(v@, old(r).data(), old(r).pos(), n as nat)
                &&& final(r).pos() == deltas_end(old(r).data(), old(r).pos(), n as nat)
                &&& n > 0 ==> final(r).pos() <= old(r).data().len()
            },
            Err(e) => {
                &&& e == TosError::IoError
                &&& !deltas_ok(old(r).data(), old(r).pos(), n as nat)
            },
        },
{
    let ghost d = old(r).data();
    let ghost p = old(r).pos();
    let mut v: Vec<XACPMorphTargetMeshDeltas> = Vec::new();
    let mut i: u32 = 0;
    while i < n
        invariant
            r.data() == d,
            d == old(r).data(),
            p == old(r).pos(),
            0 <= i <= n,
            v@.len() == i,
            forall|j: nat| j < i ==> delta_ok(d, #[trigger] rep_start(d, p, j, delta_end_f())),
            forall|j: nat|
                j < i ==> delta_parsed(
                    v@[j as int],
                    d,
                    #[trigger] rep_start(d, p, j, delta_end_f()),
                ),
            r.pos() == rep_start(d, p, i as nat, delta_end_f()),
            i > 0 ==> r.pos() <= d.len(),
        decreases n - i,
    {
        match read_delta(r) {
            Ok(x) => {
                v.push(x);
                proof {
                    assert(rep_start(d, p, (i + 1) as nat, delta_end_f()) == delta_end(
                        d,
                        rep_start(d, p, i as nat, delta_end_f()),
                    ));
                }
            },
            Err(e) => {
                proof {
                    assert(!deltas_ok(d, p, n as nat)) by {
                        if deltas_ok(d, p, n as nat) {
                            assert(delta_ok(d, rep_start(d, p, i as nat, delta_end_f())));
                        }
                    }
                }
                return Err(e);
            },
        }
        i = i + 1;
    }
    Ok(v)
}

/// A progressive morph target: slider range, deltas and transforms.
pub struct XACPMorphTarget {
    pub range_min: u32,
    pub range_max: u32,
    pub lod: u32,
    pub num_mesh_deform_deltas: u32,
    pub num_transformations: u32,
    pub phoneme_sets: u32,
    pub name: String,
    pub morph_target_mesh_deltas: Vec<XACPMorphTargetMeshDeltas>,
    pub morph_target_transform: Vec<XACPMorphTargetTransform>,
}

pub open spec fn pmorph_target_ok(d: Seq<u8>, p: int) -> bool {
    let nd = le32_at(d, p + 12) as nat;
    let nt = le32_at(d, p + 16) as int;
    let q0 = lp_end(d, p + 24);
    &&& p + 24 <= d.len()
    &&& lp_ok(d, p + 24)
    &&& deltas_ok(d, q0, nd)
    &&& nt > 0 ==> deltas_end(d, q0, nd) + 60 * nt <= d.len()
}

pub open spec fn pmorph_target_end(d: Seq<u8>, p: int) -> int {
    let nd = le32_at(d, p + 12) as nat;
    let nt = le32_at(d, p + 16) as int;
    deltas_end(d, lp_end(d, p + 24), nd) + 60 * nt
}

pub open spec fn pmorph_target_parsed(m: XACPMorphTarget, d: Seq<u8>, p: int) -> bool {
    let nd = le32_at(d, p + 12) as nat;
    let nt = le32_at(d, p + 16) as int;
    let q0 = lp_end(d, p + 24);
    &&& m.range_min == le32_at(d, p)
    &&& m.range_max == le32_at(d, p + 4)
    &&& m.lod == le32_at(d, p + 8)
    &&& m.num_mesh_deform_deltas == le32_at(d, p + 12)
    &&& m.num_transformations == le32_at(d, p + 16)
    &&& m.phoneme_sets == le32_at(d, p + 20)
    &&& m.name@ == lp_str(d, p + 24)
    &&& deltas_parsed(m.morph_target_mesh_deltas@, d, q0, nd)
    &&& m.morph_target_transform@ == transforms_at(d, deltas_end(d, q0, nd), nt)
}

fn read_xac_pmorph_target(r: &mut BinaryReader) -> (res: Result<XACPMorphTarget, TosError>)
    ensures
        final(r).data() == old(r).data(),
        match res {
            Ok(m) => {
                &&& pmorph_target_ok(old(r).data(), old(r).pos())
                &&& pmorph_target_parsed(m, old(r).data(), old(r).pos())
                &&& final(r).pos() == pmorph_target_end(old(r).data(), old(r).pos())
            },
            Err(e) => {
                &&& e == TosError::IoError
                &&& !pmorph_target_ok(old(r).data(), old(r).pos())
            },
        },
{
    let range_min = r.read_u32()?;
    let range_max = r.read_u32()?;
    let lod = r.read_u32()?;
    let num_mesh_deform_deltas = r.read_u32()?;
    let num_transformations = r.read_u32()?;
    let phoneme_sets = r.read_u32()?;
    let name = read_lpstring(r)?;
    let morph_target_mesh_deltas = read_delta_vec(r, num_mesh_deform_deltas)?;
    let morph_target_transform = read_transforms(r, num_transformations)?;
    Ok(XACPMorphTarget {
        range_min,
        range_max,
        lod,
        num_mesh_deform_deltas,
        num_transformations,
        phoneme_sets,
        name,
        morph_target_mesh_deltas,
        morph_target_transform,
    })
}

// ---------------------------------------------------------------------
// The morph-target collection record. Each element holds a count and a
// level of detail followed by that many elements of the same shape, so
// the spec functions recurse over both the data and the counts; the end
// positions are clamped so that they are defined for every input.
// ---------------------------------------------------------------------

/// A collection of morph targets; its elements share this very shape.
pub struct XACPMorphTargets {
    pub num_morph_targets: u32,
    pub lod: u32,
    pub morph_targets: Vec<XACPMorphTargets>,
}

/// The position after `n` sibling collection nodes starting at `p`.
pub open spec fn pmts_children_end(d: Seq<u8>, p: int, n: nat) -> int
    decreases d.len() - p, n,
{
    if n == 0 {
        p
    } else if p + 8 > d.len() {
        p
    } else {
        let ce = pmts_children_end(d, p + 8, le32_at(d, p) as nat);
        let ne = if ce < p + 8 {
            p + 8
        } else {
            ce
        };
        let a2 = if ne > d.len() {
            d.len() as int
        } else {
            ne
        };
        pmts_children_end(d, a2, (n - 1) as nat)
    }
}

/// The position after the collection node at `p`, clamped to the data.
pub open spec fn pmts_after(d: Seq<u8>, p: int) -> int {
    let ce = pmts_children_end(d, p + 8, le32_at(d, p) as nat);
    let ne = if ce < p + 8 {
        p + 8
    } else {
        ce
    };
    if ne > d.len() {
        d.len() as int
    } else {
        ne
    }
}

/// One step over a sibling run: the next start, or `x` itself when no
/// node header fits there.
pub open spec fn pmts_step(d: Seq<u8>, x: int) -> int {
    if x + 8 > d.len() {
        x
    } else {
        pmts_after(d, x)
    }
}

/// `n` sibling collection nodes parse successfully from `p`.
pub open spec fn pmts_children_ok(d: Seq<u8>, p: int, n: nat) -> bool
    decreases d.len() - p, n,
{
    if n == 0 {
        true
    } else {
        &&& p + 8 <= d.len()
        &&& pmts_children_ok(d, p + 8, le32_at(d, p) as nat)
        &&& pmts_children_ok(d, pmts_after(d, p), (n - 1) as nat)
    }
}

/// The collection record at `p` parses successfully.
pub open spec fn pmts_record_ok(d: Seq<u8>, p: int) -> bool {
    &&& p + 8 <= d.len()
    &&& pmts_children_ok(d, p + 8, le32_at(d, p) as nat)
}

/// `m` holds exactly the collection node at `p`.
pub open spec fn pmts_parsed(m: XACPMorphTargets, d: Seq<u8>, p: int) -> bool
    decreases d.len() - p, 0nat, 0nat,
{
    &&& p + 8 <= d.len()
    &&& m.num_morph_targets == le32_at(d, p)
    &&& m.lod == le32_at(d, p + 4)
    &&& pmts_children_parsed(m.morph_targets@, d, p + 8, le32_at(d, p) as nat)
}

/// `v` holds exactly the `n` sibling collection nodes from `p`.
pub open spec fn pmts_children_parsed(v: Seq<XACPMorphTargets>, d: Seq<u8>, p: int, n: nat) -> bool
    decreases d.len() - p, n, 1nat,
{
    if n == 0 {
        v.len() == 0
    } else {
        &&& v.len() == n
        &&& p + 8 <= d.len()
        &&& pmts_parsed(v[0], d, p)
        &&& pmts_children_parsed(v.drop_first(), d, pmts_after(d, p), (n - 1) as nat)
    }
}

proof fn lemma_pmts_children_end_lb(d: Seq<u8>, p: int, n: nat)
    ensures
        pmts_children_end(d, p, n) >= p,
    decreases d.len() - p, n,
{
    if n == 0 || p + 8 > d.len() {
    } else {
        let ce = pmts_children_end(d, p + 8, le32_at(d, p) as nat);
        let ne = if ce < p + 8 {
            p + 8
        } else {
            ce
        };
        let a2 = if ne > d.len() {
            d.len() as int
        } else {
            ne
        };
        lemma_pmts_children_end_lb(d, a2, (n - 1) as nat);
    }
}

proof fn lemma_pmts_children_end_snoc(d: Seq<u8>, q: int, n: nat)
    ensures
        pmts_children_end(d, q, (n + 1) as nat) == pmts_step(d, pmts_children_end(d, q, n)),
    decreases d.len() - q, n,
{
    reveal_with_fuel(pmts_children_end, 3);
    if n == 0 {
    } else if q + 8 > d.len() {
        assert(pmts_children_end(d, q, (n + 1) as nat) == q);
        assert(pmts_children_end(d, q, n) == q);
    } else {
        let ce = pmts_children_end(d, q + 8, le32_at(d, q) as nat);
        let ne = if ce < q + 8 {
            q + 8
        } else {
            ce
        };
        let a2 = if ne > d.len() {
            d.len() as int
        } else {
            ne
        };
        lemma_pmts_children_end_snoc(d, a2, (n - 1) as nat);
        assert(pmts_children_end(d, q, (n + 1) as nat) == pmts_children_end(
            d,
            a2,
            ((n + 1) - 1) as nat,
        ));
        assert(pmts_children_end(d, q, n) == pmts_children_end(d, a2, (n - 1) as nat));
    }
}

proof fn lemma_pmts_children_parsed_snoc(
    v: Seq<XACPMorphTargets>,
    x: XACPMorphTargets,
    d: Seq<u8>,
    q: int,
    n: nat,
)
    requires
        pmts_children_parsed(v, d, q, n),
        pmts_parsed(x, d, pmts_children_end(d, q, n)),
    ensures
        pmts_children_parsed(v.push(x), d, q, (n + 1) as nat),
    decreases n,
{
    reveal_with_fuel(pmts_children_end, 2);
    reveal_with_fuel(pmts_children_parsed, 3);
    if n == 0 {
        assert(pmts_children_end(d, q, 0) == q);
        assert(v.len() == 0);
        assert(pmts_parsed(x, d, q));
        assert(q + 8 <= d.len());
        let w = v.push(x);
        assert(w.len() == 1);
        assert(w[0] == x);
        assert(w.drop_first() =~= Seq::<XACPMorphTargets>::empty());
        assert(pmts_children_parsed(w.drop_first(), d, pmts_after(d, q), 0nat));
        assert(pmts_children_parsed(w, d, q, 1nat));
    } else {
        assert(pmts_children_end(d, q, n) == pmts_children_end(
            d,
            pmts_after(d, q),
            (n - 1) as nat,
        ));
        lemma_pmts_children_parsed_snoc(v.drop_first(), x, d, pmts_after(d, q), (n - 1) as nat);
        assert(v.push(x).drop_first() =~= v.drop_first().push(x));
        assert(v.push(x)[0] == v[0]);
        assert(pmts_children_parsed(v.push(x), d, q, (n + 1) as nat));
    }
}

/// Reads a morph-target collection node, descending into its elements.
fn read_xac_pmorph_targets(r: &mut BinaryReader) -> (res: Result<XACPMorphTargets, TosError>)
    requires
        old(r).pos() <= old(r).data().len(),
    ensures
        final(r).data() == old(r).data(),
        match res {
            Ok(m) => {
                &&& pmts_record_ok(old(r).data(), old(r).pos())
                &&& pmts_parsed(m, old(r).data(), old(r).pos())
                &&& final(r).pos() == pmts_after(old(r).data(), old(r).pos())
                &&& final(r).pos() >= old(r).pos() + 8
            },
            Err(e) => {
                &&& e == TosError::IoError
                &&& !pmts_record_ok(old(r).data(), old(r).pos())
            },
        },
    decreases old(r).data().len() - old(r).pos(),
{
    let ghost d = old(r).data();
    let ghost p0 = old(r).pos();
    let num_morph_targets = r.read_u32()?;
    let lod = r.read_u32()?;
    let ghost q = p0 + 8;
    let mut morph_targets: Vec<XACPMorphTargets> = Vec::new();
    let mut i: u32 = 0;
    while i < num_morph_targets
        invariant
            r.data() == d,
            d == old(r).data(),
            p0 == old(r).pos(),
            q == p0 + 8,
            p0 + 8 <= d.len(),
            r.pos() <= d.len(),
            num_morph_targets == le32_at(d, p0),
            lod == le32_at(d, p0 + 4),
            0 <= i <= num_morph_targets,
            morph_targets@.len() == i,
            r.pos() == pmts_children_end(d, q, i as nat),
            pmts_children_parsed(morph_targets@, d, q, i as nat),
            pmts_children_ok(d, q, num_morph_targets as nat) <==> pmts_children_ok(
                d,
                r.pos(),
                (num_morph_targets - i) as nat,
            ),
        decreases num_morph_targets - i,
    {
        proof {
            lemma_pmts_children_end_lb(d, q, i as nat);
        }
        let ghost cur = r.pos();
        match read_xac_pmorph_targets(r) {
            Ok(x) => {
                proof {
                    lemma_pmts_children_parsed_snoc(morph_targets@, x, d, q, i as nat);
                    lemma_pmts_children_end_snoc(d, q, i as nat);
                    assert(pmts_step(d, cur) == pmts_after(d, cur));
                }
                morph_targets.push(x);
            },
            Err(e) => {
                proof {
                    assert(!pmts_children_ok(d, cur, (num_morph_targets - i) as nat));
                }
                return Err(e);
            },
        }
        i = i + 1;
    }
    let result = XACPMorphTargets { num_morph_targets, lod, morph_targets };
    proof {
        lemma_pmts_children_end_lb(d, q, num_morph_targets as nat);
        assert(pmts_children_ok(d, r.pos(), 0nat));
        assert(pmts_children_ok(d, q, num_morph_targets as nat));
        assert(pmts_record_ok(d, p0));
        assert(pmts_parsed(result, d, p0));
        assert(r.pos() <= d.len());
        assert(pmts_after(d, p0) == r.pos());
    }
    Ok(result)
}

// ---------------------------------------------------------------------
// The chunk stream: dispatch on (kind, version), skip of unknown pairs,
// and forced resynchronization to each chunk's declared end.
// ---------------------------------------------------------------------

/// One decoded record, tagged by its shape.
pub enum XacChunkData {
    XacInfo(XacInfo),
    XacInfo2(XacInfo2),
    XacInfo3(XacInfo3),
    XacInfo4(XacInfo4),
    XacNode(XacNode),
    XacNode2(XacNode2),
    XacNode3(XacNode3),
    XacNode4(XacNode4),
    XacSkinningInfo(XacSkinningInfo),
    XacSkinningInfo2(XacSkinningInfo2),
    XacSkinningInfo3(XacSkinningInfo3),
    XacSkinningInfo4(XacSkinningInfo4),
    XacStandardMaterial(XacStandardMaterial),
    XacStandardMaterial2(XacStandardMaterial2),
    XacStandardMaterial3(XacStandardMaterial3),
    XACStandardMaterialLayer(XACStandardMaterialLayer),
    XACStandardMaterialLayer2(XACStandardMaterialLayer2),
    XACSubMesh(XACSubMesh),
    XACMesh(XACMesh),
    XACMesh2(XACMesh2),
    XACLimit(XACLimit),
    XACPMorphTarget(XACPMorphTarget),
    XACPMorphTargets(XACPMorphTargets),
    XACFXMaterial(XACFXMaterial),
    XACFXMaterial2(XACFXMaterial2),
    XACFXMaterial3(XACFXMaterial3),
    XACNodeGroup(XACNodeGroup),
    XACNodes(XACNodes),
    XACMaterialInfo(XACMaterialInfo),
    XACMaterialInfo2(XACMaterialInfo2),
    XACMeshLodLevel(XACMeshLodLevel),
    XACNodeMotionSources(XACNodeMotionSources),
    XACAttachmentNodes(XACAttachmentNodes),
}

/// The chunk header whose twelve bytes start at `p`.
pub open spec fn chunk_header_at(d: Seq<u8>, p: int) -> FileChunk {
    FileChunk {
        chunk_id: le32_at(d, p),
        size_in_bytes: le32_at(d, p + 4),
        version: le32_at(d, p + 8),
    }
}

/// Where decoding resumes after a chunk whose payload starts at `start`
/// and declares `size` bytes: the declared end, parked at the end of the
/// data when the declaration overshoots it.
pub open spec fn resync_pos(d: Seq<u8>, start: int, size: u32) -> int {
    if start + size > d.len() {
        d.len() as int
    } else {
        start + size
    }
}

/// The (kind, version) pairs this decoder understands.
pub open spec fn known_pair(id: u32, ver: u32) -> bool {
    ||| (id == 0 && 1 <= ver <= 4)
    ||| (id == 1 && 1 <= ver <= 2)
    ||| (id == 2 && 1 <= ver <= 4)
    ||| (id == 3 && 1 <= ver <= 3)
    ||| (id == 4 && 1 <= ver <= 2)
    ||| (id == 5 && 1 <= ver <= 3)
    ||| (id == 6 && ver == 1)
    ||| (id == 7 && 1 <= ver <= 4)
    ||| (id == 8 && ver == 1)
    ||| (id == 9 && ver == 1)
    ||| (id == 10 && ver == 1)
    ||| (id == 11 && ver == 1)
    ||| (id == 12 && ver == 1)
    ||| (id == 13 && 1 <= ver <= 2)
    ||| (id == 14 && ver == 1)
    ||| (id == 15 && ver == 1)
}

/// The sizing parameter a skinning record takes from the mesh that
/// shares its node index: zero when no such mesh was decoded.
pub open spec fn vm_get(vm: Map<u32, u32>, node: u32) -> u32 {
    if vm.dom().contains(node) {
        vm[node]
    } else {
        0
    }
}

/// How decoding one chunk extends the node-to-vertex-count lookup: mesh
/// chunks deposit their `num_org_verts` under their node index.
pub open spec fn vm_step(vm: Map<u32, u32>, d: Seq<u8>, start: int, id: u32, ver: u32) -> Map<
    u32,
    u32,
> {
    if id == 1 && ver == 1 {
        vm.insert(le32_at(d, start), le32_at(d, start + 4))
    } else if id == 1 && ver == 2 {
        vm.insert(le32_at(d, start), le32_at(d, start + 8))
    } else {
        vm
    }
}

/// The same lookup built from already-decoded records.
pub open spec fn vm_step_val(vm: Map<u32, u32>, v: XacChunkData) -> Map<u32, u32> {
    match v {
        XacChunkData::XACMesh(m) => vm.insert(m.node_index, m.num_org_verts),
        XacChunkData::XACMesh2(m) => vm.insert(m.node_index, m.num_org_verts),
        _ => vm,
    }
}

/// The lookup after all records of `ds`, in order.
pub open spec fn vm_fold(vm: Map<u32, u32>, ds: Seq<XacChunkData>) -> Map<u32, u32>
    decreases ds.len(),
{
    if ds.len() == 0 {
        vm
    } else {
        vm_fold(vm_step_val(vm, ds[0]), ds.drop_first())
    }
}

/// The lookup after the chunks between `p` and `q`.
pub open spec fn vm_at(d: Seq<u8>, p: int, q: int, vm: Map<u32, u32>) -> Map<u32, u32>
    decreases q - p,
{
    if p >= q || p + 12 > d.len() {
        vm
    } else {
        let next = resync_pos(d, p + 12, le32_at(d, p + 4));
        if next > q {
            vm
        } else {
            vm_at(d, next, q, vm_step(vm, d, p + 12, le32_at(d, p), le32_at(d, p + 8)))
        }
    }
}

/// The record with this kind and version parses at `start`.
pub open spec fn record_ok_at(d: Seq<u8>, start: int, id: u32, ver: u32, vm: Map<u32, u32>) -> bool {
    if id == 0 && ver == 1 { node1_ok(d, start) }
    else if id == 0 && ver == 2 { node2_ok(d, start) }
    else if id == 0 && ver == 3 { node3_ok(d, start) }
    else if id == 0 && ver == 4 { node4_ok(d, start) }
    else if id == 1 && ver == 1 { mesh1_ok(d, start) }
    else if id == 1 && ver == 2 { mesh2_ok(d, start) }
    else if id == 2 && ver == 1 { skin1_ok(d, start) }
    else if id == 2 && ver == 2 { skin2_ok(d, start, vm_get(vm, le32_at(d, start)) as int) }
    else if id == 2 && ver == 3 { skin3_ok(d, start, vm_get(vm, le32_at(d, start)) as int) }
    else if id == 2 && ver == 4 { skin4_ok(d, start, vm_get(vm, le32_at(d, start)) as int) }
    else if id == 3 && ver == 1 { material1_ok(d, start) }
    else if id == 3 && ver == 2 { material2_ok(d, start) }
    else if id == 3 && ver == 3 { material3_ok(d, start) }
    else if id == 4 && ver == 1 { matlayer1_ok(d, start) }
    else if id == 4 && ver == 2 { matlayer2_ok(d, start) }
    else if id == 5 && ver == 1 { fx_material1_ok(d, start) }
    else if id == 5 && ver == 2 { fx_material2_ok(d, start) }
    else if id == 5 && ver == 3 { fx_material3_ok(d, start) }
    else if id == 6 && ver == 1 { limit_ok(d, start) }
    else if id == 7 && ver == 1 { xac_info_ok(d, start) }
    else if id == 7 && ver == 2 { xac_info2_ok(d, start) }
    else if id == 7 && ver == 3 { xac_info3_ok(d, start) }
    else if id == 7 && ver == 4 { xac_info4_ok(d, start) }
    else if id == 8 && ver == 1 { mesh_lod_ok(d, start) }
    else if id == 9 && ver == 1 { pmorph_target_ok(d, start) }
    else if id == 10 && ver == 1 { node_group_ok(d, start) }
    else if id == 11 && ver == 1 { nodes_ok(d, start) }
    else if id == 12 && ver == 1 { pmts_record_ok(d, start) }
    else if id == 13 && ver == 1 { material_info_ok(d, start) }
    else if id == 13 && ver == 2 { material_info2_ok(d, start) }
    else if id == 14 && ver == 1 { node_motion_sources_ok(d, start) }
    else if id == 15 && ver == 1 { attachment_nodes_ok(d, start) }
    else { true }
}

/// `v` is exactly the record of this kind and version parsed at `start`.
pub open spec fn record_data_parsed(
    v: XacChunkData,
    d: Seq<u8>,
    start: int,
    id: u32,
    ver: u32,
    vm: Map<u32, u32>,
) -> bool {
    if id == 0 && ver == 1 { v matches XacChunkData::XacNode(m) && node1_parsed(m, d, start) }
    else if id == 0 && ver == 2 { v matches XacChunkData::XacNode2(m) && node2_parsed(m, d, start) }
    else if id == 0 && ver == 3 { v matches XacChunkData::XacNode3(m) && node3_parsed(m, d, start) }
    else if id == 0 && ver == 4 { v matches XacChunkData::XacNode4(m) && node4_parsed(m, d, start) }
    else if id == 1 && ver == 1 { v matches XacChunkData::XACMesh(m) && mesh1_parsed(m, d, start) }
    else if id == 1 && ver == 2 { v matches XacChunkData::XACMesh2(m) && mesh2_parsed(m, d, start) }
    else if id == 2 && ver == 1 {
        v matches XacChunkData::XacSkinningInfo(m) && skin1_parsed(m, d, start)
    }
    else if id == 2 && ver == 2 {
        v matches XacChunkData::XacSkinningInfo2(m) && skin2_parsed(
            m, d, start, vm_get(vm, le32_at(d, start)) as int,
        )
    }
    else if id == 2 && ver == 3 {
        v matches XacChunkData::XacSkinningInfo3(m) && skin3_parsed(
            m, d, start, vm_get(vm, le32_at(d, start)) as int,
        )
    }
    else if id == 2 && ver == 4 {
        v matches XacChunkData::XacSkinningInfo4(m) && skin4_parsed(
            m, d, start, vm_get(vm, le32_at(d, start)) as int,
        )
    }
    else if id == 3 && ver == 1 {
        v matches XacChunkData::XacStandardMaterial(m) && material1_parsed(m, d, start)
    }
    else if id == 3 && ver == 2 {
        v matches XacChunkData::XacStandardMaterial2(m) && material2_parsed(m, d, start)
    }
    else if id == 3 && ver == 3 {
        v matches XacChunkData::XacStandardMaterial3(m) && material3_parsed(m, d, start)
    }
    else if id == 4 && ver == 1 {
        v matches XacChunkData::XACStandardMaterialLayer(m) && matlayer1_parsed(m, d, start)
    }
    else if id == 4 && ver == 2 {
        v matches XacChunkData::XACStandardMaterialLayer2(m) && matlayer2_parsed(m, d, start)
    }
    else if id == 5 && ver == 1 {
        v matches XacChunkData::XACFXMaterial(m) && fx_material1_parsed(m, d, start)
    }
    else if id == 5 && ver == 2 {
        v matches XacChunkData::XACFXMaterial2(m) && fx_material2_parsed(m, d, start)
    }
    else if id == 5 && ver == 3 {
        v matches XacChunkData::XACFXMaterial3(m) && fx_material3_parsed(m, d, start)
    }
    else if id == 6 && ver == 1 { v matches XacChunkData::XACLimit(m) && limit_parsed(m, d, start) }
    else if id == 7 && ver == 1 { v matches XacChunkData::XacInfo(m) && xac_info_parsed(m, d, start) }
    else if id == 7 && ver == 2 {
        v matches XacChunkData::XacInfo2(m) && xac_info2_parsed(m, d, start)
    }
    else if id == 7 && ver == 3 {
        v matches XacChunkData::XacInfo3(m) && xac_info3_parsed(m, d, start)
    }
    else if id == 7 && ver == 4 {
        v matches XacChunkData::XacInfo4(m) && xac_info4_parsed(m, d, start)
    }
    else if id == 8 && ver == 1 {
        v matches XacChunkData::XACMeshLodLevel(m) && mesh_lod_parsed(m, d, start)
    }
    else if id == 9 && ver == 1 {
        v matches XacChunkData::XACPMorphTarget(m) && pmorph_target_parsed(m, d, start)
    }
    else if id == 10 && ver == 1 {
        v matches XacChunkData::XACNodeGroup(m) && node_group_parsed(m, d, start)
    }
    else if id == 11 && ver == 1 { v matches XacChunkData::XACNodes(m) && nodes_parsed(m, d, start) }
    else if id == 12 && ver == 1 {
        v matches XacChunkData::XACPMorphTargets(m) && pmts_parsed(m, d, start)
    }
    else if id == 13 && ver == 1 {
        v matches XacChunkData::XACMaterialInfo(m) && material_info_parsed(m, d, start)
    }
    else if id == 13 && ver == 2 {
        v matches XacChunkData::XACMaterialInfo2(m) && material_info2_parsed(m, d, start)
    }
    else if id == 14 && ver == 1 {
        v matches XacChunkData::XACNodeMotionSources(m) && node_motion_sources_parsed(m, d, start)
    }
    else if id == 15 && ver == 1 {
        v matches XacChunkData::XACAttachmentNodes(m) && attachment_nodes_parsed(m, d, start)
    }
    else { false }
}

/// The whole chunk stream from `p` on decodes without failure, given
/// the mesh lookup built so far.
pub open spec fn chunks_decodable(d: Seq<u8>, p: int, vm: Map<u32, u32>) -> bool
    decreases d.len() - p,
{
    if p >= d.len() {
        true
    } else if p + 12 > d.len() {
        false
    } else {
        let id = le32_at(d, p);
        let size = le32_at(d, p + 4);
        let ver = le32_at(d, p + 8);
        let start = p + 12;
        &&& record_ok_at(d, start, id, ver, vm)
        &&& chunks_decodable(d, resync_pos(d, start, size), vm_step(vm, d, start, id, ver))
    }
}

/// The chunk headers `cs` and records `ds` are exactly what decoding
/// the bytes between `p` and `q` yields: every known chunk contributes
/// one record, every unknown chunk is skipped, and each chunk is
/// followed at its declared end.
pub open spec fn parsed_between(
    d: Seq<u8>,
    p: int,
    q: int,
    cs: Seq<FileChunk>,
    ds: Seq<XacChunkData>,
    vm: Map<u32, u32>,
) -> bool
    decreases q - p,
{
    if p >= q {
        &&& p == q
        &&& cs.len() == 0
        &&& ds.len() == 0
    } else {
        &&& p + 12 <= d.len()
        &&& cs.len() > 0
        &&& cs[0] == chunk_header_at(d, p)
        &&& ({
            let id = le32_at(d, p);
            let size = le32_at(d, p + 4);
            let ver = le32_at(d, p + 8);
            let start = p + 12;
            let next = resync_pos(d, start, size);
            &&& next <= q
            &&& if known_pair(id, ver) {
                &&& ds.len() > 0
                &&& record_data_parsed(ds[0], d, start, id, ver, vm)
                &&& parsed_between(
                    d,
                    next,
                    q,
                    cs.drop_first(),
                    ds.drop_first(),
                    vm_step(vm, d, start, id, ver),
                )
            } else {
                parsed_between(d, next, q, cs.drop_first(), ds, vm_step(vm, d, start, id, ver))
            }
        })
    }
}

proof fn lemma_vm_fold_snoc(vm: Map<u32, u32>, ds: Seq<XacChunkData>, x: XacChunkData)
    ensures
        vm_fold(vm, ds.push(x)) == vm_step_val(vm_fold(vm, ds), x),
    decreases ds.len(),
{
    reveal_with_fuel(vm_fold, 3);
    if ds.len() == 0 {
        assert(ds.push(x)[0] == x);
        assert(ds.push(x).drop_first() =~= Seq::<XacChunkData>::empty());
    } else {
        assert(ds.push(x)[0] == ds[0]);
        assert(ds.push(x).drop_first() =~= ds.drop_first().push(x));
        lemma_vm_fold_snoc(vm_step_val(vm, ds[0]), ds.drop_first(), x);
        assert(vm_fold(vm, ds.push(x)) == vm_fold(
            vm_step_val(vm, ds[0]),
            ds.drop_first().push(x),
        ));
        assert(vm_fold(vm, ds) == vm_fold(vm_step_val(vm, ds[0]), ds.drop_first()));
    }
}

proof fn lemma_vm_values(
    d: Seq<u8>,
    p: int,
    q: int,
    cs: Seq<FileChunk>,
    ds: Seq<XacChunkData>,
    vm: Map<u32, u32>,
)
    requires
        parsed_between(d, p, q, cs, ds, vm),
        q <= d.len(),
    ensures
        vm_fold(vm, ds) == vm_at(d, p, q, vm),
    decreases q - p,
{
    if p >= q {
    } else {
        let id = le32_at(d, p);
        let size = le32_at(d, p + 4);
        let ver = le32_at(d, p + 8);
        let start = p + 12;
        let next = resync_pos(d, start, size);
        let vm2 = vm_step(vm, d, start, id, ver);
        if known_pair(id, ver) {
            lemma_vm_values(d, next, q, cs.drop_first(), ds.drop_first(), vm2);
            assert(vm_step_val(vm, ds[0]) == vm2);
            assert(vm_fold(vm, ds) == vm_fold(vm2, ds.drop_first()));
        } else {
            lemma_vm_values(d, next, q, cs.drop_first(), ds, vm2);
            assert(vm_step(vm, d, start, id, ver) == vm);
        }
    }
}

proof fn lemma_vm_at_snoc(
    d: Seq<u8>,
    p: int,
    q: int,
    cs: Seq<FileChunk>,
    ds: Seq<XacChunkData>,
    vm: Map<u32, u32>,
)
    requires
        parsed_between(d, p, q, cs, ds, vm),
        q + 12 <= d.len(),
    ensures
        ({
            let next = resync_pos(d, q + 12, le32_at(d, q + 4));
            vm_at(d, p, next, vm) == vm_step(
                vm_at(d, p, q, vm),
                d,
                q + 12,
                le32_at(d, q),
                le32_at(d, q + 8),
            )
        }),
    decreases q - p,
{
    reveal_with_fuel(vm_at, 3);
    let nq = resync_pos(d, q + 12, le32_at(d, q + 4));
    if p >= q {
        assert(p == q);
        assert(vm_at(d, q, q, vm) == vm);
        assert(nq > q);
        let vmn = vm_step(vm, d, q + 12, le32_at(d, q), le32_at(d, q + 8));
        assert(vm_at(d, nq, nq, vmn) == vmn);
        assert(vm_at(d, q, nq, vm) == vmn);
    } else {
        let id = le32_at(d, p);
        let size = le32_at(d, p + 4);
        let ver = le32_at(d, p + 8);
        let start = p + 12;
        let next = resync_pos(d, start, size);
        let vm2 = vm_step(vm, d, start, id, ver);
        if known_pair(id, ver) {
            lemma_vm_at_snoc(d, next, q, cs.drop_first(), ds.drop_first(), vm2);
        } else {
            lemma_vm_at_snoc(d, next, q, cs.drop_first(), ds, vm2);
        }
        assert(next <= q < nq);
        assert(vm_at(d, p, nq, vm) == vm_at(d, next, nq, vm2));
        assert(vm_at(d, p, q, vm) == vm_at(d, next, q, vm2));
    }
}

proof fn lemma_parsed_snoc(
    d: Seq<u8>,
    p: int,
    q: int,
    cs: Seq<FileChunk>,
    ds: Seq<XacChunkData>,
    vm: Map<u32, u32>,
    x: Option<XacChunkData>,
)
    requires
        parsed_between(d, p, q, cs, ds, vm),
        q + 12 <= d.len(),
        known_pair(le32_at(d, q), le32_at(d, q + 8)) ==> x is Some && record_data_parsed(
            x->Some_0,
            d,
            q + 12,
            le32_at(d, q),
            le32_at(d, q + 8),
            vm_at(d, p, q, vm),
        ),
        !known_pair(le32_at(d, q), le32_at(d, q + 8)) ==> x is None,
    ensures
        parsed_between(
            d,
            p,
            resync_pos(d, q + 12, le32_at(d, q + 4)),
            cs.push(chunk_header_at(d, q)),
            if x is Some {
                ds.push(x->Some_0)
            } else {
                ds
            },
            vm,
        ),
    decreases q - p,
{
    reveal_with_fuel(parsed_between, 3);
    reveal_with_fuel(vm_at, 2);
    let nq = resync_pos(d, q + 12, le32_at(d, q + 4));
    let c = chunk_header_at(d, q);
    if p >= q {
        assert(p == q);
        assert(cs.push(c)[0] == c);
        assert(cs.push(c).drop_first() =~= Seq::<FileChunk>::empty());
        assert(vm_at(d, q, q, vm) == vm);
        let vmn = vm_step(vm, d, q + 12, le32_at(d, q), le32_at(d, q + 8));
        if known_pair(le32_at(d, q), le32_at(d, q + 8)) {
            let ds2 = ds.push(x->Some_0);
            assert(ds2[0] == x->Some_0);
            assert(ds2.drop_first() =~= Seq::<XacChunkData>::empty());
            assert(parsed_between(
                d,
                nq,
                nq,
                Seq::<FileChunk>::empty(),
                Seq::<XacChunkData>::empty(),
                vmn,
            ));
        } else {
            assert(parsed_between(
                d,
                nq,
                nq,
                Seq::<FileChunk>::empty(),
                Seq::<XacChunkData>::empty(),
                vmn,
            ));
        }
    } else {
        let id = le32_at(d, p);
        let size = le32_at(d, p + 4);
        let ver = le32_at(d, p + 8);
        let start = p + 12;
        let next = resync_pos(d, start, size);
        let vm2 = vm_step(vm, d, start, id, ver);
        assert(vm_at(d, p, q, vm) == vm_at(d, next, q, vm2));
        assert(cs.push(c)[0] == cs[0]);
        assert(cs.push(c).drop_first() =~= cs.drop_first().push(c));
        if known_pair(id, ver) {
            lemma_parsed_snoc(d, next, q, cs.drop_first(), ds.drop_first(), vm2, x);
            assert(ds.len() > 0);
            if x is Some {
                let ds2 = ds.push(x->Some_0);
                assert(ds2[0] == ds[0]);
                assert(ds2.drop_first() =~= ds.drop_first().push(x->Some_0));
                assert(parsed_between(
                    d,
                    next,
                    nq,
                    cs.drop_first().push(c),
                    ds2.drop_first(),
                    vm2,
                ));
            } else {
                assert(parsed_between(d, next, nq, cs.drop_first().push(c), ds.drop_first(), vm2));
            }
        } else {
            lemma_parsed_snoc(d, next, q, cs.drop_first(), ds, vm2, x);
        }
        assert(next <= q < nq);
    }
}

/// The `num_org_verts` a skinning record of this node should size its
/// table with: the value of the last decoded mesh whose node index
/// matches, or zero when there is none.
fn find_num_org_verts(chunk_data: &Vec<XacChunkData>, node: u32) -> (nv: u32)
    ensures
        nv == vm_get(vm_fold(Map::<u32, u32>::empty(), chunk_data@), node),
{
    let ghost cd = chunk_data@;
    let mut nv: u32 = 0;
    let mut j: usize = 0;
    proof {
        assert(cd.take(0) =~= Seq::<XacChunkData>::empty());
    }
    while j < chunk_data.len()
        invariant
            cd == chunk_data@,
            0 <= j <= cd.len(),
            nv == vm_get(vm_fold(Map::<u32, u32>::empty(), cd.take(j as int)), node),
        decreases cd.len() - j,
    {
        proof {
            assert(cd.take(j + 1) =~= cd.take(j as int).push(cd[j as int]));
            lemma_vm_fold_snoc(Map::<u32, u32>::empty(), cd.take(j as int), cd[j as int]);
        }
        match &chunk_data[j] {
            XacChunkData::XACMesh(m) => {
                if m.node_index == node {
                    nv = m.num_org_verts;
                }
            },
            XacChunkData::XACMesh2(m) => {
                if m.node_index == node {
                    nv = m.num_org_verts;
                }
            },
            _ => {},
        }
        j = j + 1;
    }
    proof {
        assert(cd.take(cd.len() as int) =~= cd);
    }
    nv
}

/// A decoded model file: the header, the chunk headers in file order,
/// and the records decoded from the known chunks, in the same order.
pub struct XACFile {
    pub header: XacHeader,
    pub chunk: Vec<FileChunk>,
    pub chunk_data: Vec<XacChunkData>,
}

/// The header fields held at the very start of the file.
pub open spec fn xac_header_parsed(h: XacHeader, d: Seq<u8>) -> bool {
    &&& h.fourcc == le32_at(d, 0)
    &&& h.hi_version == d[4]
    &&& h.lo_version == d[5]
    &&& h.endian_type == d[6]
    &&& h.mul_order == d[7]
}

/// Which error opening a model raises, if any: too short for the header
/// is an I/O failure, a wrong tag is `BadHeader`, a big-endian flag is
/// `UnsupportedEndianness`, and a chunk that cannot be decoded is an
/// I/O failure.
pub open spec fn spec_model_error(d: Seq<u8>) -> Option<TosError> {
    if d.len() < 8 {
        Some(TosError::IoError)
    } else if le32_at(d, 0) != XAC_MAGIC {
        Some(TosError::BadHeader)
    } else if d[6] != 0 {
        Some(TosError::UnsupportedEndianness)
    } else if !chunks_decodable(d, 8, Map::empty()) {
        Some(TosError::IoError)
    } else {
        None
    }
}

impl XACFile {
    /// Decodes a whole model from an in-memory byte buffer.
    pub fn load_from_bytes(bytes: Vec<u8>) -> (res: Result<XACFile, TosError>)
        ensures
            match res {
                Ok(x) => {
                    &&& spec_model_error(bytes@) is None
                    &&& xac_header_parsed(x.header, bytes@)
                    &&& parsed_between(
                        bytes@,
                        8,
                        bytes@.len() as int,
                        x.chunk@,
                        x.chunk_data@,
                        Map::empty(),
                    )
                },
                Err(e) => spec_model_error(bytes@) == Some(e),
            },
    {
        let mut binary_reader = BinaryReader::new(bytes);
        Self::load_from_reader(&mut binary_reader)
    }

    /// Decodes a whole model from the reader, which must stand at the
    /// start of its data.
    fn load_from_reader(reader: &mut BinaryReader) -> (res: Result<XACFile, TosError>)
        requires
            old(reader).pos() == 0,
        ensures
            final(reader).data() == old(reader).data(),
            match res {
                Ok(x) => {
                    let d = old(reader).data();
                    &&& spec_model_error(d) is None
                    &&& xac_header_parsed(x.header, d)
                    &&& parsed_between(d, 8, d.len() as int, x.chunk@, x.chunk_data@, Map::empty())
                },
                Err(e) => spec_model_error(old(reader).data()) == Some(e),
            },
    {
        let mut xac_data = XACFile {
            header: XacHeader { fourcc: 0, hi_version: 0, lo_version: 0, endian_type: 0, mul_order: 0 },
            chunk: Vec::new(),
            chunk_data: Vec::new(),
        };
        xac_data.read_header(reader)?;
        xac_data.read_chunk(reader)?;
        Ok(xac_data)
    }

    /// Reads and validates the eight-byte header: the tag must be the
    /// fixed one and the data must declare itself little-endian.
    fn read_header(&mut self, reader: &mut BinaryReader) -> (res: Result<(), TosError>)
        requires
            old(reader).pos() == 0,
        ensures
            final(reader).data() == old(reader).data(),
            final(self).chunk@ == old(self).chunk@,
            final(self).chunk_data@ == old(self).chunk_data@,
            ({
                let d = old(reader).data();
                match res {
                    Ok(()) => {
                        &&& d.len() >= 8
                        &&& le32_at(d, 0) == XAC_MAGIC
                        &&& d[6] == 0
                        &&& xac_header_parsed(final(self).header, d)
                        &&& final(reader).pos() == 8
                    },
                    Err(e) => {
                        if d.len() < 8 {
                            e == TosError::IoError
                        } else if le32_at(d, 0) != XAC_MAGIC {
                            e == TosError::BadHeader
                        } else {
                            e == TosError::UnsupportedEndianness && d[6] != 0
                        }
                    },
                }
            }),
    {
        let fourcc = reader.read_u32()?;
        let hi_version = reader.read_u8()?;
        let lo_version = reader.read_u8()?;
        let endian_type = reader.read_u8()?;
        let mul_order = reader.read_u8()?;
        if fourcc != XAC_MAGIC {
            return Err(TosError::BadHeader);
        }
        if endian_type != 0 {
            return Err(TosError::UnsupportedEndianness);
        }
        self.header = XacHeader { fourcc, hi_version, lo_version, endian_type, mul_order };
        Ok(())
    }

    /// Decodes chunks until the end of the data: reads each chunk
    /// header, decodes or skips the payload, and always resumes at the
    /// chunk's declared end, whatever the payload decoder consumed.
    #[verifier::rlimit(80)]
    fn read_chunk(&mut self, reader: &mut BinaryReader) -> (res: Result<(), TosError>)
        requires
            old(reader).pos() <= old(reader).data().len(),
            old(self).chunk@.len() == 0,
            old(self).chunk_data@.len() == 0,
        ensures
            final(reader).data() == old(reader).data(),
            final(self).header == old(self).header,
            ({
                let d = old(reader).data();
                let s0 = old(reader).pos();
                match res {
                    Ok(()) => {
                        &&& chunks_decodable(d, s0, Map::empty())
                        &&& parsed_between(
                            d,
                            s0,
                            d.len() as int,
                            final(self).chunk@,
                            final(self).chunk_data@,
                            Map::empty(),
                        )
                    },
                    Err(e) => {
                        &&& e == TosError::IoError
                        &&& !chunks_decodable(d, s0, Map::empty())
                    },
                }
            }),
    {
        let ghost d = old(reader).data();
        let ghost s0 = old(reader).pos();
        while !reader.is_eof()
            invariant
                reader.pos() <= d.len(),
                reader.data() == d,
                d == old(reader).data(),
                s0 == old(reader).pos(),
                s0 <= reader.pos(),
                self.header == old(self).header,
                parsed_between(d, s0, reader.pos(), self.chunk@, self.chunk_data@, Map::empty()),
                chunks_decodable(d, s0, Map::empty()) <==> chunks_decodable(
                    d,
                    reader.pos(),
                    vm_at(d, s0, reader.pos(), Map::empty()),
                ),
            decreases d.len() - reader.pos(),
        {
            let ghost cur = reader.pos();
            let ghost vmcur = vm_at(d, s0, cur, Map::<u32, u32>::empty());
            let chunk_id = match reader.read_u32() {
                Ok(x) => x,
                Err(e) => {
                    return Err(e);
                },
            };
            let size_in_bytes = match reader.read_u32() {
                Ok(x) => x,
                Err(e) => {
                    return Err(e);
                },
            };
            let version = match reader.read_u32() {
                Ok(x) => x,
                Err(e) => {
                    return Err(e);
                },
            };
            let chunk = FileChunk { chunk_id, size_in_bytes, version };
            let position = reader.tell();
            proof {
                lemma_vm_values(d, s0, cur, self.chunk@, self.chunk_data@, Map::empty());
            }
            let ghost pre_data = self.chunk_data@;
            let ghost pre_chunks = self.chunk@;
            match self.process_chunk(&chunk, reader) {
                Ok(()) => {},
                Err(e) => {
                    return Err(e);
                },
            }
            let len = reader.file_size();
            let target: u64 = if chunk.size_in_bytes as u64 > len - position {
                len
            } else {
                position + chunk.size_in_bytes as u64
            };
            let seek_ok = reader.seek(SeekFrom::Start(target));
            proof {
                assert(seek_ok is Ok);
                assert(reader.pos() == resync_pos(d, cur + 12, chunk.size_in_bytes));
            }
            proof {
                let ghost xopt = if known_pair(chunk_id, version) {
                    Some(self.chunk_data@.last())
                } else {
                    None
                };
                if known_pair(chunk_id, version) {
                    assert(self.chunk_data@ == pre_data.push(self.chunk_data@.last()));
                }
                assert(chunk == chunk_header_at(d, cur));
                lemma_parsed_snoc(d, s0, cur, pre_chunks, pre_data, Map::empty(), xopt);
                lemma_vm_at_snoc(d, s0, cur, pre_chunks, pre_data, Map::empty());
            }
            self.chunk.push(chunk);
            proof {
                assert(self.chunk@ =~= pre_chunks.push(chunk_header_at(d, cur)));
            }
        }
        proof {
            assert(reader.pos() == d.len());
            assert(chunks_decodable(d, reader.pos(), vm_at(d, s0, reader.pos(), Map::empty())));
        }
        Ok(())
    }

    /// Decodes one chunk's payload by its (kind, version) pair. An
    /// unknown pair is skipped without touching the stream; a known one
    /// appends exactly one record. Never fatal to the whole decode
    /// except when the payload runs out of data.
    #[verifier::rlimit(80)]
    fn process_chunk(&mut self, chunk: &FileChunk, reader: &mut BinaryReader) -> (res: Result<
        (),
        TosError,
    >)
        requires
            old(reader).pos() <= old(reader).data().len(),
        ensures
            final(reader).data() == old(reader).data(),
            final(self).header == old(self).header,
            final(self).chunk@ == old(self).chunk@,
            ({
                let d = old(reader).data();
                let p = old(reader).pos();
                let vm = vm_fold(Map::<u32, u32>::empty(), old(self).chunk_data@);
                match res {
                    Ok(()) => {
                        if known_pair(chunk.chunk_id, chunk.version) {
                            &&& record_ok_at(d, p, chunk.chunk_id, chunk.version, vm)
                            &&& final(self).chunk_data@ == old(self).chunk_data@.push(
                                final(self).chunk_data@.last(),
                            )
                            &&& record_data_parsed(
                                final(self).chunk_data@.last(),
                                d,
                                p,
                                chunk.chunk_id,
                                chunk.version,
                                vm,
                            )
                        } else {
                            &&& final(self).chunk_data@ == old(self).chunk_data@
                            &&& final(reader).pos() == old(reader).pos()
                        }
                    },
                    Err(e) => {
                        &&& e == TosError::IoError
                        &&& known_pair(chunk.chunk_id, chunk.version)
                        &&& !record_ok_at(d, p, chunk.chunk_id, chunk.version, vm)
                        &&& final(self).chunk_data@ == old(self).chunk_data@
                    },
                }
            }),
    {
        let id = chunk.chunk_id;
        let ver = chunk.version;
        if id == 0 && ver == 1 {
            let m = read_xac_node(reader)?;
            self.chunk_data.push(XacChunkData::XacNode(m));
        } else if id == 0 && ver == 2 {
            let m = read_xac_node2(reader)?;
            self.chunk_data.push(XacChunkData::XacNode2(m));
        } else if id == 0 && ver == 3 {
            let m = read_xac_node3(reader)?;
            self.chunk_data.push(XacChunkData::XacNode3(m));
        } else if id == 0 && ver == 4 {
            let m = read_xac_node4(reader)?;
            self.chunk_data.push(XacChunkData::XacNode4(m));
        } else if id == 1 && ver == 1 {
            let m = read_xac_mesh(reader)?;
            self.chunk_data.push(XacChunkData::XACMesh(m));
        } else if id == 1 && ver == 2 {
            let m = read_xac_mesh2(reader)?;
            self.chunk_data.push(XacChunkData::XACMesh2(m));
        } else if id == 2 && ver == 1 {
            let m = read_xac_skinning_info(reader)?;
            self.chunk_data.push(XacChunkData::XacSkinningInfo(m));
        } else if id == 2 && (ver == 2 || ver == 3 || ver == 4) {
            let node_id = reader.read_u32()?;
            let back_ok = reader.skip_bytes(-4);
            proof {
                assert(back_ok is Ok);
                assert(reader.pos() == old(reader).pos());
            }
            let num_org_verts = find_num_org_verts(&self.chunk_data, node_id);
            if ver == 2 {
                let m = read_xac_skinning_info2(reader, num_org_verts)?;
                self.chunk_data.push(XacChunkData::XacSkinningInfo2(m));
            } else if ver == 3 {
                let m = read_xac_skinning_info3(reader, num_org_verts)?;
                self.chunk_data.push(XacChunkData::XacSkinningInfo3(m));
            } else {
                let m = read_xac_skinning_info4(reader, num_org_verts)?;
                self.chunk_data.push(XacChunkData::XacSkinningInfo4(m));
            }
        } else if id == 3 && ver == 1 {
            let m = read_xac_standard_material(reader)?;
            self.chunk_data.push(XacChunkData::XacStandardMaterial(m));
        } else if id == 3 && ver == 2 {
            let m = read_xac_standard_material2(reader)?;
            self.chunk_data.push(XacChunkData::XacStandardMaterial2(m));
        } else if id == 3 && ver == 3 {
            let m = read_xac_standard_material3(reader)?;
            self.chunk_data.push(XacChunkData::XacStandardMaterial3(m));
        } else if id == 4 && ver == 1 {
            let m = read_xac_standard_material_layer(reader)?;
            self.chunk_data.push(XacChunkData::XACStandardMaterialLayer(m));
        } else if id == 4 && ver == 2 {
            let m = read_xac_standard_material_layer2(reader)?;
            self.chunk_data.push(XacChunkData::XACStandardMaterialLayer2(m));
        } else if id == 5 && ver == 1 {
            let m = read_fx_material1(reader)?;
            self.chunk_data.push(XacChunkData::XACFXMaterial(m));
        } else if id == 5 && ver == 2 {
            let m = read_fx_material2(reader)?;
            self.chunk_data.push(XacChunkData::XACFXMaterial2(m));
        } else if id == 5 && ver == 3 {
            let m = read_fx_material3(reader)?;
            self.chunk_data.push(XacChunkData::XACFXMaterial3(m));
        } else if id == 6 && ver == 1 {
            let m = read_xac_limit(reader)?;
            self.chunk_data.push(XacChunkData::XACLimit(m));
        } else if id == 7 && ver == 1 {
            let m = read_xac_info(reader)?;
            self.chunk_data.push(XacChunkData::XacInfo(m));
        } else if id == 7 && ver == 2 {
            let m = read_xac_info2(reader)?;
            self.chunk_data.push(XacChunkData::XacInfo2(m));
        } else if id == 7 && ver == 3 {
            let m = read_xac_info3(reader)?;
            self.chunk_data.push(XacChunkData::XacInfo3(m));
        } else if id == 7 && ver == 4 {
            let m = read_xac_info4(reader)?;
            self.chunk_data.push(XacChunkData::XacInfo4(m));
        } else if id == 8 && ver == 1 {
            let m = read_xac_mesh_lod_level(reader)?;
            self.chunk_data.push(XacChunkData::XACMeshLodLevel(m));
        } else if id == 9 && ver == 1 {
            let m = read_xac_pmorph_target(reader)?;
            self.chunk_data.push(XacChunkData::XACPMorphTarget(m));
        } else if id == 10 && ver == 1 {
            let m = read_xac_node_group(reader)?;
            self.chunk_data.push(XacChunkData::XACNodeGroup(m));
        } else if id == 11 && ver == 1 {
            let m = read_xac_nodes(reader)?;
            self.chunk_data.push(XacChunkData::XACNodes(m));
        } else if id == 12 && ver == 1 {
            let m = read_xac_pmorph_targets(reader)?;
            self.chunk_data.push(XacChunkData::XACPMorphTargets(m));
        } else if id == 13 && ver == 1 {
            let m = read_xac_material_info(reader)?;
            self.chunk_data.push(XacChunkData::XACMaterialInfo(m));
        } else if id == 13 && ver == 2 {
            let m = read_xac_material_info2(reader)?;
            self.chunk_data.push(XacChunkData::XACMaterialInfo2(m));
        } else if id == 14 && ver == 1 {
            let m = read_xac_node_motion_sources(reader)?;
            self.chunk_data.push(XacChunkData::XACNodeMotionSources(m));
        } else if id == 15 && ver == 1 {
            let m = read_xac_attachment_nodes(reader)?;
            self.chunk_data.push(XacChunkData::XACAttachmentNodes(m));
        }
        Ok(())
    }
}

/// Law: frame resynchronization. Whatever a known chunk's record
/// decoder consumed, the stream continues exactly at the chunk's
/// declared end, `resync_pos`, and the rest of the stream decodes from
/// there: decoding never stalls on a record that read too little or
/// too much.
pub proof fn lemma_resync_to_declared_end(
    d: Seq<u8>,
    p: int,
    q: int,
    cs: Seq<FileChunk>,
    ds: Seq<XacChunkData>,
    vm: Map<u32, u32>,
)
    requires
        parsed_between(d, p, q, cs, ds, vm),
        p < q,
        known_pair(le32_at(d, p), le32_at(d, p + 8)),
    ensures
        cs[0] == chunk_header_at(d, p),
        record_data_parsed(ds[0], d, p + 12, le32_at(d, p), le32_at(d, p + 8), vm),
        parsed_between(
            d,
            resync_pos(d, p + 12, le32_at(d, p + 4)),
            q,
            cs.drop_first(),
            ds.drop_first(),
            vm_step(vm, d, p + 12, le32_at(d, p), le32_at(d, p + 8)),
        ),
{
}

/// Law: an unknown (kind, version) pair is skipped, not fatal. It
/// contributes no record, and the chunks after it decode exactly as
/// they would after any other chunk: from its declared end.
pub proof fn lemma_unknown_chunk_skipped(
    d: Seq<u8>,
    p: int,
    q: int,
    cs: Seq<FileChunk>,
    ds: Seq<XacChunkData>,
    vm: Map<u32, u32>,
)
    requires
        parsed_between(d, p, q, cs, ds, vm),
        p < q,
        !known_pair(le32_at(d, p), le32_at(d, p + 8)),
    ensures
        cs[0] == chunk_header_at(d, p),
        parsed_between(
            d,
            resync_pos(d, p + 12, le32_at(d, p + 4)),
            q,
            cs.drop_first(),
            ds,
            vm_step(vm, d, p + 12, le32_at(d, p), le32_at(d, p + 8)),
        ),
{
}

} // verus!
