use toslib::errors::TosError;
use toslib::xac::{XACFile, XacChunkData};

fn le16(v: &mut Vec<u8>, x: u16) {
    v.extend_from_slice(&x.to_le_bytes());
}

fn le32(v: &mut Vec<u8>, x: u32) {
    v.extend_from_slice(&x.to_le_bytes());
}

fn lpstr(v: &mut Vec<u8>, s: &str) {
    le32(v, s.len() as u32);
    v.extend_from_slice(s.as_bytes());
}

fn header() -> Vec<u8> {
    let mut v = Vec::new();
    v.extend_from_slice(b"XAC ");
    v.push(1); // hi version
    v.push(0); // lo version
    v.push(0); // little-endian
    v.push(1); // multiplication order
    v
}

fn chunk(v: &mut Vec<u8>, id: u32, version: u32, payload: &[u8], declared: u32) {
    le32(v, id);
    le32(v, declared);
    le32(v, version);
    v.extend_from_slice(payload);
    // pad out to the declared size when the payload is shorter
    if (payload.len() as u32) < declared {
        v.extend(std::iter::repeat(0u8).take((declared - payload.len() as u32) as usize));
    }
}

fn material_info_payload(total: u32, std: u32, fx: u32) -> Vec<u8> {
    let mut p = Vec::new();
    le32(&mut p, total);
    le32(&mut p, std);
    le32(&mut p, fx);
    p
}

/// An empty first-shape mesh: node index and original-vertex count, no
/// layers, no submeshes.
fn mesh_payload(node: u32, num_org_verts: u32) -> Vec<u8> {
    let mut p = Vec::new();
    le32(&mut p, node);
    le32(&mut p, num_org_verts);
    le32(&mut p, 0); // total verts
    le32(&mut p, 0); // total indices
    le32(&mut p, 0); // submeshes
    le32(&mut p, 0); // layers
    p.push(0); // collision flag
    p.extend_from_slice(&[0, 0, 0]);
    p
}

fn skinning3_payload(node: u32, table_entries: u32) -> Vec<u8> {
    let mut p = Vec::new();
    le32(&mut p, node);
    le32(&mut p, 5); // local bones
    le32(&mut p, 0); // total influences
    p.push(0); // collision flag
    p.extend_from_slice(&[0, 0, 0]);
    for i in 0..table_entries {
        le32(&mut p, i); // start index
        le32(&mut p, 1); // element count
    }
    p
}

#[test]
fn model_bad_header_tag() {
    let mut v = header();
    v[0] = b'Z';
    match XACFile::load_from_bytes(v) {
        Err(TosError::BadHeader) => {},
        _ => panic!("expected BadHeader"),
    }
}

#[test]
fn model_big_endian_rejected() {
    let mut v = header();
    v[6] = 1;
    match XACFile::load_from_bytes(v) {
        Err(TosError::UnsupportedEndianness) => {},
        _ => panic!("expected UnsupportedEndianness"),
    }
}

#[test]
fn model_too_short() {
    match XACFile::load_from_bytes(b"XAC".to_vec()) {
        Err(TosError::IoError) => {},
        _ => panic!("expected IoError"),
    }
}

#[test]
fn model_header_fields() {
    let x = XACFile::load_from_bytes(header()).unwrap();
    assert_eq!(x.header.hi_version, 1);
    assert_eq!(x.header.lo_version, 0);
    assert_eq!(x.header.endian_type, 0);
    assert_eq!(x.header.mul_order, 1);
    assert_eq!(x.chunk.len(), 0);
    assert_eq!(x.chunk_data.len(), 0);
}

#[test]
fn chunk_resync_after_short_decode() {
    // the first chunk declares 4 bytes more than its decoder consumes;
    // the second chunk must still decode cleanly from the declared end
    let mut v = header();
    chunk(&mut v, 13, 1, &material_info_payload(3, 2, 1), 16);
    chunk(&mut v, 13, 1, &material_info_payload(7, 7, 0), 12);
    let x = XACFile::load_from_bytes(v).unwrap();
    assert_eq!(x.chunk.len(), 2);
    assert_eq!(x.chunk[0].size_in_bytes, 16);
    assert_eq!(x.chunk_data.len(), 2);
    match (&x.chunk_data[0], &x.chunk_data[1]) {
        (XacChunkData::XACMaterialInfo(a), XacChunkData::XACMaterialInfo(b)) => {
            assert_eq!(a.num_total_materials, 3);
            assert_eq!(a.num_standard_materials, 2);
            assert_eq!(a.num_fx_materials, 1);
            assert_eq!(b.num_total_materials, 7);
            assert_eq!(b.num_fx_materials, 0);
        },
        _ => panic!("expected two material info records"),
    }
}

#[test]
fn unknown_chunk_is_skipped() {
    let mut v = header();
    chunk(&mut v, 99, 1, &[1, 2, 3, 4, 5], 5);
    chunk(&mut v, 13, 1, &material_info_payload(4, 4, 0), 12);
    let x = XACFile::load_from_bytes(v).unwrap();
    assert_eq!(x.chunk.len(), 2);
    assert_eq!(x.chunk[0].chunk_id, 99);
    assert_eq!(x.chunk_data.len(), 1);
    match &x.chunk_data[0] {
        XacChunkData::XACMaterialInfo(a) => assert_eq!(a.num_total_materials, 4),
        _ => panic!("expected the known record only"),
    }
}

#[test]
fn unknown_version_is_skipped() {
    let mut v = header();
    chunk(&mut v, 13, 9, &material_info_payload(4, 4, 0), 12);
    let x = XACFile::load_from_bytes(v).unwrap();
    assert_eq!(x.chunk.len(), 1);
    assert_eq!(x.chunk_data.len(), 0);
}

#[test]
fn skinning_table_sized_by_matching_mesh() {
    // a mesh with node_index 7 and num_org_verts 3, then a third-shape
    // skinning record with node_index 7: its table gets 3 entries
    let mut v = header();
    let mp = mesh_payload(7, 3);
    let ml = mp.len() as u32;
    chunk(&mut v, 1, 1, &mp, ml);
    let sp = skinning3_payload(7, 3);
    let sl = sp.len() as u32;
    chunk(&mut v, 2, 3, &sp, sl);
    let x = XACFile::load_from_bytes(v).unwrap();
    assert_eq!(x.chunk_data.len(), 2);
    match &x.chunk_data[1] {
        XacChunkData::XacSkinningInfo3(s) => {
            assert_eq!(s.node_index, 7);
            assert_eq!(s.num_local_bones, 5);
            assert_eq!(s.skinning_influence.len(), 0);
            assert_eq!(s.skinning_info_table_entry.len(), 3);
            assert_eq!(s.skinning_info_table_entry[2].start_index, 2);
        },
        _ => panic!("expected a third-shape skinning record"),
    }
}

#[test]
fn skinning_without_matching_mesh_gets_empty_table() {
    let mut v = header();
    let mp = mesh_payload(9, 3); // different node index
    let ml = mp.len() as u32;
    chunk(&mut v, 1, 1, &mp, ml);
    let sp = skinning3_payload(7, 0);
    let sl = sp.len() as u32;
    chunk(&mut v, 2, 3, &sp, sl);
    let x = XACFile::load_from_bytes(v).unwrap();
    match &x.chunk_data[1] {
        XacChunkData::XacSkinningInfo3(s) => {
            assert_eq!(s.skinning_info_table_entry.len(), 0);
        },
        _ => panic!("expected a third-shape skinning record"),
    }
}

#[test]
fn info_record_strings() {
    let mut p = Vec::new();
    le32(&mut p, 0); // repositioning mask
    le32(&mut p, 2); // repositioning node
    p.push(3); // exporter high
    p.push(4); // exporter low
    le16(&mut p, 0); // padding
    lpstr(&mut p, "exporter");
    lpstr(&mut p, "source.max");
    lpstr(&mut p, "today");
    lpstr(&mut p, "actor");
    let pl = p.len() as u32;
    let mut v = header();
    chunk(&mut v, 7, 1, &p, pl);
    let x = XACFile::load_from_bytes(v).unwrap();
    match &x.chunk_data[0] {
        XacChunkData::XacInfo(i) => {
            assert_eq!(i.repositioning_node_index, 2);
            assert_eq!(i.exporter_high_version, 3);
            assert_eq!(i.source_app, "exporter");
            assert_eq!(i.original_filename, "source.max");
            assert_eq!(i.compilation_date, "today");
            assert_eq!(i.actor_name, "actor");
        },
        _ => panic!("expected an info record"),
    }
}

#[test]
fn truncated_known_record_is_fatal() {
    let mut v = header();
    // a material info chunk that claims 12 bytes but the data ends early
    le32(&mut v, 13);
    le32(&mut v, 12);
    le32(&mut v, 1);
    le32(&mut v, 5); // only 4 payload bytes present
    match XACFile::load_from_bytes(v) {
        Err(TosError::IoError) => {},
        _ => panic!("expected IoError"),
    }
}

#[test]
fn node_group_record() {
    let mut p = Vec::new();
    le16(&mut p, 2); // two nodes
    p.push(1); // disabled by default
    lpstr(&mut p, "group");
    le16(&mut p, 10);
    le16(&mut p, 20);
    let pl = p.len() as u32;
    let mut v = header();
    chunk(&mut v, 10, 1, &p, pl);
    let x = XACFile::load_from_bytes(v).unwrap();
    match &x.chunk_data[0] {
        XacChunkData::XACNodeGroup(g) => {
            assert_eq!(g.num_nodes, 2);
            assert_eq!(g.disabled_on_default, 1);
            assert_eq!(g.name, "group");
            assert_eq!(g.data, vec![10, 20]);
        },
        _ => panic!("expected a node group"),
    }
}

#[test]
fn morph_target_collection_nesting() {
    // a collection of two childless collections
    let mut p = Vec::new();
    le32(&mut p, 2); // two children
    le32(&mut p, 0); // lod
    le32(&mut p, 0); // child 1: no grandchildren
    le32(&mut p, 5);
    le32(&mut p, 0); // child 2
    le32(&mut p, 6);
    let pl = p.len() as u32;
    let mut v = header();
    chunk(&mut v, 12, 1, &p, pl);
    let x = XACFile::load_from_bytes(v).unwrap();
    match &x.chunk_data[0] {
        XacChunkData::XACPMorphTargets(t) => {
            assert_eq!(t.num_morph_targets, 2);
            assert_eq!(t.morph_targets.len(), 2);
            assert_eq!(t.morph_targets[0].lod, 5);
            assert_eq!(t.morph_targets[1].lod, 6);
        },
        _ => panic!("expected a morph target collection"),
    }
}
