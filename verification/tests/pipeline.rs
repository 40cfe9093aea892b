use std::io::Write;
use toslib::cipher;
use toslib::ipf::IPFFile;
use toslib::stream::BinaryReader;
use toslib::xac::{XACFile, XacChunkData};

fn le16(v: &mut Vec<u8>, x: u16) {
    v.extend_from_slice(&x.to_le_bytes());
}

fn le32(v: &mut Vec<u8>, x: u32) {
    v.extend_from_slice(&x.to_le_bytes());
}

fn f32le(v: &mut Vec<u8>, x: f32) {
    v.extend_from_slice(&x.to_bits().to_le_bytes());
}

fn lpstr(v: &mut Vec<u8>, s: &str) {
    le32(v, s.len() as u32);
    v.extend_from_slice(s.as_bytes());
}

fn chunk(v: &mut Vec<u8>, id: u32, version: u32, payload: &[u8]) {
    le32(v, id);
    le32(v, payload.len() as u32);
    le32(v, version);
    v.extend_from_slice(payload);
}

/// A standard material record (second shape) with one texture layer.
fn material2_payload(name: &str, texture: &str) -> Vec<u8> {
    let mut p = Vec::new();
    for _ in 0..16 {
        f32le(&mut p, 0.0); // the four colors
    }
    f32le(&mut p, 1.0); // shine
    f32le(&mut p, 1.0); // shine strength
    f32le(&mut p, 1.0); // opacity
    f32le(&mut p, 1.5); // index of refraction
    p.push(0); // double sided
    p.push(0); // wireframe
    p.push(b'F'); // transparency type
    p.push(1); // one layer
    lpstr(&mut p, name);
    // the layer
    for _ in 0..6 {
        f32le(&mut p, 0.0); // amount, offsets, tilings, rotation
    }
    le16(&mut p, 0); // parent material
    p.push(2); // map type
    p.push(0); // blend mode
    lpstr(&mut p, texture);
    p
}

/// An effect material (first shape) with two bitmap parameters.
fn fx_material_payload() -> Vec<u8> {
    let mut p = Vec::new();
    le32(&mut p, 0); // int params
    le32(&mut p, 0); // float params
    le32(&mut p, 0); // color params
    le32(&mut p, 2); // bitmap params
    lpstr(&mut p, "fx");
    lpstr(&mut p, "shader.fx");
    lpstr(&mut p, "main");
    lpstr(&mut p, "diffuseMap");
    lpstr(&mut p, "tex_a.dds");
    lpstr(&mut p, "normalMap");
    lpstr(&mut p, "tex_b.dds");
    p
}

/// A first-shape mesh: one position layer over two vertices and one
/// submesh that spans both.
fn mesh_with_positions(material_index: u32) -> Vec<u8> {
    let mut p = Vec::new();
    le32(&mut p, 1); // node index
    le32(&mut p, 2); // original vertices
    le32(&mut p, 2); // total vertices
    le32(&mut p, 0); // total indices
    le32(&mut p, 1); // one submesh
    le32(&mut p, 1); // one layer
    p.push(0);
    p.extend_from_slice(&[0, 0, 0]);
    // the layer: positions, 12 bytes per vertex
    le32(&mut p, 0); // kind
    le32(&mut p, 12); // width
    p.push(0);
    p.push(0);
    p.extend_from_slice(&[0, 0]);
    f32le(&mut p, 1.5);
    f32le(&mut p, 2.5);
    f32le(&mut p, 3.5);
    f32le(&mut p, -4.0);
    f32le(&mut p, 5.0);
    f32le(&mut p, 6.0);
    // the submesh
    le32(&mut p, 0); // indices
    le32(&mut p, 2); // vertices
    le32(&mut p, material_index);
    le32(&mut p, 0); // bones
    p
}

fn model_bytes() -> Vec<u8> {
    let mut v = Vec::new();
    v.extend_from_slice(b"XAC ");
    v.extend_from_slice(&[1, 0, 0, 0]);
    chunk(&mut v, 3, 2, &material2_payload("skin.dds", "skin_diffuse.dds"));
    chunk(&mut v, 5, 1, &fx_material_payload());
    chunk(&mut v, 1, 1, &mesh_with_positions(1));
    v
}

#[test]
fn material_with_layer_decodes() {
    let x = XACFile::load_from_bytes(model_bytes()).unwrap();
    match &x.chunk_data[0] {
        XacChunkData::XacStandardMaterial2(m) => {
            assert_eq!(m.material_name, "skin.dds");
            assert_eq!(m.num_layers, 1);
            assert_eq!(m.standard_material_layer2.len(), 1);
            assert_eq!(m.standard_material_layer2[0].texture_name, "skin_diffuse.dds");
            assert_eq!(m.standard_material_layer2[0].map_type, 2);
            assert_eq!(f32::from_bits(m.opacity), 1.0);
        },
        _ => panic!("expected a second-shape standard material"),
    }
}

#[test]
fn fx_material_bitmaps_decode() {
    let x = XACFile::load_from_bytes(model_bytes()).unwrap();
    match &x.chunk_data[1] {
        XacChunkData::XACFXMaterial(m) => {
            assert_eq!(m.name, "fx");
            assert_eq!(m.effect_file, "shader.fx");
            assert_eq!(m.shader_technique, "main");
            assert!(m.xac_fx_int_parameter.is_none());
            let bitmaps = m.xac_fx_bitmap_parameter.as_ref().unwrap();
            assert_eq!(bitmaps.len(), 2);
            assert_eq!(bitmaps[0].name, "diffuseMap");
            assert_eq!(bitmaps[0].value_name, "tex_a.dds");
            assert_eq!(bitmaps[1].value_name, "tex_b.dds");
        },
        _ => panic!("expected an effect material"),
    }
}

#[test]
fn decoded_mesh_assembles_with_material_table() {
    let x = XACFile::load_from_bytes(model_bytes()).unwrap();
    let meshes = x.export_all_meshes_into_struct().unwrap();
    assert_eq!(meshes.len(), 1);
    let sm = &meshes[0].submeshes[0];
    // the table is [skin.dds, tex_a.dds, tex_b.dds]; index 1 picks
    // the first effect bitmap
    assert_eq!(sm.texture_name, "tex_a.dds");
    assert_eq!(sm.position_count, 2);
    assert_eq!(f32::from_bits(sm.positions[0].x), -1.5);
    assert_eq!(f32::from_bits(sm.positions[0].y), 2.5);
    assert_eq!(f32::from_bits(sm.positions[1].x), 4.0);
    assert_eq!(f32::from_bits(sm.positions[1].z), 6.0);
}

#[test]
fn archive_to_geometry_round_trip() {
    // pack the model into an archive, then run the whole pipeline:
    // open, extract, decode, assemble
    let model = model_bytes();
    let mut enc = flate2::write::DeflateEncoder::new(Vec::new(), flate2::Compression::default());
    enc.write_all(&model).unwrap();
    let mut stored = enc.finish().unwrap();
    cipher::encrypt_bytes(&mut stored);

    let mut data = Vec::new();
    data.extend_from_slice(&stored);
    let table_offset = data.len() as u32;
    let path = b"char/model.xac";
    le16(&mut data, path.len() as u16);
    le32(&mut data, 0);
    le32(&mut data, stored.len() as u32);
    le32(&mut data, model.len() as u32);
    le32(&mut data, 0);
    le16(&mut data, 3);
    data.extend_from_slice(b"c.i");
    data.extend_from_slice(path);
    le16(&mut data, 1);
    le32(&mut data, table_offset);
    le16(&mut data, 0);
    le32(&mut data, 0);
    le32(&mut data, 0x6054B50);
    le32(&mut data, 0);
    le32(&mut data, 0);

    let mut reader = BinaryReader::new(data);
    let ipf = IPFFile::load_from_reader(&mut reader).unwrap();
    assert_eq!(ipf.file_table()[0].directory_name(), "char/model.xac");
    let raw = ipf.file_table()[0].extract(&mut reader).unwrap();
    assert_eq!(raw, model);
    let x = XACFile::load_from_bytes(raw).unwrap();
    let meshes = x.export_all_meshes_into_struct().unwrap();
    assert_eq!(meshes.len(), 1);
    assert_eq!(f32::from_bits(meshes[0].submeshes[0].positions[0].x), -1.5);
}
