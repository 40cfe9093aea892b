use toslib::errors::TosError;
use toslib::xac::{XACFile, XACMesh, XACSubMesh, XACVertexAttributeLayer, XacChunkData, XacHeader,
    XacStandardMaterial, FileColor};
use toslib::assemble::{ATTRIB_POSITIONS, ATTRIB_UVCOORDS};

fn f32_rows(vals: &[f32]) -> Vec<u8> {
    let mut v = Vec::new();
    for x in vals {
        v.extend_from_slice(&x.to_le_bytes());
    }
    v
}

fn layer(kind: u32, width: u32, data: Vec<u8>) -> XACVertexAttributeLayer {
    XACVertexAttributeLayer {
        layer_type_id: kind,
        attrib_size_in_bytes: width,
        enable_deformations: 0,
        is_scale: 0,
        padding: [0, 0],
        mesh_data: data,
    }
}

fn submesh(num_verts: u32, material_index: u32) -> XACSubMesh {
    XACSubMesh {
        num_indices: 0,
        num_verts,
        material_index,
        num_bones: 0,
        indices: Vec::new(),
        bones: Vec::new(),
    }
}

fn mesh(layers: Vec<XACVertexAttributeLayer>, subs: Vec<XACSubMesh>) -> XACMesh {
    let total: u32 = subs.iter().map(|s| s.num_verts).sum();
    XACMesh {
        node_index: 0,
        num_org_verts: total,
        total_verts: total,
        total_indices: 0,
        num_sub_meshes: subs.len() as u32,
        num_layers: layers.len() as u32,
        is_collision_mesh: 0,
        padding: [0, 0, 0],
        vertex_attribute_layer: layers,
        sub_meshes: subs,
    }
}

fn color_zero() -> FileColor {
    FileColor { color_red: 0, color_green: 0, color_blue: 0, color_alpha: 0 }
}

fn std_material(name: &str) -> XacChunkData {
    XacChunkData::XacStandardMaterial(XacStandardMaterial {
        ambient: color_zero(),
        diffuse: color_zero(),
        specular: color_zero(),
        emissive: color_zero(),
        shine: 0,
        shine_strength: 0,
        opacity: 0,
        ior: 0,
        double_sided: 0,
        wireframe: 0,
        transparency_type: 0,
        padding: 0,
        material_name: name.to_string(),
    })
}

fn bare_file(chunk_data: Vec<XacChunkData>) -> XACFile {
    XACFile {
        header: XacHeader {
            fourcc: 0x20434158,
            hi_version: 1,
            lo_version: 0,
            endian_type: 0,
            mul_order: 0,
        },
        chunk: Vec::new(),
        chunk_data,
    }
}

#[test]
fn position_row_negates_x_and_uv_passes_through() {
    let m = mesh(
        vec![
            layer(ATTRIB_POSITIONS, 12, f32_rows(&[1.0, 2.0, 3.0])),
            layer(ATTRIB_UVCOORDS, 8, f32_rows(&[0.25, 0.5])),
        ],
        vec![submesh(1, 0)],
    );
    let file = bare_file(Vec::new());
    let out = file.export_to_struct(&m).unwrap();
    assert_eq!(out.submesh_count, 1);
    let sm = &out.submeshes[0];
    assert_eq!(sm.position_count, 1);
    let p = sm.positions[0];
    assert_eq!(f32::from_bits(p.x), -1.0);
    assert_eq!(f32::from_bits(p.y), 2.0);
    assert_eq!(f32::from_bits(p.z), 3.0);
    assert_eq!(sm.uvcoord_count, 1);
    let uv = sm.uvcoords[0];
    assert_eq!(f32::from_bits(uv.u), 0.25);
    assert_eq!(f32::from_bits(uv.v), 0.5);
}

#[test]
fn second_submesh_sliced_from_row_five() {
    // 8 position rows; row i has x = i
    let mut vals = Vec::new();
    for i in 0..8 {
        vals.push(i as f32);
        vals.push(0.0);
        vals.push(0.0);
    }
    let m = mesh(
        vec![layer(ATTRIB_POSITIONS, 12, f32_rows(&vals))],
        vec![submesh(5, 0), submesh(3, 0)],
    );
    let file = bare_file(Vec::new());
    let out = file.export_to_struct(&m).unwrap();
    assert_eq!(out.submesh_count, 2);
    assert_eq!(out.submeshes[0].position_count, 5);
    assert_eq!(out.submeshes[1].position_count, 3);
    // submesh 2 is rows [5, 8), not [0, 3)
    assert_eq!(f32::from_bits(out.submeshes[1].positions[0].x), -5.0);
    assert_eq!(f32::from_bits(out.submeshes[1].positions[2].x), -7.0);
    assert_eq!(f32::from_bits(out.submeshes[0].positions[4].x), -4.0);
}

#[test]
fn short_buffer_fails_with_truncated_attribute() {
    // 2 rows of positions but 3 vertices requested
    let m = mesh(
        vec![layer(ATTRIB_POSITIONS, 12, f32_rows(&[1.0, 0.0, 0.0, 2.0, 0.0, 0.0]))],
        vec![submesh(3, 0)],
    );
    let file = bare_file(Vec::new());
    match file.export_to_struct(&m) {
        Err(TosError::TruncatedAttributeBuffer { layer_type, submesh_index }) => {
            assert_eq!(layer_type, ATTRIB_POSITIONS);
            assert_eq!(submesh_index, 0);
        },
        _ => panic!("expected TruncatedAttributeBuffer"),
    }
}

#[test]
fn truncation_reports_failing_submesh() {
    // first submesh fits, the second runs past the buffer
    let mut vals = Vec::new();
    for i in 0..3 {
        vals.push(i as f32);
        vals.push(0.0);
        vals.push(0.0);
    }
    let m = mesh(
        vec![layer(ATTRIB_POSITIONS, 12, f32_rows(&vals))],
        vec![submesh(2, 0), submesh(2, 0)],
    );
    let file = bare_file(Vec::new());
    match file.export_to_struct(&m) {
        Err(TosError::TruncatedAttributeBuffer { layer_type, submesh_index }) => {
            assert_eq!(layer_type, ATTRIB_POSITIONS);
            assert_eq!(submesh_index, 1);
        },
        _ => panic!("expected TruncatedAttributeBuffer"),
    }
}

#[test]
fn texture_name_resolution() {
    let file = bare_file(vec![std_material("mat0.dds"), std_material("mat1.dds")]);
    // material index 1 picks the second table entry; 0 and out-of-range
    // give the empty name
    let m = mesh(
        vec![layer(ATTRIB_POSITIONS, 12, f32_rows(&[0.0; 9]))],
        vec![submesh(1, 1), submesh(1, 0), submesh(1, 7)],
    );
    let out = file.export_to_struct(&m).unwrap();
    assert_eq!(out.submeshes[0].texture_name, "mat1.dds");
    assert_eq!(out.submeshes[1].texture_name, "");
    assert_eq!(out.submeshes[2].texture_name, "");
}

#[test]
fn empty_submesh_still_appended() {
    let m = mesh(Vec::new(), vec![submesh(4, 0)]);
    let file = bare_file(Vec::new());
    let out = file.export_to_struct(&m).unwrap();
    assert_eq!(out.submesh_count, 1);
    assert_eq!(out.submeshes[0].position_count, 0);
    assert_eq!(out.submeshes[0].uvcoord_count, 0);
}

#[test]
fn export_all_meshes_collects_every_mesh_chunk() {
    let m1 = mesh(
        vec![layer(ATTRIB_POSITIONS, 12, f32_rows(&[1.0, 2.0, 3.0]))],
        vec![submesh(1, 0)],
    );
    let m2 = mesh(
        vec![layer(ATTRIB_POSITIONS, 12, f32_rows(&[4.0, 5.0, 6.0]))],
        vec![submesh(1, 0)],
    );
    let file = bare_file(vec![
        std_material("m.dds"),
        XacChunkData::XACMesh(m1),
        XacChunkData::XACMesh(m2),
    ]);
    let out = file.export_all_meshes_into_struct().unwrap();
    assert_eq!(out.len(), 2);
    assert_eq!(f32::from_bits(out[0].submeshes[0].positions[0].x), -1.0);
    assert_eq!(f32::from_bits(out[1].submeshes[0].positions[0].x), -4.0);
}

#[test]
fn export_all_meshes_propagates_first_error() {
    let good = mesh(
        vec![layer(ATTRIB_POSITIONS, 12, f32_rows(&[1.0, 2.0, 3.0]))],
        vec![submesh(1, 0)],
    );
    let bad = mesh(
        vec![layer(ATTRIB_POSITIONS, 12, f32_rows(&[1.0]))],
        vec![submesh(2, 0)],
    );
    let file = bare_file(vec![XacChunkData::XACMesh(good), XacChunkData::XACMesh(bad)]);
    match file.export_all_meshes_into_struct() {
        Err(TosError::TruncatedAttributeBuffer { .. }) => {},
        _ => panic!("expected TruncatedAttributeBuffer"),
    }
}
