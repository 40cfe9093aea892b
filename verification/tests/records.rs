use toslib::xac::{XACFile, XacChunkData};

fn le16(v: &mut Vec<u8>, x: u16) {
    v.extend_from_slice(&x.to_le_bytes());
}

fn le32(v: &mut Vec<u8>, x: u32) {
    v.extend_from_slice(&x.to_le_bytes());
}

fn f32le(v: &mut Vec<u8>, x: f32) {
    v.extend_from_slice(&x.to_bits().to_le_bytes());
}

fn lpstr(v: &mut Vec<u8>, s: &str) {
    le32(v, s.len() as u32);
    v.extend_from_slice(s.as_bytes());
}

fn one_chunk_model(id: u32, version: u32, payload: &[u8]) -> Vec<u8> {
    let mut v = Vec::new();
    v.extend_from_slice(b"XAC ");
    v.extend_from_slice(&[1, 0, 0, 0]);
    le32(&mut v, id);
    le32(&mut v, payload.len() as u32);
    le32(&mut v, version);
    v.extend_from_slice(payload);
    v
}

fn decode_one(id: u32, version: u32, payload: &[u8]) -> XacChunkData {
    let x = XACFile::load_from_bytes(one_chunk_model(id, version, payload)).unwrap();
    assert_eq!(x.chunk_data.len(), 1);
    x.chunk_data.into_iter().next().unwrap()
}

#[test]
fn node_record_first_shape() {
    let mut p = Vec::new();
    for i in 0..8 {
        f32le(&mut p, i as f32); // two quaternions
    }
    for i in 0..9 {
        f32le(&mut p, 10.0 + i as f32); // position, scale, shear
    }
    le32(&mut p, 3); // skeletal lods
    le32(&mut p, 0xFFFFFFFF); // parent
    lpstr(&mut p, "Bip01");
    match decode_one(0, 1, &p) {
        XacChunkData::XacNode(n) => {
            assert_eq!(f32::from_bits(n.local_quat.axis_x), 0.0);
            assert_eq!(f32::from_bits(n.scale_rot.axis_w), 7.0);
            assert_eq!(f32::from_bits(n.local_pos.axis_x), 10.0);
            assert_eq!(f32::from_bits(n.shear.axis_z), 18.0);
            assert_eq!(n.skeletal_lods, 3);
            assert_eq!(n.parent_index, 0xFFFFFFFF);
            assert_eq!(n.node_name, "Bip01");
        },
        _ => panic!("expected a first-shape node"),
    }
}

#[test]
fn node_record_fourth_shape() {
    let mut p = Vec::new();
    for i in 0..17 {
        f32le(&mut p, i as f32); // quats and vectors
    }
    le32(&mut p, 1); // skeletal lods
    le32(&mut p, 2); // motion lods
    le32(&mut p, 4); // parent
    le32(&mut p, 5); // children
    p.push(1); // flags
    for i in 0..16 {
        f32le(&mut p, i as f32); // bounding box
    }
    f32le(&mut p, 0.5); // importance
    p.extend_from_slice(&[0, 0, 0]);
    lpstr(&mut p, "Hand");
    match decode_one(0, 4, &p) {
        XacChunkData::XacNode4(n) => {
            assert_eq!(n.motion_lods, 2);
            assert_eq!(n.num_children, 5);
            assert_eq!(n.obb.len(), 16);
            assert_eq!(f32::from_bits(n.obb[15]), 15.0);
            assert_eq!(f32::from_bits(n.importance_factor), 0.5);
            assert_eq!(n.node_name, "Hand");
        },
        _ => panic!("expected a fourth-shape node"),
    }
}

#[test]
fn nodes_record_holds_a_run() {
    let mut p = Vec::new();
    le32(&mut p, 1); // one node
    le32(&mut p, 1); // one root
    for i in 0..17 {
        f32le(&mut p, i as f32);
    }
    le32(&mut p, 0);
    le32(&mut p, 0);
    le32(&mut p, 0);
    le32(&mut p, 0);
    p.push(0);
    for _ in 0..16 {
        f32le(&mut p, 0.0);
    }
    f32le(&mut p, 1.0);
    p.extend_from_slice(&[0, 0, 0]);
    lpstr(&mut p, "Root");
    match decode_one(11, 1, &p) {
        XacChunkData::XACNodes(n) => {
            assert_eq!(n.num_nodes, 1);
            assert_eq!(n.num_root_nodes, 1);
            assert_eq!(n.xac_node.len(), 1);
            assert_eq!(n.xac_node[0].node_name, "Root");
        },
        _ => panic!("expected a node run"),
    }
}

#[test]
fn limit_record() {
    let mut p = Vec::new();
    for i in 0..18 {
        f32le(&mut p, i as f32); // six vectors
    }
    p.extend_from_slice(&[1, 0, 1, 0, 1, 0, 1, 0, 1]); // flags
    le32(&mut p, 12); // node
    match decode_one(6, 1, &p) {
        XacChunkData::XACLimit(l) => {
            assert_eq!(f32::from_bits(l.translation_min.axis_x), 0.0);
            assert_eq!(f32::from_bits(l.scale_max.axis_z), 17.0);
            assert_eq!(l.limit_flags, [1, 0, 1, 0, 1, 0, 1, 0, 1]);
            assert_eq!(l.node_number, 12);
        },
        _ => panic!("expected a limit record"),
    }
}

#[test]
fn mesh_lod_level_record() {
    let mut p = Vec::new();
    le32(&mut p, 2);
    le32(&mut p, 4096);
    match decode_one(8, 1, &p) {
        XacChunkData::XACMeshLodLevel(l) => {
            assert_eq!(l.lod_level, 2);
            assert_eq!(l.size_in_bytes, 4096);
        },
        _ => panic!("expected a lod level"),
    }
}

#[test]
fn node_motion_sources_record() {
    let mut p = Vec::new();
    le32(&mut p, 3);
    le16(&mut p, 7);
    le16(&mut p, 8);
    le16(&mut p, 9);
    match decode_one(14, 1, &p) {
        XacChunkData::XACNodeMotionSources(m) => {
            assert_eq!(m.num_nodes, 3);
            assert_eq!(m.node_indices, vec![7, 8, 9]);
        },
        _ => panic!("expected motion sources"),
    }
}

#[test]
fn attachment_nodes_record() {
    let mut p = Vec::new();
    le32(&mut p, 2);
    le16(&mut p, 40);
    le16(&mut p, 41);
    match decode_one(15, 1, &p) {
        XacChunkData::XACAttachmentNodes(m) => {
            assert_eq!(m.attachment_indices, vec![40, 41]);
        },
        _ => panic!("expected attachment nodes"),
    }
}

#[test]
fn material_info_second_shape() {
    let mut p = Vec::new();
    le32(&mut p, 1); // lod
    le32(&mut p, 6);
    le32(&mut p, 4);
    le32(&mut p, 2);
    match decode_one(13, 2, &p) {
        XacChunkData::XACMaterialInfo2(m) => {
            assert_eq!(m.lod, 1);
            assert_eq!(m.num_total_materials, 6);
            assert_eq!(m.num_standard_materials, 4);
            assert_eq!(m.num_fx_materials, 2);
        },
        _ => panic!("expected second-shape material info"),
    }
}

#[test]
fn standalone_material_layer_records() {
    let mut p = Vec::new();
    for i in 0..6 {
        f32le(&mut p, i as f32);
    }
    le16(&mut p, 3); // parent material
    p.push(5); // map type
    p.push(0); // padding
    lpstr(&mut p, "bump.dds");
    match decode_one(4, 1, &p) {
        XacChunkData::XACStandardMaterialLayer(l) => {
            assert_eq!(l.material_number, 3);
            assert_eq!(l.map_type, 5);
            assert_eq!(l.texture_name, "bump.dds");
        },
        _ => panic!("expected a first-shape layer"),
    }
    // the second shape carries a blend mode in the padding byte's place
    let mut q = Vec::new();
    for i in 0..6 {
        f32le(&mut q, i as f32);
    }
    le16(&mut q, 0);
    q.push(2);
    q.push(7); // blend mode
    lpstr(&mut q, "spec.dds");
    match decode_one(4, 2, &q) {
        XacChunkData::XACStandardMaterialLayer2(l) => {
            assert_eq!(l.blend_mode, 7);
            assert_eq!(l.texture_name, "spec.dds");
        },
        _ => panic!("expected a second-shape layer"),
    }
}

#[test]
fn info_fourth_shape() {
    let mut p = Vec::new();
    le32(&mut p, 4); // lod count
    le32(&mut p, 1); // trajectory node
    le32(&mut p, 2); // motion extraction node
    p.push(9); // exporter high
    p.push(1); // exporter low
    f32le(&mut p, 0.25); // retarget root offset
    le16(&mut p, 0);
    lpstr(&mut p, "app");
    lpstr(&mut p, "file");
    lpstr(&mut p, "date");
    lpstr(&mut p, "name");
    match decode_one(7, 4, &p) {
        XacChunkData::XacInfo4(i) => {
            assert_eq!(i.num_lods, 4);
            assert_eq!(f32::from_bits(i.retarget_root_offset), 0.25);
            assert_eq!(i.actor_name, "name");
        },
        _ => panic!("expected fourth-shape info"),
    }
}

#[test]
fn skinning_first_shape() {
    let mut p = Vec::new();
    le32(&mut p, 5);
    p.push(1);
    p.extend_from_slice(&[0, 0, 0]);
    match decode_one(2, 1, &p) {
        XacChunkData::XacSkinningInfo(s) => {
            assert_eq!(s.node_index, 5);
            assert_eq!(s.is_for_collision_mesh, 1);
        },
        _ => panic!("expected first-shape skinning"),
    }
}

#[test]
fn skinning_second_shape_with_influences() {
    let mut v = Vec::new();
    v.extend_from_slice(b"XAC ");
    v.extend_from_slice(&[1, 0, 0, 0]);
    // a mesh with node 4 and two original vertices
    let mut mp = Vec::new();
    le32(&mut mp, 4);
    le32(&mut mp, 2);
    le32(&mut mp, 0);
    le32(&mut mp, 0);
    le32(&mut mp, 0);
    le32(&mut mp, 0);
    mp.push(0);
    mp.extend_from_slice(&[0, 0, 0]);
    le32(&mut v, 1);
    le32(&mut v, mp.len() as u32);
    le32(&mut v, 1);
    v.extend_from_slice(&mp);
    // the second-shape skinning record: three influences, two entries
    let mut sp = Vec::new();
    le32(&mut sp, 4); // node
    le32(&mut sp, 3); // total influences
    sp.push(0);
    sp.extend_from_slice(&[0, 0, 0]);
    for i in 0..3 {
        f32le(&mut sp, 0.25 * (i as f32 + 1.0));
        le32(&mut sp, 10 + i);
    }
    le32(&mut sp, 0); // entry 1: start
    le32(&mut sp, 2); // entry 1: count
    le32(&mut sp, 2); // entry 2: start
    le32(&mut sp, 1); // entry 2: count
    le32(&mut v, 2);
    le32(&mut v, sp.len() as u32);
    le32(&mut v, 2);
    v.extend_from_slice(&sp);
    let x = XACFile::load_from_bytes(v).unwrap();
    match &x.chunk_data[1] {
        XacChunkData::XacSkinningInfo2(s) => {
            assert_eq!(s.num_total_influences, 3);
            assert_eq!(s.skinning_influence.len(), 3);
            assert_eq!(f32::from_bits(s.skinning_influence[1].weight), 0.5);
            assert_eq!(s.skinning_influence[2].node_number, 12);
            assert_eq!(s.skinning_info_table_entry.len(), 2);
            assert_eq!(s.skinning_info_table_entry[1].start_index, 2);
        },
        _ => panic!("expected second-shape skinning"),
    }
}

#[test]
fn morph_target_with_deltas_and_transforms() {
    let mut p = Vec::new();
    f32le(&mut p, 0.0); // range min
    f32le(&mut p, 1.0); // range max
    le32(&mut p, 0); // lod
    le32(&mut p, 1); // one delta block
    le32(&mut p, 1); // one transform
    le32(&mut p, 0); // phoneme sets
    lpstr(&mut p, "smile");
    // the delta block: one vertex
    le32(&mut p, 3); // node
    f32le(&mut p, -1.0); // min
    f32le(&mut p, 1.0); // max
    le32(&mut p, 1); // one vertex
    le16(&mut p, 100);
    le16(&mut p, 200);
    le16(&mut p, 300);
    p.extend_from_slice(&[1, 2, 3]); // normal delta
    p.extend_from_slice(&[4, 5, 6]); // tangent delta
    le32(&mut p, 42); // vertex number
    // the transform
    le32(&mut p, 3); // node
    for i in 0..8 {
        f32le(&mut p, i as f32); // two quaternions
    }
    for i in 0..6 {
        f32le(&mut p, 20.0 + i as f32); // position and scale
    }
    match decode_one(9, 1, &p) {
        XacChunkData::XACPMorphTarget(t) => {
            assert_eq!(t.name, "smile");
            assert_eq!(t.morph_target_mesh_deltas.len(), 1);
            let d = &t.morph_target_mesh_deltas[0];
            assert_eq!(d.num_vertices, 1);
            assert_eq!(d.delta_position_values[0].axis_y, 200);
            assert_eq!(d.delta_normal_values[0].axis_z, 3);
            assert_eq!(d.delta_tangent_values[0].axis_x, 4);
            assert_eq!(d.vertex_numbers, vec![42]);
            assert_eq!(t.morph_target_transform.len(), 1);
            assert_eq!(t.morph_target_transform[0].node_index, 3);
            assert_eq!(f32::from_bits(t.morph_target_transform[0].position.axis_x), 20.0);
        },
        _ => panic!("expected a morph target"),
    }
}

#[test]
fn fx_material_third_shape_params() {
    let mut p = Vec::new();
    le32(&mut p, 2); // lod
    le32(&mut p, 1); // one int param
    le32(&mut p, 1); // one float param
    le32(&mut p, 0); // color
    le32(&mut p, 1); // one bool param
    le32(&mut p, 1); // one vector param
    le32(&mut p, 0); // bitmap
    lpstr(&mut p, "fx3");
    lpstr(&mut p, "e.fx");
    lpstr(&mut p, "t");
    // int param
    le32(&mut p, (-7i32) as u32);
    lpstr(&mut p, "count");
    // float param
    f32le(&mut p, 2.5);
    lpstr(&mut p, "power");
    // bool param
    p.push(1);
    lpstr(&mut p, "enabled");
    // vector param
    f32le(&mut p, 1.0);
    f32le(&mut p, 2.0);
    f32le(&mut p, 3.0);
    lpstr(&mut p, "dir");
    match decode_one(5, 3, &p) {
        XacChunkData::XACFXMaterial3(m) => {
            assert_eq!(m.lod, 2);
            let ints = m.xac_fx_int_parameter.as_ref().unwrap();
            assert_eq!(ints[0].value, -7);
            assert_eq!(ints[0].name, "count");
            let floats = m.xac_fx_float_parameter.as_ref().unwrap();
            assert_eq!(f32::from_bits(floats[0].value), 2.5);
            let bools = m.xac_fx_bool_parameter.as_ref().unwrap();
            assert_eq!(bools[0].value, 1);
            let vecs = m.xac_fx_vector3_parameter.as_ref().unwrap();
            assert_eq!(f32::from_bits(vecs[0].value.axis_z), 3.0);
            assert!(m.xac_fx_bitmap_parameter.is_none());
        },
        _ => panic!("expected a third-shape effect material"),
    }
}
