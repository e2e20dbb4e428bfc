use cem::cem as legacy;
use cem::collider::Aabb;
use cem::math::{Matrix4, Point3, Vector4};
use cem::types::{Mat4, Pos2, Pos3};
use cem::v1;
use cem::v5;
use cem::{Decode, Encode, Error, ErrorKind, Model, NodeData, Scene, V1, V5};

fn le(values: &[u32]) -> Vec<u8> {
    let mut out = Vec::new();
    for v in values {
        out.extend_from_slice(&v.to_le_bytes());
    }
    out
}

fn text(s: &str) -> Vec<u8> {
    let mut out = le(&[s.len() as u32 + 1]);
    out.extend_from_slice(s.as_bytes());
    out.push(0);
    out
}

fn matrix_wire() -> Vec<u32> {
    (200..216).collect()
}

fn v1_vertex(base: u32) -> (Vec<u8>, v1::Vertex) {
    let wire: Vec<u32> = (base..base + 10).collect();
    let v = v1::Vertex {
        unknown0: base,
        uv: (base + 1, base + 2),
        rgb: (base + 3, base + 4, base + 5),
        unknown1: [base + 6, base + 7, base + 8, base + 9],
    };
    (le(&wire), v)
}

fn v1_body(flag: u8) -> Vec<u8> {
    // frames, materials, vertex points, triangles, groups, vertices, tag points, children
    let mut b = le(&[1, 1, 2, 1, 1, 3, 1, 4]);
    b.extend(text("old"));
    b.extend(le(&[1, 2, 3]));
    b.push(0x7E);
    b.extend(le(&[11, 12]));
    b.extend(v1_vertex(100).0);
    b.extend(v1_vertex(200).0);
    b.extend(v1_vertex(300).0);
    b.extend(text("group"));
    b.extend(le(&[2, 0, 1]));
    b.extend(le(&[1, 5]));
    b.push(flag);
    if flag == 1 {
        b.extend(text("skin"));
        b.extend(le(&[77]));
    }
    b.extend(le(&[0, 60, 1, 61, 1, 62]));
    b.extend(text("tag"));
    b.extend(le(&[90]));
    b.extend(le(&[1, 2, 3, 4, 5, 6]));
    b.extend([1u8, 0, 2, 0, 3, 0]);
    b.extend(le(&[7, 8, 9]));
    b.extend(le(&matrix_wire()));
    b.extend(le(&[21, 22, 23, 24, 25, 26]));
    b
}

#[test]
fn a_model_of_revision_1_is_read_section_by_section() {
    let body = v1_body(1);
    let ((m, node), end) = V1::read(&body, 0).unwrap();
    assert_eq!(end, body.len());
    assert_eq!(node.name, "old");
    assert_eq!(node.additional_models, 4);
    assert_eq!(
        m.quantities,
        v1::Quantities {
            frames: 1,
            materials: 1,
            vertex_points: 2,
            triangles: 1,
            triangle_groups: 1,
            vertices: 3,
            tag_points: 1,
            additional_models: 4,
        }
    );
    assert_eq!(m.center, Point3 { x: 1, y: 2, z: 3 });
    assert_eq!(m.unknown, 0x7E);
    assert_eq!(m.points, vec![11, 12]);
    assert_eq!(m.triangles, vec![(v1_vertex(100).1, v1_vertex(200).1, v1_vertex(300).1)]);
    assert_eq!(m.triangle_groups.len(), 1);
    assert_eq!(m.triangle_groups[0].name, "group");
    assert_eq!(m.triangle_groups[0].indices, vec![0, 1]);
    assert_eq!(m.materials.len(), 1);
    assert_eq!(m.materials[0].indices, vec![5]);
    assert_eq!(m.materials[0].texture, Some(("skin".to_string(), 77)));
    assert_eq!(m.vertices, vec![(0, 60), (1, 61), (1, 62)]);
    assert_eq!(m.tag_points, vec!["tag".to_string()]);
    assert_eq!(m.frames.len(), 1);
    let f = &m.frames[0];
    assert_eq!(f.radius, 90);
    assert_eq!(f.points, vec![Point3 { x: 1, y: 2, z: 3 }, Point3 { x: 4, y: 5, z: 6 }]);
    assert_eq!(f.normals, vec![1, 2, 3]);
    assert_eq!(f.tag_points, vec![Point3 { x: 7, y: 8, z: 9 }]);
    assert_eq!(f.transform.x, Vector4 { x: 200, y: 204, z: 208, w: 212 });
    assert_eq!(f.transform.w, Vector4 { x: 203, y: 207, z: 211, w: 215 });
    assert_eq!(
        f.bound,
        Aabb { lower: Point3 { x: 21, y: 22, z: 23 }, upper: Point3 { x: 24, y: 25, z: 26 } }
    );
}

#[test]
fn a_material_without_a_texture_has_none() {
    let body = v1_body(0);
    let ((m, _), end) = V1::read(&body, 0).unwrap();
    assert_eq!(end, body.len());
    assert_eq!(m.materials[0].texture, None);
    let mut data = le(&[0]);
    data.push(0);
    let (m, end) = v1::Material::read(&data, 0).unwrap();
    assert_eq!(end, 5);
    assert!(m.indices.is_empty());
    assert_eq!(m.texture, None);
}

#[test]
fn a_flag_byte_other_than_0_or_1_is_a_violation() {
    for flag in [2u8, 3, 0x80, 0xFF] {
        assert_eq!(V1::read(&v1_body(flag), 0).err(), Some(Error::InvalidBool(flag)));
        let mut data = le(&[0]);
        data.push(flag);
        data.extend(text("skin"));
        data.extend(le(&[1]));
        assert_eq!(v1::Material::read(&data, 0).err(), Some(Error::InvalidBool(flag)));
    }
    assert_eq!(Error::InvalidBool(2).kind(), ErrorKind::Violation);
}

#[test]
fn a_truncated_model_of_revision_1_is_a_transport_failure() {
    let body = v1_body(1);
    for cut in [0, 31, 32, 50, body.len() - 25, body.len() - 1] {
        assert_eq!(V1::read(&body[..cut], 0).err(), Some(Error::UnexpectedEof));
    }
}

#[test]
fn a_frame_of_revision_1_is_read_with_the_counts() {
    let q = v1::Quantities {
        frames: 1,
        materials: 0,
        vertex_points: 1,
        triangles: 0,
        triangle_groups: 0,
        vertices: 2,
        tag_points: 0,
        additional_models: 0,
    };
    let mut data = le(&[5, 1, 2, 3]);
    data.extend([9u8, 0, 8, 0]);
    data.extend(le(&matrix_wire()));
    data.extend(le(&[1, 1, 1, 2, 2, 2]));
    let (f, end) = v1::Frame::read(&data, 0, &q).unwrap();
    assert_eq!(end, data.len());
    assert_eq!(f.radius, 5);
    assert_eq!(f.points, vec![Point3 { x: 1, y: 2, z: 3 }]);
    assert_eq!(f.normals, vec![9, 8]);
    assert!(f.tag_points.is_empty());
}

fn v5_prefix(frames: u32, points: u32) -> Vec<u8> {
    // unknown0, unknown1, tag points, materials, frames, children, lod levels, points
    let mut b = le(&[70, 71, 1, 1, frames, 2, 1, points]);
    b.extend(text("new"));
    b.extend(le(&[1, 2, 3]));
    b.extend(le(&[1]));
    b.extend(le(&(500..516).collect::<Vec<u32>>()));
    b.extend((-2i32).to_le_bytes());
    b.extend(le(&[2]));
    b.extend([1u8, 0, 2, 0, 3, 0, 4, 0, 5, 0, 6, 0]);
    b.extend(text("mat"));
    b.extend(le(&[3, 0, 2, 0, 9]));
    b.extend(text("tex"));
    b.extend(text("tag"));
    b
}

#[test]
fn a_model_of_revision_5_without_frames_is_read() {
    let mut body = v5_prefix(0, 2);
    body.extend(le(&[1, 2, 3, 4, 5, 6]));
    body.extend(le(&[0]));
    let ((m, node), end) = V5::read(&body, 0).unwrap();
    assert_eq!(end, body.len());
    assert_eq!(node.name, "new");
    assert_eq!(node.additional_models, 2);
    assert_eq!(
        m.quantities,
        v5::Quantities {
            unknown0: 70,
            unknown1: 71,
            tag_points: 1,
            materials: 1,
            frames: 0,
            additional_models: 2,
            lod_levels: 1,
            points: 2,
        }
    );
    assert_eq!(m.center, Point3 { x: 1, y: 2, z: 3 });
    assert_eq!(m.common_vertices.len(), 1);
    assert_eq!(m.common_vertices[0].unknown0[0], 500);
    assert_eq!(m.common_vertices[0].unknown0[15], 515);
    assert_eq!(m.common_vertices[0].unknown1, -2);
    assert_eq!(m.lod_levels, vec![vec![(1u16, 2u16, 3u16), (4, 5, 6)]]);
    assert_eq!(m.materials.len(), 1);
    assert_eq!(m.materials[0].name, "mat");
    assert_eq!(m.materials[0].triangles.len(), 1);
    assert_eq!(m.materials[0].vertex_count, 9);
    assert_eq!(m.tag_points, vec!["tag".to_string()]);
    assert!(m.frames.is_empty());
    assert_eq!(m.points, vec![Point3 { x: 1, y: 2, z: 3 }, Point3 { x: 4, y: 5, z: 6 }]);
    assert!(m.shadow.is_empty());
    assert_eq!(m.quantities(8).unwrap().additional_models, 8);
    assert_eq!(m.quantities(8).unwrap().points, 2);
}

#[test]
fn a_frame_of_revision_5_is_not_understood() {
    let mut body = v5_prefix(1, 0);
    body.extend(le(&[0; 64]));
    assert_eq!(V5::read(&body, 0).err(), Some(Error::Unimplemented));
    assert_eq!(v5::Frame::read(&body, 0).err(), Some(Error::Unimplemented));
    assert_eq!(Error::Unimplemented.kind(), ErrorKind::Unimplemented);
}

#[test]
fn a_shadow_edge_is_not_understood() {
    let mut body = v5_prefix(0, 0);
    body.extend(le(&[1, 5]));
    body.extend([1u8, 0, 2, 0, 3, 0, 4, 0]);
    assert_eq!(V5::read(&body, 0).err(), Some(Error::Unimplemented));
    assert_eq!(v5::ShadowEdge::read(&body, 0), Err(Error::Unimplemented));
    assert_eq!(v5::ShadowEdge::read(&[], 0), Err(Error::Unimplemented));
}

#[test]
fn an_earlier_failure_comes_before_the_frames() {
    let body = v5_prefix(1, 0);
    assert_eq!(V5::read(&body[..body.len() - 1], 0).err(), Some(Error::UnexpectedEof));
    assert_eq!(V5::read(&body, 0).err(), Some(Error::Unimplemented));
}

#[test]
fn revision_5_cannot_be_written() {
    let mut body = v5_prefix(0, 0);
    body.extend(le(&[0]));
    let ((m, node), _) = V5::read(&body, 0).unwrap();
    let mut out = vec![4u8, 2];
    assert_eq!(m.write(&mut out, node), Err(Error::Unimplemented));
    assert_eq!(out, vec![4, 2]);
    let mut out = Vec::new();
    assert_eq!(Scene::root(m).write(&mut out), Err(Error::Unimplemented));
    assert!(out.is_empty());
}

#[test]
fn the_counts_of_revision_5_come_back() {
    let q = v5::Quantities {
        unknown0: 1,
        unknown1: 2,
        tag_points: 3,
        materials: 4,
        frames: 5,
        additional_models: 6,
        lod_levels: 7,
        points: 8,
    };
    let mut out = Vec::new();
    q.write(&mut out).unwrap();
    assert_eq!(out, le(&[1, 2, 3, 4, 5, 6, 7, 8]));
    assert_eq!(v5::Quantities::read(&out, 0), Ok((q, 32)));
}

#[test]
fn a_scene_of_revision_5_reads_its_children_with_the_same_codec() {
    let mut leaf = le(&[0x464D5353]);
    leaf.extend([5u8, 0, 0, 0]);
    let mut body = le(&[0, 0, 0, 0, 0, 0, 0, 0]);
    body.extend(text("leaf"));
    body.extend(le(&[0, 0, 0]));
    body.extend(le(&[0]));
    body.extend(le(&[0]));
    leaf.extend(body);
    let mut root = le(&[0x464D5353]);
    root.extend([5u8, 0, 0, 0]);
    root.extend(le(&[0, 0, 0, 0, 0, 2, 0, 0]));
    root.extend(text("root"));
    root.extend(le(&[0, 0, 0]));
    root.extend(le(&[0]));
    root.extend(le(&[0]));
    root.extend(leaf.clone());
    root.extend(leaf.clone());
    let (scene, end) = Scene::<V5>::read(&root, 0).unwrap();
    assert_eq!(end, root.len());
    assert_eq!(scene.name, "root");
    assert_eq!(scene.children.len(), 2);
    assert_eq!(scene.children[0].name, "leaf");
    assert_eq!(scene.children[1].name, "leaf");
    assert!(Scene::<cem::V2>::read(&root, 0).is_err());
    let _ = NodeData { additional_models: 0, name: String::new() };
}

#[test]
fn the_older_header_holds_a_single_version() {
    let data = [0x53u8, 0x53, 0x4D, 0x46, 2, 0, 0, 0];
    let (h, end) = legacy::ModelHeader::read(&data, 0).unwrap();
    assert_eq!(end, 8);
    assert_eq!(h, legacy::ModelHeader { magic: legacy::SSMF, version: 2 });
    assert_eq!(legacy::SSMF, cem::MAGIC);
    let data = [0x53u8, 0x53, 0x4D, 0x46, 1, 0, 3, 0];
    let (h, _) = legacy::ModelHeader::read(&data, 0).unwrap();
    assert_eq!(h.version, 1 + 3 * 65536);
    assert_eq!(legacy::ModelHeader::read(&data[..7], 0).err(), Some(Error::UnexpectedEof));
}

#[test]
fn the_single_version_codec_reads_a_model() {
    let mut b = le(&[1, 1, 1, 1, 1, 0, 1]);
    b.extend(text("Scene Root"));
    b.extend(le(&[1, 2, 3]));
    b.extend(le(&[1, 0, 0, 0]));
    b.extend(text("mat"));
    b.extend(le(&[6, 0, 1, 0, 1]));
    b.extend(text("mat2"));
    b.extend(text("tag"));
    b.extend(le(&[33]));
    b.extend(le(&[1, 2, 3, 4, 5, 6, 7, 8]));
    b.extend(le(&[9, 9, 9]));
    b.extend(le(&matrix_wire()));
    b.extend(le(&[1, 1, 1, 2, 2, 2]));
    let (m, end) = legacy::Model::read(&b, 0).unwrap();
    assert_eq!(end, b.len());
    assert_eq!(m.quantities.tris, 1);
    assert_eq!(m.quantities.lod_levels, 1);
    assert_eq!(m.root.name, "Scene Root");
    assert_eq!(m.root.center, Pos3(1, 2, 3));
    assert_eq!(m.lod_levels.len(), 1);
    assert_eq!(m.lod_levels[0].0, vec![legacy::Triangle(0, 0, 0)]);
    assert_eq!(m.materials[0].name, "mat");
    assert_eq!(m.materials[0].texture, 6);
    assert_eq!(m.materials[0].triangles, vec![legacy::Selection { offset: 0, len: 1 }]);
    assert_eq!(m.materials[0].vertices, legacy::Selection { offset: 0, len: 1 });
    assert_eq!(m.materials[0].name2, "mat2");
    assert_eq!(m.tag_points, vec!["tag".to_string()]);
    assert_eq!(m.frames[0].radius, 33);
    assert_eq!(
        m.frames[0].vertices,
        vec![legacy::Vertex { position: Pos3(1, 2, 3), normal: Pos3(4, 5, 6), texture: Pos2(7, 8) }]
    );
    assert_eq!(m.frames[0].tag_points, vec![Pos3(9, 9, 9)]);
    assert_eq!(m.frames[0].transform.0[0], 200);
    assert_eq!(m.frames[0].transform.0[15], 215);
    assert_eq!(m.frames[0].bound, legacy::Aabb { lower: Pos3(1, 1, 1), upper: Pos3(2, 2, 2) });
    assert_eq!(legacy::Model::read(&b[..b.len() - 1], 0).err(), Some(Error::UnexpectedEof));
    assert_eq!(legacy::read(&le(&[4, 5]), 0), Ok((legacy::Selection { offset: 4, len: 5 }, 8)));
}

#[test]
fn the_flat_matrix_keeps_the_order_of_the_format() {
    let wire = le(&matrix_wire());
    let (m, end) = Mat4::read(&wire, 0).unwrap();
    assert_eq!(end, 64);
    let expected: Vec<u32> = matrix_wire();
    assert_eq!(m.0.to_vec(), expected);
    let mut out = Vec::new();
    m.write(&mut out).unwrap();
    assert_eq!(out, wire);
    let (by_columns, _) = Matrix4::read(&wire, 0).unwrap();
    assert_eq!(by_columns.y, Vector4 { x: m.0[1], y: m.0[5], z: m.0[9], w: m.0[13] });
}

#[test]
fn the_identity_is_recognised_whatever_the_sign_of_its_zeros() {
    let m = Mat4::default();
    assert!(m.is_identity());
    assert_eq!(m.0[0], 1.0f32.to_bits());
    assert_eq!(m.0[5], 1.0f32.to_bits());
    assert_eq!(m.0[1], 0);
    let mut signed = m;
    signed.0[1] = (-0.0f32).to_bits();
    signed.0[14] = (-0.0f32).to_bits();
    assert!(signed.is_identity());
    let mut other = m;
    other.0[3] = 1.0f32.to_bits();
    assert!(!other.is_identity());
    let mut other = m;
    other.0[10] = 0;
    assert!(!other.is_identity());
    let mut other = m;
    other.0[15] = (-1.0f32).to_bits();
    assert!(!other.is_identity());
}

#[test]
fn plain_positions_come_back() {
    let p = Pos3(1.5f32.to_bits(), 2, 3);
    let mut out = Vec::new();
    p.write(&mut out).unwrap();
    assert_eq!(out, le(&[1.5f32.to_bits(), 2, 3]));
    assert_eq!(Pos3::read(&out, 0), Ok((p, 12)));
    let q = Pos2(8, 9);
    let mut out = Vec::new();
    q.write(&mut out).unwrap();
    assert_eq!(Pos2::read(&out, 0), Ok((q, 8)));
    assert_eq!(Pos2::default(), Pos2(0, 0));
    assert_eq!(Pos3::default(), Pos3(0, 0, 0));
}

#[test]
fn the_older_header_splits_into_the_newer() {
    let data = [0x53u8, 0x53, 0x4D, 0x46, 5, 0, 0, 0];
    let (old, _) = legacy::ModelHeader::read(&data, 0).unwrap();
    let (new, _) = cem::ModelHeader::read(&data, 0).unwrap();
    assert_eq!(old.revision(), new);
    assert_eq!(old.revision().version(), Some(cem::Version::V5));
    let h = legacy::ModelHeader { magic: 7, version: 0x0003_0001 };
    assert_eq!(h.revision(), cem::ModelHeader { magic: 7, major: 1, minor: 3 });
    let h = legacy::ModelHeader { magic: 7, version: u32::MAX };
    assert_eq!(h.revision(), cem::ModelHeader { magic: 7, major: 0xFFFF, minor: 0xFFFF });
}

fn v5_scene(name: &str, children: u32) -> Vec<u8> {
    let mut b = le(&[0x464D5353]);
    b.extend([5u8, 0, 0, 0]);
    b.extend(le(&[0, 0, 0, 0, 0, children, 0, 0]));
    b.extend(text(name));
    b.extend(le(&[0, 0, 0]));
    b.extend(le(&[0]));
    b.extend(le(&[0]));
    b
}

fn v5_chain(levels_below_root: usize) -> Vec<u8> {
    let mut b = Vec::new();
    for _ in 0..levels_below_root {
        b.extend(v5_scene("link", 1));
    }
    b.extend(v5_scene("end", 0));
    b
}

#[test]
fn a_tree_is_decoded_down_to_the_depth_allowed() {
    let data = v5_chain(3);
    for depth in [3usize, 4, 100] {
        let (scene, end) = Scene::<V5>::read_within(&data, 0, depth).unwrap();
        assert_eq!(end, data.len());
        assert_eq!(scene.children[0].children[0].children[0].name, "end");
        assert!(scene.children[0].children[0].children[0].children.is_empty());
    }
    for depth in [0usize, 1, 2] {
        assert_eq!(Scene::<V5>::read_within(&data, 0, depth).err(), Some(Error::TooDeep));
        assert_eq!(
            Scene::<V5>::read_without_header_within(&data, 8, depth).err(),
            Some(Error::TooDeep)
        );
    }
    assert!(Scene::<V5>::read_without_header_within(&data, 8, 3).is_ok());
    assert_eq!(Error::TooDeep.kind(), ErrorKind::Violation);
}

#[test]
fn a_scene_without_children_needs_no_depth() {
    let data = v5_scene("alone", 0);
    let (scene, end) = Scene::<V5>::read_within(&data, 0, 0).unwrap();
    assert_eq!(end, data.len());
    assert_eq!(scene.name, "alone");
}

#[test]
fn siblings_do_not_count_as_depth() {
    let mut data = v5_scene("root", 3);
    data.extend(v5_scene("a", 0));
    data.extend(v5_scene("b", 0));
    data.extend(v5_scene("c", 0));
    let (scene, end) = Scene::<V5>::read_within(&data, 0, 1).unwrap();
    assert_eq!(end, data.len());
    assert_eq!(scene.children.len(), 3);
    assert_eq!(scene.children[2].name, "c");
    assert_eq!(Scene::<V5>::read_within(&data, 0, 0).err(), Some(Error::TooDeep));
}

#[test]
fn the_default_depth_is_the_maximum() {
    assert_eq!(cem::MAX_DEPTH, 255);
    let data = v5_chain(cem::MAX_DEPTH);
    let (scene, end) = Scene::<V5>::read(&data, 0).unwrap();
    assert_eq!(end, data.len());
    let mut levels = 0;
    let mut at = &scene;
    while let Some(child) = at.children.first() {
        at = child;
        levels += 1;
    }
    assert_eq!(levels, cem::MAX_DEPTH);
    assert_eq!(at.name, "end");
    let data = v5_chain(cem::MAX_DEPTH + 1);
    assert_eq!(Scene::<V5>::read(&data, 0).err(), Some(Error::TooDeep));
    assert_eq!(Scene::<V5>::read_without_header(&data, 8).err(), Some(Error::TooDeep));
    assert!(Scene::<V5>::read_within(&data, 0, cem::MAX_DEPTH + 1).is_ok());
}

#[test]
fn an_absurd_count_of_children_fails_on_the_data() {
    let mut data = v5_scene("root", u32::MAX);
    data.extend(v5_scene("a", 0));
    assert_eq!(Scene::<V5>::read(&data, 0).err(), Some(Error::UnexpectedEof));
}
