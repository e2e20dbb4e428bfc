use cem::collider::{Aabb, Collider};
use cem::encode::{read_seq_with, write_seq_with};
use cem::math::{Matrix4, Point2, Point3, Vector3};
use cem::v2::{Frame, Material, Quantities, TriangleSelection, Vertex};
use cem::{Decode, Encode, Error, ErrorKind, Model, ModelHeader, NodeData, Scene, Version, MAGIC, V2};

fn p3(x: f32, y: f32, z: f32) -> Point3 {
    Point3 { x: x.to_bits(), y: y.to_bits(), z: z.to_bits() }
}

fn vertex(x: f32, y: f32, z: f32) -> Vertex {
    Vertex {
        position: p3(x, y, z),
        normal: Vector3 { x: 0.0f32.to_bits(), y: 1.0f32.to_bits(), z: 0.0f32.to_bits() },
        texture: Point2 { x: 0.25f32.to_bits(), y: 0.75f32.to_bits() },
    }
}

fn frame(shift: f32) -> Frame {
    Frame {
        vertices: vec![
            vertex(shift, 0.0, 0.0),
            vertex(shift + 1.0, 0.0, 0.0),
            vertex(shift, 1.0, 0.0),
            vertex(shift, 0.0, 1.0),
        ],
        tag_points: vec![p3(shift, 2.0, 3.0), p3(4.0, 5.0, shift)],
        transform: Matrix4::identity(),
        collider: Collider {
            aabb: Aabb { lower: p3(shift, 0.0, 0.0), upper: p3(shift + 1.0, 1.0, 1.0) },
            radius: 1.5f32.to_bits(),
        },
    }
}

fn material(name: &str, texture: u32) -> Material {
    Material {
        name: name.to_string(),
        texture,
        triangles: vec![
            TriangleSelection { offset: 0, len: 2 },
            TriangleSelection { offset: 0, len: 1 },
        ],
        vertex_offset: 0,
        vertex_count: 4,
        texture_name: format!("{}.tga", name),
    }
}

fn model() -> V2 {
    V2 {
        center: p3(0.5, 0.5, 0.5),
        lod_levels: vec![vec![(0, 1, 2), (0, 2, 3)], vec![(0, 1, 3)]],
        materials: vec![material("hull", 7), material("player color", 0)],
        tag_points: vec!["muzzle".to_string(), "smoke".to_string()],
        frames: vec![frame(0.0), frame(10.0), frame(-3.5)],
    }
}

fn same_material(a: &Material, b: &Material) -> bool {
    a.name == b.name && a.texture == b.texture && a.triangles == b.triangles
        && a.vertex_offset == b.vertex_offset && a.vertex_count == b.vertex_count
        && a.texture_name == b.texture_name
}

fn same_frame(a: &Frame, b: &Frame) -> bool {
    a.vertices == b.vertices && a.tag_points == b.tag_points && a.transform == b.transform
        && a.collider == b.collider
}

fn same_model(a: &V2, b: &V2) -> bool {
    a.center == b.center && a.lod_levels == b.lod_levels && a.tag_points == b.tag_points
        && a.materials.len() == b.materials.len()
        && a.materials.iter().zip(b.materials.iter()).all(|(x, y)| same_material(x, y))
        && a.frames.len() == b.frames.len()
        && a.frames.iter().zip(b.frames.iter()).all(|(x, y)| same_frame(x, y))
}

fn same_scene(a: &Scene<V2>, b: &Scene<V2>) -> bool {
    a.name == b.name && same_model(&a.model, &b.model) && a.children.len() == b.children.len()
        && a.children.iter().zip(b.children.iter()).all(|(x, y)| same_scene(x, y))
}

fn node(name: &str, additional_models: u32) -> NodeData {
    NodeData { additional_models, name: name.to_string() }
}

fn le(values: &[u32]) -> Vec<u8> {
    let mut out = Vec::new();
    for v in values {
        out.extend_from_slice(&v.to_le_bytes());
    }
    out
}

fn text(s: &str) -> Vec<u8> {
    let mut out = le(&[s.len() as u32 + 1]);
    out.extend_from_slice(s.as_bytes());
    out.push(0);
    out
}

#[test]
fn the_quantities_are_derived_from_the_first_level_and_the_first_frame() {
    let m = model();
    assert_eq!(
        m.quantities(5),
        Ok(Quantities {
            triangles: 2,
            vertices: 4,
            tag_points: 2,
            materials: 2,
            frames: 3,
            additional_models: 5,
            lod_levels: 2,
        })
    );
}

#[test]
fn the_quantities_travel_in_the_order_of_the_format() {
    let q = Quantities {
        triangles: 1,
        vertices: 2,
        tag_points: 3,
        materials: 4,
        frames: 5,
        additional_models: 6,
        lod_levels: 7,
    };
    let mut out = Vec::new();
    q.write(&mut out).unwrap();
    assert_eq!(out, le(&[1, 2, 3, 4, 5, 6, 7]));
    assert_eq!(Quantities::read(&out, 0), Ok((q, 28)));
    assert_eq!(Quantities::read(&out[..27], 0), Err(Error::UnexpectedEof));
}

#[test]
fn a_model_without_materials_is_not_written() {
    let mut m = model();
    m.materials.clear();
    assert_eq!(m.quantities(0), Err(Error::NoMaterials));
    let mut out = vec![1u8, 2, 3];
    assert_eq!(m.write(&mut out, node("Scene Root", 0)), Err(Error::NoMaterials));
    assert_eq!(out, vec![1, 2, 3]);
    assert_eq!(Error::NoMaterials.kind(), ErrorKind::Violation);
}

#[test]
fn a_model_without_lod_levels_is_not_written() {
    let mut m = model();
    m.lod_levels.clear();
    assert_eq!(m.quantities(0), Err(Error::NoLodLevels));
    let mut out = vec![1u8, 2, 3];
    assert_eq!(m.write(&mut out, node("Scene Root", 0)), Err(Error::NoLodLevels));
    assert_eq!(out, vec![1, 2, 3]);
}

#[test]
fn a_model_without_frames_is_not_written() {
    let mut m = model();
    m.frames.clear();
    assert_eq!(m.quantities(0), Err(Error::NoFrames));
    let mut out = vec![1u8, 2, 3];
    assert_eq!(m.write(&mut out, node("Scene Root", 0)), Err(Error::NoFrames));
    assert_eq!(out, vec![1, 2, 3]);
}

#[test]
fn the_first_missing_collection_is_reported() {
    let mut m = model();
    m.frames.clear();
    m.lod_levels.clear();
    assert_eq!(m.quantities(0), Err(Error::NoLodLevels));
    m.materials.clear();
    assert_eq!(m.quantities(0), Err(Error::NoMaterials));
    let mut out = Vec::new();
    assert_eq!(Scene::root(m).write(&mut out), Err(Error::NoMaterials));
    assert!(out.is_empty());
}

#[test]
fn a_model_comes_back_field_for_field() {
    let m = model();
    let mut out = Vec::new();
    m.write(&mut out, node("Scene Root", 3)).unwrap();
    let ((back, n), end) = V2::read(&out, 0).unwrap();
    assert_eq!(end, out.len());
    assert_eq!(n.name, "Scene Root");
    assert_eq!(n.additional_models, 3);
    assert!(same_model(&m, &back));
}

#[test]
fn a_model_comes_back_from_the_middle_of_a_buffer() {
    let m = model();
    let mut out = vec![0xEEu8; 5];
    m.write(&mut out, node("part", 0)).unwrap();
    let body_end = out.len();
    out.extend_from_slice(&[0xDD; 9]);
    let ((back, n), end) = V2::read(&out, 5).unwrap();
    assert_eq!(end, body_end);
    assert_eq!(n.name, "part");
    assert!(same_model(&m, &back));
}

#[test]
fn the_model_body_has_the_layout_of_the_format() {
    let m = V2 {
        center: Point3 { x: 1, y: 2, z: 3 },
        lod_levels: vec![vec![(10, 11, 12)]],
        materials: vec![Material {
            name: "m".to_string(),
            texture: 9,
            triangles: vec![TriangleSelection { offset: 4, len: 5 }],
            vertex_offset: 6,
            vertex_count: 7,
            texture_name: "t".to_string(),
        }],
        tag_points: vec!["tag".to_string()],
        frames: vec![Frame {
            vertices: vec![Vertex {
                position: Point3 { x: 20, y: 21, z: 22 },
                normal: Vector3 { x: 23, y: 24, z: 25 },
                texture: Point2 { x: 26, y: 27 },
            }],
            tag_points: vec![Point3 { x: 30, y: 31, z: 32 }],
            transform: Matrix4::identity(),
            collider: Collider {
                aabb: Aabb {
                    lower: Point3 { x: 40, y: 41, z: 42 },
                    upper: Point3 { x: 43, y: 44, z: 45 },
                },
                radius: 50,
            },
        }],
    };
    let mut expected = le(&[1, 1, 1, 1, 1, 2, 1]);
    expected.extend(text("node"));
    expected.extend(le(&[1, 2, 3]));
    expected.extend(le(&[1, 10, 11, 12]));
    expected.extend(text("m"));
    expected.extend(le(&[9, 4, 5, 6, 7]));
    expected.extend(text("t"));
    expected.extend(text("tag"));
    expected.extend(le(&[50]));
    expected.extend(le(&[20, 21, 22, 23, 24, 25, 26, 27]));
    expected.extend(le(&[30, 31, 32]));
    let one = 1.0f32.to_bits();
    expected.extend(le(&[one, 0, 0, 0, 0, one, 0, 0, 0, 0, one, 0, 0, 0, 0, one]));
    expected.extend(le(&[40, 41, 42, 43, 44, 45]));
    let mut out = Vec::new();
    m.write(&mut out, node("node", 2)).unwrap();
    assert_eq!(out, expected);
    let ((back, n), end) = V2::read(&expected, 0).unwrap();
    assert_eq!(end, expected.len());
    assert_eq!(n.additional_models, 2);
    assert_eq!(n.name, "node");
    assert!(same_model(&m, &back));
}

#[test]
fn a_truncated_model_is_a_transport_failure() {
    let m = model();
    let mut out = Vec::new();
    m.write(&mut out, node("Scene Root", 0)).unwrap();
    for cut in [0, 1, 27, 28, 40, out.len() / 2, out.len() - 1] {
        assert_eq!(V2::read(&out[..cut], 0).err(), Some(Error::UnexpectedEof));
    }
}

#[test]
fn a_frame_with_another_vertex_count_does_not_come_back() {
    let mut m = model();
    m.frames[1].vertices.pop();
    let mut out = Vec::new();
    m.write(&mut out, node("Scene Root", 0)).unwrap();
    match V2::read(&out, 0) {
        Ok(((back, _), _)) => assert!(!same_model(&m, &back)),
        Err(e) => assert_eq!(e, Error::UnexpectedEof),
    }
}

#[test]
fn materials_and_frames_are_read_with_their_counts() {
    let m = material("hull", 7);
    let mut out = Vec::new();
    m.write(&mut out).unwrap();
    let (back, end) = Material::read(&out, 0, 2).unwrap();
    assert_eq!(end, out.len());
    assert!(same_material(&m, &back));
    assert!(Material::read(&out, 0, 3).is_err() || !same_material(&m, &Material::read(&out, 0, 3).unwrap().0));
    let f = frame(2.0);
    let mut out = Vec::new();
    f.write(&mut out).unwrap();
    assert_eq!(out.len(), 4 + 4 * 32 + 2 * 12 + 64 + 24);
    let (back, end) = Frame::read(&out, 0, 4, 2).unwrap();
    assert_eq!(end, out.len());
    assert!(same_frame(&f, &back));
    assert_eq!(Frame::read(&out, 0, 5, 2).err(), Some(Error::UnexpectedEof));
}

#[test]
fn a_new_frame_is_untransformed() {
    let f = frame(0.0);
    let g = Frame::new(f.vertices.clone(), f.tag_points.clone(), f.collider);
    assert!(same_frame(&f, &g));
    assert_eq!(g.transform, Matrix4::identity());
}

#[test]
fn the_headers_of_the_revisions() {
    assert_eq!(<V2 as Model>::expected_header(), ModelHeader { magic: MAGIC, major: 2, minor: 0 });
    assert_eq!(<cem::V5 as Model>::expected_header(), ModelHeader { magic: MAGIC, major: 5, minor: 0 });
    assert_eq!(cem::v1::expected_model_header(), ModelHeader { magic: MAGIC, major: 1, minor: 3 });
    assert_eq!(<V2 as Model>::expected_header(), Version::V2.header());
    assert_eq!(<cem::V5 as Model>::expected_header(), Version::V5.header());
    assert_eq!(cem::v1::expected_model_header(), Version::V1.header());
}

#[test]
fn a_root_scene_is_named_scene_root() {
    let s = Scene::root(model());
    assert_eq!(s.name, "Scene Root");
    assert!(s.children.is_empty());
    let s = Scene::single("wheel".to_string(), model());
    assert_eq!(s.name, "wheel");
    assert!(s.children.is_empty());
}

#[test]
fn a_scene_starts_with_the_header_of_its_revision() {
    let mut out = Vec::new();
    Scene::root(model()).write(&mut out).unwrap();
    assert_eq!(&out[..8], &[0x53, 0x53, 0x4D, 0x46, 2, 0, 0, 0]);
    assert_eq!(&out[8..36], &le(&[2, 4, 2, 2, 3, 0, 2])[..]);
    assert_eq!(&out[36..51], &text("Scene Root")[..]);
    assert_eq!(cem::detect(&out, 0), Ok((Version::V2, 8)));
}

#[test]
fn a_scene_with_two_children_decodes_to_two_children() {
    let mut root = Scene::root(model());
    root.children.push(Scene::single("left".to_string(), model()));
    let mut right = Scene::single("right".to_string(), model());
    right.children.push(Scene::single("leaf".to_string(), model()));
    root.children.push(right);
    let mut out = Vec::new();
    root.write(&mut out).unwrap();
    assert_eq!(&out[8 + 20..8 + 24], &[2, 0, 0, 0]);
    let (back, end) = Scene::<V2>::read(&out, 0).unwrap();
    assert_eq!(end, out.len());
    assert_eq!(back.children.len(), 2);
    assert_eq!(back.children[0].name, "left");
    assert_eq!(back.children[0].children.len(), 0);
    assert_eq!(back.children[1].name, "right");
    assert_eq!(back.children[1].children.len(), 1);
    assert_eq!(back.children[1].children[0].name, "leaf");
    assert!(same_scene(&root, &back));
}

#[test]
fn a_scene_can_be_read_after_its_header() {
    let mut out = Vec::new();
    Scene::root(model()).write(&mut out).unwrap();
    let (header, start) = ModelHeader::read(&out, 0).unwrap();
    assert_eq!(header, Version::V2.header());
    let (back, end) = Scene::<V2>::read_without_header(&out, start).unwrap();
    assert_eq!(end, out.len());
    assert!(same_scene(&Scene::root(model()), &back));
}

#[test]
fn a_missing_child_is_a_transport_failure() {
    let mut root = Scene::root(model());
    root.children.push(Scene::single("only".to_string(), model()));
    let mut out = Vec::new();
    root.write(&mut out).unwrap();
    out[8 + 20] = 2;
    assert_eq!(Scene::<V2>::read(&out, 0).err(), Some(Error::UnexpectedEof));
}

#[test]
fn another_revision_is_a_format_mismatch() {
    let mut out = Vec::new();
    Scene::root(model()).write(&mut out).unwrap();
    let v2 = Version::V2.header();
    for (major, minor) in [(1u16, 3u16), (5, 0), (2, 1), (0, 0), (3, 0), (0xFFFF, 0xFFFF)] {
        out[4..6].copy_from_slice(&major.to_le_bytes());
        out[6..8].copy_from_slice(&minor.to_le_bytes());
        let actual = ModelHeader { magic: MAGIC, major, minor };
        let err = Scene::<V2>::read(&out, 0).err().unwrap();
        assert_eq!(err, Error::WrongHeader { expected: v2, actual });
        assert_eq!(err.kind(), ErrorKind::FormatMismatch);
    }
}

#[test]
fn a_child_of_another_revision_is_a_format_mismatch() {
    let mut root = Scene::root(model());
    root.children.push(Scene::single("child".to_string(), model()));
    let mut alone = Vec::new();
    Scene::root(model()).write(&mut alone).unwrap();
    let mut out = Vec::new();
    root.write(&mut out).unwrap();
    let child_at = out.len() - (alone.len() - "Scene Root".len() + "child".len());
    assert_eq!(&out[child_at..child_at + 4], b"SSMF");
    out[child_at + 4] = 5;
    let err = Scene::<V2>::read(&out, 0).err().unwrap();
    assert_eq!(
        err,
        Error::WrongHeader {
            expected: Version::V2.header(),
            actual: ModelHeader { magic: MAGIC, major: 5, minor: 0 },
        }
    );
}

#[test]
fn a_wrong_magic_number_fails_whichever_revision_is_requested() {
    let mut out = Vec::new();
    Scene::root(model()).write(&mut out).unwrap();
    for major in [1u16, 2, 5] {
        out[0] = b'X';
        out[4..6].copy_from_slice(&major.to_le_bytes());
        out[6..8].copy_from_slice(&(if major == 1 { 3u16 } else { 0 }).to_le_bytes());
        let actual = ModelHeader::read(&out, 0).unwrap().0;
        assert_ne!(actual.magic, MAGIC);
        assert_eq!(
            Scene::<V2>::read(&out, 0).err(),
            Some(Error::WrongHeader { expected: Version::V2.header(), actual })
        );
        assert_eq!(
            Scene::<cem::V5>::read(&out, 0).err(),
            Some(Error::WrongHeader { expected: Version::V5.header(), actual })
        );
        let err = cem::detect(&out, 0).err().unwrap();
        assert_eq!(err.kind(), ErrorKind::FormatMismatch);
        assert_eq!(actual.version(), None);
    }
}

#[test]
fn a_failed_child_leaves_no_output() {
    let mut root = Scene::root(model());
    root.children.push(Scene::single("fine".to_string(), model()));
    let mut broken = model();
    broken.frames.clear();
    root.children.push(Scene::single("broken".to_string(), broken));
    let mut out = vec![9u8, 9];
    assert_eq!(root.write(&mut out), Err(Error::NoFrames));
    assert_eq!(out, vec![9, 9]);
}

#[test]
fn rows_of_materials_and_frames_are_read_with_one_context() {
    let materials = vec![material("a", 1), material("b", 2), material("c", 3)];
    let mut out = vec![0x11u8];
    assert_eq!(write_seq_with::<usize, Material>(&materials, &mut out), Ok(()));
    let (back, end) = read_seq_with::<usize, Material>(2, &out, 1, 3).unwrap();
    assert_eq!(end, out.len());
    assert_eq!(back.len(), 3);
    assert!(back.iter().zip(materials.iter()).all(|(x, y)| same_material(x, y)));
    assert_eq!(
        read_seq_with::<usize, Material>(2, &out, 1, 4).err(),
        Some(Error::UnexpectedEof)
    );
    let frames = vec![frame(1.0), frame(2.0)];
    let mut out = Vec::new();
    assert_eq!(write_seq_with::<(usize, usize), Frame>(&frames, &mut out), Ok(()));
    let (back, end) = read_seq_with::<(usize, usize), Frame>((4, 2), &out, 0, 2).unwrap();
    assert_eq!(end, out.len());
    assert!(back.iter().zip(frames.iter()).all(|(x, y)| same_frame(x, y)));
    let (none, end) = read_seq_with::<(usize, usize), Frame>((4, 2), &out, 3, 0).unwrap();
    assert!(none.is_empty());
    assert_eq!(end, 3);
}

#[test]
fn a_name_beyond_latin1_comes_back_with_question_marks() {
    let m = model();
    let mut out = Vec::new();
    m.write(&mut out, node("\u{391}\u{3b2}c", 0)).unwrap();
    let ((_, n), _) = V2::read(&out, 0).unwrap();
    assert_eq!(n.name, "??c");
}
