use cem::collider::{Aabb, Collider};
use cem::math::{Matrix4, Point3, Vector3};
use cem::obj::{exported_normal, exported_position, faces};
use cem::v2::{Frame, Material, TriangleSelection};
use cem::V2;

fn material(offset: u32, len: u32, vertex_offset: u32) -> Material {
    Material {
        name: "m".to_string(),
        texture: 0,
        triangles: vec![TriangleSelection { offset, len }, TriangleSelection { offset: 9, len: 9 }],
        vertex_offset,
        vertex_count: 0,
        texture_name: "t".to_string(),
    }
}

fn model(materials: Vec<Material>) -> V2 {
    V2 {
        center: Point3 { x: 0, y: 0, z: 0 },
        lod_levels: vec![vec![(0, 1, 2), (2, 1, 3), (4, 5, 6)], vec![(0, 1, 2)]],
        materials,
        tag_points: Vec::new(),
        frames: vec![Frame {
            vertices: Vec::new(),
            tag_points: Vec::new(),
            transform: Matrix4::identity(),
            collider: Collider { aabb: Aabb::zero(), radius: 0 },
        }],
    }
}

#[test]
fn the_second_and_third_axis_change_places() {
    let p = Point3 { x: 1.0f32.to_bits(), y: 2.0f32.to_bits(), z: 3.0f32.to_bits() };
    let e = exported_position(p);
    assert_eq!((f32::from_bits(e.x), f32::from_bits(e.y), f32::from_bits(e.z)), (1.0, 3.0, 2.0));
    let n = exported_normal(Vector3 { x: 7, y: 8, z: 9 });
    assert_eq!(n, Vector3 { x: 7, y: 9, z: 8 });
}

#[test]
fn faces_are_numbered_from_one_after_the_vertex_offset() {
    let m = model(vec![material(0, 2, 0), material(1, 2, 10)]);
    assert_eq!(faces(&m, 0), Some(vec![(1, 2, 3), (3, 2, 4)]));
    assert_eq!(faces(&m, 1), Some(vec![(13, 12, 14), (15, 16, 17)]));
}

#[test]
fn an_empty_selection_has_no_faces() {
    let m = model(vec![material(0, 0, 0), material(3, 0, 0)]);
    assert_eq!(faces(&m, 0), Some(vec![]));
    assert_eq!(faces(&m, 1), Some(vec![]));
}

#[test]
fn a_selection_beyond_the_level_gives_none() {
    let m = model(vec![material(2, 2, 0), material(4, 0, 0), material(u32::MAX, u32::MAX, 0)]);
    assert_eq!(faces(&m, 0), None);
    assert_eq!(faces(&m, 1), None);
    assert_eq!(faces(&m, 2), None);
    assert_eq!(faces(&m, 3), None);
}

#[test]
fn a_model_without_levels_or_selections_gives_none() {
    let mut m = model(vec![material(0, 1, 0)]);
    m.materials[0].triangles.clear();
    assert_eq!(faces(&m, 0), None);
    let mut m = model(vec![material(0, 1, 0)]);
    m.lod_levels.clear();
    assert_eq!(faces(&m, 0), None);
}

#[test]
fn large_indices_do_not_wrap() {
    let mut m = model(vec![material(0, 1, u32::MAX)]);
    m.lod_levels[0][0] = (u32::MAX, 0, 1);
    let top = u32::MAX as u64;
    assert_eq!(faces(&m, 0), Some(vec![(top + top + 1, top + 1, top + 2)]));
}
