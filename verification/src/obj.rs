//! What an indexed-mesh export of a model consists of, short of the text.
//!
//! An export lists the vertices of the first frame and, for each material,
//! the triangles that the material selects in the first LOD level. The
//! vertices are numbered from one, and two of the three axes are exchanged.

use vstd::prelude::*;
use crate::math::{Point3, Vector3};
use crate::v2::{MaterialView, V2View, V2};

verus! {

/// A face of the export: the numbers of its three vertices, from one.
pub type Face = (u64, u64, u64);

/// The position as it is exported: the second and the third component
/// change places. Whether this orientation is the intended one is an open
/// question; the exchange is kept as it is.
pub fn exported_position(p: Point3) -> (r: Point3)
    ensures
        r == (Point3 { x: p.x, y: p.z, z: p.y }),
{
    Point3 { x: p.x, y: p.z, z: p.y }
}

/// The direction as it is exported: the second and the third component
/// change places, as for positions.
pub fn exported_normal(v: Vector3) -> (r: Vector3)
    ensures
        r == (Vector3 { x: v.x, y: v.z, z: v.y }),
{
    Vector3 { x: v.x, y: v.z, z: v.y }
}

/// The face for a triangle of a material whose vertices start at `vertex_offset`.
pub open spec fn face_of(vertex_offset: u32, triangle: (u32, u32, u32)) -> Face {
    (
        (vertex_offset + triangle.0 + 1) as u64,
        (vertex_offset + triangle.1 + 1) as u64,
        (vertex_offset + triangle.2 + 1) as u64,
    )
}

/// The faces of a material: one for each triangle that its first selection
/// picks from the first LOD level, in order. There are none to give where
/// the model has no LOD level, the material no selection, or the selection
/// reaches beyond the level.
pub open spec fn faces_of(model: V2View, material: MaterialView) -> Option<Seq<Face>> {
    if model.lod_levels.len() == 0 || material.triangles.len() == 0 {
        None
    } else {
        let level = model.lod_levels[0];
        let selection = material.triangles[0];
        if selection.offset + selection.len <= level.len() {
            Some(
                Seq::new(
                    selection.len as nat,
                    |i: int| face_of(material.vertex_offset, level[selection.offset + i]),
                ),
            )
        } else {
            None
        }
    }
}

/// The faces of the material with the index `material`, or `None` where
/// the model has no such material or [`faces_of`] has none to give.
pub fn faces(model: &V2, material: usize) -> (r: Option<Vec<Face>>)
    ensures
        r.deep_view() == (if material < model.materials@.len() {
            faces_of(model.deep_view(), model.deep_view().materials[material as int])
        } else {
            None
        }),
{
    if material >= model.materials.len() || model.lod_levels.len() == 0 {
        return None;
    }
    let m = &model.materials[material];
    if m.triangles.len() == 0 {
        return None;
    }
    let level = &model.lod_levels[0];
    let selection = m.triangles[0];
    let offset = selection.offset as usize;
    let len = selection.len as usize;
    assert(model.deep_view().lod_levels[0] == level.deep_view());
    assert(model.deep_view().materials[material as int] == m.deep_view());
    assert(m.deep_view().triangles[0] == selection);
    if level.len() < offset || level.len() - offset < len {
        return None;
    }
    let base = m.vertex_offset as u64;
    let mut out: Vec<Face> = Vec::new();
    let mut i: usize = 0;
    assert(out.deep_view() =~= Seq::<Face>::empty());
    while i < len
        invariant
            i <= len,
            offset + len <= level@.len() <= usize::MAX,
            base == m.vertex_offset,
            out.deep_view() == Seq::new(
                i as nat,
                |k: int| face_of(m.vertex_offset, level.deep_view()[offset + k]),
            ),
        decreases len - i,
    {
        let t = level[offset + i];
        let face: Face = (base + t.0 as u64 + 1, base + t.1 as u64 + 1, base + t.2 as u64 + 1);
        let ghost before = out.deep_view();
        out.push(face);
        assert(level.deep_view()[offset + i] == t);
        assert(out.deep_view() =~= before.push(face));
        assert(out.deep_view() =~= Seq::new(
            (i + 1) as nat,
            |k: int| face_of(m.vertex_offset, level.deep_view()[offset + k]),
        ));
        i = i + 1;
    }
    assert(out.deep_view() =~= faces_of(model.deep_view(), m.deep_view()).unwrap());
    Some(out)
}

} // verus!
