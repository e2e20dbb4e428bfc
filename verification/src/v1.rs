//! Revision 1.3 of the format, which can only be read.
//!
//! Positions are stored once, as "vertex points", and each vertex refers
//! to one of them. Triangles carry their three corners in full, and are
//! gathered into named groups. How this revision is written has never been
//! established, so no encoder is offered for it.

use vstd::prelude::*;
use crate::{ModelHeader, MAGIC};
use crate::collider::Aabb;
use crate::encode::{Decode, DecodeWith, decoded_seq, decoded_seq_with, lemma_decoded_seq_bounds,
    lemma_decoded_seq_within, outcome, read_seq, read_seq_with};
use crate::error::Error;
use crate::math::{Matrix4, Point3};
use crate::scene::{NodeData, NodeDataView};

verus! {

/// The header that announces revision 1.3.
pub open spec fn spec_expected_model_header() -> ModelHeader {
    ModelHeader { magic: MAGIC, major: 1, minor: 3 }
}

/// The header that announces revision 1.3.
#[verifier::when_used_as_spec(spec_expected_model_header)]
pub fn expected_model_header() -> (h: ModelHeader)
    ensures
        h == spec_expected_model_header(),
{
    ModelHeader { magic: MAGIC, major: 1, minor: 3 }
}

/// The counts that open a model body. They size every section that follows.
#[derive(Debug, Clone, Copy, PartialEq, Eq, Structural)]
pub struct Quantities {
    pub frames: u32,
    pub materials: u32,
    /// The number of distinct positions.
    pub vertex_points: u32,
    pub triangles: u32,
    pub triangle_groups: u32,
    /// The number of vertices; each refers to one of the positions.
    pub vertices: u32,
    pub tag_points: u32,
    pub additional_models: u32,
}

impl DeepView for Quantities {
    type V = Quantities;

    open spec fn deep_view(&self) -> Quantities {
        *self
    }
}

impl Quantities {
    /// The counts that stand in `wire` in the order of the format.
    pub open spec fn from_wire(wire: Seq<u32>) -> Quantities {
        Quantities {
            frames: wire[0],
            materials: wire[1],
            vertex_points: wire[2],
            triangles: wire[3],
            triangle_groups: wire[4],
            vertices: wire[5],
            tag_points: wire[6],
            additional_models: wire[7],
        }
    }
}

/// Eight 32-bit counts.
impl Decode for Quantities {
    open spec fn decoded(data: Seq<u8>, pos: int) -> Result<(Quantities, int), Error> {
        match decoded_seq::<u32>(data, pos, 8) {
            Err(e) => Err(e),
            Ok((wire, end)) => Ok((Quantities::from_wire(wire), end)),
        }
    }

    proof fn lemma_decoded_bounds(data: Seq<u8>, pos: int) {
        lemma_decoded_seq_within::<u32>(data, pos, 8);
    }

    fn read(data: &[u8], pos: usize) -> (r: Result<(Quantities, usize), Error>) {
        let (wire, end) = read_seq::<u32>(data, pos, 8)?;
        proof {
            lemma_decoded_seq_within::<u32>(data@, pos as int, 8);
        }
        Ok(
            (
                Quantities {
                    frames: wire[0],
                    materials: wire[1],
                    vertex_points: wire[2],
                    triangles: wire[3],
                    triangle_groups: wire[4],
                    vertices: wire[5],
                    tag_points: wire[6],
                    additional_models: wire[7],
                },
                end,
            ),
        )
    }
}

/// A corner of a triangle. Of `unknown0` and `unknown1` the meaning is not known.
#[derive(Debug, Clone, Copy, PartialEq, Eq)]
pub struct Vertex {
    pub unknown0: u32,
    pub uv: (u32, u32),
    pub rgb: (u32, u32, u32),
    pub unknown1: [u32; 4],
}

/// The mathematical view of a [`Vertex`].
pub struct VertexView {
    pub unknown0: u32,
    pub uv: (u32, u32),
    pub rgb: (u32, u32, u32),
    pub unknown1: Seq<u32>,
}

impl DeepView for Vertex {
    type V = VertexView;

    open spec fn deep_view(&self) -> VertexView {
        VertexView {
            unknown0: self.unknown0,
            uv: self.uv,
            rgb: self.rgb,
            unknown1: self.unknown1@,
        }
    }
}

/// An integer, the texture coordinate, the colour, then four numbers.
impl Decode for Vertex {
    open spec fn decoded(data: Seq<u8>, pos: int) -> Result<(VertexView, int), Error> {
        match <(u32, (u32, u32), (u32, u32, u32))>::decoded(data, pos) {
            Err(e) => Err(e),
            Ok((head, mid)) => match decoded_seq::<u32>(data, mid, 4) {
                Err(e) => Err(e),
                Ok((unknown1, end)) => Ok(
                    (VertexView { unknown0: head.0, uv: head.1, rgb: head.2, unknown1 }, end),
                ),
            },
        }
    }

    proof fn lemma_decoded_bounds(data: Seq<u8>, pos: int) {
        <(u32, (u32, u32), (u32, u32, u32))>::lemma_decoded_bounds(data, pos);
        if let Ok((head, mid)) = <(u32, (u32, u32), (u32, u32, u32))>::decoded(data, pos) {
            lemma_decoded_seq_within::<u32>(data, mid, 4);
        }
    }

    fn read(data: &[u8], pos: usize) -> (r: Result<(Vertex, usize), Error>) {
        let ((unknown0, uv, rgb), mid) = <(u32, (u32, u32), (u32, u32, u32))>::read(data, pos)?;
        let (tail, end) = read_seq::<u32>(data, mid, 4)?;
        proof {
            lemma_decoded_seq_within::<u32>(data@, mid as int, 4);
        }
        let unknown1: [u32; 4] = [tail[0], tail[1], tail[2], tail[3]];
        assert(unknown1@ =~= tail.deep_view());
        Ok((Vertex { unknown0, uv, rgb, unknown1 }, end))
    }
}

/// A named group of triangles, each given by its index.
#[derive(Debug, Clone)]
pub struct TriangleGroup {
    pub name: String,
    pub indices: Vec<u32>,
}

/// The mathematical view of a [`TriangleGroup`].
pub struct TriangleGroupView {
    pub name: Seq<char>,
    pub indices: Seq<u32>,
}

impl DeepView for TriangleGroup {
    type V = TriangleGroupView;

    open spec fn deep_view(&self) -> TriangleGroupView {
        TriangleGroupView { name: self.name@, indices: self.indices.deep_view() }
    }
}

/// The name, then the indices as a list that carries its length.
impl Decode for TriangleGroup {
    open spec fn decoded(data: Seq<u8>, pos: int) -> Result<(TriangleGroupView, int), Error> {
        match <(String, Vec<u32>)>::decoded(data, pos) {
            Err(e) => Err(e),
            Ok((c, end)) => Ok((TriangleGroupView { name: c.0, indices: c.1 }, end)),
        }
    }

    proof fn lemma_decoded_bounds(data: Seq<u8>, pos: int) {
        <(String, Vec<u32>)>::lemma_decoded_bounds(data, pos);
    }

    fn read(data: &[u8], pos: usize) -> (r: Result<(TriangleGroup, usize), Error>) {
        let ((name, indices), end) = <(String, Vec<u32>)>::read(data, pos)?;
        Ok((TriangleGroup { name, indices }, end))
    }
}

/// A material: the triangles it covers and, where it has one, its texture.
#[derive(Debug, Clone)]
pub struct Material {
    pub indices: Vec<u32>,
    /// The texture's name, and a number whose meaning is not known.
    pub texture: Option<(String, u32)>,
}

/// The mathematical view of a [`Material`].
pub struct MaterialView {
    pub indices: Seq<u32>,
    pub texture: Option<(Seq<char>, u32)>,
}

impl DeepView for Material {
    type V = MaterialView;

    open spec fn deep_view(&self) -> MaterialView {
        MaterialView { indices: self.indices.deep_view(), texture: self.texture.deep_view() }
    }
}

/// The indices as a list that carries its length, then a flag byte: 0 where
/// the material has no texture, 1 where the texture's name and number
/// follow. Any other flag is an error.
impl Decode for Material {
    open spec fn decoded(data: Seq<u8>, pos: int) -> Result<(MaterialView, int), Error> {
        match <(Vec<u32>, u8)>::decoded(data, pos) {
            Err(e) => Err(e),
            Ok(((indices, flag), mid)) => if flag == 0 {
                Ok((MaterialView { indices, texture: None }, mid))
            } else if flag == 1 {
                match <(String, u32)>::decoded(data, mid) {
                    Err(e) => Err(e),
                    Ok((texture, end)) => Ok((MaterialView { indices, texture: Some(texture) }, end)),
                }
            } else {
                Err(Error::InvalidBool(flag))
            },
        }
    }

    proof fn lemma_decoded_bounds(data: Seq<u8>, pos: int) {
        <(Vec<u32>, u8)>::lemma_decoded_bounds(data, pos);
        if let Ok(((indices, flag), mid)) = <(Vec<u32>, u8)>::decoded(data, pos) {
            <(String, u32)>::lemma_decoded_bounds(data, mid);
        }
    }

    fn read(data: &[u8], pos: usize) -> (r: Result<(Material, usize), Error>) {
        let ((indices, flag), mid) = <(Vec<u32>, u8)>::read(data, pos)?;
        if flag == 0 {
            Ok((Material { indices, texture: None }, mid))
        } else if flag == 1 {
            let (texture, end) = <(String, u32)>::read(data, mid)?;
            Ok((Material { indices, texture: Some(texture) }, end))
        } else {
            Err(Error::InvalidBool(flag))
        }
    }
}

/// One frame of the model's animation.
#[derive(Debug, Clone)]
pub struct Frame {
    pub radius: u32,
    /// The positions at this moment, one for each vertex point.
    pub points: Vec<Point3>,
    /// For each vertex, the index of its normal in a fixed table of directions.
    pub normals: Vec<u16>,
    pub tag_points: Vec<Point3>,
    pub transform: Matrix4,
    pub bound: Aabb,
}

/// The mathematical view of a [`Frame`].
pub struct FrameView {
    pub radius: u32,
    pub points: Seq<Point3>,
    pub normals: Seq<u16>,
    pub tag_points: Seq<Point3>,
    pub transform: Matrix4,
    pub bound: Aabb,
}

impl DeepView for Frame {
    type V = FrameView;

    open spec fn deep_view(&self) -> FrameView {
        FrameView {
            radius: self.radius,
            points: self.points.deep_view(),
            normals: self.normals.deep_view(),
            tag_points: self.tag_points.deep_view(),
            transform: self.transform,
            bound: self.bound,
        }
    }
}

/// The radius, a position for each vertex point, a normal for each vertex,
/// a position for each tag point, the transform, then the bounding box.
/// The context is the model's counts.
impl DecodeWith<Quantities> for Frame {
    open spec fn decoded_with(q: Quantities, data: Seq<u8>, pos: int) -> Result<
        (FrameView, int),
        Error,
    > {
        match u32::decoded(data, pos) {
            Err(e) => Err(e),
            Ok((radius, p1)) => match decoded_seq::<Point3>(data, p1, q.vertex_points as nat) {
                Err(e) => Err(e),
                Ok((points, p2)) => match decoded_seq::<u16>(data, p2, q.vertices as nat) {
                    Err(e) => Err(e),
                    Ok((normals, p3)) => match decoded_seq::<Point3>(
                        data,
                        p3,
                        q.tag_points as nat,
                    ) {
                        Err(e) => Err(e),
                        Ok((tag_points, p4)) => match <(Matrix4, Aabb)>::decoded(data, p4) {
                            Err(e) => Err(e),
                            Ok((tail, end)) => Ok(
                                (
                                    FrameView {
                                        radius,
                                        points,
                                        normals,
                                        tag_points,
                                        transform: tail.0,
                                        bound: tail.1,
                                    },
                                    end,
                                ),
                            ),
                        },
                    },
                },
            },
        }
    }

    proof fn lemma_decoded_with_bounds(q: Quantities, data: Seq<u8>, pos: int) {
        if let Ok((radius, p1)) = u32::decoded(data, pos) {
            lemma_decoded_seq_bounds::<Point3>(data, p1, q.vertex_points as nat);
            if let Ok((points, p2)) = decoded_seq::<Point3>(data, p1, q.vertex_points as nat) {
                lemma_decoded_seq_bounds::<u16>(data, p2, q.vertices as nat);
                if let Ok((normals, p3)) = decoded_seq::<u16>(data, p2, q.vertices as nat) {
                    lemma_decoded_seq_bounds::<Point3>(data, p3, q.tag_points as nat);
                    if let Ok((tag_points, p4)) = decoded_seq::<Point3>(
                        data,
                        p3,
                        q.tag_points as nat,
                    ) {
                        <(Matrix4, Aabb)>::lemma_decoded_bounds(data, p4);
                    }
                }
            }
        }
    }

    fn read_with(q: Quantities, data: &[u8], pos: usize) -> (r: Result<(Frame, usize), Error>) {
        let (radius, p1) = u32::read(data, pos)?;
        let (points, p2) = read_seq::<Point3>(data, p1, q.vertex_points as usize)?;
        let (normals, p3) = read_seq::<u16>(data, p2, q.vertices as usize)?;
        let (tag_points, p4) = read_seq::<Point3>(data, p3, q.tag_points as usize)?;
        let ((transform, bound), end) = <(Matrix4, Aabb)>::read(data, p4)?;
        Ok((Frame { radius, points, normals, tag_points, transform, bound }, end))
    }
}

impl Frame {
    /// Decodes a frame of a model with the counts `quantities`.
    pub fn read(data: &[u8], pos: usize, quantities: &Quantities) -> (r: Result<
        (Frame, usize),
        Error,
    >)
        ensures
            outcome(r) == <Frame as DecodeWith<Quantities>>::decoded_with(
                *quantities,
                data@,
                pos as int,
            ),
    {
        <Frame as DecodeWith<Quantities>>::read_with(*quantities, data, pos)
    }
}

/// A model of revision 1.3. Of `unknown` the meaning is not known.
#[derive(Debug, Clone)]
pub struct V1 {
    pub quantities: Quantities,
    pub center: Point3,
    pub unknown: u8,
    pub points: Vec<u32>,
    pub triangles: Vec<(Vertex, Vertex, Vertex)>,
    pub triangle_groups: Vec<TriangleGroup>,
    pub materials: Vec<Material>,
    /// For each vertex, the index of its vertex point and a number.
    pub vertices: Vec<(u32, u32)>,
    pub tag_points: Vec<String>,
    pub frames: Vec<Frame>,
}

/// The mathematical view of a [`V1`].
pub struct V1View {
    pub quantities: Quantities,
    pub center: Point3,
    pub unknown: u8,
    pub points: Seq<u32>,
    pub triangles: Seq<(VertexView, VertexView, VertexView)>,
    pub triangle_groups: Seq<TriangleGroupView>,
    pub materials: Seq<MaterialView>,
    pub vertices: Seq<(u32, u32)>,
    pub tag_points: Seq<Seq<char>>,
    pub frames: Seq<FrameView>,
}

impl DeepView for V1 {
    type V = V1View;

    open spec fn deep_view(&self) -> V1View {
        V1View {
            quantities: self.quantities,
            center: self.center,
            unknown: self.unknown,
            points: self.points.deep_view(),
            triangles: self.triangles.deep_view(),
            triangle_groups: self.triangle_groups.deep_view(),
            materials: self.materials.deep_view(),
            vertices: self.vertices.deep_view(),
            tag_points: self.tag_points.deep_view(),
            frames: self.frames.deep_view(),
        }
    }
}

/// The sections of a model body that come after the counts, the name, the
/// center and the unknown byte.
pub struct Sections {
    pub points: Seq<u32>,
    pub triangles: Seq<(VertexView, VertexView, VertexView)>,
    pub triangle_groups: Seq<TriangleGroupView>,
    pub materials: Seq<MaterialView>,
    pub vertices: Seq<(u32, u32)>,
    pub tag_points: Seq<Seq<char>>,
    pub frames: Seq<FrameView>,
}

impl V1 {
    /// What decoding the sections of a model with the counts `q` yields:
    /// the vertex points, the triangles, the triangle groups, the
    /// materials, the vertices, the names of the tag points, then the
    /// frames, each as many times as `q` says.
    pub open spec fn decoded_sections(q: Quantities, data: Seq<u8>, pos: int) -> Result<
        (Sections, int),
        Error,
    > {
        match decoded_seq::<u32>(data, pos, q.vertex_points as nat) {
            Err(e) => Err(e),
            Ok((points, p1)) => match decoded_seq::<(Vertex, Vertex, Vertex)>(
                data,
                p1,
                q.triangles as nat,
            ) {
                Err(e) => Err(e),
                Ok((triangles, p2)) => match decoded_seq::<TriangleGroup>(
                    data,
                    p2,
                    q.triangle_groups as nat,
                ) {
                    Err(e) => Err(e),
                    Ok((triangle_groups, p3)) => match decoded_seq::<Material>(
                        data,
                        p3,
                        q.materials as nat,
                    ) {
                        Err(e) => Err(e),
                        Ok((materials, p4)) => match decoded_seq::<(u32, u32)>(
                            data,
                            p4,
                            q.vertices as nat,
                        ) {
                            Err(e) => Err(e),
                            Ok((vertices, p5)) => match decoded_seq::<String>(
                                data,
                                p5,
                                q.tag_points as nat,
                            ) {
                                Err(e) => Err(e),
                                Ok((tag_points, p6)) => match decoded_seq_with::<Quantities, Frame>(
                                    q,
                                    data,
                                    p6,
                                    q.frames as nat,
                                ) {
                                    Err(e) => Err(e),
                                    Ok((frames, end)) => Ok(
                                        (
                                            Sections {
                                                points,
                                                triangles,
                                                triangle_groups,
                                                materials,
                                                vertices,
                                                tag_points,
                                                frames,
                                            },
                                            end,
                                        ),
                                    ),
                                },
                            },
                        },
                    },
                },
            },
        }
    }

    /// What decoding a model body at `pos` yields: the model, and what it
    /// says of its scene.
    pub open spec fn decoded(data: Seq<u8>, pos: int) -> Result<((V1View, NodeDataView), int), Error> {
        match <(Quantities, String, (Point3, u8))>::decoded(data, pos) {
            Err(e) => Err(e),
            Ok(((q, name, (center, unknown)), start)) => match V1::decoded_sections(
                q,
                data,
                start,
            ) {
                Err(e) => Err(e),
                Ok((s, end)) => Ok(
                    (
                        (
                            V1View {
                                quantities: q,
                                center,
                                unknown,
                                points: s.points,
                                triangles: s.triangles,
                                triangle_groups: s.triangle_groups,
                                materials: s.materials,
                                vertices: s.vertices,
                                tag_points: s.tag_points,
                                frames: s.frames,
                            },
                            NodeDataView { additional_models: q.additional_models, name },
                        ),
                        end,
                    ),
                ),
            },
        }
    }

    /// Decodes a model body at `pos`.
    pub fn read(data: &[u8], pos: usize) -> (r: Result<((V1, NodeData), usize), Error>)
        ensures
            outcome(r) == V1::decoded(data@, pos as int),
    {
        let ((q, name, (center, unknown)), start) = <(Quantities, String, (Point3, u8))>::read(
            data,
            pos,
        )?;
        let (points, p1) = read_seq::<u32>(data, start, q.vertex_points as usize)?;
        let (triangles, p2) = read_seq::<(Vertex, Vertex, Vertex)>(
            data,
            p1,
            q.triangles as usize,
        )?;
        let (triangle_groups, p3) = read_seq::<TriangleGroup>(
            data,
            p2,
            q.triangle_groups as usize,
        )?;
        let (materials, p4) = read_seq::<Material>(data, p3, q.materials as usize)?;
        let (vertices, p5) = read_seq::<(u32, u32)>(data, p4, q.vertices as usize)?;
        let (tag_points, p6) = read_seq::<String>(data, p5, q.tag_points as usize)?;
        let (frames, end) = read_seq_with::<Quantities, Frame>(q, data, p6, q.frames as usize)?;
        Ok(
            (
                (
                    V1 {
                        quantities: q,
                        center,
                        unknown,
                        points,
                        triangles,
                        triangle_groups,
                        materials,
                        vertices,
                        tag_points,
                        frames,
                    },
                    NodeData { additional_models: q.additional_models, name },
                ),
                end,
            ),
        )
    }
}

} // verus!
