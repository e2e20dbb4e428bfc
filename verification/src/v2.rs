//! Revision 2.0 of the format, the one that can be both read and written.
//!
//! A model body is a block of counts, the scene's name, the model's center,
//! the triangles of each LOD level, the materials, the names of the tag
//! points, and the animation frames.

use vstd::prelude::*;
use crate::{ModelHeader, MAGIC};
use crate::collider::{Aabb, Collider};
use crate::encode::{Decode, DecodeWith, Encode, EncodeWith, canonical_seq, canonical_seq_with,
    count, count_of, decoded_seq, decoded_seq_with, encodable_seq, encodable_seq_with,
    encoded_seq, encoded_seq_with, holds_at, lemma_decoded_seq_bounds,
    lemma_decoded_seq_with_bounds, lemma_decoded_seq_within, lemma_holds_at_split,
    lemma_seq_round_trip, lemma_seq_round_trip_with, lemma_u32_round_trip, outcome, read_seq,
    read_seq_with, u32_le, write_seq, write_seq_with};
use crate::error::Error;
use crate::math::{Matrix4, Point2, Point3, Vector3};
use crate::scene::{LosslessModel, Model, NodeData, NodeDataView};

verus! {

/// The index of a vertex in a frame.
pub type VertexIndex = u32;

/// The counts that open a model body. They size every section that follows.
#[derive(Debug, Clone, Copy, PartialEq, Eq, Structural)]
pub struct Quantities {
    pub triangles: u32,
    pub vertices: u32,
    pub tag_points: u32,
    pub materials: u32,
    pub frames: u32,
    pub additional_models: u32,
    pub lod_levels: u32,
}

impl DeepView for Quantities {
    type V = Quantities;

    open spec fn deep_view(&self) -> Quantities {
        *self
    }
}

impl Quantities {
    /// The counts that stand in `wire` in the order of the format.
    pub open spec fn from_wire(wire: Seq<u32>) -> Quantities {
        Quantities {
            triangles: wire[0],
            vertices: wire[1],
            tag_points: wire[2],
            materials: wire[3],
            frames: wire[4],
            additional_models: wire[5],
            lod_levels: wire[6],
        }
    }

    /// The counts in the order of the format.
    pub open spec fn to_wire(self) -> Seq<u32> {
        seq![
            self.triangles,
            self.vertices,
            self.tag_points,
            self.materials,
            self.frames,
            self.additional_models,
            self.lod_levels,
        ]
    }
}

/// Seven 32-bit counts.
impl Decode for Quantities {
    open spec fn decoded(data: Seq<u8>, pos: int) -> Result<(Quantities, int), Error> {
        match decoded_seq::<u32>(data, pos, 7) {
            Err(e) => Err(e),
            Ok((wire, end)) => Ok((Quantities::from_wire(wire), end)),
        }
    }

    proof fn lemma_decoded_bounds(data: Seq<u8>, pos: int) {
        lemma_decoded_seq_within::<u32>(data, pos, 7);
    }

    fn read(data: &[u8], pos: usize) -> (r: Result<(Quantities, usize), Error>) {
        let (wire, end) = read_seq::<u32>(data, pos, 7)?;
        proof {
            lemma_decoded_seq_within::<u32>(data@, pos as int, 7);
        }
        Ok(
            (
                Quantities {
                    triangles: wire[0],
                    vertices: wire[1],
                    tag_points: wire[2],
                    materials: wire[3],
                    frames: wire[4],
                    additional_models: wire[5],
                    lod_levels: wire[6],
                },
                end,
            ),
        )
    }
}

impl Encode for Quantities {
    open spec fn encodable(v: Quantities) -> bool {
        true
    }

    open spec fn encoded(v: Quantities) -> Seq<u8> {
        encoded_seq::<u32>(v.to_wire())
    }

    open spec fn canonical(v: Quantities) -> bool {
        true
    }

    proof fn lemma_round_trip(v: Quantities, data: Seq<u8>, pos: int) {
        lemma_seq_round_trip::<u32>(v.to_wire(), data, pos);
    }

    fn write(&self, out: &mut Vec<u8>) -> (r: Result<(), Error>) {
        let wire: Vec<u32> = vec![
            self.triangles,
            self.vertices,
            self.tag_points,
            self.materials,
            self.frames,
            self.additional_models,
            self.lod_levels,
        ];
        assert(wire.deep_view() =~= self.to_wire());
        write_seq::<u32>(&wire, out)
    }
}

/// A run of triangles in a LOD level: where it starts and how long it is.
/// The codec does not hold the range against the level it points into.
#[derive(Debug, Clone, Copy, PartialEq, Eq, Structural)]
pub struct TriangleSelection {
    pub offset: u32,
    pub len: u32,
}

impl DeepView for TriangleSelection {
    type V = TriangleSelection;

    open spec fn deep_view(&self) -> TriangleSelection {
        *self
    }
}

/// The offset, then the length.
impl Decode for TriangleSelection {
    open spec fn decoded(data: Seq<u8>, pos: int) -> Result<(TriangleSelection, int), Error> {
        match <(u32, u32)>::decoded(data, pos) {
            Err(e) => Err(e),
            Ok((c, end)) => Ok((TriangleSelection { offset: c.0, len: c.1 }, end)),
        }
    }

    proof fn lemma_decoded_bounds(data: Seq<u8>, pos: int) {
        <(u32, u32)>::lemma_decoded_bounds(data, pos);
    }

    fn read(data: &[u8], pos: usize) -> (r: Result<(TriangleSelection, usize), Error>) {
        let ((offset, len), end) = <(u32, u32)>::read(data, pos)?;
        Ok((TriangleSelection { offset, len }, end))
    }
}

impl Encode for TriangleSelection {
    open spec fn encodable(v: TriangleSelection) -> bool {
        true
    }

    open spec fn encoded(v: TriangleSelection) -> Seq<u8> {
        <(u32, u32)>::encoded((v.offset, v.len))
    }

    open spec fn canonical(v: TriangleSelection) -> bool {
        true
    }

    proof fn lemma_round_trip(v: TriangleSelection, data: Seq<u8>, pos: int) {
        <(u32, u32)>::lemma_round_trip((v.offset, v.len), data, pos);
    }

    fn write(&self, out: &mut Vec<u8>) -> (r: Result<(), Error>) {
        (self.offset, self.len).write(out)
    }
}

/// A vertex: where it is, its normal, and its place on the texture.
#[derive(Debug, Clone, Copy, PartialEq, Eq, Structural)]
pub struct Vertex {
    pub position: Point3,
    pub normal: Vector3,
    pub texture: Point2,
}

impl DeepView for Vertex {
    type V = Vertex;

    open spec fn deep_view(&self) -> Vertex {
        *self
    }
}

/// The position, the normal, then the texture coordinate.
impl Decode for Vertex {
    open spec fn decoded(data: Seq<u8>, pos: int) -> Result<(Vertex, int), Error> {
        match <(Point3, Vector3, Point2)>::decoded(data, pos) {
            Err(e) => Err(e),
            Ok((c, end)) => Ok((Vertex { position: c.0, normal: c.1, texture: c.2 }, end)),
        }
    }

    proof fn lemma_decoded_bounds(data: Seq<u8>, pos: int) {
        <(Point3, Vector3, Point2)>::lemma_decoded_bounds(data, pos);
    }

    fn read(data: &[u8], pos: usize) -> (r: Result<(Vertex, usize), Error>) {
        let ((position, normal, texture), end) = <(Point3, Vector3, Point2)>::read(data, pos)?;
        Ok((Vertex { position, normal, texture }, end))
    }
}

impl Encode for Vertex {
    open spec fn encodable(v: Vertex) -> bool {
        true
    }

    open spec fn encoded(v: Vertex) -> Seq<u8> {
        <(Point3, Vector3, Point2)>::encoded((v.position, v.normal, v.texture))
    }

    open spec fn canonical(v: Vertex) -> bool {
        true
    }

    proof fn lemma_round_trip(v: Vertex, data: Seq<u8>, pos: int) {
        <(Point3, Vector3, Point2)>::lemma_round_trip((v.position, v.normal, v.texture), data, pos);
    }

    fn write(&self, out: &mut Vec<u8>) -> (r: Result<(), Error>) {
        (self.position, self.normal, self.texture).write(out)
    }
}

/// A material: what is drawn with which texture. Its name may give it a
/// special meaning to the engine.
#[derive(Debug, Clone)]
pub struct Material {
    pub name: String,
    /// The texture bound to this material; the bindings are managed elsewhere.
    pub texture: u32,
    /// The run of triangles of this material in each LOD level.
    pub triangles: Vec<TriangleSelection>,
    pub vertex_offset: VertexIndex,
    pub vertex_count: u32,
    pub texture_name: String,
}

/// The mathematical view of a [`Material`].
pub struct MaterialView {
    pub name: Seq<char>,
    pub texture: u32,
    pub triangles: Seq<TriangleSelection>,
    pub vertex_offset: VertexIndex,
    pub vertex_count: u32,
    pub texture_name: Seq<char>,
}

impl DeepView for Material {
    type V = MaterialView;

    open spec fn deep_view(&self) -> MaterialView {
        MaterialView {
            name: self.name@,
            texture: self.texture,
            triangles: self.triangles.deep_view(),
            vertex_offset: self.vertex_offset,
            vertex_count: self.vertex_count,
            texture_name: self.texture_name@,
        }
    }
}

/// The name, the texture, one selection for each LOD level, the vertex
/// range, then the texture's name. The context is the number of LOD levels.
impl DecodeWith<usize> for Material {
    open spec fn decoded_with(lod_levels: usize, data: Seq<u8>, pos: int) -> Result<
        (MaterialView, int),
        Error,
    > {
        match <(String, u32)>::decoded(data, pos) {
            Err(e) => Err(e),
            Ok((head, p1)) => match decoded_seq::<TriangleSelection>(data, p1, lod_levels as nat) {
                Err(e) => Err(e),
                Ok((triangles, p2)) => match <(u32, u32, String)>::decoded(data, p2) {
                    Err(e) => Err(e),
                    Ok((tail, end)) => Ok(
                        (
                            MaterialView {
                                name: head.0,
                                texture: head.1,
                                triangles,
                                vertex_offset: tail.0,
                                vertex_count: tail.1,
                                texture_name: tail.2,
                            },
                            end,
                        ),
                    ),
                },
            },
        }
    }

    proof fn lemma_decoded_with_bounds(lod_levels: usize, data: Seq<u8>, pos: int) {
        <(String, u32)>::lemma_decoded_bounds(data, pos);
        if let Ok((head, p1)) = <(String, u32)>::decoded(data, pos) {
            lemma_decoded_seq_bounds::<TriangleSelection>(data, p1, lod_levels as nat);
            if let Ok((triangles, p2)) = decoded_seq::<TriangleSelection>(
                data,
                p1,
                lod_levels as nat,
            ) {
                <(u32, u32, String)>::lemma_decoded_bounds(data, p2);
            }
        }
    }

    fn read_with(lod_levels: usize, data: &[u8], pos: usize) -> (r: Result<
        (Material, usize),
        Error,
    >) {
        let ((name, texture), p1) = <(String, u32)>::read(data, pos)?;
        let (triangles, p2) = read_seq::<TriangleSelection>(data, p1, lod_levels)?;
        let ((vertex_offset, vertex_count, texture_name), end) = <(u32, u32, String)>::read(
            data,
            p2,
        )?;
        Ok((Material { name, texture, triangles, vertex_offset, vertex_count, texture_name }, end))
    }
}

impl EncodeWith<usize> for Material {
    open spec fn encodable(v: MaterialView) -> bool {
        String::encodable(v.name) && String::encodable(v.texture_name)
    }

    open spec fn encoded(v: MaterialView) -> Seq<u8> {
        <(String, u32)>::encoded((v.name, v.texture)) + encoded_seq::<TriangleSelection>(
            v.triangles,
        ) + <(u32, u32, String)>::encoded((v.vertex_offset, v.vertex_count, v.texture_name))
    }

    open spec fn canonical_with(lod_levels: usize, v: MaterialView) -> bool {
        &&& v.triangles.len() == lod_levels
        &&& String::canonical(v.name)
        &&& String::canonical(v.texture_name)
    }

    proof fn lemma_round_trip_with(lod_levels: usize, v: MaterialView, data: Seq<u8>, pos: int) {
        let head = <(String, u32)>::encoded((v.name, v.texture));
        let mid = encoded_seq::<TriangleSelection>(v.triangles);
        let tail = <(u32, u32, String)>::encoded((v.vertex_offset, v.vertex_count, v.texture_name));
        lemma_holds_at_split(data, pos, head + mid, tail);
        lemma_holds_at_split(data, pos, head, mid);
        <(String, u32)>::lemma_round_trip((v.name, v.texture), data, pos);
        lemma_seq_round_trip::<TriangleSelection>(v.triangles, data, pos + head.len());
        <(u32, u32, String)>::lemma_round_trip(
            (v.vertex_offset, v.vertex_count, v.texture_name),
            data,
            pos + head.len() + mid.len(),
        );
    }

    fn write_to(&self, out: &mut Vec<u8>) -> (r: Result<(), Error>) {
        let start = out.len();
        self.name.write(out)?;
        self.texture.write(out)?;
        write_seq::<TriangleSelection>(&self.triangles, out)?;
        self.vertex_offset.write(out)?;
        self.vertex_count.write(out)?;
        match self.texture_name.write(out) {
            Ok(()) => {
                assert(out@ =~= old(out)@ + <Material as EncodeWith<usize>>::encoded(
                    self.deep_view(),
                ));
                Ok(())
            },
            Err(e) => {
                out.truncate(start);
                assert(out@ =~= old(out)@);
                Err(e)
            },
        }
    }
}

impl Material {
    /// Decodes a material of a model with `lod_levels` LOD levels.
    pub fn read(data: &[u8], pos: usize, lod_levels: usize) -> (r: Result<(Material, usize), Error>)
        ensures
            outcome(r) == <Material as DecodeWith<usize>>::decoded_with(
                lod_levels,
                data@,
                pos as int,
            ),
    {
        <Material as DecodeWith<usize>>::read_with(lod_levels, data, pos)
    }

    /// Appends the material to `out`. On failure `out` is left as it was.
    pub fn write(&self, out: &mut Vec<u8>) -> (r: Result<(), Error>)
        ensures
            <Material as EncodeWith<usize>>::encodable(self.deep_view()) ==> r is Ok && final(out)@
                == old(out)@ + <Material as EncodeWith<usize>>::encoded(self.deep_view()),
            !<Material as EncodeWith<usize>>::encodable(self.deep_view()) ==> r == Err::<
                (),
                Error,
            >(Error::StringTooLong) && final(out)@ == old(out)@,
    {
        self.write_to(out)
    }
}

/// One frame of the model's animation: the geometry at that moment, the
/// positions of the tag points, a transform to apply before drawing, and
/// the bounding volumes.
#[derive(Debug, Clone)]
pub struct Frame {
    pub vertices: Vec<Vertex>,
    pub tag_points: Vec<Point3>,
    pub transform: Matrix4,
    pub collider: Collider,
}

/// The mathematical view of a [`Frame`].
pub struct FrameView {
    pub vertices: Seq<Vertex>,
    pub tag_points: Seq<Point3>,
    pub transform: Matrix4,
    pub collider: Collider,
}

impl DeepView for Frame {
    type V = FrameView;

    open spec fn deep_view(&self) -> FrameView {
        FrameView {
            vertices: self.vertices.deep_view(),
            tag_points: self.tag_points.deep_view(),
            transform: self.transform,
            collider: self.collider,
        }
    }
}

/// The radius, the vertices, the tag points, the transform, then the
/// bounding box. The context is the number of vertices and the number of
/// tag points.
impl DecodeWith<(usize, usize)> for Frame {
    open spec fn decoded_with(counts: (usize, usize), data: Seq<u8>, pos: int) -> Result<
        (FrameView, int),
        Error,
    > {
        match u32::decoded(data, pos) {
            Err(e) => Err(e),
            Ok((radius, p1)) => match decoded_seq::<Vertex>(data, p1, counts.0 as nat) {
                Err(e) => Err(e),
                Ok((vertices, p2)) => match decoded_seq::<Point3>(data, p2, counts.1 as nat) {
                    Err(e) => Err(e),
                    Ok((tag_points, p3)) => match <(Matrix4, Aabb)>::decoded(data, p3) {
                        Err(e) => Err(e),
                        Ok((tail, end)) => Ok(
                            (
                                FrameView {
                                    vertices,
                                    tag_points,
                                    transform: tail.0,
                                    collider: Collider { aabb: tail.1, radius },
                                },
                                end,
                            ),
                        ),
                    },
                },
            },
        }
    }

    proof fn lemma_decoded_with_bounds(counts: (usize, usize), data: Seq<u8>, pos: int) {
        if let Ok((radius, p1)) = u32::decoded(data, pos) {
            lemma_decoded_seq_bounds::<Vertex>(data, p1, counts.0 as nat);
            if let Ok((vertices, p2)) = decoded_seq::<Vertex>(data, p1, counts.0 as nat) {
                lemma_decoded_seq_bounds::<Point3>(data, p2, counts.1 as nat);
                if let Ok((tag_points, p3)) = decoded_seq::<Point3>(data, p2, counts.1 as nat) {
                    <(Matrix4, Aabb)>::lemma_decoded_bounds(data, p3);
                }
            }
        }
    }

    fn read_with(counts: (usize, usize), data: &[u8], pos: usize) -> (r: Result<
        (Frame, usize),
        Error,
    >) {
        let (radius, p1) = u32::read(data, pos)?;
        let (vertices, p2) = read_seq::<Vertex>(data, p1, counts.0)?;
        let (tag_points, p3) = read_seq::<Point3>(data, p2, counts.1)?;
        let ((transform, aabb), end) = <(Matrix4, Aabb)>::read(data, p3)?;
        Ok((Frame { vertices, tag_points, transform, collider: Collider { aabb, radius } }, end))
    }
}

impl EncodeWith<(usize, usize)> for Frame {
    open spec fn encodable(v: FrameView) -> bool {
        true
    }

    open spec fn encoded(v: FrameView) -> Seq<u8> {
        u32_le(v.collider.radius) + encoded_seq::<Vertex>(v.vertices) + encoded_seq::<Point3>(
            v.tag_points,
        ) + <(Matrix4, Aabb)>::encoded((v.transform, v.collider.aabb))
    }

    open spec fn canonical_with(counts: (usize, usize), v: FrameView) -> bool {
        v.vertices.len() == counts.0 && v.tag_points.len() == counts.1
    }

    proof fn lemma_round_trip_with(
        counts: (usize, usize),
        v: FrameView,
        data: Seq<u8>,
        pos: int,
    ) {
        let a = u32_le(v.collider.radius);
        let b = encoded_seq::<Vertex>(v.vertices);
        let c = encoded_seq::<Point3>(v.tag_points);
        let d = <(Matrix4, Aabb)>::encoded((v.transform, v.collider.aabb));
        lemma_holds_at_split(data, pos, a + b + c, d);
        lemma_holds_at_split(data, pos, a + b, c);
        lemma_holds_at_split(data, pos, a, b);
        lemma_u32_round_trip(v.collider.radius, data, pos);
        lemma_seq_round_trip::<Vertex>(v.vertices, data, pos + 4);
        lemma_seq_round_trip::<Point3>(v.tag_points, data, pos + 4 + b.len());
        <(Matrix4, Aabb)>::lemma_round_trip(
            (v.transform, v.collider.aabb),
            data,
            pos + 4 + b.len() + c.len(),
        );
    }

    fn write_to(&self, out: &mut Vec<u8>) -> (r: Result<(), Error>) {
        self.collider.radius.write(out)?;
        write_seq::<Vertex>(&self.vertices, out)?;
        write_seq::<Point3>(&self.tag_points, out)?;
        (self.transform, self.collider.aabb).write(out)?;
        assert(out@ =~= old(out)@ + <Frame as EncodeWith<(usize, usize)>>::encoded(
            self.deep_view(),
        ));
        Ok(())
    }
}

impl Frame {
    /// The frame that shows `vertices` untransformed, with the bounding
    /// volumes that were measured for them.
    pub fn new(vertices: Vec<Vertex>, tag_points: Vec<Point3>, collider: Collider) -> (f: Frame)
        ensures
            f.vertices == vertices,
            f.tag_points == tag_points,
            f.transform == Matrix4::spec_identity(),
            f.collider == collider,
    {
        Frame { vertices, tag_points, transform: Matrix4::identity(), collider }
    }

    /// Decodes a frame of a model with `vertex_count` vertices and
    /// `tag_point_count` tag points.
    pub fn read(data: &[u8], pos: usize, vertex_count: usize, tag_point_count: usize) -> (r: Result<
        (Frame, usize),
        Error,
    >)
        ensures
            outcome(r) == <Frame as DecodeWith<(usize, usize)>>::decoded_with(
                (vertex_count, tag_point_count),
                data@,
                pos as int,
            ),
    {
        <Frame as DecodeWith<(usize, usize)>>::read_with(
            (vertex_count, tag_point_count),
            data,
            pos,
        )
    }

    /// Appends the frame to `out`.
    pub fn write(&self, out: &mut Vec<u8>) -> (r: Result<(), Error>)
        ensures
            r is Ok,
            final(out)@ == old(out)@ + <Frame as EncodeWith<(usize, usize)>>::encoded(
                self.deep_view(),
            ),
    {
        self.write_to(out)
    }
}

/// A model of revision 2.0.
#[derive(Debug, Clone)]
pub struct V2 {
    /// The point that counts as the model's center.
    pub center: Point3,
    /// The triangles of each LOD level, each triangle by the indices of its
    /// three vertices.
    pub lod_levels: Vec<Vec<(VertexIndex, VertexIndex, VertexIndex)>>,
    pub materials: Vec<Material>,
    /// The names of the tag points.
    pub tag_points: Vec<String>,
    pub frames: Vec<Frame>,
}

/// The mathematical view of a [`V2`].
pub struct V2View {
    pub center: Point3,
    pub lod_levels: Seq<Seq<(VertexIndex, VertexIndex, VertexIndex)>>,
    pub materials: Seq<MaterialView>,
    pub tag_points: Seq<Seq<char>>,
    pub frames: Seq<FrameView>,
}

impl DeepView for V2 {
    type V = V2View;

    open spec fn deep_view(&self) -> V2View {
        V2View {
            center: self.center,
            lod_levels: self.lod_levels.deep_view(),
            materials: self.materials.deep_view(),
            tag_points: self.tag_points.deep_view(),
            frames: self.frames.deep_view(),
        }
    }
}

impl V2View {
    /// The counts that are written for this model, or which of the
    /// collections that a model cannot be without is empty. The triangle
    /// count is that of the first LOD level and the vertex count that of
    /// the first frame.
    pub open spec fn quantities(self, additional_models: u32) -> Result<Quantities, Error> {
        if self.materials.len() == 0 {
            Err(Error::NoMaterials)
        } else if self.lod_levels.len() == 0 {
            Err(Error::NoLodLevels)
        } else if self.frames.len() == 0 {
            Err(Error::NoFrames)
        } else {
            Ok(
                Quantities {
                    triangles: count_of(self.lod_levels[0].len()),
                    vertices: count_of(self.frames[0].vertices.len()),
                    tag_points: count_of(self.tag_points.len()),
                    materials: count_of(self.materials.len()),
                    frames: count_of(self.frames.len()),
                    additional_models,
                    lod_levels: count_of(self.lod_levels.len()),
                },
            )
        }
    }

    /// Every string of the model, and the name of its scene, fits a string field.
    pub open spec fn strings_fit(self, name: Seq<char>) -> bool {
        &&& String::encodable(name)
        &&& encodable_seq_with::<usize, Material>(self.materials)
        &&& encodable_seq::<String>(self.tag_points)
    }

    /// The sections of the model body, one after the other.
    pub open spec fn sections(self, quantities: Quantities, name: Seq<char>) -> Seq<u8> {
        Quantities::encoded(quantities) + String::encoded(name) + Point3::encoded(self.center)
            + encoded_seq::<Vec<(VertexIndex, VertexIndex, VertexIndex)>>(self.lod_levels)
            + encoded_seq_with::<usize, Material>(self.materials) + encoded_seq::<String>(
            self.tag_points,
        ) + encoded_seq_with::<(usize, usize), Frame>(self.frames)
    }

    /// What a model must satisfy, beyond being writable, to come back
    /// unchanged: every count fits 32 bits, every material has one selection
    /// for each LOD level, every frame has as many vertices as the first and
    /// one position for each tag point, and every string is Latin-1 text
    /// without NUL.
    pub open spec fn lossless(self, name: Seq<char>) -> bool {
        &&& self.lod_levels.len() <= u32::MAX
        &&& self.materials.len() <= u32::MAX
        &&& self.tag_points.len() <= u32::MAX
        &&& self.frames.len() <= u32::MAX
        &&& self.frames.len() > 0 ==> self.frames[0].vertices.len() <= u32::MAX
        &&& String::canonical(name)
        &&& canonical_seq::<Vec<(VertexIndex, VertexIndex, VertexIndex)>>(self.lod_levels)
        &&& canonical_seq_with::<usize, Material>(self.lod_levels.len() as usize, self.materials)
        &&& canonical_seq::<String>(self.tag_points)
        &&& self.frames.len() > 0 ==> canonical_seq_with::<(usize, usize), Frame>(
            (self.frames[0].vertices.len() as usize, self.tag_points.len() as usize),
            self.frames,
        )
    }
}

impl V2 {
    /// The counts that are written for this model.
    pub fn quantities(&self, additional_models: u32) -> (r: Result<Quantities, Error>)
        ensures
            r == self.deep_view().quantities(additional_models),
    {
        if self.materials.len() == 0 {
            return Err(Error::NoMaterials);
        }
        if self.lod_levels.len() == 0 {
            return Err(Error::NoLodLevels);
        }
        if self.frames.len() == 0 {
            return Err(Error::NoFrames);
        }
        Ok(
            Quantities {
                triangles: count(self.lod_levels[0].len()),
                vertices: count(self.frames[0].vertices.len()),
                tag_points: count(self.tag_points.len()),
                materials: count(self.materials.len()),
                frames: count(self.frames.len()),
                additional_models,
                lod_levels: count(self.lod_levels.len()),
            },
        )
    }
}

impl Model for V2 {
    open spec fn header() -> ModelHeader {
        ModelHeader { magic: MAGIC, major: 2, minor: 0 }
    }

    fn expected_header() -> (h: ModelHeader) {
        ModelHeader { magic: MAGIC, major: 2, minor: 0 }
    }

    open spec fn decoded(data: Seq<u8>, pos: int) -> Result<((V2View, NodeDataView), int), Error> {
        match <(Quantities, String, Point3)>::decoded(data, pos) {
            Err(e) => Err(e),
            Ok(((q, name, center), p1)) => match decoded_seq::<
                Vec<(VertexIndex, VertexIndex, VertexIndex)>,
            >(data, p1, q.lod_levels as nat) {
                Err(e) => Err(e),
                Ok((lod_levels, p2)) => match decoded_seq_with::<usize, Material>(
                    q.lod_levels as usize,
                    data,
                    p2,
                    q.materials as nat,
                ) {
                    Err(e) => Err(e),
                    Ok((materials, p3)) => match decoded_seq::<String>(
                        data,
                        p3,
                        q.tag_points as nat,
                    ) {
                        Err(e) => Err(e),
                        Ok((tag_points, p4)) => match decoded_seq_with::<(usize, usize), Frame>(
                            (q.vertices as usize, q.tag_points as usize),
                            data,
                            p4,
                            q.frames as nat,
                        ) {
                            Err(e) => Err(e),
                            Ok((frames, end)) => Ok(
                                (
                                    (
                                        V2View { center, lod_levels, materials, tag_points, frames },
                                        NodeDataView {
                                            additional_models: q.additional_models,
                                            name,
                                        },
                                    ),
                                    end,
                                ),
                            ),
                        },
                    },
                },
            },
        }
    }

    open spec fn encoded(v: V2View, node: NodeDataView) -> Result<Seq<u8>, Error> {
        match v.quantities(node.additional_models) {
            Err(e) => Err(e),
            Ok(q) => if v.strings_fit(node.name) {
                Ok(v.sections(q, node.name))
            } else {
                Err(Error::StringTooLong)
            },
        }
    }

    proof fn lemma_header_magic() {
    }

    proof fn lemma_decoded_bounds(data: Seq<u8>, pos: int) {
        <(Quantities, String, Point3)>::lemma_decoded_bounds(data, pos);
        if let Ok(((q, name, center), p1)) = <(Quantities, String, Point3)>::decoded(data, pos) {
            lemma_decoded_seq_bounds::<Vec<(VertexIndex, VertexIndex, VertexIndex)>>(
                data,
                p1,
                q.lod_levels as nat,
            );
            if let Ok((lod_levels, p2)) = decoded_seq::<
                Vec<(VertexIndex, VertexIndex, VertexIndex)>,
            >(data, p1, q.lod_levels as nat) {
                lemma_decoded_seq_with_bounds::<usize, Material>(
                    q.lod_levels as usize,
                    data,
                    p2,
                    q.materials as nat,
                );
                if let Ok((materials, p3)) = decoded_seq_with::<usize, Material>(
                    q.lod_levels as usize,
                    data,
                    p2,
                    q.materials as nat,
                ) {
                    lemma_decoded_seq_bounds::<String>(data, p3, q.tag_points as nat);
                    if let Ok((tag_points, p4)) = decoded_seq::<String>(
                        data,
                        p3,
                        q.tag_points as nat,
                    ) {
                        lemma_decoded_seq_with_bounds::<(usize, usize), Frame>(
                            (q.vertices as usize, q.tag_points as usize),
                            data,
                            p4,
                            q.frames as nat,
                        );
                    }
                }
            }
        }
    }

    fn read(data: &[u8], pos: usize) -> (r: Result<((V2, NodeData), usize), Error>) {
        let ((q, name, center), p1) = <(Quantities, String, Point3)>::read(data, pos)?;
        let (lod_levels, p2) = read_seq::<Vec<(VertexIndex, VertexIndex, VertexIndex)>>(
            data,
            p1,
            q.lod_levels as usize,
        )?;
        let (materials, p3) = read_seq_with::<usize, Material>(
            q.lod_levels as usize,
            data,
            p2,
            q.materials as usize,
        )?;
        let (tag_points, p4) = read_seq::<String>(data, p3, q.tag_points as usize)?;
        let (frames, end) = read_seq_with::<(usize, usize), Frame>(
            (q.vertices as usize, q.tag_points as usize),
            data,
            p4,
            q.frames as usize,
        )?;
        Ok(
            (
                (
                    V2 { center, lod_levels, materials, tag_points, frames },
                    NodeData { additional_models: q.additional_models, name },
                ),
                end,
            ),
        )
    }

    fn write(&self, out: &mut Vec<u8>, node: NodeData) -> (r: Result<(), Error>) {
        let q = self.quantities(node.additional_models)?;
        let start = out.len();
        q.write(out)?;
        if let Err(e) = node.name.write(out) {
            out.truncate(start);
            assert(out@ =~= old(out)@);
            return Err(e);
        }
        self.center.write(out)?;
        assert(encodable_seq::<Vec<(VertexIndex, VertexIndex, VertexIndex)>>(
            self.lod_levels.deep_view(),
        ));
        write_seq::<Vec<(VertexIndex, VertexIndex, VertexIndex)>>(&self.lod_levels, out)?;
        if let Err(e) = write_seq_with::<usize, Material>(&self.materials, out) {
            out.truncate(start);
            assert(out@ =~= old(out)@);
            return Err(e);
        }
        if let Err(e) = write_seq::<String>(&self.tag_points, out) {
            out.truncate(start);
            assert(out@ =~= old(out)@);
            return Err(e);
        }
        assert(encodable_seq_with::<(usize, usize), Frame>(self.frames.deep_view()));
        write_seq_with::<(usize, usize), Frame>(&self.frames, out)?;
        assert(out@ =~= old(out)@ + self.deep_view().sections(q, node.name@));
        Ok(())
    }
}

impl LosslessModel for V2 {
    open spec fn lossless(v: V2View, node: NodeDataView) -> bool {
        v.lossless(node.name)
    }

    proof fn lemma_round_trip(v: V2View, node: NodeDataView, data: Seq<u8>, pos: int) {
        lemma_v2_round_trip(v, node, data, pos);
    }
}

/// Where the sections of a model body stand in `data`, each section stands
/// at the end of the one before it.
proof fn lemma_sections_stand_apart(
    v: V2View,
    q: Quantities,
    name: Seq<char>,
    data: Seq<u8>,
    pos: int,
)
    requires
        holds_at(data, pos, v.sections(q, name)),
    ensures
        ({
            let a = <(Quantities, String, Point3)>::encoded((q, name, v.center));
            let b = encoded_seq::<Vec<(VertexIndex, VertexIndex, VertexIndex)>>(v.lod_levels);
            let c = encoded_seq_with::<usize, Material>(v.materials);
            let d = encoded_seq::<String>(v.tag_points);
            let e = encoded_seq_with::<(usize, usize), Frame>(v.frames);
            &&& v.sections(q, name).len() == a.len() + b.len() + c.len() + d.len() + e.len()
            &&& holds_at(data, pos, a)
            &&& holds_at(data, pos + a.len(), b)
            &&& holds_at(data, pos + a.len() + b.len(), c)
            &&& holds_at(data, pos + a.len() + b.len() + c.len(), d)
            &&& holds_at(data, pos + a.len() + b.len() + c.len() + d.len(), e)
        }),
{
    let a = <(Quantities, String, Point3)>::encoded((q, name, v.center));
    let b = encoded_seq::<Vec<(VertexIndex, VertexIndex, VertexIndex)>>(v.lod_levels);
    let c = encoded_seq_with::<usize, Material>(v.materials);
    let d = encoded_seq::<String>(v.tag_points);
    let e = encoded_seq_with::<(usize, usize), Frame>(v.frames);
    assert(v.sections(q, name) == a + b + c + d + e);
    lemma_holds_at_split(data, pos, a + b + c + d, e);
    lemma_holds_at_split(data, pos, a + b + c, d);
    lemma_holds_at_split(data, pos, a + b, c);
    lemma_holds_at_split(data, pos, a, b);
}

/// A model that satisfies [`V2View::lossless`] and can be written comes back
/// from its bytes unchanged, field for field, together with the name and the
/// child count of its scene, wherever the bytes stand and whatever follows
/// them.
pub proof fn lemma_v2_round_trip(v: V2View, node: NodeDataView, data: Seq<u8>, pos: int)
    requires
        v.lossless(node.name),
        V2::encoded(v, node) is Ok,
        holds_at(data, pos, V2::encoded(v, node).unwrap()),
    ensures
        V2::decoded(data, pos) == Ok::<((V2View, NodeDataView), int), Error>(
            ((v, node), pos + V2::encoded(v, node).unwrap().len()),
        ),
{
    assert(v.quantities(node.additional_models) is Ok);
    assert(v.strings_fit(node.name));
    let q = v.quantities(node.additional_models).unwrap();
    assert(V2::encoded(v, node).unwrap() == v.sections(q, node.name));
    let a = <(Quantities, String, Point3)>::encoded((q, node.name, v.center));
    let b = encoded_seq::<Vec<(VertexIndex, VertexIndex, VertexIndex)>>(v.lod_levels);
    let c = encoded_seq_with::<usize, Material>(v.materials);
    let d = encoded_seq::<String>(v.tag_points);
    let e = encoded_seq_with::<(usize, usize), Frame>(v.frames);
    lemma_sections_stand_apart(v, q, node.name, data, pos);
    let p1 = pos + a.len();
    let p2 = p1 + b.len();
    let p3 = p2 + c.len();
    let p4 = p3 + d.len();
    let end = p4 + e.len();
    assert(q.lod_levels as nat == v.lod_levels.len());
    assert(q.materials as nat == v.materials.len());
    assert(q.tag_points as nat == v.tag_points.len());
    assert(q.frames as nat == v.frames.len());
    assert(q.lod_levels as usize == v.lod_levels.len() as usize);
    assert((q.vertices as usize, q.tag_points as usize) == (
        v.frames[0].vertices.len() as usize,
        v.tag_points.len() as usize,
    ));
    assert(<(Quantities, String, Point3)>::decoded(data, pos) == Ok::<
        ((Quantities, Seq<char>, Point3), int),
        Error,
    >(((q, node.name, v.center), p1))) by {
        <(Quantities, String, Point3)>::lemma_round_trip((q, node.name, v.center), data, pos);
    }
    assert(decoded_seq::<Vec<(VertexIndex, VertexIndex, VertexIndex)>>(
        data,
        p1,
        q.lod_levels as nat,
    ) == Ok::<(Seq<Seq<(VertexIndex, VertexIndex, VertexIndex)>>, int), Error>(
        (v.lod_levels, p2),
    )) by {
        lemma_seq_round_trip::<Vec<(VertexIndex, VertexIndex, VertexIndex)>>(
            v.lod_levels,
            data,
            p1,
        );
    }
    assert(decoded_seq_with::<usize, Material>(
        q.lod_levels as usize,
        data,
        p2,
        q.materials as nat,
    ) == Ok::<(Seq<MaterialView>, int), Error>((v.materials, p3))) by {
        lemma_seq_round_trip_with::<usize, Material>(q.lod_levels as usize, v.materials, data, p2);
    }
    assert(decoded_seq::<String>(data, p3, q.tag_points as nat) == Ok::<
        (Seq<Seq<char>>, int),
        Error,
    >((v.tag_points, p4))) by {
        lemma_seq_round_trip::<String>(v.tag_points, data, p3);
    }
    assert(decoded_seq_with::<(usize, usize), Frame>(
        (q.vertices as usize, q.tag_points as usize),
        data,
        p4,
        q.frames as nat,
    ) == Ok::<(Seq<FrameView>, int), Error>((v.frames, end))) by {
        lemma_seq_round_trip_with::<(usize, usize), Frame>(
            (q.vertices as usize, q.tag_points as usize),
            v.frames,
            data,
            p4,
        );
    }
    assert(node == NodeDataView { additional_models: q.additional_models, name: node.name });
    assert(v == V2View {
        center: v.center,
        lod_levels: v.lod_levels,
        materials: v.materials,
        tag_points: v.tag_points,
        frames: v.frames,
    });
}

/// A model without materials, without LOD levels or without frames is
/// refused, whatever else it holds and whatever its scene is called; the
/// error names the first of the three that is missing, and is a violation
/// of the format's rules.
pub proof fn lemma_empty_model_is_refused(v: V2View, node: NodeDataView)
    requires
        v.materials.len() == 0 || v.lod_levels.len() == 0 || v.frames.len() == 0,
    ensures
        V2::encoded(v, node) == Err::<Seq<u8>, Error>(
            if v.materials.len() == 0 {
                Error::NoMaterials
            } else if v.lod_levels.len() == 0 {
                Error::NoLodLevels
            } else {
                Error::NoFrames
            },
        ),
        V2::encoded(v, node) matches Err(e) && e.spec_kind() == crate::error::ErrorKind::Violation,
{
}

} // verus!
