//! The single-version codec: a reader for files whose header holds one
//! 32-bit version number in place of a major and a minor revision.
//!
//! The model body has the layout of revision 2. The counts are kept with
//! the model, and the name of the scene and the model's center are kept
//! together as the model's root.

use vstd::prelude::*;
use crate::encode::{Decode, DecodeWith, decoded_seq, decoded_seq_with, lemma_decoded_seq_bounds,
    lemma_decoded_seq_with_bounds, lemma_decoded_seq_within, outcome, read_seq, read_seq_with};
use crate::error::Error;
use crate::types::{Mat4, Pos2, Pos3};

verus! {

/// The magic number that opens every model: the four characters "SSMF".
pub const SSMF: u32 = 0x464D5353;

/// The header in its older shape: the magic number and a single version.
#[derive(Debug, Clone, Copy, PartialEq, Eq, Structural)]
pub struct ModelHeader {
    pub magic: u32,
    pub version: u32,
}

impl DeepView for ModelHeader {
    type V = ModelHeader;

    open spec fn deep_view(&self) -> ModelHeader {
        *self
    }
}

/// The magic number, then the version, in four bytes each.
impl Decode for ModelHeader {
    open spec fn decoded(data: Seq<u8>, pos: int) -> Result<(ModelHeader, int), Error> {
        match <(u32, u32)>::decoded(data, pos) {
            Err(e) => Err(e),
            Ok((c, end)) => Ok((ModelHeader { magic: c.0, version: c.1 }, end)),
        }
    }

    proof fn lemma_decoded_bounds(data: Seq<u8>, pos: int) {
        <(u32, u32)>::lemma_decoded_bounds(data, pos);
    }

    fn read(data: &[u8], pos: usize) -> (r: Result<(ModelHeader, usize), Error>) {
        let ((magic, version), end) = <(u32, u32)>::read(data, pos)?;
        Ok((ModelHeader { magic, version }, end))
    }
}

impl ModelHeader {
    /// The header in its newer shape: the low half of the version is the
    /// major revision, the high half the minor revision.
    pub open spec fn spec_revision(self) -> crate::ModelHeader {
        crate::ModelHeader {
            magic: self.magic,
            major: (self.version % 65536) as u16,
            minor: (self.version / 65536) as u16,
        }
    }

    /// The header in its newer shape.
    #[verifier::when_used_as_spec(spec_revision)]
    pub fn revision(self) -> (h: crate::ModelHeader)
        ensures
            h == self.spec_revision(),
    {
        crate::ModelHeader {
            magic: self.magic,
            major: (self.version % 65536) as u16,
            minor: (self.version / 65536) as u16,
        }
    }
}

/// The two shapes of the header take the same eight bytes: what is read
/// in the older shape is, split in two halves, what is read in the newer.
pub proof fn lemma_header_shapes_agree(data: Seq<u8>, pos: int)
    ensures
        match ModelHeader::decoded(data, pos) {
            Ok((header, end)) => crate::ModelHeader::decoded(data, pos) == Ok::<
                (crate::ModelHeader, int),
                Error,
            >((header.spec_revision(), end)),
            Err(e) => crate::ModelHeader::decoded(data, pos) == Err::<
                (crate::ModelHeader, int),
                Error,
            >(e),
        },
{
}

/// A vertex: where it is, its normal, and its place on the texture.
#[derive(Debug, Clone, Copy, PartialEq, Eq, Structural)]
pub struct Vertex {
    pub position: Pos3,
    pub normal: Pos3,
    pub texture: Pos2,
}

impl DeepView for Vertex {
    type V = Vertex;

    open spec fn deep_view(&self) -> Vertex {
        *self
    }
}

/// The position, the normal, then the texture coordinate.
impl Decode for Vertex {
    open spec fn decoded(data: Seq<u8>, pos: int) -> Result<(Vertex, int), Error> {
        match <(Pos3, Pos3, Pos2)>::decoded(data, pos) {
            Err(e) => Err(e),
            Ok((c, end)) => Ok((Vertex { position: c.0, normal: c.1, texture: c.2 }, end)),
        }
    }

    proof fn lemma_decoded_bounds(data: Seq<u8>, pos: int) {
        <(Pos3, Pos3, Pos2)>::lemma_decoded_bounds(data, pos);
    }

    fn read(data: &[u8], pos: usize) -> (r: Result<(Vertex, usize), Error>) {
        let ((position, normal, texture), end) = <(Pos3, Pos3, Pos2)>::read(data, pos)?;
        Ok((Vertex { position, normal, texture }, end))
    }
}

/// A triangle, by the indices of its three vertices.
#[derive(Debug, Clone, Copy, PartialEq, Eq, Structural)]
pub struct Triangle(pub u32, pub u32, pub u32);

impl DeepView for Triangle {
    type V = Triangle;

    open spec fn deep_view(&self) -> Triangle {
        *self
    }
}

/// Three indices.
impl Decode for Triangle {
    open spec fn decoded(data: Seq<u8>, pos: int) -> Result<(Triangle, int), Error> {
        match <(u32, u32, u32)>::decoded(data, pos) {
            Err(e) => Err(e),
            Ok((c, end)) => Ok((Triangle(c.0, c.1, c.2), end)),
        }
    }

    proof fn lemma_decoded_bounds(data: Seq<u8>, pos: int) {
        <(u32, u32, u32)>::lemma_decoded_bounds(data, pos);
    }

    fn read(data: &[u8], pos: usize) -> (r: Result<(Triangle, usize), Error>) {
        let ((a, b, c), end) = <(u32, u32, u32)>::read(data, pos)?;
        Ok((Triangle(a, b, c), end))
    }
}

/// A run of vertices or of triangles: where it starts and how long it is.
/// The codec does not hold the range against what it points into.
#[derive(Debug, Clone, Copy, PartialEq, Eq, Structural)]
pub struct Selection {
    pub offset: u32,
    pub len: u32,
}

impl DeepView for Selection {
    type V = Selection;

    open spec fn deep_view(&self) -> Selection {
        *self
    }
}

/// The offset, then the length.
impl Decode for Selection {
    open spec fn decoded(data: Seq<u8>, pos: int) -> Result<(Selection, int), Error> {
        match <(u32, u32)>::decoded(data, pos) {
            Err(e) => Err(e),
            Ok((c, end)) => Ok((Selection { offset: c.0, len: c.1 }, end)),
        }
    }

    proof fn lemma_decoded_bounds(data: Seq<u8>, pos: int) {
        <(u32, u32)>::lemma_decoded_bounds(data, pos);
    }

    fn read(data: &[u8], pos: usize) -> (r: Result<(Selection, usize), Error>) {
        let ((offset, len), end) = <(u32, u32)>::read(data, pos)?;
        Ok((Selection { offset, len }, end))
    }
}

/// Decodes a selection at `pos`.
pub fn read(data: &[u8], pos: usize) -> (r: Result<(Selection, usize), Error>)
    ensures
        outcome(r) == Selection::decoded(data@, pos as int),
{
    <Selection as Decode>::read(data, pos)
}

/// An axis-aligned bounding box, given by its lower and its upper corner.
#[derive(Debug, Clone, Copy, PartialEq, Eq, Structural)]
pub struct Aabb {
    pub lower: Pos3,
    pub upper: Pos3,
}

impl DeepView for Aabb {
    type V = Aabb;

    open spec fn deep_view(&self) -> Aabb {
        *self
    }
}

/// The lower corner, then the upper corner.
impl Decode for Aabb {
    open spec fn decoded(data: Seq<u8>, pos: int) -> Result<(Aabb, int), Error> {
        match <(Pos3, Pos3)>::decoded(data, pos) {
            Err(e) => Err(e),
            Ok((c, end)) => Ok((Aabb { lower: c.0, upper: c.1 }, end)),
        }
    }

    proof fn lemma_decoded_bounds(data: Seq<u8>, pos: int) {
        <(Pos3, Pos3)>::lemma_decoded_bounds(data, pos);
    }

    fn read(data: &[u8], pos: usize) -> (r: Result<(Aabb, usize), Error>) {
        let ((lower, upper), end) = <(Pos3, Pos3)>::read(data, pos)?;
        Ok((Aabb { lower, upper }, end))
    }
}

/// The counts that open a model body. They size every section that follows.
#[derive(Debug, Clone, Copy, PartialEq, Eq, Structural)]
pub struct Quantities {
    pub tris: u32,
    pub vertices: u32,
    pub tags: u32,
    pub materials: u32,
    pub frames: u32,
    pub additional_models: u32,
    pub lod_levels: u32,
}

impl DeepView for Quantities {
    type V = Quantities;

    open spec fn deep_view(&self) -> Quantities {
        *self
    }
}

impl Quantities {
    /// The counts that stand in `wire` in the order of the format.
    pub open spec fn from_wire(wire: Seq<u32>) -> Quantities {
        Quantities {
            tris: wire[0],
            vertices: wire[1],
            tags: wire[2],
            materials: wire[3],
            frames: wire[4],
            additional_models: wire[5],
            lod_levels: wire[6],
        }
    }
}

/// Seven 32-bit counts.
impl Decode for Quantities {
    open spec fn decoded(data: Seq<u8>, pos: int) -> Result<(Quantities, int), Error> {
        match decoded_seq::<u32>(data, pos, 7) {
            Err(e) => Err(e),
            Ok((wire, end)) => Ok((Quantities::from_wire(wire), end)),
        }
    }

    proof fn lemma_decoded_bounds(data: Seq<u8>, pos: int) {
        lemma_decoded_seq_within::<u32>(data, pos, 7);
    }

    fn read(data: &[u8], pos: usize) -> (r: Result<(Quantities, usize), Error>) {
        let (wire, end) = read_seq::<u32>(data, pos, 7)?;
        proof {
            lemma_decoded_seq_within::<u32>(data@, pos as int, 7);
        }
        Ok(
            (
                Quantities {
                    tris: wire[0],
                    vertices: wire[1],
                    tags: wire[2],
                    materials: wire[3],
                    frames: wire[4],
                    additional_models: wire[5],
                    lod_levels: wire[6],
                },
                end,
            ),
        )
    }
}

/// One level of detail: all its triangles.
#[derive(Debug, Clone)]
pub struct Lod(pub Vec<Triangle>);

impl DeepView for Lod {
    type V = Seq<Triangle>;

    open spec fn deep_view(&self) -> Seq<Triangle> {
        self.0.deep_view()
    }
}

/// The triangles as a list that carries its length.
impl Decode for Lod {
    open spec fn decoded(data: Seq<u8>, pos: int) -> Result<(Seq<Triangle>, int), Error> {
        Vec::<Triangle>::decoded(data, pos)
    }

    proof fn lemma_decoded_bounds(data: Seq<u8>, pos: int) {
        Vec::<Triangle>::lemma_decoded_bounds(data, pos);
    }

    fn read(data: &[u8], pos: usize) -> (r: Result<(Lod, usize), Error>) {
        let (triangles, end) = Vec::<Triangle>::read(data, pos)?;
        Ok((Lod(triangles), end))
    }
}

/// The root of a model: the name of its scene and the model's center.
#[derive(Debug, Clone)]
pub struct Root {
    pub name: String,
    pub center: Pos3,
}

/// The mathematical view of a [`Root`].
pub struct RootView {
    pub name: Seq<char>,
    pub center: Pos3,
}

impl DeepView for Root {
    type V = RootView;

    open spec fn deep_view(&self) -> RootView {
        RootView { name: self.name@, center: self.center }
    }
}

/// The name, then the center.
impl Decode for Root {
    open spec fn decoded(data: Seq<u8>, pos: int) -> Result<(RootView, int), Error> {
        match <(String, Pos3)>::decoded(data, pos) {
            Err(e) => Err(e),
            Ok((c, end)) => Ok((RootView { name: c.0, center: c.1 }, end)),
        }
    }

    proof fn lemma_decoded_bounds(data: Seq<u8>, pos: int) {
        <(String, Pos3)>::lemma_decoded_bounds(data, pos);
    }

    fn read(data: &[u8], pos: usize) -> (r: Result<(Root, usize), Error>) {
        let ((name, center), end) = <(String, Pos3)>::read(data, pos)?;
        Ok((Root { name, center }, end))
    }
}

/// A material: what is drawn with which texture.
#[derive(Debug, Clone)]
pub struct Material {
    pub name: String,
    /// The texture bound to this material; the bindings are managed elsewhere.
    pub texture: u32,
    /// The run of triangles of this material in each LOD level.
    pub triangles: Vec<Selection>,
    /// The run of vertices that the triangles of all LOD levels use.
    pub vertices: Selection,
    pub name2: String,
}

/// The mathematical view of a [`Material`].
pub struct MaterialView {
    pub name: Seq<char>,
    pub texture: u32,
    pub triangles: Seq<Selection>,
    pub vertices: Selection,
    pub name2: Seq<char>,
}

impl DeepView for Material {
    type V = MaterialView;

    open spec fn deep_view(&self) -> MaterialView {
        MaterialView {
            name: self.name@,
            texture: self.texture,
            triangles: self.triangles.deep_view(),
            vertices: self.vertices,
            name2: self.name2@,
        }
    }
}

/// The name, the texture, one selection for each LOD level, the vertex
/// range, then the second name. The context is the number of LOD levels.
impl DecodeWith<usize> for Material {
    open spec fn decoded_with(lod_levels: usize, data: Seq<u8>, pos: int) -> Result<
        (MaterialView, int),
        Error,
    > {
        match <(String, u32)>::decoded(data, pos) {
            Err(e) => Err(e),
            Ok((head, p1)) => match decoded_seq::<Selection>(data, p1, lod_levels as nat) {
                Err(e) => Err(e),
                Ok((triangles, p2)) => match <(Selection, String)>::decoded(data, p2) {
                    Err(e) => Err(e),
                    Ok((tail, end)) => Ok(
                        (
                            MaterialView {
                                name: head.0,
                                texture: head.1,
                                triangles,
                                vertices: tail.0,
                                name2: tail.1,
                            },
                            end,
                        ),
                    ),
                },
            },
        }
    }

    proof fn lemma_decoded_with_bounds(lod_levels: usize, data: Seq<u8>, pos: int) {
        <(String, u32)>::lemma_decoded_bounds(data, pos);
        if let Ok((head, p1)) = <(String, u32)>::decoded(data, pos) {
            lemma_decoded_seq_bounds::<Selection>(data, p1, lod_levels as nat);
            if let Ok((triangles, p2)) = decoded_seq::<Selection>(data, p1, lod_levels as nat) {
                <(Selection, String)>::lemma_decoded_bounds(data, p2);
            }
        }
    }

    fn read_with(lod_levels: usize, data: &[u8], pos: usize) -> (r: Result<
        (Material, usize),
        Error,
    >) {
        let ((name, texture), p1) = <(String, u32)>::read(data, pos)?;
        let (triangles, p2) = read_seq::<Selection>(data, p1, lod_levels)?;
        let ((vertices, name2), end) = <(Selection, String)>::read(data, p2)?;
        Ok((Material { name, texture, triangles, vertices, name2 }, end))
    }
}

impl Material {
    /// Decodes a material of a model with `lod_levels` LOD levels.
    pub fn read(data: &[u8], pos: usize, lod_levels: usize) -> (r: Result<(Material, usize), Error>)
        ensures
            outcome(r) == <Material as DecodeWith<usize>>::decoded_with(
                lod_levels,
                data@,
                pos as int,
            ),
    {
        <Material as DecodeWith<usize>>::read_with(lod_levels, data, pos)
    }
}

/// One frame of the model's animation.
#[derive(Debug, Clone)]
pub struct Frame {
    pub radius: u32,
    pub vertices: Vec<Vertex>,
    pub tag_points: Vec<Pos3>,
    pub transform: Mat4,
    pub bound: Aabb,
}

/// The mathematical view of a [`Frame`].
pub struct FrameView {
    pub radius: u32,
    pub vertices: Seq<Vertex>,
    pub tag_points: Seq<Pos3>,
    pub transform: Seq<u32>,
    pub bound: Aabb,
}

impl DeepView for Frame {
    type V = FrameView;

    open spec fn deep_view(&self) -> FrameView {
        FrameView {
            radius: self.radius,
            vertices: self.vertices.deep_view(),
            tag_points: self.tag_points.deep_view(),
            transform: self.transform.deep_view(),
            bound: self.bound,
        }
    }
}

/// The radius, the vertices, the tag points, the transform, then the
/// bounding box. The context is the number of vertices and the number of
/// tag points.
impl DecodeWith<(usize, usize)> for Frame {
    open spec fn decoded_with(counts: (usize, usize), data: Seq<u8>, pos: int) -> Result<
        (FrameView, int),
        Error,
    > {
        match u32::decoded(data, pos) {
            Err(e) => Err(e),
            Ok((radius, p1)) => match decoded_seq::<Vertex>(data, p1, counts.0 as nat) {
                Err(e) => Err(e),
                Ok((vertices, p2)) => match decoded_seq::<Pos3>(data, p2, counts.1 as nat) {
                    Err(e) => Err(e),
                    Ok((tag_points, p3)) => match <(Mat4, Aabb)>::decoded(data, p3) {
                        Err(e) => Err(e),
                        Ok((tail, end)) => Ok(
                            (
                                FrameView {
                                    radius,
                                    vertices,
                                    tag_points,
                                    transform: tail.0,
                                    bound: tail.1,
                                },
                                end,
                            ),
                        ),
                    },
                },
            },
        }
    }

    proof fn lemma_decoded_with_bounds(counts: (usize, usize), data: Seq<u8>, pos: int) {
        if let Ok((radius, p1)) = u32::decoded(data, pos) {
            lemma_decoded_seq_bounds::<Vertex>(data, p1, counts.0 as nat);
            if let Ok((vertices, p2)) = decoded_seq::<Vertex>(data, p1, counts.0 as nat) {
                lemma_decoded_seq_bounds::<Pos3>(data, p2, counts.1 as nat);
                if let Ok((tag_points, p3)) = decoded_seq::<Pos3>(data, p2, counts.1 as nat) {
                    <(Mat4, Aabb)>::lemma_decoded_bounds(data, p3);
                }
            }
        }
    }

    fn read_with(counts: (usize, usize), data: &[u8], pos: usize) -> (r: Result<
        (Frame, usize),
        Error,
    >) {
        let (radius, p1) = u32::read(data, pos)?;
        let (vertices, p2) = read_seq::<Vertex>(data, p1, counts.0)?;
        let (tag_points, p3) = read_seq::<Pos3>(data, p2, counts.1)?;
        let ((transform, bound), end) = <(Mat4, Aabb)>::read(data, p3)?;
        Ok((Frame { radius, vertices, tag_points, transform, bound }, end))
    }
}

impl Frame {
    /// Decodes a frame of a model with `vertex_count` vertices and
    /// `tag_point_count` tag points.
    pub fn read(data: &[u8], pos: usize, vertex_count: usize, tag_point_count: usize) -> (r: Result<
        (Frame, usize),
        Error,
    >)
        ensures
            outcome(r) == <Frame as DecodeWith<(usize, usize)>>::decoded_with(
                (vertex_count, tag_point_count),
                data@,
                pos as int,
            ),
    {
        <Frame as DecodeWith<(usize, usize)>>::read_with(
            (vertex_count, tag_point_count),
            data,
            pos,
        )
    }
}

/// A model, with the counts it was read with.
#[derive(Debug, Clone)]
pub struct Model {
    pub quantities: Quantities,
    pub root: Root,
    pub lod_levels: Vec<Lod>,
    pub materials: Vec<Material>,
    pub tag_points: Vec<String>,
    pub frames: Vec<Frame>,
}

/// The mathematical view of a [`Model`].
pub struct ModelView {
    pub quantities: Quantities,
    pub root: RootView,
    pub lod_levels: Seq<Seq<Triangle>>,
    pub materials: Seq<MaterialView>,
    pub tag_points: Seq<Seq<char>>,
    pub frames: Seq<FrameView>,
}

impl DeepView for Model {
    type V = ModelView;

    open spec fn deep_view(&self) -> ModelView {
        ModelView {
            quantities: self.quantities,
            root: self.root.deep_view(),
            lod_levels: self.lod_levels.deep_view(),
            materials: self.materials.deep_view(),
            tag_points: self.tag_points.deep_view(),
            frames: self.frames.deep_view(),
        }
    }
}

/// The counts, the root, the LOD levels, the materials, the names of the
/// tag points, then the frames, each as many times as the counts say.
impl Decode for Model {
    open spec fn decoded(data: Seq<u8>, pos: int) -> Result<(ModelView, int), Error> {
        match <(Quantities, Root)>::decoded(data, pos) {
            Err(e) => Err(e),
            Ok(((q, root), p1)) => match decoded_seq::<Lod>(data, p1, q.lod_levels as nat) {
                Err(e) => Err(e),
                Ok((lod_levels, p2)) => match decoded_seq_with::<usize, Material>(
                    q.lod_levels as usize,
                    data,
                    p2,
                    q.materials as nat,
                ) {
                    Err(e) => Err(e),
                    Ok((materials, p3)) => match decoded_seq::<String>(data, p3, q.tags as nat) {
                        Err(e) => Err(e),
                        Ok((tag_points, p4)) => match decoded_seq_with::<(usize, usize), Frame>(
                            (q.vertices as usize, q.tags as usize),
                            data,
                            p4,
                            q.frames as nat,
                        ) {
                            Err(e) => Err(e),
                            Ok((frames, end)) => Ok(
                                (
                                    ModelView {
                                        quantities: q,
                                        root,
                                        lod_levels,
                                        materials,
                                        tag_points,
                                        frames,
                                    },
                                    end,
                                ),
                            ),
                        },
                    },
                },
            },
        }
    }

    proof fn lemma_decoded_bounds(data: Seq<u8>, pos: int) {
        <(Quantities, Root)>::lemma_decoded_bounds(data, pos);
        if let Ok(((q, root), p1)) = <(Quantities, Root)>::decoded(data, pos) {
            lemma_decoded_seq_bounds::<Lod>(data, p1, q.lod_levels as nat);
            if let Ok((lod_levels, p2)) = decoded_seq::<Lod>(data, p1, q.lod_levels as nat) {
                lemma_decoded_seq_with_bounds::<usize, Material>(
                    q.lod_levels as usize,
                    data,
                    p2,
                    q.materials as nat,
                );
                if let Ok((materials, p3)) = decoded_seq_with::<usize, Material>(
                    q.lod_levels as usize,
                    data,
                    p2,
                    q.materials as nat,
                ) {
                    lemma_decoded_seq_bounds::<String>(data, p3, q.tags as nat);
                    if let Ok((tag_points, p4)) = decoded_seq::<String>(data, p3, q.tags as nat) {
                        lemma_decoded_seq_with_bounds::<(usize, usize), Frame>(
                            (q.vertices as usize, q.tags as usize),
                            data,
                            p4,
                            q.frames as nat,
                        );
                    }
                }
            }
        }
    }

    fn read(data: &[u8], pos: usize) -> (r: Result<(Model, usize), Error>) {
        let ((q, root), p1) = <(Quantities, Root)>::read(data, pos)?;
        let (lod_levels, p2) = read_seq::<Lod>(data, p1, q.lod_levels as usize)?;
        let (materials, p3) = read_seq_with::<usize, Material>(
            q.lod_levels as usize,
            data,
            p2,
            q.materials as usize,
        )?;
        let (tag_points, p4) = read_seq::<String>(data, p3, q.tags as usize)?;
        let (frames, end) = read_seq_with::<(usize, usize), Frame>(
            (q.vertices as usize, q.tags as usize),
            data,
            p4,
            q.frames as usize,
        )?;
        Ok((Model { quantities: q, root, lod_levels, materials, tag_points, frames }, end))
    }
}

} // verus!
