//! Revision 5.0 of the format, of which only a part is understood.
//!
//! The counts, the name, the center, the common vertices, the triangles,
//! the materials and the names of the tag points have a known layout. The
//! body of a frame and the meaning of a shadow edge do not: where a model
//! has either, decoding stops with [`Error::Unimplemented`] and makes
//! nothing up. Nothing of this revision can be written yet.

use vstd::prelude::*;
use crate::{ModelHeader, MAGIC};
use crate::encode::{Decode, Encode, decoded_seq, decoded_seq_with, encoded_seq,
    lemma_decoded_seq_bounds, lemma_decoded_seq_with_bounds, lemma_decoded_seq_within,
    lemma_seq_round_trip, read_seq, read_seq_with, write_seq};
use crate::error::Error;
use crate::math::Point3;
use crate::scene::{Model, NodeData, NodeDataView};
use crate::v2;

verus! {

/// The counts that open a model body. Of the first two the meaning is not
/// known: they may count all vertices and the common vertices.
#[derive(Debug, Clone, Copy, PartialEq, Eq, Structural)]
pub struct Quantities {
    pub unknown0: u32,
    pub unknown1: u32,
    pub tag_points: u32,
    pub materials: u32,
    pub frames: u32,
    pub additional_models: u32,
    pub lod_levels: u32,
    pub points: u32,
}

impl DeepView for Quantities {
    type V = Quantities;

    open spec fn deep_view(&self) -> Quantities {
        *self
    }
}

impl Quantities {
    /// The counts that stand in `wire` in the order of the format.
    pub open spec fn from_wire(wire: Seq<u32>) -> Quantities {
        Quantities {
            unknown0: wire[0],
            unknown1: wire[1],
            tag_points: wire[2],
            materials: wire[3],
            frames: wire[4],
            additional_models: wire[5],
            lod_levels: wire[6],
            points: wire[7],
        }
    }

    /// The counts in the order of the format.
    pub open spec fn to_wire(self) -> Seq<u32> {
        seq![
            self.unknown0,
            self.unknown1,
            self.tag_points,
            self.materials,
            self.frames,
            self.additional_models,
            self.lod_levels,
            self.points,
        ]
    }
}

/// Eight 32-bit counts.
impl Decode for Quantities {
    open spec fn decoded(data: Seq<u8>, pos: int) -> Result<(Quantities, int), Error> {
        match decoded_seq::<u32>(data, pos, 8) {
            Err(e) => Err(e),
            Ok((wire, end)) => Ok((Quantities::from_wire(wire), end)),
        }
    }

    proof fn lemma_decoded_bounds(data: Seq<u8>, pos: int) {
        lemma_decoded_seq_within::<u32>(data, pos, 8);
    }

    fn read(data: &[u8], pos: usize) -> (r: Result<(Quantities, usize), Error>) {
        let (wire, end) = read_seq::<u32>(data, pos, 8)?;
        proof {
            lemma_decoded_seq_within::<u32>(data@, pos as int, 8);
        }
        Ok(
            (
                Quantities {
                    unknown0: wire[0],
                    unknown1: wire[1],
                    tag_points: wire[2],
                    materials: wire[3],
                    frames: wire[4],
                    additional_models: wire[5],
                    lod_levels: wire[6],
                    points: wire[7],
                },
                end,
            ),
        )
    }
}

impl Encode for Quantities {
    open spec fn encodable(v: Quantities) -> bool {
        true
    }

    open spec fn encoded(v: Quantities) -> Seq<u8> {
        encoded_seq::<u32>(v.to_wire())
    }

    open spec fn canonical(v: Quantities) -> bool {
        true
    }

    proof fn lemma_round_trip(v: Quantities, data: Seq<u8>, pos: int) {
        lemma_seq_round_trip::<u32>(v.to_wire(), data, pos);
    }

    fn write(&self, out: &mut Vec<u8>) -> (r: Result<(), Error>) {
        let wire: Vec<u32> = vec![
            self.unknown0,
            self.unknown1,
            self.tag_points,
            self.materials,
            self.frames,
            self.additional_models,
            self.lod_levels,
            self.points,
        ];
        assert(wire.deep_view() =~= self.to_wire());
        write_seq::<u32>(&wire, out)
    }
}

/// A common vertex: sixteen numbers and an integer, of unknown meaning.
#[derive(Debug, Clone, Copy, PartialEq, Eq)]
pub struct CommonVertex {
    pub unknown0: [u32; 16],
    pub unknown1: i32,
}

/// The mathematical view of a [`CommonVertex`].
pub struct CommonVertexView {
    pub unknown0: Seq<u32>,
    pub unknown1: i32,
}

impl DeepView for CommonVertex {
    type V = CommonVertexView;

    open spec fn deep_view(&self) -> CommonVertexView {
        CommonVertexView { unknown0: self.unknown0@, unknown1: self.unknown1 }
    }
}

/// Sixteen numbers, then a signed integer.
impl Decode for CommonVertex {
    open spec fn decoded(data: Seq<u8>, pos: int) -> Result<(CommonVertexView, int), Error> {
        match decoded_seq::<u32>(data, pos, 16) {
            Err(e) => Err(e),
            Ok((unknown0, mid)) => match i32::decoded(data, mid) {
                Err(e) => Err(e),
                Ok((unknown1, end)) => Ok((CommonVertexView { unknown0, unknown1 }, end)),
            },
        }
    }

    proof fn lemma_decoded_bounds(data: Seq<u8>, pos: int) {
        lemma_decoded_seq_within::<u32>(data, pos, 16);
    }

    fn read(data: &[u8], pos: usize) -> (r: Result<(CommonVertex, usize), Error>) {
        let (w, mid) = read_seq::<u32>(data, pos, 16)?;
        proof {
            lemma_decoded_seq_within::<u32>(data@, pos as int, 16);
        }
        let (unknown1, end) = i32::read(data, mid)?;
        let unknown0: [u32; 16] = [
            w[0], w[1], w[2], w[3],
            w[4], w[5], w[6], w[7],
            w[8], w[9], w[10], w[11],
            w[12], w[13], w[14], w[15],
        ];
        assert(unknown0@ =~= w.deep_view());
        Ok((CommonVertex { unknown0, unknown1 }, end))
    }
}

/// One frame of the model's animation. Only that it starts with a radius
/// is known of its layout.
#[derive(Debug, Clone, Copy, PartialEq, Eq, Structural)]
pub struct Frame {
    pub radius: u32,
}

impl DeepView for Frame {
    type V = Frame;

    open spec fn deep_view(&self) -> Frame {
        *self
    }
}

/// The layout of a frame is not known: decoding one always fails.
impl Decode for Frame {
    open spec fn decoded(data: Seq<u8>, pos: int) -> Result<(Frame, int), Error> {
        Err(Error::Unimplemented)
    }

    proof fn lemma_decoded_bounds(data: Seq<u8>, pos: int) {
    }

    fn read(data: &[u8], pos: usize) -> (r: Result<(Frame, usize), Error>) {
        Err(Error::Unimplemented)
    }
}

/// An edge of the model's shadow volume: an integer and four 16-bit
/// integers, of unknown meaning.
#[derive(Debug, Clone, Copy, PartialEq, Eq)]
pub struct ShadowEdge {
    pub unknown0: u32,
    pub unknown1: [u16; 4],
}

/// The mathematical view of a [`ShadowEdge`].
pub struct ShadowEdgeView {
    pub unknown0: u32,
    pub unknown1: Seq<u16>,
}

impl DeepView for ShadowEdge {
    type V = ShadowEdgeView;

    open spec fn deep_view(&self) -> ShadowEdgeView {
        ShadowEdgeView { unknown0: self.unknown0, unknown1: self.unknown1@ }
    }
}

impl ShadowEdge {
    /// What a shadow edge means is not known: decoding one always fails.
    pub fn read(data: &[u8], pos: usize) -> (r: Result<(ShadowEdge, usize), Error>)
        ensures
            r == Err::<(ShadowEdge, usize), Error>(Error::Unimplemented),
    {
        Err(Error::Unimplemented)
    }
}

/// What a shadow edge means is not known: decoding one always fails.
impl Decode for ShadowEdge {
    open spec fn decoded(data: Seq<u8>, pos: int) -> Result<(ShadowEdgeView, int), Error> {
        Err(Error::Unimplemented)
    }

    proof fn lemma_decoded_bounds(data: Seq<u8>, pos: int) {
    }

    fn read(data: &[u8], pos: usize) -> (r: Result<(ShadowEdge, usize), Error>) {
        ShadowEdge::read(data, pos)
    }
}

/// A model of revision 5.0.
#[derive(Debug, Clone)]
pub struct V5 {
    pub quantities: Quantities,
    pub center: Point3,
    pub common_vertices: Vec<CommonVertex>,
    /// The triangles of each LOD level; the indices have 16 bits here.
    pub lod_levels: Vec<Vec<(u16, u16, u16)>>,
    pub materials: Vec<v2::Material>,
    pub tag_points: Vec<String>,
    pub frames: Vec<Frame>,
    pub points: Vec<Point3>,
    pub shadow: Vec<ShadowEdge>,
}

/// The mathematical view of a [`V5`].
pub struct V5View {
    pub quantities: Quantities,
    pub center: Point3,
    pub common_vertices: Seq<CommonVertexView>,
    pub lod_levels: Seq<Seq<(u16, u16, u16)>>,
    pub materials: Seq<v2::MaterialView>,
    pub tag_points: Seq<Seq<char>>,
    pub frames: Seq<Frame>,
    pub points: Seq<Point3>,
    pub shadow: Seq<ShadowEdgeView>,
}

impl DeepView for V5 {
    type V = V5View;

    open spec fn deep_view(&self) -> V5View {
        V5View {
            quantities: self.quantities,
            center: self.center,
            common_vertices: self.common_vertices.deep_view(),
            lod_levels: self.lod_levels.deep_view(),
            materials: self.materials.deep_view(),
            tag_points: self.tag_points.deep_view(),
            frames: self.frames.deep_view(),
            points: self.points.deep_view(),
            shadow: self.shadow.deep_view(),
        }
    }
}

/// The sections of a model body that come after the counts, the name and
/// the center.
pub struct Sections {
    pub common_vertices: Seq<CommonVertexView>,
    pub lod_levels: Seq<Seq<(u16, u16, u16)>>,
    pub materials: Seq<v2::MaterialView>,
    pub tag_points: Seq<Seq<char>>,
    pub frames: Seq<Frame>,
    pub points: Seq<Point3>,
    pub shadow: Seq<ShadowEdgeView>,
}

impl V5View {
    /// The counts that are written for this model: those it was read with,
    /// but for the number of child scenes.
    pub open spec fn quantities(self, additional_models: u32) -> Quantities {
        Quantities { additional_models, ..self.quantities }
    }
}

impl V5 {
    /// The counts that are written for this model.
    pub fn quantities(&self, additional_models: u32) -> (r: Result<Quantities, Error>)
        ensures
            r == Ok::<Quantities, Error>(self.deep_view().quantities(additional_models)),
    {
        let mut quantities = self.quantities;
        quantities.additional_models = additional_models;
        Ok(quantities)
    }

    /// What decoding the sections of a model with the counts `q` yields:
    /// the common vertices, as a list that carries its length; the
    /// triangles of each LOD level; the materials; the names of the tag
    /// points; the frames; the points; then the shadow edges, as a list that
    /// carries its length. A model with a frame or with a shadow edge stops
    /// the decoder there.
    pub open spec fn decoded_sections(q: Quantities, data: Seq<u8>, pos: int) -> Result<
        (Sections, int),
        Error,
    > {
        match Vec::<CommonVertex>::decoded(data, pos) {
            Err(e) => Err(e),
            Ok((common_vertices, p1)) => match decoded_seq::<Vec<(u16, u16, u16)>>(
                data,
                p1,
                q.lod_levels as nat,
            ) {
                Err(e) => Err(e),
                Ok((lod_levels, p2)) => match decoded_seq_with::<usize, v2::Material>(
                    q.lod_levels as usize,
                    data,
                    p2,
                    q.materials as nat,
                ) {
                    Err(e) => Err(e),
                    Ok((materials, p3)) => match decoded_seq::<String>(
                        data,
                        p3,
                        q.tag_points as nat,
                    ) {
                        Err(e) => Err(e),
                        Ok((tag_points, p4)) => match decoded_seq::<Frame>(
                            data,
                            p4,
                            q.frames as nat,
                        ) {
                            Err(e) => Err(e),
                            Ok((frames, p5)) => match decoded_seq::<Point3>(
                                data,
                                p5,
                                q.points as nat,
                            ) {
                                Err(e) => Err(e),
                                Ok((points, p6)) => match Vec::<ShadowEdge>::decoded(data, p6) {
                                    Err(e) => Err(e),
                                    Ok((shadow, end)) => Ok(
                                        (
                                            Sections {
                                                common_vertices,
                                                lod_levels,
                                                materials,
                                                tag_points,
                                                frames,
                                                points,
                                                shadow,
                                            },
                                            end,
                                        ),
                                    ),
                                },
                            },
                        },
                    },
                },
            },
        }
    }
}

impl Model for V5 {
    open spec fn header() -> ModelHeader {
        ModelHeader { magic: MAGIC, major: 5, minor: 0 }
    }

    fn expected_header() -> (h: ModelHeader) {
        ModelHeader { magic: MAGIC, major: 5, minor: 0 }
    }

    open spec fn decoded(data: Seq<u8>, pos: int) -> Result<((V5View, NodeDataView), int), Error> {
        match <(Quantities, String, Point3)>::decoded(data, pos) {
            Err(e) => Err(e),
            Ok(((q, name, center), start)) => match V5::decoded_sections(q, data, start) {
                Err(e) => Err(e),
                Ok((s, end)) => Ok(
                    (
                        (
                            V5View {
                                quantities: q,
                                center,
                                common_vertices: s.common_vertices,
                                lod_levels: s.lod_levels,
                                materials: s.materials,
                                tag_points: s.tag_points,
                                frames: s.frames,
                                points: s.points,
                                shadow: s.shadow,
                            },
                            NodeDataView { additional_models: q.additional_models, name },
                        ),
                        end,
                    ),
                ),
            },
        }
    }

    /// The counts, the name and the center have a known layout, and a name
    /// that does not fit its field is refused as in any revision. What
    /// follows them cannot be written.
    open spec fn encoded(v: V5View, node: NodeDataView) -> Result<Seq<u8>, Error> {
        if String::encodable(node.name) {
            Err(Error::Unimplemented)
        } else {
            Err(Error::StringTooLong)
        }
    }

    proof fn lemma_header_magic() {
    }

    proof fn lemma_decoded_bounds(data: Seq<u8>, pos: int) {
        <(Quantities, String, Point3)>::lemma_decoded_bounds(data, pos);
        if let Ok(((q, name, center), start)) = <(Quantities, String, Point3)>::decoded(data, pos) {
            Vec::<CommonVertex>::lemma_decoded_bounds(data, start);
            if let Ok((common_vertices, p1)) = Vec::<CommonVertex>::decoded(data, start) {
                lemma_decoded_seq_bounds::<Vec<(u16, u16, u16)>>(data, p1, q.lod_levels as nat);
                if let Ok((lod_levels, p2)) = decoded_seq::<Vec<(u16, u16, u16)>>(
                    data,
                    p1,
                    q.lod_levels as nat,
                ) {
                    lemma_decoded_seq_with_bounds::<usize, v2::Material>(
                        q.lod_levels as usize,
                        data,
                        p2,
                        q.materials as nat,
                    );
                    if let Ok((materials, p3)) = decoded_seq_with::<usize, v2::Material>(
                        q.lod_levels as usize,
                        data,
                        p2,
                        q.materials as nat,
                    ) {
                        lemma_decoded_seq_bounds::<String>(data, p3, q.tag_points as nat);
                        if let Ok((tag_points, p4)) = decoded_seq::<String>(
                            data,
                            p3,
                            q.tag_points as nat,
                        ) {
                            lemma_decoded_seq_bounds::<Frame>(data, p4, q.frames as nat);
                            if let Ok((frames, p5)) = decoded_seq::<Frame>(
                                data,
                                p4,
                                q.frames as nat,
                            ) {
                                lemma_decoded_seq_bounds::<Point3>(data, p5, q.points as nat);
                                if let Ok((points, p6)) = decoded_seq::<Point3>(
                                    data,
                                    p5,
                                    q.points as nat,
                                ) {
                                    Vec::<ShadowEdge>::lemma_decoded_bounds(data, p6);
                                }
                            }
                        }
                    }
                }
            }
        }
    }

    fn read(data: &[u8], pos: usize) -> (r: Result<((V5, NodeData), usize), Error>) {
        let ((q, name, center), start) = <(Quantities, String, Point3)>::read(data, pos)?;
        let (common_vertices, p1) = Vec::<CommonVertex>::read(data, start)?;
        let (lod_levels, p2) = read_seq::<Vec<(u16, u16, u16)>>(data, p1, q.lod_levels as usize)?;
        let (materials, p3) = read_seq_with::<usize, v2::Material>(
            q.lod_levels as usize,
            data,
            p2,
            q.materials as usize,
        )?;
        let (tag_points, p4) = read_seq::<String>(data, p3, q.tag_points as usize)?;
        let (frames, p5) = read_seq::<Frame>(data, p4, q.frames as usize)?;
        let (points, p6) = read_seq::<Point3>(data, p5, q.points as usize)?;
        let (shadow, end) = Vec::<ShadowEdge>::read(data, p6)?;
        Ok(
            (
                (
                    V5 {
                        quantities: q,
                        center,
                        common_vertices,
                        lod_levels,
                        materials,
                        tag_points,
                        frames,
                        points,
                        shadow,
                    },
                    NodeData { additional_models: q.additional_models, name },
                ),
                end,
            ),
        )
    }

    fn write(&self, out: &mut Vec<u8>, node: NodeData) -> (r: Result<(), Error>) {
        let mut scratch: Vec<u8> = Vec::new();
        node.name.write(&mut scratch)?;
        Err(Error::Unimplemented)
    }
}

/// Whatever is decoded has neither a frame nor a shadow edge: a model that
/// has either stops the decoder.
pub proof fn lemma_decoded_has_no_frames(data: Seq<u8>, pos: int)
    ensures
        V5::decoded(data, pos) matches Ok(((model, _), _)) ==> model.quantities.frames == 0
            && model.frames.len() == 0 && model.shadow.len() == 0,
{
}

} // verus!
