//! Points, vectors and the 4x4 matrix, as they travel.
//!
//! Every component is the IEEE-754 single-precision bit pattern of a number,
//! kept as a `u32`. The codec never computes with these numbers; it moves
//! them, and moving the bits is what keeps a decoded model identical to the
//! bytes it came from.

use vstd::prelude::*;
use crate::encode::{Decode, Encode, decoded_seq, encoded_seq, lemma_seq_round_trip, read_seq,
    write_seq};
use crate::error::Error;

verus! {

/// The bit pattern of `0.0`.
pub const ZERO: u32 = 0;

/// The bit pattern of `-0.0`.
pub const NEG_ZERO: u32 = 0x8000_0000;

/// The bit pattern of `1.0`.
pub const ONE: u32 = 0x3F80_0000;

/// The bit pattern of positive infinity.
pub const INFINITY: u32 = 0x7F80_0000;

/// The bit pattern of negative infinity.
pub const NEG_INFINITY: u32 = 0xFF80_0000;

/// A point of the plane.
#[derive(Debug, Clone, Copy, PartialEq, Eq, Structural)]
pub struct Point2 {
    pub x: u32,
    pub y: u32,
}

/// A point of space.
#[derive(Debug, Clone, Copy, PartialEq, Eq, Structural)]
pub struct Point3 {
    pub x: u32,
    pub y: u32,
    pub z: u32,
}

/// A direction in space.
#[derive(Debug, Clone, Copy, PartialEq, Eq, Structural)]
pub struct Vector3 {
    pub x: u32,
    pub y: u32,
    pub z: u32,
}

/// A column of a [`Matrix4`].
#[derive(Debug, Clone, Copy, PartialEq, Eq, Structural)]
pub struct Vector4 {
    pub x: u32,
    pub y: u32,
    pub z: u32,
    pub w: u32,
}

/// A 4x4 matrix, held by its columns `x`, `y`, `z`, `w`.
#[derive(Debug, Clone, Copy, PartialEq, Eq, Structural)]
pub struct Matrix4 {
    pub x: Vector4,
    pub y: Vector4,
    pub z: Vector4,
    pub w: Vector4,
}

impl DeepView for Point2 {
    type V = Point2;

    open spec fn deep_view(&self) -> Point2 {
        *self
    }
}

impl DeepView for Point3 {
    type V = Point3;

    open spec fn deep_view(&self) -> Point3 {
        *self
    }
}

impl DeepView for Vector3 {
    type V = Vector3;

    open spec fn deep_view(&self) -> Vector3 {
        *self
    }
}

impl DeepView for Matrix4 {
    type V = Matrix4;

    open spec fn deep_view(&self) -> Matrix4 {
        *self
    }
}

/// Two components, `x` then `y`.
impl Decode for Point2 {
    open spec fn decoded(data: Seq<u8>, pos: int) -> Result<(Point2, int), Error> {
        match <(u32, u32)>::decoded(data, pos) {
            Err(e) => Err(e),
            Ok((c, end)) => Ok((Point2 { x: c.0, y: c.1 }, end)),
        }
    }

    proof fn lemma_decoded_bounds(data: Seq<u8>, pos: int) {
        <(u32, u32)>::lemma_decoded_bounds(data, pos);
    }

    fn read(data: &[u8], pos: usize) -> (r: Result<(Point2, usize), Error>) {
        let ((x, y), end) = <(u32, u32)>::read(data, pos)?;
        Ok((Point2 { x, y }, end))
    }
}

impl Encode for Point2 {
    open spec fn encodable(v: Point2) -> bool {
        true
    }

    open spec fn encoded(v: Point2) -> Seq<u8> {
        <(u32, u32)>::encoded((v.x, v.y))
    }

    open spec fn canonical(v: Point2) -> bool {
        true
    }

    proof fn lemma_round_trip(v: Point2, data: Seq<u8>, pos: int) {
        <(u32, u32)>::lemma_round_trip((v.x, v.y), data, pos);
    }

    fn write(&self, out: &mut Vec<u8>) -> (r: Result<(), Error>) {
        (self.x, self.y).write(out)
    }
}

/// Three components, `x`, `y`, then `z`.
impl Decode for Point3 {
    open spec fn decoded(data: Seq<u8>, pos: int) -> Result<(Point3, int), Error> {
        match <(u32, u32, u32)>::decoded(data, pos) {
            Err(e) => Err(e),
            Ok((c, end)) => Ok((Point3 { x: c.0, y: c.1, z: c.2 }, end)),
        }
    }

    proof fn lemma_decoded_bounds(data: Seq<u8>, pos: int) {
        <(u32, u32, u32)>::lemma_decoded_bounds(data, pos);
    }

    fn read(data: &[u8], pos: usize) -> (r: Result<(Point3, usize), Error>) {
        let ((x, y, z), end) = <(u32, u32, u32)>::read(data, pos)?;
        Ok((Point3 { x, y, z }, end))
    }
}

impl Encode for Point3 {
    open spec fn encodable(v: Point3) -> bool {
        true
    }

    open spec fn encoded(v: Point3) -> Seq<u8> {
        <(u32, u32, u32)>::encoded((v.x, v.y, v.z))
    }

    open spec fn canonical(v: Point3) -> bool {
        true
    }

    proof fn lemma_round_trip(v: Point3, data: Seq<u8>, pos: int) {
        <(u32, u32, u32)>::lemma_round_trip((v.x, v.y, v.z), data, pos);
    }

    fn write(&self, out: &mut Vec<u8>) -> (r: Result<(), Error>) {
        (self.x, self.y, self.z).write(out)
    }
}

/// Three components, `x`, `y`, then `z`.
impl Decode for Vector3 {
    open spec fn decoded(data: Seq<u8>, pos: int) -> Result<(Vector3, int), Error> {
        match <(u32, u32, u32)>::decoded(data, pos) {
            Err(e) => Err(e),
            Ok((c, end)) => Ok((Vector3 { x: c.0, y: c.1, z: c.2 }, end)),
        }
    }

    proof fn lemma_decoded_bounds(data: Seq<u8>, pos: int) {
        <(u32, u32, u32)>::lemma_decoded_bounds(data, pos);
    }

    fn read(data: &[u8], pos: usize) -> (r: Result<(Vector3, usize), Error>) {
        let ((x, y, z), end) = <(u32, u32, u32)>::read(data, pos)?;
        Ok((Vector3 { x, y, z }, end))
    }
}

impl Encode for Vector3 {
    open spec fn encodable(v: Vector3) -> bool {
        true
    }

    open spec fn encoded(v: Vector3) -> Seq<u8> {
        <(u32, u32, u32)>::encoded((v.x, v.y, v.z))
    }

    open spec fn canonical(v: Vector3) -> bool {
        true
    }

    proof fn lemma_round_trip(v: Vector3, data: Seq<u8>, pos: int) {
        <(u32, u32, u32)>::lemma_round_trip((v.x, v.y, v.z), data, pos);
    }

    fn write(&self, out: &mut Vec<u8>) -> (r: Result<(), Error>) {
        (self.x, self.y, self.z).write(out)
    }
}

impl Matrix4 {
    /// The matrix whose sixteen numbers stand in `wire` in the order of the
    /// format: four numbers for each component in turn, one from each column.
    /// Number `4 * r + c` is component `r` of column `c`.
    pub open spec fn from_wire(wire: Seq<u32>) -> Matrix4 {
        Matrix4 {
            x: Vector4 { x: wire[0], y: wire[4], z: wire[8], w: wire[12] },
            y: Vector4 { x: wire[1], y: wire[5], z: wire[9], w: wire[13] },
            z: Vector4 { x: wire[2], y: wire[6], z: wire[10], w: wire[14] },
            w: Vector4 { x: wire[3], y: wire[7], z: wire[11], w: wire[15] },
        }
    }

    /// The sixteen numbers of the matrix in the order of the format.
    pub open spec fn to_wire(self) -> Seq<u32> {
        seq![
            self.x.x, self.y.x, self.z.x, self.w.x,
            self.x.y, self.y.y, self.z.y, self.w.y,
            self.x.z, self.y.z, self.z.z, self.w.z,
            self.x.w, self.y.w, self.z.w, self.w.w,
        ]
    }

    /// The identity matrix.
    pub open spec fn spec_identity() -> Matrix4 {
        Matrix4 {
            x: Vector4 { x: ONE, y: ZERO, z: ZERO, w: ZERO },
            y: Vector4 { x: ZERO, y: ONE, z: ZERO, w: ZERO },
            z: Vector4 { x: ZERO, y: ZERO, z: ONE, w: ZERO },
            w: Vector4 { x: ZERO, y: ZERO, z: ZERO, w: ONE },
        }
    }

    /// The identity matrix.
    #[verifier::when_used_as_spec(spec_identity)]
    pub fn identity() -> (m: Matrix4)
        ensures
            m == Matrix4::spec_identity(),
    {
        Matrix4 {
            x: Vector4 { x: ONE, y: ZERO, z: ZERO, w: ZERO },
            y: Vector4 { x: ZERO, y: ONE, z: ZERO, w: ZERO },
            z: Vector4 { x: ZERO, y: ZERO, z: ONE, w: ZERO },
            w: Vector4 { x: ZERO, y: ZERO, z: ZERO, w: ONE },
        }
    }
}

/// Sixteen numbers in the order of [`Matrix4::from_wire`].
impl Decode for Matrix4 {
    open spec fn decoded(data: Seq<u8>, pos: int) -> Result<(Matrix4, int), Error> {
        match decoded_seq::<u32>(data, pos, 16) {
            Err(e) => Err(e),
            Ok((wire, end)) => Ok((Matrix4::from_wire(wire), end)),
        }
    }

    proof fn lemma_decoded_bounds(data: Seq<u8>, pos: int) {
        crate::encode::lemma_decoded_seq_within::<u32>(data, pos, 16);
    }

    fn read(data: &[u8], pos: usize) -> (r: Result<(Matrix4, usize), Error>) {
        let (wire, end) = read_seq::<u32>(data, pos, 16)?;
        proof {
            crate::encode::lemma_decoded_seq_within::<u32>(data@, pos as int, 16);
        }
        Ok(
            (
                Matrix4 {
                    x: Vector4 { x: wire[0], y: wire[4], z: wire[8], w: wire[12] },
                    y: Vector4 { x: wire[1], y: wire[5], z: wire[9], w: wire[13] },
                    z: Vector4 { x: wire[2], y: wire[6], z: wire[10], w: wire[14] },
                    w: Vector4 { x: wire[3], y: wire[7], z: wire[11], w: wire[15] },
                },
                end,
            ),
        )
    }
}

impl Encode for Matrix4 {
    open spec fn encodable(v: Matrix4) -> bool {
        true
    }

    open spec fn encoded(v: Matrix4) -> Seq<u8> {
        encoded_seq::<u32>(v.to_wire())
    }

    open spec fn canonical(v: Matrix4) -> bool {
        true
    }

    proof fn lemma_round_trip(v: Matrix4, data: Seq<u8>, pos: int) {
        lemma_seq_round_trip::<u32>(v.to_wire(), data, pos);
    }

    fn write(&self, out: &mut Vec<u8>) -> (r: Result<(), Error>) {
        let wire: Vec<u32> = vec![
            self.x.x, self.y.x, self.z.x, self.w.x,
            self.x.y, self.y.y, self.z.y, self.w.y,
            self.x.z, self.y.z, self.z.z, self.w.z,
            self.x.w, self.y.w, self.z.w, self.w.w,
        ];
        assert(wire.deep_view() =~= self.to_wire());
        write_seq::<u32>(&wire, out)
    }
}

} // verus!
