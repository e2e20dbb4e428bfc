//! Codec for the SSMF ("CEM") binary model format.
//!
//! A model file is a tree of scenes. Each scene starts with a [`ModelHeader`]
//! that names the revision of the format, followed by a model body in that
//! revision and by the scene's children. Decoding works on a byte slice and a
//! position in it; encoding appends to a byte vector. A model is always read
//! or written as a whole.
//!
//! Floating-point fields are carried as their IEEE-754 single-precision bit
//! patterns, so that what is decoded is written back bit for bit.
//!
//! - [`encode`]: integers, strings, values in a row, and the traits of the codec.
//! - [`math`]: points, vectors and the matrix.
//! - [`collider`]: bounding boxes and colliders.
//! - [`scene`]: the scene tree and what a revision has to provide.
//! - [`v1`], [`v2`], [`v5`]: the three revisions.
//! - [`cem`], [`types`]: the reader for the older shape of the header.
//! - [`obj`]: what an export to an indexed mesh consists of.
//! - [`error`]: the failure conditions.

use vstd::prelude::*;

pub mod error;
pub mod encode;
pub mod math;
pub mod types;
pub mod collider;
pub mod cem;
pub mod scene;
pub mod v1;
pub mod v2;
pub mod v5;
pub mod obj;

pub use error::{Error, ErrorKind};
pub use encode::{Decode, DecodeWith, Encode, EncodeWith};
pub use scene::{LosslessModel, Model, NodeData, Scene, MAX_DEPTH};
pub use v1::V1;
pub use v2::V2;
pub use v5::V5;

verus! {

/// The magic number that opens every model: the four characters "SSMF",
/// read as a little-endian 32-bit integer.
pub const MAGIC: u32 = 0x464D5353;

/// The header of a scene: the magic number and the revision of the format.
#[derive(Debug, Clone, Copy, PartialEq, Eq, Structural)]
pub struct ModelHeader {
    pub magic: u32,
    pub major: u16,
    pub minor: u16,
}

/// The revisions of the format that the codec knows.
#[derive(Debug, Clone, Copy, PartialEq, Eq, Structural)]
pub enum Version {
    /// Revision 1.3, which can only be read.
    V1,
    /// Revision 2.0.
    V2,
    /// Revision 5.0, of which only a part is understood.
    V5,
}

impl Version {
    /// The header that announces this revision.
    pub open spec fn spec_header(self) -> ModelHeader {
        match self {
            Version::V1 => ModelHeader { magic: MAGIC, major: 1, minor: 3 },
            Version::V2 => ModelHeader { magic: MAGIC, major: 2, minor: 0 },
            Version::V5 => ModelHeader { magic: MAGIC, major: 5, minor: 0 },
        }
    }

    /// The header that announces this revision.
    #[verifier::when_used_as_spec(spec_header)]
    pub fn header(self) -> (h: ModelHeader)
        ensures
            h == self.spec_header(),
    {
        match self {
            Version::V1 => ModelHeader { magic: MAGIC, major: 1, minor: 3 },
            Version::V2 => ModelHeader { magic: MAGIC, major: 2, minor: 0 },
            Version::V5 => ModelHeader { magic: MAGIC, major: 5, minor: 0 },
        }
    }
}

impl ModelHeader {
    /// The revision that this header announces, if it is a known one. A
    /// header with another magic number announces none.
    pub open spec fn spec_version(self) -> Option<Version> {
        if self == Version::V1.spec_header() {
            Some(Version::V1)
        } else if self == Version::V2.spec_header() {
            Some(Version::V2)
        } else if self == Version::V5.spec_header() {
            Some(Version::V5)
        } else {
            None
        }
    }

    /// The revision that this header announces, if it is a known one.
    #[verifier::when_used_as_spec(spec_version)]
    pub fn version(self) -> (v: Option<Version>)
        ensures
            v == self.spec_version(),
    {
        if self.magic != MAGIC {
            None
        } else if self.major == 1 && self.minor == 3 {
            Some(Version::V1)
        } else if self.major == 2 && self.minor == 0 {
            Some(Version::V2)
        } else if self.major == 5 && self.minor == 0 {
            Some(Version::V5)
        } else {
            None
        }
    }
}

/// What reading the header at `pos` selects: the revision that the header
/// announces and the position of the model body. A header that announces no
/// known revision is a mismatch with the current revision, 2.0.
pub open spec fn detected(data: Seq<u8>, pos: int) -> Result<(Version, int), Error> {
    match ModelHeader::decoded(data, pos) {
        Err(e) => Err(e),
        Ok((header, start)) => match header.spec_version() {
            Some(version) => Ok((version, start)),
            None => Err(Error::WrongHeader { expected: Version::V2.spec_header(), actual: header }),
        },
    }
}

/// Reads the header at `pos` and selects the codec for the model that follows.
pub fn detect(data: &[u8], pos: usize) -> (r: Result<(Version, usize), Error>)
    ensures
        encode::outcome(r) == detected(data@, pos as int),
{
    let (header, start) = ModelHeader::read(data, pos)?;
    match header.version() {
        Some(version) => Ok((version, start)),
        None => Err(Error::WrongHeader { expected: Version::V2.header(), actual: header }),
    }
}

/// A header announces a revision exactly when it is that revision's header.
pub proof fn lemma_version_of_header(header: ModelHeader, version: Version)
    ensures
        header.spec_version() == Some(version) <==> header == version.spec_header(),
        header.magic != MAGIC ==> header.spec_version().is_none(),
{
}

impl DeepView for Version {
    type V = Version;

    open spec fn deep_view(&self) -> Version {
        *self
    }
}

impl DeepView for ModelHeader {
    type V = ModelHeader;

    open spec fn deep_view(&self) -> ModelHeader {
        *self
    }
}

/// The magic number in four bytes, then the major and the minor revision
/// in two bytes each.
impl Decode for ModelHeader {
    open spec fn decoded(data: Seq<u8>, pos: int) -> Result<(ModelHeader, int), Error> {
        match <(u32, u16, u16)>::decoded(data, pos) {
            Err(e) => Err(e),
            Ok((c, end)) => Ok((ModelHeader { magic: c.0, major: c.1, minor: c.2 }, end)),
        }
    }

    proof fn lemma_decoded_bounds(data: Seq<u8>, pos: int) {
        <(u32, u16, u16)>::lemma_decoded_bounds(data, pos);
    }

    fn read(data: &[u8], pos: usize) -> (r: Result<(ModelHeader, usize), Error>) {
        let ((magic, major, minor), end) = <(u32, u16, u16)>::read(data, pos)?;
        Ok((ModelHeader { magic, major, minor }, end))
    }
}

impl Encode for ModelHeader {
    open spec fn encodable(v: ModelHeader) -> bool {
        true
    }

    open spec fn encoded(v: ModelHeader) -> Seq<u8> {
        <(u32, u16, u16)>::encoded((v.magic, v.major, v.minor))
    }

    open spec fn canonical(v: ModelHeader) -> bool {
        true
    }

    proof fn lemma_round_trip(v: ModelHeader, data: Seq<u8>, pos: int) {
        <(u32, u16, u16)>::lemma_round_trip((v.magic, v.major, v.minor), data, pos);
    }

    fn write(&self, out: &mut Vec<u8>) -> (r: Result<(), Error>) {
        (self.magic, self.major, self.minor).write(out)
    }
}

} // verus!
