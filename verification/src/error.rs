//! Failure conditions of the codec.

use vstd::prelude::*;
use crate::ModelHeader;

verus! {

/// Why decoding or encoding stopped.
///
/// The codec is strict: it never repairs input and never guesses. Every
/// failure is final for the operation that raised it.
#[derive(Debug, Clone, Copy, PartialEq, Eq)]
pub enum Error {
    /// The input ended before the structure being decoded was complete.
    UnexpectedEof,
    /// The header found in the input is not the one of the requested codec.
    WrongHeader { expected: ModelHeader, actual: ModelHeader },
    /// A presence flag held a byte other than 0 or 1.
    InvalidBool(u8),
    /// A string's length, terminator included, does not fit the 32-bit length prefix.
    StringTooLong,
    /// A model without materials cannot be written.
    NoMaterials,
    /// A model without LOD levels cannot be written.
    NoLodLevels,
    /// A model without frames cannot be written.
    NoFrames,
    /// A scene tree nests deeper than the decoder was allowed to descend.
    TooDeep,
    /// The operation reached a region of the format whose layout is not known.
    Unimplemented,
}

/// The four classes into which every [`Error`] falls.
#[derive(Debug, Clone, Copy, PartialEq, Eq)]
pub enum ErrorKind {
    /// The byte stream itself failed: it was too short.
    Transport,
    /// The header names another revision, or another format altogether.
    FormatMismatch,
    /// The data breaks a rule of the format.
    Violation,
    /// The region is not understood and is never approximated.
    Unimplemented,
}

impl Error {
    /// The class of this error.
    pub open spec fn spec_kind(self) -> ErrorKind {
        match self {
            Error::UnexpectedEof => ErrorKind::Transport,
            Error::WrongHeader { .. } => ErrorKind::FormatMismatch,
            Error::InvalidBool(_) => ErrorKind::Violation,
            Error::StringTooLong => ErrorKind::Violation,
            Error::NoMaterials => ErrorKind::Violation,
            Error::NoLodLevels => ErrorKind::Violation,
            Error::NoFrames => ErrorKind::Violation,
            Error::TooDeep => ErrorKind::Violation,
            Error::Unimplemented => ErrorKind::Unimplemented,
        }
    }

    /// The class of this error.
    #[verifier::when_used_as_spec(spec_kind)]
    pub fn kind(self) -> (k: ErrorKind)
        ensures
            k == self.spec_kind(),
    {
        match self {
            Error::UnexpectedEof => ErrorKind::Transport,
            Error::WrongHeader { .. } => ErrorKind::FormatMismatch,
            Error::InvalidBool(_) => ErrorKind::Violation,
            Error::StringTooLong => ErrorKind::Violation,
            Error::NoMaterials => ErrorKind::Violation,
            Error::NoLodLevels => ErrorKind::Violation,
            Error::NoFrames => ErrorKind::Violation,
            Error::TooDeep => ErrorKind::Violation,
            Error::Unimplemented => ErrorKind::Unimplemented,
        }
    }
}

} // verus!
