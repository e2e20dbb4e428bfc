//! Plain positions and the flat 4x4 matrix of the single-version codec.
//!
//! As everywhere in this library, a number is kept as its IEEE-754
//! single-precision bit pattern.

use vstd::prelude::*;
use crate::encode::{Decode, Encode, decoded_seq, encoded_seq, lemma_decoded_seq_within,
    lemma_seq_round_trip, read_seq};
use crate::error::Error;
use crate::math::{NEG_ZERO, ONE, ZERO};

verus! {

/// A 4x4 matrix as its sixteen numbers in the order of the format.
#[derive(Debug, Clone, Copy, PartialEq, Eq)]
pub struct Mat4(pub [u32; 16]);

/// A position in the plane.
#[derive(Debug, Clone, Copy, PartialEq, Eq, Structural)]
pub struct Pos2(pub u32, pub u32);

/// A position in space.
#[derive(Debug, Clone, Copy, PartialEq, Eq, Structural)]
pub struct Pos3(pub u32, pub u32, pub u32);

impl DeepView for Mat4 {
    type V = Seq<u32>;

    open spec fn deep_view(&self) -> Seq<u32> {
        self.0@
    }
}

impl DeepView for Pos2 {
    type V = Pos2;

    open spec fn deep_view(&self) -> Pos2 {
        *self
    }
}

impl DeepView for Pos3 {
    type V = Pos3;

    open spec fn deep_view(&self) -> Pos3 {
        *self
    }
}

/// The number that number `i` of an identity matrix is equal to: one on
/// the diagonal, zero off it. Zero has two bit patterns, one for each sign,
/// and both are equal to zero.
pub open spec fn is_identity_entry(i: int, x: u32) -> bool {
    if i % 5 == 0 {
        x == ONE
    } else {
        x == ZERO || x == NEG_ZERO
    }
}

impl Mat4 {
    /// Whether the matrix is equal, number by number, to the identity matrix.
    pub open spec fn spec_is_identity(&self) -> bool {
        forall|i: int| 0 <= i < 16 ==> is_identity_entry(i, #[trigger] self.0@[i])
    }

    /// Whether the matrix is equal, number by number, to the identity matrix.
    #[verifier::when_used_as_spec(spec_is_identity)]
    pub fn is_identity(&self) -> (b: bool)
        ensures
            b == self.spec_is_identity(),
    {
        let mut i: usize = 0;
        while i < 16
            invariant
                i <= 16,
                forall|j: int| 0 <= j < i ==> is_identity_entry(j, #[trigger] self.0@[j]),
            decreases 16 - i,
        {
            let x = self.0[i];
            let fits = if i % 5 == 0 {
                x == ONE
            } else {
                x == ZERO || x == NEG_ZERO
            };
            if !fits {
                assert(!is_identity_entry(i as int, self.0@[i as int]));
                return false;
            }
            i = i + 1;
        }
        true
    }
}

impl Default for Mat4 {
    /// The identity matrix.
    fn default() -> (m: Mat4)
        ensures
            m.spec_is_identity(),
            forall|i: int| 0 <= i < 16 ==> #[trigger] m.0@[i] == (if i % 5 == 0 {
                ONE
            } else {
                ZERO
            }),
    {
        Mat4(
            [
                ONE, ZERO, ZERO, ZERO,
                ZERO, ONE, ZERO, ZERO,
                ZERO, ZERO, ONE, ZERO,
                ZERO, ZERO, ZERO, ONE,
            ],
        )
    }
}

impl Default for Pos2 {
    fn default() -> (p: Pos2)
        ensures
            p == Pos2(ZERO, ZERO),
    {
        Pos2(ZERO, ZERO)
    }
}

impl Default for Pos3 {
    fn default() -> (p: Pos3)
        ensures
            p == Pos3(ZERO, ZERO, ZERO),
    {
        Pos3(ZERO, ZERO, ZERO)
    }
}

/// Sixteen numbers.
impl Decode for Mat4 {
    open spec fn decoded(data: Seq<u8>, pos: int) -> Result<(Seq<u32>, int), Error> {
        decoded_seq::<u32>(data, pos, 16)
    }

    proof fn lemma_decoded_bounds(data: Seq<u8>, pos: int) {
        lemma_decoded_seq_within::<u32>(data, pos, 16);
    }

    fn read(data: &[u8], pos: usize) -> (r: Result<(Mat4, usize), Error>) {
        let (w, end) = read_seq::<u32>(data, pos, 16)?;
        proof {
            lemma_decoded_seq_within::<u32>(data@, pos as int, 16);
        }
        let numbers: [u32; 16] = [
            w[0], w[1], w[2], w[3],
            w[4], w[5], w[6], w[7],
            w[8], w[9], w[10], w[11],
            w[12], w[13], w[14], w[15],
        ];
        assert(numbers@ =~= w.deep_view());
        Ok((Mat4(numbers), end))
    }
}

impl Encode for Mat4 {
    open spec fn encodable(v: Seq<u32>) -> bool {
        true
    }

    open spec fn encoded(v: Seq<u32>) -> Seq<u8> {
        encoded_seq::<u32>(v)
    }

    open spec fn canonical(v: Seq<u32>) -> bool {
        v.len() == 16
    }

    proof fn lemma_round_trip(v: Seq<u32>, data: Seq<u8>, pos: int) {
        lemma_seq_round_trip::<u32>(v, data, pos);
    }

    fn write(&self, out: &mut Vec<u8>) -> (r: Result<(), Error>) {
        let mut i: usize = 0;
        assert(self.0@.take(0) =~= Seq::<u32>::empty());
        while i < 16
            invariant
                i <= 16,
                out@ == old(out)@ + encoded_seq::<u32>(self.0@.take(i as int)),
            decreases 16 - i,
        {
            proof {
                let next = self.0@.take(i + 1);
                assert(next.drop_last() =~= self.0@.take(i as int));
                assert(next.last() == self.0@[i as int]);
            }
            self.0[i].write(out)?;
            assert(out@ =~= old(out)@ + encoded_seq::<u32>(self.0@.take(i + 1)));
            i = i + 1;
        }
        assert(self.0@.take(16) =~= self.0@);
        Ok(())
    }
}

/// Two numbers.
impl Decode for Pos2 {
    open spec fn decoded(data: Seq<u8>, pos: int) -> Result<(Pos2, int), Error> {
        match <(u32, u32)>::decoded(data, pos) {
            Err(e) => Err(e),
            Ok((c, end)) => Ok((Pos2(c.0, c.1), end)),
        }
    }

    proof fn lemma_decoded_bounds(data: Seq<u8>, pos: int) {
        <(u32, u32)>::lemma_decoded_bounds(data, pos);
    }

    fn read(data: &[u8], pos: usize) -> (r: Result<(Pos2, usize), Error>) {
        let ((x, y), end) = <(u32, u32)>::read(data, pos)?;
        Ok((Pos2(x, y), end))
    }
}

impl Encode for Pos2 {
    open spec fn encodable(v: Pos2) -> bool {
        true
    }

    open spec fn encoded(v: Pos2) -> Seq<u8> {
        <(u32, u32)>::encoded((v.0, v.1))
    }

    open spec fn canonical(v: Pos2) -> bool {
        true
    }

    proof fn lemma_round_trip(v: Pos2, data: Seq<u8>, pos: int) {
        <(u32, u32)>::lemma_round_trip((v.0, v.1), data, pos);
    }

    fn write(&self, out: &mut Vec<u8>) -> (r: Result<(), Error>) {
        (self.0, self.1).write(out)
    }
}

/// Three numbers.
impl Decode for Pos3 {
    open spec fn decoded(data: Seq<u8>, pos: int) -> Result<(Pos3, int), Error> {
        match <(u32, u32, u32)>::decoded(data, pos) {
            Err(e) => Err(e),
            Ok((c, end)) => Ok((Pos3(c.0, c.1, c.2), end)),
        }
    }

    proof fn lemma_decoded_bounds(data: Seq<u8>, pos: int) {
        <(u32, u32, u32)>::lemma_decoded_bounds(data, pos);
    }

    fn read(data: &[u8], pos: usize) -> (r: Result<(Pos3, usize), Error>) {
        let ((x, y, z), end) = <(u32, u32, u32)>::read(data, pos)?;
        Ok((Pos3(x, y, z), end))
    }
}

impl Encode for Pos3 {
    open spec fn encodable(v: Pos3) -> bool {
        true
    }

    open spec fn encoded(v: Pos3) -> Seq<u8> {
        <(u32, u32, u32)>::encoded((v.0, v.1, v.2))
    }

    open spec fn canonical(v: Pos3) -> bool {
        true
    }

    proof fn lemma_round_trip(v: Pos3, data: Seq<u8>, pos: int) {
        <(u32, u32, u32)>::lemma_round_trip((v.0, v.1, v.2), data, pos);
    }

    fn write(&self, out: &mut Vec<u8>) -> (r: Result<(), Error>) {
        (self.0, self.1, self.2).write(out)
    }
}

} // verus!
