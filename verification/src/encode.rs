//! The primitive codec: little-endian integers, Latin-1 strings, values in a
//! row, and the traits that every encoded type implements.
//!
//! A decoder is a function of the data and a position. What it yields is
//! given by a function of the same arguments in mathematical terms, and
//! the executable decoder is proved to compute exactly that: the value and
//! the position after it, or the error. An encoder appends to a byte
//! vector, and leaves the vector as it was where it fails. For every type
//! that has both, decoding what was encoded is proved to give the value
//! back.
//!
//! Nothing is allocated on the word of a count: a list grows as its
//! entries are decoded, so a count that the data cannot back ends in
//! [`Error::UnexpectedEof`], not in an allocation.

use vstd::prelude::*;
use byteorder::{ByteOrder, LittleEndian};
use vstd::string::StrSliceExecFns;
use crate::error::Error;

verus! {

/// The 16-bit integer stored little-endian at `pos`.
pub open spec fn u16_at(data: Seq<u8>, pos: int) -> u16 {
    (data[pos] as int + 256 * (data[pos + 1] as int)) as u16
}

/// The 32-bit integer stored little-endian at `pos`.
pub open spec fn u32_at(data: Seq<u8>, pos: int) -> u32 {
    (data[pos] as int + 256 * (data[pos + 1] as int) + 65536 * (data[pos + 2] as int) + 16777216
        * (data[pos + 3] as int)) as u32
}

/// The two bytes of `x`, least significant first.
pub open spec fn u16_le(x: u16) -> Seq<u8> {
    seq![(x % 256) as u8, (x / 256) as u8]
}

/// The four bytes of `x`, least significant first.
pub open spec fn u32_le(x: u32) -> Seq<u8> {
    seq![
        (x % 256) as u8,
        (x / 256 % 256) as u8,
        (x / 65536 % 256) as u8,
        (x / 16777216) as u8,
    ]
}

/// The signed integer with the same 32 bits as `x`.
pub open spec fn as_signed(x: u32) -> i32 {
    if x < 0x8000_0000 {
        x as i32
    } else {
        (x - 0x1_0000_0000) as i32
    }
}

/// `expected` stands in `data` from `pos` on.
pub open spec fn holds_at(data: Seq<u8>, pos: int, expected: Seq<u8>) -> bool {
    &&& 0 <= pos
    &&& pos + expected.len() <= data.len()
    &&& data.subrange(pos, pos + expected.len()) == expected
}

/// What is stored at a position is what was written there.
pub proof fn lemma_u16_round_trip(x: u16, data: Seq<u8>, pos: int)
    requires
        holds_at(data, pos, u16_le(x)),
    ensures
        u16_at(data, pos) == x,
{
    let w = data.subrange(pos, pos + 2);
    assert(w[0] == data[pos] && w[1] == data[pos + 1]);
}

/// What is stored at a position is what was written there.
pub proof fn lemma_u32_round_trip(x: u32, data: Seq<u8>, pos: int)
    requires
        holds_at(data, pos, u32_le(x)),
    ensures
        u32_at(data, pos) == x,
{
    let w = data.subrange(pos, pos + 4);
    assert(w[0] == data[pos] && w[1] == data[pos + 1] && w[2] == data[pos + 2] && w[3] == data[pos
        + 3]);
}

/// `byteorder::LittleEndian::read_u16` on the bytes from `pos` on. The crate
/// reads the first two bytes of the slice it is given as a little-endian
/// integer, and panics on a shorter slice, which `requires` rules out.
#[verifier::external_body]
fn get_u16(data: &[u8], pos: usize) -> (r: u16)
    requires
        pos + 2 <= data@.len(),
    ensures
        r == u16_at(data@, pos as int),
{
    LittleEndian::read_u16(&data[pos..])
}

/// `byteorder::LittleEndian::read_u32` on the bytes from `pos` on. The crate
/// reads the first four bytes of the slice it is given as a little-endian
/// integer, and panics on a shorter slice, which `requires` rules out.
#[verifier::external_body]
fn get_u32(data: &[u8], pos: usize) -> (r: u32)
    requires
        pos + 4 <= data@.len(),
    ensures
        r == u32_at(data@, pos as int),
{
    LittleEndian::read_u32(&data[pos..])
}

/// `byteorder::LittleEndian::read_i32` on the bytes from `pos` on: the
/// crate reads the unsigned integer and reinterprets its bits as signed.
#[verifier::external_body]
fn get_i32(data: &[u8], pos: usize) -> (r: i32)
    requires
        pos + 4 <= data@.len(),
    ensures
        r == as_signed(u32_at(data@, pos as int)),
{
    LittleEndian::read_i32(&data[pos..])
}

/// `byteorder::LittleEndian::write_u16` into a fresh two-byte buffer: the
/// crate stores the integer's bytes least significant first.
#[verifier::external_body]
fn u16_bytes(x: u16) -> (b: [u8; 2])
    ensures
        b@ == u16_le(x),
{
    let mut b: [u8; 2] = [0; 2];
    LittleEndian::write_u16(&mut b, x);
    b
}

/// `byteorder::LittleEndian::write_u32` into a fresh four-byte buffer: the
/// crate stores the integer's bytes least significant first.
#[verifier::external_body]
fn u32_bytes(x: u32) -> (b: [u8; 4])
    ensures
        b@ == u32_le(x),
{
    let mut b: [u8; 4] = [0; 4];
    LittleEndian::write_u32(&mut b, x);
    b
}

/// What a decoder reports, in mathematical terms: the view of the
/// decoded value and the position after it, or the error.
pub open spec fn outcome<T: DeepView>(r: Result<(T, usize), Error>) -> Result<(T::V, int), Error> {
    match r {
        Ok((v, end)) => Ok((v.deep_view(), end as int)),
        Err(e) => Err(e),
    }
}

/// A type with a decoder.
pub trait Decode: Sized + DeepView {
    /// What decoding at `pos` yields: the value and the position after it.
    spec fn decoded(data: Seq<u8>, pos: int) -> Result<(Self::V, int), Error>;

    /// A decoder takes at least one byte and stays inside the data.
    proof fn lemma_decoded_bounds(data: Seq<u8>, pos: int)
        ensures
            Self::decoded(data, pos) matches Ok((_, end)) ==> 0 <= pos < end <= data.len(),
    ;

    /// Decodes a value at `pos` and returns it with the position after it.
    fn read(data: &[u8], pos: usize) -> (r: Result<(Self, usize), Error>)
        ensures
            outcome(r) == Self::decoded(data@, pos as int),
    ;
}

/// A type with a decoder and an encoder.
pub trait Encode: Decode {
    /// Whether the value can be written at all.
    spec fn encodable(v: Self::V) -> bool;

    /// The bytes that stand for the value.
    spec fn encoded(v: Self::V) -> Seq<u8>;

    /// Whether decoding gives the value back unchanged.
    spec fn canonical(v: Self::V) -> bool;

    /// Decoding what was encoded gives the value back, wherever the bytes
    /// stand and whatever follows them.
    proof fn lemma_round_trip(v: Self::V, data: Seq<u8>, pos: int)
        requires
            Self::encodable(v),
            Self::canonical(v),
            holds_at(data, pos, Self::encoded(v)),
        ensures
            Self::decoded(data, pos) == Ok::<(Self::V, int), Error>(
                (v, pos + Self::encoded(v).len()),
            ),
    ;

    /// Appends the encoding of `self` to `out`. On failure `out` is left as it was.
    fn write(&self, out: &mut Vec<u8>) -> (r: Result<(), Error>)
        ensures
            Self::encodable(self.deep_view()) ==> r is Ok && final(out)@ == old(out)@
                + Self::encoded(self.deep_view()),
            !Self::encodable(self.deep_view()) ==> r == Err::<(), Error>(Error::StringTooLong)
                && final(out)@ == old(out)@,
    ;
}

impl Decode for u32 {
    open spec fn decoded(data: Seq<u8>, pos: int) -> Result<(u32, int), Error> {
        if 0 <= pos && pos + 4 <= data.len() {
            Ok((u32_at(data, pos), pos + 4))
        } else {
            Err(Error::UnexpectedEof)
        }
    }

    proof fn lemma_decoded_bounds(data: Seq<u8>, pos: int) {
    }

    fn read(data: &[u8], pos: usize) -> (r: Result<(u32, usize), Error>) {
        if pos > data.len() || data.len() - pos < 4 {
            return Err(Error::UnexpectedEof);
        }
        Ok((get_u32(data, pos), pos + 4))
    }
}

impl Encode for u32 {
    open spec fn encodable(v: u32) -> bool {
        true
    }

    open spec fn encoded(v: u32) -> Seq<u8> {
        u32_le(v)
    }

    open spec fn canonical(v: u32) -> bool {
        true
    }

    proof fn lemma_round_trip(v: u32, data: Seq<u8>, pos: int) {
        lemma_u32_round_trip(v, data, pos);
    }

    fn write(&self, out: &mut Vec<u8>) -> (r: Result<(), Error>) {
        let b = u32_bytes(*self);
        out.push(b[0]);
        out.push(b[1]);
        out.push(b[2]);
        out.push(b[3]);
        assert(out@ =~= old(out)@ + u32_le(*self));
        Ok(())
    }
}

impl Decode for u8 {
    open spec fn decoded(data: Seq<u8>, pos: int) -> Result<(u8, int), Error> {
        if 0 <= pos && pos + 1 <= data.len() {
            Ok((data[pos], pos + 1))
        } else {
            Err(Error::UnexpectedEof)
        }
    }

    proof fn lemma_decoded_bounds(data: Seq<u8>, pos: int) {
    }

    fn read(data: &[u8], pos: usize) -> (r: Result<(u8, usize), Error>) {
        if pos >= data.len() {
            return Err(Error::UnexpectedEof);
        }
        Ok((data[pos], pos + 1))
    }
}

impl Decode for u16 {
    open spec fn decoded(data: Seq<u8>, pos: int) -> Result<(u16, int), Error> {
        if 0 <= pos && pos + 2 <= data.len() {
            Ok((u16_at(data, pos), pos + 2))
        } else {
            Err(Error::UnexpectedEof)
        }
    }

    proof fn lemma_decoded_bounds(data: Seq<u8>, pos: int) {
    }

    fn read(data: &[u8], pos: usize) -> (r: Result<(u16, usize), Error>) {
        if pos > data.len() || data.len() - pos < 2 {
            return Err(Error::UnexpectedEof);
        }
        Ok((get_u16(data, pos), pos + 2))
    }
}

impl Encode for u16 {
    open spec fn encodable(v: u16) -> bool {
        true
    }

    open spec fn encoded(v: u16) -> Seq<u8> {
        u16_le(v)
    }

    open spec fn canonical(v: u16) -> bool {
        true
    }

    proof fn lemma_round_trip(v: u16, data: Seq<u8>, pos: int) {
        lemma_u16_round_trip(v, data, pos);
    }

    fn write(&self, out: &mut Vec<u8>) -> (r: Result<(), Error>) {
        let b = u16_bytes(*self);
        out.push(b[0]);
        out.push(b[1]);
        assert(out@ =~= old(out)@ + u16_le(*self));
        Ok(())
    }
}

impl Decode for i32 {
    open spec fn decoded(data: Seq<u8>, pos: int) -> Result<(i32, int), Error> {
        if 0 <= pos && pos + 4 <= data.len() {
            Ok((as_signed(u32_at(data, pos)), pos + 4))
        } else {
            Err(Error::UnexpectedEof)
        }
    }

    proof fn lemma_decoded_bounds(data: Seq<u8>, pos: int) {
    }

    fn read(data: &[u8], pos: usize) -> (r: Result<(i32, usize), Error>) {
        if pos > data.len() || data.len() - pos < 4 {
            return Err(Error::UnexpectedEof);
        }
        Ok((get_i32(data, pos), pos + 4))
    }
}

/// Two values, one after the other.
impl<A: Decode, B: Decode> Decode for (A, B) {
    open spec fn decoded(data: Seq<u8>, pos: int) -> Result<((A::V, B::V), int), Error> {
        match A::decoded(data, pos) {
            Err(e) => Err(e),
            Ok((a, mid)) => match B::decoded(data, mid) {
                Err(e) => Err(e),
                Ok((b, end)) => Ok(((a, b), end)),
            },
        }
    }

    proof fn lemma_decoded_bounds(data: Seq<u8>, pos: int) {
        A::lemma_decoded_bounds(data, pos);
        if let Ok((a, mid)) = A::decoded(data, pos) {
            B::lemma_decoded_bounds(data, mid);
        }
    }

    fn read(data: &[u8], pos: usize) -> (r: Result<((A, B), usize), Error>) {
        let (a, mid) = A::read(data, pos)?;
        let (b, end) = B::read(data, mid)?;
        Ok(((a, b), end))
    }
}

/// The second of two byte strings stands right after the first.
pub proof fn lemma_holds_at_split(data: Seq<u8>, pos: int, first: Seq<u8>, second: Seq<u8>)
    requires
        holds_at(data, pos, first + second),
    ensures
        holds_at(data, pos, first),
        holds_at(data, pos + first.len(), second),
{
    let whole = first + second;
    assert(data.subrange(pos, pos + first.len()) =~= whole.subrange(0, first.len() as int));
    assert(whole.subrange(0, first.len() as int) =~= first);
    assert(data.subrange(pos + first.len(), pos + first.len() + second.len())
        =~= whole.subrange(first.len() as int, whole.len() as int));
    assert(whole.subrange(first.len() as int, whole.len() as int) =~= second);
}

impl<A: Encode, B: Encode> Encode for (A, B) {
    open spec fn encodable(v: (A::V, B::V)) -> bool {
        A::encodable(v.0) && B::encodable(v.1)
    }

    open spec fn encoded(v: (A::V, B::V)) -> Seq<u8> {
        A::encoded(v.0) + B::encoded(v.1)
    }

    open spec fn canonical(v: (A::V, B::V)) -> bool {
        A::canonical(v.0) && B::canonical(v.1)
    }

    proof fn lemma_round_trip(v: (A::V, B::V), data: Seq<u8>, pos: int) {
        lemma_holds_at_split(data, pos, A::encoded(v.0), B::encoded(v.1));
        A::lemma_round_trip(v.0, data, pos);
        B::lemma_round_trip(v.1, data, pos + A::encoded(v.0).len());
    }

    fn write(&self, out: &mut Vec<u8>) -> (r: Result<(), Error>) {
        let start = out.len();
        self.0.write(out)?;
        match self.1.write(out) {
            Ok(()) => {
                assert(out@ =~= old(out)@ + (A::encoded(self.0.deep_view()) + B::encoded(
                    self.1.deep_view(),
                )));
                Ok(())
            },
            Err(e) => {
                out.truncate(start);
                assert(out@ =~= old(out)@);
                Err(e)
            },
        }
    }
}

/// Three values, one after the other.
impl<A: Decode, B: Decode, C: Decode> Decode for (A, B, C) {
    open spec fn decoded(data: Seq<u8>, pos: int) -> Result<((A::V, B::V, C::V), int), Error> {
        match A::decoded(data, pos) {
            Err(e) => Err(e),
            Ok((a, p1)) => match B::decoded(data, p1) {
                Err(e) => Err(e),
                Ok((b, p2)) => match C::decoded(data, p2) {
                    Err(e) => Err(e),
                    Ok((c, end)) => Ok(((a, b, c), end)),
                },
            },
        }
    }

    proof fn lemma_decoded_bounds(data: Seq<u8>, pos: int) {
        A::lemma_decoded_bounds(data, pos);
        if let Ok((a, p1)) = A::decoded(data, pos) {
            B::lemma_decoded_bounds(data, p1);
            if let Ok((b, p2)) = B::decoded(data, p1) {
                C::lemma_decoded_bounds(data, p2);
            }
        }
    }

    fn read(data: &[u8], pos: usize) -> (r: Result<((A, B, C), usize), Error>) {
        let (a, p1) = A::read(data, pos)?;
        let (b, p2) = B::read(data, p1)?;
        let (c, end) = C::read(data, p2)?;
        Ok(((a, b, c), end))
    }
}

impl<A: Encode, B: Encode, C: Encode> Encode for (A, B, C) {
    open spec fn encodable(v: (A::V, B::V, C::V)) -> bool {
        A::encodable(v.0) && B::encodable(v.1) && C::encodable(v.2)
    }

    open spec fn encoded(v: (A::V, B::V, C::V)) -> Seq<u8> {
        A::encoded(v.0) + B::encoded(v.1) + C::encoded(v.2)
    }

    open spec fn canonical(v: (A::V, B::V, C::V)) -> bool {
        A::canonical(v.0) && B::canonical(v.1) && C::canonical(v.2)
    }

    proof fn lemma_round_trip(v: (A::V, B::V, C::V), data: Seq<u8>, pos: int) {
        let ab = A::encoded(v.0) + B::encoded(v.1);
        lemma_holds_at_split(data, pos, ab, C::encoded(v.2));
        lemma_holds_at_split(data, pos, A::encoded(v.0), B::encoded(v.1));
        A::lemma_round_trip(v.0, data, pos);
        B::lemma_round_trip(v.1, data, pos + A::encoded(v.0).len());
        C::lemma_round_trip(v.2, data, pos + ab.len());
    }

    fn write(&self, out: &mut Vec<u8>) -> (r: Result<(), Error>) {
        let start = out.len();
        self.0.write(out)?;
        if let Err(e) = self.1.write(out) {
            out.truncate(start);
            assert(out@ =~= old(out)@);
            return Err(e);
        }
        if let Err(e) = self.2.write(out) {
            out.truncate(start);
            assert(out@ =~= old(out)@);
            return Err(e);
        }
        assert(out@ =~= old(out)@ + (A::encoded(self.0.deep_view()) + B::encoded(
            self.1.deep_view(),
        ) + C::encoded(self.2.deep_view())));
        Ok(())
    }
}

/// What decoding `n` values in a row yields: the values in order and the
/// position after the last, or the error of the first that fails.
pub open spec fn decoded_seq<T: Decode>(data: Seq<u8>, pos: int, n: nat) -> Result<
    (Seq<T::V>, int),
    Error,
>
    decreases n,
{
    if n == 0 {
        Ok((Seq::empty(), pos))
    } else {
        match decoded_seq::<T>(data, pos, (n - 1) as nat) {
            Err(e) => Err(e),
            Ok((init, mid)) => match T::decoded(data, mid) {
                Err(e) => Err(e),
                Ok((last, end)) => Ok((init.push(last), end)),
            },
        }
    }
}

/// The values of a sequence, encoded one after the other.
pub open spec fn encoded_seq<T: Encode>(s: Seq<T::V>) -> Seq<u8>
    decreases s.len(),
{
    if s.len() == 0 {
        Seq::empty()
    } else {
        encoded_seq::<T>(s.drop_last()) + T::encoded(s.last())
    }
}

/// Every value of the sequence can be written.
pub open spec fn encodable_seq<T: Encode>(s: Seq<T::V>) -> bool {
    forall|i: int| 0 <= i < s.len() ==> T::encodable(#[trigger] s[i])
}

/// Every value of the sequence comes back unchanged.
pub open spec fn canonical_seq<T: Encode>(s: Seq<T::V>) -> bool {
    forall|i: int| 0 <= i < s.len() ==> T::canonical(#[trigger] s[i])
}

/// A sequence decodes to as many values as were asked for, and takes at
/// least one byte for each: no list is longer than the data that holds it.
pub proof fn lemma_decoded_seq_bounds<T: Decode>(data: Seq<u8>, pos: int, n: nat)
    requires
        0 <= pos <= data.len(),
    ensures
        decoded_seq::<T>(data, pos, n) matches Ok((s, end)) ==> s.len() == n && pos + n <= end
            <= data.len(),
    decreases n,
{
    if n > 0 {
        lemma_decoded_seq_bounds::<T>(data, pos, (n - 1) as nat);
        if let Ok((init, mid)) = decoded_seq::<T>(data, pos, (n - 1) as nat) {
            T::lemma_decoded_bounds(data, mid);
        }
    }
}

/// A sequence of at least one value decodes only inside the data.
pub proof fn lemma_decoded_seq_within<T: Decode>(data: Seq<u8>, pos: int, n: nat)
    requires
        n > 0,
    ensures
        decoded_seq::<T>(data, pos, n) matches Ok((s, end)) ==> s.len() == n && 0 <= pos && pos
            + n <= end <= data.len(),
    decreases n,
{
    if n > 1 {
        lemma_decoded_seq_within::<T>(data, pos, (n - 1) as nat);
        if let Ok((init, mid)) = decoded_seq::<T>(data, pos, (n - 1) as nat) {
            T::lemma_decoded_bounds(data, mid);
        }
    } else {
        T::lemma_decoded_bounds(data, pos);
        if let Ok((last, end)) = T::decoded(data, pos) {
            assert(Seq::<T::V>::empty().push(last).len() == 1);
        }
    }
}

/// Once a value of the sequence fails to decode, so does every longer sequence.
pub proof fn lemma_decoded_seq_fails<T: Decode>(data: Seq<u8>, pos: int, k: nat, n: nat, e: Error)
    requires
        k <= n,
        decoded_seq::<T>(data, pos, k) == Err::<(Seq<T::V>, int), Error>(e),
    ensures
        decoded_seq::<T>(data, pos, n) == Err::<(Seq<T::V>, int), Error>(e),
    decreases n,
{
    if k < n {
        lemma_decoded_seq_fails::<T>(data, pos, k, (n - 1) as nat, e);
    }
}

/// Decoding an encoded sequence gives its values back.
pub proof fn lemma_seq_round_trip<T: Encode>(s: Seq<T::V>, data: Seq<u8>, pos: int)
    requires
        encodable_seq::<T>(s),
        canonical_seq::<T>(s),
        holds_at(data, pos, encoded_seq::<T>(s)),
    ensures
        decoded_seq::<T>(data, pos, s.len()) == Ok::<(Seq<T::V>, int), Error>(
            (s, pos + encoded_seq::<T>(s).len()),
        ),
    decreases s.len(),
{
    if s.len() == 0 {
        assert(s =~= Seq::empty());
    } else {
        let init = s.drop_last();
        lemma_holds_at_split(data, pos, encoded_seq::<T>(init), T::encoded(s.last()));
        lemma_seq_round_trip::<T>(init, data, pos);
        T::lemma_round_trip(s.last(), data, pos + encoded_seq::<T>(init).len());
        assert(init.push(s.last()) =~= s);
    }
}

/// Decodes `n` values in a row, starting at `pos`.
pub fn read_seq<T: Decode>(data: &[u8], pos: usize, n: usize) -> (r: Result<(Vec<T>, usize), Error>)
    ensures
        outcome(r) == decoded_seq::<T>(data@, pos as int, n as nat),
{
    let mut items: Vec<T> = Vec::new();
    let mut cur: usize = pos;
    let mut i: usize = 0;
    assert(items.deep_view() =~= Seq::<T::V>::empty());
    while i < n
        invariant
            i <= n,
            items@.len() == i,
            decoded_seq::<T>(data@, pos as int, i as nat) == Ok::<(Seq<T::V>, int), Error>(
                (items.deep_view(), cur as int),
            ),
        decreases n - i,
    {
        match T::read(data, cur) {
            Err(e) => {
                proof {
                    lemma_decoded_seq_fails::<T>(data@, pos as int, (i + 1) as nat, n as nat, e);
                }
                return Err(e);
            },
            Ok((item, next)) => {
                let ghost before = items.deep_view();
                items.push(item);
                assert(items.deep_view() =~= before.push(item.deep_view()));
                cur = next;
                i = i + 1;
            },
        }
    }
    Ok((items, cur))
}

/// Appends the encodings of `items`, in order, to `out`. On failure `out` is
/// left as it was.
pub fn write_seq<T: Encode>(items: &Vec<T>, out: &mut Vec<u8>) -> (r: Result<(), Error>)
    ensures
        encodable_seq::<T>(items.deep_view()) ==> r is Ok && final(out)@ == old(out)@
            + encoded_seq::<T>(items.deep_view()),
        !encodable_seq::<T>(items.deep_view()) ==> r == Err::<(), Error>(Error::StringTooLong)
            && final(out)@ == old(out)@,
{
    let start = out.len();
    let ghost all = items.deep_view();
    let mut i: usize = 0;
    while i < items.len()
        invariant
            i <= items@.len(),
            all == items.deep_view(),
            start == old(out)@.len(),
            encodable_seq::<T>(all.take(i as int)),
            out@ == old(out)@ + encoded_seq::<T>(all.take(i as int)),
        decreases items@.len() - i,
    {
        let ghost before = out@;
        match items[i].write(out) {
            Err(e) => {
                out.truncate(start);
                assert(out@ =~= old(out)@);
                assert(!T::encodable(all[i as int]));
                return Err(e);
            },
            Ok(()) => {
                proof {
                    let next = all.take(i + 1);
                    assert(next.drop_last() =~= all.take(i as int));
                    assert(next.last() == all[i as int]);
                    assert(out@ =~= old(out)@ + encoded_seq::<T>(next));
                    assert forall|j: int| 0 <= j < next.len() implies T::encodable(
                        #[trigger] next[j],
                    ) by {
                        if j < i {
                            assert(all.take(i as int)[j] == next[j]);
                        }
                    }
                }
                i = i + 1;
            },
        }
    }
    assert(all.take(i as int) =~= all);
    Ok(())
}

/// A list that carries its own length: a 32-bit count, then that many values.
impl<T: Decode> Decode for Vec<T> {
    open spec fn decoded(data: Seq<u8>, pos: int) -> Result<(Seq<T::V>, int), Error> {
        match u32::decoded(data, pos) {
            Err(e) => Err(e),
            Ok((n, start)) => decoded_seq::<T>(data, start, n as nat),
        }
    }

    proof fn lemma_decoded_bounds(data: Seq<u8>, pos: int) {
        if let Ok((n, start)) = u32::decoded(data, pos) {
            lemma_decoded_seq_bounds::<T>(data, start, n as nat);
        }
    }

    fn read(data: &[u8], pos: usize) -> (r: Result<(Vec<T>, usize), Error>) {
        let (n, start) = u32::read(data, pos)?;
        read_seq::<T>(data, start, n as usize)
    }
}

/// The count that is written in front of a list of `len` values: `len`
/// itself while it fits 32 bits, its low 32 bits beyond.
pub open spec fn count_of(len: nat) -> u32 {
    len as u32
}

impl<T: Encode> Encode for Vec<T> {
    open spec fn encodable(v: Seq<T::V>) -> bool {
        encodable_seq::<T>(v)
    }

    open spec fn encoded(v: Seq<T::V>) -> Seq<u8> {
        u32_le(count_of(v.len())) + encoded_seq::<T>(v)
    }

    open spec fn canonical(v: Seq<T::V>) -> bool {
        v.len() <= u32::MAX && canonical_seq::<T>(v)
    }

    proof fn lemma_round_trip(v: Seq<T::V>, data: Seq<u8>, pos: int) {
        lemma_holds_at_split(data, pos, u32_le(count_of(v.len())), encoded_seq::<T>(v));
        lemma_u32_round_trip(count_of(v.len()), data, pos);
        lemma_seq_round_trip::<T>(v, data, pos + 4);
    }

    fn write(&self, out: &mut Vec<u8>) -> (r: Result<(), Error>) {
        let start = out.len();
        let n = count(self.len());
        assert(n == count_of(self.deep_view().len()));
        n.write(out)?;
        match write_seq::<T>(self, out) {
            Ok(()) => {
                assert(out@ =~= old(out)@ + (u32_le(n) + encoded_seq::<T>(self.deep_view())));
                Ok(())
            },
            Err(e) => {
                out.truncate(start);
                assert(out@ =~= old(out)@);
                Err(e)
            },
        }
    }
}

/// The count that is written for a collection of `len` values.
pub fn count(len: usize) -> (n: u32)
    ensures
        n == count_of(len as nat),
{
    #[verifier::truncate]
    (len as u32)
}

/// How many bytes of a string field belong to the text: those before the
/// first zero byte, or all of them where there is none.
pub open spec fn text_len(field: Seq<u8>) -> nat
    decreases field.len(),
{
    if field.len() == 0 || field[0] == 0 {
        0
    } else {
        1 + text_len(field.drop_first())
    }
}

/// The text of a string field: each byte before the first zero byte, read
/// as the Latin-1 character of that code.
pub open spec fn text_of(field: Seq<u8>) -> Seq<char> {
    Seq::new(text_len(field), |i: int| field[i] as char)
}

/// A string without its trailing NUL characters.
pub open spec fn trim_nul(s: Seq<char>) -> Seq<char>
    decreases s.len(),
{
    if s.len() > 0 && s.last() == '\0' {
        trim_nul(s.drop_last())
    } else {
        s
    }
}

/// The byte that is written for a character: its code where that fits a
/// byte, a question mark otherwise.
pub open spec fn latin1(c: char) -> u8 {
    if c as int <= 0xFF {
        c as u8
    } else {
        0x3F
    }
}

/// The byte that is written for a character.
fn latin1_byte(c: char) -> (b: u8)
    ensures
        b == latin1(c),
{
    if c as u32 <= 0xFF {
        c as u8
    } else {
        0x3F
    }
}

/// The text ends at `k`: no byte before `k` is zero, and the field ends
/// there or has a zero byte there.
pub proof fn lemma_text_len(field: Seq<u8>, k: int)
    requires
        0 <= k <= field.len(),
        forall|i: int| 0 <= i < k ==> field[i] != 0,
        k == field.len() || field[k] == 0,
    ensures
        text_len(field) == k,
    decreases k,
{
    if k > 0 {
        let rest = field.drop_first();
        assert forall|i: int| 0 <= i < k - 1 implies rest[i] != 0 by {
            assert(rest[i] == field[i + 1]);
        }
        lemma_text_len(rest, k - 1);
    }
}

/// Trimming keeps a prefix: all that is cut off is NUL, and what is left
/// does not end in NUL.
pub proof fn lemma_trim_nul(s: Seq<char>)
    ensures
        trim_nul(s).len() <= s.len(),
        trim_nul(s) == s.take(trim_nul(s).len() as int),
        forall|i: int| trim_nul(s).len() <= i < s.len() ==> s[i] == '\0',
        trim_nul(s).len() > 0 ==> s[trim_nul(s).len() - 1] != '\0',
    decreases s.len(),
{
    if s.len() > 0 && s.last() == '\0' {
        let init = s.drop_last();
        lemma_trim_nul(init);
        let n = trim_nul(init).len() as int;
        assert(init.take(n) =~= s.take(n));
        assert forall|i: int| n <= i < s.len() implies s[i] == '\0' by {
            if i < init.len() {
                assert(init[i] == s[i]);
            }
        }
    } else {
        assert(s.take(s.len() as int) =~= s);
    }
}

/// `String::push` of the standard library: the character is appended.
#[verifier::external_body]
fn push_char(s: &mut String, c: char)
    ensures
        final(s)@ == old(s)@.push(c),
{
    s.push(c)
}

/// A string field: a 32-bit length, then that many bytes of Latin-1 text.
/// The text ends at the first zero byte; the rest of the field is skipped.
impl Decode for String {
    open spec fn decoded(data: Seq<u8>, pos: int) -> Result<(Seq<char>, int), Error> {
        match u32::decoded(data, pos) {
            Err(e) => Err(e),
            Ok((len, start)) => if start + len <= data.len() {
                Ok((text_of(data.subrange(start, start + len)), start + len))
            } else {
                Err(Error::UnexpectedEof)
            },
        }
    }

    proof fn lemma_decoded_bounds(data: Seq<u8>, pos: int) {
    }

    fn read(data: &[u8], pos: usize) -> (r: Result<(String, usize), Error>) {
        let (len, start) = u32::read(data, pos)?;
        let len = len as usize;
        if data.len() - start < len {
            return Err(Error::UnexpectedEof);
        }
        let ghost field = data@.subrange(start as int, start + len);
        let mut text = String::new();
        let mut i: usize = 0;
        while i < len && data[start + i] != 0
            invariant
                i <= len,
                start + len <= data@.len() <= usize::MAX,
                field == data@.subrange(start as int, start + len),
                forall|j: int| 0 <= j < i ==> field[j] != 0,
                text@ == Seq::new(i as nat, |j: int| field[j] as char),
            decreases len - i,
        {
            let c = data[start + i] as char;
            push_char(&mut text, c);
            assert(text@ =~= Seq::new((i + 1) as nat, |j: int| field[j] as char));
            i = i + 1;
        }
        proof {
            lemma_text_len(field, i as int);
        }
        Ok((text, start + len))
    }
}

/// On the way out a string loses its trailing NUL characters, gets a single
/// terminating zero byte, and has every character beyond Latin-1 replaced by
/// a question mark. The length in front counts the terminator.
impl Encode for String {
    open spec fn encodable(v: Seq<char>) -> bool {
        trim_nul(v).len() + 1 <= u32::MAX
    }

    open spec fn encoded(v: Seq<char>) -> Seq<u8> {
        let text = trim_nul(v);
        u32_le((text.len() + 1) as u32) + Seq::new(text.len(), |i: int| latin1(text[i])) + seq![0u8]
    }

    open spec fn canonical(v: Seq<char>) -> bool {
        forall|i: int| 0 <= i < v.len() ==> 0 < (#[trigger] v[i]) as int <= 0xFF
    }

    proof fn lemma_round_trip(v: Seq<char>, data: Seq<u8>, pos: int) {
        lemma_trim_nul(v);
        let text = trim_nul(v);
        assert(text =~= v) by {
            if text.len() < v.len() {
                assert(v[text.len() as int] == '\0');
            }
        }
        let n = v.len();
        let head = u32_le((n + 1) as u32);
        let body = Seq::new(n, |i: int| latin1(v[i]));
        lemma_holds_at_split(data, pos, head + body, seq![0u8]);
        lemma_holds_at_split(data, pos, head, body);
        lemma_u32_round_trip((n + 1) as u32, data, pos);
        let field = data.subrange(pos + 4, pos + 4 + n + 1);
        assert forall|i: int| 0 <= i < n implies field[i] != 0 && field[i] as char == v[i] by {
            assert(data.subrange(pos + 4, pos + 4 + n)[i] == body[i]);
            let c = v[i];
            assert(0 < c as int <= 0xFF);
            assert(field[i] == body[i]);
        }
        assert(field[n as int] == 0) by {
            assert(data.subrange(pos + 4 + n, pos + 4 + n + 1)[0] == 0);
        }
        lemma_text_len(field, n as int);
        assert(text_of(field) =~= v);
    }

    fn write(&self, out: &mut Vec<u8>) -> (r: Result<(), Error>) {
        broadcast use vstd::string::group_string_axioms;

        let ghost text = trim_nul(self@);
        let total = self.as_str().unicode_len();
        let mut n: usize = 0;
        let mut seen: usize = 0;
        assert(self@.take(0) =~= Seq::<char>::empty());
        for c in it: self.as_str().chars()
            invariant
                it.seq() == self@,
                total == self@.len(),
                seen == it.index(),
                n <= seen,
                n == trim_nul(self@.take(seen as int)).len(),
        {
            proof {
                let next = self@.take(seen + 1);
                assert(next.drop_last() =~= self@.take(seen as int));
                assert(next.last() == c);
            }
            seen = seen + 1;
            if c != '\0' {
                n = seen;
            }
        }
        assert(self@.take(seen as int) =~= self@);
        if n >= 0xFFFF_FFFF {
            return Err(Error::StringTooLong);
        }
        let len: u32 = (n + 1) as u32;
        len.write(out)?;
        proof {
            lemma_trim_nul(self@);
        }
        let mut i: usize = 0;
        for c in it: self.as_str().chars()
            invariant
                it.seq() == self@,
                n == text.len() <= self@.len(),
                text == self@.take(n as int),
                i == (if it.index() < n {
                    it.index()
                } else {
                    n as int
                }),
                out@ == old(out)@ + u32_le(len) + Seq::new(i as nat, |j: int| latin1(text[j])),
        {
            if i < n {
                out.push(latin1_byte(c));
                assert(text[i as int] == c);
                assert(out@ =~= old(out)@ + u32_le(len) + Seq::new(
                    (i + 1) as nat,
                    |j: int| latin1(text[j]),
                ));
                i = i + 1;
            }
        }
        out.push(0);
        Ok(())
    }
}

/// Where the text of a field ends: at the first zero byte, or at the end
/// of the field where it has none.
pub proof fn lemma_text_ends_at_zero(field: Seq<u8>)
    ensures
        text_len(field) <= field.len(),
        forall|i: int| 0 <= i < text_len(field) ==> field[i] != 0,
        text_len(field) < field.len() ==> field[text_len(field) as int] == 0,
    decreases field.len(),
{
    if field.len() > 0 && field[0] != 0 {
        let rest = field.drop_first();
        lemma_text_ends_at_zero(rest);
        assert forall|i: int| 0 <= i < text_len(field) implies field[i] != 0 by {
            if i > 0 {
                assert(rest[i - 1] == field[i]);
            }
        }
        if text_len(field) < field.len() {
            assert(rest[text_len(rest) as int] == field[text_len(field) as int]);
        }
    }
}

/// A string field is consumed whole, whatever it holds: decoding ends
/// after as many bytes as the length in front says. The text is what
/// stands before the first zero byte of the field, byte for character.
pub proof fn lemma_string_field_is_consumed(data: Seq<u8>, pos: int)
    ensures
        String::decoded(data, pos) matches Ok((text, end)) ==> {
            &&& 0 <= pos
            &&& end == pos + 4 + u32_at(data, pos)
            &&& end <= data.len()
            &&& text.len() <= u32_at(data, pos)
            &&& forall|i: int|
                0 <= i < text.len() ==> (#[trigger] text[i]) as int == data[pos + 4 + i]
            &&& forall|i: int| 0 <= i < text.len() ==> #[trigger] data[pos + 4 + i] != 0
            &&& text.len() < u32_at(data, pos) ==> data[pos + 4 + text.len()] == 0
        },
{
    if let Ok((text, end)) = String::decoded(data, pos) {
        let len = u32_at(data, pos);
        let field = data.subrange(pos + 4, pos + 4 + len);
        lemma_text_ends_at_zero(field);
        assert(0 <= pos);
        assert(end == pos + 4 + len);
        assert(end <= data.len());
        assert(text == text_of(field));
        assert(text.len() == text_len(field));
        assert(text.len() <= len);
        assert forall|i: int| 0 <= i < text.len() implies (#[trigger] text[i]) as int == data[pos
            + 4 + i] by {
            assert(field[i] == data[pos + 4 + i]);
            assert(text[i] == field[i] as char);
            assert((field[i] as char) as int == field[i] as int);
        }
        assert forall|i: int| 0 <= i < text.len() implies #[trigger] data[pos + 4 + i] != 0 by {
            assert(field[i] == data[pos + 4 + i]);
        }
        if text.len() < len {
            assert(field[text.len() as int] == data[pos + 4 + text.len()]);
        }
    }
}

/// The bytes of a string: the length of the trimmed text plus one, the
/// text with a question mark for every character beyond Latin-1, and a
/// zero byte.
pub proof fn lemma_encoded_string_layout(s: Seq<char>)
    requires
        String::encodable(s),
    ensures
        String::encoded(s).len() == trim_nul(s).len() + 5,
        u32_at(String::encoded(s), 0) == trim_nul(s).len() + 1,
        forall|i: int|
            0 <= i < trim_nul(s).len() ==> #[trigger] String::encoded(s)[4 + i] == (if s[i] as int
                <= 0xFF {
                s[i] as u8
            } else {
                0x3Fu8
            }),
        String::encoded(s)[4 + trim_nul(s).len() as int] == 0,
{
    lemma_trim_nul(s);
    let text = trim_nul(s);
    let head = u32_le((text.len() + 1) as u32);
    let bytes = String::encoded(s);
    assert(bytes.subrange(0, 4) =~= head);
    lemma_u32_round_trip((text.len() + 1) as u32, bytes, 0);
    assert forall|i: int| 0 <= i < text.len() implies #[trigger] bytes[4 + i] == latin1(s[i]) by {
        assert(text[i] == s[i]);
    }
}

/// A type whose decoder must be told what the stream said earlier, such as
/// how many entries a list inside the value has.
pub trait DecodeWith<C>: Sized + DeepView {
    /// What decoding at `pos` yields under `ctx`: the value and the position after it.
    spec fn decoded_with(ctx: C, data: Seq<u8>, pos: int) -> Result<(Self::V, int), Error>;

    /// A decoder takes at least one byte and stays inside the data.
    proof fn lemma_decoded_with_bounds(ctx: C, data: Seq<u8>, pos: int)
        ensures
            Self::decoded_with(ctx, data, pos) matches Ok((_, end)) ==> 0 <= pos < end
                <= data.len(),
    ;

    /// Decodes a value at `pos` and returns it with the position after it.
    fn read_with(ctx: C, data: &[u8], pos: usize) -> (r: Result<(Self, usize), Error>)
        ensures
            outcome(r) == Self::decoded_with(ctx, data@, pos as int),
    ;
}

/// A type with an encoder, and with a decoder that needs a context.
pub trait EncodeWith<C>: DecodeWith<C> {
    /// Whether the value can be written at all.
    spec fn encodable(v: Self::V) -> bool;

    /// The bytes that stand for the value.
    spec fn encoded(v: Self::V) -> Seq<u8>;

    /// Whether decoding under `ctx` gives the value back unchanged.
    spec fn canonical_with(ctx: C, v: Self::V) -> bool;

    /// Decoding what was encoded gives the value back, wherever the bytes
    /// stand and whatever follows them.
    proof fn lemma_round_trip_with(ctx: C, v: Self::V, data: Seq<u8>, pos: int)
        requires
            Self::encodable(v),
            Self::canonical_with(ctx, v),
            holds_at(data, pos, Self::encoded(v)),
        ensures
            Self::decoded_with(ctx, data, pos) == Ok::<(Self::V, int), Error>(
                (v, pos + Self::encoded(v).len()),
            ),
    ;

    /// Appends the encoding of `self` to `out`. On failure `out` is left as it was.
    fn write_to(&self, out: &mut Vec<u8>) -> (r: Result<(), Error>)
        ensures
            Self::encodable(self.deep_view()) ==> r is Ok && final(out)@ == old(out)@
                + Self::encoded(self.deep_view()),
            !Self::encodable(self.deep_view()) ==> r == Err::<(), Error>(Error::StringTooLong)
                && final(out)@ == old(out)@,
    ;
}

/// What decoding `n` values in a row yields under one context.
pub open spec fn decoded_seq_with<C, T: DecodeWith<C>>(
    ctx: C,
    data: Seq<u8>,
    pos: int,
    n: nat,
) -> Result<(Seq<T::V>, int), Error>
    decreases n,
{
    if n == 0 {
        Ok((Seq::empty(), pos))
    } else {
        match decoded_seq_with::<C, T>(ctx, data, pos, (n - 1) as nat) {
            Err(e) => Err(e),
            Ok((init, mid)) => match T::decoded_with(ctx, data, mid) {
                Err(e) => Err(e),
                Ok((last, end)) => Ok((init.push(last), end)),
            },
        }
    }
}

/// The values of a sequence, encoded one after the other.
pub open spec fn encoded_seq_with<C, T: EncodeWith<C>>(s: Seq<T::V>) -> Seq<u8>
    decreases s.len(),
{
    if s.len() == 0 {
        Seq::empty()
    } else {
        encoded_seq_with::<C, T>(s.drop_last()) + T::encoded(s.last())
    }
}

/// Every value of the sequence can be written.
pub open spec fn encodable_seq_with<C, T: EncodeWith<C>>(s: Seq<T::V>) -> bool {
    forall|i: int| 0 <= i < s.len() ==> T::encodable(#[trigger] s[i])
}

/// Every value of the sequence comes back unchanged under `ctx`.
pub open spec fn canonical_seq_with<C, T: EncodeWith<C>>(ctx: C, s: Seq<T::V>) -> bool {
    forall|i: int| 0 <= i < s.len() ==> T::canonical_with(ctx, #[trigger] s[i])
}

/// A sequence decodes to as many values as were asked for, and takes at
/// least one byte for each.
pub proof fn lemma_decoded_seq_with_bounds<C, T: DecodeWith<C>>(
    ctx: C,
    data: Seq<u8>,
    pos: int,
    n: nat,
)
    requires
        0 <= pos <= data.len(),
    ensures
        decoded_seq_with::<C, T>(ctx, data, pos, n) matches Ok((s, end)) ==> s.len() == n && pos
            + n <= end <= data.len(),
    decreases n,
{
    if n > 0 {
        lemma_decoded_seq_with_bounds::<C, T>(ctx, data, pos, (n - 1) as nat);
        if let Ok((init, mid)) = decoded_seq_with::<C, T>(ctx, data, pos, (n - 1) as nat) {
            T::lemma_decoded_with_bounds(ctx, data, mid);
        }
    }
}

/// Once a value of the sequence fails to decode, so does every longer sequence.
pub proof fn lemma_decoded_seq_with_fails<C, T: DecodeWith<C>>(
    ctx: C,
    data: Seq<u8>,
    pos: int,
    k: nat,
    n: nat,
    e: Error,
)
    requires
        k <= n,
        decoded_seq_with::<C, T>(ctx, data, pos, k) == Err::<(Seq<T::V>, int), Error>(e),
    ensures
        decoded_seq_with::<C, T>(ctx, data, pos, n) == Err::<(Seq<T::V>, int), Error>(e),
    decreases n,
{
    if k < n {
        lemma_decoded_seq_with_fails::<C, T>(ctx, data, pos, k, (n - 1) as nat, e);
    }
}

/// Decoding an encoded sequence under the context it is canonical for gives
/// its values back.
pub proof fn lemma_seq_round_trip_with<C, T: EncodeWith<C>>(
    ctx: C,
    s: Seq<T::V>,
    data: Seq<u8>,
    pos: int,
)
    requires
        encodable_seq_with::<C, T>(s),
        canonical_seq_with::<C, T>(ctx, s),
        holds_at(data, pos, encoded_seq_with::<C, T>(s)),
    ensures
        decoded_seq_with::<C, T>(ctx, data, pos, s.len()) == Ok::<(Seq<T::V>, int), Error>(
            (s, pos + encoded_seq_with::<C, T>(s).len()),
        ),
    decreases s.len(),
{
    if s.len() == 0 {
        assert(s =~= Seq::empty());
    } else {
        let init = s.drop_last();
        lemma_holds_at_split(data, pos, encoded_seq_with::<C, T>(init), T::encoded(s.last()));
        lemma_seq_round_trip_with::<C, T>(ctx, init, data, pos);
        T::lemma_round_trip_with(ctx, s.last(), data, pos + encoded_seq_with::<C, T>(init).len());
        assert(init.push(s.last()) =~= s);
    }
}

/// Decodes `n` values in a row under one context, starting at `pos`.
pub fn read_seq_with<C: Copy, T: DecodeWith<C>>(ctx: C, data: &[u8], pos: usize, n: usize) -> (r:
    Result<(Vec<T>, usize), Error>)
    ensures
        outcome(r) == decoded_seq_with::<C, T>(ctx, data@, pos as int, n as nat),
{
    let mut items: Vec<T> = Vec::new();
    let mut cur: usize = pos;
    let mut i: usize = 0;
    assert(items.deep_view() =~= Seq::<T::V>::empty());
    while i < n
        invariant
            i <= n,
            items@.len() == i,
            decoded_seq_with::<C, T>(ctx, data@, pos as int, i as nat) == Ok::<
                (Seq<T::V>, int),
                Error,
            >((items.deep_view(), cur as int)),
        decreases n - i,
    {
        match T::read_with(ctx, data, cur) {
            Err(e) => {
                proof {
                    lemma_decoded_seq_with_fails::<C, T>(
                        ctx,
                        data@,
                        pos as int,
                        (i + 1) as nat,
                        n as nat,
                        e,
                    );
                }
                return Err(e);
            },
            Ok((item, next)) => {
                let ghost before = items.deep_view();
                items.push(item);
                assert(items.deep_view() =~= before.push(item.deep_view()));
                cur = next;
                i = i + 1;
            },
        }
    }
    Ok((items, cur))
}

/// Appends the encodings of `items`, in order, to `out`. On failure `out` is
/// left as it was.
pub fn write_seq_with<C, T: EncodeWith<C>>(items: &Vec<T>, out: &mut Vec<u8>) -> (r: Result<
    (),
    Error,
>)
    ensures
        encodable_seq_with::<C, T>(items.deep_view()) ==> r is Ok && final(out)@ == old(out)@
            + encoded_seq_with::<C, T>(items.deep_view()),
        !encodable_seq_with::<C, T>(items.deep_view()) ==> r == Err::<(), Error>(
            Error::StringTooLong,
        ) && final(out)@ == old(out)@,
{
    let start = out.len();
    let ghost all = items.deep_view();
    let mut i: usize = 0;
    while i < items.len()
        invariant
            i <= items@.len(),
            all == items.deep_view(),
            start == old(out)@.len(),
            encodable_seq_with::<C, T>(all.take(i as int)),
            out@ == old(out)@ + encoded_seq_with::<C, T>(all.take(i as int)),
        decreases items@.len() - i,
    {
        match items[i].write_to(out) {
            Err(e) => {
                out.truncate(start);
                assert(out@ =~= old(out)@);
                assert(!T::encodable(all[i as int]));
                return Err(e);
            },
            Ok(()) => {
                proof {
                    let next = all.take(i + 1);
                    assert(next.drop_last() =~= all.take(i as int));
                    assert(next.last() == all[i as int]);
                    assert(out@ =~= old(out)@ + encoded_seq_with::<C, T>(next));
                    assert forall|j: int| 0 <= j < next.len() implies T::encodable(
                        #[trigger] next[j],
                    ) by {
                        if j < i {
                            assert(all.take(i as int)[j] == next[j]);
                        }
                    }
                }
                i = i + 1;
            },
        }
    }
    assert(all.take(i as int) =~= all);
    Ok(())
}

} // verus!
