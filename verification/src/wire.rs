//! The primitives of the wire format: integers with the most significant
//! byte first, and byte strings behind their length.

use crate::error::Error;
use byteorder::{BigEndian, ByteOrder};
use vstd::prelude::*;
use vstd::slice::{slice_subrange, slice_to_vec};

verus! {

/// The four bytes of `n`, most significant first.
pub open spec fn be32(n: u32) -> Seq<u8> {
    seq![
        (n / 0x100_0000) as u8,
        ((n / 0x1_0000) % 0x100) as u8,
        ((n / 0x100) % 0x100) as u8,
        (n % 0x100) as u8,
    ]
}

/// The number that the first four bytes of `s` spell, most significant first.
pub open spec fn from_be32(s: Seq<u8>) -> u32
    recommends
        s.len() >= 4,
{
    (s[0] as int * 0x100_0000 + s[1] as int * 0x1_0000 + s[2] as int * 0x100 + s[3] as int) as u32
}

/// The eight bytes of `n`, most significant first.
pub open spec fn be64(n: u64) -> Seq<u8> {
    be32((n / 0x1_0000_0000) as u32) + be32((n % 0x1_0000_0000) as u32)
}

/// The number that the first eight bytes of `s` spell, most significant first.
pub open spec fn from_be64(s: Seq<u8>) -> u64
    recommends
        s.len() >= 8,
{
    (from_be32(s) as int * 0x1_0000_0000 + from_be32(s.skip(4)) as int) as u64
}

/// A byte string on the wire: its length in four bytes, then its bytes.
/// Of a length that four bytes cannot hold, the low 32 bits are written.
pub open spec fn wire_bytes(b: Seq<u8>) -> Seq<u8> {
    be32(b.len() as u32) + b
}

/// Reading one byte: the byte and what follows it.
pub open spec fn parse_u8(s: Seq<u8>) -> Result<(u8, Seq<u8>), Error> {
    if s.len() < 1 {
        Err(Error::UnexpectedEOF)
    } else {
        Ok((s[0], s.skip(1)))
    }
}

/// Reading a 32-bit number: the number and what follows it.
pub open spec fn parse_u32(s: Seq<u8>) -> Result<(u32, Seq<u8>), Error> {
    if s.len() < 4 {
        Err(Error::UnexpectedEOF)
    } else {
        Ok((from_be32(s), s.skip(4)))
    }
}

/// Reading a 64-bit number: the number and what follows it.
pub open spec fn parse_u64(s: Seq<u8>) -> Result<(u64, Seq<u8>), Error> {
    if s.len() < 8 {
        Err(Error::UnexpectedEOF)
    } else {
        Ok((from_be64(s), s.skip(8)))
    }
}

/// Reading a byte string: the length must be there, and as many bytes as it
/// announces.
pub open spec fn parse_bytes(s: Seq<u8>) -> Result<(Seq<u8>, Seq<u8>), Error> {
    if s.len() < 4 {
        Err(Error::UnexpectedEOF)
    } else if s.len() - 4 < from_be32(s) {
        Err(Error::UnexpectedEOF)
    } else {
        Ok((s.subrange(4, 4 + from_be32(s)), s.skip(4 + from_be32(s))))
    }
}

/// Reading a number that is there only if `present` says so.
pub open spec fn parse_opt_u32(present: bool, s: Seq<u8>) -> Result<(Option<u32>, Seq<u8>), Error> {
    if present {
        match parse_u32(s) {
            Ok((v, rest)) => Ok((Some(v), rest)),
            Err(e) => Err(e),
        }
    } else {
        Ok((None, s))
    }
}

/// Reading a 64-bit number that is there only if `present` says so.
pub open spec fn parse_opt_u64(present: bool, s: Seq<u8>) -> Result<(Option<u64>, Seq<u8>), Error> {
    if present {
        match parse_u64(s) {
            Ok((v, rest)) => Ok((Some(v), rest)),
            Err(e) => Err(e),
        }
    } else {
        Ok((None, s))
    }
}

/// `byteorder::BigEndian::read_u32`: the first four bytes of `buf` as a
/// number, most significant byte first. It panics on a shorter buffer.
#[verifier::external_body]
fn be_read_u32(buf: &[u8]) -> (n: u32)
    requires
        buf@.len() >= 4,
    ensures
        n == from_be32(buf@),
{
    BigEndian::read_u32(buf)
}

/// `byteorder::BigEndian::read_u64`: the first eight bytes of `buf` as a
/// number, most significant byte first. It panics on a shorter buffer.
#[verifier::external_body]
fn be_read_u64(buf: &[u8]) -> (n: u64)
    requires
        buf@.len() >= 8,
    ensures
        n == from_be64(buf@),
{
    BigEndian::read_u64(buf)
}

/// `byteorder::BigEndian::write_u32`, on a buffer of four bytes: the bytes
/// of `n`, most significant first.
#[verifier::external_body]
fn be_write_u32(n: u32) -> (bytes: [u8; 4])
    ensures
        bytes@ == be32(n),
{
    let mut bytes = [0u8; 4];
    BigEndian::write_u32(&mut bytes, n);
    bytes
}

/// `byteorder::BigEndian::write_u64`, on a buffer of eight bytes: the bytes
/// of `n`, most significant first.
#[verifier::external_body]
fn be_write_u64(n: u64) -> (bytes: [u8; 8])
    ensures
        bytes@ == be64(n),
{
    let mut bytes = [0u8; 8];
    BigEndian::write_u64(&mut bytes, n);
    bytes
}

/// Appends `bytes` to `w`.
pub fn put_bytes(w: &mut Vec<u8>, bytes: &[u8])
    ensures
        final(w)@ == old(w)@ + bytes@,
{
    let mut i: usize = 0;
    while i < bytes.len()
        invariant
            i <= bytes@.len(),
            w@ == old(w)@ + bytes@.subrange(0, i as int),
        decreases bytes@.len() - i,
    {
        w.push(bytes[i]);
        i += 1;
    }
    assert(bytes@.subrange(0, i as int) == bytes@);
}

/// A value that has an encoding on the wire.
pub trait Sendable {
    /// The bytes that stand for this value.
    spec fn wire(&self) -> Seq<u8>;

    /// Appends the encoding to `w`.
    fn write_to(&self, w: &mut Vec<u8>)
        ensures
            final(w)@ == old(w)@ + self.wire(),
    ;

    /// The length of the encoding.
    fn size(&self) -> (n: u32)
        requires
            self.wire().len() <= u32::MAX,
        ensures
            n == self.wire().len(),
    ;
}

/// A value that can be read off the wire.
pub trait Receivable: Sized + View {
    /// What the bytes `s` begin with: a value and the bytes that follow it,
    /// or the reason why they spell no value.
    spec fn parse(s: Seq<u8>) -> Result<(Self::V, Seq<u8>), Error>;

    /// Takes one value off the front of `r`. A failure takes nothing.
    fn recv(r: &mut &[u8]) -> (res: Result<Self, Error>)
        ensures
            match Self::parse(old(r)@) {
                Ok((v, rest)) => res is Ok && res->Ok_0@ == v && final(r)@ == rest,
                Err(e) => res == Err::<Self, Error>(e) && final(r)@ == old(r)@,
            },
    ;
}

impl Sendable for u8 {
    open spec fn wire(&self) -> Seq<u8> {
        seq![*self]
    }

    fn write_to(&self, w: &mut Vec<u8>) {
        w.push(*self);
        assert(w@ == old(w)@ + seq![*self]);
    }

    fn size(&self) -> (n: u32) {
        1
    }
}

impl Receivable for u8 {
    open spec fn parse(s: Seq<u8>) -> Result<(u8, Seq<u8>), Error> {
        parse_u8(s)
    }

    fn recv(r: &mut &[u8]) -> (res: Result<u8, Error>) {
        let s: &[u8] = *r;
        if s.len() < 1 {
            return Err(Error::UnexpectedEOF);
        }
        let b = s[0];
        *r = slice_subrange(s, 1, s.len());
        Ok(b)
    }
}

impl Sendable for u32 {
    open spec fn wire(&self) -> Seq<u8> {
        be32(*self)
    }

    fn write_to(&self, w: &mut Vec<u8>) {
        let bytes = be_write_u32(*self);
        put_bytes(w, bytes.as_slice());
    }

    fn size(&self) -> (n: u32) {
        4
    }
}

impl Receivable for u32 {
    open spec fn parse(s: Seq<u8>) -> Result<(u32, Seq<u8>), Error> {
        parse_u32(s)
    }

    fn recv(r: &mut &[u8]) -> (res: Result<u32, Error>) {
        let s: &[u8] = *r;
        if s.len() < 4 {
            return Err(Error::UnexpectedEOF);
        }
        let n = be_read_u32(s);
        *r = slice_subrange(s, 4, s.len());
        Ok(n)
    }
}

impl Sendable for u64 {
    open spec fn wire(&self) -> Seq<u8> {
        be64(*self)
    }

    fn write_to(&self, w: &mut Vec<u8>) {
        let bytes = be_write_u64(*self);
        put_bytes(w, bytes.as_slice());
    }

    fn size(&self) -> (n: u32) {
        8
    }
}

impl Receivable for u64 {
    open spec fn parse(s: Seq<u8>) -> Result<(u64, Seq<u8>), Error> {
        parse_u64(s)
    }

    fn recv(r: &mut &[u8]) -> (res: Result<u64, Error>) {
        let s: &[u8] = *r;
        if s.len() < 8 {
            return Err(Error::UnexpectedEOF);
        }
        let n = be_read_u64(s);
        *r = slice_subrange(s, 8, s.len());
        Ok(n)
    }
}

impl Sendable for Vec<u8> {
    open spec fn wire(&self) -> Seq<u8> {
        wire_bytes(self@)
    }

    fn write_to(&self, w: &mut Vec<u8>) {
        let len = #[verifier::truncate]
        (self.len() as u32);
        len.write_to(w);
        put_bytes(w, self.as_slice());
    }

    fn size(&self) -> (n: u32) {
        4 + self.len() as u32
    }
}

impl Receivable for Vec<u8> {
    open spec fn parse(s: Seq<u8>) -> Result<(Seq<u8>, Seq<u8>), Error> {
        parse_bytes(s)
    }

    fn recv(r: &mut &[u8]) -> (res: Result<Vec<u8>, Error>) {
        let s: &[u8] = *r;
        if s.len() < 4 {
            return Err(Error::UnexpectedEOF);
        }
        let len = be_read_u32(s) as usize;
        if s.len() - 4 < len {
            return Err(Error::UnexpectedEOF);
        }
        let bytes = slice_to_vec(slice_subrange(s, 4, 4 + len));
        *r = slice_subrange(s, 4 + len, s.len());
        Ok(bytes)
    }
}

impl<T: Sendable> Sendable for Option<T> {
    open spec fn wire(&self) -> Seq<u8> {
        match self {
            Some(x) => x.wire(),
            None => Seq::empty(),
        }
    }

    fn write_to(&self, w: &mut Vec<u8>) {
        match self {
            Some(x) => x.write_to(w),
            None => {},
        }
    }

    fn size(&self) -> (n: u32) {
        match self {
            Some(x) => x.size(),
            None => 0,
        }
    }
}

impl Receivable for Option<u32> {
    open spec fn parse(s: Seq<u8>) -> Result<(Option<u32>, Seq<u8>), Error> {
        parse_opt_u32(true, s)
    }

    fn recv(r: &mut &[u8]) -> (res: Result<Option<u32>, Error>) {
        Ok(Some(u32::recv(r)?))
    }
}

impl Receivable for Option<u64> {
    open spec fn parse(s: Seq<u8>) -> Result<(Option<u64>, Seq<u8>), Error> {
        parse_opt_u64(true, s)
    }

    fn recv(r: &mut &[u8]) -> (res: Result<Option<u64>, Error>) {
        Ok(Some(u64::recv(r)?))
    }
}

/// A byte that was written is read back, whatever follows it.
pub proof fn lemma_u8_round_trip(b: u8, tail: Seq<u8>)
    ensures
        parse_u8(seq![b] + tail) == Ok::<(u8, Seq<u8>), Error>((b, tail)),
{
    assert((seq![b] + tail).skip(1) =~= tail);
}

/// A 32-bit number that was written is read back, whatever follows it.
pub proof fn lemma_u32_round_trip(n: u32, tail: Seq<u8>)
    ensures
        parse_u32(be32(n) + tail) == Ok::<(u32, Seq<u8>), Error>((n, tail)),
        be32(n).len() == 4,
{
    let s = be32(n) + tail;
    assert(s[0] == be32(n)[0] && s[1] == be32(n)[1] && s[2] == be32(n)[2] && s[3] == be32(n)[3]);
    assert(s.skip(4) =~= tail);
}

/// A 64-bit number that was written is read back, whatever follows it.
pub proof fn lemma_u64_round_trip(n: u64, tail: Seq<u8>)
    ensures
        parse_u64(be64(n) + tail) == Ok::<(u64, Seq<u8>), Error>((n, tail)),
        be64(n).len() == 8,
{
    let hi = (n / 0x1_0000_0000) as u32;
    let lo = (n % 0x1_0000_0000) as u32;
    let s = be64(n) + tail;
    lemma_u32_round_trip(hi, be32(lo) + tail);
    lemma_u32_round_trip(lo, tail);
    assert(s =~= be32(hi) + (be32(lo) + tail));
    assert(s.skip(4) =~= be32(lo) + tail);
    assert(s.skip(8) =~= tail);
}

/// A byte string that was written is read back, whatever follows it.
pub proof fn lemma_bytes_round_trip(b: Seq<u8>, tail: Seq<u8>)
    requires
        b.len() <= u32::MAX,
    ensures
        parse_bytes(wire_bytes(b) + tail) == Ok::<(Seq<u8>, Seq<u8>), Error>((b, tail)),
        wire_bytes(b).len() == 4 + b.len(),
{
    let s = wire_bytes(b) + tail;
    lemma_u32_round_trip(b.len() as u32, b + tail);
    assert(s =~= be32(b.len() as u32) + (b + tail));
    assert(s.subrange(4, 4 + b.len() as int) =~= b);
    assert(s.skip(4 + b.len() as int) =~= tail);
}

} // verus!
