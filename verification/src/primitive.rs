//! Fixed-width big-endian integers, the zig-zag variable-length integer,
//! and the cursor that decoders read from.

use vstd::prelude::*;
use byteorder::BigEndian;
use byteorder::ByteOrder;
use crate::error::WireError;

verus! {

/// What a decoder yields on a byte sequence: the value together with the
/// number of bytes it occupied, or the reason no value could be read.
pub type Parsed<V> = Result<(V, int), WireError>;

/// The signed 16-bit integer whose big-endian two's complement form is the
/// two bytes `b0 b1`.
pub open spec fn be_i16(b0: u8, b1: u8) -> int {
    let u = b0 as int * 0x100 + b1 as int;
    if u >= 0x8000 { u - 0x1_0000 } else { u }
}

/// The signed 32-bit integer whose big-endian two's complement form is the
/// four bytes `b0 b1 b2 b3`.
pub open spec fn be_i32(b0: u8, b1: u8, b2: u8, b3: u8) -> int {
    let u = b0 as int * 0x100_0000 + b1 as int * 0x1_0000 + b2 as int * 0x100 + b3 as int;
    if u >= 0x8000_0000 { u - 0x1_0000_0000 } else { u }
}

/// The big-endian two's complement bytes of a 16-bit integer.
pub open spec fn i16_bytes(v: i16) -> Seq<u8> {
    let u: int = if v < 0 { v + 0x1_0000 } else { v as int };
    seq![(u / 0x100) as u8, (u % 0x100) as u8]
}

/// The big-endian two's complement bytes of a 32-bit integer.
pub open spec fn i32_bytes(v: i32) -> Seq<u8> {
    let u: int = if v < 0 { v + 0x1_0000_0000 } else { v as int };
    seq![
        (u / 0x100_0000) as u8,
        (u / 0x1_0000 % 0x100) as u8,
        (u / 0x100 % 0x100) as u8,
        (u % 0x100) as u8,
    ]
}

/// The single two's complement byte of an 8-bit integer.
pub open spec fn i8_bytes(v: i8) -> Seq<u8> {
    seq![(if v < 0 { v + 0x100 } else { v as int }) as u8]
}

/// The 8-bit integer that a byte holds in two's complement.
pub open spec fn byte_i8(b: u8) -> int {
    if b >= 0x80 { b - 0x100 } else { b as int }
}

/// Zig-zag transform of an 8-bit integer: non-negative values map to the
/// even bytes, negative values to the odd bytes, in order of magnitude.
pub open spec fn spec_zigzag_encode(n: i8) -> int {
    if n >= 0 { 2 * n } else { -2 * n - 1 }
}

/// Inverse of the zig-zag transform on any unsigned value.
pub open spec fn spec_zigzag_decode(n: u32) -> int {
    if n % 2 == 0 { n as int / 2 } else { -(n as int / 2) - 1 }
}

/// The wire form of a variable-length integer: one byte holding the zig-zag
/// transform of the value.
pub open spec fn varint_bytes(v: i8) -> Seq<u8> {
    seq![spec_zigzag_encode(v) as u8]
}

/// Decoding a byte `s[0]` as an 8-bit integer.
pub open spec fn parse_i8(s: Seq<u8>) -> Parsed<i8> {
    if s.len() < 1 {
        Err(WireError::TruncatedInput)
    } else {
        Ok((byte_i8(s[0]) as i8, 1))
    }
}

/// Decoding a single unsigned byte.
pub open spec fn parse_u8(s: Seq<u8>) -> Parsed<u8> {
    if s.len() < 1 {
        Err(WireError::TruncatedInput)
    } else {
        Ok((s[0], 1))
    }
}

/// Decoding a big-endian 16-bit integer from the front of `s`.
pub open spec fn parse_i16(s: Seq<u8>) -> Parsed<i16> {
    if s.len() < 2 {
        Err(WireError::TruncatedInput)
    } else {
        Ok((be_i16(s[0], s[1]) as i16, 2))
    }
}

/// Decoding a big-endian 32-bit integer from the front of `s`.
pub open spec fn parse_i32(s: Seq<u8>) -> Parsed<i32> {
    if s.len() < 4 {
        Err(WireError::TruncatedInput)
    } else {
        Ok((be_i32(s[0], s[1], s[2], s[3]) as i32, 4))
    }
}

/// Decoding a variable-length integer from the front of `s`.
pub open spec fn parse_varint(s: Seq<u8>) -> Parsed<i8> {
    if s.len() < 1 {
        Err(WireError::TruncatedInput)
    } else {
        Ok((spec_zigzag_decode(s[0] as u32) as i8, 1))
    }
}

/// Zig-zag encodes an 8-bit integer into a byte.
pub fn zigzag_encode(n: i8) -> (r: u8)
    ensures
        r as int == spec_zigzag_encode(n),
{
    let r = ((n << 1) ^ (n >> 7)) as u8;
    assert(r as int == if n >= 0 { 2 * n } else { -2 * n - 1 }) by (bit_vector)
        requires
            r == ((n << 1) ^ (n >> 7)) as u8,
    ;
    r
}

/// Zig-zag decodes an unsigned value into a signed integer.
pub fn zigzag_decode(n: u32) -> (r: i32)
    ensures
        r as int == spec_zigzag_decode(n),
{
    let half = (n / 2) as i32;
    if n % 2 == 0 {
        half
    } else {
        -half - 1
    }
}

/// Reads a big-endian `i16` from the first two bytes of `buf`.
///
/// Trusted: calls `byteorder::BigEndian::read_i16`, which panics on fewer
/// than two bytes and otherwise takes `buf[0]` as the high byte and
/// `buf[1]` as the low byte of a two's complement value.
#[verifier::external_body]
fn be_read_i16(buf: &[u8]) -> (v: i16)
    requires
        buf@.len() >= 2,
    ensures
        v as int == be_i16(buf@[0], buf@[1]),
{
    BigEndian::read_i16(buf)
}

/// Reads a big-endian `i32` from the first four bytes of `buf`.
///
/// Trusted: calls `byteorder::BigEndian::read_i32`, which panics on fewer
/// than four bytes and otherwise takes `buf[0]` as the most significant
/// and `buf[3]` as the least significant byte of a two's complement value.
#[verifier::external_body]
fn be_read_i32(buf: &[u8]) -> (v: i32)
    requires
        buf@.len() >= 4,
    ensures
        v as int == be_i32(buf@[0], buf@[1], buf@[2], buf@[3]),
{
    BigEndian::read_i32(buf)
}

/// A read position in a borrowed byte buffer.
#[derive(Clone, Copy)]
pub struct Reader<'a> {
    buf: &'a [u8],
    pos: usize,
}

impl<'a> Reader<'a> {
    #[verifier::type_invariant]
    spec fn in_bounds(self) -> bool {
        self.pos <= self.buf@.len()
    }

    /// All bytes of the underlying buffer.
    pub closed spec fn bytes(self) -> Seq<u8> {
        self.buf@
    }

    /// How many bytes have been consumed.
    pub closed spec fn offset(self) -> int {
        self.pos as int
    }

    /// The bytes not yet consumed.
    pub open spec fn remaining(self) -> Seq<u8> {
        self.bytes().skip(self.offset())
    }

    /// That `self` is `before` moved forward by `n` bytes over the same
    /// buffer.
    pub open spec fn advanced_from(self, before: Self, n: int) -> bool {
        &&& self.bytes() == before.bytes()
        &&& self.offset() == before.offset() + n
        &&& 0 <= n <= before.remaining().len()
        &&& self.remaining() == before.remaining().skip(n)
    }

    /// Moving forward twice is moving forward by the sum.
    pub proof fn lemma_advanced_twice(self, mid: Self, before: Self, n: int, m: int)
        requires
            mid.advanced_from(before, n),
            self.advanced_from(mid, m),
        ensures
            self.advanced_from(before, n + m),
    {
        assert(before.remaining().skip(n).skip(m) =~= before.remaining().skip(n + m));
    }

    /// A reader at the start of `buf`.
    pub fn new(buf: &'a [u8]) -> (r: Self)
        ensures
            r.bytes() == buf@,
            r.offset() == 0,
            r.remaining() == buf@,
    {
        Reader { buf, pos: 0 }
    }

    /// Number of bytes consumed so far.
    pub fn position(&self) -> (p: usize)
        ensures
            p as int == self.offset(),
    {
        self.pos
    }

    /// Number of bytes left to read.
    pub fn remaining_len(&self) -> (n: usize)
        ensures
            n as int == self.remaining().len(),
    {
        proof {
            use_type_invariant(self);
        }
        self.buf.len() - self.pos
    }

    /// Takes the next `n` bytes, or reports truncation and stays in place
    /// when fewer than `n` remain.
    pub fn take(&mut self, n: usize) -> (r: Result<&'a [u8], WireError>)
        ensures
            old(self).remaining().len() < n ==> r == Err::<&[u8], _>(WireError::TruncatedInput)
                && *final(self) == *old(self),
            old(self).remaining().len() >= n ==> r is Ok && r->Ok_0@ == old(self).remaining().take(
                n as int,
            ) && final(self).advanced_from(*old(self), n as int),
    {
        proof {
            use_type_invariant(&*self);
        }
        if self.buf.len() - self.pos < n {
            return Err(WireError::TruncatedInput);
        }
        let start = self.pos;
        let out = vstd::slice::slice_subrange(self.buf, start, start + n);
        self.pos = start + n;
        assert(out@ == old(self).remaining().take(n as int));
        assert(self.remaining() == old(self).remaining().skip(n as int));
        Ok(out)
    }

    /// Takes every byte that is left.
    pub fn take_rest(&mut self) -> (r: &'a [u8])
        ensures
            r@ == old(self).remaining(),
            final(self).advanced_from(*old(self), old(self).remaining().len() as int),
    {
        proof {
            use_type_invariant(&*self);
        }
        let start = self.pos;
        let end = self.buf.len();
        let out = vstd::slice::slice_subrange(self.buf, start, end);
        self.pos = end;
        assert(out@ == old(self).remaining());
        assert(self.remaining() == old(self).remaining().skip(old(self).remaining().len() as int));
        out
    }

    /// That a read which left `self` behind, starting from `before` and
    /// returning `r`, did what the decoder `p` prescribes: on success the
    /// decoded value is returned and exactly its bytes are consumed; on
    /// failure the error is returned and nothing is consumed.
    pub open spec fn follows<V>(self, before: Self, r: Result<V, WireError>, p: Parsed<V>) -> bool {
        match p {
            Ok((v, n)) => r == Ok::<V, WireError>(v) && self.advanced_from(before, n),
            Err(e) => r == Err::<V, WireError>(e) && self == before,
        }
    }

    /// Reads one unsigned byte.
    pub fn read_u8(&mut self) -> (r: Result<u8, WireError>)
        ensures
            final(self).follows(*old(self), r, parse_u8(old(self).remaining())),
    {
        match self.take(1) {
            Ok(b) => Ok(b[0]),
            Err(e) => Err(e),
        }
    }

    /// Reads one signed byte.
    pub fn read_i8(&mut self) -> (r: Result<i8, WireError>)
        ensures
            final(self).follows(*old(self), r, parse_i8(old(self).remaining())),
    {
        match self.take(1) {
            Ok(b) => {
                let u = b[0];
                let v: i8 = if u >= 0x80 { (u as i16 - 0x100) as i8 } else { u as i8 };
                Ok(v)
            },
            Err(e) => Err(e),
        }
    }

    /// Reads a big-endian 16-bit integer.
    pub fn read_i16(&mut self) -> (r: Result<i16, WireError>)
        ensures
            final(self).follows(*old(self), r, parse_i16(old(self).remaining())),
    {
        match self.take(2) {
            Ok(b) => Ok(be_read_i16(b)),
            Err(e) => Err(e),
        }
    }

    /// Reads a big-endian 32-bit integer.
    pub fn read_i32(&mut self) -> (r: Result<i32, WireError>)
        ensures
            final(self).follows(*old(self), r, parse_i32(old(self).remaining())),
    {
        match self.take(4) {
            Ok(b) => Ok(be_read_i32(b)),
            Err(e) => Err(e),
        }
    }

    /// Reads a variable-length integer.
    pub fn read_varint(&mut self) -> (r: Result<i8, WireError>)
        ensures
            final(self).follows(*old(self), r, parse_varint(old(self).remaining())),
    {
        match self.take(1) {
            Ok(b) => Ok(zigzag_decode(b[0] as u32) as i8),
            Err(e) => Err(e),
        }
    }
}

/// Appends the single byte of an 8-bit integer.
pub fn write_i8(out: &mut Vec<u8>, v: i8)
    ensures
        final(out)@ == old(out)@ + i8_bytes(v),
{
    let b: u8 = if v < 0 { (v as i16 + 0x100) as u8 } else { v as u8 };
    out.push(b);
    assert(out@ == old(out)@ + i8_bytes(v));
}

/// Appends the two big-endian bytes of a 16-bit integer.
pub fn write_i16(out: &mut Vec<u8>, v: i16)
    ensures
        final(out)@ == old(out)@ + i16_bytes(v),
{
    let u: u16 = if v < 0 { (v as i32 + 0x1_0000) as u16 } else { v as u16 };
    out.push((u / 0x100) as u8);
    out.push((u % 0x100) as u8);
    assert(out@ == old(out)@ + i16_bytes(v));
}

/// Appends the four big-endian bytes of a 32-bit integer.
pub fn write_i32(out: &mut Vec<u8>, v: i32)
    ensures
        final(out)@ == old(out)@ + i32_bytes(v),
{
    let u: u32 = if v < 0 { (v as i64 + 0x1_0000_0000) as u32 } else { v as u32 };
    out.push((u / 0x100_0000) as u8);
    out.push((u / 0x1_0000 % 0x100) as u8);
    out.push((u / 0x100 % 0x100) as u8);
    out.push((u % 0x100) as u8);
    assert(out@ == old(out)@ + i32_bytes(v));
}

/// Appends the one-byte wire form of a variable-length integer.
pub fn write_varint(out: &mut Vec<u8>, v: i8)
    ensures
        final(out)@ == old(out)@ + varint_bytes(v),
{
    out.push(zigzag_encode(v));
    assert(out@ == old(out)@ + varint_bytes(v));
}

/// An 8-bit integer survives being written and read back, whatever
/// follows it.
pub proof fn lemma_i8_round_trip(v: i8, rest: Seq<u8>)
    ensures
        parse_i8(i8_bytes(v) + rest) == Ok::<(i8, int), WireError>((v, 1)),
        i8_bytes(v).len() == 1,
{
}

/// A 16-bit integer survives being written and read back, whatever
/// follows it.
pub proof fn lemma_i16_round_trip(v: i16, rest: Seq<u8>)
    ensures
        parse_i16(i16_bytes(v) + rest) == Ok::<(i16, int), WireError>((v, 2)),
        i16_bytes(v).len() == 2,
{
}

/// A 32-bit integer survives being written and read back, whatever
/// follows it.
pub proof fn lemma_i32_round_trip(v: i32, rest: Seq<u8>)
    ensures
        parse_i32(i32_bytes(v) + rest) == Ok::<(i32, int), WireError>((v, 4)),
        i32_bytes(v).len() == 4,
{
    let u: u32 = (if v < 0 { v + 0x1_0000_0000 } else { v as int }) as u32;
    assert((u / 0x100_0000) * 0x100_0000 + (u / 0x1_0000 % 0x100) * 0x1_0000 + (u / 0x100 % 0x100)
        * 0x100 + u % 0x100 == u && u / 0x100_0000 < 0x100) by (bit_vector);
    let s = i32_bytes(v) + rest;
    assert(s[0] == (u / 0x100_0000) as u8);
    assert(s[1] == (u / 0x1_0000 % 0x100) as u8);
    assert(s[2] == (u / 0x100 % 0x100) as u8);
    assert(s[3] == (u % 0x100) as u8);
}

/// The zig-zag transform is inverted by its decoder on every 8-bit value.
pub proof fn lemma_zigzag_round_trip(v: i8)
    ensures
        0 <= spec_zigzag_encode(v) <= 0xff,
        spec_zigzag_decode(spec_zigzag_encode(v) as u32) == v,
{
}

/// A variable-length integer survives being written and read back,
/// whatever follows it.
pub proof fn lemma_varint_round_trip(v: i8, rest: Seq<u8>)
    ensures
        parse_varint(varint_bytes(v) + rest) == Ok::<(i8, int), WireError>((v, 1)),
        varint_bytes(v).len() == 1,
{
    lemma_zigzag_round_trip(v);
}

} // verus!
