//! The interface that every wire structure implements: how a value is laid
//! out in bytes, and how bytes are read back into a value.

use vstd::prelude::*;
use crate::error::WireError;
use crate::primitive::{
    i8_bytes, lemma_i8_round_trip, lemma_varint_round_trip, parse_i8, parse_varint, varint_bytes,
    write_i8, write_varint, Parsed, Reader,
};

verus! {

/// A value with a wire form.
pub trait Serializable: View {
    /// Whether the wire format can express `v`.
    spec fn encodable(v: Self::V) -> bool;

    /// The bytes that stand for `v` on the wire.
    spec fn wire(v: Self::V) -> Seq<u8>;

    /// Produces the wire form of `self`.
    fn serialize(&self) -> (out: Vec<u8>)
        requires
            Self::encodable(self@),
        ensures
            out@ == Self::wire(self@),
    ;
}

/// A value that can be read from its wire form.
pub trait Deserializable: View + Sized {
    /// The value at the front of `s` and the number of bytes it occupies,
    /// or the reason none can be read.
    spec fn parse(s: Seq<u8>) -> Parsed<Self::V>;

    /// Replaces `self` by the value at the reader's position and moves the
    /// reader past it. On failure neither `self` nor the reader changes.
    fn deserialize(&mut self, reader: &mut Reader) -> (r: Result<(), WireError>)
        ensures
            match Self::parse(old(reader).remaining()) {
                Ok((v, n)) => r is Ok && final(self)@ == v && final(reader).advanced_from(
                    *old(reader),
                    n,
                ),
                Err(e) => r == Err::<(), WireError>(e) && *final(reader) == *old(reader)
                    && final(self)@ == old(self)@,
            },
    ;
}

/// A wire structure whose decoder inverts its encoder.
pub trait RoundTrip: Serializable + Deserializable {
    /// Reading back the wire form of an encodable value yields that value
    /// and consumes exactly its bytes, whatever follows them.
    proof fn lemma_round_trip(v: Self::V, rest: Seq<u8>)
        requires
            Self::encodable(v),
        ensures
            Self::parse(Self::wire(v) + rest) == Ok::<(Self::V, int), WireError>(
                (v, Self::wire(v).len() as int),
            ),
    ;
}

/// A single signed byte as a wire structure.
#[derive(Clone, Copy, Debug, PartialEq, Eq)]
pub struct Int8 {
    pub value: i8,
}

impl View for Int8 {
    type V = i8;

    open spec fn view(&self) -> i8 {
        self.value
    }
}

impl Default for Int8 {
    fn default() -> (r: Self)
        ensures
            r@ == 0,
    {
        Int8 { value: 0 }
    }
}

impl Serializable for Int8 {
    open spec fn encodable(v: i8) -> bool {
        true
    }

    open spec fn wire(v: i8) -> Seq<u8> {
        i8_bytes(v)
    }

    fn serialize(&self) -> (out: Vec<u8>) {
        let mut res = Vec::new();
        write_i8(&mut res, self.value);
        res
    }
}

impl Deserializable for Int8 {
    open spec fn parse(s: Seq<u8>) -> Parsed<i8> {
        parse_i8(s)
    }

    fn deserialize(&mut self, reader: &mut Reader) -> (r: Result<(), WireError>) {
        match reader.read_i8() {
            Ok(v) => {
                self.value = v;
                Ok(())
            },
            Err(e) => Err(e),
        }
    }
}

impl RoundTrip for Int8 {
    proof fn lemma_round_trip(v: i8, rest: Seq<u8>) {
        lemma_i8_round_trip(v, rest);
    }
}

/// A variable-length integer as a wire structure.
#[derive(Clone, Copy, Debug, PartialEq, Eq)]
pub struct Varint {
    pub value: i8,
}

impl View for Varint {
    type V = i8;

    open spec fn view(&self) -> i8 {
        self.value
    }
}

impl Default for Varint {
    fn default() -> (r: Self)
        ensures
            r@ == 0,
    {
        Varint { value: 0 }
    }
}

impl Serializable for Varint {
    open spec fn encodable(v: i8) -> bool {
        true
    }

    open spec fn wire(v: i8) -> Seq<u8> {
        varint_bytes(v)
    }

    fn serialize(&self) -> (out: Vec<u8>) {
        let mut res = Vec::new();
        write_varint(&mut res, self.value);
        res
    }
}

impl Deserializable for Varint {
    open spec fn parse(s: Seq<u8>) -> Parsed<i8> {
        parse_varint(s)
    }

    fn deserialize(&mut self, reader: &mut Reader) -> (r: Result<(), WireError>) {
        match reader.read_varint() {
            Ok(v) => {
                self.value = v;
                Ok(())
            },
            Err(e) => Err(e),
        }
    }
}

impl RoundTrip for Varint {
    proof fn lemma_round_trip(v: i8, rest: Seq<u8>) {
        lemma_varint_round_trip(v, rest);
    }
}

} // verus!
