//! Compact collections: sequences and strings prefixed by a
//! variable-length integer that holds their length plus one, zero being
//! reserved for the absent state.

use vstd::prelude::*;
use vstd::slice::slice_to_vec;
use vstd::utf8::{decode_utf8, encode_utf8, valid_utf8};
use crate::codec::{Deserializable, RoundTrip, Serializable};
use crate::error::WireError;
use crate::primitive::{
    lemma_varint_round_trip, parse_varint, varint_bytes, write_varint, Parsed, Reader,
};

verus! {

/// The largest number of elements, or of string bytes, whose length prefix
/// fits the one-byte variable-length integer.
pub const MAX_COMPACT_LEN: usize = 126;

/// The views of the elements of `s`, in order.
pub open spec fn views<T: View>(s: Seq<T>) -> Seq<T::V> {
    s.map_values(|t: T| t@)
}

/// The wire forms of the elements of `vs`, one after another.
pub open spec fn wire_all<T: Serializable>(vs: Seq<T::V>) -> Seq<u8>
    decreases vs.len(),
{
    if vs.len() == 0 {
        Seq::empty()
    } else {
        wire_all::<T>(vs.drop_last()) + T::wire(vs.last())
    }
}

/// Decoding `count` consecutive elements from the front of `s`.
pub open spec fn parse_all<T: Deserializable>(s: Seq<u8>, count: int) -> Parsed<Seq<T::V>>
    decreases count,
{
    if count <= 0 {
        Ok((Seq::empty(), 0))
    } else {
        match T::parse(s) {
            Err(e) => Err(e),
            Ok((v, n)) => match parse_all::<T>(s.skip(n), count - 1) {
                Err(e) => Err(e),
                Ok((vs, m)) => Ok((seq![v] + vs, n + m)),
            },
        }
    }
}

/// Whether every element of `vs` has a wire form.
pub open spec fn all_encodable<T: Serializable>(vs: Seq<T::V>) -> bool {
    forall|i: int| 0 <= i < vs.len() ==> T::encodable(#[trigger] vs[i])
}

/// The wire form of a compact array: the length prefix, then the elements.
pub open spec fn compact_array_wire<T: Serializable>(v: Option<Seq<T::V>>) -> Seq<u8> {
    match v {
        None => varint_bytes(0),
        Some(vs) => varint_bytes((vs.len() + 1) as i8) + wire_all::<T>(vs),
    }
}

/// Decoding a compact array: a zero prefix is the absent array, a positive
/// prefix `n` announces `n - 1` elements, a negative prefix is no length.
pub open spec fn compact_array_parse<T: Deserializable>(s: Seq<u8>) -> Parsed<Option<Seq<T::V>>> {
    match parse_varint(s) {
        Err(e) => Err(e),
        Ok((n, _)) => if n == 0 {
            Ok((None, 1))
        } else if n < 0 {
            Err(WireError::InvalidEncoding)
        } else {
            match parse_all::<T>(s.skip(1), n - 1) {
                Err(e) => Err(e),
                Ok((vs, m)) => Ok((Some(vs), 1 + m)),
            }
        },
    }
}

/// An ordered sequence of wire structures, or the absent array.
#[derive(Debug, PartialEq, Eq)]
pub struct CompactArray<T: Serializable + Deserializable + Default> {
    data: Option<Vec<T>>,
}

impl<T: Serializable + Deserializable + Default> View for CompactArray<T> {
    type V = Option<Seq<T::V>>;

    closed spec fn view(&self) -> Option<Seq<T::V>> {
        match self.data {
            None => None,
            Some(v) => Some(views(v@)),
        }
    }
}

impl<T: Serializable + Deserializable + Default> Default for CompactArray<T> {
    /// The absent array.
    fn default() -> (r: Self)
        ensures
            r@ is None,
    {
        CompactArray { data: None }
    }
}

impl<T: Serializable + Deserializable + Default> CompactArray<T> {
    /// The absent array, which is distinct from the empty one.
    pub fn absent() -> (r: Self)
        ensures
            r@ is None,
    {
        CompactArray { data: None }
    }

    /// The present array with no elements.
    pub fn empty() -> (r: Self)
        ensures
            r@ == Some(Seq::<T::V>::empty()),
    {
        let r = CompactArray { data: Some(Vec::new()) };
        assert(r@->Some_0 =~= Seq::<T::V>::empty());
        r
    }

    /// The elements held, if the array is present.
    pub fn items(&self) -> (r: Option<&Vec<T>>)
        ensures
            r is Some == self@ is Some,
            r matches Some(v) ==> views(v@) == self@->Some_0,
    {
        match &self.data {
            Some(v) => Some(v),
            None => None,
        }
    }

    /// Whether the array is short enough for its length prefix.
    pub fn fits(&self) -> (r: bool)
        ensures
            r == match self@ {
                Some(s) => s.len() <= MAX_COMPACT_LEN,
                None => true,
            },
    {
        match &self.data {
            Some(v) => v.len() <= MAX_COMPACT_LEN,
            None => true,
        }
    }

    /// Adds `elem` at the end of a present array; the absent array stays
    /// absent.
    pub fn append(&mut self, elem: T)
        ensures
            final(self)@ == match old(self)@ {
                Some(s) => Some(s.push(elem@)),
                None => None,
            },
    {
        match &mut self.data {
            Some(data) => {
                data.push(elem);
            },
            None => {},
        }
        proof {
            if old(self)@ is Some {
                assert(self@->Some_0 =~= old(self)@->Some_0.push(elem@));
            }
        }
    }
}

impl<T: Serializable + Deserializable + Default> Serializable for CompactArray<T> {
    /// The absent array is always encodable; a present one when its length
    /// prefix fits and each element is encodable.
    open spec fn encodable(v: Option<Seq<T::V>>) -> bool {
        match v {
            None => true,
            Some(vs) => vs.len() <= MAX_COMPACT_LEN && all_encodable::<T>(vs),
        }
    }

    open spec fn wire(v: Option<Seq<T::V>>) -> Seq<u8> {
        compact_array_wire::<T>(v)
    }

    fn serialize(&self) -> (out: Vec<u8>) {
        let mut res = Vec::new();
        match &self.data {
            Some(data) => {
                let n = data.len();
                write_varint(&mut res, (n + 1) as i8);
                let mut i: usize = 0;
                while i < n
                    invariant
                        i <= n,
                        n == data@.len(),
                        n <= MAX_COMPACT_LEN,
                        all_encodable::<T>(views(data@)),
                        res@ == varint_bytes((n + 1) as i8) + wire_all::<T>(
                            views(data@).take(i as int),
                        ),
                    decreases n - i,
                {
                    let ghost vs = views(data@);
                    assert(T::encodable(vs[i as int]));
                    let bytes = data[i].serialize();
                    res.extend_from_slice(bytes.as_slice());
                    assert(vs.take(i + 1).drop_last() =~= vs.take(i as int));
                    i += 1;
                }
                assert(views(data@).take(n as int) =~= views(data@));
            },
            None => {
                write_varint(&mut res, 0);
            },
        }
        res
    }
}

impl<T: Serializable + Deserializable + Default> Deserializable for CompactArray<T> {
    open spec fn parse(s: Seq<u8>) -> Parsed<Option<Seq<T::V>>> {
        compact_array_parse::<T>(s)
    }

    fn deserialize(&mut self, reader: &mut Reader) -> (r: Result<(), WireError>) {
        let start = *reader;
        let n = match reader.read_varint() {
            Ok(n) => n,
            Err(e) => {
                return Err(e);
            },
        };
        if n == 0 {
            self.data = None;
            return Ok(());
        }
        if n < 0 {
            *reader = start;
            return Err(WireError::InvalidEncoding);
        }
        let count = (n - 1) as usize;
        let ghost first = *reader;
        let mut items: Vec<T> = Vec::new();
        let mut i: usize = 0;
        assert(views(items@) + Seq::<T::V>::empty() =~= Seq::<T::V>::empty());
        assert(reader.remaining().skip(0) =~= reader.remaining());
        while i < count
            invariant
                i <= count,
                n > 0,
                count == n - 1,
                start == *old(reader),
                parse_varint(start.remaining()) == Ok::<(i8, int), WireError>((n, 1)),
                items@.len() == i,
                first.advanced_from(start, 1),
                reader.advanced_from(first, reader.offset() - first.offset()),
                self@ == old(self)@,
                parse_all::<T>(first.remaining(), count as int) == match parse_all::<T>(
                    reader.remaining(),
                    count - i,
                ) {
                    Err(e) => Err::<(Seq<T::V>, int), WireError>(e),
                    Ok((vs, m)) => Ok((views(items@) + vs, reader.offset() - first.offset() + m)),
                },
            decreases count - i,
        {
            let ghost before = *reader;
            let ghost done = views(items@);
            let mut elem = T::default();
            match elem.deserialize(reader) {
                Ok(()) => {
                    items.push(elem);
                },
                Err(e) => {
                    *reader = start;
                    return Err(e);
                },
            }
            proof {
                let n = reader.offset() - before.offset();
                reader.lemma_advanced_twice(before, first, before.offset() - first.offset(), n);
                assert(views(items@) =~= done.push(elem@));
                match parse_all::<T>(reader.remaining(), count - i - 1) {
                    Ok((vs, m)) => {
                        assert(done + (seq![elem@] + vs) =~= views(items@) + vs);
                    },
                    Err(_) => {},
                }
            }
            i += 1;
        }
        proof {
            reader.lemma_advanced_twice(first, start, 1, reader.offset() - first.offset());
            assert(views(items@) + Seq::<T::V>::empty() =~= views(items@));
        }
        self.data = Some(items);
        Ok(())
    }
}

/// The wire form of a sequence begins with the wire form of its first
/// element.
pub proof fn lemma_wire_all_front<T: Serializable>(v: T::V, vs: Seq<T::V>)
    ensures
        wire_all::<T>(seq![v] + vs) == T::wire(v) + wire_all::<T>(vs),
    decreases vs.len(),
{
    let all = seq![v] + vs;
    if vs.len() == 0 {
        assert(all.drop_last() =~= Seq::<T::V>::empty());
        assert(wire_all::<T>(all.drop_last()) =~= Seq::<u8>::empty());
        assert(wire_all::<T>(all) =~= T::wire(v) + wire_all::<T>(vs));
    } else {
        lemma_wire_all_front::<T>(v, vs.drop_last());
        assert(all.drop_last() =~= seq![v] + vs.drop_last());
        assert(wire_all::<T>(all) =~= T::wire(v) + wire_all::<T>(vs));
    }
}

/// Reading back the concatenated wire forms of encodable elements yields
/// those elements, whatever follows them.
pub proof fn lemma_parse_all_round_trip<T: RoundTrip>(vs: Seq<T::V>, rest: Seq<u8>)
    requires
        all_encodable::<T>(vs),
    ensures
        parse_all::<T>(wire_all::<T>(vs) + rest, vs.len() as int) == Ok::<(Seq<T::V>, int), WireError>(
            (vs, wire_all::<T>(vs).len() as int),
        ),
    decreases vs.len(),
{
    if vs.len() > 0 {
        let v = vs[0];
        let tail = vs.skip(1);
        assert(vs =~= seq![v] + tail);
        lemma_wire_all_front::<T>(v, tail);
        let after = wire_all::<T>(tail) + rest;
        assert(wire_all::<T>(vs) + rest =~= T::wire(v) + after);
        T::lemma_round_trip(v, after);
        assert((T::wire(v) + after).skip(T::wire(v).len() as int) =~= after);
        assert forall|i: int| 0 <= i < tail.len() implies T::encodable(#[trigger] tail[i]) by {
            assert(tail[i] == vs[i + 1]);
        }
        lemma_parse_all_round_trip::<T>(tail, rest);
        assert(wire_all::<T>(vs).len() == T::wire(v).len() + wire_all::<T>(tail).len());
    } else {
        assert(vs =~= Seq::<T::V>::empty());
    }
}

/// The absent array and the empty array differ on the wire, and each is
/// read back as itself.
pub proof fn lemma_absent_is_not_empty<T: RoundTrip>(rest: Seq<u8>)
    ensures
        compact_array_wire::<T>(None) != compact_array_wire::<T>(Some(Seq::empty())),
        compact_array_parse::<T>(compact_array_wire::<T>(None) + rest) == Ok::<
            (Option<Seq<T::V>>, int),
            WireError,
        >((None, 1)),
        compact_array_parse::<T>(compact_array_wire::<T>(Some(Seq::empty())) + rest) == Ok::<
            (Option<Seq<T::V>>, int),
            WireError,
        >((Some(Seq::empty()), 1)),
{
    let absent = compact_array_wire::<T>(None);
    let empty = compact_array_wire::<T>(Some(Seq::empty()));
    assert(absent[0] == 0u8);
    assert(empty[0] == 2u8);
    lemma_varint_round_trip(0, rest);
    lemma_varint_round_trip(1, rest);
    assert(empty + rest =~= varint_bytes(1) + rest);
    assert(empty =~= varint_bytes(1));
}

impl<T: RoundTrip + Default> RoundTrip for CompactArray<T> {
    proof fn lemma_round_trip(v: Option<Seq<T::V>>, rest: Seq<u8>) {
        match v {
            None => {
                lemma_varint_round_trip(0, rest);
            },
            Some(vs) => {
                let n = (vs.len() + 1) as i8;
                let body = wire_all::<T>(vs) + rest;
                lemma_varint_round_trip(n, body);
                assert(compact_array_wire::<T>(v) + rest =~= varint_bytes(n) + body);
                assert((varint_bytes(n) + body).skip(1) =~= body);
                lemma_parse_all_round_trip::<T>(vs, rest);
            },
        }
    }
}

/// The wire form of a compact string: the byte length plus one, then the
/// UTF-8 bytes.
pub open spec fn compact_string_wire(chars: Seq<char>) -> Seq<u8> {
    varint_bytes((encode_utf8(chars).len() + 1) as i8) + encode_utf8(chars)
}

/// Decoding a compact string: a positive prefix `n` announces `n - 1`
/// bytes, which must be present and must be UTF-8. A string cannot be
/// absent, so a zero or negative prefix denotes no string.
pub open spec fn compact_string_parse(s: Seq<u8>) -> Parsed<Seq<char>> {
    match parse_varint(s) {
        Err(e) => Err(e),
        Ok((n, _)) => if n <= 0 {
            Err(WireError::InvalidEncoding)
        } else if s.len() < n {
            Err(WireError::TruncatedInput)
        } else if !valid_utf8(s.subrange(1, n as int)) {
            Err(WireError::InvalidEncoding)
        } else {
            Ok((decode_utf8(s.subrange(1, n as int)), n as int))
        },
    }
}

/// Builds a string from bytes that must be UTF-8.
///
/// Trusted: calls `String::from_utf8`, which succeeds exactly on valid
/// UTF-8 and then returns the string that has those bytes.
#[verifier::external_body]
fn string_from_utf8(bytes: Vec<u8>) -> (r: Option<String>)
    ensures
        r is Some <==> valid_utf8(bytes@),
        r matches Some(s) ==> encode_utf8(s@) == bytes@,
{
    match String::from_utf8(bytes) {
        Ok(s) => Some(s),
        Err(_) => None,
    }
}

/// A UTF-8 string with a compact length prefix.
#[derive(Debug, PartialEq, Eq)]
pub struct CompactString {
    data: String,
}

impl View for CompactString {
    type V = Seq<char>;

    closed spec fn view(&self) -> Seq<char> {
        self.data@
    }
}

impl Default for CompactString {
    /// The empty string.
    fn default() -> (r: Self)
        ensures
            r@ == Seq::<char>::empty(),
    {
        CompactString { data: String::new() }
    }
}

impl CompactString {
    /// Wraps a string.
    pub fn new(data: String) -> (r: Self)
        ensures
            r@ == data@,
    {
        CompactString { data }
    }

    /// The string held.
    pub fn as_str(&self) -> (r: &str)
        ensures
            r@ == self@,
    {
        self.data.as_str()
    }

    /// Whether the string is short enough for its length prefix.
    pub fn fits(&self) -> (r: bool)
        ensures
            r == Self::encodable(self@),
    {
        self.data.as_str().as_bytes().len() <= MAX_COMPACT_LEN
    }
}

impl Serializable for CompactString {
    /// A string is encodable when its UTF-8 length fits the prefix.
    open spec fn encodable(v: Seq<char>) -> bool {
        encode_utf8(v).len() <= MAX_COMPACT_LEN
    }

    open spec fn wire(v: Seq<char>) -> Seq<u8> {
        compact_string_wire(v)
    }

    fn serialize(&self) -> (out: Vec<u8>) {
        let mut res = Vec::new();
        let bytes = self.data.as_str().as_bytes();
        write_varint(&mut res, (bytes.len() + 1) as i8);
        res.extend_from_slice(bytes);
        res
    }
}

impl Deserializable for CompactString {
    open spec fn parse(s: Seq<u8>) -> Parsed<Seq<char>> {
        compact_string_parse(s)
    }

    fn deserialize(&mut self, reader: &mut Reader) -> (r: Result<(), WireError>) {
        let start = *reader;
        let n = match reader.read_varint() {
            Ok(n) => n,
            Err(e) => {
                return Err(e);
            },
        };
        if n <= 0 {
            *reader = start;
            return Err(WireError::InvalidEncoding);
        }
        let ghost first = *reader;
        let raw = match reader.take((n - 1) as usize) {
            Ok(raw) => raw,
            Err(e) => {
                *reader = start;
                return Err(e);
            },
        };
        proof {
            reader.lemma_advanced_twice(first, start, 1, n - 1);
            assert(raw@ =~= start.remaining().subrange(1, n as int));
        }
        match string_from_utf8(slice_to_vec(raw)) {
            Some(text) => {
                proof {
                    vstd::utf8::encode_utf8_decode_utf8(text@);
                }
                self.data = text;
                Ok(())
            },
            None => {
                *reader = start;
                Err(WireError::InvalidEncoding)
            },
        }
    }
}

impl RoundTrip for CompactString {
    proof fn lemma_round_trip(v: Seq<char>, rest: Seq<u8>) {
        let bytes = encode_utf8(v);
        let n = (bytes.len() + 1) as i8;
        let s = compact_string_wire(v) + rest;
        lemma_varint_round_trip(n, bytes + rest);
        assert(s =~= varint_bytes(n) + (bytes + rest));
        assert(s.subrange(1, n as int) =~= bytes);
        vstd::utf8::encode_utf8_valid_utf8(v);
        vstd::utf8::encode_utf8_decode_utf8(v);
    }
}

/// Bytes that are not UTF-8 are rejected as an invalid encoding when they
/// stand where a compact string of their length is announced.
pub proof fn lemma_non_utf8_rejected(bytes: Seq<u8>, rest: Seq<u8>)
    requires
        bytes.len() <= MAX_COMPACT_LEN,
        !valid_utf8(bytes),
    ensures
        compact_string_parse(varint_bytes((bytes.len() + 1) as i8) + bytes + rest) == Err::<
            (Seq<char>, int),
            WireError,
        >(WireError::InvalidEncoding),
{
    let n = (bytes.len() + 1) as i8;
    let s = varint_bytes(n) + bytes + rest;
    lemma_varint_round_trip(n, bytes + rest);
    assert(s =~= varint_bytes(n) + (bytes + rest));
    assert(s.subrange(1, n as int) =~= bytes);
}

} // verus!
