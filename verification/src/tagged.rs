//! The tagged-field buffer that closes every versioned structure.
//!
//! No tagged field is defined yet, so the buffer is always written empty.
//! A reader still walks over whatever entries a newer peer sent, so that
//! unknown tags never make a message unreadable.

use vstd::prelude::*;
use crate::codec::{Deserializable, RoundTrip, Serializable};
use crate::error::WireError;
use crate::primitive::{
    lemma_varint_round_trip, parse_varint, varint_bytes, write_varint, Parsed, Reader,
};

verus! {

/// The number of payload bytes that an entry with length field `len`
/// carries: a negative length carries none.
pub open spec fn payload_len(len: i8) -> int {
    if len < 0 { 0 } else { len as int }
}

/// The number of bytes that `count` tagged entries occupy at the front of
/// `s`. Each entry is a tag id, a length, and that many payload bytes.
pub open spec fn skip_entries(s: Seq<u8>, count: int) -> Result<int, WireError>
    decreases count,
{
    if count <= 0 {
        Ok(0)
    } else {
        match parse_varint(s) {
            Err(e) => Err(e),
            Ok(_) => match parse_varint(s.skip(1)) {
                Err(e) => Err(e),
                Ok((len, _)) => {
                    let size = 2 + payload_len(len);
                    if s.len() < size {
                        Err(WireError::TruncatedInput)
                    } else {
                        match skip_entries(s.skip(size), count - 1) {
                            Err(e) => Err(e),
                            Ok(m) => Ok(size + m),
                        }
                    }
                },
            },
        }
    }
}

/// Decoding a tag buffer: an entry count, then that many entries, all of
/// which are skipped. Only running out of input makes it fail.
pub open spec fn tag_buffer_parse(s: Seq<u8>) -> Parsed<()> {
    match parse_varint(s) {
        Err(e) => Err(e),
        Ok((count, _)) => match skip_entries(s.skip(1), count as int) {
            Err(e) => Err(e),
            Ok(m) => Ok(((), 1 + m)),
        },
    }
}

/// The extension region at the end of a versioned structure.
#[derive(Clone, Copy, Debug, PartialEq, Eq)]
pub struct TagBuffer {}

impl View for TagBuffer {
    type V = ();

    open spec fn view(&self) -> () {
        ()
    }
}

impl Default for TagBuffer {
    fn default() -> (r: Self) {
        TagBuffer {  }
    }
}

impl Serializable for TagBuffer {
    open spec fn encodable(v: ()) -> bool {
        true
    }

    /// A count of zero entries.
    open spec fn wire(v: ()) -> Seq<u8> {
        varint_bytes(0)
    }

    fn serialize(&self) -> (out: Vec<u8>) {
        let mut res = Vec::new();
        write_varint(&mut res, 0);
        res
    }
}

impl Deserializable for TagBuffer {
    open spec fn parse(s: Seq<u8>) -> Parsed<()> {
        tag_buffer_parse(s)
    }

    fn deserialize(&mut self, reader: &mut Reader) -> (r: Result<(), WireError>) {
        let start = *reader;
        let count = match reader.read_varint() {
            Ok(n) => n,
            Err(e) => {
                return Err(e);
            },
        };
        let ghost first = *reader;
        let mut i: i8 = 0;
        assert(reader.remaining().skip(0) =~= reader.remaining());
        while i < count
            invariant
                0 <= i,
                i <= count || count < 0,
                start == *old(reader),
                parse_varint(start.remaining()) == Ok::<(i8, int), WireError>((count, 1)),
                first.advanced_from(start, 1),
                reader.advanced_from(first, reader.offset() - first.offset()),
                skip_entries(first.remaining(), count as int) == match skip_entries(
                    reader.remaining(),
                    count - i,
                ) {
                    Err(e) => Err::<int, WireError>(e),
                    Ok(m) => Ok(reader.offset() - first.offset() + m),
                },
            decreases count - i,
        {
            let ghost before = *reader;
            match reader.read_varint() {
                Ok(_) => {},
                Err(e) => {
                    *reader = start;
                    return Err(e);
                },
            }
            let ghost after_tag = *reader;
            let len = match reader.read_varint() {
                Ok(len) => len,
                Err(e) => {
                    *reader = start;
                    return Err(e);
                },
            };
            let ghost after_len = *reader;
            let payload: usize = if len < 0 { 0 } else { len as usize };
            match reader.take(payload) {
                Ok(_) => {},
                Err(e) => {
                    *reader = start;
                    return Err(e);
                },
            }
            proof {
                after_len.lemma_advanced_twice(after_tag, before, 1, 1);
                reader.lemma_advanced_twice(after_len, before, 2, payload as int);
                reader.lemma_advanced_twice(
                    before,
                    first,
                    before.offset() - first.offset(),
                    2 + payload,
                );
            }
            i += 1;
        }
        proof {
            reader.lemma_advanced_twice(first, start, 1, reader.offset() - first.offset());
        }
        Ok(())
    }
}

impl RoundTrip for TagBuffer {
    proof fn lemma_round_trip(v: (), rest: Seq<u8>) {
        lemma_varint_round_trip(0, rest);
    }
}

} // verus!
