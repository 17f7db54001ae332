//! The outer framing shared by every message: a 32-bit length, then that
//! many bytes.

use vstd::prelude::*;
use crate::codec::Serializable;
use crate::error::WireError;
use crate::primitive::{
    i32_bytes, lemma_i32_round_trip, parse_i32, write_i32, Parsed, Reader,
};

verus! {

/// The number of bytes that the correlation id adds to a response's size.
pub const CORRELATION_ID_LEN: usize = 4;

/// What a response envelope carries.
pub ghost struct ResponseView {
    pub correlation_id: i32,
    pub body: Seq<u8>,
}

/// The wire form of a response: the message size, which counts the
/// correlation id and the body, then the correlation id, then the body.
pub open spec fn response_wire(v: ResponseView) -> Seq<u8> {
    i32_bytes((CORRELATION_ID_LEN + v.body.len()) as i32) + i32_bytes(v.correlation_id) + v.body
}

/// The length that a four-byte size prefix announces. A negative size
/// announces nothing.
pub open spec fn frame_length(prefix: Seq<u8>) -> Result<int, WireError> {
    match parse_i32(prefix) {
        Err(e) => Err(e),
        Ok((len, _)) => if len < 0 {
            Err(WireError::InvalidEncoding)
        } else {
            Ok(len as int)
        },
    }
}

/// The next message of a byte stream that has ended: nothing when the
/// stream ends exactly where a size prefix would begin, the announced
/// bytes when all of them arrived, and a failure when the stream ends
/// inside the prefix or inside the message.
pub open spec fn envelope_parse(s: Seq<u8>) -> Parsed<Option<Seq<u8>>> {
    if s.len() == 0 {
        Ok((None, 0))
    } else {
        match frame_length(s) {
            Err(e) => Err(e),
            Ok(len) => if s.len() < 4 + len {
                Err(WireError::TruncatedInput)
            } else {
                Ok((Some(s.subrange(4, 4 + len)), 4 + len))
            },
        }
    }
}

/// Decodes a size prefix into the number of bytes that follow it.
pub fn read_frame_length(prefix: &[u8; 4]) -> (r: Result<usize, WireError>)
    ensures
        match frame_length(prefix@) {
            Ok(len) => r == Ok::<usize, WireError>(len as usize) && len <= i32::MAX,
            Err(e) => r == Err::<usize, WireError>(e),
        },
{
    let mut reader = Reader::new(prefix.as_slice());
    match reader.read_i32() {
        Ok(len) => if len < 0 {
            Err(WireError::InvalidEncoding)
        } else {
            Ok(len as usize)
        },
        Err(e) => Err(e),
    }
}

/// Takes the next message from a stream held in memory. On failure the
/// reader stays in place.
pub fn read_envelope<'a>(reader: &mut Reader<'a>) -> (r: Result<Option<&'a [u8]>, WireError>)
    ensures
        match envelope_parse(old(reader).remaining()) {
            Ok((Some(body), n)) => r is Ok && r->Ok_0 is Some && r->Ok_0->Some_0@ == body
                && final(reader).advanced_from(*old(reader), n),
            Ok((None, _)) => r == Ok::<Option<&[u8]>, WireError>(None) && *final(reader) == *old(
                reader,
            ),
            Err(e) => r == Err::<Option<&[u8]>, WireError>(e) && *final(reader) == *old(reader),
        },
{
    let start = *reader;
    if reader.remaining_len() == 0 {
        return Ok(None);
    }
    let len = match reader.read_i32() {
        Ok(len) => len,
        Err(e) => {
            return Err(e);
        },
    };
    if len < 0 {
        *reader = start;
        return Err(WireError::InvalidEncoding);
    }
    let ghost first = *reader;
    match reader.take(len as usize) {
        Ok(body) => {
            proof {
                reader.lemma_advanced_twice(first, start, 4, len as int);
                assert(body@ =~= start.remaining().subrange(4, 4 + len));
            }
            Ok(Some(body))
        },
        Err(e) => {
            *reader = start;
            Err(e)
        },
    }
}

/// A response as it is framed for the wire.
#[derive(Debug, PartialEq, Eq)]
pub struct Response {
    /// The correlation id of the request that this answers.
    pub header: i32,
    pub body: Vec<u8>,
}

impl View for Response {
    type V = ResponseView;

    open spec fn view(&self) -> ResponseView {
        ResponseView { correlation_id: self.header, body: self.body@ }
    }
}

impl Serializable for Response {
    /// A response is encodable when its size fits the 32-bit prefix.
    open spec fn encodable(v: ResponseView) -> bool {
        CORRELATION_ID_LEN + v.body.len() <= i32::MAX
    }

    open spec fn wire(v: ResponseView) -> Seq<u8> {
        response_wire(v)
    }

    fn serialize(&self) -> (out: Vec<u8>) {
        let mut res: Vec<u8> = Vec::new();
        let message_size: i32 = (CORRELATION_ID_LEN + self.body.len()) as i32;
        write_i32(&mut res, message_size);
        write_i32(&mut res, self.header);
        res.extend_from_slice(self.body.as_slice());
        res
    }
}

/// The first four bytes of a framed response decode as four plus the
/// length of its body, the next four as its correlation id, and the body
/// follows unchanged.
pub proof fn lemma_response_layout(v: ResponseView, rest: Seq<u8>)
    requires
        Response::encodable(v),
    ensures
        parse_i32(response_wire(v) + rest) == Ok::<(i32, int), WireError>(
            ((4 + v.body.len()) as i32, 4),
        ),
        parse_i32((response_wire(v) + rest).skip(4)) == Ok::<(i32, int), WireError>(
            (v.correlation_id, 4),
        ),
        response_wire(v).len() == 8 + v.body.len(),
        response_wire(v).skip(8) == v.body,
{
    let size = (CORRELATION_ID_LEN + v.body.len()) as i32;
    let s = response_wire(v) + rest;
    let tail = i32_bytes(v.correlation_id) + v.body + rest;
    assert(s =~= i32_bytes(size) + tail);
    assert(s.skip(4) =~= tail);
    assert(tail =~= i32_bytes(v.correlation_id) + (v.body + rest));
    lemma_i32_round_trip(size, tail);
    lemma_i32_round_trip(v.correlation_id, v.body + rest);
    assert(response_wire(v).skip(8) =~= v.body);
}

/// Reading a framed response back as an envelope yields the correlation id
/// followed by the body, and consumes exactly the frame.
pub proof fn lemma_response_is_envelope(v: ResponseView, rest: Seq<u8>)
    requires
        Response::encodable(v),
    ensures
        envelope_parse(response_wire(v) + rest) == Ok::<(Option<Seq<u8>>, int), WireError>(
            (Some(i32_bytes(v.correlation_id) + v.body), response_wire(v).len() as int),
        ),
{
    lemma_response_layout(v, rest);
    let s = response_wire(v) + rest;
    assert(s.subrange(4, 8 + v.body.len() as int) =~= i32_bytes(v.correlation_id) + v.body);
}

} // verus!
