//! The header that opens every request, and the request as a whole.

use vstd::prelude::*;
use vstd::slice::slice_to_vec;
use crate::codec::Deserializable;
use crate::error::WireError;
use crate::primitive::{parse_i16, parse_i32, Parsed, Reader};
use crate::tagged::{tag_buffer_parse, TagBuffer};

verus! {

/// Decoding a nullable string in the older, non-compact convention: a
/// 16-bit length, negative for the absent string, then that many bytes.
pub open spec fn nullable_string_parse(s: Seq<u8>) -> Parsed<Option<Seq<u8>>> {
    match parse_i16(s) {
        Err(e) => Err(e),
        Ok((len, _)) => if len < 0 {
            Ok((None, 2))
        } else if s.len() < 2 + len {
            Err(WireError::TruncatedInput)
        } else {
            Ok((Some(s.subrange(2, 2 + len)), 2 + len))
        },
    }
}

/// A byte string that may be absent, with a 16-bit length prefix.
#[derive(Debug, PartialEq, Eq)]
pub struct NullableString {
    data: Option<Vec<u8>>,
}

impl View for NullableString {
    type V = Option<Seq<u8>>;

    closed spec fn view(&self) -> Option<Seq<u8>> {
        match self.data {
            None => None,
            Some(v) => Some(v@),
        }
    }
}

impl Default for NullableString {
    /// The absent string.
    fn default() -> (r: Self)
        ensures
            r@ is None,
    {
        NullableString { data: None }
    }
}

impl NullableString {
    /// The bytes held, if the string is present.
    pub fn as_bytes(&self) -> (r: Option<&[u8]>)
        ensures
            r is Some == self@ is Some,
            r matches Some(b) ==> b@ == self@->Some_0,
    {
        match &self.data {
            Some(v) => Some(v.as_slice()),
            None => None,
        }
    }
}

impl Deserializable for NullableString {
    open spec fn parse(s: Seq<u8>) -> Parsed<Option<Seq<u8>>> {
        nullable_string_parse(s)
    }

    fn deserialize(&mut self, reader: &mut Reader) -> (r: Result<(), WireError>) {
        let start = *reader;
        let len = match reader.read_i16() {
            Ok(len) => len,
            Err(e) => {
                return Err(e);
            },
        };
        if len < 0 {
            self.data = None;
            return Ok(());
        }
        let ghost first = *reader;
        match reader.take(len as usize) {
            Ok(raw) => {
                proof {
                    reader.lemma_advanced_twice(first, start, 2, len as int);
                    assert(raw@ =~= start.remaining().subrange(2, 2 + len));
                }
                self.data = Some(slice_to_vec(raw));
                Ok(())
            },
            Err(e) => {
                *reader = start;
                Err(e)
            },
        }
    }
}

/// What a request header says.
pub ghost struct RequestHeaderView {
    pub api_key: i16,
    pub api_version: i16,
    pub correlation_id: i32,
    pub client_id: Option<Seq<u8>>,
}

/// Decoding a request header: API key, API version, correlation id,
/// the nullable client id, and a tag buffer.
pub open spec fn request_header_parse(s: Seq<u8>) -> Parsed<RequestHeaderView> {
    match parse_i16(s) {
        Err(e) => Err(e),
        Ok((api_key, _)) => match parse_i16(s.skip(2)) {
            Err(e) => Err(e),
            Ok((api_version, _)) => match parse_i32(s.skip(4)) {
                Err(e) => Err(e),
                Ok((correlation_id, _)) => match nullable_string_parse(s.skip(8)) {
                    Err(e) => Err(e),
                    Ok((client_id, n)) => match tag_buffer_parse(s.skip(8 + n)) {
                        Err(e) => Err(e),
                        Ok((_, m)) => Ok(
                            (
                                RequestHeaderView { api_key, api_version, correlation_id, client_id },
                                8 + n + m,
                            ),
                        ),
                    },
                },
            },
        },
    }
}

/// The fields that precede the body of every request.
#[derive(Debug, PartialEq, Eq)]
pub struct RequestHeader {
    pub request_api_key: i16,
    pub request_api_version: i16,
    pub correlation_id: i32,
    pub client_id: NullableString,
    pub tag_buffer: TagBuffer,
}

impl View for RequestHeader {
    type V = RequestHeaderView;

    open spec fn view(&self) -> RequestHeaderView {
        RequestHeaderView {
            api_key: self.request_api_key,
            api_version: self.request_api_version,
            correlation_id: self.correlation_id,
            client_id: self.client_id@,
        }
    }
}

impl Default for RequestHeader {
    fn default() -> (r: Self)
        ensures
            r@ == (RequestHeaderView {
                api_key: 0,
                api_version: 0,
                correlation_id: 0,
                client_id: None,
            }),
    {
        RequestHeader {
            request_api_key: 0,
            request_api_version: 0,
            correlation_id: 0,
            client_id: NullableString::default(),
            tag_buffer: TagBuffer::default(),
        }
    }
}

impl RequestHeader {
    /// Replaces `self` by the header at the reader's position and moves the
    /// reader past it. On failure neither `self` nor the reader changes.
    pub fn deserialize(&mut self, reader: &mut Reader) -> (r: Result<(), WireError>)
        ensures
            match request_header_parse(old(reader).remaining()) {
                Ok((v, n)) => r is Ok && final(self)@ == v && final(reader).advanced_from(
                    *old(reader),
                    n,
                ),
                Err(e) => r == Err::<(), WireError>(e) && *final(reader) == *old(reader)
                    && final(self)@ == old(self)@,
            },
    {
        let start = *reader;
        let api_key = match reader.read_i16() {
            Ok(v) => v,
            Err(e) => {
                return Err(e);
            },
        };
        let ghost r1 = *reader;
        let api_version = match reader.read_i16() {
            Ok(v) => v,
            Err(e) => {
                *reader = start;
                return Err(e);
            },
        };
        let ghost r2 = *reader;
        proof {
            r2.lemma_advanced_twice(r1, start, 2, 2);
        }
        let correlation_id = match reader.read_i32() {
            Ok(v) => v,
            Err(e) => {
                *reader = start;
                return Err(e);
            },
        };
        let ghost r3 = *reader;
        proof {
            r3.lemma_advanced_twice(r2, start, 4, 4);
        }
        let mut client_id = NullableString::default();
        match client_id.deserialize(reader) {
            Ok(()) => {},
            Err(e) => {
                *reader = start;
                return Err(e);
            },
        }
        let ghost r4 = *reader;
        proof {
            r4.lemma_advanced_twice(r3, start, 8, r4.offset() - r3.offset());
        }
        let mut tag_buffer = TagBuffer::default();
        match tag_buffer.deserialize(reader) {
            Ok(()) => {},
            Err(e) => {
                *reader = start;
                return Err(e);
            },
        }
        proof {
            reader.lemma_advanced_twice(
                r4,
                start,
                r4.offset() - start.offset(),
                reader.offset() - r4.offset(),
            );
        }
        self.request_api_key = api_key;
        self.request_api_version = api_version;
        self.correlation_id = correlation_id;
        self.client_id = client_id;
        self.tag_buffer = tag_buffer;
        Ok(())
    }
}

/// What a request says: its header and the bytes that follow it.
pub ghost struct RequestView {
    pub header: RequestHeaderView,
    pub body: Seq<u8>,
}

/// Decoding a request from the body of an envelope: the header, then
/// everything after it as the request body.
pub open spec fn request_parse(s: Seq<u8>) -> Parsed<RequestView> {
    match request_header_parse(s) {
        Err(e) => Err(e),
        Ok((header, n)) => Ok((RequestView { header, body: s.skip(n) }, s.len() as int)),
    }
}

/// One request as it arrives inside an envelope.
#[derive(Debug, PartialEq, Eq)]
pub struct Request {
    pub header: RequestHeader,
    pub body: Vec<u8>,
}

impl View for Request {
    type V = RequestView;

    open spec fn view(&self) -> RequestView {
        RequestView { header: self.header@, body: self.body@ }
    }
}

impl Default for Request {
    fn default() -> (r: Self)
        ensures
            r.header@ == (RequestHeaderView {
                api_key: 0,
                api_version: 0,
                correlation_id: 0,
                client_id: None,
            }),
            r.body@ == Seq::<u8>::empty(),
    {
        Request { header: RequestHeader::default(), body: Vec::new() }
    }
}

impl Request {
    /// Replaces the header of `self` by the header at the reader's position
    /// and moves the reader just past it. The body is left as it was. On
    /// failure neither `self` nor the reader changes.
    pub fn deserialize(&mut self, reader: &mut Reader) -> (r: Result<(), WireError>)
        ensures
            match request_header_parse(old(reader).remaining()) {
                Ok((h, n)) => r is Ok && final(self).header@ == h && final(self).body@ == old(
                    self,
                ).body@ && final(reader).advanced_from(*old(reader), n),
                Err(e) => r == Err::<(), WireError>(e) && *final(reader) == *old(reader)
                    && final(self)@ == old(self)@,
            },
    {
        let mut header = RequestHeader::default();
        match header.deserialize(reader) {
            Ok(()) => {
                self.header = header;
                Ok(())
            },
            Err(e) => Err(e),
        }
    }

    /// Decodes the request that the body of an envelope holds: the header,
    /// then every byte after it as the request body.
    pub fn from_envelope(bytes: &[u8]) -> (r: Result<Request, WireError>)
        ensures
            match request_parse(bytes@) {
                Ok((v, _)) => r is Ok && r->Ok_0@ == v,
                Err(e) => r is Err && r->Err_0 == e,
            },
    {
        let mut reader = Reader::new(bytes);
        let mut request = Request::default();
        match request.deserialize(&mut reader) {
            Ok(()) => {
                request.body = slice_to_vec(reader.take_rest());
                Ok(request)
            },
            Err(e) => Err(e),
        }
    }
}

} // verus!
