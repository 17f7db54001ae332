//! The typed requests and responses of the two built-in APIs.

use vstd::prelude::*;
use crate::codec::{Deserializable, RoundTrip, Serializable};
use crate::compact::{compact_array_parse, compact_array_wire, CompactArray, CompactString};
use crate::error::WireError;
use crate::primitive::{
    i16_bytes, i32_bytes, lemma_i16_round_trip, parse_i16, parse_i32, parse_u8, varint_bytes,
    write_i16, write_i32, write_varint, Parsed, Reader,
};
use crate::tagged::{tag_buffer_parse, TagBuffer};

verus! {

/// What an API version descriptor says.
pub ghost struct ApiVersionView {
    pub key: i16,
    pub min: i16,
    pub max: i16,
}

/// The wire form of a descriptor: key, lowest and highest version, and an
/// empty tag buffer.
pub open spec fn api_version_wire(v: ApiVersionView) -> Seq<u8> {
    i16_bytes(v.key) + i16_bytes(v.min) + i16_bytes(v.max) + varint_bytes(0)
}

/// Decoding a descriptor.
pub open spec fn api_version_parse(s: Seq<u8>) -> Parsed<ApiVersionView> {
    match parse_i16(s) {
        Err(e) => Err(e),
        Ok((key, _)) => match parse_i16(s.skip(2)) {
            Err(e) => Err(e),
            Ok((min, _)) => match parse_i16(s.skip(4)) {
                Err(e) => Err(e),
                Ok((max, _)) => match tag_buffer_parse(s.skip(6)) {
                    Err(e) => Err(e),
                    Ok((_, m)) => Ok((ApiVersionView { key, min, max }, 6 + m)),
                },
            },
        },
    }
}

/// One supported API with the range of versions served for it.
#[derive(Debug, PartialEq, Eq)]
pub struct ApiVersion {
    pub key: i16,
    pub min: i16,
    pub max: i16,
    pub tag_buffer: TagBuffer,
}

impl View for ApiVersion {
    type V = ApiVersionView;

    open spec fn view(&self) -> ApiVersionView {
        ApiVersionView { key: self.key, min: self.min, max: self.max }
    }
}

impl Default for ApiVersion {
    fn default() -> (r: Self)
        ensures
            r@ == (ApiVersionView { key: 0, min: 0, max: 0 }),
    {
        ApiVersion { key: 0, min: 0, max: 0, tag_buffer: TagBuffer::default() }
    }
}

impl Serializable for ApiVersion {
    open spec fn encodable(v: ApiVersionView) -> bool {
        true
    }

    open spec fn wire(v: ApiVersionView) -> Seq<u8> {
        api_version_wire(v)
    }

    fn serialize(&self) -> (out: Vec<u8>) {
        let mut res = Vec::new();
        write_i16(&mut res, self.key);
        write_i16(&mut res, self.min);
        write_i16(&mut res, self.max);
        write_varint(&mut res, 0);
        res
    }
}

impl Deserializable for ApiVersion {
    open spec fn parse(s: Seq<u8>) -> Parsed<ApiVersionView> {
        api_version_parse(s)
    }

    fn deserialize(&mut self, reader: &mut Reader) -> (r: Result<(), WireError>) {
        let start = *reader;
        let key = match reader.read_i16() {
            Ok(v) => v,
            Err(e) => {
                return Err(e);
            },
        };
        let ghost r1 = *reader;
        let min = match reader.read_i16() {
            Ok(v) => v,
            Err(e) => {
                *reader = start;
                return Err(e);
            },
        };
        let ghost r2 = *reader;
        proof {
            r2.lemma_advanced_twice(r1, start, 2, 2);
        }
        let max = match reader.read_i16() {
            Ok(v) => v,
            Err(e) => {
                *reader = start;
                return Err(e);
            },
        };
        let ghost r3 = *reader;
        proof {
            r3.lemma_advanced_twice(r2, start, 4, 2);
        }
        let mut tag_buffer = TagBuffer::default();
        match tag_buffer.deserialize(reader) {
            Ok(()) => {},
            Err(e) => {
                *reader = start;
                return Err(e);
            },
        }
        proof {
            reader.lemma_advanced_twice(r3, start, 6, reader.offset() - r3.offset());
        }
        self.key = key;
        self.min = min;
        self.max = max;
        self.tag_buffer = tag_buffer;
        Ok(())
    }
}

impl RoundTrip for ApiVersion {
    proof fn lemma_round_trip(v: ApiVersionView, rest: Seq<u8>) {
        let s = api_version_wire(v) + rest;
        let t2 = i16_bytes(v.min) + i16_bytes(v.max) + varint_bytes(0) + rest;
        let t4 = i16_bytes(v.max) + varint_bytes(0) + rest;
        let t6 = varint_bytes(0) + rest;
        assert(s =~= i16_bytes(v.key) + t2);
        assert(s.skip(2) =~= t2);
        assert(t2 =~= i16_bytes(v.min) + t4);
        assert(s.skip(4) =~= t4);
        assert(t4 =~= i16_bytes(v.max) + t6);
        assert(s.skip(6) =~= t6);
        lemma_i16_round_trip(v.key, t2);
        lemma_i16_round_trip(v.min, t4);
        lemma_i16_round_trip(v.max, t6);
        TagBuffer::lemma_round_trip((), rest);
    }
}

/// What a capability response says.
pub ghost struct ApiVersionsResponseView {
    pub error_code: i16,
    pub versions: Option<Seq<ApiVersionView>>,
    pub throttle_time_ms: i32,
}

/// The wire form of a capability response: error code, the compact array
/// of descriptors, the throttle time, and an empty tag buffer.
pub open spec fn api_versions_response_wire(v: ApiVersionsResponseView) -> Seq<u8> {
    i16_bytes(v.error_code) + compact_array_wire::<ApiVersion>(v.versions) + i32_bytes(
        v.throttle_time_ms,
    ) + varint_bytes(0)
}

/// The answer to a capability negotiation request.
#[derive(Debug, PartialEq, Eq)]
pub struct ApiVersionsResponse {
    pub error_code: i16,
    pub versions: CompactArray<ApiVersion>,
    pub throttle_time_ms: i32,
    pub tag_buffer: TagBuffer,
}

impl View for ApiVersionsResponse {
    type V = ApiVersionsResponseView;

    open spec fn view(&self) -> ApiVersionsResponseView {
        ApiVersionsResponseView {
            error_code: self.error_code,
            versions: self.versions@,
            throttle_time_ms: self.throttle_time_ms,
        }
    }
}

impl ApiVersionsResponse {
    /// Produces the wire form of the response.
    pub fn serialize(&self) -> (out: Vec<u8>)
        requires
            CompactArray::<ApiVersion>::encodable(self.versions@),
        ensures
            out@ == api_versions_response_wire(self@),
    {
        let mut res: Vec<u8> = Vec::new();
        write_i16(&mut res, self.error_code);
        let versions = self.versions.serialize();
        res.extend_from_slice(versions.as_slice());
        write_i32(&mut res, self.throttle_time_ms);
        write_varint(&mut res, 0);
        res
    }
}

/// What a partition metadata request says.
pub ghost struct DescribeTopicPartitionsRequestView {
    pub topics: Option<Seq<Seq<char>>>,
    pub partitions_limit: i32,
    pub cursor: u8,
}

/// Decoding a partition metadata request: the compact array of topic
/// names, the partition limit, the cursor byte, and a tag buffer.
pub open spec fn describe_topic_partitions_request_parse(s: Seq<u8>) -> Parsed<
    DescribeTopicPartitionsRequestView,
> {
    match compact_array_parse::<CompactString>(s) {
        Err(e) => Err(e),
        Ok((topics, n)) => match parse_i32(s.skip(n)) {
            Err(e) => Err(e),
            Ok((partitions_limit, _)) => match parse_u8(s.skip(n + 4)) {
                Err(e) => Err(e),
                Ok((cursor, _)) => match tag_buffer_parse(s.skip(n + 5)) {
                    Err(e) => Err(e),
                    Ok((_, m)) => Ok(
                        (
                            DescribeTopicPartitionsRequestView { topics, partitions_limit, cursor },
                            n + 5 + m,
                        ),
                    ),
                },
            },
        },
    }
}

/// A request for the partitions of some topics.
#[derive(Debug, PartialEq, Eq)]
pub struct DescribeTopicPartitionsRequest {
    pub topics: CompactArray<CompactString>,
    pub partitions_limit: i32,
    pub cursor: u8,
    pub tag_buffer: TagBuffer,
}

impl View for DescribeTopicPartitionsRequest {
    type V = DescribeTopicPartitionsRequestView;

    open spec fn view(&self) -> DescribeTopicPartitionsRequestView {
        DescribeTopicPartitionsRequestView {
            topics: self.topics@,
            partitions_limit: self.partitions_limit,
            cursor: self.cursor,
        }
    }
}

impl Default for DescribeTopicPartitionsRequest {
    fn default() -> (r: Self)
        ensures
            r@ == (DescribeTopicPartitionsRequestView {
                topics: None,
                partitions_limit: 0,
                cursor: 0,
            }),
    {
        DescribeTopicPartitionsRequest {
            topics: CompactArray::absent(),
            partitions_limit: 0,
            cursor: 0,
            tag_buffer: TagBuffer::default(),
        }
    }
}

impl DescribeTopicPartitionsRequest {
    /// Replaces `self` by the request at the reader's position and moves
    /// the reader past it. On failure neither `self` nor the reader
    /// changes.
    pub fn deserialize(&mut self, reader: &mut Reader) -> (r: Result<(), WireError>)
        ensures
            match describe_topic_partitions_request_parse(old(reader).remaining()) {
                Ok((v, n)) => r is Ok && final(self)@ == v && final(reader).advanced_from(
                    *old(reader),
                    n,
                ),
                Err(e) => r == Err::<(), WireError>(e) && *final(reader) == *old(reader)
                    && final(self)@ == old(self)@,
            },
    {
        let start = *reader;
        let mut topics: CompactArray<CompactString> = CompactArray::absent();
        match topics.deserialize(reader) {
            Ok(()) => {},
            Err(e) => {
                return Err(e);
            },
        }
        let ghost r1 = *reader;
        let partitions_limit = match reader.read_i32() {
            Ok(v) => v,
            Err(e) => {
                *reader = start;
                return Err(e);
            },
        };
        let ghost r2 = *reader;
        proof {
            r2.lemma_advanced_twice(r1, start, r1.offset() - start.offset(), 4);
        }
        let cursor = match reader.read_u8() {
            Ok(v) => v,
            Err(e) => {
                *reader = start;
                return Err(e);
            },
        };
        let ghost r3 = *reader;
        proof {
            r3.lemma_advanced_twice(r2, start, r2.offset() - start.offset(), 1);
        }
        let mut tag_buffer = TagBuffer::default();
        match tag_buffer.deserialize(reader) {
            Ok(()) => {},
            Err(e) => {
                *reader = start;
                return Err(e);
            },
        }
        proof {
            reader.lemma_advanced_twice(
                r3,
                start,
                r3.offset() - start.offset(),
                reader.offset() - r3.offset(),
            );
        }
        self.topics = topics;
        self.partitions_limit = partitions_limit;
        self.cursor = cursor;
        self.tag_buffer = tag_buffer;
        Ok(())
    }
}

/// The answer to a partition metadata request. No field of it is defined
/// yet; on the wire it is the tag buffer that closes every structure.
#[derive(Clone, Copy, Debug, PartialEq, Eq)]
pub struct DescribeTopicPartitionsResponse {}

impl DescribeTopicPartitionsResponse {
    /// Produces the wire form of the response: an empty tag buffer.
    pub fn serialize(&self) -> (out: Vec<u8>)
        ensures
            out@ == varint_bytes(0),
    {
        let mut res: Vec<u8> = Vec::new();
        write_varint(&mut res, 0);
        res
    }
}

} // verus!
