//! The table of supported APIs, the two built-in handlers, and the
//! dispatcher that routes a request to its handler.

use vstd::prelude::*;
use crate::compact::{views, CompactArray};
use crate::error::WireError;
use crate::header::Request;
use crate::messages::{
    api_versions_response_wire, describe_topic_partitions_request_parse, ApiVersion,
    ApiVersionView, ApiVersionsResponse, ApiVersionsResponseView, DescribeTopicPartitionsRequest,
    DescribeTopicPartitionsResponse,
};
use crate::primitive::{varint_bytes, Reader};
use crate::tagged::TagBuffer;

verus! {

/// API key of capability negotiation.
pub const API_VERSIONS: i16 = 18;

/// API key of the partition metadata request.
pub const DESCRIBE_TOPIC_PARTITIONS: i16 = 75;

/// Error code of a response that reports no error.
pub const ERROR_NONE: i16 = 0;

/// Error code that tells a client its requested version is not served.
pub const ERROR_UNSUPPORTED_VERSION: i16 = 35;

/// The supported APIs, each with the versions served for it.
pub open spec fn supported_apis() -> Seq<ApiVersionView> {
    seq![
        ApiVersionView { key: API_VERSIONS, min: 0, max: 4 },
        ApiVersionView { key: DESCRIBE_TOPIC_PARTITIONS, min: 0, max: 4 },
    ]
}

/// The first entry of `table` for `api_key`, if there is one.
pub open spec fn find_api(table: Seq<ApiVersionView>, api_key: i16) -> Option<ApiVersionView>
    decreases table.len(),
{
    if table.len() == 0 {
        None
    } else if table[0].key == api_key {
        Some(table[0])
    } else {
        find_api(table.skip(1), api_key)
    }
}

/// Whether a request for `api_key` at `api_version` can be served: the
/// key must be in the table and the version within its range.
pub open spec fn version_check(api_key: i16, api_version: i16) -> Result<(), WireError> {
    match find_api(supported_apis(), api_key) {
        None => Err(WireError::UnsupportedApi),
        Some(entry) => if entry.min <= api_version <= entry.max {
            Ok(())
        } else {
            Err(WireError::UnsupportedVersion)
        },
    }
}

/// The capability response that carries `error_code`: the whole table and
/// no throttling.
pub open spec fn capability_view(error_code: i16) -> ApiVersionsResponseView {
    ApiVersionsResponseView { error_code, versions: Some(supported_apis()), throttle_time_ms: 0 }
}

/// The error code that capability negotiation answers a request of
/// version `api_version` with.
pub open spec fn negotiation_error_code(api_version: i16) -> i16 {
    if version_check(API_VERSIONS, api_version) is Ok {
        ERROR_NONE
    } else {
        ERROR_UNSUPPORTED_VERSION
    }
}

/// What the dispatcher answers to a request: the bytes of the response
/// body, or the failure that ends the exchange.
///
/// An unknown key fails. A known key at a version that is not served is
/// answered by a capability response with the unsupported-version code.
/// Otherwise the handler of the key answers.
pub open spec fn dispatch(api_key: i16, api_version: i16, body: Seq<u8>) -> Result<
    Seq<u8>,
    WireError,
> {
    match version_check(api_key, api_version) {
        Err(WireError::UnsupportedVersion) => Ok(
            api_versions_response_wire(capability_view(ERROR_UNSUPPORTED_VERSION)),
        ),
        Err(e) => Err(e),
        Ok(()) => if api_key == API_VERSIONS {
            Ok(api_versions_response_wire(capability_view(ERROR_NONE)))
        } else {
            match describe_topic_partitions_request_parse(body) {
                Err(e) => Err(e),
                Ok(_) => Ok(varint_bytes(0)),
            }
        },
    }
}

/// Builds the table of supported APIs.
pub fn api_table() -> (table: Vec<ApiVersion>)
    ensures
        views(table@) == supported_apis(),
{
    let mut table: Vec<ApiVersion> = Vec::new();
    table.push(ApiVersion { key: API_VERSIONS, min: 0, max: 4, tag_buffer: TagBuffer::default() });
    table.push(
        ApiVersion {
            key: DESCRIBE_TOPIC_PARTITIONS,
            min: 0,
            max: 4,
            tag_buffer: TagBuffer::default(),
        },
    );
    assert(views(table@) =~= supported_apis());
    table
}

/// Decides whether a request for `api_key` at `api_version` can be served.
pub fn check_version(api_key: i16, api_version: i16) -> (r: Result<(), WireError>)
    ensures
        r == version_check(api_key, api_version),
{
    let table = api_table();
    let mut i: usize = 0;
    assert(views(table@).skip(0) =~= views(table@));
    while i < table.len()
        invariant
            i <= table@.len(),
            views(table@) == supported_apis(),
            find_api(supported_apis(), api_key) == find_api(views(table@).skip(i as int), api_key),
        decreases table@.len() - i,
    {
        let ghost rest = views(table@).skip(i as int);
        assert(rest[0] == table@[i as int]@);
        if table[i].key == api_key {
            if table[i].min <= api_version && api_version <= table[i].max {
                return Ok(());
            } else {
                return Err(WireError::UnsupportedVersion);
            }
        }
        assert(rest.skip(1) =~= views(table@).skip(i + 1));
        i += 1;
    }
    Err(WireError::UnsupportedApi)
}

/// Builds the capability response that carries `error_code`.
pub fn capability_response(error_code: i16) -> (r: ApiVersionsResponse)
    ensures
        r@ == capability_view(error_code),
{
    let mut versions: CompactArray<ApiVersion> = CompactArray::empty();
    versions.append(
        ApiVersion { key: API_VERSIONS, min: 0, max: 4, tag_buffer: TagBuffer::default() },
    );
    versions.append(
        ApiVersion {
            key: DESCRIBE_TOPIC_PARTITIONS,
            min: 0,
            max: 4,
            tag_buffer: TagBuffer::default(),
        },
    );
    assert(versions@->Some_0 =~= supported_apis());
    ApiVersionsResponse {
        error_code,
        versions,
        throttle_time_ms: 0,
        tag_buffer: TagBuffer::default(),
    }
}

/// Answers a capability negotiation request. The request body is ignored;
/// the answer lists every supported API and carries the
/// unsupported-version code when the request's own version is not served.
pub fn handle_api_versions_req(request: &Request) -> (r: Result<ApiVersionsResponse, WireError>)
    ensures
        r is Ok,
        r->Ok_0@ == capability_view(negotiation_error_code(request.header.request_api_version)),
{
    let error_code = match check_version(API_VERSIONS, request.header.request_api_version) {
        Ok(()) => ERROR_NONE,
        Err(_) => ERROR_UNSUPPORTED_VERSION,
    };
    Ok(capability_response(error_code))
}

/// Answers a partition metadata request: decodes the requested topics,
/// the partition limit and the cursor from the request body, and fails as
/// the decoder does when the body is malformed.
pub fn handle_describe_topic_partitions_req(req: &Request) -> (r: Result<
    DescribeTopicPartitionsResponse,
    WireError,
>)
    ensures
        match describe_topic_partitions_request_parse(req.body@) {
            Ok(_) => r is Ok,
            Err(e) => r is Err && r->Err_0 == e,
        },
{
    let mut reader = Reader::new(req.body.as_slice());
    let mut decoded = DescribeTopicPartitionsRequest::default();
    match decoded.deserialize(&mut reader) {
        Ok(()) => Ok(DescribeTopicPartitionsResponse {  }),
        Err(e) => Err(e),
    }
}

/// Routes a request to the handler of its API key and returns the bytes
/// of the response body.
pub fn apply_handler(request: &Request) -> (r: Result<Vec<u8>, WireError>)
    ensures
        match dispatch(
            request.header.request_api_key,
            request.header.request_api_version,
            request.body@,
        ) {
            Ok(bytes) => r is Ok && r->Ok_0@ == bytes,
            Err(e) => r is Err && r->Err_0 == e,
        },
{
    let api_key = request.header.request_api_key;
    match check_version(api_key, request.header.request_api_version) {
        Err(WireError::UnsupportedVersion) => {
            let res = capability_response(ERROR_UNSUPPORTED_VERSION);
            Ok(res.serialize())
        },
        Err(e) => Err(e),
        Ok(()) => {
            if api_key == API_VERSIONS {
                match handle_api_versions_req(request) {
                    Ok(res) => Ok(res.serialize()),
                    Err(e) => Err(e),
                }
            } else {
                match handle_describe_topic_partitions_req(request) {
                    Ok(res) => Ok(res.serialize()),
                    Err(e) => Err(e),
                }
            }
        },
    }
}

} // verus!
