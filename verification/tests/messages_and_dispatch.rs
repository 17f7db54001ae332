use broker_wire::codec::Serializable;
use broker_wire::envelope::{read_envelope, read_frame_length, Response};
use broker_wire::error::WireError;
use broker_wire::handlers::{
    api_table, apply_handler, capability_response, check_version, handle_api_versions_req,
    handle_describe_topic_partitions_req, API_VERSIONS, DESCRIBE_TOPIC_PARTITIONS, ERROR_NONE,
    ERROR_UNSUPPORTED_VERSION,
};
use broker_wire::header::{Request, RequestHeader};
use broker_wire::messages::{
    ApiVersion, DescribeTopicPartitionsRequest, DescribeTopicPartitionsResponse,
};
use broker_wire::primitive::Reader;
use broker_wire::tagged::TagBuffer;

fn request(api_key: i16, api_version: i16, correlation_id: i32, body: Vec<u8>) -> Request {
    let mut request = Request::default();
    request.header.request_api_key = api_key;
    request.header.request_api_version = api_version;
    request.header.correlation_id = correlation_id;
    request.body = body;
    request
}

fn capability_bytes(error_code: u8) -> Vec<u8> {
    vec![
        0, error_code, // error code
        6, // two descriptors
        0, 18, 0, 0, 0, 4, 0, // capability negotiation, versions 0 to 4
        0, 75, 0, 0, 0, 4, 0, // partition metadata, versions 0 to 4
        0, 0, 0, 0, // throttle time
        0, // tag buffer
    ]
}

#[test]
fn capability_negotiation_at_a_supported_version() {
    let response = handle_api_versions_req(&request(18, 4, 1, vec![])).unwrap();
    assert_eq!(response.error_code, 0);
    assert_eq!(response.throttle_time_ms, 0);
    let entries = response.versions.items().unwrap();
    assert_eq!(entries.len(), 2);
    assert_eq!((entries[0].key, entries[0].min, entries[0].max), (18, 0, 4));
    assert_eq!((entries[1].key, entries[1].min, entries[1].max), (75, 0, 4));
    assert_eq!(response.serialize(), capability_bytes(0));
}

#[test]
fn capability_negotiation_at_an_unsupported_version() {
    let response = handle_api_versions_req(&request(18, 99, 1, vec![])).unwrap();
    assert_eq!(response.error_code, 35);
    assert_eq!(response.throttle_time_ms, 0);
    assert_eq!(response.versions.items().unwrap().len(), 2);
    assert_eq!(response.serialize(), capability_bytes(35));
}

#[test]
fn capability_negotiation_at_the_edges_of_the_range() {
    for (version, code) in [(-1, 35), (0, 0), (4, 0), (5, 35), (i16::MIN, 35), (i16::MAX, 35)] {
        let response = handle_api_versions_req(&request(18, version, 1, vec![])).unwrap();
        assert_eq!(response.error_code, code);
    }
}

#[test]
fn capability_negotiation_ignores_the_request_body() {
    let response = handle_api_versions_req(&request(18, 3, 1, vec![0xff, 0xff])).unwrap();
    assert_eq!(response.serialize(), capability_bytes(0));
}

#[test]
fn capability_response_carries_the_code_it_is_given() {
    assert_eq!(capability_response(ERROR_NONE).serialize(), capability_bytes(0));
    assert_eq!(capability_response(ERROR_UNSUPPORTED_VERSION).serialize(), capability_bytes(35));
}

#[test]
fn table_lists_both_apis() {
    let table = api_table();
    assert_eq!(
        table,
        vec![
            ApiVersion { key: API_VERSIONS, min: 0, max: 4, tag_buffer: TagBuffer {} },
            ApiVersion { key: DESCRIBE_TOPIC_PARTITIONS, min: 0, max: 4, tag_buffer: TagBuffer {} },
        ]
    );
}

#[test]
fn version_check_tells_unknown_keys_from_unserved_versions() {
    assert_eq!(check_version(18, 0), Ok(()));
    assert_eq!(check_version(75, 4), Ok(()));
    assert_eq!(check_version(18, 5), Err(WireError::UnsupportedVersion));
    assert_eq!(check_version(75, -1), Err(WireError::UnsupportedVersion));
    assert_eq!(check_version(17, 0), Err(WireError::UnsupportedApi));
    assert_eq!(check_version(0, 99), Err(WireError::UnsupportedApi));
}

#[test]
fn dispatch_answers_capability_negotiation() {
    assert_eq!(apply_handler(&request(18, 4, 1, vec![])), Ok(capability_bytes(0)));
    assert_eq!(apply_handler(&request(18, 99, 1, vec![])), Ok(capability_bytes(35)));
}

#[test]
fn dispatch_fails_on_an_unknown_api_key() {
    assert_eq!(apply_handler(&request(1, 0, 1, vec![])), Err(WireError::UnsupportedApi));
    assert_eq!(apply_handler(&request(19, 4, 1, vec![])), Err(WireError::UnsupportedApi));
}

fn describe_body() -> Vec<u8> {
    vec![4, 8, b'f', b'o', b'o', 0, 0, 0, 100, 0xff, 0]
}

#[test]
fn dispatch_answers_partition_metadata() {
    assert_eq!(apply_handler(&request(75, 0, 1, describe_body())), Ok(vec![0]));
}

#[test]
fn dispatch_answers_an_unserved_version_with_the_capability_response() {
    assert_eq!(apply_handler(&request(75, 99, 1, describe_body())), Ok(capability_bytes(35)));
    assert_eq!(apply_handler(&request(75, 5, 1, vec![])), Ok(capability_bytes(35)));
}

#[test]
fn dispatch_fails_on_a_malformed_partition_metadata_request() {
    assert_eq!(apply_handler(&request(75, 0, 1, vec![])), Err(WireError::TruncatedInput));
    assert_eq!(
        apply_handler(&request(75, 0, 1, vec![4, 6, 0xff, 0xfe, 0, 0, 0, 1, 0, 0])),
        Err(WireError::InvalidEncoding)
    );
}

#[test]
fn partition_metadata_handler_decodes_the_request() {
    assert_eq!(
        handle_describe_topic_partitions_req(&request(75, 0, 1, describe_body())),
        Ok(DescribeTopicPartitionsResponse {})
    );
    let mut cut = describe_body();
    cut.pop();
    assert_eq!(
        handle_describe_topic_partitions_req(&request(75, 0, 1, cut)),
        Err(WireError::TruncatedInput)
    );
}

#[test]
fn partition_metadata_response_is_an_empty_tag_buffer() {
    assert_eq!(DescribeTopicPartitionsResponse {}.serialize(), vec![0]);
}

#[test]
fn partition_metadata_request_is_decoded_field_by_field() {
    let bytes = describe_body();
    let mut reader = Reader::new(&bytes);
    let mut decoded = DescribeTopicPartitionsRequest::default();
    assert_eq!(decoded.deserialize(&mut reader), Ok(()));
    let topics = decoded.topics.items().unwrap();
    assert_eq!(topics.len(), 1);
    assert_eq!(topics[0].as_str(), "foo");
    assert_eq!(decoded.partitions_limit, 100);
    assert_eq!(decoded.cursor, 0xff);
    assert_eq!(reader.position(), bytes.len());
}

#[test]
fn partition_metadata_request_may_have_absent_topics() {
    let bytes = [0, 0xff, 0xff, 0xff, 0xff, 7, 0];
    let mut reader = Reader::new(&bytes);
    let mut decoded = DescribeTopicPartitionsRequest::default();
    assert_eq!(decoded.deserialize(&mut reader), Ok(()));
    assert_eq!(decoded.topics.items(), None);
    assert_eq!(decoded.partitions_limit, -1);
    assert_eq!(decoded.cursor, 7);
}

#[test]
fn request_header_is_decoded_field_by_field() {
    let bytes = [0, 18, 0, 4, 0, 0, 0, 7, 0, 2, b'a', b'b', 0, 99];
    let mut reader = Reader::new(&bytes);
    let mut header = RequestHeader::default();
    assert_eq!(header.deserialize(&mut reader), Ok(()));
    assert_eq!(header.request_api_key, 18);
    assert_eq!(header.request_api_version, 4);
    assert_eq!(header.correlation_id, 7);
    assert_eq!(header.client_id.as_bytes(), Some(&b"ab"[..]));
    assert_eq!(reader.position(), 13);
}

#[test]
fn request_header_may_have_an_absent_client_id() {
    let bytes = [0, 75, 0, 0, 0xff, 0xff, 0xff, 0xfe, 0xff, 0xff, 0];
    let mut reader = Reader::new(&bytes);
    let mut header = RequestHeader::default();
    assert_eq!(header.deserialize(&mut reader), Ok(()));
    assert_eq!(header.request_api_key, 75);
    assert_eq!(header.correlation_id, -2);
    assert_eq!(header.client_id.as_bytes(), None);
    assert_eq!(reader.position(), 11);
}

#[test]
fn request_header_tells_an_empty_client_id_from_an_absent_one() {
    let bytes = [0, 18, 0, 0, 0, 0, 0, 1, 0, 0, 0];
    let mut reader = Reader::new(&bytes);
    let mut header = RequestHeader::default();
    assert_eq!(header.deserialize(&mut reader), Ok(()));
    assert_eq!(header.client_id.as_bytes(), Some(&b""[..]));
}

#[test]
fn request_header_cut_short_is_truncated() {
    let bytes = [0, 18, 0, 4, 0, 0, 0, 7, 0, 2, b'a', b'b', 0];
    for end in 0..bytes.len() {
        let mut reader = Reader::new(&bytes[..end]);
        let mut header = RequestHeader::default();
        header.correlation_id = 55;
        assert_eq!(header.deserialize(&mut reader), Err(WireError::TruncatedInput));
        assert_eq!(reader.position(), 0);
        assert_eq!(header.correlation_id, 55);
    }
}

#[test]
fn request_takes_everything_after_the_header_as_its_body() {
    let bytes = [0, 75, 0, 1, 0, 0, 0, 9, 0xff, 0xff, 0, 1, 2, 3];
    let decoded = Request::from_envelope(&bytes).unwrap();
    assert_eq!(decoded.header.request_api_key, 75);
    assert_eq!(decoded.header.request_api_version, 1);
    assert_eq!(decoded.header.correlation_id, 9);
    assert_eq!(decoded.header.client_id.as_bytes(), None);
    assert_eq!(decoded.body, vec![1, 2, 3]);
}

#[test]
fn request_without_bytes_after_the_header_has_an_empty_body() {
    let bytes = [0, 18, 0, 4, 0, 0, 0, 7, 0xff, 0xff, 0];
    let decoded = Request::from_envelope(&bytes).unwrap();
    assert_eq!(decoded.header.correlation_id, 7);
    assert_eq!(decoded.body, Vec::<u8>::new());
}

#[test]
fn request_with_a_malformed_header_fails() {
    assert_eq!(Request::from_envelope(&[0, 18, 0]), Err(WireError::TruncatedInput));
    assert_eq!(Request::from_envelope(&[]), Err(WireError::TruncatedInput));
    let mut reader = Reader::new(&[0, 18, 0]);
    assert_eq!(Request::default().deserialize(&mut reader), Err(WireError::TruncatedInput));
}

#[test]
fn request_decoding_reads_the_header_and_leaves_the_body_alone() {
    let bytes = [0, 75, 0, 1, 0, 0, 0, 9, 0xff, 0xff, 0, 1, 2, 3];
    let mut reader = Reader::new(&bytes);
    let mut decoded = Request::default();
    decoded.body = vec![42, 43];
    assert_eq!(decoded.deserialize(&mut reader), Ok(()));
    assert_eq!(decoded.header.request_api_key, 75);
    assert_eq!(decoded.header.request_api_version, 1);
    assert_eq!(decoded.header.correlation_id, 9);
    assert_eq!(decoded.body, vec![42, 43]);
    assert_eq!(reader.position(), 11);
    assert_eq!(reader.take_rest(), &[1u8, 2, 3][..]);
}

#[test]
fn request_decoding_yields_the_header_that_header_decoding_yields() {
    let bytes = [0, 18, 0, 4, 0, 0, 0, 7, 0, 2, b'a', b'b', 0, 99];
    let mut request = Request::default();
    let mut request_reader = Reader::new(&bytes);
    assert_eq!(request.deserialize(&mut request_reader), Ok(()));
    let mut header = RequestHeader::default();
    let mut header_reader = Reader::new(&bytes);
    assert_eq!(header.deserialize(&mut header_reader), Ok(()));
    assert_eq!(request.header, header);
    assert_eq!(request.body, Vec::<u8>::new());
    assert_eq!(request_reader.position(), header_reader.position());
}

#[test]
fn request_decoding_that_fails_changes_nothing() {
    let bytes = [0, 18, 0, 4, 0, 0];
    let mut reader = Reader::new(&bytes);
    let mut request = Request::default();
    request.header.correlation_id = 55;
    request.body = vec![1];
    assert_eq!(request.deserialize(&mut reader), Err(WireError::TruncatedInput));
    assert_eq!(reader.position(), 0);
    assert_eq!(request.header.correlation_id, 55);
    assert_eq!(request.body, vec![1]);
}

#[test]
fn response_is_framed_by_its_size() {
    let response = Response { header: 7, body: vec![0xaa, 0xbb, 0xcc] };
    assert_eq!(response.serialize(), vec![0, 0, 0, 7, 0, 0, 0, 7, 0xaa, 0xbb, 0xcc]);
    let empty = Response { header: -1, body: vec![] };
    assert_eq!(empty.serialize(), vec![0, 0, 0, 4, 0xff, 0xff, 0xff, 0xff]);
}

#[test]
fn response_size_prefix_is_four_plus_the_body_length() {
    for len in [0usize, 1, 22, 300, 70000] {
        let framed = Response { header: 3, body: vec![1; len] }.serialize();
        let prefix = [framed[0], framed[1], framed[2], framed[3]];
        assert_eq!(read_frame_length(&prefix), Ok(4 + len));
        assert_eq!(framed.len(), 8 + len);
    }
}

#[test]
fn response_reads_back_as_an_envelope() {
    let framed = Response { header: 0x0102_0304, body: vec![9, 8] }.serialize();
    let mut reader = Reader::new(&framed);
    assert_eq!(read_envelope(&mut reader), Ok(Some(&[1u8, 2, 3, 4, 9, 8][..])));
    assert_eq!(read_envelope(&mut reader), Ok(None));
}

#[test]
fn frame_length_is_big_endian_and_never_negative() {
    assert_eq!(read_frame_length(&[0, 0, 0, 10]), Ok(10));
    assert_eq!(read_frame_length(&[0, 1, 0, 0]), Ok(65536));
    assert_eq!(read_frame_length(&[0x7f, 0xff, 0xff, 0xff]), Ok(i32::MAX as usize));
    assert_eq!(read_frame_length(&[0x80, 0, 0, 0]), Err(WireError::InvalidEncoding));
    assert_eq!(read_frame_length(&[0xff, 0xff, 0xff, 0xff]), Err(WireError::InvalidEncoding));
}

#[test]
fn stream_that_ends_between_messages_ends_cleanly() {
    let mut reader = Reader::new(&[]);
    assert_eq!(read_envelope(&mut reader), Ok(None));
}

#[test]
fn stream_that_ends_inside_a_message_is_truncated() {
    let bytes = [0, 0, 0, 10, 1, 2, 3];
    let mut reader = Reader::new(&bytes);
    assert_eq!(read_envelope(&mut reader), Err(WireError::TruncatedInput));
    assert_eq!(reader.position(), 0);
    let mut reader = Reader::new(&bytes[..2]);
    assert_eq!(read_envelope(&mut reader), Err(WireError::TruncatedInput));
}

#[test]
fn messages_are_taken_from_a_stream_one_after_another() {
    let bytes = [0, 0, 0, 2, 5, 6, 0, 0, 0, 0, 0, 0, 0, 1, 7];
    let mut reader = Reader::new(&bytes);
    assert_eq!(read_envelope(&mut reader), Ok(Some(&[5u8, 6][..])));
    assert_eq!(read_envelope(&mut reader), Ok(Some(&[][..])));
    assert_eq!(read_envelope(&mut reader), Ok(Some(&[7u8][..])));
    assert_eq!(read_envelope(&mut reader), Ok(None));
}
