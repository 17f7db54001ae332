use broker_wire::connection::{step, CloseReason, ConnAction, ConnEvent, ConnState};
use broker_wire::error::WireError;
use broker_wire::handlers::apply_handler;

const READING: ConnState = ConnState::Reading { expecting: None };

fn request_bytes(api_key: i16, api_version: i16, correlation_id: i32) -> Vec<u8> {
    let mut bytes = Vec::new();
    bytes.extend_from_slice(&api_key.to_be_bytes());
    bytes.extend_from_slice(&api_version.to_be_bytes());
    bytes.extend_from_slice(&correlation_id.to_be_bytes());
    bytes.extend_from_slice(&[0xff, 0xff, 0]);
    bytes
}

/// Feeds one framed request through the cycle, from the size prefix to the
/// flushed response, and returns what was written.
fn serve_one(state: ConnState, message: &[u8]) -> (ConnState, Vec<u8>) {
    assert_eq!(state, READING);
    let prefix = (message.len() as i32).to_be_bytes();
    let (state, action) = step(state, ConnEvent::Prefix(prefix)).unwrap();
    assert_eq!(action, ConnAction::ReadBody { len: message.len() });
    assert_eq!(state, ConnState::Reading { expecting: Some(message.len()) });
    let (state, action) = step(state, ConnEvent::Body(message.to_vec())).unwrap();
    let request = match action {
        ConnAction::Dispatch(request) => request,
        other => panic!("expected a dispatch, got {:?}", other),
    };
    assert_eq!(state, ConnState::Dispatching { correlation_id: request.header.correlation_id });
    let (state, action) = step(state, ConnEvent::Handled(apply_handler(&request))).unwrap();
    assert_eq!(state, ConnState::Writing);
    let written = match action {
        ConnAction::Write(bytes) => bytes,
        other => panic!("expected a write, got {:?}", other),
    };
    let (state, action) = step(state, ConnEvent::Flushed).unwrap();
    assert_eq!(action, ConnAction::ReadPrefix);
    (state, written)
}

#[test]
fn accepted_connection_starts_reading() {
    assert_eq!(step(ConnState::Idle, ConnEvent::Opened), Some((READING, ConnAction::ReadPrefix)));
}

#[test]
fn connection_that_sends_nothing_closes_cleanly() {
    let (state, _) = step(ConnState::Idle, ConnEvent::Opened).unwrap();
    assert_eq!(
        step(state, ConnEvent::EndOfStream { consumed: 0 }),
        Some((ConnState::Closed, ConnAction::Close(CloseReason::Clean)))
    );
}

#[test]
fn connection_that_ends_inside_the_prefix_fails() {
    assert_eq!(
        step(READING, ConnEvent::EndOfStream { consumed: 2 }),
        Some((ConnState::Closed, ConnAction::Close(CloseReason::Failed(WireError::TruncatedInput))))
    );
}

#[test]
fn connection_that_ends_inside_the_body_fails() {
    let (state, action) = step(READING, ConnEvent::Prefix([0, 0, 0, 10])).unwrap();
    assert_eq!(state, ConnState::Reading { expecting: Some(10) });
    assert_eq!(action, ConnAction::ReadBody { len: 10 });
    assert_eq!(
        step(state, ConnEvent::EndOfStream { consumed: 3 }),
        Some((ConnState::Closed, ConnAction::Close(CloseReason::Failed(WireError::TruncatedInput))))
    );
    assert_eq!(
        step(state, ConnEvent::EndOfStream { consumed: 0 }),
        Some((ConnState::Closed, ConnAction::Close(CloseReason::Failed(WireError::TruncatedInput))))
    );
}

#[test]
fn negative_size_prefix_closes_the_connection() {
    assert_eq!(
        step(READING, ConnEvent::Prefix([0xff, 0, 0, 0])),
        Some((ConnState::Closed, ConnAction::Close(CloseReason::Failed(WireError::InvalidEncoding))))
    );
}

#[test]
fn malformed_header_closes_the_connection() {
    let state = ConnState::Reading { expecting: Some(3) };
    assert_eq!(
        step(state, ConnEvent::Body(vec![0, 18, 0])),
        Some((ConnState::Closed, ConnAction::Close(CloseReason::Failed(WireError::TruncatedInput))))
    );
}

#[test]
fn handler_failure_closes_the_connection() {
    let state = ConnState::Dispatching { correlation_id: 5 };
    assert_eq!(
        step(state, ConnEvent::Handled(Err(WireError::UnsupportedApi))),
        Some((ConnState::Closed, ConnAction::Close(CloseReason::Failed(WireError::UnsupportedApi))))
    );
}

#[test]
fn unknown_api_key_closes_the_connection() {
    let message = request_bytes(3, 0, 11);
    let state = ConnState::Reading { expecting: Some(message.len()) };
    let (state, action) = step(state, ConnEvent::Body(message)).unwrap();
    let request = match action {
        ConnAction::Dispatch(request) => request,
        other => panic!("expected a dispatch, got {:?}", other),
    };
    assert_eq!(
        step(state, ConnEvent::Handled(apply_handler(&request))),
        Some((ConnState::Closed, ConnAction::Close(CloseReason::Failed(WireError::UnsupportedApi))))
    );
}

#[test]
fn transport_failure_closes_the_connection() {
    let closed = Some((ConnState::Closed, ConnAction::Close(CloseReason::Transport)));
    assert_eq!(step(READING, ConnEvent::TransportFailed), closed);
    assert_eq!(step(ConnState::Reading { expecting: Some(4) }, ConnEvent::TransportFailed), closed);
    assert_eq!(step(ConnState::Writing, ConnEvent::TransportFailed), closed);
}

#[test]
fn response_is_framed_with_the_correlation_id_of_the_request() {
    let state = ConnState::Dispatching { correlation_id: 0x0a0b_0c0d };
    assert_eq!(
        step(state, ConnEvent::Handled(Ok(vec![1, 2, 3]))),
        Some((
            ConnState::Writing,
            ConnAction::Write(vec![0, 0, 0, 7, 0x0a, 0x0b, 0x0c, 0x0d, 1, 2, 3])
        ))
    );
}

#[test]
fn correlation_id_is_echoed() {
    for id in [0, 1, -1, 7, i32::MIN, i32::MAX] {
        let (_, written) = serve_one(READING, &request_bytes(18, 4, id));
        assert_eq!(written[4..8], id.to_be_bytes());
        assert_eq!(written[0..4], ((written.len() - 4) as i32).to_be_bytes());
    }
}

#[test]
fn capability_negotiation_over_a_connection() {
    let (_, written) = serve_one(READING, &request_bytes(18, 4, 9));
    assert_eq!(
        written,
        vec![
            0, 0, 0, 26, 0, 0, 0, 9, 0, 0, 6, 0, 18, 0, 0, 0, 4, 0, 0, 75, 0, 0, 0, 4, 0, 0, 0, 0,
            0, 0
        ]
    );
    let (_, written) = serve_one(READING, &request_bytes(18, 99, 9));
    assert_eq!(written[8..10], [0, 35]);
    assert_eq!(written.len(), 30);
}

#[test]
fn two_requests_are_answered_in_order() {
    let (state, _) = step(ConnState::Idle, ConnEvent::Opened).unwrap();
    let (state, first) = serve_one(state, &request_bytes(18, 4, 1));
    let (state, second) = serve_one(state, &request_bytes(18, 4, 2));
    assert_eq!(first[4..8], [0, 0, 0, 1]);
    assert_eq!(second[4..8], [0, 0, 0, 2]);
    assert_eq!(first[8..], second[8..]);
    assert_eq!(
        step(state, ConnEvent::EndOfStream { consumed: 0 }),
        Some((ConnState::Closed, ConnAction::Close(CloseReason::Clean)))
    );
}

#[test]
fn next_request_is_not_read_before_the_response_is_flushed() {
    assert_eq!(step(ConnState::Writing, ConnEvent::Prefix([0, 0, 0, 4])), None);
    assert_eq!(step(ConnState::Writing, ConnEvent::Body(vec![])), None);
    assert_eq!(step(ConnState::Dispatching { correlation_id: 1 }, ConnEvent::Flushed), None);
    assert_eq!(
        step(ConnState::Dispatching { correlation_id: 1 }, ConnEvent::Prefix([0, 0, 0, 4])),
        None
    );
}

#[test]
fn events_out_of_turn_have_no_transition() {
    assert_eq!(step(ConnState::Idle, ConnEvent::Flushed), None);
    assert_eq!(step(ConnState::Idle, ConnEvent::TransportFailed), None);
    assert_eq!(step(READING, ConnEvent::Opened), None);
    assert_eq!(step(READING, ConnEvent::Body(vec![])), None);
    assert_eq!(step(READING, ConnEvent::Handled(Ok(vec![]))), None);
    assert_eq!(step(ConnState::Reading { expecting: Some(2) }, ConnEvent::Prefix([0; 4])), None);
    assert_eq!(step(ConnState::Closed, ConnEvent::Opened), None);
    assert_eq!(step(ConnState::Closed, ConnEvent::EndOfStream { consumed: 0 }), None);
}

#[test]
fn body_of_the_wrong_length_has_no_transition() {
    let state = ConnState::Reading { expecting: Some(5) };
    assert_eq!(step(state, ConnEvent::Body(request_bytes(18, 4, 1))), None);
}

#[test]
fn empty_message_is_a_malformed_request() {
    let (state, action) = step(READING, ConnEvent::Prefix([0, 0, 0, 0])).unwrap();
    assert_eq!(action, ConnAction::ReadBody { len: 0 });
    assert_eq!(
        step(state, ConnEvent::Body(vec![])),
        Some((ConnState::Closed, ConnAction::Close(CloseReason::Failed(WireError::TruncatedInput))))
    );
}
