//! The per-connection cycle as a state machine: what a connection does
//! next, given where it stands and what its transport just reported.
//!
//! The transport itself lives outside this crate. Its driver performs the
//! action that a step returns and reports the outcome as the next event.

use vstd::prelude::*;
use crate::codec::Serializable;
use crate::envelope::{
    frame_length, lemma_response_layout, read_frame_length, response_wire, Response, ResponseView,
};
use crate::error::WireError;
use crate::header::{request_parse, Request, RequestView};
use crate::primitive::parse_i32;

verus! {

/// Why a connection was closed.
#[derive(Clone, Copy, Debug, PartialEq, Eq)]
pub enum CloseReason {
    /// The peer closed exactly between two messages.
    Clean,
    /// A message could not be decoded or handled.
    Failed(WireError),
    /// The transport reported a failure other than the end of the stream.
    Transport,
}

/// Where a connection stands in its cycle.
#[derive(Clone, Copy, Debug, PartialEq, Eq)]
pub enum ConnState {
    /// Accepted, not yet reading.
    Idle,
    /// Waiting for the size prefix of the next message when `expecting`
    /// is `None`, and otherwise for the announced number of bytes.
    Reading { expecting: Option<usize> },
    /// A request was decoded and handed to the dispatcher.
    Dispatching { correlation_id: i32 },
    /// A response was handed to the transport.
    Writing,
    /// Nothing more happens on this connection.
    Closed,
}

/// What the transport or the dispatcher reports.
#[derive(Debug, PartialEq, Eq)]
pub enum ConnEvent {
    /// The connection was accepted.
    Opened,
    /// The four bytes of a size prefix arrived.
    Prefix([u8; 4]),
    /// The bytes of a message arrived.
    Body(Vec<u8>),
    /// The peer closed the stream after `consumed` bytes of the current
    /// read had arrived.
    EndOfStream { consumed: usize },
    /// The transport failed.
    TransportFailed,
    /// The dispatcher finished with a response body or a failure.
    Handled(Result<Vec<u8>, WireError>),
    /// The response was written out in full.
    Flushed,
}

/// What the driver has to do next.
#[derive(Debug, PartialEq, Eq)]
pub enum ConnAction {
    /// Read the four bytes of the next size prefix.
    ReadPrefix,
    /// Read exactly `len` bytes.
    ReadBody { len: usize },
    /// Hand the request to the dispatcher.
    Dispatch(Request),
    /// Write these bytes.
    Write(Vec<u8>),
    /// Close the connection for this reason.
    Close(CloseReason),
}

/// What an event says.
pub ghost enum EventView {
    Opened,
    Prefix(Seq<u8>),
    Body(Seq<u8>),
    EndOfStream { consumed: nat },
    TransportFailed,
    Handled(Result<Seq<u8>, WireError>),
    Flushed,
}

/// What an action says.
pub ghost enum ActionView {
    ReadPrefix,
    ReadBody { len: nat },
    Dispatch(RequestView),
    Write(Seq<u8>),
    Close(CloseReason),
}

impl View for ConnEvent {
    type V = EventView;

    open spec fn view(&self) -> EventView {
        match *self {
            ConnEvent::Opened => EventView::Opened,
            ConnEvent::Prefix(p) => EventView::Prefix(p@),
            ConnEvent::Body(b) => EventView::Body(b@),
            ConnEvent::EndOfStream { consumed } => EventView::EndOfStream {
                consumed: consumed as nat,
            },
            ConnEvent::TransportFailed => EventView::TransportFailed,
            ConnEvent::Handled(Ok(b)) => EventView::Handled(Ok(b@)),
            ConnEvent::Handled(Err(e)) => EventView::Handled(Err(e)),
            ConnEvent::Flushed => EventView::Flushed,
        }
    }
}

impl View for ConnAction {
    type V = ActionView;

    open spec fn view(&self) -> ActionView {
        match *self {
            ConnAction::ReadPrefix => ActionView::ReadPrefix,
            ConnAction::ReadBody { len } => ActionView::ReadBody { len: len as nat },
            ConnAction::Dispatch(r) => ActionView::Dispatch(r@),
            ConnAction::Write(b) => ActionView::Write(b@),
            ConnAction::Close(r) => ActionView::Close(r),
        }
    }
}

/// Where a connection goes once nothing more can happen on it.
pub open spec fn closing(reason: CloseReason) -> Option<(ConnState, ActionView)> {
    Some((ConnState::Closed, ActionView::Close(reason)))
}

/// The transition table. `None` means that the event cannot occur in the
/// state, or that the response is too long to be framed.
pub open spec fn transition(state: ConnState, event: EventView) -> Option<(ConnState, ActionView)> {
    match (state, event) {
        (ConnState::Idle, EventView::Opened) => Some(
            (ConnState::Reading { expecting: None }, ActionView::ReadPrefix),
        ),
        (ConnState::Reading { expecting: None }, EventView::Prefix(prefix)) => match frame_length(
            prefix,
        ) {
            Ok(len) => Some(
                (
                    ConnState::Reading { expecting: Some(len as usize) },
                    ActionView::ReadBody { len: len as nat },
                ),
            ),
            Err(e) => closing(CloseReason::Failed(e)),
        },
        (ConnState::Reading { expecting: None }, EventView::EndOfStream { consumed }) => if consumed
            == 0 {
            closing(CloseReason::Clean)
        } else {
            closing(CloseReason::Failed(WireError::TruncatedInput))
        },
        (ConnState::Reading { expecting: Some(_) }, EventView::EndOfStream { .. }) => closing(
            CloseReason::Failed(WireError::TruncatedInput),
        ),
        (ConnState::Reading { expecting: Some(len) }, EventView::Body(body)) => if body.len()
            != len {
            None
        } else {
            match request_parse(body) {
                Ok((request, _)) => Some(
                    (
                        ConnState::Dispatching { correlation_id: request.header.correlation_id },
                        ActionView::Dispatch(request),
                    ),
                ),
                Err(e) => closing(CloseReason::Failed(e)),
            }
        },
        (ConnState::Reading { .. }, EventView::TransportFailed) => closing(CloseReason::Transport),
        (ConnState::Dispatching { correlation_id }, EventView::Handled(Ok(body))) => {
            let response = ResponseView { correlation_id, body };
            if Response::encodable(response) {
                Some((ConnState::Writing, ActionView::Write(response_wire(response))))
            } else {
                None
            }
        },
        (ConnState::Dispatching { .. }, EventView::Handled(Err(e))) => closing(
            CloseReason::Failed(e),
        ),
        (ConnState::Writing, EventView::Flushed) => Some(
            (ConnState::Reading { expecting: None }, ActionView::ReadPrefix),
        ),
        (ConnState::Writing, EventView::TransportFailed) => closing(CloseReason::Transport),
        _ => None,
    }
}

/// Takes one step of the connection cycle.
pub fn step(state: ConnState, event: ConnEvent) -> (r: Option<(ConnState, ConnAction)>)
    ensures
        match transition(state, event@) {
            Some((next, action)) => r is Some && r->Some_0.0 == next && r->Some_0.1@ == action,
            None => r is None,
        },
{
    match state {
        ConnState::Idle => match event {
            ConnEvent::Opened => Some(
                (ConnState::Reading { expecting: None }, ConnAction::ReadPrefix),
            ),
            _ => None,
        },
        ConnState::Reading { expecting: None } => match event {
            ConnEvent::Prefix(prefix) => match read_frame_length(&prefix) {
                Ok(len) => Some(
                    (ConnState::Reading { expecting: Some(len) }, ConnAction::ReadBody { len }),
                ),
                Err(e) => Some((ConnState::Closed, ConnAction::Close(CloseReason::Failed(e)))),
            },
            ConnEvent::EndOfStream { consumed } => if consumed == 0 {
                Some((ConnState::Closed, ConnAction::Close(CloseReason::Clean)))
            } else {
                Some(
                    (
                        ConnState::Closed,
                        ConnAction::Close(CloseReason::Failed(WireError::TruncatedInput)),
                    ),
                )
            },
            ConnEvent::TransportFailed => Some(
                (ConnState::Closed, ConnAction::Close(CloseReason::Transport)),
            ),
            _ => None,
        },
        ConnState::Reading { expecting: Some(len) } => match event {
            ConnEvent::EndOfStream { .. } => Some(
                (
                    ConnState::Closed,
                    ConnAction::Close(CloseReason::Failed(WireError::TruncatedInput)),
                ),
            ),
            ConnEvent::Body(body) => {
                if body.len() != len {
                    return None;
                }
                match Request::from_envelope(body.as_slice()) {
                    Ok(request) => Some(
                        (
                            ConnState::Dispatching {
                                correlation_id: request.header.correlation_id,
                            },
                            ConnAction::Dispatch(request),
                        ),
                    ),
                    Err(e) => Some((ConnState::Closed, ConnAction::Close(CloseReason::Failed(e)))),
                }
            },
            ConnEvent::TransportFailed => Some(
                (ConnState::Closed, ConnAction::Close(CloseReason::Transport)),
            ),
            _ => None,
        },
        ConnState::Dispatching { correlation_id } => match event {
            ConnEvent::Handled(Ok(body)) => {
                if body.len() > 0x7fff_fffb {
                    return None;
                }
                let response = Response { header: correlation_id, body };
                Some((ConnState::Writing, ConnAction::Write(response.serialize())))
            },
            ConnEvent::Handled(Err(e)) => Some(
                (ConnState::Closed, ConnAction::Close(CloseReason::Failed(e))),
            ),
            _ => None,
        },
        ConnState::Writing => match event {
            ConnEvent::Flushed => Some(
                (ConnState::Reading { expecting: None }, ConnAction::ReadPrefix),
            ),
            ConnEvent::TransportFailed => Some(
                (ConnState::Closed, ConnAction::Close(CloseReason::Transport)),
            ),
            _ => None,
        },
        ConnState::Closed => None,
    }
}

/// The correlation id of a request is echoed in its response: whatever
/// body the dispatcher produces for a request that arrived in `envelope`,
/// the response written out carries the correlation id of that request's
/// header, and its size prefix counts that id and the body.
pub proof fn lemma_correlation_echo(envelope: Seq<u8>, body: Seq<u8>)
    requires
        envelope.len() <= usize::MAX,
        request_parse(envelope) is Ok,
        Response::encodable(
            ResponseView {
                correlation_id: request_parse(envelope)->Ok_0.0.header.correlation_id,
                body,
            },
        ),
    ensures
        ({
            let request = request_parse(envelope)->Ok_0.0;
            let c = request.header.correlation_id;
            let reading = ConnState::Reading { expecting: Some(envelope.len() as usize) };
            let dispatching = ConnState::Dispatching { correlation_id: c };
            let written = response_wire(ResponseView { correlation_id: c, body });
            &&& transition(reading, EventView::Body(envelope)) == Some(
                (dispatching, ActionView::Dispatch(request)),
            )
            &&& transition(dispatching, EventView::Handled(Ok(body))) == Some(
                (ConnState::Writing, ActionView::Write(written)),
            )
            &&& parse_i32(written) == Ok::<(i32, int), WireError>(((4 + body.len()) as i32, 4))
            &&& parse_i32(written.skip(4)) == Ok::<(i32, int), WireError>((c, 4))
            &&& written.skip(8) == body
        }),
{
    let c = request_parse(envelope)->Ok_0.0.header.correlation_id;
    let v = ResponseView { correlation_id: c, body };
    lemma_response_layout(v, Seq::empty());
    assert(response_wire(v) + Seq::<u8>::empty() =~= response_wire(v));
}

/// Requests on one connection are served strictly in turn: once a
/// request is being dispatched or its response written, the next size
/// prefix is asked for only after the response was flushed.
pub proof fn lemma_one_request_at_a_time(state: ConnState, event: EventView)
    requires
        transition(state, event) is Some,
        transition(state, event)->Some_0.1 == ActionView::ReadPrefix,
    ensures
        (state == ConnState::Idle && event == EventView::Opened) || (state == ConnState::Writing
            && event == EventView::Flushed),
{
}

/// A closed connection stays closed, and every close leads there.
pub proof fn lemma_closed_is_final(state: ConnState, event: EventView)
    ensures
        transition(ConnState::Closed, event) is None,
        transition(state, event) matches Some((next, action)) ==> (next == ConnState::Closed
            <==> action is Close),
{
}

} // verus!
