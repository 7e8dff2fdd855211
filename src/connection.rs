//! One connection's handling of its frames: decode each text frame, report
//! what cannot be decoded, and stop when the transport closes.
use vstd::prelude::*;
use crate::json::{parsed_json, parse_document};
use crate::sensors::{SensorType, classify, classify_value};

verus! {

/// Why a text frame yields no record. Each carries the frame's text.
#[derive(Clone, Debug, PartialEq)]
pub enum IngestError {
    /// The text is not JSON.
    PayloadParseError { raw: String },
    /// The text is JSON that decodes as no sensor variant.
    UnrecognizedSensorPayload { raw: String },
}

/// The record that `text` decodes to, if any.
pub open spec fn decoded(text: Seq<char>) -> Option<SensorType> {
    match parsed_json(text) {
        Some(v) => classify(v),
        None => None,
    }
}

/// Whether `r` is what decoding `text` gives.
pub open spec fn decodes_as(text: Seq<char>, r: Result<SensorType, IngestError>) -> bool {
    match parsed_json(text) {
        None => r matches Err(IngestError::PayloadParseError { raw }) && raw@ == text,
        Some(v) => match classify(v) {
            Some(s) => r == Ok::<SensorType, IngestError>(s),
            None => r matches Err(IngestError::UnrecognizedSensorPayload { raw }) && raw@ == text,
        },
    }
}

/// Decodes one message: parses `text` as JSON and classifies the value.
pub fn decode_message(text: &str) -> (r: Result<SensorType, IngestError>)
    ensures
        decodes_as(text@, r),
        r is Ok <==> decoded(text@) is Some,
        r is Ok ==> r->Ok_0 == decoded(text@)->0,
{
    match parse_document(text) {
        None => Err(IngestError::PayloadParseError { raw: text.to_owned() }),
        Some(v) => match classify_value(&v) {
            Some(s) => Ok(s),
            None => Err(IngestError::UnrecognizedSensorPayload { raw: text.to_owned() }),
        },
    }
}

/// What the transport hands a connection.
#[derive(Clone, Debug, PartialEq)]
pub enum FrameEvent {
    Text(String),
    Binary,
    Ping,
    Pong,
    Close,
    /// The transport ended without a close frame, or failed.
    Disconnected,
}

#[derive(Clone, Copy, Debug, PartialEq, Eq, Structural)]
pub enum ConnectionState {
    Open,
    Closed,
}

/// What the connection does with one event.
#[derive(Clone, Debug, PartialEq)]
pub enum Action {
    /// Hand the record to the store.
    Store(SensorType),
    /// Report the error and go on with the next frame.
    Report(IngestError),
    /// Nothing to do for this frame.
    Skip,
    /// The connection is over.
    Finish,
}

pub open spec fn ends_connection(e: FrameEvent) -> bool {
    e is Close || e is Disconnected
}

pub open spec fn next_state(state: ConnectionState, e: FrameEvent) -> ConnectionState {
    if state == ConnectionState::Closed || ends_connection(e) {
        ConnectionState::Closed
    } else {
        ConnectionState::Open
    }
}

/// Whether `a` is what a connection in `state` does on `e`.
pub open spec fn action_for(state: ConnectionState, e: FrameEvent, a: Action) -> bool {
    if state == ConnectionState::Closed || ends_connection(e) {
        a is Finish
    } else {
        match e {
            FrameEvent::Text(t) => match a {
                Action::Store(s) => decodes_as(t@, Ok(s)),
                Action::Report(err) => decodes_as(t@, Err(err)),
                _ => false,
            },
            _ => a is Skip,
        }
    }
}

/// One turn of the connection loop: the state after `event`, and what to do.
pub fn step(state: ConnectionState, event: &FrameEvent) -> (r: (ConnectionState, Action))
    ensures
        r.0 == next_state(state, *event),
        action_for(state, *event, r.1),
{
    if state == ConnectionState::Closed {
        return (ConnectionState::Closed, Action::Finish);
    }
    match event {
        FrameEvent::Text(t) => match decode_message(t.as_str()) {
            Ok(s) => (ConnectionState::Open, Action::Store(s)),
            Err(e) => (ConnectionState::Open, Action::Report(e)),
        },
        FrameEvent::Close => (ConnectionState::Closed, Action::Finish),
        FrameEvent::Disconnected => (ConnectionState::Closed, Action::Finish),
        _ => (ConnectionState::Open, Action::Skip),
    }
}

/// The state after `events`, from `start`.
pub open spec fn state_after(start: ConnectionState, events: Seq<FrameEvent>) -> ConnectionState
    decreases events.len(),
{
    if events.len() == 0 {
        start
    } else {
        next_state(state_after(start, events.drop_last()), events.last())
    }
}

pub open spec fn count_stored(actions: Seq<Action>) -> nat
    decreases actions.len(),
{
    if actions.len() == 0 {
        0
    } else {
        count_stored(actions.drop_last()) + if actions.last() is Store { 1nat } else { 0nat }
    }
}

pub open spec fn count_reported(actions: Seq<Action>) -> nat
    decreases actions.len(),
{
    if actions.len() == 0 {
        0
    } else {
        count_reported(actions.drop_last()) + if actions.last() is Report { 1nat } else { 0nat }
    }
}

/// How many of `events` are text frames that decode (`ok`) or that do not (`!ok`).
pub open spec fn count_texts(events: Seq<FrameEvent>, ok: bool) -> nat
    decreases events.len(),
{
    if events.len() == 0 {
        0
    } else {
        count_texts(events.drop_last(), ok) + match events.last() {
            FrameEvent::Text(t) => if (decoded(t@) is Some) == ok { 1nat } else { 0nat },
            _ => 0nat,
        }
    }
}

/// An open connection that meets no close and no disconnect stays open,
/// whatever its frames hold: it stores one record for each text frame that
/// decodes and reports one error for each that does not.
pub proof fn lemma_loop_survives_bad_frames(events: Seq<FrameEvent>, actions: Seq<Action>)
    requires
        events.len() == actions.len(),
        forall|i: int| 0 <= i < events.len() ==> !ends_connection(#[trigger] events[i]),
        forall|i: int|
            0 <= i < events.len() ==> action_for(ConnectionState::Open, #[trigger] events[i], actions[i]),
    ensures
        state_after(ConnectionState::Open, events) == ConnectionState::Open,
        count_stored(actions) == count_texts(events, true),
        count_reported(actions) == count_texts(events, false),
    decreases events.len(),
{
    if events.len() > 0 {
        let n = events.len() - 1;
        let (e0, a0) = (events.drop_last(), actions.drop_last());
        assert forall|i: int| 0 <= i < e0.len() implies !ends_connection(#[trigger] e0[i]) by {
            assert(e0[i] == events[i]);
        }
        assert forall|i: int| 0 <= i < e0.len() implies action_for(ConnectionState::Open, #[trigger] e0[i], a0[i]) by {
            assert(e0[i] == events[i] && a0[i] == actions[i]);
        }
        lemma_loop_survives_bad_frames(e0, a0);
        assert(!ends_connection(events[n]));
        assert(action_for(ConnectionState::Open, events[n], actions[n]));
    }
}

} // verus!
