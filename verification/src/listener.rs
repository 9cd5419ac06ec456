//! The head listener's decisions: an explicit state machine over connection
//! events, and the parsing of new-head notifications.
//!
//! The listener holds a streaming subscription to new-block-head events.
//! The surrounding process performs the connecting, sending and reading;
//! every decision — what to send after a connect, what a message means,
//! when to back off and reconnect — is taken here.

use vstd::prelude::*;
use crate::numeric::{parse_hex_spec, parse_hex_u64};

verus! {

/// What a new-head notification denotes: the block number carried at
/// `params.result.number`, if the text is such a notification and the
/// field is a hexadecimal quantity that fits a `u64`.
pub open spec fn notified_block(text: Seq<char>) -> Option<u64> {
    match head_number_field(text) {
        None => None,
        Some(field) => parse_hex_spec(field),
    }
}

/// The `params.result.number` string of a JSON notification, as bytes, if
/// the text parses as JSON and carries that field as a string.  The outcome
/// is a function of the characters alone.
pub uninterp spec fn head_number_field(text: Seq<char>) -> Option<Seq<u8>>;

/// Relies on `serde_json::from_str` and `serde_json::Value::get`: whether
/// `text` is a JSON object carrying a string at `params.result.number`,
/// and that string's bytes, depend on the input text alone.
#[verifier::external_body]
fn extract_head_number(text: &str) -> (r: Option<Vec<u8>>)
    ensures
        (r is Some) <==> head_number_field(text@) is Some,
        r matches Some(v) ==> head_number_field(text@) == Some(v@),
{
    let value: serde_json::Value = match serde_json::from_str(text) {
        Ok(v) => v,
        Err(_) => return None,
    };
    let field = value.get("params")?.get("result")?.get("number")?;
    Some(field.as_str()?.as_bytes().to_vec())
}

/// Parse one inbound notification text into the block number it announces,
/// if any.  Malformed messages yield nothing and are skipped, never fatal.
pub fn parse_notification(text: &str) -> (r: Option<u64>)
    ensures
        r == notified_block(text@),
{
    match extract_head_number(text) {
        None => None,
        Some(bytes) => parse_hex_u64(bytes.as_slice()),
    }
}

/// The listener's connection state.
#[derive(Clone, Copy, PartialEq, Eq, Structural, Debug)]
pub enum ListenerState {
    /// No live connection; the next step is a connect attempt.
    Disconnected,
    /// Connected and subscribed; inbound messages are notifications.
    Subscribed,
}

/// One thing that happened on the connection.
pub enum ListenerEvent {
    ConnectSucceeded,
    ConnectFailed,
    MessageText(String),
    MessageOther,
    SocketError,
    StreamEnded,
}

/// What the listener does next.
#[derive(Clone, Copy, PartialEq, Eq, Structural, Debug)]
pub enum ListenerAction {
    /// Send the subscription request on the fresh connection.
    SendSubscribe,
    /// Submit this block number to the coordinator.
    Submit(u64),
    /// Nothing to do for this event.
    Ignore,
    /// Close resources, wait the backoff interval, then reconnect.
    Backoff,
}

/// The listener state machine.  Subscription state never survives a
/// reconnect, so every successful connect is followed by a fresh
/// subscription request; every loss of the stream leads back through a
/// backoff to a reconnect.
pub open spec fn listener_step_spec(state: ListenerState, event: ListenerEvent) -> (
    ListenerState,
    ListenerAction,
) {
    match (state, event) {
        (ListenerState::Disconnected, ListenerEvent::ConnectSucceeded) => (
            ListenerState::Subscribed,
            ListenerAction::SendSubscribe,
        ),
        (ListenerState::Disconnected, _) => (ListenerState::Disconnected, ListenerAction::Backoff),
        (ListenerState::Subscribed, ListenerEvent::MessageText(text)) => (
            ListenerState::Subscribed,
            match notified_block(text@) {
                Some(block) => ListenerAction::Submit(block),
                None => ListenerAction::Ignore,
            },
        ),
        (ListenerState::Subscribed, ListenerEvent::MessageOther) => (
            ListenerState::Subscribed,
            ListenerAction::Ignore,
        ),
        (ListenerState::Subscribed, _) => (ListenerState::Disconnected, ListenerAction::Backoff),
    }
}

/// Take one step of the listener state machine.
pub fn listener_step(state: ListenerState, event: ListenerEvent) -> (r: (
    ListenerState,
    ListenerAction,
))
    ensures
        r == listener_step_spec(state, event),
{
    match (state, event) {
        (ListenerState::Disconnected, ListenerEvent::ConnectSucceeded) => (
            ListenerState::Subscribed,
            ListenerAction::SendSubscribe,
        ),
        (ListenerState::Disconnected, _) => (ListenerState::Disconnected, ListenerAction::Backoff),
        (ListenerState::Subscribed, ListenerEvent::MessageText(text)) => {
            let action = match parse_notification(text.as_str()) {
                Some(block) => ListenerAction::Submit(block),
                None => ListenerAction::Ignore,
            };
            (ListenerState::Subscribed, action)
        },
        (ListenerState::Subscribed, ListenerEvent::MessageOther) => (
            ListenerState::Subscribed,
            ListenerAction::Ignore,
        ),
        (ListenerState::Subscribed, _) => (ListenerState::Disconnected, ListenerAction::Backoff),
    }
}

/// The subscription request sent after every connect: a JSON-RPC
/// `eth_subscribe` call for `newHeads` events.
pub fn subscribe_request() -> (r: String)
    ensures
        r@ == "{\"id\":1,\"jsonrpc\":\"2.0\",\"method\":\"eth_subscribe\",\"params\":[\"newHeads\"]}"@,
{
    ("{\"id\":1,\"jsonrpc\":\"2.0\",\"method\":\"eth_subscribe\",\"params\":[\"newHeads\"]}").to_owned()
}

} // verus!
