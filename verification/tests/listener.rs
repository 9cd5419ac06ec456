use reserve_ingest::listener::{
    listener_step, parse_notification, subscribe_request, ListenerAction, ListenerEvent,
    ListenerState,
};

fn head_notification(number: &str) -> String {
    format!(
        "{{\"jsonrpc\":\"2.0\",\"method\":\"eth_subscription\",\"params\":{{\"subscription\":\"0xcd0c3e8af590364c09d0fa6a1210faf5\",\"result\":{{\"number\":\"{}\",\"hash\":\"0x00\"}}}}}}",
        number
    )
}

#[test]
fn parses_hex_block_numbers() {
    assert_eq!(parse_notification(&head_notification("0x69")), Some(105));
    assert_eq!(parse_notification(&head_notification("0x0")), Some(0));
    assert_eq!(parse_notification(&head_notification("1b4")), Some(436));
}

#[test]
fn rejects_messages_without_a_block_number() {
    assert_eq!(parse_notification("not json at all"), None);
    assert_eq!(parse_notification("{}"), None);
    assert_eq!(parse_notification("{\"params\":{}}"), None);
    assert_eq!(parse_notification("{\"params\":{\"result\":{\"number\":42}}}"), None);
    assert_eq!(parse_notification(&head_notification("0xnope")), None);
    assert_eq!(parse_notification(&head_notification("")), None);
}

#[test]
fn subscribes_after_every_connect() {
    let (state, action) =
        listener_step(ListenerState::Disconnected, ListenerEvent::ConnectSucceeded);
    assert_eq!(state, ListenerState::Subscribed);
    assert_eq!(action, ListenerAction::SendSubscribe);
}

#[test]
fn backs_off_after_a_failed_connect() {
    let (state, action) = listener_step(ListenerState::Disconnected, ListenerEvent::ConnectFailed);
    assert_eq!(state, ListenerState::Disconnected);
    assert_eq!(action, ListenerAction::Backoff);
}

#[test]
fn submits_parsed_notifications() {
    let event = ListenerEvent::MessageText(head_notification("0x69"));
    let (state, action) = listener_step(ListenerState::Subscribed, event);
    assert_eq!(state, ListenerState::Subscribed);
    assert_eq!(action, ListenerAction::Submit(105));
}

#[test]
fn skips_unparsable_messages() {
    let event = ListenerEvent::MessageText("garbage".to_owned());
    let (state, action) = listener_step(ListenerState::Subscribed, event);
    assert_eq!(state, ListenerState::Subscribed);
    assert_eq!(action, ListenerAction::Ignore);

    let (state, action) = listener_step(ListenerState::Subscribed, ListenerEvent::MessageOther);
    assert_eq!(state, ListenerState::Subscribed);
    assert_eq!(action, ListenerAction::Ignore);
}

#[test]
fn reconnects_after_stream_loss() {
    let (state, action) = listener_step(ListenerState::Subscribed, ListenerEvent::SocketError);
    assert_eq!(state, ListenerState::Disconnected);
    assert_eq!(action, ListenerAction::Backoff);

    let (state, action) = listener_step(ListenerState::Subscribed, ListenerEvent::StreamEnded);
    assert_eq!(state, ListenerState::Disconnected);
    assert_eq!(action, ListenerAction::Backoff);
}

#[test]
fn subscription_request_shape() {
    let req = subscribe_request();
    let value: serde_json::Value = serde_json::from_str(&req).expect("request must be JSON");
    assert_eq!(value["method"], "eth_subscribe");
    assert_eq!(value["params"][0], "newHeads");
}
