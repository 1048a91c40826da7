use broker::errors::OrderPickerErr;
use broker::stream::{
    bytes_eq, ping_interval_ms, select_fetched_order, ErrMsg, FetchOrderError, Nonce, SocketEvent,
    StreamAction, StreamState,
};
use broker::types::Digest;

fn digest(n: u64) -> Digest {
    Digest { w0: n, w1: 0, w2: 0, w3: 0 }
}

#[test]
fn err_msg_new_keeps_fields() {
    let e = ErrMsg::new("bad_request", "missing field");
    assert_eq!(e.error_type, "bad_request");
    assert_eq!(e.msg, "missing field");
    let n = Nonce { nonce: "TEST_NONCE".to_string() };
    assert_eq!(n.clone(), n);
}

#[test]
fn error_codes() {
    let s = || "x".to_string();
    assert_eq!(OrderPickerErr::FetchInputErr(s()).code(), "[B-OP-001]");
    assert_eq!(OrderPickerErr::FetchImageErr(s()).code(), "[B-OP-002]");
    assert_eq!(OrderPickerErr::GuestPanic(s()).code(), "[B-OP-003]");
    assert_eq!(OrderPickerErr::RequestError(s()).code(), "[B-OP-004]");
    assert_eq!(OrderPickerErr::RpcErr(s()).code(), "[B-OP-005]");
    assert_eq!(OrderPickerErr::UnexpectedErr(s()).code(), "[B-OP-500]");
}

#[test]
fn ping_pong_round() {
    let mut st = StreamState::new();
    assert_eq!(st.on_event(SocketEvent::Tick(vec![1, 2, 3, 4])), StreamAction::SendPing(vec![1, 2, 3, 4]));
    assert_eq!(st.on_event(SocketEvent::Pong(vec![1, 2, 3, 4])), StreamAction::Ignore);
    assert_eq!(st.awaiting_pong, None);
    // an unexpected pong is ignored
    assert_eq!(st.on_event(SocketEvent::Pong(vec![9])), StreamAction::Ignore);
}

#[test]
fn mismatched_pong_stops_stream() {
    let mut st = StreamState::new();
    st.on_event(SocketEvent::Tick(vec![1, 2, 3, 4]));
    assert_eq!(st.on_event(SocketEvent::Pong(vec![1, 2, 3, 5])), StreamAction::Stop);
}

#[test]
fn server_ping_gets_pong_and_messages_dispatch() {
    let mut st = StreamState::new();
    assert_eq!(st.on_event(SocketEvent::Ping(vec![7, 7])), StreamAction::SendPong(vec![7, 7]));
    assert_eq!(st.on_event(SocketEvent::Text), StreamAction::ParseOrder);
    assert_eq!(st.on_event(SocketEvent::Binary), StreamAction::Ignore);
    assert_eq!(st.on_event(SocketEvent::Frame), StreamAction::Ignore);
    assert_eq!(st.on_event(SocketEvent::Close), StreamAction::Stop);
    assert_eq!(st.on_event(SocketEvent::Error), StreamAction::Stop);
    assert_eq!(st.on_event(SocketEvent::End), StreamAction::Stop);
}

#[test]
fn ping_interval_default() {
    assert_eq!(ping_interval_ms(None), 10_000);
    assert_eq!(ping_interval_ms(Some(250)), 250);
}

#[test]
fn byte_comparison() {
    assert!(bytes_eq(&vec![1, 2], &vec![1, 2]));
    assert!(!bytes_eq(&vec![1, 2], &vec![1, 3]));
    assert!(!bytes_eq(&vec![1, 2], &vec![1]));
    assert!(bytes_eq(&vec![], &vec![]));
}

#[test]
fn fetched_order_selection() {
    assert_eq!(select_fetched_order(&vec![], None), Err(FetchOrderError::NotFound));
    assert_eq!(select_fetched_order(&vec![digest(1)], Some(digest(2))), Ok(0));
    let three = vec![digest(1), digest(2), digest(2)];
    assert_eq!(select_fetched_order(&three, None), Err(FetchOrderError::Ambiguous));
    assert_eq!(select_fetched_order(&three, Some(digest(2))), Ok(1));
    assert_eq!(select_fetched_order(&three, Some(digest(3))), Err(FetchOrderError::NotFound));
}
