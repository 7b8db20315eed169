use lsp_client::msg::outbound::Response as Reply;
use lsp_client::client::{resolve, Connection};
use lsp_client::error::{Error, ProtocolViolation, ResponseError};
use lsp_client::frame::decode_frame;
use lsp_client::msg::inbound::{parse_message, Message, Response};
use lsp_client::json::Json;

fn peer_error() -> ResponseError {
    ResponseError { code: 1, message: "x".to_string(), data: None }
}

#[test]
fn ids_start_at_one_and_increase() {
    let mut c = Connection::new();
    let mut ids = Vec::new();
    for _ in 0..5 {
        let (id, _) = c.begin_request("ping", b"{}").unwrap();
        ids.push(id);
    }
    assert_eq!(ids, vec![1, 2, 3, 4, 5]);
}

#[test]
fn request_frame_round_trip() {
    let mut c = Connection::new();
    c.begin_request("first", b"null").unwrap();
    let (id, frame) = c.begin_request("textDocument/hover", b"{\"line\":3}").unwrap();
    assert_eq!(id, 2);
    let f = decode_frame(&frame).unwrap();
    assert_eq!(f.consumed, frame.len());
    match parse_message(&f.body).unwrap() {
        Message::Request(q) => {
            assert_eq!(q.id, 2);
            assert_eq!(q.method, "textDocument/hover");
            assert!(matches!(q.params, Some(Json::Object(ref ms)) if ms.len() == 1 && ms[0].0 == b"line"));
        }
        other => panic!("{:?}", other),
    }
}

#[test]
fn notification_frame_round_trip() {
    let c = Connection::new();
    let frame = c.begin_notify("initialized", b"{}").unwrap();
    let f = decode_frame(&frame).unwrap();
    match parse_message(&f.body).unwrap() {
        Message::Notification(n) => {
            assert_eq!(n.method, "initialized");
            assert!(matches!(n.params, Some(Json::Object(ref ms)) if ms.is_empty()));
        }
        other => panic!("{:?}", other),
    }
}

#[test]
fn closed_connection_fails_without_frames() {
    let mut c = Connection::new();
    c.begin_request("a", b"{}").unwrap();
    c.close();
    assert!(c.is_closed());
    assert!(matches!(c.begin_request("b", b"{}"), Err(Error::Transport)));
    assert!(matches!(c.begin_request("b", b"{}"), Err(Error::Transport)));
    assert!(matches!(c.begin_notify("n", b"{}"), Err(Error::Transport)));
    assert!(c.is_closed());
}

#[test]
fn dropped_waiter_is_a_transport_failure_and_closes() {
    let mut c = Connection::new();
    assert!(matches!(c.finish_request(None, false), Err(Error::Transport)));
    assert!(c.is_closed());
    assert!(matches!(c.begin_request("a", b"{}"), Err(Error::Transport)));
}

#[test]
fn resolve_result() {
    let r = Response { id: 1, result: Some(Json::Str("pong".to_string())), error: None };
    assert!(matches!(resolve(r, false), Ok(Some(Json::Str(ref s))) if s == "pong"));
}

#[test]
fn resolve_peer_error() {
    let r = Response { id: 1, result: None, error: Some(peer_error()) };
    match resolve(r, false) {
        Err(Error::Lsp(e)) => {
            assert_eq!(e.code, 1);
            assert_eq!(e.message, "x");
        }
        other => panic!("{:?}", other),
    }
}

#[test]
fn resolve_both_is_violation() {
    let r = Response { id: 5, result: Some(Json::Bool(true)), error: Some(peer_error()) };
    assert!(matches!(
        resolve(r, true),
        Err(Error::ProtocolViolation(ProtocolViolation::BothResultAndResponse))
    ));
}

#[test]
fn resolve_neither() {
    let r = Response { id: 1, result: None, error: None };
    let again = Response { id: 1, result: None, error: None };
    assert!(matches!(
        resolve(again, false),
        Err(Error::ProtocolViolation(ProtocolViolation::NeitherResultNorResponse))
    ));
    assert!(matches!(resolve(r, true), Ok(None)));
}

#[test]
fn finish_request_resolves_reply() {
    let mut c = Connection::new();
    let r = Response { id: 1, result: Some(Json::Number(b"3".to_vec())), error: None };
    assert!(matches!(c.finish_request(Some(r), false), Ok(Some(Json::Number(ref t))) if t == b"3"));
    assert!(!c.is_closed());
}

#[test]
fn reply_frames_unless_closed() {
    let mut c = Connection::new();
    let reply = Reply { id: 8, result: Ok(b"null".to_vec()) };
    let frame = c.begin_reply(&reply).unwrap();
    let f = decode_frame(&frame).unwrap();
    assert_eq!(f.body, b"{\"jsonrpc\":\"2.0\",\"id\":8,\"result\":null}".to_vec());
    c.close();
    assert!(matches!(c.begin_reply(&reply), Err(Error::Transport)));
}

#[test]
fn shutdown_null_result_is_empty_success() {
    let mut c = Connection::new();
    let (id, _) = c.begin_request("shutdown", b"null").unwrap();
    let frame = format!("{{\"id\":{},\"result\":null}}", id);
    match parse_message(frame.as_bytes()).unwrap() {
        Message::Response(r) => {
            assert!(r.result.is_none());
            assert!(matches!(c.finish_request(Some(r), true), Ok(None)));
        }
        other => panic!("{:?}", other),
    }
}
