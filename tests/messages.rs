use lsp_client::msg::outbound::{ReplyError, Response as Reply};
use lsp_client::error::ResponseError;
use lsp_client::frame::FrameError;
use lsp_client::msg::inbound::{classify, parse_message, Field, Fields, Message};
use lsp_client::msg::outbound::{encode, Message as Outbound, Notification, Request};
use lsp_client::json::Json;
use serde_json::Value;

fn num(text: &str) -> Json {
    Json::Number(text.as_bytes().to_vec())
}

fn same(a: &Option<Json>, b: &Option<Json>) -> bool {
    format!("{:?}", a) == format!("{:?}", b)
}

fn parse_err(text: &str) -> FrameError {
    match parse_message(text.as_bytes()) {
        Ok(m) => panic!("expected an error, got {:?}", m),
        Err(e) => e,
    }
}

#[test]
fn request_envelope_field_order() {
    let req = Request { id: 7, method: "ping".to_string(), params: b"{}".to_vec() };
    assert_eq!(
        String::from_utf8(req.body()).unwrap(),
        "{\"jsonrpc\":\"2.0\",\"id\":7,\"method\":\"ping\",\"params\":{}}"
    );
}

#[test]
fn notification_envelope_has_no_id() {
    let note = Notification { method: "exit".to_string(), params: b"null".to_vec() };
    assert_eq!(
        String::from_utf8(note.body()).unwrap(),
        "{\"jsonrpc\":\"2.0\",\"method\":\"exit\",\"params\":null}"
    );
}

#[test]
fn method_is_escaped_as_json_string() {
    let req = Request { id: 1, method: "a\"b\\c".to_string(), params: b"[]".to_vec() };
    let body = req.body();
    let v: Value = serde_json::from_slice(&body).unwrap();
    assert_eq!(v["method"], Value::String("a\"b\\c".to_string()));
    assert_eq!(
        String::from_utf8(body).unwrap(),
        "{\"jsonrpc\":\"2.0\",\"id\":1,\"method\":\"a\\\"b\\\\c\",\"params\":[]}"
    );
}

#[test]
fn encode_frames_the_body() {
    let req = Request { id: 1, method: "ping".to_string(), params: b"{}".to_vec() };
    let body = req.body();
    let mut expected = format!("Content-Length: {}\r\n\r\n", body.len()).into_bytes();
    expected.extend_from_slice(&body);
    assert_eq!(encode(&req), expected);
}

#[test]
fn parses_response() {
    match parse_message(b"{\"jsonrpc\":\"2.0\",\"id\":3,\"result\":[1,2]}").unwrap() {
        Message::Response(r) => {
            assert_eq!(r.id, 3);
            assert!(same(&r.result, &Some(Json::Array(vec![num("1"), num("2")]))));
            assert!(r.error.is_none());
        }
        other => panic!("{:?}", other),
    }
}

#[test]
fn parses_error_response() {
    let text = "{\"id\":4,\"error\":{\"code\":-32601,\"message\":\"no such method\",\"data\":{\"m\":1}}}";
    match parse_message(text.as_bytes()).unwrap() {
        Message::Response(r) => {
            assert_eq!(r.id, 4);
            assert!(r.result.is_none());
            let e = r.error.unwrap();
            assert_eq!(e.code, -32601);
            assert_eq!(e.message, "no such method");
            assert!(same(&e.data, &Some(Json::Object(vec![(b"m".to_vec(), num("1"))]))));
        }
        other => panic!("{:?}", other),
    }
}

#[test]
fn null_result_counts_as_absent() {
    match parse_message(b"{\"id\":2,\"result\":null}").unwrap() {
        Message::Response(r) => {
            assert!(r.result.is_none());
            assert!(r.error.is_none());
        }
        other => panic!("{:?}", other),
    }
}

#[test]
fn parses_notification() {
    match parse_message(b"{\"method\":\"progress\",\"params\":{\"pct\":50}}").unwrap() {
        Message::Notification(n) => {
            assert_eq!(n.method, "progress");
            assert!(same(&n.params, &Some(Json::Object(vec![(b"pct".to_vec(), num("50"))]))));
        }
        other => panic!("{:?}", other),
    }
}

#[test]
fn parses_peer_request() {
    match parse_message(b"{\"jsonrpc\":\"2.0\",\"id\":9,\"method\":\"workspace/configuration\",\"params\":{}}").unwrap() {
        Message::Request(q) => {
            assert_eq!(q.id, 9);
            assert_eq!(q.method, "workspace/configuration");
            assert!(same(&q.params, &Some(Json::Object(vec![]))));
        }
        other => panic!("{:?}", other),
    }
}

#[test]
fn refuses_what_is_not_a_message() {
    assert_eq!(parse_err("not json"), FrameError::BadMessage);
    assert_eq!(parse_err("{\"jsonrpc\":\"2.0\"}"), FrameError::BadMessage);
    assert_eq!(parse_err("[1]"), FrameError::BadMessage);
    assert_eq!(parse_err("{\"id\":-1,\"result\":1}"), FrameError::BadMessage);
    assert_eq!(parse_err("{\"id\":4294967296,\"result\":1}"), FrameError::BadMessage);
    assert_eq!(parse_err("{\"id\":\"1\",\"result\":1}"), FrameError::BadMessage);
    assert_eq!(parse_err("{\"method\":3}"), FrameError::BadMessage);
    assert_eq!(parse_err("{\"id\":1,\"error\":{\"message\":\"x\"}}"), FrameError::BadMessage);
    assert_eq!(parse_err("{\"id\":1,\"error\":{\"code\":4294967296,\"message\":\"x\"}}"), FrameError::BadMessage);
}

#[test]
fn classify_by_id_and_method() {
    let fields = |id: Field<u32>, method: Field<String>| Fields {
        id,
        method,
        params: None,
        result: Some(Json::Bool(true)),
        error: Field::Absent,
    };
    assert!(matches!(classify(fields(Field::Present(1), Field::Absent)), Ok(Message::Response(_))));
    assert!(matches!(
        classify(fields(Field::Absent, Field::Present("m".to_string()))),
        Ok(Message::Notification(_))
    ));
    assert!(matches!(
        classify(fields(Field::Present(1), Field::Present("m".to_string()))),
        Ok(Message::Request(_))
    ));
    assert!(matches!(classify(fields(Field::Absent, Field::Absent)), Err(FrameError::BadMessage)));
    assert!(matches!(classify(fields(Field::Malformed, Field::Absent)), Err(FrameError::BadMessage)));
    let mut f = fields(Field::Present(1), Field::Absent);
    f.error = Field::Malformed;
    assert!(matches!(classify(f), Err(FrameError::BadMessage)));
    let mut f = fields(Field::Present(2), Field::Absent);
    f.error = Field::Present(ResponseError { code: 1, message: "x".to_string(), data: None });
    match classify(f) {
        Ok(Message::Response(r)) => {
            assert_eq!(r.id, 2);
            assert!(matches!(r.result, Some(Json::Bool(true))));
            assert_eq!(r.error.unwrap().message, "x");
        }
        other => panic!("{:?}", other),
    }
}

#[test]
fn reply_with_result() {
    let reply = Reply { id: 12, result: Ok(b"[true]".to_vec()) };
    assert_eq!(
        String::from_utf8(reply.body()).unwrap(),
        "{\"jsonrpc\":\"2.0\",\"id\":12,\"result\":[true]}"
    );
}

#[test]
fn reply_with_error() {
    let reply = Reply {
        id: 3,
        result: Err(ReplyError { code: -32601, message: "no \"such\" method".to_string(), data: None }),
    };
    assert_eq!(
        String::from_utf8(reply.body()).unwrap(),
        "{\"jsonrpc\":\"2.0\",\"id\":3,\"error\":{\"code\":-32601,\"message\":\"no \\\"such\\\" method\",\"data\":null}}"
    );
    let reply = Reply {
        id: 4,
        result: Err(ReplyError { code: i32::MIN, message: "m".to_string(), data: Some(b"{\"k\":1}".to_vec()) }),
    };
    let text = String::from_utf8(reply.body()).unwrap();
    assert_eq!(
        text,
        "{\"jsonrpc\":\"2.0\",\"id\":4,\"error\":{\"code\":-2147483648,\"message\":\"m\",\"data\":{\"k\":1}}}"
    );
    let v: Value = serde_json::from_str(&text).unwrap();
    assert_eq!(v["error"]["code"], Value::from(i32::MIN));
}

#[test]
fn later_duplicate_member_wins() {
    match parse_message(b"{\"id\":1,\"id\":2,\"result\":0}").unwrap() {
        Message::Response(r) => assert_eq!(r.id, 2),
        other => panic!("{:?}", other),
    }
}

#[test]
fn null_members_count_as_absent() {
    match parse_message(b"{\"id\":null,\"method\":\"m\",\"params\":null}").unwrap() {
        Message::Notification(n) => {
            assert_eq!(n.method, "m");
            assert!(n.params.is_none());
        }
        other => panic!("{:?}", other),
    }
    match parse_message(b"{\"id\":6,\"result\":1,\"error\":null}").unwrap() {
        Message::Response(r) => assert!(r.error.is_none() && r.result.is_some()),
        other => panic!("{:?}", other),
    }
}

#[test]
fn id_and_code_must_be_integers() {
    assert_eq!(parse_err("{\"id\":1.0,\"result\":1}"), FrameError::BadMessage);
    assert_eq!(parse_err("{\"id\":1,\"error\":{\"code\":1.5,\"message\":\"x\"}}"), FrameError::BadMessage);
    assert_eq!(parse_err("{\"id\":1,\"error\":{\"code\":\"1\",\"message\":\"x\"}}"), FrameError::BadMessage);
    assert_eq!(parse_err("{\"id\":1,\"error\":{\"code\":1,\"message\":2}}"), FrameError::BadMessage);
    assert_eq!(parse_err("{\"id\":1,\"error\":5}"), FrameError::BadMessage);
    match parse_message(b"{\"id\":4294967295,\"error\":{\"code\":-2147483648,\"message\":\"m\"}}").unwrap() {
        Message::Response(r) => {
            assert_eq!(r.id, u32::MAX);
            assert_eq!(r.error.unwrap().code, i32::MIN);
        }
        other => panic!("{:?}", other),
    }
    assert_eq!(parse_err("{\"id\":1,\"error\":{\"code\":-2147483649,\"message\":\"x\"}}"), FrameError::BadMessage);
}
