use lsp_client::decimal::{parse_decimal, push_decimal, push_int};
use lsp_client::frame::{decode_frame, encode_frame, FrameError};

fn decode_err(input: &[u8]) -> FrameError {
    match decode_frame(input) {
        Ok(_) => panic!("expected a framing error"),
        Err(e) => e,
    }
}

#[test]
fn encode_prepends_length_and_blank_line() {
    assert_eq!(encode_frame(b"{}"), b"Content-Length: 2\r\n\r\n{}".to_vec());
    assert_eq!(encode_frame(b""), b"Content-Length: 0\r\n\r\n".to_vec());
}

#[test]
fn encode_counts_bytes_not_chars() {
    let body = "\"\u{e9}\"".as_bytes();
    assert_eq!(body.len(), 4);
    let mut expected = b"Content-Length: 4\r\n\r\n".to_vec();
    expected.extend_from_slice(body);
    assert_eq!(encode_frame(body), expected);
}

#[test]
fn decode_round_trip_with_trailing_bytes() {
    let body = b"{\"id\":1,\"result\":null}";
    let mut stream = encode_frame(body);
    let first_len = stream.len();
    stream.extend_from_slice(b"Content-Length: 3\r\n\r\n[1]");
    let f = decode_frame(&stream).unwrap();
    assert_eq!(f.body, body.to_vec());
    assert_eq!(f.consumed, first_len);
    let g = decode_frame(&stream[f.consumed..]).unwrap();
    assert_eq!(g.body, b"[1]".to_vec());
}

#[test]
fn decode_ignores_unknown_headers() {
    let input = b"Content-Type: application/vscode-jsonrpc\r\nContent-Length: 2\r\nX: y\r\n\r\n{}";
    let f = decode_frame(input).unwrap();
    assert_eq!(f.body, b"{}".to_vec());
    assert_eq!(f.consumed, input.len());
}

#[test]
fn decode_last_length_header_wins() {
    let f = decode_frame(b"Content-Length: 5\r\nContent-Length: 1\r\n\r\nabc").unwrap();
    assert_eq!(f.body, b"a".to_vec());
}

#[test]
fn decode_empty_body() {
    let f = decode_frame(b"Content-Length: 0\r\n\r\n").unwrap();
    assert!(f.body.is_empty());
    assert_eq!(f.consumed, 21);
}

#[test]
fn decode_incomplete_headers() {
    assert_eq!(decode_err(b""), FrameError::Incomplete);
    assert_eq!(decode_err(b"Content-Length: 2\r\n"), FrameError::Incomplete);
    assert_eq!(decode_err(b"Content-Length: 2"), FrameError::Incomplete);
}

#[test]
fn decode_truncated_body() {
    assert_eq!(decode_err(b"Content-Length: 10\r\n\r\n{}"), FrameError::Incomplete);
}

#[test]
fn decode_missing_length() {
    assert_eq!(decode_err(b"\r\n{}"), FrameError::MissingLength);
    assert_eq!(decode_err(b"X: 1\r\n\r\n{}"), FrameError::MissingLength);
}

#[test]
fn decode_length_header_is_case_sensitive() {
    assert_eq!(decode_err(b"content-length: 2\r\n\r\n{}"), FrameError::MissingLength);
}

#[test]
fn decode_bad_length() {
    assert_eq!(decode_err(b"Content-Length: x\r\n\r\n{}"), FrameError::BadLength);
    assert_eq!(decode_err(b"Content-Length: \r\n\r\n{}"), FrameError::BadLength);
    assert_eq!(decode_err(b"Content-Length: -1\r\n\r\n{}"), FrameError::BadLength);
    assert_eq!(
        decode_err(b"Content-Length: 99999999999999999999999\r\n\r\n{}"),
        FrameError::BadLength
    );
}

#[test]
fn decimal_writes_shortest_form() {
    let mut out = b"n=".to_vec();
    push_decimal(0, &mut out);
    assert_eq!(out, b"n=0".to_vec());
    let mut out = Vec::new();
    push_decimal(10, &mut out);
    assert_eq!(out, b"10".to_vec());
    let mut out = Vec::new();
    push_decimal(usize::MAX, &mut out);
    assert_eq!(out, usize::MAX.to_string().into_bytes());
}

#[test]
fn decimal_parses_digits_only() {
    assert_eq!(parse_decimal(b"0"), Some(0));
    assert_eq!(parse_decimal(b"0042"), Some(42));
    assert_eq!(parse_decimal(usize::MAX.to_string().as_bytes()), Some(usize::MAX));
    assert_eq!(parse_decimal(b""), None);
    assert_eq!(parse_decimal(b"4 2"), None);
    assert_eq!(parse_decimal(b"+1"), None);
    let over = format!("{}0", usize::MAX);
    assert_eq!(parse_decimal(over.as_bytes()), None);
}

#[test]
fn signed_decimal() {
    for c in [0, 7, -7, 120, i32::MAX, i32::MIN] {
        let mut out = Vec::new();
        push_int(c, &mut out);
        assert_eq!(out, c.to_string().into_bytes());
    }
}
