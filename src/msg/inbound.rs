//! Messages that the peer sends, and how a frame's body is read as one.
use vstd::prelude::*;
use vstd::slice::slice_subrange;
use crate::bytes::bytes_eq;
use crate::decimal::{all_digits, digits_value, parse_decimal, MINUS};
use crate::error::ResponseError;
use crate::frame::FrameError;
use crate::json::{json_of, parse_json, Json};

verus! {

/// A request that the peer sends to the client.
#[derive(Debug)]
pub struct Request {
    pub id: u32,
    pub method: String,
    pub params: Option<Json>,
}

/// The peer's answer to the request with the same id.
#[derive(Debug)]
pub struct Response {
    pub id: u32,
    pub result: Option<Json>,
    pub error: Option<ResponseError>,
}

/// A notification that the peer pushes, unasked.
#[derive(Debug)]
pub struct Notification {
    pub method: String,
    pub params: Option<Json>,
}

/// A message from the peer, classified by which of `id` and `method` it has.
#[derive(Debug)]
pub enum Message {
    Request(Request),
    Response(Response),
    Notification(Notification),
}

/// A member of a message as read: missing (or `null`), of the wrong shape,
/// or present with its value.
#[derive(Debug)]
pub enum Field<T> {
    Absent,
    Malformed,
    Present(T),
}

impl<T> Field<T> {
    pub open spec fn to_option(self) -> Option<T> {
        match self {
            Field::Present(v) => Some(v),
            _ => None,
        }
    }
}

/// The members of a message that decide what it is.
#[derive(Debug)]
pub struct Fields {
    pub id: Field<u32>,
    pub method: Field<String>,
    pub params: Option<Json>,
    pub result: Option<Json>,
    pub error: Field<ResponseError>,
}

/// `id`
pub open spec fn key_id() -> Seq<u8> {
    seq![105u8, 100u8]
}

/// `method`
pub open spec fn key_method() -> Seq<u8> {
    seq![109u8, 101u8, 116u8, 104u8, 111u8, 100u8]
}

/// `params`
pub open spec fn key_params() -> Seq<u8> {
    seq![112u8, 97u8, 114u8, 97u8, 109u8, 115u8]
}

/// `result`
pub open spec fn key_result() -> Seq<u8> {
    seq![114u8, 101u8, 115u8, 117u8, 108u8, 116u8]
}

/// `error`
pub open spec fn key_error() -> Seq<u8> {
    seq![101u8, 114u8, 114u8, 111u8, 114u8]
}

/// `code`
pub open spec fn key_code() -> Seq<u8> {
    seq![99u8, 111u8, 100u8, 101u8]
}

/// `message`
pub open spec fn key_message() -> Seq<u8> {
    seq![109u8, 101u8, 115u8, 115u8, 97u8, 103u8, 101u8]
}

/// `data`
pub open spec fn key_data() -> Seq<u8> {
    seq![100u8, 97u8, 116u8, 97u8]
}

/// The member `key` of an object: where a key occurs more than once the last
/// one counts, and `null` counts as absent.
pub open spec fn member_of(ms: Seq<(Vec<u8>, Json)>, key: Seq<u8>) -> Option<Json>
    decreases ms.len(),
{
    if ms.len() == 0 {
        None
    } else if ms.last().0@ == key {
        if ms.last().1 is Null {
            None
        } else {
            Some(ms.last().1)
        }
    } else {
        member_of(ms.drop_last(), key)
    }
}

/// The integer that a number's text stands for: digits, with a leading `-`
/// for a negative one.
pub open spec fn int_of_text(t: Seq<u8>) -> Option<int> {
    if t.len() > 1 && t[0] == MINUS && all_digits(t.skip(1)) {
        Some(-(digits_value(t.skip(1)) as int))
    } else if t.len() > 0 && all_digits(t) {
        Some(digits_value(t) as int)
    } else {
        None
    }
}

/// An id: a nonnegative integer that fits in a `u32`.
pub open spec fn id_field(m: Option<Json>) -> Field<u32> {
    match m {
        None => Field::Absent,
        Some(Json::Number(t)) => match int_of_text(t@) {
            Some(n) => if 0 <= n <= u32::MAX {
                Field::Present(n as u32)
            } else {
                Field::Malformed
            },
            None => Field::Malformed,
        },
        Some(_) => Field::Malformed,
    }
}

/// A member that must be a string.
pub open spec fn string_field(m: Option<Json>) -> Field<String> {
    match m {
        None => Field::Absent,
        Some(Json::Str(s)) => Field::Present(s),
        Some(_) => Field::Malformed,
    }
}

/// An error code: an integer that fits in an `i32`.
pub open spec fn code_of(m: Option<Json>) -> Option<i32> {
    match m {
        Some(Json::Number(t)) => match int_of_text(t@) {
            Some(c) => if i32::MIN <= c <= i32::MAX {
                Some(c as i32)
            } else {
                None
            },
            None => None,
        },
        _ => None,
    }
}

/// An `error` member: an object with an integer `code`, a string `message`
/// and any `data`.
pub open spec fn error_field(m: Option<Json>) -> Field<ResponseError> {
    match m {
        None => Field::Absent,
        Some(Json::Object(ms)) => match (
            code_of(member_of(ms@, key_code())),
            string_field(member_of(ms@, key_message())),
        ) {
            (Some(code), Field::Present(message)) => Field::Present(
                ResponseError { code, message, data: member_of(ms@, key_data()) },
            ),
            _ => Field::Malformed,
        },
        Some(_) => Field::Malformed,
    }
}

/// The members of a message that decide what it is; a value that is not an
/// object has none of them.
pub open spec fn fields_of(j: Json) -> Fields {
    match j {
        Json::Object(ms) => Fields {
            id: id_field(member_of(ms@, key_id())),
            method: string_field(member_of(ms@, key_method())),
            params: member_of(ms@, key_params()),
            result: member_of(ms@, key_result()),
            error: error_field(member_of(ms@, key_error())),
        },
        _ => Fields {
            id: Field::Absent,
            method: Field::Absent,
            params: None,
            result: None,
            error: Field::Absent,
        },
    }
}

/// `id` without `method` is a response, `method` without `id` a
/// notification, both a request from the peer. A message with neither, or
/// with a member of the wrong shape, is refused.
pub open spec fn classify_spec(f: Fields) -> Result<Message, FrameError> {
    match (f.id, f.method) {
        (Field::Present(id), Field::Absent) => match f.error {
            Field::Malformed => Err(FrameError::BadMessage),
            _ => Ok(Message::Response(Response { id, result: f.result, error: f.error.to_option() })),
        },
        (Field::Absent, Field::Present(method)) => Ok(
            Message::Notification(Notification { method, params: f.params }),
        ),
        (Field::Present(id), Field::Present(method)) => Ok(
            Message::Request(Request { id, method, params: f.params }),
        ),
        _ => Err(FrameError::BadMessage),
    }
}

/// What a frame's body is read as.
pub open spec fn parse_spec(body: Seq<u8>) -> Result<Message, FrameError> {
    match json_of(body) {
        None => Err(FrameError::BadMessage),
        Some(j) => classify_spec(fields_of(j)),
    }
}

/// Sorts a message by its members.
pub fn classify(f: Fields) -> (r: Result<Message, FrameError>)
    ensures
        r == classify_spec(f),
{
    match (f.id, f.method) {
        (Field::Present(id), Field::Absent) => {
            let error = match f.error {
                Field::Malformed => {
                    return Err(FrameError::BadMessage);
                },
                Field::Absent => None,
                Field::Present(e) => Some(e),
            };
            Ok(Message::Response(Response { id, result: f.result, error }))
        },
        (Field::Absent, Field::Present(method)) => {
            Ok(Message::Notification(Notification { method, params: f.params }))
        },
        (Field::Present(id), Field::Present(method)) => {
            Ok(Message::Request(Request { id, method, params: f.params }))
        },
        _ => Err(FrameError::BadMessage),
    }
}

fn key_id_bytes() -> (r: [u8; 2])
    ensures
        r@ == key_id(),
{
    let r: [u8; 2] = [105, 100];
    assert(r@ =~= key_id());
    r
}

fn key_method_bytes() -> (r: [u8; 6])
    ensures
        r@ == key_method(),
{
    let r: [u8; 6] = [109, 101, 116, 104, 111, 100];
    assert(r@ =~= key_method());
    r
}

fn key_params_bytes() -> (r: [u8; 6])
    ensures
        r@ == key_params(),
{
    let r: [u8; 6] = [112, 97, 114, 97, 109, 115];
    assert(r@ =~= key_params());
    r
}

fn key_result_bytes() -> (r: [u8; 6])
    ensures
        r@ == key_result(),
{
    let r: [u8; 6] = [114, 101, 115, 117, 108, 116];
    assert(r@ =~= key_result());
    r
}

fn key_error_bytes() -> (r: [u8; 5])
    ensures
        r@ == key_error(),
{
    let r: [u8; 5] = [101, 114, 114, 111, 114];
    assert(r@ =~= key_error());
    r
}

fn key_code_bytes() -> (r: [u8; 4])
    ensures
        r@ == key_code(),
{
    let r: [u8; 4] = [99, 111, 100, 101];
    assert(r@ =~= key_code());
    r
}

fn key_message_bytes() -> (r: [u8; 7])
    ensures
        r@ == key_message(),
{
    let r: [u8; 7] = [109, 101, 115, 115, 97, 103, 101];
    assert(r@ =~= key_message());
    r
}

fn key_data_bytes() -> (r: [u8; 4])
    ensures
        r@ == key_data(),
{
    let r: [u8; 4] = [100, 97, 116, 97];
    assert(r@ =~= key_data());
    r
}

/// A member's value, with `null` counted as absent.
fn present(v: Json) -> (r: Option<Json>)
    ensures
        r == (if v is Null {
            None
        } else {
            Some(v)
        }),
{
    match v {
        Json::Null => None,
        other => Some(other),
    }
}

/// The members `id`, `method`, `params`, `result` and `error` of an object.
fn message_members(ms: Vec<(Vec<u8>, Json)>) -> (r: (Option<Json>, Option<Json>, Option<Json>, Option<Json>, Option<Json>))
    ensures
        r.0 == member_of(ms@, key_id()),
        r.1 == member_of(ms@, key_method()),
        r.2 == member_of(ms@, key_params()),
        r.3 == member_of(ms@, key_result()),
        r.4 == member_of(ms@, key_error()),
{
    let ghost all = ms@;
    let kid = key_id_bytes();
    let kmethod = key_method_bytes();
    let kparams = key_params_bytes();
    let kresult = key_result_bytes();
    let kerror = key_error_bytes();
    let mut rest = ms;
    let mut id: Option<Json> = None;
    let mut method: Option<Json> = None;
    let mut params: Option<Json> = None;
    let mut result: Option<Json> = None;
    let mut error: Option<Json> = None;
    let total = rest.len();
    let mut i: usize = 0;
    while rest.len() > 0
        invariant
            all == ms@,
            total == all.len(),
            i + rest@.len() == all.len(),
            rest@ == all.skip(i as int),
            kid@ == key_id(),
            kmethod@ == key_method(),
            kparams@ == key_params(),
            kresult@ == key_result(),
            kerror@ == key_error(),
            id == member_of(all.take(i as int), key_id()),
            method == member_of(all.take(i as int), key_method()),
            params == member_of(all.take(i as int), key_params()),
            result == member_of(all.take(i as int), key_result()),
            error == member_of(all.take(i as int), key_error()),
        decreases rest@.len(),
    {
        let (k, v) = rest.remove(0);
        assert(all.take(i as int + 1).drop_last() =~= all.take(i as int));
        assert(all.take(i as int + 1).last() == (k, v));
        let ks = k.as_slice();
        if bytes_eq(ks, &kid) {
            id = present(v);
        } else if bytes_eq(ks, &kmethod) {
            method = present(v);
        } else if bytes_eq(ks, &kparams) {
            params = present(v);
        } else if bytes_eq(ks, &kresult) {
            result = present(v);
        } else if bytes_eq(ks, &kerror) {
            error = present(v);
        }
        i = i + 1;
        assert(rest@ =~= all.skip(i as int));
    }
    assert(all.take(i as int) =~= all);
    (id, method, params, result, error)
}

/// The members `code`, `message` and `data` of an error object.
fn error_members(ms: Vec<(Vec<u8>, Json)>) -> (r: (Option<Json>, Option<Json>, Option<Json>))
    ensures
        r.0 == member_of(ms@, key_code()),
        r.1 == member_of(ms@, key_message()),
        r.2 == member_of(ms@, key_data()),
{
    let ghost all = ms@;
    let kcode = key_code_bytes();
    let kmessage = key_message_bytes();
    let kdata = key_data_bytes();
    let mut rest = ms;
    let mut code: Option<Json> = None;
    let mut message: Option<Json> = None;
    let mut data: Option<Json> = None;
    let total = rest.len();
    let mut i: usize = 0;
    while rest.len() > 0
        invariant
            all == ms@,
            total == all.len(),
            i + rest@.len() == all.len(),
            rest@ == all.skip(i as int),
            kcode@ == key_code(),
            kmessage@ == key_message(),
            kdata@ == key_data(),
            code == member_of(all.take(i as int), key_code()),
            message == member_of(all.take(i as int), key_message()),
            data == member_of(all.take(i as int), key_data()),
        decreases rest@.len(),
    {
        let (k, v) = rest.remove(0);
        assert(all.take(i as int + 1).drop_last() =~= all.take(i as int));
        assert(all.take(i as int + 1).last() == (k, v));
        let ks = k.as_slice();
        if bytes_eq(ks, &kcode) {
            code = present(v);
        } else if bytes_eq(ks, &kmessage) {
            message = present(v);
        } else if bytes_eq(ks, &kdata) {
            data = present(v);
        }
        i = i + 1;
        assert(rest@ =~= all.skip(i as int));
    }
    assert(all.take(i as int) =~= all);
    (code, message, data)
}

/// Reads the integer that a number's text stands for, where it lies in
/// `lo..=hi`.
fn int_in_range(t: &[u8], lo: i64, hi: i64) -> (r: Option<i64>)
    requires
        i32::MIN <= lo <= 0 <= hi <= u32::MAX,
    ensures
        r == (match int_of_text(t@) {
            Some(n) => if lo <= n <= hi {
                Some(n as i64)
            } else {
                None::<i64>
            },
            None => None::<i64>,
        }),
{
    let n = t.len();
    if n > 1 && t[0] == MINUS {
        let digits = slice_subrange(t, 1, n);
        assert(digits@ =~= t@.skip(1));
        match parse_decimal(digits) {
            Some(v) => if v as u64 <= (-lo) as u64 {
                Some(-(v as i64))
            } else {
                None
            },
            None => None,
        }
    } else {
        if n > 0 && t[0] == MINUS {
            assert(!all_digits(t@)) by {
                assert(!crate::decimal::is_digit(t@[0]));
            }
        }
        match parse_decimal(t) {
            Some(v) => if v as u64 <= hi as u64 {
                Some(v as i64)
            } else {
                None
            },
            None => None,
        }
    }
}

fn read_id(m: Option<Json>) -> (r: Field<u32>)
    ensures
        r == id_field(m),
{
    match m {
        None => Field::Absent,
        Some(Json::Number(t)) => match int_in_range(t.as_slice(), 0, u32::MAX as i64) {
            Some(n) => Field::Present(n as u32),
            None => Field::Malformed,
        },
        Some(_) => Field::Malformed,
    }
}

fn read_string(m: Option<Json>) -> (r: Field<String>)
    ensures
        r == string_field(m),
{
    match m {
        None => Field::Absent,
        Some(Json::Str(s)) => Field::Present(s),
        Some(_) => Field::Malformed,
    }
}

fn read_code(m: Option<Json>) -> (r: Option<i32>)
    ensures
        r == code_of(m),
{
    match m {
        Some(Json::Number(t)) => match int_in_range(t.as_slice(), i32::MIN as i64, i32::MAX as i64) {
            Some(c) => Some(c as i32),
            None => None,
        },
        _ => None,
    }
}

fn read_error(m: Option<Json>) -> (r: Field<ResponseError>)
    ensures
        r == error_field(m),
{
    match m {
        None => Field::Absent,
        Some(Json::Object(ms)) => {
            let (code, message, data) = error_members(ms);
            match (read_code(code), read_string(message)) {
                (Some(code), Field::Present(message)) => Field::Present(ResponseError { code, message, data }),
                _ => Field::Malformed,
            }
        },
        Some(_) => Field::Malformed,
    }
}

/// The members of a parsed message.
pub fn read_fields(j: Json) -> (r: Fields)
    ensures
        r == fields_of(j),
{
    match j {
        Json::Object(ms) => {
            let (id, method, params, result, error) = message_members(ms);
            Fields {
                id: read_id(id),
                method: read_string(method),
                params,
                result,
                error: read_error(error),
            }
        },
        _ => Fields { id: Field::Absent, method: Field::Absent, params: None, result: None, error: Field::Absent },
    }
}

/// Reads a frame's body as a message.
pub fn parse_message(body: &[u8]) -> (r: Result<Message, FrameError>)
    ensures
        r == parse_spec(body@),
{
    match parse_json(body) {
        None => Err(FrameError::BadMessage),
        Some(j) => classify(read_fields(j)),
    }
}

} // verus!
