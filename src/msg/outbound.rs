//! The envelopes that the client writes to the peer.
use vstd::prelude::*;
use crate::bytes::push_all;
use crate::decimal::{decimal, int_text, push_decimal, push_int};
use crate::frame::{decode_spec, encode_frame, frame_of, lemma_frame_round_trip, FrameError};
use crate::json::{json_string, quote_json};

verus! {

/// `{"jsonrpc":"2.0",`
pub open spec fn open_bytes() -> Seq<u8> {
    seq![123u8, 34u8, 106u8, 115u8, 111u8, 110u8, 114u8, 112u8, 99u8, 34u8, 58u8, 34u8, 50u8, 46u8, 48u8, 34u8, 44u8]
}

/// `"id":`
pub open spec fn id_key() -> Seq<u8> {
    seq![34u8, 105u8, 100u8, 34u8, 58u8]
}

/// `"method":`
pub open spec fn method_key() -> Seq<u8> {
    seq![34u8, 109u8, 101u8, 116u8, 104u8, 111u8, 100u8, 34u8, 58u8]
}

/// `,"params":`
pub open spec fn params_key() -> Seq<u8> {
    seq![44u8, 34u8, 112u8, 97u8, 114u8, 97u8, 109u8, 115u8, 34u8, 58u8]
}

/// `,"result":`
pub open spec fn result_key() -> Seq<u8> {
    seq![44u8, 34u8, 114u8, 101u8, 115u8, 117u8, 108u8, 116u8, 34u8, 58u8]
}

/// `,"error":`
pub open spec fn error_key() -> Seq<u8> {
    seq![44u8, 34u8, 101u8, 114u8, 114u8, 111u8, 114u8, 34u8, 58u8]
}

/// `{"code":`
pub open spec fn code_key() -> Seq<u8> {
    seq![123u8, 34u8, 99u8, 111u8, 100u8, 101u8, 34u8, 58u8]
}

/// `,"message":`
pub open spec fn message_key() -> Seq<u8> {
    seq![44u8, 34u8, 109u8, 101u8, 115u8, 115u8, 97u8, 103u8, 101u8, 34u8, 58u8]
}

/// `,"data":`
pub open spec fn data_key() -> Seq<u8> {
    seq![44u8, 34u8, 100u8, 97u8, 116u8, 97u8, 34u8, 58u8]
}

/// `null`
pub open spec fn null_bytes() -> Seq<u8> {
    seq![110u8, 117u8, 108u8, 108u8]
}

pub const COMMA: u8 = 44;

pub const CLOSE_BRACE: u8 = 125;

/// `{"jsonrpc":"2.0","id":<id>,"method":<method>,"params":<params>}`
pub open spec fn request_body(id: nat, method: Seq<char>, params: Seq<u8>) -> Seq<u8> {
    open_bytes() + id_key() + decimal(id) + seq![COMMA] + method_key() + json_string(method)
        + params_key() + params + seq![CLOSE_BRACE]
}

/// `{"jsonrpc":"2.0","method":<method>,"params":<params>}`
pub open spec fn notification_body(method: Seq<char>, params: Seq<u8>) -> Seq<u8> {
    open_bytes() + method_key() + json_string(method) + params_key() + params + seq![CLOSE_BRACE]
}

/// The JSON text of an error reply: its `data` member is `null` where
/// there is no data.
pub open spec fn error_text(code: int, message: Seq<char>, data: Option<Seq<u8>>) -> Seq<u8> {
    code_key() + int_text(code) + message_key() + json_string(message) + data_key() + match data {
        Some(d) => d,
        None => null_bytes(),
    } + seq![CLOSE_BRACE]
}

/// `{"jsonrpc":"2.0","id":<id>,"result":<result>}` for a result, and
/// `{"jsonrpc":"2.0","id":<id>,"error":<error>}` for an error.
pub open spec fn response_body(id: nat, result: Result<Seq<u8>, (int, Seq<char>, Option<Seq<u8>>)>) -> Seq<u8> {
    open_bytes() + id_key() + decimal(id) + match result {
        Ok(r) => result_key() + r,
        Err((code, message, data)) => error_key() + error_text(code, message, data),
    } + seq![CLOSE_BRACE]
}

/// Messages of this module can only be built here.
pub trait Sealed {}

/// An outbound envelope, and the JSON text it is written as.
pub trait Message: Sealed {
    spec fn wire_body(&self) -> Seq<u8>;

    /// The JSON text of the envelope.
    fn body(&self) -> (r: Vec<u8>)
        ensures
            r@ == self.wire_body(),
    ;
}

/// A request: `params` is the JSON text of its parameters.
pub struct Request {
    pub id: u32,
    pub method: String,
    pub params: Vec<u8>,
}

/// A notification: `params` is the JSON text of its parameters. It has no id,
/// so nothing can answer it.
pub struct Notification {
    pub method: String,
    pub params: Vec<u8>,
}

/// The error that a reply to the peer carries: `data` is JSON text.
pub struct ReplyError {
    pub code: i32,
    pub message: String,
    pub data: Option<Vec<u8>>,
}

/// A reply to a request from the peer: `result` is the JSON text of the
/// result, or the error.
pub struct Response {
    pub id: u32,
    pub result: Result<Vec<u8>, ReplyError>,
}

impl Response {
    pub open spec fn result_view(&self) -> Result<Seq<u8>, (int, Seq<char>, Option<Seq<u8>>)> {
        match self.result {
            Ok(r) => Ok(r@),
            Err(e) => Err(
                (
                    e.code as int,
                    e.message@,
                    match e.data {
                        Some(d) => Some(d@),
                        None => None,
                    },
                ),
            ),
        }
    }
}

impl Sealed for Response {}

impl Sealed for Request {}

impl Sealed for Notification {}

fn push_open(out: &mut Vec<u8>)
    ensures
        final(out)@ == old(out)@ + open_bytes(),
{
    let b: [u8; 17] = [123, 34, 106, 115, 111, 110, 114, 112, 99, 34, 58, 34, 50, 46, 48, 34, 44];
    assert(b@ =~= open_bytes());
    push_all(out, &b);
}

fn push_id_key(out: &mut Vec<u8>)
    ensures
        final(out)@ == old(out)@ + id_key(),
{
    let b: [u8; 5] = [34, 105, 100, 34, 58];
    assert(b@ =~= id_key());
    push_all(out, &b);
}

fn push_method_key(out: &mut Vec<u8>)
    ensures
        final(out)@ == old(out)@ + method_key(),
{
    let b: [u8; 9] = [34, 109, 101, 116, 104, 111, 100, 34, 58];
    assert(b@ =~= method_key());
    push_all(out, &b);
}

fn push_params_key(out: &mut Vec<u8>)
    ensures
        final(out)@ == old(out)@ + params_key(),
{
    let b: [u8; 10] = [44, 34, 112, 97, 114, 97, 109, 115, 34, 58];
    assert(b@ =~= params_key());
    push_all(out, &b);
}

fn push_result_key(out: &mut Vec<u8>)
    ensures
        final(out)@ == old(out)@ + result_key(),
{
    let b: [u8; 10] = [44, 34, 114, 101, 115, 117, 108, 116, 34, 58];
    assert(b@ =~= result_key());
    push_all(out, &b);
}

fn push_error_key(out: &mut Vec<u8>)
    ensures
        final(out)@ == old(out)@ + error_key(),
{
    let b: [u8; 9] = [44, 34, 101, 114, 114, 111, 114, 34, 58];
    assert(b@ =~= error_key());
    push_all(out, &b);
}

fn push_code_key(out: &mut Vec<u8>)
    ensures
        final(out)@ == old(out)@ + code_key(),
{
    let b: [u8; 8] = [123, 34, 99, 111, 100, 101, 34, 58];
    assert(b@ =~= code_key());
    push_all(out, &b);
}

fn push_message_key(out: &mut Vec<u8>)
    ensures
        final(out)@ == old(out)@ + message_key(),
{
    let b: [u8; 11] = [44, 34, 109, 101, 115, 115, 97, 103, 101, 34, 58];
    assert(b@ =~= message_key());
    push_all(out, &b);
}

fn push_data_key(out: &mut Vec<u8>)
    ensures
        final(out)@ == old(out)@ + data_key(),
{
    let b: [u8; 8] = [44, 34, 100, 97, 116, 97, 34, 58];
    assert(b@ =~= data_key());
    push_all(out, &b);
}

fn push_null_bytes(out: &mut Vec<u8>)
    ensures
        final(out)@ == old(out)@ + null_bytes(),
{
    let b: [u8; 4] = [110, 117, 108, 108];
    assert(b@ =~= null_bytes());
    push_all(out, &b);
}

impl Message for Request {
    open spec fn wire_body(&self) -> Seq<u8> {
        request_body(self.id as nat, self.method@, self.params@)
    }

    fn body(&self) -> (r: Vec<u8>) {
        let mut out: Vec<u8> = Vec::new();
        push_open(&mut out);
        push_id_key(&mut out);
        push_decimal(self.id as usize, &mut out);
        out.push(COMMA);
        push_method_key(&mut out);
        let m = quote_json(self.method.as_str());
        push_all(&mut out, m.as_slice());
        push_params_key(&mut out);
        push_all(&mut out, self.params.as_slice());
        out.push(CLOSE_BRACE);
        assert(out@ =~= request_body(self.id as nat, self.method@, self.params@));
        out
    }
}

impl Message for Notification {
    open spec fn wire_body(&self) -> Seq<u8> {
        notification_body(self.method@, self.params@)
    }

    fn body(&self) -> (r: Vec<u8>) {
        let mut out: Vec<u8> = Vec::new();
        push_open(&mut out);
        push_method_key(&mut out);
        let m = quote_json(self.method.as_str());
        push_all(&mut out, m.as_slice());
        push_params_key(&mut out);
        push_all(&mut out, self.params.as_slice());
        out.push(CLOSE_BRACE);
        assert(out@ =~= notification_body(self.method@, self.params@));
        out
    }
}

impl Message for Response {
    open spec fn wire_body(&self) -> Seq<u8> {
        response_body(self.id as nat, self.result_view())
    }

    fn body(&self) -> (r: Vec<u8>) {
        let mut out: Vec<u8> = Vec::new();
        push_open(&mut out);
        push_id_key(&mut out);
        push_decimal(self.id as usize, &mut out);
        match &self.result {
            Ok(r) => {
                push_result_key(&mut out);
                push_all(&mut out, r.as_slice());
            },
            Err(e) => {
                push_error_key(&mut out);
                push_code_key(&mut out);
                push_int(e.code, &mut out);
                push_message_key(&mut out);
                let m = quote_json(e.message.as_str());
                push_all(&mut out, m.as_slice());
                push_data_key(&mut out);
                match &e.data {
                    Some(d) => push_all(&mut out, d.as_slice()),
                    None => push_null_bytes(&mut out),
                }
                out.push(CLOSE_BRACE);
            },
        }
        out.push(CLOSE_BRACE);
        assert(out@ =~= response_body(self.id as nat, self.result_view()));
        out
    }
}

/// The frame that carries an outbound message.
pub fn encode<M: Message>(msg: &M) -> (r: Vec<u8>)
    ensures
        r@ == frame_of(msg.wire_body()),
{
    let body = msg.body();
    encode_frame(body.as_slice())
}

/// Decoding the frame of a request, whatever follows it on the stream, gives
/// back exactly the envelope that was built from its id, method and params.
pub proof fn lemma_request_round_trip(id: u32, method: Seq<char>, params: Seq<u8>, rest: Seq<u8>)
    requires
        request_body(id as nat, method, params).len() <= usize::MAX,
    ensures
        decode_spec(frame_of(request_body(id as nat, method, params)) + rest) == Ok::<(Seq<u8>, int), FrameError>(
            (request_body(id as nat, method, params), frame_of(request_body(id as nat, method, params)).len() as int),
        ),
{
    lemma_frame_round_trip(request_body(id as nat, method, params), rest);
}

} // verus!
