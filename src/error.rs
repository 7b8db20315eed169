//! What can go wrong on a connection.
use vstd::prelude::*;
use crate::json::Json;
use crate::frame::FrameError;

verus! {

/// The `error` member of a response: the peer's report of a failed request.
#[derive(Debug)]
pub struct ResponseError {
    pub code: i32,
    pub message: String,
    pub data: Option<Json>,
}

/// A response that breaks the rule that it holds exactly one of `result`
/// and `error`.
#[derive(Debug, Clone, Copy, PartialEq, Eq, Structural)]
pub enum ProtocolViolation {
    BothResultAndResponse,
    NeitherResultNorResponse,
}

#[derive(Debug)]
pub enum Error {
    /// Writing to or reading from the peer failed, or the connection is
    /// closed; fatal to the connection.
    Transport,
    /// The peer's output is no longer a sequence of well-formed frames;
    /// fatal to the connection.
    Framing(FrameError),
    /// The peer answered the request with an error.
    Lsp(ResponseError),
    /// The peer's response broke the protocol.
    ProtocolViolation(ProtocolViolation),
    /// An id was registered while a request with that id was outstanding.
    CorrelationFault(u32),
}

} // verus!
