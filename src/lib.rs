//! Client-side transport for a JSON-RPC protocol spoken over a child
//! process's standard streams: frame codec, envelope builder, request-id
//! allocation, response correlation and notification dispatch.

pub mod bytes;
pub mod client;
pub mod correlation;
pub mod decimal;
pub mod error;
pub mod frame;
pub mod json;
pub mod msg;
