//! Messages of the protocol: what the client sends and what it receives.
use vstd::prelude::*;

pub mod inbound;
pub mod outbound;

pub use inbound::Response;
pub use outbound::{Notification, Request};

verus! {

/// A message that the client itself may send: a request or a notification.
pub trait OutboundMessage: outbound::Message {}

impl OutboundMessage for Request {}

impl OutboundMessage for Notification {}

/// A notification pushed by the peer.
pub type IncomingNotification = inbound::Notification;

} // verus!
