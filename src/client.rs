//! The client's side of a connection: request ids, whether the connection
//! is still usable, and what a caller gets from a response.
use vstd::prelude::*;
use crate::json::Json;
use vstd::slice::slice_to_vec;
use crate::error::{Error, ProtocolViolation};
use crate::frame::frame_of;
use crate::msg::inbound::Response;
use crate::msg::outbound::{encode, notification_body, request_body, Message, Notification, Request, Response as Reply};

verus! {

/// The id of the first request of a connection.
pub const FIRST_ID: u32 = 1;

/// What the caller of a request gets from its response: the result; the
/// peer's error; or a violation where the response holds both or neither.
/// Neither is an empty success where the request's result type allows it.
pub open spec fn resolve_spec(resp: Response, allow_empty: bool) -> Result<Option<Json>, Error> {
    match (resp.result, resp.error) {
        (Some(v), None) => Ok(Some(v)),
        (None, Some(e)) => Err(Error::Lsp(e)),
        (Some(_), Some(_)) => Err(Error::ProtocolViolation(ProtocolViolation::BothResultAndResponse)),
        (None, None) => if allow_empty {
            Ok(None)
        } else {
            Err(Error::ProtocolViolation(ProtocolViolation::NeitherResultNorResponse))
        },
    }
}

/// Turns a response into what the caller of the request gets.
pub fn resolve(resp: Response, allow_empty: bool) -> (r: Result<Option<Json>, Error>)
    ensures
        r == resolve_spec(resp, allow_empty),
{
    match (resp.result, resp.error) {
        (Some(v), None) => Ok(Some(v)),
        (None, Some(e)) => Err(Error::Lsp(e)),
        (Some(_), Some(_)) => Err(Error::ProtocolViolation(ProtocolViolation::BothResultAndResponse)),
        (None, None) => if allow_empty {
            Ok(None)
        } else {
            Err(Error::ProtocolViolation(ProtocolViolation::NeitherResultNorResponse))
        },
    }
}

/// The id that a request gets where `next` is the next id, and the next id
/// after it; `None` once ids have run out.
pub open spec fn id_step(next: u32) -> Option<(u32, u32)> {
    if next < u32::MAX {
        Some((next, (next + 1) as u32))
    } else {
        None
    }
}

/// The ids that `n` requests get, one after another, where `next` is the next
/// id; `None` where ids run out on the way.
pub open spec fn issued_ids(next: u32, n: nat) -> Option<Seq<u32>>
    decreases n,
{
    if n == 0 {
        Some(Seq::empty())
    } else {
        match id_step(next) {
            None => None,
            Some((id, after)) => match issued_ids(after, (n - 1) as nat) {
                Some(rest) => Some(seq![id] + rest),
                None => None,
            },
        }
    }
}

/// `n` requests issued without responses get `n` distinct ids, strictly
/// increasing by one from the next id, as long as ids last.
pub proof fn lemma_ids_increase(next: u32, n: nat)
    requires
        next + n <= u32::MAX,
    ensures
        issued_ids(next, n) matches Some(ids) && ids.len() == n
            && (forall|i: int| 0 <= i < n ==> ids[i] == next + i)
            && (forall|i: int, j: int| 0 <= i < j < n ==> ids[i] < ids[j]),
    decreases n,
{
    if n > 0 {
        lemma_ids_increase((next + 1) as u32, (n - 1) as nat);
        let rest = issued_ids((next + 1) as u32, (n - 1) as nat)->Some_0;
        let ids = seq![next] + rest;
        assert(issued_ids(next, n) == Some(ids));
        assert forall|i: int| 0 <= i < n implies ids[i] == next + i by {
            if i > 0 {
                assert(ids[i] == rest[i - 1]);
            }
        }
    }
}

/// The client's state of a connection. Once closed, it stays closed.
pub struct Connection {
    next_id: u32,
    closed: bool,
}

/// `after` is the connection `before` once a request has been given `id`:
/// both open, and the id taken from the next ids in turn.
pub open spec fn request_step(before: Connection, id: u32, after: Connection) -> bool {
    !before.spec_closed() && !after.spec_closed() && id_step(before.spec_next_id()) == Some(
        (id, after.spec_next_id()),
    )
}

/// Requests that succeed one after another on a connection get the ids
/// `issued_ids` gives: one more each time, so distinct and strictly
/// increasing.
pub proof fn lemma_request_ids(states: Seq<Connection>, ids: Seq<u32>)
    requires
        states.len() == ids.len() + 1,
        forall|i: int| 0 <= i < ids.len() ==> request_step(states[i], ids[i], states[i + 1]),
    ensures
        issued_ids(states[0].spec_next_id(), ids.len()) == Some(ids),
        forall|i: int| 0 <= i < ids.len() ==> ids[i] == states[0].spec_next_id() + i,
        forall|i: int, j: int| 0 <= i < j < ids.len() ==> ids[i] < ids[j],
    decreases ids.len(),
{
    if ids.len() > 0 {
        let rest_states = states.skip(1);
        let rest_ids = ids.skip(1);
        assert forall|i: int| 0 <= i < rest_ids.len() implies request_step(
            rest_states[i],
            rest_ids[i],
            rest_states[i + 1],
        ) by {
            assert(request_step(states[i + 1], ids[i + 1], states[i + 2]));
        }
        lemma_request_ids(rest_states, rest_ids);
        assert(request_step(states[0], ids[0], states[1]));
        assert(seq![ids[0]] + rest_ids =~= ids);
        assert forall|i: int| 0 <= i < ids.len() implies ids[i] == states[0].spec_next_id() + i by {
            if i > 0 {
                assert(ids[i] == rest_ids[i - 1]);
            }
        }
    }
}

impl Connection {
    /// The id that the next request gets.
    pub closed spec fn spec_next_id(&self) -> u32 {
        self.next_id
    }

    /// Whether the connection has failed or been closed.
    pub closed spec fn spec_closed(&self) -> bool {
        self.closed
    }

    /// A connection that has issued no request.
    pub fn new() -> (r: Self)
        ensures
            r.spec_next_id() == FIRST_ID,
            !r.spec_closed(),
    {
        Connection { next_id: FIRST_ID, closed: false }
    }

    pub fn is_closed(&self) -> (r: bool)
        ensures
            r == self.spec_closed(),
    {
        self.closed
    }

    /// Marks the connection as failed, for good.
    pub fn close(&mut self)
        ensures
            final(self).spec_closed(),
            final(self).spec_next_id() == old(self).spec_next_id(),
    {
        self.closed = true;
    }

    /// Gives the next request its id and frames it. On a closed connection
    /// it fails with `Transport` and changes nothing; when ids run out it
    /// fails with a correlation fault and closes the connection.
    pub fn begin_request(&mut self, method: &str, params: &[u8]) -> (r: Result<(u32, Vec<u8>), Error>)
        ensures
            old(self).spec_closed() ==> r == Err::<(u32, Vec<u8>), Error>(Error::Transport)
                && *final(self) == *old(self),
            !old(self).spec_closed() ==> match id_step(old(self).spec_next_id()) {
                None => r == Err::<(u32, Vec<u8>), Error>(Error::CorrelationFault(u32::MAX))
                    && final(self).spec_closed(),
                Some((id, after)) => (r matches Ok((rid, frame)) && rid == id
                    && frame@ == frame_of(request_body(id as nat, method@, params@))
                    && final(self).spec_next_id() == after && !final(self).spec_closed()),
            },
            r matches Ok((id, _)) ==> request_step(*old(self), id, *final(self)),
    {
        if self.closed {
            return Err(Error::Transport);
        }
        if self.next_id == u32::MAX {
            self.closed = true;
            return Err(Error::CorrelationFault(u32::MAX));
        }
        let id = self.next_id;
        self.next_id = id + 1;
        let req = Request { id, method: method.to_string(), params: slice_to_vec(params) };
        let frame = encode(&req);
        Ok((id, frame))
    }

    /// Frames a notification. On a closed connection it fails with
    /// `Transport`.
    pub fn begin_notify(&self, method: &str, params: &[u8]) -> (r: Result<Vec<u8>, Error>)
        ensures
            self.spec_closed() ==> r == Err::<Vec<u8>, Error>(Error::Transport),
            !self.spec_closed() ==> (r matches Ok(frame) && frame@ == frame_of(
                notification_body(method@, params@),
            )),
    {
        if self.closed {
            return Err(Error::Transport);
        }
        let note = Notification { method: method.to_string(), params: slice_to_vec(params) };
        Ok(encode(&note))
    }

    /// Frames a reply to a request from the peer. On a closed connection it
    /// fails with `Transport`.
    pub fn begin_reply(&self, reply: &Reply) -> (r: Result<Vec<u8>, Error>)
        ensures
            self.spec_closed() ==> r == Err::<Vec<u8>, Error>(Error::Transport),
            !self.spec_closed() ==> (r matches Ok(frame) && frame@ == frame_of(reply.wire_body())),
    {
        if self.closed {
            return Err(Error::Transport);
        }
        Ok(encode(reply))
    }

    /// What the caller of a request gets once its waiter resolves: `None`
    /// means the receive loop dropped the waiter because the connection
    /// failed, which closes it here too.
    pub fn finish_request(&mut self, reply: Option<Response>, allow_empty: bool) -> (r: Result<
        Option<Json>,
        Error,
    >)
        ensures
            reply is None ==> r == Err::<Option<Json>, Error>(Error::Transport)
                && final(self).spec_closed(),
            reply matches Some(resp) ==> r == resolve_spec(resp, allow_empty)
                && *final(self) == *old(self),
            old(self).spec_closed() ==> final(self).spec_closed(),
            final(self).spec_next_id() == old(self).spec_next_id(),
    {
        match reply {
            None => {
                self.closed = true;
                Err(Error::Transport)
            },
            Some(resp) => resolve(resp, allow_empty),
        }
    }
}

} // verus!
