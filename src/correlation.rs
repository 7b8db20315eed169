//! The correlation table: for each outstanding request id, the single-use
//! waiter that its response goes to.
use vstd::prelude::*;
use std::collections::HashMap;
use crate::error::Error;
use crate::msg::inbound::{parse_message, parse_spec, Message, Notification, Request, Response};

verus! {

broadcast use vstd::std_specs::hash::group_hash_axioms;

/// The table after a response for `id` arrives, and the waiter it goes to.
pub open spec fn take_spec<W>(m: Map<u32, W>, id: u32) -> (Map<u32, W>, Option<W>) {
    (m.remove(id), if m.contains_key(id) { Some(m[id]) } else { None })
}

/// The table after registering each of `regs` in order, and the first id
/// that was already outstanding when its turn came. Registering stops there:
/// the waiter already in the table is kept, and the pairs after it are
/// dropped.
pub open spec fn register_spec<W>(m: Map<u32, W>, regs: Seq<(u32, W)>) -> (Map<u32, W>, Option<u32>)
    decreases regs.len(),
{
    if regs.len() == 0 {
        (m, None)
    } else {
        let (m1, fault) = register_spec(m, regs.drop_last());
        if fault is Some {
            (m1, fault)
        } else {
            let (id, w) = regs.last();
            if m1.contains_key(id) {
                (m1, Some(id))
            } else {
                (m1.insert(id, w), None)
            }
        }
    }
}

/// One step of the receive loop on a table `m`: the table afterwards and
/// what to do with the message.
pub open spec fn handle_spec<W>(m: Map<u32, W>, regs: Seq<(u32, W)>, msg: Message) -> (Map<u32, W>, Result<Dispatch<W>, Error>) {
    let (m1, fault) = register_spec(m, regs);
    match fault {
        Some(id) => (m1, Err(Error::CorrelationFault(id))),
        None => match msg {
            Message::Response(resp) => (
                m1.remove(resp.id),
                if m1.contains_key(resp.id) {
                    Ok(Dispatch::Deliver(m1[resp.id], resp))
                } else {
                    Ok(Dispatch::Orphan(resp))
                },
            ),
            Message::Notification(n) => (m1, Ok(Dispatch::Publish(n))),
            Message::Request(q) => (m1, Ok(Dispatch::PeerRequest(q))),
        },
    }
}

/// The table after responses for `ids` arrive in order, and where each of
/// them went.
pub open spec fn run_spec<W>(m: Map<u32, W>, ids: Seq<u32>) -> (Map<u32, W>, Seq<Option<W>>)
    decreases ids.len(),
{
    if ids.len() == 0 {
        (m, Seq::empty())
    } else {
        let (m1, out) = run_spec(m, ids.drop_last());
        let (m2, w) = take_spec(m1, ids.last());
        (m2, out.push(w))
    }
}

/// How many of the responses `ids` handed a waiter out for `k`.
pub open spec fn deliveries<W>(ids: Seq<u32>, out: Seq<Option<W>>, k: u32) -> nat
    decreases ids.len(),
{
    if ids.len() == 0 || out.len() == 0 {
        0
    } else {
        deliveries(ids.drop_last(), out.drop_last(), k) + if ids.last() == k && out.last() is Some {
            1nat
        } else {
            0nat
        }
    }
}

pub proof fn lemma_run_len<W>(m: Map<u32, W>, ids: Seq<u32>)
    ensures
        run_spec(m, ids).1.len() == ids.len(),
    decreases ids.len(),
{
    if ids.len() > 0 {
        lemma_run_len(m, ids.drop_last());
    }
}

/// Whatever responses arrive, and in whatever order, each waiter of the table
/// is handed out exactly once or is still in the table, never both and never
/// twice; ids that were not in the table get nothing.
pub proof fn lemma_single_delivery<W>(m: Map<u32, W>, ids: Seq<u32>, k: u32)
    ensures
        deliveries(ids, run_spec(m, ids).1, k) + (if run_spec(m, ids).0.contains_key(k) {
            1nat
        } else {
            0nat
        }) == if m.contains_key(k) {
            1nat
        } else {
            0nat
        },
    decreases ids.len(),
{
    if ids.len() > 0 {
        lemma_single_delivery(m, ids.drop_last(), k);
        lemma_run_len(m, ids.drop_last());
        let (m1, out) = run_spec(m, ids.drop_last());
        let out2 = run_spec(m, ids).1;
        assert(out2.drop_last() =~= out);
    }
}

/// A response goes to the waiter of its own id, whatever order responses with
/// distinct ids arrive in.
pub proof fn lemma_own_waiter<W>(m: Map<u32, W>, ids: Seq<u32>, i: int)
    requires
        ids.no_duplicates(),
        0 <= i < ids.len(),
    ensures
        run_spec(m, ids).1[i] == (if m.contains_key(ids[i]) {
            Some(m[ids[i]])
        } else {
            None
        }),
    decreases ids.len(),
{
    lemma_run_len(m, ids.drop_last());
    let prefix = ids.drop_last();
    assert(prefix.no_duplicates());
    if i < ids.len() - 1 {
        lemma_own_waiter(m, prefix, i);
    } else {
        lemma_untouched(m, prefix, ids.last());
    }
}

/// Responses for other ids leave the entry of `k` as it was.
pub proof fn lemma_untouched<W>(m: Map<u32, W>, ids: Seq<u32>, k: u32)
    requires
        !ids.contains(k),
    ensures
        run_spec(m, ids).0.contains_key(k) == m.contains_key(k),
        m.contains_key(k) ==> run_spec(m, ids).0[k] == m[k],
    decreases ids.len(),
{
    if ids.len() > 0 {
        assert(!ids.drop_last().contains(k)) by {
            if ids.drop_last().contains(k) {
                let j = choose|j: int| 0 <= j < ids.drop_last().len() && ids.drop_last()[j] == k;
                assert(ids[j] == k);
            }
        }
        assert(ids[ids.len() - 1] != k);
        lemma_untouched(m, ids.drop_last(), k);
    }
}

/// A response whose id has no waiter changes nothing: the responses after it
/// go where they would have gone without it.
pub proof fn lemma_orphan<W>(m: Map<u32, W>, id: u32, rest: Seq<u32>)
    requires
        !m.contains_key(id),
    ensures
        run_spec(m, seq![id] + rest).0 == run_spec(m, rest).0,
        run_spec(m, seq![id] + rest).1 == seq![None::<W>] + run_spec(m, rest).1,
    decreases rest.len(),
{
    if rest.len() == 0 {
        let s = seq![id] + rest;
        assert(s.drop_last() =~= Seq::<u32>::empty());
        assert(run_spec(m, s.drop_last()) == run_spec(m, Seq::<u32>::empty()));
        assert(s.last() == id);
        assert(m.remove(id) =~= m);
        assert(run_spec(m, rest).1 =~= Seq::<Option<W>>::empty());
        assert(run_spec(m, s).1 =~= seq![None::<W>] + run_spec(m, rest).1);
    } else {
        let s = seq![id] + rest;
        assert(s.drop_last() =~= seq![id] + rest.drop_last());
        lemma_orphan(m, id, rest.drop_last());
        assert(s.last() == rest.last());
        assert(run_spec(m, s.drop_last()) == run_spec(m, seq![id] + rest.drop_last()));
        let x = run_spec(m, rest.drop_last()).1;
        let w = take_spec(run_spec(m, rest.drop_last()).0, rest.last()).1;
        assert((seq![None::<W>] + x).push(w) =~= seq![None::<W>] + x.push(w));
        assert(run_spec(m, s).1 =~= seq![None::<W>] + run_spec(m, rest).1);
    }
}

/// What the receive loop does with one message from the peer.
pub enum Dispatch<W> {
    /// Hand the response to the waiter of its id.
    Deliver(W, Response),
    /// No waiter is registered for the response's id: drop it.
    Orphan(Response),
    /// Publish the notification to the current subscribers.
    Publish(Notification),
    /// A request from the peer, for a responder to answer.
    PeerRequest(Request),
}

/// The correlation table. Only the receive loop changes it.
#[verifier::reject_recursive_types(W)]
pub struct Correlator<W> {
    table: HashMap<u32, W>,
}

impl<W> View for Correlator<W> {
    type V = Map<u32, W>;

    closed spec fn view(&self) -> Map<u32, W> {
        self.table@
    }
}

impl<W> Correlator<W> {
    /// An empty table.
    pub fn new() -> (r: Self)
        ensures
            r@ == Map::<u32, W>::empty(),
    {
        Correlator { table: HashMap::new() }
    }

    /// Whether a request with this id is outstanding.
    pub fn is_pending(&self, id: u32) -> (r: bool)
        ensures
            r == self@.contains_key(id),
    {
        self.table.contains_key(&id)
    }

    /// The number of outstanding requests.
    pub fn len(&self) -> (r: usize)
        ensures
            r == self@.len(),
    {
        self.table.len()
    }

    /// Adds the waiter for a newly sent request. An id that is already
    /// outstanding is a fault, and leaves the table as it was.
    pub fn register(&mut self, id: u32, w: W) -> (r: Result<(), Error>)
        ensures
            old(self)@.contains_key(id) ==> (r matches Err(Error::CorrelationFault(i)) && i == id
                && final(self)@ == old(self)@),
            !old(self)@.contains_key(id) ==> (r is Ok && final(self)@ == old(self)@.insert(id, w)),
    {
        if self.table.contains_key(&id) {
            return Err(Error::CorrelationFault(id));
        }
        self.table.insert(id, w);
        Ok(())
    }

    /// Registers every queued `(id, waiter)` pair in order, stopping at the
    /// first id that is already outstanding.
    pub fn register_all(&mut self, regs: Vec<(u32, W)>) -> (r: Result<(), Error>)
        ensures
            final(self)@ == register_spec(old(self)@, regs@).0,
            match register_spec(old(self)@, regs@).1 {
                None => r is Ok,
                Some(id) => (r matches Err(Error::CorrelationFault(i)) && i == id),
            },
    {
        let ghost all = regs@;
        let ghost start = self@;
        let mut queue = regs;
        let total = queue.len();
        let mut i: usize = 0;
        while queue.len() > 0
            invariant
                start == old(self)@,
                all == regs@,
                total == all.len(),
                i + queue@.len() == all.len(),
                queue@ == all.skip(i as int),
                register_spec(start, all.take(i as int)) == (self@, None::<u32>),
            decreases queue@.len(),
        {
            let ghost before = self@;
            let (id, w) = queue.remove(0);
            assert(all.take(i as int + 1).drop_last() =~= all.take(i as int));
            assert(all.take(i as int + 1).last() == (id, w));
            let res = self.register(id, w);
            i = i + 1;
            assert(queue@ =~= all.skip(i as int));
            if res.is_err() {
                proof {
                    assert(before.contains_key(id));
                    assert(register_spec(start, all.take(i as int)) == (before, Some(id)));
                    lemma_register_stops(start, all, i as int);
                }
                return res;
            }
        }
        assert(all.take(i as int) =~= all);
        Ok(())
    }

    /// Hands out the waiter for `id` and forgets it; `None` for an id with no
    /// waiter, which leaves the table as it was.
    pub fn take(&mut self, id: u32) -> (r: Option<W>)
        ensures
            (final(self)@, r) == take_spec(old(self)@, id),
    {
        let r = self.table.remove(&id);
        assert(final(self)@ =~= old(self)@.remove(id));
        r
    }
}

/// Once registering fails, registering more pairs changes nothing.
proof fn lemma_register_stops<W>(m: Map<u32, W>, regs: Seq<(u32, W)>, i: int)
    requires
        0 < i <= regs.len(),
        register_spec(m, regs.take(i)).1 is Some,
    ensures
        register_spec(m, regs) == register_spec(m, regs.take(i)),
    decreases regs.len() - i,
{
    if i < regs.len() {
        assert(regs.take(i + 1).drop_last() =~= regs.take(i));
        lemma_register_stops(m, regs, i + 1);
    } else {
        assert(regs.take(i) =~= regs);
    }
}

impl<W> Correlator<W> {
    /// One step of the receive loop: registers the queued waiters first, so
    /// that no response can overtake the registration of its request, then
    /// routes the message.
    pub fn handle_msg(&mut self, regs: Vec<(u32, W)>, msg: Message) -> (r: Result<Dispatch<W>, Error>)
        ensures
            (final(self)@, r) == handle_spec(old(self)@, regs@, msg),
    {
        match self.register_all(regs) {
            Err(e) => {
                return Err(e);
            },
            Ok(()) => {},
        }
        match msg {
            Message::Response(resp) => match self.take(resp.id) {
                Some(w) => Ok(Dispatch::Deliver(w, resp)),
                None => Ok(Dispatch::Orphan(resp)),
            },
            Message::Notification(n) => Ok(Dispatch::Publish(n)),
            Message::Request(q) => Ok(Dispatch::PeerRequest(q)),
        }
    }

    /// Handles the body of one frame. A body that is not a message is a
    /// framing fault, which leaves the table as it was.
    pub fn handle_body(&mut self, regs: Vec<(u32, W)>, body: &[u8]) -> (r: Result<Dispatch<W>, Error>)
        ensures
            match parse_spec(body@) {
                Err(e) => r == Err::<Dispatch<W>, Error>(Error::Framing(e)) && final(self)@ == old(self)@,
                Ok(msg) => (final(self)@, r) == handle_spec(old(self)@, regs@, msg),
            },
    {
        match parse_message(body) {
            Err(e) => Err(Error::Framing(e)),
            Ok(msg) => self.handle_msg(regs, msg),
        }
    }
}

} // verus!
