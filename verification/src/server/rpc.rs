//! Bookkeeping of requests that wait for the container's answer: each
//! request id maps to whoever waits for it, and an answer goes to the
//! waiter of its id, once.
use vstd::prelude::*;
use std::collections::HashMap;

verus! {

broadcast use vstd::std_specs::hash::group_hash_axioms;

/// Why waiting for an answer ended without one.
pub enum RpcError {
    Timeout,
    Stopped,
    RecvErr,
}

impl RpcError {
    /// The text the error displays.
    pub fn message(&self) -> (r: &'static str)
        ensures
            r@ == rpc_error_message(*self),
    {
        match self {
            RpcError::Timeout => "rpc timed out",
            RpcError::Stopped => "container stopped during rpc",
            RpcError::RecvErr => "failed to receive response",
        }
    }
}

pub open spec fn rpc_error_message(e: RpcError) -> Seq<char> {
    match e {
        RpcError::Timeout => "rpc timed out"@,
        RpcError::Stopped => "container stopped during rpc"@,
        RpcError::RecvErr => "failed to receive response"@,
    }
}

/// Pending requests, by request id, each with the handle (such as the
/// sending half of a one-shot channel) that its answer is delivered through.
pub struct RpcRecords<W> {
    records: HashMap<u128, W>,
}

/// The waiting records after a request registers its waiter.
pub open spec fn registered<W>(m: Map<u128, W>, id: u128, waiter: W) -> Map<u128, W> {
    m.insert(id, waiter)
}

/// The waiter that an answer for `id` goes to, and the records after it.
pub open spec fn delivered<W>(m: Map<u128, W>, id: u128) -> (Option<W>, Map<u128, W>) {
    if m.contains_key(id) {
        (Some(m[id]), m.remove(id))
    } else {
        (None, m)
    }
}

impl<W> RpcRecords<W> {
    pub closed spec fn view(&self) -> Map<u128, W> {
        self.records@
    }

    pub fn new() -> (r: Self)
        ensures
            r.view() == Map::<u128, W>::empty(),
    {
        RpcRecords { records: HashMap::new() }
    }

    /// Registers the waiter of request `id` (a second registration for the
    /// same id replaces the first).
    pub fn await_response(&mut self, id: u128, waiter: W)
        ensures
            final(self).view() == registered(old(self).view(), id, waiter),
    {
        self.records.insert(id, waiter);
    }

    /// Takes the waiter that the answer to request `id` is to be delivered
    /// to; an answer whose id nobody waits for goes nowhere.
    pub fn handle_incoming(&mut self, id: u128) -> (r: Option<W>)
        ensures
            (r, final(self).view()) == delivered(old(self).view(), id),
    {
        self.records.remove(&id)
    }

}

/// An answer reaches the waiter that registered for its id.
pub proof fn answer_reaches_its_waiter<W>(m: Map<u128, W>, id: u128, waiter: W)
    ensures
        delivered(registered(m, id, waiter), id).0 == Some(waiter),
{
}

/// Each waiter gets at most one answer: once an answer for `id` was
/// delivered, a second one finds nobody.
pub proof fn answer_delivered_once<W>(m: Map<u128, W>, id: u128)
    ensures
        delivered(delivered(m, id).1, id).0 is None,
{
}

/// Answers for one request leave the waiters of the others in place.
pub proof fn answers_leave_other_waiters<W>(m: Map<u128, W>, id: u128, other: u128)
    requires
        other != id,
    ensures
        delivered(m, id).1.contains_key(other) == m.contains_key(other),
        m.contains_key(other) ==> delivered(m, id).1[other] == m[other],
{
}

} // verus!

verus! {

/// What the container's answer text to a request says, read the way
/// `serde_json::from_str::<Result<serde_json::Value, String>>` reads it:
/// `None` where the text is no such JSON; otherwise the procedure's outcome,
/// a successful value given by the unsigned integer it is (a pty id), if it
/// is one (`serde_json::Value::as_u64`).
pub uninterp spec fn rpc_answer_of(text: Seq<char>) -> Option<Result<Option<u64>, Seq<char>>>;

/// A parsed answer as a value.
pub open spec fn answer_view(a: Option<Result<Option<u64>, String>>) -> Option<Result<Option<u64>, Seq<char>>> {
    match a {
        None => None,
        Some(Ok(v)) => Some(Ok(v)),
        Some(Err(e)) => Some(Err(e@)),
    }
}

/// Parses the container's answer text with `serde_json::from_str` into
/// `Result<serde_json::Value, String>`, and reads a successful value as an
/// unsigned integer where it is one. JSON parsing is `serde_json`'s; the
/// result is named.
#[verifier::external_body]
pub(crate) fn parse_rpc_answer(text: &str) -> (r: Option<Result<Option<u64>, String>>)
    ensures
        answer_view(r) == rpc_answer_of(text@),
{
    match serde_json::from_str::<Result<serde_json::Value, String>>(text) {
        Ok(Ok(value)) => Some(Ok(value.as_u64())),
        Ok(Err(e)) => Some(Err(e)),
        Err(_) => None,
    }
}

} // verus!
