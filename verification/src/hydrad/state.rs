//! The agent's registry of running terminals (ptys) and of the WebSocket
//! connections it has opened to the user's program. Ptys get ids from a
//! counter; WebSocket connections are registered under ids given to them.
//!
//! The registry is generic over the handles it keeps: `P` for a pty's
//! command channel, `S` for a WebSocket connection's command channel.
use vstd::prelude::*;
use std::collections::HashMap;
use crate::text::{decimal, decimal_string, owned, push_str};

verus! {

broadcast use vstd::std_specs::hash::group_hash_axioms;

pub struct State<P, S> {
    ptys: HashMap<u32, P>,
    websocket_commands: HashMap<u32, S>,
    next_pty_id: u32,
}

/// The registry as a value.
pub struct StateView<P, S> {
    pub ptys: Map<u32, P>,
    pub websockets: Map<u32, S>,
    pub next_pty_id: u32,
}

/// The id that follows `id`: the counter wraps around like `AtomicU32::fetch_add`.
pub open spec fn following_id(id: u32) -> u32 {
    if id == u32::MAX { 0 } else { (id + 1) as u32 }
}

/// The message of a lookup for an unknown pty.
pub open spec fn no_pty_message(id: u32) -> Seq<char> {
    "No pty found for id: "@ + decimal(id as nat)
}

/// The message of a lookup for an unknown WebSocket connection.
pub open spec fn no_websocket_message(id: u32) -> Seq<char> {
    "No websocket found for id: "@ + decimal(id as nat)
}

fn missing(prefix: &str, id: u32) -> (r: String)
    ensures
        r@ == prefix@ + decimal(id as nat),
{
    let mut m = owned(prefix);
    let digits = decimal_string(id as u64);
    push_str(&mut m, digits.as_str());
    m
}

impl<P, S> State<P, S> {
    pub closed spec fn view(&self) -> StateView<P, S> {
        StateView { ptys: self.ptys@, websockets: self.websocket_commands@, next_pty_id: self.next_pty_id }
    }

    /// An empty registry whose first pty gets `first_pty_id`.
    pub fn new(first_pty_id: u32) -> (r: Self)
        ensures
            r.view().ptys == Map::<u32, P>::empty(),
            r.view().websockets == Map::<u32, S>::empty(),
            r.view().next_pty_id == first_pty_id,
    {
        State { ptys: HashMap::new(), websocket_commands: HashMap::new(), next_pty_id: first_pty_id }
    }

    /// Registers a pty under the next id and returns that id.
    pub fn register_pty(&mut self, pty: P) -> (id: u32)
        ensures
            id == old(self).view().next_pty_id,
            final(self).view() == (StateView {
                ptys: old(self).view().ptys.insert(id, pty),
                websockets: old(self).view().websockets,
                next_pty_id: following_id(id),
            }),
    {
        let id = self.next_pty_id;
        self.next_pty_id = if id == u32::MAX { 0 } else { id + 1 };
        self.ptys.insert(id, pty);
        id
    }

    pub fn remove_pty(&mut self, id: u32)
        ensures
            final(self).view() == (StateView { ptys: old(self).view().ptys.remove(id), ..old(self).view() }),
    {
        self.ptys.remove(&id);
    }

    pub fn get_pty(&self, id: u32) -> (r: Option<&P>)
        ensures
            match r {
                Some(p) => self.view().ptys.contains_key(id) && *p == self.view().ptys[id],
                None => !self.view().ptys.contains_key(id),
            },
    {
        self.ptys.get(&id)
    }

    /// The pty that a command for `id` goes to, or the error
    /// "No pty found for id: <id>".
    pub fn send_pty_command(&self, id: u32) -> (r: Result<&P, String>)
        ensures
            match r {
                Ok(p) => self.view().ptys.contains_key(id) && *p == self.view().ptys[id],
                Err(m) => !self.view().ptys.contains_key(id) && m@ == no_pty_message(id),
            },
    {
        match self.ptys.get(&id) {
            Some(p) => Ok(p),
            None => Err(missing("No pty found for id: ", id)),
        }
    }

    pub fn add_websocket(&mut self, id: u32, websocket: S)
        ensures
            final(self).view() == (StateView {
                websockets: old(self).view().websockets.insert(id, websocket),
                ..old(self).view()
            }),
    {
        self.websocket_commands.insert(id, websocket);
    }

    /// The connection that a message for `id` goes to, or the error
    /// "No websocket found for id: <id>".
    pub fn send_ws_message(&self, id: u32) -> (r: Result<&S, String>)
        ensures
            match r {
                Ok(s) => self.view().websockets.contains_key(id) && *s == self.view().websockets[id],
                Err(m) => !self.view().websockets.contains_key(id) && m@ == no_websocket_message(id),
            },
    {
        match self.websocket_commands.get(&id) {
            Some(s) => Ok(s),
            None => Err(missing("No websocket found for id: ", id)),
        }
    }

    pub fn remove_websocket(&mut self, id: u32)
        ensures
            final(self).view() == (StateView {
                websockets: old(self).view().websockets.remove(id),
                ..old(self).view()
            }),
    {
        self.websocket_commands.remove(&id);
    }
}

/// The pty registered last is the one that commands for its id reach.
pub proof fn registered_pty_is_found<P, S>(v: StateView<P, S>, pty: P)
    ensures
        v.ptys.insert(v.next_pty_id, pty).contains_key(v.next_pty_id),
        v.ptys.insert(v.next_pty_id, pty)[v.next_pty_id] == pty,
{
}

/// Two registrations in a row give different ids.
pub proof fn successive_ids_differ(id: u32)
    ensures
        following_id(id) != id,
{
}

/// The id that the registration `n` steps after the counter stood at
/// `first` gets: each registration takes the counter and moves it on.
pub open spec fn nth_pty_id(first: u32, n: nat) -> u32
    decreases n,
{
    if n == 0 { first } else { following_id(nth_pty_id(first, (n - 1) as nat)) }
}

proof fn lemma_following_mod(a: int, x: int)
    by (nonlinear_arith)
    requires
        a >= 0,
        x == a % 0x1_0000_0000,
    ensures
        (a + 1) % 0x1_0000_0000 == (if x == 0xffff_ffff { 0 } else { x + 1 }),
{
}

proof fn lemma_nth_pty_id(first: u32, n: nat)
    ensures
        nth_pty_id(first, n) as int == (first + n) % 0x1_0000_0000,
    decreases n,
{
    if n == 0 {
        assert((first + 0) % 0x1_0000_0000 == first as int) by (nonlinear_arith)
            requires first < 0x1_0000_0000;
    } else {
        lemma_nth_pty_id(first, (n - 1) as nat);
        lemma_following_mod(first + n - 1, nth_pty_id(first, (n - 1) as nat) as int);
    }
}

proof fn lemma_mod_distinct(a: int, b: int)
    by (nonlinear_arith)
    requires
        0 <= a < b < a + 0x1_0000_0000,
    ensures
        a % 0x1_0000_0000 != b % 0x1_0000_0000,
{
}

/// Pty ids stay distinct: of fewer than 2^32 registrations in a row, no
/// two get the same id.
pub proof fn pty_ids_stay_distinct(first: u32, i: nat, j: nat)
    requires
        i < j < 0x1_0000_0000,
    ensures
        nth_pty_id(first, i) != nth_pty_id(first, j),
{
    lemma_nth_pty_id(first, i);
    lemma_nth_pty_id(first, j);
    lemma_mod_distinct(first + i, first + j);
}

/// The registry after registering `ptys` in order, as `register_pty` does
/// each: the pty goes under the counter's id and the counter moves on.
pub open spec fn after_registrations<P, S>(v: StateView<P, S>, ptys: Seq<P>) -> StateView<P, S>
    decreases ptys.len(),
{
    if ptys.len() == 0 {
        v
    } else {
        let w = after_registrations(v, ptys.drop_last());
        StateView {
            ptys: w.ptys.insert(w.next_pty_id, ptys.last()),
            websockets: w.websockets,
            next_pty_id: following_id(w.next_pty_id),
        }
    }
}

proof fn lemma_after_registrations<P, S>(v: StateView<P, S>, ptys: Seq<P>)
    ensures
        after_registrations(v, ptys).next_pty_id == nth_pty_id(v.next_pty_id, ptys.len()),
    decreases ptys.len(),
{
    if ptys.len() > 0 {
        lemma_after_registrations(v, ptys.drop_last());
    }
}

/// Ptys registered one after another get distinct ids as long as fewer than
/// 2^32 registrations separate them: the `i`-th and the `j`-th of a run of
/// registrations (the id of each being the counter before it) differ.
/// Removals and WebSocket changes leave the counter as it is.
pub proof fn registered_ptys_get_distinct_ids<P, S>(v: StateView<P, S>, ptys: Seq<P>, i: int, j: int)
    requires
        0 <= i < j < ptys.len(),
        ptys.len() <= 0x1_0000_0000,
    ensures
        after_registrations(v, ptys.take(i)).next_pty_id != after_registrations(v, ptys.take(j)).next_pty_id,
{
    lemma_after_registrations(v, ptys.take(i));
    lemma_after_registrations(v, ptys.take(j));
    pty_ids_stay_distinct(v.next_pty_id, i as nat, j as nat);
}

/// After a pty is removed, commands for its id find nothing, and the other
/// ptys stay.
pub proof fn removed_pty_is_gone<P, S>(v: StateView<P, S>, id: u32, other: u32)
    requires
        other != id,
    ensures
        !v.ptys.remove(id).contains_key(id),
        v.ptys.remove(id).contains_key(other) == v.ptys.contains_key(other),
{
}

} // verus!
