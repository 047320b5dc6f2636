//! Finding the server that runs a session. Servers record
//! `session:<uuid>` → their address in redis; the proxy remembers the
//! answers in an LRU cache so that most requests need no lookup.
use vstd::prelude::*;
use crate::text::{owned, push_str};

verus! {

#[verifier::external_type_specification]
#[verifier::external_body]
#[verifier::reject_recursive_types(K)]
#[verifier::reject_recursive_types(V)]
#[verifier::reject_recursive_types(S)]
pub struct ExLruCache<K, V, S>(lru::LruCache<K, V, S>);

#[verifier::external_type_specification]
#[verifier::external_body]
pub struct ExLruDefaultHasher(lru::DefaultHasher);

/// The cache of server addresses, by session.
pub type AddressCache = lru::LruCache<u128, String>;

/// What an address cache holds: session → server address.
pub uninterp spec fn lru_entries(c: lru::LruCache<u128, String>) -> Map<u128, Seq<char>>;

/// The keys of an address cache from the most recently used to the least
/// recently used (lru's list, head to tail).
pub uninterp spec fn lru_order(c: lru::LruCache<u128, String>) -> Seq<u128>;

/// `s` without the occurrences of `k`, the rest in order.
pub open spec fn without(s: Seq<u128>, k: u128) -> Seq<u128>
    decreases s.len(),
{
    if s.len() == 0 {
        s
    } else if s.last() == k {
        without(s.drop_last(), k)
    } else {
        without(s.drop_last(), k).push(s.last())
    }
}

/// `s` with `k` moved to (or put at) the front: what using a key does to
/// the recency order.
pub open spec fn to_front(s: Seq<u128>, k: u128) -> Seq<u128> {
    seq![k] + without(s, k)
}

/// The recency order lists each remembered session exactly once.
pub open spec fn order_matches(m: Map<u128, Seq<char>>, order: Seq<u128>) -> bool {
    &&& order.no_duplicates()
    &&& forall|x: u128| #[trigger] order.contains(x) <==> m.dom().contains(x)
}

proof fn lemma_without(s: Seq<u128>, k: u128)
    ensures
        forall|x: u128| #[trigger] without(s, k).contains(x) <==> (s.contains(x) && x != k),
        s.no_duplicates() ==> without(s, k).no_duplicates(),
    decreases s.len(),
{
    if s.len() > 0 {
        let p = s.drop_last();
        lemma_without(p, k);
        assert forall|x: u128| #[trigger] s.contains(x) <==> (p.contains(x) || x == s.last()) by {
            if s.contains(x) {
                let i = choose|i: int| 0 <= i < s.len() && s[i] == x;
                if i < s.len() - 1 {
                    assert(p[i] == x);
                }
            }
            if p.contains(x) {
                let i = choose|i: int| 0 <= i < p.len() && p[i] == x;
                assert(s[i] == x);
            }
            if x == s.last() {
                assert(s[s.len() - 1] == x);
            }
        }
        if s.last() != k {
            let w = without(p, k);
            let v = w.push(s.last());
            assert forall|x: u128| #[trigger] v.contains(x) <==> (w.contains(x) || x == s.last()) by {
                if v.contains(x) {
                    let i = choose|i: int| 0 <= i < v.len() && v[i] == x;
                    if i < w.len() {
                        assert(w[i] == x);
                    }
                }
                if w.contains(x) {
                    let i = choose|i: int| 0 <= i < w.len() && w[i] == x;
                    assert(v[i] == x);
                }
                if x == s.last() {
                    assert(v[w.len() as int] == x);
                }
            }
            if s.no_duplicates() {
                assert(p.no_duplicates()) by {
                    assert forall|i: int, j: int| 0 <= i < p.len() && 0 <= j < p.len() && i != j implies p[i] != p[j] by {
                        assert(p[i] == s[i] && p[j] == s[j]);
                    }
                }
                assert(!p.contains(s.last())) by {
                    if p.contains(s.last()) {
                        let i = choose|i: int| 0 <= i < p.len() && p[i] == s.last();
                        assert(s[i] == s[s.len() - 1]);
                    }
                }
                assert(!w.contains(s.last()));
                assert forall|i: int, j: int| 0 <= i < v.len() && 0 <= j < v.len() && i != j implies v[i] != v[j] by {
                    if i < w.len() && j < w.len() {
                    } else if i < w.len() {
                        assert(w.contains(w[i]));
                    } else if j < w.len() {
                        assert(w.contains(w[j]));
                    }
                }
            }
        } else if s.no_duplicates() {
            assert(p.no_duplicates()) by {
                assert forall|i: int, j: int| 0 <= i < p.len() && 0 <= j < p.len() && i != j implies p[i] != p[j] by {
                    assert(p[i] == s[i] && p[j] == s[j]);
                }
            }
        }
    }
}

/// Putting a key at the front keeps the order listing each key once.
proof fn lemma_to_front(s: Seq<u128>, k: u128)
    requires
        s.no_duplicates(),
    ensures
        to_front(s, k).no_duplicates(),
        forall|x: u128| #[trigger] to_front(s, k).contains(x) <==> (s.contains(x) || x == k),
{
    lemma_without(s, k);
    let w = without(s, k);
    let t = to_front(s, k);
    assert forall|x: u128| #[trigger] t.contains(x) <==> (w.contains(x) || x == k) by {
        if t.contains(x) {
            let i = choose|i: int| 0 <= i < t.len() && t[i] == x;
            if i > 0 {
                assert(w[i - 1] == x);
            }
        }
        if w.contains(x) {
            let i = choose|i: int| 0 <= i < w.len() && w[i] == x;
            assert(t[i + 1] == x);
        }
        if x == k {
            assert(t[0] == x);
        }
    }
    assert forall|i: int, j: int| 0 <= i < t.len() && 0 <= j < t.len() && i != j implies t[i] != t[j] by {
        if i > 0 && j > 0 {
            assert(t[i] == w[i - 1] && t[j] == w[j - 1]);
        } else if i == 0 {
            assert(t[j] == w[j - 1]);
            assert(w.contains(w[j - 1]));
        } else {
            assert(t[i] == w[i - 1]);
            assert(w.contains(w[i - 1]));
        }
    }
}

/// Dropping the least recent key of an order that lists each key once.
proof fn lemma_drop_last(s: Seq<u128>)
    requires
        s.no_duplicates(),
        s.len() > 0,
    ensures
        s.drop_last().no_duplicates(),
        forall|x: u128| #[trigger] s.drop_last().contains(x) <==> (s.contains(x) && x != s.last()),
{
    let p = s.drop_last();
    assert forall|i: int, j: int| 0 <= i < p.len() && 0 <= j < p.len() && i != j implies p[i] != p[j] by {
        assert(p[i] == s[i] && p[j] == s[j]);
    }
    assert forall|x: u128| #[trigger] p.contains(x) <==> (s.contains(x) && x != s.last()) by {
        if p.contains(x) {
            let i = choose|i: int| 0 <= i < p.len() && p[i] == x;
            assert(s[i] == x);
            assert(s[i] != s[s.len() - 1]);
        }
        if s.contains(x) && x != s.last() {
            let i = choose|i: int| 0 <= i < s.len() && s[i] == x;
            assert(i != s.len() - 1);
            assert(p[i] == x);
        }
    }
}

/// The number of entries the cache was made to hold.
pub uninterp spec fn lru_capacity(c: lru::LruCache<u128, String>) -> nat;

/// A cache that remembers nothing.
pub open spec fn no_entries(m: Map<u128, Seq<char>>) -> bool {
    m == Map::<u128, Seq<char>>::empty()
}

/// How many addresses the proxy remembers.
pub const CACHE_CAPACITY: usize = 10000;

/// Makes an empty cache with `lru::LruCache::new`, holding at most `cap`
/// entries.
#[verifier::external_body]
fn lru_new(cap: usize) -> (c: AddressCache)
    requires
        cap > 0,
    ensures
        no_entries(lru_entries(c)),
        lru_order(c) == Seq::<u128>::empty(),
        lru_capacity(c) == cap,
{
    lru::LruCache::new(std::num::NonZeroUsize::new(cap).unwrap())
}

/// Looks an entry up with `lru::LruCache::get`, which moves a found key to
/// the front of the recency order; the entries themselves stay as they were.
#[verifier::external_body]
fn lru_get(c: &mut lru::LruCache<u128, String>, k: u128) -> (r: Option<String>)
    ensures
        lru_entries(*final(c)) == lru_entries(*old(c)),
        lru_order(*final(c)) == (if lru_entries(*old(c)).dom().contains(k) {
            to_front(lru_order(*old(c)), k)
        } else {
            lru_order(*old(c))
        }),
        lru_capacity(*final(c)) == lru_capacity(*old(c)),
        match r {
            Some(v) => lru_entries(*old(c)).dom().contains(k) && lru_entries(*old(c))[k] == v@,
            None => !lru_entries(*old(c)).dom().contains(k),
        },
{
    c.get(&k).cloned()
}

/// Inserts an entry with `lru::LruCache::push`, which puts the key at the
/// front of the recency order. A present key gets the new value; otherwise,
/// a full cache drops its least recently used entry, the last of the order.
#[verifier::external_body]
fn lru_push(c: &mut lru::LruCache<u128, String>, k: u128, v: String) -> (r: Option<(u128, String)>)
    requires
        lru_entries(*old(c)).dom().finite(),
        lru_entries(*old(c)).len() <= lru_capacity(*old(c)),
        lru_capacity(*old(c)) > 0,
    ensures
        lru_capacity(*final(c)) == lru_capacity(*old(c)),
        lru_entries(*old(c)).dom().contains(k) ==> {
            &&& lru_entries(*final(c)) == lru_entries(*old(c)).insert(k, v@)
            &&& lru_order(*final(c)) == to_front(lru_order(*old(c)), k)
            &&& r matches Some((rk, rv)) && rk == k && rv@ == lru_entries(*old(c))[k]
        },
        !lru_entries(*old(c)).dom().contains(k) && lru_entries(*old(c)).len() < lru_capacity(*old(c)) ==> {
            &&& lru_entries(*final(c)) == lru_entries(*old(c)).insert(k, v@)
            &&& lru_order(*final(c)) == to_front(lru_order(*old(c)), k)
            &&& r is None
        },
        !lru_entries(*old(c)).dom().contains(k) && lru_entries(*old(c)).len() >= lru_capacity(*old(c)) ==> {
            &&& r matches Some((rk, rv))
            &&& rk == lru_order(*old(c)).last()
            &&& lru_entries(*old(c)).dom().contains(rk)
            &&& lru_entries(*old(c))[rk] == rv@
            &&& lru_entries(*final(c)) == lru_entries(*old(c)).remove(rk).insert(k, v@)
            &&& lru_order(*final(c)) == seq![k] + lru_order(*old(c)).drop_last()
        },
{
    c.push(k, v)
}

/// The proxy's memory of where sessions run.
pub struct ServerIpResolver {
    cache: lru::LruCache<u128, String>,
}

impl ServerIpResolver {
    /// The session → address pairs that the resolver remembers.
    pub closed spec fn entries(&self) -> Map<u128, Seq<char>> {
        lru_entries(self.cache)
    }

    /// The remembered sessions from the most recently used to the least.
    pub closed spec fn order(&self) -> Seq<u128> {
        lru_order(self.cache)
    }

    /// The cache is finite and within the capacity it was made with, and its
    /// recency order lists each remembered session once.
    pub closed spec fn wf(&self) -> bool {
        &&& order_matches(lru_entries(self.cache), lru_order(self.cache))
        &&& lru_entries(self.cache).dom().finite()
        &&& lru_entries(self.cache).len() <= lru_capacity(self.cache)
        &&& lru_capacity(self.cache) == CACHE_CAPACITY
    }

    pub fn new() -> (r: Self)
        ensures
            r.wf(),
            r.entries() == Map::<u128, Seq<char>>::empty(),
            r.order() == Seq::<u128>::empty(),
    {
        ServerIpResolver { cache: lru_new(CACHE_CAPACITY) }
    }

    /// The first step of resolving a session's server: the remembered
    /// address, if any. Where this gives `None`, the caller asks redis for
    /// `session:<uuid>` and hands the answer to `remember`.
    pub fn cached(&mut self, session_id: u128) -> (r: Option<String>)
        requires
            old(self).wf(),
        ensures
            final(self).wf(),
            final(self).entries() == old(self).entries(),
            match r {
                Some(ip) => {
                    &&& lookup(old(self).entries(), session_id) == Some(ip@)
                    &&& final(self).order() == to_front(old(self).order(), session_id)
                },
                None => {
                    &&& lookup(old(self).entries(), session_id) is None
                    &&& final(self).order() == old(self).order()
                },
            },
    {
        let r = lru_get(&mut self.cache, session_id);
        proof {
            if lru_entries(old(self).cache).dom().contains(session_id) {
                lemma_to_front(lru_order(old(self).cache), session_id);
            }
        }
        r
    }

    /// The second step: remembers what redis answered (when it knew the
    /// session) and hands the answer on. A full cache may forget one other
    /// session to make room.
    pub fn remember(&mut self, session_id: u128, looked_up: Option<String>) -> (r: Option<String>)
        requires
            old(self).wf(),
        ensures
            final(self).wf(),
            r == looked_up,
            match looked_up {
                Some(ip) => remembered(
                    old(self).entries(),
                    old(self).order(),
                    final(self).entries(),
                    final(self).order(),
                    session_id,
                    ip@,
                ),
                None => final(self).entries() == old(self).entries() && final(self).order() == old(self).order(),
            },
    {
        match looked_up {
            Some(ip) => {
                let stored = owned(ip.as_str());
                let _ = lru_push(&mut self.cache, session_id, stored);
                proof {
                    let o = lru_entries(old(self).cache);
                    let f = lru_entries(self.cache);
                    let oo = lru_order(old(self).cache);
                    let fo = lru_order(self.cache);
                    if !o.dom().contains(session_id) && o.len() >= lru_capacity(old(self).cache) {
                        let rk = oo.last();
                        assert(o.remove(rk).len() == o.len() - 1);
                        assert(oo.len() > 0) by {
                            assert(o.len() > 0);
                            assert(o.dom().contains(rk));
                            if oo.len() == 0 {
                                assert(!oo.contains(rk));
                            }
                        }
                        lemma_drop_last(oo);
                        let d = oo.drop_last();
                        assert(!d.contains(session_id));
                        assert(fo.no_duplicates()) by {
                            assert forall|i: int, j: int| 0 <= i < fo.len() && 0 <= j < fo.len() && i != j implies fo[i] != fo[j] by {
                                if i > 0 && j > 0 {
                                    assert(fo[i] == d[i - 1] && fo[j] == d[j - 1]);
                                } else if i == 0 {
                                    assert(fo[j] == d[j - 1]);
                                    assert(d.contains(d[j - 1]));
                                } else {
                                    assert(fo[i] == d[i - 1]);
                                    assert(d.contains(d[i - 1]));
                                }
                            }
                        }
                        assert forall|x: u128| #[trigger] fo.contains(x) <==> f.dom().contains(x) by {
                            if fo.contains(x) {
                                let i = choose|i: int| 0 <= i < fo.len() && fo[i] == x;
                                if i > 0 {
                                    assert(d[i - 1] == x);
                                    assert(d.contains(x));
                                    assert(oo.contains(x));
                                    assert(o.dom().contains(x));
                                }
                            }
                            if f.dom().contains(x) && x != session_id {
                                assert(o.dom().contains(x) && x != rk);
                                assert(oo.contains(x));
                                assert(d.contains(x));
                                let i = choose|i: int| 0 <= i < d.len() && d[i] == x;
                                assert(fo[i + 1] == x);
                            }
                            if x == session_id {
                                assert(fo[0] == x);
                            }
                        }
                    } else {
                        lemma_to_front(oo, session_id);
                    }
                }
                Some(ip)
            },
            None => None,
        }
    }
}

/// The address remembered for a session.
pub open spec fn lookup(entries: Map<u128, Seq<char>>, session_id: u128) -> Option<Seq<char>> {
    if entries.dom().contains(session_id) { Some(entries[session_id]) } else { None }
}

/// `after` is `before` with `session_id` now pointing at `ip`, and the
/// session now the most recently used. Where the session was new and the
/// cache full, the least recently used session (the last of the order) is
/// forgotten to make room; otherwise every other session is kept.
pub open spec fn remembered(
    before: Map<u128, Seq<char>>,
    before_order: Seq<u128>,
    after: Map<u128, Seq<char>>,
    after_order: Seq<u128>,
    session_id: u128,
    ip: Seq<char>,
) -> bool {
    if !before.dom().contains(session_id) && before.len() >= CACHE_CAPACITY {
        &&& after == before.remove(before_order.last()).insert(session_id, ip)
        &&& after_order == seq![session_id] + before_order.drop_last()
    } else {
        &&& after == before.insert(session_id, ip)
        &&& after_order == to_front(before_order, session_id)
    }
}

/// Once a session's address has been remembered, the next lookup of that
/// session is answered from the cache with that address.
pub proof fn remembered_address_is_found(
    before: Map<u128, Seq<char>>,
    before_order: Seq<u128>,
    after: Map<u128, Seq<char>>,
    after_order: Seq<u128>,
    session_id: u128,
    ip: Seq<char>,
)
    requires
        remembered(before, before_order, after, after_order, session_id, ip),
    ensures
        lookup(after, session_id) == Some(ip),
{
}

/// Remembering never invents an address: whatever the cache answers for
/// another session afterwards, it answered before.
pub proof fn remembering_keeps_other_answers(
    before: Map<u128, Seq<char>>,
    before_order: Seq<u128>,
    after: Map<u128, Seq<char>>,
    after_order: Seq<u128>,
    session_id: u128,
    ip: Seq<char>,
    other: u128,
)
    requires
        remembered(before, before_order, after, after_order, session_id, ip),
        other != session_id,
        lookup(after, other) is Some,
    ensures
        lookup(after, other) == lookup(before, other),
{
}

/// Remembering forgets no other session while the cache has room; when it
/// is full, it forgets exactly the least recently used one and keeps every
/// other.
pub proof fn remembering_forgets_only_the_least_recent(
    before: Map<u128, Seq<char>>,
    before_order: Seq<u128>,
    after: Map<u128, Seq<char>>,
    after_order: Seq<u128>,
    session_id: u128,
    ip: Seq<char>,
    other: u128,
)
    requires
        order_matches(before, before_order),
        remembered(before, before_order, after, after_order, session_id, ip),
        other != session_id,
        before.dom().contains(other),
    ensures
        before.len() < CACHE_CAPACITY ==> lookup(after, other) == lookup(before, other),
        lookup(after, other) is None <==> (!before.dom().contains(session_id) && before.len() >= CACHE_CAPACITY
            && other == before_order.last()),
{
}

/// Where the proxy forwards a session's traffic: port 3100 of the session's
/// server, an IPv6 address (one with a `:`) written in brackets.
pub open spec fn authority_spec(ip: Seq<char>) -> Seq<char> {
    if ip.contains(':') {
        "["@ + ip + "]:3100"@
    } else {
        ip + ":3100"@
    }
}

/// Whether `s` holds the character `c`.
pub fn contains_char(s: &str, c: char) -> (r: bool)
    ensures
        r == s@.contains(c),
{
    let v = crate::text::chars_of(s);
    let mut i: usize = 0;
    while i < v.len()
        invariant
            v@ == s@,
            i <= v@.len(),
            forall|j: int| 0 <= j < i ==> v@[j] != c,
        decreases v@.len() - i,
    {
        if v[i] == c {
            assert(v@[i as int] == c);
            return true;
        }
        i = i + 1;
    }
    false
}

/// The authority (`host:port`) of the server that runs a session, given the
/// address that resolving the session gave: `None` where the session is
/// unknown.
pub fn resolve_server_authority(server_ip: Option<String>) -> (r: Option<String>)
    ensures
        match server_ip {
            Some(ip) => r matches Some(a) && a@ == authority_spec(ip@)
                && (ip@.contains(':') ==> a@ == "["@ + ip@ + "]:3100"@)
                && (!ip@.contains(':') ==> a@ == ip@ + ":3100"@),
            None => r is None,
        },
{
    match server_ip {
        None => None,
        Some(ip) => {
            if contains_char(ip.as_str(), ':') {
                let mut a = owned("[");
                push_str(&mut a, ip.as_str());
                push_str(&mut a, "]:3100");
                Some(a)
            } else {
                let mut a = owned(ip.as_str());
                push_str(&mut a, ":3100");
                Some(a)
            }
        },
    }
}

/// Any address with a ':' in it (an IPv6 address, however written) is put
/// in brackets before the port; any other is followed by the port directly.
pub proof fn ipv6_addresses_are_bracketed(ip: Seq<char>)
    ensures
        ip.contains(':') ==> authority_spec(ip) == "["@ + ip + "]:3100"@,
        !ip.contains(':') ==> authority_spec(ip) == ip + ":3100"@,
{
}

} // verus!
