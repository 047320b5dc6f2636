//! The decisions the proxy makes about each request: which session it is
//! for, where it goes, and how a WebSocket upgrade is answered.
use vstd::prelude::*;
use base64::engine::Engine;
use sha1::Digest;
use vstd::string::StringSliceAdditionalSpecFns;
use crate::ids::{uuid_from_text, uuid_parse};
use crate::proxy::discovery::authority_spec;
use crate::proxy::error_page::ErrorPage;
use crate::shared::error::{BAD_REQUEST, INTERNAL_SERVER_ERROR};
use crate::shared::host::{host_parts, split_host};
use crate::text::{owned, push_str};

verus! {

/// The session that a request's host names.
pub struct ParsedHost {
    pub session_id: u128,
}

impl ParsedHost {
    /// Parses the session from a host of the form `<session uuid>[--...].<domain>`;
    /// fails with 400 "Invalid host header.".
    pub fn parse(host: String) -> (r: Result<ParsedHost, ErrorPage>)
        ensures
            match uuid_parse(host_parts(host@).0) {
                Some(id) => r matches Ok(h) && h.session_id == id,
                None => r matches Err(e) && e.status_code == BAD_REQUEST
                    && e.message@ == "Invalid host header."@,
            },
    {
        let (session_text, _) = split_host(host.as_str());
        match uuid_from_text(session_text.as_str()) {
            Some(session_id) => Ok(ParsedHost { session_id }),
            None => Err(ErrorPage::bad_request(owned("Invalid host header."))),
        }
    }
}

/// Where a request for a session goes: the server's `/proxy` endpoint, or
/// its `/proxy-websocket` endpoint for a WebSocket.
pub open spec fn forward_url_spec(server_ip: Seq<char>, websocket: bool) -> Seq<char> {
    if websocket {
        "ws://"@ + authority_spec(server_ip) + "/proxy-websocket"@
    } else {
        "http://"@ + authority_spec(server_ip) + "/proxy"@
    }
}

pub fn forward_url(server_ip: &str, websocket: bool) -> (r: String)
    ensures
        r@ == forward_url_spec(server_ip@, websocket),
{
    let authority = crate::proxy::discovery::resolve_server_authority(Some(owned(server_ip)));
    let authority = match authority {
        Some(a) => a,
        None => String::new(),
    };
    if websocket {
        let mut url = owned("ws://");
        push_str(&mut url, authority.as_str());
        push_str(&mut url, "/proxy-websocket");
        url
    } else {
        let mut url = owned("http://");
        push_str(&mut url, authority.as_str());
        push_str(&mut url, "/proxy");
        url
    }
}

/// The GUID that RFC 6455 appends to a WebSocket key before hashing it.
pub const WEBSOCKET_GUID: &'static str = "258EAFA5-E914-47DA-95CA-C5AB0DC85B11";

/// What `sha1::Sha1` makes of a byte string.
pub uninterp spec fn sha1_digest(data: Seq<u8>) -> Seq<u8>;

/// The character of a six-bit value in the standard base64 alphabet.
pub open spec fn base64_char(v: int) -> char {
    if v < 26 {
        (65 + v) as char
    } else if v < 52 {
        (97 + v - 26) as char
    } else if v < 62 {
        (48 + v - 52) as char
    } else if v == 62 {
        '+'
    } else {
        '/'
    }
}

/// Standard, padded base64 (what `base64`'s `STANDARD` engine makes of a
/// byte string): each group of three bytes becomes four characters; a last
/// group of one or two bytes is padded with `=`.
pub open spec fn base64_standard(d: Seq<u8>) -> Seq<char>
    decreases d.len(),
{
    if d.len() == 0 {
        Seq::empty()
    } else if d.len() == 1 {
        seq![base64_char((d[0] as int) / 4), base64_char(((d[0] as int) % 4) * 16), '=', '=']
    } else if d.len() == 2 {
        seq![base64_char((d[0] as int) / 4), base64_char(((d[0] as int) % 4) * 16 + (d[1] as int) / 16), base64_char(((d[1] as int) % 16) * 4), '=']
    } else {
        seq![
            base64_char((d[0] as int) / 4),
            base64_char(((d[0] as int) % 4) * 16 + (d[1] as int) / 16),
            base64_char(((d[1] as int) % 16) * 4 + (d[2] as int) / 64),
            base64_char((d[2] as int) % 64),
        ] + base64_standard(d.skip(3))
    }
}

/// Hashes bytes with SHA-1 (`sha1::Sha1`). The digest is named; its length,
/// 20 bytes, is what the algorithm fixes.
#[verifier::external_body]
fn sha1(data: &[u8]) -> (r: Vec<u8>)
    ensures
        r@ == sha1_digest(data@),
        r@.len() == 20,
{
    let mut hasher = sha1::Sha1::default();
    hasher.update(data);
    hasher.finalize().to_vec()
}

/// Encodes bytes with `base64::engine::general_purpose::STANDARD`, which
/// panics only where the encoded length overflows, ruled out here.
#[verifier::external_body]
fn base64_encode(data: &[u8]) -> (r: String)
    requires
        data@.len() <= usize::MAX / 2,
    ensures
        r@ == base64_standard(data@),
{
    base64::engine::general_purpose::STANDARD.encode(data)
}

/// The `Sec-WebSocket-Accept` value for a client's `Sec-WebSocket-Key`:
/// base64 of the SHA-1 of the key followed by the RFC 6455 GUID.
pub open spec fn accept_value(key: Seq<u8>) -> Seq<char> {
    base64_standard(sha1_digest(key + WEBSOCKET_GUID.spec_bytes()))
}

pub fn sign(key: &[u8]) -> (r: String)
    requires
        key@.len() + 36 <= usize::MAX,
    ensures
        r@ == accept_value(key@),
{
    let guid = WEBSOCKET_GUID.as_bytes();
    let mut data: Vec<u8> = Vec::new();
    let mut i: usize = 0;
    while i < key.len()
        invariant
            i <= key@.len(),
            data@ == key@.take(i as int),
        decreases key@.len() - i,
    {
        proof {
            assert(key@.take(i as int).push(key@[i as int]) =~= key@.take(i as int + 1));
        }
        data.push(key[i]);
        i = i + 1;
    }
    assert(key@.take(key@.len() as int) =~= key@);
    let mut j: usize = 0;
    while j < guid.len()
        invariant
            j <= guid@.len(),
            guid@ == WEBSOCKET_GUID.spec_bytes(),
            data@ == key@ + guid@.take(j as int),
        decreases guid@.len() - j,
    {
        proof {
            assert(guid@.take(j as int).push(guid@[j as int]) =~= guid@.take(j as int + 1));
        }
        data.push(guid[j]);
        j = j + 1;
    }
    assert(guid@.take(guid@.len() as int) =~= guid@);
    let digest = sha1(data.as_slice());
    base64_encode(digest.as_slice())
}

/// How the proxy answers a WebSocket upgrade request, given its method and
/// its `Sec-WebSocket-Key` header: the accept value, or 400 for a method
/// other than GET ("WebSocket upgrade must be GET request.") or a missing
/// key ("Missing Sec-WebSocket-Key header.").
pub fn websocket_accept(method: &str, key: Option<Vec<u8>>) -> (r: Result<String, ErrorPage>)
    requires
        key matches Some(k) ==> k@.len() + 36 <= usize::MAX,
    ensures
        method@ != "GET"@ ==> (r matches Err(e) && e.status_code == BAD_REQUEST
            && e.message@ == "WebSocket upgrade must be GET request."@),
        method@ == "GET"@ ==> match key {
            None => r matches Err(e) && e.status_code == BAD_REQUEST
                && e.message@ == "Missing Sec-WebSocket-Key header."@,
            Some(k) => r matches Ok(a) && a@ == accept_value(k@),
        },
{
    let get = owned("GET");
    let m = owned(method);
    if m != get {
        return Err(ErrorPage::bad_request(owned("WebSocket upgrade must be GET request.")));
    }
    match key {
        None => Err(ErrorPage::bad_request(owned("Missing Sec-WebSocket-Key header."))),
        Some(k) => Ok(sign(k.as_slice())),
    }
}

/// The error page for a failure to resolve a session's server: 500
/// "Something went wrong." when the lookup failed, 404 "Session not found."
/// when the session is unknown.
pub fn unresolved_session(lookup_failed: bool) -> (r: ErrorPage)
    ensures
        lookup_failed ==> r.status_code == INTERNAL_SERVER_ERROR && r.message@ == "Something went wrong."@,
        !lookup_failed ==> r.status_code == crate::shared::error::NOT_FOUND && r.message@ == "Session not found."@,
{
    if lookup_failed {
        ErrorPage::error(owned("Something went wrong."))
    } else {
        ErrorPage::not_found(owned("Session not found."))
    }
}

/// The header the proxy marks its answers with, and its value.
pub const FORWARDED_BY_NAME: &'static str = "x-forwarded-by";
pub const FORWARDED_BY_VALUE: &'static str = "hydra-proxy";

/// Header entries as values: each name's text and each value's bytes.
pub open spec fn entry_views(e: Seq<(String, Vec<u8>)>) -> Seq<(Seq<char>, Seq<u8>)> {
    e.map_values(|x: (String, Vec<u8>)| (x.0@, x.1@))
}

/// The entries whose name is not `name`, in order.
pub open spec fn other_headers(e: Seq<(String, Vec<u8>)>, name: Seq<char>) -> Seq<(Seq<char>, Seq<u8>)>
    decreases e.len(),
{
    if e.len() == 0 {
        Seq::empty()
    } else {
        let rest = other_headers(e.drop_last(), name);
        if e.last().0@ == name { rest } else { rest.push((e.last().0@, e.last().1@)) }
    }
}

/// The entries of `s` named `n`, in order.
pub open spec fn named(s: Seq<(Seq<char>, Seq<u8>)>, n: Seq<char>) -> Seq<(Seq<char>, Seq<u8>)> {
    s.filter(|x: (Seq<char>, Seq<u8>)| x.0 == n)
}

proof fn lemma_named_push(s: Seq<(Seq<char>, Seq<u8>)>, a: (Seq<char>, Seq<u8>), n: Seq<char>)
    ensures
        named(s.push(a), n) == (if a.0 == n { named(s, n).push(a) } else { named(s, n) }),
{
    reveal(Seq::filter);
    assert(s.push(a).drop_last() =~= s);
    assert(s.push(a).last() == a);
}

proof fn lemma_other_headers(e: Seq<(String, Vec<u8>)>, m: Seq<char>, n: Seq<char>)
    ensures
        n != m ==> named(other_headers(e, m), n) == named(entry_views(e), n),
        forall|i: int| 0 <= i < other_headers(e, m).len() ==> (#[trigger] other_headers(e, m)[i]).0 != m,
    decreases e.len(),
{
    if e.len() > 0 {
        let p = e.drop_last();
        lemma_other_headers(p, m, n);
        let ev = entry_views(e);
        let pv = entry_views(p);
        let last = (e.last().0@, e.last().1@);
        assert(ev =~= pv.push(last));
        lemma_named_push(pv, last, n);
        let oh = other_headers(p, m);
        if e.last().0@ != m {
            lemma_named_push(oh, last, n);
            assert forall|i: int| 0 <= i < oh.push(last).len() implies (#[trigger] oh.push(last)[i]).0 != m by {
                if i < oh.len() {
                    assert(oh.push(last)[i] == oh[i]);
                }
            }
        }
    }
}

/// The proxy passes every header of the server's answer on, in order and
/// with repeated names kept, and adds its mark once, at the end: for every
/// name other than `x-forwarded-by`, the entries of that name in the result
/// are those of the answer; the only `x-forwarded-by` entry is the last,
/// `x-forwarded-by: hydra-proxy`.
pub proof fn forwarding_keeps_every_header(e: Seq<(String, Vec<u8>)>, n: Seq<char>)
    ensures
        ({
            let r = other_headers(e, FORWARDED_BY_NAME@).push((FORWARDED_BY_NAME@, FORWARDED_BY_VALUE.spec_bytes()));
            &&& r.last() == (FORWARDED_BY_NAME@, FORWARDED_BY_VALUE.spec_bytes())
            &&& forall|i: int| 0 <= i < r.len() - 1 ==> (#[trigger] r[i]).0 != FORWARDED_BY_NAME@
            &&& n != FORWARDED_BY_NAME@ ==> named(r, n) == named(entry_views(e), n)
        }),
{
    let m = FORWARDED_BY_NAME@;
    let oh = other_headers(e, m);
    let mark = (m, FORWARDED_BY_VALUE.spec_bytes());
    let r = oh.push(mark);
    lemma_other_headers(e, m, n);
    lemma_named_push(oh, mark, n);
    assert forall|i: int| 0 <= i < r.len() - 1 implies (#[trigger] r[i]).0 != m by {
        assert(r[i] == oh[i]);
    }
}

/// The headers of an answer the proxy passes on: the server's headers with
/// `x-forwarded-by: hydra-proxy` set (replacing any value the server gave),
/// as inserting it into the header map does.
pub fn forwarded_response_headers(entries: &Vec<(String, Vec<u8>)>) -> (r: Vec<(String, Vec<u8>)>)
    ensures
        entry_views(r@) == other_headers(entries@, FORWARDED_BY_NAME@).push(
            (FORWARDED_BY_NAME@, FORWARDED_BY_VALUE.spec_bytes()),
        ),
        r@.len() >= 1,
        entry_views(r@).last() == (FORWARDED_BY_NAME@, FORWARDED_BY_VALUE.spec_bytes()),
        forall|i: int| 0 <= i < r@.len() - 1 ==> (#[trigger] r@[i]).0@ != FORWARDED_BY_NAME@,
        forall|n: Seq<char>| n != FORWARDED_BY_NAME@ ==> #[trigger] named(entry_views(r@), n) == named(entry_views(entries@), n),
{
    let marker = owned(FORWARDED_BY_NAME);
    let mut out: Vec<(String, Vec<u8>)> = Vec::new();
    let mut i: usize = 0;
    while i < entries.len()
        invariant
            i <= entries@.len(),
            marker@ == FORWARDED_BY_NAME@,
            entry_views(out@) == other_headers(entries@.take(i as int), FORWARDED_BY_NAME@),
        decreases entries@.len() - i,
    {
        assert(entries@.take(i as int + 1).drop_last() =~= entries@.take(i as int));
        let (name, value) = &entries[i];
        if *name != marker {
            let copy = vstd::slice::slice_to_vec(value.as_slice());
            let ghost before = out@;
            out.push((owned(name.as_str()), copy));
            assert(entry_views(out@) =~= entry_views(before).push((name@, value@)));
        }
        i = i + 1;
    }
    assert(entries@.take(entries@.len() as int) =~= entries@);
    let ghost before = out@;
    let value = vstd::slice::slice_to_vec(FORWARDED_BY_VALUE.as_bytes());
    out.push((marker, value));
    assert(entry_views(out@) =~= entry_views(before).push((FORWARDED_BY_NAME@, FORWARDED_BY_VALUE.spec_bytes())));
    proof {
        assert forall|n: Seq<char>| n != FORWARDED_BY_NAME@ implies #[trigger] named(entry_views(out@), n) == named(entry_views(entries@), n) by {
            forwarding_keeps_every_header(entries@, n);
        }
        forwarding_keeps_every_header(entries@, FORWARDED_BY_NAME@);
        assert forall|i: int| 0 <= i < out@.len() - 1 implies (#[trigger] out@[i]).0@ != FORWARDED_BY_NAME@ by {
            assert(entry_views(out@)[i] == (out@[i].0@, out@[i].1@));
        }
    }
    out
}

/// The headers of the proxy's answer to a WebSocket upgrade: `connection:
/// upgrade`, `upgrade: websocket`, the accept value, and the proxy's mark.
pub fn upgrade_response_headers(accept: String) -> (r: Vec<(String, String)>)
    ensures
        r@.len() == 4,
        r@[0].0@ == "connection"@ && r@[0].1@ == "upgrade"@,
        r@[1].0@ == "upgrade"@ && r@[1].1@ == "websocket"@,
        r@[2].0@ == "sec-websocket-accept"@ && r@[2].1@ == accept@,
        r@[3].0@ == FORWARDED_BY_NAME@ && r@[3].1@ == FORWARDED_BY_VALUE@,
{
    let mut r: Vec<(String, String)> = Vec::new();
    r.push((owned("connection"), owned("upgrade")));
    r.push((owned("upgrade"), owned("websocket")));
    r.push((owned("sec-websocket-accept"), accept));
    r.push((owned(FORWARDED_BY_NAME), owned(FORWARDED_BY_VALUE)));
    r
}

} // verus!
