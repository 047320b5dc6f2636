//! HTTP header rules: which header values are text, which are valid, and
//! how a list of header entries reads as a map.
use vstd::prelude::*;
use crate::shared::error::{ErrorResponse, BAD_REQUEST, BAD_GATEWAY};
use crate::text::{push_char, owned};

verus! {

/// A byte that `HeaderValue::to_str` accepts: visible ASCII or a tab.
pub open spec fn visible_ascii(b: u8) -> bool {
    (32 <= b && b < 127) || b == 9
}

/// A character that `HeaderValue::from_str` accepts: anything but a control
/// character or DEL, where a tab is allowed (non-ASCII characters encode to
/// bytes of 128 and above, which are allowed).
pub open spec fn header_value_char(c: char) -> bool {
    c == '\t' || (' ' <= c && c != '\u{7f}')
}

pub open spec fn valid_header_value(s: Seq<char>) -> bool {
    forall|i: int| 0 <= i < s.len() ==> #[trigger] header_value_char(s[i])
}

/// Whether every byte of a header value is visible ASCII, which is when
/// `HeaderValue::to_str` succeeds.
pub open spec fn all_visible(v: Seq<u8>) -> bool {
    forall|i: int| 0 <= i < v.len() ==> #[trigger] visible_ascii(v[i])
}

/// The text of a header value whose bytes are all visible ASCII.
pub open spec fn ascii_text(bytes: Seq<u8>) -> Seq<char> {
    bytes.map_values(|b: u8| b as char)
}

/// A character of a header name that `http` accepts (its `HEADER_CHARS`
/// table): letters, digits and ``!"#$%&'*+-.^_`|~``.
pub open spec fn header_name_char(c: char) -> bool {
    ||| ('0' <= c && c <= '9') || ('a' <= c && c <= 'z') || ('A' <= c && c <= 'Z')
    ||| c == '!' || c == '"' || c == '#' || c == '$' || c == '%' || c == '&' || c == '\''
    ||| c == '*' || c == '+' || c == '-' || c == '.' || c == '^' || c == '_' || c == '`' || c == '|' || c == '~'
}

/// Whether `http::HeaderName::from_str` accepts a name: 1 to 65535
/// characters, all of them header-name characters.
pub open spec fn is_header_name(s: Seq<char>) -> bool {
    &&& 1 <= s.len() <= 65535
    &&& forall|i: int| 0 <= i < s.len() ==> #[trigger] header_name_char(s[i])
}

/// Whether `http::HeaderName::from_str` accepts `name`: the contract states
/// the length limit and character table of `http`'s parser.
#[verifier::external_body]
pub(crate) fn header_name_ok(name: &str) -> (r: bool)
    ensures
        r == is_header_name(name@),
{
    <http::HeaderName as std::str::FromStr>::from_str(name).is_ok()
}

/// Whether every byte of `v` is visible ASCII.
pub fn is_visible_ascii(v: &[u8]) -> (r: bool)
    ensures
        r == all_visible(v@),
{
    let mut i: usize = 0;
    while i < v.len()
        invariant
            i <= v@.len(),
            forall|j: int| 0 <= j < i ==> #[trigger] visible_ascii(v@[j]),
        decreases v@.len() - i,
    {
        let b = v[i];
        if !((32 <= b && b < 127) || b == 9) {
            assert(!visible_ascii(v@[i as int]));
            return false;
        }
        i = i + 1;
    }
    true
}

/// The text of a header value made of visible ASCII bytes.
pub fn ascii_to_string(v: &[u8]) -> (r: String)
    requires
        all_visible(v@),
    ensures
        r@ == ascii_text(v@),
{
    let mut r = String::new();
    let mut i: usize = 0;
    while i < v.len()
        invariant
            i <= v@.len(),
            r@ == ascii_text(v@.take(i as int)),
        decreases v@.len() - i,
    {
        proof {
            assert(ascii_text(v@.take(i as int + 1)) =~= ascii_text(v@.take(i as int)).push(v@[i as int] as char));
        }
        push_char(&mut r, v[i] as char);
        i = i + 1;
    }
    assert(v@.take(v@.len() as int) =~= v@);
    r
}

/// Every visible ASCII character and the tab may stand in a header value
/// (so may every non-ASCII character), and no other control character.
pub proof fn visible_text_is_a_header_value(b: Seq<u8>, c: char)
    ensures
        all_visible(b) ==> valid_header_value(ascii_text(b)),
        (c == '\t' || (' ' <= c && c <= '~')) ==> header_value_char(c),
        c > '\u{7f}' ==> header_value_char(c),
        (c < ' ' && c != '\t') || c == '\u{7f}' ==> !header_value_char(c),
{
    if all_visible(b) {
        assert forall|i: int| 0 <= i < ascii_text(b).len() implies #[trigger] header_value_char(ascii_text(b)[i]) by {
            assert(visible_ascii(b[i]));
            assert(ascii_text(b)[i] == b[i] as char);
        }
    }
}

/// Whether every character of `s` may stand in a header value.
pub fn is_valid_header_value(s: &str) -> (r: bool)
    ensures
        r == valid_header_value(s@),
        r <==> forall|i: int| 0 <= i < s@.len() ==> (s@[i] == '\t' || (' ' <= #[trigger] s@[i] && s@[i] != '\u{7f}')),
{
    let chars = crate::text::chars_of(s);
    let mut i: usize = 0;
    while i < chars.len()
        invariant
            chars@ == s@,
            i <= chars@.len(),
            forall|j: int| 0 <= j < i ==> #[trigger] header_value_char(s@[j]),
        decreases chars@.len() - i,
    {
        let c = chars[i];
        if !(c == '\t' || (' ' <= c && c != '\u{7f}')) {
            assert(!header_value_char(s@[i as int]));
            return false;
        }
        i = i + 1;
    }
    assert forall|i: int| 0 <= i < s@.len() implies (s@[i] == '\t' || (' ' <= #[trigger] s@[i] && s@[i] != '\u{7f}')) by {
        assert(header_value_char(s@[i]));
    }
    true
}

/// The header map that entries make when they are inserted in order into
/// a map: for a name that occurs more than once, the last value wins.
pub open spec fn header_map(e: Seq<(String, String)>) -> Map<Seq<char>, Seq<char>>
    decreases e.len(),
{
    if e.len() == 0 {
        Map::empty()
    } else {
        header_map(e.drop_last()).insert(e.last().0@, e.last().1@)
    }
}

/// The header map of raw entries (name and value bytes), the values read as
/// text.
pub open spec fn raw_header_map(e: Seq<(String, Vec<u8>)>) -> Map<Seq<char>, Seq<char>>
    decreases e.len(),
{
    if e.len() == 0 {
        Map::empty()
    } else {
        raw_header_map(e.drop_last()).insert(e.last().0@, ascii_text(e.last().1@))
    }
}

/// No header name occurs twice.
pub open spec fn distinct_names(e: Seq<(String, String)>) -> bool {
    forall|i: int, j: int| 0 <= i < j < e.len() ==> (#[trigger] e[i]).0@ != (#[trigger] e[j]).0@
}

/// With distinct names, the map holds each entry's value under its name,
/// and nothing else.
pub proof fn lemma_header_map_distinct(e: Seq<(String, String)>)
    requires
        distinct_names(e),
    ensures
        forall|i: int| 0 <= i < e.len() ==> #[trigger] header_map(e).dom().contains(e[i].0@)
            && header_map(e)[e[i].0@] == e[i].1@,
        forall|k: Seq<char>| #[trigger] header_map(e).dom().contains(k) ==> exists|i: int| 0 <= i < e.len() && (#[trigger] e[i]).0@ == k,
    decreases e.len(),
{
    if e.len() > 0 {
        let p = e.drop_last();
        assert forall|i: int, j: int| 0 <= i < j < p.len() implies (#[trigger] p[i]).0@ != (#[trigger] p[j]).0@ by {
            assert(p[i] == e[i] && p[j] == e[j]);
        }
        lemma_header_map_distinct(p);
        let last = e.len() - 1;
        assert forall|i: int| 0 <= i < e.len() implies #[trigger] header_map(e).dom().contains(e[i].0@)
            && header_map(e)[e[i].0@] == e[i].1@ by {
            assert(e.last() == e[last]);
            if i < last {
                assert(p[i] == e[i]);
                assert(e[i].0@ != e[last].0@);
                assert(header_map(p).dom().contains(p[i].0@));
            }
        }
        assert forall|k: Seq<char>| #[trigger] header_map(e).dom().contains(k) implies exists|i: int| 0 <= i < e.len() && (#[trigger] e[i]).0@ == k by {
            if k == e[last].0@ {
                assert(e[last].0@ == k);
            } else {
                assert(header_map(p).dom().contains(k));
                let i = choose|i: int| 0 <= i < p.len() && (#[trigger] p[i]).0@ == k;
                assert(e[i] == p[i]);
            }
        }
    }
}

/// Inserts a header as a map does: a present name gets the new value in its
/// place, a new name is added at the end.
pub fn insert_header(out: &mut Vec<(String, String)>, name: String, value: String)
    requires
        distinct_names(old(out)@),
    ensures
        distinct_names(final(out)@),
        header_map(final(out)@) == header_map(old(out)@).insert(name@, value@),
{
    let mut j: usize = 0;
    while j < out.len()
        invariant
            j <= out@.len(),
            out@ == old(out)@,
            distinct_names(out@),
            forall|k: int| 0 <= k < j ==> (#[trigger] out@[k]).0@ != name@,
        decreases out@.len() - j,
    {
        if out[j].0 == name {
            let ghost before = out@;
            proof {
                lemma_header_map_distinct(before);
            }
            out.set(j, (name, value));
            proof {
                let after = out@;
                assert forall|a: int, b: int| 0 <= a < b < after.len() implies (#[trigger] after[a]).0@ != (#[trigger] after[b]).0@ by {
                    assert(after[a].0@ == before[a].0@ && after[b].0@ == before[b].0@);
                }
                lemma_header_map_distinct(after);
                assert forall|k: Seq<char>| #[trigger] header_map(after).dom().contains(k) <==> header_map(before).insert(name@, value@).dom().contains(k) by {
                    if header_map(after).dom().contains(k) {
                        let i = choose|i: int| 0 <= i < after.len() && (#[trigger] after[i]).0@ == k;
                        assert(before[i].0@ == k);
                    }
                    if header_map(before).dom().contains(k) {
                        let i = choose|i: int| 0 <= i < before.len() && (#[trigger] before[i]).0@ == k;
                        assert(after[i].0@ == k);
                    }
                    if k == name@ {
                        assert(after[j as int].0@ == k);
                    }
                }
                assert forall|k: Seq<char>| #[trigger] header_map(after).dom().contains(k) implies header_map(after)[k] == header_map(before).insert(name@, value@)[k] by {
                    let i = choose|i: int| 0 <= i < after.len() && (#[trigger] after[i]).0@ == k;
                    if i == j as int {
                    } else {
                        assert(before[i] == after[i]);
                        assert(k != name@);
                    }
                }
                assert(header_map(after) =~= header_map(before).insert(name@, value@));
            }
            return;
        }
        j = j + 1;
    }
    let ghost before = out@;
    out.push((name, value));
    proof {
        let after = out@;
        assert(after.drop_last() =~= before);
        assert forall|a: int, b: int| 0 <= a < b < after.len() implies (#[trigger] after[a]).0@ != (#[trigger] after[b]).0@ by {
            if b == after.len() - 1 {
                assert(before[a] == after[a]);
            } else {
                assert(before[a] == after[a] && before[b] == after[b]);
            }
        }
    }
}

/// Turns the client's request headers (name and raw value of each, in the
/// order the request carries them) into the map of their text values, as
/// collecting them into a map does: one entry per name, the last value of a
/// repeated name winning. Fails with 400 "Invalid header value" when a value
/// is not visible ASCII.
pub fn parse_client_headers(client_headers: &Vec<(String, Vec<u8>)>) -> (r: Result<Vec<(String, String)>, ErrorResponse>)
    ensures
        match r {
            Ok(entries) => {
                &&& distinct_names(entries@)
                &&& header_map(entries@) == raw_header_map(client_headers@)
                &&& forall|i: int| 0 <= i < client_headers@.len() ==> all_visible((#[trigger] client_headers@[i]).1@)
            },
            Err(e) => {
                &&& e.status_code == BAD_REQUEST
                &&& e.message@ == "Invalid header value"@
                &&& exists|i: int| 0 <= i < client_headers@.len() && !all_visible((#[trigger] client_headers@[i]).1@)
            },
        },
{
    let mut out: Vec<(String, String)> = Vec::new();
    let mut i: usize = 0;
    while i < client_headers.len()
        invariant
            i <= client_headers@.len(),
            distinct_names(out@),
            header_map(out@) == raw_header_map(client_headers@.take(i as int)),
            forall|k: int| 0 <= k < i ==> all_visible((#[trigger] client_headers@[k]).1@),
        decreases client_headers@.len() - i,
    {
        let (name, value) = &client_headers[i];
        if !is_visible_ascii(value.as_slice()) {
            assert(!all_visible(client_headers@[i as int].1@));
            return Err(ErrorResponse::bad_request(owned("Invalid header value")));
        }
        let text = ascii_to_string(value.as_slice());
        insert_header(&mut out, owned(name.as_str()), text);
        assert(client_headers@.take(i as int + 1).drop_last() =~= client_headers@.take(i as int));
        i = i + 1;
    }
    assert(client_headers@.take(client_headers@.len() as int) =~= client_headers@);
    Ok(out)
}

/// Whether the `http` crate would refuse an entry's name or its value.
pub open spec fn entry_invalid(e: (String, String)) -> bool {
    !is_header_name(e.0@) || !valid_header_value(e.1@)
}

/// The outcome of checking header entries in list order: the first entry
/// with a name that `http` refuses fails with `name_error`, one with a value
/// it refuses with `value_error`; `None` when every entry is accepted.
pub open spec fn headers_outcome(
    headers: Seq<(String, String)>,
    name_error: Seq<char>,
    value_error: Seq<char>,
) -> Option<Seq<char>> {
    if exists|i: int| 0 <= i < headers.len() && entry_invalid(#[trigger] headers[i]) {
        let i = choose|i: int| {
            &&& 0 <= i < headers.len()
            &&& entry_invalid(#[trigger] headers[i])
            &&& forall|k: int| 0 <= k < i ==> !entry_invalid(#[trigger] headers[k])
        };
        Some(if !is_header_name(headers[i].0@) { name_error } else { value_error })
    } else {
        None
    }
}

/// The first invalid entry, in list order, with the error it calls for.
pub(crate) fn check_headers(headers: &Vec<(String, String)>, name_error: &str, value_error: &str) -> (r: Option<String>)
    ensures
        match r {
            Some(m) => headers_outcome(headers@, name_error@, value_error@) == Some(m@),
            None => headers_outcome(headers@, name_error@, value_error@) is None,
        },
{
    let mut i: usize = 0;
    while i < headers.len()
        invariant
            i <= headers@.len(),
            forall|k: int| 0 <= k < i ==> !entry_invalid(#[trigger] headers@[k]),
        decreases headers@.len() - i,
    {
        let (name, value) = &headers[i];
        let name_ok = header_name_ok(name.as_str());
        let value_ok = is_valid_header_value(value.as_str());
        if !name_ok || !value_ok {
            proof {
                assert(entry_invalid(headers@[i as int]));
                let j = choose|j: int| {
                    &&& 0 <= j < headers@.len()
                    &&& entry_invalid(#[trigger] headers@[j])
                    &&& forall|k: int| 0 <= k < j ==> !entry_invalid(#[trigger] headers@[k])
                };
                assert(j == i as int) by {
                    if j < i as int {
                        assert(!entry_invalid(headers@[j]));
                    } else if j > i as int {
                        assert(!entry_invalid(headers@[i as int]));
                    }
                }
            }
            if !name_ok {
                return Some(owned(name_error));
            } else {
                return Some(owned(value_error));
            }
        }
        i = i + 1;
    }
    None
}

/// Checks the headers that a container answered with before they are put
/// into a response: fails with 502 "container sent invalid header name" or
/// "... value" for the first entry, in list order, that `http` would refuse.
pub fn check_container_headers(headers: &Vec<(String, String)>) -> (r: Result<(), ErrorResponse>)
    ensures
        match headers_outcome(headers@, "container sent invalid header name"@, "container sent invalid header value"@) {
            None => r is Ok,
            Some(m) => r matches Err(e) && e.status_code == BAD_GATEWAY && e.message@ == m,
        },
        r is Ok <==> forall|i: int| 0 <= i < headers@.len() ==> !entry_invalid(#[trigger] headers@[i]),
{
    match check_headers(headers, "container sent invalid header name", "container sent invalid header value") {
        Some(m) => Err(ErrorResponse::bad_gateway(m)),
        None => Ok(()),
    }
}

/// Whether the request asks for a WebSocket upgrade: its `Upgrade` header
/// (its raw bytes, if present) is exactly `websocket`.
pub open spec fn websocket_upgrade_requested(upgrade: Option<Seq<u8>>) -> bool {
    match upgrade {
        Some(v) => v == seq![119u8, 101, 98, 115, 111, 99, 107, 101, 116],
        None => false,
    }
}

pub fn is_websocket_upgrade(upgrade: Option<&[u8]>) -> (r: bool)
    ensures
        r == websocket_upgrade_requested(match upgrade { Some(v) => Some(v@), None => None }),
{
    match upgrade {
        None => false,
        Some(v) => {
            let ghost w = seq![119u8, 101, 98, 115, 111, 99, 107, 101, 116];
            if v.len() == 9 && v[0] == 119 && v[1] == 101 && v[2] == 98 && v[3] == 115 && v[4] == 111
                && v[5] == 99 && v[6] == 107 && v[7] == 101 && v[8] == 116 {
                assert(v@ =~= w);
                true
            } else {
                assert(v@ != w) by {
                    if v@ == w {
                        assert(v@.len() == 9);
                        assert(v@[0] == w[0] && v@[1] == w[1] && v@[2] == w[2] && v@[3] == w[3]);
                        assert(v@[4] == w[4] && v@[5] == w[5] && v@[6] == w[6] && v@[7] == w[7] && v@[8] == w[8]);
                    }
                }
                false
            }
        },
    }
}

} // verus!

verus! {

/// A character of a method name that `http` accepts (its `METHOD_CHARS`
/// table): letters, digits and ``!*+-.^_`|~``.
pub open spec fn method_char(c: char) -> bool {
    ||| ('0' <= c && c <= '9') || ('a' <= c && c <= 'z') || ('A' <= c && c <= 'Z')
    ||| c == '!' || c == '*' || c == '+' || c == '-' || c == '.' || c == '^' || c == '_' || c == '`'
        || c == '|' || c == '~'
}

/// Whether `http::Method::from_bytes` accepts a method name: at least one
/// character, all of them method characters (the standard methods are among
/// these names).
pub open spec fn is_http_method(s: Seq<char>) -> bool {
    &&& s.len() >= 1
    &&& forall|i: int| 0 <= i < s.len() ==> #[trigger] method_char(s[i])
}

/// Whether `http::Method::from_bytes` accepts `method`: the contract states
/// the character table of `http`'s parser (a standard method or an
/// extension token).
#[verifier::external_body]
pub(crate) fn http_method_ok(method: &str) -> (r: bool)
    ensures
        r == is_http_method(method@),
{
    http::Method::from_bytes(method.as_bytes()).is_ok()
}

} // verus!
