//! Forwarding of HTTP requests that reach the server's `/proxy` endpoint to
//! the program in a session's container: which session and port a request
//! is for, and what is checked before and after forwarding.
use vstd::prelude::*;
use crate::ids::{uuid_from_text, uuid_parse};
use crate::shared::error::{ErrorResponse, BAD_GATEWAY, BAD_REQUEST, NOT_FOUND};
use std::collections::HashMap;
use crate::shared::headers::{all_visible, ascii_text, ascii_to_string, check_container_headers, headers_outcome,
    entry_invalid, is_header_name, is_visible_ascii, parse_client_headers, distinct_names, header_map,
    raw_header_map};
use crate::shared::host::{host_parts, split_host};
use crate::shared::protocol::{ContainerProxyRequest, ContainerProxyResponse};
use crate::shared::status::{is_valid_status_code, valid_status_code};
use crate::text::{decimal, decimal_parse_round_trip, digit_value, dash2_at, first_char_at, first_dash2_at, lemma_decimal_digits, owned, parse_u16, parse_u16_spec};
use crate::ids::uuid_text;
use crate::shared::host::first_label;

verus! {

broadcast use vstd::std_specs::hash::group_hash_axioms;

/// The session and the port that a request's host names.
pub struct ParsedHost {
    pub session_id: u128,
    pub port: u16,
}

/// What parsing a host gives, where `session` is what the UUID parser made
/// of the session part: the session and the port, or `None` where the
/// request is refused with 400 "Invalid host header.".
pub open spec fn parsed_host_spec(session: Option<u128>, port_part: Option<Seq<char>>) -> Option<(u128, u16)> {
    match (session, port_part) {
        (Some(id), Some(p)) => match parse_u16_spec(p) {
            Some(port) => Some((id, port)),
            None => None,
        },
        _ => None,
    }
}

pub open spec fn invalid_host(e: ErrorResponse) -> bool {
    e.status_code == BAD_REQUEST && e.message@ == "Invalid host header."@
}

impl ParsedHost {
    /// Assembles the parsed host from the UUID parser's verdict on the
    /// session part and the text of the port part.
    pub fn from_parts(session: Option<u128>, port_part: Option<String>) -> (r: Result<ParsedHost, ErrorResponse>)
        ensures
            match parsed_host_spec(session, match port_part { Some(p) => Some(p@), None => None }) {
                Some((id, port)) => r matches Ok(h) && h.session_id == id && h.port == port,
                None => r matches Err(e) && invalid_host(e),
            },
    {
        let session_id = match session {
            Some(id) => id,
            None => return Err(ErrorResponse::bad_request(owned("Invalid host header."))),
        };
        let port_text = match port_part {
            Some(p) => p,
            None => return Err(ErrorResponse::bad_request(owned("Invalid host header."))),
        };
        match parse_u16(port_text.as_str()) {
            Some(port) => Ok(ParsedHost { session_id, port }),
            None => Err(ErrorResponse::bad_request(owned("Invalid host header."))),
        }
    }

    /// Parses a host of the form `<session uuid>--<port>.<domain>`.
    pub fn parse(host: String) -> (r: Result<ParsedHost, ErrorResponse>)
        ensures
            match parsed_host_spec(uuid_parse(host_parts(host@).0), host_parts(host@).1) {
                Some((id, port)) => r matches Ok(h) && h.session_id == id && h.port == port,
                None => r matches Err(e) && invalid_host(e),
            },
    {
        let (session_text, port_text) = split_host(host.as_str());
        let session = uuid_from_text(session_text.as_str());
        Self::from_parts(session, port_text)
    }
}

/// The request line parts that the server reads before it looks the session
/// up: the session and port from the host, and the client's URI, which the
/// outer proxy passes in the `X-Hydra-URI` header (its raw bytes, if present).
pub fn proxy_target(host: String, hydra_uri: Option<Vec<u8>>) -> (r: Result<(ParsedHost, String), ErrorResponse>)
    ensures
        match parsed_host_spec(uuid_parse(host_parts(host@).0), host_parts(host@).1) {
            None => r matches Err(e) && invalid_host(e),
            Some((id, port)) => match hydra_uri {
                None => r matches Err(e) && e.status_code == BAD_REQUEST
                    && e.message@ == "X-Hydra-URI header not found"@,
                Some(v) => if all_visible(v@) {
                    r matches Ok((h, uri)) && h.session_id == id && h.port == port && uri@ == ascii_text(v@)
                } else {
                    r matches Err(e) && e.status_code == BAD_REQUEST
                        && e.message@ == "X-Hydra-URI is an invalid string"@
                },
            },
        },
{
    let parsed = ParsedHost::parse(host)?;
    let raw = match hydra_uri {
        Some(v) => v,
        None => return Err(ErrorResponse::bad_request(owned("X-Hydra-URI header not found"))),
    };
    if !is_visible_ascii(raw.as_slice()) {
        return Err(ErrorResponse::bad_request(owned("X-Hydra-URI is an invalid string")));
    }
    let uri = ascii_to_string(raw.as_slice());
    Ok((parsed, uri))
}

/// Builds the request handed to the container, once the session is known:
/// the client's headers must all be text (else 400 "Invalid header value").
pub fn build_proxy_request(
    method: String,
    uri: String,
    port: u16,
    client_headers: &Vec<(String, Vec<u8>)>,
    body: Vec<u8>,
) -> (r: Result<ContainerProxyRequest, ErrorResponse>)
    ensures
        match r {
            Ok(req) => {
                &&& req.method@ == method@
                &&& req.uri@ == uri@
                &&& req.port == port as u32
                &&& req.body@ == body@
                &&& distinct_names(req.headers@)
                &&& header_map(req.headers@) == raw_header_map(client_headers@)
            },
            Err(e) => {
                &&& e.status_code == BAD_REQUEST
                &&& e.message@ == "Invalid header value"@
                &&& exists|i: int| 0 <= i < client_headers@.len() && !all_visible((#[trigger] client_headers@[i]).1@)
            },
        },
        r is Ok <==> forall|i: int| 0 <= i < client_headers@.len() ==> all_visible((#[trigger] client_headers@[i]).1@),
{
    let headers = parse_client_headers(client_headers)?;
    Ok(ContainerProxyRequest { method, uri, port: port as u32, headers, body })
}

/// The channel to the session that runs a container, among those with a
/// client connected; 404 "Container not found" where there is none.
pub fn session_channel<T>(channels: &HashMap<u128, T>, session_id: u128) -> (r: Result<&T, ErrorResponse>)
    ensures
        match r {
            Ok(t) => channels@.contains_key(session_id) && *t == channels@[session_id],
            Err(e) => {
                &&& !channels@.contains_key(session_id)
                &&& e.status_code == NOT_FOUND
                &&& e.message@ == "Container not found"@
            },
        },
{
    match channels.get(&session_id) {
        Some(t) => Ok(t),
        None => Err(ErrorResponse::not_found(owned("Container not found"))),
    }
}

/// Checks a container's answer before it goes back to the client: its
/// headers must be acceptable to `http` (else 502, see
/// `check_container_headers`), then its status code must be one (else 502
/// "container sent invalid status code").
pub fn check_proxy_response(res: &ContainerProxyResponse) -> (r: Result<u16, ErrorResponse>)
    ensures
        match headers_outcome(res.headers@, "container sent invalid header name"@, "container sent invalid header value"@) {
            Some(m) => r matches Err(e) && e.status_code == BAD_GATEWAY && e.message@ == m,
            None => if valid_status_code(res.status_code) {
                r == Ok::<u16, ErrorResponse>(res.status_code)
            } else {
                r matches Err(e) && e.status_code == BAD_GATEWAY && e.message@ == "container sent invalid status code"@
            },
        },
{
    check_container_headers(&res.headers)?;
    if !is_valid_status_code(res.status_code) {
        return Err(ErrorResponse::bad_gateway(owned("container sent invalid status code")));
    }
    Ok(res.status_code)
}

} // verus!

verus! {

proof fn lemma_uuid_text_chars(u: u128)
    ensures
        uuid_text(u).len() == 36,
        forall|i: int| 0 <= i < 36 ==> (#[trigger] uuid_text(u)[i]) != '.',
        forall|i: int| 0 <= i < 36 && i != 8 && i != 13 && i != 18 && i != 23 ==> (#[trigger] uuid_text(u)[i]) != '-',
{
}

/// The host of a session link, `<session uuid>--<port>.<domain>`, parses back
/// to that session and port (given what the `uuid` crate documents: the
/// hyphenated form of a UUID parses back to it).
pub proof fn session_host_round_trip(u: u128, port: u16, domain: Seq<char>)
    requires
        uuid_parse(uuid_text(u)) == Some(u),
    ensures
        parsed_host_spec(
            uuid_parse(host_parts(uuid_text(u) + seq!['-', '-'] + decimal(port as nat) + seq!['.'] + domain).0),
            host_parts(uuid_text(u) + seq!['-', '-'] + decimal(port as nat) + seq!['.'] + domain).1,
        ) == Some((u, port)),
{
    let a = uuid_text(u);
    let d = decimal(port as nat);
    let label = a + seq!['-', '-'] + d;
    let h = label + seq!['.'] + domain;
    let k = d.len() as int;
    lemma_uuid_text_chars(u);
    lemma_decimal_digits(port as nat);
    // the first label ends at the dot after the port
    assert forall|j: int| 0 <= j < 38 + k implies h[j] != '.' by {
        if j < 36 {
            assert(h[j] == a[j]);
        } else if j >= 38 {
            assert(h[j] == d[j - 38]);
            assert(digit_value(d[j - 38]) is Some);
        }
    }
    assert(h[38 + k] == '.');
    assert(first_char_at(h, '.', 0, 38 + k));
    let i = choose|i: int| first_char_at(h, '.', 0, i);
    assert(i == 38 + k) by {
        if i < 38 + k {
            assert(h[i] != '.');
        } else if i > 38 + k {
            assert(h[38 + k] != '.');
        }
    }
    assert(first_label(h) =~= label);
    // the first `--` is the one after the uuid
    assert forall|j: int| 0 <= j < 36 implies !dash2_at(label, j) by {
        if j == 8 || j == 13 || j == 18 || j == 23 || j == 35 {
            assert(label[j + 1] == a[j + 1] || j == 35);
            if j == 35 {
                assert(label[j] == a[35]);
            }
        } else {
            assert(label[j] == a[j]);
        }
    }
    assert(dash2_at(label, 36));
    assert(first_dash2_at(label, 0, 36));
    let f = choose|f: int| first_dash2_at(label, 0, f);
    assert(f == 36) by {
        if f < 36 {
            assert(!dash2_at(label, f));
        } else if f > 36 {
            assert(!dash2_at(label, 36));
        }
    }
    assert(label.take(36) =~= a);
    // no `--` after it: the rest is the port's digits
    assert forall|j: int| 38 <= j implies !dash2_at(label, j) by {
        if 38 <= j < label.len() {
            assert(label[j] == d[j - 38]);
            assert(digit_value(d[j - 38]) is Some);
        }
    }
    assert(!exists|g: int| first_dash2_at(label, 38, g));
    assert(label.subrange(38, label.len() as int) =~= d);
    decimal_parse_round_trip(port);
}

} // verus!
