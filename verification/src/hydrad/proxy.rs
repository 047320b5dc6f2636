//! How the agent forwards a request to the user's program on
//! `localhost:<port>` and reads the answer back.
use vstd::prelude::*;
use crate::shared::headers::{all_visible, ascii_text, ascii_to_string, check_headers, entry_invalid, header_name_ok, headers_outcome,
    http_method_ok, is_header_name, distinct_names, header_map, raw_header_map, is_http_method, is_valid_header_value, is_visible_ascii,
    valid_header_value};
use crate::shared::protocol::{ContainerProxyRequest, ProxyError};
use crate::text::{decimal, decimal_string, owned, push_str};

verus! {

/// Commands for the task that relays one WebSocket connection to the
/// user's program.
pub enum WebSocketCommands {
    Send(crate::shared::protocol::WebSocketMessage),
    Close,
}

/// The largest body the agent reads from the user's program: 20 MiB.
pub const MAX_BODY_SIZE: usize = 20 * 1024 * 1024;

/// The address a forwarded request goes to.
pub open spec fn local_url(scheme: Seq<char>, port: u32, uri: Seq<char>) -> Seq<char> {
    scheme + "://localhost:"@ + decimal(port as nat) + uri
}

fn local_url_text(scheme: &str, port: u32, uri: &str) -> (r: String)
    ensures
        r@ == local_url(scheme@, port, uri@),
{
    let mut url = owned(scheme);
    push_str(&mut url, "://localhost:");
    let p = decimal_string(port as u64);
    push_str(&mut url, p.as_str());
    push_str(&mut url, uri);
    url
}

/// What preparing a forwarded HTTP request gives: the URL to send it to, or
/// the `RequestError` the agent answers with.
pub open spec fn http_target_spec(req: ContainerProxyRequest) -> Result<Seq<char>, Seq<char>> {
    if !is_http_method(req.method@) {
        Err("Invalid method: "@ + req.method@)
    } else {
        match headers_outcome(req.headers@, "Error parsing header name"@, "Error parsing header value"@) {
            Some(m) => Err(m),
            None => Ok(local_url("http"@, req.port, req.uri@)),
        }
    }
}

/// Checks a request to forward to the user's program and gives the URL it
/// goes to: `http://localhost:<port><uri>`.
pub fn http_target(req: &ContainerProxyRequest) -> (r: Result<String, ProxyError>)
    ensures
        match http_target_spec(*req) {
            Ok(url) => r matches Ok(u) && u@ == url,
            Err(m) => r matches Err(ProxyError::RequestError(e)) && e@ == m,
        },
{
    if !http_method_ok(req.method.as_str()) {
        let mut m = owned("Invalid method: ");
        push_str(&mut m, req.method.as_str());
        return Err(ProxyError::RequestError(m));
    }
    match check_headers(&req.headers, "Error parsing header name", "Error parsing header value") {
        Some(m) => Err(ProxyError::RequestError(m)),
        None => Ok(local_url_text("http", req.port, req.uri.as_str())),
    }
}

/// What preparing a WebSocket connection to the user's program gives: the
/// URL `ws://localhost:<port><uri>`, or the error the agent answers with.
pub open spec fn websocket_target_spec(req: ContainerProxyRequest) -> Result<Seq<char>, Seq<char>> {
    match headers_outcome(req.headers@, "Error parsing header name"@, "Error parsing header value"@) {
        Some(m) => Err(m),
        None => Ok(local_url("ws"@, req.port, req.uri@)),
    }
}

pub fn websocket_target(req: &ContainerProxyRequest) -> (r: Result<String, String>)
    ensures
        match websocket_target_spec(*req) {
            Ok(url) => r matches Ok(u) && u@ == url,
            Err(m) => r matches Err(e) && e@ == m,
        },
{
    match check_headers(&req.headers, "Error parsing header name", "Error parsing header value") {
        Some(m) => Err(m),
        None => Ok(local_url_text("ws", req.port, req.uri.as_str())),
    }
}

/// The headers of the program's answer as text: every value must be
/// visible ASCII, else `RequestError("Invalid headers")`.
pub fn response_headers(entries: &Vec<(String, Vec<u8>)>) -> (r: Result<Vec<(String, String)>, ProxyError>)
    ensures
        (forall|i: int| 0 <= i < entries@.len() ==> all_visible((#[trigger] entries@[i]).1@)) ==> (r matches Ok(h) && {
            &&& distinct_names(h@)
            &&& header_map(h@) == raw_header_map(entries@)
        }),
        !(forall|i: int| 0 <= i < entries@.len() ==> all_visible((#[trigger] entries@[i]).1@)) ==> (r matches Err(
            ProxyError::RequestError(m),
        ) && m@ == "Invalid headers"@),
{
    match crate::shared::headers::parse_client_headers(entries) {
        Ok(h) => Ok(h),
        Err(_) => Err(ProxyError::RequestError(owned("Invalid headers"))),
    }
}

/// The `Content-Length` of the program's answer, if it has one that reads
/// as a number: a header value that is text and parses as a `usize`.
pub fn content_length(value: Option<&[u8]>) -> (r: Option<usize>)
    ensures
        r == match value {
            Some(v) => if all_visible(v@) { crate::text::parse_usize_spec(ascii_text(v@)) } else { None },
            None => None,
        },
{
    match value {
        None => None,
        Some(v) => {
            if !is_visible_ascii(v) {
                return None;
            }
            let text = ascii_to_string(v);
            crate::text::parse_usize(text.as_str())
        },
    }
}

/// Whether the body read so far is complete or more should follow.
pub enum BodyProgress {
    More,
    Complete,
}

/// One step of reading a body: a chunk is appended; with a known length,
/// reaching it completes the body (cut to that length); otherwise reaching
/// the 20 MiB limit fails with `BodyTooLarge`.
pub open spec fn body_step(content_length: Option<usize>, body: Seq<u8>, chunk: Seq<u8>)
    -> (Result<BodyProgress, ProxyError>, Seq<u8>)
{
    let grown = body + chunk;
    match content_length {
        Some(n) if grown.len() >= n => (Ok(BodyProgress::Complete), grown.take(n as int)),
        _ => if grown.len() >= MAX_BODY_SIZE {
            (Err(ProxyError::BodyTooLarge), grown)
        } else {
            (Ok(BodyProgress::More), grown)
        },
    }
}

/// Reads the body of the program's answer chunk by chunk, as the chunks
/// arrive from the network.
pub struct BodyReader {
    content_length: Option<usize>,
    body: Vec<u8>,
}

impl BodyReader {
    pub closed spec fn content_length(&self) -> Option<usize> {
        self.content_length
    }

    pub closed spec fn body(&self) -> Seq<u8> {
        self.body@
    }

    /// While more may follow, the body is below the limit.
    pub closed spec fn reading(&self) -> bool {
        self.body@.len() < MAX_BODY_SIZE
    }

    pub fn new(content_length: Option<usize>) -> (r: Self)
        ensures
            r.content_length() == content_length,
            r.body() == Seq::<u8>::empty(),
            r.reading(),
    {
        BodyReader { content_length, body: Vec::new() }
    }

    pub fn read_chunk(&mut self, chunk: &[u8]) -> (r: Result<BodyProgress, ProxyError>)
        requires
            old(self).reading(),
            chunk@.len() <= usize::MAX - MAX_BODY_SIZE,
        ensures
            (r, final(self).body()) == body_step(old(self).content_length(), old(self).body(), chunk@),
            final(self).content_length() == old(self).content_length(),
            r matches Ok(BodyProgress::More) ==> final(self).reading(),
    {
        let mut i: usize = 0;
        let ghost start = self.body@;
        while i < chunk.len()
            invariant
                i <= chunk@.len(),
                self.body@ == start + chunk@.take(i as int),
                start.len() < MAX_BODY_SIZE,
                self.content_length == old(self).content_length,
                start == old(self).body@,
            decreases chunk@.len() - i,
        {
            proof {
                assert(chunk@.take(i as int).push(chunk@[i as int]) =~= chunk@.take(i as int + 1));
            }
            self.body.push(chunk[i]);
            i = i + 1;
        }
        assert(chunk@.take(chunk@.len() as int) =~= chunk@);
        if let Some(n) = self.content_length {
            if self.body.len() >= n {
                self.body.truncate(n);
                return Ok(BodyProgress::Complete);
            }
        }
        if self.body.len() >= MAX_BODY_SIZE {
            return Err(ProxyError::BodyTooLarge);
        }
        Ok(BodyProgress::More)
    }

    /// The body read so far.
    pub fn into_body(self) -> (r: Vec<u8>)
        ensures
            r@ == self.body(),
    {
        self.body
    }
}

/// The error for a chunk that could not be read.
pub fn body_read_error(message: String) -> (r: ProxyError)
    ensures
        r matches ProxyError::BodyReadError(m) && m@ == message@,
{
    ProxyError::BodyReadError(message)
}

/// A body never ends up longer than the `Content-Length` the program
/// announced, and a body that goes on reading stays below 20 MiB.
pub proof fn body_respects_limits(content_length: Option<usize>, body: Seq<u8>, chunk: Seq<u8>)
    ensures
        content_length is Some && body_step(content_length, body, chunk).0 is Ok
            ==> body_step(content_length, body, chunk).1.len() <= content_length->0,
        body_step(content_length, body, chunk).0 == Ok::<BodyProgress, ProxyError>(BodyProgress::More)
            ==> body_step(content_length, body, chunk).1.len() < MAX_BODY_SIZE,
        body_step(content_length, body, chunk).0 == Ok::<BodyProgress, ProxyError>(BodyProgress::Complete)
            ==> (content_length matches Some(n) && body_step(content_length, body, chunk).1.len() == n),
        body_step(content_length, body, chunk).0 == Ok::<BodyProgress, ProxyError>(BodyProgress::More)
            ==> body_step(content_length, body, chunk).1 == body + chunk,
{
}

} // verus!
