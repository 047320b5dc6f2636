//! HTTP status codes, carried as their number.
use vstd::prelude::*;

verus! {

/// Whether `http::StatusCode::from_u16` accepts a number: three digits,
/// 100 to 999.
pub open spec fn valid_status_code(code: u16) -> bool {
    100 <= code && code < 1000
}

pub fn is_valid_status_code(code: u16) -> (r: bool)
    ensures
        r == valid_status_code(code),
{
    100 <= code && code < 1000
}

/// The reason phrase that `http` registers for a status code, such as
/// "Not Found" for 404, or `None` for a code it has no phrase for.
pub uninterp spec fn status_reason(code: u16) -> Option<Seq<char>>;

/// The canonical reason phrase of a status code, from
/// `http::StatusCode::canonical_reason`. The table is the `http` crate's;
/// the result is named.
#[verifier::external_body]
pub(crate) fn canonical_reason(code: u16) -> (r: Option<String>)
    requires
        valid_status_code(code),
    ensures
        match r {
            Some(s) => status_reason(code) == Some(s@),
            None => status_reason(code) is None,
        },
{
    match http::StatusCode::from_u16(code) {
        Ok(status) => status.canonical_reason().map(|s| s.to_string()),
        Err(_) => None,
    }
}

} // verus!
