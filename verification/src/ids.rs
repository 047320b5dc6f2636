//! Identifiers: UUIDs are carried as their 128-bit value; their text form
//! and their parsing go through the `uuid` crate.
use vstd::prelude::*;
use crate::text::{digit_char, take_chars};
use vstd::string::StringExecFns;

verus! {

/// The lowercase hexadecimal character of a nibble.
pub open spec fn hex_char(d: int) -> char {
    if d < 10 { digit_char(d) }
    else if d == 10 { 'a' }
    else if d == 11 { 'b' }
    else if d == 12 { 'c' }
    else if d == 13 { 'd' }
    else if d == 14 { 'e' }
    else { 'f' }
}

pub open spec fn pow16(e: nat) -> nat
    decreases e,
{
    if e == 0 { 1 } else { 16 * pow16((e - 1) as nat) }
}

/// The `k`-th hexadecimal digit of `v`, counting from the most significant
/// of its 32 digits.
pub open spec fn nibble(v: u128, k: int) -> int {
    (v as int / pow16((31 - k) as nat) as int) % 16
}

/// How many hyphens stand before position `i` of the hyphenated form.
pub open spec fn hyphens_before(i: int) -> int {
    (if i > 8 { 1int } else { 0 }) + (if i > 13 { 1int } else { 0 }) + (if i > 18 { 1int } else { 0 })
        + (if i > 23 { 1int } else { 0 })
}

/// The hyphenated lowercase form of a UUID, `xxxxxxxx-xxxx-xxxx-xxxx-xxxxxxxxxxxx`,
/// its digits taken from the most significant end.
pub open spec fn uuid_text(v: u128) -> Seq<char> {
    Seq::new(
        36,
        |i: int|
            if i == 8 || i == 13 || i == 18 || i == 23 {
                '-'
            } else {
                hex_char(nibble(v, i - hyphens_before(i)))
            },
    )
}

/// What `uuid::Uuid::parse_str` makes of a string: the value of the UUID it
/// denotes, or `None` where it reports an error.
pub uninterp spec fn uuid_parse(s: Seq<char>) -> Option<u128>;

/// Renders a UUID the way `uuid::Uuid`'s `Display` does: hyphenated, lowercase.
/// The contract states the whole of that format.
#[verifier::external_body]
pub(crate) fn uuid_to_text(id: u128) -> (r: String)
    ensures
        r@ == uuid_text(id),
{
    uuid::Uuid::from_u128(id).to_string()
}

/// Parses a UUID with `uuid::Uuid::parse_str` and hands back its 128-bit value.
/// The accepted forms are many (simple, hyphenated, braced, URN), so the
/// result is named; the crate's documentation promises that every form it
/// generates parses back, which the second clause states for the hyphenated
/// form.
#[verifier::external_body]
pub(crate) fn uuid_from_text(s: &str) -> (r: Option<u128>)
    ensures
        r == uuid_parse(s@),
        forall|v: u128| s@ == uuid_text(v) ==> r == Some(v),
{
    match uuid::Uuid::parse_str(s) {
        Ok(u) => Some(u.as_u128()),
        Err(_) => None,
    }
}

/// The first five characters of the hyphenated form of a UUID, as used in
/// log-friendly display ids such as `tck-1a2b3`.
pub open spec fn uuid_short(v: u128) -> Seq<char> {
    uuid_text(v).take(5)
}

pub fn uuid_short_text(id: u128) -> (r: String)
    ensures
        r@ == uuid_short(id),
{
    let full = uuid_to_text(id);
    take_chars(full.as_str(), 5)
}

} // verus!
