//! How a request's `Host` header names a session: the first DNS label is
//! `<session uuid>--<port>`, as in `1b4e28ba-2fa1-11d2-883f-0000f86ab05c--8080.example.com`.
use vstd::prelude::*;
use crate::text::{chars_of, find_char, find_char_from, find_dash2, find_dash2_from, string_of_range};

verus! {

/// The host up to its first `.` (all of it when it has none), which is what
/// `host.split('.').next()` gives.
pub open spec fn first_label(h: Seq<char>) -> Seq<char> {
    match find_char(h, '.', 0) {
        Some(i) => h.take(i),
        None => h,
    }
}

/// The first two parts of `label.split("--")`: the part before the first
/// `--`, and the part between the first and the second `--` (or the end),
/// which is missing when there is no `--` at all.
pub open spec fn label_parts(label: Seq<char>) -> (Seq<char>, Option<Seq<char>>) {
    match find_dash2(label, 0) {
        None => (label, None),
        Some(i) => (
            label.take(i),
            Some(
                match find_dash2(label, i + 2) {
                    Some(j) => label.subrange(i + 2, j),
                    None => label.subrange(i + 2, label.len() as int),
                },
            ),
        ),
    }
}

/// The session part and the port part of a host.
pub open spec fn host_parts(h: Seq<char>) -> (Seq<char>, Option<Seq<char>>) {
    label_parts(first_label(h))
}

/// Splits a host into the text of its session part and, if present, of its
/// port part.
pub fn split_host(host: &str) -> (r: (String, Option<String>))
    ensures
        r.0@ == host_parts(host@).0,
        match r.1 {
            Some(p) => host_parts(host@).1 == Some(p@),
            None => host_parts(host@).1 is None,
        },
{
    let all = chars_of(host);
    let end = match find_char_from(&all, '.', 0) {
        Some(i) => i,
        None => all.len(),
    };
    let label_text = string_of_range(&all, 0, end);
    assert(label_text@ == first_label(host@));
    let label = chars_of(label_text.as_str());
    match find_dash2_from(&label, 0) {
        None => {
            let whole = string_of_range(&label, 0, label.len());
            assert(label@.subrange(0, label@.len() as int) =~= label@);
            (whole, None)
        },
        Some(i) => {
            let first = string_of_range(&label, 0, i);
            assert(label@.subrange(0, i as int) =~= label@.take(i as int));
            let second = match find_dash2_from(&label, i + 2) {
                Some(j) => string_of_range(&label, i + 2, j),
                None => string_of_range(&label, i + 2, label.len()),
            };
            (first, Some(second))
        },
    }
}

} // verus!
