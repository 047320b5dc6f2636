//! Character-level building blocks shared by the rest of the crate:
//! decimal rendering of integers, decimal parsing in the way `str::parse`
//! does it for unsigned integers, prefixes and concatenation.
use vstd::prelude::*;
use vstd::string::StringExecFns;
use vstd::string::StringSliceAdditionalSpecFns;

verus! {

/// Appends one character to a string (`String::push`).
#[verifier::external_body]
pub(crate) fn push_char(s: &mut String, c: char)
    ensures
        final(s)@ == old(s)@.push(c),
{
    s.push(c)
}

/// Appends a string slice to a string.
pub fn push_str(s: &mut String, t: &str)
    ensures
        final(s)@ == old(s)@ + t@,
{
    s.append(t);
}

/// A string holding the characters of a string slice.
pub fn owned(t: &str) -> (r: String)
    ensures
        r@ == t@,
{
    let mut r = String::new();
    r.append(t);
    r
}

/// The character of a decimal digit.
pub open spec fn digit_char(d: int) -> char {
    if d == 0 { '0' }
    else if d == 1 { '1' }
    else if d == 2 { '2' }
    else if d == 3 { '3' }
    else if d == 4 { '4' }
    else if d == 5 { '5' }
    else if d == 6 { '6' }
    else if d == 7 { '7' }
    else if d == 8 { '8' }
    else { '9' }
}

/// The value of a decimal digit character, if it is one.
pub open spec fn digit_value(c: char) -> Option<int> {
    if '0' <= c && c <= '9' { Some(c as int - '0' as int) } else { None }
}

/// The decimal representation of a natural number, without leading zeros.
pub open spec fn decimal(n: nat) -> Seq<char>
    decreases n,
{
    if n < 10 {
        seq![digit_char(n as int)]
    } else {
        decimal(n / 10).push(digit_char((n % 10) as int))
    }
}

pub proof fn lemma_decimal_nonempty(n: nat)
    ensures
        decimal(n).len() >= 1,
    decreases n,
{
    if n >= 10 {
        lemma_decimal_nonempty(n / 10);
    }
}

fn digit_to_char(d: u64) -> (c: char)
    requires
        d < 10,
    ensures
        c == digit_char(d as int),
{
    if d == 0 { '0' }
    else if d == 1 { '1' }
    else if d == 2 { '2' }
    else if d == 3 { '3' }
    else if d == 4 { '4' }
    else if d == 5 { '5' }
    else if d == 6 { '6' }
    else if d == 7 { '7' }
    else if d == 8 { '8' }
    else { '9' }
}

/// Renders `n` in decimal, as `n.to_string()` does.
pub fn decimal_string(n: u64) -> (r: String)
    ensures
        r@ == decimal(n as nat),
{
    // collect the digits, least significant first
    let mut digits: Vec<char> = Vec::new();
    let mut m: u64 = n;
    while m >= 10
        invariant
            decimal(n as nat) == decimal(m as nat) + digits@.reverse(),
        decreases m,
    {
        let d = m % 10;
        proof {
            let high = m as nat;
            assert(decimal(high) == decimal(high / 10).push(digit_char((high % 10) as int)));
            let old_digits = digits@;
            assert(old_digits.push(digit_char(d as int)).reverse() =~= seq![digit_char(d as int)]
                + old_digits.reverse());
            assert(decimal(high / 10).push(digit_char(d as int)) + old_digits.reverse()
                =~= decimal(high / 10) + (seq![digit_char(d as int)] + old_digits.reverse()));
        }
        digits.push(digit_to_char(d));
        m = m / 10;
    }
    proof {
        let old_digits = digits@;
        assert(old_digits.push(digit_char(m as int)).reverse() =~= seq![digit_char(m as int)]
            + old_digits.reverse());
    }
    digits.push(digit_to_char(m));
    assert(digits@.reverse() =~= decimal(n as nat));
    let mut r = String::new();
    let mut i: usize = digits.len();
    while i > 0
        invariant
            i <= digits@.len(),
            r@ =~= digits@.subrange(i as int, digits@.len() as int).reverse(),
        decreases i,
    {
        i = i - 1;
        proof {
            assert(digits@.subrange(i as int, digits@.len() as int).reverse() =~= digits@.subrange(
                i as int + 1,
                digits@.len() as int,
            ).reverse().push(digits@[i as int]));
        }
        push_char(&mut r, digits[i]);
    }
    assert(digits@.subrange(0, digits@.len() as int) =~= digits@);
    r
}

/// `s` without a leading `+`, if it has one.
pub open spec fn sign_stripped(s: Seq<char>) -> Seq<char> {
    if s.len() > 0 && s[0] == '+' { s.drop_first() } else { s }
}

/// Whether every character of `s` is a decimal digit.
pub open spec fn all_digits(s: Seq<char>) -> bool {
    forall|i: int| 0 <= i < s.len() ==> #[trigger] digit_value(s[i]) is Some
}

/// Whether a character sequence is what `str::parse` accepts for an unsigned
/// integer: an optional `+` followed by at least one decimal digit.
pub open spec fn unsigned_syntax(s: Seq<char>) -> bool {
    sign_stripped(s).len() > 0 && all_digits(sign_stripped(s))
}

/// The numeric value of a string of decimal digits.
pub open spec fn digits_value(s: Seq<char>) -> int
    decreases s.len(),
{
    if s.len() == 0 {
        0
    } else {
        digits_value(s.drop_last()) * 10 + digit_value(s.last()).unwrap_or(0)
    }
}

/// What `str::parse` gives for an unsigned integer type whose largest value
/// is `max`: `Some` exactly when `s` is an optional `+` followed by decimal
/// digits whose value is at most `max`.
pub open spec fn parse_uint_spec(s: Seq<char>, max: int) -> Option<int> {
    if unsigned_syntax(s) && digits_value(sign_stripped(s)) <= max {
        Some(digits_value(sign_stripped(s)))
    } else {
        None
    }
}

/// What `s.parse::<u16>()` gives.
pub open spec fn parse_u16_spec(s: Seq<char>) -> Option<u16> {
    match parse_uint_spec(s, u16::MAX as int) {
        Some(v) => Some(v as u16),
        None => None,
    }
}

/// What `s.parse::<usize>()` gives.
pub open spec fn parse_usize_spec(s: Seq<char>) -> Option<usize> {
    match parse_uint_spec(s, usize::MAX as int) {
        Some(v) => Some(v as usize),
        None => None,
    }
}

proof fn lemma_digits_value_nonneg(s: Seq<char>)
    ensures
        digits_value(s) >= 0,
    decreases s.len(),
{
    if s.len() > 0 {
        lemma_digits_value_nonneg(s.drop_last());
    }
}

/// The characters of a string slice, in order.
pub fn chars_of(s: &str) -> (v: Vec<char>)
    ensures
        v@ == s@,
{
    let mut v: Vec<char> = Vec::new();
    for c in it: s.chars()
        invariant
            it.seq() == s@,
            v@ == s@.take(it.index() as int),
    {
        proof {
            assert(s@.take(it.index() as int).push(c) =~= s@.take(it.index() as int + 1));
        }
        v.push(c);
    }
    v
}

/// Parses an unsigned number of at most `max` the way `str::parse` does
/// for an unsigned integer type.
pub fn parse_uint(s: &str, max: u64) -> (r: Option<u64>)
    ensures
        match parse_uint_spec(s@, max as int) {
            Some(v) => r == Some(v as u64) && 0 <= v <= max,
            None => r is None,
        },
{
    let chars = chars_of(s);
    let n = chars.len();
    let start: usize = if n > 0 && chars[0] == '+' { 1 } else { 0 };
    let ghost body = chars@.subrange(start as int, n as int);
    assert(body =~= sign_stripped(s@));
    if start == n {
        return None;
    }
    let mut value: u64 = 0;
    let mut i: usize = start;
    while i < n
        invariant
            start <= i <= n,
            n == chars@.len(),
            body == chars@.subrange(start as int, n as int),
            chars@ == s@,
            body == sign_stripped(s@),
            value <= max,
            forall|j: int| start <= j < i ==> #[trigger] digit_value(chars@[j]) is Some,
            value as int == digits_value(chars@.subrange(start as int, i as int)),
        decreases n - i,
    {
        let c = chars[i];
        proof {
            assert(chars@.subrange(start as int, i as int + 1).drop_last() =~= chars@.subrange(
                start as int,
                i as int,
            ));
            lemma_digits_value_nonneg(chars@.subrange(start as int, i as int));
        }
        if !('0' <= c && c <= '9') {
            proof {
                assert(digit_value(body[i - start]) is None);
            }
            return None;
        }
        let d = (c as u64) - ('0' as u64);
        let next: u128 = (value as u128) * 10 + (d as u128);
        if next > max as u128 {
            // every further digit only makes the value larger
            proof {
                let k = (i - start + 1) as int;
                assert(body.take(k) =~= chars@.subrange(start as int, i as int + 1));
                assert(digits_value(body.take(k)) == next);
                if all_digits(body) {
                    lemma_digits_value_prefix_bound(body, k);
                }
            }
            return None;
        }
        value = next as u64;
        i = i + 1;
    }
    assert(chars@.subrange(start as int, n as int) =~= body);
    Some(value)
}

/// Parses an unsigned 16-bit number the way `str::parse::<u16>` does.
pub fn parse_u16(s: &str) -> (r: Option<u16>)
    ensures
        r == parse_u16_spec(s@),
{
    match parse_uint(s, 65535) {
        Some(v) => Some(v as u16),
        None => None,
    }
}

/// Parses a `usize` the way `str::parse::<usize>` does.
pub fn parse_usize(s: &str) -> (r: Option<usize>)
    ensures
        r == parse_usize_spec(s@),
{
    match parse_uint(s, usize::MAX as u64) {
        Some(v) => Some(v as usize),
        None => None,
    }
}

proof fn lemma_digits_value_prefix_bound(s: Seq<char>, k: int)
    requires
        0 <= k <= s.len(),
        all_digits(s),
    ensures
        digits_value(s) >= digits_value(s.take(k)),
    decreases s.len(),
{
    if k < s.len() {
        lemma_digits_value_prefix_bound(s.drop_last(), k);
        assert(s.drop_last().take(k) =~= s.take(k));
        lemma_digits_value_nonneg(s.drop_last());
    } else {
        assert(s.take(k) =~= s);
    }
}

/// The first `n` characters of `s` (all of it when it is shorter).
/// The characters of the first `n` bytes of the UTF-8 encoding of `s`
/// (what slicing `&s[..n]` gives).
pub open spec fn byte_prefix(s: Seq<char>, n: int) -> Seq<char> {
    vstd::utf8::decode_utf8(vstd::utf8::encode_utf8(s).subrange(0, n))
}

/// The first `n` bytes of `s`, which must end on a character boundary, as
/// slicing `&s[..n]` asks.
pub fn take_bytes(s: &str, n: usize) -> (r: String)
    requires
        vstd::utf8::is_char_boundary(s.spec_bytes(), n as int),
    ensures
        r@ == byte_prefix(s@, n as int),
{
    proof {
        broadcast use vstd::utf8::encode_utf8_decode_utf8;
    }
    let (head, _) = s.split_at(n);
    assert(head@ == vstd::utf8::decode_utf8(vstd::utf8::encode_utf8(head@)));
    owned(head)
}

pub fn take_chars(s: &str, n: usize) -> (r: String)
    ensures
        r@ == s@.take(if n <= s@.len() { n as int } else { s@.len() as int }),
{
    let mut r = String::new();
    let mut k: usize = 0;
    for c in it: s.chars()
        invariant
            it.seq() == s@,
            k as int == (if it.index() <= n { it.index() as int } else { n as int }),
            r@ == s@.take(k as int),
    {
        if k < n {
            proof {
                assert(s@.take(k as int).push(c) =~= s@.take(k as int + 1));
            }
            push_char(&mut r, c);
            k = k + 1;
        }
    }
    r
}

} // verus!

verus! {

/// `i` is the first position at or after `from` where `c` stands.
pub open spec fn first_char_at(s: Seq<char>, c: char, from: int, i: int) -> bool {
    &&& from <= i < s.len()
    &&& s[i] == c
    &&& forall|j: int| from <= j < i ==> s[j] != c
}

/// The first position at or after `from` where `c` stands, if any.
pub open spec fn find_char(s: Seq<char>, c: char, from: int) -> Option<int> {
    if exists|i: int| first_char_at(s, c, from, i) {
        Some(choose|i: int| first_char_at(s, c, from, i))
    } else {
        None
    }
}

/// A `--` starts at position `i`.
pub open spec fn dash2_at(s: Seq<char>, i: int) -> bool {
    0 <= i && i + 1 < s.len() && s[i] == '-' && s[i + 1] == '-'
}

/// `i` is where the first `--` at or after `from` starts.
pub open spec fn first_dash2_at(s: Seq<char>, from: int, i: int) -> bool {
    &&& from <= i
    &&& dash2_at(s, i)
    &&& forall|j: int| from <= j < i ==> !dash2_at(s, j)
}

/// Where the first `--` at or after `from` starts, if any.
pub open spec fn find_dash2(s: Seq<char>, from: int) -> Option<int> {
    if exists|i: int| first_dash2_at(s, from, i) {
        Some(choose|i: int| first_dash2_at(s, from, i))
    } else {
        None
    }
}

/// The first position at or after `from` where `c` stands.
pub fn find_char_from(v: &Vec<char>, c: char, from: usize) -> (r: Option<usize>)
    requires
        from <= v@.len(),
    ensures
        match r {
            Some(i) => find_char(v@, c, from as int) == Some(i as int) && from <= i < v@.len(),
            None => find_char(v@, c, from as int) is None,
        },
{
    let mut i = from;
    while i < v.len()
        invariant
            from <= i <= v@.len(),
            forall|j: int| from <= j < i ==> v@[j] != c,
        decreases v@.len() - i,
    {
        if v[i] == c {
            assert(first_char_at(v@, c, from as int, i as int));
            let ghost k = choose|k: int| first_char_at(v@, c, from as int, k);
            assert(k == i as int) by {
                if k < i as int {
                    assert(v@[k] != c);
                } else if k > i as int {
                    assert(v@[i as int] != c);
                }
            }
            return Some(i);
        }
        i = i + 1;
    }
    assert(!exists|k: int| first_char_at(v@, c, from as int, k));
    None
}

/// Where the first `--` at or after `from` starts.
pub fn find_dash2_from(v: &Vec<char>, from: usize) -> (r: Option<usize>)
    requires
        from <= v@.len(),
    ensures
        match r {
            Some(i) => find_dash2(v@, from as int) == Some(i as int) && from <= i && i + 1 < v@.len(),
            None => find_dash2(v@, from as int) is None,
        },
{
    let mut i = from;
    while i < v.len() && i + 1 < v.len()
        invariant
            from <= i <= v@.len(),
            forall|j: int| from <= j < i ==> !dash2_at(v@, j),
        decreases v@.len() - i,
    {
        if v[i] == '-' && v[i + 1] == '-' {
            assert(first_dash2_at(v@, from as int, i as int));
            let ghost k = choose|k: int| first_dash2_at(v@, from as int, k);
            assert(k == i as int) by {
                if k < i as int {
                    assert(!dash2_at(v@, k));
                } else if k > i as int {
                    assert(!dash2_at(v@, i as int));
                }
            }
            return Some(i);
        }
        i = i + 1;
    }
    assert(!exists|k: int| first_dash2_at(v@, from as int, k)) by {
        assert forall|k: int| !first_dash2_at(v@, from as int, k) by {
            if from <= k && dash2_at(v@, k) {
                assert(k < i);
            }
        }
    }
    None
}

/// The characters `v[a..b]` as a string.
pub fn string_of_range(v: &Vec<char>, a: usize, b: usize) -> (r: String)
    requires
        a <= b <= v@.len(),
    ensures
        r@ == v@.subrange(a as int, b as int),
{
    let mut r = String::new();
    let mut i = a;
    while i < b
        invariant
            a <= i <= b,
            b <= v@.len(),
            r@ == v@.subrange(a as int, i as int),
        decreases b - i,
    {
        proof {
            assert(v@.subrange(a as int, i as int).push(v@[i as int]) =~= v@.subrange(a as int, i as int + 1));
        }
        push_char(&mut r, v[i]);
        i = i + 1;
    }
    r
}

} // verus!

verus! {

/// `s` with every occurrence of `pat` replaced by `rep`, scanning from the
/// left and never overlapping, as `str::replace` does (for a non-empty
/// pattern).
pub open spec fn replace_all(s: Seq<char>, pat: Seq<char>, rep: Seq<char>) -> Seq<char>
    decreases s.len(),
{
    if pat.len() == 0 || s.len() < pat.len() {
        s
    } else if s.take(pat.len() as int) == pat {
        rep + replace_all(s.skip(pat.len() as int), pat, rep)
    } else {
        seq![s[0]] + replace_all(s.drop_first(), pat, rep)
    }
}

/// Whether `pat` occurs in `s` at position `i`.
fn matches_at(s: &Vec<char>, pat: &Vec<char>, i: usize) -> (r: bool)
    requires
        i + pat@.len() <= s@.len(),
    ensures
        r == (s@.subrange(i as int, i + pat@.len()) == pat@),
{
    let slen = s.len();
    let mut k: usize = 0;
    while k < pat.len()
        invariant
            k <= pat@.len(),
            i + pat@.len() <= s@.len(),
            slen == s@.len(),
            forall|j: int| 0 <= j < k ==> s@[i + j] == pat@[j],
        decreases pat@.len() - k,
    {
        if s[i + k] != pat[k] {
            assert(s@.subrange(i as int, i + pat@.len())[k as int] != pat@[k as int]);
            return false;
        }
        k = k + 1;
    }
    assert(s@.subrange(i as int, i + pat@.len()) =~= pat@);
    true
}

/// Replaces every occurrence of a non-empty `pat` in `s` by `rep`.
pub fn replace(s: &str, pat: &str, rep: &str) -> (r: String)
    requires
        pat@.len() > 0,
    ensures
        r@ == replace_all(s@, pat@, rep@),
{
    let v = chars_of(s);
    let p = chars_of(pat);
    let mut out = String::new();
    let mut i: usize = 0;
    assert(v@.skip(0) =~= v@);
    while i < v.len()
        invariant
            v@ == s@,
            p@ == pat@,
            p@.len() > 0,
            i <= v@.len(),
            replace_all(s@, pat@, rep@) == out@ + replace_all(v@.skip(i as int), pat@, rep@),
        decreases v@.len() - i,
    {
        let ghost rest = v@.skip(i as int);
        if p.len() <= v.len() && i <= v.len() - p.len() && matches_at(&v, &p, i) {
            proof {
                assert(rest.take(pat@.len() as int) =~= v@.subrange(i as int, i + pat@.len()));
                assert(rest.skip(pat@.len() as int) =~= v@.skip(i + pat@.len()));
            }
            push_str(&mut out, rep);
            i = i + p.len();
        } else {
            proof {
                if rest.len() >= pat@.len() {
                    assert(rest.take(pat@.len() as int) =~= v@.subrange(i as int, i + pat@.len()));
                }
                assert(rest.drop_first() =~= v@.skip(i + 1));
                assert(rest[0] == v@[i as int]);
                if rest.len() < pat@.len() {
                    assert(replace_all(rest.drop_first(), pat@, rep@) == rest.drop_first());
                    assert(rest =~= seq![rest[0]] + rest.drop_first());
                }
            }
            push_char(&mut out, v[i]);
            i = i + 1;
        }
    }
    proof {
        assert(v@.skip(i as int) =~= Seq::<char>::empty());
    }
    out
}

} // verus!

verus! {

proof fn lemma_digit_char_value(d: int)
    requires
        0 <= d < 10,
    ensures
        digit_value(digit_char(d)) == Some(d),
{
}

/// The decimal form of a number is all digits, and reading it back gives
/// the number.
pub proof fn lemma_decimal_digits(n: nat)
    ensures
        all_digits(decimal(n)),
        decimal(n).len() >= 1,
        digits_value(decimal(n)) == n,
        decimal(n)[0] != '+',
    decreases n,
{
    if n < 10 {
        lemma_digit_char_value(n as int);
        assert(decimal(n).drop_last() =~= Seq::<char>::empty());
        assert(digits_value(decimal(n)) == digits_value(Seq::<char>::empty()) * 10 + n);
    } else {
        lemma_decimal_digits(n / 10);
        lemma_digit_char_value((n % 10) as int);
        let d = decimal(n);
        assert(d.drop_last() =~= decimal(n / 10));
        assert forall|i: int| 0 <= i < d.len() implies #[trigger] digit_value(d[i]) is Some by {
            if i < d.len() - 1 {
                assert(d[i] == decimal(n / 10)[i]);
            }
        }
        assert(d[0] == decimal(n / 10)[0]);
        assert(d.last() == digit_char((n % 10) as int));
        assert(digits_value(d) == digits_value(decimal(n / 10)) * 10 + (n % 10));
        assert((n / 10) * 10 + n % 10 == n);
    }
}

/// A number written in decimal reads back as that number: what
/// `decimal_string` writes, `parse_u16` reads.
pub proof fn decimal_parse_round_trip(n: u16)
    ensures
        parse_u16_spec(decimal(n as nat)) == Some(n),
{
    lemma_decimal_digits(n as nat);
    assert(sign_stripped(decimal(n as nat)) == decimal(n as nat));
}

} // verus!
