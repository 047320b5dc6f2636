use hydra::ids::uuid_short_text;
use hydra::proxy::handler::ParsedHost;
use hydra::server::session::session_key;
use hydra::text::{decimal_string, parse_u16, parse_uint, parse_usize, replace, take_chars};

const SAMPLE: u128 = 0x550e8400_e29b_41d4_a716_446655440000;

#[test]
fn decimal_renders_like_to_string() {
    assert_eq!(decimal_string(0), "0");
    assert_eq!(decimal_string(7), "7");
    assert_eq!(decimal_string(3100), "3100");
    assert_eq!(decimal_string(u64::MAX), u64::MAX.to_string());
}

#[test]
fn parse_u16_follows_str_parse() {
    for s in ["8080", "+80", "0", "65535", "00042", "", "+", "-1", "65536", "12a", " 1", "+-1", "99999999999999999999"] {
        assert_eq!(parse_u16(s), s.parse::<u16>().ok(), "input {s:?}");
    }
}

#[test]
fn parse_usize_and_bounded_parse() {
    assert_eq!(parse_usize("1234"), Some(1234));
    assert_eq!(parse_usize("18446744073709551615"), "18446744073709551615".parse::<usize>().ok());
    assert_eq!(parse_usize("18446744073709551616"), None);
    assert_eq!(parse_uint("10", 9), None);
    assert_eq!(parse_uint("9", 9), Some(9));
}

#[test]
fn take_chars_keeps_a_prefix() {
    assert_eq!(take_chars("abcdef", 3), "abc");
    assert_eq!(take_chars("ab", 5), "ab");
    assert_eq!(take_chars("héllo", 2), "hé");
}

#[test]
fn replace_matches_str_replace() {
    for (s, p, r) in [("a80b80", "80", "443"), ("aaa", "aa", "b"), ("none", "x", "y"), ("8080", "80", "443"), ("", "a", "b")] {
        assert_eq!(replace(s, p, r), s.replace(p, r), "input {s:?}");
    }
}

#[test]
fn uuid_text_is_hyphenated_lowercase() {
    assert_eq!(session_key(SAMPLE), "session:550e8400-e29b-41d4-a716-446655440000");
    assert_eq!(session_key(0), "session:00000000-0000-0000-0000-000000000000");
    assert_eq!(uuid_short_text(SAMPLE), "550e8");
}

#[test]
fn uuid_parsing_round_trips() {
    let parse = |h: &str| ParsedHost::parse(h.to_string()).ok().map(|p| p.session_id);
    assert_eq!(parse("550e8400-e29b-41d4-a716-446655440000.example.com"), Some(SAMPLE));
    assert_eq!(parse("550E8400E29B41D4A716446655440000.example.com"), Some(SAMPLE));
    assert_eq!(parse("not-a-uuid.example.com"), None);
    let key = session_key(12345);
    assert_eq!(parse(&key["session:".len()..]), Some(12345));
}
