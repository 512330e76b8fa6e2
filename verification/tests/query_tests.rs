use goal_digger::query::Query;
use goal_digger::urlcode::{can_urldecode, urldecode, urldecode_bytes, urldecode_noop};

#[test]
fn urldecode_plus_and_percent() {
    assert_eq!(urldecode("a%20b+c"), "a b c");
    assert_eq!(urldecode("%41%42"), "AB");
    assert_eq!(urldecode("%C3%A9t%C3%A9"), "\u{e9}t\u{e9}");
}

#[test]
fn urldecode_plain_text_unchanged() {
    assert_eq!(urldecode("will-spain-win"), "will-spain-win");
    assert_eq!(urldecode(""), "");
    assert_eq!(urldecode("caf\u{e9}"), "caf\u{e9}");
}

#[test]
fn urldecode_malformed_escapes_kept() {
    assert_eq!(urldecode("%zz"), "%zz");
    assert_eq!(urldecode("100%"), "100%");
    assert_eq!(urldecode("%4"), "%4");
    assert_eq!(urldecode("%-1"), "%-1");
    assert_eq!(urldecode("%%41"), "%A");
}

#[test]
fn urldecode_sign_before_one_digit() {
    // u8::from_str_radix accepts a leading '+'.
    assert_eq!(urldecode("%+1x"), "\u{1}x");
}

#[test]
fn urldecode_invalid_utf8_replaced() {
    assert_eq!(urldecode("%FF"), "\u{fffd}");
    assert_eq!(urldecode_bytes(b"%FF+"), vec![0xffu8, b' ']);
}

#[test]
fn urldecode_noop_returns_input() {
    assert_eq!(urldecode_noop("a%20b+c"), "a%20b+c");
}

#[test]
fn can_urldecode_detects_split_character() {
    assert!(!can_urldecode("%a\u{e9}".as_bytes()));
    assert!(can_urldecode("%\u{e9}".as_bytes()));
    assert!(can_urldecode("x%41\u{e9}".as_bytes()));
    assert!(can_urldecode(b"plain"));
}

#[test]
fn parse_reads_pairs_in_order() {
    let q = Query::parse("/api/edge?slug=will-spain-win&outcome=Yes&model_prob=0.31");
    assert_eq!(q.get("slug"), Some("will-spain-win"));
    assert_eq!(q.get("outcome"), Some("Yes"));
    assert_eq!(q.get("model_prob"), Some("0.31"));
    assert_eq!(q.get("missing"), None);
}

#[test]
fn parse_without_query_is_empty() {
    let q = Query::parse("/api/board");
    assert_eq!(q.get(""), None);
    assert_eq!(q.get("board"), None);
}

#[test]
fn parse_first_key_wins() {
    let q = Query::parse("/x?a=1&a=2");
    assert_eq!(q.get("a"), Some("1"));
}

#[test]
fn parse_skips_empty_pieces_and_keeps_bare_keys() {
    let q = Query::parse("/x?&&b&c=");
    assert_eq!(q.get("b"), Some(""));
    assert_eq!(q.get("c"), Some(""));
    assert_eq!(q.get(""), None);
}

#[test]
fn parse_cuts_at_first_equals_and_first_question_mark() {
    let q = Query::parse("/x?k=v=w&z=1?y=2");
    assert_eq!(q.get("k"), Some("v=w"));
    assert_eq!(q.get("z"), Some("1?y=2"));
}

#[test]
fn parse_decodes_keys_and_values() {
    let q = Query::parse("/x?team%20name=C%C3%B4te+d%27Ivoire");
    assert_eq!(q.get("team name"), Some("C\u{f4}te d'Ivoire"));
}

#[test]
fn can_parse_matches_decodability() {
    assert!(Query::can_parse("/x?a=1&b=%41"));
    assert!(!Query::can_parse("/x?a=%a\u{e9}"));
    // The same bytes split across pieces are fine.
    assert!(Query::can_parse("/x?a=%a&\u{e9}"));
}
