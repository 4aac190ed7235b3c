//! Tests of parameter splitting and the structural errors of the
//! recursive-descent parse.

use transmark::bbcode::parser::NodeTag;
use transmark::bbcode::tokenizer::{tokenize, Fragment};
use transmark::bbcode::{parse, Error, ErrorKind};

fn bv(s: &str) -> Vec<u8> {
    s.as_bytes().to_vec()
}

fn start_tag(input: &str) -> NodeTag {
    let frags = tokenize(input.as_bytes());
    match &frags[0] {
        Fragment::StartTag(t) => NodeTag::from_fragment(t),
        _ => panic!("expected a start tag"),
    }
}

fn parse_err(input: &str) -> Error {
    parse(input.as_bytes()).unwrap_err()
}

#[test]
fn param_unkeyed() {
    let t = start_tag("[tag=value]");
    let p = t.get(b"").expect("unkeyed parameter");
    assert_eq!(p.value, bv("value"));
    assert_eq!(p.key, bv(""));
    assert_eq!((p.start, p.end), (5, 10));
    assert!(t.get(b"abc").is_none());
}

#[test]
fn param_keyed_pair() {
    let t = start_tag(r#"[tag abc="val1" def="val2"]"#);
    assert_eq!(t.get(b"abc").expect("abc").value, bv("val1"));
    assert_eq!(t.get(b"def").expect("def").value, bv("val2"));
    assert!(t.get(b"").is_none());
}

#[test]
fn param_unkeyed_and_keyed_together() {
    let t = start_tag(r#"[tag=value abc="val1" def="val2"]"#);
    assert_eq!(t.get(b"").expect("unkeyed").value, bv("value"));
    assert_eq!(t.get(b"abc").expect("abc").value, bv("val1"));
    assert_eq!(t.get(b"def").expect("def").value, bv("val2"));
}

#[test]
fn param_last_wins_on_duplicate_key() {
    let t = start_tag(r#"[tag a="1" a="2"]"#);
    assert_eq!(t.get(b"a").expect("a").value, bv("2"));
}

#[test]
fn param_quoted_unkeyed_is_stripped() {
    let t = start_tag(r#"[quote="Anon"]"#);
    assert_eq!(t.get(b"").expect("unkeyed").value, bv("Anon"));
}

#[test]
fn param_name_and_range() {
    let t = start_tag("[tag=value]");
    let (name, start, end) = t.name();
    assert_eq!(name, bv("tag"));
    assert_eq!((start, end), (1, 4));
}

#[test]
fn unclosed_tag_at_end_of_input() {
    assert_eq!(
        parse_err("[b]bold"),
        Error { value: bv("b"), start: 1, end: 2, kind: ErrorKind::UnclosedTag }
    );
}

#[test]
fn unclosed_tag_on_mismatched_end() {
    assert_eq!(
        parse_err("[b][i]x[/b]"),
        Error { value: bv("i"), start: 4, end: 5, kind: ErrorKind::UnclosedTag }
    );
}

#[test]
fn unclosed_innermost_tag_reported() {
    assert_eq!(
        parse_err("[b][i]x"),
        Error { value: bv("i"), start: 4, end: 5, kind: ErrorKind::UnclosedTag }
    );
}

#[test]
fn unopened_tag() {
    assert_eq!(
        parse_err("text[/b]"),
        Error { value: bv("b"), start: 6, end: 7, kind: ErrorKind::UnopenedTag }
    );
}

#[test]
fn unknown_tag() {
    assert_eq!(
        parse_err("[foo]x[/foo]"),
        Error { value: bv("foo"), start: 1, end: 4, kind: ErrorKind::UnknownTag }
    );
}

#[test]
fn verbatim_content_rejects_nesting() {
    assert_eq!(
        parse_err("[code][b]x[/b][/code]"),
        Error {
            value: bv("code"),
            start: 1,
            end: 5,
            kind: ErrorKind::UnexpectedTag { name: bv("b"), start: 7, end: 8 },
        }
    );
}

#[test]
fn end_tag_must_match_case_exactly() {
    assert_eq!(
        parse_err("[B]x[/b]"),
        Error { value: bv("B"), start: 1, end: 2, kind: ErrorKind::UnclosedTag }
    );
}

#[test]
fn structural_errors_come_before_construction_errors() {
    // The whole descent runs before any tag is built, so the unclosed tag
    // at the end wins over the earlier unknown tag.
    assert_eq!(parse_err("[foo]x[/foo][baz]").kind, ErrorKind::UnclosedTag);
}

#[test]
fn leftmost_construction_error_wins() {
    assert_eq!(parse_err("[foo]x[/foo][size=abc]y[/size]").kind, ErrorKind::UnknownTag);
    assert_eq!(parse_err("[b][foo]x[/foo][/b][baz]y[/baz]").kind, ErrorKind::UnknownTag);
}

#[test]
fn error_kind_descriptions() {
    assert_eq!(ErrorKind::UnknownTag.describe(), "unknown tag");
    assert_eq!(ErrorKind::UnclosedTag.describe(), "unclosed tag");
    assert_eq!(ErrorKind::UnopenedTag.describe(), "unopened tag");
    assert_eq!(ErrorKind::MissingInner.describe(), "missing required inner text");
}
