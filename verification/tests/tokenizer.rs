//! Tests of the BBCode tokenizer: fragment kinds, exact byte ranges, and
//! the round trip back to the input text.

use transmark::bbcode::tokenizer::{split_fragments, tokenize, Fragment};

use ExpectedFragment::{EndTag, StartTag, Text};

const SIMPLE_BLOCK: &str = r"[tag]text[/tag]";
const BLOCK_WITH_VALUE: &str = r"[tag=value]text[/tag]";
const BLOCK_WITH_PARAMS: &str = r#"[tag abc="val1" def="val2"]text[/tag]"#;
const BLOCK_WITH_BOTH: &str = r#"[tag=value abc="val1" def="val2"]text[/tag]"#;
const TEXT_PREFIX_BLOCK: &str = r"You can make [b]bold text![/b]";
const TEXT_SUFFIX_BLOCK: &str = r"[u]Underline[/u] text with the 'u' tag!";
const TEXT_INFIX_BLOCK: &str = "Paragraph 1\n[h1]Heading[/h1]\nParagraph 2";
const NESTED_BLOCK: &str = r"[s]Stricken and [i]italicized[/i] text[/s]";

enum ExpectedFragment {
    Text(&'static str),
    StartTag(&'static str, &'static str),
    EndTag(&'static str),
}

type ExpectedSequence = &'static [(&'static str, ExpectedFragment)];

static SIMPLE_BLOCK_EXP: ExpectedSequence = &[
    ("root", StartTag("tag", "tag")),
    ("inner", Text("text")),
    ("root", EndTag("tag")),
];

static BLOCK_WITH_VALUE_EXP: ExpectedSequence = &[
    ("root", StartTag("tag", "tag=value")),
    ("inner", Text("text")),
    ("root", EndTag("tag")),
];

static BLOCK_WITH_PARAMS_EXP: ExpectedSequence = &[
    ("root", StartTag("tag", r#"tag abc="val1" def="val2""#)),
    ("inner", Text("text")),
    ("root", EndTag("tag")),
];

static BLOCK_WITH_BOTH_EXP: ExpectedSequence = &[
    ("root", StartTag("tag", r#"tag=value abc="val1" def="val2""#)),
    ("inner", Text("text")),
    ("root", EndTag("tag")),
];

static TEXT_PREFIX_BLOCK_EXP: ExpectedSequence = &[
    ("prefix", Text("You can make ")),
    ("bold", StartTag("b", "b")),
    ("inner", Text("bold text!")),
    ("bold", EndTag("b")),
];

static TEXT_SUFFIX_BLOCK_EXP: ExpectedSequence = &[
    ("underline", StartTag("u", "u")),
    ("inner", Text("Underline")),
    ("underline", EndTag("u")),
    ("suffix", Text(" text with the 'u' tag!")),
];

static TEXT_INFIX_BLOCK_EXP: ExpectedSequence = &[
    ("prefix", Text("Paragraph 1\n")),
    ("heading", StartTag("h1", "h1")),
    ("inner", Text("Heading")),
    ("heading", EndTag("h1")),
    ("suffix", Text("\nParagraph 2")),
];

static NESTED_BLOCK_EXP: ExpectedSequence = &[
    ("strike", StartTag("s", "s")),
    ("inner prefix", Text("Stricken and ")),
    ("italic", StartTag("i", "i")),
    ("inner", Text("italicized")),
    ("italic", EndTag("i")),
    ("inner suffix", Text(" text")),
    ("strike", EndTag("s")),
];

fn generate(seq: ExpectedSequence) -> Vec<(String, Fragment)> {
    let mut i = 0;

    seq.iter()
        .map(move |(label, expected)| match expected {
            Text(value) => {
                let start = i;

                i += value.len();

                (
                    format!("{label} text"),
                    Fragment::new_text(value.as_bytes().to_vec(), start, i),
                )
            }
            StartTag(name, param) => {
                i += 1; // Skip [

                let name_len = name.len();
                let param_len = param.len();
                let name_end = i + name_len;
                let param_end = i + param_len;

                let pair = (
                    format!("{label} start tag"),
                    Fragment::new_start_tag_raw(
                        name.as_bytes().to_vec(),
                        i,
                        name_end,
                        param.as_bytes().to_vec(),
                        i,
                        param_end,
                    ),
                );

                i = param_end + 1; // Skip ]

                pair
            }
            EndTag(name) => {
                i += 2; // Skip [/

                let start = i;

                i += name.len();

                let pair = (
                    format!("{label} end tag"),
                    Fragment::new_end_tag_raw(name.as_bytes().to_vec(), start, i),
                );

                i += 1; // Skip ]

                pair
            }
        })
        .collect()
}

fn check(input: &str, expected: ExpectedSequence) {
    let mut fragments = split_fragments(input.as_bytes());

    for (label, exp_fragment) in generate(expected) {
        let expect_msg = format!("no {label}");

        assert_eq!(
            fragments.next().expect(expect_msg.as_str()),
            exp_fragment,
            "invalid {label}"
        );
    }

    assert_eq!(fragments.next(), None, "extra fragment(s) collected");
}

#[test]
fn simple_block() {
    check(SIMPLE_BLOCK, SIMPLE_BLOCK_EXP);
}

#[test]
fn block_with_value() {
    check(BLOCK_WITH_VALUE, BLOCK_WITH_VALUE_EXP);
}

#[test]
fn block_with_params() {
    check(BLOCK_WITH_PARAMS, BLOCK_WITH_PARAMS_EXP);
}

#[test]
fn block_with_both() {
    check(BLOCK_WITH_BOTH, BLOCK_WITH_BOTH_EXP);
}

#[test]
fn text_prefix_block() {
    check(TEXT_PREFIX_BLOCK, TEXT_PREFIX_BLOCK_EXP);
}

#[test]
fn text_suffix_block() {
    check(TEXT_SUFFIX_BLOCK, TEXT_SUFFIX_BLOCK_EXP);
}

#[test]
fn text_infix_block() {
    check(TEXT_INFIX_BLOCK, TEXT_INFIX_BLOCK_EXP);
}

#[test]
fn nested_block() {
    check(NESTED_BLOCK, NESTED_BLOCK_EXP);
}

fn reassemble(input: &str) -> String {
    let frags = tokenize(input.as_bytes());
    let mut out: Vec<u8> = Vec::new();
    for f in &frags {
        out.extend_from_slice(&f.source_text());
    }
    String::from_utf8(out).unwrap()
}

#[test]
fn round_trip_well_formed() {
    for input in [
        SIMPLE_BLOCK,
        BLOCK_WITH_VALUE,
        BLOCK_WITH_PARAMS,
        BLOCK_WITH_BOTH,
        TEXT_PREFIX_BLOCK,
        TEXT_SUFFIX_BLOCK,
        TEXT_INFIX_BLOCK,
        NESTED_BLOCK,
    ] {
        assert_eq!(reassemble(input), input);
    }
}

#[test]
fn round_trip_malformed() {
    for input in [
        "",
        "plain text only",
        "[unclosed",
        "stray ] bracket",
        "[tag=]text[/tag]",
        "[a k=\"v w\"]x[/a]",
        "[[b]]nested brackets[[/b]]",
        "[*] not a tag",
    ] {
        assert_eq!(reassemble(input), input);
    }
}

#[test]
fn malformed_tag_is_text() {
    let frags = tokenize(b"[tag=]x");
    assert_eq!(frags.len(), 1);
    assert_eq!(frags[0], Fragment::new_text(b"[tag=]x".to_vec(), 0, 7));
}

#[test]
fn quoted_param_value_may_hold_brackets() {
    let frags = tokenize(br#"[a k="x]y"]t[/a]"#);
    assert_eq!(
        frags[0],
        Fragment::new_start_tag_raw(b"a".to_vec(), 1, 2, br#"a k="x]y""#.to_vec(), 1, 10)
    );
}
