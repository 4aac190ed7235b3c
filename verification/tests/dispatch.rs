//! Tests of the tag construction rules: one scenario per pattern, with
//! exact expected trees.

use transmark::bbcode::{parse, Error, ErrorKind};
use transmark::tree::{TmDoc, TreeNode};

fn bv(s: &str) -> Vec<u8> {
    s.as_bytes().to_vec()
}

fn text(s: &str) -> TreeNode {
    TreeNode::Text { value: bv(s) }
}

fn html(s: &str) -> TreeNode {
    TreeNode::Html { value: bv(s) }
}

fn doc(children: Vec<TreeNode>) -> TmDoc {
    TmDoc(TreeNode::Root { children })
}

fn parsed(input: &str) -> TmDoc {
    parse(input.as_bytes()).unwrap()
}

fn parse_err(input: &str) -> Error {
    parse(input.as_bytes()).unwrap_err()
}

#[test]
fn empty_input_parses_to_empty_root() {
    assert_eq!(parsed(""), doc(vec![]));
}

#[test]
fn plain_text_document() {
    assert_eq!(parsed("just text"), doc(vec![text("just text")]));
}

#[test]
fn simple_wraps() {
    assert_eq!(
        parsed("[b]x[/b]"),
        doc(vec![TreeNode::Strong { children: vec![text("x")] }])
    );
    assert_eq!(
        parsed("[i]x[/i]"),
        doc(vec![TreeNode::Emphasis { children: vec![text("x")] }])
    );
    assert_eq!(
        parsed("[s]x[/s]"),
        doc(vec![TreeNode::Delete { children: vec![text("x")] }])
    );
}

#[test]
fn tag_names_match_case_insensitively() {
    assert_eq!(
        parsed("[B]x[/B]"),
        doc(vec![TreeNode::Strong { children: vec![text("x")] }])
    );
}

#[test]
fn nesting() {
    assert_eq!(
        parsed("[s]Stricken and [i]italicized[/i] text[/s]"),
        doc(vec![TreeNode::Delete {
            children: vec![
                text("Stricken and "),
                TreeNode::Emphasis { children: vec![text("italicized")] },
                text(" text"),
            ],
        }])
    );
}

#[test]
fn empty_inner_content_is_legal() {
    assert_eq!(parsed("[b][/b]"), doc(vec![TreeNode::Strong { children: vec![] }]));
    assert_eq!(
        parsed("[b] [/b]"),
        doc(vec![TreeNode::Strong { children: vec![text(" ")] }])
    );
}

#[test]
fn text_is_markdown_escaped_once() {
    assert_eq!(
        parsed("[b]# heading[/b]"),
        doc(vec![TreeNode::Strong { children: vec![text("\\# heading")] }])
    );
}

#[test]
fn underline_emits_html() {
    assert_eq!(parsed("[u]x[/u]"), doc(vec![html("<u>x</u>\n")]));
}

#[test]
fn alignment_emits_styled_span() {
    assert_eq!(
        parsed("[center]x[/center]"),
        doc(vec![html("<span style=\"text-align: center;\">x</span>\n")])
    );
    assert_eq!(
        parsed("[right]x[/right]"),
        doc(vec![html("<span style=\"text-align: right;\">x</span>\n")])
    );
}

#[test]
fn color_emits_styled_span() {
    assert_eq!(
        parsed("[color=red]x[/color]"),
        doc(vec![html("<span style=\"color: red;\">x</span>\n")])
    );
}

#[test]
fn color_without_parameter_passes_content_through() {
    assert_eq!(parsed("[color]x[/color]"), doc(vec![text("x")]));
}

#[test]
fn size_emits_styled_span() {
    assert_eq!(
        parsed("[size=14]x[/size]"),
        doc(vec![html("<span style=\"font-size: 14;\">x</span>\n")])
    );
    assert_eq!(
        parsed("[size=4294967295]x[/size]"),
        doc(vec![html("<span style=\"font-size: 4294967295;\">x</span>\n")])
    );
}

#[test]
fn size_requires_a_number() {
    assert_eq!(
        parse_err("[size=abc]x[/size]"),
        Error { value: bv("abc"), start: 6, end: 9, kind: ErrorKind::ParamParse { key: bv("") } }
    );
    assert_eq!(
        parse_err("[size=4294967296]x[/size]").kind,
        ErrorKind::ParamParse { key: bv("") }
    );
}

#[test]
fn style_composes_whichever_parameters_are_present() {
    assert_eq!(
        parsed(r#"[style color="red" size="12"]x[/style]"#),
        doc(vec![html("<span style=\"color: red; font-size: 12;\">x</span>\n")])
    );
    assert_eq!(
        parsed(r#"[style color="red"]x[/style]"#),
        doc(vec![html("<span style=\"color: red;\">x</span>\n")])
    );
    assert_eq!(
        parsed(r#"[style size="12"]x[/style]"#),
        doc(vec![html("<span style=\"font-size: 12;\">x</span>\n")])
    );
    assert_eq!(
        parsed("[style]x[/style]"),
        doc(vec![html("<span style=\"\">x</span>\n")])
    );
}

#[test]
fn span_content_from_nested_tags_is_flattened_to_text() {
    assert_eq!(
        parsed("[center][b]x[/b][/center]"),
        doc(vec![html("<span style=\"text-align: center;\">x</span>\n")])
    );
}

#[test]
fn code_keeps_content_verbatim() {
    assert_eq!(
        parsed("[code]# not a heading[/code]"),
        doc(vec![TreeNode::Code { value: bv("# not a heading"), lang: None }])
    );
}

#[test]
fn code_reads_language_from_unkeyed_value() {
    assert_eq!(
        parsed("[code=rust]fn main() {}[/code]"),
        doc(vec![TreeNode::Code { value: bv("fn main() {}"), lang: Some(bv("rust")) }])
    );
}

#[test]
fn pre_is_inline_code() {
    assert_eq!(
        parsed("[pre]x + y[/pre]"),
        doc(vec![TreeNode::InlineCode { value: bv("x + y") }])
    );
}

#[test]
fn quote_wraps_in_block_quote() {
    assert_eq!(
        parsed("[quote]wise words[/quote]"),
        doc(vec![TreeNode::BlockQuote { children: vec![text("wise words")] }])
    );
}

#[test]
fn quote_attribution_is_trailing_text() {
    assert_eq!(
        parsed("[quote=Anon]wise words[/quote]"),
        doc(vec![TreeNode::BlockQuote {
            children: vec![text("wise words"), text("\u{2014}Anon")],
        }])
    );
}

#[test]
fn spoiler_emits_details_element() {
    assert_eq!(
        parsed("[spoiler]hidden[/spoiler]"),
        doc(vec![html("<details>hidden</details>\n")])
    );
    assert_eq!(
        parsed("[spoiler=Hint]hidden[/spoiler]"),
        doc(vec![html("<details><summary>Hint</summary>hidden</details>\n")])
    );
}

#[test]
fn list_items_from_line_shorthand() {
    assert_eq!(
        parsed("[list][*] a\n[*] b\n[/list]"),
        doc(vec![TreeNode::List {
            ordered: false,
            start: None,
            spread: false,
            children: vec![
                TreeNode::ListItem { children: vec![text("a")] },
                TreeNode::ListItem { children: vec![text("b")] },
            ],
        }])
    );
}

#[test]
fn list_ignores_lines_without_markers() {
    assert_eq!(
        parsed("[ul]no markers here[/ul]"),
        doc(vec![TreeNode::List { ordered: false, start: None, spread: false, children: vec![] }])
    );
}

#[test]
fn ordered_list_starts_at_one() {
    assert_eq!(
        parsed("[ol][*] a\n[/ol]"),
        doc(vec![TreeNode::List {
            ordered: true,
            start: Some(1),
            spread: false,
            children: vec![TreeNode::ListItem { children: vec![text("a")] }],
        }])
    );
}

#[test]
fn list_items_from_structured_children() {
    assert_eq!(
        parsed("[ol][li]a[/li][li]b[/li][/ol]"),
        doc(vec![TreeNode::List {
            ordered: true,
            start: Some(1),
            spread: false,
            children: vec![
                TreeNode::ListItem { children: vec![text("a")] },
                TreeNode::ListItem { children: vec![text("b")] },
            ],
        }])
    );
    assert_eq!(
        parsed("[list][b]x[/b][/list]"),
        doc(vec![TreeNode::List {
            ordered: false,
            start: None,
            spread: false,
            children: vec![TreeNode::ListItem {
                children: vec![TreeNode::Strong { children: vec![text("x")] }],
            }],
        }])
    );
}

#[test]
fn url_from_inner_text() {
    assert_eq!(
        parsed("[url]http://example.org[/url]"),
        doc(vec![TreeNode::Link { url: bv("http://example.org"), title: None, children: vec![] }])
    );
}

#[test]
fn url_parameter_overrides_with_inner_as_title() {
    let expected = doc(vec![TreeNode::Link {
        url: bv("http://example.org"),
        title: Some(bv("Example")),
        children: vec![],
    }]);
    assert_eq!(parsed(r#"[url url="http://example.org"]Example[/url]"#), expected);
    assert_eq!(parsed("[url=http://example.org]Example[/url]"), expected);
}

#[test]
fn url_requires_a_target() {
    assert_eq!(
        parse_err("[url][/url]"),
        Error { value: bv("url"), start: 1, end: 4, kind: ErrorKind::MissingInner }
    );
}

#[test]
fn youtube_expands_to_watch_url() {
    assert_eq!(
        parsed("[youtube]dQw4w9WgXcQ[/youtube]"),
        doc(vec![TreeNode::Link {
            url: bv("https://youtube.com/watch?v=dQw4w9WgXcQ"),
            title: None,
            children: vec![],
        }])
    );
    assert_eq!(parse_err("[youtube][/youtube]").kind, ErrorKind::MissingInner);
}

#[test]
fn image_without_dimensions_is_a_native_node() {
    assert_eq!(
        parsed(r#"[img alt="A" title="T"]u.png[/img]"#),
        doc(vec![TreeNode::Image { url: bv("u.png"), alt: bv("A"), title: Some(bv("T")) }])
    );
    assert_eq!(
        parsed("[img]u.png[/img]"),
        doc(vec![TreeNode::Image { url: bv("u.png"), alt: bv(""), title: None }])
    );
    // One dimension alone is not enough: fall back to the native node.
    assert_eq!(
        parsed(r#"[img width="9"]u.png[/img]"#),
        doc(vec![TreeNode::Image { url: bv("u.png"), alt: bv(""), title: None }])
    );
}

#[test]
fn image_dimension_fallback_forms_agree() {
    let shorthand = parsed("[img=100x50]u.png[/img]");
    let keyed = parsed(r#"[img width="100" height="50"]u.png[/img]"#);
    assert_eq!(shorthand, keyed);
    assert_eq!(
        shorthand,
        doc(vec![TreeNode::Link {
            url: bv("u.png"),
            title: Some(bv("<img width=\"100\" height=\"50\" src=\"u.png\"></img>\n")),
            children: vec![],
        }])
    );
}

#[test]
fn image_dimensions_need_the_x_delimiter() {
    assert_eq!(
        parse_err("[img=100]u.png[/img]"),
        Error { value: bv("100"), start: 5, end: 8, kind: ErrorKind::ParamInvalid { key: bv("") } }
    );
}

#[test]
fn image_dimensions_must_be_numeric() {
    assert_eq!(
        parse_err("[img=axb]u.png[/img]").kind,
        ErrorKind::ParamParse { key: bv("") }
    );
    assert_eq!(
        parse_err(r#"[img width="w" height="5"]u.png[/img]"#),
        Error { value: bv("w"), start: 12, end: 13, kind: ErrorKind::ParamParse { key: bv("width") } }
    );
}

#[test]
fn image_requires_a_url() {
    assert_eq!(parse_err("[img][/img]").kind, ErrorKind::MissingInner);
}

#[test]
fn table_family_maps_to_rows_and_cells() {
    assert_eq!(
        parsed("[table][tr][th]h[/th][td]d[/td][/tr][/table]"),
        doc(vec![TreeNode::Table {
            children: vec![TreeNode::TableRow {
                children: vec![
                    TreeNode::TableCell { header: true, children: vec![text("h")] },
                    TreeNode::TableCell { header: false, children: vec![text("d")] },
                ],
            }],
        }])
    );
}

#[test]
fn document_text_rendering_flattens_leaves() {
    let d = parsed("[b]bold[/b] and [i]italic[/i]");
    assert_eq!(d.0.to_text(), bv("bold and italic"));
}
