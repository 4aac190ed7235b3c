//! Tests of the typed node model and its access traits.

use transmark::tmast::unist::{Point, Position};
use transmark::tmast::{
    Alternative, Association, Break, Code, Definition, FootnoteRef, Html, Image, InlineCode,
    InlineMath, Math, Resource, Text, ThematicBreak,
};

fn bv(s: &str) -> Vec<u8> {
    s.as_bytes().to_vec()
}

fn pos() -> Position {
    Position {
        start: Point { line: 1, column: 1, offset: 0 },
        end: Point { line: 1, column: 5, offset: 4 },
    }
}

#[test]
fn code_new_keeps_fields() {
    let c = Code::new(bv("fn f() {}"), Some(bv("rust")), None, Some(pos()));
    assert_eq!(c.value, bv("fn f() {}"));
    assert_eq!(c.lang, Some(bv("rust")));
    assert_eq!(c.meta, None);
    assert_eq!(c.position, Some(pos()));
}

#[test]
fn definition_new_and_association() {
    let mut d = Definition::new(bv("id"), Some(bv("Label")), None);
    assert_eq!(d.identifier(), &bv("id"));
    assert_eq!(d.label(), Some(&bv("Label")));
    d.set_identifier(bv("other"));
    d.set_label(None);
    assert_eq!(d.identifier, bv("other"));
    assert_eq!(d.label, None);
}

#[test]
fn footnote_ref_new_and_association() {
    let f = FootnoteRef::new(bv("note"), None, Some(pos()));
    assert_eq!(f.identifier(), &bv("note"));
    assert_eq!(f.label(), None);
    assert_eq!(f.position, Some(pos()));
}

#[test]
fn image_new_resource_and_alternative() {
    let mut img = Image::new(Some(bv("alt")), bv("u.png"), None, None);
    assert_eq!(img.url(), &bv("u.png"));
    assert_eq!(img.title(), None);
    assert_eq!(img.alt(), Some(&bv("alt")));
    img.set_url(bv("v.png"));
    img.set_title(Some(bv("T")));
    img.set_alt(None);
    assert_eq!(img.url, bv("v.png"));
    assert_eq!(img.title, Some(bv("T")));
    assert_eq!(img.alt, None);
}

#[test]
fn math_new_keeps_fields() {
    let m = Math::new(bv("a + b"), Some(bv("meta")), None);
    assert_eq!(m.value, bv("a + b"));
    assert_eq!(m.meta, Some(bv("meta")));
    assert_eq!(m.position, None);
}

#[test]
fn literal_and_void_nodes() {
    assert_eq!(Text::new(bv("t"), None).value, bv("t"));
    assert_eq!(Html::new(bv("<b>"), None).value, bv("<b>"));
    assert_eq!(InlineCode::new(bv("c"), None).value, bv("c"));
    assert_eq!(InlineMath::new(bv("m"), None).value, bv("m"));
    assert_eq!(Break::new(Some(pos())).position, Some(pos()));
    assert_eq!(ThematicBreak::new(None).position, None);
}
