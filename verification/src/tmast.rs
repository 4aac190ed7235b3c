//! A typed node model for markup documents, with leaf node kinds carrying
//! their literal values and optional source positions. Text is held as
//! bytes; positions use the line/column model of [`unist`].

pub mod unist;

use vstd::prelude::*;

use self::unist::Position;

verus! {

/// A node with a URL and an optional title.
pub trait Resource {
    /// The node's URL, in the model.
    spec fn spec_url(&self) -> Seq<u8>;

    /// The node's title, in the model.
    spec fn spec_title(&self) -> Option<Seq<u8>>;

    /// Returns the URL.
    fn url(&self) -> (r: &Vec<u8>)
        ensures
            r@ == self.spec_url(),
    ;

    /// Returns the title, if any.
    fn title(&self) -> (r: Option<&Vec<u8>>)
        ensures
            match r {
                Some(v) => self.spec_title() == Some(v@),
                None => self.spec_title() is None,
            },
    ;

    /// Replaces the URL.
    fn set_url(&mut self, url: Vec<u8>)
        ensures
            final(self).spec_url() == url@,
            final(self).spec_title() == old(self).spec_title(),
    ;

    /// Replaces the title.
    fn set_title(&mut self, title: Option<Vec<u8>>)
        ensures
            final(self).spec_title() == (match title {
                Some(v) => Some(v@),
                None => None,
            }),
            final(self).spec_url() == old(self).spec_url(),
    ;
}

/// A node that references a definition by identifier, with an optional
/// label.
pub trait Association {
    /// The identifier, in the model.
    spec fn spec_identifier(&self) -> Seq<u8>;

    /// The label, in the model.
    spec fn spec_label(&self) -> Option<Seq<u8>>;

    /// Returns the identifier.
    fn identifier(&self) -> (r: &Vec<u8>)
        ensures
            r@ == self.spec_identifier(),
    ;

    /// Returns the label, if any.
    fn label(&self) -> (r: Option<&Vec<u8>>)
        ensures
            match r {
                Some(v) => self.spec_label() == Some(v@),
                None => self.spec_label() is None,
            },
    ;

    /// Replaces the identifier.
    fn set_identifier(&mut self, identifier: Vec<u8>)
        ensures
            final(self).spec_identifier() == identifier@,
            final(self).spec_label() == old(self).spec_label(),
    ;

    /// Replaces the label.
    fn set_label(&mut self, label: Option<Vec<u8>>)
        ensures
            final(self).spec_label() == (match label {
                Some(v) => Some(v@),
                None => None,
            }),
            final(self).spec_identifier() == old(self).spec_identifier(),
    ;
}

/// A node with alternate text for when it cannot be rendered.
pub trait Alternative {
    /// The alternate text, in the model.
    spec fn spec_alt(&self) -> Option<Seq<u8>>;

    /// Returns the alternate text, if any.
    fn alt(&self) -> (r: Option<&Vec<u8>>)
        ensures
            match r {
                Some(v) => self.spec_alt() == Some(v@),
                None => self.spec_alt() is None,
            },
    ;

    /// Replaces the alternate text.
    fn set_alt(&mut self, alt: Option<Vec<u8>>)
        ensures
            final(self).spec_alt() == (match alt {
                Some(v) => Some(v@),
                None => None,
            }),
    ;
}

/// A hard line break.
#[derive(Clone, Debug, PartialEq, Eq)]
pub struct Break {
    /// The position within the document.
    pub position: Option<Position>,
}

impl Break {
    pub fn new(position: Option<Position>) -> (r: Self)
        ensures
            r.position == position,
    {
        Break { position }
    }
}

/// A code fence with an optional language and metadata.
#[derive(Clone, Debug, PartialEq, Eq)]
pub struct Code {
    /// The code string.
    pub value: Vec<u8>,
    /// The language, if any.
    pub lang: Option<Vec<u8>>,
    /// The metadata, if any.
    pub meta: Option<Vec<u8>>,
    /// The position within the document.
    pub position: Option<Position>,
}

impl Code {
    pub fn new(
        value: Vec<u8>,
        lang: Option<Vec<u8>>,
        meta: Option<Vec<u8>>,
        position: Option<Position>,
    ) -> (r: Self)
        ensures
            r.value == value,
            r.lang == lang,
            r.meta == meta,
            r.position == position,
    {
        Code { value, lang, meta, position }
    }
}

/// A link definition: `[label]: url "title"`.
#[derive(Clone, Debug, PartialEq, Eq)]
pub struct Definition {
    /// The identifier: a lowercased, word-character-only form of the label.
    pub identifier: Vec<u8>,
    /// The label, if any.
    pub label: Option<Vec<u8>>,
    /// The position within the document.
    pub position: Option<Position>,
}

impl Definition {
    pub fn new(identifier: Vec<u8>, label: Option<Vec<u8>>, position: Option<Position>) -> (r:
        Self)
        ensures
            r.identifier == identifier,
            r.label == label,
            r.position == position,
    {
        Definition { identifier, label, position }
    }
}

impl Association for Definition {
    open spec fn spec_identifier(&self) -> Seq<u8> {
        self.identifier@
    }

    open spec fn spec_label(&self) -> Option<Seq<u8>> {
        match self.label {
            Some(v) => Some(v@),
            None => None,
        }
    }

    fn identifier(&self) -> &Vec<u8> {
        &self.identifier
    }

    fn label(&self) -> Option<&Vec<u8>> {
        match &self.label {
            Some(v) => Some(v),
            None => None,
        }
    }

    fn set_identifier(&mut self, identifier: Vec<u8>) {
        self.identifier = identifier;
    }

    fn set_label(&mut self, label: Option<Vec<u8>>) {
        self.label = label;
    }
}

/// A footnote reference: `[^id]`.
#[derive(Clone, Debug, PartialEq, Eq)]
pub struct FootnoteRef {
    /// The identifier.
    pub identifier: Vec<u8>,
    /// The label, if any.
    pub label: Option<Vec<u8>>,
    /// The position within the document.
    pub position: Option<Position>,
}

impl FootnoteRef {
    pub fn new(identifier: Vec<u8>, label: Option<Vec<u8>>, position: Option<Position>) -> (r:
        Self)
        ensures
            r.identifier == identifier,
            r.label == label,
            r.position == position,
    {
        FootnoteRef { identifier, label, position }
    }
}

impl Association for FootnoteRef {
    open spec fn spec_identifier(&self) -> Seq<u8> {
        self.identifier@
    }

    open spec fn spec_label(&self) -> Option<Seq<u8>> {
        match self.label {
            Some(v) => Some(v@),
            None => None,
        }
    }

    fn identifier(&self) -> &Vec<u8> {
        &self.identifier
    }

    fn label(&self) -> Option<&Vec<u8>> {
        match &self.label {
            Some(v) => Some(v),
            None => None,
        }
    }

    fn set_identifier(&mut self, identifier: Vec<u8>) {
        self.identifier = identifier;
    }

    fn set_label(&mut self, label: Option<Vec<u8>>) {
        self.label = label;
    }
}

/// A literal HTML run.
#[derive(Clone, Debug, PartialEq, Eq)]
pub struct Html {
    /// The literal value.
    pub value: Vec<u8>,
    /// The position within the document.
    pub position: Option<Position>,
}

impl Html {
    pub fn new(value: Vec<u8>, position: Option<Position>) -> (r: Self)
        ensures
            r.value == value,
            r.position == position,
    {
        Html { value, position }
    }
}

/// An inline code span.
#[derive(Clone, Debug, PartialEq, Eq)]
pub struct InlineCode {
    /// The code string.
    pub value: Vec<u8>,
    /// The position within the document.
    pub position: Option<Position>,
}

impl InlineCode {
    pub fn new(value: Vec<u8>, position: Option<Position>) -> (r: Self)
        ensures
            r.value == value,
            r.position == position,
    {
        InlineCode { value, position }
    }
}

/// An inline math span.
#[derive(Clone, Debug, PartialEq, Eq)]
pub struct InlineMath {
    /// The math string.
    pub value: Vec<u8>,
    /// The position within the document.
    pub position: Option<Position>,
}

impl InlineMath {
    pub fn new(value: Vec<u8>, position: Option<Position>) -> (r: Self)
        ensures
            r.value == value,
            r.position == position,
    {
        InlineMath { value, position }
    }
}

/// An image: `![alt](url "title")`.
#[derive(Clone, Debug, PartialEq, Eq)]
pub struct Image {
    /// The alternate text to display if the image cannot be rendered.
    pub alt: Option<Vec<u8>>,
    /// The image URL.
    pub url: Vec<u8>,
    /// The image title, if any.
    pub title: Option<Vec<u8>>,
    /// The position within the document.
    pub position: Option<Position>,
}

impl Image {
    pub fn new(
        alt: Option<Vec<u8>>,
        url: Vec<u8>,
        title: Option<Vec<u8>>,
        position: Option<Position>,
    ) -> (r: Self)
        ensures
            r.alt == alt,
            r.url == url,
            r.title == title,
            r.position == position,
    {
        Image { alt, url, title, position }
    }
}

impl Resource for Image {
    open spec fn spec_url(&self) -> Seq<u8> {
        self.url@
    }

    open spec fn spec_title(&self) -> Option<Seq<u8>> {
        match self.title {
            Some(v) => Some(v@),
            None => None,
        }
    }

    fn url(&self) -> &Vec<u8> {
        &self.url
    }

    fn title(&self) -> Option<&Vec<u8>> {
        match &self.title {
            Some(v) => Some(v),
            None => None,
        }
    }

    fn set_url(&mut self, url: Vec<u8>) {
        self.url = url;
    }

    fn set_title(&mut self, title: Option<Vec<u8>>) {
        self.title = title;
    }
}

impl Alternative for Image {
    open spec fn spec_alt(&self) -> Option<Seq<u8>> {
        match self.alt {
            Some(v) => Some(v@),
            None => None,
        }
    }

    fn alt(&self) -> Option<&Vec<u8>> {
        match &self.alt {
            Some(v) => Some(v),
            None => None,
        }
    }

    fn set_alt(&mut self, alt: Option<Vec<u8>>) {
        self.alt = alt;
    }
}

/// A math block.
#[derive(Clone, Debug, PartialEq, Eq)]
pub struct Math {
    /// The math string.
    pub value: Vec<u8>,
    /// The metadata, if any.
    pub meta: Option<Vec<u8>>,
    /// The position within the document.
    pub position: Option<Position>,
}

impl Math {
    pub fn new(value: Vec<u8>, meta: Option<Vec<u8>>, position: Option<Position>) -> (r: Self)
        ensures
            r.value == value,
            r.meta == meta,
            r.position == position,
    {
        Math { value, meta, position }
    }
}

/// A plain text run.
#[derive(Clone, Debug, PartialEq, Eq)]
pub struct Text {
    /// The literal value.
    pub value: Vec<u8>,
    /// The position within the document.
    pub position: Option<Position>,
}

impl Text {
    pub fn new(value: Vec<u8>, position: Option<Position>) -> (r: Self)
        ensures
            r.value == value,
            r.position == position,
    {
        Text { value, position }
    }
}

/// A thematic break.
#[derive(Clone, Debug, PartialEq, Eq)]
pub struct ThematicBreak {
    /// The position within the document.
    pub position: Option<Position>,
}

impl ThematicBreak {
    pub fn new(position: Option<Position>) -> (r: Self)
        ensures
            r.position == position,
    {
        ThematicBreak { position }
    }
}

} // verus!
