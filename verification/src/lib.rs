//! Conversion between markup dialects through one shared intermediate tree.
//!
//! The heart of the crate is the BBCode front end: a tokenizer that splits
//! raw bracketed-tag text into fragments, and a recursive-descent parser
//! that turns the fragment stream into the shared tree, enforcing the
//! tag-specific construction rules on the way.

pub mod bbcode;
pub mod markdown_text;
pub mod tmast;
pub mod tree;
pub mod util;

use vstd::prelude::*;

verus! {

/// Renders a value as Markdown text.
pub trait IntoMarkdownText {
    fn into_markdown_text(self) -> String;
}

/// Renders a value as BBCode text.
pub trait IntoBBCodeText {
    fn into_bbcode_text(self) -> String;
}

/// Renders a value as HTML text.
pub trait IntoHtmlText {
    fn into_html_text(self) -> String;
}

/// The kind of failure reported by a top-level parse entry point.
pub enum ParseErrorKind {
    /// Some error occurred while converting to the shared tree.
    AstConversion,
}

/// A top-level parse failure, wrapping the format-specific error `P`.
pub struct ParseError<P> {
    pub kind: ParseErrorKind,
    pub inner: Option<P>,
}

impl<P> ParseError<P> {
    /// Wraps a format-specific error as a tree-conversion failure.
    pub fn ast_conversion(err: P) -> (r: Self)
        ensures
            r.kind is AstConversion,
            r.inner == Some(err),
    {
        ParseError { kind: ParseErrorKind::AstConversion, inner: Some(err) }
    }
}

} // verus!
