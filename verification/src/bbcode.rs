//! The BBCode front end: a tokenizer that cuts raw text into fragments and
//! a recursive-descent parser that turns the fragment stream into the
//! shared tree, enforcing each tag's construction rules.
//!
//! Any failure aborts the whole parse: no partial tree is ever returned,
//! and the first error in document order (depth first, left to right) is
//! the one surfaced.

pub mod builder;
pub mod parser;
pub mod tokenizer;

use vstd::prelude::*;

use crate::tree::{tree_view, TmDoc, TreeM, TreeNode};
use self::parser::{node_view, parse_fragments, root_node_m, sp_run, NodeM};
use self::builder::{build_root, sp_build_inner};
use self::tokenizer::{lemma_toks_wf, tokenize, toks};

verus! {

/// What went wrong, mirroring the shapes a parse can fail in.
pub enum ErrKindM {
    UnknownTag,
    UnopenedTag,
    UnclosedTag,
    UnexpectedTag { name: Seq<u8>, start: int, end: int },
    MissingParam { name: Seq<u8> },
    MissingInner,
    ParamParse { key: Seq<u8> },
    ParamInvalid { key: Seq<u8> },
}

/// Model of a parse error: the offending text, its byte range in the
/// input, and the kind of failure.
pub struct ErrM {
    pub value: Seq<u8>,
    pub start: int,
    pub end: int,
    pub kind: ErrKindM,
}

/// The kind of a parse error.
#[derive(Debug, PartialEq, Eq)]
pub enum ErrorKind {
    /// The tag name is not in the dispatch table.
    UnknownTag,
    /// An end tag appeared with no tag open.
    UnopenedTag,
    /// A start tag was never closed: its frame hit the end of the input or
    /// a mismatched end tag.
    UnclosedTag,
    /// A nested tag appeared where a tag requires pure text content; the
    /// fields name the inner tag and its byte range.
    UnexpectedTag { name: Vec<u8>, start: usize, end: usize },
    /// A tag requires a parameter that was not supplied.
    MissingParam { name: Vec<u8> },
    /// A tag requires inner text that was not supplied.
    MissingInner,
    /// A parameter value did not parse as a number.
    ParamParse { key: Vec<u8> },
    /// A parameter value had the wrong shape.
    ParamInvalid { key: Vec<u8> },
}

impl View for ErrorKind {
    type V = ErrKindM;

    open spec fn view(&self) -> ErrKindM {
        match self {
            ErrorKind::UnknownTag => ErrKindM::UnknownTag,
            ErrorKind::UnopenedTag => ErrKindM::UnopenedTag,
            ErrorKind::UnclosedTag => ErrKindM::UnclosedTag,
            ErrorKind::UnexpectedTag { name, start, end } => ErrKindM::UnexpectedTag {
                name: name@,
                start: *start as int,
                end: *end as int,
            },
            ErrorKind::MissingParam { name } => ErrKindM::MissingParam { name: name@ },
            ErrorKind::MissingInner => ErrKindM::MissingInner,
            ErrorKind::ParamParse { key } => ErrKindM::ParamParse { key: key@ },
            ErrorKind::ParamInvalid { key } => ErrKindM::ParamInvalid { key: key@ },
        }
    }
}

impl ErrorKind {
    /// A short fixed phrase naming the kind.
    pub fn describe(&self) -> (r: &'static str)
        ensures
            r@ == match self {
                ErrorKind::UnknownTag => "unknown tag"@,
                ErrorKind::UnopenedTag => "unopened tag"@,
                ErrorKind::UnclosedTag => "unclosed tag"@,
                ErrorKind::UnexpectedTag { .. } => "unexpected tag inside verbatim content"@,
                ErrorKind::MissingParam { .. } => "missing required parameter"@,
                ErrorKind::MissingInner => "missing required inner text"@,
                ErrorKind::ParamParse { .. } => "parameter value is not a number"@,
                ErrorKind::ParamInvalid { .. } => "parameter value has the wrong shape"@,
            },
    {
        match self {
            ErrorKind::UnknownTag => "unknown tag",
            ErrorKind::UnopenedTag => "unopened tag",
            ErrorKind::UnclosedTag => "unclosed tag",
            ErrorKind::UnexpectedTag { .. } => "unexpected tag inside verbatim content",
            ErrorKind::MissingParam { .. } => "missing required parameter",
            ErrorKind::MissingInner => "missing required inner text",
            ErrorKind::ParamParse { .. } => "parameter value is not a number",
            ErrorKind::ParamInvalid { .. } => "parameter value has the wrong shape",
        }
    }
}

/// A parse error: the offending text, its byte range, and the kind.
#[derive(Debug, PartialEq, Eq)]
pub struct Error {
    pub value: Vec<u8>,
    pub start: usize,
    pub end: usize,
    pub kind: ErrorKind,
}

impl View for Error {
    type V = ErrM;

    open spec fn view(&self) -> ErrM {
        ErrM { value: self.value@, start: self.start as int, end: self.end as int, kind: self.kind@ }
    }
}

/// The parse of a whole input, in the model: tokenize, run the descent,
/// then translate the finished intermediate root.
pub open spec fn sp_parse(s: Seq<u8>) -> Result<TreeM, ErrM> {
    match sp_run(Seq::empty(), root_node_m(), toks(s)) {
        Ok(root) => match sp_build_inner(root.inner) {
            Ok(children) => Ok(TreeM::Root { children }),
            Err(e) => Err(e),
        },
        Err(e) => Err(e),
    }
}

/// Parses BBCode text into the shared tree.
///
/// Tag names are matched case-insensitively against the known set; an end
/// tag must repeat its start tag's name exactly. The first structural or
/// parameter error aborts the parse.
pub fn parse(input: &[u8]) -> (r: Result<TmDoc, Error>)
    ensures
        match r {
            Ok(doc) => sp_parse(input@) == Ok::<TreeM, ErrM>(doc@),
            Err(e) => sp_parse(input@) == Err::<TreeM, ErrM>(e@),
        },
{
    let frags = tokenize(input);
    proof {
        lemma_toks_wf(input@, 0);
        assert forall|k: int| 0 <= k < frags@.len() implies self::tokenizer::frag_wf(
            #[trigger] frags@[k]@,
        ) by {
            assert(self::tokenizer::fragments_view(frags@)[k] == frags@[k]@);
        }
    }
    match parse_fragments(&frags) {
        Ok(root) => match build_root(&root) {
            Ok(children) => Ok(TmDoc(TreeNode::Root { children })),
            Err(e) => Err(e),
        },
        Err(e) => Err(e),
    }
}

} // verus!
