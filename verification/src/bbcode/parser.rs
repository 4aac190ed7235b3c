//! The recursive-descent pass over the fragment stream: one frame per open
//! tag (plus an implicit root frame), each frame accumulating its content
//! into a lightweight intermediate node. The descent is run as an explicit
//! stack so arbitrarily deep nesting cannot exhaust the call stack.

use vstd::prelude::*;

use crate::util::{
    bytes_eq, clone_bytes, copy_range, lemma_run_end, run_end, scan_run, ByteClass,
};
use super::tokenizer::{frag_wf, fragments_view, FragM, Fragment, Tag, TagFragM, TextFragM};
use super::{ErrKindM, ErrM, Error, ErrorKind};

verus! {

// ---------------------------------------------------------------------------
// Parameters.
// ---------------------------------------------------------------------------

/// Model of one parameter: its key, its value, and the byte range of the
/// value in the original input. The unkeyed `[tag=value]` form is keyed
/// under the empty string.
pub struct ParamM {
    pub key: Seq<u8>,
    pub value: Seq<u8>,
    pub start: int,
    pub end: int,
}

/// One parsed parameter of a start tag.
#[derive(Debug, PartialEq, Eq)]
pub struct Param {
    pub key: Vec<u8>,
    pub value: Vec<u8>,
    pub start: usize,
    pub end: usize,
}

impl View for Param {
    type V = ParamM;

    open spec fn view(&self) -> ParamM {
        ParamM {
            key: self.key@,
            value: self.value@,
            start: self.start as int,
            end: self.end as int,
        }
    }
}

/// The models of a parameter vector.
pub open spec fn params_view(ps: Seq<Param>) -> Seq<ParamM> {
    ps.map_values(|p: Param| p@)
}

/// The `key="value"` pairs parsed from position `k` of a raw parameter
/// string whose first byte sits at input offset `off`. A malformed tail is
/// dropped (the tokenizer never produces one).
pub open spec fn sp_split_pairs(p: Seq<u8>, k: int, off: int) -> Seq<ParamM>
    decreases p.len() - k,
    when 0 <= k <= p.len()
{
    if k < p.len() && crate::util::in_class(ByteClass::Space, p[k]) {
        let ws = run_end(p, k, ByteClass::Space);
        let ke = run_end(p, ws, ByteClass::Alpha);
        proof {
            lemma_run_end(p, k, ByteClass::Space);
            lemma_run_end(p, ws, ByteClass::Alpha);
        }
        if ke > ws && ke + 1 < p.len() && p[ke] == 61 && p[ke + 1] == 34 {
            let qe = run_end(p, ke + 2, ByteClass::NonQuote);
            proof {
                lemma_run_end(p, ke + 2, ByteClass::NonQuote);
            }
            if qe > ke + 2 && qe < p.len() && p[qe] == 34 {
                seq![
                    ParamM {
                        key: p.subrange(ws, ke),
                        value: p.subrange(ke + 2, qe),
                        start: off + ke + 2,
                        end: off + qe,
                    },
                ] + sp_split_pairs(p, qe + 1, off)
            } else {
                Seq::empty()
            }
        } else {
            Seq::empty()
        }
    } else {
        Seq::empty()
    }
}

/// All parameters of a raw parameter string: the string opens with the tag
/// name; `=value` after it (quote-stripped if quoted) becomes the unkeyed
/// entry under the empty-string key; `key="value"` pairs follow.
pub open spec fn sp_split(p: Seq<u8>, off: int) -> Seq<ParamM> {
    let ne = run_end(p, 0, ByteClass::Word);
    if 0 <= ne < p.len() && p[ne] == 61 {
        let ve = run_end(p, ne + 1, ByteClass::Value);
        if ne + 1 < ve <= p.len() {
            let quoted = ve - (ne + 1) >= 2 && p[ne + 1] == 34 && p[ve - 1] == 34;
            let lo: int = if quoted {
                ne + 2
            } else {
                ne + 1
            };
            let hi: int = if quoted {
                ve - 1
            } else {
                ve
            };
            seq![
                ParamM {
                    key: Seq::empty(),
                    value: p.subrange(lo, hi),
                    start: off + lo,
                    end: off + hi,
                },
            ] + sp_split_pairs(p, ve, off)
        } else {
            sp_split_pairs(p, ne, off)
        }
    } else {
        sp_split_pairs(p, ne, off)
    }
}

/// Last-wins lookup of a key among parsed parameters.
pub open spec fn sp_lookup(ps: Seq<ParamM>, key: Seq<u8>) -> Option<ParamM>
    decreases ps.len(),
{
    if ps.len() == 0 {
        None
    } else if ps.last().key == key {
        Some(ps.last())
    } else {
        sp_lookup(ps.drop_last(), key)
    }
}

// ---------------------------------------------------------------------------
// Parsed start-tag identity.
// ---------------------------------------------------------------------------

/// Model of a parsed start tag: name and range, split parameters, and the
/// raw parameter region's range.
pub struct NodeTagM {
    pub name: Seq<u8>,
    pub name_start: int,
    pub name_end: int,
    pub params: Seq<ParamM>,
    pub param_start: int,
    pub param_end: int,
}

/// The parsed identity a start-tag fragment denotes.
pub open spec fn tag_of_frag(t: TagFragM) -> NodeTagM {
    NodeTagM {
        name: t.name.value,
        name_start: t.name.start,
        name_end: t.name.end,
        params: sp_split(t.param.value, t.param.start),
        param_start: t.param.start,
        param_end: t.param.end,
    }
}

/// A parsed start tag: its name with range, and its parameters.
#[derive(Debug)]
pub struct NodeTag {
    pub name: Vec<u8>,
    pub name_start: usize,
    pub name_end: usize,
    pub params: Vec<Param>,
    pub param_start: usize,
    pub param_end: usize,
}

impl View for NodeTag {
    type V = NodeTagM;

    open spec fn view(&self) -> NodeTagM {
        NodeTagM {
            name: self.name@,
            name_start: self.name_start as int,
            name_end: self.name_end as int,
            params: params_view(self.params@),
            param_start: self.param_start as int,
            param_end: self.param_end as int,
        }
    }
}

/// Appends the parameters parsed from `p[k..]` to `out`.
fn split_pairs(p: &[u8], k: usize, off: usize, out: &mut Vec<Param>)
    requires
        k <= p@.len(),
        off + p@.len() <= usize::MAX,
    ensures
        params_view(final(out)@) == params_view(old(out)@) + sp_split_pairs(
            p@,
            k as int,
            off as int,
        ),
{
    let mut cur: usize = k;
    loop
        invariant
            k <= cur <= p@.len(),
            off + p@.len() <= usize::MAX,
            params_view(out@) + sp_split_pairs(p@, cur as int, off as int) == params_view(
                old(out)@,
            ) + sp_split_pairs(p@, k as int, off as int),
        decreases p@.len() - cur,
    {
        if !(cur < p.len() && crate::util::byte_in_class(ByteClass::Space, p[cur])) {
            assert(params_view(out@) =~= params_view(out@) + sp_split_pairs(
                p@,
                cur as int,
                off as int,
            ));
            return;
        }
        let ws = scan_run(p, cur, ByteClass::Space);
        let ke = scan_run(p, ws, ByteClass::Alpha);
        proof {
            lemma_run_end(p@, cur as int, ByteClass::Space);
            lemma_run_end(p@, ws as int, ByteClass::Alpha);
        }
        if !(ke > ws && ke < p.len() && p[ke] == 61 && ke + 1 < p.len() && p[ke + 1] == 34) {
            assert(params_view(out@) =~= params_view(out@) + sp_split_pairs(
                p@,
                cur as int,
                off as int,
            ));
            return;
        }
        let qe = scan_run(p, ke + 2, ByteClass::NonQuote);
        if !(qe > ke + 2 && qe < p.len() && p[qe] == 34) {
            assert(params_view(out@) =~= params_view(out@) + sp_split_pairs(
                p@,
                cur as int,
                off as int,
            ));
            return;
        }
        let pr = Param {
            key: copy_range(p, ws, ke),
            value: copy_range(p, ke + 2, qe),
            start: off + (ke + 2),
            end: off + qe,
        };
        out.push(pr);
        proof {
            assert(params_view(out@) =~= params_view(out@.drop_last()) + seq![out@.last()@]);
        }
        cur = qe + 1;
    }
}

impl NodeTag {
    /// Splits a raw parameter string (whose first byte sits at input offset
    /// `off`) into parameters.
    pub fn split(param: &[u8], off: usize) -> (r: Vec<Param>)
        requires
            off + param@.len() <= usize::MAX,
        ensures
            params_view(r@) == sp_split(param@, off as int),
    {
        let mut out: Vec<Param> = Vec::new();
        let ne = scan_run(param, 0, ByteClass::Word);
        proof {
            lemma_run_end(param@, 0, ByteClass::Word);
        }
        let mut cur: usize = ne;
        if ne < param.len() && param[ne] == 61 {
            let ve = scan_run(param, ne + 1, ByteClass::Value);
            if ve > ne + 1 {
                let quoted = ve - (ne + 1) >= 2 && param[ne + 1] == 34 && param[ve - 1] == 34;
                let lo: usize = if quoted {
                    ne + 2
                } else {
                    ne + 1
                };
                let hi: usize = if quoted {
                    ve - 1
                } else {
                    ve
                };
                let pr = Param {
                    key: Vec::new(),
                    value: copy_range(param, lo, hi),
                    start: off + lo,
                    end: off + hi,
                };
                out.push(pr);
                proof {
                    assert(params_view(out@) =~= seq![out@.last()@]);
                }
                cur = ve;
            }
        }
        split_pairs(param, cur, off, &mut out);
        out
    }

    /// Builds a parsed tag from raw pieces, splitting the parameters.
    pub fn new(
        name: Vec<u8>,
        name_start: usize,
        name_end: usize,
        param: Vec<u8>,
        param_start: usize,
        param_end: usize,
    ) -> (r: NodeTag)
        requires
            param_start + param@.len() <= usize::MAX,
        ensures
            r@ == (NodeTagM {
                name: name@,
                name_start: name_start as int,
                name_end: name_end as int,
                params: sp_split(param@, param_start as int),
                param_start: param_start as int,
                param_end: param_end as int,
            }),
    {
        let params = Self::split(param.as_slice(), param_start);
        NodeTag { name, name_start, name_end, params, param_start, param_end }
    }

    /// Builds a parsed tag from a tokenized start-tag fragment.
    pub fn from_fragment(tag: &Tag) -> (r: NodeTag)
        requires
            frag_wf(FragM::StartTag(tag@)),
        ensures
            r@ == tag_of_frag(tag@),
    {
        NodeTag::new(
            clone_bytes(&tag.name.value),
            tag.name.start,
            tag.name.end,
            clone_bytes(&tag.param.value),
            tag.param.start,
            tag.param.end,
        )
    }

    /// The tag's name and the name's byte range.
    pub fn name(&self) -> (r: (Vec<u8>, usize, usize))
        ensures
            r.0@ == self@.name,
            r.1 == self@.name_start,
            r.2 == self@.name_end,
    {
        (clone_bytes(&self.name), self.name_start, self.name_end)
    }

    /// Last-wins lookup of a parameter by key.
    pub fn get(&self, key: &[u8]) -> (r: Option<&Param>)
        ensures
            match r {
                Some(pr) => sp_lookup(self@.params, key@) == Some(pr@),
                None => sp_lookup(self@.params, key@) is None,
            },
    {
        let ghost ps = params_view(self.params@);
        let mut i: usize = self.params.len();
        proof {
            assert(ps.take(i as int) =~= ps);
        }
        while i > 0
            invariant
                0 <= i <= self.params@.len(),
                ps == params_view(self.params@),
                ps.len() == self.params@.len(),
                sp_lookup(ps, key@) == sp_lookup(ps.take(i as int), key@),
            decreases i,
        {
            proof {
                assert(ps.take(i as int).last() == ps[i - 1]);
                assert(ps.take(i as int).drop_last() =~= ps.take(i - 1));
            }
            if bytes_eq(self.params[i - 1].key.as_slice(), key) {
                return Some(&self.params[i - 1]);
            }
            i = i - 1;
        }
        assert(ps.take(0) =~= Seq::<ParamM>::empty());
        None
    }
}

// ---------------------------------------------------------------------------
// The intermediate node.
// ---------------------------------------------------------------------------

/// Model of a frame's accumulated content.
pub enum InnerM {
    Empty,
    Text(Seq<u8>),
    Tree(Seq<NodeM>),
}

/// Model of an intermediate node.
pub struct NodeM {
    pub tag: Option<NodeTagM>,
    pub inner: InnerM,
}

/// A frame's accumulated content: empty, a single text run, or a list of
/// child nodes. The single-text form keeps the common case (a tag holding
/// one contiguous text run) distinguishable from structured content.
#[derive(Debug)]
pub enum Inner {
    Empty,
    Text(Vec<u8>),
    Tree(Vec<Node>),
}

/// An intermediate node: an optional tag identity (the root frame has
/// none) and its accumulated content.
#[derive(Debug)]
pub struct Node {
    pub tag: Option<NodeTag>,
    pub inner: Inner,
}

/// The model of accumulated content.
pub open spec fn inner_view(i: Inner) -> InnerM
    decreases i,
{
    match i {
        Inner::Empty => InnerM::Empty,
        Inner::Text(v) => InnerM::Text(v@),
        Inner::Tree(t) => InnerM::Tree(nodes_view(t@)),
    }
}

/// The model of an intermediate node.
pub open spec fn node_view(n: Node) -> NodeM
    decreases n,
{
    NodeM {
        tag: match n.tag {
            Some(t) => Some(t@),
            None => None,
        },
        inner: inner_view(n.inner),
    }
}

/// The models of a node sequence.
pub open spec fn nodes_view(v: Seq<Node>) -> Seq<NodeM>
    decreases v,
{
    if v.len() == 0 {
        Seq::empty()
    } else {
        nodes_view(v.drop_last()).push(node_view(v.last()))
    }
}

pub proof fn lemma_nodes_view_empty()
    ensures
        nodes_view(Seq::<Node>::empty()) == Seq::<NodeM>::empty(),
{
}

pub proof fn lemma_nodes_view_push(v: Seq<Node>, n: Node)
    ensures
        nodes_view(v.push(n)) == nodes_view(v).push(node_view(n)),
{
    assert(v.push(n).drop_last() =~= v);
    assert(v.push(n).last() == n);
}

pub proof fn lemma_nodes_view_len(v: Seq<Node>)
    ensures
        nodes_view(v).len() == v.len(),
        forall|i: int| 0 <= i < v.len() ==> #[trigger] nodes_view(v)[i] == node_view(v[i]),
    decreases v,
{
    if v.len() > 0 {
        lemma_nodes_view_len(v.drop_last());
    }
}

/// A text leaf in the model.
pub open spec fn text_node_m(v: Seq<u8>) -> NodeM {
    NodeM { tag: None, inner: InnerM::Text(v) }
}

/// The root frame in the model: no tag, and always the tree-list form so
/// that "contains only text" stays meaningful for real tags.
pub open spec fn root_node_m() -> NodeM {
    NodeM { tag: None, inner: InnerM::Tree(Seq::empty()) }
}

/// Text added to a frame: empty content stores it as a single text leaf; a
/// second piece upgrades to a list, preserving order.
pub open spec fn sp_put_text(n: NodeM, v: Seq<u8>) -> NodeM {
    NodeM {
        tag: n.tag,
        inner: match n.inner {
            InnerM::Empty => InnerM::Text(v),
            InnerM::Text(e) => InnerM::Tree(seq![text_node_m(e), text_node_m(v)]),
            InnerM::Tree(t) => InnerM::Tree(t.push(text_node_m(v))),
        },
    }
}

/// A finished child added to a frame; a prior single text leaf upgrades to
/// a list, preserving order.
pub open spec fn sp_put_node(n: NodeM, c: NodeM) -> NodeM {
    NodeM {
        tag: n.tag,
        inner: match n.inner {
            InnerM::Empty => InnerM::Tree(seq![c]),
            InnerM::Text(e) => InnerM::Tree(seq![text_node_m(e), c]),
            InnerM::Tree(t) => InnerM::Tree(t.push(c)),
        },
    }
}

impl Node {
    /// A text leaf.
    pub fn text(value: Vec<u8>) -> (r: Node)
        ensures
            node_view(r) == text_node_m(value@),
    {
        Node { tag: None, inner: Inner::Text(value) }
    }

    /// The root frame.
    pub fn root() -> (r: Node)
        ensures
            node_view(r) == root_node_m(),
    {
        let n = Node { tag: None, inner: Inner::Tree(Vec::new()) };
        proof {
            assert(nodes_view(Seq::<Node>::empty()) =~= Seq::<NodeM>::empty());
        }
        n
    }

    /// A fresh frame for a start tag.
    pub fn tag(tag: NodeTag) -> (r: Node)
        ensures
            node_view(r) == (NodeM { tag: Some(tag@), inner: InnerM::Empty }),
    {
        Node { tag: Some(tag), inner: Inner::Empty }
    }

    /// Adds a text run to this frame's content.
    pub fn put_text(self, value: Vec<u8>) -> (r: Node)
        ensures
            node_view(r) == sp_put_text(node_view(self), value@),
    {
        let ghost vv = value@;
        let Node { tag, inner } = self;
        match inner {
            Inner::Empty => Node { tag, inner: Inner::Text(value) },
            Inner::Text(e) => {
                let ghost ev = e@;
                let mut t: Vec<Node> = Vec::new();
                let ghost t0 = t@;
                t.push(Node::text(e));
                let ghost t1 = t@;
                t.push(Node::text(value));
                proof {
                    lemma_nodes_view_empty();
                    assert(t0 =~= Seq::<Node>::empty());
                    lemma_nodes_view_push(t0, t1.last());
                    assert(t1 =~= t0.push(t1.last()));
                    lemma_nodes_view_push(t1, t@.last());
                    assert(t@ =~= t1.push(t@.last()));
                    assert(nodes_view(t@) =~= seq![text_node_m(ev), text_node_m(vv)]);
                }
                Node { tag, inner: Inner::Tree(t) }
            },
            Inner::Tree(mut t) => {
                let ghost t0 = t@;
                t.push(Node::text(value));
                proof {
                    lemma_nodes_view_push(t0, t@.last());
                    assert(t@ =~= t0.push(t@.last()));
                    assert(nodes_view(t@) =~= nodes_view(t0).push(text_node_m(vv)));
                }
                Node { tag, inner: Inner::Tree(t) }
            },
        }
    }

    /// Adds a finished child node to this frame's content.
    pub fn put_node(self, child: Node) -> (r: Node)
        ensures
            node_view(r) == sp_put_node(node_view(self), node_view(child)),
    {
        let ghost cv = node_view(child);
        let Node { tag, inner } = self;
        match inner {
            Inner::Empty => {
                let mut t: Vec<Node> = Vec::new();
                let ghost t0 = t@;
                t.push(child);
                proof {
                    lemma_nodes_view_empty();
                    assert(t0 =~= Seq::<Node>::empty());
                    lemma_nodes_view_push(t0, t@.last());
                    assert(t@ =~= t0.push(t@.last()));
                    assert(nodes_view(t@) =~= seq![cv]);
                }
                Node { tag, inner: Inner::Tree(t) }
            },
            Inner::Text(e) => {
                let ghost ev = e@;
                let mut t: Vec<Node> = Vec::new();
                let ghost t0 = t@;
                t.push(Node::text(e));
                let ghost t1 = t@;
                t.push(child);
                proof {
                    lemma_nodes_view_empty();
                    assert(t0 =~= Seq::<Node>::empty());
                    lemma_nodes_view_push(t0, t1.last());
                    assert(t1 =~= t0.push(t1.last()));
                    lemma_nodes_view_push(t1, t@.last());
                    assert(t@ =~= t1.push(t@.last()));
                    assert(nodes_view(t@) =~= seq![text_node_m(ev), cv]);
                }
                Node { tag, inner: Inner::Tree(t) }
            },
            Inner::Tree(mut t) => {
                let ghost t0 = t@;
                t.push(child);
                proof {
                    lemma_nodes_view_push(t0, t@.last());
                    assert(t@ =~= t0.push(t@.last()));
                    assert(nodes_view(t@) =~= nodes_view(t0).push(cv));
                }
                Node { tag, inner: Inner::Tree(t) }
            },
        }
    }
}

// ---------------------------------------------------------------------------
// The descent.
// ---------------------------------------------------------------------------

/// The error for a tag left open: it carries the open tag's name and the
/// name's byte range.
pub open spec fn err_unclosed(t: NodeTagM) -> ErrM {
    ErrM { value: t.name, start: t.name_start, end: t.name_end, kind: ErrKindM::UnclosedTag }
}

/// The error for an end tag with nothing open: it carries the end tag's
/// name and range.
pub open spec fn err_unopened(t: TextFragM) -> ErrM {
    ErrM { value: t.value, start: t.start, end: t.end, kind: ErrKindM::UnopenedTag }
}

/// One step per fragment: text accumulates into the current frame; a start
/// tag pushes a frame; a matching end tag closes the current frame into
/// its parent; a mismatched end tag reports the open tag unclosed; an end
/// tag at the root is unopened; the end of input closes the root normally
/// and reports any still-open tag unclosed.
pub open spec fn sp_run(stack: Seq<NodeM>, cur: NodeM, fs: Seq<FragM>) -> Result<NodeM, ErrM>
    decreases fs.len(),
{
    if fs.len() == 0 {
        match cur.tag {
            Some(t) => Err(err_unclosed(t)),
            None => Ok(cur),
        }
    } else {
        let rest = fs.drop_first();
        match fs[0] {
            FragM::Text(t) => sp_run(stack, sp_put_text(cur, t.value), rest),
            FragM::StartTag(t) => sp_run(
                stack.push(cur),
                NodeM { tag: Some(tag_of_frag(t)), inner: InnerM::Empty },
                rest,
            ),
            FragM::EndTag(t) => match cur.tag {
                Some(ct) => if t.value == ct.name && stack.len() > 0 {
                    sp_run(stack.drop_last(), sp_put_node(stack.last(), cur), rest)
                } else {
                    Err(err_unclosed(ct))
                },
                None => Err(err_unopened(t)),
            },
        }
    }
}

/// Consumes a fragment vector into the finished intermediate root, or the
/// first error.
pub fn parse_fragments(frags: &Vec<Fragment>) -> (r: Result<Node, Error>)
    requires
        forall|k: int| 0 <= k < frags@.len() ==> frag_wf(#[trigger] frags@[k]@),
    ensures
        ({
            let res = sp_run(Seq::empty(), root_node_m(), fragments_view(frags@));
            match r {
                Ok(n) => res == Ok::<NodeM, ErrM>(node_view(n)),
                Err(e) => res == Err::<NodeM, ErrM>(e@),
            }
        }),
{
    let ghost fs = fragments_view(frags@);
    let ghost target = sp_run(Seq::empty(), root_node_m(), fs);
    let mut stack: Vec<Node> = Vec::new();
    let mut cur = Node::root();
    let mut i: usize = 0;
    proof {
        assert(fs.skip(0) =~= fs);
        assert(nodes_view(Seq::<Node>::empty()) =~= Seq::<NodeM>::empty());
    }
    while i < frags.len()
        invariant
            0 <= i <= frags@.len(),
            fs == fragments_view(frags@),
            fs.len() == frags@.len(),
            forall|k: int| 0 <= k < frags@.len() ==> frag_wf(#[trigger] frags@[k]@),
            (cur.tag is None) <==> (stack@.len() == 0),
            forall|k: int|
                0 <= k < stack@.len() ==> ((#[trigger] stack@[k]).tag is None <==> k == 0),
            target == sp_run(Seq::empty(), root_node_m(), fs),
            sp_run(nodes_view(stack@), node_view(cur), fs.skip(i as int)) == target,
        decreases frags@.len() - i,
    {
        proof {
            assert(fs[i as int] == frags@[i as int]@);
            assert(fs.skip(i as int)[0] == fs[i as int]);
            assert(fs.skip(i as int).drop_first() =~= fs.skip(i + 1));
        }
        let f = &frags[i];
        match f {
            Fragment::Text(t) => {
                cur = cur.put_text(clone_bytes(&t.value));
            },
            Fragment::StartTag(tag) => {
                let nt = NodeTag::from_fragment(tag);
                let ghost stack0 = stack@;
                stack.push(cur);
                cur = Node::tag(nt);
                proof {
                    assert(stack@.drop_last() =~= stack0);
                    assert(nodes_view(stack@) =~= nodes_view(stack0).push(
                        node_view(stack@.last()),
                    ));
                }
            },
            Fragment::EndTag(t) => {
                match &cur.tag {
                    Some(ct) => {
                        if !bytes_eq(t.value.as_slice(), ct.name.as_slice()) {
                            return Err(
                                Error {
                                    value: clone_bytes(&ct.name),
                                    start: ct.name_start,
                                    end: ct.name_end,
                                    kind: ErrorKind::UnclosedTag,
                                },
                            );
                        }
                    },
                    None => {
                        return Err(
                            Error {
                                value: clone_bytes(&t.value),
                                start: t.start,
                                end: t.end,
                                kind: ErrorKind::UnopenedTag,
                            },
                        );
                    },
                }
                // The names matched and a parent frame exists.
                let ghost stack0 = stack@;
                let parent = match stack.pop() {
                    Some(p) => p,
                    None => {
                        proof {
                            assert(false);
                        }
                        Node::root()
                    },
                };
                proof {
                    assert(stack@ =~= stack0.drop_last());
                    lemma_nodes_view_len(stack0);
                    assert(nodes_view(stack0).last() == node_view(parent));
                    assert(nodes_view(stack@) =~= nodes_view(stack0).drop_last());
                    assert forall|k: int| 0 <= k < stack@.len() implies ((
                    #[trigger] stack@[k]).tag is None <==> k == 0) by {
                        assert(stack@[k] == stack0[k]);
                    }
                }
                cur = parent.put_node(cur);
            },
        }
        i = i + 1;
    }
    proof {
        assert(fs.skip(i as int) =~= Seq::<FragM>::empty());
    }
    match &cur.tag {
        Some(ct) => Err(
            Error {
                value: clone_bytes(&ct.name),
                start: ct.name_start,
                end: ct.name_end,
                kind: ErrorKind::UnclosedTag,
            },
        ),
        None => Ok(cur),
    }
}

} // verus!
