//! Translation of finished intermediate nodes into shared-tree nodes: one
//! rule per known tag name. Tag names are matched case-insensitively; the
//! first rule whose name matches wins, and an unmatched name is an error.
//!
//! Parameter conventions: the unkeyed `[tag=value]` form is keyed under the
//! empty string; where a tag reads a single parameter (`code`, `color`,
//! `size`, `quote`, `spoiler`, `url`, `img`), the keyed form named after
//! the tag takes precedence over the unkeyed one.

use vstd::prelude::*;
use vstd::string::StringSliceAdditionalSpecFns;

use crate::markdown_text::{escape_markdown, sp_escape};
use crate::tree::{nodes_to_text, sp_nodes_text, tree_view, trees_view, TreeM, TreeNode};
use crate::util::{
    clone_bytes, copy_range, lemma_run_end, lemma_trim_end, parse_u32, run_end, scan_run,
    sp_parse_u32, sp_trim_end, trim_end_idx, ByteClass,
};
use super::parser::{
    inner_view, node_view, nodes_view, sp_lookup, InnerM, Inner, Node, NodeM, NodeTag, NodeTagM,
    Param, ParamM, lemma_nodes_view_len,
};
use super::{ErrKindM, ErrM, Error, ErrorKind};

verus! {

// ---------------------------------------------------------------------------
// Small helpers.
// ---------------------------------------------------------------------------

/// Index of the first occurrence of `b` in `s`, or `-1`.
pub open spec fn sp_find_byte(s: Seq<u8>, b: u8) -> int
    decreases s.len(),
{
    if s.len() == 0 {
        -1
    } else if s[0] == b {
        0
    } else {
        let r = sp_find_byte(s.drop_first(), b);
        if r == -1 {
            -1
        } else {
            r + 1
        }
    }
}

proof fn lemma_find_byte(s: Seq<u8>, b: u8)
    ensures
        sp_find_byte(s, b) == -1 || 0 <= sp_find_byte(s, b) < s.len(),
    decreases s.len(),
{
    if s.len() > 0 && s[0] != b {
        lemma_find_byte(s.drop_first(), b);
    }
}

/// Finds the first occurrence of `b` in `s`.
fn find_byte(s: &[u8], b: u8) -> (r: Option<usize>)
    ensures
        match r {
            Some(k) => sp_find_byte(s@, b) == k as int && k < s@.len(),
            None => sp_find_byte(s@, b) == -1,
        },
{
    proof {
        lemma_find_byte(s@, b);
    }
    let mut j: usize = 0;
    while j < s.len()
        invariant
            0 <= j <= s@.len(),
            forall|k: int| 0 <= k < j ==> s@[k] != b,
            sp_find_byte(s@, b) == -1 || 0 <= sp_find_byte(s@, b) < s@.len(),
        decreases s@.len() - j,
    {
        if s[j] == b {
            proof {
                lemma_find_byte_at(s@, b, j as int);
            }
            return Some(j);
        }
        j = j + 1;
    }
    proof {
        if sp_find_byte(s@, b) != -1 {
            lemma_find_byte_hit(s@, b);
        }
    }
    None
}

proof fn lemma_find_byte_at(s: Seq<u8>, b: u8, j: int)
    requires
        0 <= j < s.len(),
        s[j] == b,
        forall|k: int| 0 <= k < j ==> s[k] != b,
    ensures
        sp_find_byte(s, b) == j,
    decreases s.len(),
{
    if s[0] != b {
        lemma_find_byte_at(s.drop_first(), b, j - 1);
    }
}

proof fn lemma_find_byte_hit(s: Seq<u8>, b: u8)
    requires
        sp_find_byte(s, b) != -1,
    ensures
        0 <= sp_find_byte(s, b) < s.len() && s[sp_find_byte(s, b)] == b,
    decreases s.len(),
{
    if s.len() > 0 && s[0] != b {
        lemma_find_byte_hit(s.drop_first(), b);
    }
}

// ---------------------------------------------------------------------------
// Error constructors.
// ---------------------------------------------------------------------------

/// A tag name not in the dispatch table.
pub open spec fn err_unknown(t: NodeTagM) -> ErrM {
    ErrM { value: t.name, start: t.name_start, end: t.name_end, kind: ErrKindM::UnknownTag }
}

/// A tag whose required inner text is missing.
pub open spec fn err_missing_inner(t: NodeTagM) -> ErrM {
    ErrM { value: t.name, start: t.name_start, end: t.name_end, kind: ErrKindM::MissingInner }
}

/// A nested tag inside verbatim content: reports the outer tag, naming the
/// inner one.
pub open spec fn err_unexpected(t: NodeTagM, inner: NodeTagM) -> ErrM {
    ErrM {
        value: t.name,
        start: t.name_start,
        end: t.name_end,
        kind: ErrKindM::UnexpectedTag {
            name: inner.name,
            start: inner.name_start,
            end: inner.name_end,
        },
    }
}

/// A parameter whose value is not a number.
pub open spec fn err_param_parse(p: ParamM) -> ErrM {
    ErrM { value: p.value, start: p.start, end: p.end, kind: ErrKindM::ParamParse { key: p.key } }
}

/// A parameter whose value has the wrong shape.
pub open spec fn err_param_invalid(p: ParamM) -> ErrM {
    ErrM { value: p.value, start: p.start, end: p.end, kind: ErrKindM::ParamInvalid { key: p.key } }
}

fn mk_err_unknown(t: &NodeTag) -> (r: Error)
    ensures
        r@ == err_unknown(t@),
{
    Error {
        value: clone_bytes(&t.name),
        start: t.name_start,
        end: t.name_end,
        kind: ErrorKind::UnknownTag,
    }
}

fn mk_err_missing_inner(t: &NodeTag) -> (r: Error)
    ensures
        r@ == err_missing_inner(t@),
{
    Error {
        value: clone_bytes(&t.name),
        start: t.name_start,
        end: t.name_end,
        kind: ErrorKind::MissingInner,
    }
}

fn mk_err_unexpected(t: &NodeTag, inner: &NodeTag) -> (r: Error)
    ensures
        r@ == err_unexpected(t@, inner@),
{
    Error {
        value: clone_bytes(&t.name),
        start: t.name_start,
        end: t.name_end,
        kind: ErrorKind::UnexpectedTag {
            name: clone_bytes(&inner.name),
            start: inner.name_start,
            end: inner.name_end,
        },
    }
}

fn mk_err_param_parse(p: &Param) -> (r: Error)
    ensures
        r@ == err_param_parse(p@),
{
    Error {
        value: clone_bytes(&p.value),
        start: p.start,
        end: p.end,
        kind: ErrorKind::ParamParse { key: clone_bytes(&p.key) },
    }
}

fn mk_err_param_invalid(p: &Param) -> (r: Error)
    ensures
        r@ == err_param_invalid(p@),
{
    Error {
        value: clone_bytes(&p.value),
        start: p.start,
        end: p.end,
        kind: ErrorKind::ParamInvalid { key: clone_bytes(&p.key) },
    }
}

// ---------------------------------------------------------------------------
// Parameter access.
// ---------------------------------------------------------------------------

/// The single parameter of a tag: the keyed form under `key` if present,
/// else the unkeyed (empty-string) entry.
pub open spec fn sp_either_param(t: NodeTagM, key: Seq<u8>) -> Option<ParamM> {
    if sp_lookup(t.params, key) is Some {
        sp_lookup(t.params, key)
    } else {
        sp_lookup(t.params, Seq::empty())
    }
}

fn either_param<'a>(t: &'a NodeTag, key: &[u8]) -> (r: Option<&'a Param>)
    ensures
        match r {
            Some(p) => sp_either_param(t@, key@) == Some(p@),
            None => sp_either_param(t@, key@) is None,
        },
{
    match t.get(key) {
        Some(p) => Some(p),
        None => {
            let empty: Vec<u8> = Vec::new();
            t.get(empty.as_slice())
        },
    }
}

// ---------------------------------------------------------------------------
// Generated HTML.
// ---------------------------------------------------------------------------

/// The models of an attribute list.
pub open spec fn attrs_view(attrs: Seq<(Vec<u8>, Vec<u8>)>) -> Seq<(Seq<u8>, Seq<u8>)> {
    attrs.map_values(|a: (Vec<u8>, Vec<u8>)| (a.0@, a.1@))
}

/// ` key="value"` for each attribute, in order.
pub open spec fn sp_attrs_html(attrs: Seq<(Seq<u8>, Seq<u8>)>) -> Seq<u8>
    decreases attrs.len(),
{
    if attrs.len() == 0 {
        Seq::empty()
    } else {
        sp_attrs_html(attrs.drop_last()) + seq![32u8] + attrs.last().0 + seq![61u8, 34u8]
            + attrs.last().1 + seq![34u8]
    }
}

/// `<tag attrs>inner</tag>` followed by a newline.
pub open spec fn sp_html_value(tag: Seq<u8>, attrs: Seq<(Seq<u8>, Seq<u8>)>, inner: Seq<u8>) -> Seq<
    u8,
> {
    seq![60u8] + tag + sp_attrs_html(attrs) + seq![62u8] + inner + seq![60u8, 47u8] + tag
        + seq![62u8, 10u8]
}

/// Renders one HTML element with its attributes and raw inner text.
fn html_value(tag: &[u8], attrs: &Vec<(Vec<u8>, Vec<u8>)>, inner: &[u8]) -> (r: Vec<u8>)
    ensures
        r@ == sp_html_value(tag@, attrs_view(attrs@), inner@),
{
    let ghost avs = attrs_view(attrs@);
    let mut out: Vec<u8> = Vec::new();
    out.push(60);
    crate::util::extend_range(&mut out, tag, 0, tag.len());
    let mut i: usize = 0;
    while i < attrs.len()
        invariant
            0 <= i <= attrs@.len(),
            avs == attrs_view(attrs@),
            avs.len() == attrs@.len(),
            forall|k: int| 0 <= k < attrs@.len() ==> #[trigger] avs[k] == (
                attrs@[k].0@,
                attrs@[k].1@,
            ),
            out@ == seq![60u8] + tag@ + sp_attrs_html(avs.take(i as int)),
        decreases attrs@.len() - i,
    {
        out.push(32);
        crate::util::extend_range(&mut out, attrs[i].0.as_slice(), 0, attrs[i].0.len());
        out.push(61);
        out.push(34);
        crate::util::extend_range(&mut out, attrs[i].1.as_slice(), 0, attrs[i].1.len());
        out.push(34);
        proof {
            assert(avs.take(i + 1).drop_last() =~= avs.take(i as int));
            assert(avs.take(i + 1).last() == avs[i as int]);
            assert(out@ =~= seq![60u8] + tag@ + sp_attrs_html(avs.take(i + 1)));
        }
        i = i + 1;
    }
    proof {
        assert(avs.take(i as int) =~= avs);
    }
    out.push(62);
    crate::util::extend_range(&mut out, inner, 0, inner.len());
    out.push(60);
    out.push(47);
    crate::util::extend_range(&mut out, tag, 0, tag.len());
    out.push(62);
    out.push(10);
    proof {
        assert(out@ =~= sp_html_value(tag@, avs, inner@));
    }
    out
}

// ---------------------------------------------------------------------------
// Verbatim content.
// ---------------------------------------------------------------------------

/// The first tagged child among structured content, if any.
pub open spec fn sp_find_tagged(ns: Seq<NodeM>) -> Option<NodeTagM>
    decreases ns.len(),
{
    if ns.len() == 0 {
        None
    } else if ns[0].tag is Some {
        Some(ns[0].tag->Some_0)
    } else {
        sp_find_tagged(ns.drop_first())
    }
}

/// The text-only content a verbatim tag requires: empty content is the
/// empty string; structured content is an error naming the first nested
/// tag.
pub open spec fn sp_inner_text(t: NodeTagM, i: InnerM) -> Result<Seq<u8>, ErrM> {
    match i {
        InnerM::Empty => Ok(Seq::empty()),
        InnerM::Text(v) => Ok(v),
        InnerM::Tree(ns) => match sp_find_tagged(ns) {
            Some(inner_tag) => Err(err_unexpected(t, inner_tag)),
            None => Err(err_missing_inner(t)),
        },
    }
}

/// Extracts a verbatim tag's text-only content.
fn inner_text(t: &NodeTag, inner: &Inner) -> (r: Result<Vec<u8>, Error>)
    ensures
        match r {
            Ok(v) => sp_inner_text(t@, inner_view(*inner)) == Ok::<Seq<u8>, ErrM>(v@),
            Err(e) => sp_inner_text(t@, inner_view(*inner)) == Err::<Seq<u8>, ErrM>(e@),
        },
{
    match inner {
        Inner::Empty => Ok(Vec::new()),
        Inner::Text(v) => Ok(clone_bytes(v)),
        Inner::Tree(ns) => {
            let ghost nvs = nodes_view(ns@);
            proof {
                lemma_nodes_view_len(ns@);
                assert(nvs.skip(0) =~= nvs);
            }
            let mut j: usize = 0;
            while j < ns.len()
                invariant
                    0 <= j <= ns@.len(),
                    nvs == nodes_view(ns@),
                    nvs.len() == ns@.len(),
                    inner_view(*inner) == InnerM::Tree(nvs),
                    forall|k: int| 0 <= k < ns@.len() ==> #[trigger] nvs[k] == node_view(ns@[k]),
                    sp_find_tagged(nvs) == sp_find_tagged(nvs.skip(j as int)),
                decreases ns@.len() - j,
            {
                proof {
                    assert(nvs.skip(j as int)[0] == nvs[j as int]);
                    assert(nvs.skip(j as int).drop_first() =~= nvs.skip(j + 1));
                }
                match &ns[j].tag {
                    Some(it) => {
                        proof {
                            assert(nvs[j as int].tag == Some(it@));
                            assert(nvs.skip(j as int).len() > 0);
                            assert(sp_find_tagged(nvs.skip(j as int)) == Some(it@));
                            assert(inner_view(*inner) == InnerM::Tree(nvs));
                            assert(sp_inner_text(t@, inner_view(*inner)) == Err::<
                                Seq<u8>,
                                ErrM,
                            >(err_unexpected(t@, it@)));
                        }
                        return Err(mk_err_unexpected(t, it));
                    },
                    None => {},
                }
                j = j + 1;
            }
            proof {
                assert(nvs.skip(j as int) =~= Seq::<NodeM>::empty());
            }
            Err(mk_err_missing_inner(t))
        },
    }
}

// ---------------------------------------------------------------------------
// List items from the text shorthand.
// ---------------------------------------------------------------------------

/// The item a line denotes: a line whose trimmed form starts with `[*]`
/// becomes one item holding the escaped text after the marker; any other
/// line is ignored.
pub open spec fn sp_line_item(line: Seq<u8>) -> Seq<TreeM> {
    let a = run_end(line, 0, ByteClass::Space);
    let b = sp_trim_end(line, line.len() as int);
    if b - a >= 3 && line[a] == 91 && line[a + 1] == 42 && line[a + 2] == 93 {
        let c0 = run_end(line, a + 3, ByteClass::Space);
        let c: int = if c0 > b {
            b
        } else {
            c0
        };
        seq![
            TreeM::ListItem {
                children: seq![TreeM::Text { value: sp_escape(line.subrange(c, b)) }],
            },
        ]
    } else {
        Seq::empty()
    }
}

/// Items parsed from the `[*]` line shorthand, over `v[pos..]`.
pub open spec fn sp_list_items_text(v: Seq<u8>, pos: int) -> Seq<TreeM>
    decreases v.len() - pos,
    when 0 <= pos <= v.len()
{
    if pos >= v.len() {
        Seq::empty()
    } else {
        let nl = run_end(v, pos, ByteClass::NonNewline);
        proof {
            lemma_run_end(v, pos, ByteClass::NonNewline);
        }
        let item = sp_line_item(v.subrange(pos, nl));
        if nl >= v.len() {
            item
        } else {
            item + sp_list_items_text(v, nl + 1)
        }
    }
}

/// Builds the item a single line denotes, if any.
fn line_item(line: &[u8]) -> (r: Option<TreeNode>)
    ensures
        match r {
            Some(n) => sp_line_item(line@) == seq![n@],
            None => sp_line_item(line@) == Seq::<TreeM>::empty(),
        },
{
    let a = scan_run(line, 0, ByteClass::Space);
    let b = trim_end_idx(line, line.len());
    proof {
        lemma_trim_end(line@, line@.len() as int);
    }
    if b >= 3 && a <= b - 3 && line[a] == 91 && line[a + 1] == 42 && line[a + 2] == 93 {
        let c0 = scan_run(line, a + 3, ByteClass::Space);
        let c: usize = if c0 > b {
            b
        } else {
            c0
        };
        let raw = copy_range(line, c, b);
        let text = escape_markdown(raw.as_slice());
        let mut children: Vec<TreeNode> = Vec::new();
        let ghost c0 = children@;
        children.push(TreeNode::Text { value: text });
        proof {
            crate::tree::lemma_trees_view_empty();
            assert(c0 =~= Seq::<TreeNode>::empty());
            crate::tree::lemma_trees_view_push(c0, children@.last());
            assert(children@ =~= c0.push(children@.last()));
            assert(trees_view(children@) =~= seq![
                TreeM::Text { value: sp_escape(line@.subrange(c as int, b as int)) },
            ]);
        }
        let item = TreeNode::ListItem { children };
        Some(item)
    } else {
        None
    }
}

/// Parses list items from the `[*]` line shorthand.
fn list_items_text(v: &[u8]) -> (r: Vec<TreeNode>)
    ensures
        trees_view(r@) == sp_list_items_text(v@, 0),
{
    let mut out: Vec<TreeNode> = Vec::new();
    let mut pos: usize = 0;
    proof {
        assert(trees_view(out@) =~= Seq::<TreeM>::empty());
    }
    while pos < v.len()
        invariant
            0 <= pos <= v@.len(),
            trees_view(out@) + sp_list_items_text(v@, pos as int) == sp_list_items_text(v@, 0),
        decreases v@.len() - pos,
    {
        let nl = scan_run(v, pos, ByteClass::NonNewline);
        let line = copy_range(v, pos, nl);
        let ghost out0 = out@;
        match line_item(line.as_slice()) {
            Some(n) => {
                out.push(n);
                proof {
                    assert(out@.drop_last() =~= out0);
                    assert(trees_view(out@) =~= trees_view(out0) + sp_line_item(
                        v@.subrange(pos as int, nl as int),
                    ));
                }
            },
            None => {
                proof {
                    assert(trees_view(out@) =~= trees_view(out0) + sp_line_item(
                        v@.subrange(pos as int, nl as int),
                    ));
                }
            },
        }
        if nl >= v.len() {
            pos = v.len();
            proof {
                assert(sp_list_items_text(v@, pos as int) =~= Seq::<TreeM>::empty());
            }
            return out;
        }
        pos = nl + 1;
    }
    proof {
        assert(sp_list_items_text(v@, pos as int) =~= Seq::<TreeM>::empty());
    }
    out
}

// ---------------------------------------------------------------------------
// The dispatch, in the model.
// ---------------------------------------------------------------------------

/// What a finished intermediate node adds to its parent: a sequence of
/// tree nodes (tagless nodes pass their content through unwrapped).
pub open spec fn sp_build_node(n: NodeM) -> Result<Seq<TreeM>, ErrM>
    decreases n, 2int,
{
    match n.tag {
        Some(t) => sp_build_tag(t, n.inner),
        None => sp_build_inner(n.inner),
    }
}

/// Accumulated content built to tree nodes: a text run becomes one escaped
/// text leaf; structured content concatenates what each child builds to.
pub open spec fn sp_build_inner(i: InnerM) -> Result<Seq<TreeM>, ErrM>
    decreases i, 0int,
{
    match i {
        InnerM::Empty => Ok(Seq::empty()),
        InnerM::Text(v) => Ok(seq![TreeM::Text { value: sp_escape(v) }]),
        InnerM::Tree(ns) => sp_build_nodes(ns),
    }
}

/// The concatenation of what each node builds to, stopping at the first
/// error.
pub open spec fn sp_build_nodes(ns: Seq<NodeM>) -> Result<Seq<TreeM>, ErrM>
    decreases ns, 1int,
{
    if ns.len() == 0 {
        Ok(Seq::empty())
    } else {
        match sp_build_nodes(ns.drop_last()) {
            Ok(built) => match sp_build_node(ns.last()) {
                Ok(more) => Ok(built + more),
                Err(e) => Err(e),
            },
            Err(e) => Err(e),
        }
    }
}

/// Content rendered to raw text for embedding in generated HTML: a text
/// run is escaped; structured content is built and then flattened to its
/// plain-text rendering.
pub open spec fn sp_rendered_inner(i: InnerM) -> Result<Seq<u8>, ErrM>
    decreases i, 0int,
{
    match i {
        InnerM::Empty => Ok(Seq::empty()),
        InnerM::Text(v) => Ok(sp_escape(v)),
        InnerM::Tree(ns) => match sp_build_nodes(ns) {
            Ok(ts) => Ok(sp_nodes_text(ts)),
            Err(e) => Err(e),
        },
    }
}

/// Whether an intermediate node is a list-item tag.
pub open spec fn sp_is_li(n: NodeM) -> bool {
    n.tag is Some && crate::util::sp_lower(n.tag->Some_0.name) == "li".spec_bytes()
}

/// One list item per structured child: an `li` child contributes the item
/// it builds to directly; any other child is wrapped in one item holding
/// what it builds to.
pub open spec fn sp_list_items_children(ns: Seq<NodeM>) -> Result<Seq<TreeM>, ErrM>
    decreases ns, 1int,
{
    if ns.len() == 0 {
        Ok(Seq::empty())
    } else {
        match sp_list_items_children(ns.drop_last()) {
            Ok(items) => match sp_build_node(ns.last()) {
                Ok(built) => if sp_is_li(ns.last()) {
                    Ok(items + built)
                } else {
                    Ok(items.push(TreeM::ListItem { children: built }))
                },
                Err(e) => Err(e),
            },
            Err(e) => Err(e),
        }
    }
}

/// An HTML span carrying one `style` attribute around rendered content.
pub open spec fn sp_span(style: Seq<u8>, md: Seq<u8>) -> Seq<TreeM> {
    seq![
        TreeM::Html {
            value: sp_html_value("span".spec_bytes(), seq![("style".spec_bytes(), style)], md),
        },
    ]
}

/// The items of a list tag: none for empty content, the `[*]` shorthand
/// for a plain text run, one item per child for structured content.
pub open spec fn sp_list_items(i: InnerM) -> Result<Seq<TreeM>, ErrM>
    decreases i, 1int,
{
    match i {
        InnerM::Empty => Ok(Seq::empty()),
        InnerM::Text(v) => Ok(sp_list_items_text(v, 0)),
        InnerM::Tree(ns) => sp_list_items_children(ns),
    }
}

/// A link whose title carries a generated `<img>` element, used when
/// explicit dimensions require HTML attributes.
pub open spec fn sp_img_html_link(url: Seq<u8>, w: Seq<u8>, h: Seq<u8>) -> Seq<TreeM> {
    seq![
        TreeM::Link {
            url: url,
            title: Some(
                sp_html_value(
                    "img".spec_bytes(),
                    seq![
                        ("width".spec_bytes(), w),
                        ("height".spec_bytes(), h),
                        ("src".spec_bytes(), url),
                    ],
                    Seq::empty(),
                ),
            ),
            children: Seq::empty(),
        },
    ]
}

/// The construction rule of each known tag, applied to a finished tag node.
pub open spec fn sp_build_tag(t: NodeTagM, inner: InnerM) -> Result<Seq<TreeM>, ErrM>
    decreases inner, 3int,
{
    let nm = crate::util::sp_lower(t.name);
    if nm == "b".spec_bytes() {
        match sp_build_inner(inner) {
            Ok(cs) => Ok(seq![TreeM::Strong { children: cs }]),
            Err(e) => Err(e),
        }
    } else if nm == "i".spec_bytes() {
        match sp_build_inner(inner) {
            Ok(cs) => Ok(seq![TreeM::Emphasis { children: cs }]),
            Err(e) => Err(e),
        }
    } else if nm == "s".spec_bytes() {
        match sp_build_inner(inner) {
            Ok(cs) => Ok(seq![TreeM::Delete { children: cs }]),
            Err(e) => Err(e),
        }
    } else if nm == "u".spec_bytes() {
        match sp_rendered_inner(inner) {
            Ok(md) => Ok(
                seq![
                    TreeM::Html { value: sp_html_value("u".spec_bytes(), Seq::empty(), md) },
                ],
            ),
            Err(e) => Err(e),
        }
    } else if nm == "center".spec_bytes() || nm == "left".spec_bytes() || nm
        == "right".spec_bytes() {
        match sp_rendered_inner(inner) {
            Ok(md) => Ok(sp_span("text-align: ".spec_bytes() + nm + ";".spec_bytes(), md)),
            Err(e) => Err(e),
        }
    } else if nm == "color".spec_bytes() {
        match sp_either_param(t, "color".spec_bytes()) {
            Some(p) => match sp_rendered_inner(inner) {
                Ok(md) => Ok(sp_span("color: ".spec_bytes() + p.value + ";".spec_bytes(), md)),
                Err(e) => Err(e),
            },
            None => sp_build_inner(inner),
        }
    } else if nm == "size".spec_bytes() {
        match sp_either_param(t, "size".spec_bytes()) {
            Some(p) => if sp_parse_u32(p.value) is Some {
                match sp_rendered_inner(inner) {
                    Ok(md) => Ok(
                        sp_span("font-size: ".spec_bytes() + p.value + ";".spec_bytes(), md),
                    ),
                    Err(e) => Err(e),
                }
            } else {
                Err(err_param_parse(p))
            },
            None => sp_build_inner(inner),
        }
    } else if nm == "style".spec_bytes() {
        let c = sp_lookup(t.params, "color".spec_bytes());
        let s = sp_lookup(t.params, "size".spec_bytes());
        if s is Some && sp_parse_u32(s->Some_0.value) is None {
            Err(err_param_parse(s->Some_0))
        } else {
            let style: Seq<u8> = match (c, s) {
                (Some(cp), Some(sp)) => "color: ".spec_bytes() + cp.value + "; ".spec_bytes()
                    + "font-size: ".spec_bytes() + sp.value + ";".spec_bytes(),
                (Some(cp), None) => "color: ".spec_bytes() + cp.value + ";".spec_bytes(),
                (None, Some(sp)) => "font-size: ".spec_bytes() + sp.value + ";".spec_bytes(),
                (None, None) => Seq::empty(),
            };
            match sp_rendered_inner(inner) {
                Ok(md) => Ok(sp_span(style, md)),
                Err(e) => Err(e),
            }
        }
    } else if nm == "code".spec_bytes() {
        match sp_inner_text(t, inner) {
            Ok(val) => Ok(
                seq![
                    TreeM::Code {
                        value: val,
                        lang: match sp_either_param(t, "code".spec_bytes()) {
                            Some(p) => Some(p.value),
                            None => None,
                        },
                    },
                ],
            ),
            Err(e) => Err(e),
        }
    } else if nm == "pre".spec_bytes() {
        match sp_inner_text(t, inner) {
            Ok(val) => Ok(seq![TreeM::InlineCode { value: val }]),
            Err(e) => Err(e),
        }
    } else if nm == "quote".spec_bytes() {
        match sp_build_inner(inner) {
            Ok(cs) => {
                let cs2 = match sp_either_param(t, "quote".spec_bytes()) {
                    Some(p) => cs.push(
                        TreeM::Text { value: "\u{2014}".spec_bytes() + sp_escape(p.value) },
                    ),
                    None => cs,
                };
                Ok(seq![TreeM::BlockQuote { children: cs2 }])
            },
            Err(e) => Err(e),
        }
    } else if nm == "spoiler".spec_bytes() {
        match sp_rendered_inner(inner) {
            Ok(md) => {
                let body = match sp_either_param(t, "spoiler".spec_bytes()) {
                    Some(p) => "<summary>".spec_bytes() + sp_escape(p.value)
                        + "</summary>".spec_bytes() + md,
                    None => md,
                };
                Ok(
                    seq![
                        TreeM::Html {
                            value: sp_html_value("details".spec_bytes(), Seq::empty(), body),
                        },
                    ],
                )
            },
            Err(e) => Err(e),
        }
    } else if nm == "list".spec_bytes() || nm == "ul".spec_bytes() {
        match sp_list_items(inner) {
            Ok(items) => Ok(
                seq![
                    TreeM::List { ordered: false, start: None, spread: false, children: items },
                ],
            ),
            Err(e) => Err(e),
        }
    } else if nm == "ol".spec_bytes() {
        match sp_list_items(inner) {
            Ok(items) => Ok(
                seq![
                    TreeM::List {
                        ordered: true,
                        start: Some(1u32),
                        spread: false,
                        children: items,
                    },
                ],
            ),
            Err(e) => Err(e),
        }
    } else if nm == "li".spec_bytes() {
        match sp_build_inner(inner) {
            Ok(cs) => Ok(seq![TreeM::ListItem { children: cs }]),
            Err(e) => Err(e),
        }
    } else if nm == "url".spec_bytes() {
        match sp_inner_text(t, inner) {
            Ok(txt) => match sp_either_param(t, "url".spec_bytes()) {
                Some(p) => Ok(
                    seq![
                        TreeM::Link {
                            url: p.value,
                            title: if txt.len() > 0 {
                                Some(txt)
                            } else {
                                None
                            },
                            children: Seq::empty(),
                        },
                    ],
                ),
                None => if txt.len() == 0 {
                    Err(err_missing_inner(t))
                } else {
                    Ok(seq![TreeM::Link { url: txt, title: None, children: Seq::empty() }])
                },
            },
            Err(e) => Err(e),
        }
    } else if nm == "youtube".spec_bytes() {
        match sp_inner_text(t, inner) {
            Ok(txt) => if txt.len() == 0 {
                Err(err_missing_inner(t))
            } else {
                Ok(
                    seq![
                        TreeM::Link {
                            url: "https://youtube.com/watch?v=".spec_bytes() + txt,
                            title: None,
                            children: Seq::empty(),
                        },
                    ],
                )
            },
            Err(e) => Err(e),
        }
    } else if nm == "img".spec_bytes() {
        match sp_inner_text(t, inner) {
            Ok(url) => if url.len() == 0 {
                Err(err_missing_inner(t))
            } else {
                match sp_either_param(t, "img".spec_bytes()) {
                    Some(d) => {
                        let xi = sp_find_byte(d.value, 120);
                        if xi < 0 {
                            Err(err_param_invalid(d))
                        } else {
                            let w = d.value.subrange(0, xi);
                            let h = d.value.subrange(xi + 1, d.value.len() as int);
                            if sp_parse_u32(w) is Some && sp_parse_u32(h) is Some {
                                Ok(sp_img_html_link(url, w, h))
                            } else {
                                Err(err_param_parse(d))
                            }
                        }
                    },
                    None => {
                        let wp = sp_lookup(t.params, "width".spec_bytes());
                        let hp = sp_lookup(t.params, "height".spec_bytes());
                        match (wp, hp) {
                            (Some(w), Some(h)) => if sp_parse_u32(w.value) is None {
                                Err(err_param_parse(w))
                            } else if sp_parse_u32(h.value) is None {
                                Err(err_param_parse(h))
                            } else {
                                Ok(sp_img_html_link(url, w.value, h.value))
                            },
                            _ => Ok(
                                seq![
                                    TreeM::Image {
                                        url: url,
                                        alt: match sp_lookup(t.params, "alt".spec_bytes()) {
                                            Some(p) => p.value,
                                            None => Seq::empty(),
                                        },
                                        title: match sp_lookup(
                                            t.params,
                                            "title".spec_bytes(),
                                        ) {
                                            Some(p) => Some(p.value),
                                            None => None,
                                        },
                                    },
                                ],
                            ),
                        }
                    },
                }
            },
            Err(e) => Err(e),
        }
    } else if nm == "table".spec_bytes() {
        match sp_build_inner(inner) {
            Ok(cs) => Ok(seq![TreeM::Table { children: cs }]),
            Err(e) => Err(e),
        }
    } else if nm == "tr".spec_bytes() {
        match sp_build_inner(inner) {
            Ok(cs) => Ok(seq![TreeM::TableRow { children: cs }]),
            Err(e) => Err(e),
        }
    } else if nm == "td".spec_bytes() {
        match sp_build_inner(inner) {
            Ok(cs) => Ok(seq![TreeM::TableCell { header: false, children: cs }]),
            Err(e) => Err(e),
        }
    } else if nm == "th".spec_bytes() {
        match sp_build_inner(inner) {
            Ok(cs) => Ok(seq![TreeM::TableCell { header: true, children: cs }]),
            Err(e) => Err(e),
        }
    } else {
        Err(err_unknown(t))
    }
}

// ---------------------------------------------------------------------------
// The dispatch, executed.
// ---------------------------------------------------------------------------

/// An error at a prefix settles the whole sequence.
proof fn lemma_build_nodes_err(s: Seq<NodeM>, k: int)
    requires
        0 <= k <= s.len(),
        sp_build_nodes(s.take(k)) is Err,
    ensures
        sp_build_nodes(s) == sp_build_nodes(s.take(k)),
    decreases s.len() - k,
{
    if k < s.len() {
        assert(s.take(k + 1).drop_last() =~= s.take(k));
        lemma_build_nodes_err(s, k + 1);
    } else {
        assert(s.take(k) =~= s);
    }
}

proof fn lemma_list_items_children_err(s: Seq<NodeM>, k: int)
    requires
        0 <= k <= s.len(),
        sp_list_items_children(s.take(k)) is Err,
    ensures
        sp_list_items_children(s) == sp_list_items_children(s.take(k)),
    decreases s.len() - k,
{
    if k < s.len() {
        assert(s.take(k + 1).drop_last() =~= s.take(k));
        lemma_list_items_children_err(s, k + 1);
    } else {
        assert(s.take(k) =~= s);
    }
}

/// Builds each node in order, concatenating the results.
fn build_nodes(ns: &Vec<Node>) -> (r: Result<Vec<TreeNode>, Error>)
    ensures
        match r {
            Ok(ts) => sp_build_nodes(nodes_view(ns@)) == Ok::<Seq<TreeM>, ErrM>(trees_view(ts@)),
            Err(e) => sp_build_nodes(nodes_view(ns@)) == Err::<Seq<TreeM>, ErrM>(e@),
        },
    decreases *ns, 0int, 0int,
{
    let ghost nvs = nodes_view(ns@);
    proof {
        lemma_nodes_view_len(ns@);
    }
    let mut out: Vec<TreeNode> = Vec::new();
    let mut i: usize = 0;
    proof {
        assert(nvs.take(0) =~= Seq::<NodeM>::empty());
        assert(trees_view(out@) =~= Seq::<TreeM>::empty());
    }
    while i < ns.len()
        invariant
            0 <= i <= ns@.len(),
            nvs == nodes_view(ns@),
            nvs.len() == ns@.len(),
            forall|k: int| 0 <= k < ns@.len() ==> #[trigger] nvs[k] == node_view(ns@[k]),
            sp_build_nodes(nvs.take(i as int)) == Ok::<Seq<TreeM>, ErrM>(trees_view(out@)),
        decreases ns@.len() - i,
    {
        proof {
            assert(decreases_to!(*ns => ns@));
            assert(decreases_to!(ns@ => ns@[i as int]));
            assert(nvs.take(i + 1).drop_last() =~= nvs.take(i as int));
            assert(nvs.take(i + 1).last() == nvs[i as int]);
        }
        match ns[i].build() {
            Ok(mut more) => {
                let ghost out0 = out@;
                let ghost more0 = more@;
                out.append(&mut more);
                proof {
                    crate::tree::lemma_trees_view_concat(out0, more0);
                }
            },
            Err(e) => {
                proof {
                    lemma_build_nodes_err(nvs, i + 1);
                }
                return Err(e);
            },
        }
        i = i + 1;
    }
    proof {
        assert(nvs.take(i as int) =~= nvs);
    }
    Ok(out)
}

/// Builds accumulated content to tree nodes.
fn build_inner(inner: &Inner) -> (r: Result<Vec<TreeNode>, Error>)
    ensures
        match r {
            Ok(ts) => sp_build_inner(inner_view(*inner)) == Ok::<Seq<TreeM>, ErrM>(
                trees_view(ts@),
            ),
            Err(e) => sp_build_inner(inner_view(*inner)) == Err::<Seq<TreeM>, ErrM>(e@),
        },
    decreases *inner, 0int, 0int,
{
    match inner {
        Inner::Empty => {
            let out: Vec<TreeNode> = Vec::new();
            proof {
                assert(trees_view(out@) =~= Seq::<TreeM>::empty());
            }
            Ok(out)
        },
        Inner::Text(v) => {
            let out = one(TreeNode::Text { value: escape_markdown(v.as_slice()) });
            Ok(out)
        },
        Inner::Tree(ns) => build_nodes(ns),
    }
}

/// Renders accumulated content to raw text for generated HTML.
fn rendered_inner(inner: &Inner) -> (r: Result<Vec<u8>, Error>)
    ensures
        match r {
            Ok(v) => sp_rendered_inner(inner_view(*inner)) == Ok::<Seq<u8>, ErrM>(v@),
            Err(e) => sp_rendered_inner(inner_view(*inner)) == Err::<Seq<u8>, ErrM>(e@),
        },
    decreases *inner, 0int, 0int,
{
    match inner {
        Inner::Empty => Ok(Vec::new()),
        Inner::Text(v) => Ok(escape_markdown(v.as_slice())),
        Inner::Tree(ns) => match build_nodes(ns) {
            Ok(ts) => Ok(nodes_to_text(&ts)),
            Err(e) => Err(e),
        },
    }
}

/// One list item per structured child.
fn list_items_children(ns: &Vec<Node>) -> (r: Result<Vec<TreeNode>, Error>)
    ensures
        match r {
            Ok(ts) => sp_list_items_children(nodes_view(ns@)) == Ok::<Seq<TreeM>, ErrM>(
                trees_view(ts@),
            ),
            Err(e) => sp_list_items_children(nodes_view(ns@)) == Err::<Seq<TreeM>, ErrM>(e@),
        },
    decreases *ns, 0int, 0int,
{
    let ghost nvs = nodes_view(ns@);
    proof {
        lemma_nodes_view_len(ns@);
    }
    let mut out: Vec<TreeNode> = Vec::new();
    let mut i: usize = 0;
    proof {
        assert(nvs.take(0) =~= Seq::<NodeM>::empty());
        assert(trees_view(out@) =~= Seq::<TreeM>::empty());
    }
    while i < ns.len()
        invariant
            0 <= i <= ns@.len(),
            nvs == nodes_view(ns@),
            nvs.len() == ns@.len(),
            forall|k: int| 0 <= k < ns@.len() ==> #[trigger] nvs[k] == node_view(ns@[k]),
            sp_list_items_children(nvs.take(i as int)) == Ok::<Seq<TreeM>, ErrM>(
                trees_view(out@),
            ),
        decreases ns@.len() - i,
    {
        proof {
            assert(decreases_to!(*ns => ns@));
            assert(decreases_to!(ns@ => ns@[i as int]));
            assert(nvs.take(i + 1).drop_last() =~= nvs.take(i as int));
            assert(nvs.take(i + 1).last() == nvs[i as int]);
        }
        match ns[i].build() {
            Ok(mut built) => {
                let ghost builtseq = built@;
                let ghost bv = trees_view(built@);
                let ghost out0 = out@;
                let is_li = match &ns[i].tag {
                    Some(nt) => {
                        let lc = crate::util::to_lower(nt.name.as_slice());
                        crate::util::bytes_eq(lc.as_slice(), "li".as_bytes())
                    },
                    None => false,
                };
                proof {
                    assert(is_li == sp_is_li(nvs[i as int]));
                }
                if is_li {
                    out.append(&mut built);
                    proof {
                        crate::tree::lemma_trees_view_concat(out0, builtseq);
                        assert(out@ =~= out0 + builtseq);
                    }
                } else {
                    out.push(TreeNode::ListItem { children: built });
                    proof {
                        crate::tree::lemma_trees_view_push(out0, out@.last());
                        assert(out@ =~= out0.push(out@.last()));
                        assert(tree_view(out@.last()) == (TreeM::ListItem { children: bv }));
                        assert(trees_view(out@) =~= trees_view(out0).push(
                            TreeM::ListItem { children: bv },
                        ));
                    }
                }
            },
            Err(e) => {
                proof {
                    lemma_list_items_children_err(nvs, i + 1);
                }
                return Err(e);
            },
        }
        i = i + 1;
    }
    proof {
        assert(nvs.take(i as int) =~= nvs);
    }
    Ok(out)
}

/// The items of a list tag.
fn list_items(inner: &Inner) -> (r: Result<Vec<TreeNode>, Error>)
    ensures
        match r {
            Ok(ts) => sp_list_items(inner_view(*inner)) == Ok::<Seq<TreeM>, ErrM>(
                trees_view(ts@),
            ),
            Err(e) => sp_list_items(inner_view(*inner)) == Err::<Seq<TreeM>, ErrM>(e@),
        },
    decreases *inner, 0int, 0int,
{
    match inner {
        Inner::Empty => {
            let out: Vec<TreeNode> = Vec::new();
            proof {
                assert(trees_view(out@) =~= Seq::<TreeM>::empty());
            }
            Ok(out)
        },
        Inner::Text(v) => Ok(list_items_text(v.as_slice())),
        Inner::Tree(ns) => list_items_children(ns),
    }
}

/// A single-node vector.
fn one(n: TreeNode) -> (r: Vec<TreeNode>)
    ensures
        trees_view(r@) == seq![n@],
        r@.len() == 1,
        r@[0] == n,
{
    let ghost nv = n@;
    let mut out: Vec<TreeNode> = Vec::new();
    let ghost o0 = out@;
    out.push(n);
    proof {
        crate::tree::lemma_trees_view_empty();
        assert(o0 =~= Seq::<TreeNode>::empty());
        crate::tree::lemma_trees_view_push(o0, out@.last());
        assert(out@ =~= o0.push(out@.last()));
        assert(trees_view(out@) =~= seq![nv]);
    }
    out
}

/// An HTML span with one `style` attribute.
fn span_nodes(style: Vec<u8>, md: Vec<u8>) -> (r: Vec<TreeNode>)
    ensures
        trees_view(r@) == sp_span(style@, md@),
{
    let ghost style0 = style@;
    let mut attrs: Vec<(Vec<u8>, Vec<u8>)> = Vec::new();
    attrs.push((crate::util::bytes_of("style"), style));
    proof {
        assert(attrs_view(attrs@) =~= seq![("style".spec_bytes(), style0)]);
    }
    let v = html_value("span".as_bytes(), &attrs, md.as_slice());
    one(TreeNode::Html { value: v })
}

/// Concatenates two byte strings.
fn cat2(a: &[u8], b: &[u8]) -> (r: Vec<u8>)
    ensures
        r@ == a@ + b@,
{
    let mut out: Vec<u8> = Vec::new();
    crate::util::extend_range(&mut out, a, 0, a.len());
    crate::util::extend_range(&mut out, b, 0, b.len());
    proof {
        assert(out@ =~= a@ + b@);
    }
    out
}

/// Concatenates three byte strings.
fn cat3(a: &[u8], b: &[u8], c: &[u8]) -> (r: Vec<u8>)
    ensures
        r@ == a@ + b@ + c@,
{
    let mut out: Vec<u8> = Vec::new();
    crate::util::extend_range(&mut out, a, 0, a.len());
    crate::util::extend_range(&mut out, b, 0, b.len());
    crate::util::extend_range(&mut out, c, 0, c.len());
    proof {
        assert(out@ =~= a@ + b@ + c@);
    }
    out
}

/// A link whose title carries a generated `<img>` element.
fn img_html_link(url: Vec<u8>, w: Vec<u8>, h: Vec<u8>) -> (r: Vec<TreeNode>)
    ensures
        trees_view(r@) == sp_img_html_link(url@, w@, h@),
{
    let ghost url0 = url@;
    let ghost w0 = w@;
    let ghost h0 = h@;
    let mut attrs: Vec<(Vec<u8>, Vec<u8>)> = Vec::new();
    attrs.push((crate::util::bytes_of("width"), w));
    attrs.push((crate::util::bytes_of("height"), h));
    attrs.push((crate::util::bytes_of("src"), clone_bytes(&url)));
    proof {
        assert(attrs_view(attrs@) =~= seq![
            ("width".spec_bytes(), w0),
            ("height".spec_bytes(), h0),
            ("src".spec_bytes(), url0),
        ]);
    }
    let empty: Vec<u8> = Vec::new();
    let html = html_value("img".as_bytes(), &attrs, empty.as_slice());
    one(TreeNode::Link { url, title: Some(html), children: Vec::new() })
}

/// Applies the construction rule of a known tag to a finished tag node.
#[verifier::rlimit(100)]
fn build_tag(t: &NodeTag, inner: &Inner) -> (r: Result<Vec<TreeNode>, Error>)
    ensures
        match r {
            Ok(ts) => sp_build_tag(t@, inner_view(*inner)) == Ok::<Seq<TreeM>, ErrM>(
                trees_view(ts@),
            ),
            Err(e) => sp_build_tag(t@, inner_view(*inner)) == Err::<Seq<TreeM>, ErrM>(e@),
        },
    decreases *inner, 1int, 1int,
{
    let lc = crate::util::to_lower(t.name.as_slice());
    let nm = lc.as_slice();
    if crate::util::bytes_eq(nm, "b".as_bytes()) {
        match build_inner(inner) {
            Ok(cs) => Ok(one(TreeNode::Strong { children: cs })),
            Err(e) => Err(e),
        }
    } else if crate::util::bytes_eq(nm, "i".as_bytes()) {
        match build_inner(inner) {
            Ok(cs) => Ok(one(TreeNode::Emphasis { children: cs })),
            Err(e) => Err(e),
        }
    } else if crate::util::bytes_eq(nm, "s".as_bytes()) {
        match build_inner(inner) {
            Ok(cs) => Ok(one(TreeNode::Delete { children: cs })),
            Err(e) => Err(e),
        }
    } else if crate::util::bytes_eq(nm, "u".as_bytes()) {
        match rendered_inner(inner) {
            Ok(md) => {
                let attrs: Vec<(Vec<u8>, Vec<u8>)> = Vec::new();
                proof {
                    assert(attrs_view(attrs@) =~= Seq::<(Seq<u8>, Seq<u8>)>::empty());
                }
                let v = html_value("u".as_bytes(), &attrs, md.as_slice());
                Ok(one(TreeNode::Html { value: v }))
            },
            Err(e) => Err(e),
        }
    } else if crate::util::bytes_eq(nm, "center".as_bytes()) || crate::util::bytes_eq(
        nm,
        "left".as_bytes(),
    ) || crate::util::bytes_eq(nm, "right".as_bytes()) {
        match rendered_inner(inner) {
            Ok(md) => {
                let style = cat3("text-align: ".as_bytes(), nm, ";".as_bytes());
                Ok(span_nodes(style, md))
            },
            Err(e) => Err(e),
        }
    } else if crate::util::bytes_eq(nm, "color".as_bytes()) {
        match either_param(t, "color".as_bytes()) {
            Some(p) => {
                let style = cat3("color: ".as_bytes(), p.value.as_slice(), ";".as_bytes());
                match rendered_inner(inner) {
                    Ok(md) => Ok(span_nodes(style, md)),
                    Err(e) => Err(e),
                }
            },
            None => build_inner(inner),
        }
    } else if crate::util::bytes_eq(nm, "size".as_bytes()) {
        match either_param(t, "size".as_bytes()) {
            Some(p) => {
                if parse_u32(p.value.as_slice()).is_some() {
                    let style = cat3("font-size: ".as_bytes(), p.value.as_slice(), ";".as_bytes());
                    match rendered_inner(inner) {
                        Ok(md) => Ok(span_nodes(style, md)),
                        Err(e) => Err(e),
                    }
                } else {
                    Err(mk_err_param_parse(p))
                }
            },
            None => build_inner(inner),
        }
    } else if crate::util::bytes_eq(nm, "style".as_bytes()) {
        let cp = t.get("color".as_bytes());
        let sp = t.get("size".as_bytes());
        match sp {
            Some(spp) => {
                if parse_u32(spp.value.as_slice()).is_none() {
                    return Err(mk_err_param_parse(spp));
                }
            },
            None => {},
        }
        let style: Vec<u8> = match (cp, sp) {
            (Some(cpp), Some(spp)) => {
                let head = cat3("color: ".as_bytes(), cpp.value.as_slice(), "; ".as_bytes());
                let tail = cat3("font-size: ".as_bytes(), spp.value.as_slice(), ";".as_bytes());
                let r = cat2(head.as_slice(), tail.as_slice());
                proof {
                    assert(r@ =~= "color: ".spec_bytes() + cpp@.value + "; ".spec_bytes()
                        + "font-size: ".spec_bytes() + spp@.value + ";".spec_bytes());
                }
                r
            },
            (Some(cpp), None) => cat3("color: ".as_bytes(), cpp.value.as_slice(), ";".as_bytes()),
            (None, Some(spp)) => cat3(
                "font-size: ".as_bytes(),
                spp.value.as_slice(),
                ";".as_bytes(),
            ),
            (None, None) => Vec::new(),
        };
        match rendered_inner(inner) {
            Ok(md) => Ok(span_nodes(style, md)),
            Err(e) => Err(e),
        }
    } else {
        build_tag_rest(t, inner)
    }
}

/// The construction rules of the remaining known tags.
#[verifier::rlimit(100)]
fn build_tag_rest(t: &NodeTag, inner: &Inner) -> (r: Result<Vec<TreeNode>, Error>)
    requires
        ({
            let nm = crate::util::sp_lower(t@.name);
            nm != "b".spec_bytes() && nm != "i".spec_bytes() && nm != "s".spec_bytes() && nm
                != "u".spec_bytes() && nm != "center".spec_bytes() && nm != "left".spec_bytes()
                && nm != "right".spec_bytes() && nm != "color".spec_bytes() && nm
                != "size".spec_bytes() && nm != "style".spec_bytes()
        }),
    ensures
        match r {
            Ok(ts) => sp_build_tag(t@, inner_view(*inner)) == Ok::<Seq<TreeM>, ErrM>(
                trees_view(ts@),
            ),
            Err(e) => sp_build_tag(t@, inner_view(*inner)) == Err::<Seq<TreeM>, ErrM>(e@),
        },
    decreases *inner, 1int, 0int,
{
    let lc = crate::util::to_lower(t.name.as_slice());
    let nm = lc.as_slice();
    if crate::util::bytes_eq(nm, "code".as_bytes()) {
        match inner_text(t, inner) {
            Ok(val) => {
                let lang: Option<Vec<u8>> = match either_param(t, "code".as_bytes()) {
                    Some(p) => Some(clone_bytes(&p.value)),
                    None => None,
                };
                Ok(one(TreeNode::Code { value: val, lang }))
            },
            Err(e) => Err(e),
        }
    } else if crate::util::bytes_eq(nm, "pre".as_bytes()) {
        match inner_text(t, inner) {
            Ok(val) => Ok(one(TreeNode::InlineCode { value: val })),
            Err(e) => Err(e),
        }
    } else if crate::util::bytes_eq(nm, "quote".as_bytes()) {
        match build_inner(inner) {
            Ok(mut cs) => {
                match either_param(t, "quote".as_bytes()) {
                    Some(p) => {
                        let esc = escape_markdown(p.value.as_slice());
                        let text = cat2("\u{2014}".as_bytes(), esc.as_slice());
                        proof {
                            assert(text@ =~= "\u{2014}".spec_bytes() + sp_escape(p@.value));
                        }
                        let ghost cs0 = cs@;
                        cs.push(TreeNode::Text { value: text });
                        proof {
                            crate::tree::lemma_trees_view_push(cs0, cs@.last());
                            assert(cs@ =~= cs0.push(cs@.last()));
                            assert(trees_view(cs@) =~= trees_view(cs0).push(
                                TreeM::Text {
                                    value: "\u{2014}".spec_bytes() + sp_escape(p@.value),
                                },
                            ));
                        }
                    },
                    None => {},
                }
                Ok(one(TreeNode::BlockQuote { children: cs }))
            },
            Err(e) => Err(e),
        }
    } else if crate::util::bytes_eq(nm, "spoiler".as_bytes()) {
        match rendered_inner(inner) {
            Ok(md) => {
                let body: Vec<u8> = match either_param(t, "spoiler".as_bytes()) {
                    Some(p) => {
                        let esc = escape_markdown(p.value.as_slice());
                        let head = cat3(
                            "<summary>".as_bytes(),
                            esc.as_slice(),
                            "</summary>".as_bytes(),
                        );
                        cat2(head.as_slice(), md.as_slice())
                    },
                    None => md,
                };
                let attrs: Vec<(Vec<u8>, Vec<u8>)> = Vec::new();
                proof {
                    assert(attrs_view(attrs@) =~= Seq::<(Seq<u8>, Seq<u8>)>::empty());
                }
                let v = html_value("details".as_bytes(), &attrs, body.as_slice());
                Ok(one(TreeNode::Html { value: v }))
            },
            Err(e) => Err(e),
        }
    } else if crate::util::bytes_eq(nm, "list".as_bytes()) || crate::util::bytes_eq(
        nm,
        "ul".as_bytes(),
    ) {
        match list_items(inner) {
            Ok(items) => Ok(
                one(
                    TreeNode::List {
                        ordered: false,
                        start: None,
                        spread: false,
                        children: items,
                    },
                ),
            ),
            Err(e) => Err(e),
        }
    } else if crate::util::bytes_eq(nm, "ol".as_bytes()) {
        match list_items(inner) {
            Ok(items) => Ok(
                one(
                    TreeNode::List {
                        ordered: true,
                        start: Some(1u32),
                        spread: false,
                        children: items,
                    },
                ),
            ),
            Err(e) => Err(e),
        }
    } else if crate::util::bytes_eq(nm, "li".as_bytes()) {
        match build_inner(inner) {
            Ok(cs) => Ok(one(TreeNode::ListItem { children: cs })),
            Err(e) => Err(e),
        }
    } else if crate::util::bytes_eq(nm, "url".as_bytes()) {
        match inner_text(t, inner) {
            Ok(txt) => match either_param(t, "url".as_bytes()) {
                Some(p) => {
                    let title: Option<Vec<u8>> = if txt.len() > 0 {
                        Some(txt)
                    } else {
                        None
                    };
                    Ok(
                        one(
                            TreeNode::Link {
                                url: clone_bytes(&p.value),
                                title,
                                children: Vec::new(),
                            },
                        ),
                    )
                },
                None => {
                    if txt.len() == 0 {
                        Err(mk_err_missing_inner(t))
                    } else {
                        Ok(one(TreeNode::Link { url: txt, title: None, children: Vec::new() }))
                    }
                },
            },
            Err(e) => Err(e),
        }
    } else if crate::util::bytes_eq(nm, "youtube".as_bytes()) {
        match inner_text(t, inner) {
            Ok(txt) => {
                if txt.len() == 0 {
                    Err(mk_err_missing_inner(t))
                } else {
                    let url = cat2("https://youtube.com/watch?v=".as_bytes(), txt.as_slice());
                    proof {
                        assert(url@ =~= "https://youtube.com/watch?v=".spec_bytes() + txt@);
                    }
                    Ok(one(TreeNode::Link { url, title: None, children: Vec::new() }))
                }
            },
            Err(e) => Err(e),
        }
    } else if crate::util::bytes_eq(nm, "img".as_bytes()) {
        match inner_text(t, inner) {
            Ok(url) => {
                if url.len() == 0 {
                    return Err(mk_err_missing_inner(t));
                }
                match either_param(t, "img".as_bytes()) {
                    Some(d) => {
                        match find_byte(d.value.as_slice(), 120) {
                            Some(xi) => {
                                let dlen = d.value.len();
                                assert(xi < dlen);
                                let w = copy_range(d.value.as_slice(), 0, xi);
                                let h = copy_range(d.value.as_slice(), xi + 1, dlen);
                                if parse_u32(w.as_slice()).is_some() && parse_u32(
                                    h.as_slice(),
                                ).is_some() {
                                    Ok(img_html_link(url, w, h))
                                } else {
                                    Err(mk_err_param_parse(d))
                                }
                            },
                            None => Err(mk_err_param_invalid(d)),
                        }
                    },
                    None => {
                        let wp = t.get("width".as_bytes());
                        let hp = t.get("height".as_bytes());
                        match (wp, hp) {
                            (Some(w), Some(h)) => {
                                if parse_u32(w.value.as_slice()).is_none() {
                                    Err(mk_err_param_parse(w))
                                } else if parse_u32(h.value.as_slice()).is_none() {
                                    Err(mk_err_param_parse(h))
                                } else {
                                    Ok(
                                        img_html_link(
                                            url,
                                            clone_bytes(&w.value),
                                            clone_bytes(&h.value),
                                        ),
                                    )
                                }
                            },
                            _ => {
                                let alt: Vec<u8> = match t.get("alt".as_bytes()) {
                                    Some(p) => clone_bytes(&p.value),
                                    None => Vec::new(),
                                };
                                let title: Option<Vec<u8>> = match t.get("title".as_bytes()) {
                                    Some(p) => Some(clone_bytes(&p.value)),
                                    None => None,
                                };
                                Ok(one(TreeNode::Image { url, alt, title }))
                            },
                        }
                    },
                }
            },
            Err(e) => Err(e),
        }
    } else if crate::util::bytes_eq(nm, "table".as_bytes()) {
        match build_inner(inner) {
            Ok(cs) => Ok(one(TreeNode::Table { children: cs })),
            Err(e) => Err(e),
        }
    } else if crate::util::bytes_eq(nm, "tr".as_bytes()) {
        match build_inner(inner) {
            Ok(cs) => Ok(one(TreeNode::TableRow { children: cs })),
            Err(e) => Err(e),
        }
    } else if crate::util::bytes_eq(nm, "td".as_bytes()) {
        match build_inner(inner) {
            Ok(cs) => Ok(one(TreeNode::TableCell { header: false, children: cs })),
            Err(e) => Err(e),
        }
    } else if crate::util::bytes_eq(nm, "th".as_bytes()) {
        match build_inner(inner) {
            Ok(cs) => Ok(one(TreeNode::TableCell { header: true, children: cs })),
            Err(e) => Err(e),
        }
    } else {
        Err(mk_err_unknown(t))
    }
}

impl Node {
    /// Translates this finished intermediate node into the tree nodes it
    /// contributes to its parent.
    pub fn build(&self) -> (r: Result<Vec<TreeNode>, Error>)
        ensures
            match r {
                Ok(ts) => sp_build_node(node_view(*self)) == Ok::<Seq<TreeM>, ErrM>(
                    trees_view(ts@),
                ),
                Err(e) => sp_build_node(node_view(*self)) == Err::<Seq<TreeM>, ErrM>(e@),
            },
        decreases *self, 2int, 0int,
    {
        match &self.tag {
            Some(t) => build_tag(t, &self.inner),
            None => build_inner(&self.inner),
        }
    }
}

/// Translates the finished root frame into the root's children.
pub fn build_root(n: &Node) -> (r: Result<Vec<TreeNode>, Error>)
    ensures
        match r {
            Ok(ts) => sp_build_inner(node_view(*n).inner) == Ok::<Seq<TreeM>, ErrM>(
                trees_view(ts@),
            ),
            Err(e) => sp_build_inner(node_view(*n).inner) == Err::<Seq<TreeM>, ErrM>(e@),
        },
{
    build_inner(&n.inner)
}

} // verus!
