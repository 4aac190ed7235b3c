//! The shared intermediate tree that every front end parses into. Children
//! are untyped: any node kind may appear under any container, as the
//! Markdown-style tree this models allows.

use vstd::prelude::*;

use crate::util::extend_range;

verus! {

/// Model of a tree node, over mathematical sequences.
pub enum TreeM {
    Root { children: Seq<TreeM> },
    Text { value: Seq<u8> },
    Html { value: Seq<u8> },
    Strong { children: Seq<TreeM> },
    Emphasis { children: Seq<TreeM> },
    Delete { children: Seq<TreeM> },
    InlineCode { value: Seq<u8> },
    Code { value: Seq<u8>, lang: Option<Seq<u8>> },
    Link { url: Seq<u8>, title: Option<Seq<u8>>, children: Seq<TreeM> },
    Image { url: Seq<u8>, alt: Seq<u8>, title: Option<Seq<u8>> },
    BlockQuote { children: Seq<TreeM> },
    List { ordered: bool, start: Option<u32>, spread: bool, children: Seq<TreeM> },
    ListItem { children: Seq<TreeM> },
    Table { children: Seq<TreeM> },
    TableRow { children: Seq<TreeM> },
    TableCell { header: bool, children: Seq<TreeM> },
}

/// One node of the shared tree.
#[derive(Debug, PartialEq, Eq)]
pub enum TreeNode {
    /// The document root.
    Root { children: Vec<TreeNode> },
    /// A plain text leaf.
    Text { value: Vec<u8> },
    /// A raw HTML leaf, emitted verbatim.
    Html { value: Vec<u8> },
    /// Strong emphasis.
    Strong { children: Vec<TreeNode> },
    /// Emphasis.
    Emphasis { children: Vec<TreeNode> },
    /// Strikethrough.
    Delete { children: Vec<TreeNode> },
    /// Inline code.
    InlineCode { value: Vec<u8> },
    /// A code block with an optional language.
    Code { value: Vec<u8>, lang: Option<Vec<u8>> },
    /// A link with an optional title.
    Link { url: Vec<u8>, title: Option<Vec<u8>>, children: Vec<TreeNode> },
    /// An image with alternate text and an optional title.
    Image { url: Vec<u8>, alt: Vec<u8>, title: Option<Vec<u8>> },
    /// A block quote.
    BlockQuote { children: Vec<TreeNode> },
    /// A list; ordered lists carry a start number.
    List { ordered: bool, start: Option<u32>, spread: bool, children: Vec<TreeNode> },
    /// One list item.
    ListItem { children: Vec<TreeNode> },
    /// A table.
    Table { children: Vec<TreeNode> },
    /// A table row.
    TableRow { children: Vec<TreeNode> },
    /// A table cell; `header` distinguishes `th` from `td`.
    TableCell { header: bool, children: Vec<TreeNode> },
}

/// The model of a node.
pub open spec fn tree_view(n: TreeNode) -> TreeM
    decreases n,
{
    match n {
        TreeNode::Root { children } => TreeM::Root { children: trees_view(children@) },
        TreeNode::Text { value } => TreeM::Text { value: value@ },
        TreeNode::Html { value } => TreeM::Html { value: value@ },
        TreeNode::Strong { children } => TreeM::Strong { children: trees_view(children@) },
        TreeNode::Emphasis { children } => TreeM::Emphasis { children: trees_view(children@) },
        TreeNode::Delete { children } => TreeM::Delete { children: trees_view(children@) },
        TreeNode::InlineCode { value } => TreeM::InlineCode { value: value@ },
        TreeNode::Code { value, lang } => TreeM::Code {
            value: value@,
            lang: match lang {
                Some(l) => Some(l@),
                None => None,
            },
        },
        TreeNode::Link { url, title, children } => TreeM::Link {
            url: url@,
            title: match title {
                Some(t) => Some(t@),
                None => None,
            },
            children: trees_view(children@),
        },
        TreeNode::Image { url, alt, title } => TreeM::Image {
            url: url@,
            alt: alt@,
            title: match title {
                Some(t) => Some(t@),
                None => None,
            },
        },
        TreeNode::BlockQuote { children } => TreeM::BlockQuote {
            children: trees_view(children@),
        },
        TreeNode::List { ordered, start, spread, children } => TreeM::List {
            ordered,
            start,
            spread,
            children: trees_view(children@),
        },
        TreeNode::ListItem { children } => TreeM::ListItem { children: trees_view(children@) },
        TreeNode::Table { children } => TreeM::Table { children: trees_view(children@) },
        TreeNode::TableRow { children } => TreeM::TableRow { children: trees_view(children@) },
        TreeNode::TableCell { header, children } => TreeM::TableCell {
            header,
            children: trees_view(children@),
        },
    }
}

/// The models of a sequence of nodes.
pub open spec fn trees_view(v: Seq<TreeNode>) -> Seq<TreeM>
    decreases v,
{
    if v.len() == 0 {
        Seq::empty()
    } else {
        trees_view(v.drop_last()).push(tree_view(v.last()))
    }
}

impl View for TreeNode {
    type V = TreeM;

    open spec fn view(&self) -> TreeM {
        tree_view(*self)
    }
}

pub proof fn lemma_trees_view_empty()
    ensures
        trees_view(Seq::<TreeNode>::empty()) == Seq::<TreeM>::empty(),
{
}

pub proof fn lemma_trees_view_push(v: Seq<TreeNode>, n: TreeNode)
    ensures
        trees_view(v.push(n)) == trees_view(v).push(tree_view(n)),
{
    assert(v.push(n).drop_last() =~= v);
    assert(v.push(n).last() == n);
}

/// The view of a concatenation is the concatenation of the views.
pub proof fn lemma_trees_view_concat(a: Seq<TreeNode>, b: Seq<TreeNode>)
    ensures
        trees_view(a + b) == trees_view(a) + trees_view(b),
    decreases b,
{
    if b.len() == 0 {
        assert(a + b =~= a);
        assert(trees_view(a) + trees_view(b) =~= trees_view(a));
    } else {
        lemma_trees_view_concat(a, b.drop_last());
        assert((a + b).drop_last() =~= a + b.drop_last());
        assert((a + b).last() == b.last());
        assert(trees_view(a + b) =~= trees_view(a) + trees_view(b));
    }
}

pub proof fn lemma_trees_view_len(v: Seq<TreeNode>)
    ensures
        trees_view(v).len() == v.len(),
        forall|i: int| 0 <= i < v.len() ==> #[trigger] trees_view(v)[i] == tree_view(v[i]),
    decreases v,
{
    if v.len() > 0 {
        lemma_trees_view_len(v.drop_last());
    }
}

/// A document: the finished shared tree, rooted at its root node.
#[derive(Debug, PartialEq, Eq)]
pub struct TmDoc(pub TreeNode);

impl View for TmDoc {
    type V = TreeM;

    open spec fn view(&self) -> TreeM {
        tree_view(self.0)
    }
}

/// The plain-text rendering of a node: literal leaf values concatenated in
/// document order; images render as nothing.
pub open spec fn sp_node_text(n: TreeM) -> Seq<u8>
    decreases n,
{
    match n {
        TreeM::Text { value } => value,
        TreeM::Html { value } => value,
        TreeM::InlineCode { value } => value,
        TreeM::Code { value, .. } => value,
        TreeM::Image { .. } => Seq::empty(),
        TreeM::Root { children } => sp_nodes_text(children),
        TreeM::Strong { children } => sp_nodes_text(children),
        TreeM::Emphasis { children } => sp_nodes_text(children),
        TreeM::Delete { children } => sp_nodes_text(children),
        TreeM::Link { children, .. } => sp_nodes_text(children),
        TreeM::BlockQuote { children } => sp_nodes_text(children),
        TreeM::List { children, .. } => sp_nodes_text(children),
        TreeM::ListItem { children } => sp_nodes_text(children),
        TreeM::Table { children } => sp_nodes_text(children),
        TreeM::TableRow { children } => sp_nodes_text(children),
        TreeM::TableCell { children, .. } => sp_nodes_text(children),
    }
}

/// The plain-text rendering of a node sequence.
pub open spec fn sp_nodes_text(ns: Seq<TreeM>) -> Seq<u8>
    decreases ns,
{
    if ns.len() == 0 {
        Seq::empty()
    } else {
        sp_nodes_text(ns.drop_last()) + sp_node_text(ns.last())
    }
}

impl TreeNode {
    /// Appends this node's plain-text rendering to `out`.
    pub fn append_text(&self, out: &mut Vec<u8>)
        ensures
            final(out)@ == old(out)@ + sp_node_text(self@),
        decreases *self,
    {
        match self {
            TreeNode::Text { value } => {
                extend_range(out, value.as_slice(), 0, value.len());
                assert(old(out)@ + value@.subrange(0, value@.len() as int) =~= old(out)@
                    + sp_node_text(self@));
            },
            TreeNode::Html { value } => {
                extend_range(out, value.as_slice(), 0, value.len());
                assert(old(out)@ + value@.subrange(0, value@.len() as int) =~= old(out)@
                    + sp_node_text(self@));
            },
            TreeNode::InlineCode { value } => {
                extend_range(out, value.as_slice(), 0, value.len());
                assert(old(out)@ + value@.subrange(0, value@.len() as int) =~= old(out)@
                    + sp_node_text(self@));
            },
            TreeNode::Code { value, .. } => {
                extend_range(out, value.as_slice(), 0, value.len());
                assert(old(out)@ + value@.subrange(0, value@.len() as int) =~= old(out)@
                    + sp_node_text(self@));
            },
            TreeNode::Image { .. } => {
                assert(old(out)@ =~= old(out)@ + sp_node_text(self@));
            },
            TreeNode::Root { children } => {
                Self::append_texts(children, out);
            },
            TreeNode::Strong { children } => {
                Self::append_texts(children, out);
            },
            TreeNode::Emphasis { children } => {
                Self::append_texts(children, out);
            },
            TreeNode::Delete { children } => {
                Self::append_texts(children, out);
            },
            TreeNode::Link { children, .. } => {
                Self::append_texts(children, out);
            },
            TreeNode::BlockQuote { children } => {
                Self::append_texts(children, out);
            },
            TreeNode::List { children, .. } => {
                Self::append_texts(children, out);
            },
            TreeNode::ListItem { children } => {
                Self::append_texts(children, out);
            },
            TreeNode::Table { children } => {
                Self::append_texts(children, out);
            },
            TreeNode::TableRow { children } => {
                Self::append_texts(children, out);
            },
            TreeNode::TableCell { children, .. } => {
                Self::append_texts(children, out);
            },
        }
    }

    /// Appends the plain-text rendering of each node in order.
    fn append_texts(children: &Vec<TreeNode>, out: &mut Vec<u8>)
        ensures
            final(out)@ == old(out)@ + sp_nodes_text(trees_view(children@)),
        decreases *children,
    {
        let ghost views = trees_view(children@);
        proof {
            lemma_trees_view_len(children@);
        }
        let mut i: usize = 0;
        while i < children.len()
            invariant
                0 <= i <= children@.len(),
                views == trees_view(children@),
                views.len() == children@.len(),
                forall|k: int| 0 <= k < children@.len() ==> #[trigger] views[k] == tree_view(
                    children@[k],
                ),
                out@ == old(out)@ + sp_nodes_text(views.take(i as int)),
            decreases children@.len() - i,
        {
            proof {
                assert(decreases_to!(*children => children@));
                assert(decreases_to!(children@ => children@[i as int]));
            }
            children[i].append_text(out);
            proof {
                assert(views.take(i + 1).drop_last() =~= views.take(i as int));
                assert(views.take(i + 1).last() == views[i as int]);
            }
            i = i + 1;
        }
        assert(views.take(i as int) =~= views);
    }

    /// This node rendered to plain text.
    pub fn to_text(&self) -> (r: Vec<u8>)
        ensures
            r@ == sp_node_text(self@),
    {
        let mut out: Vec<u8> = Vec::new();
        self.append_text(&mut out);
        out
    }
}

/// A node sequence rendered to plain text.
pub fn nodes_to_text(nodes: &Vec<TreeNode>) -> (r: Vec<u8>)
    ensures
        r@ == sp_nodes_text(trees_view(nodes@)),
{
    let mut out: Vec<u8> = Vec::new();
    TreeNode::append_texts(nodes, &mut out);
    out
}

} // verus!
