//! The document tree: what the blocks of a page are as nodes of a Markdown
//! document, before any of it is written out as text.

pub mod blocks;
pub mod inline;
pub mod shape;

use vstd::prelude::*;

verus! {

/// Whether the items of a list are marked by a bullet or by their number.
#[derive(Debug, Clone, Copy, PartialEq, Eq, Structural)]
pub enum ListType {
    Bullet,
    Ordered,
}

/// What follows the number of an item: a period or a parenthesis.
#[derive(Debug, Clone, Copy, PartialEq, Eq, Structural)]
pub enum ListDelimType {
    Period,
    Paren,
}

/// What there is to say of a list, or of one item of it.
#[derive(Debug, Clone, Copy, PartialEq, Eq, Structural)]
pub struct NodeList {
    pub list_type: ListType,
    pub marker_offset: usize,
    pub padding: usize,
    pub start: usize,
    pub delimiter: ListDelimType,
    pub bullet_char: u8,
    pub tight: bool,
    pub is_task_list: bool,
}

/// How the cells of a column are aligned.
#[derive(Debug, Clone, Copy, PartialEq, Eq, Structural)]
pub enum TableAlignment {
    Unaligned,
    Left,
    Center,
    Right,
}

/// What there is to say of a table.
#[derive(Debug, Clone, PartialEq, Eq)]
pub struct NodeTable {
    pub alignments: Vec<TableAlignment>,
    pub num_columns: usize,
    pub num_rows: usize,
    pub num_nonempty_cells: usize,
}

/// A code span: its text, and the number of backticks around it.
#[derive(Debug, Clone, PartialEq, Eq)]
pub struct NodeCode {
    pub num_backticks: usize,
    pub literal: String,
}

/// A link: where it leads, and its title.
#[derive(Debug, Clone, PartialEq, Eq)]
pub struct NodeLink {
    pub url: String,
    pub title: String,
}

/// A block of code: its text, its info string, and how it is fenced.
#[derive(Debug, Clone, PartialEq, Eq)]
pub struct NodeCodeBlock {
    pub fenced: bool,
    pub fence_char: u8,
    pub fence_length: usize,
    pub fence_offset: usize,
    pub info: String,
    pub literal: String,
}

/// A heading: its level, and whether it is underlined rather than led by `#`.
#[derive(Debug, Clone, Copy, PartialEq, Eq, Structural)]
pub struct NodeHeading {
    pub level: u8,
    pub setext: bool,
}

/// A formula: its text, and how it is set off.
#[derive(Debug, Clone, PartialEq, Eq)]
pub struct NodeMath {
    pub dollar_math: bool,
    pub display_math: bool,
    pub literal: String,
}

/// What a node of the document tree is.
#[derive(Debug, Clone, PartialEq, Eq)]
pub enum NodeValue {
    Document,
    BlockQuote,
    List(NodeList),
    Item(NodeList),
    CodeBlock(NodeCodeBlock),
    Paragraph,
    Heading(NodeHeading),
    ThematicBreak,
    Table(NodeTable),
    /// A row of a table; `true` for the header row.
    TableRow(bool),
    TableCell,
    /// Text that is escaped where it is written out.
    Text(String),
    Code(NodeCode),
    /// A tag that stands in the text as it is.
    HtmlInline(String),
    /// Text that is written out as it is.
    Raw(String),
    Emph,
    Strong,
    Strikethrough,
    Link(NodeLink),
    Math(NodeMath),
}

/// `NodeValue` with its texts as sequences of characters.
pub enum NodeValueView {
    Document,
    BlockQuote,
    List(NodeList),
    Item(NodeList),
    CodeBlock {
        fenced: bool,
        fence_char: u8,
        fence_length: usize,
        fence_offset: usize,
        info: Seq<char>,
        literal: Seq<char>,
    },
    Paragraph,
    Heading(NodeHeading),
    ThematicBreak,
    Table {
        alignments: Seq<TableAlignment>,
        num_columns: usize,
        num_rows: usize,
        num_nonempty_cells: usize,
    },
    TableRow(bool),
    TableCell,
    Text(Seq<char>),
    Code { num_backticks: usize, literal: Seq<char> },
    HtmlInline(Seq<char>),
    Raw(Seq<char>),
    Emph,
    Strong,
    Strikethrough,
    Link { url: Seq<char>, title: Seq<char> },
    Math { dollar_math: bool, display_math: bool, literal: Seq<char> },
}

impl View for NodeValue {
    type V = NodeValueView;

    open spec fn view(&self) -> NodeValueView {
        match self {
            NodeValue::Document => NodeValueView::Document,
            NodeValue::BlockQuote => NodeValueView::BlockQuote,
            NodeValue::List(l) => NodeValueView::List(*l),
            NodeValue::Item(l) => NodeValueView::Item(*l),
            NodeValue::CodeBlock(c) => NodeValueView::CodeBlock {
                fenced: c.fenced,
                fence_char: c.fence_char,
                fence_length: c.fence_length,
                fence_offset: c.fence_offset,
                info: c.info@,
                literal: c.literal@,
            },
            NodeValue::Paragraph => NodeValueView::Paragraph,
            NodeValue::Heading(h) => NodeValueView::Heading(*h),
            NodeValue::ThematicBreak => NodeValueView::ThematicBreak,
            NodeValue::Table(t) => NodeValueView::Table {
                alignments: t.alignments@,
                num_columns: t.num_columns,
                num_rows: t.num_rows,
                num_nonempty_cells: t.num_nonempty_cells,
            },
            NodeValue::TableRow(header) => NodeValueView::TableRow(*header),
            NodeValue::TableCell => NodeValueView::TableCell,
            NodeValue::Text(t) => NodeValueView::Text(t@),
            NodeValue::Code(c) => NodeValueView::Code {
                num_backticks: c.num_backticks,
                literal: c.literal@,
            },
            NodeValue::HtmlInline(t) => NodeValueView::HtmlInline(t@),
            NodeValue::Raw(t) => NodeValueView::Raw(t@),
            NodeValue::Emph => NodeValueView::Emph,
            NodeValue::Strong => NodeValueView::Strong,
            NodeValue::Strikethrough => NodeValueView::Strikethrough,
            NodeValue::Link(l) => NodeValueView::Link { url: l.url@, title: l.title@ },
            NodeValue::Math(m) => NodeValueView::Math {
                dollar_math: m.dollar_math,
                display_math: m.display_math,
                literal: m.literal@,
            },
        }
    }
}

/// A node of the document tree with the nodes below it.
#[derive(Debug, PartialEq, Eq)]
pub struct AstNode {
    pub value: NodeValue,
    pub children: Vec<AstNode>,
}

/// The document tree as a mathematical value.
pub struct Tree {
    pub value: NodeValueView,
    pub children: Seq<Tree>,
}

/// A tree without children.
pub open spec fn leaf(value: NodeValueView) -> Tree {
    Tree { value, children: Seq::empty() }
}

/// The trees of the first `n` of `nodes`.
pub open spec fn trees_upto(nodes: Seq<AstNode>, n: nat) -> Seq<Tree>
    decreases nodes, n,
{
    if n == 0 || n > nodes.len() {
        Seq::empty()
    } else {
        trees_upto(nodes, (n - 1) as nat).push(nodes[n - 1].tree())
    }
}

/// The trees of `nodes`, in their order.
pub open spec fn trees(nodes: Seq<AstNode>) -> Seq<Tree> {
    trees_upto(nodes, nodes.len())
}

impl AstNode {
    /// The tree that the node is the root of.
    pub open spec fn tree(self) -> Tree
        decreases self, 0nat,
    {
        Tree { value: self.value@, children: trees_upto(self.children@, self.children@.len()) }
    }

    /// A node without children.
    pub fn new(value: NodeValue) -> (node: AstNode)
        ensures
            node.tree() == leaf(value@),
            node.value == value,
            node.children@.len() == 0,
    {
        AstNode { value, children: Vec::new() }
    }

    /// A node above the given nodes.
    pub fn with_children(value: NodeValue, children: Vec<AstNode>) -> (node: AstNode)
        ensures
            node.tree() == (Tree { value: value@, children: trees(children@) }),
            node.value == value,
            node.children == children,
    {
        AstNode { value, children }
    }
}

proof fn lemma_trees_upto(nodes: Seq<AstNode>, n: nat)
    requires
        n <= nodes.len(),
    ensures
        trees_upto(nodes, n).len() == n,
        forall|i: int| 0 <= i < n ==> trees_upto(nodes, n)[i] == nodes[i].tree(),
    decreases n,
{
    if n > 0 {
        lemma_trees_upto(nodes, (n - 1) as nat);
    }
}

/// `trees` goes node by node.
pub proof fn lemma_trees(nodes: Seq<AstNode>)
    ensures
        trees(nodes).len() == nodes.len(),
        forall|i: int| 0 <= i < nodes.len() ==> trees(nodes)[i] == nodes[i].tree(),
{
    lemma_trees_upto(nodes, nodes.len());
}

/// The trees of two runs of nodes, one after the other.
pub proof fn lemma_trees_of_concat(a: Seq<AstNode>, b: Seq<AstNode>)
    ensures
        trees(a + b) == trees(a) + trees(b),
{
    lemma_trees(a);
    lemma_trees(b);
    lemma_trees(a + b);
    assert(trees(a + b) =~= trees(a) + trees(b));
}

/// The trees of a run of nodes with one more behind it.
pub proof fn lemma_trees_of_push(a: Seq<AstNode>, node: AstNode)
    ensures
        trees(a.push(node)) == trees(a).push(node.tree()),
        trees(Seq::<AstNode>::empty()) == Seq::<Tree>::empty(),
{
    lemma_trees(a);
    lemma_trees(a.push(node));
    assert(trees(a.push(node)) =~= trees(a).push(node.tree()));
}

/// Whether `next` goes into the list `last`: both are lists, of whatever
/// kind.
pub open spec fn joins(last: Tree, next: Tree) -> bool {
    last.value is List && next.value is List
}

/// The nodes with every run of lists made into one list: the items of all
/// of them, in order, under the first, which says of what kind the list is.
pub open spec fn grouped(nodes: Seq<Tree>) -> Seq<Tree>
    decreases nodes.len(),
{
    if nodes.len() == 0 {
        Seq::empty()
    } else {
        let before = grouped(nodes.drop_last());
        let next = nodes.last();
        if before.len() > 0 && joins(before.last(), next) {
            before.drop_last().push(
                Tree { value: before.last().value, children: before.last().children + next.children },
            )
        } else {
            before.push(next)
        }
    }
}

fn is_same_list(last: &AstNode, next: &AstNode) -> (r: bool)
    ensures
        r == joins(last.tree(), next.tree()),
{
    match (&last.value, &next.value) {
        (NodeValue::List(_), NodeValue::List(_)) => true,
        _ => false,
    }
}

/// Joins every run of lists into one list: see `grouped`.
pub fn group_lists(nodes: Vec<AstNode>) -> (r: Vec<AstNode>)
    ensures
        trees(r@) == grouped(trees(nodes@)),
{
    let ghost all = nodes@;
    let mut out: Vec<AstNode> = Vec::new();
    proof {
        lemma_trees(all.take(0));
        lemma_trees(out@);
        assert(trees(out@) =~= grouped(trees(all.take(0))));
    }
    for node in it: nodes
        invariant
            it.seq() == all,
            trees(out@) == grouped(trees(all.take(it.index() as int))),
    {
        let ghost i = it.index() as int;
        let ghost before = out@;
        proof {
            assert(all.take(i + 1) == all.take(i).push(node));
            lemma_trees_of_push(all.take(i), node);
            assert(trees(all.take(i + 1)).drop_last() == trees(all.take(i)));
            lemma_trees(before);
        }
        let same = out.len() > 0 && is_same_list(&out[out.len() - 1], &node);
        if same {
            let mut last = out.pop().unwrap();
            let mut items = node.children;
            let ghost head = last.children@;
            let ghost tail = items@;
            last.children.append(&mut items);
            proof {
                lemma_trees_of_concat(head, tail);
                lemma_trees_of_push(out@, last);
                lemma_trees(out@);
                assert(trees(out@) =~= trees(before).drop_last());
            }
            out.push(last);
        } else {
            proof {
                lemma_trees_of_push(before, node);
            }
            out.push(node);
        }
    }
    assert(all.take(all.len() as int) == all);
    out
}

/// A vector that holds `node` alone.
pub fn single(node: AstNode) -> (v: Vec<AstNode>)
    ensures
        trees(v@) == seq![node.tree()],
{
    let mut v: Vec<AstNode> = Vec::new();
    v.push(node);
    proof {
        lemma_trees(v@);
        assert(trees(v@) =~= seq![node.tree()]);
    }
    v
}

/// Puts `node` behind the nodes of `v`.
pub fn push_node(v: &mut Vec<AstNode>, node: AstNode)
    ensures
        trees(final(v)@) == trees(old(v)@).push(node.tree()),
        final(v)@ == old(v)@.push(node),
{
    proof {
        lemma_trees_of_push(v@, node);
    }
    v.push(node);
}

/// Puts the nodes of `more` behind the nodes of `v`.
pub fn extend_nodes(v: &mut Vec<AstNode>, more: Vec<AstNode>)
    ensures
        trees(final(v)@) == trees(old(v)@) + trees(more@),
        final(v)@ == old(v)@ + more@,
{
    proof {
        lemma_trees_of_concat(v@, more@);
    }
    let mut more = more;
    v.append(&mut more);
}

/// After grouping no list is followed by a list: every run of lists has
/// become one list.
pub proof fn lemma_grouped_leaves_no_run(nodes: Seq<Tree>)
    ensures
        forall|i: int|
            0 <= i < grouped(nodes).len() - 1 ==> !joins(
                #[trigger] grouped(nodes)[i],
                grouped(nodes)[i + 1],
            ),
        grouped(nodes).len() <= nodes.len(),
        nodes.len() > 0 ==> grouped(nodes).len() > 0,
    decreases nodes.len(),
{
    if nodes.len() > 0 {
        lemma_grouped_leaves_no_run(nodes.drop_last());
    }
}

/// What stands in the lists and beside them: the items of every list, and
/// every node that is no list, in their order.
pub open spec fn items_of(nodes: Seq<Tree>) -> Seq<Tree>
    decreases nodes.len(),
{
    if nodes.len() == 0 {
        Seq::empty()
    } else if nodes.last().value is List {
        items_of(nodes.drop_last()) + nodes.last().children
    } else {
        items_of(nodes.drop_last()).push(nodes.last())
    }
}

/// The nodes in lists and the nodes beside lists are the same before
/// grouping and after it, and in the same order.
pub proof fn lemma_grouped_keeps_items(nodes: Seq<Tree>)
    ensures
        items_of(grouped(nodes)) == items_of(nodes),
    decreases nodes.len(),
{
    if nodes.len() > 0 {
        let before = grouped(nodes.drop_last());
        let next = nodes.last();
        lemma_grouped_keeps_items(nodes.drop_last());
        if before.len() > 0 && joins(before.last(), next) {
            let merged = Tree {
                value: before.last().value,
                children: before.last().children + next.children,
            };
            let out = before.drop_last().push(merged);
            assert(out.drop_last() == before.drop_last());
            assert(out.last() == merged);
            assert(items_of(out) == items_of(before.drop_last()) + merged.children);
            assert(items_of(before) == items_of(before.drop_last()) + before.last().children);
            assert(items_of(out) =~= items_of(before) + next.children);
        } else {
            let out = before.push(next);
            assert(out.drop_last() == before);
            assert(out.last() == next);
        }
    }
}

/// Lists and nothing but lists become one list: it is of the kind of the
/// first, and it holds the items of all of them in their order.
pub proof fn lemma_grouped_lists_are_one(nodes: Seq<Tree>)
    requires
        nodes.len() > 0,
        forall|i: int| 0 <= i < nodes.len() ==> (#[trigger] nodes[i]).value is List,
    ensures
        grouped(nodes).len() == 1,
        grouped(nodes)[0].value == nodes[0].value,
        grouped(nodes)[0].children == items_of(nodes),
    decreases nodes.len(),
{
    let next = nodes.last();
    let rest = nodes.drop_last();
    if rest.len() == 0 {
        assert(grouped(rest).len() == 0);
        assert(grouped(nodes) == seq![next]);
        assert(items_of(rest) == Seq::<Tree>::empty());
        assert(items_of(nodes) =~= next.children);
    } else {
        assert forall|i: int| 0 <= i < rest.len() implies (#[trigger] rest[i]).value is List by {
            assert(rest[i] == nodes[i]);
        }
        lemma_grouped_lists_are_one(rest);
        let before = grouped(rest);
        assert(joins(before.last(), next));
        assert(rest[0] == nodes[0]);
        assert(before.drop_last().len() == 0);
    }
}

} // verus!
