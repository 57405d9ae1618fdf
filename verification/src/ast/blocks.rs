//! Blocks as nodes of the document tree.

use crate::ast::inline::{
    cell_inline_trees, inline_trees, prefixed_inline_trees, spans_to_ast, spans_to_ast_in,
    spans_to_ast_with_prefix,
};
use crate::ast::{
    extend_nodes, group_lists, grouped, leaf, lemma_trees, push_node, single, trees, AstNode,
    ListDelimType, ListType, NodeCodeBlock, NodeHeading, NodeList, NodeMath, NodeTable, NodeValue,
    NodeValueView, TableAlignment, Tree,
};
use crate::block::inline::Callout;
use crate::block::link::RenderOptions;
use crate::block::list::{BulletedListItem, ToDo};
use crate::block::table::{Table, TableRow};
use crate::block::{unexpected_text, unsupported_text, Block};
use crate::page::Page;
use crate::rich_text::{plain_text_of, spans_plain_text, RichText};
use vstd::prelude::*;
use vstd::string::*;

verus! {

/// The list that a bulleted item stands in.
pub open spec fn bullet_list() -> NodeList {
    NodeList {
        list_type: ListType::Bullet,
        marker_offset: 0,
        padding: 4,
        start: 1,
        delimiter: ListDelimType::Period,
        bullet_char: 45,
        tight: true,
        is_task_list: false,
    }
}

/// The list that a numbered item stands in.
pub open spec fn ordered_list() -> NodeList {
    NodeList { list_type: ListType::Ordered, ..bullet_list() }
}

/// The list that a to-do item stands in.
pub open spec fn task_list() -> NodeList {
    NodeList { is_task_list: true, ..bullet_list() }
}

/// What every item carries. How the item is marked is up to its list.
pub open spec fn item_data() -> NodeList {
    ordered_list()
}

/// A list of one item. The item holds its text as a paragraph, and below
/// that the nodes of its children.
pub open spec fn list_item_tree(list: NodeList, inline: Seq<Tree>, below: Seq<Tree>) -> Tree {
    Tree {
        value: NodeValueView::List(list),
        children: seq![
            Tree {
                value: NodeValueView::Item(item_data()),
                children: seq![Tree { value: NodeValueView::Paragraph, children: inline }] + below,
            },
        ],
    }
}

/// A heading of the given level.
pub open spec fn heading_tree(level: u8, inline: Seq<Tree>) -> Tree {
    Tree { value: NodeValueView::Heading(NodeHeading { level, setext: true }), children: inline }
}

/// A paragraph that holds one node. What is no block itself stands in the
/// document so.
pub open spec fn paragraph_of(value: NodeValueView) -> Tree {
    Tree { value: NodeValueView::Paragraph, children: seq![leaf(value)] }
}

/// A block quote of one paragraph.
pub open spec fn quote_tree(inline: Seq<Tree>) -> Tree {
    Tree {
        value: NodeValueView::BlockQuote,
        children: seq![Tree { value: NodeValueView::Paragraph, children: inline }],
    }
}

/// The cells of a row, each with its inline text.
pub open spec fn cell_trees(cells: Seq<Vec<RichText>>) -> Seq<Tree> {
    Seq::new(
        cells.len(),
        |j: int| Tree { value: NodeValueView::TableCell, children: cell_inline_trees(cells[j]@) },
    )
}

/// The rows of a table: one for each child that is a table row, the first
/// of them as the header row.
pub open spec fn row_trees(children: Seq<Block>) -> Seq<Tree>
    decreases children.len(),
{
    if children.len() == 0 {
        Seq::empty()
    } else {
        let before = row_trees(children.drop_last());
        match children.last() {
            Block::TableRow(row) => before.push(
                Tree {
                    value: NodeValueView::TableRow(before.len() == 0),
                    children: cell_trees(row.table_row.cells@),
                },
            ),
            _ => before,
        }
    }
}

/// The nodes of the first `n` of `children`, one for each.
pub open spec fn child_trees(children: Seq<Block>, options: RenderOptions, n: nat) -> Seq<Tree>
    decreases children, n,
{
    if n == 0 || n > children.len() {
        Seq::empty()
    } else {
        child_trees(children, options, (n - 1) as nat).push(children[n - 1].tree(options))
    }
}

impl Callout {
    /// The inline text; the first span starts with the icon and a space
    /// where there is an icon.
    pub open spec fn inline(self) -> Seq<Tree> {
        if self.callout.icon.emoji@.len() == 0 {
            inline_trees(self.callout.rich_text@)
        } else {
            prefixed_inline_trees(self.callout.rich_text@, self.callout.icon.emoji@ + " "@)
        }
    }

    /// The callout as a block quote.
    pub fn to_ast(&self) -> (node: AstNode)
        ensures
            node.tree() == quote_tree(self.inline()),
    {
        let inline = if self.callout.icon.emoji.as_str().is_empty() {
            spans_to_ast(&self.callout.rich_text)
        } else {
            let mut prefix = self.callout.icon.emoji.clone();
            prefix.append(" ");
            spans_to_ast_with_prefix(&self.callout.rich_text, prefix.as_str())
        };
        quote_node(inline)
    }
}

impl ToDo {
    /// The check box as it stands in front of the text.
    pub open spec fn check_box(self) -> Seq<char> {
        if self.to_do.checked {
            "[x] "@
        } else {
            "[ ] "@
        }
    }

    /// The inline text; the first span starts with the check box.
    pub open spec fn inline(self) -> Seq<Tree> {
        prefixed_inline_trees(self.to_do.rich_text@, self.check_box())
    }

    /// Builds the inline text of the item.
    pub fn inline_to_ast(&self) -> (r: Vec<AstNode>)
        ensures
            trees(r@) == self.inline(),
    {
        if self.to_do.checked {
            spans_to_ast_with_prefix(&self.to_do.rich_text, "[x] ")
        } else {
            spans_to_ast_with_prefix(&self.to_do.rich_text, "[ ] ")
        }
    }
}

impl Table {
    /// What the table node says of the table: as many centred columns as
    /// the table is wide, and as many rows as it has.
    pub open spec fn node_value(self) -> NodeValueView {
        NodeValueView::Table {
            alignments: Seq::new(self.table.table_width as nat, |i: int| TableAlignment::Center),
            num_columns: self.table.table_width,
            num_rows: row_trees(self.children@).len() as usize,
            num_nonempty_cells: 0,
        }
    }

    /// The table with its rows.
    pub open spec fn tree(self) -> Tree {
        Tree { value: self.node_value(), children: row_trees(self.children@) }
    }

    /// Builds the table with its rows.
    pub fn to_ast(&self) -> (node: AstNode)
        ensures
            node.tree() == self.tree(),
    {
        let mut rows: Vec<AstNode> = Vec::new();
        proof {
            lemma_trees(rows@);
            assert(trees(rows@) =~= row_trees(self.children@.take(0)));
        }
        let mut i: usize = 0;
        while i < self.children.len()
            invariant
                i <= self.children.len(),
                rows@.len() <= i,
                trees(rows@) == row_trees(self.children@.take(i as int)),
            decreases self.children.len() - i,
        {
            assert(self.children@.take(i + 1).drop_last() == self.children@.take(i as int));
            assert(self.children@.take(i + 1).last() == self.children@[i as int]);
            proof {
                lemma_trees(rows@);
            }
            match &self.children[i] {
                Block::TableRow(row) => {
                    let header = rows.len() == 0;
                    push_node(&mut rows, row_to_ast(row, header));
                },
                _ => {},
            }
            i = i + 1;
        }
        assert(self.children@.take(self.children.len() as int) == self.children@);
        let mut alignments: Vec<TableAlignment> = Vec::new();
        let mut j: usize = 0;
        while j < self.table.table_width
            invariant
                j <= self.table.table_width,
                alignments@ == Seq::new(j as nat, |i: int| TableAlignment::Center),
            decreases self.table.table_width - j,
        {
            alignments.push(TableAlignment::Center);
            assert(alignments@ =~= Seq::new((j + 1) as nat, |i: int| TableAlignment::Center));
            j = j + 1;
        }
        proof {
            lemma_trees(rows@);
        }
        let table = NodeTable {
            alignments,
            num_columns: self.table.table_width,
            num_rows: rows.len(),
            num_nonempty_cells: 0,
        };
        AstNode::with_children(NodeValue::Table(table), rows)
    }
}

fn row_to_ast(row: &TableRow, header: bool) -> (node: AstNode)
    ensures
        node.tree() == (Tree {
            value: NodeValueView::TableRow(header),
            children: cell_trees(row.table_row.cells@),
        }),
{
    let cells = &row.table_row.cells;
    let mut nodes: Vec<AstNode> = Vec::new();
    let mut j: usize = 0;
    while j < cells.len()
        invariant
            j <= cells.len(),
            nodes@.len() == j,
            forall|k: int|
                0 <= k < j ==> (#[trigger] nodes@[k]).tree() == (Tree {
                    value: NodeValueView::TableCell,
                    children: cell_inline_trees(cells@[k]@),
                }),
        decreases cells.len() - j,
    {
        nodes.push(AstNode::with_children(NodeValue::TableCell, spans_to_ast_in(&cells[j], true)));
        j = j + 1;
    }
    proof {
        lemma_trees(nodes@);
        assert(trees(nodes@) =~= cell_trees(cells@));
    }
    AstNode::with_children(NodeValue::TableRow(header), nodes)
}

fn paragraph_node(inline: Vec<AstNode>) -> (node: AstNode)
    ensures
        node.tree() == (Tree { value: NodeValueView::Paragraph, children: trees(inline@) }),
{
    AstNode::with_children(NodeValue::Paragraph, inline)
}

fn raw_paragraph(text: String) -> (node: AstNode)
    ensures
        node.tree() == paragraph_of(NodeValueView::Raw(text@)),
{
    paragraph_node(single(AstNode::new(NodeValue::Raw(text))))
}

fn quote_node(inline: Vec<AstNode>) -> (node: AstNode)
    ensures
        node.tree() == quote_tree(trees(inline@)),
{
    AstNode::with_children(NodeValue::BlockQuote, single(paragraph_node(inline)))
}

fn heading_node(level: u8, inline: Vec<AstNode>) -> (node: AstNode)
    ensures
        node.tree() == heading_tree(level, trees(inline@)),
{
    AstNode::with_children(NodeValue::Heading(NodeHeading { level, setext: true }), inline)
}

fn list_data(list_type: ListType, is_task_list: bool) -> (list: NodeList)
    ensures
        list == (NodeList { list_type, is_task_list, ..bullet_list() }),
{
    NodeList {
        list_type,
        marker_offset: 0,
        padding: 4,
        start: 1,
        delimiter: ListDelimType::Period,
        bullet_char: 45,
        tight: true,
        is_task_list,
    }
}

fn list_item_node(list: NodeList, inline: Vec<AstNode>, below: Vec<AstNode>) -> (node: AstNode)
    ensures
        node.tree() == list_item_tree(list, trees(inline@), trees(below@)),
{
    let mut inside = single(paragraph_node(inline));
    extend_nodes(&mut inside, below);
    let item = AstNode::with_children(
        NodeValue::Item(list_data(ListType::Ordered, false)),
        inside,
    );
    AstNode::with_children(NodeValue::List(list), single(item))
}

/// Builds the nodes of `children`, one for each.
pub fn children_to_ast(children: &Vec<Block>, options: &RenderOptions) -> (r: Vec<AstNode>)
    requires
        all_tree_ready(children@),
    ensures
        trees(r@) == child_trees(children@, *options, children@.len()),
    decreases children,
{
    broadcast use vstd::std_specs::vec::axiom_vec_index_decreases;

    let mut r: Vec<AstNode> = Vec::new();
    proof {
        lemma_trees(r@);
        assert(trees(r@) =~= Seq::<Tree>::empty());
    }
    let mut i: usize = 0;
    while i < children.len()
        invariant
            i <= children.len(),
            all_tree_ready(children@),
            trees(r@) == child_trees(children@, *options, i as nat),
        decreases children.len() - i,
    {
        proof {
            assert(decreases_to!(children => children[i as int]));
        }
        let node = children[i].to_ast_with(options);
        push_node(&mut r, node);
        i = i + 1;
    }
    r
}

/// Every one of `children` has a node.
pub open spec fn all_tree_ready(children: Seq<Block>) -> bool
    decreases children,
{
    forall|i: int| 0 <= i < children.len() ==> (#[trigger] children[i]).tree_ready()
}

/// Whether every one of `children` has a node.
pub fn are_tree_ready(children: &Vec<Block>) -> (r: bool)
    ensures
        r == all_tree_ready(children@),
    decreases children,
{
    broadcast use vstd::std_specs::vec::axiom_vec_index_decreases;

    let mut i: usize = 0;
    while i < children.len()
        invariant
            i <= children.len(),
            forall|k: int| 0 <= k < i ==> (#[trigger] children@[k]).tree_ready(),
        decreases children.len() - i,
    {
        proof {
            assert(decreases_to!(children => children[i as int]));
        }
        if !children[i].is_tree_ready() {
            return false;
        }
        i = i + 1;
    }
    true
}

impl Block {
    /// Whether the block has a node in the document tree. A table row has
    /// none of its own. A list item has one if every child of it has. A block
    /// that stands as its Markdown has one if it has a rendering. Every
    /// other block has one, whatever its children are: its node does not
    /// take them in.
    pub open spec fn tree_ready(self) -> bool
        decreases self,
    {
        match self {
            Block::TableRow(_) => false,
            Block::BulletedListItem(b) => all_tree_ready(b.children@),
            Block::NumberedListItem(b) => all_tree_ready(b.children@),
            Block::ToDo(b) => all_tree_ready(b.children@),
            Block::Paragraph(_) => true,
            Block::Heading1(_) => true,
            Block::Heading2(_) => true,
            Block::Heading3(_) => true,
            Block::Quote(_) => true,
            Block::Callout(_) => true,
            Block::Code(_) => true,
            Block::Equation(_) => true,
            Block::Divider(_) => true,
            Block::Table(_) => true,
            Block::Unsupported => true,
            Block::Unexpected => true,
            _ => self.renderable(),
        }
    }

    /// Decides `tree_ready`.
    pub fn is_tree_ready(&self) -> (r: bool)
        ensures
            r == self.tree_ready(),
        decreases self,
    {
        match self {
            Block::TableRow(_) => false,
            Block::BulletedListItem(b) => are_tree_ready(&b.children),
            Block::NumberedListItem(b) => are_tree_ready(&b.children),
            Block::ToDo(b) => are_tree_ready(&b.children),
            Block::Paragraph(_) => true,
            Block::Heading1(_) => true,
            Block::Heading2(_) => true,
            Block::Heading3(_) => true,
            Block::Quote(_) => true,
            Block::Callout(_) => true,
            Block::Code(_) => true,
            Block::Equation(_) => true,
            Block::Divider(_) => true,
            Block::Table(_) => true,
            Block::Unsupported => true,
            Block::Unexpected => true,
            _ => self.is_renderable(),
        }
    }

    /// The node that the block is in the document tree. Paragraphs,
    /// headings, quotes, callouts, code, equations, dividers, tables and
    /// list items are nodes of their own kind. A list item takes its
    /// children along, and every run of list items among them stands in
    /// one list. The placeholders and every other block stand as a
    /// paragraph of raw text: what they are as Markdown.
    pub open spec fn tree(self, options: RenderOptions) -> Tree
        decreases self, 0nat,
    {
        match self {
            Block::Paragraph(b) => Tree {
                value: NodeValueView::Paragraph,
                children: inline_trees(b.paragraph.rich_text@),
            },
            Block::Heading1(b) => heading_tree(1, inline_trees(b.heading_1.rich_text@)),
            Block::Heading2(b) => heading_tree(2, inline_trees(b.heading_2.rich_text@)),
            Block::Heading3(b) => heading_tree(3, inline_trees(b.heading_3.rich_text@)),
            Block::Quote(b) => quote_tree(inline_trees(b.quote.rich_text@)),
            Block::Callout(b) => quote_tree(b.inline()),
            Block::Code(b) => leaf(
                NodeValueView::CodeBlock {
                    fenced: true,
                    fence_char: 96,
                    fence_length: 3,
                    fence_offset: 0,
                    info: b.code.language@,
                    literal: spans_plain_text(b.code.rich_text@),
                },
            ),
            Block::Equation(b) => paragraph_of(
                NodeValueView::Math {
                    dollar_math: true,
                    display_math: true,
                    literal: b.equation.expression@,
                },
            ),
            Block::Divider(_) => leaf(NodeValueView::ThematicBreak),
            Block::Table(b) => b.tree(),
            Block::BulletedListItem(b) => list_item_tree(
                bullet_list(),
                inline_trees(b.bulleted_list_item.rich_text@),
                grouped(child_trees(b.children@, options, b.children@.len())),
            ),
            Block::NumberedListItem(b) => list_item_tree(
                ordered_list(),
                inline_trees(b.numbered_list_item.rich_text@),
                grouped(child_trees(b.children@, options, b.children@.len())),
            ),
            Block::ToDo(b) => list_item_tree(
                task_list(),
                b.inline(),
                grouped(child_trees(b.children@, options, b.children@.len())),
            ),
            Block::Unsupported => paragraph_of(NodeValueView::Raw(unsupported_text())),
            Block::Unexpected => paragraph_of(NodeValueView::Raw(unexpected_text())),
            _ => paragraph_of(NodeValueView::Raw(self.markdown_in(1, Seq::empty(), options))),
        }
    }

    /// Builds the node of the block: see `tree`. A table row on its own
    /// has no node: `tree_ready` leaves it out, and `try_to_ast` answers it
    /// with `None`.
    pub fn to_ast_with(&self, options: &RenderOptions) -> (node: AstNode)
        requires
            self.tree_ready(),
        ensures
            node.tree() == self.tree(*options),
        decreases self,
    {
        match self {
            Block::Paragraph(b) => paragraph_node(spans_to_ast(&b.paragraph.rich_text)),
            Block::Heading1(b) => heading_node(1, spans_to_ast(&b.heading_1.rich_text)),
            Block::Heading2(b) => heading_node(2, spans_to_ast(&b.heading_2.rich_text)),
            Block::Heading3(b) => heading_node(3, spans_to_ast(&b.heading_3.rich_text)),
            Block::Quote(b) => quote_node(spans_to_ast(&b.quote.rich_text)),
            Block::Callout(b) => b.to_ast(),
            Block::Code(b) => AstNode::new(
                NodeValue::CodeBlock(
                    NodeCodeBlock {
                        fenced: true,
                        fence_char: 96,
                        fence_length: 3,
                        fence_offset: 0,
                        info: b.code.language.clone(),
                        literal: plain_text_of(&b.code.rich_text),
                    },
                ),
            ),
            Block::Equation(b) => paragraph_node(
                single(
                    AstNode::new(
                        NodeValue::Math(
                            NodeMath {
                                dollar_math: true,
                                display_math: true,
                                literal: b.equation.expression.clone(),
                            },
                        ),
                    ),
                ),
            ),
            Block::Divider(_) => AstNode::new(NodeValue::ThematicBreak),
            Block::Table(b) => b.to_ast(),
            Block::BulletedListItem(b) => {
                let below = group_lists(children_to_ast(&b.children, options));
                list_item_node(
                    list_data(ListType::Bullet, false),
                    spans_to_ast(&b.bulleted_list_item.rich_text),
                    below,
                )
            },
            Block::NumberedListItem(b) => {
                let below = group_lists(children_to_ast(&b.children, options));
                list_item_node(
                    list_data(ListType::Ordered, false),
                    spans_to_ast(&b.numbered_list_item.rich_text),
                    below,
                )
            },
            Block::ToDo(b) => {
                let below = group_lists(children_to_ast(&b.children, options));
                list_item_node(list_data(ListType::Bullet, true), b.inline_to_ast(), below)
            },
            Block::Unsupported => raw_paragraph(String::from_str("<!-- unsupported block -->")),
            Block::Unexpected => raw_paragraph(String::from_str("<!-- unexpected block -->")),
            _ => {
                proof {
                    reveal_strlit("");
                    assert(""@ =~= Seq::<char>::empty());
                }
                raw_paragraph(self.to_markdown_in(1, "", options))
            },
        }
    }

    /// Builds the node of the block, with links to Markdown files.
    pub fn to_ast(&self) -> (node: AstNode)
        requires
            self.tree_ready(),
        ensures
            node.tree() == self.tree(RenderOptions::markdown_files()),
    {
        let options = RenderOptions::default();
        self.to_ast_with(&options)
    }

    /// Builds the node of the block if it has one. A table row outside its
    /// table gets `None`.
    pub fn try_to_ast(&self) -> (r: Option<AstNode>)
        ensures
            self.tree_ready() ==> r is Some && r->0.tree() == self.tree(
                RenderOptions::markdown_files(),
            ),
            !self.tree_ready() ==> r is None,
            self is TableRow ==> r is None,
    {
        if self.is_tree_ready() {
            Some(self.to_ast())
        } else {
            None
        }
    }
}

impl Page {
    /// Whether every block of the page has a node.
    pub open spec fn tree_ready(self) -> bool {
        all_tree_ready(self.blocks@)
    }

    /// Decides `tree_ready`.
    pub fn is_tree_ready(&self) -> (r: bool)
        ensures
            r == self.tree_ready(),
    {
        are_tree_ready(&self.blocks)
    }

    /// The document: one node for each block of the page, in their order.
    pub open spec fn tree(self, options: RenderOptions) -> Tree {
        Tree {
            value: NodeValueView::Document,
            children: child_trees(self.blocks@, options, self.blocks@.len()),
        }
    }

    /// Builds the document: see `tree`.
    pub fn to_ast_with(&self, options: &RenderOptions) -> (node: AstNode)
        requires
            self.tree_ready(),
        ensures
            node.tree() == self.tree(*options),
    {
        AstNode::with_children(NodeValue::Document, children_to_ast(&self.blocks, options))
    }

    /// Builds the document, with links to Markdown files.
    pub fn to_ast(&self) -> (node: AstNode)
        requires
            self.tree_ready(),
        ensures
            node.tree() == self.tree(RenderOptions::markdown_files()),
    {
        let options = RenderOptions::default();
        self.to_ast_with(&options)
    }

    /// Builds the document if every block of the page has a node.
    pub fn try_to_ast(&self) -> (r: Option<AstNode>)
        ensures
            self.tree_ready() ==> r is Some && r->0.tree() == self.tree(
                RenderOptions::markdown_files(),
            ),
            !self.tree_ready() ==> r is None,
    {
        if self.is_tree_ready() {
            Some(self.to_ast())
        } else {
            None
        }
    }
}

/// A table row on its own has no node in the document tree, whatever it
/// holds; nor has a list item with a child that has none.
pub proof fn lemma_table_row_alone_has_no_node(b: Block)
    ensures
        b is TableRow ==> !b.tree_ready(),
        (b is BulletedListItem || b is NumberedListItem || b is ToDo) && (exists|i: int|
            0 <= i < b.children().len() && !(#[trigger] b.children()[i]).tree_ready())
            ==> !b.tree_ready(),
{
}

/// The list items under a list item stand in one list, of whatever kinds
/// they are: where every child is a list item, the children make one list.
/// It is of the kind of the first child and holds one item for each child,
/// in their order.
pub proof fn lemma_list_items_share_one_list(children: Seq<Block>, options: RenderOptions)
    requires
        children.len() > 0,
        forall|i: int|
            0 <= i < children.len() ==> (#[trigger] children[i]) is BulletedListItem
                || children[i] is NumberedListItem || children[i] is ToDo,
    ensures
        grouped(child_trees(children, options, children.len())).len() == 1,
        grouped(child_trees(children, options, children.len()))[0].value == children[0].tree(
            options,
        ).value,
        grouped(child_trees(children, options, children.len()))[0].value is List,
        grouped(child_trees(children, options, children.len()))[0].children.len()
            == children.len(),
        forall|i: int|
            0 <= i < children.len() ==> (#[trigger] grouped(
                child_trees(children, options, children.len()),
            )[0].children[i]) == children[i].tree(options).children[0],
{
    let nodes = child_trees(children, options, children.len());
    lemma_child_trees_by_index(children, options, children.len());
    assert forall|i: int| 0 <= i < nodes.len() implies (#[trigger] nodes[i]).value is List by {
        assert(children[i] is BulletedListItem || children[i] is NumberedListItem || children[i]
            is ToDo);
    }
    crate::ast::lemma_grouped_lists_are_one(nodes);
    lemma_items_of_single_items(nodes, nodes.len());
    assert(nodes.take(nodes.len() as int) == nodes);
}

proof fn lemma_child_trees_by_index(children: Seq<Block>, options: RenderOptions, n: nat)
    requires
        n <= children.len(),
    ensures
        child_trees(children, options, n).len() == n,
        forall|i: int|
            0 <= i < n ==> child_trees(children, options, n)[i] == children[i].tree(options),
    decreases n,
{
    if n > 0 {
        lemma_child_trees_by_index(children, options, (n - 1) as nat);
    }
}

proof fn lemma_items_of_single_items(nodes: Seq<Tree>, n: nat)
    requires
        n <= nodes.len(),
        forall|i: int|
            0 <= i < nodes.len() ==> (#[trigger] nodes[i]).value is List && nodes[i].children.len()
                == 1,
    ensures
        crate::ast::items_of(nodes.take(n as int)).len() == n,
        forall|i: int|
            0 <= i < n ==> crate::ast::items_of(nodes.take(n as int))[i] == nodes[i].children[0],
    decreases n,
{
    let these = nodes.take(n as int);
    if n > 0 {
        lemma_items_of_single_items(nodes, (n - 1) as nat);
        assert(these.drop_last() == nodes.take(n - 1));
        assert(these.last() == nodes[n - 1]);
    }
}

/// Two bulleted items under a bulleted item stand in one list: the item of
/// the parent holds its paragraph and, beside it, a single list with both.
pub proof fn lemma_nested_items_share_one_list(parent: BulletedListItem, options: RenderOptions)
    requires
        parent.children@.len() == 2,
        parent.children@[0] is BulletedListItem,
        parent.children@[1] is BulletedListItem,
        parent.children@[0].children().len() == 0,
        parent.children@[1].children().len() == 0,
    ensures
        Block::BulletedListItem(parent).tree(options) == list_item_tree(
            bullet_list(),
            inline_trees(parent.bulleted_list_item.rich_text@),
            seq![
                Tree {
                    value: NodeValueView::List(bullet_list()),
                    children: seq![
                        Tree {
                            value: NodeValueView::Item(item_data()),
                            children: seq![
                                Tree {
                                    value: NodeValueView::Paragraph,
                                    children: inline_trees(
                                        parent.children@[0]->BulletedListItem_0.bulleted_list_item.rich_text@,
                                    ),
                                },
                            ],
                        },
                        Tree {
                            value: NodeValueView::Item(item_data()),
                            children: seq![
                                Tree {
                                    value: NodeValueView::Paragraph,
                                    children: inline_trees(
                                        parent.children@[1]->BulletedListItem_0.bulleted_list_item.rich_text@,
                                    ),
                                },
                            ],
                        },
                    ],
                },
            ],
        ),
{
    let cs = parent.children@;
    let first = cs[0]->BulletedListItem_0;
    let second = cs[1]->BulletedListItem_0;
    let none = Seq::<Tree>::empty();
    assert(child_trees(first.children@, options, 0) == none);
    assert(child_trees(second.children@, options, 0) == none);
    assert(grouped(none) == none);
    let a = list_item_tree(bullet_list(), inline_trees(first.bulleted_list_item.rich_text@), none);
    let b = list_item_tree(bullet_list(), inline_trees(second.bulleted_list_item.rich_text@), none);
    assert(cs[0].tree(options) == a);
    assert(cs[1].tree(options) == b);
    assert(child_trees(cs, options, 0) == none);
    let one = child_trees(cs, options, 1);
    assert(one =~= seq![a]);
    let both = child_trees(cs, options, 2);
    assert(both =~= seq![a, b]);
    assert(both.drop_last() =~= seq![a]);
    assert(seq![a].drop_last() =~= none);
    assert(grouped(seq![a]) =~= seq![a]);
    assert(grouped(both) =~= seq![
        Tree { value: a.value, children: a.children + b.children },
    ]);
    assert(a.children + b.children =~= seq![a.children[0], b.children[0]]);
    assert(seq![Tree { value: NodeValueView::Paragraph, children: inline_trees(
        first.bulleted_list_item.rich_text@) }] + none =~= seq![
        Tree { value: NodeValueView::Paragraph, children: inline_trees(
            first.bulleted_list_item.rich_text@) },
    ]);
    assert(seq![Tree { value: NodeValueView::Paragraph, children: inline_trees(
        second.bulleted_list_item.rich_text@) }] + none =~= seq![
        Tree { value: NodeValueView::Paragraph, children: inline_trees(
            second.bulleted_list_item.rich_text@) },
    ]);
}

} // verus!
