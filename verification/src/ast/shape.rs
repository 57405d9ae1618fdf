//! The shape of a document tree: which node may stand under which.

use crate::ast::blocks::{
    cell_trees, child_trees, heading_tree, list_item_tree, paragraph_of, quote_tree, row_trees,
};
use crate::ast::inline::{
    base_tree, layer, layered_tree, span_body_trees, span_trees, span_trees_at, spans_trees,
    styled_tree,
    text_if_any, underlined, verbatim,
};
use crate::ast::{grouped, joins, leaf, NodeValueView, Tree};
use crate::block::link::RenderOptions;
use crate::block::Block;
use crate::page::Page;
use crate::rich_text::{Annotations, RichText};
use vstd::prelude::*;

verus! {

impl NodeValueView {
    /// Whether the node is a block; what is no block is inline.
    pub open spec fn is_block(self) -> bool {
        self is Document || self is BlockQuote || self is List || self is Item || self is CodeBlock
            || self is Paragraph || self is Heading || self is ThematicBreak || self is Table
            || self is TableRow || self is TableCell
    }

    /// Whether the node may stand right under a table cell.
    pub open spec fn fits_cell(self) -> bool {
        self is Text || self is Code || self is Emph || self is Strong || self is Link
            || self is Strikethrough || self is HtmlInline || self is Math
    }

    /// Whether a node of this kind may hold `child`. A document, a quote
    /// and a list item hold blocks, but no list item; a list holds list
    /// items; a table holds rows, and a row cells; paragraphs, headings,
    /// styles and links hold what is inline, and a table cell only some of
    /// that. Nothing else holds anything.
    pub open spec fn may_hold(self, child: NodeValueView) -> bool {
        if child is Document {
            false
        } else if self is Document || self is BlockQuote || self is Item {
            child.is_block() && !(child is Item)
        } else if self is List {
            child is Item
        } else if self is Paragraph || self is Heading || self is Emph || self is Strong
            || self is Link || self is Strikethrough {
            !child.is_block()
        } else if self is Table {
            child is TableRow
        } else if self is TableRow {
            child is TableCell
        } else if self is TableCell {
            child.fits_cell()
        } else {
            false
        }
    }
}

impl Tree {
    /// Every node of the tree may stand where it stands.
    pub open spec fn well_formed(self) -> bool
        decreases self,
    {
        forall|i: int|
            0 <= i < self.children.len() ==> {
                &&& self.value.may_hold((#[trigger] self.children[i]).value)
                &&& self.children[i].well_formed()
            }
    }

    /// The tree is well-formed and is one that a document, a quote or a
    /// list item may hold.
    pub open spec fn is_block_tree(self) -> bool {
        self.well_formed() && self.value.is_block() && !(self.value is Item) && !(self.value
            is Document)
    }

    /// The tree is well-formed and is inline; in a table cell, it is
    /// something a cell may hold.
    pub open spec fn is_inline_tree(self, cell: bool) -> bool {
        self.well_formed() && !self.value.is_block() && (cell ==> self.value.fits_cell())
    }
}

/// Every one of `nodes` is a block that a document may hold.
pub open spec fn all_blocks(nodes: Seq<Tree>) -> bool {
    forall|i: int| 0 <= i < nodes.len() ==> (#[trigger] nodes[i]).is_block_tree()
}

/// Every one of `nodes` is inline.
pub open spec fn all_inline(nodes: Seq<Tree>, cell: bool) -> bool {
    forall|i: int| 0 <= i < nodes.len() ==> (#[trigger] nodes[i]).is_inline_tree(cell)
}

proof fn lemma_over_inline(value: NodeValueView, children: Seq<Tree>)
    requires
        value is Paragraph || value is Heading || value is Emph || value is Strong
            || value is Link || value is Strikethrough,
        all_inline(children, false),
    ensures
        (Tree { value, children }).well_formed(),
{
    let t = Tree { value, children };
    assert forall|i: int| 0 <= i < t.children.len() implies {
        &&& t.value.may_hold((#[trigger] t.children[i]).value)
        &&& t.children[i].well_formed()
    } by {
        assert(children[i].is_inline_tree(false));
    }
}

proof fn lemma_inline_anywhere(nodes: Seq<Tree>, cell: bool)
    requires
        all_inline(nodes, cell),
    ensures
        all_inline(nodes, false),
{
    assert forall|i: int| 0 <= i < nodes.len() implies (#[trigger] nodes[i]).is_inline_tree(
        false,
    ) by {
        assert(nodes[i].is_inline_tree(cell));
    }
}

proof fn lemma_styled_tree(content: Seq<char>, a: Annotations, cell: bool)
    ensures
        styled_tree(content, a, cell).is_inline_tree(cell),
{
    let empty = content.len() == 0;
    let base = base_tree(content, a, cell);
    assert(base.is_inline_tree(cell));
    let bold = layer(a.bold, base, false, empty, NodeValueView::Strong, "****"@);
    assert(bold.is_inline_tree(cell)) by {
        if a.bold && !empty {
            assert(all_inline(seq![base], false));
            lemma_over_inline(NodeValueView::Strong, seq![base]);
        }
    }
    let bold_marked = a.bold && empty;
    let italic = layer(a.italic, bold, bold_marked, empty, NodeValueView::Emph, "**"@);
    assert(italic.is_inline_tree(cell)) by {
        if a.italic && (bold_marked || !empty) {
            assert(all_inline(seq![bold], false));
            lemma_over_inline(NodeValueView::Emph, seq![bold]);
        }
    }
    let italic_marked = bold_marked || (a.italic && empty);
    if a.strikethrough && (italic_marked || !empty) {
        assert(all_inline(seq![italic], false));
        lemma_over_inline(NodeValueView::Strikethrough, seq![italic]);
    }
}

/// The nodes of a span are inline and well-formed, and in a table cell
/// they are what a cell may hold.
pub proof fn lemma_span_trees(content: Seq<char>, href: Option<String>, a: Annotations, cell: bool)
    ensures
        all_inline(span_trees(content, href, a, cell), cell),
{
    lemma_styled_tree(content, a, cell);
    let body = span_body_trees(content, a, cell);
    assert(all_inline(body, cell));
    if href is Some {
        lemma_inline_anywhere(body, cell);
        lemma_over_inline(
            NodeValueView::Link { url: href->0@, title: Seq::empty() },
            body,
        );
    }
}

/// The nodes of a run of spans are inline and well-formed.
pub proof fn lemma_spans_trees(spans: Seq<RichText>, prefix: Option<Seq<char>>, cell: bool, n: nat)
    ensures
        all_inline(spans_trees(spans, prefix, cell, n), cell),
    decreases n,
{
    if n > 0 && n <= spans.len() {
        lemma_spans_trees(spans, prefix, cell, (n - 1) as nat);
        let span = spans[n - 1];
        if n - 1 == 0 && prefix is Some {
            lemma_span_trees(prefix->0 + span.content(), span.href(), span.annotations(), cell);
        } else {
            lemma_span_trees(span.content(), span.href(), span.annotations(), cell);
        }
        let before = spans_trees(spans, prefix, cell, (n - 1) as nat);
        let last = span_trees_at(spans, prefix, cell, n - 1);
        assert forall|i: int| 0 <= i < (before + last).len() implies (#[trigger] (before
            + last)[i]).is_inline_tree(cell) by {
            if i < before.len() {
                assert(before[i].is_inline_tree(cell));
            } else {
                assert(last[i - before.len()].is_inline_tree(cell));
            }
        }
    }
}

proof fn lemma_row_trees(children: Seq<Block>)
    ensures
        forall|i: int|
            0 <= i < row_trees(children).len() ==> {
                &&& (#[trigger] row_trees(children)[i]).value is TableRow
                &&& row_trees(children)[i].well_formed()
            },
    decreases children.len(),
{
    if children.len() > 0 {
        lemma_row_trees(children.drop_last());
        if children.last() is TableRow {
            let cells = children.last()->TableRow_0.table_row.cells@;
            let row = Tree {
                value: NodeValueView::TableRow(row_trees(children.drop_last()).len() == 0),
                children: cell_trees(cells),
            };
            assert(row.well_formed()) by {
                assert forall|j: int| 0 <= j < row.children.len() implies {
                    &&& row.value.may_hold((#[trigger] row.children[j]).value)
                    &&& row.children[j].well_formed()
                } by {
                    lemma_spans_trees(cells[j]@, None, true, cells[j]@.len());
                    let cell = row.children[j];
                    assert forall|k: int| 0 <= k < cell.children.len() implies {
                        &&& cell.value.may_hold((#[trigger] cell.children[k]).value)
                        &&& cell.children[k].well_formed()
                    } by {
                        assert(cell.children[k].is_inline_tree(true));
                    }
                }
            }
        }
    }
}

/// Grouping keeps blocks blocks: the list that takes the items of the
/// lists behind it holds list items as before.
pub proof fn lemma_grouped_blocks(nodes: Seq<Tree>)
    requires
        all_blocks(nodes),
    ensures
        all_blocks(grouped(nodes)),
    decreases nodes.len(),
{
    if nodes.len() > 0 {
        let before = grouped(nodes.drop_last());
        let next = nodes.last();
        assert(all_blocks(nodes.drop_last())) by {
            assert forall|i: int| 0 <= i < nodes.drop_last().len() implies (
            #[trigger] nodes.drop_last()[i]).is_block_tree() by {
                assert(nodes[i].is_block_tree());
            }
        }
        lemma_grouped_blocks(nodes.drop_last());
        assert(next.is_block_tree());
        if before.len() > 0 && joins(before.last(), next) {
            let last = before.last();
            assert(last.is_block_tree());
            let merged = Tree { value: last.value, children: last.children + next.children };
            assert(merged.well_formed()) by {
                assert forall|i: int| 0 <= i < merged.children.len() implies {
                    &&& merged.value.may_hold((#[trigger] merged.children[i]).value)
                    &&& merged.children[i].well_formed()
                } by {
                    if i < last.children.len() {
                        assert(merged.children[i] == last.children[i]);
                    } else {
                        assert(merged.children[i] == next.children[i - last.children.len()]);
                    }
                }
            }
            let out = before.drop_last().push(merged);
            assert forall|i: int| 0 <= i < out.len() implies (#[trigger] out[i]).is_block_tree() by {
                if i < out.len() - 1 {
                    assert(out[i] == before[i]);
                    assert(before[i].is_block_tree());
                }
            }
        } else {
            let out = before.push(next);
            assert forall|i: int| 0 <= i < out.len() implies (#[trigger] out[i]).is_block_tree() by {
                if i < out.len() - 1 {
                    assert(out[i] == before[i]);
                    assert(before[i].is_block_tree());
                }
            }
        }
    }
}

proof fn lemma_list_item_tree(list: crate::ast::NodeList, inline: Seq<Tree>, below: Seq<Tree>)
    requires
        all_inline(inline, false),
        all_blocks(below),
    ensures
        list_item_tree(list, inline, below).is_block_tree(),
{
    let paragraph = Tree { value: NodeValueView::Paragraph, children: inline };
    lemma_over_inline(NodeValueView::Paragraph, inline);
    let t = list_item_tree(list, inline, below);
    let item = t.children[0];
    assert(item.children == seq![paragraph] + below);
    assert(item.well_formed()) by {
        assert forall|i: int| 0 <= i < item.children.len() implies {
            &&& item.value.may_hold((#[trigger] item.children[i]).value)
            &&& item.children[i].well_formed()
        } by {
            if i > 0 {
                assert(item.children[i] == below[i - 1]);
                assert(below[i - 1].is_block_tree());
            }
        }
    }
}

proof fn lemma_child_trees(children: Seq<Block>, options: RenderOptions, n: nat)
    ensures
        all_blocks(child_trees(children, options, n)),
    decreases children, n,
{
    if n > 0 && n <= children.len() {
        lemma_child_trees(children, options, (n - 1) as nat);
        lemma_block_tree(children[n - 1], options);
        let before = child_trees(children, options, (n - 1) as nat);
        let out = before.push(children[n - 1].tree(options));
        assert forall|i: int| 0 <= i < out.len() implies (#[trigger] out[i]).is_block_tree() by {
            if i < before.len() {
                assert(out[i] == before[i]);
                assert(before[i].is_block_tree());
            }
        }
    }
}

/// The node of a block is well-formed, and it is a block that a document,
/// a quote or a list item may hold.
pub proof fn lemma_block_tree(b: Block, options: RenderOptions)
    ensures
        b.tree(options).is_block_tree(),
    decreases b, 0nat,
{
    match b {
        Block::Paragraph(p) => {
            lemma_spans_trees(p.paragraph.rich_text@, None, false, p.paragraph.rich_text@.len());
            lemma_over_inline(
                NodeValueView::Paragraph,
                spans_trees(p.paragraph.rich_text@, None, false, p.paragraph.rich_text@.len()),
            );
        },
        Block::Heading1(h) => {
            lemma_spans_trees(h.heading_1.rich_text@, None, false, h.heading_1.rich_text@.len());
            lemma_over_inline(
                heading_tree(1, Seq::empty()).value,
                spans_trees(h.heading_1.rich_text@, None, false, h.heading_1.rich_text@.len()),
            );
        },
        Block::Heading2(h) => {
            lemma_spans_trees(h.heading_2.rich_text@, None, false, h.heading_2.rich_text@.len());
            lemma_over_inline(
                heading_tree(2, Seq::empty()).value,
                spans_trees(h.heading_2.rich_text@, None, false, h.heading_2.rich_text@.len()),
            );
        },
        Block::Heading3(h) => {
            lemma_spans_trees(h.heading_3.rich_text@, None, false, h.heading_3.rich_text@.len());
            lemma_over_inline(
                heading_tree(3, Seq::empty()).value,
                spans_trees(h.heading_3.rich_text@, None, false, h.heading_3.rich_text@.len()),
            );
        },
        Block::Quote(q) => {
            lemma_spans_trees(q.quote.rich_text@, None, false, q.quote.rich_text@.len());
            lemma_quote_tree(
                spans_trees(q.quote.rich_text@, None, false, q.quote.rich_text@.len()),
            );
        },
        Block::Callout(c) => {
            lemma_spans_trees(c.callout.rich_text@, None, false, c.callout.rich_text@.len());
            lemma_spans_trees(
                c.callout.rich_text@,
                Some(c.callout.icon.emoji@ + " "@),
                false,
                c.callout.rich_text@.len(),
            );
            lemma_quote_tree(c.inline());
        },
        Block::Table(t) => {
            lemma_row_trees(t.children@);
        },
        Block::BulletedListItem(i) => {
            lemma_spans_trees(
                i.bulleted_list_item.rich_text@,
                None,
                false,
                i.bulleted_list_item.rich_text@.len(),
            );
            lemma_child_trees(i.children@, options, i.children@.len());
            lemma_grouped_blocks(child_trees(i.children@, options, i.children@.len()));
            lemma_list_item_tree(
                crate::ast::blocks::bullet_list(),
                spans_trees(
                    i.bulleted_list_item.rich_text@,
                    None,
                    false,
                    i.bulleted_list_item.rich_text@.len(),
                ),
                grouped(child_trees(i.children@, options, i.children@.len())),
            );
        },
        Block::NumberedListItem(i) => {
            lemma_spans_trees(
                i.numbered_list_item.rich_text@,
                None,
                false,
                i.numbered_list_item.rich_text@.len(),
            );
            lemma_child_trees(i.children@, options, i.children@.len());
            lemma_grouped_blocks(child_trees(i.children@, options, i.children@.len()));
            lemma_list_item_tree(
                crate::ast::blocks::ordered_list(),
                spans_trees(
                    i.numbered_list_item.rich_text@,
                    None,
                    false,
                    i.numbered_list_item.rich_text@.len(),
                ),
                grouped(child_trees(i.children@, options, i.children@.len())),
            );
        },
        Block::ToDo(t) => {
            lemma_spans_trees(
                t.to_do.rich_text@,
                Some(t.check_box()),
                false,
                t.to_do.rich_text@.len(),
            );
            lemma_child_trees(t.children@, options, t.children@.len());
            lemma_grouped_blocks(child_trees(t.children@, options, t.children@.len()));
            lemma_list_item_tree(
                crate::ast::blocks::task_list(),
                t.inline(),
                grouped(child_trees(t.children@, options, t.children@.len())),
            );
        },
        Block::Code(_) => {},
        Block::Divider(_) => {},
        _ => {
            lemma_paragraph_of(b.tree(options).children[0].value);
        },
    }
}

proof fn lemma_quote_tree(inline: Seq<Tree>)
    requires
        all_inline(inline, false),
    ensures
        quote_tree(inline).is_block_tree(),
{
    lemma_over_inline(NodeValueView::Paragraph, inline);
}

proof fn lemma_paragraph_of(value: NodeValueView)
    requires
        !value.is_block(),
    ensures
        paragraph_of(value).is_block_tree(),
{
    assert(all_inline(seq![leaf(value)], false));
    lemma_over_inline(NodeValueView::Paragraph, seq![leaf(value)]);
}

/// The document of a page is well-formed.
pub proof fn lemma_page_tree(page: Page, options: RenderOptions)
    ensures
        page.tree(options).well_formed(),
{
    lemma_child_trees(page.blocks@, options, page.blocks@.len());
    let t = page.tree(options);
    assert forall|i: int| 0 <= i < t.children.len() implies {
        &&& t.value.may_hold((#[trigger] t.children[i]).value)
        &&& t.children[i].well_formed()
    } by {
        assert(t.children[i].is_block_tree());
    }
}

} // verus!
