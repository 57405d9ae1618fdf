//! A document: the blocks at the top level, in their order.

use crate::block::inline::{Callout, Heading1, Heading2, Heading3, Paragraph, Quote};
use crate::block::layout::{Column, ColumnList, SyncedBlock, Toggle};
use crate::block::link::RenderOptions;
use crate::block::list::{BulletedListItem, NumberedListItem, ToDo};
use crate::block::table::Table;
use crate::block::{all_renderable, are_renderable, stack_children, stacked_markdown, Block};
use crate::block::table_of_contents::{
    duplicate_headings, heading_views, Heading, HeadingLevel, HeadingView, TableOfContents,
};
use crate::rich_text::duplicate_spans;
use vstd::prelude::*;
use vstd::string::*;

verus! {

/// A page: the blocks at its top level, in their order.
#[derive(Debug, PartialEq, Eq)]
pub struct Page {
    pub blocks: Vec<Block>,
}

impl Page {
    /// Whether every block of the page has a rendering.
    pub open spec fn renderable(self) -> bool {
        all_renderable(self.blocks@)
    }

    /// The Markdown of the page: the rendering of each block at the top
    /// level, in its place among them, each followed by a line break.
    pub open spec fn markdown_with(self, options: RenderOptions) -> Seq<char> {
        stacked_markdown(self.blocks@, Seq::empty(), options, self.blocks@.len())
    }

    /// The Markdown of the page, with links to Markdown files.
    pub open spec fn markdown(self) -> Seq<char> {
        self.markdown_with(RenderOptions::markdown_files())
    }

    /// The page of the given blocks.
    pub fn from_blocks(blocks: Vec<Block>) -> (page: Page)
        ensures
            page.blocks == blocks,
    {
        Page { blocks }
    }

    /// Decides `renderable`.
    pub fn is_renderable(&self) -> (r: bool)
        ensures
            r == self.renderable(),
    {
        are_renderable(&self.blocks)
    }

    /// Renders the page with the given options.
    pub fn to_markdown_with(&self, options: &RenderOptions) -> (r: String)
        requires
            self.renderable(),
        ensures
            r@ == self.markdown_with(*options),
    {
        proof {
            reveal_strlit("");
            assert(""@ =~= Seq::<char>::empty());
        }
        stack_children(&self.blocks, "", options)
    }

    /// Renders the page, with links to Markdown files.
    pub fn to_markdown(&self) -> (r: String)
        requires
            self.renderable(),
        ensures
            r@ == self.markdown(),
    {
        let options = RenderOptions::default();
        self.to_markdown_with(&options)
    }

    /// Renders the page if every block of it has a rendering.
    pub fn try_to_markdown(&self) -> (r: Option<String>)
        ensures
            self.renderable() ==> r is Some && r->0@ == self.markdown(),
            !self.renderable() ==> r is None,
    {
        if self.is_renderable() {
            Some(self.to_markdown())
        } else {
            None
        }
    }
}

/// The heading that a block is, if it is one.
pub open spec fn own_heading(b: Block) -> Seq<HeadingView> {
    match b {
        Block::Heading1(h) => seq![
            HeadingView { level: HeadingLevel::One, rich_text: h.heading_1.rich_text@ },
        ],
        Block::Heading2(h) => seq![
            HeadingView { level: HeadingLevel::Two, rich_text: h.heading_2.rich_text@ },
        ],
        Block::Heading3(h) => seq![
            HeadingView { level: HeadingLevel::Three, rich_text: h.heading_3.rich_text@ },
        ],
        _ => Seq::empty(),
    }
}

/// The headings in the tree under a block, the block's own first, in the
/// order in which they are rendered. What is not rendered is left out.
pub open spec fn headings_under(b: Block) -> Seq<HeadingView>
    decreases b, 0nat,
{
    if b.renders_children() {
        own_heading(b) + headings_among(b.children(), b.children().len())
    } else {
        own_heading(b)
    }
}

/// The headings in the trees under the first `n` of `blocks`.
pub open spec fn headings_among(blocks: Seq<Block>, n: nat) -> Seq<HeadingView>
    decreases blocks, n,
{
    if n == 0 || n > blocks.len() {
        Seq::empty()
    } else {
        headings_among(blocks, (n - 1) as nat) + headings_under(blocks[n - 1])
    }
}

fn push_heading(out: &mut Vec<Heading>, heading: Heading)
    ensures
        heading_views(final(out)@) == heading_views(old(out)@).push(heading@),
{
    out.push(heading);
    assert(heading_views(out@) =~= heading_views(old(out)@).push(heading@));
}

fn collect_among(blocks: &Vec<Block>, out: &mut Vec<Heading>)
    ensures
        heading_views(final(out)@) == heading_views(old(out)@) + headings_among(
            blocks@,
            blocks@.len(),
        ),
    decreases blocks,
{
    broadcast use vstd::std_specs::vec::axiom_vec_index_decreases;

    let ghost before = heading_views(out@);
    let mut i: usize = 0;
    assert(before + headings_among(blocks@, 0) =~= before);
    while i < blocks.len()
        invariant
            i <= blocks.len(),
            heading_views(out@) == before + headings_among(blocks@, i as nat),
        decreases blocks.len() - i,
    {
        proof {
            assert(decreases_to!(blocks => blocks[i as int]));
        }
        collect_under(&blocks[i], out);
        assert(heading_views(out@) =~= before + headings_among(blocks@, (i + 1) as nat));
        i = i + 1;
    }
}

fn collect_under(b: &Block, out: &mut Vec<Heading>)
    ensures
        heading_views(final(out)@) == heading_views(old(out)@) + headings_under(*b),
    decreases b,
{
    let ghost before = heading_views(out@);
    match b {
        Block::Heading1(h) => {
            push_heading(
                out,
                Heading { level: HeadingLevel::One, rich_text: duplicate_spans(&h.heading_1.rich_text) },
            );
            collect_among(&h.children, out);
        },
        Block::Heading2(h) => {
            push_heading(
                out,
                Heading { level: HeadingLevel::Two, rich_text: duplicate_spans(&h.heading_2.rich_text) },
            );
            collect_among(&h.children, out);
        },
        Block::Heading3(h) => {
            push_heading(
                out,
                Heading {
                    level: HeadingLevel::Three,
                    rich_text: duplicate_spans(&h.heading_3.rich_text),
                },
            );
            collect_among(&h.children, out);
        },
        Block::BulletedListItem(item) => collect_among(&item.children, out),
        Block::NumberedListItem(item) => collect_among(&item.children, out),
        Block::ToDo(item) => collect_among(&item.children, out),
        Block::Toggle(t) => collect_among(&t.children, out),
        Block::SyncedBlock(s) => collect_among(&s.children, out),
        Block::ColumnList(c) => collect_among(&c.children, out),
        Block::Column(c) => collect_among(&c.children, out),
        _ => {},
    }
    assert(heading_views(out@) =~= before + headings_under(*b));
}

impl Page {
    /// The headings of the page, in the order in which they are rendered.
    pub open spec fn headings(self) -> Seq<HeadingView> {
        headings_among(self.blocks@, self.blocks@.len())
    }

    /// Collects the headings of the page: see `headings`.
    pub fn collect_headings(&self) -> (r: Vec<Heading>)
        ensures
            heading_views(r@) == self.headings(),
    {
        let mut r: Vec<Heading> = Vec::new();
        assert(heading_views(r@) =~= Seq::<HeadingView>::empty());
        collect_among(&self.blocks, &mut r);
        assert(Seq::<HeadingView>::empty() + self.headings() =~= self.headings());
        r
    }

    /// The page with the headings of the page in every table of contents
    /// of it, wherever in the tree it stands. Everything else stays as it
    /// is: see `contents_filled`.
    pub fn with_table_of_contents(self) -> (page: Page)
        ensures
            all_filled(self.blocks@, page.blocks@, self.headings()),
    {
        let headings = self.collect_headings();
        Page { blocks: fill_blocks(self.blocks, &headings) }
    }
}

/// `after` is `before` with `headings` in every table of contents in its
/// tree. A table of contents holds `headings`; a block that nests others is
/// as before but for its children, which are filled one for one; every other
/// block is as before.
pub open spec fn contents_filled(before: Block, after: Block, headings: Seq<HeadingView>) -> bool
    decreases before,
{
    if before is TableOfContents {
        &&& after is TableOfContents
        &&& heading_views(after->TableOfContents_0.headings@) == headings
    } else if before.nested() is Some {
        &&& after.nested() is Some
        &&& after == before.set_children(after.nested()->0)
        &&& all_filled(before.children(), after.children(), headings)
    } else {
        after == before
    }
}

/// `after` are the blocks `before`, one for one and in their order, with
/// `headings` in every table of contents in their trees.
pub open spec fn all_filled(before: Seq<Block>, after: Seq<Block>, headings: Seq<HeadingView>) -> bool
    decreases before,
{
    &&& after.len() == before.len()
    &&& forall|i: int|
        #![trigger after[i]]
        0 <= i < before.len() ==> contents_filled(before[i], after[i], headings)
}

fn fill_blocks(blocks: Vec<Block>, headings: &Vec<Heading>) -> (r: Vec<Block>)
    ensures
        all_filled(blocks@, r@, heading_views(headings@)),
    decreases blocks,
{
    broadcast use vstd::std_specs::vec::axiom_vec_index_decreases;

    let ghost all = blocks@;
    let mut r: Vec<Block> = Vec::new();
    for block in it: blocks
        invariant
            it.seq() == all,
            all == blocks@,
            r@.len() == it.index(),
            forall|i: int|
                #![trigger r@[i]]
                0 <= i < it.index() ==> contents_filled(all[i], r@[i], heading_views(headings@)),
    {
        proof {
            assert(block == blocks[it.index() as int]);
            assert(decreases_to!(blocks => blocks[it.index() as int]));
        }
        r.push(fill_block(block, headings));
    }
    r
}

fn fill_block(block: Block, headings: &Vec<Heading>) -> (r: Block)
    ensures
        contents_filled(block, r, heading_views(headings@)),
    decreases block,
{
    match block {
        Block::TableOfContents(_) => Block::TableOfContents(
            TableOfContents { headings: duplicate_headings(headings) },
        ),
        Block::NumberedListItem(b) => Block::NumberedListItem(
            NumberedListItem {
                numbered_list_item: b.numbered_list_item,
                children: fill_blocks(b.children, headings),
                meta: b.meta,
            },
        ),
        Block::BulletedListItem(b) => Block::BulletedListItem(
            BulletedListItem {
                bulleted_list_item: b.bulleted_list_item,
                children: fill_blocks(b.children, headings),
                meta: b.meta,
            },
        ),
        Block::ToDo(b) => Block::ToDo(
            ToDo { to_do: b.to_do, children: fill_blocks(b.children, headings), meta: b.meta },
        ),
        Block::Paragraph(b) => Block::Paragraph(
            Paragraph {
                paragraph: b.paragraph,
                children: fill_blocks(b.children, headings),
                meta: b.meta,
            },
        ),
        Block::Quote(b) => Block::Quote(
            Quote { quote: b.quote, children: fill_blocks(b.children, headings), meta: b.meta },
        ),
        Block::Callout(b) => Block::Callout(
            Callout { callout: b.callout, children: fill_blocks(b.children, headings), meta: b.meta },
        ),
        Block::Heading1(b) => Block::Heading1(
            Heading1 {
                heading_1: b.heading_1,
                children: fill_blocks(b.children, headings),
                meta: b.meta,
            },
        ),
        Block::Heading2(b) => Block::Heading2(
            Heading2 {
                heading_2: b.heading_2,
                children: fill_blocks(b.children, headings),
                meta: b.meta,
            },
        ),
        Block::Heading3(b) => Block::Heading3(
            Heading3 {
                heading_3: b.heading_3,
                children: fill_blocks(b.children, headings),
                meta: b.meta,
            },
        ),
        Block::Table(b) => Block::Table(
            Table { table: b.table, children: fill_blocks(b.children, headings), meta: b.meta },
        ),
        Block::Toggle(b) => Block::Toggle(
            Toggle { toggle: b.toggle, children: fill_blocks(b.children, headings), meta: b.meta },
        ),
        Block::SyncedBlock(b) => Block::SyncedBlock(
            SyncedBlock { children: fill_blocks(b.children, headings), meta: b.meta },
        ),
        Block::ColumnList(b) => Block::ColumnList(
            ColumnList { children: fill_blocks(b.children, headings), meta: b.meta },
        ),
        Block::Column(b) => Block::Column(
            Column { children: fill_blocks(b.children, headings), meta: b.meta },
        ),
        other => other,
    }
}

} // verus!
