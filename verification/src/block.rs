//! The block tree and its rendering as Markdown.

pub mod inline;
pub mod layout;
pub mod link;
pub mod list;
pub mod media;
pub mod table;
pub mod table_of_contents;

use crate::block::inline::{
    Callout, Code, Equation, Heading1, Heading2, Heading3, Paragraph, Quote,
};
use crate::block::layout::{Breadcrumb, Column, ColumnList, Divider, SyncedBlock, Template, Toggle};
use crate::block::link::{ChildDatabase, ChildPage, LinkToPage, RenderOptions};
use crate::block::list::{BulletedListItem, NumberedListItem, ToDo};
use crate::block::media::{Bookmark, Embed, File, Image, LinkPreview, Pdf, Video};
use crate::block::table::{Table, TableRow};
use crate::block::table_of_contents::TableOfContents;
use crate::rich_text::RichText;
use crate::text::{indent, indent_string};
use vstd::prelude::*;
use vstd::string::*;

verus! {

/// Where a block stands when it is rendered: its place among its siblings,
/// counted from one, and how deep it is nested.
#[derive(Debug, Clone, Copy, PartialEq, Eq, Structural)]
pub struct BlockMeta {
    pub order: usize,
    pub depth: usize,
}

impl Default for BlockMeta {
    fn default() -> (r: BlockMeta)
        ensures
            r == BlockMeta::first_at_top(),
    {
        BlockMeta { order: 1, depth: 0 }
    }
}

impl BlockMeta {
    /// The first block at the top level.
    pub open spec fn first_at_top() -> BlockMeta {
        BlockMeta { order: 1, depth: 0 }
    }
}

/// The inline text of a block.
#[derive(Debug, Clone, PartialEq, Eq)]
pub struct BlockContent {
    pub rich_text: Vec<RichText>,
}

/// One node of the document tree.
#[derive(Debug, PartialEq, Eq)]
pub enum Block {
    NumberedListItem(NumberedListItem),
    BulletedListItem(BulletedListItem),
    Paragraph(Paragraph),
    Pdf(Pdf),
    Quote(Quote),
    Code(Code),
    Heading1(Heading1),
    Heading2(Heading2),
    Heading3(Heading3),
    Image(Image),
    Divider(Divider),
    File(File),
    ToDo(ToDo),
    Bookmark(Bookmark),
    Callout(Callout),
    ChildPage(ChildPage),
    Equation(Equation),
    Table(Table),
    TableRow(TableRow),
    Embed(Embed),
    LinkPreview(LinkPreview),
    ChildDatabase(ChildDatabase),
    Video(Video),
    Toggle(Toggle),
    SyncedBlock(SyncedBlock),
    ColumnList(ColumnList),
    Column(Column),
    LinkToPage(LinkToPage),
    Breadcrumb(Breadcrumb),
    TableOfContents(TableOfContents),
    Template(Template),
    /// A kind that is known and has no rendering.
    Unsupported,
    /// A kind that is not known.
    Unexpected,
}

/// What stands for a block of a known kind without a rendering.
pub open spec fn unsupported_text() -> Seq<char> {
    "<!-- unsupported block -->"@
}

/// What stands for a block of an unknown kind.
pub open spec fn unexpected_text() -> Seq<char> {
    "<!-- unexpected block -->"@
}

/// The renderings of the first `n` of `children`, one below the other, each
/// in its place among all of them. A child stands behind `pad`, but for one
/// that indents its own lines.
pub open spec fn children_markdown(
    children: Seq<Block>,
    pad: Seq<char>,
    options: RenderOptions,
    n: nat,
) -> Seq<char>
    decreases children, n,
{
    if n == 0 || n > children.len() {
        Seq::empty()
    } else {
        let child = children[n - 1];
        let lead = if child.indents_itself() {
            Seq::empty()
        } else {
            pad
        };
        let entry = lead + child.markdown_in(n, pad, options);
        if n == 1 {
            entry
        } else {
            children_markdown(children, pad, options, (n - 1) as nat) + "\n"@ + entry
        }
    }
}

/// The renderings of the first `n` of `children`, each in its place among
/// all of them and each followed by a line break. A child stands behind
/// `pad`, but for one that indents its own lines.
pub open spec fn stacked_markdown(
    children: Seq<Block>,
    pad: Seq<char>,
    options: RenderOptions,
    n: nat,
) -> Seq<char>
    decreases children, n,
{
    if n == 0 || n > children.len() {
        Seq::empty()
    } else {
        let child = children[n - 1];
        let lead = if child.indents_itself() {
            Seq::empty()
        } else {
            pad
        };
        stacked_markdown(children, pad, options, (n - 1) as nat) + lead + child.markdown_in(
            n,
            pad,
            options,
        ) + "\n"@
    }
}

/// Every one of `children` can be rendered.
pub open spec fn all_renderable(children: Seq<Block>) -> bool
    decreases children,
{
    forall|i: int| 0 <= i < children.len() ==> (#[trigger] children[i]).renderable()
}

impl Block {
    /// The children of a block that nests others; `None` for a leaf.
    pub open spec fn nested(self) -> Option<Vec<Block>> {
        match self {
            Block::NumberedListItem(b) => Some(b.children),
            Block::BulletedListItem(b) => Some(b.children),
            Block::Paragraph(b) => Some(b.children),
            Block::Quote(b) => Some(b.children),
            Block::Heading1(b) => Some(b.children),
            Block::Heading2(b) => Some(b.children),
            Block::Heading3(b) => Some(b.children),
            Block::ToDo(b) => Some(b.children),
            Block::Callout(b) => Some(b.children),
            Block::Table(b) => Some(b.children),
            Block::Toggle(b) => Some(b.children),
            Block::SyncedBlock(b) => Some(b.children),
            Block::ColumnList(b) => Some(b.children),
            Block::Column(b) => Some(b.children),
            _ => None,
        }
    }

    /// The children of the block, in their order; none for a leaf.
    pub open spec fn children(self) -> Seq<Block> {
        match self.nested() {
            Some(children) => children@,
            None => Seq::empty(),
        }
    }

    /// The block with `children` in place of its own; a leaf as it is.
    pub open spec fn set_children(self, children: Vec<Block>) -> Block {
        match self {
            Block::NumberedListItem(b) => Block::NumberedListItem(
                NumberedListItem { children, ..b },
            ),
            Block::BulletedListItem(b) => Block::BulletedListItem(
                BulletedListItem { children, ..b },
            ),
            Block::Paragraph(b) => Block::Paragraph(Paragraph { children, ..b }),
            Block::Quote(b) => Block::Quote(Quote { children, ..b }),
            Block::Heading1(b) => Block::Heading1(Heading1 { children, ..b }),
            Block::Heading2(b) => Block::Heading2(Heading2 { children, ..b }),
            Block::Heading3(b) => Block::Heading3(Heading3 { children, ..b }),
            Block::ToDo(b) => Block::ToDo(ToDo { children, ..b }),
            Block::Callout(b) => Block::Callout(Callout { children, ..b }),
            Block::Table(b) => Block::Table(Table { children, ..b }),
            Block::Toggle(b) => Block::Toggle(Toggle { children, ..b }),
            Block::SyncedBlock(b) => Block::SyncedBlock(SyncedBlock { children, ..b }),
            Block::ColumnList(b) => Block::ColumnList(ColumnList { children, ..b }),
            Block::Column(b) => Block::Column(Column { children, ..b }),
            _ => self,
        }
    }

    /// The place that the block holds; a leaf holds none and counts as the
    /// first block at the top.
    pub open spec fn meta(self) -> BlockMeta {
        match self {
            Block::NumberedListItem(b) => b.meta,
            Block::BulletedListItem(b) => b.meta,
            Block::Paragraph(b) => b.meta,
            Block::Quote(b) => b.meta,
            Block::Heading1(b) => b.meta,
            Block::Heading2(b) => b.meta,
            Block::Heading3(b) => b.meta,
            Block::ToDo(b) => b.meta,
            Block::Callout(b) => b.meta,
            Block::Table(b) => b.meta,
            Block::Toggle(b) => b.meta,
            Block::SyncedBlock(b) => b.meta,
            Block::ColumnList(b) => b.meta,
            Block::Column(b) => b.meta,
            _ => BlockMeta::first_at_top(),
        }
    }

    /// The block at the place `meta`; a leaf as it is.
    pub open spec fn set_meta(self, meta: BlockMeta) -> Block {
        match self {
            Block::NumberedListItem(b) => Block::NumberedListItem(NumberedListItem { meta, ..b }),
            Block::BulletedListItem(b) => Block::BulletedListItem(BulletedListItem { meta, ..b }),
            Block::Paragraph(b) => Block::Paragraph(Paragraph { meta, ..b }),
            Block::Quote(b) => Block::Quote(Quote { meta, ..b }),
            Block::Heading1(b) => Block::Heading1(Heading1 { meta, ..b }),
            Block::Heading2(b) => Block::Heading2(Heading2 { meta, ..b }),
            Block::Heading3(b) => Block::Heading3(Heading3 { meta, ..b }),
            Block::ToDo(b) => Block::ToDo(ToDo { meta, ..b }),
            Block::Callout(b) => Block::Callout(Callout { meta, ..b }),
            Block::Table(b) => Block::Table(Table { meta, ..b }),
            Block::Toggle(b) => Block::Toggle(Toggle { meta, ..b }),
            Block::SyncedBlock(b) => Block::SyncedBlock(SyncedBlock { meta, ..b }),
            Block::ColumnList(b) => Block::ColumnList(ColumnList { meta, ..b }),
            Block::Column(b) => Block::Column(Column { meta, ..b }),
            _ => self,
        }
    }

    /// Whether the rendering of the block takes in that of its children.
    pub open spec fn renders_children(self) -> bool {
        self is Heading1 || self is Heading2 || self is Heading3 || self is BulletedListItem
            || self is NumberedListItem || self is ToDo || self is Toggle || self is SyncedBlock
            || self is ColumnList || self is Column
    }

    /// Whether the block puts the indentation in front of its own lines, so
    /// that a parent adds none.
    pub open spec fn indents_itself(self) -> bool {
        self is Table || self is SyncedBlock || self is ColumnList || self is Column
    }

    /// Whether the block has a rendering. A table row has none of its own,
    /// and a block whose rendering takes in its children has one only if
    /// every child has.
    pub open spec fn renderable(self) -> bool
        decreases self,
    {
        &&& !(self is TableRow)
        &&& self.renders_children() ==> all_renderable(self.children())
    }

    /// The Markdown of the block as number `order` among its siblings, where
    /// its lines stand behind `pad`. The first line comes without `pad`,
    /// except in a block that indents itself.
    pub open spec fn markdown_in(self, order: nat, pad: Seq<char>, options: RenderOptions) -> Seq<
        char,
    >
        decreases self, 0nat,
    {
        match self {
            Block::NumberedListItem(b) => b.markdown_over(
                order,
                children_markdown(b.children@, pad + "  "@, options, b.children@.len()),
            ),
            Block::BulletedListItem(b) => b.markdown_over(
                children_markdown(b.children@, pad + "  "@, options, b.children@.len()),
            ),
            Block::ToDo(b) => b.markdown_over(
                children_markdown(b.children@, pad + "  "@, options, b.children@.len()),
            ),
            Block::Heading1(b) => b.markdown_over(
                children_markdown(b.children@, pad + "  "@, options, b.children@.len()),
            ),
            Block::Heading2(b) => b.markdown_over(
                children_markdown(b.children@, pad + "  "@, options, b.children@.len()),
            ),
            Block::Heading3(b) => b.markdown_over(
                children_markdown(b.children@, pad + "  "@, options, b.children@.len()),
            ),
            Block::Toggle(b) => b.markdown_over(
                children_markdown(b.children@, pad, options, b.children@.len()),
            ),
            Block::SyncedBlock(b) => children_markdown(
                b.children@,
                pad,
                options,
                b.children@.len(),
            ),
            Block::ColumnList(b) => children_markdown(b.children@, pad, options, b.children@.len()),
            Block::Column(b) => children_markdown(b.children@, pad, options, b.children@.len()),
            Block::Table(b) => b.markdown_in(pad),
            Block::Paragraph(b) => b.markdown(),
            Block::Quote(b) => b.markdown(),
            Block::Callout(b) => b.markdown(),
            Block::Code(b) => b.markdown(),
            Block::Equation(b) => b.markdown(),
            Block::Pdf(b) => b.markdown(),
            Block::Image(b) => b.markdown(),
            Block::File(b) => b.markdown(),
            Block::Video(b) => b.markdown(),
            Block::Bookmark(b) => b.markdown(),
            Block::Embed(b) => b.markdown(),
            Block::LinkPreview(b) => b.markdown(),
            Block::LinkToPage(b) => b.markdown(),
            Block::ChildPage(b) => b.markdown(options.child_page_link_target),
            Block::ChildDatabase(b) => b.markdown(options.child_database_link_target),
            Block::Divider(b) => b.markdown(),
            Block::Breadcrumb(b) => b.markdown(),
            Block::Template(b) => b.markdown(),
            Block::TableOfContents(b) => b.markdown(),
            Block::TableRow(_) => Seq::empty(),
            Block::Unsupported => unsupported_text(),
            Block::Unexpected => unexpected_text(),
        }
    }

    /// The Markdown of the block as number `order` among its siblings, at
    /// nesting depth `depth`: two spaces of indentation for each level.
    pub open spec fn markdown_at(self, order: nat, depth: nat, options: RenderOptions) -> Seq<
        char,
    > {
        self.markdown_in(order, indent(depth), options)
    }

    /// The Markdown of the block at the place that it holds, with links to
    /// Markdown files.
    pub open spec fn markdown(self) -> Seq<char> {
        self.markdown_at(
            self.meta().order as nat,
            self.meta().depth as nat,
            RenderOptions::markdown_files(),
        )
    }
}

/// Renders `children` one below the other: see `children_markdown`.
pub fn render_children(children: &Vec<Block>, pad: &str, options: &RenderOptions) -> (r: String)
    requires
        all_renderable(children@),
    ensures
        r@ == children_markdown(children@, pad@, *options, children@.len()),
    decreases children,
{
    broadcast use vstd::std_specs::vec::axiom_vec_index_decreases;

    let mut r = String::new();
    let mut i: usize = 0;
    while i < children.len()
        invariant
            i <= children.len(),
            all_renderable(children@),
            r@ == children_markdown(children@, pad@, *options, i as nat),
        decreases children.len() - i,
    {
        if i > 0 {
            r.append("\n");
        }
        let child = &children[i];
        if !child.is_self_indenting() {
            r.append(pad);
        }
        proof {
            assert(decreases_to!(children => children[i as int]));
        }
        r.append(child.to_markdown_in(i + 1, pad, options).as_str());
        assert(r@ =~= children_markdown(children@, pad@, *options, (i + 1) as nat));
        i = i + 1;
    }
    r
}

/// Renders `children` each on lines of its own: see `stacked_markdown`.
pub fn stack_children(children: &Vec<Block>, pad: &str, options: &RenderOptions) -> (r: String)
    requires
        all_renderable(children@),
    ensures
        r@ == stacked_markdown(children@, pad@, *options, children@.len()),
    decreases children,
{
    broadcast use vstd::std_specs::vec::axiom_vec_index_decreases;

    let mut r = String::new();
    let mut i: usize = 0;
    while i < children.len()
        invariant
            i <= children.len(),
            all_renderable(children@),
            r@ == stacked_markdown(children@, pad@, *options, i as nat),
        decreases children.len() - i,
    {
        let child = &children[i];
        if !child.is_self_indenting() {
            r.append(pad);
        }
        proof {
            assert(decreases_to!(children => children[i as int]));
        }
        r.append(child.to_markdown_in(i + 1, pad, options).as_str());
        r.append("\n");
        assert(r@ =~= stacked_markdown(children@, pad@, *options, (i + 1) as nat));
        i = i + 1;
    }
    r
}

/// Whether every one of `children` can be rendered.
pub fn are_renderable(children: &Vec<Block>) -> (r: bool)
    ensures
        r == all_renderable(children@),
    decreases children,
{
    broadcast use vstd::std_specs::vec::axiom_vec_index_decreases;

    let mut i: usize = 0;
    while i < children.len()
        invariant
            i <= children.len(),
            forall|k: int| 0 <= k < i ==> (#[trigger] children@[k]).renderable(),
        decreases children.len() - i,
    {
        proof {
            assert(decreases_to!(children => children[i as int]));
        }
        if !children[i].is_renderable() {
            return false;
        }
        i = i + 1;
    }
    true
}

fn deeper(pad: &str) -> (r: String)
    ensures
        r@ == pad@ + "  "@,
{
    let mut r = String::from_str(pad);
    r.append("  ");
    r
}

impl Block {
    /// Decides `indents_itself`.
    pub fn is_self_indenting(&self) -> (r: bool)
        ensures
            r == self.indents_itself(),
    {
        match self {
            Block::Table(_) | Block::SyncedBlock(_) | Block::ColumnList(_) | Block::Column(_) => true,
            _ => false,
        }
    }

    /// Decides `renderable`.
    pub fn is_renderable(&self) -> (r: bool)
        ensures
            r == self.renderable(),
        decreases self,
    {
        match self {
            Block::TableRow(_) => false,
            Block::Heading1(b) => are_renderable(&b.children),
            Block::Heading2(b) => are_renderable(&b.children),
            Block::Heading3(b) => are_renderable(&b.children),
            Block::BulletedListItem(b) => are_renderable(&b.children),
            Block::NumberedListItem(b) => are_renderable(&b.children),
            Block::ToDo(b) => are_renderable(&b.children),
            Block::Toggle(b) => are_renderable(&b.children),
            Block::SyncedBlock(b) => are_renderable(&b.children),
            Block::ColumnList(b) => are_renderable(&b.children),
            Block::Column(b) => are_renderable(&b.children),
            _ => true,
        }
    }

    /// Renders the block as number `order` among its siblings, with `pad`
    /// as the indentation of its lines.
    pub fn to_markdown_in(&self, order: usize, pad: &str, options: &RenderOptions) -> (r: String)
        requires
            self.renderable(),
        ensures
            r@ == self.markdown_in(order as nat, pad@, *options),
        decreases self,
    {
        match self {
            Block::NumberedListItem(b) => {
                let below = render_children(&b.children, deeper(pad).as_str(), options);
                b.to_markdown_over(order, below.as_str())
            },
            Block::BulletedListItem(b) => {
                let below = render_children(&b.children, deeper(pad).as_str(), options);
                b.to_markdown_over(below.as_str())
            },
            Block::ToDo(b) => {
                let below = render_children(&b.children, deeper(pad).as_str(), options);
                b.to_markdown_over(below.as_str())
            },
            Block::Heading1(b) => {
                let below = render_children(&b.children, deeper(pad).as_str(), options);
                b.to_markdown_over(below.as_str())
            },
            Block::Heading2(b) => {
                let below = render_children(&b.children, deeper(pad).as_str(), options);
                b.to_markdown_over(below.as_str())
            },
            Block::Heading3(b) => {
                let below = render_children(&b.children, deeper(pad).as_str(), options);
                b.to_markdown_over(below.as_str())
            },
            Block::Toggle(b) => {
                let below = render_children(&b.children, pad, options);
                b.to_markdown_over(below.as_str())
            },
            Block::SyncedBlock(b) => render_children(&b.children, pad, options),
            Block::ColumnList(b) => render_children(&b.children, pad, options),
            Block::Column(b) => render_children(&b.children, pad, options),
            Block::Table(b) => b.to_markdown_in(pad),
            Block::Paragraph(b) => b.to_markdown(),
            Block::Quote(b) => b.to_markdown(),
            Block::Callout(b) => b.to_markdown(),
            Block::Code(b) => b.to_markdown(),
            Block::Equation(b) => b.to_markdown(),
            Block::Pdf(b) => b.to_markdown(),
            Block::Image(b) => b.to_markdown(),
            Block::File(b) => b.to_markdown(),
            Block::Video(b) => b.to_markdown(),
            Block::Bookmark(b) => b.to_markdown(),
            Block::Embed(b) => b.to_markdown(),
            Block::LinkPreview(b) => b.to_markdown(),
            Block::LinkToPage(b) => b.to_markdown(),
            Block::ChildPage(b) => b.to_markdown(options.child_page_link_target),
            Block::ChildDatabase(b) => b.to_markdown(options.child_database_link_target),
            Block::Divider(b) => b.to_markdown(),
            Block::Breadcrumb(b) => b.to_markdown(),
            Block::Template(b) => b.to_markdown(),
            Block::TableOfContents(b) => b.to_markdown(),
            Block::TableRow(_) => String::new(),
            Block::Unsupported => String::from_str("<!-- unsupported block -->"),
            Block::Unexpected => String::from_str("<!-- unexpected block -->"),
        }
    }

    /// The place that the block holds.
    pub fn get_meta(&self) -> (r: BlockMeta)
        ensures
            r == self.meta(),
    {
        match self {
            Block::NumberedListItem(b) => b.meta,
            Block::BulletedListItem(b) => b.meta,
            Block::Paragraph(b) => b.meta,
            Block::Quote(b) => b.meta,
            Block::Heading1(b) => b.meta,
            Block::Heading2(b) => b.meta,
            Block::Heading3(b) => b.meta,
            Block::ToDo(b) => b.meta,
            Block::Callout(b) => b.meta,
            Block::Table(b) => b.meta,
            Block::Toggle(b) => b.meta,
            Block::SyncedBlock(b) => b.meta,
            Block::ColumnList(b) => b.meta,
            Block::Column(b) => b.meta,
            _ => BlockMeta { order: 1, depth: 0 },
        }
    }

    /// Renders the block at the place that it holds, with the given options.
    pub fn to_markdown_with(&self, options: &RenderOptions) -> (r: String)
        requires
            self.renderable(),
        ensures
            r@ == self.markdown_at(self.meta().order as nat, self.meta().depth as nat, *options),
    {
        let meta = self.get_meta();
        let pad = indent_string(meta.depth);
        self.to_markdown_in(meta.order, pad.as_str(), options)
    }

    /// Renders the block at the place that it holds, with links to Markdown
    /// files. A table row outside its table has no rendering: `renderable`
    /// leaves it out, and `try_to_markdown` answers it with `None`.
    pub fn to_markdown(&self) -> (r: String)
        requires
            self.renderable(),
        ensures
            r@ == self.markdown(),
    {
        let options = RenderOptions::default();
        self.to_markdown_with(&options)
    }

    /// Renders the block if it has a rendering. A table row outside its
    /// table gets `None`.
    pub fn try_to_markdown(&self) -> (r: Option<String>)
        ensures
            self.renderable() ==> r is Some && r->0@ == self.markdown(),
            !self.renderable() ==> r is None,
            self is TableRow ==> r is None,
    {
        if self.is_renderable() {
            Some(self.to_markdown())
        } else {
            None
        }
    }

    /// Adds `child` behind the children of a block that nests others, and
    /// leaves a leaf as it is.
    pub fn append(&mut self, child: Block)
        ensures
            old(self).nested() is Some ==> final(self).children() == old(self).children().push(
                child,
            ) && *final(self) == old(self).set_children(final(self).nested()->0),
            old(self).nested() is None ==> *final(self) == *old(self),
    {
        match self {
            Block::NumberedListItem(b) => b.append(child),
            Block::BulletedListItem(b) => b.append(child),
            Block::Paragraph(b) => b.append(child),
            Block::Quote(b) => b.append(child),
            Block::Heading1(b) => b.append(child),
            Block::Heading2(b) => b.append(child),
            Block::Heading3(b) => b.append(child),
            Block::ToDo(b) => b.append(child),
            Block::Callout(b) => b.append(child),
            Block::Table(b) => b.append(child),
            Block::Toggle(b) => b.append(child),
            Block::SyncedBlock(b) => b.append(child),
            Block::ColumnList(b) => b.append(child),
            Block::Column(b) => b.append(child),
            _ => {},
        }
    }

    /// The same block at the place `meta`; a leaf, which holds no place, as
    /// it is.
    pub fn with_meta(self, meta: BlockMeta) -> (r: Block)
        ensures
            r == self.set_meta(meta),
    {
        match self {
            Block::NumberedListItem(b) => Block::NumberedListItem(b.with_meta(meta)),
            Block::BulletedListItem(b) => Block::BulletedListItem(b.with_meta(meta)),
            Block::Paragraph(b) => Block::Paragraph(b.with_meta(meta)),
            Block::Quote(b) => Block::Quote(b.with_meta(meta)),
            Block::Heading1(b) => Block::Heading1(b.with_meta(meta)),
            Block::Heading2(b) => Block::Heading2(b.with_meta(meta)),
            Block::Heading3(b) => Block::Heading3(b.with_meta(meta)),
            Block::ToDo(b) => Block::ToDo(b.with_meta(meta)),
            Block::Callout(b) => Block::Callout(b.with_meta(meta)),
            Block::Table(b) => Block::Table(b.with_meta(meta)),
            Block::Toggle(b) => Block::Toggle(b.with_meta(meta)),
            Block::SyncedBlock(b) => Block::SyncedBlock(b.with_meta(meta)),
            Block::ColumnList(b) => Block::ColumnList(b.with_meta(meta)),
            Block::Column(b) => Block::Column(b.with_meta(meta)),
            other => other,
        }
    }
}

/// A table row on its own has no rendering, whatever it holds: it is not
/// renderable, so `to_markdown` cannot be called on it and `try_to_markdown`
/// answers `None`. The same holds of every block whose rendering takes in a
/// child that has none.
pub proof fn lemma_table_row_alone_has_no_rendering(b: Block)
    ensures
        b is TableRow ==> !b.renderable(),
        b.renders_children() && (exists|i: int|
            0 <= i < b.children().len() && !(#[trigger] b.children()[i]).renderable())
            ==> !b.renderable(),
{
}

/// The place that a block holds is not part of what it says: rendered at a
/// given place, the block reads the same whatever place it holds. So a block
/// put at a place with `with_meta` renders there.
pub proof fn lemma_with_meta_places_block(b: Block, meta: BlockMeta, options: RenderOptions)
    ensures
        forall|order: nat, pad: Seq<char>|
            b.set_meta(meta).markdown_in(order, pad, options) == b.markdown_in(order, pad, options),
        b.nested() is Some ==> b.set_meta(meta).markdown() == b.markdown_at(
            meta.order as nat,
            meta.depth as nat,
            RenderOptions::markdown_files(),
        ),
        b.set_meta(meta).renderable() == b.renderable(),
        b.set_meta(meta).children() == b.children(),
{
    lemma_set_meta_keeps_text(b, meta, options);
    lemma_set_meta_keeps_text(b, meta, RenderOptions::markdown_files());
}

proof fn lemma_set_meta_keeps_text(b: Block, meta: BlockMeta, options: RenderOptions)
    ensures
        forall|order: nat, pad: Seq<char>|
            b.set_meta(meta).markdown_in(order, pad, options) == b.markdown_in(order, pad, options),
{
    assert forall|order: nat, pad: Seq<char>|
        b.set_meta(meta).markdown_in(order, pad, options) == b.markdown_in(
            order,
            pad,
            options,
        ) by {}
}

/// Two list items under a list item form one nested list: their lines
/// follow the parent's line one after the other, at one more level of
/// indentation, with nothing between them.
pub proof fn lemma_nested_items_form_one_list(
    parent: BulletedListItem,
    order: nat,
    pad: Seq<char>,
    options: RenderOptions,
)
    requires
        parent.children@.len() == 2,
        parent.children@[0] is BulletedListItem,
        parent.children@[1] is BulletedListItem,
        parent.children@[0].children().len() == 0,
        parent.children@[1].children().len() == 0,
    ensures
        Block::BulletedListItem(parent).markdown_in(order, pad, options) == parent.line() + "\n"@
            + (pad + "  "@ + parent.children@[0]->BulletedListItem_0.line() + "\n"@ + (pad + "  "@)
            + parent.children@[1]->BulletedListItem_0.line()),
{
    let inner = pad + "  "@;
    let cs = parent.children@;
    let first = cs[0]->BulletedListItem_0;
    let second = cs[1]->BulletedListItem_0;
    assert(children_markdown(first.children@, inner + "  "@, options, 0) == Seq::<char>::empty());
    assert(children_markdown(second.children@, inner + "  "@, options, 0) == Seq::<char>::empty());
    assert(cs[0].markdown_in(1, inner, options) == first.line());
    assert(cs[1].markdown_in(2, inner, options) == second.line());
    assert(children_markdown(cs, inner, options, 1) == inner + first.line());
    let below = children_markdown(cs, inner, options, 2);
    assert(below == inner + first.line() + "\n"@ + (inner + second.line()));
    reveal_strlit("\n");
    assert(below.len() > 0);
    assert(below =~= inner + first.line() + "\n"@ + inner + second.line());
}

} // verus!
