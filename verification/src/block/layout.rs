//! Blocks that only arrange other blocks, and blocks that are a fixed line.

use crate::block::{Block, BlockContent, BlockMeta};
use crate::rich_text::{spans_markdown, RichTextVec};
use vstd::prelude::*;
use vstd::string::*;

verus! {

/// A line of text with blocks that can be folded away under it.
#[derive(Debug, PartialEq, Eq)]
pub struct Toggle {
    pub toggle: BlockContent,
    pub children: Vec<Block>,
    pub meta: BlockMeta,
}

impl Toggle {
    /// Adds `child` behind the children that are there.
    pub fn append(&mut self, child: Block)
        ensures
            final(self).children@ == old(self).children@.push(child),
            final(self).toggle == old(self).toggle,
            final(self).meta == old(self).meta,
    {
        self.children.push(child);
    }

    /// The same block at another place among its siblings and in the tree.
    pub fn with_meta(self, meta: BlockMeta) -> (r: Toggle)
        ensures
            r == (Toggle { meta, ..self }),
    {
        Toggle { meta, toggle: self.toggle, children: self.children }
    }

    /// The inline text as a first line, and the children below it.
    pub open spec fn markdown_over(self, below: Seq<char>) -> Seq<char> {
        spans_markdown(self.toggle.rich_text@) + "\n"@ + below
    }

    /// Renders the toggle over the rendering of its children.
    pub fn to_markdown_over(&self, below: &str) -> (r: String)
        ensures
            r@ == self.markdown_over(below@),
    {
        let mut r = self.toggle.rich_text.to_markdown();
        r.append("\n");
        r.append(below);
        r
    }
}

/// Blocks that are kept the same in several places. It shows its children, one
/// below the other, and nothing of its own.
#[derive(Debug, PartialEq, Eq)]
pub struct SyncedBlock {
    pub children: Vec<Block>,
    pub meta: BlockMeta,
}

impl SyncedBlock {
    /// Adds `child` behind the children that are there.
    pub fn append(&mut self, child: Block)
        ensures
            final(self).children@ == old(self).children@.push(child),
            final(self).meta == old(self).meta,
    {
        self.children.push(child);
    }

    /// The same block at another place among its siblings and in the tree.
    pub fn with_meta(self, meta: BlockMeta) -> (r: SyncedBlock)
        ensures
            r == (SyncedBlock { meta, ..self }),
    {
        SyncedBlock { meta, children: self.children }
    }
}

/// Columns side by side. It shows its columns, one below the other, and
/// nothing of its own.
#[derive(Debug, PartialEq, Eq)]
pub struct ColumnList {
    pub children: Vec<Block>,
    pub meta: BlockMeta,
}

impl ColumnList {
    /// Adds `child` behind the children that are there.
    pub fn append(&mut self, child: Block)
        ensures
            final(self).children@ == old(self).children@.push(child),
            final(self).meta == old(self).meta,
    {
        self.children.push(child);
    }

    /// The same block at another place among its siblings and in the tree.
    pub fn with_meta(self, meta: BlockMeta) -> (r: ColumnList)
        ensures
            r == (ColumnList { meta, ..self }),
    {
        ColumnList { meta, children: self.children }
    }
}

/// One column. It shows its children, one below the other, and nothing of
/// its own.
#[derive(Debug, PartialEq, Eq)]
pub struct Column {
    pub children: Vec<Block>,
    pub meta: BlockMeta,
}

impl Column {
    /// Adds `child` behind the children that are there.
    pub fn append(&mut self, child: Block)
        ensures
            final(self).children@ == old(self).children@.push(child),
            final(self).meta == old(self).meta,
    {
        self.children.push(child);
    }

    /// The same block at another place among its siblings and in the tree.
    pub fn with_meta(self, meta: BlockMeta) -> (r: Column)
        ensures
            r == (Column { meta, ..self }),
    {
        Column { meta, children: self.children }
    }
}

/// A line across the page.
#[derive(Debug, Clone, PartialEq, Eq)]
pub struct Divider {}

impl Divider {
    /// Five dashes.
    pub open spec fn markdown(self) -> Seq<char> {
        "-----"@
    }

    /// Renders the divider.
    pub fn to_markdown(&self) -> (r: String)
        ensures
            r@ == self.markdown(),
    {
        String::from_str("-----")
    }
}

/// The path to the page. In Markdown a comment stands for it.
#[derive(Debug, Clone, PartialEq, Eq)]
pub struct Breadcrumb {}

impl Breadcrumb {
    /// A comment that names the block.
    pub open spec fn markdown(self) -> Seq<char> {
        "<!-- breadcrumb block -->"@
    }

    /// Renders the breadcrumb.
    pub fn to_markdown(&self) -> (r: String)
        ensures
            r@ == self.markdown(),
    {
        String::from_str("<!-- breadcrumb block -->")
    }
}

/// A template button. In Markdown a comment stands for it.
#[derive(Debug, Clone, PartialEq, Eq)]
pub struct Template {}

impl Template {
    /// A comment that names the block.
    pub open spec fn markdown(self) -> Seq<char> {
        "<!-- template block -->"@
    }

    /// Renders the template.
    pub fn to_markdown(&self) -> (r: String)
        ensures
            r@ == self.markdown(),
    {
        String::from_str("<!-- template block -->")
    }
}

} // verus!
