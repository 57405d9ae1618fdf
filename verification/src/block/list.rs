//! List items: bulleted, numbered and to-do.

use crate::block::inline::{put_children_below, with_children_below};
use crate::block::{Block, BlockContent, BlockMeta};
use crate::rich_text::{spans_markdown, RichText, RichTextVec};
use crate::text::{decimal, decimal_string};
use vstd::prelude::*;
use vstd::string::*;

verus! {

/// An item of a bulleted list.
#[derive(Debug, PartialEq, Eq)]
pub struct BulletedListItem {
    pub bulleted_list_item: BlockContent,
    pub children: Vec<Block>,
    pub meta: BlockMeta,
}

impl BulletedListItem {
    /// Adds `child` behind the children that are there.
    pub fn append(&mut self, child: Block)
        ensures
            final(self).children@ == old(self).children@.push(child),
            final(self).bulleted_list_item == old(self).bulleted_list_item,
            final(self).meta == old(self).meta,
    {
        self.children.push(child);
    }

    /// The same block at another place among its siblings and in the tree.
    pub fn with_meta(self, meta: BlockMeta) -> (r: BulletedListItem)
        ensures
            r == (BulletedListItem { meta, ..self }),
    {
        BulletedListItem { meta, bulleted_list_item: self.bulleted_list_item, children: self.children }
    }

    /// `- ` and the inline text.
    pub open spec fn line(self) -> Seq<char> {
        "- "@ + spans_markdown(self.bulleted_list_item.rich_text@)
    }

    /// The item's line; where the children render to anything, that on the
    /// lines below.
    pub open spec fn markdown_over(self, below: Seq<char>) -> Seq<char> {
        with_children_below(self.line(), below.len() > 0, below)
    }

    /// Renders the line of the item.
    pub fn to_line(&self) -> (r: String)
        ensures
            r@ == self.line(),
    {
        let mut r = String::from_str("- ");
        r.append(self.bulleted_list_item.rich_text.to_markdown().as_str());
        r
    }

    /// Renders the item over the rendering of its children.
    pub fn to_markdown_over(&self, below: &str) -> (r: String)
        ensures
            r@ == self.markdown_over(below@),
    {
        put_children_below(self.to_line(), !below.is_empty(), below)
    }
}

/// An item of a numbered list.
#[derive(Debug, PartialEq, Eq)]
pub struct NumberedListItem {
    pub numbered_list_item: BlockContent,
    pub children: Vec<Block>,
    pub meta: BlockMeta,
}

impl NumberedListItem {
    /// Adds `child` behind the children that are there.
    pub fn append(&mut self, child: Block)
        ensures
            final(self).children@ == old(self).children@.push(child),
            final(self).numbered_list_item == old(self).numbered_list_item,
            final(self).meta == old(self).meta,
    {
        self.children.push(child);
    }

    /// The same block at another place among its siblings and in the tree.
    pub fn with_meta(self, meta: BlockMeta) -> (r: NumberedListItem)
        ensures
            r == (NumberedListItem { meta, ..self }),
    {
        NumberedListItem { meta, numbered_list_item: self.numbered_list_item, children: self.children }
    }

    /// The item's number among its siblings, `. ` and the inline text.
    pub open spec fn line(self, order: nat) -> Seq<char> {
        decimal(order) + ". "@ + spans_markdown(self.numbered_list_item.rich_text@)
    }

    /// The item's line; where the children render to anything, that on the
    /// lines below.
    pub open spec fn markdown_over(self, order: nat, below: Seq<char>) -> Seq<char> {
        with_children_below(self.line(order), below.len() > 0, below)
    }

    /// Renders the line of the item as number `order`.
    pub fn to_line(&self, order: usize) -> (r: String)
        ensures
            r@ == self.line(order as nat),
    {
        let mut r = decimal_string(order);
        r.append(". ");
        r.append(self.numbered_list_item.rich_text.to_markdown().as_str());
        r
    }

    /// Renders the item as number `order` over the rendering of its children.
    pub fn to_markdown_over(&self, order: usize, below: &str) -> (r: String)
        ensures
            r@ == self.markdown_over(order as nat, below@),
    {
        put_children_below(self.to_line(order), !below.is_empty(), below)
    }
}

/// What a to-do item holds: its inline text, and whether it is done.
#[derive(Debug, Clone, PartialEq, Eq)]
pub struct ToDoContent {
    pub rich_text: Vec<RichText>,
    pub checked: bool,
}

/// An item with a check box.
#[derive(Debug, PartialEq, Eq)]
pub struct ToDo {
    pub to_do: ToDoContent,
    pub children: Vec<Block>,
    pub meta: BlockMeta,
}

impl ToDo {
    /// Adds `child` behind the children that are there.
    pub fn append(&mut self, child: Block)
        ensures
            final(self).children@ == old(self).children@.push(child),
            final(self).to_do == old(self).to_do,
            final(self).meta == old(self).meta,
    {
        self.children.push(child);
    }

    /// The same block at another place among its siblings and in the tree.
    pub fn with_meta(self, meta: BlockMeta) -> (r: ToDo)
        ensures
            r == (ToDo { meta, ..self }),
    {
        ToDo { meta, to_do: self.to_do, children: self.children }
    }

    /// The check box of the item: `- [x] ` where it is checked, `- [ ] `
    /// where not.
    pub open spec fn marker(self) -> Seq<char> {
        if self.to_do.checked {
            "- [x] "@
        } else {
            "- [ ] "@
        }
    }

    /// The check box and the inline text.
    pub open spec fn line(self) -> Seq<char> {
        self.marker() + spans_markdown(self.to_do.rich_text@)
    }

    /// The item's line; where the children render to anything, that on the
    /// lines below.
    pub open spec fn markdown_over(self, below: Seq<char>) -> Seq<char> {
        with_children_below(self.line(), below.len() > 0, below)
    }

    /// Renders the line of the item.
    pub fn to_line(&self) -> (r: String)
        ensures
            r@ == self.line(),
    {
        let mut r = if self.to_do.checked {
            String::from_str("- [x] ")
        } else {
            String::from_str("- [ ] ")
        };
        r.append(self.to_do.rich_text.to_markdown().as_str());
        r
    }

    /// Renders the item over the rendering of its children.
    pub fn to_markdown_over(&self, below: &str) -> (r: String)
        ensures
            r@ == self.markdown_over(below@),
    {
        put_children_below(self.to_line(), !below.is_empty(), below)
    }
}

} // verus!
