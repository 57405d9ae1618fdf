//! Blocks that are one line of inline text: paragraphs, headings, quotes,
//! callouts, code and equations.

use crate::block::{Block, BlockContent, BlockMeta};
use crate::rich_text::{plain_text_of, spans_markdown, spans_plain_text, RichText, RichTextVec};
use vstd::prelude::*;
use vstd::string::*;

verus! {

/// A paragraph of inline text.
#[derive(Debug, PartialEq, Eq)]
pub struct Paragraph {
    pub paragraph: BlockContent,
    pub children: Vec<Block>,
    pub meta: BlockMeta,
}

impl Paragraph {
    /// Adds `child` behind the children that are there.
    pub fn append(&mut self, child: Block)
        ensures
            final(self).children@ == old(self).children@.push(child),
            final(self).paragraph == old(self).paragraph,
            final(self).meta == old(self).meta,
    {
        self.children.push(child);
    }

    /// The same block at another place among its siblings and in the tree.
    pub fn with_meta(self, meta: BlockMeta) -> (r: Paragraph)
        ensures
            r == (Paragraph { meta, ..self }),
    {
        Paragraph { meta, paragraph: self.paragraph, children: self.children }
    }

    /// The inline text, with nothing added.
    pub open spec fn markdown(self) -> Seq<char> {
        spans_markdown(self.paragraph.rich_text@)
    }

    /// Renders the paragraph.
    pub fn to_markdown(&self) -> (r: String)
        ensures
            r@ == self.markdown(),
    {
        self.paragraph.rich_text.to_markdown()
    }
}

/// A heading of the first level.
#[derive(Debug, PartialEq, Eq)]
pub struct Heading1 {
    pub heading_1: BlockContent,
    pub children: Vec<Block>,
    pub meta: BlockMeta,
}

/// A heading of the second level.
#[derive(Debug, PartialEq, Eq)]
pub struct Heading2 {
    pub heading_2: BlockContent,
    pub children: Vec<Block>,
    pub meta: BlockMeta,
}

/// A heading of the third level.
#[derive(Debug, PartialEq, Eq)]
pub struct Heading3 {
    pub heading_3: BlockContent,
    pub children: Vec<Block>,
    pub meta: BlockMeta,
}

/// A first line, and below it the children where there are any.
pub open spec fn with_children_below(line: Seq<char>, has_children: bool, below: Seq<char>) -> Seq<
    char,
> {
    if has_children {
        line + "\n"@ + below
    } else {
        line
    }
}

/// Builds `with_children_below`.
pub fn put_children_below(line: String, has_children: bool, below: &str) -> (r: String)
    ensures
        r@ == with_children_below(line@, has_children, below@),
{
    let mut r = line;
    if has_children {
        r.append("\n");
        r.append(below);
    }
    r
}

impl Heading1 {
    /// Adds `child` behind the children that are there.
    pub fn append(&mut self, child: Block)
        ensures
            final(self).children@ == old(self).children@.push(child),
            final(self).heading_1 == old(self).heading_1,
            final(self).meta == old(self).meta,
    {
        self.children.push(child);
    }

    /// The same block at another place among its siblings and in the tree.
    pub fn with_meta(self, meta: BlockMeta) -> (r: Heading1)
        ensures
            r == (Heading1 { meta, ..self }),
    {
        Heading1 { meta, heading_1: self.heading_1, children: self.children }
    }

    /// `# ` and the inline text.
    pub open spec fn line(self) -> Seq<char> {
        "# "@ + spans_markdown(self.heading_1.rich_text@)
    }

    /// The heading line; where the heading has children, their rendering
    /// on the lines below.
    pub open spec fn markdown_over(self, below: Seq<char>) -> Seq<char> {
        with_children_below(self.line(), self.children@.len() > 0, below)
    }

    /// Renders the heading line.
    pub fn to_line(&self) -> (r: String)
        ensures
            r@ == self.line(),
    {
        let mut r = String::from_str("# ");
        r.append(self.heading_1.rich_text.to_markdown().as_str());
        r
    }

    /// Renders the heading over the rendering of its children.
    pub fn to_markdown_over(&self, below: &str) -> (r: String)
        ensures
            r@ == self.markdown_over(below@),
    {
        put_children_below(self.to_line(), self.children.len() > 0, below)
    }
}

impl Heading2 {
    /// Adds `child` behind the children that are there.
    pub fn append(&mut self, child: Block)
        ensures
            final(self).children@ == old(self).children@.push(child),
            final(self).heading_2 == old(self).heading_2,
            final(self).meta == old(self).meta,
    {
        self.children.push(child);
    }

    /// The same block at another place among its siblings and in the tree.
    pub fn with_meta(self, meta: BlockMeta) -> (r: Heading2)
        ensures
            r == (Heading2 { meta, ..self }),
    {
        Heading2 { meta, heading_2: self.heading_2, children: self.children }
    }

    /// `## ` and the inline text.
    pub open spec fn line(self) -> Seq<char> {
        "## "@ + spans_markdown(self.heading_2.rich_text@)
    }

    /// The heading line; where the heading has children, their rendering
    /// on the lines below.
    pub open spec fn markdown_over(self, below: Seq<char>) -> Seq<char> {
        with_children_below(self.line(), self.children@.len() > 0, below)
    }

    /// Renders the heading line.
    pub fn to_line(&self) -> (r: String)
        ensures
            r@ == self.line(),
    {
        let mut r = String::from_str("## ");
        r.append(self.heading_2.rich_text.to_markdown().as_str());
        r
    }

    /// Renders the heading over the rendering of its children.
    pub fn to_markdown_over(&self, below: &str) -> (r: String)
        ensures
            r@ == self.markdown_over(below@),
    {
        put_children_below(self.to_line(), self.children.len() > 0, below)
    }
}

impl Heading3 {
    /// Adds `child` behind the children that are there.
    pub fn append(&mut self, child: Block)
        ensures
            final(self).children@ == old(self).children@.push(child),
            final(self).heading_3 == old(self).heading_3,
            final(self).meta == old(self).meta,
    {
        self.children.push(child);
    }

    /// The same block at another place among its siblings and in the tree.
    pub fn with_meta(self, meta: BlockMeta) -> (r: Heading3)
        ensures
            r == (Heading3 { meta, ..self }),
    {
        Heading3 { meta, heading_3: self.heading_3, children: self.children }
    }

    /// `### ` and the inline text.
    pub open spec fn line(self) -> Seq<char> {
        "### "@ + spans_markdown(self.heading_3.rich_text@)
    }

    /// The heading line; where the heading has children, their rendering
    /// on the lines below.
    pub open spec fn markdown_over(self, below: Seq<char>) -> Seq<char> {
        with_children_below(self.line(), self.children@.len() > 0, below)
    }

    /// Renders the heading line.
    pub fn to_line(&self) -> (r: String)
        ensures
            r@ == self.line(),
    {
        let mut r = String::from_str("### ");
        r.append(self.heading_3.rich_text.to_markdown().as_str());
        r
    }

    /// Renders the heading over the rendering of its children.
    pub fn to_markdown_over(&self, below: &str) -> (r: String)
        ensures
            r@ == self.markdown_over(below@),
    {
        put_children_below(self.to_line(), self.children.len() > 0, below)
    }
}

/// A quotation.
#[derive(Debug, PartialEq, Eq)]
pub struct Quote {
    pub quote: BlockContent,
    pub children: Vec<Block>,
    pub meta: BlockMeta,
}

impl Quote {
    /// Adds `child` behind the children that are there.
    pub fn append(&mut self, child: Block)
        ensures
            final(self).children@ == old(self).children@.push(child),
            final(self).quote == old(self).quote,
            final(self).meta == old(self).meta,
    {
        self.children.push(child);
    }

    /// The same block at another place among its siblings and in the tree.
    pub fn with_meta(self, meta: BlockMeta) -> (r: Quote)
        ensures
            r == (Quote { meta, ..self }),
    {
        Quote { meta, quote: self.quote, children: self.children }
    }

    /// `> ` and the inline text.
    pub open spec fn markdown(self) -> Seq<char> {
        "> "@ + spans_markdown(self.quote.rich_text@)
    }

    /// Renders the quotation.
    pub fn to_markdown(&self) -> (r: String)
        ensures
            r@ == self.markdown(),
    {
        let mut r = String::from_str("> ");
        r.append(self.quote.rich_text.to_markdown().as_str());
        r
    }
}

/// The icon of a callout.
#[derive(Debug, Clone, PartialEq, Eq)]
pub struct IconContent {
    pub emoji: String,
}

/// What a callout holds: its icon and its inline text.
#[derive(Debug, Clone, PartialEq, Eq)]
pub struct CalloutContent {
    pub icon: IconContent,
    pub rich_text: Vec<RichText>,
}

/// A callout: a quotation that an icon leads.
#[derive(Debug, PartialEq, Eq)]
pub struct Callout {
    pub callout: CalloutContent,
    pub children: Vec<Block>,
    pub meta: BlockMeta,
}

impl Callout {
    /// Adds `child` behind the children that are there.
    pub fn append(&mut self, child: Block)
        ensures
            final(self).children@ == old(self).children@.push(child),
            final(self).callout == old(self).callout,
            final(self).meta == old(self).meta,
    {
        self.children.push(child);
    }

    /// The same block at another place among its siblings and in the tree.
    pub fn with_meta(self, meta: BlockMeta) -> (r: Callout)
        ensures
            r == (Callout { meta, ..self }),
    {
        Callout { meta, callout: self.callout, children: self.children }
    }

    /// A quote that starts with the icon and a space, where there is an icon.
    pub open spec fn markdown(self) -> Seq<char> {
        if self.callout.icon.emoji@.len() == 0 {
            "> "@ + spans_markdown(self.callout.rich_text@)
        } else {
            "> "@ + self.callout.icon.emoji@ + " "@ + spans_markdown(self.callout.rich_text@)
        }
    }

    /// Renders the callout.
    pub fn to_markdown(&self) -> (r: String)
        ensures
            r@ == self.markdown(),
    {
        let mut r = String::from_str("> ");
        if !self.callout.icon.emoji.as_str().is_empty() {
            r.append(self.callout.icon.emoji.as_str());
            r.append(" ");
        }
        r.append(self.callout.rich_text.to_markdown().as_str());
        r
    }
}

/// What a block of code holds: its text and the name of its language.
#[derive(Debug, Clone, PartialEq, Eq)]
pub struct CodeContent {
    pub rich_text: Vec<RichText>,
    pub language: String,
}

/// A block of code.
#[derive(Debug, Clone, PartialEq, Eq)]
pub struct Code {
    pub code: CodeContent,
}

impl Code {
    /// A fenced block tagged with the language. Inside it stands the text
    /// of the spans as it is: no style is applied.
    pub open spec fn markdown(self) -> Seq<char> {
        "``` "@ + self.code.language@ + "\n"@ + spans_plain_text(self.code.rich_text@) + "\n```"@
    }

    /// Renders the block of code.
    pub fn to_markdown(&self) -> (r: String)
        ensures
            r@ == self.markdown(),
    {
        let mut r = String::from_str("``` ");
        r.append(self.code.language.as_str());
        r.append("\n");
        r.append(plain_text_of(&self.code.rich_text).as_str());
        r.append("\n```");
        r
    }
}

/// What an equation holds: its expression.
#[derive(Debug, Clone, PartialEq, Eq)]
pub struct EquationContent {
    pub expression: String,
}

/// An equation set off from the text.
#[derive(Debug, Clone, PartialEq, Eq)]
pub struct Equation {
    pub equation: EquationContent,
}

impl Equation {
    /// The expression as it is, between two lines of `$$`.
    pub open spec fn markdown(self) -> Seq<char> {
        "$$\n"@ + self.equation.expression@ + "\n$$"@
    }

    /// Renders the equation.
    pub fn to_markdown(&self) -> (r: String)
        ensures
            r@ == self.markdown(),
    {
        let mut r = String::from_str("$$\n");
        r.append(self.equation.expression.as_str());
        r.append("\n$$");
        r
    }
}

} // verus!
