//! The table of contents: a nested list of links to the headings.

use crate::rich_text::{duplicate_spans, spans_markdown, RichText, RichTextVec};
use crate::text::indent;
use vstd::prelude::*;
use vstd::string::*;

verus! {

/// The level of a heading.
#[derive(Debug, Clone, Copy, PartialEq, Eq, Structural)]
pub enum HeadingLevel {
    One,
    Two,
    Three,
}

/// A heading that the table of contents lists: its level and inline text.
#[derive(Debug, Clone, PartialEq, Eq)]
pub struct Heading {
    pub level: HeadingLevel,
    pub rich_text: Vec<RichText>,
}

/// A heading as a mathematical value.
pub struct HeadingView {
    pub level: HeadingLevel,
    pub rich_text: Seq<RichText>,
}

impl View for Heading {
    type V = HeadingView;

    open spec fn view(&self) -> HeadingView {
        HeadingView { level: self.level, rich_text: self.rich_text@ }
    }
}

/// What a run of headings holds.
pub open spec fn heading_views(headings: Seq<Heading>) -> Seq<HeadingView> {
    Seq::new(headings.len(), |i: int| headings[i]@)
}

impl Heading {
    /// A second heading like this one.
    pub fn duplicate(&self) -> (r: Heading)
        ensures
            r@ == self@,
    {
        Heading { level: self.level, rich_text: duplicate_spans(&self.rich_text) }
    }

    /// How deep the entry is nested: level one is not nested at all.
    pub open spec fn nesting(self) -> nat {
        match self.level {
            HeadingLevel::One => 0,
            HeadingLevel::Two => 1,
            HeadingLevel::Three => 2,
        }
    }

    /// The rendered text of the heading, without the `#`.
    pub open spec fn text(self) -> Seq<char> {
        spans_markdown(self.rich_text@)
    }

    /// A bullet, nested by the heading's level, with a link whose label and
    /// whose anchor are the heading's text.
    pub open spec fn entry(self) -> Seq<char> {
        indent(self.nesting()) + "- ["@ + self.text() + "](#"@ + self.text() + ")"@
    }

    /// Renders the entry of the heading.
    pub fn to_entry(&self) -> (r: String)
        ensures
            r@ == self.entry(),
    {
        let mut r = String::new();
        match self.level {
            HeadingLevel::One => {},
            HeadingLevel::Two => {
                r.append("  ");
            },
            HeadingLevel::Three => {
                r.append("    ");
            },
        }
        proof {
            reveal_strlit("  ");
            reveal_strlit("    ");
            assert(r@ =~= indent(self.nesting()));
        }
        let text = self.rich_text.to_markdown();
        r.append("- [");
        r.append(text.as_str());
        r.append("](#");
        r.append(text.as_str());
        r.append(")");
        r
    }
}

/// The entries of the first `n` headings, one on each line.
pub open spec fn entries(headings: Seq<Heading>, n: nat) -> Seq<char>
    decreases n,
{
    if n == 0 || n > headings.len() {
        Seq::empty()
    } else if n == 1 {
        headings[0].entry()
    } else {
        entries(headings, (n - 1) as nat) + "\n"@ + headings[n - 1].entry()
    }
}

/// A table of contents: it lists the headings that it holds.
#[derive(Debug, Clone, PartialEq, Eq)]
pub struct TableOfContents {
    pub headings: Vec<Heading>,
}

impl TableOfContents {
    /// One entry for each heading, in their order.
    pub open spec fn markdown(self) -> Seq<char> {
        entries(self.headings@, self.headings@.len())
    }

    /// Renders the table of contents.
    pub fn to_markdown(&self) -> (r: String)
        ensures
            r@ == self.markdown(),
    {
        let mut r = String::new();
        let mut i: usize = 0;
        while i < self.headings.len()
            invariant
                i <= self.headings.len(),
                r@ == entries(self.headings@, i as nat),
            decreases self.headings.len() - i,
        {
            if i > 0 {
                r.append("\n");
            }
            r.append(self.headings[i].to_entry().as_str());
            assert(r@ =~= entries(self.headings@, (i + 1) as nat));
            i = i + 1;
        }
        r
    }
}

/// A second run of headings like `headings`.
pub fn duplicate_headings(headings: &Vec<Heading>) -> (r: Vec<Heading>)
    ensures
        heading_views(r@) == heading_views(headings@),
{
    let mut r: Vec<Heading> = Vec::new();
    let mut i: usize = 0;
    while i < headings.len()
        invariant
            i <= headings.len(),
            r@.len() == i,
            forall|k: int| 0 <= k < i ==> (#[trigger] r@[k])@ == headings@[k]@,
        decreases headings.len() - i,
    {
        r.push(headings[i].duplicate());
        i = i + 1;
    }
    assert(heading_views(r@) =~= heading_views(headings@));
    r
}

/// The text of a table of contents is a matter of what its headings hold.
pub proof fn lemma_entries_of_like_headings(a: Seq<Heading>, b: Seq<Heading>, n: nat)
    requires
        heading_views(a) == heading_views(b),
    ensures
        entries(a, n) == entries(b, n),
    decreases n,
{
    assert(a.len() == heading_views(a).len());
    assert(b.len() == heading_views(b).len());
    if n > 0 && n <= a.len() {
        lemma_entries_of_like_headings(a, b, (n - 1) as nat);
        assert(a[n - 1]@ == heading_views(a)[n - 1]);
        assert(b[n - 1]@ == heading_views(b)[n - 1]);
    }
}

} // verus!
