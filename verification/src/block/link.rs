//! Blocks that link to another page or database, and the options that
//! choose where such a link leads.

use crate::text::{escape_page_title, escaped_title};
use vstd::prelude::*;
use vstd::string::*;

verus! {

/// Where the link of a child page or child database leads.
#[derive(Debug, Clone, Copy, PartialEq, Eq, Structural)]
pub enum LinkTarget {
    /// A Markdown file beside this one, named after the title.
    MarkdownFile,
    /// The page itself, on the host that the document came from.
    RemoteOrigin,
}

/// What the caller chooses about rendering.
#[derive(Debug, Clone, Copy, PartialEq, Eq, Structural)]
pub struct RenderOptions {
    pub child_page_link_target: LinkTarget,
    pub child_database_link_target: LinkTarget,
}

impl Default for RenderOptions {
    fn default() -> (r: RenderOptions)
        ensures
            r == RenderOptions::markdown_files(),
    {
        RenderOptions {
            child_page_link_target: LinkTarget::MarkdownFile,
            child_database_link_target: LinkTarget::MarkdownFile,
        }
    }
}

impl RenderOptions {
    /// Every link leads to a Markdown file.
    pub open spec fn markdown_files() -> RenderOptions {
        RenderOptions {
            child_page_link_target: LinkTarget::MarkdownFile,
            child_database_link_target: LinkTarget::MarkdownFile,
        }
    }
}

/// The address of a page or database on the host of the documents.
pub open spec fn remote_address(id: Seq<char>) -> Seq<char> {
    "https://www.notion.so/"@ + id
}

/// Builds `remote_address`.
pub fn remote_address_of(id: &str) -> (r: String)
    ensures
        r@ == remote_address(id@),
{
    let mut r = String::from_str("https://www.notion.so/");
    r.append(id);
    r
}

/// What a child page holds: its title.
#[derive(Debug, Clone, PartialEq, Eq)]
pub struct ChildPageContent {
    pub title: String,
}

/// A page below this one.
#[derive(Debug, Clone, PartialEq, Eq)]
pub struct ChildPage {
    pub id: String,
    pub child_page: ChildPageContent,
}

impl ChildPage {
    /// Where the link leads: the file `<escaped title>.md`, or the page on
    /// its host.
    pub open spec fn target(self, to: LinkTarget) -> Seq<char> {
        match to {
            LinkTarget::MarkdownFile => escaped_title(self.child_page.title@) + ".md"@,
            LinkTarget::RemoteOrigin => remote_address(self.id@),
        }
    }

    /// A link that shows the title.
    pub open spec fn markdown(self, to: LinkTarget) -> Seq<char> {
        "[Child Page: "@ + self.child_page.title@ + "]("@ + self.target(to) + ")"@
    }

    /// Renders the link to the page.
    pub fn to_markdown(&self, to: LinkTarget) -> (r: String)
        ensures
            r@ == self.markdown(to),
    {
        let target = match to {
            LinkTarget::MarkdownFile => {
                let mut t = escape_page_title(self.child_page.title.as_str());
                t.append(".md");
                t
            },
            LinkTarget::RemoteOrigin => remote_address_of(self.id.as_str()),
        };
        let mut r = String::from_str("[Child Page: ");
        r.append(self.child_page.title.as_str());
        r.append("](");
        r.append(target.as_str());
        r.append(")");
        r
    }
}

/// What a child database holds: its title.
#[derive(Debug, Clone, PartialEq, Eq)]
pub struct ChildDatabaseContent {
    pub title: String,
}

/// A database below this page.
#[derive(Debug, Clone, PartialEq, Eq)]
pub struct ChildDatabase {
    pub id: String,
    pub child_database: ChildDatabaseContent,
}

impl ChildDatabase {
    /// Where the link leads: the file `<escaped title>/<escaped title>.md`,
    /// or the database on its host.
    pub open spec fn target(self, to: LinkTarget) -> Seq<char> {
        match to {
            LinkTarget::MarkdownFile => escaped_title(self.child_database.title@) + "/"@
                + escaped_title(self.child_database.title@) + ".md"@,
            LinkTarget::RemoteOrigin => remote_address(self.id@),
        }
    }

    /// A link that shows the title.
    pub open spec fn markdown(self, to: LinkTarget) -> Seq<char> {
        "[Database: "@ + self.child_database.title@ + "]("@ + self.target(to) + ")"@
    }

    /// Renders the link to the database.
    pub fn to_markdown(&self, to: LinkTarget) -> (r: String)
        ensures
            r@ == self.markdown(to),
    {
        let target = match to {
            LinkTarget::MarkdownFile => {
                let name = escape_page_title(self.child_database.title.as_str());
                let mut t = name.clone();
                t.append("/");
                t.append(name.as_str());
                t.append(".md");
                t
            },
            LinkTarget::RemoteOrigin => remote_address_of(self.id.as_str()),
        };
        let mut r = String::from_str("[Database: ");
        r.append(self.child_database.title.as_str());
        r.append("](");
        r.append(target.as_str());
        r.append(")");
        r
    }
}

/// What a link to a page points at.
#[derive(Debug, Clone, PartialEq, Eq)]
pub enum LinkToPageContent {
    DatabaseId { database_id: String },
    PageId { page_id: String },
}

/// A link to another page or database, by its identifier.
#[derive(Debug, Clone, PartialEq, Eq)]
pub struct LinkToPage {
    pub link_to_page: LinkToPageContent,
}

impl LinkToPage {
    /// The identifier of what the link points at.
    pub open spec fn id(self) -> Seq<char> {
        match self.link_to_page {
            LinkToPageContent::DatabaseId { database_id } => database_id@,
            LinkToPageContent::PageId { page_id } => page_id@,
        }
    }

    /// The address on the documents' host, as an automatic link.
    pub open spec fn markdown(self) -> Seq<char> {
        "<"@ + remote_address(self.id()) + ">"@
    }

    /// Renders the link.
    pub fn to_markdown(&self) -> (r: String)
        ensures
            r@ == self.markdown(),
    {
        let address = match &self.link_to_page {
            LinkToPageContent::DatabaseId { database_id } => remote_address_of(
                database_id.as_str(),
            ),
            LinkToPageContent::PageId { page_id } => remote_address_of(page_id.as_str()),
        };
        let mut r = String::from_str("<");
        r.append(address.as_str());
        r.append(">");
        r
    }
}

} // verus!
