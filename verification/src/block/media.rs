//! Blocks that point at a resource by its URL.

use vstd::prelude::*;
use vstd::string::*;

verus! {

/// The address of a file.
#[derive(Debug, Clone, PartialEq, Eq)]
pub struct FileUrl {
    pub url: String,
}

/// `[label: url](url)`.
pub open spec fn labelled_link(label: Seq<char>, url: Seq<char>) -> Seq<char> {
    "["@ + label + ": "@ + url + "]("@ + url + ")"@
}

/// Builds `labelled_link`.
pub fn labelled_link_to(label: &str, url: &str) -> (r: String)
    ensures
        r@ == labelled_link(label@, url@),
{
    let mut r = String::from_str("[");
    r.append(label);
    r.append(": ");
    r.append(url);
    r.append("](");
    r.append(url);
    r.append(")");
    r
}

/// What an image holds: its file.
#[derive(Debug, Clone, PartialEq, Eq)]
pub struct ImageContent {
    pub file: FileUrl,
}

/// An image.
#[derive(Debug, Clone, PartialEq, Eq)]
pub struct Image {
    pub image: ImageContent,
}

impl Image {
    /// An image whose alternative text is its URL.
    pub open spec fn markdown(self) -> Seq<char> {
        "!["@ + self.image.file.url@ + "]("@ + self.image.file.url@ + ")"@
    }

    /// Renders the image.
    pub fn to_markdown(&self) -> (r: String)
        ensures
            r@ == self.markdown(),
    {
        let mut r = String::from_str("![");
        r.append(self.image.file.url.as_str());
        r.append("](");
        r.append(self.image.file.url.as_str());
        r.append(")");
        r
    }
}

/// What a file block holds: the file and its name.
#[derive(Debug, Clone, PartialEq, Eq)]
pub struct FileContent {
    pub file: FileUrl,
    pub name: String,
}

/// A file to download.
#[derive(Debug, Clone, PartialEq, Eq)]
pub struct File {
    pub file: FileContent,
}

impl File {
    /// A link to the file, with the file's name as its text.
    pub open spec fn markdown(self) -> Seq<char> {
        "["@ + self.file.name@ + "]("@ + self.file.file.url@ + ")"@
    }

    /// Renders the link to the file.
    pub fn to_markdown(&self) -> (r: String)
        ensures
            r@ == self.markdown(),
    {
        let mut r = String::from_str("[");
        r.append(self.file.name.as_str());
        r.append("](");
        r.append(self.file.file.url.as_str());
        r.append(")");
        r
    }
}

/// What a video holds: its file.
#[derive(Debug, Clone, PartialEq, Eq)]
pub struct VideoContent {
    pub file: FileUrl,
}

/// A video.
#[derive(Debug, Clone, PartialEq, Eq)]
pub struct Video {
    pub video: VideoContent,
}

impl Video {
    /// A link to the video, labelled `Video`.
    pub open spec fn markdown(self) -> Seq<char> {
        labelled_link("Video"@, self.video.file.url@)
    }

    /// Renders the link to the video.
    pub fn to_markdown(&self) -> (r: String)
        ensures
            r@ == self.markdown(),
    {
        labelled_link_to("Video", self.video.file.url.as_str())
    }
}

/// What a PDF block holds: its file.
#[derive(Debug, Clone, PartialEq, Eq)]
pub struct PdfContent {
    pub file: FileUrl,
}

/// A PDF document.
#[derive(Debug, Clone, PartialEq, Eq)]
pub struct Pdf {
    pub pdf: PdfContent,
}

impl Pdf {
    /// A link to the document, labelled `Pdf`.
    pub open spec fn markdown(self) -> Seq<char> {
        labelled_link("Pdf"@, self.pdf.file.url@)
    }

    /// Renders the link to the document.
    pub fn to_markdown(&self) -> (r: String)
        ensures
            r@ == self.markdown(),
    {
        labelled_link_to("Pdf", self.pdf.file.url.as_str())
    }
}

/// What an embed holds: the address of what is embedded.
#[derive(Debug, Clone, PartialEq, Eq)]
pub struct EmbedContent {
    pub url: String,
}

/// Something from elsewhere, shown in the page.
#[derive(Debug, Clone, PartialEq, Eq)]
pub struct Embed {
    pub embed: EmbedContent,
}

impl Embed {
    /// A link to what is embedded, labelled `Embed`.
    pub open spec fn markdown(self) -> Seq<char> {
        labelled_link("Embed"@, self.embed.url@)
    }

    /// Renders the link to what is embedded.
    pub fn to_markdown(&self) -> (r: String)
        ensures
            r@ == self.markdown(),
    {
        labelled_link_to("Embed", self.embed.url.as_str())
    }
}

/// What a bookmark holds: its address.
#[derive(Debug, Clone, PartialEq, Eq)]
pub struct BookmarkContent {
    pub url: String,
}

/// A bookmark.
#[derive(Debug, Clone, PartialEq, Eq)]
pub struct Bookmark {
    pub bookmark: BookmarkContent,
}

impl Bookmark {
    /// A link to the address, labelled `Bookmark`.
    pub open spec fn markdown(self) -> Seq<char> {
        labelled_link("Bookmark"@, self.bookmark.url@)
    }

    /// Renders the bookmark.
    pub fn to_markdown(&self) -> (r: String)
        ensures
            r@ == self.markdown(),
    {
        labelled_link_to("Bookmark", self.bookmark.url.as_str())
    }
}

/// What a link preview holds: its address.
#[derive(Debug, Clone, PartialEq, Eq)]
pub struct LinkPreviewContent {
    pub url: String,
}

/// The preview of a link.
#[derive(Debug, Clone, PartialEq, Eq)]
pub struct LinkPreview {
    pub link_preview: LinkPreviewContent,
}

impl LinkPreview {
    /// A link to the address, labelled `Preview`.
    pub open spec fn markdown(self) -> Seq<char> {
        labelled_link("Preview"@, self.link_preview.url@)
    }

    /// Renders the link preview.
    pub fn to_markdown(&self) -> (r: String)
        ensures
            r@ == self.markdown(),
    {
        labelled_link_to("Preview", self.link_preview.url.as_str())
    }
}

} // verus!
