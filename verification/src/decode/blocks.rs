//! Reads blocks from JSON.

use crate::assembler::{BlockChildrenResponse, ListedBlock};
use crate::block::inline::{
    Callout, CalloutContent, Code, CodeContent, Equation, EquationContent, Heading1, Heading2,
    Heading3, IconContent, Paragraph, Quote,
};
use crate::block::layout::{
    Breadcrumb, Column, ColumnList, Divider, SyncedBlock, Template, Toggle,
};
use crate::block::link::{
    ChildDatabase, ChildDatabaseContent, ChildPage, ChildPageContent, LinkToPage,
    LinkToPageContent,
};
use crate::block::list::{BulletedListItem, NumberedListItem, ToDo, ToDoContent};
use crate::block::media::{
    Bookmark, BookmarkContent, Embed, EmbedContent, File, FileContent, FileUrl, Image,
    ImageContent, LinkPreview, LinkPreviewContent, Pdf, PdfContent, Video, VideoContent,
};
use crate::block::table::{Table, TableContent, TableRow, TableRowContent};
use crate::block::table_of_contents::TableOfContents;
use crate::block::{Block, BlockContent, BlockMeta};
use crate::decode::{
    decode_flag, decode_optional_text, decode_spans, flag_decoded, optional_text_decoded,
    spans_decoded,
};
use crate::json::{json_of_text, lemma_views, parse_json, views, Json, JsonView};
use crate::rich_text::RichText;
use crate::text::{chars_of, decimal_value, optional_text, parse_decimal};
use vstd::prelude::*;
use vstd::string::*;

verus! {

/// The kinds of block, without what a block of the kind holds.
#[derive(Debug, Clone, Copy, PartialEq, Eq, Structural)]
pub enum BlockKind {
    NumberedListItem,
    BulletedListItem,
    Paragraph,
    Pdf,
    Quote,
    Code,
    Heading1,
    Heading2,
    Heading3,
    Image,
    Divider,
    File,
    ToDo,
    Bookmark,
    Callout,
    ChildPage,
    Equation,
    Table,
    TableRow,
    Embed,
    LinkPreview,
    ChildDatabase,
    Video,
    Toggle,
    SyncedBlock,
    ColumnList,
    Column,
    LinkToPage,
    Breadcrumb,
    TableOfContents,
    Template,
    Unsupported,
    Unexpected,
}

/// The kind that the `type` of a block names. A name that is not known
/// names the kind `Unexpected`.
pub open spec fn kind_named(tag: Seq<char>) -> BlockKind {
    if tag == "numbered_list_item"@ {
        BlockKind::NumberedListItem
    } else if tag == "bulleted_list_item"@ {
        BlockKind::BulletedListItem
    } else if tag == "paragraph"@ {
        BlockKind::Paragraph
    } else if tag == "pdf"@ {
        BlockKind::Pdf
    } else if tag == "quote"@ {
        BlockKind::Quote
    } else if tag == "code"@ {
        BlockKind::Code
    } else if tag == "heading_1"@ {
        BlockKind::Heading1
    } else if tag == "heading_2"@ {
        BlockKind::Heading2
    } else if tag == "heading_3"@ {
        BlockKind::Heading3
    } else if tag == "image"@ {
        BlockKind::Image
    } else if tag == "divider"@ {
        BlockKind::Divider
    } else if tag == "file"@ {
        BlockKind::File
    } else if tag == "to_do"@ {
        BlockKind::ToDo
    } else if tag == "bookmark"@ {
        BlockKind::Bookmark
    } else if tag == "callout"@ {
        BlockKind::Callout
    } else if tag == "child_page"@ {
        BlockKind::ChildPage
    } else if tag == "equation"@ {
        BlockKind::Equation
    } else if tag == "table"@ {
        BlockKind::Table
    } else if tag == "table_row"@ {
        BlockKind::TableRow
    } else if tag == "embed"@ {
        BlockKind::Embed
    } else if tag == "link_preview"@ {
        BlockKind::LinkPreview
    } else if tag == "child_database"@ {
        BlockKind::ChildDatabase
    } else if tag == "video"@ {
        BlockKind::Video
    } else if tag == "toggle"@ {
        BlockKind::Toggle
    } else if tag == "synced_block"@ {
        BlockKind::SyncedBlock
    } else if tag == "column_list"@ {
        BlockKind::ColumnList
    } else if tag == "column"@ {
        BlockKind::Column
    } else if tag == "link_to_page"@ {
        BlockKind::LinkToPage
    } else if tag == "breadcrumb"@ {
        BlockKind::Breadcrumb
    } else if tag == "table_of_contents"@ {
        BlockKind::TableOfContents
    } else if tag == "template"@ {
        BlockKind::Template
    } else if tag == "unsupported"@ {
        BlockKind::Unsupported
    } else {
        BlockKind::Unexpected
    }
}

fn same_text(chars: &Vec<char>, literal: &str) -> (r: bool)
    ensures
        r == (chars@ == literal@),
{
    let other = chars_of(literal);
    if chars.len() != other.len() {
        return false;
    }
    let mut i: usize = 0;
    while i < chars.len()
        invariant
            i <= chars.len() == other.len(),
            other@ == literal@,
            forall|k: int| 0 <= k < i ==> chars@[k] == other@[k],
        decreases chars.len() - i,
    {
        if chars[i] != other[i] {
            return false;
        }
        i = i + 1;
    }
    assert(chars@ =~= literal@);
    true
}

/// Finds the kind that a `type` names: see `kind_named`.
pub fn block_kind(tag: &str) -> (kind: BlockKind)
    ensures
        kind == kind_named(tag@),
{
    let chars = chars_of(tag);
    if same_text(&chars, "numbered_list_item") {
        BlockKind::NumberedListItem
    } else if same_text(&chars, "bulleted_list_item") {
        BlockKind::BulletedListItem
    } else if same_text(&chars, "paragraph") {
        BlockKind::Paragraph
    } else if same_text(&chars, "pdf") {
        BlockKind::Pdf
    } else if same_text(&chars, "quote") {
        BlockKind::Quote
    } else if same_text(&chars, "code") {
        BlockKind::Code
    } else if same_text(&chars, "heading_1") {
        BlockKind::Heading1
    } else if same_text(&chars, "heading_2") {
        BlockKind::Heading2
    } else if same_text(&chars, "heading_3") {
        BlockKind::Heading3
    } else if same_text(&chars, "image") {
        BlockKind::Image
    } else if same_text(&chars, "divider") {
        BlockKind::Divider
    } else if same_text(&chars, "file") {
        BlockKind::File
    } else if same_text(&chars, "to_do") {
        BlockKind::ToDo
    } else if same_text(&chars, "bookmark") {
        BlockKind::Bookmark
    } else if same_text(&chars, "callout") {
        BlockKind::Callout
    } else if same_text(&chars, "child_page") {
        BlockKind::ChildPage
    } else if same_text(&chars, "equation") {
        BlockKind::Equation
    } else if same_text(&chars, "table") {
        BlockKind::Table
    } else if same_text(&chars, "table_row") {
        BlockKind::TableRow
    } else if same_text(&chars, "embed") {
        BlockKind::Embed
    } else if same_text(&chars, "link_preview") {
        BlockKind::LinkPreview
    } else if same_text(&chars, "child_database") {
        BlockKind::ChildDatabase
    } else if same_text(&chars, "video") {
        BlockKind::Video
    } else if same_text(&chars, "toggle") {
        BlockKind::Toggle
    } else if same_text(&chars, "synced_block") {
        BlockKind::SyncedBlock
    } else if same_text(&chars, "column_list") {
        BlockKind::ColumnList
    } else if same_text(&chars, "column") {
        BlockKind::Column
    } else if same_text(&chars, "link_to_page") {
        BlockKind::LinkToPage
    } else if same_text(&chars, "breadcrumb") {
        BlockKind::Breadcrumb
    } else if same_text(&chars, "table_of_contents") {
        BlockKind::TableOfContents
    } else if same_text(&chars, "template") {
        BlockKind::Template
    } else if same_text(&chars, "unsupported") {
        BlockKind::Unsupported
    } else {
        BlockKind::Unexpected
    }
}

/// A block as it comes from the listing: without children, and at no place
/// yet.
pub open spec fn fresh(children: Seq<Block>, meta: BlockMeta) -> bool {
    children.len() == 0 && meta == BlockMeta::first_at_top()
}

/// `spans` is the inline text that the block `j` holds under `key`.
pub open spec fn rich_text_decoded(j: JsonView, key: Seq<char>, spans: Seq<RichText>) -> bool {
    &&& j.get(key) matches Some(payload)
    &&& payload.get("rich_text"@) matches Some(array)
    &&& spans_decoded(array, spans)
}

/// `text` is the string `field` of what the block `j` holds under `key`.
pub open spec fn text_decoded(j: JsonView, key: Seq<char>, field: Seq<char>, text: Seq<char>) -> bool {
    &&& j.get(key) matches Some(payload)
    &&& payload.text_at(field) == Some(text)
}

/// `value` is the flag `field` of what the block `j` holds under `key`;
/// a flag that is not given is `false`.
pub open spec fn payload_flag_decoded(j: JsonView, key: Seq<char>, field: Seq<char>, value: bool) -> bool {
    &&& j.get(key) matches Some(payload)
    &&& flag_decoded(payload, field, value)
}

/// `url` is the address of the file of what the block `j` holds under `key`.
pub open spec fn file_url_decoded(j: JsonView, key: Seq<char>, url: Seq<char>) -> bool {
    &&& j.get(key) matches Some(payload)
    &&& payload.get("file"@) matches Some(file)
    &&& file.text_at("url"@) == Some(url)
}

/// The identifier of the block `j`; empty where none is given.
pub open spec fn id_of(j: JsonView) -> Seq<char> {
    match j.text_at("id"@) {
        Some(id) => id,
        None => Seq::empty(),
    }
}

/// The emoji of the icon of the callout `j`; empty where none is given.
pub open spec fn emoji_of(j: JsonView) -> Seq<char> {
    match j.get("callout"@) {
        Some(payload) => match payload.get("icon"@) {
            Some(icon) => match icon.text_at("emoji"@) {
                Some(emoji) => emoji,
                None => Seq::empty(),
            },
            None => Seq::empty(),
        },
        None => Seq::empty(),
    }
}

/// `target` is what the link of the block `j` points at: a page or a
/// database, as the `type` of the link says.
pub open spec fn link_target_decoded(j: JsonView, target: LinkToPageContent) -> bool {
    &&& j.get("link_to_page"@) matches Some(payload)
    &&& match target {
        LinkToPageContent::PageId { page_id } => {
            &&& payload.text_at("type"@) == Some("page_id"@)
            &&& payload.text_at("page_id"@) == Some(page_id@)
        },
        LinkToPageContent::DatabaseId { database_id } => {
            &&& payload.text_at("type"@) == Some("database_id"@)
            &&& payload.text_at("database_id"@) == Some(database_id@)
        },
    }
}

/// `width` is the number of columns that the table `j` gives.
pub open spec fn width_decoded(j: JsonView, width: usize) -> bool {
    &&& j.get("table"@) matches Some(payload)
    &&& payload.get("table_width"@) matches Some(JsonView::Number(digits))
    &&& decimal_value(digits) == Some(width as nat)
}

/// `cells` are the cells that the table row `j` gives, each a run of spans.
pub open spec fn cells_decoded(j: JsonView, cells: Seq<Vec<RichText>>) -> bool {
    &&& j.get("table_row"@) matches Some(payload)
    &&& payload.get("cells"@) matches Some(JsonView::Array(items))
    &&& items.len() == cells.len()
    &&& forall|i: int| 0 <= i < items.len() ==> spans_decoded(items[i], (#[trigger] cells[i])@)
}

impl Block {
    /// The kind of the block.
    pub open spec fn kind(self) -> BlockKind {
        match self {
            Block::NumberedListItem(_) => BlockKind::NumberedListItem,
            Block::BulletedListItem(_) => BlockKind::BulletedListItem,
            Block::Paragraph(_) => BlockKind::Paragraph,
            Block::Pdf(_) => BlockKind::Pdf,
            Block::Quote(_) => BlockKind::Quote,
            Block::Code(_) => BlockKind::Code,
            Block::Heading1(_) => BlockKind::Heading1,
            Block::Heading2(_) => BlockKind::Heading2,
            Block::Heading3(_) => BlockKind::Heading3,
            Block::Image(_) => BlockKind::Image,
            Block::Divider(_) => BlockKind::Divider,
            Block::File(_) => BlockKind::File,
            Block::ToDo(_) => BlockKind::ToDo,
            Block::Bookmark(_) => BlockKind::Bookmark,
            Block::Callout(_) => BlockKind::Callout,
            Block::ChildPage(_) => BlockKind::ChildPage,
            Block::Equation(_) => BlockKind::Equation,
            Block::Table(_) => BlockKind::Table,
            Block::TableRow(_) => BlockKind::TableRow,
            Block::Embed(_) => BlockKind::Embed,
            Block::LinkPreview(_) => BlockKind::LinkPreview,
            Block::ChildDatabase(_) => BlockKind::ChildDatabase,
            Block::Video(_) => BlockKind::Video,
            Block::Toggle(_) => BlockKind::Toggle,
            Block::SyncedBlock(_) => BlockKind::SyncedBlock,
            Block::ColumnList(_) => BlockKind::ColumnList,
            Block::Column(_) => BlockKind::Column,
            Block::LinkToPage(_) => BlockKind::LinkToPage,
            Block::Breadcrumb(_) => BlockKind::Breadcrumb,
            Block::TableOfContents(_) => BlockKind::TableOfContents,
            Block::Template(_) => BlockKind::Template,
            Block::Unsupported => BlockKind::Unsupported,
            Block::Unexpected => BlockKind::Unexpected,
        }
    }
}

/// `b` holds what the object `j` gives for a block of its kind.
pub open spec fn payload_decoded(j: JsonView, b: Block) -> bool {
    match b {
        Block::Paragraph(p) => rich_text_decoded(j, "paragraph"@, p.paragraph.rich_text@) && fresh(
            p.children@,
            p.meta,
        ),
        Block::Heading1(h) => rich_text_decoded(j, "heading_1"@, h.heading_1.rich_text@) && fresh(
            h.children@,
            h.meta,
        ),
        Block::Heading2(h) => rich_text_decoded(j, "heading_2"@, h.heading_2.rich_text@) && fresh(
            h.children@,
            h.meta,
        ),
        Block::Heading3(h) => rich_text_decoded(j, "heading_3"@, h.heading_3.rich_text@) && fresh(
            h.children@,
            h.meta,
        ),
        Block::Quote(q) => rich_text_decoded(j, "quote"@, q.quote.rich_text@) && fresh(
            q.children@,
            q.meta,
        ),
        Block::Toggle(t) => rich_text_decoded(j, "toggle"@, t.toggle.rich_text@) && fresh(
            t.children@,
            t.meta,
        ),
        Block::BulletedListItem(i) => rich_text_decoded(
            j,
            "bulleted_list_item"@,
            i.bulleted_list_item.rich_text@,
        ) && fresh(i.children@, i.meta),
        Block::NumberedListItem(i) => rich_text_decoded(
            j,
            "numbered_list_item"@,
            i.numbered_list_item.rich_text@,
        ) && fresh(i.children@, i.meta),
        Block::ToDo(t) => {
            &&& rich_text_decoded(j, "to_do"@, t.to_do.rich_text@)
            &&& payload_flag_decoded(j, "to_do"@, "checked"@, t.to_do.checked)
            &&& fresh(t.children@, t.meta)
        },
        Block::Callout(c) => {
            &&& rich_text_decoded(j, "callout"@, c.callout.rich_text@)
            &&& c.callout.icon.emoji@ == emoji_of(j)
            &&& fresh(c.children@, c.meta)
        },
        Block::Code(c) => {
            &&& rich_text_decoded(j, "code"@, c.code.rich_text@)
            &&& text_decoded(j, "code"@, "language"@, c.code.language@)
        },
        Block::Equation(e) => text_decoded(j, "equation"@, "expression"@, e.equation.expression@),
        Block::Image(i) => file_url_decoded(j, "image"@, i.image.file.url@),
        Block::Video(v) => file_url_decoded(j, "video"@, v.video.file.url@),
        Block::Pdf(p) => file_url_decoded(j, "pdf"@, p.pdf.file.url@),
        Block::File(f) => {
            &&& file_url_decoded(j, "file"@, f.file.file.url@)
            &&& text_decoded(j, "file"@, "name"@, f.file.name@)
        },
        Block::Bookmark(b) => text_decoded(j, "bookmark"@, "url"@, b.bookmark.url@),
        Block::Embed(e) => text_decoded(j, "embed"@, "url"@, e.embed.url@),
        Block::LinkPreview(l) => text_decoded(j, "link_preview"@, "url"@, l.link_preview.url@),
        Block::ChildPage(c) => {
            &&& text_decoded(j, "child_page"@, "title"@, c.child_page.title@)
            &&& c.id@ == id_of(j)
        },
        Block::ChildDatabase(c) => {
            &&& text_decoded(j, "child_database"@, "title"@, c.child_database.title@)
            &&& c.id@ == id_of(j)
        },
        Block::LinkToPage(l) => link_target_decoded(j, l.link_to_page),
        Block::Table(t) => width_decoded(j, t.table.table_width) && fresh(t.children@, t.meta),
        Block::TableRow(r) => cells_decoded(j, r.table_row.cells@),
        Block::TableOfContents(t) => t.headings@.len() == 0,
        Block::SyncedBlock(s) => fresh(s.children@, s.meta),
        Block::ColumnList(c) => fresh(c.children@, c.meta),
        Block::Column(c) => fresh(c.children@, c.meta),
        Block::Divider(_) => true,
        Block::Breadcrumb(_) => true,
        Block::Template(_) => true,
        Block::Unsupported => true,
        Block::Unexpected => true,
    }
}

/// `b` is the block that the object `j` describes: of the kind that the
/// `type` of `j` names, and holding what `j` gives for that kind. A `type`
/// that is not known describes the placeholder `Unexpected`, whatever else
/// the object holds.
pub open spec fn block_decoded(j: JsonView, b: Block) -> bool {
    &&& j.text_at("type"@) matches Some(tag)
    &&& b.kind() == kind_named(tag)
    &&& payload_decoded(j, b)
}

/// Reads the inline text of a block: see `rich_text_decoded`.
pub fn decode_rich_text(j: &Json, key: &str) -> (r: Option<Vec<RichText>>)
    ensures
        match r {
            Some(spans) => rich_text_decoded(j@, key@, spans@),
            None => forall|spans: Seq<RichText>| !rich_text_decoded(j@, key@, spans),
        },
{
    match j.get(key) {
        Some(payload) => match payload.get("rich_text") {
            Some(array) => decode_spans(array),
            None => None,
        },
        None => None,
    }
}

/// Reads a string of a block: see `text_decoded`.
pub fn decode_text(j: &Json, key: &str, field: &str) -> (r: Option<String>)
    ensures
        match r {
            Some(text) => text_decoded(j@, key@, field@, text@),
            None => forall|text: Seq<char>| !text_decoded(j@, key@, field@, text),
        },
{
    match j.get(key) {
        Some(payload) => match payload.text_at(field) {
            Some(text) => Some(text.clone()),
            None => None,
        },
        None => None,
    }
}

/// Reads a flag of a block: see `payload_flag_decoded`.
pub fn decode_payload_flag(j: &Json, key: &str, field: &str) -> (r: Option<bool>)
    ensures
        match r {
            Some(value) => payload_flag_decoded(j@, key@, field@, value),
            None => forall|value: bool| !payload_flag_decoded(j@, key@, field@, value),
        },
{
    match j.get(key) {
        Some(payload) => decode_flag(payload, field),
        None => None,
    }
}

/// Reads the address of the file of a block: see `file_url_decoded`.
pub fn decode_file_url(j: &Json, key: &str) -> (r: Option<FileUrl>)
    ensures
        match r {
            Some(file) => file_url_decoded(j@, key@, file.url@),
            None => forall|url: Seq<char>| !file_url_decoded(j@, key@, url),
        },
{
    match j.get(key) {
        Some(payload) => match payload.get("file") {
            Some(file) => match file.text_at("url") {
                Some(url) => Some(FileUrl { url: url.clone() }),
                None => None,
            },
            None => None,
        },
        None => None,
    }
}

/// Reads the identifier of a block: see `id_of`.
pub fn decode_id(j: &Json) -> (id: String)
    ensures
        id@ == id_of(j@),
{
    match j.text_at("id") {
        Some(id) => id.clone(),
        None => String::new(),
    }
}

/// Reads the emoji of a callout: see `emoji_of`.
pub fn decode_emoji(j: &Json) -> (emoji: String)
    ensures
        emoji@ == emoji_of(j@),
{
    match j.get("callout") {
        Some(payload) => match payload.get("icon") {
            Some(icon) => match icon.text_at("emoji") {
                Some(emoji) => emoji.clone(),
                None => String::new(),
            },
            None => String::new(),
        },
        None => String::new(),
    }
}

/// Reads what a link to a page points at: see `link_target_decoded`.
pub fn decode_link_target(j: &Json) -> (r: Option<LinkToPageContent>)
    ensures
        match r {
            Some(target) => link_target_decoded(j@, target),
            None => forall|target: LinkToPageContent| !link_target_decoded(j@, target),
        },
{
    proof {
        reveal_strlit("page_id");
        reveal_strlit("database_id");
        assert("page_id"@.len() == 7 && "database_id"@.len() == 11);
        assert("page_id"@ != "database_id"@);
    }
    let payload = match j.get("link_to_page") {
        Some(payload) => payload,
        None => {
            return None;
        },
    };
    let kind = match payload.text_at("type") {
        Some(kind) => kind,
        None => {
            return None;
        },
    };
    if crate::text::text_eq(kind.as_str(), "page_id") {
        match payload.text_at("page_id") {
            Some(page_id) => Some(LinkToPageContent::PageId { page_id: page_id.clone() }),
            None => None,
        }
    } else if crate::text::text_eq(kind.as_str(), "database_id") {
        match payload.text_at("database_id") {
            Some(database_id) => Some(
                LinkToPageContent::DatabaseId { database_id: database_id.clone() },
            ),
            None => None,
        }
    } else {
        None
    }
}

/// Reads the width of a table: see `width_decoded`. A width that no
/// `usize` holds is taken as not given.
pub fn decode_width(j: &Json) -> (r: Option<usize>)
    ensures
        match r {
            Some(width) => width_decoded(j@, width),
            None => forall|width: usize| !width_decoded(j@, width),
        },
{
    match j.get("table") {
        Some(payload) => match payload.get("table_width") {
            Some(Json::Number(digits)) => parse_decimal(digits.as_str()),
            _ => None,
        },
        None => None,
    }
}

/// Reads the cells of a table row: see `cells_decoded`.
pub fn decode_cells(j: &Json) -> (r: Option<Vec<Vec<RichText>>>)
    ensures
        match r {
            Some(cells) => cells_decoded(j@, cells@),
            None => forall|cells: Seq<Vec<RichText>>| !cells_decoded(j@, cells),
        },
{
    let payload = match j.get("table_row") {
        Some(payload) => payload,
        None => {
            return None;
        },
    };
    let array = match payload.get("cells") {
        Some(array) => array,
        None => {
            return None;
        },
    };
    let items = match array.as_items() {
        Some(items) => items,
        None => {
            return None;
        },
    };
    proof {
        lemma_views(items@);
    }
    let mut cells: Vec<Vec<RichText>> = Vec::new();
    let mut i: usize = 0;
    while i < items.len()
        invariant
            i <= items.len(),
            j@.get("table_row"@) == Some(payload@),
            payload@.get("cells"@) == Some(array@),
            array@ == JsonView::Array(views(items@)),
            views(items@).len() == items.len(),
            forall|k: int| 0 <= k < items.len() ==> views(items@)[k] == items@[k]@,
            cells@.len() == i,
            forall|k: int| 0 <= k < i ==> spans_decoded(items@[k]@, (#[trigger] cells@[k])@),
        decreases items.len() - i,
    {
        match decode_spans(&items[i]) {
            Some(spans) => cells.push(spans),
            None => {
                assert forall|other: Seq<Vec<RichText>>| !cells_decoded(j@, other) by {
                    if cells_decoded(j@, other) {
                        assert(spans_decoded(views(items@)[i as int], other[i as int]@));
                    }
                }
                return None;
            },
        }
        i = i + 1;
    }
    Some(cells)
}

fn content_of(rich_text: Vec<RichText>) -> (content: BlockContent)
    ensures
        content.rich_text == rich_text,
{
    BlockContent { rich_text }
}

impl Block {
    /// Reads a block from the object that describes it: see `block_decoded`.
    /// `None` where the object describes no block: it names no `type`, or
    /// lacks something that a block of that type holds.
    pub fn from_json(j: &Json) -> (r: Option<Block>)
        ensures
            match r {
                Some(b) => block_decoded(j@, b),
                None => forall|b: Block| !block_decoded(j@, b),
            },
    {
        let tag = match j.text_at("type") {
            Some(tag) => tag,
            None => {
                return None;
            },
        };
        let kind = block_kind(tag.as_str());
        let meta = BlockMeta::default();
        match kind {
            BlockKind::Paragraph => match decode_rich_text(j, "paragraph") {
                Some(spans) => Some(
                    Block::Paragraph(
                        Paragraph { paragraph: content_of(spans), children: Vec::new(), meta },
                    ),
                ),
                None => None,
            },
            BlockKind::Heading1 => match decode_rich_text(j, "heading_1") {
                Some(spans) => Some(
                    Block::Heading1(
                        Heading1 { heading_1: content_of(spans), children: Vec::new(), meta },
                    ),
                ),
                None => None,
            },
            BlockKind::Heading2 => match decode_rich_text(j, "heading_2") {
                Some(spans) => Some(
                    Block::Heading2(
                        Heading2 { heading_2: content_of(spans), children: Vec::new(), meta },
                    ),
                ),
                None => None,
            },
            BlockKind::Heading3 => match decode_rich_text(j, "heading_3") {
                Some(spans) => Some(
                    Block::Heading3(
                        Heading3 { heading_3: content_of(spans), children: Vec::new(), meta },
                    ),
                ),
                None => None,
            },
            BlockKind::Quote => match decode_rich_text(j, "quote") {
                Some(spans) => Some(
                    Block::Quote(Quote { quote: content_of(spans), children: Vec::new(), meta }),
                ),
                None => None,
            },
            BlockKind::Toggle => match decode_rich_text(j, "toggle") {
                Some(spans) => Some(
                    Block::Toggle(Toggle { toggle: content_of(spans), children: Vec::new(), meta }),
                ),
                None => None,
            },
            BlockKind::BulletedListItem => match decode_rich_text(j, "bulleted_list_item") {
                Some(spans) => Some(
                    Block::BulletedListItem(
                        BulletedListItem {
                            bulleted_list_item: content_of(spans),
                            children: Vec::new(),
                            meta,
                        },
                    ),
                ),
                None => None,
            },
            BlockKind::NumberedListItem => match decode_rich_text(j, "numbered_list_item") {
                Some(spans) => Some(
                    Block::NumberedListItem(
                        NumberedListItem {
                            numbered_list_item: content_of(spans),
                            children: Vec::new(),
                            meta,
                        },
                    ),
                ),
                None => None,
            },
            BlockKind::ToDo => match (
                decode_rich_text(j, "to_do"),
                decode_payload_flag(j, "to_do", "checked"),
            ) {
                (Some(rich_text), Some(checked)) => Some(
                    Block::ToDo(
                        ToDo { to_do: ToDoContent { rich_text, checked }, children: Vec::new(), meta },
                    ),
                ),
                _ => None,
            },
            BlockKind::Callout => match decode_rich_text(j, "callout") {
                Some(rich_text) => Some(
                    Block::Callout(
                        Callout {
                            callout: CalloutContent {
                                icon: IconContent { emoji: decode_emoji(j) },
                                rich_text,
                            },
                            children: Vec::new(),
                            meta,
                        },
                    ),
                ),
                None => None,
            },
            BlockKind::Code => match (
                decode_rich_text(j, "code"),
                decode_text(j, "code", "language"),
            ) {
                (Some(rich_text), Some(language)) => Some(
                    Block::Code(Code { code: CodeContent { rich_text, language } }),
                ),
                _ => None,
            },
            BlockKind::Equation => match decode_text(j, "equation", "expression") {
                Some(expression) => Some(
                    Block::Equation(Equation { equation: EquationContent { expression } }),
                ),
                None => None,
            },
            BlockKind::Image => match decode_file_url(j, "image") {
                Some(file) => Some(Block::Image(Image { image: ImageContent { file } })),
                None => None,
            },
            BlockKind::Video => match decode_file_url(j, "video") {
                Some(file) => Some(Block::Video(Video { video: VideoContent { file } })),
                None => None,
            },
            BlockKind::Pdf => match decode_file_url(j, "pdf") {
                Some(file) => Some(Block::Pdf(Pdf { pdf: PdfContent { file } })),
                None => None,
            },
            BlockKind::File => match (decode_file_url(j, "file"), decode_text(j, "file", "name")) {
                (Some(file), Some(name)) => Some(
                    Block::File(File { file: FileContent { file, name } }),
                ),
                _ => None,
            },
            BlockKind::Bookmark => match decode_text(j, "bookmark", "url") {
                Some(url) => Some(Block::Bookmark(Bookmark { bookmark: BookmarkContent { url } })),
                None => None,
            },
            BlockKind::Embed => match decode_text(j, "embed", "url") {
                Some(url) => Some(Block::Embed(Embed { embed: EmbedContent { url } })),
                None => None,
            },
            BlockKind::LinkPreview => match decode_text(j, "link_preview", "url") {
                Some(url) => Some(
                    Block::LinkPreview(LinkPreview { link_preview: LinkPreviewContent { url } }),
                ),
                None => None,
            },
            BlockKind::ChildPage => match decode_text(j, "child_page", "title") {
                Some(title) => Some(
                    Block::ChildPage(
                        ChildPage { id: decode_id(j), child_page: ChildPageContent { title } },
                    ),
                ),
                None => None,
            },
            BlockKind::ChildDatabase => match decode_text(j, "child_database", "title") {
                Some(title) => Some(
                    Block::ChildDatabase(
                        ChildDatabase {
                            id: decode_id(j),
                            child_database: ChildDatabaseContent { title },
                        },
                    ),
                ),
                None => None,
            },
            BlockKind::LinkToPage => match decode_link_target(j) {
                Some(link_to_page) => Some(Block::LinkToPage(LinkToPage { link_to_page })),
                None => None,
            },
            BlockKind::Table => match decode_width(j) {
                Some(table_width) => Some(
                    Block::Table(
                        Table { table: TableContent { table_width }, children: Vec::new(), meta },
                    ),
                ),
                None => None,
            },
            BlockKind::TableRow => match decode_cells(j) {
                Some(cells) => Some(
                    Block::TableRow(TableRow { table_row: TableRowContent { cells } }),
                ),
                None => None,
            },
            BlockKind::TableOfContents => Some(
                Block::TableOfContents(TableOfContents { headings: Vec::new() }),
            ),
            BlockKind::SyncedBlock => Some(
                Block::SyncedBlock(SyncedBlock { children: Vec::new(), meta }),
            ),
            BlockKind::ColumnList => Some(
                Block::ColumnList(ColumnList { children: Vec::new(), meta }),
            ),
            BlockKind::Column => Some(Block::Column(Column { children: Vec::new(), meta })),
            BlockKind::Divider => Some(Block::Divider(Divider {})),
            BlockKind::Breadcrumb => Some(Block::Breadcrumb(Breadcrumb {})),
            BlockKind::Template => Some(Block::Template(Template {})),
            BlockKind::Unsupported => Some(Block::Unsupported),
            BlockKind::Unexpected => Some(Block::Unexpected),
        }
    }

    /// Reads a block from JSON text. `None` where the text is not JSON or
    /// what it says describes no block.
    pub fn from_json_str(text: &str) -> (r: Option<Block>)
        ensures
            match (json_of_text(text@), r) {
                (Some(j), Some(b)) => block_decoded(j, b),
                (Some(j), None) => forall|b: Block| !block_decoded(j, b),
                (None, r) => r is None,
            },
    {
        match parse_json(text) {
            Some(j) => Block::from_json(&j),
            None => None,
        }
    }
}

/// `listed` is the entry of a listing that the object `j` describes: the
/// block that `j` describes, with the identifier of `j` and with what `j`
/// says of children.
pub open spec fn listed_decoded(j: JsonView, listed: ListedBlock) -> bool {
    &&& block_decoded(j, listed.block)
    &&& listed.id@ == id_of(j)
    &&& flag_decoded(j, "has_children"@, listed.has_children)
}

/// `page` is the page of a listing that the object `j` describes: its
/// `results`, one for one, and the cursor of the next page, if any.
pub open spec fn response_decoded(j: JsonView, page: BlockChildrenResponse) -> bool {
    &&& j.get("results"@) matches Some(JsonView::Array(items))
    &&& items.len() == page.results@.len()
    &&& forall|i: int|
        0 <= i < items.len() ==> listed_decoded(items[i], #[trigger] page.results@[i])
    &&& optional_text_decoded(j, "next_cursor"@, optional_text(page.next_cursor))
}

impl ListedBlock {
    /// Reads one entry of a listing: see `listed_decoded`.
    pub fn from_json(j: &Json) -> (r: Option<ListedBlock>)
        ensures
            match r {
                Some(listed) => listed_decoded(j@, listed),
                None => forall|listed: ListedBlock| !listed_decoded(j@, listed),
            },
    {
        match (Block::from_json(j), decode_flag(j, "has_children")) {
            (Some(block), Some(has_children)) => Some(
                ListedBlock { id: decode_id(j), has_children, block },
            ),
            _ => None,
        }
    }
}

impl BlockChildrenResponse {
    /// Reads one page of a listing: see `response_decoded`. One entry
    /// that describes no block spoils the page.
    pub fn from_json(j: &Json) -> (r: Option<BlockChildrenResponse>)
        ensures
            match r {
                Some(page) => response_decoded(j@, page),
                None => forall|page: BlockChildrenResponse| !response_decoded(j@, page),
            },
    {
        let array = match j.get("results") {
            Some(array) => array,
            None => {
                return None;
            },
        };
        let items = match array.as_items() {
            Some(items) => items,
            None => {
                return None;
            },
        };
        let next_cursor = match decode_optional_text(j, "next_cursor") {
            Some(next_cursor) => next_cursor,
            None => {
                return None;
            },
        };
        proof {
            lemma_views(items@);
        }
        let mut results: Vec<ListedBlock> = Vec::new();
        let mut i: usize = 0;
        while i < items.len()
            invariant
                i <= items.len(),
                j@.get("results"@) == Some(array@),
                array@ == JsonView::Array(views(items@)),
                views(items@).len() == items.len(),
                forall|k: int| 0 <= k < items.len() ==> views(items@)[k] == items@[k]@,
                results@.len() == i,
                forall|k: int| 0 <= k < i ==> listed_decoded(items@[k]@, #[trigger] results@[k]),
            decreases items.len() - i,
        {
            match ListedBlock::from_json(&items[i]) {
                Some(listed) => results.push(listed),
                None => {
                    assert forall|other: BlockChildrenResponse| !response_decoded(j@, other) by {
                        if response_decoded(j@, other) {
                            assert(listed_decoded(views(items@)[i as int], other.results@[i as int]));
                        }
                    }
                    return None;
                },
            }
            i = i + 1;
        }
        Some(BlockChildrenResponse { results, next_cursor })
    }

    /// Reads one page of a listing from JSON text. `None` where the text
    /// is not JSON or what it says describes no page.
    pub fn from_json_str(text: &str) -> (r: Option<BlockChildrenResponse>)
        ensures
            match (json_of_text(text@), r) {
                (Some(j), Some(page)) => response_decoded(j, page),
                (Some(j), None) => forall|page: BlockChildrenResponse| !response_decoded(j, page),
                (None, r) => r is None,
            },
    {
        match parse_json(text) {
            Some(j) => BlockChildrenResponse::from_json(&j),
            None => None,
        }
    }
}

/// A block whose `type` is not known is read as the placeholder
/// `Unexpected`, and nothing that the object holds or lacks can make the
/// reading fail or give another block.
pub proof fn lemma_unknown_type_is_unexpected(j: JsonView, b: Block)
    requires
        j.text_at("type"@) matches Some(tag) && kind_named(tag) == BlockKind::Unexpected,
    ensures
        block_decoded(j, Block::Unexpected),
        block_decoded(j, b) ==> b == Block::Unexpected,
{
}

} // verus!
