use notion_to_markdown::ast::{
    AstNode, ListDelimType, ListType, NodeList, NodeValue, TableAlignment,
};
use notion_to_markdown::block::inline::{
    Callout, CalloutContent, Code, CodeContent, Equation, EquationContent, Heading1, Heading2,
    Heading3, IconContent, Paragraph, Quote,
};
use notion_to_markdown::block::layout::{
    Breadcrumb, Column, ColumnList, Divider, SyncedBlock, Template, Toggle,
};
use notion_to_markdown::block::link::{
    ChildDatabase, ChildDatabaseContent, ChildPage, ChildPageContent, LinkTarget, LinkToPage,
    LinkToPageContent, RenderOptions,
};
use notion_to_markdown::block::list::{BulletedListItem, NumberedListItem, ToDo, ToDoContent};
use notion_to_markdown::block::media::{
    Bookmark, BookmarkContent, Embed, EmbedContent, File, FileContent, FileUrl, Image,
    ImageContent, LinkPreview, LinkPreviewContent, Pdf, PdfContent, Video, VideoContent,
};
use notion_to_markdown::block::table::{Table, TableContent, TableRow, TableRowContent};
use notion_to_markdown::block::table_of_contents::{Heading, HeadingLevel, TableOfContents};
use notion_to_markdown::block::{Block, BlockContent, BlockMeta};
use notion_to_markdown::page::Page;
use notion_to_markdown::rich_text::{Annotations, Mention, RichText, RichTextVec};
use notion_to_markdown::text::{decimal_string, escape_page_title, indent_string, width_of};

fn plain() -> Annotations {
    Annotations::default()
}

fn text(s: &str) -> RichText {
    RichText::Text { plain_text: s.to_string(), href: None, annotations: plain() }
}

fn styled(s: &str, annotations: Annotations) -> RichText {
    RichText::Text { plain_text: s.to_string(), href: None, annotations }
}

fn content(s: &str) -> BlockContent {
    BlockContent { rich_text: vec![text(s)] }
}

fn paragraph(s: &str) -> Block {
    Block::Paragraph(Paragraph { paragraph: content(s), children: vec![], meta: BlockMeta::default() })
}

fn bulleted(s: &str) -> Block {
    Block::BulletedListItem(BulletedListItem {
        bulleted_list_item: content(s),
        children: vec![],
        meta: BlockMeta::default(),
    })
}

fn numbered(s: &str) -> Block {
    Block::NumberedListItem(NumberedListItem {
        numbered_list_item: content(s),
        children: vec![],
        meta: BlockMeta::default(),
    })
}

fn to_do(s: &str, checked: bool) -> Block {
    Block::ToDo(ToDo {
        to_do: ToDoContent { rich_text: vec![text(s)], checked },
        children: vec![],
        meta: BlockMeta::default(),
    })
}

fn heading_1(s: &str) -> Block {
    Block::Heading1(Heading1 { heading_1: content(s), children: vec![], meta: BlockMeta::default() })
}

fn heading_2(s: &str) -> Block {
    Block::Heading2(Heading2 { heading_2: content(s), children: vec![], meta: BlockMeta::default() })
}

fn heading_3(s: &str) -> Block {
    Block::Heading3(Heading3 { heading_3: content(s), children: vec![], meta: BlockMeta::default() })
}

fn table() -> Block {
    Block::Table(Table {
        table: TableContent { table_width: 3 },
        children: vec![],
        meta: BlockMeta::default(),
    })
}

fn table_row(cells: &[&str]) -> Block {
    Block::TableRow(TableRow {
        table_row: TableRowContent { cells: cells.iter().map(|c| vec![text(c)]).collect() },
    })
}

fn column() -> Block {
    Block::Column(Column { children: vec![], meta: BlockMeta::default() })
}

fn file_url(url: &str) -> FileUrl {
    FileUrl { url: url.to_string() }
}

#[test]
fn bookmark_test_to_markdown() {
    let item = Block::Bookmark(Bookmark {
        bookmark: BookmarkContent { url: "https://example.com".to_string() },
    });
    assert_eq!(item.to_markdown() + "\n", "[Bookmark: https://example.com](https://example.com)\n");
}

#[test]
fn breadcrumb_test_to_markdown() {
    let item = Block::Breadcrumb(Breadcrumb {});
    assert_eq!(item.to_markdown() + "\n", "<!-- breadcrumb block -->\n");
}

#[test]
fn bulleted_list_item_test_to_markdown() {
    let mut item = bulleted("this is bulleted list item");
    let mut item1 = bulleted("this is bulleted list item");
    let item11 = bulleted("this is bulleted list item");
    let item2 = bulleted("this is bulleted list item");

    item1.append(item11);
    item.append(item1);
    item.append(item2);

    assert_eq!(
        item.to_markdown() + "\n",
        "- this is bulleted list item\n  - this is bulleted list item\n    - this is bulleted list item\n  - this is bulleted list item\n"
    );

    let numbered_item = numbered("this is numbered list item");
    assert_eq!(commonmark(&numbered_item.to_ast()), "1. this is numbered list item\n");
}

#[test]
fn callout_test_to_markdown() {
    let item = Block::Callout(Callout {
        callout: CalloutContent {
            icon: IconContent { emoji: "❗".to_string() },
            rich_text: vec![text("this is callout")],
        },
        children: vec![],
        meta: BlockMeta::default(),
    });
    assert_eq!(item.to_markdown() + "\n", "> ❗ this is callout\n");
    assert_eq!(commonmark(&item.to_ast()), "> ❗ this is callout\n");
}

#[test]
fn callout_without_icon_is_a_quote() {
    let item = Block::Callout(Callout {
        callout: CalloutContent {
            icon: IconContent { emoji: String::new() },
            rich_text: vec![text("this is callout")],
        },
        children: vec![],
        meta: BlockMeta::default(),
    });
    assert_eq!(item.to_markdown(), "> this is callout");
}

#[test]
fn child_database_test_to_markdown() {
    let item = Block::ChildDatabase(ChildDatabase {
        id: "XXXXXXXX-XXXX-XXXX-XXXX-XXXXXXXXXXXX".to_string(),
        child_database: ChildDatabaseContent { title: "this is child database".to_string() },
    });
    assert_eq!(
        item.to_markdown() + "\n",
        "[Database: this is child database](this_is_child_database/this_is_child_database.md)\n"
    );
}

#[test]
fn child_page_test_to_markdown() {
    let item = Block::ChildPage(ChildPage {
        id: "XXXXXXXX-XXXX-XXXX-XXXX-XXXXXXXXXXXX".to_string(),
        child_page: ChildPageContent { title: "this is child page".to_string() },
    });
    assert_eq!(item.to_markdown() + "\n", "[Child Page: this is child page](this_is_child_page.md)\n");
}

#[test]
fn child_links_follow_the_render_options() {
    let page = Block::ChildPage(ChildPage {
        id: "abc".to_string(),
        child_page: ChildPageContent { title: "a b".to_string() },
    });
    let database = Block::ChildDatabase(ChildDatabase {
        id: "def".to_string(),
        child_database: ChildDatabaseContent { title: "c d".to_string() },
    });
    let remote_pages = RenderOptions {
        child_page_link_target: LinkTarget::RemoteOrigin,
        child_database_link_target: LinkTarget::MarkdownFile,
    };
    assert_eq!(page.to_markdown_with(&remote_pages), "[Child Page: a b](https://www.notion.so/abc)");
    assert_eq!(database.to_markdown_with(&remote_pages), "[Database: c d](c_d/c_d.md)");
    let remote_databases = RenderOptions {
        child_page_link_target: LinkTarget::MarkdownFile,
        child_database_link_target: LinkTarget::RemoteOrigin,
    };
    assert_eq!(page.to_markdown_with(&remote_databases), "[Child Page: a b](a_b.md)");
    assert_eq!(
        database.to_markdown_with(&remote_databases),
        "[Database: c d](https://www.notion.so/def)"
    );
    assert_eq!(RenderOptions::default(), remote_options_for_files());
}

fn remote_options_for_files() -> RenderOptions {
    RenderOptions {
        child_page_link_target: LinkTarget::MarkdownFile,
        child_database_link_target: LinkTarget::MarkdownFile,
    }
}

#[test]
fn code_test_to_markdown() {
    let item = Block::Code(Code {
        code: CodeContent {
            rich_text: vec![text("this is markdown code")],
            language: "markdown".to_string(),
        },
    });
    assert_eq!(item.to_markdown() + "\n", "``` markdown\nthis is markdown code\n```\n");
    assert_eq!(commonmark(&item.to_ast()), "``` markdown\nthis is markdown code\n```\n");
}

#[test]
fn code_keeps_text_as_it_is() {
    let bold = Annotations { bold: true, ..plain() };
    let item = Block::Code(Code {
        code: CodeContent {
            rich_text: vec![styled("  let x", bold), text(" = 1;  ")],
            language: "rust".to_string(),
        },
    });
    assert_eq!(item.to_markdown(), "``` rust\n  let x = 1;  \n```");
}

#[test]
fn column_list_test_to_markdown() {
    let mut item = Block::ColumnList(ColumnList { children: vec![], meta: BlockMeta::default() });
    let mut column1 = column();
    let mut column2 = column();

    column1.append(paragraph("this is paragraph"));
    column2.append(paragraph("this is paragraph"));
    item.append(column1);
    item.append(column2);

    assert_eq!(item.to_markdown() + "\n", "this is paragraph\nthis is paragraph\n");
}

#[test]
fn divider_test_to_markdown() {
    let item = Block::Divider(Divider {});
    assert_eq!(item.to_markdown() + "\n", "-----\n");
    assert_eq!(commonmark(&item.to_ast()), "-----\n");
}

#[test]
fn embed_test_to_markdown() {
    let item = Block::Embed(Embed { embed: EmbedContent { url: "https://example.com".to_string() } });
    assert_eq!(item.to_markdown() + "\n", "[Embed: https://example.com](https://example.com)\n");
}

#[test]
fn equation_test_to_markdown() {
    let item = Block::Equation(Equation {
        equation: EquationContent { expression: "x + y = 1 \\\\ x^2 + y^1 = 1".to_string() },
    });
    assert_eq!(item.to_markdown() + "\n", "$$\nx + y = 1 \\\\ x^2 + y^1 = 1\n$$\n");
    assert_eq!(commonmark(&item.to_ast()), "$$x + y = 1 \\\\ x^2 + y^1 = 1$$\n");
}

#[test]
fn file_test_to_markdown() {
    let item = Block::File(File {
        file: FileContent {
            file: file_url("https://pdfobject.com/pdf/sample.pdf"),
            name: "sample.pdf".to_string(),
        },
    });
    assert_eq!(item.to_markdown() + "\n", "[sample.pdf](https://pdfobject.com/pdf/sample.pdf)\n");
}

#[test]
fn heading_1_test_to_markdown() {
    let item = heading_1("this is headline1");
    assert_eq!(item.to_markdown() + "\n", "# this is headline1\n");
    assert_eq!(commonmark(&item.to_ast()), "# this is headline1\n");
}

#[test]
fn heading_1_test_to_markdown_with_children() {
    let mut item = heading_1("this is headline1");
    item.append(paragraph("this is paragraph"));
    item.append(paragraph("this is paragraph"));
    assert_eq!(
        item.to_markdown() + "\n",
        "# this is headline1\n  this is paragraph\n  this is paragraph\n"
    );
}

#[test]
fn heading_2_test_to_markdown() {
    let item = heading_2("this is headline2");
    assert_eq!(item.to_markdown() + "\n", "## this is headline2\n");
}

#[test]
fn heading_2_with_children() {
    let mut item = heading_2("this is headline2");
    item.append(paragraph("this is paragraph"));
    assert_eq!(item.to_markdown(), "## this is headline2\n  this is paragraph");
}

#[test]
fn heading_3_test_to_markdown() {
    let item = heading_3("this is headline3");
    assert_eq!(item.to_markdown() + "\n", "### this is headline3\n");
    assert_eq!(commonmark(&item.to_ast()), "### this is headline3\n");
}

#[test]
fn heading_3_test_to_markdown_with_children() {
    let mut item = heading_3("this is headline3");
    item.append(paragraph("this is paragraph"));
    item.append(paragraph("this is paragraph"));
    assert_eq!(
        item.to_markdown() + "\n",
        "### this is headline3\n  this is paragraph\n  this is paragraph\n"
    );
}

#[test]
fn image_test_to_markdown() {
    let item = Block::Image(Image {
        image: ImageContent { file: file_url("https://picsum.photos/200/300") },
    });
    assert_eq!(
        item.to_markdown() + "\n",
        "![https://picsum.photos/200/300](https://picsum.photos/200/300)\n"
    );
}

#[test]
fn link_preview_test_to_markdown() {
    let item = Block::LinkPreview(LinkPreview {
        link_preview: LinkPreviewContent { url: "https://example.com".to_string() },
    });
    assert_eq!(item.to_markdown() + "\n", "[Preview: https://example.com](https://example.com)\n");
}

#[test]
fn link_to_page_test_to_markdown() {
    let item = Block::LinkToPage(LinkToPage {
        link_to_page: LinkToPageContent::PageId {
            page_id: "XXXXXXXX-XXXX-XXXX-XXXX-XXXXXXXXXXXX".to_string(),
        },
    });
    assert_eq!(
        item.to_markdown() + "\n",
        "<https://www.notion.so/XXXXXXXX-XXXX-XXXX-XXXX-XXXXXXXXXXXX>\n"
    );
    let database = Block::LinkToPage(LinkToPage {
        link_to_page: LinkToPageContent::DatabaseId { database_id: "abc".to_string() },
    });
    assert_eq!(database.to_markdown(), "<https://www.notion.so/abc>");
}

#[test]
fn numbered_list_item_test_to_markdown() {
    let mut item = numbered("this is numbered list item");
    let mut item1 = numbered("this is numbered list item");
    let item11 = numbered("this is numbered list item");
    let item2 = numbered("this is numbered list item");

    item1.append(item11);
    item.append(item1);
    item.append(item2);

    assert_eq!(
        item.to_markdown() + "\n",
        "1. this is numbered list item\n  1. this is numbered list item\n    1. this is numbered list item\n  2. this is numbered list item\n"
    );
}

#[test]
fn paragraph_test_to_markdown() {
    let item = paragraph("this is paragraph");
    assert_eq!(item.to_markdown() + "\n", "this is paragraph\n");
}

#[test]
fn pdf_to_markdown() {
    let item = Block::Pdf(Pdf { pdf: PdfContent { file: file_url("https://example.com/a.pdf") } });
    assert_eq!(item.to_markdown(), "[Pdf: https://example.com/a.pdf](https://example.com/a.pdf)");
}

#[test]
fn quote_test_to_markdown() {
    let item = Block::Quote(Quote {
        quote: content("this is quote"),
        children: vec![],
        meta: BlockMeta::default(),
    });
    assert_eq!(item.to_markdown() + "\n", "> this is quote\n");
    assert_eq!(commonmark(&item.to_ast()), "> this is quote\n");
}

#[test]
fn synced_block_test_to_markdown() {
    let mut item = Block::SyncedBlock(SyncedBlock { children: vec![], meta: BlockMeta::default() });
    item.append(paragraph("this is paragraph"));
    item.append(paragraph("this is paragraph"));
    assert_eq!(item.to_markdown() + "\n", "this is paragraph\nthis is paragraph\n");
}

#[test]
fn table_test_to_markdown() {
    let mut table = table();
    table.append(table_row(&["this ", "is ", "table row"]));
    table.append(table_row(&["this ", "is ", "table row"]));

    assert_eq!(
        table.to_markdown(),
        "| this  | is  | table row |\n| ----- | --- | --------- |\n| this  | is  | table row |\n"
    );

    assert_eq!(
        commonmark(&table.to_ast()),
        "| this  | is  | table row |\n| :-: | :-: | :-: |\n| this  | is  | table row |\n"
    );
}

#[test]
fn table_pads_columns_and_keeps_three_dashes() {
    let mut table = table();
    table.append(table_row(&["a", "b"]));
    table.append(table_row(&["cc", "d"]));
    assert_eq!(table.to_markdown(), "| a  | b |\n| --- | --- |\n| cc | d |\n");
}

#[test]
fn table_counts_two_columns_for_a_wide_character() {
    let mut table = table();
    table.append(table_row(&["日本語", "x"]));
    table.append(table_row(&["ab", "long cell"]));
    assert_eq!(
        table.to_markdown(),
        "| 日本語 | x         |\n| ------ | --------- |\n| ab     | long cell |\n"
    );
}

#[test]
fn table_fits_rows_to_the_first_row() {
    let mut table = table();
    table.append(table_row(&["h1", "h2"]));
    table.append(table_row(&["only"]));
    table.append(table_row(&["a", "b", "dropped"]));
    table.append(paragraph("not a row"));
    assert_eq!(
        table.to_markdown(),
        "| h1   | h2 |\n| ---- | --- |\n| only |    |\n| a    | b  |\n"
    );
}

#[test]
fn table_without_rows_is_empty() {
    assert_eq!(table().to_markdown(), "");
}

#[test]
fn nested_table_is_indented_line_by_line() {
    let mut item = bulleted("item");
    let mut table = table();
    table.append(table_row(&["a"]));
    table.append(table_row(&["b"]));
    item.append(table);
    assert_eq!(item.to_markdown(), "- item\n  | a |\n  | --- |\n  | b |\n");
}

#[test]
fn table_of_contents_test_to_markdown() {
    let item = TableOfContents {
        headings: vec![
            Heading { level: HeadingLevel::One, rich_text: vec![text("this is headline1")] },
            Heading { level: HeadingLevel::Two, rich_text: vec![text("this is headline2")] },
            Heading { level: HeadingLevel::Three, rich_text: vec![text("this is headline3")] },
            Heading { level: HeadingLevel::Two, rich_text: vec![text("this is headline2")] },
        ],
    };
    assert_eq!(
        item.to_markdown() + "\n",
        "- [this is headline1](#this is headline1)\n  - [this is headline2](#this is headline2)\n    - [this is headline3](#this is headline3)\n  - [this is headline2](#this is headline2)\n"
    );
}

#[test]
fn template_test_to_markdown() {
    let item = Block::Template(Template {});
    assert_eq!(item.to_markdown() + "\n", "<!-- template block -->\n");
}

#[test]
fn to_do_test_to_markdown() {
    let mut unchecked = to_do("this is to do item", false);
    let child = to_do("this is to do item", false);
    let checked = to_do("this is to do item", true);

    unchecked.append(child);
    unchecked.append(checked);

    assert_eq!(
        unchecked.to_markdown() + "\n",
        "- [ ] this is to do item\n  - [ ] this is to do item\n  - [x] this is to do item\n"
    );
}

#[test]
fn toggle_test_to_markdown() {
    let mut item = Block::Toggle(Toggle {
        toggle: content("this is toggle"),
        children: vec![],
        meta: BlockMeta::default(),
    });
    item.append(paragraph("this is paragraph"));
    item.append(paragraph("this is paragraph"));
    assert_eq!(item.to_markdown() + "\n", "this is toggle\nthis is paragraph\nthis is paragraph\n");
}

#[test]
fn video_test_to_markdown() {
    let item = Block::Video(Video {
        video: VideoContent { file: file_url("https://pdfobject.com/pdf/sample.pdf") },
    });
    assert_eq!(
        item.to_markdown() + "\n",
        "[Video: https://pdfobject.com/pdf/sample.pdf](https://pdfobject.com/pdf/sample.pdf)\n"
    );
}

#[test]
fn sentinels_render_as_comments() {
    assert_eq!(Block::Unsupported.to_markdown(), "<!-- unsupported block -->");
    assert_eq!(Block::Unexpected.to_markdown(), "<!-- unexpected block -->");
    let mut leaf = Block::Unexpected;
    leaf.append(paragraph("lost"));
    assert_eq!(leaf.to_markdown(), "<!-- unexpected block -->");
}

#[test]
fn table_row_alone_has_no_rendering() {
    let row = table_row(&["a", "b"]);
    assert!(!row.is_renderable());
    assert_eq!(row.try_to_markdown(), None);
    let mut item = bulleted("item");
    item.append(table_row(&["a"]));
    assert_eq!(item.try_to_markdown(), None);
    let mut page_blocks = vec![paragraph("fine")];
    page_blocks.push(table_row(&["a"]));
    assert_eq!(Page::from_blocks(page_blocks).try_to_markdown(), None);
    let mut table = table();
    table.append(table_row(&["a"]));
    assert!(table.is_renderable());
    assert_eq!(paragraph("p").try_to_markdown(), Some("p".to_string()));
}

#[test]
fn empty_bold_span_keeps_its_delimiters() {
    let bold = Annotations { bold: true, ..plain() };
    assert_eq!(styled("", bold).to_markdown(), "****");
    let italic = Annotations { italic: true, ..plain() };
    assert_eq!(styled("", italic).to_markdown(), "__");
    let strikethrough = Annotations { strikethrough: true, ..plain() };
    assert_eq!(styled("", strikethrough).to_markdown(), "~~~~");
}

#[test]
fn styles_wrap_in_a_fixed_order() {
    let all = Annotations { bold: true, italic: true, strikethrough: true, code: false, underline: true };
    let span = RichText::Text {
        plain_text: "  x y ".to_string(),
        href: Some("https://example.com".to_string()),
        annotations: all,
    };
    assert_eq!(span.to_markdown(), "[  <u>~~_**x y**_~~</u> ](https://example.com)");
    let code = Annotations { code: true, ..all };
    let span = RichText::Text {
        plain_text: " x ".to_string(),
        href: Some("u".to_string()),
        annotations: code,
    };
    assert_eq!(span.to_markdown(), "[` x `](u)");
}

#[test]
fn each_style_has_its_delimiters() {
    assert_eq!(RichText::bold("x"), "**x**");
    assert_eq!(RichText::italic("x"), "_x_");
    assert_eq!(RichText::strikethrough("x"), "~~x~~");
    assert_eq!(RichText::code("x"), "`x`");
    assert_eq!(RichText::underline("x"), "<u>x</u>");
    assert_eq!(RichText::link("x", "u"), "[x](u)");
}

#[test]
fn whitespace_stays_outside_the_markup() {
    let bold = Annotations { bold: true, ..plain() };
    assert_eq!(styled(" \thello world\n", bold).to_markdown(), " \t**hello world**\n");
    assert_eq!(styled("hello", bold).to_markdown(), "**hello**");
    assert_eq!(styled("\u{3000}x\u{a0}", bold).to_markdown(), "\u{3000}**x**\u{a0}");
    assert_eq!(styled("\u{200b}x", bold).to_markdown(), "**\u{200b}x**");
    assert_eq!(text("  ").to_markdown(), "  ");
    assert_eq!(styled("  ", bold).to_markdown(), "**  **");
}

#[test]
fn mentions_render_by_their_title() {
    let bold = Annotations { bold: true, ..plain() };
    let user = RichText::Mention {
        mention: Mention::User { name: "Ada".to_string() },
        href: None,
        annotations: bold,
    };
    assert_eq!(user.to_markdown(), "**Ada**");
    let link = RichText::Mention {
        mention: Mention::LinkMention { title: "A page".to_string() },
        href: Some("https://example.com/p".to_string()),
        annotations: plain(),
    };
    assert_eq!(link.to_markdown(), "[A page](https://example.com/p)");
    assert_eq!(vec![user, text(" wrote "), link].to_markdown(), "**Ada** wrote [A page](https://example.com/p)");
}

#[test]
fn page_ends_every_block_with_a_line_break() {
    let mut item = numbered("one");
    item.append(numbered("inner"));
    let page = Page::from_blocks(vec![heading_1("title"), item, numbered("two"), paragraph("end")]);
    assert_eq!(page.to_markdown(), "# title\n2. one\n  1. inner\n3. two\nend\n");
    assert_eq!(Page::from_blocks(vec![]).to_markdown(), "");
}

#[test]
fn with_meta_places_a_block() {
    let mut item = numbered("item");
    item.append(paragraph("child"));
    let placed = item.with_meta(BlockMeta { order: 12, depth: 2 });
    assert_eq!(placed.to_markdown(), "12. item\n      child");
    let leaf = Block::Divider(Divider {}).with_meta(BlockMeta { order: 3, depth: 4 });
    assert_eq!(leaf.to_markdown(), "-----");
    assert_eq!(leaf.get_meta(), BlockMeta { order: 1, depth: 0 });
}

#[test]
fn text_helpers() {
    assert_eq!(escape_page_title("a b\tc\u{200b}d\u{3000}e"), "a_b_c_d_e");
    assert_eq!(decimal_string(0), "0");
    assert_eq!(decimal_string(7), "7");
    assert_eq!(decimal_string(1234567890), "1234567890");
    assert_eq!(indent_string(0), "");
    assert_eq!(indent_string(3), "      ");
    assert_eq!(width_of("abc"), 3);
    assert_eq!(width_of("日本"), 4);
    assert_eq!(width_of("é"), 2);
    assert_eq!(width_of(""), 0);
}

fn list_data(list: &NodeList) -> comrak::nodes::NodeList {
    comrak::nodes::NodeList {
        list_type: match list.list_type {
            ListType::Bullet => comrak::nodes::ListType::Bullet,
            ListType::Ordered => comrak::nodes::ListType::Ordered,
        },
        marker_offset: list.marker_offset,
        padding: list.padding,
        start: list.start,
        delimiter: match list.delimiter {
            ListDelimType::Period => comrak::nodes::ListDelimType::Period,
            ListDelimType::Paren => comrak::nodes::ListDelimType::Paren,
        },
        bullet_char: list.bullet_char,
        tight: list.tight,
        is_task_list: list.is_task_list,
    }
}

fn node_value(value: &NodeValue) -> comrak::nodes::NodeValue {
    match value {
        NodeValue::Document => comrak::nodes::NodeValue::Document,
        NodeValue::BlockQuote => comrak::nodes::NodeValue::BlockQuote,
        NodeValue::List(list) => comrak::nodes::NodeValue::List(list_data(list)),
        NodeValue::Item(list) => comrak::nodes::NodeValue::Item(list_data(list)),
        NodeValue::CodeBlock(code) => {
            comrak::nodes::NodeValue::CodeBlock(comrak::nodes::NodeCodeBlock {
                fenced: code.fenced,
                fence_char: code.fence_char,
                fence_length: code.fence_length,
                fence_offset: code.fence_offset,
                info: code.info.clone(),
                literal: code.literal.clone(),
            })
        }
        NodeValue::Paragraph => comrak::nodes::NodeValue::Paragraph,
        NodeValue::Heading(heading) => {
            comrak::nodes::NodeValue::Heading(comrak::nodes::NodeHeading {
                level: heading.level,
                setext: heading.setext,
            })
        }
        NodeValue::ThematicBreak => comrak::nodes::NodeValue::ThematicBreak,
        NodeValue::Table(table) => {
            comrak::nodes::NodeValue::Table(comrak::nodes::NodeTable {
                alignments: table
                    .alignments
                    .iter()
                    .map(|a| match a {
                        TableAlignment::Unaligned => comrak::nodes::TableAlignment::None,
                        TableAlignment::Left => comrak::nodes::TableAlignment::Left,
                        TableAlignment::Center => comrak::nodes::TableAlignment::Center,
                        TableAlignment::Right => comrak::nodes::TableAlignment::Right,
                    })
                    .collect(),
                num_columns: table.num_columns,
                num_rows: table.num_rows,
                num_nonempty_cells: table.num_nonempty_cells,
            })
        }
        NodeValue::TableRow(header) => comrak::nodes::NodeValue::TableRow(*header),
        NodeValue::TableCell => comrak::nodes::NodeValue::TableCell,
        NodeValue::Text(text) => comrak::nodes::NodeValue::Text(text.clone()),
        NodeValue::Code(code) => comrak::nodes::NodeValue::Code(comrak::nodes::NodeCode {
            num_backticks: code.num_backticks,
            literal: code.literal.clone(),
        }),
        NodeValue::HtmlInline(text) => comrak::nodes::NodeValue::HtmlInline(text.clone()),
        NodeValue::Raw(text) => comrak::nodes::NodeValue::Raw(text.clone()),
        NodeValue::Emph => comrak::nodes::NodeValue::Emph,
        NodeValue::Strong => comrak::nodes::NodeValue::Strong,
        NodeValue::Strikethrough => comrak::nodes::NodeValue::Strikethrough,
        NodeValue::Link(link) => comrak::nodes::NodeValue::Link(comrak::nodes::NodeLink {
            url: link.url.clone(),
            title: link.title.clone(),
        }),
        NodeValue::Math(math) => comrak::nodes::NodeValue::Math(comrak::nodes::NodeMath {
            dollar_math: math.dollar_math,
            display_math: math.display_math,
            literal: math.literal.clone(),
        }),
    }
}

fn plant<'a>(
    arena: &'a comrak::Arena<comrak::nodes::AstNode<'a>>,
    node: &AstNode,
) -> &'a comrak::nodes::AstNode<'a> {
    let planted = arena.alloc(comrak::nodes::AstNode::from(node_value(&node.value)));
    for child in &node.children {
        planted.append(plant(arena, child));
    }
    planted
}

fn commonmark(node: &AstNode) -> String {
    let arena = comrak::Arena::new();
    let root = plant(&arena, node);
    let mut options = comrak::Options::default();
    options.extension.strikethrough = true;
    options.extension.table = true;
    options.extension.tasklist = true;
    options.extension.autolink = true;
    let mut output = String::new();
    comrak::format_commonmark(root, &options, &mut output).unwrap();
    output
}

#[test]
fn test_to_markdown_with_nest() {
    let mut parent_item = bulleted("this is bulleted list item");
    parent_item.append(bulleted("this is bulleted list item"));
    parent_item.append(bulleted("this is bulleted list item"));

    assert_eq!(
        commonmark(&parent_item.to_ast()),
        "- this is bulleted list item\n  - this is bulleted list item\n  - this is bulleted list item\n"
    );
}

#[test]
fn test_to_markdown_when_unchecked() {
    let item = to_do("this is to do item", false);
    assert_eq!(commonmark(&item.to_ast()), "- [ ] this is to do item\n");
}

#[test]
fn test_to_markdown_when_checked() {
    let item = to_do("this is to do item", true);
    assert_eq!(commonmark(&item.to_ast()), "- [x] this is to do item\n");
}

#[test]
fn test_to_markdown_when_nest() {
    let mut item = to_do("this is to do item", true);
    item.append(to_do("this is to do item", false));
    item.append(to_do("this is to do item", true));

    assert_eq!(
        commonmark(&item.to_ast()),
        "- [x] this is to do item\n  - [ ] this is to do item\n  - [x] this is to do item\n"
    );
}

#[test]
fn test_page_with_bulleted_item() {
    let mut parent_item = bulleted("this is bulleted list item");
    parent_item.append(bulleted("this is second bulleted list item"));
    parent_item.append(bulleted("this is second bulleted list item"));

    let page = Page::from_blocks(vec![parent_item]);

    assert_eq!(
        commonmark(&page.to_ast()),
        "- this is bulleted list item\n  - this is second bulleted list item\n  - this is second bulleted list item\n"
    );
}

#[test]
fn test_page_with_numbered_item() {
    let mut parent_item = numbered("this is numbered list item");
    parent_item.append(numbered("this is second numbered list item"));
    parent_item.append(numbered("this is second numbered list item"));

    let page = Page::from_blocks(vec![parent_item]);

    assert_eq!(
        commonmark(&page.to_ast()),
        "1. this is numbered list item\n   1. this is second numbered list item\n   2. this is second numbered list item\n"
    );
}

#[test]
fn test_page_to_markdown() {
    let page = Page::from_blocks(vec![
        heading_1("this is headline1"),
        heading_2("this is headline2"),
        heading_3("this is headline3"),
        paragraph("this is paragraph"),
    ]);

    assert_eq!(
        commonmark(&page.to_ast()),
        "# this is headline1\n\n## this is headline2\n\n### this is headline3\n\nthis is paragraph\n"
    );
}

#[test]
fn nested_items_form_one_list_in_the_tree() {
    let mut parent = bulleted("parent");
    parent.append(bulleted("first"));
    parent.append(bulleted("second"));
    parent.append(paragraph("between"));
    parent.append(numbered("one"));
    parent.append(numbered("two"));
    let list = parent.to_ast();
    assert!(matches!(list.value, NodeValue::List(_)));
    assert_eq!(list.children.len(), 1);
    let item = &list.children[0];
    assert!(matches!(item.value, NodeValue::Item(_)));
    assert_eq!(item.children.len(), 4);
    assert_eq!(item.children[0].value, NodeValue::Paragraph);
    assert!(matches!(item.children[1].value, NodeValue::List(l) if l.list_type == ListType::Bullet));
    assert_eq!(item.children[1].children.len(), 2);
    assert_eq!(item.children[2].value, NodeValue::Paragraph);
    assert!(matches!(item.children[3].value, NodeValue::List(l) if l.list_type == ListType::Ordered));
    assert_eq!(item.children[3].children.len(), 2);
}

#[test]
fn spans_become_nodes() {
    let bold = Annotations { bold: true, ..plain() };
    let nodes = styled(" x ", bold).to_ast();
    assert_eq!(nodes.len(), 3);
    assert_eq!(nodes[0].value, NodeValue::Text(" ".to_string()));
    assert_eq!(nodes[1].value, NodeValue::Strong);
    assert_eq!(nodes[1].children[0].value, NodeValue::Raw("x".to_string()));
    assert_eq!(nodes[2].value, NodeValue::Text(" ".to_string()));
    let empty_bold = styled("", bold).to_ast();
    assert_eq!(empty_bold.len(), 1);
    assert_eq!(empty_bold[0].value, NodeValue::Text("****".to_string()));
    let code = Annotations { code: true, ..plain() };
    assert_eq!(styled("", code).to_ast()[0].value, NodeValue::Raw("``".to_string()));
    let linked = RichText::Text {
        plain_text: "x".to_string(),
        href: Some("https://example.com".to_string()),
        annotations: Annotations { underline: true, ..plain() },
    }
    .to_ast();
    assert_eq!(linked.len(), 1);
    assert!(matches!(&linked[0].value, NodeValue::Link(l) if l.url == "https://example.com"));
    assert_eq!(linked[0].children.len(), 3);
    assert_eq!(linked[0].children[0].value, NodeValue::HtmlInline("<u>".to_string()));
    let paragraph_node = paragraph("**hello**").to_ast();
    assert_eq!(commonmark(&paragraph_node), "**hello**\n");
    let bold_paragraph = Block::Paragraph(Paragraph {
        paragraph: BlockContent { rich_text: vec![styled("hello", bold)] },
        children: vec![],
        meta: BlockMeta::default(),
    });
    assert_eq!(commonmark(&bold_paragraph.to_ast()), "**hello**\n");
}

#[test]
fn blocks_without_a_node_of_their_own_are_raw_text() {
    let image = Block::Image(Image { image: ImageContent { file: file_url("https://e.com/i.png") } });
    let node = image.to_ast();
    assert_eq!(node.value, NodeValue::Paragraph);
    assert_eq!(node.children.len(), 1);
    assert_eq!(
        node.children[0].value,
        NodeValue::Raw("![https://e.com/i.png](https://e.com/i.png)".to_string())
    );
    assert_eq!(
        Block::Unsupported.to_ast().children[0].value,
        NodeValue::Raw("<!-- unsupported block -->".to_string())
    );
    assert_eq!(
        Block::Unexpected.to_ast().children[0].value,
        NodeValue::Raw("<!-- unexpected block -->".to_string())
    );
}

#[test]
fn a_page_of_every_kind_is_a_well_formed_document() {
    let mut item = bulleted("item");
    item.append(Block::Unsupported);
    item.append(numbered("one"));
    item.append(numbered("two"));
    let mut rows = table();
    rows.append(table_row(&["a", "b", ""]));
    rows.append(table_row(&["c", "d", "e"]));
    let underlined = Annotations { underline: true, code: true, ..plain() };
    let page = Page::from_blocks(vec![
        heading_1("title"),
        Block::Image(Image { image: ImageContent { file: file_url("https://e.com/i.png") } }),
        Block::Equation(Equation { equation: EquationContent { expression: "x^2".to_string() } }),
        item,
        bulleted("next"),
        rows,
        Block::Paragraph(Paragraph {
            paragraph: BlockContent { rich_text: vec![styled("", underlined), text(" end")] },
            children: vec![],
            meta: BlockMeta::default(),
        }),
        Block::Unexpected,
        Block::Divider(Divider {}),
    ]);
    assert_eq!(
        commonmark(&page.to_ast()),
        "# title\n\n![https://e.com/i.png](https://e.com/i.png)\n\n$$x^2$$\n\n\
         - item\n  <!-- unsupported block -->\n  1. one\n  2. two\n\n<!-- end list -->\n\n- next\n\n\
         | a | b |  |\n| :-: | :-: | :-: |\n| c | d | e |\n\n`` end\n\n<!-- unexpected block -->\n\n-----\n"
    );
}

#[test]
fn table_of_contents_lists_the_headings_of_the_page() {
    let mut second = heading_2("two");
    second.append(heading_3("three"));
    let mut item = bulleted("item");
    item.append(heading_2("in a list"));
    let mut lost = paragraph("text");
    lost.append(heading_1("never shown"));
    let page = Page::from_blocks(vec![
        Block::TableOfContents(TableOfContents { headings: vec![] }),
        heading_1("one"),
        second,
        item,
        lost,
    ]);
    let headings = page.collect_headings();
    assert_eq!(headings.len(), 4);
    assert_eq!(headings[2].level, HeadingLevel::Three);
    let page = page.with_table_of_contents();
    assert_eq!(
        page.to_markdown(),
        "- [one](#one)\n  - [two](#two)\n    - [three](#three)\n  - [in a list](#in a list)\n\
         # one\n## two\n  ### three\n- item\n  ## in a list\ntext\n"
    );
}

#[test]
fn code_is_exclusive_of_the_other_styles() {
    let code_and_bold = Annotations { code: true, bold: true, ..plain() };
    assert_eq!(styled("x", code_and_bold).to_markdown(), "`x`");
    let every = Annotations { bold: true, italic: true, strikethrough: true, code: true, underline: true };
    assert_eq!(styled(" x ", every).to_markdown(), "` x `");
    assert_eq!(styled("", every).to_markdown(), "``");
    let nodes = styled("x", every).to_ast();
    assert_eq!(nodes.len(), 1);
    assert!(matches!(&nodes[0].value, NodeValue::Code(c) if c.literal == "x" && c.num_backticks == 1));
    assert!(nodes[0].children.is_empty());
    let linked = RichText::Text {
        plain_text: "x".to_string(),
        href: Some("u".to_string()),
        annotations: every,
    }
    .to_ast();
    assert_eq!(linked.len(), 1);
    assert!(matches!(&linked[0].value, NodeValue::Link(l) if l.url == "u"));
    assert_eq!(linked[0].children.len(), 1);
    assert!(matches!(&linked[0].children[0].value, NodeValue::Code(_)));
}

#[test]
fn list_items_of_different_kinds_share_one_list() {
    let mut parent = bulleted("parent");
    parent.append(bulleted("first"));
    parent.append(numbered("second"));
    parent.append(to_do("third", true));
    let list = parent.to_ast();
    let item = &list.children[0];
    assert_eq!(item.children.len(), 2);
    assert_eq!(item.children[0].value, NodeValue::Paragraph);
    assert!(matches!(item.children[1].value, NodeValue::List(l) if l.list_type == ListType::Bullet));
    assert_eq!(item.children[1].children.len(), 3);
    assert_eq!(commonmark(&list), "- parent\n  - first\n  - second\n  - [x] third\n");
}

#[test]
fn a_page_keeps_one_node_for_each_block() {
    let page = Page::from_blocks(vec![bulleted("one"), bulleted("two"), paragraph("end")]);
    let document = page.to_ast();
    assert_eq!(document.value, NodeValue::Document);
    assert_eq!(document.children.len(), 3);
    assert!(matches!(document.children[0].value, NodeValue::List(_)));
    assert!(matches!(document.children[1].value, NodeValue::List(_)));
    assert_eq!(document.children[2].value, NodeValue::Paragraph);
}

#[test]
fn table_row_alone_has_no_node() {
    let row = table_row(&["a"]);
    assert!(!row.is_tree_ready());
    assert_eq!(row.try_to_ast(), None);
    let mut item = bulleted("item");
    item.append(table_row(&["a"]));
    assert_eq!(item.try_to_ast(), None);
    assert_eq!(Page::from_blocks(vec![table_row(&["a"])]).try_to_ast(), None);
    // A heading takes no children into its node, so what they are does not matter.
    let mut heading = heading_1("title");
    heading.append(table_row(&["a"]));
    assert!(heading.is_tree_ready());
    assert!(!heading.is_renderable());
    assert_eq!(commonmark(&heading.try_to_ast().unwrap()), "# title\n");
    let mut table = table();
    table.append(table_row(&["a"]));
    assert!(table.try_to_ast().is_some());
}

#[test]
fn table_of_contents_is_filled_wherever_it_stands() {
    let mut toggle = Block::Toggle(Toggle {
        toggle: content("contents"),
        children: vec![],
        meta: BlockMeta::default(),
    });
    toggle.append(Block::TableOfContents(TableOfContents { headings: vec![] }));
    let mut column = column();
    column.append(Block::TableOfContents(TableOfContents { headings: vec![] }));
    let mut columns = Block::ColumnList(ColumnList { children: vec![], meta: BlockMeta::default() });
    columns.append(column);
    let page = Page::from_blocks(vec![toggle, heading_1("one"), columns, heading_2("two")])
        .with_table_of_contents();
    assert_eq!(
        page.to_markdown(),
        "contents\n- [one](#one)\n  - [two](#two)\n# one\n- [one](#one)\n  - [two](#two)\n## two\n"
    );
}
