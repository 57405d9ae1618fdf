use notion_to_markdown::assembler::BlockChildrenResponse;
use notion_to_markdown::block::link::{LinkToPage, LinkToPageContent};
use notion_to_markdown::block::table::{Table, TableContent};
use notion_to_markdown::block::{Block, BlockMeta};
use notion_to_markdown::decode::blocks::{block_kind, BlockKind};
use notion_to_markdown::rich_text::{Annotations, Mention, RichText};
use notion_to_markdown::text::{parse_decimal, text_eq};

#[test]
fn bold_paragraph_from_json_renders_bold() {
    let block = Block::from_json_str(
        r#"{"type":"paragraph","paragraph":{"rich_text":[{"type":"text","plain_text":"hello","annotations":{"bold":true}}]}}"#,
    )
    .unwrap();
    assert_eq!(block.to_markdown(), "**hello**");
}

#[test]
fn unknown_type_is_unexpected() {
    let block = Block::from_json_str(r#"{"type":"audio","audio":{"anything":[1,2,3]}}"#).unwrap();
    assert_eq!(block, Block::Unexpected);
    assert_eq!(block.to_markdown(), "<!-- unexpected block -->");
    assert_eq!(Block::from_json_str(r#"{"type":"unsupported"}"#), Some(Block::Unsupported));
    assert_eq!(block_kind("audio"), BlockKind::Unexpected);
    assert_eq!(block_kind("heading_2"), BlockKind::Heading2);
    assert_eq!(block_kind("to_do"), BlockKind::ToDo);
    assert_eq!(block_kind("To_do"), BlockKind::Unexpected);
}

#[test]
fn text_that_describes_no_block_is_refused() {
    assert_eq!(Block::from_json_str("not json"), None);
    assert_eq!(Block::from_json_str(r#"{"paragraph":{"rich_text":[]}}"#), None);
    assert_eq!(Block::from_json_str(r#"{"type":"paragraph"}"#), None);
    assert_eq!(Block::from_json_str(r#"{"type":"paragraph","paragraph":{}}"#), None);
    assert_eq!(
        Block::from_json_str(r#"{"type":"paragraph","paragraph":{"rich_text":[{"type":"text"}]}}"#),
        None
    );
    assert_eq!(
        Block::from_json_str(
            r#"{"type":"paragraph","paragraph":{"rich_text":[{"type":"equation","plain_text":"x"}]}}"#
        ),
        None
    );
    assert_eq!(Block::from_json_str(r#"{"type":"table","table":{"table_width":-1}}"#), None);
    assert_eq!(Block::from_json_str(r#"{"type":"table","table":{"table_width":1.5}}"#), None);
    assert_eq!(Block::from_json_str(r#"[{"type":"divider"}]"#), None);
}

#[test]
fn blocks_are_read_with_what_they_hold() {
    let to_do = Block::from_json_str(
        r#"{"id":"1","type":"to_do","to_do":{"checked":true,"rich_text":[
            {"type":"text","plain_text":"done","href":null,
             "annotations":{"bold":false,"italic":true,"strikethrough":false,"underline":false,"code":false}}]}}"#,
    )
    .unwrap();
    assert_eq!(to_do.to_markdown(), "- [x] _done_");

    let callout = Block::from_json_str(
        r#"{"type":"callout","callout":{"icon":{"type":"emoji","emoji":"❗"},
            "rich_text":[{"type":"text","plain_text":"this is callout"}]}}"#,
    )
    .unwrap();
    assert_eq!(callout.to_markdown(), "> ❗ this is callout");

    let table = Block::from_json_str(r#"{"type":"table","table":{"table_width":3}}"#).unwrap();
    assert_eq!(
        table,
        Block::Table(Table {
            table: TableContent { table_width: 3 },
            children: vec![],
            meta: BlockMeta::default(),
        })
    );
    let row = Block::from_json_str(
        r#"{"type":"table_row","table_row":{"cells":[[{"type":"text","plain_text":"a"}],[]]}}"#,
    )
    .unwrap();
    let mut table = table;
    table.append(row);
    assert_eq!(table.to_markdown(), "| a |  |\n| --- | --- |\n");

    let link = Block::from_json_str(
        r#"{"type":"link_to_page","link_to_page":{"type":"database_id","database_id":"db"}}"#,
    )
    .unwrap();
    assert_eq!(
        link,
        Block::LinkToPage(LinkToPage {
            link_to_page: LinkToPageContent::DatabaseId { database_id: "db".to_string() },
        })
    );

    let child_page = Block::from_json_str(
        r#"{"id":"abc","type":"child_page","child_page":{"title":"this is child page"}}"#,
    )
    .unwrap();
    assert_eq!(child_page.to_markdown(), "[Child Page: this is child page](this_is_child_page.md)");

    let image = Block::from_json_str(
        r#"{"type":"image","image":{"type":"file","file":{"url":"https://picsum.photos/200/300"}}}"#,
    )
    .unwrap();
    assert_eq!(image.to_markdown(), "![https://picsum.photos/200/300](https://picsum.photos/200/300)");

    let code = Block::from_json_str(
        r#"{"type":"code","code":{"language":"markdown","rich_text":[{"type":"text","plain_text":"this is markdown code"}]}}"#,
    )
    .unwrap();
    assert_eq!(code.to_markdown(), "``` markdown\nthis is markdown code\n```");
}

#[test]
fn mentions_are_read_by_their_kind() {
    let block = Block::from_json_str(
        r#"{"type":"paragraph","paragraph":{"rich_text":[
            {"type":"mention","mention":{"type":"user","user":{"name":"Ada"}},"annotations":{"bold":true}},
            {"type":"text","plain_text":" read "},
            {"type":"mention","mention":{"type":"link_mention","link_mention":{"title":"A page"}},
             "href":"https://example.com/p"}]}}"#,
    )
    .unwrap();
    assert_eq!(block.to_markdown(), "**Ada** read [A page](https://example.com/p)");
    match block {
        Block::Paragraph(p) => {
            assert_eq!(
                p.paragraph.rich_text[0],
                RichText::Mention {
                    mention: Mention::User { name: "Ada".to_string() },
                    href: None,
                    annotations: Annotations { bold: true, ..Annotations::default() },
                }
            );
        }
        other => panic!("a paragraph was described, but: {:?}", other),
    }
    assert_eq!(
        Block::from_json_str(
            r#"{"type":"paragraph","paragraph":{"rich_text":[{"type":"mention","mention":{"type":"date"}}]}}"#
        ),
        None
    );
}

#[test]
fn a_page_of_a_listing_is_read_with_its_cursor() {
    let page = BlockChildrenResponse::from_json_str(
        r#"{"object":"list","results":[
            {"id":"a","has_children":true,"type":"toggle","toggle":{"rich_text":[]}},
            {"id":"b","has_children":false,"type":"divider","divider":{}},
            {"type":"something_new"}],
            "next_cursor":"abc","has_more":true}"#,
    )
    .unwrap();
    assert_eq!(page.next_cursor, Some("abc".to_string()));
    assert_eq!(page.results.len(), 3);
    assert_eq!(page.results[0].id, "a");
    assert!(page.results[0].has_children);
    assert_eq!(page.results[1].id, "b");
    assert!(!page.results[1].has_children);
    assert_eq!(page.results[2].id, "");
    assert_eq!(page.results[2].block, Block::Unexpected);

    let last = BlockChildrenResponse::from_json_str(r#"{"results":[],"next_cursor":null}"#).unwrap();
    assert_eq!(last.next_cursor, None);
    assert!(last.results.is_empty());

    assert_eq!(BlockChildrenResponse::from_json_str(r#"{"next_cursor":null}"#), None);
    assert_eq!(BlockChildrenResponse::from_json_str(r#"{"results":[{"id":"x"}]}"#), None);
    assert_eq!(BlockChildrenResponse::from_json_str(r#"{"results":[],"next_cursor":7}"#), None);
}

#[test]
fn decimal_numbers_are_read() {
    assert_eq!(parse_decimal("0"), Some(0));
    assert_eq!(parse_decimal("42"), Some(42));
    assert_eq!(parse_decimal("007"), Some(7));
    assert_eq!(parse_decimal("18446744073709551615"), Some(usize::MAX));
    assert_eq!(parse_decimal("18446744073709551616"), None);
    assert_eq!(parse_decimal(""), None);
    assert_eq!(parse_decimal("-1"), None);
    assert_eq!(parse_decimal("1.0"), None);
    assert!(text_eq("abc", "abc"));
    assert!(!text_eq("abc", "abd"));
    assert!(!text_eq("abc", "ab"));
}
