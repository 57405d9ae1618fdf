use notion_to_markdown::assembler::{
    Action, BlockChildrenResponse, ListedBlock, NotionClientError, Request, Step, TreeAssembler,
};
use notion_to_markdown::block::inline::Paragraph;
use notion_to_markdown::block::layout::Divider;
use notion_to_markdown::block::list::BulletedListItem;
use notion_to_markdown::block::{Block, BlockContent, BlockMeta};
use notion_to_markdown::page::Page;
use notion_to_markdown::rich_text::{Annotations, RichText};

fn text(s: &str) -> RichText {
    RichText::Text { plain_text: s.to_string(), href: None, annotations: Annotations::default() }
}

fn paragraph(s: &str) -> Block {
    Block::Paragraph(Paragraph {
        paragraph: BlockContent { rich_text: vec![text(s)] },
        children: vec![],
        meta: BlockMeta::default(),
    })
}

fn bulleted(s: &str) -> Block {
    Block::BulletedListItem(BulletedListItem {
        bulleted_list_item: BlockContent { rich_text: vec![text(s)] },
        children: vec![],
        meta: BlockMeta::default(),
    })
}

fn listed(id: &str, has_children: bool, block: Block) -> ListedBlock {
    ListedBlock { id: id.to_string(), has_children, block }
}

fn page(results: Vec<ListedBlock>, next_cursor: Option<&str>) -> BlockChildrenResponse {
    BlockChildrenResponse { results, next_cursor: next_cursor.map(|c| c.to_string()) }
}

fn request(block_id: &str, start_cursor: Option<&str>, page_size: Option<u32>) -> Request {
    Request {
        block_id: block_id.to_string(),
        start_cursor: start_cursor.map(|c| c.to_string()),
        page_size,
    }
}

fn fetch(step: Step) -> (TreeAssembler, Request) {
    match step {
        Step::Next(state, Action::Fetch(request)) => (state, request),
        other => panic!("the assembly should ask for a page, but: {:?}", other),
    }
}

#[test]
fn two_pages_are_joined_in_order() {
    let (state, first) = TreeAssembler::start("root".to_string(), None, Some(2));
    assert_eq!(first, request("root", None, Some(2)));

    let step = state.step(Ok(page(
        vec![listed("a", false, paragraph("a")), listed("b", false, paragraph("b"))],
        Some("cursor-1"),
    )));
    let (state, second) = fetch(step);
    assert_eq!(second, request("root", Some("cursor-1"), Some(2)));

    let step = state.step(Ok(page(vec![listed("c", false, paragraph("c"))], None)));
    match step {
        Step::Done(blocks) => {
            assert_eq!(blocks, vec![paragraph("a"), paragraph("b"), paragraph("c")]);
        }
        other => panic!("the assembly should be complete, but: {:?}", other),
    }
}

#[test]
fn rate_limit_is_retried_until_the_page_comes() {
    let (mut state, first) = TreeAssembler::start("root".to_string(), Some("c0".to_string()), None);
    assert_eq!(first, request("root", Some("c0"), None));
    for _ in 0..3 {
        match state.step(Err(NotionClientError::Status(429))) {
            Step::Next(next, Action::Retry { millis, request: again }) => {
                assert_eq!(millis, 500);
                assert_eq!(again, request("root", Some("c0"), None));
                state = next;
            }
            other => panic!("the page should be asked for again, but: {:?}", other),
        }
    }
    match state.step(Ok(page(vec![listed("a", false, paragraph("a"))], None))) {
        Step::Done(blocks) => assert_eq!(blocks, vec![paragraph("a")]),
        other => panic!("the assembly should be complete, but: {:?}", other),
    }
}

#[test]
fn other_failures_end_the_assembly() {
    let (state, _) = TreeAssembler::start("root".to_string(), None, None);
    let (state, _) = fetch(state.step(Ok(page(vec![listed("a", false, paragraph("a"))], Some("c")))));
    match state.step(Err(NotionClientError::Status(500))) {
        Step::Failed(error) => {
            assert_eq!(error, NotionClientError::Status(500));
            assert_eq!(error.message(), "Unexpected status code: 500");
        }
        other => panic!("the assembly should be given up, but: {:?}", other),
    }
    let (state, _) = TreeAssembler::start("root".to_string(), None, None);
    match state.step(Err(NotionClientError::Http("connection reset".to_string()))) {
        Step::Failed(error) => assert_eq!(error.message(), "HTTP error: connection reset"),
        other => panic!("the assembly should be given up, but: {:?}", other),
    }
    assert!(NotionClientError::Status(429).rate_limited());
    assert!(!NotionClientError::Status(404).rate_limited());
    assert!(!NotionClientError::Http("429".to_string()).rate_limited());
}

#[test]
fn children_are_listed_depth_first() {
    let (state, _) = TreeAssembler::start("root".to_string(), None, None);

    // The root has three children; the first and the third have children.
    let step = state.step(Ok(page(
        vec![
            listed("a", true, bulleted("a")),
            listed("b", false, paragraph("b")),
            listed("c", true, bulleted("c")),
        ],
        None,
    )));
    let (state, asked) = fetch(step);
    assert_eq!(asked, request("a", None, None));

    // The children of `a` come in two pages; the second child has a child.
    let step = state.step(Ok(page(vec![listed("a1", false, bulleted("a1"))], Some("next"))));
    let (state, asked) = fetch(step);
    assert_eq!(asked, request("a", Some("next"), None));
    let step = state.step(Ok(page(vec![listed("a2", true, bulleted("a2"))], None)));
    let (state, asked) = fetch(step);
    assert_eq!(asked, request("a2", None, None));
    let step = state.step(Ok(page(vec![listed("a2x", false, paragraph("a2x"))], None)));

    // Only now the third child of the root has its turn.
    let (state, asked) = fetch(step);
    assert_eq!(asked, request("c", None, None));
    let step = state.step(Ok(page(vec![], None)));

    let blocks = match step {
        Step::Done(blocks) => blocks,
        other => panic!("the assembly should be complete, but: {:?}", other),
    };
    let mut a2 = bulleted("a2");
    a2.append(paragraph("a2x"));
    let mut a = bulleted("a");
    a.append(bulleted("a1"));
    a.append(a2);
    assert_eq!(blocks, vec![a, paragraph("b"), bulleted("c")]);
    assert_eq!(
        Page::from_blocks(blocks).to_markdown(),
        "- a\n  - a1\n  - a2\n    a2x\nb\n- c\n"
    );
}

#[test]
fn a_leaf_takes_no_children() {
    let (state, _) = TreeAssembler::start("root".to_string(), None, None);
    let step = state.step(Ok(page(vec![listed("d", true, Block::Divider(Divider {}))], None)));
    let (state, asked) = fetch(step);
    assert_eq!(asked, request("d", None, None));
    match state.step(Ok(page(vec![listed("x", false, paragraph("x"))], None))) {
        Step::Done(blocks) => assert_eq!(blocks, vec![Block::Divider(Divider {})]),
        other => panic!("the assembly should be complete, but: {:?}", other),
    }
}

#[test]
fn an_empty_listing_is_complete_at_once() {
    let (state, _) = TreeAssembler::start("root".to_string(), None, None);
    match state.step(Ok(page(vec![], None))) {
        Step::Done(blocks) => assert!(blocks.is_empty()),
        other => panic!("the assembly should be complete, but: {:?}", other),
    }
}
