//! Assembles the block tree from a listing that comes in pages.
//!
//! The assembler asks for nothing itself. It says which page it needs next;
//! the caller gets that page and hands back what came, and the assembler
//! says what to do then. A block is complete once its whole subtree is.

pub mod hydration;

use crate::block::Block;
use crate::text::{decimal, decimal_string, optional_text};
use std::collections::VecDeque;
use vstd::prelude::*;
use vstd::string::*;

verus! {

/// Why a listing could not be had.
#[derive(Debug, Clone, PartialEq, Eq)]
pub enum NotionClientError {
    /// The request did not get through.
    Http(String),
    /// The answer came with a status that is no success.
    Status(u16),
}

impl NotionClientError {
    /// The status that asks the caller to slow down.
    pub open spec fn is_rate_limit(self) -> bool {
        self matches NotionClientError::Status(code) && code == 429
    }

    /// Decides `is_rate_limit`.
    pub fn rate_limited(&self) -> (r: bool)
        ensures
            r == self.is_rate_limit(),
    {
        match self {
            NotionClientError::Status(code) => *code == 429,
            NotionClientError::Http(_) => false,
        }
    }

    /// The error in words.
    pub open spec fn text(self) -> Seq<char> {
        match self {
            NotionClientError::Http(reason) => "HTTP error: "@ + reason@,
            NotionClientError::Status(code) => "Unexpected status code: "@ + decimal(code as nat),
        }
    }

    /// Writes the error in words.
    pub fn message(&self) -> (r: String)
        ensures
            r@ == self.text(),
    {
        match self {
            NotionClientError::Http(reason) => {
                let mut r = String::from_str("HTTP error: ");
                r.append(reason.as_str());
                r
            },
            NotionClientError::Status(code) => {
                let mut r = String::from_str("Unexpected status code: ");
                r.append(decimal_string(*code as usize).as_str());
                r
            },
        }
    }
}

/// One block as the listing gives it: the block, its identifier, and
/// whether it has children of its own to be listed.
#[derive(Debug, PartialEq, Eq)]
pub struct ListedBlock {
    pub id: String,
    pub has_children: bool,
    pub block: Block,
}

/// One page of a listing. Where `next_cursor` is set there is another page.
#[derive(Debug, PartialEq, Eq)]
pub struct BlockChildrenResponse {
    pub results: Vec<ListedBlock>,
    pub next_cursor: Option<String>,
}

/// A page to ask for: the children of `block_id`, from `start_cursor` on.
#[derive(Debug, PartialEq, Eq)]
pub struct Request {
    pub block_id: String,
    pub start_cursor: Option<String>,
    pub page_size: Option<u32>,
}

/// `Request` with its texts as sequences of characters.
pub struct RequestView {
    pub block_id: Seq<char>,
    pub start_cursor: Option<Seq<char>>,
    pub page_size: Option<u32>,
}

impl View for Request {
    type V = RequestView;

    open spec fn view(&self) -> RequestView {
        RequestView {
            block_id: self.block_id@,
            start_cursor: optional_text(self.start_cursor),
            page_size: self.page_size,
        }
    }
}

/// The listing of one block's children, under way.
#[derive(Debug, PartialEq, Eq)]
pub struct Frame {
    /// The block whose children are listed.
    pub block_id: String,
    /// Where the next page starts.
    pub cursor: Option<String>,
    /// The children that were listed and are not complete yet, in order.
    pub pending: VecDeque<ListedBlock>,
    /// The children that are complete, in order.
    pub done: Vec<Block>,
    /// The block that gets the children; none for the root of the tree.
    pub owner: Option<Block>,
}

/// `Frame` as a mathematical value.
pub struct FrameView {
    pub block_id: Seq<char>,
    pub cursor: Option<Seq<char>>,
    pub pending: Seq<ListedBlock>,
    pub done: Seq<Block>,
    pub owner: Option<Block>,
}

impl View for Frame {
    type V = FrameView;

    open spec fn view(&self) -> FrameView {
        FrameView {
            block_id: self.block_id@,
            cursor: optional_text(self.cursor),
            pending: self.pending@,
            done: self.done@,
            owner: self.owner,
        }
    }
}

/// What a stack of frames holds.
pub open spec fn frames_view(frames: Seq<Frame>) -> Seq<FrameView> {
    Seq::new(frames.len(), |i: int| frames[i]@)
}

/// The state of an assembly: the listings under way, the root's first and
/// the one that is waiting for a page last.
#[derive(Debug, PartialEq, Eq)]
pub struct TreeAssembler {
    pub page_size: Option<u32>,
    pub frames: Vec<Frame>,
}

/// `TreeAssembler` as a mathematical value.
pub struct AssemblerView {
    pub page_size: Option<u32>,
    pub frames: Seq<FrameView>,
}

impl View for TreeAssembler {
    type V = AssemblerView;

    open spec fn view(&self) -> AssemblerView {
        AssemblerView { page_size: self.page_size, frames: frames_view(self.frames@) }
    }
}

/// The frames are those of an assembly under way: there is one at least,
/// the first belongs to the root and every other to a block.
pub open spec fn frames_wf(frames: Seq<FrameView>) -> bool {
    &&& frames.len() > 0
    &&& frames[0].owner is None
    &&& forall|i: int| 0 < i < frames.len() ==> (#[trigger] frames[i]).owner is Some
}

impl AssemblerView {
    /// The state before the first page: the listing of the root's children.
    pub open spec fn initial(
        block_id: Seq<char>,
        start_cursor: Option<Seq<char>>,
        page_size: Option<u32>,
    ) -> AssemblerView {
        AssemblerView {
            page_size,
            frames: seq![
                FrameView {
                    block_id,
                    cursor: start_cursor,
                    pending: Seq::empty(),
                    done: Seq::empty(),
                    owner: None,
                },
            ],
        }
    }

    /// The state is one of an assembly under way: see `frames_wf`.
    pub open spec fn wf(self) -> bool {
        frames_wf(self.frames)
    }

    /// The page that the assembly waits for.
    pub open spec fn request(self) -> RequestView {
        RequestView {
            block_id: self.frames.last().block_id,
            start_cursor: self.frames.last().cursor,
            page_size: self.page_size,
        }
    }

    /// The state once a page has come: its results stand behind those
    /// listed before, and the next page starts at `cursor`.
    pub open spec fn listed(self, results: Seq<ListedBlock>, cursor: Option<Seq<char>>) -> AssemblerView {
        let top = self.frames.last();
        AssemblerView {
            frames: self.frames.drop_last().push(
                FrameView { pending: top.pending + results, cursor, ..top },
            ),
            ..self
        }
    }
}

/// What the caller is to do next.
#[derive(Debug, PartialEq, Eq)]
pub enum Action {
    /// Get this page.
    Fetch(Request),
    /// Wait for so many milliseconds, then ask for this page once more.
    Retry { millis: u64, request: Request },
}

/// `Action` as a mathematical value.
pub enum ActionView {
    Fetch(RequestView),
    Retry { millis: u64, request: RequestView },
}

impl View for Action {
    type V = ActionView;

    open spec fn view(&self) -> ActionView {
        match self {
            Action::Fetch(request) => ActionView::Fetch(request@),
            Action::Retry { millis, request } => ActionView::Retry {
                millis: *millis,
                request: request@,
            },
        }
    }
}

/// How an assembly goes on after an answer.
#[derive(Debug, PartialEq, Eq)]
pub enum Step {
    /// It is not complete: the new state, and what to do.
    Next(TreeAssembler, Action),
    /// It is complete: the children of the root, each with its subtree.
    Done(Vec<Block>),
    /// It is given up, and nothing of the tree is handed out.
    Failed(NotionClientError),
}

/// `Step` as a mathematical value.
pub enum StepView {
    Next(AssemblerView, ActionView),
    Done(Seq<Block>),
    Failed(NotionClientError),
}

impl View for Step {
    type V = StepView;

    open spec fn view(&self) -> StepView {
        match self {
            Step::Next(state, action) => StepView::Next(state@, action@),
            Step::Done(blocks) => StepView::Done(blocks@),
            Step::Failed(error) => StepView::Failed(*error),
        }
    }
}

/// How long to wait after a rate-limit answer, in milliseconds.
pub open spec fn backoff_millis() -> u64 {
    500
}

/// `whole` is `block` with `kids` behind the children it had. A leaf takes
/// no children and stays as it is.
pub open spec fn attached(block: Block, kids: Seq<Block>, whole: Block) -> bool {
    if block.nested() is Some {
        &&& whole.nested() is Some
        &&& whole.children() == block.children() + kids
        &&& whole == block.set_children(whole.nested()->0)
    } else {
        whole == block
    }
}

/// Where the listing on top of `frames` has had its last page, the assembly
/// goes on to `out`. The listed children are taken in order. One without
/// children of its own is complete. For one with children their listing
/// starts, and the caller is asked for its first page. A listing whose
/// children are all complete hands them to its owner, which is complete
/// then; the root's listing hands them out.
pub open spec fn advance_rel(frames: Seq<FrameView>, page_size: Option<u32>, out: StepView) -> bool
    decreases
            frames.len(),
            (if frames.len() > 0 {
                frames.last().pending.len()
            } else {
                0
            }),
{
    if frames.len() == 0 {
        false
    } else {
        let top = frames.last();
        let below = frames.drop_last();
        if top.pending.len() > 0 {
            let node = top.pending[0];
            let rest = FrameView { pending: top.pending.drop_first(), ..top };
            if node.has_children {
                let listing = FrameView {
                    block_id: node.id@,
                    cursor: None,
                    pending: Seq::empty(),
                    done: Seq::empty(),
                    owner: Some(node.block),
                };
                let state = AssemblerView { page_size, frames: below.push(rest).push(listing) };
                out == StepView::Next(state, ActionView::Fetch(state.request()))
            } else {
                advance_rel(
                    below.push(FrameView { done: rest.done.push(node.block), ..rest }),
                    page_size,
                    out,
                )
            }
        } else {
            match top.owner {
                None => out == StepView::Done(top.done),
                Some(block) => {
                    &&& below.len() > 0
                    &&& exists|whole: Block|
                        {
                            &&& #[trigger] attached(block, top.done, whole)
                            &&& advance_rel(
                                below.drop_last().push(
                                    FrameView {
                                        done: below.last().done.push(whole),
                                        ..below.last()
                                    },
                                ),
                                page_size,
                                out,
                            )
                        }
                },
            }
        }
    }
}

/// After the answer `event` the assembly in state `pre` goes on to `out`.
/// A rate-limit answer changes nothing: the same page is asked for again
/// after the wait. Any other failure ends the assembly. A page with a
/// cursor is followed by the next page of the same listing, and the last
/// page of a listing by what `advance_rel` says.
pub open spec fn step_rel(
    pre: AssemblerView,
    event: Result<BlockChildrenResponse, NotionClientError>,
    out: StepView,
) -> bool {
    match event {
        Err(error) => if error.is_rate_limit() {
            out == StepView::Next(
                pre,
                ActionView::Retry { millis: backoff_millis(), request: pre.request() },
            )
        } else {
            out == StepView::Failed(error)
        },
        Ok(page) => match page.next_cursor {
            Some(cursor) => {
                let state = pre.listed(page.results@, Some(cursor@));
                out == StepView::Next(state, ActionView::Fetch(state.request()))
            },
            None => advance_rel(pre.listed(page.results@, None).frames, pre.page_size, out),
        },
    }
}

fn copy_cursor(cursor: &Option<String>) -> (r: Option<String>)
    ensures
        r == *cursor,
{
    match cursor {
        Some(c) => Some(c.clone()),
        None => None,
    }
}

fn request_of(frames: &Vec<Frame>, page_size: Option<u32>) -> (r: Request)
    requires
        frames.len() > 0,
    ensures
        r@ == (AssemblerView { page_size, frames: frames_view(frames@) }).request(),
{
    let top = &frames[frames.len() - 1];
    Request {
        block_id: top.block_id.clone(),
        start_cursor: copy_cursor(&top.cursor),
        page_size,
    }
}

fn enqueue(queue: &mut VecDeque<ListedBlock>, results: Vec<ListedBlock>)
    ensures
        final(queue)@ == old(queue)@ + results@,
{
    let ghost before = queue@;
    let ghost all = results@;
    for node in it: results
        invariant
            it.seq() == all,
            queue@ == before + all.take(it.index() as int),
    {
        queue.push_back(node);
        assert(all.take(it.index() as int).push(node) == all.take(it.index() + 1));
    }
    assert(all.take(all.len() as int) == all);
}

fn attach(block: Block, kids: Vec<Block>) -> (whole: Block)
    ensures
        attached(block, kids@, whole),
{
    let ghost all = kids@;
    let mut whole = block;
    assert(block.children() + all.take(0) == block.children());
    for kid in it: kids
        invariant
            it.seq() == all,
            attached(block, all.take(it.index() as int), whole),
    {
        whole.append(kid);
        assert(all.take(it.index() as int).push(kid) == all.take(it.index() + 1));
        assert(block.nested() is Some ==> whole.children() == block.children() + all.take(
            it.index() + 1,
        ));
    }
    assert(all.take(all.len() as int) == all);
    whole
}

fn advance(listings: Vec<Frame>, page_size: Option<u32>) -> (r: Step)
    requires
        frames_wf(frames_view(listings@)),
    ensures
        advance_rel(frames_view(listings@), page_size, r@),
        r matches Step::Next(next, _) ==> next@.wf(),
{
    let ghost init = frames_view(listings@);
    let mut frames = listings;
    loop
        invariant
            init == frames_view(listings@),
            frames_wf(frames_view(frames@)),
            forall|out: StepView|
                advance_rel(frames_view(frames@), page_size, out) ==> advance_rel(
                    init,
                    page_size,
                    out,
                ),
        decreases frames@.len(), frames@.last().pending@.len(),
    {
        let ghost before = frames_view(frames@);
        let mut top = frames.pop().unwrap();
        let ghost below = frames_view(frames@);
        assert(below == before.drop_last());
        assert(top@ == before.last());
        match top.pending.pop_front() {
            Some(node) => {
                if node.has_children {
                    let request = Request {
                        block_id: node.id.clone(),
                        start_cursor: None,
                        page_size,
                    };
                    let listing = Frame {
                        block_id: node.id,
                        cursor: None,
                        pending: VecDeque::new(),
                        done: Vec::new(),
                        owner: Some(node.block),
                    };
                    frames.push(top);
                    frames.push(listing);
                    let next = TreeAssembler { page_size, frames };
                    assert(next@.frames == below.push(top@).push(listing@));
                    let r = Step::Next(next, Action::Fetch(request));
                    assert(advance_rel(before, page_size, r@));
                    return r;
                } else {
                    top.done.push(node.block);
                    frames.push(top);
                    assert(frames_view(frames@) == below.push(top@));
                }
            },
            None => {
                match top.owner {
                    None => {
                        let r = Step::Done(top.done);
                        assert(advance_rel(before, page_size, r@));
                        return r;
                    },
                    Some(block) => {
                        let ghost kids = top.done@;
                        let whole = attach(block, top.done);
                        assert(before.len() > 1) by {
                            if before.len() == 1 {
                                assert(before[0].owner is None);
                            }
                        }
                        let mut parent = frames.pop().unwrap();
                        let ghost under = parent@;
                        parent.done.push(whole);
                        frames.push(parent);
                        let ghost after = frames_view(frames@);
                        assert(after == below.drop_last().push(
                            FrameView { done: under.done.push(whole), ..under },
                        ));
                        assert(under == below.last());
                        assert forall|out: StepView|
                            advance_rel(after, page_size, out) implies advance_rel(
                            before,
                            page_size,
                            out,
                        ) by {
                            assert(attached(block, kids, whole));
                        }
                    },
                }
            },
        }
    }
}

impl TreeAssembler {
    /// Whether the state is one of an assembly under way: what `start` and
    /// `step` hand out always is.
    pub fn is_well_formed(&self) -> (r: bool)
        ensures
            r == self@.wf(),
    {
        if self.frames.len() == 0 {
            return false;
        }
        if self.frames[0].owner.is_some() {
            return false;
        }
        let mut i: usize = 1;
        while i < self.frames.len()
            invariant
                1 <= i <= self.frames.len(),
                self@.frames[0].owner is None,
                forall|k: int| 0 < k < i ==> (#[trigger] self@.frames[k]).owner is Some,
            decreases self.frames.len() - i,
        {
            if self.frames[i].owner.is_none() {
                assert(self@.frames[i as int].owner is None);
                return false;
            }
            i = i + 1;
        }
        true
    }

    /// Begins the assembly of the tree under `block_id`, and asks for the
    /// first page of its children.
    pub fn start(block_id: String, start_cursor: Option<String>, page_size: Option<u32>) -> (r: (
        TreeAssembler,
        Request,
    ))
        ensures
            r.0@ == AssemblerView::initial(block_id@, optional_text(start_cursor), page_size),
            r.0@.wf(),
            r.1@ == r.0@.request(),
    {
        let request = Request {
            block_id: block_id.clone(),
            start_cursor: copy_cursor(&start_cursor),
            page_size,
        };
        let root = Frame {
            block_id,
            cursor: start_cursor,
            pending: VecDeque::new(),
            done: Vec::new(),
            owner: None,
        };
        let mut frames: Vec<Frame> = Vec::new();
        frames.push(root);
        let state = TreeAssembler { page_size, frames };
        assert(state@.frames =~= AssemblerView::initial(
            block_id@,
            optional_text(start_cursor),
            page_size,
        ).frames);
        (state, request)
    }

    /// Takes the answer to the page that was asked for, and says how the
    /// assembly goes on: see `step_rel`.
    pub fn step(self, event: Result<BlockChildrenResponse, NotionClientError>) -> (r: Step)
        requires
            self@.wf(),
        ensures
            step_rel(self@, event, r@),
            r matches Step::Next(next, _) ==> next@.wf(),
    {
        let page_size = self.page_size;
        let mut frames = self.frames;
        let ghost before = frames_view(frames@);
        match event {
            Err(error) => {
                if error.rate_limited() {
                    let request = request_of(&frames, page_size);
                    Step::Next(
                        TreeAssembler { page_size, frames },
                        Action::Retry { millis: 500, request },
                    )
                } else {
                    Step::Failed(error)
                }
            },
            Ok(page) => {
                let mut top = frames.pop().unwrap();
                assert(frames_view(frames@) == before.drop_last());
                assert(top@ == before.last());
                enqueue(&mut top.pending, page.results);
                top.cursor = page.next_cursor;
                let more = top.cursor.is_some();
                frames.push(top);
                assert(frames_view(frames@) == self@.listed(
                    page.results@,
                    optional_text(page.next_cursor),
                ).frames);
                if more {
                    let request = request_of(&frames, page_size);
                    Step::Next(TreeAssembler { page_size, frames }, Action::Fetch(request))
                } else {
                    advance(frames, page_size)
                }
            },
        }
    }
}

/// The answers `events`, given one after the other to an assembly in state
/// `pre`, end in `out`; none before the last ends the assembly.
pub open spec fn run_rel(
    pre: AssemblerView,
    events: Seq<Result<BlockChildrenResponse, NotionClientError>>,
    out: StepView,
) -> bool
    decreases events.len(),
{
    if events.len() == 0 {
        false
    } else if events.len() == 1 {
        step_rel(pre, events[0], out)
    } else {
        exists|mid: AssemblerView, action: ActionView|
            {
                &&& #[trigger] step_rel(pre, events[0], StepView::Next(mid, action))
                &&& run_rel(mid, events.drop_first(), out)
            }
    }
}

/// `n` rate-limit answers.
pub open spec fn rate_limits(n: nat) -> Seq<Result<BlockChildrenResponse, NotionClientError>> {
    Seq::new(n, |i: int| Err(NotionClientError::Status(429)))
}

/// The blocks of a page's results, in order.
pub open spec fn blocks_of(results: Seq<ListedBlock>) -> Seq<Block> {
    Seq::new(results.len(), |i: int| results[i].block)
}

/// None of the listed blocks has children of its own.
pub open spec fn childless(results: Seq<ListedBlock>) -> bool {
    forall|i: int| 0 <= i < results.len() ==> !(#[trigger] results[i]).has_children
}

/// The blocks of all the pages, page after page.
pub open spec fn all_blocks(pages: Seq<BlockChildrenResponse>) -> Seq<Block>
    decreases pages.len(),
{
    if pages.len() == 0 {
        Seq::empty()
    } else {
        blocks_of(pages[0].results@) + all_blocks(pages.drop_first())
    }
}

/// The pages are those of one listing: each but the last names a next
/// page, and the last names none.
pub open spec fn one_listing(pages: Seq<BlockChildrenResponse>) -> bool {
    &&& pages.len() > 0
    &&& forall|i: int| 0 <= i < pages.len() - 1 ==> (#[trigger] pages[i]).next_cursor is Some
    &&& pages.last().next_cursor is None
}

/// The pages as the answers that bring them.
pub open spec fn answers(pages: Seq<BlockChildrenResponse>) -> Seq<
    Result<BlockChildrenResponse, NotionClientError>,
> {
    Seq::new(pages.len(), |i: int| Ok(pages[i]))
}

/// A rate-limit answer is never handed on to the caller as a failure, and
/// it leaves no trace: the same page is asked for again after the wait, and
/// after any number of such answers the assembly goes on with the next
/// answer exactly as it would have without them.
pub proof fn lemma_rate_limits_are_retried(
    pre: AssemblerView,
    n: nat,
    event: Result<BlockChildrenResponse, NotionClientError>,
    out: StepView,
)
    ensures
        step_rel(pre, Err(NotionClientError::Status(429)), out) <==> out == StepView::Next(
            pre,
            ActionView::Retry { millis: 500, request: pre.request() },
        ),
        run_rel(pre, rate_limits(n) + seq![event], out) <==> step_rel(pre, event, out),
    decreases n,
{
    let events = rate_limits(n) + seq![event];
    if n == 0 {
        assert(events =~= seq![event]);
    } else {
        let retry = ActionView::Retry { millis: 500, request: pre.request() };
        assert(events[0] == Err::<BlockChildrenResponse, NotionClientError>(
            NotionClientError::Status(429),
        ));
        assert(events.drop_first() =~= rate_limits((n - 1) as nat) + seq![event]);
        lemma_rate_limits_are_retried(pre, (n - 1) as nat, event, out);
        if step_rel(pre, event, out) {
            assert(step_rel(pre, events[0], StepView::Next(pre, retry)));
            assert(run_rel(pre, events, out));
        }
        if run_rel(pre, events, out) {
            let (mid, action) = choose|mid: AssemblerView, action: ActionView|
                {
                    &&& #[trigger] step_rel(pre, events[0], StepView::Next(mid, action))
                    &&& run_rel(mid, events.drop_first(), out)
                };
            assert(mid == pre);
        }
    }
}

proof fn lemma_blocks_of_concat(a: Seq<ListedBlock>, b: Seq<ListedBlock>)
    ensures
        blocks_of(a + b) == blocks_of(a) + blocks_of(b),
{
    assert(blocks_of(a + b) =~= blocks_of(a) + blocks_of(b));
}

proof fn lemma_childless_listing_completes(frame: FrameView, page_size: Option<u32>, out: StepView)
    requires
        frame.owner is None,
        childless(frame.pending),
        advance_rel(seq![frame], page_size, out),
    ensures
        out == StepView::Done(frame.done + blocks_of(frame.pending)),
    decreases frame.pending.len(),
{
    let frames = seq![frame];
    assert(frames.last() == frame);
    if frame.pending.len() > 0 {
        let node = frame.pending[0];
        let rest = FrameView { pending: frame.pending.drop_first(), ..frame };
        let next = FrameView { done: rest.done.push(node.block), ..rest };
        assert(frames.drop_last().push(next) =~= seq![next]);
        assert(childless(next.pending)) by {
            assert forall|i: int| 0 <= i < next.pending.len() implies !(
            #[trigger] next.pending[i]).has_children by {
                assert(next.pending[i] == frame.pending[i + 1]);
            }
        }
        lemma_childless_listing_completes(next, page_size, out);
        assert(next.done + blocks_of(next.pending) =~= frame.done + blocks_of(frame.pending));
    } else {
        assert(frame.done + blocks_of(frame.pending) =~= frame.done);
    }
}

/// A listing that comes in pages yields the blocks of all its pages, page
/// after page and each page in its order: none is left out and none comes
/// twice where one page ends and the next begins. (Stated for blocks
/// without children of their own, which are complete as they are listed.)
pub proof fn lemma_pages_are_joined_in_order(
    pre: AssemblerView,
    pages: Seq<BlockChildrenResponse>,
    out: StepView,
)
    requires
        pre.frames.len() == 1,
        pre.frames[0].owner is None,
        childless(pre.frames[0].pending),
        one_listing(pages),
        forall|i: int| 0 <= i < pages.len() ==> childless((#[trigger] pages[i]).results@),
        run_rel(pre, answers(pages), out),
    ensures
        out == StepView::Done(
            pre.frames[0].done + blocks_of(pre.frames[0].pending) + all_blocks(pages),
        ),
    decreases pages.len(),
{
    let root = pre.frames[0];
    let events = answers(pages);
    let page = pages[0];
    assert(events[0] == Ok::<BlockChildrenResponse, NotionClientError>(page));
    assert(pre.frames.last() == root);
    assert(pre.frames.drop_last() =~= Seq::<FrameView>::empty());
    lemma_blocks_of_concat(root.pending, page.results@);
    assert(childless(root.pending + page.results@)) by {
        assert(childless(page.results@));
    }
    if pages.len() == 1 {
        let last = FrameView { pending: root.pending + page.results@, cursor: None, ..root };
        assert(pre.listed(page.results@, None).frames =~= seq![last]);
        lemma_childless_listing_completes(last, pre.page_size, out);
        assert(all_blocks(pages.drop_first()) =~= Seq::<Block>::empty());
        assert(root.done + blocks_of(last.pending) =~= root.done + blocks_of(root.pending)
            + all_blocks(pages));
    } else {
        let (mid, action) = choose|mid: AssemblerView, action: ActionView|
            {
                &&& #[trigger] step_rel(pre, events[0], StepView::Next(mid, action))
                &&& run_rel(mid, events.drop_first(), out)
            };
        let cursor = page.next_cursor->0;
        assert(mid == pre.listed(page.results@, Some(cursor@)));
        let top = FrameView { pending: root.pending + page.results@, cursor: Some(cursor@), ..root };
        assert(mid.frames =~= seq![top]);
        let rest = pages.drop_first();
        assert(events.drop_first() =~= answers(rest));
        assert(one_listing(rest)) by {
            assert forall|i: int| 0 <= i < rest.len() - 1 implies (
            #[trigger] rest[i]).next_cursor is Some by {
                assert(rest[i] == pages[i + 1]);
            }
        }
        assert forall|i: int| 0 <= i < rest.len() implies childless(
            (#[trigger] rest[i]).results@,
        ) by {
            assert(rest[i] == pages[i + 1]);
        }
        lemma_pages_are_joined_in_order(mid, rest, out);
        assert(top.done + blocks_of(top.pending) + all_blocks(rest) =~= root.done + blocks_of(
            root.pending,
        ) + all_blocks(pages));
    }
}

} // verus!
