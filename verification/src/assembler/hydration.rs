//! What an assembly comes to: the tree that the listing describes.
//!
//! The listing is taken as a function from requests to pages. A run of the
//! assembler in which every request gets the page that the listing has for
//! it ends with the blocks under the root, each with the blocks under it.

use crate::assembler::{
    advance_rel, attached, frames_wf, step_rel, ActionView, AssemblerView, BlockChildrenResponse,
    FrameView, ListedBlock, NotionClientError, RequestView, StepView,
};
use crate::block::Block;
use crate::text::optional_text;
use vstd::prelude::*;

verus! {

/// What a listing holds from the page at `cursor` on: the results of that
/// page and of the pages after it. `None` where the listing does not end
/// within `fuel` pages.
pub open spec fn rest_of_listing(
    remote: spec_fn(RequestView) -> BlockChildrenResponse,
    block_id: Seq<char>,
    cursor: Option<Seq<char>>,
    page_size: Option<u32>,
    fuel: nat,
) -> Option<Seq<ListedBlock>>
    decreases fuel,
{
    if fuel == 0 {
        None
    } else {
        let page = remote(RequestView { block_id, start_cursor: cursor, page_size });
        match page.next_cursor {
            None => Some(page.results@),
            Some(next) => match rest_of_listing(
                remote,
                block_id,
                Some(next@),
                page_size,
                (fuel - 1) as nat,
            ) {
                Some(rest) => Some(page.results@ + rest),
                None => None,
            },
        }
    }
}

/// `whole` is the listed block `node` with its subtree: the block itself
/// where it has no children, else the block with what its own listing
/// holds, each of those with its subtree, behind the children it had.
/// `fuel` bounds how deep the tree and how long a listing may be.
pub open spec fn hydrated_one(
    remote: spec_fn(RequestView) -> BlockChildrenResponse,
    page_size: Option<u32>,
    node: ListedBlock,
    fuel: nat,
    whole: Block,
) -> bool
    decreases fuel, 0nat,
{
    if !node.has_children {
        whole == node.block
    } else {
        &&& fuel > 0
        &&& rest_of_listing(remote, node.id@, None, page_size, (fuel - 1) as nat) is Some
        &&& exists|kids: Seq<Block>|
            {
                &&& #[trigger] attached(node.block, kids, whole)
                &&& hydrated_all(
                    remote,
                    page_size,
                    rest_of_listing(remote, node.id@, None, page_size, (fuel - 1) as nat)->0,
                    (fuel - 1) as nat,
                    kids,
                )
            }
    }
}

/// `out` are the listed blocks `nodes`, one for one and in their order,
/// each with its subtree.
pub open spec fn hydrated_all(
    remote: spec_fn(RequestView) -> BlockChildrenResponse,
    page_size: Option<u32>,
    nodes: Seq<ListedBlock>,
    fuel: nat,
    out: Seq<Block>,
) -> bool
    decreases fuel, 1nat,
{
    &&& out.len() == nodes.len()
    &&& forall|i: int|
        #![trigger out[i]]
        0 <= i < nodes.len() ==> hydrated_one(remote, page_size, nodes[i], fuel, out[i])
}

/// A pair of witnesses, for stating what exists.
pub open spec fn both(whole: Block, more: Seq<Block>) -> bool {
    true
}

/// The listings in `below` wait for `result`, the complete children of the
/// block `owner`. With them the owner is complete; the listing that it came
/// from goes on with its other blocks, hands its own result down, and so
/// on until the root's listing hands out `out`.
pub open spec fn finishes(
    remote: spec_fn(RequestView) -> BlockChildrenResponse,
    page_size: Option<u32>,
    below: Seq<FrameView>,
    owner: Option<Block>,
    result: Seq<Block>,
    fuel: nat,
    out: Seq<Block>,
) -> bool
    decreases below.len(),
{
    match owner {
        None => below.len() == 0 && out == result,
        Some(block) => {
            &&& below.len() > 0
            &&& exists|whole: Block, more: Seq<Block>|
                {
                    &&& #[trigger] both(whole, more)
                    &&& attached(block, result, whole)
                    &&& hydrated_all(remote, page_size, below.last().pending, fuel, more)
                    &&& finishes(
                        remote,
                        page_size,
                        below.drop_last(),
                        below.last().owner,
                        below.last().done.push(whole) + more,
                        fuel,
                        out,
                    )
                }
        },
    }
}

/// The listing on top of `frames` has had its last page, and the assembly
/// ends with `out`: the blocks that it still holds get their subtrees, and
/// the listings below finish.
pub open spec fn resumes(
    remote: spec_fn(RequestView) -> BlockChildrenResponse,
    page_size: Option<u32>,
    frames: Seq<FrameView>,
    fuel: nat,
    out: Seq<Block>,
) -> bool {
    &&& frames.len() > 0
    &&& exists|more: Seq<Block>|
        {
            &&& #[trigger] hydrated_all(remote, page_size, frames.last().pending, fuel, more)
            &&& finishes(
                remote,
                page_size,
                frames.drop_last(),
                frames.last().owner,
                frames.last().done + more,
                fuel,
                out,
            )
        }
}

/// The listing on top of `frames` waits for the page at its cursor, and the
/// assembly ends with `out`: the rest of the listing comes in, and then the
/// assembly resumes as above.
pub open spec fn completes(
    remote: spec_fn(RequestView) -> BlockChildrenResponse,
    page_size: Option<u32>,
    frames: Seq<FrameView>,
    fuel: nat,
    out: Seq<Block>,
) -> bool {
    &&& frames.len() > 0
    &&& rest_of_listing(remote, frames.last().block_id, frames.last().cursor, page_size, fuel)
        is Some
    &&& resumes(
        remote,
        page_size,
        frames.drop_last().push(
            FrameView {
                pending: frames.last().pending + rest_of_listing(
                    remote,
                    frames.last().block_id,
                    frames.last().cursor,
                    page_size,
                    fuel,
                )->0,
                ..frames.last()
            },
        ),
        fuel,
        out,
    )
}

/// An assembly in state `pre` in which every request is answered by the
/// page that the listing has for it ends, after `steps` answers at most,
/// with the blocks `out`.
pub open spec fn served_run(
    remote: spec_fn(RequestView) -> BlockChildrenResponse,
    pre: AssemblerView,
    steps: nat,
    out: Seq<Block>,
) -> bool
    decreases steps,
{
    &&& steps > 0
    &&& exists|next: StepView|
        {
            &&& #[trigger] step_rel(
                pre,
                Ok::<BlockChildrenResponse, NotionClientError>(remote(pre.request())),
                next,
            )
            &&& match next {
                StepView::Done(blocks) => out == blocks,
                StepView::Next(mid, _) => served_run(remote, mid, (steps - 1) as nat, out),
                StepView::Failed(_) => false,
            }
        }
}

proof fn lemma_listing_within_more(
    remote: spec_fn(RequestView) -> BlockChildrenResponse,
    block_id: Seq<char>,
    cursor: Option<Seq<char>>,
    page_size: Option<u32>,
    fuel: nat,
    more: nat,
)
    requires
        fuel <= more,
        rest_of_listing(remote, block_id, cursor, page_size, fuel) is Some,
    ensures
        rest_of_listing(remote, block_id, cursor, page_size, more) == rest_of_listing(
            remote,
            block_id,
            cursor,
            page_size,
            fuel,
        ),
    decreases fuel,
{
    let page = remote(RequestView { block_id, start_cursor: cursor, page_size });
    if page.next_cursor is Some {
        lemma_listing_within_more(
            remote,
            block_id,
            Some(page.next_cursor->0@),
            page_size,
            (fuel - 1) as nat,
            (more - 1) as nat,
        );
    }
}

proof fn lemma_hydrated_one_within_more(
    remote: spec_fn(RequestView) -> BlockChildrenResponse,
    page_size: Option<u32>,
    node: ListedBlock,
    fuel: nat,
    more: nat,
    whole: Block,
)
    requires
        fuel <= more,
        hydrated_one(remote, page_size, node, fuel, whole),
    ensures
        hydrated_one(remote, page_size, node, more, whole),
    decreases fuel, 0nat,
{
    if node.has_children {
        let listed = rest_of_listing(remote, node.id@, None, page_size, (fuel - 1) as nat)->0;
        let kids = choose|kids: Seq<Block>|
            {
                &&& #[trigger] attached(node.block, kids, whole)
                &&& hydrated_all(remote, page_size, listed, (fuel - 1) as nat, kids)
            };
        lemma_listing_within_more(
            remote,
            node.id@,
            None,
            page_size,
            (fuel - 1) as nat,
            (more - 1) as nat,
        );
        lemma_hydrated_all_within_more(
            remote,
            page_size,
            listed,
            (fuel - 1) as nat,
            (more - 1) as nat,
            kids,
        );
        assert(attached(node.block, kids, whole));
    }
}

proof fn lemma_hydrated_all_within_more(
    remote: spec_fn(RequestView) -> BlockChildrenResponse,
    page_size: Option<u32>,
    nodes: Seq<ListedBlock>,
    fuel: nat,
    more: nat,
    out: Seq<Block>,
)
    requires
        fuel <= more,
        hydrated_all(remote, page_size, nodes, fuel, out),
    ensures
        hydrated_all(remote, page_size, nodes, more, out),
    decreases fuel, 1nat,
{
    assert forall|i: int| #![trigger out[i]] 0 <= i < nodes.len() implies hydrated_one(
        remote,
        page_size,
        nodes[i],
        more,
        out[i],
    ) by {
        assert(hydrated_one(remote, page_size, nodes[i], fuel, out[i]));
        lemma_hydrated_one_within_more(remote, page_size, nodes[i], fuel, more, out[i]);
    }
}

proof fn lemma_finishes_within_more(
    remote: spec_fn(RequestView) -> BlockChildrenResponse,
    page_size: Option<u32>,
    below: Seq<FrameView>,
    owner: Option<Block>,
    result: Seq<Block>,
    fuel: nat,
    more: nat,
    out: Seq<Block>,
)
    requires
        fuel <= more,
        finishes(remote, page_size, below, owner, result, fuel, out),
    ensures
        finishes(remote, page_size, below, owner, result, more, out),
    decreases below.len(),
{
    if owner is Some {
        let (whole, rest) = choose|whole: Block, rest: Seq<Block>|
            {
                &&& #[trigger] both(whole, rest)
                &&& attached(owner->0, result, whole)
                &&& hydrated_all(remote, page_size, below.last().pending, fuel, rest)
                &&& finishes(
                    remote,
                    page_size,
                    below.drop_last(),
                    below.last().owner,
                    below.last().done.push(whole) + rest,
                    fuel,
                    out,
                )
            };
        lemma_hydrated_all_within_more(remote, page_size, below.last().pending, fuel, more, rest);
        lemma_finishes_within_more(
            remote,
            page_size,
            below.drop_last(),
            below.last().owner,
            below.last().done.push(whole) + rest,
            fuel,
            more,
            out,
        );
        assert(both(whole, rest));
    }
}

proof fn lemma_resumes_within_more(
    remote: spec_fn(RequestView) -> BlockChildrenResponse,
    page_size: Option<u32>,
    frames: Seq<FrameView>,
    fuel: nat,
    more: nat,
    out: Seq<Block>,
)
    requires
        fuel <= more,
        resumes(remote, page_size, frames, fuel, out),
    ensures
        resumes(remote, page_size, frames, more, out),
{
    let rest = choose|rest: Seq<Block>|
        {
            &&& #[trigger] hydrated_all(remote, page_size, frames.last().pending, fuel, rest)
            &&& finishes(
                remote,
                page_size,
                frames.drop_last(),
                frames.last().owner,
                frames.last().done + rest,
                fuel,
                out,
            )
        };
    lemma_hydrated_all_within_more(remote, page_size, frames.last().pending, fuel, more, rest);
    lemma_finishes_within_more(
        remote,
        page_size,
        frames.drop_last(),
        frames.last().owner,
        frames.last().done + rest,
        fuel,
        more,
        out,
    );
}

proof fn lemma_hydrated_first(
    remote: spec_fn(RequestView) -> BlockChildrenResponse,
    page_size: Option<u32>,
    nodes: Seq<ListedBlock>,
    fuel: nat,
    whole: Block,
    more: Seq<Block>,
)
    requires
        nodes.len() > 0,
        hydrated_one(remote, page_size, nodes[0], fuel, whole),
        hydrated_all(remote, page_size, nodes.drop_first(), fuel, more),
    ensures
        hydrated_all(remote, page_size, nodes, fuel, seq![whole] + more),
{
    let out = seq![whole] + more;
    assert forall|i: int| #![trigger out[i]] 0 <= i < nodes.len() implies hydrated_one(
        remote,
        page_size,
        nodes[i],
        fuel,
        out[i],
    ) by {
        if i > 0 {
            assert(nodes[i] == nodes.drop_first()[i - 1]);
            assert(out[i] == more[i - 1]);
            assert(hydrated_one(remote, page_size, nodes.drop_first()[i - 1], fuel, more[i - 1]));
        }
    }
}

/// What `advance_rel` leads to is what `resumes` describes.
proof fn lemma_advance(
    remote: spec_fn(RequestView) -> BlockChildrenResponse,
    frames: Seq<FrameView>,
    page_size: Option<u32>,
    next: StepView,
)
    requires
        frames_wf(frames),
        advance_rel(frames, page_size, next),
    ensures
        !(next is Failed),
        next matches StepView::Done(blocks) ==> resumes(remote, page_size, frames, 0, blocks),
        next matches StepView::Next(mid, _) ==> {
            &&& mid.wf()
            &&& mid.page_size == page_size
            &&& forall|fuel: nat, out: Seq<Block>|
                #[trigger] completes(remote, page_size, mid.frames, fuel, out) ==> resumes(
                    remote,
                    page_size,
                    frames,
                    fuel + 1,
                    out,
                )
        },
    decreases frames.len(), frames.last().pending.len(),
{
    let top = frames.last();
    let below = frames.drop_last();
    let none = Seq::<Block>::empty();
    if top.pending.len() > 0 {
        let node = top.pending[0];
        let rest = FrameView { pending: top.pending.drop_first(), ..top };
        if node.has_children {
            let listing = FrameView {
                block_id: node.id@,
                cursor: None,
                pending: Seq::empty(),
                done: Seq::empty(),
                owner: Some(node.block),
            };
            let mid = AssemblerView { page_size, frames: below.push(rest).push(listing) };
            assert(next == StepView::Next(mid, ActionView::Fetch(mid.request())));
            assert(mid.frames.last() == listing);
            assert(mid.frames.drop_last() == below.push(rest));
            assert(mid.wf()) by {
                assert forall|i: int| 0 < i < mid.frames.len() implies (
                #[trigger] mid.frames[i]).owner is Some by {
                    if i < below.len() {
                        assert(mid.frames[i] == frames[i]);
                    }
                }
                if below.len() > 0 {
                    assert(mid.frames[0] == frames[0]);
                }
            }
            assert forall|fuel: nat, out: Seq<Block>| #[trigger]
                completes(remote, page_size, mid.frames, fuel, out) implies resumes(
                remote,
                page_size,
                frames,
                fuel + 1,
                out,
            ) by {
                let listed = rest_of_listing(remote, node.id@, None, page_size, fuel)->0;
                let filled = FrameView { pending: listing.pending + listed, ..listing };
                let waiting = below.push(rest).push(filled);
                assert(mid.frames.drop_last().push(filled) == waiting);
                assert(resumes(remote, page_size, waiting, fuel, out));
                assert(waiting.last() == filled);
                assert(waiting.drop_last() == below.push(rest));
                assert(filled.pending == listed);
                let kids = choose|kids: Seq<Block>|
                    {
                        &&& #[trigger] hydrated_all(remote, page_size, listed, fuel, kids)
                        &&& finishes(
                            remote,
                            page_size,
                            below.push(rest),
                            filled.owner,
                            filled.done + kids,
                            fuel,
                            out,
                        )
                    };
                assert(filled.done + kids == kids);
                assert(below.push(rest).last() == rest);
                assert(below.push(rest).drop_last() == below);
                let (whole, more) = choose|whole: Block, more: Seq<Block>|
                    {
                        &&& #[trigger] both(whole, more)
                        &&& attached(node.block, kids, whole)
                        &&& hydrated_all(remote, page_size, rest.pending, fuel, more)
                        &&& finishes(
                            remote,
                            page_size,
                            below,
                            rest.owner,
                            rest.done.push(whole) + more,
                            fuel,
                            out,
                        )
                    };
                assert(attached(node.block, kids, whole));
                assert(hydrated_one(remote, page_size, node, fuel + 1, whole));
                lemma_hydrated_all_within_more(remote, page_size, rest.pending, fuel, fuel + 1, more);
                lemma_hydrated_first(remote, page_size, top.pending, fuel + 1, whole, more);
                lemma_finishes_within_more(
                    remote,
                    page_size,
                    below,
                    rest.owner,
                    rest.done.push(whole) + more,
                    fuel,
                    fuel + 1,
                    out,
                );
                assert(rest.done.push(whole) + more == top.done + (seq![whole] + more));
                assert(hydrated_all(remote, page_size, top.pending, fuel + 1, seq![whole] + more));
            }
        } else {
            let moved = FrameView { done: rest.done.push(node.block), ..rest };
            let after = below.push(moved);
            assert(after.last() == moved);
            assert(after.drop_last() == below);
            assert(frames_wf(after)) by {
                assert forall|i: int| 0 < i < after.len() implies (#[trigger] after[i]).owner
                    is Some by {
                    if i < below.len() {
                        assert(after[i] == frames[i]);
                    } else {
                        assert(frames[i].owner is Some);
                    }
                }
                if below.len() > 0 {
                    assert(after[0] == frames[0]);
                }
            }
            lemma_advance(remote, after, page_size, next);
            if next is Done {
                lemma_one_more_done(remote, page_size, frames, 0, next->Done_0);
            }
            if next is Next {
                let mid = next->Next_0;
                assert forall|fuel: nat, out: Seq<Block>| #[trigger]
                    completes(remote, page_size, mid.frames, fuel, out) implies resumes(
                    remote,
                    page_size,
                    frames,
                    fuel + 1,
                    out,
                ) by {
                    assert(resumes(remote, page_size, after, fuel + 1, out));
                    lemma_one_more_done(remote, page_size, frames, fuel + 1, out);
                }
            }
        }
    } else {
        match top.owner {
            None => {
                assert(below.len() == 0) by {
                    if below.len() > 0 {
                        assert(frames[frames.len() - 1].owner is Some);
                    }
                }
                assert(hydrated_all(remote, page_size, top.pending, 0, none));
                assert(top.done + none == top.done);
            },
            Some(block) => {
                let whole = choose|whole: Block|
                    {
                        &&& #[trigger] attached(block, top.done, whole)
                        &&& advance_rel(
                            below.drop_last().push(
                                FrameView {
                                    done: below.last().done.push(whole),
                                    ..below.last()
                                },
                            ),
                            page_size,
                            next,
                        )
                    };
                let parent = FrameView { done: below.last().done.push(whole), ..below.last() };
                let after = below.drop_last().push(parent);
                assert(after.last() == parent);
                assert(after.drop_last() == below.drop_last());
                assert(frames_wf(after)) by {
                    assert forall|i: int| 0 < i < after.len() implies (#[trigger] after[i]).owner
                        is Some by {
                        assert(frames[i].owner is Some);
                        if i < after.len() - 1 {
                            assert(after[i] == frames[i]);
                        } else {
                            assert(after[i].owner == frames[i].owner);
                        }
                    }
                    assert(after[0].owner == frames[0].owner);
                }
                lemma_advance(remote, after, page_size, next);
                if next is Done {
                    lemma_owner_done(remote, page_size, frames, whole, 0, next->Done_0);
                }
                if next is Next {
                    let mid = next->Next_0;
                    assert forall|fuel: nat, out: Seq<Block>| #[trigger]
                        completes(remote, page_size, mid.frames, fuel, out) implies resumes(
                        remote,
                        page_size,
                        frames,
                        fuel + 1,
                        out,
                    ) by {
                        assert(resumes(remote, page_size, after, fuel + 1, out));
                        lemma_owner_done(remote, page_size, frames, whole, fuel + 1, out);
                    }
                }
            },
        }
    }
}

/// A block without children is complete as it is listed.
proof fn lemma_one_more_done(
    remote: spec_fn(RequestView) -> BlockChildrenResponse,
    page_size: Option<u32>,
    frames: Seq<FrameView>,
    fuel: nat,
    out: Seq<Block>,
)
    requires
        frames.len() > 0,
        frames.last().pending.len() > 0,
        !frames.last().pending[0].has_children,
        resumes(
            remote,
            page_size,
            frames.drop_last().push(
                FrameView {
                    pending: frames.last().pending.drop_first(),
                    done: frames.last().done.push(frames.last().pending[0].block),
                    ..frames.last()
                },
            ),
            fuel,
            out,
        ),
    ensures
        resumes(remote, page_size, frames, fuel, out),
{
    let top = frames.last();
    let node = top.pending[0];
    let moved = FrameView {
        pending: top.pending.drop_first(),
        done: top.done.push(node.block),
        ..top
    };
    let after = frames.drop_last().push(moved);
    assert(after.last() == moved);
    assert(after.drop_last() == frames.drop_last());
    let more = choose|more: Seq<Block>|
        {
            &&& #[trigger] hydrated_all(remote, page_size, moved.pending, fuel, more)
            &&& finishes(
                remote,
                page_size,
                frames.drop_last(),
                moved.owner,
                moved.done + more,
                fuel,
                out,
            )
        };
    lemma_hydrated_first(remote, page_size, top.pending, fuel, node.block, more);
    assert(moved.done + more == top.done + (seq![node.block] + more));
}

/// A listing whose blocks are all complete completes its owner.
proof fn lemma_owner_done(
    remote: spec_fn(RequestView) -> BlockChildrenResponse,
    page_size: Option<u32>,
    frames: Seq<FrameView>,
    whole: Block,
    fuel: nat,
    out: Seq<Block>,
)
    requires
        frames.len() > 1,
        frames.last().pending.len() == 0,
        frames.last().owner is Some,
        attached(frames.last().owner->0, frames.last().done, whole),
        resumes(
            remote,
            page_size,
            frames.drop_last().drop_last().push(
                FrameView {
                    done: frames.drop_last().last().done.push(whole),
                    ..frames.drop_last().last()
                },
            ),
            fuel,
            out,
        ),
    ensures
        resumes(remote, page_size, frames, fuel, out),
{
    let top = frames.last();
    let below = frames.drop_last();
    let parent = FrameView { done: below.last().done.push(whole), ..below.last() };
    let after = below.drop_last().push(parent);
    assert(after.last() == parent);
    assert(after.drop_last() == below.drop_last());
    let more = choose|more: Seq<Block>|
        {
            &&& #[trigger] hydrated_all(remote, page_size, parent.pending, fuel, more)
            &&& finishes(
                remote,
                page_size,
                below.drop_last(),
                parent.owner,
                parent.done + more,
                fuel,
                out,
            )
        };
    let none = Seq::<Block>::empty();
    assert(hydrated_all(remote, page_size, top.pending, fuel, none));
    assert(top.done + none == top.done);
    assert(both(whole, more));
    assert(finishes(remote, page_size, below, top.owner, top.done + none, fuel, out));
}

/// From a state in which a listing waits for a page, a served assembly
/// ends as `completes` describes.
pub proof fn lemma_served_run_completes(
    remote: spec_fn(RequestView) -> BlockChildrenResponse,
    pre: AssemblerView,
    steps: nat,
    out: Seq<Block>,
) -> (fuel: nat)
    requires
        pre.wf(),
        served_run(remote, pre, steps, out),
    ensures
        completes(remote, pre.page_size, pre.frames, fuel, out),
    decreases steps,
{
    let page = remote(pre.request());
    let event = Ok::<BlockChildrenResponse, NotionClientError>(page);
    let next = choose|next: StepView|
        {
            &&& #[trigger] step_rel(pre, event, next)
            &&& match next {
                StepView::Done(blocks) => out == blocks,
                StepView::Next(mid, _) => served_run(remote, mid, (steps - 1) as nat, out),
                StepView::Failed(_) => false,
            }
        };
    let top = pre.frames.last();
    let below = pre.frames.drop_last();
    let ps = pre.page_size;
    assert(pre.request() == RequestView {
        block_id: top.block_id,
        start_cursor: top.cursor,
        page_size: ps,
    });
    match page.next_cursor {
        Some(cursor) => {
            let mid = pre.listed(page.results@, Some(cursor@));
            let grown = FrameView {
                pending: top.pending + page.results@,
                cursor: Some(cursor@),
                ..top
            };
            assert(mid.frames == below.push(grown));
            assert(mid.frames.last() == grown);
            assert(mid.frames.drop_last() == below);
            assert(mid.wf()) by {
                assert forall|i: int| 0 < i < mid.frames.len() implies (
                #[trigger] mid.frames[i]).owner is Some by {
                    assert(pre.frames[i].owner is Some);
                    if i < below.len() {
                        assert(mid.frames[i] == pre.frames[i]);
                    }
                }
                assert(mid.frames[0].owner == pre.frames[0].owner);
            }
            let inner = lemma_served_run_completes(remote, mid, (steps - 1) as nat, out);
            let rest = rest_of_listing(remote, top.block_id, Some(cursor@), ps, inner)->0;
            let fuel = inner + 1;
            assert(rest_of_listing(remote, top.block_id, top.cursor, ps, fuel) == Some(
                page.results@ + rest,
            ));
            let filled_mid = FrameView { pending: grown.pending + rest, ..grown };
            let filled = FrameView { pending: top.pending + (page.results@ + rest), ..top };
            assert(filled_mid.pending == filled.pending);
            lemma_resumes_within_more(remote, ps, below.push(filled_mid), inner, fuel, out);
            lemma_resumes_ignores_cursor(remote, ps, below, filled_mid, filled, fuel, out);
            fuel
        },
        None => {
            let listed = pre.listed(page.results@, None);
            let grown = FrameView { pending: top.pending + page.results@, cursor: None, ..top };
            assert(listed.frames == below.push(grown));
            assert(frames_wf(listed.frames)) by {
                assert forall|i: int| 0 < i < listed.frames.len() implies (
                #[trigger] listed.frames[i]).owner is Some by {
                    assert(pre.frames[i].owner is Some);
                    if i < below.len() {
                        assert(listed.frames[i] == pre.frames[i]);
                    }
                }
                assert(listed.frames[0].owner == pre.frames[0].owner);
            }
            lemma_advance(remote, listed.frames, ps, next);
            let filled = FrameView { pending: top.pending + page.results@, ..top };
            match next {
                StepView::Done(blocks) => {
                    lemma_resumes_within_more(remote, ps, below.push(grown), 0, 1, out);
                    lemma_resumes_ignores_cursor(remote, ps, below, grown, filled, 1, out);
                    assert(rest_of_listing(remote, top.block_id, top.cursor, ps, 1) == Some(
                        page.results@,
                    ));
                    1
                },
                StepView::Next(mid, _) => {
                    let inner = lemma_served_run_completes(remote, mid, (steps - 1) as nat, out);
                    let fuel = inner + 1;
                    assert(resumes(remote, ps, below.push(grown), fuel, out));
                    lemma_resumes_ignores_cursor(remote, ps, below, grown, filled, fuel, out);
                    assert(rest_of_listing(remote, top.block_id, top.cursor, ps, fuel) == Some(
                        page.results@,
                    ));
                    fuel
                },
                StepView::Failed(_) => 0,
            }
        },
    }
}

proof fn lemma_resumes_ignores_cursor(
    remote: spec_fn(RequestView) -> BlockChildrenResponse,
    page_size: Option<u32>,
    below: Seq<FrameView>,
    a: FrameView,
    b: FrameView,
    fuel: nat,
    out: Seq<Block>,
)
    requires
        a.pending == b.pending,
        a.done == b.done,
        a.owner == b.owner,
        resumes(remote, page_size, below.push(a), fuel, out),
    ensures
        resumes(remote, page_size, below.push(b), fuel, out),
{
    assert(below.push(a).last() == a);
    assert(below.push(b).last() == b);
    assert(below.push(a).drop_last() == below);
    assert(below.push(b).drop_last() == below);
    let more = choose|more: Seq<Block>|
        {
            &&& #[trigger] hydrated_all(remote, page_size, a.pending, fuel, more)
            &&& finishes(remote, page_size, below, a.owner, a.done + more, fuel, out)
        };
    assert(hydrated_all(remote, page_size, b.pending, fuel, more));
}

/// An assembly that is served what the listing holds yields the tree that
/// the listing describes: the blocks that the listing of the root holds, in
/// its order, and each of them with its subtree. A block that is listed with
/// children has, behind the children that it came with, the blocks of its
/// own listing, each again with its subtree; a block that is listed without
/// children is as it was listed.
pub proof fn lemma_served_assembly_is_hydrated(
    remote: spec_fn(RequestView) -> BlockChildrenResponse,
    block_id: Seq<char>,
    start_cursor: Option<Seq<char>>,
    page_size: Option<u32>,
    steps: nat,
    out: Seq<Block>,
) -> (fuel: nat)
    requires
        served_run(remote, AssemblerView::initial(block_id, start_cursor, page_size), steps, out),
    ensures
        rest_of_listing(remote, block_id, start_cursor, page_size, fuel) is Some,
        hydrated_all(
            remote,
            page_size,
            rest_of_listing(remote, block_id, start_cursor, page_size, fuel)->0,
            fuel,
            out,
        ),
{
    let pre = AssemblerView::initial(block_id, start_cursor, page_size);
    let fuel = lemma_served_run_completes(remote, pre, steps, out);
    let root = pre.frames.last();
    let listed = rest_of_listing(remote, block_id, start_cursor, page_size, fuel)->0;
    let filled = FrameView { pending: root.pending + listed, ..root };
    let frames = pre.frames.drop_last().push(filled);
    assert(frames.last() == filled);
    assert(frames.drop_last().len() == 0);
    assert(filled.pending == listed);
    let more = choose|more: Seq<Block>|
        {
            &&& #[trigger] hydrated_all(remote, page_size, filled.pending, fuel, more)
            &&& finishes(
                remote,
                page_size,
                frames.drop_last(),
                filled.owner,
                filled.done + more,
                fuel,
                out,
            )
        };
    assert(filled.done + more == more);
    fuel
}

} // verus!
