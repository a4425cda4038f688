//! The display order of a project's blocks: where a new block goes, bulk reorders,
//! and the ordered listing.

use vstd::prelude::*;
use crate::store::{BlockOrderUpdate, ContentBlock};

verus! {

/// `a` is listed before `b`: by sort order, then by id.
pub open spec fn block_before(a: ContentBlock, b: ContentBlock) -> bool {
    a.sort_order < b.sort_order || (a.sort_order == b.sort_order && a.id < b.id)
}

/// `n + 1`, or `n` where that does not fit in an `i32`.
pub open spec fn succ_saturating(n: i32) -> i32 {
    if n == i32::MAX {
        n
    } else {
        (n + 1) as i32
    }
}

/// The sort order for a block appended to project `project_id`: one past the
/// largest sort order among its blocks (saturating at `i32::MAX`), or `0` for a
/// project without blocks.
pub fn next_sort_order(blocks: &Vec<ContentBlock>, project_id: u128) -> (r: i32)
    ensures
        (forall|j: int| 0 <= j < blocks.len() ==> (#[trigger] blocks[j]).project_id != project_id)
            ==> r == 0,
        (exists|j: int| 0 <= j < blocks.len() && (#[trigger] blocks[j]).project_id == project_id)
            ==> exists|j: int|
            0 <= j < blocks.len() && (#[trigger] blocks[j]).project_id == project_id && r
                == succ_saturating(blocks[j].sort_order) && forall|k: int|
                0 <= k < blocks.len() && (#[trigger] blocks[k]).project_id == project_id
                    ==> blocks[k].sort_order <= blocks[j].sort_order,
{
    let mut best: Option<usize> = None;
    let mut i: usize = 0;
    while i < blocks.len()
        invariant
            i <= blocks.len(),
            match best {
                Some(b) => b < i && blocks[b as int].project_id == project_id && forall|k: int|
                    0 <= k < i && (#[trigger] blocks[k]).project_id == project_id
                        ==> blocks[k].sort_order <= blocks[b as int].sort_order,
                None => forall|k: int|
                    0 <= k < i ==> (#[trigger] blocks[k]).project_id != project_id,
            },
        decreases blocks.len() - i,
    {
        if blocks[i].project_id == project_id {
            match best {
                Some(b) => {
                    if blocks[b].sort_order < blocks[i].sort_order {
                        best = Some(i);
                    }
                },
                None => {
                    best = Some(i);
                },
            }
        }
        i = i + 1;
    }
    match best {
        Some(b) => {
            let top = blocks[b].sort_order;
            if top == i32::MAX {
                top
            } else {
                top + 1
            }
        },
        None => 0,
    }
}

/// The sort order that block `id` has after the updates, from `current`: that of
/// the last update that names it, or `current` where none does.
pub open spec fn order_after(updates: Seq<BlockOrderUpdate>, id: u128, current: i32) -> i32
    decreases updates.len(),
{
    if updates.len() == 0 {
        current
    } else if updates.last().id == id {
        updates.last().sort_order
    } else {
        order_after(updates.drop_last(), id, current)
    }
}

/// Applies a batch of reorder requests: each block named by an update takes the
/// update's sort order, a later update winning over an earlier one; updates that
/// name no block change nothing. Everything but the sort orders stays as it was.
pub fn apply_reorder(blocks: &mut Vec<ContentBlock>, updates: &Vec<BlockOrderUpdate>)
    ensures
        final(blocks)@.len() == old(blocks)@.len(),
        forall|i: int|
            0 <= i < final(blocks)@.len() ==> {
                let b = #[trigger] final(blocks)@[i];
                let a = old(blocks)@[i];
                &&& b.id == a.id
                &&& b.project_id == a.project_id
                &&& b.content == a.content
                &&& b.sort_order == order_after(updates@, a.id, a.sort_order)
            },
{
    let mut u: usize = 0;
    while u < updates.len()
        invariant
            u <= updates.len(),
            blocks@.len() == old(blocks)@.len(),
            forall|i: int|
                0 <= i < blocks@.len() ==> {
                    let b = #[trigger] blocks@[i];
                    let a = old(blocks)@[i];
                    &&& b.id == a.id
                    &&& b.project_id == a.project_id
                    &&& b.content == a.content
                    &&& b.sort_order == order_after(updates@.take(u as int), a.id, a.sort_order)
                },
        decreases updates.len() - u,
    {
        let upd = updates[u];
        let ghost before = blocks@;
        let mut i: usize = 0;
        while i < blocks.len()
            invariant
                i <= blocks.len(),
                blocks@.len() == before.len(),
                forall|k: int|
                    0 <= k < blocks@.len() ==> {
                        let b = #[trigger] blocks@[k];
                        let a = before[k];
                        &&& b.id == a.id
                        &&& b.project_id == a.project_id
                        &&& b.content == a.content
                        &&& b.sort_order == if k < i && a.id == upd.id {
                            upd.sort_order
                        } else {
                            a.sort_order
                        }
                    },
            decreases blocks.len() - i,
        {
            if blocks[i].id == upd.id {
                blocks[i].sort_order = upd.sort_order;
            }
            i = i + 1;
        }
        proof {
            assert(updates@.take(u + 1).drop_last() =~= updates@.take(u as int));
            assert(updates@.take(u + 1).last() == upd);
        }
        u = u + 1;
    }
    assert(updates@.take(u as int) =~= updates@);
}

/// `order` holds each position of project `project_id`'s blocks once, in display
/// order: no block is listed before one that comes before it.
pub open spec fn lists_blocks_of(blocks: Seq<ContentBlock>, project_id: u128, order: Seq<usize>) -> bool {
    &&& forall|k: int|
        0 <= k < order.len() ==> (#[trigger] order[k]) < blocks.len() && blocks[order[k] as int].project_id
            == project_id
    &&& forall|j: int|
        0 <= j < blocks.len() && (#[trigger] blocks[j]).project_id == project_id ==> exists|k: int|
            0 <= k < order.len() && order[k] == j
    &&& forall|k: int, l: int|
        0 <= k < l < order.len() ==> (#[trigger] order[k]) != (#[trigger] order[l]) && !block_before(
            blocks[order[l] as int],
            blocks[order[k] as int],
        )
}

proof fn lemma_block_order_agrees_at(
    blocks: Seq<ContentBlock>,
    project_id: u128,
    o1: Seq<usize>,
    o2: Seq<usize>,
    i: int,
)
    requires
        forall|a: int, b: int| 0 <= a < b < blocks.len() ==> (#[trigger] blocks[a]).id != (#[trigger] blocks[b]).id,
        lists_blocks_of(blocks, project_id, o1),
        lists_blocks_of(blocks, project_id, o2),
        0 <= i < o1.len(),
        i < o2.len(),
        forall|j: int| 0 <= j < i ==> (#[trigger] o1[j]) == o2[j],
    ensures
        o1[i] == o2[i],
{
    let x = o1[i] as int;
    let y = o2[i] as int;
    assert(blocks[x].project_id == project_id);
    assert(blocks[y].project_id == project_id);
    let m = choose|m: int| 0 <= m < o2.len() && o2[m] == x;
    let n = choose|n: int| 0 <= n < o1.len() && o1[n] == y;
    if m < i {
        assert(o1[m] == o2[m]);
    }
    if n < i {
        assert(o1[n] == o2[n]);
    }
    if m > i && n > i {
        assert(!block_before(blocks[x], blocks[y]));
        assert(!block_before(blocks[y], blocks[x]));
        if x < y {
            assert(blocks[x].id != blocks[y].id);
        } else if y < x {
            assert(blocks[y].id != blocks[x].id);
        }
    }
}

proof fn lemma_block_order_agrees_upto(
    blocks: Seq<ContentBlock>,
    project_id: u128,
    o1: Seq<usize>,
    o2: Seq<usize>,
    i: int,
)
    requires
        forall|a: int, b: int| 0 <= a < b < blocks.len() ==> (#[trigger] blocks[a]).id != (#[trigger] blocks[b]).id,
        lists_blocks_of(blocks, project_id, o1),
        lists_blocks_of(blocks, project_id, o2),
        0 <= i <= o1.len(),
        i <= o2.len(),
    ensures
        forall|j: int| 0 <= j < i ==> (#[trigger] o1[j]) == o2[j],
    decreases i,
{
    if i > 0 {
        lemma_block_order_agrees_upto(blocks, project_id, o1, o2, i - 1);
        lemma_block_order_agrees_at(blocks, project_id, o1, o2, i - 1);
    }
}

proof fn lemma_block_order_no_extra(blocks: Seq<ContentBlock>, project_id: u128, o1: Seq<usize>, o2: Seq<usize>)
    requires
        lists_blocks_of(blocks, project_id, o1),
        lists_blocks_of(blocks, project_id, o2),
        o1.len() <= o2.len(),
        forall|j: int| 0 <= j < o1.len() ==> (#[trigger] o1[j]) == o2[j],
    ensures
        o1.len() == o2.len(),
{
    if o1.len() < o2.len() {
        let n = o1.len() as int;
        let y = o2[n] as int;
        assert(blocks[y].project_id == project_id);
        let m = choose|m: int| 0 <= m < o1.len() && o1[m] == y;
        assert(o2[m] == o1[m]);
    }
}

/// Where block ids are distinct there is only one display order of a project's
/// blocks.
pub proof fn lemma_block_order_unique(blocks: Seq<ContentBlock>, project_id: u128, o1: Seq<usize>, o2: Seq<usize>)
    requires
        forall|a: int, b: int| 0 <= a < b < blocks.len() ==> (#[trigger] blocks[a]).id != (#[trigger] blocks[b]).id,
        lists_blocks_of(blocks, project_id, o1),
        lists_blocks_of(blocks, project_id, o2),
    ensures
        o1 == o2,
{
    let n = if o1.len() <= o2.len() { o1.len() } else { o2.len() };
    lemma_block_order_agrees_upto(blocks, project_id, o1, o2, n as int);
    if o1.len() <= o2.len() {
        lemma_block_order_no_extra(blocks, project_id, o1, o2);
    } else {
        assert forall|j: int| 0 <= j < o2.len() implies (#[trigger] o2[j]) == o1[j] by {
            assert(o1[j] == o2[j]);
        }
        lemma_block_order_no_extra(blocks, project_id, o2, o1);
    }
    assert(o1 =~= o2);
}

/// The positions of project `project_id`'s blocks, in display order: ascending by
/// sort order, ties broken by ascending id. Each position appears once.
pub fn ordered_positions(blocks: &Vec<ContentBlock>, project_id: u128) -> (r: Vec<usize>)
    ensures
        lists_blocks_of(blocks@, project_id, r@),
{
    let mut out: Vec<usize> = Vec::new();
    let mut j: usize = 0;
    while j < blocks.len()
        invariant
            j <= blocks.len(),
            forall|k: int|
                0 <= k < out.len() ==> (#[trigger] out[k]) < j && blocks[out[k] as int].project_id
                    == project_id,
            forall|m: int|
                0 <= m < j && (#[trigger] blocks[m]).project_id == project_id ==> exists|k: int|
                    0 <= k < out.len() && out[k] == m,
            forall|k: int, l: int|
                0 <= k < l < out.len() ==> (#[trigger] out[k]) != (#[trigger] out[l]) && !block_before(blocks[out[l] as int], blocks[out[k] as int]),
        decreases blocks.len() - j,
    {
        if blocks[j].project_id == project_id {
            let mut p: usize = 0;
            while p < out.len() && (blocks[out[p]].sort_order < blocks[j].sort_order || (
            blocks[out[p]].sort_order == blocks[j].sort_order && blocks[out[p]].id < blocks[j].id))
                invariant
                    p <= out.len(),
                    j < blocks.len(),
                    forall|k: int| 0 <= k < out.len() ==> (#[trigger] out[k]) < j,
                    forall|k: int| 0 <= k < p ==> block_before(blocks[(#[trigger] out[k]) as int], blocks[j as int]),
                decreases out.len() - p,
            {
                p = p + 1;
            }
            let ghost prev = out@;
            proof {
                if p < out.len() {
                    let o = out[p as int];
                    assert(!block_before(blocks[o as int], blocks[j as int]));
                }
            }
            out.insert(p, j);
            proof {
                assert forall|k: int, l: int|
                    0 <= k < l < out.len() implies (#[trigger] out[k]) != (#[trigger] out[l]) && !block_before(blocks[out[l] as int], blocks[out[k] as int]) by {
                    if l < p {
                        assert(out[k] == prev[k] && out[l] == prev[l]);
                    } else if l == p {
                        assert(out[k] == prev[k]);
                    } else if k < p {
                        assert(out[k] == prev[k] && out[l] == prev[l - 1]);
                        assert(block_before(blocks[prev[k] as int], blocks[j as int]));
                        if p < l - 1 {
                            assert(!block_before(blocks[prev[l - 1] as int], blocks[prev[p as int] as int]));
                        }
                    } else if k == p {
                        assert(out[l] == prev[l - 1]);
                        if p < l - 1 {
                            assert(!block_before(blocks[prev[l - 1] as int], blocks[prev[p as int] as int]));
                        }
                    } else {
                        assert(out[k] == prev[k - 1] && out[l] == prev[l - 1]);
                    }
                }
                assert forall|m: int|
                    0 <= m < j + 1 && (#[trigger] blocks[m]).project_id == project_id implies exists|k: int|
                        0 <= k < out.len() && out[k] == m by {
                    if m == j {
                        assert(out[p as int] == j);
                    } else {
                        let k = choose|k: int| 0 <= k < prev.len() && prev[k] == m;
                        if k < p {
                            assert(out[k] == m);
                        } else {
                            assert(out[k + 1] == m);
                        }
                    }
                }
                assert forall|k: int| 0 <= k < out.len() implies (#[trigger] out[k]) < j + 1 && blocks[out[k] as int].project_id == project_id by {
                    if k < p {
                        assert(out[k] == prev[k]);
                    } else if k > p {
                        assert(out[k] == prev[k - 1]);
                    }
                }
            }
        }
        j = j + 1;
    }
    out
}

} // verus!
