//! Partition of the ordered page list into continuous recording chains.
//!
//! A chain is a maximal contiguous run of pages that begins at a session
//! start (a page whose block id and previous-block id are both zero) and ends
//! right before the next session start, or at the end of the list. Pages that
//! precede the first session start belong to no chain and are dropped.

use vstd::prelude::*;

use crate::page::Page;
use crate::page::spec_is_session_start;

verus! {

/// Indices of the session-start pages among the first `n` pages, ascending.
pub open spec fn start_indices_upto(pages: Seq<Page>, n: nat) -> Seq<usize>
    decreases n,
{
    if n == 0 {
        Seq::empty()
    } else {
        let prev = start_indices_upto(pages, (n - 1) as nat);
        if spec_is_session_start(
            pages[n - 1].this_block_id,
            pages[n - 1].prev_block_id,
        ) {
            prev.push((n - 1) as usize)
        } else {
            prev
        }
    }
}

/// Indices of all session-start pages, in ascending order.
pub open spec fn start_indices(pages: Seq<Page>) -> Seq<usize> {
    start_indices_upto(pages, pages.len())
}

/// The chain spans derived from the session-start indices: chain `k` spans
/// `[starts[k], starts[k + 1])`, the last chain runs to the end of the list.
pub open spec fn chain_bounds_spec(starts: Seq<usize>, page_count: usize) -> Seq<(usize, usize)> {
    Seq::new(
        starts.len(),
        |k: int|
            (
                starts[k],
                if k == starts.len() - 1 {
                    page_count
                } else {
                    starts[k + 1]
                },
            ),
    )
}

/// Every collected index lies below `n` and names a session-start page.
pub proof fn lemma_start_indices_sound(pages: Seq<Page>, n: nat)
    requires
        n <= pages.len(),
        pages.len() <= usize::MAX,
    ensures
        forall|k: int|
            0 <= k < start_indices_upto(pages, n).len() ==> {
                &&& (#[trigger] start_indices_upto(pages, n)[k]) < n
                &&& spec_is_session_start(
                    pages[start_indices_upto(pages, n)[k] as int].this_block_id,
                    pages[start_indices_upto(pages, n)[k] as int].prev_block_id,
                )
            },
    decreases n,
{
    if n > 0 {
        lemma_start_indices_sound(pages, (n - 1) as nat);
        let prev = start_indices_upto(pages, (n - 1) as nat);
        let cur = start_indices_upto(pages, n);
        assert forall|k: int| 0 <= k < cur.len() implies {
            &&& cur[k] < n
            &&& spec_is_session_start(
                pages[cur[k] as int].this_block_id,
                pages[cur[k] as int].prev_block_id,
            )
        } by {
            if k < prev.len() {
                assert(cur[k] == prev[k]);
            } else {
                assert(cur[k] == (n - 1) as usize);
            }
        }
    }
}

/// The collected indices are strictly ascending.
pub proof fn lemma_start_indices_sorted(pages: Seq<Page>, n: nat)
    requires
        n <= pages.len(),
        pages.len() <= usize::MAX,
    ensures
        forall|k1: int, k2: int|
            0 <= k1 < k2 < start_indices_upto(pages, n).len()
                ==> start_indices_upto(pages, n)[k1] < start_indices_upto(pages, n)[k2],
    decreases n,
{
    if n > 0 {
        lemma_start_indices_sorted(pages, (n - 1) as nat);
        lemma_start_indices_sound(pages, (n - 1) as nat);
        let prev = start_indices_upto(pages, (n - 1) as nat);
        let cur = start_indices_upto(pages, n);
        assert forall|k1: int, k2: int|
            0 <= k1 < k2 < cur.len() implies cur[k1] < cur[k2] by {
            if k2 < prev.len() {
                assert(cur[k1] == prev[k1]);
                assert(cur[k2] == prev[k2]);
            } else {
                assert(cur[k2] == (n - 1) as usize);
                assert(cur[k1] == prev[k1]);
                assert(prev[k1] < (n - 1) as usize);
            }
        }
    }
}

/// Every session-start page below `n` is collected.
pub proof fn lemma_start_indices_complete(pages: Seq<Page>, n: nat)
    requires
        n <= pages.len(),
        pages.len() <= usize::MAX,
    ensures
        forall|i: int|
            0 <= i < n && spec_is_session_start(
                pages[i].this_block_id,
                pages[i].prev_block_id,
            ) ==> start_indices_upto(pages, n).contains(i as usize),
    decreases n,
{
    if n > 0 {
        lemma_start_indices_complete(pages, (n - 1) as nat);
        let cur = start_indices_upto(pages, n);
        let prev = start_indices_upto(pages, (n - 1) as nat);
        assert forall|i: int|
            0 <= i < n && spec_is_session_start(
                pages[i].this_block_id,
                pages[i].prev_block_id,
            ) implies cur.contains(i as usize) by {
            if i < n - 1 {
                let k = choose|k: int| 0 <= k < prev.len() && prev[k] == i as usize;
                if spec_is_session_start(
                    pages[n - 1].this_block_id,
                    pages[n - 1].prev_block_id,
                ) {
                    assert(cur[k] == i as usize);
                } else {
                    assert(cur[k] == i as usize);
                }
            } else {
                assert(cur[cur.len() - 1] == i as usize);
            }
        }
    }
}

/// Collects the indices of all session-start pages, in ascending order.
///
/// Each page's marker status depends on that page alone, so the scan may as
/// well run in parallel; this sequential pass is its specification.
pub fn detect_chains_starts(pages: &Vec<Page>) -> (starts: Vec<usize>)
    ensures
        starts@ == start_indices(pages@),
{
    let mut starts: Vec<usize> = Vec::new();
    let mut i: usize = 0;
    while i < pages.len()
        invariant
            i <= pages.len(),
            starts@ == start_indices_upto(pages@, i as nat),
        decreases pages.len() - i,
    {
        if pages[i].is_session_start() {
            starts.push(i);
        }
        i += 1;
    }
    starts
}

/// Turns the session-start index list into chain spans: chain `k` spans
/// `[starts[k], starts[k + 1])`, the last chain runs to `page_count`.
pub fn chain_bounds(starts: &Vec<usize>, page_count: usize) -> (chains: Vec<(usize, usize)>)
    ensures
        chains@ == chain_bounds_spec(starts@, page_count),
{
    let mut chains: Vec<(usize, usize)> = Vec::new();
    let mut k: usize = 0;
    while k < starts.len()
        invariant
            k <= starts.len(),
            chains@ == chain_bounds_spec(starts@, page_count).subrange(0, k as int),
        decreases starts.len() - k,
    {
        let stop = if k == starts.len() - 1 {
            page_count
        } else {
            starts[k + 1]
        };
        chains.push((starts[k], stop));
        proof {
            assert(chains@ =~= chain_bounds_spec(starts@, page_count).subrange(0, k + 1));
        }
        k += 1;
    }
    proof {
        assert(chains@ =~= chain_bounds_spec(starts@, page_count));
    }
    chains
}

/// Detects the chains of the page list in one step: the spans of all maximal
/// runs between consecutive session starts, the last one running to the end
/// of the list. A list without any session start yields no chains.
pub fn detect_chains(pages: &Vec<Page>) -> (chains: Vec<(usize, usize)>)
    ensures
        chains@ == chain_bounds_spec(start_indices(pages@), pages@.len() as usize),
{
    let starts = detect_chains_starts(pages);
    chain_bounds(&starts, pages.len())
}

/// The chain partition law: every chain begins at a session-start page,
/// consecutive chains abut (so the chains cover the list from the first
/// session start onward, in order, without overlap), the last chain runs to
/// the end of the list, no session start lies strictly inside a chain (each
/// chain is maximal), and there are no chains only when there is no
/// session-start page.
pub proof fn lemma_chains_partition(pages: Seq<Page>)
    requires
        pages.len() <= usize::MAX,
    ensures
        ({
            let starts = start_indices(pages);
            let chains = chain_bounds_spec(starts, pages.len() as usize);
            &&& chains.len() == starts.len()
            &&& forall|k: int|
                0 <= k < chains.len() ==> {
                    let (lo, hi) = #[trigger] chains[k];
                    &&& lo == starts[k]
                    &&& lo < hi <= pages.len()
                    &&& spec_is_session_start(
                        pages[lo as int].this_block_id,
                        pages[lo as int].prev_block_id,
                    )
                    &&& forall|i: int|
                        lo < i < hi ==> !spec_is_session_start(
                            pages[i].this_block_id,
                            pages[i].prev_block_id,
                        )
                }
            &&& forall|k: int| 0 <= k < chains.len() - 1 ==> (#[trigger] chains[k]).1 == chains[k + 1].0
            &&& chains.len() > 0 ==> chains[chains.len() - 1].1 == pages.len()
            &&& (chains.len() == 0 <==> forall|i: int|
                0 <= i < pages.len() ==> !spec_is_session_start(
                    #[trigger] pages[i].this_block_id,
                    pages[i].prev_block_id,
                ))
        }),
{
    let starts = start_indices(pages);
    let chains = chain_bounds_spec(starts, pages.len() as usize);
    lemma_start_indices_sound(pages, pages.len());
    lemma_start_indices_sorted(pages, pages.len());
    lemma_start_indices_complete(pages, pages.len());
    assert forall|k: int| 0 <= k < chains.len() implies {
        let (lo, hi) = #[trigger] chains[k];
        &&& lo == starts[k]
        &&& lo < hi <= pages.len()
        &&& spec_is_session_start(
            pages[lo as int].this_block_id,
            pages[lo as int].prev_block_id,
        )
        &&& forall|i: int|
            lo < i < hi ==> !spec_is_session_start(
                pages[i].this_block_id,
                pages[i].prev_block_id,
            )
    } by {
        let (lo, hi) = chains[k];
        assert(lo == starts[k]);
        if k < chains.len() - 1 {
            assert(hi == starts[k + 1]);
            assert(starts[k] < starts[k + 1]);
        }
        assert forall|i: int|
            lo < i < hi implies !spec_is_session_start(
            pages[i].this_block_id,
            pages[i].prev_block_id,
        ) by {
            if spec_is_session_start(pages[i].this_block_id, pages[i].prev_block_id) {
                assert(starts.contains(i as usize));
                let j = choose|j: int| 0 <= j < starts.len() && starts[j] == i as usize;
                if j <= k {
                    // starts[j] <= starts[k] == lo, yet starts[j] == i > lo
                    if j < k {
                        assert(starts[j] < starts[k]);
                    }
                } else {
                    // j > k: starts[j] >= starts[k + 1] == hi, yet starts[j] == i < hi
                    if j > k + 1 {
                        assert(starts[k + 1] < starts[j]);
                    }
                }
            }
        }
    }
    if chains.len() == 0 {
        assert forall|i: int|
            0 <= i < pages.len() implies !spec_is_session_start(
            #[trigger] pages[i].this_block_id,
            pages[i].prev_block_id,
        ) by {
            if spec_is_session_start(pages[i].this_block_id, pages[i].prev_block_id) {
                assert(starts.contains(i as usize));
            }
        }
    } else {
        let lo = starts[0];
        assert(spec_is_session_start(
            pages[lo as int].this_block_id,
            pages[lo as int].prev_block_id,
        ));
    }
}

} // verus!
