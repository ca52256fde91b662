//! The undo history: snapshots taken before each edit, the oldest dropped
//! past a fixed depth; the page trash, which keeps deleted pages the same
//! way; and reordering the pages.
use vstd::prelude::*;
use crate::moves::{swapped, swap_entries};
use crate::tree::clamp_last;

verus! {

/// How many snapshots the undo history keeps.
pub const UNDO_DEPTH: usize = 20;

/// The history after pushing `s`: the oldest snapshot goes when the
/// history would grow past `UNDO_DEPTH`.
pub open spec fn pushed_history<T>(h: Seq<T>, s: T) -> Seq<T> {
    let h2 = h.push(s);
    if h2.len() > UNDO_DEPTH { h2.drop_first() } else { h2 }
}

/// Records a snapshot before an edit.
pub fn push_undo<T>(stack: &mut Vec<T>, snapshot: T)
    ensures
        final(stack)@ == pushed_history(old(stack)@, snapshot),
{
    stack.push(snapshot);
    if stack.len() > UNDO_DEPTH {
        stack.remove(0);
        assert(stack@ =~= old(stack)@.push(snapshot).drop_first());
    }
}

/// The history never holds more than `UNDO_DEPTH` snapshots, and the
/// snapshot just pushed is the one an undo takes back.
pub proof fn law_history_bounded<T>(h: Seq<T>, s: T)
    requires
        h.len() <= UNDO_DEPTH,
    ensures
        pushed_history(h, s).len() <= UNDO_DEPTH,
        pushed_history(h, s).last() == s,
{
}

/// Below the depth limit, pushing a snapshot and undoing gives back that
/// snapshot and the history as it was.
pub proof fn law_undo_reverts_push<T>(h: Seq<T>, s: T)
    requires
        h.len() < UNDO_DEPTH,
    ensures
        pushed_history(h, s).last() == s,
        pushed_history(h, s).drop_last() == h,
{
    assert(h.push(s).drop_last() =~= h);
}

/// The selected page after an undo: clamped to the last page (0 when there
/// are none).
pub fn page_after_undo(selected_page: usize, page_count: usize) -> (r: usize)
    ensures
        r == if selected_page < page_count { selected_page } else if page_count == 0 { 0 } else { (page_count - 1) as usize },
{
    if selected_page >= page_count {
        if page_count == 0 { 0 } else { page_count - 1 }
    } else {
        selected_page
    }
}

/// Deletes the selected page (clamped to the last) into the trash, unless
/// it is the only page; returns the page selected afterwards.
pub fn commit_delete_page<T>(pages: &mut Vec<T>, trash: &mut Vec<T>, selected: usize) -> (r: Option<usize>)
    ensures
        old(pages)@.len() <= 1 ==> r is None && final(pages)@ == old(pages)@ && final(trash)@ == old(trash)@,
        old(pages)@.len() > 1 ==> {
            let idx = clamp_last(selected, old(pages)@.len());
            &&& final(pages)@ == old(pages)@.remove(idx as int)
            &&& final(trash)@ == pushed_history(old(trash)@, old(pages)@[idx as int])
            &&& r == Some(clamp_last(idx, (old(pages)@.len() - 1) as nat))
        },
{
    let n = pages.len();
    if n <= 1 {
        return None;
    }
    let idx = if selected < n { selected } else { n - 1 };
    let removed = pages.remove(idx);
    push_undo(trash, removed);
    Some(if idx < n - 1 { idx } else { n - 2 })
}

/// Puts the most recently deleted page back, after the last page; returns
/// its index, or `None` when the trash is empty.
pub fn restore_from_trash<T>(pages: &mut Vec<T>, trash: &mut Vec<T>) -> (r: Option<usize>)
    ensures
        old(trash)@.len() == 0 ==> r is None && final(pages)@ == old(pages)@ && final(trash)@ == old(trash)@,
        old(trash)@.len() > 0 ==> {
            &&& final(pages)@ == old(pages)@.push(old(trash)@.last())
            &&& final(trash)@ == old(trash)@.drop_last()
            &&& r == Some(old(pages)@.len() as usize)
        },
{
    match trash.pop() {
        Some(p) => {
            let n = pages.len();
            pages.push(p);
            Some(n)
        },
        None => None,
    }
}

/// Restoring right after deleting a page takes back exactly the deleted
/// page and leaves the trash as it was, while the trash is below its depth
/// limit.
pub proof fn law_restore_returns_deleted_page<T>(pages: Seq<T>, trash: Seq<T>, idx: int)
    requires
        0 <= idx < pages.len(),
        trash.len() < UNDO_DEPTH,
    ensures
        pushed_history(trash, pages[idx]).last() == pages[idx],
        pushed_history(trash, pages[idx]).drop_last() == trash,
{
    assert(trash.push(pages[idx]).drop_last() =~= trash);
}

/// Moves the selected page one place down (`down`) or up, swapping it
/// with its neighbour; returns its new index, or `None` (pages unchanged)
/// at the end it would leave.
pub fn move_page<T>(pages: &mut Vec<T>, idx: usize, down: bool) -> (r: Option<usize>)
    requires
        !down && idx > 0 ==> idx < old(pages)@.len(),
    ensures
        down && idx + 1 < old(pages)@.len() ==> r == Some((idx + 1) as usize)
            && final(pages)@ == swapped(old(pages)@, idx as int, idx + 1),
        !down && idx > 0 ==> r == Some((idx - 1) as usize)
            && final(pages)@ == swapped(old(pages)@, idx as int, idx - 1),
        (down && idx + 1 >= old(pages)@.len()) || (!down && idx == 0) ==> r is None && final(pages)@ == old(pages)@,
{
    if down {
        if idx < pages.len() && idx + 1 < pages.len() {
            swap_entries(pages, idx, idx + 1);
            return Some(idx + 1);
        }
        None
    } else {
        if idx > 0 {
            swap_entries(pages, idx, idx - 1);
            return Some(idx - 1);
        }
        None
    }
}

} // verus!
