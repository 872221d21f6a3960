//! Workspaces with something to reclaim, and the order they are listed in.

use vstd::prelude::*;

use crate::path::FilePath;

verus! {

/// A Cargo workspace (or standalone package) with a reclaimable `target/` dir.
#[derive(Debug)]
pub struct Workspace {
    pub root: FilePath,
    pub target_path: FilePath,
    pub target_size: u64,
    pub selected: bool,
}

/// A workspace, with its paths as sequences of bytes.
#[verifier::ext_equal]
pub struct WorkspaceView {
    pub root: Seq<u8>,
    pub target_path: Seq<u8>,
    pub target_size: u64,
    pub selected: bool,
}

impl View for Workspace {
    type V = WorkspaceView;

    open spec fn view(&self) -> WorkspaceView {
        WorkspaceView {
            root: self.root@,
            target_path: self.target_path@,
            target_size: self.target_size,
            selected: self.selected,
        }
    }
}

/// The views of a list of workspaces.
pub open spec fn listed(list: Seq<Workspace>) -> Seq<WorkspaceView> {
    list.map_values(|w: Workspace| w@)
}

/// The sum of the sizes in a list.
pub open spec fn total(list: Seq<WorkspaceView>) -> nat
    decreases list.len(),
{
    if list.len() == 0 {
        0
    } else {
        total(list.drop_last()) + list.last().target_size as nat
    }
}

/// The selected workspaces of a list.
pub open spec fn selected_of(list: Seq<WorkspaceView>) -> Seq<WorkspaceView> {
    list.filter(|w: WorkspaceView| w.selected)
}

/// The workspaces of a list that have exactly this size.
pub open spec fn of_size(list: Seq<WorkspaceView>, size: u64) -> Seq<WorkspaceView> {
    list.filter(|w: WorkspaceView| w.target_size == size)
}

/// Whether a list has the largest sizes first.
pub open spec fn largest_first(list: Seq<WorkspaceView>) -> bool {
    forall|i: int, j: int|
        0 <= i <= j < list.len() ==> #[trigger] list[i].target_size >= #[trigger] list[j].target_size
}

/// `list` with `w` put in front of the smaller ones at its end.
pub open spec fn placed(list: Seq<WorkspaceView>, w: WorkspaceView) -> Seq<WorkspaceView>
    decreases list.len(),
{
    if list.len() == 0 || list.last().target_size >= w.target_size {
        list.push(w)
    } else {
        placed(list.drop_last(), w).push(list.last())
    }
}

/// `list` with the largest sizes first; equal sizes keep their order.
pub open spec fn by_size(list: Seq<WorkspaceView>) -> Seq<WorkspaceView>
    decreases list.len(),
{
    if list.len() == 0 {
        list
    } else {
        placed(by_size(list.drop_last()), list.last())
    }
}

/// Placing at the right position is inserting there.
proof fn placed_at(list: Seq<WorkspaceView>, w: WorkspaceView, at: int)
    requires
        0 <= at <= list.len(),
        at == 0 || list[at - 1].target_size >= w.target_size,
        forall|k: int| at <= k < list.len() ==> list[k].target_size < w.target_size,
    ensures
        placed(list, w) == list.insert(at, w),
    decreases list.len(),
{
    if at == list.len() {
        assert(list.insert(at, w) =~= list.push(w));
    } else {
        placed_at(list.drop_last(), w, at);
        assert(list.insert(at, w) =~= list.drop_last().insert(at, w).push(list.last()));
    }
}

proof fn placed_facts(list: Seq<WorkspaceView>, w: WorkspaceView)
    ensures
        total(placed(list, w)) == total(list) + w.target_size,
        placed(list, w).len() == list.len() + 1,
        placed(list, w).to_multiset() == list.to_multiset().insert(w),
        largest_first(list) ==> largest_first(placed(list, w)),
        forall|k: int|
            0 <= k < placed(list, w).len() ==> (#[trigger] placed(list, w)[k] == w || (
            list.len() > 0 && placed(list, w)[k].target_size >= list.last().target_size)
                || !largest_first(list)),
    decreases list.len(),
{
    broadcast use vstd::seq_lib::group_to_multiset_ensures;

    let all = placed(list, w);
    if list.len() == 0 || list.last().target_size >= w.target_size {
        assert(all.drop_last() =~= list);
    } else {
        let shorter = list.drop_last();
        placed_facts(shorter, w);
        assert(all.drop_last() =~= placed(shorter, w));
        assert(shorter.push(list.last()) =~= list);
        assert(list.to_multiset() =~= shorter.to_multiset().insert(list.last()));
        assert(all.to_multiset() =~= placed(shorter, w).to_multiset().insert(list.last()));
        assert(all.to_multiset() =~= list.to_multiset().insert(w));
        if largest_first(list) {
            assert forall|i: int, j: int| 0 <= i <= j < all.len() implies #[trigger] all[i].target_size
                >= #[trigger] all[j].target_size by {
                if j == all.len() - 1 && i < j {
                    assert(all[i] == placed(shorter, w)[i]);
                    if shorter.len() > 0 {
                        assert(shorter.last().target_size >= list.last().target_size);
                    }
                } else if i < j {
                    assert(all[i] == placed(shorter, w)[i]);
                    assert(all[j] == placed(shorter, w)[j]);
                }
            }
        }
    }
}

proof fn placed_of_size(list: Seq<WorkspaceView>, w: WorkspaceView, size: u64)
    ensures
        of_size(placed(list, w), size) == (if w.target_size == size {
            of_size(list, size).push(w)
        } else {
            of_size(list, size)
        }),
    decreases list.len(),
{
    reveal(Seq::filter);
    let all = placed(list, w);
    if list.len() == 0 || list.last().target_size >= w.target_size {
        assert(all.drop_last() =~= list);
    } else {
        placed_of_size(list.drop_last(), w, size);
        assert(all.drop_last() =~= placed(list.drop_last(), w));
    }
}

/// Listing by size puts the largest first, keeps every workspace, and leaves
/// workspaces of one size in the order they had.
pub proof fn by_size_is_a_stable_sort(list: Seq<WorkspaceView>)
    ensures
        largest_first(by_size(list)),
        by_size(list).to_multiset() == list.to_multiset(),
        by_size(list).len() == list.len(),
        total(by_size(list)) == total(list),
        forall|size: u64| #[trigger] of_size(by_size(list), size) == of_size(list, size),
    decreases list.len(),
{
    broadcast use vstd::seq_lib::group_to_multiset_ensures;

    if list.len() > 0 {
        let shorter = list.drop_last();
        by_size_is_a_stable_sort(shorter);
        placed_facts(by_size(shorter), list.last());
        assert(shorter.push(list.last()) =~= list);
        assert(list.to_multiset() =~= shorter.to_multiset().insert(list.last()));
        assert forall|size: u64| #[trigger] of_size(by_size(list), size) == of_size(
            list,
            size,
        ) by {
            placed_of_size(by_size(shorter), list.last(), size);
            reveal(Seq::filter);
        }
    }
}

/// There is one list only with the largest first and every size in the order
/// of `list`.
pub proof fn by_size_is_the_only_one(list: Seq<WorkspaceView>, other: Seq<WorkspaceView>)
    requires
        largest_first(other),
        forall|size: u64| #[trigger] of_size(other, size) == of_size(list, size),
    ensures
        other == by_size(list),
{
    by_size_is_a_stable_sort(list);
    assert forall|size: u64| #[trigger] of_size(other, size) == of_size(by_size(list), size) by {
        assert(of_size(by_size(list), size) == of_size(list, size));
    }
    same_order(other, by_size(list));
}

proof fn same_order(a: Seq<WorkspaceView>, b: Seq<WorkspaceView>)
    requires
        largest_first(a),
        largest_first(b),
        forall|size: u64| #[trigger] of_size(a, size) == of_size(b, size),
    ensures
        a == b,
    decreases a.len(),
{
    reveal(Seq::filter);
    if a.len() == 0 {
        if b.len() > 0 {
            let size = b.last().target_size;
            assert(of_size(a, size) == of_size(b, size));
            assert(of_size(b, size).len() > 0);
        }
        assert(a =~= b);
    } else {
        let size = a.last().target_size;
        assert(of_size(a, size) == of_size(b, size));
        assert(of_size(a, size).last() == a.last());
        if b.len() == 0 {
            assert(of_size(b, size).len() == 0);
        }
        smallest_is_last(a, b);
        smallest_is_last(b, a);
        assert(of_size(b, size).last() == b.last());
        assert forall|n: u64| #[trigger] of_size(a.drop_last(), n) == of_size(b.drop_last(), n) by {
            assert(of_size(a, n) == of_size(b, n));
            if n == size {
                assert(of_size(a, n).drop_last() =~= of_size(a.drop_last(), n));
                assert(of_size(b, n).drop_last() =~= of_size(b.drop_last(), n));
            }
        }
        same_order(a.drop_last(), b.drop_last());
        assert(a =~= a.drop_last().push(a.last()));
        assert(b =~= b.drop_last().push(b.last()));
    }
}

proof fn smallest_is_last(a: Seq<WorkspaceView>, b: Seq<WorkspaceView>)
    requires
        largest_first(a),
        b.len() > 0,
        forall|size: u64| #[trigger] of_size(a, size) == of_size(b, size),
    ensures
        a.len() > 0,
        a.last().target_size <= b.last().target_size,
{
    let size = b.last().target_size;
    assert(of_size(b, size).len() > 0) by {
        reveal(Seq::filter);
    }
    assert(of_size(a, size) == of_size(b, size));
    let i = member_of_size(a, size);
    assert(a[i].target_size >= a[a.len() - 1].target_size);
}

proof fn member_of_size(list: Seq<WorkspaceView>, size: u64) -> (i: int)
    requires
        of_size(list, size).len() > 0,
    ensures
        0 <= i < list.len(),
        list[i].target_size == size,
    decreases list.len(),
{
    reveal(Seq::filter);
    if list.last().target_size == size {
        list.len() - 1
    } else {
        member_of_size(list.drop_last(), size)
    }
}

/// Puts the largest sizes first; equal sizes keep their order.
pub fn sort_by_size(list: Vec<Workspace>) -> (sorted: Vec<Workspace>)
    ensures
        listed(sorted@) == by_size(listed(list@)),
{
    let mut sorted: Vec<Workspace> = Vec::new();
    let ghost all = listed(list@);
    proof {
        assert(all.take(0) =~= Seq::empty());
        assert(listed(sorted@) =~= Seq::empty());
    }
    for w in iter: list
        invariant
            iter.seq() == list@,
            all == listed(list@),
            listed(sorted@) == by_size(all.take(iter.index())),
    {
        let ghost done = by_size(all.take(iter.index()));
        let mut at: usize = sorted.len();
        while at > 0 && sorted[at - 1].target_size < w.target_size
            invariant
                at <= sorted@.len(),
                listed(sorted@) == done,
                forall|k: int| at <= k < sorted@.len() ==> done[k].target_size < w.target_size,
            decreases at,
        {
            at = at - 1;
            assert(done[at as int] == sorted@[at as int]@);
        }
        proof {
            if at > 0 {
                assert(done[at - 1] == sorted@[at - 1]@);
            }
            placed_at(done, w@, at as int);
            assert(listed(sorted@.insert(at as int, w)) =~= done.insert(at as int, w@));
            let next = all.take(iter.index() + 1);
            assert(next.drop_last() =~= all.take(iter.index()));
            assert(next.last() == w@);
        }
        sorted.insert(at, w);
    }
    assert(all.take(all.len() as int) =~= all);
    sorted
}

} // verus!
