//! What holds of every scan.

use vstd::prelude::*;

use crate::delete::may_delete;
use crate::path::components;
use crate::path::counted;
use crate::path::has_parent;
use crate::path::is_parent_len;
use crate::path::joined;
use crate::path::parent_exists;
use crate::path::parent_of;
use crate::path::pieces;
use crate::path::root_part;
use crate::path::slash;
use crate::path::target_lies_in_its_directory;
use crate::path::target_name;
use crate::path::SLASH;
use crate::scan::ancestor_len;
use crate::scan::candidate_at;
use crate::scan::claimed;
use crate::scan::files_size;
use crate::scan::first_at;
use crate::scan::root_among;
use crate::scan::roots_of;
use crate::scan::visited;
use crate::scan::workspace_at;
use crate::scan::workspaces_at;
use crate::scan::CandidateView;
use crate::scan::FileEntry;
use crate::workspace::by_size;
use crate::workspace::by_size_is_a_stable_sort;
use crate::workspace::largest_first;
use crate::workspace::placed;
use crate::workspace::WorkspaceView;

verus! {

/// Whether no two candidates stand at one place.
pub open spec fn distinct(all: Seq<CandidateView>) -> bool {
    forall|i: int, j: int|
        0 <= i < j < all.len() ==> components(#[trigger] all[i].root) != components(
            #[trigger] all[j].root,
        )
}

/// Whether `above` is an ancestor of `path`.
pub open spec fn is_ancestor(above: Seq<u8>, path: Seq<u8>) -> bool {
    exists|k: int| #[trigger]
        ancestor_len(path, k) && components(above) == components(path).take(k)
}

/// No piece of a path has a slash in it.
pub proof fn no_slash_in_pieces(p: Seq<u8>, i: int)
    requires
        0 <= i < pieces(p).len(),
    ensures
        !pieces(p)[i].contains(SLASH),
    decreases p.len(),
{
    if p.len() > 0 {
        let before = pieces(p.drop_last());
        if i < before.len() {
            no_slash_in_pieces(p.drop_last(), i);
        }
        if p.last() != SLASH && i == before.len() - 1 {
            let longer = before.last().push(p.last());
            assert forall|k: int| 0 <= k < longer.len() implies longer[k] != SLASH by {
                if k < before.last().len() {
                    assert(before.last()[k] == longer[k]);
                }
            }
        }
    }
}

/// Whatever counts is one of the pieces.
pub proof fn counted_are_pieces(all: Seq<Seq<u8>>, i: int)
    requires
        0 <= i < counted(all).len(),
    ensures
        all.contains(counted(all)[i]),
    decreases all.len(),
{
    if all.len() > 0 {
        let shorter = all.drop_last();
        if i < counted(shorter).len() {
            counted_are_pieces(shorter, i);
            let k = choose|k: int| 0 <= k < shorter.len() && shorter[k] == counted(all)[i];
            assert(all[k] == counted(all)[i]);
        } else {
            assert(all[all.len() - 1] == counted(all)[i]);
        }
    }
}

/// The parent of a path, where it has one, is its nearest ancestor, and every
/// other ancestor is an ancestor of the parent.
pub proof fn ancestors_are_parents(path: Seq<u8>, above: Seq<u8>)
    ensures
        has_parent(path) <==> ancestor_len(path, components(path).len() - 1),
        is_ancestor(above, path) <==> (parent_of(path) matches Some(parent) && (components(above)
            == components(parent) || is_ancestor(above, parent))),
{
    let all = components(path);
    let n = all.len() as int;
    let base = root_part(path).len() as int;
    if n > base {
        let i = n - 1 - base;
        assert(all.last() == counted(pieces(path))[i]);
        counted_are_pieces(pieces(path), i);
        let k = choose|k: int| 0 <= k < pieces(path).len() && pieces(path)[k] == all.last();
        no_slash_in_pieces(path, k);
        if all.last() == slash() {
            assert(slash()[0] == SLASH);
            assert(pieces(path)[k].contains(SLASH));
        }
        assert(has_parent(path));
        parent_exists(path);
        let parent = parent_of(path).unwrap();
        let up = components(parent);
        assert(up == all.drop_last());
        assert(root_part(parent).len() == base) by {
            let len = choose|len: int| is_parent_len(path, len);
            assert(parent == path.take(len));
            if base == 1 {
                if parent.len() == 0 {
                    assert(up == root_part(parent) + counted(pieces(parent)));
                    assert(up.len() >= 1);
                    empty_has_no_components(parent);
                } else {
                    assert(parent[0] == path[0]);
                }
            } else if parent.len() > 0 {
                assert(parent[0] == path[0]);
            }
        }
        assert(all.take(n - 1) =~= up);
        if is_ancestor(above, path) {
            let k = choose|k: int| #[trigger]
                ancestor_len(path, k) && components(above) == all.take(k);
            if k < n - 1 {
                assert(ancestor_len(parent, k));
                assert(up.take(k) =~= all.take(k));
            }
        }
        if components(above) == up {
            assert(ancestor_len(path, n - 1));
        }
        if is_ancestor(above, parent) {
            let k = choose|k: int| #[trigger]
                ancestor_len(parent, k) && components(above) == up.take(k);
            assert(ancestor_len(path, k));
            assert(up.take(k) =~= all.take(k));
        }
    } else {
        if n > 0 {
            assert(counted(pieces(path)).len() == 0);
            assert(all =~= root_part(path));
            assert(all.last() == slash());
        }
        assert(!has_parent(path));
    }
}

proof fn empty_has_no_components(p: Seq<u8>)
    requires
        p.len() == 0,
    ensures
        components(p).len() == 0,
{
    reveal_with_fuel(counted, 2);
    assert(pieces(p).last() == Seq::<u8>::empty());
    assert(pieces(p).drop_last() =~= Seq::empty());
}

proof fn first_at_is_a_member(all: Seq<CandidateView>, place: Seq<Seq<u8>>)
    ensures
        first_at(all, place) matches Some(c) ==> all.contains(c) && components(c.root) == place,
        first_at(all, place) is None ==> forall|i: int|
            0 <= i < all.len() ==> components(#[trigger] all[i].root) != place,
    decreases all.len(),
{
    if all.len() > 0 {
        let shorter = all.drop_last();
        first_at_is_a_member(shorter, place);
        match first_at(shorter, place) {
            Some(c) => {
                let k = choose|k: int| 0 <= k < shorter.len() && shorter[k] == c;
                assert(all[k] == c);
            },
            None => {
                assert(all[all.len() - 1] == all.last());
                assert forall|i: int| 0 <= i < all.len() && components(all.last().root)
                    != place implies components(#[trigger] all[i].root) != place by {
                    if i < shorter.len() {
                        assert(shorter[i] == all[i]);
                    }
                }
            },
        }
    }
}

/// A manifest makes a root when it declares `[workspace]`, or when it declares
/// `[package]` and no ancestor within the scanned set declares `[workspace]`.
pub proof fn roots_are_what_no_workspace_owns(candidate: CandidateView, all: Seq<CandidateView>)
    requires
        distinct(all),
    ensures
        root_among(candidate, all) <==> (candidate.has_workspace || (candidate.has_package && !(
        exists|i: int|
            0 <= i < all.len() && (#[trigger] all[i]).has_workspace && is_ancestor(
                all[i].root,
                candidate.root,
            )))),
{
    let path = candidate.root;
    if claimed(path, all) {
        let k = choose|k: int| #[trigger]
            ancestor_len(path, k) && (first_at(all, components(path).take(k)) matches Some(owner)
                && owner.has_workspace);
        first_at_is_a_member(all, components(path).take(k));
        let owner = first_at(all, components(path).take(k)).unwrap();
        let i = choose|i: int| 0 <= i < all.len() && all[i] == owner;
        assert(all[i].has_workspace && is_ancestor(all[i].root, path));
    }
    if exists|i: int|
        0 <= i < all.len() && (#[trigger] all[i]).has_workspace && is_ancestor(
            all[i].root,
            path,
        ) {
        let i = choose|i: int|
            0 <= i < all.len() && (#[trigger] all[i]).has_workspace && is_ancestor(
                all[i].root,
                path,
            );
        let k = choose|k: int| #[trigger]
            ancestor_len(path, k) && components(all[i].root) == components(path).take(k);
        let place = components(path).take(k);
        first_at_is_a_member(all, place);
        assert(components(all[i].root) == place);
        let owner = first_at(all, place).unwrap();
        let j = choose|j: int| 0 <= j < all.len() && all[j] == owner;
        if i < j {
            assert(components(all[i].root) != components(all[j].root));
        }
        if j < i {
            assert(components(all[j].root) != components(all[i].root));
        }
        assert(ancestor_len(path, k));
    }
}

proof fn roots_are_candidates(all: Seq<CandidateView>, known: Seq<CandidateView>, i: int)
    requires
        0 <= i < all.filter(|c: CandidateView| root_among(c, known)).len(),
    ensures
        ({
            let c = all.filter(|c: CandidateView| root_among(c, known))[i];
            all.contains(c) && root_among(c, known)
        }),
    decreases all.len(),
{
    reveal(Seq::filter);
    let pred = |c: CandidateView| root_among(c, known);
    if all.len() > 0 {
        let shorter = all.drop_last();
        if i < shorter.filter(pred).len() {
            roots_are_candidates(shorter, known, i);
            let c = shorter.filter(pred)[i];
            let k = choose|k: int| 0 <= k < shorter.len() && shorter[k] == c;
            assert(all[k] == c);
        } else {
            assert(all[all.len() - 1] == all.last());
        }
    }
}

proof fn listing_is_measured(
    roots: Seq<CandidateView>,
    targets: Seq<Option<u64>>,
    w: WorkspaceView,
) -> (i: int)
    requires
        roots.len() == targets.len(),
        workspaces_at(roots, targets).contains(w),
    ensures
        0 <= i < roots.len(),
        workspace_at(roots[i].root, targets[i]) == Some(w),
    decreases roots.len(),
{
    let all = workspaces_at(roots, targets);
    let k = choose|k: int| 0 <= k < all.len() && all[k] == w;
    let before = workspaces_at(roots.drop_last(), targets.drop_last());
    if k < before.len() {
        assert(before[k] == w);
        listing_is_measured(roots.drop_last(), targets.drop_last(), w)
    } else {
        roots.len() - 1
    }
}

proof fn measured_is_listed(roots: Seq<CandidateView>, targets: Seq<Option<u64>>, i: int)
    requires
        roots.len() == targets.len(),
        0 <= i < roots.len(),
        workspace_at(roots[i].root, targets[i]) is Some,
    ensures
        workspaces_at(roots, targets).contains(workspace_at(roots[i].root, targets[i]).unwrap()),
    decreases roots.len(),
{
    let w = workspace_at(roots[i].root, targets[i]).unwrap();
    let all = workspaces_at(roots, targets);
    let before = workspaces_at(roots.drop_last(), targets.drop_last());
    if i < roots.len() - 1 {
        measured_is_listed(roots.drop_last(), targets.drop_last(), i);
        let k = choose|k: int| 0 <= k < before.len() && before[k] == w;
        assert(all[k] == w);
    } else {
        assert(all[all.len() - 1] == w);
    }
}

proof fn by_size_keeps_members(list: Seq<WorkspaceView>, w: WorkspaceView)
    ensures
        by_size(list).contains(w) <==> list.contains(w),
{
    broadcast use vstd::seq_lib::group_to_multiset_ensures;

    by_size_is_a_stable_sort(list);
    assert(by_size(list).to_multiset().count(w) == list.to_multiset().count(w));
}

/// A workspace is listed just when it stands at a root and something is in its
/// target directory. It is listed with that directory, which may be deleted, and
/// with its size, and it is not selected.
pub proof fn what_is_listed(all: Seq<CandidateView>, targets: Seq<Option<u64>>, w: WorkspaceView)
    requires
        targets.len() == roots_of(all).len(),
    ensures
        by_size(workspaces_at(roots_of(all), targets)).contains(w) <==> exists|i: int|
            0 <= i < targets.len() && w.root == (#[trigger] roots_of(all)[i]).root && targets[i]
                == Some(w.target_size) && w.target_size > 0 && w.target_path == joined(
                w.root,
                target_name(),
            ) && !w.selected,
        by_size(workspaces_at(roots_of(all), targets)).contains(w) ==> may_delete(
            w.target_path,
        ),
        largest_first(by_size(workspaces_at(roots_of(all), targets))),
{
    let roots = roots_of(all);
    let list = workspaces_at(roots, targets);
    by_size_keeps_members(list, w);
    by_size_is_a_stable_sort(list);
    if list.contains(w) {
        let i = listing_is_measured(roots, targets, w);
        assert(w.root == roots[i].root);
        target_lies_in_its_directory(w.root);
    }
    if exists|i: int|
        0 <= i < targets.len() && w.root == (#[trigger] roots[i]).root && targets[i] == Some(
            w.target_size,
        ) && w.target_size > 0 && w.target_path == joined(w.root, target_name()) && !w.selected {
        let i = choose|i: int|
            0 <= i < targets.len() && w.root == (#[trigger] roots[i]).root && targets[i] == Some(
                w.target_size,
            ) && w.target_size > 0 && w.target_path == joined(w.root, target_name())
                && !w.selected;
        measured_is_listed(roots, targets, i);
        assert(workspace_at(roots[i].root, targets[i]) =~= Some(w));
    }
}

/// Whether a candidate stands at `root` that declares `[workspace]`, or that has no
/// ancestor which does.
pub open spec fn owns_itself(root: Seq<u8>, all: Seq<CandidateView>) -> bool {
    exists|i: int|
        0 <= i < all.len() && (#[trigger] all[i]).root == root && (all[i].has_workspace || !(
        exists|j: int|
            0 <= j < all.len() && (#[trigger] all[j]).has_workspace && is_ancestor(
                all[j].root,
                root,
            )))
}

/// Member crates are never listed: what is listed declares `[workspace]` itself,
/// or no ancestor of it does.
pub proof fn members_are_not_listed(
    all: Seq<CandidateView>,
    targets: Seq<Option<u64>>,
    w: WorkspaceView,
)
    requires
        distinct(all),
        targets.len() == roots_of(all).len(),
        by_size(workspaces_at(roots_of(all), targets)).contains(w),
    ensures
        owns_itself(w.root, all),
{
    let roots = roots_of(all);
    what_is_listed(all, targets, w);
    let i = choose|i: int|
        0 <= i < targets.len() && w.root == (#[trigger] roots[i]).root && targets[i] == Some(
            w.target_size,
        );
    roots_are_candidates(all, all, i);
    let c = roots[i];
    let k = choose|k: int| 0 <= k < all.len() && all[k] == c;
    roots_are_what_no_workspace_owns(c, all);
    assert(all[k].root == w.root);
}

/// Whether no two workspaces of a list stand at one place.
pub open spec fn listed_once(list: Seq<WorkspaceView>) -> bool {
    forall|i: int, j: int|
        0 <= i < j < list.len() ==> components(#[trigger] list[i].root) != components(
            #[trigger] list[j].root,
        )
}

proof fn placed_is_inserted(list: Seq<WorkspaceView>, w: WorkspaceView) -> (at: int)
    ensures
        0 <= at <= list.len(),
        placed(list, w) == list.insert(at, w),
    decreases list.len(),
{
    if list.len() == 0 || list.last().target_size >= w.target_size {
        assert(list.insert(list.len() as int, w) =~= list.push(w));
        list.len() as int
    } else {
        let at = placed_is_inserted(list.drop_last(), w);
        assert(list.insert(at, w) =~= list.drop_last().insert(at, w).push(list.last()));
        at
    }
}

proof fn sorting_lists_once(list: Seq<WorkspaceView>)
    requires
        listed_once(list),
    ensures
        listed_once(by_size(list)),
    decreases list.len(),
{
    if list.len() > 0 {
        let shorter = list.drop_last();
        let w = list.last();
        assert(listed_once(shorter)) by {
            assert forall|i: int, j: int| 0 <= i < j < shorter.len() implies components(
                #[trigger] shorter[i].root,
            ) != components(#[trigger] shorter[j].root) by {
                assert(components(list[i].root) != components(list[j].root));
            }
        }
        sorting_lists_once(shorter);
        let sorted = by_size(shorter);
        let at = placed_is_inserted(sorted, w);
        let now = sorted.insert(at, w);
        assert forall|k: int| 0 <= k < sorted.len() implies components(#[trigger] sorted[k].root)
            != components(w.root) by {
            by_size_keeps_members(shorter, sorted[k]);
            assert(sorted.contains(sorted[k]));
            let m = choose|m: int| 0 <= m < shorter.len() && shorter[m] == sorted[k];
            assert(components(list[m].root) != components(list[list.len() - 1].root));
        }
        assert forall|i: int, j: int| 0 <= i < j < now.len() implies components(
            #[trigger] now[i].root,
        ) != components(#[trigger] now[j].root) by {
            if i == at {
                assert(now[j] == sorted[j - 1]);
                assert(components(sorted[j - 1].root) != components(w.root));
            } else if j == at {
                assert(now[i] == sorted[i]);
                assert(components(sorted[i].root) != components(w.root));
            } else {
                let a = if i < at {
                    i
                } else {
                    i - 1
                };
                let b = if j < at {
                    j
                } else {
                    j - 1
                };
                assert(now[i] == sorted[a] && now[j] == sorted[b]);
                assert(components(sorted[a].root) != components(sorted[b].root));
            }
        }
    }
}

proof fn measured_once(roots: Seq<CandidateView>, targets: Seq<Option<u64>>)
    requires
        roots.len() == targets.len(),
        distinct(roots),
    ensures
        listed_once(workspaces_at(roots, targets)),
    decreases roots.len(),
{
    if roots.len() > 0 {
        let fewer = roots.drop_last();
        assert(distinct(fewer)) by {
            assert forall|i: int, j: int| 0 <= i < j < fewer.len() implies components(
                #[trigger] fewer[i].root,
            ) != components(#[trigger] fewer[j].root) by {
                assert(components(roots[i].root) != components(roots[j].root));
            }
        }
        measured_once(fewer, targets.drop_last());
        let before = workspaces_at(fewer, targets.drop_last());
        let now = workspaces_at(roots, targets);
        assert forall|i: int, j: int| 0 <= i < j < now.len() implies components(
            #[trigger] now[i].root,
        ) != components(#[trigger] now[j].root) by {
            if j < before.len() {
                assert(components(before[i].root) != components(before[j].root));
            } else {
                assert(before.contains(before[i]));
                let k = listing_is_measured(fewer, targets.drop_last(), before[i]);
                assert(components(roots[k].root) != components(roots[roots.len() - 1].root));
            }
        }
    }
}

proof fn roots_stay_distinct(all: Seq<CandidateView>, known: Seq<CandidateView>)
    requires
        distinct(all),
    ensures
        distinct(all.filter(|c: CandidateView| root_among(c, known))),
    decreases all.len(),
{
    reveal(Seq::filter);
    let pred = |c: CandidateView| root_among(c, known);
    if all.len() > 0 {
        let shorter = all.drop_last();
        assert(distinct(shorter)) by {
            assert forall|i: int, j: int| 0 <= i < j < shorter.len() implies components(
                #[trigger] shorter[i].root,
            ) != components(#[trigger] shorter[j].root) by {
                assert(components(all[i].root) != components(all[j].root));
            }
        }
        roots_stay_distinct(shorter, known);
        let before = shorter.filter(pred);
        let now = all.filter(pred);
        assert forall|i: int, j: int| 0 <= i < j < now.len() implies components(
            #[trigger] now[i].root,
        ) != components(#[trigger] now[j].root) by {
            if j < before.len() {
                assert(components(before[i].root) != components(before[j].root));
            } else {
                roots_are_candidates(shorter, known, i);
                let k = choose|k: int| 0 <= k < shorter.len() && shorter[k] == before[i];
                assert(components(all[k].root) != components(all[all.len() - 1].root));
            }
        }
    }
}

/// Nothing is listed twice, where no directory is walked twice.
pub proof fn nothing_is_listed_twice(all: Seq<CandidateView>, targets: Seq<Option<u64>>)
    requires
        distinct(all),
        targets.len() == roots_of(all).len(),
    ensures
        listed_once(by_size(workspaces_at(roots_of(all), targets))),
{
    roots_stay_distinct(all, all);
    measured_once(roots_of(all), targets);
    sorting_lists_once(workspaces_at(roots_of(all), targets));
}

/// Two manifests at two places make candidates at two places.
pub proof fn each_manifest_makes_its_own_candidate(
    a: Seq<u8>,
    b: Seq<u8>,
    text_a: Option<Seq<char>>,
    text_b: Option<Seq<char>>,
)
    requires
        components(a) != components(b),
        candidate_at(a, true, text_a) is Some,
        candidate_at(b, true, text_b) is Some,
    ensures
        components(candidate_at(a, true, text_a).unwrap().root) != components(
            candidate_at(b, true, text_b).unwrap().root,
        ),
{
    parent_exists(a);
    parent_exists(b);
    let up_a = components(a).drop_last();
    let up_b = components(b).drop_last();
    assert(components(a) =~= up_a.push(components(a).last()));
    assert(components(b) =~= up_b.push(components(b).last()));
}

/// An entry that a walk takes up: its path, whether it is a regular file, and its
/// text where that can be read.
pub struct WalkEntry {
    pub path: Seq<u8>,
    pub is_file: bool,
    pub content: Option<Seq<char>>,
}

/// The candidates that a walk finds, visiting its entries in order.
pub open spec fn found_by(walk: Seq<WalkEntry>) -> Seq<CandidateView>
    decreases walk.len(),
{
    if walk.len() == 0 {
        Seq::empty()
    } else {
        visited(
            found_by(walk.drop_last()),
            walk.last().path,
            walk.last().is_file,
            walk.last().content,
        )
    }
}

/// Whether a walk comes to no place twice.
pub open spec fn walks_once(walk: Seq<WalkEntry>) -> bool {
    forall|i: int, j: int|
        0 <= i < j < walk.len() ==> components(#[trigger] walk[i].path) != components(
            #[trigger] walk[j].path,
        )
}

proof fn found_at_an_entry(walk: Seq<WalkEntry>, k: int) -> (i: int)
    requires
        0 <= k < found_by(walk).len(),
    ensures
        0 <= i < walk.len(),
        candidate_at(walk[i].path, walk[i].is_file, walk[i].content) == Some(found_by(walk)[k]),
    decreases walk.len(),
{
    let shorter = walk.drop_last();
    if k < found_by(shorter).len() {
        let i = found_at_an_entry(shorter, k);
        assert(shorter[i] == walk[i]);
        i
    } else {
        walk.len() - 1
    }
}

/// A walk that comes to no place twice finds no two candidates at one place.
pub proof fn a_walk_finds_distinct_candidates(walk: Seq<WalkEntry>)
    requires
        walks_once(walk),
    ensures
        distinct(found_by(walk)),
    decreases walk.len(),
{
    if walk.len() > 0 {
        let shorter = walk.drop_last();
        let last = walk.last();
        assert(walks_once(shorter)) by {
            assert forall|i: int, j: int| 0 <= i < j < shorter.len() implies components(
                #[trigger] shorter[i].path,
            ) != components(#[trigger] shorter[j].path) by {
                assert(components(walk[i].path) != components(walk[j].path));
            }
        }
        a_walk_finds_distinct_candidates(shorter);
        let before = found_by(shorter);
        let now = found_by(walk);
        assert forall|i: int, j: int| 0 <= i < j < now.len() implies components(
            #[trigger] now[i].root,
        ) != components(#[trigger] now[j].root) by {
            if j < before.len() {
                assert(components(before[i].root) != components(before[j].root));
            } else {
                let k = found_at_an_entry(shorter, i);
                assert(components(walk[k].path) != components(walk[walk.len() - 1].path));
                each_manifest_makes_its_own_candidate(
                    walk[k].path,
                    last.path,
                    walk[k].content,
                    last.content,
                );
            }
        }
    }
}

/// A scan whose walk comes to no place twice lists nothing twice, and lists no member
/// crate: what it lists declares `[workspace]` itself, or no ancestor of it that the
/// walk found does.
pub proof fn a_walk_lists_roots_once(walk: Seq<WalkEntry>, targets: Seq<Option<u64>>)
    requires
        walks_once(walk),
        targets.len() == roots_of(found_by(walk)).len(),
    ensures
        listed_once(by_size(workspaces_at(roots_of(found_by(walk)), targets))),
        forall|w: WorkspaceView| #[trigger]
            by_size(workspaces_at(roots_of(found_by(walk)), targets)).contains(w) ==> owns_itself(
                w.root,
                found_by(walk),
            ),
{
    let all = found_by(walk);
    a_walk_finds_distinct_candidates(walk);
    nothing_is_listed_twice(all, targets);
    assert forall|w: WorkspaceView| #[trigger]
        by_size(workspaces_at(roots_of(all), targets)).contains(w) implies owns_itself(
        w.root,
        all,
    ) by {
        members_are_not_listed(all, targets, w);
    }
}

/// The sizes of two parts of a directory add up to its size.
pub proof fn sizes_add_up(first: Seq<FileEntry>, second: Seq<FileEntry>)
    ensures
        files_size(first + second) == files_size(first) + files_size(second),
    decreases second.len(),
{
    if second.len() > 0 {
        sizes_add_up(first, second.drop_last());
        assert((first + second).drop_last() =~= first + second.drop_last());
    } else {
        assert(first + second =~= first);
    }
}

} // verus!
