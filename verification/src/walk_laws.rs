//! What holds of every walk, and of every directory that is measured.

use vstd::prelude::*;

use crate::manifest::declares_package;
use crate::manifest::declares_workspace;
use crate::path::ascii;
use crate::path::components;
use crate::path::dot;
use crate::path::joined;
use crate::path::slash;
use crate::path::target_name;
use crate::path::FilePath;
use crate::path::DOT;
use crate::path_laws::a_name_lies_in_its_directory;
use crate::path_laws::is_name;
use crate::scan::ancestor_len;
use crate::scan::candidate_at;
use crate::scan::candidates;
use crate::scan::dir_size;
use crate::scan::enters;
use crate::scan::files_size;
use crate::scan::first_at;
use crate::scan::is_manifest;
use crate::scan::is_skippable_dir;
use crate::scan::root_among;
use crate::scan::roots_of;
use crate::scan::scan_found;
use crate::scan::scan_messages;
use crate::scan::skippable;
use crate::scan::takes_up;
use crate::scan::visited;
use crate::scan::workspaces_at;
use crate::scan::Candidate;
use crate::scan::CandidateView;
use crate::scan::FileEntry;
use crate::scan::ScanMsg;
use crate::scan_laws::distinct;
use crate::scan_laws::is_ancestor;
use crate::scan_laws::roots_are_what_no_workspace_owns;
use crate::scan_laws::sizes_add_up;
use crate::workspace::by_size_is_a_stable_sort;
use crate::workspace::listed;
use crate::workspace::Workspace;

verus! {

/// The directories that are skipped are `target`, `node_modules` and those whose name
/// starts with a full stop, but for `.` and `..`, and no others.
pub proof fn these_directories_are_skipped(name: Seq<char>)
    ensures
        skippable(name) <==> {
            ||| name == "target"@
            ||| name == "node_modules"@
            ||| name.len() > 0 && name[0] == '.' && name != seq!['.'] && name != seq!['.', '.']
        },
{
    reveal_strlit("target");
    reveal_strlit(".git");
    reveal_strlit("node_modules");
    reveal_strlit(".svn");
    reveal_strlit(".hg");
    reveal_strlit(".");
    reveal_strlit("..");
    assert("."@ =~= seq!['.']);
    assert(".."@ =~= seq!['.', '.']);
    assert(".git"@.len() == 4 && ".svn"@.len() == 4 && ".hg"@.len() == 3);
    assert(seq!['.'].len() == 1 && seq!['.', '.'].len() == 2);
}

/// Whether a directory is skipped is told by its name, whatever the name is.
pub proof fn a_name_decides_alone(name: &str, skip: bool)
    requires
        call_ensures(is_skippable_dir, (name,), skip),
    ensures
        skip <==> {
            ||| name@ == "target"@
            ||| name@ == "node_modules"@
            ||| name@.len() > 0 && name@[0] == '.' && name@ != seq!['.'] && name@ != seq!['.', '.']
        },
{
    these_directories_are_skipped(name@);
}

/// How deep below the start a directory lies makes no difference to whether it is
/// entered.
pub proof fn depth_makes_no_difference(
    near: usize,
    far: usize,
    is_dir: bool,
    name: Option<&str>,
    enter_near: bool,
    enter_far: bool,
)
    requires
        near >= 1,
        far >= 1,
        call_ensures(enters, (near, is_dir, name), enter_near),
        call_ensures(enters, (far, is_dir, name), enter_far),
    ensures
        enter_near == enter_far,
{
}

/// A directory is entered at every depth unless its name is one of those that are
/// skipped; one whose name is no Unicode is not.
pub proof fn ordinary_directories_are_entered(depth: usize, name: Option<&str>, enter: bool)
    requires
        depth >= 1,
        call_ensures(enters, (depth, true, name), enter),
    ensures
        enter <==> (name matches Some(text) && !(text@ == "target"@ || text@ == "node_modules"@ || (
        text@.len() > 0 && text@[0] == '.' && text@ != seq!['.'] && text@ != seq!['.', '.']))),
{
    if let Some(text) = name {
        these_directories_are_skipped(text@);
    }
}

/// The start of a walk and every entry that is no directory are taken up, whatever their
/// names.
pub proof fn the_start_and_all_files_are_taken_up(
    depth: usize,
    is_dir: bool,
    name: Option<&str>,
    enter: bool,
)
    requires
        depth == 0 || !is_dir,
        call_ensures(enters, (depth, is_dir, name), enter),
    ensures
        enter,
{
}

/// The rule of the walk at every depth, for all names.
pub proof fn the_walk_goes_by_names(depth: nat, other: nat, name: Option<Seq<char>>)
    requires
        depth >= 1,
        other >= 1,
    ensures
        takes_up(depth, true, name) == takes_up(other, true, name),
        takes_up(depth, true, name) <==> (name matches Some(text) && !skippable(text)),
        takes_up(depth, false, name),
        takes_up(0, true, name),
{
}

/// A directory with one regular file is as large as that file, for every length; what
/// is no regular file, or cannot be read, weighs nothing.
pub proof fn a_file_weighs_its_length(entry: FileEntry)
    ensures
        files_size(seq![entry]) == (if entry.is_file && entry.len is Some {
            entry.len.unwrap() as int
        } else {
            0
        }),
        files_size(Seq::empty()) == 0,
{
    reveal_with_fuel(files_size, 2);
    assert(seq![entry].drop_last() =~= Seq::empty());
}

/// One more regular file adds its length to what is measured, where the sum fits.
pub proof fn one_more_file_adds_its_length(
    entries: Vec<FileEntry>,
    more: Vec<FileEntry>,
    size: Option<u64>,
    grown: Option<u64>,
    len: u64,
)
    requires
        call_ensures(dir_size, (&entries,), size),
        call_ensures(dir_size, (&more,), grown),
        more@ == entries@.push(FileEntry { is_file: true, len: Some(len) }),
        size is Some,
    ensures
        grown == (if size.unwrap() + len <= u64::MAX {
            Some((size.unwrap() + len) as u64)
        } else {
            None
        }),
{
    let file = seq![FileEntry { is_file: true, len: Some(len) }];
    a_file_weighs_its_length(file[0]);
    sizes_add_up(entries@, file);
    assert(entries@ + file =~= more@);
}

/// One more entry that is no regular file, or that cannot be read, adds nothing.
pub proof fn other_entries_add_nothing(
    entries: Vec<FileEntry>,
    more: Vec<FileEntry>,
    size: Option<u64>,
    grown: Option<u64>,
    other: FileEntry,
)
    requires
        call_ensures(dir_size, (&entries,), size),
        call_ensures(dir_size, (&more,), grown),
        more@ == entries@.push(other),
        !other.is_file || other.len is None,
    ensures
        grown == size,
{
    a_file_weighs_its_length(other);
    sizes_add_up(entries@, seq![other]);
    assert(entries@ + seq![other] =~= more@);
}

/// Nothing weighs nothing.
pub proof fn an_empty_directory_weighs_nothing(entries: Vec<FileEntry>, size: Option<u64>)
    requires
        call_ensures(dir_size, (&entries,), size),
        entries@.len() == 0,
    ensures
        size == Some(0u64),
{
    assert(entries@ =~= Seq::empty());
}

proof fn cargo_toml_is_a_name()
    ensures
        is_name(ascii("Cargo.toml"@)),
        ascii("Cargo.toml"@).len() == 10,
        ascii("Cargo.toml"@) == seq![67u8, 97, 114, 103, 111, 46, 116, 111, 109, 108],
{
    reveal_strlit("Cargo.toml");
    assert(ascii("Cargo.toml"@) =~= seq![67u8, 97, 114, 103, 111, 46, 116, 111, 109, 108]);
}

/// A walk entry is a manifest just when it is a regular file whose final component is
/// `Cargo.toml`.
pub proof fn manifests_are_told_by_their_name(path: FilePath, is_file: bool, manifest: bool)
    requires
        call_ensures(is_manifest, (&path, is_file), manifest),
    ensures
        manifest <==> is_file && components(path@).len() > 0 && components(path@).last() == seq![
            67u8,
            97,
            114,
            103,
            111,
            46,
            116,
            111,
            109,
            108,
        ],
{
    cargo_toml_is_a_name();
    assert(slash().len() == 1 && dot().len() == 1 && seq![DOT, DOT].len() == 2);
}

/// A readable manifest in a directory that declares a workspace or a package makes a
/// candidate there with just what it declares; one that declares neither makes none.
pub proof fn a_manifest_speaks_for_its_directory(dir: Seq<u8>, text: Seq<char>)
    ensures
        ({
            let made = candidate_at(joined(dir, ascii("Cargo.toml"@)), true, Some(text));
            &&& made is Some <==> declares_workspace(text) || declares_package(text)
            &&& made matches Some(c) ==> {
                &&& components(c.root) == components(dir)
                &&& c.has_workspace == declares_workspace(text)
                &&& c.has_package == declares_package(text)
            }
        }),
{
    cargo_toml_is_a_name();
    assert(seq![46u8].len() == 1 && seq![46u8, 46u8].len() == 2);
    a_name_lies_in_its_directory(dir, ascii("Cargo.toml"@));
}

/// An entry that makes a candidate adds it behind all that were found before, however
/// many they are, and any other entry adds none.
pub proof fn a_visit_adds_at_most_one(
    found: Seq<CandidateView>,
    path: Seq<u8>,
    is_file: bool,
    content: Option<Seq<char>>,
)
    ensures
        candidate_at(path, is_file, content) is None ==> visited(found, path, is_file, content)
            == found,
        candidate_at(path, is_file, content) matches Some(c) ==> visited(
            found,
            path,
            is_file,
            content,
        ) == found.push(c),
{
}

/// What is no regular file, has another name or cannot be read makes no candidate.
pub proof fn nothing_else_makes_a_candidate(path: Seq<u8>, is_file: bool, content: Option<Seq<char>>)
    requires
        !is_file || content is None || components(path).len() == 0 || components(path).last()
            != ascii("Cargo.toml"@),
    ensures
        candidate_at(path, is_file, content) is None,
{
}

/// Of several candidates at one place, the first speaks for it.
pub proof fn the_first_at_a_place_speaks_for_it(
    all: Seq<CandidateView>,
    place: Seq<Seq<u8>>,
    i: int,
)
    requires
        0 <= i < all.len(),
        components(all[i].root) == place,
        forall|k: int| 0 <= k < i ==> components(#[trigger] all[k].root) != place,
    ensures
        first_at(all, place) == Some(all[i]),
    decreases all.len(),
{
    let shorter = all.drop_last();
    if i < shorter.len() {
        assert forall|k: int| 0 <= k < i implies components(#[trigger] shorter[k].root) != place by {
            assert(shorter[k] == all[k]);
        }
        the_first_at_a_place_speaks_for_it(shorter, place, i);
    } else {
        assert forall|k: int| 0 <= k < shorter.len() implies components(#[trigger] shorter[k].root)
            != place by {
            assert(shorter[k] == all[k]);
        }
        nobody_speaks_for_an_empty_place(shorter, place);
    }
}

/// Where no candidate stands, none speaks.
pub proof fn nobody_speaks_for_an_empty_place(all: Seq<CandidateView>, place: Seq<Seq<u8>>)
    requires
        forall|k: int| 0 <= k < all.len() ==> components(#[trigger] all[k].root) != place,
    ensures
        first_at(all, place) is None,
    decreases all.len(),
{
    if all.len() > 0 {
        let shorter = all.drop_last();
        assert forall|k: int| 0 <= k < shorter.len() implies components(#[trigger] shorter[k].root)
            != place by {
            assert(shorter[k] == all[k]);
        }
        nobody_speaks_for_an_empty_place(shorter, place);
        assert(all[all.len() - 1] == all.last());
    }
}

/// Where no two candidates stand at one place, a candidate is a root just when it
/// declares a workspace, or when it declares a package and no candidate that declares a
/// workspace stands at a proper beginning of its components.
pub proof fn a_root_has_no_workspace_above_it(candidate: CandidateView, all: Seq<CandidateView>)
    requires
        distinct(all),
    ensures
        root_among(candidate, all) <==> (candidate.has_workspace || (candidate.has_package && !(
        exists|i: int|
            0 <= i < all.len() && (#[trigger] all[i]).has_workspace && stands_above(
                all[i].root,
                candidate.root,
            )))),
{
    roots_are_what_no_workspace_owns(candidate, all);
    assert forall|i: int| 0 <= i < all.len() implies is_ancestor(
        (#[trigger] all[i]).root,
        candidate.root,
    ) == stands_above(all[i].root, candidate.root) by {
        above_is_ancestor(all[i].root, candidate.root);
    }
}

/// Whether the components of `above` are a proper beginning of those of `path`. The empty
/// path stands above relative paths only.
pub open spec fn stands_above(above: Seq<u8>, path: Seq<u8>) -> bool {
    &&& components(above).len() < components(path).len()
    &&& components(above).is_prefix_of(components(path))
    &&& components(above).len() == 0 ==> path.len() == 0 || path[0] != 47
}

proof fn above_is_ancestor(above: Seq<u8>, path: Seq<u8>)
    ensures
        is_ancestor(above, path) == stands_above(above, path),
{
    let up = components(above);
    let all = components(path);
    if is_ancestor(above, path) {
        let k = choose|k: int| #[trigger] ancestor_len(path, k) && up == all.take(k);
        assert(up =~= all.subrange(0, up.len() as int));
    }
    if stands_above(above, path) {
        let k = up.len() as int;
        assert(all.take(k) =~= all.subrange(0, k));
        assert(ancestor_len(path, k));
    }
}

spec fn kept_of(part: Seq<CandidateView>, all: Seq<CandidateView>) -> Seq<CandidateView> {
    part.filter(|c: CandidateView| root_among(c, all))
}

proof fn kept_grow(all: Seq<CandidateView>, known: Seq<CandidateView>, k: int)
    requires
        0 <= k <= all.len(),
    ensures
        kept_of(all.take(k), known).is_prefix_of(kept_of(all, known)),
    decreases all.len() - k,
{
    let now = kept_of(all.take(k), known);
    if k < all.len() {
        reveal(Seq::filter);
        kept_grow(all, known, k + 1);
        assert(all.take(k + 1).drop_last() =~= all.take(k));
        let more = kept_of(all.take(k + 1), known);
        let full = kept_of(all, known);
        assert(now =~= more.subrange(0, now.len() as int));
        assert forall|i: int| 0 <= i < now.len() implies now[i] == full[i] by {
            assert(more[i] == full.subrange(0, more.len() as int)[i]);
        }
        assert(now =~= full.subrange(0, now.len() as int));
    } else {
        assert(all.take(k) =~= all);
        assert(now =~= now.subrange(0, now.len() as int));
    }
}

/// Every candidate that is a root is kept, behind the roots that were found before it,
/// and no candidate that is none is kept.
pub proof fn roots_keep_their_order(all: Seq<CandidateView>, i: int)
    requires
        0 <= i < all.len(),
    ensures
        ({
            let before = all.take(i).filter(|c: CandidateView| root_among(c, all)).len() as int;
            let after = all.take(i + 1).filter(|c: CandidateView| root_among(c, all)).len() as int;
            &&& root_among(all[i], all) ==> after == before + 1 && before < roots_of(all).len()
                && roots_of(all)[before] == all[i]
            &&& !root_among(all[i], all) ==> after == before
        }),
        roots_of(all).len() == all.take(all.len() as int).filter(
            |c: CandidateView| root_among(c, all),
        ).len(),
{
    reveal(Seq::filter);
    let pred = |c: CandidateView| root_among(c, all);
    let next = all.take(i + 1);
    assert(next.drop_last() =~= all.take(i));
    assert(all.take(all.len() as int) =~= all);
    kept_grow(all, all, i + 1);
    let now = kept_of(next, all);
    let full = kept_of(all, all);
    if root_among(all[i], all) {
        assert(now.last() == all[i]);
        assert(full.subrange(0, now.len() as int)[now.len() - 1] == full[now.len() - 1]);
    }
}

/// The workspaces at two groups of roots are those of the first and then those of the
/// second.
pub proof fn listings_add_up(
    first: Seq<CandidateView>,
    second: Seq<CandidateView>,
    first_sizes: Seq<Option<u64>>,
    second_sizes: Seq<Option<u64>>,
)
    requires
        first.len() == first_sizes.len(),
        second.len() == second_sizes.len(),
    ensures
        workspaces_at(first + second, first_sizes + second_sizes) == workspaces_at(
            first,
            first_sizes,
        ) + workspaces_at(second, second_sizes),
    decreases second.len(),
{
    let both = first + second;
    let sizes = first_sizes + second_sizes;
    if second.len() > 0 {
        listings_add_up(first, second.drop_last(), first_sizes, second_sizes.drop_last());
        assert(both.drop_last() =~= first + second.drop_last());
        assert(sizes.drop_last() =~= first_sizes + second_sizes.drop_last());
        assert(both.last() == second.last() && sizes.last() == second_sizes.last());
        assert(workspaces_at(both, sizes) =~= workspaces_at(first, first_sizes) + workspaces_at(
            second,
            second_sizes,
        ));
    } else {
        assert(both =~= first);
        assert(sizes =~= first_sizes);
        assert(workspaces_at(second, second_sizes) =~= Seq::empty());
        assert(workspaces_at(both, sizes) =~= workspaces_at(first, first_sizes) + workspaces_at(
            second,
            second_sizes,
        ));
    }
}

/// A single root is listed just when something is in its target directory, with that
/// directory and its size, not selected.
pub proof fn one_root_is_listed_with_its_target(root: CandidateView, size: Option<u64>)
    ensures
        ({
            let list = workspaces_at(seq![root], seq![size]);
            &&& list.len() == (if size matches Some(n) && n > 0 {
                1int
            } else {
                0
            })
            &&& list.len() == 1 ==> {
                &&& list[0].root == root.root
                &&& list[0].target_path == joined(root.root, target_name())
                &&& Some(list[0].target_size) == size
                &&& !list[0].selected
            }
        }),
{
    reveal_with_fuel(workspaces_at, 2);
    assert(seq![root].drop_last() =~= Seq::empty());
}

/// A scan of a start that exists lists the largest target first, and lists as many
/// workspaces as roots have something in their target; where the start does not exist
/// it lists nothing.
pub proof fn a_scan_lists_the_largest_first(
    start: FilePath,
    exists: bool,
    found: Vec<Candidate>,
    targets: Vec<Option<u64>>,
    list: Result<Vec<Workspace>, String>,
    i: int,
    j: int,
)
    requires
        call_ensures(scan_found, (&start, exists, &found, &targets), list),
    ensures
        list is Ok <==> exists,
        list matches Ok(all) ==> {
            &&& all@.len() == workspaces_at(roots_of(candidates(found@)), targets@).len()
            &&& 0 <= i <= j < all@.len() ==> all@[i].target_size >= all@[j].target_size
        },
{
    if let Ok(all) = list {
        let wanted = workspaces_at(roots_of(candidates(found@)), targets@);
        by_size_is_a_stable_sort(wanted);
        assert(listed(all@).len() == all@.len());
        if 0 <= i <= j < all@.len() {
            assert(listed(all@)[i] == all@[i]@ && listed(all@)[j] == all@[j]@);
            assert(listed(all@)[i].target_size >= listed(all@)[j].target_size);
        }
    }
}

/// A scan sends its list whole, or its error, and says that it is done, last.
pub proof fn a_scan_sends_what_it_found(
    result: Result<Vec<Workspace>, String>,
    messages: Vec<ScanMsg>,
)
    requires
        call_ensures(scan_messages, (result,), messages),
    ensures
        messages@.len() == 2,
        messages@[1] is Done,
        result matches Ok(list) ==> (messages@[0] matches ScanMsg::Batch(sent) && listed(sent@)
            == listed(list@)),
        result matches Err(text) ==> (messages@[0] matches ScanMsg::Error(sent) && sent@ == text@),
{
}

} // verus!
