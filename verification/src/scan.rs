//! Discovery: which directories the walk enters, which manifests make a
//! workspace root, and what the scan lists.

use vstd::prelude::*;
use vstd::slice::slice_subrange;
use vstd::string::*;

use crate::manifest::declares_package;
use crate::manifest::declares_workspace;
use crate::manifest::inspect_cargo_toml;
use crate::path::ascii;
use crate::path::components;
use crate::path::ends_early;
use crate::path::ends_early_at;
use crate::path::file_name_of;
use crate::path::joined;
use crate::path::marked;
use crate::path::parent_of;
use crate::path::root_part;
use crate::path::same_bytes;
use crate::path::shown;
use crate::path::target_name;
use crate::path::FilePath;
use crate::path::Span;
use crate::path::SLASH;
use crate::text::same_text;
use crate::workspace::by_size;
use crate::workspace::listed;
use crate::workspace::sort_by_size;
use crate::workspace::Workspace;
use crate::workspace::WorkspaceView;

verus! {

/// Whether a directory of this name is left out of the walk: build artifacts,
/// version control, hidden directories and `node_modules`.
pub open spec fn skippable(name: Seq<char>) -> bool {
    ||| name == "target"@
    ||| name == ".git"@
    ||| name == "node_modules"@
    ||| name == ".svn"@
    ||| name == ".hg"@
    ||| name.len() > 0 && name[0] == '.' && name != "."@ && name != ".."@
}

/// Returns true if the file name corresponds to a directory we don't want
/// to descend into during the workspace-discovery walk.
pub fn is_skippable_dir(name: &str) -> (skip: bool)
    ensures
        skip == skippable(name@),
{
    if same_text(name, "target") || same_text(name, ".git") || same_text(name, "node_modules")
        || same_text(name, ".svn") || same_text(name, ".hg") {
        return true;
    }
    !name.is_empty() && name.get_char(0) == '.' && !same_text(name, ".") && !same_text(name, "..")
}

/// Whether the walk takes up an entry: the start itself and every plain file
/// it does, and a directory unless its name is skippable or no Unicode.
pub open spec fn takes_up(depth: nat, is_dir: bool, name: Option<Seq<char>>) -> bool {
    depth == 0 || !is_dir || (name matches Some(text) && !skippable(text))
}

/// Whether the walk takes up an entry, given its depth below the start and,
/// where it is valid Unicode, its name.
pub fn enters(depth: usize, is_dir: bool, name: Option<&str>) -> (enter: bool)
    ensures
        enter == takes_up(
            depth as nat,
            is_dir,
            match name {
                Some(text) => Some(text@),
                None => None,
            },
        ),
{
    if depth == 0 || !is_dir {
        return true;
    }
    match name {
        Some(text) => !is_skippable_dir(text),
        None => false,
    }
}

/// A candidate discovered during the walk.
#[derive(Debug)]
pub struct Candidate {
    pub root: FilePath,
    pub has_workspace: bool,
    pub has_package: bool,
}

/// A candidate, with its path as a sequence of bytes.
#[verifier::ext_equal]
pub struct CandidateView {
    pub root: Seq<u8>,
    pub has_workspace: bool,
    pub has_package: bool,
}

impl View for Candidate {
    type V = CandidateView;

    open spec fn view(&self) -> CandidateView {
        CandidateView {
            root: self.root@,
            has_workspace: self.has_workspace,
            has_package: self.has_package,
        }
    }
}

impl Clone for Candidate {
    fn clone(&self) -> (candidate: Self)
        ensures
            candidate@ == self@,
    {
        Candidate {
            root: self.root.clone(),
            has_workspace: self.has_workspace,
            has_package: self.has_package,
        }
    }
}

/// The views of a list of candidates.
pub open spec fn candidates(list: Seq<Candidate>) -> Seq<CandidateView> {
    list.map_values(|c: Candidate| c@)
}

/// Whether a walk entry is a manifest to read.
pub open spec fn manifest_at(path: Seq<u8>, is_file: bool) -> bool {
    is_file && file_name_of(path) == Some(ascii("Cargo.toml"@))
}

/// Whether a walk entry is a manifest to read: a regular file that is named
/// `Cargo.toml`.
pub fn is_manifest(path: &FilePath, is_file: bool) -> (manifest: bool)
    ensures
        manifest == manifest_at(path@, is_file),
{
    if !is_file {
        return false;
    }
    proof {
        reveal_strlit("Cargo.toml");
        assert("Cargo.toml".is_ascii());
        assert("Cargo.toml".spec_bytes() =~= ascii("Cargo.toml"@));
    }
    match path.file_name() {
        Some(name) => same_bytes(name.as_slice(), "Cargo.toml".as_bytes()),
        None => false,
    }
}

/// The candidate that a walk entry makes, where it is a readable manifest
/// that declares a workspace or a package.
pub open spec fn candidate_at(path: Seq<u8>, is_file: bool, content: Option<Seq<char>>) -> Option<
    CandidateView,
> {
    match (parent_of(path), content) {
        (Some(root), Some(text)) => if manifest_at(path, is_file) && (declares_workspace(text)
            || declares_package(text)) {
            Some(
                CandidateView {
                    root,
                    has_workspace: declares_workspace(text),
                    has_package: declares_package(text),
                },
            )
        } else {
            None
        },
        _ => None,
    }
}

/// The candidates after one more walk entry, where `found` were there before it.
pub open spec fn visited(
    found: Seq<CandidateView>,
    path: Seq<u8>,
    is_file: bool,
    content: Option<Seq<char>>,
) -> Seq<CandidateView> {
    match candidate_at(path, is_file, content) {
        Some(candidate) => found.push(candidate),
        None => found,
    }
}

/// Adds the candidate that a walk entry makes, if it makes one. `content` is
/// the text of the file, `None` where it could not be read.
pub fn visit(found: &mut Vec<Candidate>, path: &FilePath, is_file: bool, content: Option<&str>)
    ensures
        candidates(final(found)@) == visited(
            candidates(old(found)@),
            path@,
            is_file,
            match content {
                Some(text) => Some(text@),
                None => None,
            },
        ),
{
    if !is_manifest(path, is_file) {
        return;
    }
    let root = match path.parent() {
        Some(root) => root,
        None => return,
    };
    let text = match content {
        Some(text) => text,
        None => return,
    };
    let (has_workspace, has_package) = inspect_cargo_toml(text);
    if !has_workspace && !has_package {
        return;
    }
    let candidate = Candidate { root, has_workspace, has_package };
    assert(candidates(found@.push(candidate)) =~= candidates(found@).push(candidate@));
    found.push(candidate);
}

/// The first candidate whose root has these components.
pub open spec fn first_at(all: Seq<CandidateView>, place: Seq<Seq<u8>>) -> Option<CandidateView>
    decreases all.len(),
{
    if all.len() == 0 {
        None
    } else {
        match first_at(all.drop_last(), place) {
            Some(earlier) => Some(earlier),
            None => if components(all.last().root) == place {
                Some(all.last())
            } else {
                None
            },
        }
    }
}

/// Whether the first `k` components of `path` name an ancestor of it: fewer
/// than all, and not less than the root.
pub open spec fn ancestor_len(path: Seq<u8>, k: int) -> bool {
    root_part(path).len() <= k < components(path).len()
}

/// Whether an ancestor of `path` is known as the root of a workspace.
pub open spec fn claimed(path: Seq<u8>, all: Seq<CandidateView>) -> bool {
    exists|k: int| #[trigger]
        ancestor_len(path, k) && (first_at(all, components(path).take(k)) matches Some(owner)
            && owner.has_workspace)
}

/// Whether a candidate is a true root: it declares `[workspace]`, or it
/// declares `[package]` and no ancestor claims it as a workspace member.
pub open spec fn root_among(candidate: CandidateView, all: Seq<CandidateView>) -> bool {
    candidate.has_workspace || (candidate.has_package && !claimed(candidate.root, all))
}

/// The candidates that are true roots, in order.
pub open spec fn roots_of(all: Seq<CandidateView>) -> Seq<CandidateView> {
    all.filter(|c: CandidateView| root_among(c, all))
}

proof fn first_at_stays(all: Seq<CandidateView>, j: int, place: Seq<Seq<u8>>)
    requires
        0 <= j <= all.len(),
        first_at(all.take(j), place) is Some,
    ensures
        first_at(all, place) == first_at(all.take(j), place),
    decreases all.len() - j,
{
    if j < all.len() {
        assert(all.take(j + 1).drop_last() =~= all.take(j));
        first_at_stays(all, j + 1, place);
    } else {
        assert(all.take(j) =~= all);
    }
}

/// Whether the first `k` components of `path` are all the components of
/// `other`.
fn names_ancestor(
    path: &FilePath,
    spans: &Vec<Span>,
    k: usize,
    other: &FilePath,
    other_spans: &Vec<Span>,
) -> (same: bool)
    requires
        marked(path@, spans@) == components(path@),
        ends_early(path@, spans@),
        marked(other@, other_spans@) == components(other@),
        ends_early(other@, other_spans@),
        k <= spans@.len(),
    ensures
        same == (components(other@) == components(path@).take(k as int)),
{
    let ghost here = components(path@);
    let ghost there = components(other@);
    assert(marked(other@, other_spans@).len() == other_spans@.len());
    assert(here.take(k as int).len() == k);
    if other_spans.len() != k {
        return false;
    }
    let mut i: usize = 0;
    while i < k
        invariant
            here == components(path@),
            there == components(other@),
            marked(path@, spans@) == here,
            ends_early(path@, spans@),
            marked(other@, other_spans@) == there,
            ends_early(other@, other_spans@),
            i <= k <= spans@.len(),
            other_spans@.len() == k,
            forall|n: int| 0 <= n < i ==> there[n] == here[n],
        decreases k - i,
    {
        let a = spans[i];
        let b = other_spans[i];
        proof {
            assert(ends_early_at(path@, spans@, i as int));
            assert(ends_early_at(other@, other_spans@, i as int));
            assert(here[i as int] == path@.subrange(a.start as int, a.end as int));
            assert(there[i as int] == other@.subrange(b.start as int, b.end as int));
        }
        let mine = slice_subrange(path.bytes.as_slice(), a.start, a.end);
        let theirs = slice_subrange(other.bytes.as_slice(), b.start, b.end);
        if !same_bytes(mine, theirs) {
            assert(here.take(k as int)[i as int] == here[i as int]);
            return false;
        }
        i = i + 1;
    }
    assert(there =~= here.take(k as int));
    true
}

/// Determine whether `candidate` is a true root:
/// - it declares `[workspace]`, or
/// - it declares `[package]` and no ancestor (within the scanned set)
///   claims it as a workspace member.
pub fn is_root(candidate: &Candidate, all: &Vec<Candidate>) -> (root: bool)
    ensures
        root == root_among(candidate@, candidates(all@)),
{
    if candidate.has_workspace {
        return true;
    }
    if !candidate.has_package {
        return false;
    }
    let path = &candidate.root;
    let spans = path.spans();
    let ghost p = path@;
    let ghost known = candidates(all@);
    let base: usize = if path.bytes.len() > 0 && path.bytes[0] == SLASH {
        1
    } else {
        0
    };
    // Which ancestors, by their number of components, a candidate was found for.
    let mut seen: Vec<bool> = Vec::new();
    let mut n: usize = 0;
    while n < spans.len()
        invariant
            n <= spans@.len(),
            seen@.len() == n,
            forall|k: int| 0 <= k < n ==> !seen@[k],
        decreases spans@.len() - n,
    {
        seen.push(false);
        n = n + 1;
    }
    let mut j: usize = 0;
    assert(known.take(0) =~= Seq::empty());
    while j < all.len()
        invariant
            p == path@,
            p == candidate@.root,
            !candidate.has_workspace,
            known == candidates(all@),
            marked(p, spans@) == components(p),
            ends_early(p, spans@),
            base == root_part(p).len(),
            seen@.len() == spans@.len(),
            j <= all@.len(),
            forall|k: int|
                ancestor_len(p, k) ==> #[trigger] seen@[k] == (first_at(
                    known.take(j as int),
                    components(p).take(k),
                ) is Some),
            forall|k: int|
                ancestor_len(p, k) ==> (first_at(
                    known.take(j as int),
                    #[trigger] components(p).take(k),
                ) matches Some(owner) ==> !owner.has_workspace),
        decreases all@.len() - j,
    {
        let other = &all[j].root;
        let other_spans = other.spans();
        let k: usize = other_spans.len();
        let ghost now = known.take(j + 1);
        let ghost before = seen@;
        assert(now.drop_last() =~= known.take(j as int));
        assert(now.last() == all@[j as int]@);
        if base <= k && k < spans.len() && !seen[k] && names_ancestor(
            path,
            &spans,
            k,
            other,
            &other_spans,
        ) {
            assert(ancestor_len(p, k as int));
            assert(first_at(now, components(p).take(k as int)) == Some(all@[j as int]@));
            if all[j].has_workspace {
                proof {
                    first_at_stays(known, j + 1, components(p).take(k as int));
                }
                return false;
            }
            seen.set(k, true);
        }
        proof {
            assert forall|m: int| ancestor_len(p, m) implies #[trigger] seen@[m] == (first_at(
                now,
                components(p).take(m),
            ) is Some) by {
                assert(before[m] == (first_at(known.take(j as int), components(p).take(m)) is Some));
                assert(components(p).take(m).len() == m);
            }
            assert forall|m: int| ancestor_len(p, m) implies (first_at(
                now,
                #[trigger] components(p).take(m),
            ) matches Some(owner) ==> !owner.has_workspace) by {
                assert(before[m] == (first_at(known.take(j as int), components(p).take(m)) is Some));
                assert(components(p).take(m).len() == m);
            }
        }
        j = j + 1;
    }
    proof {
        assert(known.take(j as int) =~= known);
        assert forall|k: int| #[trigger] ancestor_len(p, k) implies !(first_at(
            known,
            components(p).take(k),
        ) matches Some(owner) && owner.has_workspace) by {
            assert(components(p).take(k).len() == k);
        }
    }
    true
}

/// Filters the candidates to the true roots.
pub fn find_roots(all: &Vec<Candidate>) -> (roots: Vec<Candidate>)
    ensures
        candidates(roots@) == roots_of(candidates(all@)),
{
    let mut roots: Vec<Candidate> = Vec::new();
    let ghost known = candidates(all@);
    let ghost pred = |c: CandidateView| root_among(c, known);
    let mut i: usize = 0;
    proof {
        reveal(Seq::filter);
        assert(known.take(0) =~= Seq::empty());
        assert(candidates(roots@) =~= Seq::empty());
    }
    while i < all.len()
        invariant
            known == candidates(all@),
            pred == (|c: CandidateView| root_among(c, known)),
            i <= all@.len(),
            candidates(roots@) == known.take(i as int).filter(pred),
        decreases all@.len() - i,
    {
        proof {
            reveal(Seq::filter);
            let next = known.take(i + 1);
            assert(next.drop_last() =~= known.take(i as int));
            assert(next.last() == all@[i as int]@);
        }
        if is_root(&all[i], all) {
            let root = all[i].clone();
            assert(candidates(roots@.push(root)) =~= candidates(roots@).push(root@));
            roots.push(root);
        }
        i = i + 1;
    }
    assert(known.take(i as int) =~= known);
    roots
}

/// What the walk below a `target/` directory tells of one entry: whether it
/// is a regular file, and its length where its metadata could be read.
#[derive(Debug, Clone, Copy)]
pub struct FileEntry {
    pub is_file: bool,
    pub len: Option<u64>,
}

/// What an entry adds to the size of its directory.
pub open spec fn entry_size(entry: FileEntry) -> nat {
    match entry.len {
        Some(len) => if entry.is_file {
            len as nat
        } else {
            0
        },
        None => 0,
    }
}

/// The sum of the sizes of all regular files among the entries.
pub open spec fn files_size(entries: Seq<FileEntry>) -> nat
    decreases entries.len(),
{
    if entries.len() == 0 {
        0
    } else {
        files_size(entries.drop_last()) + entry_size(entries.last())
    }
}

proof fn files_size_grows(entries: Seq<FileEntry>, k: int)
    requires
        0 <= k <= entries.len(),
    ensures
        files_size(entries.take(k)) <= files_size(entries),
    decreases entries.len() - k,
{
    if k < entries.len() {
        assert(entries.take(k + 1).drop_last() =~= entries.take(k));
        files_size_grows(entries, k + 1);
    } else {
        assert(entries.take(k) =~= entries);
    }
}

/// Sums the sizes of all regular files among the entries below a directory;
/// `None` where the sum does not fit.
pub fn dir_size(entries: &Vec<FileEntry>) -> (size: Option<u64>)
    ensures
        size == (if files_size(entries@) <= u64::MAX {
            Some(files_size(entries@) as u64)
        } else {
            None
        }),
{
    let mut sum: u64 = 0;
    let mut i: usize = 0;
    assert(entries@.take(0) =~= Seq::empty());
    while i < entries.len()
        invariant
            i <= entries@.len(),
            sum == files_size(entries@.take(i as int)),
        decreases entries@.len() - i,
    {
        let entry = entries[i];
        let len: u64 = if entry.is_file {
            match entry.len {
                Some(len) => len,
                None => 0,
            }
        } else {
            0
        };
        proof {
            assert(entries@.take(i + 1).drop_last() =~= entries@.take(i as int));
            assert(len == entry_size(entry));
            files_size_grows(entries@, i + 1);
        }
        match sum.checked_add(len) {
            Some(more) => {
                sum = more;
            },
            None => return None,
        }
        i = i + 1;
    }
    assert(entries@.take(i as int) =~= entries@);
    Some(sum)
}

/// The workspace at a root, where it has a `target/` directory that is not
/// empty. `target` is the size of that directory, `None` where there is none.
pub open spec fn workspace_at(root: Seq<u8>, target: Option<u64>) -> Option<WorkspaceView> {
    match target {
        Some(size) => if size > 0 {
            Some(
                WorkspaceView {
                    root,
                    target_path: joined(root, target_name()),
                    target_size: size,
                    selected: false,
                },
            )
        } else {
            None
        },
        None => None,
    }
}

/// The workspaces at some roots, in the order of the roots.
pub open spec fn workspaces_at(roots: Seq<CandidateView>, targets: Seq<Option<u64>>) -> Seq<
    WorkspaceView,
>
    recommends
        roots.len() == targets.len(),
    decreases roots.len(),
{
    if roots.len() == 0 {
        Seq::empty()
    } else {
        let before = workspaces_at(roots.drop_last(), targets.drop_last());
        match workspace_at(roots.last().root, targets.last()) {
            Some(workspace) => before.push(workspace),
            None => before,
        }
    }
}

/// Lists the workspaces at the roots found under `start`, those that have a
/// non-empty `target/` dir, sorted by target size descending. `targets` holds
/// for every root the size of its `target/` dir, `None` where it has none.
/// Where `start` does not exist, gives the message that says so.
pub fn scan(
    start: &FilePath,
    exists: bool,
    roots: Vec<Candidate>,
    targets: &Vec<Option<u64>>,
) -> (list: Result<Vec<Workspace>, String>)
    requires
        exists ==> roots@.len() == targets@.len(),
    ensures
        list is Ok <==> exists,
        list matches Ok(found) ==> listed(found@) == by_size(
            workspaces_at(candidates(roots@), targets@),
        ),
        list matches Err(message) ==> message@ == "scan root does not exist: "@ + shown(start@),
{
    if !exists {
        let mut message = "scan root does not exist: ".to_owned();
        message.append(start.display().as_str());
        return Err(message);
    }
    let mut found: Vec<Workspace> = Vec::new();
    let ghost known = candidates(roots@);
    let mut i: usize = 0;
    proof {
        assert(known.take(0) =~= Seq::empty());
        assert(listed(found@) =~= Seq::empty());
    }
    while i < roots.len()
        invariant
            known == candidates(roots@),
            roots@.len() == targets@.len(),
            i <= roots@.len(),
            listed(found@) == workspaces_at(known.take(i as int), targets@.take(i as int)),
        decreases roots@.len() - i,
    {
        proof {
            assert(known.take(i + 1).drop_last() =~= known.take(i as int));
            assert(targets@.take(i + 1).drop_last() =~= targets@.take(i as int));
            assert(known.take(i + 1).last() == roots@[i as int]@);
        }
        let root = &roots[i].root;
        if let Some(size) = targets[i] {
            if size > 0 {
                let workspace = Workspace {
                    root: root.clone(),
                    target_path: root.join_target(),
                    target_size: size,
                    selected: false,
                };
                assert(listed(found@.push(workspace)) =~= listed(found@).push(workspace@));
                found.push(workspace);
            }
        }
        i = i + 1;
    }
    proof {
        assert(known.take(i as int) =~= known);
        assert(targets@.take(i as int) =~= targets@);
    }
    Ok(sort_by_size(found))
}

/// Lists the workspaces among the candidates found under `start`: those at true
/// roots that have a non-empty `target/` dir, sorted by target size descending.
/// `targets` holds for every true root, in order, the size of its `target/` dir,
/// `None` where it has none. Where `start` does not exist, gives the message that
/// says so.
pub fn scan_found(
    start: &FilePath,
    exists: bool,
    found: &Vec<Candidate>,
    targets: &Vec<Option<u64>>,
) -> (list: Result<Vec<Workspace>, String>)
    requires
        exists ==> targets@.len() == roots_of(candidates(found@)).len(),
    ensures
        list is Ok <==> exists,
        list matches Ok(all) ==> listed(all@) == by_size(
            workspaces_at(roots_of(candidates(found@)), targets@),
        ),
        list matches Err(message) ==> message@ == "scan root does not exist: "@ + shown(start@),
{
    let roots = find_roots(found);
    assert(candidates(roots@).len() == roots@.len());
    scan(start, exists, roots, targets)
}

/// A message sent from a background scan to the screen.
#[derive(Debug)]
pub enum ScanMsg {
    /// A chunk of workspaces has been fully scanned and sized.
    Batch(Vec<Workspace>),
    /// The scan finished.
    Done,
    /// A fatal scanning error.
    Error(String),
}

/// A scan message, with its contents as sequences.
pub enum ScanMsgView {
    Batch(Seq<WorkspaceView>),
    Done,
    Error(Seq<char>),
}

impl View for ScanMsg {
    type V = ScanMsgView;

    open spec fn view(&self) -> ScanMsgView {
        match self {
            ScanMsg::Batch(list) => ScanMsgView::Batch(listed(list@)),
            ScanMsg::Done => ScanMsgView::Done,
            ScanMsg::Error(message) => ScanMsgView::Error(message@),
        }
    }
}

/// What a scan sends for its result: the workspaces or the error, and then
/// that it is done.
pub fn scan_messages(result: Result<Vec<Workspace>, String>) -> (messages: Vec<ScanMsg>)
    ensures
        messages@.len() == 2,
        messages@[0]@ == (match result {
            Ok(list) => ScanMsgView::Batch(listed(list@)),
            Err(message) => ScanMsgView::Error(message@),
        }),
        messages@[1]@ == ScanMsgView::Done,
{
    let mut messages: Vec<ScanMsg> = Vec::new();
    match result {
        Ok(list) => messages.push(ScanMsg::Batch(list)),
        Err(message) => messages.push(ScanMsg::Error(message)),
    }
    messages.push(ScanMsg::Done);
    messages
}

} // verus!
