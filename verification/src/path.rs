//! File paths, held as bytes with `/` between the components.

use vstd::prelude::*;
use vstd::slice::slice_subrange;
use vstd::slice::slice_to_vec;
use vstd::string::StringSliceAdditionalSpecFns;
use vstd::utf8::decode_utf8;
use vstd::utf8::valid_utf8;

verus! {

/// A file path, as the bytes that the operating system gives for it.
#[derive(Debug)]
pub struct FilePath {
    pub bytes: Vec<u8>,
}

impl View for FilePath {
    type V = Seq<u8>;

    open spec fn view(&self) -> Seq<u8> {
        self.bytes@
    }
}

/// The separator of components.
pub const SLASH: u8 = 47;

/// The full stop, of which the names `.` and `..` are made.
pub const DOT: u8 = 46;

/// The bytes of a text that is all ASCII.
pub open spec fn ascii(text: Seq<char>) -> Seq<u8> {
    text.map_values(|c: char| c as u8)
}

/// What stands between the slashes of `p`, empty pieces included. There is
/// always at least one piece.
pub open spec fn pieces(p: Seq<u8>) -> Seq<Seq<u8>>
    decreases p.len(),
{
    if p.len() == 0 {
        seq![Seq::empty()]
    } else {
        let before = pieces(p.drop_last());
        if p.last() == SLASH {
            before.push(Seq::empty())
        } else {
            before.drop_last().push(before.last().push(p.last()))
        }
    }
}

/// The piece `.`, which names the directory it stands in.
pub open spec fn dot() -> Seq<u8> {
    seq![DOT]
}

/// The root directory, as a component.
pub open spec fn slash() -> Seq<u8> {
    seq![SLASH]
}

/// The name of the directory that Cargo builds into.
pub open spec fn target_name() -> Seq<u8> {
    ascii("target"@)
}

/// Whether the piece at position `at` counts as a component: empty pieces do
/// not, and `.` does at the very beginning only.
pub open spec fn counts(at: int, piece: Seq<u8>) -> bool {
    piece.len() > 0 && (piece == dot() ==> at == 0)
}

/// The pieces that count, in order.
pub open spec fn counted(all: Seq<Seq<u8>>) -> Seq<Seq<u8>>
    decreases all.len(),
{
    if all.len() == 0 {
        Seq::empty()
    } else if counts(all.len() - 1, all.last()) {
        counted(all.drop_last()).push(all.last())
    } else {
        counted(all.drop_last())
    }
}

/// The root component, where the path starts with one.
pub open spec fn root_part(p: Seq<u8>) -> Seq<Seq<u8>> {
    if p.len() > 0 && p[0] == SLASH {
        seq![slash()]
    } else {
        Seq::empty()
    }
}

/// The components of a path: the root if there is one, then every piece that
/// counts. Two paths are the same path when their components are equal.
pub open spec fn components(p: Seq<u8>) -> Seq<Seq<u8>> {
    root_part(p) + counted(pieces(p))
}

/// Whether there is a path without the final component of `p`.
pub open spec fn has_parent(p: Seq<u8>) -> bool {
    components(p).len() > 0 && components(p).last() != slash()
}

/// Whether the first `len` bytes of `p` are the shortest text that names all
/// of `p` but its final component.
pub open spec fn is_parent_len(p: Seq<u8>, len: int) -> bool {
    &&& 0 <= len <= p.len()
    &&& components(p.take(len)) == components(p).drop_last()
    &&& forall|e: int| 0 <= e < len ==> components(#[trigger] p.take(e)) != components(p).drop_last()
}

/// The path without its final component, in the shortest text that names it.
pub open spec fn parent_of(p: Seq<u8>) -> Option<Seq<u8>> {
    if has_parent(p) {
        Some(p.take(choose|len: int| is_parent_len(p, len)))
    } else {
        None
    }
}

/// The final component, where it is an ordinary name.
pub open spec fn file_name_of(p: Seq<u8>) -> Option<Seq<u8>> {
    let all = components(p);
    if all.len() > 0 && all.last() != slash() && all.last() != dot() && all.last() != seq![DOT, DOT] {
        Some(all.last())
    } else {
        None
    }
}

/// `p` with `name` under it.
pub open spec fn joined(p: Seq<u8>, name: Seq<u8>) -> Seq<u8> {
    if p.len() > 0 && p.last() != SLASH {
        p.push(SLASH) + name
    } else {
        p + name
    }
}

/// What `String::from_utf8_lossy` makes of some bytes.
pub uninterp spec fn shown(bytes: Seq<u8>) -> Seq<char>;

/// Calls `String::from_utf8_lossy`. Its result depends on the bytes alone, and
/// is their decoding where they are valid UTF-8; how invalid bytes are
/// replaced is not spelled out here.
#[verifier::external_body]
fn lossy_text(bytes: &[u8]) -> (text: String)
    ensures
        text@ == shown(bytes@),
        valid_utf8(bytes@) ==> text@ == decode_utf8(bytes@),
{
    String::from_utf8_lossy(bytes).into_owned()
}

/// Where a component stands in the text of a path.
#[derive(Clone, Copy)]
pub struct Span {
    pub start: usize,
    pub end: usize,
}

/// The components that `spans` marks in `p`.
pub open spec fn marked(p: Seq<u8>, spans: Seq<Span>) -> Seq<Seq<u8>> {
    spans.map_values(|s: Span| p.subrange(s.start as int, s.end as int))
}

/// Whether every span ends where the text of its prefix of components first
/// is complete.
pub open spec fn ends_early(p: Seq<u8>, spans: Seq<Span>) -> bool {
    forall|k: int| 0 <= k < spans.len() ==> ends_early_at(p, spans, k)
}

/// The condition of `ends_early` on the span at `k`.
pub open spec fn ends_early_at(p: Seq<u8>, spans: Seq<Span>, k: int) -> bool {
    let end = spans[k].end as int;
    &&& 0 <= spans[k].start < end <= p.len()
    &&& components(p.take(end)) == marked(p, spans).take(k + 1)
    &&& forall|e: int|
        0 <= e < end ==> components(#[trigger] p.take(e)) != marked(p, spans).take(k + 1)
}

/// One more byte never takes a component away.
proof fn one_more_byte(p: Seq<u8>)
    requires
        p.len() > 0,
    ensures
        components(p.drop_last()).len() <= components(p).len(),
{
    let before = pieces(p.drop_last());
    pieces_nonempty(p.drop_last());
    assert(root_part(p.drop_last()).len() <= root_part(p).len()) by {
        if p.len() > 1 {
            assert(p.drop_last()[0] == p[0]);
        }
    }
    if p.last() == SLASH {
        assert(pieces(p).drop_last() == before);
    } else {
        assert(pieces(p).drop_last() == before.drop_last());
        let longer = before.last().push(p.last());
        assert(pieces(p).last() == longer);
        if counts(before.len() - 1, before.last()) {
            assert(longer.len() != dot().len());
            assert(counts(before.len() - 1, longer));
        }
    }
}

/// Longer prefixes have at least as many components.
proof fn components_grow(p: Seq<u8>, short: int, long: int)
    requires
        0 <= short <= long <= p.len(),
    ensures
        components(p.take(short)).len() <= components(p.take(long)).len(),
    decreases long - short,
{
    if short < long {
        components_grow(p, short, long - 1);
        one_more_byte(p.take(long));
        assert(p.take(long).drop_last() == p.take(long - 1));
    }
}

proof fn pieces_nonempty(p: Seq<u8>)
    ensures
        pieces(p).len() > 0,
{
}

/// Bytes without a slash all go to the final piece.
proof fn extend_piece(p: Seq<u8>, start: int, end: int)
    requires
        0 <= start <= end <= p.len(),
        forall|k: int| start <= k < end ==> p[k] != SLASH,
        pieces(p.take(start)).last() == Seq::<u8>::empty(),
    ensures
        pieces(p.take(end)) == pieces(p.take(start)).drop_last().push(p.subrange(start, end)),
    decreases end - start,
{
    pieces_nonempty(p.take(start));
    if start < end {
        extend_piece(p, start, end - 1);
        assert(p.take(end).drop_last() == p.take(end - 1));
        assert(p.subrange(start, end) == p.subrange(start, end - 1).push(p[end - 1]));
        let before = pieces(p.take(end - 1));
        assert(before.drop_last() == pieces(p.take(start)).drop_last());
    } else {
        assert(p.subrange(start, end) == Seq::<u8>::empty());
        assert(pieces(p.take(start)) == pieces(p.take(start)).drop_last().push(
            pieces(p.take(start)).last(),
        ));
    }
}

/// A piece that counts is first complete at its own end.
proof fn piece_completes_at_end(p: Seq<u8>, start: int, end: int)
    requires
        0 <= start < end <= p.len(),
        forall|k: int| start <= k < end ==> p[k] != SLASH,
        pieces(p.take(start)).last() == Seq::<u8>::empty(),
        counts(pieces(p.take(start)).len() - 1, p.subrange(start, end)),
    ensures
        ({
            let all = root_part(p) + counted(pieces(p.take(start)).drop_last()).push(
                p.subrange(start, end),
            );
            &&& components(p.take(end)) == all
            &&& forall|e: int| 0 <= e < end ==> components(#[trigger] p.take(e)) != all
        }),
{
    let done = pieces(p.take(start)).drop_last();
    let piece = p.subrange(start, end);
    let all = root_part(p) + counted(done).push(piece);
    pieces_nonempty(p.take(start));
    extend_piece(p, start, end);
    assert(pieces(p.take(end)).drop_last() == done);
    assert(p.take(end)[0] == p[0]);
    assert forall|e: int| 0 <= e < end implies components(#[trigger] p.take(e)) != all by {
        if e > start {
            extend_piece(p, start, e);
            assert(pieces(p.take(e)).drop_last() == done);
            assert(p.take(e)[0] == p[0]);
            if components(p.take(e)) == all {
                assert(components(p.take(e)).last() == p.subrange(start, e));
                assert(all.last() == piece);
                assert(p.subrange(start, e).len() < piece.len());
            }
        } else {
            components_grow(p, e, start);
            if start > 0 {
                assert(p.take(start)[0] == p[0]);
            }
            assert(components(p.take(start)).len() <= root_part(p).len() + counted(done).len());
        }
    }
}

/// The empty path has no components.
proof fn empty_path()
    ensures
        components(Seq::empty()) == Seq::<Seq<u8>>::empty(),
{
    reveal_with_fuel(counted, 2);
    let all = pieces(Seq::empty());
    assert(all.last() == Seq::<u8>::empty());
    assert(all.drop_last() =~= Seq::<Seq<u8>>::empty());
    assert(components(Seq::empty()) =~= Seq::<Seq<u8>>::empty());
}

/// Every prefix of the components is named by a prefix of the text.
proof fn prefix_for(p: Seq<u8>, k: int) -> (end: int)
    requires
        0 <= k <= components(p).len(),
    ensures
        0 <= end <= p.len(),
        components(p.take(end)) == components(p).take(k),
    decreases p.len(),
{
    let now = components(p);
    if k == now.len() {
        assert(p.take(p.len() as int) =~= p);
        assert(now.take(k) =~= now);
        p.len() as int
    } else if p.len() == 0 {
        empty_path();
        assert(p =~= Seq::empty());
        0
    } else {
        let shorter = p.drop_last();
        let before = components(shorter);
        one_more_byte(p);
        pieces_nonempty(shorter);
        if p.len() > 1 {
            assert(shorter[0] == p[0]);
        }
        if p.last() == SLASH {
            assert(pieces(p).drop_last() =~= pieces(shorter));
        } else {
            assert(pieces(p).drop_last() =~= pieces(shorter).drop_last());
        }
        if p.len() == 1 {
            empty_path();
            assert(shorter =~= Seq::empty());
        }
        assert(now.take(k) =~= before.take(k));
        let end = prefix_for(shorter, k);
        assert(shorter.take(end) =~= p.take(end));
        end
    }
}

/// Of the prefixes of the text with the components `all`, one is shortest.
proof fn shortest_for(p: Seq<u8>, all: Seq<Seq<u8>>, end: int) -> (len: int)
    requires
        0 <= end <= p.len(),
        components(p.take(end)) == all,
    ensures
        0 <= len <= end,
        components(p.take(len)) == all,
        forall|e: int| 0 <= e < len ==> components(#[trigger] p.take(e)) != all,
    decreases end,
{
    if exists|e: int| 0 <= e < end && components(#[trigger] p.take(e)) == all {
        let e = choose|e: int| 0 <= e < end && components(#[trigger] p.take(e)) == all;
        shortest_for(p, all, e)
    } else {
        end
    }
}

proof fn parent_len_is_unique(p: Seq<u8>, len: int)
    requires
        is_parent_len(p, len),
    ensures
        len == (choose|other: int| is_parent_len(p, other)),
{
    let other = choose|other: int| is_parent_len(p, other);
    assert(is_parent_len(p, other));
    if other < len {
        assert(components(p.take(other)) != components(p).drop_last());
    }
    if len < other {
        assert(components(p.take(len)) != components(p).drop_last());
    }
}

/// Whether two byte strings are equal.
pub fn same_bytes(a: &[u8], b: &[u8]) -> (same: bool)
    ensures
        same == (a@ == b@),
{
    if a.len() != b.len() {
        return false;
    }
    let mut i: usize = 0;
    while i < a.len()
        invariant
            a@.len() == b@.len(),
            i <= a@.len(),
            forall|k: int| 0 <= k < i ==> a@[k] == b@[k],
        decreases a@.len() - i,
    {
        if a[i] != b[i] {
            return false;
        }
        i = i + 1;
    }
    assert(a@ =~= b@);
    true
}

/// The bytes of the name `target`.
fn target_bytes() -> (name: Vec<u8>)
    ensures
        name@ == target_name(),
{
    proof {
        reveal_strlit("target");
        assert("target".is_ascii());
        assert("target".spec_bytes() =~= target_name());
    }
    slice_to_vec("target".as_bytes())
}

/// A directory with a name under it has the directory's components and then
/// that name.
pub proof fn join_adds_one_component(p: Seq<u8>, name: Seq<u8>)
    requires
        name.len() > 0,
        name != dot(),
        forall|k: int| 0 <= k < name.len() ==> name[k] != SLASH,
    ensures
        components(joined(p, name)) == components(p).push(name),
{
    let all = joined(p, name);
    let start = all.len() - name.len();
    let head = all.take(start);
    if p.len() > 0 && p.last() != SLASH {
        assert(head =~= p.push(SLASH));
        assert(p.push(SLASH).drop_last() =~= p);
        assert(pieces(head).drop_last() =~= pieces(p));
    } else {
        assert(head =~= p);
    }
    assert(root_part(all) == root_part(p)) by {
        if p.len() > 0 {
            assert(all[0] == p[0]);
        } else {
            assert(all[0] == name[0]);
        }
    }
    assert(components(p) =~= root_part(p) + counted(pieces(head)));
    pieces_nonempty(head);
    extend_piece(all, start, all.len() as int);
    assert(all.take(all.len() as int) =~= all);
    assert(all.subrange(start, all.len() as int) =~= name);
    assert(pieces(all).drop_last() =~= pieces(head).drop_last());
    assert(components(all) =~= components(p).push(name));
}

/// The parent of a directory's `target` names the directory, and its file
/// name is exactly `target`.
pub proof fn target_lies_in_its_directory(p: Seq<u8>)
    ensures
        components(joined(p, target_name())) == components(p).push(target_name()),
        has_parent(joined(p, target_name())),
        file_name_of(joined(p, target_name())) == Some(target_name()),
        parent_of(joined(p, target_name())) matches Some(parent) && components(parent)
            == components(p),
        joined(p, target_name()).len() > 0,
{
    reveal_strlit("target");
    let name = target_name();
    assert(name.len() == 6);
    assert(dot().len() == 1 && slash().len() == 1);
    assert(forall|k: int| 0 <= k < name.len() ==> name[k] != SLASH);
    join_adds_one_component(p, name);
    let all = joined(p, name);
    assert(components(all).last() == name);
    assert(seq![DOT, DOT].len() == 2);
    assert(components(all).drop_last() =~= components(p));
    parent_exists(all);
}

/// Every path with a parent has a shortest text for it.
pub proof fn parent_exists(p: Seq<u8>)
    requires
        has_parent(p),
    ensures
        exists|len: int| is_parent_len(p, len),
        parent_of(p) matches Some(parent) && components(parent) == components(p).drop_last(),
{
    let n = components(p).len() as int;
    let end = prefix_for(p, n - 1);
    assert(components(p).take(n - 1) =~= components(p).drop_last());
    let len = shortest_for(p, components(p).drop_last(), end);
    assert(is_parent_len(p, len));
}

impl Clone for FilePath {
    fn clone(&self) -> (path: Self)
        ensures
            path@ == self@,
    {
        FilePath { bytes: slice_to_vec(self.bytes.as_slice()) }
    }
}

impl FilePath {
    /// The path with these bytes.
    pub fn new(bytes: Vec<u8>) -> (path: FilePath)
        ensures
            path@ == bytes@,
    {
        FilePath { bytes }
    }

    /// The text under which the path is shown to the user.
    pub fn display(&self) -> (text: String)
        ensures
            text@ == shown(self@),
            valid_utf8(self@) ==> text@ == decode_utf8(self@),
    {
        lossy_text(self.bytes.as_slice())
    }

    /// Where the components stand.
    pub(crate) fn spans(&self) -> (spans: Vec<Span>)
        ensures
            marked(self@, spans@) == components(self@),
            ends_early(self@, spans@),
    {
        let mut spans: Vec<Span> = Vec::new();
        let ghost p = self@;
        proof {
            assert(p.take(0) == Seq::<u8>::empty());
        }
        if self.bytes.len() > 0 && self.bytes[0] == SLASH {
            spans.push(Span { start: 0, end: 1 });
            proof {
                assert(marked(p, spans@) =~= seq![slash()]) by {
                    assert(p.subrange(0, 1) =~= slash());
                }
                assert(p.take(1).drop_last() == Seq::<u8>::empty());
                reveal_with_fuel(pieces, 3);
                reveal_with_fuel(counted, 4);
                assert(pieces(p.take(1)) =~= seq![Seq::<u8>::empty(), Seq::empty()]);
                assert(pieces(p.take(1)).drop_last().drop_last() =~= Seq::<Seq<u8>>::empty());
                assert(counted(pieces(p.take(1))) =~= Seq::<Seq<u8>>::empty());
                assert(components(p.take(1)) =~= seq![slash()]);
                assert(marked(p, spans@).take(1) =~= seq![slash()]);
                assert(components(p.take(0)).len() == 0) by {
                    assert(counted(pieces(p.take(0))) =~= Seq::<Seq<u8>>::empty());
                }
                assert(ends_early_at(p, spans@, 0));
            }
        }
        let ghost root = marked(p, spans@);
        let mut start: usize = 0;
        let mut i: usize = 0;
        proof {
            assert(pieces(p.take(0)).drop_last() =~= Seq::<Seq<u8>>::empty());
            assert(root =~= root_part(p));
            assert(p.subrange(0, 0) =~= Seq::<u8>::empty());
        }
        while i < self.bytes.len()
            invariant
                p == self@,
                start <= i <= p.len(),
                forall|k: int| start <= k < i ==> p[k] != SLASH,
                pieces(p.take(start as int)).last() == Seq::<u8>::empty(),
                start == 0 <==> pieces(p.take(start as int)).len() == 1,
                pieces(p.take(start as int)).len() > 0,
                marked(p, spans@) == root_part(p) + counted(pieces(p.take(start as int)).drop_last()),
                ends_early(p, spans@),
            decreases p.len() - i,
        {
            if self.bytes[i] == SLASH {
                self.close_piece(&mut spans, start, i);
                proof {
                    let at = i as int;
                    extend_piece(p, start as int, at);
                    assert(p.take(at + 1).drop_last() == p.take(at));
                    assert(pieces(p.take(at + 1)).drop_last() == pieces(p.take(at)));
                }
                start = i + 1;
            }
            i = i + 1;
        }
        self.close_piece(&mut spans, start, i);
        proof {
            extend_piece(p, start as int, i as int);
            assert(p.take(i as int) == p);
        }
        spans
    }

    /// The path without its final component, in the shortest text that names
    /// it; `None` for the empty path and for the root.
    pub fn parent(&self) -> (parent: Option<FilePath>)
        ensures
            parent is Some <==> parent_of(self@) is Some,
            parent matches Some(path) ==> Some(path@) == parent_of(self@),
    {
        let spans = self.spans();
        let ghost p = self@;
        let ghost all = components(p);
        let n: usize = spans.len();
        if n == 0 {
            return None;
        }
        let last = spans[n - 1];
        proof {
            assert(ends_early_at(p, spans@, n - 1));
            assert(all.last() == p.subrange(last.start as int, last.end as int));
        }
        if last.end - last.start == 1 && self.bytes[last.start] == SLASH {
            assert(all.last() =~= slash());
            return None;
        }
        assert(all.last() != slash()) by {
            if all.last() == slash() {
                assert(all.last()[0] == p[last.start as int]);
                assert(all.last().len() == 1);
            }
        }
        let len: usize = if n == 1 {
            0
        } else {
            spans[n - 2].end
        };
        proof {
            if n == 1 {
                empty_path();
                assert(p.take(0) =~= Seq::empty());
                assert(all.drop_last() =~= Seq::empty());
            } else {
                assert(ends_early_at(p, spans@, n - 2));
                assert(all.take(n - 1) =~= all.drop_last());
            }
            parent_len_is_unique(p, len as int);
            assert(p.subrange(0, len as int) =~= p.take(len as int));
        }
        Some(FilePath { bytes: slice_to_vec(slice_subrange(self.bytes.as_slice(), 0, len)) })
    }

    /// The final component, where it is an ordinary name: not the root, not
    /// `.` and not `..`.
    pub fn file_name(&self) -> (name: Option<Vec<u8>>)
        ensures
            name is Some <==> file_name_of(self@) is Some,
            name matches Some(bytes) ==> Some(bytes@) == file_name_of(self@),
    {
        let spans = self.spans();
        let ghost p = self@;
        let n: usize = spans.len();
        if n == 0 {
            return None;
        }
        let last = spans[n - 1];
        assert(ends_early_at(p, spans@, n - 1));
        let name = slice_to_vec(slice_subrange(self.bytes.as_slice(), last.start, last.end));
        assert(components(p).last() == name@);
        if name.len() == 1 && (name[0] == SLASH || name[0] == DOT) {
            assert(name@ =~= slash() || name@ =~= dot());
            return None;
        }
        if name.len() == 2 && name[0] == DOT && name[1] == DOT {
            assert(name@ =~= seq![DOT, DOT]);
            return None;
        }
        assert(name@ != slash() && name@ != dot() && name@ != seq![DOT, DOT]) by {
            if name@ == slash() {
                assert(slash()[0] == SLASH);
            }
            if name@ == dot() {
                assert(dot()[0] == DOT);
            }
            if name@ == seq![DOT, DOT] {
                assert(seq![DOT, DOT][0] == DOT && seq![DOT, DOT][1] == DOT);
            }
        }
        Some(name)
    }

    /// The path of `target` under this directory.
    pub fn join_target(&self) -> (path: FilePath)
        ensures
            path@ == joined(self@, target_name()),
    {
        let mut bytes = slice_to_vec(self.bytes.as_slice());
        if bytes.len() > 0 && bytes[bytes.len() - 1] != SLASH {
            bytes.push(SLASH);
        }
        let mut name = target_bytes();
        bytes.append(&mut name);
        FilePath { bytes }
    }

    /// Whether the final component is exactly `target`.
    pub fn is_named_target(&self) -> (named: bool)
        ensures
            named == (file_name_of(self@) == Some(target_name())),
    {
        match self.file_name() {
            Some(name) => same_bytes(name.as_slice(), target_bytes().as_slice()),
            None => false,
        }
    }

    /// Adds the piece from `start` to `end`, where it counts.
    fn close_piece(&self, spans: &mut Vec<Span>, start: usize, end: usize)
        requires
            start <= end <= self@.len(),
            forall|k: int| start <= k < end ==> self@[k] != SLASH,
            pieces(self@.take(start as int)).last() == Seq::<u8>::empty(),
            start == 0 <==> pieces(self@.take(start as int)).len() == 1,
            marked(self@, old(spans)@) == root_part(self@) + counted(
                pieces(self@.take(start as int)).drop_last(),
            ),
            ends_early(self@, old(spans)@),
        ensures
            marked(self@, final(spans)@) == root_part(self@) + counted(
                pieces(self@.take(end as int)),
            ),
            ends_early(self@, final(spans)@),
    {
        let ghost p = self@;
        proof {
            extend_piece(p, start as int, end as int);
        }
        let ghost done = pieces(p.take(start as int)).drop_last();
        let ghost piece = p.subrange(start as int, end as int);
        assert(pieces(p.take(end as int)).drop_last() == done);
        if start < end && !(end - start == 1 && self.bytes[start] == DOT && start != 0) {
            proof {
                assert(piece == dot() ==> start == 0) by {
                    if piece == dot() {
                        assert(piece.len() == 1);
                        assert(piece[0] == p[start as int]);
                    }
                }
                assert(counts(done.len() as int, piece));
            }
            let ghost before = *spans;
            spans.push(Span { start, end });
            proof {
                let n = before@.len() as int;
                let all = marked(p, spans@);
                assert(all =~= marked(p, before@).push(piece));
                assert forall|k: int| 0 <= k < spans@.len() implies ends_early_at(
                    p,
                    spans@,
                    k,
                ) by {
                    if k < n {
                        assert(ends_early_at(p, before@, k));
                        assert(all.take(k + 1) =~= marked(p, before@).take(k + 1));
                    } else {
                        piece_completes_at_end(p, start as int, end as int);
                        assert(all.take(k + 1) =~= all);
                        assert(all =~= root_part(p) + counted(done).push(piece));
                    }
                }
            }
        } else {
            assert(!counts(done.len() as int, piece)) by {
                if start < end {
                    assert(piece =~= dot());
                }
            }
        }
    }
}

} // verus!
