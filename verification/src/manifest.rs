//! What a `Cargo.toml` declares, told from its table headers line by line.

use vstd::prelude::*;
use vstd::string::*;

verus! {

/// Whether Unicode counts `c` as white space.
pub open spec fn is_white_space(c: char) -> bool {
    let code = c as u32;
    ||| 0x9 <= code <= 0xd
    ||| code == 0x20
    ||| code == 0x85
    ||| code == 0xa0
    ||| code == 0x1680
    ||| 0x2000 <= code <= 0x200a
    ||| code == 0x2028
    ||| code == 0x2029
    ||| code == 0x202f
    ||| code == 0x205f
    ||| code == 0x3000
}

/// `s` without the white space at its beginning.
pub open spec fn trim_start(s: Seq<char>) -> Seq<char>
    decreases s.len(),
{
    if s.len() > 0 && is_white_space(s[0]) {
        trim_start(s.drop_first())
    } else {
        s
    }
}

/// `s` without the white space at its end.
pub open spec fn trim_end(s: Seq<char>) -> Seq<char>
    decreases s.len(),
{
    if s.len() > 0 && is_white_space(s.last()) {
        trim_end(s.drop_last())
    } else {
        s
    }
}

/// Where the comment of a line starts: at the first `#`, or at the end.
pub open spec fn comment_start(line: Seq<char>) -> nat
    decreases line.len(),
{
    if line.len() == 0 || line[0] == '#' {
        0
    } else {
        1 + comment_start(line.drop_first())
    }
}

/// What a line says: the text before its comment, trimmed.
pub open spec fn statement(line: Seq<char>) -> Seq<char> {
    trim_end(trim_start(line.take(comment_start(line) as int)))
}

/// Whether the characters from `start` to `end` are one whole line of `content`.
pub open spec fn is_line(content: Seq<char>, start: int, end: int) -> bool {
    &&& 0 <= start <= end <= content.len()
    &&& start == 0 || content[start - 1] == '\n'
    &&& end == content.len() || content[end] == '\n'
    &&& forall|k: int| start <= k < end ==> content[k] != '\n'
}

/// Whether `header` opens the workspace table or a table within it.
pub open spec fn opens_workspace(header: Seq<char>) -> bool {
    header == "[workspace]"@ || "[workspace."@.is_prefix_of(header)
}

/// Whether `header` opens the package table.
pub open spec fn opens_package(header: Seq<char>) -> bool {
    header == "[package]"@
}

/// Whether some line of a manifest opens a workspace table.
pub open spec fn declares_workspace(content: Seq<char>) -> bool {
    exists|start: int, end: int|
        #[trigger] is_line(content, start, end) && opens_workspace(
            statement(content.subrange(start, end)),
        )
}

/// Whether some line of a manifest opens the package table.
pub open spec fn declares_package(content: Seq<char>) -> bool {
    exists|start: int, end: int|
        #[trigger] is_line(content, start, end) && opens_package(
            statement(content.subrange(start, end)),
        )
}

/// Whether a line that ends before `limit` opens a workspace table.
spec fn workspace_before(content: Seq<char>, limit: int) -> bool {
    exists|start: int, end: int| #[trigger]
        is_line(content, start, end) && end < limit && opens_workspace(
            statement(content.subrange(start, end)),
        )
}

/// Whether a line that ends before `limit` opens the package table.
spec fn package_before(content: Seq<char>, limit: int) -> bool {
    exists|start: int, end: int| #[trigger]
        is_line(content, start, end) && end < limit && opens_package(
            statement(content.subrange(start, end)),
        )
}

/// No two lines end between the same two newlines.
proof fn line_is_unique(content: Seq<char>, start: int, end: int, other_start: int, other_end: int)
    requires
        is_line(content, start, end),
        is_line(content, other_start, other_end),
        start <= other_end <= end,
    ensures
        start == other_start,
        end == other_end,
{
    if other_end < end {
        assert(content[other_end] != '\n');
    }
    if other_start < start {
        assert(content[start - 1] != '\n');
    }
    if start < other_start {
        assert(content[other_start - 1] != '\n');
    }
}

/// The comment starts at the first `#`.
pub proof fn comment_start_is(line: Seq<char>, at: int)
    requires
        0 <= at <= line.len(),
        forall|k: int| 0 <= k < at ==> line[k] != '#',
        at == line.len() || line[at] == '#',
    ensures
        comment_start(line) == at,
    decreases at,
{
    if at > 0 {
        comment_start_is(line.drop_first(), at - 1);
    }
}

/// A workspace header is no package header.
proof fn headers_differ(header: Seq<char>)
    requires
        opens_workspace(header),
    ensures
        !opens_package(header),
{
    reveal_strlit("[workspace]");
    reveal_strlit("[workspace.");
    reveal_strlit("[package]");
    if "[workspace."@.is_prefix_of(header) {
        assert(header.subrange(0, "[workspace."@.len() as int)[1] == header[1]);
    }
    assert(header[1] == 'w');
    assert("[package]"@[1] == 'p');
}

/// What follows a `#` does not change what a line says.
pub proof fn comments_say_nothing(line: Seq<char>, comment: Seq<char>)
    ensures
        statement(line + seq!['#'] + comment) == statement(line),
    decreases line.len(),
{
    comment_start_with(line, comment);
    let all = line + seq!['#'] + comment;
    let at = comment_start(line) as int;
    comment_start_in_range(line);
    assert(all.take(at) =~= line.take(at));
}

proof fn comment_start_in_range(line: Seq<char>)
    ensures
        comment_start(line) <= line.len(),
    decreases line.len(),
{
    if line.len() > 0 && line[0] != '#' {
        comment_start_in_range(line.drop_first());
    }
}

proof fn comment_start_with(line: Seq<char>, comment: Seq<char>)
    ensures
        comment_start(line + seq!['#'] + comment) == comment_start(line),
    decreases line.len(),
{
    let all = line + seq!['#'] + comment;
    if line.len() > 0 {
        comment_start_with(line.drop_first(), comment);
        assert(all.drop_first() =~= line.drop_first() + seq!['#'] + comment);
        assert(all[0] == line[0]);
    } else {
        assert(all[0] == '#');
    }
}

/// White space at the end of a line, a carriage return among it, does not
/// change what the line says.
pub proof fn trailing_space_says_nothing(line: Seq<char>, c: char)
    requires
        is_white_space(c),
    ensures
        statement(line.push(c)) == statement(line),
{
    let at = comment_start(line) as int;
    comment_start_in_range(line);
    if at < line.len() {
        comment_found(line);
        comment_start_is(line.push(c), at);
        assert(line.push(c).take(at) =~= line.take(at));
    } else {
        no_comment(line);
        comment_start_is(line.push(c), line.push(c).len() as int);
        assert(line.push(c).take(line.push(c).len() as int) =~= line.push(c));
        assert(line.take(at) =~= line);
        trim_start_push(line, c);
        if trim_start(line).len() > 0 {
            assert(trim_start(line).push(c).drop_last() =~= trim_start(line));
        }
    }
}

proof fn comment_found(line: Seq<char>)
    requires
        comment_start(line) < line.len(),
    ensures
        line[comment_start(line) as int] == '#',
        forall|k: int| 0 <= k < comment_start(line) ==> line[k] != '#',
    decreases line.len(),
{
    if line[0] != '#' {
        let rest = line.drop_first();
        comment_found(rest);
        assert forall|k: int| 0 <= k < comment_start(line) implies line[k] != '#' by {
            if k > 0 {
                assert(rest[k - 1] == line[k]);
            }
        }
    }
}

proof fn no_comment(line: Seq<char>)
    requires
        comment_start(line) == line.len(),
    ensures
        forall|k: int| 0 <= k < line.len() ==> line[k] != '#',
    decreases line.len(),
{
    if line.len() > 0 {
        let rest = line.drop_first();
        no_comment(rest);
        assert forall|k: int| 0 <= k < line.len() implies line[k] != '#' by {
            if k > 0 {
                assert(rest[k - 1] == line[k]);
            }
        }
    }
}

proof fn trim_start_push(s: Seq<char>, c: char)
    requires
        is_white_space(c),
    ensures
        trim_start(s).len() > 0 ==> trim_start(s.push(c)) == trim_start(s).push(c),
        trim_start(s).len() == 0 ==> trim_start(s.push(c)).len() == 0,
    decreases s.len(),
{
    reveal_with_fuel(trim_start, 2);
    if s.len() > 0 && is_white_space(s[0]) {
        trim_start_push(s.drop_first(), c);
        assert(s.push(c).drop_first() =~= s.drop_first().push(c));
    } else if s.len() == 0 {
        assert(s.push(c).drop_first() =~= Seq::<char>::empty());
    }
}

/// The lines of two texts, one under the other, are the lines of both.
proof fn lines_of_both(a: Seq<char>, b: Seq<char>, start: int, end: int)
    requires
        is_line(a + seq!['\n'] + b, start, end),
    ensures
        end <= a.len() ==> is_line(a, start, end) && (a + seq!['\n'] + b).subrange(start, end)
            == a.subrange(start, end),
        end > a.len() ==> is_line(b, start - a.len() - 1, end - a.len() - 1) && (a + seq!['\n']
            + b).subrange(start, end) == b.subrange(start - a.len() - 1, end - a.len() - 1),
{
    let all = a + seq!['\n'] + b;
    let off = a.len() + 1;
    assert(all[a.len() as int] == '\n');
    assert(forall|k: int| 0 <= k < a.len() ==> all[k] == a[k]);
    assert(forall|k: int| 0 <= k < b.len() ==> all[off + k] == b[k]);
    if end <= a.len() {
        assert(all.subrange(start, end) =~= a.subrange(start, end));
    } else {
        assert(start > a.len());
        assert forall|k: int| start - off <= k < end - off implies b[k] != '\n' by {
            assert(all[off + k] == b[k]);
        }
        if start > off {
            assert(all[start - 1] == b[start - off - 1]);
        }
        if end < all.len() {
            assert(all[end] == b[end - off]);
        }
        assert(all.subrange(start, end) =~= b.subrange(start - off, end - off));
    }
}

/// A line of either text is a line of the two, one under the other.
proof fn lines_of_each(a: Seq<char>, b: Seq<char>, start: int, end: int)
    ensures
        is_line(a, start, end) ==> is_line(a + seq!['\n'] + b, start, end) && (a + seq!['\n']
            + b).subrange(start, end) == a.subrange(start, end),
        is_line(b, start, end) ==> is_line(
            a + seq!['\n'] + b,
            start + a.len() + 1,
            end + a.len() + 1,
        ) && (a + seq!['\n'] + b).subrange(start + a.len() + 1, end + a.len() + 1) == b.subrange(
            start,
            end,
        ),
{
    let all = a + seq!['\n'] + b;
    let off = a.len() + 1;
    assert(all[a.len() as int] == '\n');
    assert(forall|k: int| 0 <= k < a.len() ==> all[k] == a[k]);
    assert(forall|k: int| 0 <= k < b.len() ==> all[off + k] == b[k]);
    if is_line(a, start, end) {
        assert(all.subrange(start, end) =~= a.subrange(start, end));
    }
    if is_line(b, start, end) {
        assert forall|k: int| start + off <= k < end + off implies all[k] != '\n' by {
            assert(all[k] == b[k - off]);
        }
        if start > 0 {
            assert(all[start + off - 1] == b[start - 1]);
        }
        assert(all.subrange(start + off, end + off) =~= b.subrange(start, end));
    }
}

/// Two manifests, one under the other, declare what either declares: no line
/// bears on what another one says.
pub proof fn sections_add_up(a: Seq<char>, b: Seq<char>)
    ensures
        declares_workspace(a + seq!['\n'] + b) == (declares_workspace(a) || declares_workspace(b)),
        declares_package(a + seq!['\n'] + b) == (declares_package(a) || declares_package(b)),
{
    let all = a + seq!['\n'] + b;
    let off = a.len() + 1;
    assert forall|s: int, e: int| #[trigger] is_line(all, s, e) implies (e <= a.len() && is_line(
        a,
        s,
        e,
    ) && all.subrange(s, e) == a.subrange(s, e)) || (e > a.len() && is_line(b, s - off, e - off)
        && all.subrange(s, e) == b.subrange(s - off, e - off)) by {
        lines_of_both(a, b, s, e);
    }
    assert forall|s: int, e: int| #[trigger] is_line(a, s, e) implies is_line(all, s, e)
        && all.subrange(s, e) == a.subrange(s, e) by {
        lines_of_each(a, b, s, e);
    }
    assert forall|s: int, e: int| #[trigger] is_line(b, s, e) implies is_line(all, s + off, e + off)
        && all.subrange(s + off, e + off) == b.subrange(s, e) by {
        lines_of_each(a, b, s, e);
    }
}

/// Whether Unicode counts `c` as white space.
fn white_space(c: char) -> (white: bool)
    ensures
        white == is_white_space(c),
{
    let code: u32 = c as u32;
    (0x9 <= code && code <= 0xd) || code == 0x20 || code == 0x85 || code == 0xa0 || code == 0x1680
        || (0x2000 <= code && code <= 0x200a) || code == 0x2028 || code == 0x2029 || code == 0x202f
        || code == 0x205f || code == 0x3000
}

/// The characters of a text.
fn characters(text: &str) -> (chars: Vec<char>)
    ensures
        chars@ == text@,
{
    let mut chars: Vec<char> = Vec::new();
    for c in iter: text.chars()
        invariant
            chars@ == text@.take(iter.index()),
            iter.seq() == text@,
    {
        chars.push(c);
    }
    chars
}

/// Whether `chars` from `start` to `end` begins with `prefix`.
fn begins_with(chars: &Vec<char>, start: usize, end: usize, prefix: &str) -> (begins: bool)
    requires
        start <= end <= chars@.len(),
    ensures
        begins == prefix@.is_prefix_of(chars@.subrange(start as int, end as int)),
{
    let wanted = characters(prefix);
    if wanted.len() > end - start {
        return false;
    }
    let ghost part = chars@.subrange(start as int, end as int);
    let mut i: usize = 0;
    while i < wanted.len()
        invariant
            start <= end <= chars@.len(),
            wanted@ == prefix@,
            wanted@.len() <= end - start,
            i <= wanted@.len(),
            part == chars@.subrange(start as int, end as int),
            forall|k: int| 0 <= k < i ==> wanted@[k] == part[k],
        decreases wanted@.len() - i,
    {
        assert(part[i as int] == chars@[start + i]);
        if chars[start + i] != wanted[i] {
            assert(!prefix@.is_prefix_of(part)) by {
                assert(part.subrange(0, prefix@.len() as int)[i as int] == part[i as int]);
            }
            return false;
        }
        i = i + 1;
    }
    assert(prefix@ =~= part.subrange(0, prefix@.len() as int));
    true
}

/// Whether `chars` from `start` to `end` is exactly `text`.
fn is_exactly(chars: &Vec<char>, start: usize, end: usize, text: &str) -> (same: bool)
    requires
        start <= end <= chars@.len(),
    ensures
        same == (chars@.subrange(start as int, end as int) == text@),
{
    let ghost part = chars@.subrange(start as int, end as int);
    let same = text.unicode_len() == end - start && begins_with(chars, start, end, text);
    assert(part.subrange(0, part.len() as int) =~= part);
    same
}

/// Where the statement of the line from `start` to `end` begins and ends.
fn statement_of(chars: &Vec<char>, start: usize, end: usize) -> (bounds: (usize, usize))
    requires
        start <= end <= chars@.len(),
    ensures
        start <= bounds.0 <= bounds.1 <= end,
        chars@.subrange(bounds.0 as int, bounds.1 as int) == statement(
            chars@.subrange(start as int, end as int),
        ),
{
    let ghost line = chars@.subrange(start as int, end as int);
    let mut hash: usize = start;
    while hash < end && chars[hash] != '#'
        invariant
            start <= hash <= end <= chars@.len(),
            line == chars@.subrange(start as int, end as int),
            forall|k: int| 0 <= k < hash - start ==> line[k] != '#',
        decreases end - hash,
    {
        hash = hash + 1;
    }
    let ghost body = line.take(hash - start);
    proof {
        comment_start_is(line, hash - start);
        assert(body =~= chars@.subrange(start as int, hash as int));
    }
    let mut first: usize = start;
    while first < hash && white_space(chars[first])
        invariant
            start <= first <= hash <= end <= chars@.len(),
            trim_start(body) == trim_start(chars@.subrange(first as int, hash as int)),
        decreases hash - first,
    {
        proof {
            assert(chars@.subrange(first as int, hash as int).drop_first() =~= chars@.subrange(
                first + 1,
                hash as int,
            ));
        }
        first = first + 1;
    }
    let ghost rest = chars@.subrange(first as int, hash as int);
    assert(trim_start(body) == rest);
    let mut last: usize = hash;
    while first < last && white_space(chars[last - 1])
        invariant
            start <= first <= last <= hash <= end <= chars@.len(),
            trim_end(rest) == trim_end(chars@.subrange(first as int, last as int)),
        decreases last - first,
    {
        proof {
            assert(chars@.subrange(first as int, last as int).drop_last() =~= chars@.subrange(
                first as int,
                last - 1,
            ));
        }
        last = last - 1;
    }
    (first, last)
}

/// Tells whether a manifest has a workspace section and whether it has a
/// package section.
pub fn inspect_cargo_toml(content: &str) -> (sections: (bool, bool))
    ensures
        sections.0 == declares_workspace(content@),
        sections.1 == declares_package(content@),
{
    let chars = characters(content);
    let mut has_workspace = false;
    let mut has_package = false;
    let mut start: usize = 0;
    loop
        invariant
            chars@ == content@,
            start <= chars@.len(),
            start == 0 || content@[start - 1] == '\n',
            has_workspace == workspace_before(content@, start as int),
            has_package == package_before(content@, start as int),
        decreases chars@.len() - start,
    {
        let mut end: usize = start;
        while end < chars.len() && chars[end] != '\n'
            invariant
                chars@ == content@,
                start <= end <= chars@.len(),
                forall|k: int| start <= k < end ==> content@[k] != '\n',
            decreases chars@.len() - end,
        {
            end = end + 1;
        }
        let (first, last) = statement_of(&chars, start, end);
        let ghost said = statement(content@.subrange(start as int, end as int));
        if is_exactly(&chars, first, last, "[workspace]") || begins_with(
            &chars,
            first,
            last,
            "[workspace.",
        ) {
            has_workspace = true;
        } else if is_exactly(&chars, first, last, "[package]") {
            has_package = true;
        }
        proof {
            assert(is_line(content@, start as int, end as int));
            if opens_workspace(said) {
                headers_differ(said);
            }
            assert forall|s: int, e: int| #[trigger]
                is_line(content@, s, e) && e <= end implies e < start || (s == start && e
                == end) by {
                if e >= start {
                    line_is_unique(content@, start as int, end as int, s, e);
                }
            }
            assert(has_workspace == workspace_before(content@, end + 1));
            assert(has_package == package_before(content@, end + 1));
        }
        if end == chars.len() {
            assert(has_workspace == declares_workspace(content@));
            assert(has_package == declares_package(content@));
            return (has_workspace, has_package);
        }
        start = end + 1;
    }
}

} // verus!
