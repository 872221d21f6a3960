//! What holds of every manifest.

use vstd::prelude::*;

use crate::manifest::comment_start;
use crate::manifest::comment_start_is;
use crate::manifest::comments_say_nothing;
use crate::manifest::declares_package;
use crate::manifest::declares_workspace;
use crate::manifest::inspect_cargo_toml;
use crate::manifest::is_line;
use crate::manifest::is_white_space;
use crate::manifest::opens_package;
use crate::manifest::opens_workspace;
use crate::manifest::sections_add_up;
use crate::manifest::statement;
use crate::manifest::trim_end;
use crate::manifest::trim_start;

verus! {

/// The characters that count as white space are those that Unicode says, of all
/// characters.
pub proof fn white_space_is_what_unicode_says(c: char)
    ensures
        is_white_space(c) <==> {
            ||| c == '\t'
            ||| c == '\n'
            ||| c == '\x0b'
            ||| c == '\x0c'
            ||| c == '\r'
            ||| c == ' '
            ||| c == '\u{85}'
            ||| c == '\u{a0}'
            ||| c == '\u{1680}'
            ||| c == '\u{2000}'
            ||| c == '\u{2001}'
            ||| c == '\u{2002}'
            ||| c == '\u{2003}'
            ||| c == '\u{2004}'
            ||| c == '\u{2005}'
            ||| c == '\u{2006}'
            ||| c == '\u{2007}'
            ||| c == '\u{2008}'
            ||| c == '\u{2009}'
            ||| c == '\u{200a}'
            ||| c == '\u{2028}'
            ||| c == '\u{2029}'
            ||| c == '\u{202f}'
            ||| c == '\u{205f}'
            ||| c == '\u{3000}'
        },
{
}

/// Whether a text is white space only.
pub open spec fn is_blank(text: Seq<char>) -> bool {
    forall|i: int| 0 <= i < text.len() ==> is_white_space(#[trigger] text[i])
}

/// Whether a text is what remains of a line when its comment and the white space around
/// it are taken away.
pub open spec fn is_bare(text: Seq<char>) -> bool {
    &&& !text.contains('#')
    &&& text.len() > 0 ==> !is_white_space(text[0]) && !is_white_space(text.last())
}

/// Whether some text is all on one line.
pub open spec fn on_one_line(text: Seq<char>) -> bool {
    !text.contains('\n')
}

/// Whether `said` is the header of the workspace table, or of a table within it.
pub open spec fn says_workspace(said: Seq<char>) -> bool {
    said == "[workspace]"@ || (said.len() >= 11 && said.take(11) == "[workspace."@)
}

proof fn trim_start_of(before: Seq<char>, rest: Seq<char>)
    requires
        is_blank(before),
        rest.len() > 0 ==> !is_white_space(rest[0]),
    ensures
        trim_start(before + rest) == rest,
    decreases before.len(),
{
    let all = before + rest;
    if before.len() > 0 {
        let fewer = before.drop_first();
        assert(is_blank(fewer)) by {
            assert forall|i: int| 0 <= i < fewer.len() implies is_white_space(
                #[trigger] fewer[i],
            ) by {
                assert(fewer[i] == before[i + 1]);
            }
        }
        trim_start_of(fewer, rest);
        assert(all[0] == before[0]);
        assert(all.drop_first() =~= fewer + rest);
    } else {
        assert(all =~= rest);
    }
}

proof fn trim_end_of(rest: Seq<char>, after: Seq<char>)
    requires
        is_blank(after),
        rest.len() > 0 ==> !is_white_space(rest.last()),
    ensures
        trim_end(rest + after) == rest,
    decreases after.len(),
{
    let all = rest + after;
    if after.len() > 0 {
        let fewer = after.drop_last();
        assert(is_blank(fewer)) by {
            assert forall|i: int| 0 <= i < fewer.len() implies is_white_space(
                #[trigger] fewer[i],
            ) by {
                assert(fewer[i] == after[i]);
            }
        }
        trim_end_of(rest, fewer);
        assert(all.last() == after.last());
        assert(after.last() == after[after.len() - 1]);
        assert(all.drop_last() =~= rest + fewer);
    } else {
        assert(all =~= rest);
    }
}

proof fn blank_is_trimmed(text: Seq<char>)
    requires
        is_blank(text),
    ensures
        trim_start(text).len() == 0,
{
    assert(text + Seq::<char>::empty() =~= text);
    trim_start_of(text, Seq::empty());
}

/// What a line says is what stands in it before the comment, without the white space
/// around it.
pub proof fn a_line_says_what_stands_in_it(
    before: Seq<char>,
    said: Seq<char>,
    after: Seq<char>,
    comment: Seq<char>,
)
    requires
        is_blank(before),
        is_bare(said),
        is_blank(after),
    ensures
        statement(before + said + after) == said,
        statement(before + said + after + seq!['#'] + comment) == said,
{
    let line = before + said + after;
    assert forall|k: int| 0 <= k < line.len() implies line[k] != '#' by {
        if k < before.len() {
            assert(line[k] == before[k]);
        } else if k < before.len() + said.len() {
            assert(line[k] == said[k - before.len()]);
        } else {
            assert(line[k] == after[k - before.len() - said.len()]);
        }
    }
    comment_start_is(line, line.len() as int);
    assert(line.take(line.len() as int) =~= line);
    assert(line =~= before + (said + after));
    if said.len() > 0 {
        assert((said + after)[0] == said[0]);
        trim_start_of(before, said + after);
        trim_end_of(said, after);
    } else {
        assert(is_blank(line)) by {
            assert forall|i: int| 0 <= i < line.len() implies is_white_space(#[trigger] line[i]) by {
                if i < before.len() {
                    assert(line[i] == before[i]);
                } else {
                    assert(line[i] == after[i - before.len()]);
                }
            }
        }
        blank_is_trimmed(line);
        assert(trim_start(line) =~= said);
    }
    comments_say_nothing(line, comment);
}

proof fn one_line_is_one_line(line: Seq<char>, start: int, end: int)
    requires
        on_one_line(line),
    ensures
        is_line(line, start, end) <==> start == 0 && end == line.len(),
{
}

/// A single line declares a workspace just when it says `[workspace]` or begins to say
/// `[workspace.`, and a package just when it says `[package]`, whatever white space and
/// comment stand around that.
pub proof fn a_line_declares_what_it_says(
    before: Seq<char>,
    said: Seq<char>,
    after: Seq<char>,
    comment: Seq<char>,
)
    requires
        is_blank(before),
        is_bare(said),
        is_blank(after),
        on_one_line(before + said + after + seq!['#'] + comment),
    ensures
        declares_workspace(before + said + after) <==> says_workspace(said),
        declares_workspace(before + said + after + seq!['#'] + comment) <==> says_workspace(said),
        declares_package(before + said + after) <==> said == "[package]"@,
        declares_package(before + said + after + seq!['#'] + comment) <==> said == "[package]"@,
{
    a_line_says_what_stands_in_it(before, said, after, comment);
    let short = before + said + after;
    let long = short + seq!['#'] + comment;
    assert(on_one_line(short)) by {
        assert forall|k: int| 0 <= k < short.len() implies short[k] != '\n' by {
            assert(short[k] == long[k]);
        }
    }
    a_line_declares_its_statement(short);
    a_line_declares_its_statement(long);
}

proof fn a_line_declares_its_statement(line: Seq<char>)
    requires
        on_one_line(line),
    ensures
        declares_workspace(line) <==> says_workspace(statement(line)),
        declares_package(line) <==> statement(line) == "[package]"@,
{
    let n = line.len() as int;
    let said = statement(line);
    reveal_strlit("[workspace.");
    assert(line.subrange(0, n) =~= line);
    one_line_is_one_line(line, 0, n);
    assert(is_line(line, 0, n));
    assert forall|s: int, e: int| #[trigger] is_line(line, s, e) implies s == 0 && e == n by {
        one_line_is_one_line(line, s, e);
    }
    if said.len() >= 11 {
        assert(said.take(11) =~= said.subrange(0, 11));
    }
}

/// A line in the middle of a manifest adds what it says itself, and leaves all else as
/// it is.
pub proof fn a_line_adds_what_it_says(above: Seq<char>, line: Seq<char>, below: Seq<char>)
    requires
        on_one_line(line),
    ensures
        declares_workspace(above + seq!['\n'] + (line + seq!['\n'] + below)) <==> {
            ||| declares_workspace(above)
            ||| says_workspace(statement(line))
            ||| declares_workspace(below)
        },
        declares_package(above + seq!['\n'] + (line + seq!['\n'] + below)) <==> {
            ||| declares_package(above)
            ||| statement(line) == "[package]"@
            ||| declares_package(below)
        },
{
    sections_add_up(above, line + seq!['\n'] + below);
    sections_add_up(line, below);
    a_line_declares_its_statement(line);
}

/// Whether `part` stands somewhere in `text`.
pub open spec fn occurs(part: Seq<char>, text: Seq<char>) -> bool {
    exists|i: int|
        0 <= i <= text.len() - part.len() && #[trigger] text.subrange(i, i + part.len()) == part
}

proof fn trims_are_parts(s: Seq<char>) -> (bounds: (int, int))
    ensures
        0 <= bounds.0 <= bounds.1 <= s.len(),
        trim_end(trim_start(s)) == s.subrange(bounds.0, bounds.1),
    decreases s.len(),
{
    if s.len() > 0 && is_white_space(s[0]) {
        let rest = s.drop_first();
        let b = trims_are_parts(rest);
        assert(rest.subrange(b.0, b.1) =~= s.subrange(b.0 + 1, b.1 + 1));
        (b.0 + 1, b.1 + 1)
    } else if s.len() > 0 && is_white_space(s.last()) {
        let rest = s.drop_last();
        let b = trims_are_parts(rest);
        assert(rest.subrange(b.0, b.1) =~= s.subrange(b.0, b.1));
        assert(rest.len() > 0 ==> rest[0] == s[0]);
        (b.0, b.1)
    } else {
        assert(s.subrange(0, s.len() as int) =~= s);
        (0, s.len() as int)
    }
}

proof fn a_statement_is_a_part(line: Seq<char>) -> (bounds: (int, int))
    ensures
        0 <= bounds.0 <= bounds.1 <= line.len(),
        statement(line) == line.subrange(bounds.0, bounds.1),
{
    let at = comment_start(line) as int;
    comment_start_within(line);
    let body = line.take(at);
    let b = trims_are_parts(body);
    assert(body.subrange(b.0, b.1) =~= line.subrange(b.0, b.1));
    b
}

proof fn comment_start_within(line: Seq<char>)
    ensures
        comment_start(line) <= line.len(),
    decreases line.len(),
{
    if line.len() > 0 && line[0] != '#' {
        comment_start_within(line.drop_first());
    }
}

proof fn a_header_occurs(content: Seq<char>, start: int, end: int, mark: Seq<char>)
    requires
        is_line(content, start, end),
        mark.len() <= statement(content.subrange(start, end)).len(),
        statement(content.subrange(start, end)).take(mark.len() as int) == mark,
    ensures
        occurs(mark, content),
{
    let line = content.subrange(start, end);
    let b = a_statement_is_a_part(line);
    let i = start + b.0;
    assert(content.subrange(i, i + mark.len()) =~= statement(line).take(mark.len() as int));
}

/// A manifest that does not mention `[workspace` declares no workspace, and one that does
/// not mention `[package]` declares no package.
pub proof fn what_is_not_mentioned_is_not_declared(
    content: &str,
    sections: (bool, bool),
)
    requires
        call_ensures(inspect_cargo_toml, (content,), sections),
    ensures
        sections.0 ==> occurs("[workspace"@, content@),
        sections.1 ==> occurs("[package]"@, content@),
{
    reveal_strlit("[workspace");
    reveal_strlit("[workspace]");
    reveal_strlit("[workspace.");
    reveal_strlit("[package]");
    let mark = "[workspace"@;
    if declares_workspace(content@) {
        let (s, e) = choose|s: int, e: int|
            #[trigger] is_line(content@, s, e) && opens_workspace(
                statement(content@.subrange(s, e)),
            );
        let said = statement(content@.subrange(s, e));
        if said == "[workspace]"@ {
            assert(said.take(10) =~= mark);
        } else {
            assert(said.subrange(0, 11) == "[workspace."@);
            assert forall|k: int| 0 <= k < 10 implies said.take(10)[k] == mark[k] by {
                assert(said.subrange(0, 11)[k] == said[k]);
            }
            assert(said.take(10) =~= mark);
        }
        a_header_occurs(content@, s, e, mark);
    }
    if declares_package(content@) {
        let (s, e) = choose|s: int, e: int|
            #[trigger] is_line(content@, s, e) && opens_package(
                statement(content@.subrange(s, e)),
            );
        let said = statement(content@.subrange(s, e));
        assert(said.take(9) =~= "[package]"@);
        a_header_occurs(content@, s, e, "[package]"@);
    }
}

/// The sections of a manifest are told by its lines alone: one line that says a header
/// is enough, and without one there is no section.
pub proof fn sections_are_told_by_the_lines(
    content: &str,
    sections: (bool, bool),
    above: Seq<char>,
    line: Seq<char>,
    below: Seq<char>,
)
    requires
        call_ensures(inspect_cargo_toml, (content,), sections),
        on_one_line(line),
        content@ == above + seq!['\n'] + (line + seq!['\n'] + below),
    ensures
        says_workspace(statement(line)) ==> sections.0,
        statement(line) == "[package]"@ ==> sections.1,
        !says_workspace(statement(line)) ==> sections.0 == (declares_workspace(above)
            || declares_workspace(below)),
        statement(line) != "[package]"@ ==> sections.1 == (declares_package(above)
            || declares_package(below)),
{
    a_line_adds_what_it_says(above, line, below);
}

} // verus!
