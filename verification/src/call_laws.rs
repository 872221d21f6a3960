//! What every call that changes a value leaves behind, in every state that it may be made
//! in.

use vstd::prelude::*;

use crate::app::App;
use crate::app::AppView;
use crate::app::ListCursor;
use crate::app::Position;
use crate::input::Flow;
use crate::keys::Input;
use crate::keys::KeyPress;
use crate::path::FilePath;
use crate::scan::candidate_at;
use crate::scan::candidates;
use crate::scan::visit;
use crate::scan::Candidate;
use crate::text::decimal;
use crate::text::push_decimal;
use crate::text_laws::decimals_read_back;
use crate::text_laws::number_of;

verus! {

/// A call of `move_cursor`.
pub open spec fn moves(app: &mut App, delta: isize) -> bool {
    call_ensures(App::move_cursor, (app, delta), ())
}

/// A call of `jump_to`.
pub open spec fn jumps(app: &mut App, to: Position) -> bool {
    call_ensures(App::jump_to, (app, to), ())
}

/// A call of `toggle_current`.
pub open spec fn toggles(app: &mut App) -> bool {
    call_ensures(App::toggle_current, (app,), ())
}

/// A call of `select_all`.
pub open spec fn selects_all(app: &mut App) -> bool {
    call_ensures(App::select_all, (app,), ())
}

/// A call of `scroll_to`.
pub open spec fn scrolls(app: &mut App, offset: usize) -> bool {
    call_ensures(App::scroll_to, (app, offset), ())
}

/// A call of `handle_key`.
pub open spec fn handles_key(app: &mut App, key: KeyPress, flow: Flow) -> bool {
    call_ensures(App::handle_key, (app, key), flow)
}

/// A call of `handle_input`.
pub open spec fn handles_input(app: &mut App, input: Input, flow: Flow) -> bool {
    call_ensures(App::handle_input, (app, input), flow)
}

/// A call of `tick`.
pub open spec fn ticks(app: &mut App, millis: u64, moved: bool) -> bool {
    call_ensures(App::tick, (app, millis), moved)
}

/// A call of `visit`.
pub open spec fn visits(
    found: &mut Vec<Candidate>,
    path: FilePath,
    is_file: bool,
    content: Option<&str>,
) -> bool {
    call_ensures(visit, (found, &path, is_file, content), ())
}

/// A call of `push_decimal`.
pub open spec fn writes(out: &mut String, n: u64) -> bool {
    call_ensures(push_decimal, (out, n), ())
}

/// Moving, jumping and scrolling change nothing but the cursor.
pub proof fn moving_changes_the_cursor_alone()
    ensures
        forall|app: &mut App, delta: isize| #[trigger]
            moves(app, delta) ==> {
                &&& final(app)@ == (AppView { cursor: final(app)@.cursor, ..(*app)@ })
                &&& final(app)@ == (*app)@.moved(delta as int)
            },
        forall|app: &mut App, to: Position| #[trigger]
            jumps(app, to) ==> {
                &&& final(app)@ == (AppView { cursor: final(app)@.cursor, ..(*app)@ })
                &&& final(app)@ == (*app)@.jumped(to)
            },
        forall|app: &mut App, offset: usize| #[trigger]
            scrolls(app, offset) ==> final(app)@ == (AppView {
                cursor: ListCursor { selected: (*app)@.cursor.selected, offset },
                ..(*app)@
            }),
{
}

/// Toggling and selecting all change nothing but selections.
pub proof fn selecting_changes_selections_alone()
    ensures
        forall|app: &mut App| #[trigger]
            toggles(app) ==> {
                &&& final(app)@ == (AppView { workspaces: final(app)@.workspaces, ..(*app)@ })
                &&& final(app)@ == (*app)@.toggled()
            },
        forall|app: &mut App| #[trigger]
            selects_all(app) ==> {
                &&& final(app)@ == (AppView { workspaces: final(app)@.workspaces, ..(*app)@ })
                &&& final(app)@ == (*app)@.all_toggled()
            },
{
}

/// A pressed key does the same whether it comes as a key or as a report of the terminal,
/// and a key that is not pressed does nothing.
pub proof fn a_report_of_a_key_is_the_key()
    ensures
        forall|app: &mut App, key: KeyPress, flow: Flow| #[trigger]
            handles_key(app, key, flow) ==> (final(app)@, flow) == (*app)@.keyed(key),
        forall|app: &mut App, input: Input, flow: Flow| #[trigger]
            handles_input(app, input, flow) ==> {
                &&& input matches Input::Key(key, pressed) ==> (final(app)@, flow) == (if pressed {
                    (*app)@.keyed(key)
                } else {
                    ((*app)@, Flow::Continue)
                })
                &&& input is Resize ==> final(app)@ == (*app)@ && flow == Flow::Redraw
                &&& input is Other ==> final(app)@ == (*app)@ && flow == Flow::Continue
            },
{
}

/// A look at the clock moves the spinner by one frame where a scan is shown and 120
/// milliseconds have passed, and says whether it did; nothing else changes.
pub proof fn the_clock_moves_the_spinner_alone()
    ensures
        forall|app: &mut App, millis: u64, moved: bool| #[trigger]
            ticks(app, millis, moved) ==> {
                &&& moved <==> (*app)@.mode is Scanning && millis >= 120
                &&& !moved ==> final(app)@ == (*app)@
                &&& moved ==> final(app)@ == (AppView {
                    spinner_frame: (((*app)@.spinner_frame + 1) % 4) as usize,
                    ..(*app)@
                })
            },
{
}

/// Visiting an entry keeps all that was found, and adds one candidate behind it just where
/// the entry makes one.
pub proof fn visiting_keeps_what_was_found()
    ensures
        forall|found: &mut Vec<Candidate>, path: FilePath, is_file: bool, content: Option<&str>|
         #[trigger]
            visits(found, path, is_file, content) ==> {
                let text = match content {
                    Some(text) => Some(text@),
                    None => None,
                };
                let made = candidate_at(path@, is_file, text);
                &&& final(found)@.len() == (*found)@.len() + (if made is Some {
                    1int
                } else {
                    0
                })
                &&& forall|i: int|
                    0 <= i < (*found)@.len() ==> (#[trigger] final(found)@[i])@ == (*found)@[i]@
                &&& made matches Some(c) ==> final(found)@[(*found)@.len() as int]@ == c
            },
{
    assert forall|
        found: &mut Vec<Candidate>,
        path: FilePath,
        is_file: bool,
        content: Option<&str>,
    | #[trigger] visits(found, path, is_file, content) implies {
        let text = match content {
            Some(text) => Some(text@),
            None => None,
        };
        let made = candidate_at(path@, is_file, text);
        &&& final(found)@.len() == (*found)@.len() + (if made is Some {
            1int
        } else {
            0
        })
        &&& forall|i: int|
            0 <= i < (*found)@.len() ==> (#[trigger] final(found)@[i])@ == (*found)@[i]@
        &&& made matches Some(c) ==> final(found)@[(*found)@.len() as int]@ == c
    } by {
        let before = candidates((*found)@);
        let after = candidates(final(found)@);
        assert(before.len() == (*found)@.len() && after.len() == final(found)@.len());
        assert forall|i: int| 0 <= i < (*found)@.len() implies (#[trigger] final(found)@[i])@ == (
        *found)@[i]@ by {
            assert(after[i] == final(found)@[i]@ && before[i] == (*found)@[i]@);
            assert(after[i] == before[i]);
        }
        let n = (*found)@.len() as int;
        if after.len() > before.len() {
            assert(after[n] == final(found)@[n]@);
        }
    }
}

/// Writing a number keeps the text before it and adds digits that stand for the number.
pub proof fn a_number_is_written_behind_the_text()
    ensures
        forall|out: &mut String, n: u64| #[trigger]
            writes(out, n) ==> {
                &&& (*out)@.is_prefix_of(final(out)@)
                &&& number_of(final(out)@.skip((*out)@.len() as int)) == n
            },
{
    assert forall|out: &mut String, n: u64| #[trigger] writes(out, n) implies {
        &&& (*out)@.is_prefix_of(final(out)@)
        &&& number_of(final(out)@.skip((*out)@.len() as int)) == n
    } by {
        decimals_read_back(n as nat);
        let before = (*out)@;
        let after = final(out)@;
        assert(after.subrange(0, before.len() as int) =~= before);
        assert(after.skip(before.len() as int) =~= decimal(n as nat));
    }
}

} // verus!
