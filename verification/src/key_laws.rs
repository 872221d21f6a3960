//! What every key does, in every state.

use vstd::prelude::*;

use crate::app::AppView;
use crate::app::ModeView;
use crate::app::Position;
use crate::input::draw_due;
use crate::input::Flow;
use crate::keys::Input;
use crate::keys::Key;
use crate::keys::KeyPress;
use crate::workspace::selected_of;
use crate::workspace::WorkspaceView;

verus! {

/// Only `c` with the control key held is Ctrl-C, whatever other keys are held with it.
pub proof fn ctrl_c_is_c_with_control(key: KeyPress, interrupt: bool)
    requires
        call_ensures(KeyPress::is_interrupt, (&key,), interrupt),
    ensures
        interrupt <==> key.code == Key::Char('c') && (key.modifiers / 2) % 2 == 1,
        interrupt == key.interrupts(),
{
    let m = key.modifiers;
    assert((m & 2 == 2) == ((m / 2) % 2 == 1)) by (bit_vector);
}

/// Whether the list is shown, with or without a running scan.
pub open spec fn shows_list(app: AppView) -> bool {
    app.mode is Scanning || app.mode is Browsing
}

/// Whether a key is one of two.
pub open spec fn either(key: KeyPress, one: Key, other: Key) -> bool {
    key.code == one || key.code == other
}

/// In the list, keys quit just when they are `q`, `Q` or Esc, or Ctrl-C, and a key that
/// quits changes nothing.
pub proof fn quitting_the_list(app: AppView, key: KeyPress)
    requires
        shows_list(app),
    ensures
        app.keyed(key).1 == Flow::Quit <==> either(key, Key::Char('q'), Key::Char('Q')) || key.code
            == Key::Esc || key.interrupts(),
        app.keyed(key).1 == Flow::Quit ==> app.keyed(key).0 == app,
{
}

/// In the list, the movement keys move the highlight by one or by ten entries, or to an
/// end, and do nothing else.
pub proof fn moving_in_the_list(app: AppView, key: KeyPress)
    requires
        shows_list(app),
    ensures
        either(key, Key::Char('j'), Key::Down) ==> app.keyed(key) == (app.moved(1), Flow::Continue),
        either(key, Key::Char('k'), Key::Up) ==> app.keyed(key) == (app.moved(-1), Flow::Continue),
        key.code == Key::PageDown ==> app.keyed(key) == (app.moved(10), Flow::Continue),
        key.code == Key::PageUp ==> app.keyed(key) == (app.moved(-10), Flow::Continue),
        either(key, Key::Char('g'), Key::Home) ==> app.keyed(key) == (
            app.jumped(Position::First),
            Flow::Continue,
        ),
        either(key, Key::Char('G'), Key::End) ==> app.keyed(key) == (
            app.jumped(Position::Last),
            Flow::Continue,
        ),
{
}

/// In the list, the space bar toggles one selection and `a` all of them; `r` starts over.
pub proof fn selecting_in_the_list(app: AppView, key: KeyPress)
    requires
        shows_list(app),
    ensures
        key.code == Key::Char(' ') ==> app.keyed(key) == (app.toggled(), Flow::Continue),
        either(key, Key::Char('a'), Key::Char('A')) ==> app.keyed(key) == (
            app.all_toggled(),
            Flow::Continue,
        ),
        either(key, Key::Char('r'), Key::Char('R')) ==> app.keyed(key) == (
            app.rescanning(),
            Flow::Rescan,
        ),
{
}

/// In the list, `d` opens the confirmation where at least one workspace is selected, and
/// says that none is otherwise; nothing else changes.
pub proof fn asking_to_delete(app: AppView, key: KeyPress)
    requires
        shows_list(app),
        either(key, Key::Char('d'), Key::Char('D')),
    ensures
        app.workspaces.any(|w: WorkspaceView| w.selected) ==> app.keyed(key) == (
            AppView { mode: ModeView::Confirm, ..app },
            Flow::Continue,
        ),
        !app.workspaces.any(|w: WorkspaceView| w.selected) ==> app.keyed(key) == (
            AppView {
                status: Some("Nothing selected - use [space] to select workspaces"@),
                status_is_error: true,
                ..app
            },
            Flow::Continue,
        ),
{
    some_selected(app.workspaces);
}

proof fn some_selected(list: Seq<WorkspaceView>)
    ensures
        selected_of(list).len() > 0 <==> list.any(|w: WorkspaceView| w.selected),
    decreases list.len(),
{
    reveal(Seq::filter);
    let pred = |w: WorkspaceView| w.selected;
    if list.len() > 0 {
        let shorter = list.drop_last();
        some_selected(shorter);
        if shorter.any(pred) {
            let k = choose|i: int| 0 <= i < shorter.len() && pred(#[trigger] shorter[i]);
            assert(pred(list[k]));
        }
        if list.last().selected {
            assert(pred(list[list.len() - 1]));
        }
        if list.any(pred) && !list.last().selected {
            let k = choose|i: int| 0 <= i < list.len() && pred(#[trigger] list[i]);
            assert(pred(shorter[k]));
        }
    }
}

/// In the list, every key that has no meaning there changes nothing.
pub proof fn other_keys_in_the_list(app: AppView, key: KeyPress)
    requires
        shows_list(app),
        key.code == Key::Enter || key.code == Key::Other || (key.code matches Key::Char(c) && c
            != 'q' && c != 'Q' && c != 'j' && c != 'k' && c != 'g' && c != 'G' && c != ' ' && c
            != 'a' && c != 'A' && c != 'r' && c != 'R' && c != 'd' && c != 'D'),
        !key.interrupts(),
    ensures
        app.keyed(key) == (app, Flow::Continue),
{
}

/// In the confirmation, `y` deletes, `n` and Esc return to the list and say so, and no
/// other key but Ctrl-C does anything.
pub proof fn keys_in_the_confirmation(app: AppView, key: KeyPress)
    requires
        app.mode is Confirm,
        !key.interrupts(),
    ensures
        either(key, Key::Char('y'), Key::Char('Y')) ==> app.keyed(key) == (app, Flow::Delete),
        either(key, Key::Char('n'), Key::Char('N')) || key.code == Key::Esc ==> app.keyed(key) == (
            AppView {
                mode: if app.scan_open {
                    ModeView::Scanning
                } else {
                    ModeView::Browsing
                },
                status: Some("Deletion cancelled"@),
                status_is_error: false,
                ..app
            },
            Flow::Continue,
        ),
        !(either(key, Key::Char('y'), Key::Char('Y')) || either(
            key,
            Key::Char('n'),
            Key::Char('N'),
        ) || key.code == Key::Esc) ==> app.keyed(key) == (app, Flow::Continue),
{
}

/// In the results, Enter, Esc and the space bar return to the list, `r` starts over, `q`
/// quits, and no other key but Ctrl-C does anything.
pub proof fn keys_in_the_results(app: AppView, key: KeyPress)
    requires
        app.mode is Results,
        !key.interrupts(),
    ensures
        either(key, Key::Enter, Key::Esc) || key.code == Key::Char(' ') ==> app.keyed(key) == (
            AppView {
                mode: if app.scan_open {
                    ModeView::Scanning
                } else {
                    ModeView::Browsing
                },
                ..app
            },
            Flow::Continue,
        ),
        either(key, Key::Char('r'), Key::Char('R')) ==> app.keyed(key) == (
            app.rescanning(),
            Flow::Rescan,
        ),
        either(key, Key::Char('q'), Key::Char('Q')) ==> app.keyed(key) == (app, Flow::Quit),
        !(either(key, Key::Enter, Key::Esc) || key.code == Key::Char(' ') || either(
            key,
            Key::Char('r'),
            Key::Char('R'),
        ) || either(key, Key::Char('q'), Key::Char('Q'))) ==> app.keyed(key) == (
            app,
            Flow::Continue,
        ),
{
}

/// Of what the terminal reports, a pressed key does what the key does, a resize asks for
/// the screen to be drawn, and anything else does nothing.
pub proof fn only_presses_and_resizes_count(app: AppView, key: KeyPress)
    ensures
        app.reported_input(Input::Key(key, true)) == app.keyed(key),
        app.reported_input(Input::Key(key, false)) == (app, Flow::Continue),
        app.reported_input(Input::Resize) == (app, Flow::Redraw),
        app.reported_input(Input::Other) == (app, Flow::Continue),
{
}

/// The spinner goes on by one frame, from the last to the first, where a scan is shown
/// and 120 milliseconds have passed, and stands still otherwise. Nothing else changes.
pub proof fn the_spinner_goes_on_by_one(app: AppView, millis: u64)
    requires
        app.spinner_frame < 4,
    ensures
        app.ticked(millis) == (AppView { spinner_frame: app.ticked(millis).spinner_frame, ..app }),
        app.mode !is Scanning || millis < 120 ==> app.ticked(millis) == app,
        app.mode is Scanning && millis >= 120 && app.spinner_frame < 3 ==> app.ticked(
            millis,
        ).spinner_frame == app.spinner_frame + 1,
        app.mode is Scanning && millis >= 120 && app.spinner_frame == 3 ==> app.ticked(
            millis,
        ).spinner_frame == 0,
{
}

/// The screen is drawn at once when the scan changed something, and after a tenth of a
/// second otherwise.
pub proof fn drawing_is_due_after_a_tenth_of_a_second(scan_changed: bool, millis: u64, due: bool)
    requires
        call_ensures(draw_due, (scan_changed, millis), due),
    ensures
        due <==> scan_changed || millis >= 100,
{
}

} // verus!
