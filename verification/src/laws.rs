//! What holds of the application across its operations.

use vstd::prelude::*;

use crate::app::AppView;
use crate::app::ModeView;
use crate::app::SPINNER_FRAMES;
use crate::delete::asked_of;
use crate::delete::deletion;
use crate::delete::freed_by;
use crate::delete::is_asked;
use crate::delete::last_deletion;
use crate::delete::may_delete;
use crate::delete::outcome_of;
use crate::delete::outcomes_of;
use crate::delete::refusal;
use crate::delete::remaining;
use crate::delete::successes;
use crate::delete::OutcomeView;
use crate::input::Flow;
use crate::input::SPIN_MILLIS;
use crate::keys::Key;
use crate::keys::KeyPress;
use crate::path::file_name_of;
use crate::path::has_parent;
use crate::path::shown;
use crate::path::target_name;
use crate::poll::PolledView;
use crate::scan::ScanMsgView;
use crate::screen::outcome_line;
use crate::workspace::by_size;
use crate::workspace::by_size_is_a_stable_sort;
use crate::workspace::by_size_is_the_only_one;
use crate::workspace::of_size;
use crate::workspace::selected_of;
use crate::workspace::total;
use crate::workspace::WorkspaceView;

verus! {

/// Whether two lists hold the same workspaces, whatever is selected in them.
pub open spec fn same_but_selection(a: Seq<WorkspaceView>, b: Seq<WorkspaceView>) -> bool {
    a.len() == b.len() && forall|i: int|
        0 <= i < a.len() ==> #[trigger] a[i] == (WorkspaceView { selected: a[i].selected, ..b[i] })
}

/// Selecting the highlighted workspace and taking it back changes nothing.
pub proof fn toggling_twice_changes_nothing(app: AppView)
    ensures
        app.toggled().toggled() == app,
{
    assert(app.toggled().toggled().workspaces =~= app.workspaces);
}

/// Selecting the highlighted workspace changes no other.
pub proof fn toggling_changes_one(app: AppView, i: int)
    requires
        0 <= i < app.workspaces.len(),
    ensures
        app.toggled().workspaces[i].selected == (app.workspaces[i].selected != (
        app.cursor.selected matches Some(at) && at == i)),
        same_but_selection(app.toggled().workspaces, app.workspaces),
{
}

/// Selecting all selects every workspace; doing so again deselects every one.
pub proof fn selecting_all_toggles(app: AppView, i: int)
    requires
        0 <= i < app.workspaces.len(),
    ensures
        (exists|k: int| 0 <= k < app.workspaces.len() && !(#[trigger] app.workspaces[k]).selected)
            ==> app.all_toggled().workspaces[i].selected
            && !app.all_toggled().all_toggled().workspaces[i].selected,
        (forall|k: int| 0 <= k < app.workspaces.len() ==> (#[trigger] app.workspaces[k]).selected)
            ==> !app.all_toggled().workspaces[i].selected,
        same_but_selection(app.all_toggled().workspaces, app.workspaces),
{
    let once = app.all_toggled();
    if exists|k: int| 0 <= k < app.workspaces.len() && !(#[trigger] app.workspaces[k]).selected {
        assert forall|k: int| 0 <= k < once.workspaces.len() implies (
        #[trigger] once.workspaces[k]).selected by {}
    }
}

/// With every workspace selected, what is selected is the whole list.
pub proof fn all_selected_is_everything(list: Seq<WorkspaceView>)
    requires
        forall|k: int| 0 <= k < list.len() ==> (#[trigger] list[k]).selected,
    ensures
        selected_of(list) == list,
    decreases list.len(),
{
    reveal(Seq::filter);
    if list.len() > 0 {
        all_selected_is_everything(list.drop_last());
        assert(list.drop_last().push(list.last()) =~= list);
    }
}

/// Moving the highlight never leaves the list, and touches nothing else.
pub proof fn moving_stays_in_the_list(app: AppView, delta: int)
    requires
        app.valid(),
    ensures
        app.moved(delta).cursor.selected matches Some(i) ==> i < app.workspaces.len(),
        app.workspaces.len() > 0 ==> app.moved(delta).cursor.selected is Some,
        app.moved(delta) == (AppView { cursor: app.moved(delta).cursor, ..app }),
{
}

/// A step down and a step up lead back, where there is room below.
pub proof fn down_and_up_lead_back(app: AppView)
    requires
        app.cursor.selected matches Some(i) && i + 1 < app.workspaces.len(),
        app.workspaces.len() <= usize::MAX,
    ensures
        app.moved(1).moved(-1) == app,
{
}

/// Page keys are ten single steps.
pub proof fn a_page_is_ten_steps(app: AppView)
    requires
        app.workspaces.len() <= usize::MAX,
        app.cursor.selected matches Some(i) ==> i < app.workspaces.len(),
    ensures
        app.moved(10) == app.moved(1).moved(1).moved(1).moved(1).moved(1).moved(1).moved(1).moved(
            1,
        ).moved(1).moved(1),
        app.moved(-10) == app.moved(-1).moved(-1).moved(-1).moved(-1).moved(-1).moved(-1).moved(
            -1,
        ).moved(-1).moved(-1).moved(-1),
{
}

/// Ctrl-C quits from any mode and leaves everything as it is.
pub proof fn ctrl_c_always_quits(app: AppView, key: KeyPress)
    requires
        key.interrupts(),
    ensures
        app.keyed(key) == (app, Flow::Quit),
{
}

/// A running scan takes no key away from the list: whatever a key does to the
/// workspaces, to the highlight and to what happens next, it does just as well
/// while the scan runs.
pub proof fn the_list_works_during_a_scan(app: AppView, key: KeyPress)
    requires
        app.mode is Scanning,
    ensures
        ({
            let idle = AppView { mode: ModeView::Browsing, scan_open: false, ..app };
            let busy = app.keyed(key);
            let calm = idle.keyed(key);
            &&& busy.1 == calm.1
            &&& busy.0.workspaces == calm.0.workspaces
            &&& busy.0.cursor == calm.0.cursor
            &&& busy.0.status == calm.0.status
            &&& busy.0.mode is Confirm <==> calm.0.mode is Confirm
        }),
{
}

/// Nothing is deleted but after a yes in the confirmation dialog, and that dialog
/// opens only when something is selected.
pub proof fn deletion_is_confirmed(app: AppView, key: KeyPress)
    ensures
        app.keyed(key).1 == Flow::Delete ==> app.mode is Confirm && (key.code == Key::Char('y')
            || key.code == Key::Char('Y')),
        app.keyed(key).0.mode is Confirm && app.mode !is Confirm ==> selected_of(
            app.workspaces,
        ).len() > 0 && (key.code == Key::Char('d') || key.code == Key::Char('D')),
{
}

/// Without a selection the delete key asks for one, and nothing else changes.
pub proof fn nothing_selected_is_refused(app: AppView, key: KeyPress)
    requires
        app.mode is Scanning || app.mode is Browsing,
        key.code == Key::Char('d') || key.code == Key::Char('D'),
        selected_of(app.workspaces).len() == 0,
    ensures
        app.keyed(key) == (
            app.saying("Nothing selected - use [space] to select workspaces"@, true),
            Flow::Continue,
        ),
{
}

/// A cancelled deletion leaves the list, the highlight and the selection alone.
pub proof fn cancelling_keeps_everything(app: AppView, key: KeyPress)
    requires
        app.mode is Confirm,
        key.code == Key::Char('n') || key.code == Key::Char('N') || key.code == Key::Esc,
    ensures
        app.keyed(key).0.workspaces == app.workspaces,
        app.keyed(key).0.cursor == app.cursor,
        app.keyed(key).0.mode == app.list_mode(),
        app.keyed(key).1 == Flow::Continue,
{
}

/// Dismissing the results returns to the list and changes nothing else.
pub proof fn dismissing_returns_to_the_list(app: AppView, key: KeyPress)
    requires
        app.mode is Results,
        key.code == Key::Enter || key.code == Key::Esc || key.code == Key::Char(' '),
    ensures
        app.keyed(key) == (AppView { mode: app.list_mode(), ..app }, Flow::Continue),
{
}

/// No key but a rescan changes which workspaces are listed.
pub proof fn keys_keep_the_list(app: AppView, key: KeyPress)
    requires
        app.keyed(key).1 != Flow::Rescan,
    ensures
        same_but_selection(app.keyed(key).0.workspaces, app.workspaces),
{
}

/// A rescan forgets the list, the highlight and the error, and keeps the
/// directory.
pub proof fn rescanning_starts_over(app: AppView)
    ensures
        app.rescanning().workspaces.len() == 0,
        app.rescanning().cursor.selected is None,
        !app.rescanning().status_is_error,
        app.rescanning().start_dir == app.start_dir,
        app.rescanning().rescanning() == app.rescanning(),
{
}

/// Every path that the file system is asked to remove is not empty, has a parent,
/// is named exactly `target`, and belongs to a selected workspace of the list.
pub proof fn only_targets_are_deleted(list: Seq<WorkspaceView>, i: int)
    requires
        0 <= i < asked_of(list).len(),
    ensures
        ({
            let w = asked_of(list)[i];
            &&& w.selected
            &&& list.contains(w)
            &&& w.target_path.len() > 0
            &&& has_parent(w.target_path)
            &&& file_name_of(w.target_path) == Some(target_name())
        }),
    decreases list.len(),
{
    reveal(Seq::filter);
    if list.len() > 0 {
        let shorter = list.drop_last();
        if i < asked_of(shorter).len() {
            only_targets_are_deleted(shorter, i);
            let w = asked_of(shorter)[i];
            let k = choose|k: int| 0 <= k < shorter.len() && shorter[k] == w;
            assert(list[k] == w);
        } else {
            assert(list[list.len() - 1] == list.last());
        }
    }
}

/// A path that may not be deleted is reported with the reason, whatever the file
/// system would have answered.
pub proof fn refusals_are_reported(w: WorkspaceView, removal: Result<(), Seq<char>>)
    requires
        !may_delete(w.target_path),
    ensures
        refusal(w.target_path) is Some,
        outcome_of(w, deletion(w, removal)).error == refusal(w.target_path),
        outcome_of(w, deletion(w, removal)).freed == 0,
{
}

/// A workspace that fails deletion is shown in the results popup with the full
/// message of the file system.
pub proof fn failures_are_shown_in_full(w: WorkspaceView, cause: Seq<char>)
    requires
        may_delete(w.target_path),
    ensures
        outcome_line(outcome_of(w, deletion(w, Err(cause))))[1].text == shown(w.root) + " - "@ + (
        "removing "@ + shown(w.target_path) + ": "@ + cause),
{
}

/// The roots of some workspaces.
pub open spec fn roots(list: Seq<WorkspaceView>) -> Seq<Seq<u8>> {
    list.map_values(|w: WorkspaceView| w.root)
}

/// The roots of some outcomes.
pub open spec fn outcome_roots(list: Seq<OutcomeView>) -> Seq<Seq<u8>> {
    list.map_values(|o: OutcomeView| o.root)
}

/// The workspaces of a list that are not selected.
pub open spec fn unselected_of(list: Seq<WorkspaceView>) -> Seq<WorkspaceView> {
    list.filter(|w: WorkspaceView| !w.selected)
}

/// Every selected workspace is reported once, in order, and every other one stays
/// in the list, in order.
pub proof fn every_selected_workspace_is_reported(
    list: Seq<WorkspaceView>,
    removals: Seq<Result<(), Seq<char>>>,
)
    ensures
        outcome_roots(outcomes_of(list, removals)) == roots(selected_of(list)),
        unselected_of(remaining(list, removals)) == unselected_of(list),
    decreases list.len(),
{
    reveal(Seq::filter);
    if list.len() > 0 {
        let shorter = list.drop_last();
        every_selected_workspace_is_reported(shorter, removals);
        let before = remaining(shorter, removals);
        let now = remaining(list, removals);
        if now.len() > before.len() {
            assert(now.drop_last() =~= before);
        }
        if list.last().selected {
            let outcome = outcome_of(list.last(), last_deletion(list, removals));
            assert(outcome_roots(outcomes_of(list, removals)) =~= outcome_roots(
                outcomes_of(shorter, removals),
            ).push(outcome.root));
            assert(roots(selected_of(list)) =~= roots(selected_of(shorter)).push(list.last().root));
        }
    } else {
        assert(outcome_roots(outcomes_of(list, removals)) =~= roots(selected_of(list)));
    }
}

/// The outcomes with an error.
pub open spec fn failures(list: Seq<OutcomeView>) -> Seq<OutcomeView> {
    list.filter(|o: OutcomeView| o.error is Some)
}

/// Of the selected workspaces, those stay in the list, in order, whose deletion
/// failed, and no others.
pub proof fn what_fails_stays(list: Seq<WorkspaceView>, removals: Seq<Result<(), Seq<char>>>)
    ensures
        roots(selected_of(remaining(list, removals))) == outcome_roots(
            failures(outcomes_of(list, removals)),
        ),
    decreases list.len(),
{
    reveal(Seq::filter);
    if list.len() > 0 {
        let shorter = list.drop_last();
        what_fails_stays(shorter, removals);
        let before = remaining(shorter, removals);
        let now = remaining(list, removals);
        if now.len() > before.len() {
            assert(now.drop_last() =~= before);
        }
        if list.last().selected {
            let outcome = outcome_of(list.last(), last_deletion(list, removals));
            let told = outcomes_of(shorter, removals);
            assert(outcomes_of(list, removals).drop_last() =~= told);
            if outcome.error is Some {
                assert(roots(selected_of(now)) =~= roots(selected_of(before)).push(
                    list.last().root,
                ));
                assert(outcome_roots(failures(outcomes_of(list, removals))) =~= outcome_roots(
                    failures(told),
                ).push(outcome.root));
            }
        }
    } else {
        assert(roots(selected_of(remaining(list, removals))) =~= outcome_roots(
            failures(outcomes_of(list, removals)),
        ));
    }
}

/// Where no path is refused and every removal succeeds, all that was selected is
/// gone, all else stays, and exactly the sum that the confirmation dialog shows
/// is freed.
pub proof fn the_dialog_tells_what_is_freed(
    list: Seq<WorkspaceView>,
    removals: Seq<Result<(), Seq<char>>>,
)
    requires
        removals.len() == asked_of(list).len(),
        asked_of(list).len() == selected_of(list).len(),
        forall|k: int| 0 <= k < removals.len() ==> #[trigger] removals[k] is Ok,
    ensures
        freed_by(successes(outcomes_of(list, removals))) == total(selected_of(list)),
        successes(outcomes_of(list, removals)) == outcomes_of(list, removals),
        remaining(list, removals) == unselected_of(list),
{
    asked_are_selected(list);
    all_deleted(list, removals);
}

proof fn asked_are_selected(list: Seq<WorkspaceView>)
    ensures
        asked_of(list).len() <= selected_of(list).len(),
    decreases list.len(),
{
    reveal(Seq::filter);
    if list.len() > 0 {
        asked_are_selected(list.drop_last());
    }
}

proof fn all_deleted(list: Seq<WorkspaceView>, removals: Seq<Result<(), Seq<char>>>)
    requires
        asked_of(list).len() <= removals.len(),
        asked_of(list).len() == selected_of(list).len(),
        forall|k: int| 0 <= k < removals.len() ==> #[trigger] removals[k] is Ok,
    ensures
        freed_by(successes(outcomes_of(list, removals))) == total(selected_of(list)),
        successes(outcomes_of(list, removals)) == outcomes_of(list, removals),
        remaining(list, removals) == unselected_of(list),
    decreases list.len(),
{
    reveal(Seq::filter);
    if list.len() > 0 {
        let shorter = list.drop_last();
        asked_are_selected(shorter);
        all_deleted(shorter, removals);
        let before = outcomes_of(shorter, removals);
        let outcomes = outcomes_of(list, removals);
        if list.last().selected {
            assert(is_asked(list.last()));
            assert(removals[asked_of(shorter).len() as int] is Ok);
            let outcome = outcome_of(list.last(), last_deletion(list, removals));
            assert(outcome.error is None);
            assert(outcomes.drop_last() =~= before);
            assert(successes(outcomes) =~= successes(before).push(outcome));
            assert(successes(outcomes).drop_last() =~= successes(before));
            assert(selected_of(list).drop_last() =~= selected_of(shorter));
        }
    } else {
        assert(successes(outcomes_of(list, removals)) =~= outcomes_of(list, removals));
        assert(remaining(list, removals) =~= unselected_of(list));
    }
}

/// It does not matter in which chunks a scan sends what it found.
pub proof fn chunks_make_no_difference(
    app: AppView,
    first: Seq<WorkspaceView>,
    second: Seq<WorkspaceView>,
)
    ensures
        app.with_batch(first).with_batch(second) == app.with_batch(first + second),
{
    let list = app.workspaces;
    let one = by_size(by_size(list + first) + second);
    by_size_is_a_stable_sort(list + first);
    by_size_is_a_stable_sort(by_size(list + first) + second);
    assert(list + (first + second) =~= (list + first) + second);
    assert forall|size: u64| #[trigger] of_size(one, size) == of_size(
        list + (first + second),
        size,
    ) by {
        let pred = |w: WorkspaceView| w.target_size == size;
        assert(of_size(one, size) == of_size(by_size(list + first) + second, size));
        Seq::filter_distributes_over_add(by_size(list + first), second, pred);
        Seq::filter_distributes_over_add(list + first, second, pred);
        assert(of_size(by_size(list + first), size) == of_size(list + first, size));
    }
    by_size_is_the_only_one(list + (first + second), one);
}

/// A scan that finds something shows it, largest first, with the first entry
/// highlighted, and says how much there is.
pub proof fn a_finished_scan_shows_what_it_found(start_dir: Seq<u8>, found: Seq<WorkspaceView>)
    requires
        found.len() > 0,
    ensures
        ({
            let app = AppView::starting(start_dir).polled(
                seq![
                    PolledView::Message(ScanMsgView::Batch(found)),
                    PolledView::Message(ScanMsgView::Done),
                ],
            );
            &&& app.mode is Browsing
            &&& app.workspaces == by_size(found)
            &&& app.cursor.selected == Some(0usize)
            &&& app.status == Some(app.summary())
            &&& !app.scan_open
        }),
{
    reveal_with_fuel(AppView::polled, 3);
    let looks = seq![
        PolledView::Message(ScanMsgView::Batch(found)),
        PolledView::Message(ScanMsgView::Done),
    ];
    let start = AppView::starting(start_dir);
    assert(looks.drop_first()[0] == PolledView::Message(ScanMsgView::Done));
    assert(start.workspaces + found =~= found);
    by_size_is_a_stable_sort(found);
    assert(start.polled(looks) == start.with_batch(found).polled(looks.drop_first()));
}

/// A scan that fails says why, and that stays on the status line.
pub proof fn a_failed_scan_says_why(start_dir: Seq<u8>, message: Seq<char>)
    ensures
        ({
            let app = AppView::starting(start_dir).polled(
                seq![
                    PolledView::Message(ScanMsgView::Error(message)),
                    PolledView::Message(ScanMsgView::Done),
                ],
            );
            &&& app.mode is Browsing
            &&& app.workspaces.len() == 0
            &&& app.status == Some("Scan error: "@ + message)
            &&& app.status_is_error
        }),
{
    reveal_with_fuel(AppView::polled, 3);
    let looks = seq![
        PolledView::Message(ScanMsgView::Error(message)),
        PolledView::Message(ScanMsgView::Done),
    ];
    assert(looks.drop_first()[0] == PolledView::Message(ScanMsgView::Done));
}

/// The end of a scan closes no dialog.
pub proof fn dialogs_outlast_the_scan(app: AppView)
    ensures
        app.mode !is Scanning ==> app.scan_over().mode == app.mode,
        app.scan_over().workspaces == app.workspaces,
{
}

/// The spinner comes round after all of its frames.
pub proof fn the_spinner_comes_round(app: AppView)
    requires
        app.mode is Scanning,
        app.spinner_frame < SPINNER_FRAMES,
    ensures
        app.ticked(SPIN_MILLIS).ticked(SPIN_MILLIS).ticked(SPIN_MILLIS).ticked(SPIN_MILLIS) == app,
{
}

} // verus!
