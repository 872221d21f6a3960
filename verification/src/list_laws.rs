//! What holds of every list of workspaces, and of what is highlighted and selected in it.

use vstd::prelude::*;

use crate::app::App;
use crate::app::AppView;
use crate::app::ListCursor;
use crate::app::ModeView;
use crate::app::Position;
use crate::path::shown;
use crate::poll::total_of_both;
use crate::workspace::by_size;
use crate::workspace::by_size_is_a_stable_sort;
use crate::workspace::listed;
use crate::workspace::of_size;
use crate::workspace::selected_of;
use crate::workspace::sort_by_size;
use crate::workspace::total;
use crate::workspace::Workspace;
use crate::workspace::WorkspaceView;

verus! {

/// A list of one weighs what that one does, and an empty list nothing. What two lists
/// weigh together, `total_of_both` tells.
pub proof fn a_workspace_weighs_its_target(w: WorkspaceView)
    ensures
        total(seq![w]) == w.target_size,
        total(Seq::empty()) == 0,
{
    reveal_with_fuel(total, 2);
    assert(seq![w].drop_last() =~= Seq::empty());
}

/// One more workspace adds its size to the total, whatever the sizes are.
pub proof fn one_more_adds_its_size(list: Seq<WorkspaceView>, w: WorkspaceView)
    ensures
        total(list.push(w)) == total(list) + w.target_size,
{
    a_workspace_weighs_its_target(w);
    total_of_both(list, seq![w]);
    assert(list + seq![w] =~= list.push(w));
}

/// One more workspace is among the selected ones, behind the others, just when it is
/// selected itself.
pub proof fn one_more_may_be_selected(list: Seq<WorkspaceView>, w: WorkspaceView)
    ensures
        w.selected ==> selected_of(list.push(w)) == selected_of(list).push(w),
        !w.selected ==> selected_of(list.push(w)) == selected_of(list),
        selected_of(Seq::empty()).len() == 0,
{
    reveal(Seq::filter);
    assert(list.push(w).drop_last() =~= list);
}

/// The number and the sum that are shown as selected count every selected workspace
/// once and no other.
pub proof fn the_selection_is_counted(app: App, count: usize, size: u64, sum: u64)
    requires
        call_ensures(App::selected_count, (&app,), count),
        call_ensures(App::selected_size, (&app,), size),
        call_ensures(App::total_size, (&app,), sum),
    ensures
        count == app@.workspaces.filter(|w: WorkspaceView| w.selected).len(),
        size == app@.workspaces.fold_left(
            0int,
            |n: int, w: WorkspaceView|
                if w.selected {
                    n + w.target_size
                } else {
                    n
                },
        ),
        sum == app@.workspaces.fold_left(0int, |n: int, w: WorkspaceView| n + w.target_size),
{
    totals_fold(app@.workspaces);
}

proof fn totals_fold(list: Seq<WorkspaceView>)
    ensures
        total(list) == list.fold_left(0int, |n: int, w: WorkspaceView| n + w.target_size),
        total(selected_of(list)) == list.fold_left(
            0int,
            |n: int, w: WorkspaceView|
                if w.selected {
                    n + w.target_size
                } else {
                    n
                },
        ),
    decreases list.len(),
{
    reveal(Seq::filter);
    reveal_with_fuel(Seq::fold_left, 2);
    if list.len() > 0 {
        let shorter = list.drop_last();
        totals_fold(shorter);
        assert(shorter.push(list.last()) =~= list);
        one_more_may_be_selected(shorter, list.last());
        if list.last().selected {
            one_more_adds_its_size(selected_of(shorter), list.last());
        }
    }
}

/// Sorting puts no workspace behind a smaller one, keeps every one, and leaves those of
/// one size in their order.
pub proof fn sorting_puts_the_largest_first(
    list: Vec<Workspace>,
    sorted: Vec<Workspace>,
    i: int,
    j: int,
    size: u64,
)
    requires
        call_ensures(sort_by_size, (list,), sorted),
    ensures
        sorted@.len() == list@.len(),
        0 <= i < j < sorted@.len() ==> sorted@[i].target_size >= sorted@[j].target_size,
        listed(sorted@).to_multiset() == listed(list@).to_multiset(),
        listed(sorted@).filter(|w: WorkspaceView| w.target_size == size) == listed(list@).filter(
            |w: WorkspaceView| w.target_size == size,
        ),
{
    let all = listed(list@);
    by_size_is_a_stable_sort(all);
    assert(listed(sorted@).len() == sorted@.len());
    if 0 <= i < j < sorted@.len() {
        assert(listed(sorted@)[i] == sorted@[i]@ && listed(sorted@)[j] == sorted@[j]@);
        assert(by_size(all)[i].target_size >= by_size(all)[j].target_size);
    }
    assert(of_size(by_size(all), size) == of_size(all, size));
}

/// The entry that a move starts from: the highlighted one, or the first.
pub open spec fn from_entry(app: AppView) -> int {
    match app.cursor.selected {
        Some(i) => i as int,
        None => 0,
    }
}

/// A move goes exactly as far as it is told, whatever the length of the list, and stops
/// at either end; in an empty list nothing is highlighted. Nothing else changes.
pub proof fn a_move_goes_as_far_as_told(app: AppView, delta: int)
    requires
        app.workspaces.len() <= usize::MAX,
    ensures
        ({
            let to = from_entry(app) + delta;
            let after = app.moved(delta);
            &&& app.workspaces.len() == 0 ==> after.cursor.selected is None && after.cursor.offset
                == 0
            &&& app.workspaces.len() > 0 ==> after.cursor.offset == app.cursor.offset
            &&& 0 <= to < app.workspaces.len() ==> after.cursor.selected == Some(to as usize)
            &&& app.workspaces.len() > 0 && to < 0 ==> after.cursor.selected == Some(0usize)
            &&& app.workspaces.len() > 0 && to >= app.workspaces.len() ==> after.cursor.selected
                == Some((app.workspaces.len() - 1) as usize)
            &&& after == (AppView { cursor: after.cursor, ..app })
        }),
{
}

/// Two moves are one move by the sum, as long as neither is stopped at an end.
pub proof fn moves_add_up(app: AppView, first: int, second: int)
    requires
        app.workspaces.len() <= usize::MAX,
        0 <= from_entry(app) + first < app.workspaces.len(),
    ensures
        app.moved(first).moved(second) == app.moved(first + second),
{
}

/// A jump highlights the first or the last entry of the list, wherever the highlight
/// was, and changes nothing else.
pub proof fn a_jump_goes_to_an_end(app: AppView)
    requires
        0 < app.workspaces.len() <= usize::MAX,
    ensures
        app.jumped(Position::First) == (AppView {
            cursor: ListCursor { selected: Some(0), offset: app.cursor.offset },
            ..app
        }),
        app.jumped(Position::Last) == (AppView {
            cursor: ListCursor {
                selected: Some((app.workspaces.len() - 1) as usize),
                offset: app.cursor.offset,
            },
            ..app
        }),
{
}

/// In an empty list a jump highlights nothing.
pub proof fn a_jump_in_an_empty_list(app: AppView, to: Position)
    requires
        app.workspaces.len() == 0,
    ensures
        app.jumped(to) == (AppView { cursor: ListCursor { selected: None, offset: 0 }, ..app }),
{
}

/// Toggling changes the selection of the highlighted workspace, and nothing else in the
/// whole state.
pub proof fn toggling_changes_nothing_else(app: AppView)
    ensures
        app.toggled() == (AppView { workspaces: app.toggled().workspaces, ..app }),
        app.toggled().workspaces.len() == app.workspaces.len(),
        app.cursor.selected is None ==> app.toggled() == app,
        forall|i: int|
            0 <= i < app.workspaces.len() ==> #[trigger] app.toggled().workspaces[i] == (
            WorkspaceView {
                selected: if app.cursor.selected matches Some(at) && at == i {
                    !app.workspaces[i].selected
                } else {
                    app.workspaces[i].selected
                },
                ..app.workspaces[i]
            }),
{
}

/// Selecting all sets every selection to whether one was missing, and changes nothing
/// else in the whole state.
pub proof fn selecting_all_changes_nothing_else(app: AppView)
    ensures
        app.all_toggled() == (AppView { workspaces: app.all_toggled().workspaces, ..app }),
        app.all_toggled().workspaces.len() == app.workspaces.len(),
        forall|i: int|
            0 <= i < app.workspaces.len() ==> #[trigger] app.all_toggled().workspaces[i] == (
            WorkspaceView {
                selected: app.workspaces.any(|w: WorkspaceView| !w.selected),
                ..app.workspaces[i]
            }),
{
    let missing = |w: WorkspaceView| !w.selected;
    let select = exists|i: int|
        0 <= i < app.workspaces.len() && !(#[trigger] app.workspaces[i]).selected;
    if select {
        let k = choose|i: int|
            0 <= i < app.workspaces.len() && !(#[trigger] app.workspaces[i]).selected;
        assert(missing(app.workspaces[k]));
    }
    if app.workspaces.any(missing) {
        let k = choose|i: int| 0 <= i < app.workspaces.len() && missing(#[trigger] app.workspaces[i]);
        assert(!app.workspaces[k].selected);
    }
}

/// The application starts with a scan of its directory and an empty list, and says so.
pub proof fn the_application_starts_empty(start_dir: Seq<u8>)
    ensures
        AppView::starting(start_dir) == (AppView {
            start_dir,
            mode: ModeView::Scanning,
            workspaces: Seq::empty(),
            cursor: ListCursor { selected: None, offset: 0 },
            status: Some("Scanning "@ + shown(start_dir) + "..."@),
            status_is_error: false,
            scan_open: true,
            spinner_frame: 0,
        }),
{
}

/// A rescan leaves the directory and the spinner as they are, and puts all else back to
/// the start of a scan, whatever the state was.
pub proof fn a_rescan_forgets_the_rest(app: AppView)
    ensures
        app.rescanning() == (AppView {
            status: Some("Rescanning "@ + shown(app.start_dir) + "..."@),
            spinner_frame: app.spinner_frame,
            ..AppView::starting(app.start_dir)
        }),
{
}

} // verus!
