//! What holds of every deletion pass.

use vstd::prelude::*;

use crate::app::App;
use crate::app::AppView;
use crate::app::ListCursor;
use crate::app::ModeView;
use crate::delete::asked_of;
use crate::delete::delete_target;
use crate::delete::deletion;
use crate::delete::freed_by;
use crate::delete::is_asked;
use crate::delete::maybe_text;
use crate::delete::may_delete;
use crate::delete::outcomes_of;
use crate::delete::refuse;
use crate::delete::remaining;
use crate::delete::successes;
use crate::delete::OutcomeView;
use crate::delete::Removal;
use crate::path::components;
use crate::path::dot;
use crate::path::file_name_of;
use crate::path::has_parent;
use crate::path::shown;
use crate::path::slash;
use crate::path::target_name;
use crate::path::FilePath;
use crate::path::DOT;
use crate::path_laws::all_but_the_root_have_a_parent;
use crate::purge::answers;
use crate::purge::path_texts;
use crate::purge::purge_adds_up;
use crate::scan::roots_of;
use crate::scan::workspaces_at;
use crate::scan::CandidateView;
use crate::scan_laws::what_is_listed;
use crate::text::decimal;
use crate::text::size_shown;
use crate::workspace::by_size;
use crate::workspace::selected_of;
use crate::workspace::Workspace;
use crate::workspace::WorkspaceView;

verus! {

/// A path may be deleted just when it has a final component below something, and that
/// component is `target`.
pub proof fn only_a_target_may_be_deleted(path: Seq<u8>)
    ensures
        may_delete(path) <==> path.len() > 0 && components(path).len() > 0
            && components(path).last() == seq![116u8, 97, 114, 103, 101, 116],
{
    reveal_strlit("target");
    let name = seq![116u8, 97, 114, 103, 101, 116];
    assert(target_name() =~= name);
    all_but_the_root_have_a_parent(path);
    assert(slash().len() == 1 && dot().len() == 1);
    assert(seq![DOT, DOT].len() == 2);
    if components(path) == seq![seq![47u8]] {
        assert(components(path).last() == seq![47u8]);
        assert(seq![47u8].len() == 1);
    }
}

/// A path is refused just when it is empty, has no parent or is not named `target`, and
/// the reason is the first of these that holds.
pub proof fn a_refusal_gives_its_reason(path: FilePath, reason: Option<String>)
    requires
        call_ensures(refuse, (&path,), reason),
    ensures
        reason is None <==> path@.len() > 0 && has_parent(path@) && file_name_of(path@) == Some(
            target_name(),
        ),
        path@.len() == 0 ==> maybe_text(reason) == Some("empty target path"@),
        path@.len() > 0 && !has_parent(path@) ==> maybe_text(reason) == Some(
            "refusing to delete "@ + shown(path@) + " (no parent)"@,
        ),
        has_parent(path@) && path@.len() > 0 && file_name_of(path@) != Some(target_name())
            ==> maybe_text(reason) == Some("refusing to delete non-target path "@ + shown(path@)),
{
}

/// A deletion frees the size of the target just when the path may be deleted and the
/// file system says Ok; the size makes no difference to whether it succeeds.
pub proof fn only_an_ok_frees(ws: Workspace, removal: Removal, result: Result<u64, String>)
    requires
        call_ensures(delete_target, (&ws, &removal), result),
    ensures
        result is Ok <==> removal is Ok && may_delete(ws.target_path@),
        result matches Ok(freed) ==> freed == ws.target_size,
        result matches Err(message) ==> removal is Err && may_delete(ws.target_path@) ==> message@
            == "removing "@ + shown(ws.target_path@) + ": "@ + removal->Err_0@,
{
}

/// One more workspace is asked for, behind the others, just when it is selected and its
/// target may be deleted, whatever else holds of it.
pub proof fn one_more_may_be_asked_for(list: Seq<WorkspaceView>, w: WorkspaceView)
    ensures
        w.selected && may_delete(w.target_path) ==> asked_of(list.push(w)) == asked_of(list).push(
            w,
        ),
        !(w.selected && may_delete(w.target_path)) ==> asked_of(list.push(w)) == asked_of(list),
        asked_of(Seq::empty()).len() == 0,
{
    reveal(Seq::filter);
    assert(list.push(w).drop_last() =~= list);
}

/// What is asked for is exactly what is selected and may be deleted, in the order of the
/// list.
pub proof fn the_selected_targets_are_asked_for(list: Seq<WorkspaceView>)
    ensures
        asked_of(list) == selected_of(list).filter(|w: WorkspaceView| may_delete(w.target_path)),
        (forall|i: int|
            0 <= i < list.len() && (#[trigger] list[i]).selected ==> may_delete(
                list[i].target_path,
            )) ==> asked_of(list) == selected_of(list),
    decreases list.len(),
{
    reveal(Seq::filter);
    let pred = |w: WorkspaceView| may_delete(w.target_path);
    if list.len() > 0 {
        let shorter = list.drop_last();
        let w = list.last();
        the_selected_targets_are_asked_for(shorter);
        assert(shorter.push(w) =~= list);
        one_more_may_be_asked_for(shorter, w);
        if w.selected {
            assert(selected_of(list).drop_last() =~= selected_of(shorter));
        }
        if forall|i: int|
            0 <= i < list.len() && (#[trigger] list[i]).selected ==> may_delete(
                list[i].target_path,
            ) {
            assert forall|i: int| 0 <= i < shorter.len() && (
            #[trigger] shorter[i]).selected implies may_delete(shorter[i].target_path) by {
                assert(list[i] == shorter[i]);
            }
            if w.selected {
                assert(list[list.len() - 1] == w);
            }
        }
    } else {
        assert(asked_of(list) =~= selected_of(list).filter(pred));
        assert(asked_of(list) =~= selected_of(list));
    }
}

/// Every workspace that a scan lists is asked for once it is selected.
pub proof fn what_a_scan_lists_is_asked_for(
    all: Seq<CandidateView>,
    targets: Seq<Option<u64>>,
    list: Seq<WorkspaceView>,
)
    requires
        targets.len() == roots_of(all).len(),
        forall|i: int|
            0 <= i < list.len() ==> by_size(workspaces_at(roots_of(all), targets)).contains(
                WorkspaceView { selected: false, ..#[trigger] list[i] },
            ),
    ensures
        asked_of(list) == selected_of(list),
        asked_of(list).len() == selected_of(list).len(),
{
    assert forall|i: int| 0 <= i < list.len() && (#[trigger] list[i]).selected implies may_delete(
        list[i].target_path,
    ) by {
        what_is_listed(all, targets, WorkspaceView { selected: false, ..list[i] });
    }
    the_selected_targets_are_asked_for(list);
}

/// The paths that are pending are the target paths of all selected workspaces that may be
/// deleted, in the order of the list and each as often as it stands there.
pub proof fn pending_are_all_that_are_selected(app: App, paths: Vec<FilePath>)
    requires
        call_ensures(App::pending_deletes, (&app,), paths),
    ensures
        path_texts(paths@) == app@.workspaces.filter(
            |w: WorkspaceView| w.selected && may_delete(w.target_path),
        ).map_values(|w: WorkspaceView| w.target_path),
        (forall|i: int|
            0 <= i < app@.workspaces.len() && (#[trigger] app@.workspaces[i]).selected
                ==> may_delete(app@.workspaces[i].target_path)) ==> paths@.len() == selected_of(
            app@.workspaces,
        ).len(),
{
    let list = app@.workspaces;
    same_filter(list);
    the_selected_targets_are_asked_for(list);
    assert(path_texts(paths@).len() == paths@.len());
    assert(path_texts(paths@) =~= list.filter(
        |w: WorkspaceView| w.selected && may_delete(w.target_path),
    ).map_values(|w: WorkspaceView| w.target_path));
}

proof fn same_filter(list: Seq<WorkspaceView>)
    ensures
        asked_of(list) == list.filter(
            |w: WorkspaceView| w.selected && may_delete(w.target_path),
        ),
    decreases list.len(),
{
    reveal(Seq::filter);
    if list.len() > 0 {
        same_filter(list.drop_last());
        assert(list.drop_last().push(list.last()) =~= list);
        one_more_may_be_asked_for(list.drop_last(), list.last());
    } else {
        assert(asked_of(list) =~= list.filter(
            |w: WorkspaceView| w.selected && may_delete(w.target_path),
        ));
    }
}

proof fn outcomes_grow(
    list: Seq<WorkspaceView>,
    removals: Seq<Result<(), Seq<char>>>,
    k: int,
)
    requires
        0 <= k <= list.len(),
    ensures
        outcomes_of(list.take(k), removals).is_prefix_of(outcomes_of(list, removals)),
        remaining(list.take(k), removals).is_prefix_of(remaining(list, removals)),
        outcomes_of(list.take(k), removals).len() == selected_of(list.take(k)).len(),
    decreases list.len() - k,
{
    selected_are_reported(list.take(k), removals);
    let outcomes = outcomes_of(list, removals);
    let left = remaining(list, removals);
    let a = outcomes_of(list.take(k), removals);
    let c = remaining(list.take(k), removals);
    if k < list.len() {
        outcomes_grow(list, removals, k + 1);
        assert(list.take(k + 1).drop_last() =~= list.take(k));
        let b = outcomes_of(list.take(k + 1), removals);
        let d = remaining(list.take(k + 1), removals);
        assert forall|i: int| 0 <= i < a.len() implies a[i] == outcomes[i] by {
            assert(b[i] == outcomes.subrange(0, b.len() as int)[i]);
        }
        assert(a =~= outcomes.subrange(0, a.len() as int));
        assert forall|i: int| 0 <= i < c.len() implies c[i] == left[i] by {
            assert(d[i] == left.subrange(0, d.len() as int)[i]);
        }
        assert(c =~= left.subrange(0, c.len() as int));
    } else {
        assert(list.take(k) =~= list);
        assert(a =~= outcomes.subrange(0, a.len() as int));
        assert(c =~= left.subrange(0, c.len() as int));
    }
}

proof fn selected_are_reported(
    list: Seq<WorkspaceView>,
    removals: Seq<Result<(), Seq<char>>>,
)
    ensures
        outcomes_of(list, removals).len() == selected_of(list).len(),
    decreases list.len(),
{
    reveal(Seq::filter);
    if list.len() > 0 {
        selected_are_reported(list.drop_last(), removals);
    }
}

/// Every selected workspace has its own outcome, in order, and that outcome has no error
/// just when the workspace was asked for and the answer of the file system for exactly
/// that workspace was Ok. Then its own size is what was freed, and otherwise nothing.
pub proof fn an_outcome_tells_its_own_answer(
    list: Seq<WorkspaceView>,
    removals: Seq<Result<(), Seq<char>>>,
    i: int,
)
    requires
        0 <= i < list.len(),
        list[i].selected,
        removals.len() == asked_of(list).len(),
    ensures
        ({
            let w = list[i];
            let outcome = outcomes_of(list, removals)[selected_of(list.take(i)).len() as int];
            let answer = removals[asked_of(list.take(i)).len() as int];
            &&& selected_of(list.take(i)).len() < outcomes_of(list, removals).len()
            &&& outcome.root == w.root
            &&& outcome.error is None <==> may_delete(w.target_path) && answer is Ok
            &&& outcome.error is None ==> outcome.freed == w.target_size
            &&& outcome.error is Some ==> outcome.freed == 0
            &&& outcome.error is None ==> asked_of(list.take(i)).len() < removals.len()
                && asked_of(list)[asked_of(list.take(i)).len() as int] == w
            &&& may_delete(w.target_path) && answer is Err ==> outcome.error == Some(
                "removing "@ + shown(w.target_path) + ": "@ + answer->Err_0,
            )
        }),
{
    reveal(Seq::filter);
    let now = list.take(i + 1);
    assert(now.drop_last() =~= list.take(i));
    outcomes_grow(list, removals, i + 1);
    outcomes_grow(list, removals, i);
    let some = outcomes_of(now, removals);
    let all = outcomes_of(list, removals);
    assert(some.last() == all.subrange(0, some.len() as int)[some.len() - 1]);
    asked_grow_by(list, i + 1);
    let asked = asked_of(now);
    if may_delete(list[i].target_path) {
        assert(asked.last() == list[i]);
        assert(asked.last() == asked_of(list).subrange(0, asked.len() as int)[asked.len() - 1]);
    }
}

proof fn asked_grow_by(list: Seq<WorkspaceView>, k: int)
    requires
        0 <= k <= list.len(),
    ensures
        asked_of(list.take(k)).is_prefix_of(asked_of(list)),
    decreases list.len() - k,
{
    reveal(Seq::filter);
    let a = asked_of(list.take(k));
    let all = asked_of(list);
    if k < list.len() {
        asked_grow_by(list, k + 1);
        assert(list.take(k + 1).drop_last() =~= list.take(k));
        let b = asked_of(list.take(k + 1));
        assert forall|i: int| 0 <= i < a.len() implies a[i] == all[i] by {
            assert(b[i] == all.subrange(0, b.len() as int)[i]);
        }
        assert(a =~= all.subrange(0, a.len() as int));
    } else {
        assert(list.take(k) =~= list);
        assert(a =~= all.subrange(0, a.len() as int));
    }
}

/// A workspace leaves the list just when it is selected, may be deleted and the answer
/// for exactly that workspace was Ok; every other one stays as it is, in its order.
pub proof fn only_what_was_removed_leaves_the_list(
    list: Seq<WorkspaceView>,
    removals: Seq<Result<(), Seq<char>>>,
    i: int,
)
    requires
        0 <= i < list.len(),
        removals.len() == asked_of(list).len(),
    ensures
        ({
            let w = list[i];
            let gone = w.selected && may_delete(w.target_path) && removals[asked_of(
                list.take(i),
            ).len() as int] is Ok;
            let before = remaining(list.take(i), removals).len() as int;
            let after = remaining(list.take(i + 1), removals).len() as int;
            &&& gone ==> after == before
            &&& !gone ==> after == before + 1 && before < remaining(list, removals).len()
                && remaining(list, removals)[before] == w
        }),
        remaining(list, removals).len() == remaining(list.take(list.len() as int), removals).len(),
        remaining(list.take(0), removals).len() == 0,
{
    let now = list.take(i + 1);
    assert(now.drop_last() =~= list.take(i));
    assert(list.take(list.len() as int) =~= list);
    assert(list.take(0) =~= Seq::empty());
    outcomes_grow(list, removals, i + 1);
    let some = remaining(now, removals);
    let all = remaining(list, removals);
    if some.len() > 0 {
        assert(some.last() == all.subrange(0, some.len() as int)[some.len() - 1]);
    }
}

/// Without a selection there is nothing to report, and the list stays as it is.
pub proof fn a_pass_over_nothing_changes_no_list(
    list: Seq<WorkspaceView>,
    removals: Seq<Result<(), Seq<char>>>,
)
    requires
        forall|i: int| 0 <= i < list.len() ==> !(#[trigger] list[i]).selected,
    ensures
        outcomes_of(list, removals).len() == 0,
        remaining(list, removals) == list,
    decreases list.len(),
{
    if list.len() > 0 {
        let shorter = list.drop_last();
        assert forall|i: int| 0 <= i < shorter.len() implies !(#[trigger] shorter[i]).selected by {
            assert(shorter[i] == list[i]);
        }
        a_pass_over_nothing_changes_no_list(shorter, removals);
        assert(list[list.len() - 1] == list.last());
        assert(shorter.push(list.last()) =~= list);
    } else {
        assert(remaining(list, removals) =~= list);
    }
}

/// What outcomes freed adds up, and those without an error are the ones that count as
/// done.
pub proof fn one_more_outcome(list: Seq<OutcomeView>, o: OutcomeView)
    ensures
        freed_by(list.push(o)) == freed_by(list) + o.freed,
        freed_by(Seq::empty()) == 0,
        o.error is None ==> successes(list.push(o)) == successes(list).push(o),
        o.error is Some ==> successes(list.push(o)) == successes(list),
        successes(Seq::empty()).len() == 0,
{
    reveal(Seq::filter);
    assert(list.push(o).drop_last() =~= list);
}

/// A deletion pass shows its outcomes, keeps the highlight where it is while there is
/// such an entry, and moves it to the last entry otherwise; the directory, the scan and
/// the spinner are left alone.
pub proof fn a_pass_keeps_the_rest(app: AppView, removals: Seq<Result<(), Seq<char>>>)
    requires
        app.valid(),
        app.workspaces.len() <= usize::MAX,
    ensures
        ({
            let after = app.purged(removals);
            let left = remaining(app.workspaces, removals);
            &&& after.workspaces == left
            &&& after.mode == ModeView::Results(outcomes_of(app.workspaces, removals))
            &&& after.start_dir == app.start_dir
            &&& after.scan_open == app.scan_open
            &&& after.spinner_frame == app.spinner_frame
            &&& left.len() == 0 ==> after.cursor == (ListCursor { selected: None, offset: 0 })
            &&& left.len() > 0 ==> after.cursor.offset == app.cursor.offset
            &&& app.cursor.selected matches Some(i) ==> i < left.len() ==> after.cursor == app.cursor
            &&& app.cursor.selected matches Some(i) ==> i >= left.len() > 0
                ==> after.cursor.selected == Some((left.len() - 1) as usize)
            &&& app.cursor.selected is None ==> after.cursor.selected is None
        }),
{
    purge_adds_up(app.workspaces, removals);
}

/// The status line after a pass gives the sum that was freed, the number of workspaces
/// it came from and the number of errors; it is an error just when there was one.
pub proof fn a_pass_says_what_it_freed(
    app: AppView,
    removals: Seq<Result<(), Seq<char>>>,
    done: nat,
    errors: nat,
    freed: u64,
)
    requires
        successes(outcomes_of(app.workspaces, removals)).len() == done,
        outcomes_of(app.workspaces, removals).len() == done + errors,
        freed_by(successes(outcomes_of(app.workspaces, removals))) == freed,
    ensures
        app.purged(removals).status_is_error == (errors > 0),
        errors == 0 ==> app.purged(removals).status == Some(
            "Freed "@ + size_shown(freed) + " across "@ + decimal(done) + " workspaces"@,
        ),
        errors == 1 ==> app.purged(removals).status == Some(
            "Freed "@ + size_shown(freed) + " across "@ + decimal(done) + " workspaces"@ + " ("@
                + decimal(1) + " error"@ + ""@ + ")"@,
        ),
        errors > 1 ==> app.purged(removals).status == Some(
            "Freed "@ + size_shown(freed) + " across "@ + decimal(done) + " workspaces"@ + " ("@
                + decimal(errors) + " error"@ + "s"@ + ")"@,
        ),
{
}

/// Whether `app` is changed by taking in `removals`.
pub open spec fn takes_in(app: &mut App, removals: Vec<Removal>) -> bool {
    call_ensures(App::run_delete, (app, &removals), ())
}

/// Taking in the answers of the file system leaves in the list what was not removed, and
/// reports as freed nothing that the file system did not remove.
pub proof fn nothing_is_freed_without_an_ok()
    ensures
        forall|app: &mut App, removals: Vec<Removal>| #[trigger]
            takes_in(app, removals) ==> {
                &&& (*app)@.workspaces.len() == final(app)@.workspaces.len() + successes(
                    outcomes_of((*app)@.workspaces, answers(removals@)),
                ).len()
                &&& final(app)@.mode == ModeView::Results(
                    outcomes_of((*app)@.workspaces, answers(removals@)),
                )
                &&& (forall|k: int| 0 <= k < removals@.len() ==> #[trigger] removals@[k] is Err)
                    && removals@.len() == asked_of((*app)@.workspaces).len()
                    ==> final(app)@.workspaces == (*app)@.workspaces
            },
{
    assert forall|app: &mut App, removals: Vec<Removal>| #[trigger] takes_in(app, removals) implies {
        &&& (*app)@.workspaces.len() == final(app)@.workspaces.len() + successes(
            outcomes_of((*app)@.workspaces, answers(removals@)),
        ).len()
        &&& final(app)@.mode == ModeView::Results(
            outcomes_of((*app)@.workspaces, answers(removals@)),
        )
        &&& (forall|k: int| 0 <= k < removals@.len() ==> #[trigger] removals@[k] is Err)
            && removals@.len() == asked_of((*app)@.workspaces).len() ==> final(app)@.workspaces
            == (*app)@.workspaces
    } by {
        let list = (*app)@.workspaces;
        let given = answers(removals@);
        purge_adds_up(list, given);
        if (forall|k: int| 0 <= k < removals@.len() ==> #[trigger] removals@[k] is Err)
            && removals@.len() == asked_of(list).len() {
            assert forall|k: int| 0 <= k < given.len() implies #[trigger] given[k] is Err by {
                assert(removals@[k] is Err);
            }
            all_err_keeps_all(list, given);
        }
    }
}

proof fn all_err_keeps_all(list: Seq<WorkspaceView>, removals: Seq<Result<(), Seq<char>>>)
    requires
        asked_of(list).len() <= removals.len(),
        forall|k: int| 0 <= k < removals.len() ==> #[trigger] removals[k] is Err,
    ensures
        remaining(list, removals) == list,
    decreases list.len(),
{
    reveal(Seq::filter);
    if list.len() > 0 {
        let shorter = list.drop_last();
        assert(shorter.push(list.last()) =~= list);
        one_more_may_be_asked_for(shorter, list.last());
        all_err_keeps_all(shorter, removals);
        if is_asked(list.last()) {
            assert(removals[asked_of(shorter).len() as int] is Err);
        }
    } else {
        assert(remaining(list, removals) =~= list);
    }
}

} // verus!
