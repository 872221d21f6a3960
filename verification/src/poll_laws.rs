//! What holds of every scan that is taken in, in whatever state it is.

use vstd::prelude::*;

use crate::app::App;
use crate::app::AppView;
use crate::app::ListCursor;
use crate::app::ModeView;
use crate::laws::chunks_make_no_difference;
use crate::path::shown;
use crate::poll::brought;
use crate::poll::looks;
use crate::poll::total_of_both;
use crate::poll::Polled;
use crate::poll::PolledView;
use crate::scan::ScanMsg;
use crate::scan::ScanMsgView;
use crate::text::decimal;
use crate::text::size_shown;
use crate::workspace::by_size;
use crate::workspace::by_size_is_a_stable_sort;
use crate::workspace::by_size_is_the_only_one;
use crate::workspace::largest_first;
use crate::workspace::total;
use crate::workspace::WorkspaceView;

verus! {

/// Whether a look ends the scan: it is done, or it is gone.
pub open spec fn ends_scan(look: PolledView) -> bool {
    look is Disconnected || look == PolledView::Message(ScanMsgView::Done)
}

/// The workspaces that some looks bring one after the other, up to the first look that
/// finds nothing waiting or ends the scan.
pub open spec fn sent(list: Seq<PolledView>) -> Seq<WorkspaceView>
    decreases list.len(),
{
    if list.len() == 0 || list[0] is Empty || ends_scan(list[0]) {
        Seq::empty()
    } else if let PolledView::Message(ScanMsgView::Batch(batch)) = list[0] {
        batch + sent(list.drop_first())
    } else {
        sent(list.drop_first())
    }
}

/// Whether a look that ends the scan comes before one that finds nothing waiting.
pub open spec fn scan_ends(list: Seq<PolledView>) -> bool
    decreases list.len(),
{
    if list.len() == 0 || list[0] is Empty {
        false
    } else {
        ends_scan(list[0]) || scan_ends(list.drop_first())
    }
}

/// A chunk is added to the list in every state, and changes nothing else.
pub proof fn a_chunk_is_always_taken_in(
    app: AppView,
    batch: Seq<WorkspaceView>,
    rest: Seq<PolledView>,
)
    ensures
        app.polled(seq![PolledView::Message(ScanMsgView::Batch(batch))] + rest) == (AppView {
            workspaces: by_size(app.workspaces + batch),
            ..app
        }).polled(rest),
{
    let all = seq![PolledView::Message(ScanMsgView::Batch(batch))] + rest;
    assert(all.drop_first() =~= rest);
    assert(all[0] == PolledView::Message(ScanMsgView::Batch(batch)));
}

/// An error is put on the status line in every state, and changes nothing else.
pub proof fn an_error_is_always_told(app: AppView, message: Seq<char>, rest: Seq<PolledView>)
    ensures
        app.polled(seq![PolledView::Message(ScanMsgView::Error(message))] + rest) == (AppView {
            status: Some("Scan error: "@ + message),
            status_is_error: true,
            ..app
        }).polled(rest),
{
    let all = seq![PolledView::Message(ScanMsgView::Error(message))] + rest;
    assert(all.drop_first() =~= rest);
    assert(all[0] == PolledView::Message(ScanMsgView::Error(message)));
}

/// Where nothing is waiting, nothing changes, and what comes later is not looked at.
pub proof fn nothing_waiting_changes_nothing(app: AppView, rest: Seq<PolledView>)
    ensures
        app.polled(Seq::empty()) == app,
        app.polled(seq![PolledView::Empty] + rest) == app,
{
    assert((seq![PolledView::Empty] + rest)[0] == PolledView::Empty);
}

/// The end of a scan does the same whether it is told or the scan is gone, and nothing
/// that comes after it counts.
pub proof fn either_end_is_the_end(app: AppView, rest: Seq<PolledView>)
    ensures
        app.polled(seq![PolledView::Disconnected] + rest) == app.polled(
            seq![PolledView::Disconnected],
        ),
        app.polled(seq![PolledView::Message(ScanMsgView::Done)] + rest) == app.polled(
            seq![PolledView::Disconnected],
        ),
{
    assert((seq![PolledView::Disconnected] + rest)[0] == PolledView::Disconnected);
    assert((seq![PolledView::Message(ScanMsgView::Done)] + rest)[0] == PolledView::Message(
        ScanMsgView::Done,
    ));
}

/// The end of a scan keeps the list, the directory and the spinner in every state. It
/// highlights the first entry where none was and there is one, shows the list where the
/// scan was shown, and gives the sum on the status line unless an error is there.
pub proof fn the_end_of_a_scan(app: AppView, size: u64)
    requires
        total(app.workspaces) == size,
    ensures
        ({
            let over = app.polled(seq![PolledView::Disconnected]);
            &&& over.workspaces == app.workspaces
            &&& over.start_dir == app.start_dir
            &&& over.spinner_frame == app.spinner_frame
            &&& !over.scan_open
            &&& over.status_is_error == app.status_is_error
            &&& app.cursor.selected is Some || app.workspaces.len() == 0 ==> over.cursor
                == app.cursor
            &&& app.cursor.selected is None && app.workspaces.len() > 0 ==> over.cursor == (
            ListCursor { selected: Some(0), offset: app.cursor.offset })
            &&& app.mode is Scanning ==> over.mode is Browsing
            &&& app.mode !is Scanning ==> over.mode == app.mode
            &&& app.status_is_error ==> over.status == app.status
            &&& !app.status_is_error && app.workspaces.len() == 0 ==> over.status == Some(
                "No reclaimable target/ directories under "@ + shown(app.start_dir),
            )
            &&& !app.status_is_error && app.workspaces.len() > 0 ==> over.status == Some(
                "Found "@ + decimal(app.workspaces.len()) + " workspaces ("@ + size_shown(size)
                    + " total)"@,
            )
        }),
{
    let end = seq![PolledView::Disconnected];
    assert(end[0] == PolledView::Disconnected);
    assert(app.polled(end) == app.scan_over());
}

proof fn a_sorted_list_stays(list: Seq<WorkspaceView>)
    requires
        largest_first(list),
    ensures
        by_size(list) == list,
{
    by_size_is_the_only_one(list, list);
}

/// After a poll the list holds what was in it and everything that was sent, largest
/// first, whatever the state was; the directory and the spinner stay as they are, and the
/// scan is over just when a look ended it.
pub proof fn the_list_holds_all_that_was_sent(app: AppView, list: Seq<PolledView>)
    requires
        largest_first(app.workspaces),
        app.scan_open,
    ensures
        app.polled(list).workspaces == by_size(app.workspaces + sent(list)),
        app.polled(list).start_dir == app.start_dir,
        app.polled(list).spinner_frame == app.spinner_frame,
        app.polled(list).scan_open == !scan_ends(list),
        app.mode !is Scanning ==> app.polled(list).mode == app.mode,
        app.mode is Scanning ==> app.polled(list).mode == (if scan_ends(list) {
            ModeView::Browsing
        } else {
            ModeView::Scanning
        }),
        app.cursor.selected is Some ==> app.polled(list).cursor == app.cursor,
        app.cursor.selected is None ==> app.polled(list).cursor.selected == (if scan_ends(list)
            && app.workspaces.len() + sent(list).len() > 0 {
            Some(0usize)
        } else {
            None
        }),
        app.polled(list).cursor.offset == app.cursor.offset,
    decreases list.len(),
{
    let none = Seq::<WorkspaceView>::empty();
    if list.len() == 0 || list[0] is Empty || ends_scan(list[0]) {
        assert(app.workspaces + none =~= app.workspaces);
        a_sorted_list_stays(app.workspaces);
    } else if let PolledView::Message(ScanMsgView::Batch(batch)) = list[0] {
        let rest = list.drop_first();
        let next = app.with_batch(batch);
        by_size_is_a_stable_sort(app.workspaces + batch);
        the_list_holds_all_that_was_sent(next, rest);
        chunks_make_no_difference(app, batch, sent(rest));
        assert(app.with_batch(batch).with_batch(sent(rest)).workspaces == by_size(
            next.workspaces + sent(rest),
        ));
        assert(next.workspaces.len() == app.workspaces.len() + batch.len());
    } else {
        let rest = list.drop_first();
        let message = list[0]->Message_0->Error_0;
        let next = app.saying("Scan error: "@ + message, true);
        the_list_holds_all_that_was_sent(next, rest);
    }
}

/// A chunk and the end of the scan put that chunk into the list in every state in which a
/// scan is running, and show the sum.
pub proof fn a_scan_is_taken_in_in_every_state(app: AppView, found: Seq<WorkspaceView>)
    requires
        largest_first(app.workspaces),
        app.scan_open,
    ensures
        app.polled(
            seq![
                PolledView::Message(ScanMsgView::Batch(found)),
                PolledView::Message(ScanMsgView::Done),
            ],
        ).workspaces == by_size(app.workspaces + found),
{
    let done = seq![PolledView::Message(ScanMsgView::Done)];
    let all = seq![PolledView::Message(ScanMsgView::Batch(found))] + done;
    assert(all =~= seq![
        PolledView::Message(ScanMsgView::Batch(found)),
        PolledView::Message(ScanMsgView::Done),
    ]);
    a_chunk_is_always_taken_in(app, found, done);
    either_end_is_the_end(
        AppView { workspaces: by_size(app.workspaces + found), ..app },
        Seq::empty(),
    );
    assert(done + Seq::<PolledView>::empty() =~= done);
    by_size_is_a_stable_sort(app.workspaces + found);
    the_list_holds_all_that_was_sent(app, all);
    reveal_with_fuel(sent, 3);
    assert(all.drop_first() =~= done);
    assert(done[0] == PolledView::Message(ScanMsgView::Done));
    assert(sent(all) =~= found);
}

/// Two states that differ in nothing but the spinner take in the same list.
pub proof fn the_spinner_makes_no_difference(app: AppView, other: usize, list: Seq<PolledView>)
    requires
        largest_first(app.workspaces),
        app.scan_open,
    ensures
        (AppView { spinner_frame: other, ..app }).polled(list).workspaces == app.polled(
            list,
        ).workspaces,
{
    the_list_holds_all_that_was_sent(app, list);
    the_list_holds_all_that_was_sent(AppView { spinner_frame: other, ..app }, list);
}

/// Whether a poll of `received` changes `app` and answers `changed`.
pub open spec fn polls(app: &mut App, received: Vec<Polled>, changed: bool) -> bool {
    call_ensures(App::poll_scan, (app, received), changed)
}

/// A poll of a running scan leaves in the list what was in it and all that was sent, and
/// says that something changed unless nothing was waiting. With no scan running nothing
/// changes.
pub proof fn a_poll_takes_in_what_was_sent()
    ensures
        forall|app: &mut App, received: Vec<Polled>, changed: bool| #[trigger]
            polls(app, received, changed) ==> {
                &&& !(*app)@.scan_open ==> final(app)@ == (*app)@ && !changed
                &&& (*app)@.scan_open && largest_first((*app)@.workspaces) ==> {
                    &&& final(app)@.workspaces == by_size(
                        (*app)@.workspaces + sent(looks(received@)),
                    )
                    &&& changed <==> received@.len() > 0 && received@[0] !is Empty
                    &&& !changed ==> final(app)@ == (*app)@
                }
            },
{
    assert forall|app: &mut App, received: Vec<Polled>, changed: bool| #[trigger]
        polls(app, received, changed) implies {
        &&& !(*app)@.scan_open ==> final(app)@ == (*app)@ && !changed
        &&& (*app)@.scan_open && largest_first((*app)@.workspaces) ==> {
            &&& final(app)@.workspaces == by_size((*app)@.workspaces + sent(looks(received@)))
            &&& changed <==> received@.len() > 0 && received@[0] !is Empty
            &&& !changed ==> final(app)@ == (*app)@
        }
    } by {
        let list = looks(received@);
        if (*app)@.scan_open && largest_first((*app)@.workspaces) {
            the_list_holds_all_that_was_sent((*app)@, list);
            if list.len() > 0 {
                assert(list[0] == received@[0]@);
            }
        }
    }
}

/// The sizes that looks bring are those of all workspaces that they send.
pub proof fn what_is_brought_is_what_was_sent(list: Seq<PolledView>)
    ensures
        brought(list) == total(sent(list)),
    decreases list.len(),
{
    if list.len() > 0 && !(list[0] is Empty) && !ends_scan(list[0]) {
        let rest = list.drop_first();
        what_is_brought_is_what_was_sent(rest);
        if let PolledView::Message(ScanMsgView::Batch(batch)) = list[0] {
            total_of_both(batch, sent(rest));
        }
    }
}

/// A poll can be taken in just when what is listed and what is sent weigh together no
/// more than fits.
pub proof fn a_poll_fits_when_its_sizes_do(app: App, list: Vec<Polled>, fits: bool)
    requires
        call_ensures(App::can_poll, (&app, &list), fits),
    ensures
        fits <==> total(app@.workspaces + sent(looks(list@))) <= u64::MAX,
{
    what_is_brought_is_what_was_sent(looks(list@));
    total_of_both(app@.workspaces, sent(looks(list@)));
}

/// The channel is looked at again only after a chunk or an error.
pub proof fn looking_stops_where_nothing_can_come(look: Polled, ends: bool)
    requires
        call_ensures(Polled::ends_poll, (&look,), ends),
    ensures
        ends <==> {
            ||| look is Empty
            ||| look is Disconnected
            ||| look matches Polled::Message(ScanMsg::Done)
        },
{
}

} // verus!
