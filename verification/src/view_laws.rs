//! What the views of values say: all that the values hold, for every value.

use vstd::prelude::*;

use crate::app::App;
use crate::app::ListCursor;
use crate::app::Mode;
use crate::app::ModeView;
use crate::delete::maybe_text;
use crate::delete::removal_view;
use crate::delete::reported;
use crate::delete::DeleteOutcome;
use crate::delete::OutcomeView;
use crate::delete::Removal;
use crate::path::FilePath;
use crate::poll::looks;
use crate::poll::Polled;
use crate::poll::PolledView;
use crate::purge::answers;
use crate::purge::path_texts;
use crate::scan::candidates;
use crate::scan::Candidate;
use crate::scan::CandidateView;
use crate::scan::ScanMsg;
use crate::scan::ScanMsgView;
use crate::screen::shown_lines;
use crate::screen::Body;
use crate::screen::BodyView;
use crate::screen::Fragment;
use crate::screen::Line;
use crate::screen::Popup;
use crate::start::words;
use crate::workspace::listed;
use crate::workspace::Workspace;
use crate::workspace::WorkspaceView;

verus! {

/// A path is seen as its bytes.
pub proof fn a_path_is_its_bytes(path: FilePath)
    ensures
        path@ == path.bytes@,
{
}

/// Two workspaces that look the same have the same paths, the same size and the same
/// selection.
pub proof fn a_workspace_is_seen_whole(a: Workspace, b: Workspace)
    ensures
        a@ == b@ <==> a.root.bytes@ == b.root.bytes@ && a.target_path.bytes@ == b.target_path.bytes@
            && a.target_size == b.target_size && a.selected == b.selected,
        a@ == (WorkspaceView {
            root: a.root.bytes@,
            target_path: a.target_path.bytes@,
            target_size: a.target_size,
            selected: a.selected,
        }),
{
}

/// Two candidates that look the same stand at the same path and declare the same.
pub proof fn a_candidate_is_seen_whole(a: Candidate, b: Candidate)
    ensures
        a@ == b@ <==> a.root.bytes@ == b.root.bytes@ && a.has_workspace == b.has_workspace
            && a.has_package == b.has_package,
        a@ == (CandidateView {
            root: a.root.bytes@,
            has_workspace: a.has_workspace,
            has_package: a.has_package,
        }),
{
}

/// A text that may be missing is seen just when it is there, in full.
pub proof fn a_text_is_seen_in_full(text: Option<String>)
    ensures
        text is Some <==> maybe_text(text) is Some,
        text matches Some(full) ==> maybe_text(text) == Some(full@),
{
}

/// Two outcomes that look the same have the same root, freed the same and have the same
/// error, or none.
pub proof fn an_outcome_is_seen_whole(a: DeleteOutcome, b: DeleteOutcome)
    ensures
        a@ == b@ ==> a.root.bytes@ == b.root.bytes@ && a.freed == b.freed && (a.error is None
            <==> b.error is None),
        a.error is None ==> a@ == (OutcomeView {
            root: a.root.bytes@,
            freed: a.freed,
            error: None,
        }),
        a.error matches Some(message) ==> a@ == (OutcomeView {
            root: a.root.bytes@,
            freed: a.freed,
            error: Some(message@),
        }),
{
}

/// An answer of the file system is an Ok just when it is seen as one, and its message is
/// seen in full.
pub proof fn an_answer_is_seen_whole(removal: Removal)
    ensures
        removal is Ok <==> removal_view(removal) is Ok,
        removal matches Err(cause) ==> removal_view(removal) == Err::<(), Seq<char>>(cause@),
{
}

/// A mode is seen as itself, with all its outcomes.
pub proof fn a_mode_is_seen_as_itself(mode: Mode)
    ensures
        mode is Scanning <==> mode@ is Scanning,
        mode is Browsing <==> mode@ is Browsing,
        mode is Confirm <==> mode@ is Confirm,
        mode is Results <==> mode@ is Results,
        mode matches Mode::Results(list) ==> (mode@ matches ModeView::Results(seen) && seen.len()
            == list@.len() && forall|i: int|
            0 <= i < list@.len() ==> seen[i] == (#[trigger] list@[i])@),
{
}

/// A message of a scan, and a look at its channel, are seen as themselves, with all that
/// they bring.
pub proof fn a_message_is_seen_as_itself(message: ScanMsg)
    ensures
        message is Done <==> message@ is Done,
        message matches ScanMsg::Error(text) ==> message@ == ScanMsgView::Error(text@),
        message matches ScanMsg::Batch(list) ==> (message@ matches ScanMsgView::Batch(seen)
            && seen.len() == list@.len() && forall|i: int|
            0 <= i < list@.len() ==> seen[i] == (#[trigger] list@[i])@),
        Polled::Message(message)@ == PolledView::Message(message@),
        Polled::Empty@ == PolledView::Empty,
        Polled::Disconnected@ == PolledView::Disconnected,
{
}

/// Lists are seen entry by entry, and none is left out, however long they are.
pub proof fn lists_are_seen_entry_by_entry(
    workspaces: Seq<Workspace>,
    found: Seq<Candidate>,
    outcomes: Seq<DeleteOutcome>,
    removals: Seq<Removal>,
    polled: Seq<Polled>,
    paths: Seq<FilePath>,
    args: Seq<String>,
    lines: Seq<Line>,
    i: int,
)
    ensures
        listed(workspaces).len() == workspaces.len(),
        0 <= i < workspaces.len() ==> listed(workspaces)[i] == workspaces[i]@,
        candidates(found).len() == found.len(),
        0 <= i < found.len() ==> candidates(found)[i] == found[i]@,
        reported(outcomes).len() == outcomes.len(),
        0 <= i < outcomes.len() ==> reported(outcomes)[i] == outcomes[i]@,
        answers(removals).len() == removals.len(),
        0 <= i < removals.len() ==> answers(removals)[i] == removal_view(removals[i]),
        looks(polled).len() == polled.len(),
        0 <= i < polled.len() ==> looks(polled)[i] == polled[i]@,
        path_texts(paths).len() == paths.len(),
        0 <= i < paths.len() ==> path_texts(paths)[i] == paths[i]@,
        words(args).len() == args.len(),
        0 <= i < args.len() ==> words(args)[i] == args[i]@,
        shown_lines(lines).len() == lines.len(),
        0 <= i < lines.len() ==> shown_lines(lines)[i] == lines[i]@,
{
}

/// A line is seen with all its fragments, each with its text and its tone.
pub proof fn a_line_is_seen_whole(line: Line, fragment: Fragment, i: int)
    ensures
        line@.len() == line.parts@.len(),
        0 <= i < line.parts@.len() ==> line@[i].text == line.parts@[i].text@ && line@[i].tone
            == line.parts@[i].tone,
        fragment@.text == fragment.text@,
        fragment@.tone == fragment.tone,
{
}

/// The body of the screen and a dialog are seen as themselves, with all their lines.
pub proof fn a_body_is_seen_as_itself(body: Body, popup: Popup)
    ensures
        body matches Body::Waiting(lines) ==> body@ == BodyView::Waiting(shown_lines(lines@)),
        body matches Body::Message(text) ==> body@ == BodyView::Message(text@),
        body matches Body::Rows(lines) ==> body@ == BodyView::Rows(shown_lines(lines@)),
        popup@.title == popup.title@,
        popup@.lines == shown_lines(popup.lines@),
        popup@.percent_x == popup.percent_x,
        popup@.percent_y == popup.percent_y,
{
}

/// What can be read of the application is its state.
pub proof fn the_state_can_be_read(
    app: App,
    mode: &Mode,
    list: &Vec<Workspace>,
    cursor: ListCursor,
    status: &Option<String>,
    is_error: bool,
    open: bool,
)
    requires
        call_ensures(App::mode, (&app,), mode),
        call_ensures(App::workspaces, (&app,), list),
        call_ensures(App::cursor, (&app,), cursor),
        call_ensures(App::status, (&app,), status),
        call_ensures(App::status_is_error, (&app,), is_error),
        call_ensures(App::scan_open, (&app,), open),
    ensures
        app@.mode == mode@,
        app@.workspaces == listed(list@),
        app@.cursor == cursor,
        app@.status == maybe_text(*status),
        app@.status_is_error == is_error,
        app@.scan_open == open,
{
}

/// The state of the application is seen field by field.
pub(crate) proof fn the_application_is_seen_whole(app: App)
    ensures
        app@.start_dir == app.start_dir.bytes@,
        app@.mode == app.mode@,
        app@.workspaces == listed(app.workspaces@),
        app@.cursor == app.cursor,
        app@.status == maybe_text(app.status),
        app@.status_is_error == app.status_is_error,
        app@.scan_open == app.scan_open,
        app@.spinner_frame == app.spinner_frame,
{
}

} // verus!
