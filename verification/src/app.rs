//! The state of the application, and what each event does to it.

use vstd::prelude::*;
use vstd::string::*;

use crate::delete::freed_by;
use crate::delete::maybe_text;
use crate::delete::reported;
use crate::delete::successes;
use crate::delete::DeleteOutcome;
use crate::delete::OutcomeView;
use crate::path::shown;
use crate::path::FilePath;
use crate::workspace::largest_first;
use crate::workspace::listed;
use crate::workspace::selected_of;
use crate::workspace::total;
use crate::workspace::Workspace;
use crate::workspace::WorkspaceView;

verus! {

/// The number of frames of the spinner.
pub const SPINNER_FRAMES: usize = 4;

/// High-level mode of the app.
#[derive(Debug)]
pub enum Mode {
    /// Busy scanning; show a spinner.
    Scanning,
    /// Viewing the list of workspaces.
    Browsing,
    /// Confirming a deletion.
    Confirm,
    /// Showing the results of a deletion pass.
    Results(Vec<DeleteOutcome>),
}

/// A mode, with its outcomes as sequences.
#[verifier::ext_equal]
pub enum ModeView {
    Scanning,
    Browsing,
    Confirm,
    Results(Seq<OutcomeView>),
}

impl View for Mode {
    type V = ModeView;

    open spec fn view(&self) -> ModeView {
        match self {
            Mode::Scanning => ModeView::Scanning,
            Mode::Browsing => ModeView::Browsing,
            Mode::Confirm => ModeView::Confirm,
            Mode::Results(outcomes) => ModeView::Results(reported(outcomes@)),
        }
    }
}

/// Which entry of the list is highlighted, and which one is shown first.
#[derive(Debug, Clone, Copy)]
pub struct ListCursor {
    pub selected: Option<usize>,
    pub offset: usize,
}

/// The cursor with another entry highlighted. With none, the list is shown from
/// its beginning.
pub open spec fn pointed(cursor: ListCursor, index: Option<usize>) -> ListCursor {
    ListCursor {
        selected: index,
        offset: if index is None {
            0
        } else {
            cursor.offset
        },
    }
}

impl ListCursor {
    /// Highlights another entry.
    pub fn select(&mut self, index: Option<usize>)
        ensures
            *final(self) == pointed(*old(self), index),
    {
        self.selected = index;
        if index.is_none() {
            self.offset = 0;
        }
    }
}

/// An end of the list.
#[derive(Debug, Clone, Copy)]
pub enum Position {
    First,
    Last,
}

/// The application: the list of workspaces, what is highlighted and selected in
/// it, and what else the screen shows.
#[derive(Debug)]
pub struct App {
    pub(crate) start_dir: FilePath,
    pub(crate) mode: Mode,
    pub(crate) workspaces: Vec<Workspace>,
    pub(crate) cursor: ListCursor,
    pub(crate) status: Option<String>,
    pub(crate) status_is_error: bool,
    /// Whether a scan is running that may still send messages.
    pub(crate) scan_open: bool,
    pub(crate) spinner_frame: usize,
}

/// The state of the application, with its contents as sequences.
#[verifier::ext_equal]
pub struct AppView {
    pub start_dir: Seq<u8>,
    pub mode: ModeView,
    pub workspaces: Seq<WorkspaceView>,
    pub cursor: ListCursor,
    pub status: Option<Seq<char>>,
    pub status_is_error: bool,
    pub scan_open: bool,
    pub spinner_frame: usize,
}

impl View for App {
    type V = AppView;

    open(crate) spec fn view(&self) -> AppView {
        AppView {
            start_dir: self.start_dir@,
            mode: self.mode@,
            workspaces: listed(self.workspaces@),
            cursor: self.cursor,
            status: maybe_text(self.status),
            status_is_error: self.status_is_error,
            scan_open: self.scan_open,
            spinner_frame: self.spinner_frame,
        }
    }
}

impl AppView {
    /// What holds of the application at all times: the sizes add up to a number
    /// that fits, and so does what was freed, the largest come first, the
    /// highlighted entry exists, an entry is highlighted once the scan is over,
    /// and the list is in the mode that tells whether a scan is running.
    pub open spec fn valid(self) -> bool {
        &&& total(self.workspaces) <= u64::MAX
        &&& largest_first(self.workspaces)
        &&& self.cursor.selected matches Some(i) ==> i < self.workspaces.len()
        &&& !self.scan_open && self.workspaces.len() > 0 ==> self.cursor.selected is Some
        &&& self.mode is Scanning ==> self.scan_open
        &&& self.mode is Browsing ==> !self.scan_open
        &&& self.mode matches ModeView::Results(outcomes) ==> freed_by(successes(outcomes))
            <= u64::MAX
        &&& self.spinner_frame < SPINNER_FRAMES
    }

    /// The mode in which the list is shown.
    pub open spec fn list_mode(self) -> ModeView {
        if self.scan_open {
            ModeView::Scanning
        } else {
            ModeView::Browsing
        }
    }

    /// The state with another entry highlighted.
    pub open spec fn pointing(self, index: Option<usize>) -> AppView {
        AppView { cursor: pointed(self.cursor, index), ..self }
    }

    /// The state with another status line.
    pub open spec fn saying(self, text: Seq<char>, is_error: bool) -> AppView {
        AppView { status: Some(text), status_is_error: is_error, ..self }
    }

    /// The state at the start of a scan, before anything is found.
    pub open spec fn starting(start_dir: Seq<u8>) -> AppView {
        AppView {
            start_dir,
            mode: ModeView::Scanning,
            workspaces: Seq::empty(),
            cursor: ListCursor { selected: None, offset: 0 },
            status: Some("Scanning "@ + shown(start_dir) + "..."@),
            status_is_error: false,
            scan_open: true,
            spinner_frame: 0,
        }
    }

    /// The state after a new scan is begun: nothing is listed any more.
    pub open spec fn rescanning(self) -> AppView {
        AppView {
            mode: ModeView::Scanning,
            workspaces: Seq::empty(),
            cursor: pointed(self.cursor, None),
            scan_open: true,
            ..self.saying("Rescanning "@ + shown(self.start_dir) + "..."@, false)
        }
    }

    /// The state with the highlighted workspace selected, or no longer.
    pub open spec fn toggled(self) -> AppView {
        match self.cursor.selected {
            Some(i) => if i < self.workspaces.len() {
                let w = self.workspaces[i as int];
                AppView {
                    workspaces: self.workspaces.update(
                        i as int,
                        WorkspaceView { selected: !w.selected, ..w },
                    ),
                    ..self
                }
            } else {
                self
            },
            None => self,
        }
    }

    /// The state with every workspace selected, or none if they all were.
    pub open spec fn all_toggled(self) -> AppView {
        let select = exists|i: int|
            0 <= i < self.workspaces.len() && !(#[trigger] self.workspaces[i]).selected;
        AppView {
            workspaces: self.workspaces.map_values(
                |w: WorkspaceView| WorkspaceView { selected: select, ..w },
            ),
            ..self
        }
    }

    /// The state with the highlight moved by `delta` entries, but not past
    /// either end of the list.
    pub open spec fn moved(self, delta: int) -> AppView {
        if self.workspaces.len() == 0 {
            self.pointing(None)
        } else {
            let from: int = match self.cursor.selected {
                Some(i) => i as int,
                None => 0,
            };
            let to = from + delta;
            let last = self.workspaces.len() - 1;
            let kept = if to < 0 {
                0
            } else if to > last {
                last
            } else {
                to
            };
            self.pointing(Some(kept as usize))
        }
    }

    /// The state with the highlight at an end of the list.
    pub open spec fn jumped(self, to: Position) -> AppView {
        if self.workspaces.len() == 0 {
            self.pointing(None)
        } else {
            match to {
                Position::First => self.pointing(Some(0)),
                Position::Last => self.pointing(Some((self.workspaces.len() - 1) as usize)),
            }
        }
    }
}

impl App {
    /// Whether the application is in a state it can get into.
    pub open spec fn wf(&self) -> bool {
        self@.valid()
    }

    /// The application at the start of a scan of `start_dir`.
    pub fn new(start_dir: FilePath) -> (app: Self)
        ensures
            app@ == AppView::starting(start_dir@),
            app.wf(),
    {
        let mut status = "Scanning ".to_owned();
        status.append(start_dir.display().as_str());
        status.append("...");
        let app = App {
            start_dir,
            mode: Mode::Scanning,
            workspaces: Vec::new(),
            cursor: ListCursor { selected: None, offset: 0 },
            status: Some(status),
            status_is_error: false,
            scan_open: true,
            spinner_frame: 0,
        };
        assert(app@.workspaces =~= Seq::empty());
        app
    }

    /// What the screen is showing.
    pub fn mode(&self) -> (mode: &Mode)
        ensures
            mode@ == self@.mode,
    {
        &self.mode
    }

    /// The workspaces, in the order they are listed.
    pub fn workspaces(&self) -> (list: &Vec<Workspace>)
        ensures
            listed(list@) == self@.workspaces,
    {
        &self.workspaces
    }

    /// Which entry of the list is highlighted, and which one is shown first.
    pub fn cursor(&self) -> (cursor: ListCursor)
        ensures
            cursor == self@.cursor,
    {
        self.cursor
    }

    /// The message on the status line.
    pub fn status(&self) -> (status: &Option<String>)
        ensures
            maybe_text(*status) == self@.status,
    {
        &self.status
    }

    /// Whether the message on the status line is an error.
    pub fn status_is_error(&self) -> (is_error: bool)
        ensures
            is_error == self@.status_is_error,
    {
        self.status_is_error
    }

    /// Whether a scan is running that may still send messages.
    pub fn scan_open(&self) -> (open: bool)
        ensures
            open == self@.scan_open,
    {
        self.scan_open
    }

    /// Shows the list from another entry on.
    pub fn scroll_to(&mut self, offset: usize)
        requires
            old(self).wf(),
        ensures
            final(self)@ == (AppView {
                cursor: ListCursor { offset, ..old(self)@.cursor },
                ..old(self)@
            }),
            final(self).wf(),
    {
        self.cursor.offset = offset;
    }

    /// Starts over with an empty list; the caller starts the scan itself.
    pub fn begin_rescan(&mut self)
        requires
            old(self).wf(),
        ensures
            final(self)@ == old(self)@.rescanning(),
            final(self).wf(),
    {
        self.scan_open = true;
        self.mode = Mode::Scanning;
        self.workspaces.clear();
        self.cursor.select(None);
        let mut status = "Rescanning ".to_owned();
        status.append(self.start_dir.display().as_str());
        status.append("...");
        self.status = Some(status);
        self.status_is_error = false;
        assert(self@.workspaces =~= Seq::empty());
    }

    /// The number of selected workspaces.
    pub fn selected_count(&self) -> (count: usize)
        ensures
            count == selected_of(self@.workspaces).len(),
    {
        let ghost list = self@.workspaces;
        let mut count: usize = 0;
        let mut i: usize = 0;
        proof {
            reveal(Seq::filter);
            assert(list.take(0) =~= Seq::empty());
        }
        while i < self.workspaces.len()
            invariant
                list == listed(self.workspaces@),
                i <= list.len(),
                count == selected_of(list.take(i as int)).len(),
                count <= i,
            decreases list.len() - i,
        {
            proof {
                reveal(Seq::filter);
                assert(list.take(i + 1).drop_last() =~= list.take(i as int));
            }
            if self.workspaces[i].selected {
                count = count + 1;
            }
            i = i + 1;
        }
        assert(list.take(i as int) =~= list);
        count
    }

    /// The sum of the sizes of the selected workspaces.
    pub fn selected_size(&self) -> (size: u64)
        requires
            self.wf(),
        ensures
            size == total(selected_of(self@.workspaces)),
    {
        let ghost list = self@.workspaces;
        let mut size: u64 = 0;
        let mut i: usize = 0;
        proof {
            reveal(Seq::filter);
            assert(list.take(0) =~= Seq::empty());
        }
        while i < self.workspaces.len()
            invariant
                list == listed(self.workspaces@),
                total(list) <= u64::MAX,
                i <= list.len(),
                size == total(selected_of(list.take(i as int))),
            decreases list.len() - i,
        {
            proof {
                reveal(Seq::filter);
                let next = list.take(i + 1);
                assert(next.drop_last() =~= list.take(i as int));
                total_of_prefix(list, i + 1);
                total_of_selected(next);
                if next.last().selected {
                    assert(selected_of(next).drop_last() =~= selected_of(list.take(i as int)));
                }
            }
            if self.workspaces[i].selected {
                size = size + self.workspaces[i].target_size;
            }
            i = i + 1;
        }
        assert(list.take(i as int) =~= list);
        size
    }

    /// The sum of the sizes of all workspaces.
    pub fn total_size(&self) -> (size: u64)
        requires
            self.wf(),
        ensures
            size == total(self@.workspaces),
    {
        let ghost list = self@.workspaces;
        let mut size: u64 = 0;
        let mut i: usize = 0;
        assert(list.take(0) =~= Seq::empty());
        while i < self.workspaces.len()
            invariant
                list == listed(self.workspaces@),
                total(list) <= u64::MAX,
                i <= list.len(),
                size == total(list.take(i as int)),
            decreases list.len() - i,
        {
            proof {
                assert(list.take(i + 1).drop_last() =~= list.take(i as int));
                total_of_prefix(list, i + 1);
            }
            size = size + self.workspaces[i].target_size;
            i = i + 1;
        }
        assert(list.take(i as int) =~= list);
        size
    }

    /// Selects the highlighted workspace, or takes its selection back.
    pub fn toggle_current(&mut self)
        requires
            old(self).wf(),
        ensures
            final(self)@ == old(self)@.toggled(),
            final(self).wf(),
    {
        if let Some(i) = self.cursor.selected {
            if i < self.workspaces.len() {
                let selected = self.workspaces[i].selected;
                self.workspaces[i].selected = !selected;
                proof {
                    assert(self@.workspaces =~= old(self)@.toggled().workspaces);
                    total_by_sizes(old(self)@.workspaces, self@.workspaces);
                }
            }
        }
    }

    /// Selects all workspaces, or none if all were selected.
    pub fn select_all(&mut self)
        requires
            old(self).wf(),
        ensures
            final(self)@ == old(self)@.all_toggled(),
            final(self).wf(),
    {
        let ghost list = self@.workspaces;
        let mut any_unselected = false;
        let mut i: usize = 0;
        while i < self.workspaces.len()
            invariant
                list == listed(self.workspaces@),
                i <= list.len(),
                any_unselected == exists|k: int| 0 <= k < i && !(#[trigger] list[k]).selected,
            decreases list.len() - i,
        {
            assert(list[i as int].selected == self.workspaces@[i as int].selected);
            if !self.workspaces[i].selected {
                any_unselected = true;
            }
            i = i + 1;
        }
        let ghost wanted = old(self)@.all_toggled().workspaces;
        i = 0;
        while i < self.workspaces.len()
            invariant
                self@ == (AppView { workspaces: self@.workspaces, ..old(self)@ }),
                list == old(self)@.workspaces,
                wanted == list.map_values(
                    |w: WorkspaceView| WorkspaceView { selected: any_unselected, ..w },
                ),
                self@.workspaces.len() == list.len(),
                i <= list.len(),
                forall|k: int| 0 <= k < i ==> self@.workspaces[k] == #[trigger] wanted[k],
                forall|k: int| i <= k < list.len() ==> self@.workspaces[k] == #[trigger] list[k],
            decreases list.len() - i,
        {
            let ghost before = self@.workspaces;
            self.workspaces[i].selected = any_unselected;
            proof {
                assert(self@.workspaces =~= before.update(i as int, wanted[i as int]));
            }
            i = i + 1;
        }
        proof {
            assert(self@.workspaces =~= wanted);
            total_by_sizes(list, self@.workspaces);
        }
    }

    /// Moves the highlight by `delta` entries, but not past either end.
    pub fn move_cursor(&mut self, delta: isize)
        requires
            old(self).wf(),
        ensures
            final(self)@ == old(self)@.moved(delta as int),
            final(self).wf(),
    {
        if self.workspaces.is_empty() {
            self.cursor.select(None);
            return;
        }
        let last: i128 = (self.workspaces.len() - 1) as i128;
        let from: i128 = match self.cursor.selected {
            Some(i) => i as i128,
            None => 0,
        };
        let mut to: i128 = from + delta as i128;
        if to < 0 {
            to = 0;
        }
        if to > last {
            to = last;
        }
        self.cursor.select(Some(to as usize));
    }

    /// Moves the highlight to an end of the list.
    pub fn jump_to(&mut self, pos: Position)
        requires
            old(self).wf(),
        ensures
            final(self)@ == old(self)@.jumped(pos),
            final(self).wf(),
    {
        if self.workspaces.is_empty() {
            self.cursor.select(None);
            return;
        }
        match pos {
            Position::First => self.cursor.select(Some(0)),
            Position::Last => self.cursor.select(Some(self.workspaces.len() - 1)),
        }
    }
}

/// The first entries of a list weigh no more than all of it.
pub proof fn total_of_prefix(list: Seq<WorkspaceView>, k: int)
    requires
        0 <= k <= list.len(),
    ensures
        total(list.take(k)) <= total(list),
    decreases list.len() - k,
{
    if k < list.len() {
        assert(list.take(k + 1).drop_last() =~= list.take(k));
        total_of_prefix(list, k + 1);
    } else {
        assert(list.take(k) =~= list);
    }
}

/// The selected entries of a list weigh no more than all of it.
pub proof fn total_of_selected(list: Seq<WorkspaceView>)
    ensures
        total(selected_of(list)) <= total(list),
    decreases list.len(),
{
    reveal(Seq::filter);
    if list.len() > 0 {
        total_of_selected(list.drop_last());
        if list.last().selected {
            assert(selected_of(list).drop_last() =~= selected_of(list.drop_last()));
        }
    }
}

/// Only sizes count towards the total.
pub proof fn total_by_sizes(a: Seq<WorkspaceView>, b: Seq<WorkspaceView>)
    requires
        a.len() == b.len(),
        forall|k: int| 0 <= k < a.len() ==> (#[trigger] a[k]).target_size == b[k].target_size,
    ensures
        total(a) == total(b),
    decreases a.len(),
{
    if a.len() > 0 {
        assert(a.last().target_size == b.last().target_size);
        assert forall|k: int| 0 <= k < a.drop_last().len() implies (#[trigger] a.drop_last()[k]).target_size
            == b.drop_last()[k].target_size by {
            assert(a[k].target_size == b[k].target_size);
        }
        total_by_sizes(a.drop_last(), b.drop_last());
    }
}

} // verus!
