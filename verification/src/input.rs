//! What keys and the passing of time do to the application.

use vstd::prelude::*;
use vstd::string::*;

use crate::app::App;
use crate::app::AppView;
use crate::app::Mode;
use crate::app::ModeView;
use crate::app::Position;
use crate::app::SPINNER_FRAMES;
use crate::keys::Input;
use crate::keys::Key;
use crate::keys::KeyPress;
use crate::workspace::selected_of;

verus! {

/// What the caller is to do after an event.
#[derive(Debug, Clone, Copy, PartialEq, Eq, Structural)]
pub enum Flow {
    /// Go on.
    Continue,
    /// Draw the screen at once, and go on.
    Redraw,
    /// Start a new scan, and go on.
    Rescan,
    /// Remove the pending deletes, take in the answers, and go on.
    Delete,
    /// Stop.
    Quit,
}

/// Milliseconds after which the screen is drawn again.
pub const DRAW_MILLIS: u64 = 100;

/// Milliseconds after which the spinner shows its next frame.
pub const SPIN_MILLIS: u64 = 120;

/// The number of entries that a page key moves over.
pub const PAGE: isize = 10;

impl AppView {
    /// What a key does to the list, whether or not a scan is running.
    pub open spec fn list_key(self, code: Key) -> (AppView, Flow) {
        if code == Key::Char('q') || code == Key::Char('Q') || code == Key::Esc {
            (self, Flow::Quit)
        } else if code == Key::Char('j') || code == Key::Down {
            (self.moved(1), Flow::Continue)
        } else if code == Key::Char('k') || code == Key::Up {
            (self.moved(-1), Flow::Continue)
        } else if code == Key::PageDown {
            (self.moved(10), Flow::Continue)
        } else if code == Key::PageUp {
            (self.moved(-10), Flow::Continue)
        } else if code == Key::Char('g') || code == Key::Home {
            (self.jumped(Position::First), Flow::Continue)
        } else if code == Key::Char('G') || code == Key::End {
            (self.jumped(Position::Last), Flow::Continue)
        } else if code == Key::Char(' ') {
            (self.toggled(), Flow::Continue)
        } else if code == Key::Char('a') || code == Key::Char('A') {
            (self.all_toggled(), Flow::Continue)
        } else if code == Key::Char('r') || code == Key::Char('R') {
            (self.rescanning(), Flow::Rescan)
        } else if code == Key::Char('d') || code == Key::Char('D') {
            if selected_of(self.workspaces).len() == 0 {
                (
                    self.saying("Nothing selected - use [space] to select workspaces"@, true),
                    Flow::Continue,
                )
            } else {
                (AppView { mode: ModeView::Confirm, ..self }, Flow::Continue)
            }
        } else {
            (self, Flow::Continue)
        }
    }

    /// What a key does to the confirmation dialog.
    pub open spec fn confirm_key(self, code: Key) -> (AppView, Flow) {
        if code == Key::Char('y') || code == Key::Char('Y') {
            (self, Flow::Delete)
        } else if code == Key::Char('n') || code == Key::Char('N') || code == Key::Esc {
            (
                AppView { mode: self.list_mode(), ..self.saying("Deletion cancelled"@, false) },
                Flow::Continue,
            )
        } else {
            (self, Flow::Continue)
        }
    }

    /// What a key does to the results popup.
    pub open spec fn results_key(self, code: Key) -> (AppView, Flow) {
        if code == Key::Enter || code == Key::Esc || code == Key::Char(' ') {
            (AppView { mode: self.list_mode(), ..self }, Flow::Continue)
        } else if code == Key::Char('r') || code == Key::Char('R') {
            (self.rescanning(), Flow::Rescan)
        } else if code == Key::Char('q') || code == Key::Char('Q') {
            (self, Flow::Quit)
        } else {
            (self, Flow::Continue)
        }
    }

    /// What a key does.
    pub open spec fn keyed(self, key: KeyPress) -> (AppView, Flow) {
        if key.interrupts() {
            (self, Flow::Quit)
        } else {
            match self.mode {
                ModeView::Scanning => self.list_key(key.code),
                ModeView::Browsing => self.list_key(key.code),
                ModeView::Confirm => self.confirm_key(key.code),
                ModeView::Results(_) => self.results_key(key.code),
            }
        }
    }

    /// What a report of the terminal does.
    pub open spec fn reported_input(self, input: Input) -> (AppView, Flow) {
        match input {
            Input::Key(key, pressed) => if pressed {
                self.keyed(key)
            } else {
                (self, Flow::Continue)
            },
            Input::Resize => (self, Flow::Redraw),
            Input::Other => (self, Flow::Continue),
        }
    }

    /// The state after a look at the clock, `millis` after the spinner last moved.
    pub open spec fn ticked(self, millis: u64) -> AppView {
        if self.mode is Scanning && millis >= SPIN_MILLIS {
            AppView {
                spinner_frame: ((self.spinner_frame + 1) % SPINNER_FRAMES as int) as usize,
                ..self
            }
        } else {
            self
        }
    }
}

impl App {
    /// Returns to the list.
    fn show_list(&mut self)
        requires
            old(self).wf(),
        ensures
            final(self)@ == (AppView { mode: old(self)@.list_mode(), ..old(self)@ }),
            final(self).wf(),
    {
        self.mode = if self.scan_open {
            Mode::Scanning
        } else {
            Mode::Browsing
        };
    }

    /// Handles a key in the list.
    fn handle_list_key(&mut self, code: Key) -> (flow: Flow)
        requires
            old(self).wf(),
        ensures
            (final(self)@, flow) == old(self)@.list_key(code),
            final(self).wf(),
    {
        match code {
            Key::Esc => return Flow::Quit,
            Key::Down => self.move_cursor(1),
            Key::Up => self.move_cursor(-1),
            Key::PageDown => self.move_cursor(PAGE),
            Key::PageUp => self.move_cursor(-PAGE),
            Key::Home => self.jump_to(Position::First),
            Key::End => self.jump_to(Position::Last),
            Key::Char(c) => {
                if c == 'q' || c == 'Q' {
                    return Flow::Quit;
                } else if c == 'j' {
                    self.move_cursor(1);
                } else if c == 'k' {
                    self.move_cursor(-1);
                } else if c == 'g' {
                    self.jump_to(Position::First);
                } else if c == 'G' {
                    self.jump_to(Position::Last);
                } else if c == ' ' {
                    self.toggle_current();
                } else if c == 'a' || c == 'A' {
                    self.select_all();
                } else if c == 'r' || c == 'R' {
                    self.begin_rescan();
                    return Flow::Rescan;
                } else if c == 'd' || c == 'D' {
                    if self.selected_count() == 0 {
                        self.status = Some(
                            "Nothing selected - use [space] to select workspaces".to_owned(),
                        );
                        self.status_is_error = true;
                    } else {
                        self.mode = Mode::Confirm;
                    }
                }
            },
            _ => {},
        }
        Flow::Continue
    }

    /// Handles a key in the confirmation dialog.
    fn handle_confirm_key(&mut self, code: Key) -> (flow: Flow)
        requires
            old(self).wf(),
        ensures
            (final(self)@, flow) == old(self)@.confirm_key(code),
            final(self).wf(),
    {
        let cancel = match code {
            Key::Char(c) => {
                if c == 'y' || c == 'Y' {
                    return Flow::Delete;
                }
                c == 'n' || c == 'N'
            },
            Key::Esc => true,
            _ => false,
        };
        if cancel {
            self.show_list();
            self.status = Some("Deletion cancelled".to_owned());
            self.status_is_error = false;
        }
        Flow::Continue
    }

    /// Handles a key in the results popup.
    fn handle_results_key(&mut self, code: Key) -> (flow: Flow)
        requires
            old(self).wf(),
        ensures
            (final(self)@, flow) == old(self)@.results_key(code),
            final(self).wf(),
    {
        match code {
            Key::Enter => self.show_list(),
            Key::Esc => self.show_list(),
            Key::Char(c) => {
                if c == ' ' {
                    self.show_list();
                } else if c == 'r' || c == 'R' {
                    self.begin_rescan();
                    return Flow::Rescan;
                } else if c == 'q' || c == 'Q' {
                    return Flow::Quit;
                }
            },
            _ => {},
        }
        Flow::Continue
    }

    /// Handles a key.
    pub fn handle_key(&mut self, key: KeyPress) -> (flow: Flow)
        requires
            old(self).wf(),
        ensures
            (final(self)@, flow) == old(self)@.keyed(key),
            final(self).wf(),
    {
        // Ctrl-C quits from any mode.
        if key.is_interrupt() {
            return Flow::Quit;
        }
        match &self.mode {
            Mode::Scanning => self.handle_list_key(key.code),
            Mode::Browsing => self.handle_list_key(key.code),
            Mode::Confirm => self.handle_confirm_key(key.code),
            Mode::Results(_) => self.handle_results_key(key.code),
        }
    }

    /// Handles a report of the terminal; of keys, only presses count.
    pub fn handle_input(&mut self, input: Input) -> (flow: Flow)
        requires
            old(self).wf(),
        ensures
            (final(self)@, flow) == old(self)@.reported_input(input),
            final(self).wf(),
    {
        match input {
            Input::Key(key, pressed) => if pressed {
                self.handle_key(key)
            } else {
                Flow::Continue
            },
            Input::Resize => Flow::Redraw,
            Input::Other => Flow::Continue,
        }
    }

    /// Moves the spinner if a scan is shown and `millis` have passed since it last
    /// moved; returns whether it did.
    pub fn tick(&mut self, millis: u64) -> (moved: bool)
        requires
            old(self).wf(),
        ensures
            final(self)@ == old(self)@.ticked(millis),
            final(self).wf(),
            moved == (old(self)@.mode is Scanning && millis >= SPIN_MILLIS),
    {
        let scanning = match &self.mode {
            Mode::Scanning => true,
            _ => false,
        };
        if scanning && millis >= SPIN_MILLIS {
            self.spinner_frame = (self.spinner_frame + 1) % SPINNER_FRAMES;
            return true;
        }
        false
    }
}

/// Whether the screen is to be drawn: the scan changed something, or `millis`
/// since the last time are enough.
pub fn draw_due(scan_changed: bool, millis: u64) -> (due: bool)
    ensures
        due == (scan_changed || millis >= DRAW_MILLIS),
{
    scan_changed || millis >= DRAW_MILLIS
}

} // verus!
