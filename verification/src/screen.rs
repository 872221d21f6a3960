//! What the screen shows: texts, and the tone each of them is shown in.

use vstd::prelude::*;
use vstd::string::*;
use vstd::utf8::decode_utf8;
use vstd::utf8::encode_utf8;
use vstd::utf8::encode_utf8_decode_utf8;
use vstd::utf8::encode_utf8_valid_utf8;
use vstd::utf8::is_ascii_chars;
use vstd::utf8::is_ascii_chars_encode_utf8;
use vstd::utf8::is_char_boundary;
use vstd::utf8::is_char_boundary_iff_is_leading_byte;

use crate::app::total_of_selected;
use crate::app::App;
use crate::app::AppView;
use crate::app::Mode;
use crate::app::ModeView;
use crate::delete::freed_by;
use crate::delete::reported;
use crate::delete::successes;
use crate::delete::DeleteOutcome;
use crate::delete::OutcomeView;
use crate::path::shown;
use crate::purge::count_successes;
use crate::text::decimal;
use crate::text::pad_left;
use crate::text::pad_right;
use crate::text::padded_left;
use crate::text::padded_right;
use crate::text::plural;
use crate::text::plural_of;
use crate::text::push_decimal;
use crate::text::size_shown;
use crate::text::size_text;
use crate::workspace::listed;
use crate::workspace::selected_of;
use crate::workspace::total;
use crate::workspace::Workspace;
use crate::workspace::WorkspaceView;

verus! {

/// The manner in which a text is shown.
#[derive(Debug, Clone, Copy, PartialEq, Eq)]
pub enum Tone {
    /// As any text.
    Plain,
    /// Standing out.
    Strong,
    /// As the header of the screen.
    Header,
    /// Of a selected entry.
    Checked,
    /// In the background.
    Faint,
    /// To be noticed.
    Accent,
    /// As the status line.
    Status,
    /// As the status line, of an error.
    Alarm,
    /// Of a success.
    Good,
    /// Of a failure.
    Bad,
}

/// A text and its tone.
#[derive(Debug)]
pub struct Fragment {
    pub text: String,
    pub tone: Tone,
}

/// A text and its tone, the text as a sequence.
#[verifier::ext_equal]
pub struct FragmentView {
    pub text: Seq<char>,
    pub tone: Tone,
}

impl View for Fragment {
    type V = FragmentView;

    open spec fn view(&self) -> FragmentView {
        FragmentView { text: self.text@, tone: self.tone }
    }
}

/// A line of the screen.
#[derive(Debug)]
pub struct Line {
    pub parts: Vec<Fragment>,
}

impl View for Line {
    type V = Seq<FragmentView>;

    open spec fn view(&self) -> Seq<FragmentView> {
        self.parts@.map_values(|f: Fragment| f@)
    }
}

/// The views of some lines.
pub open spec fn shown_lines(lines: Seq<Line>) -> Seq<Seq<FragmentView>> {
    lines.map_values(|l: Line| l@)
}

/// A line of one fragment.
pub open spec fn single(text: Seq<char>, tone: Tone) -> Seq<FragmentView> {
    seq![FragmentView { text, tone }]
}

/// An empty line.
pub open spec fn blank() -> Seq<FragmentView> {
    Seq::empty()
}

/// Appends a line of one fragment.
fn push_line(lines: &mut Vec<Line>, text: String, tone: Tone)
    ensures
        shown_lines(final(lines)@) == shown_lines(old(lines)@).push(single(text@, tone)),
{
    let ghost wanted = single(text@, tone);
    let mut parts: Vec<Fragment> = Vec::new();
    parts.push(Fragment { text, tone });
    let line = Line { parts };
    proof {
        assert(line@ =~= wanted);
        assert(shown_lines(lines@.push(line)) =~= shown_lines(lines@).push(wanted));
    }
    lines.push(line);
}

/// Appends an empty line.
fn push_blank(lines: &mut Vec<Line>)
    ensures
        shown_lines(final(lines)@) == shown_lines(old(lines)@).push(blank()),
{
    let line = Line { parts: Vec::new() };
    proof {
        assert(line@ =~= blank());
        assert(shown_lines(lines@.push(line)) =~= shown_lines(lines@).push(blank()));
    }
    lines.push(line);
}

/// The frame of the spinner at an index.
pub open spec fn spinner_at(frame: int) -> Seq<char> {
    if frame == 0 {
        "|"@
    } else if frame == 1 {
        "/"@
    } else if frame == 2 {
        "-"@
    } else {
        "\\"@
    }
}

/// The cells that the borders of the list take.
pub const BORDERS: u16 = 2;

/// The cells that the highlight symbol of the list takes.
pub const HIGHLIGHT: usize = 2;

/// The cells that the checkbox of an entry takes.
pub const CHECKBOX: usize = 4;

/// The cells that the size of an entry takes.
pub const SIZE_COLUMN: usize = 12;

/// The cells that are left free in a line of the list.
pub const GUTTER: usize = 2;

/// The cells that the path of an entry has at least.
pub const LEAST_PATH: usize = 10;

/// The width of the column for paths, where the list is `width` cells wide: what
/// everything else in a line leaves, but at least `LEAST_PATH`.
pub open spec fn path_column(width: int) -> int {
    let left = width - BORDERS - HIGHLIGHT - CHECKBOX - SIZE_COLUMN - GUTTER;
    if left < LEAST_PATH {
        LEAST_PATH as int
    } else {
        left
    }
}

/// The byte at which a text that is too long for `width` cells is cut.
pub open spec fn cut_at(text: Seq<char>, width: int) -> int {
    encode_utf8(text).len() - (width - 3)
}

/// Whether a text can be brought to `width` cells: it is short enough, or the cut
/// falls between two characters.
pub open spec fn can_cut(text: Seq<char>, width: int) -> bool {
    encode_utf8(text).len() > width ==> is_char_boundary(encode_utf8(text), cut_at(text, width))
}

/// A text brought to `width` cells: one that takes more bytes loses its beginning.
pub open spec fn cut_to(text: Seq<char>, width: int) -> Seq<char> {
    if encode_utf8(text).len() > width {
        "..."@ + decode_utf8(
            encode_utf8(text).subrange(cut_at(text, width), encode_utf8(text).len() as int),
        )
    } else {
        text
    }
}

/// The line for a workspace in a list with `column` cells for its path.
pub open spec fn row_of(w: WorkspaceView, column: int) -> Seq<FragmentView> {
    seq![
        FragmentView {
            text: if w.selected {
                "[x] "@
            } else {
                "[ ] "@
            },
            tone: if w.selected {
                Tone::Checked
            } else {
                Tone::Faint
            },
        },
        FragmentView {
            text: padded_right(cut_to(shown(w.root), column), column as nat) + " "@,
            tone: Tone::Plain,
        },
        FragmentView { text: padded_left(size_shown(w.target_size), SIZE_COLUMN as nat), tone: Tone::Accent },
    ]
}

/// What the body of the screen shows.
#[derive(Debug)]
pub enum Body {
    /// That a scan is running and has found nothing yet.
    Waiting(Vec<Line>),
    /// That nothing is there.
    Message(String),
    /// The list of workspaces.
    Rows(Vec<Line>),
}

/// What the body of the screen shows, as sequences.
pub enum BodyView {
    Waiting(Seq<Seq<FragmentView>>),
    Message(Seq<char>),
    Rows(Seq<Seq<FragmentView>>),
}

impl View for Body {
    type V = BodyView;

    open spec fn view(&self) -> BodyView {
        match self {
            Body::Waiting(lines) => BodyView::Waiting(shown_lines(lines@)),
            Body::Message(text) => BodyView::Message(text@),
            Body::Rows(rows) => BodyView::Rows(shown_lines(rows@)),
        }
    }
}

impl BodyView {
    /// The title of the box around the body.
    pub open spec fn box_title(self) -> Seq<char> {
        match self {
            BodyView::Waiting(_) => " Please wait "@,
            _ => " Workspaces "@,
        }
    }
}

impl Body {
    /// The title of the box around the body.
    pub fn title(&self) -> (title: &'static str)
        ensures
            title@ == self@.box_title(),
    {
        match self {
            Body::Waiting(_) => " Please wait ",
            _ => " Workspaces ",
        }
    }
}

/// A dialog over the rest of the screen.
#[derive(Debug)]
pub struct Popup {
    pub title: &'static str,
    pub lines: Vec<Line>,
    /// The hundredths of the screen that it takes in either direction.
    pub percent_x: u16,
    pub percent_y: u16,
}

/// A dialog, with its contents as sequences.
#[verifier::ext_equal]
pub struct PopupView {
    pub title: Seq<char>,
    pub lines: Seq<Seq<FragmentView>>,
    pub percent_x: u16,
    pub percent_y: u16,
}

impl View for Popup {
    type V = PopupView;

    open spec fn view(&self) -> PopupView {
        PopupView {
            title: self.title@,
            lines: shown_lines(self.lines@),
            percent_x: self.percent_x,
            percent_y: self.percent_y,
        }
    }
}

/// A path that is all ASCII can be shown at any width, and takes exactly the cells
/// of its column and the one after it, so that the sizes stand under each other.
pub proof fn ascii_paths_line_up(w: WorkspaceView, width: u16)
    requires
        is_ascii_chars(shown(w.root)),
    ensures
        can_cut(shown(w.root), path_column(width as int)),
        row_of(w, path_column(width as int))[1].text.len() == path_column(width as int) + 1,
{
    let text = shown(w.root);
    let column = path_column(width as int);
    let bytes = encode_utf8(text);
    is_ascii_chars_encode_utf8(text);
    reveal_strlit("...");
    reveal_strlit(" ");
    if bytes.len() > column {
        let at = cut_at(text, column);
        let rest = text.subrange(at, text.len() as int);
        encode_utf8_valid_utf8(text);
        assert(bytes[at] < 0x80) by {
            assert((text[at] as u8) as u32 == text[at] as u32);
        }
        is_char_boundary_iff_is_leading_byte(bytes, at);
        assert(is_ascii_chars(rest));
        is_ascii_chars_encode_utf8(rest);
        assert(encode_utf8(rest) =~= bytes.subrange(at, bytes.len() as int));
        encode_utf8_decode_utf8(rest);
    }
}

/// The lines of the confirmation dialog.
pub open spec fn confirm_lines(list: Seq<WorkspaceView>) -> Seq<Seq<FragmentView>> {
    let count = selected_of(list).len();
    seq![
        blank(),
        single(
            "  Delete "@ + decimal(count) + " workspace"@ + plural_of(count) + ", freeing "@
                + size_shown(total(selected_of(list)) as u64) + "?"@,
            Tone::Strong,
        ),
        blank(),
        single("  This will permanently remove the target/ directory in each."@, Tone::Plain),
        blank(),
        single("  [y] yes    [n]/Esc cancel"@, Tone::Accent),
    ]
}

/// The line that reports an outcome.
pub open spec fn outcome_line(o: OutcomeView) -> Seq<FragmentView> {
    match o.error {
        None => seq![
            FragmentView { text: "  [OK ] "@, tone: Tone::Good },
            FragmentView {
                text: shown(o.root) + " - "@ + "freed "@ + size_shown(o.freed),
                tone: Tone::Plain,
            },
        ],
        Some(error) => seq![
            FragmentView { text: "  [ERR] "@, tone: Tone::Bad },
            FragmentView { text: shown(o.root) + " - "@ + error, tone: Tone::Plain },
        ],
    }
}

/// The lines of the results popup.
pub open spec fn results_lines(outcomes: Seq<OutcomeView>) -> Seq<Seq<FragmentView>> {
    let done = successes(outcomes);
    let errors = (outcomes.len() - done.len()) as nat;
    seq![
        blank(),
        single(
            "  Deletion complete: "@ + decimal(done.len()) + " ok, "@ + decimal(errors)
                + " error"@ + plural_of(errors) + ", freed "@ + size_shown(freed_by(done) as u64),
            Tone::Strong,
        ),
        blank(),
    ] + outcomes.map_values(|o: OutcomeView| outcome_line(o)) + seq![
        blank(),
        single("  [Enter/Esc] dismiss   [r] rescan"@, Tone::Accent),
    ]
}

impl AppView {
    /// The text of the header.
    pub open spec fn header(self) -> Seq<char> {
        " cargo-wipe  -  root: "@ + shown(self.start_dir) + "  -  "@ + decimal(
            self.workspaces.len(),
        ) + " workspaces  -  "@ + size_shown(total(self.workspaces) as u64) + " total "@
    }

    /// Whether every path of the list can be brought to the width of its column.
    pub open spec fn can_show(self, width: u16) -> bool {
        forall|i: int|
            0 <= i < self.workspaces.len() ==> can_cut(
                shown(#[trigger] self.workspaces[i].root),
                path_column(width as int),
            )
    }

    /// What the body of the screen shows, where it is `width` cells wide.
    pub open spec fn body(self, width: u16) -> BodyView {
        if self.workspaces.len() > 0 {
            BodyView::Rows(
                self.workspaces.map_values(
                    |w: WorkspaceView| row_of(w, path_column(width as int)),
                ),
            )
        } else if self.mode is Scanning {
            BodyView::Waiting(
                seq![
                    blank(),
                    single(
                        "  "@ + spinner_at(self.spinner_frame as int) + " Scanning "@ + shown(
                            self.start_dir,
                        ) + "..."@,
                        Tone::Plain,
                    ),
                    single("  (this may take a moment on large trees)"@, Tone::Plain),
                ],
            )
        } else {
            BodyView::Message(
                "No reclaimable target/ directories found under "@ + shown(self.start_dir) + "."@,
            )
        }
    }

    /// The status line: what there is to say, and what is selected.
    pub open spec fn status_line(self) -> FragmentView {
        let chosen = selected_of(self.workspaces);
        let selection = "selected: "@ + decimal(chosen.len()) + " ("@ + size_shown(
            total(chosen) as u64,
        ) + ")"@;
        let said = match self.status {
            Some(text) => text,
            None => Seq::empty(),
        };
        FragmentView {
            text: if said.len() == 0 {
                " "@ + selection + " "@
            } else {
                " "@ + said + "  |  "@ + selection + " "@
            },
            tone: if self.status_is_error {
                Tone::Alarm
            } else {
                Tone::Status
            },
        }
    }

    /// The dialog over the screen, where there is one.
    pub open spec fn popup(self) -> Option<PopupView> {
        match self.mode {
            ModeView::Confirm => Some(
                PopupView {
                    title: " Confirm "@,
                    lines: confirm_lines(self.workspaces),
                    percent_x: 60,
                    percent_y: 30,
                },
            ),
            ModeView::Results(outcomes) => Some(
                PopupView {
                    title: " Results "@,
                    lines: results_lines(outcomes),
                    percent_x: 80,
                    percent_y: 70,
                },
            ),
            _ => None,
        }
    }
}

/// The width of the column for paths.
fn path_width(width: u16) -> (column: usize)
    ensures
        column == path_column(width as int),
{
    let inner: usize = width.saturating_sub(BORDERS) as usize;
    let left: usize = inner.saturating_sub(HIGHLIGHT + CHECKBOX + SIZE_COLUMN + GUTTER);
    if left < LEAST_PATH {
        LEAST_PATH
    } else {
        left
    }
}

/// Whether a text can be brought to `width` cells.
fn cuts_well(text: &str, width: usize) -> (well: bool)
    requires
        width >= 3,
    ensures
        well == can_cut(text@, width as int),
{
    let len: usize = text.as_bytes().len();
    len <= width || text.is_char_boundary(len - (width - 3))
}

/// Brings a text to `width` cells.
fn cut(text: &str, width: usize) -> (short: String)
    requires
        width >= 3,
        can_cut(text@, width as int),
    ensures
        short@ == cut_to(text@, width as int),
{
    let len: usize = text.as_bytes().len();
    if len <= width {
        return text.to_owned();
    }
    let (_, rest) = text.split_at(len - (width - 3));
    let mut short = "...".to_owned();
    short.append(rest);
    proof {
        encode_utf8_decode_utf8(rest@);
    }
    short
}

/// The line for a workspace.
fn row(w: &Workspace, column: usize) -> (line: Line)
    requires
        column >= 3,
        can_cut(shown(w@.root), column as int),
    ensures
        line@ == row_of(w@, column as int),
{
    let mut parts: Vec<Fragment> = Vec::new();
    if w.selected {
        parts.push(Fragment { text: "[x] ".to_owned(), tone: Tone::Checked });
    } else {
        parts.push(Fragment { text: "[ ] ".to_owned(), tone: Tone::Faint });
    }
    let path = cut(w.root.display().as_str(), column);
    let mut padded = pad_right(path.as_str(), column);
    padded.append(" ");
    parts.push(Fragment { text: padded, tone: Tone::Plain });
    let size = pad_left(size_text(w.target_size).as_str(), SIZE_COLUMN);
    parts.push(Fragment { text: size, tone: Tone::Accent });
    let line = Line { parts };
    assert(line@ =~= row_of(w@, column as int));
    line
}

/// The line that reports an outcome.
fn outcome_row(o: &DeleteOutcome) -> (line: Line)
    ensures
        line@ == outcome_line(o@),
{
    let mut parts: Vec<Fragment> = Vec::new();
    let mut text = o.root.display();
    text.append(" - ");
    match &o.error {
        None => {
            text.append("freed ");
            text.append(size_text(o.freed).as_str());
            parts.push(Fragment { text: "  [OK ] ".to_owned(), tone: Tone::Good });
        },
        Some(error) => {
            text.append(error.as_str());
            parts.push(Fragment { text: "  [ERR] ".to_owned(), tone: Tone::Bad });
        },
    }
    parts.push(Fragment { text, tone: Tone::Plain });
    let line = Line { parts };
    assert(line@ =~= outcome_line(o@));
    line
}

/// The frame of the spinner at an index.
fn spinner_text(frame: usize) -> (text: &'static str)
    ensures
        text@ == spinner_at(frame as int),
{
    if frame == 0 {
        "|"
    } else if frame == 1 {
        "/"
    } else if frame == 2 {
        "-"
    } else {
        "\\"
    }
}

/// The key hints at the bottom of the screen.
pub fn hints() -> (fragment: Fragment)
    ensures
        fragment@ == (FragmentView {
            text: " [j/k or up/down] move   [space] toggle   [a] select all   [d] delete   [r] rescan   [g/G] top/bottom   [q] quit "@,
            tone: Tone::Faint,
        }),
{
    Fragment {
        text:
            " [j/k or up/down] move   [space] toggle   [a] select all   [d] delete   [r] rescan   [g/G] top/bottom   [q] quit ".to_owned(),
        tone: Tone::Faint,
    }
}

/// The lines of the results popup.
pub fn render_results_dialog(outcomes: &Vec<DeleteOutcome>) -> (lines: Vec<Line>)
    requires
        freed_by(successes(reported(outcomes@))) <= u64::MAX,
    ensures
        shown_lines(lines@) == results_lines(reported(outcomes@)),
{
    let ghost all = reported(outcomes@);
    let (done, freed) = count_successes(outcomes);
    let errors: usize = outcomes.len() - done;
    let mut lines: Vec<Line> = Vec::new();
    push_blank(&mut lines);
    let mut text = "  Deletion complete: ".to_owned();
    push_decimal(&mut text, done as u64);
    text.append(" ok, ");
    push_decimal(&mut text, errors as u64);
    text.append(" error");
    text.append(plural(errors));
    text.append(", freed ");
    text.append(size_text(freed).as_str());
    push_line(&mut lines, text, Tone::Strong);
    push_blank(&mut lines);
    let ghost top = shown_lines(lines@);
    let ghost reports = all.map_values(|o: OutcomeView| outcome_line(o));
    let mut i: usize = 0;
    assert(top + reports.take(0) =~= top);
    while i < outcomes.len()
        invariant
            all == reported(outcomes@),
            reports == all.map_values(|o: OutcomeView| outcome_line(o)),
            i <= outcomes@.len(),
            shown_lines(lines@) == top + reports.take(i as int),
        decreases outcomes@.len() - i,
    {
        let line = outcome_row(&outcomes[i]);
        proof {
            assert(reports[i as int] == line@);
            assert(shown_lines(lines@.push(line)) =~= shown_lines(lines@).push(line@));
            assert((top + reports.take(i as int)).push(line@) =~= top + reports.take(i + 1));
        }
        lines.push(line);
        i = i + 1;
    }
    push_blank(&mut lines);
    push_line(&mut lines, "  [Enter/Esc] dismiss   [r] rescan".to_owned(), Tone::Accent);
    assert(reports.take(i as int) =~= reports);
    assert(shown_lines(lines@) =~= results_lines(all));
    lines
}

impl App {
    /// The header of the screen.
    pub fn render_header(&self) -> (header: Fragment)
        requires
            self.wf(),
        ensures
            header@ == (FragmentView { text: self@.header(), tone: Tone::Header }),
    {
        let mut text = " cargo-wipe  -  root: ".to_owned();
        text.append(self.start_dir.display().as_str());
        text.append("  -  ");
        push_decimal(&mut text, self.workspaces.len() as u64);
        text.append(" workspaces  -  ");
        text.append(size_text(self.total_size()).as_str());
        text.append(" total ");
        Fragment { text, tone: Tone::Header }
    }

    /// Whether every path of the list can be brought to the width of its column.
    pub fn can_render(&self, width: u16) -> (can: bool)
        ensures
            can == self@.can_show(width),
    {
        let column: usize = path_width(width);
        let ghost list = self@.workspaces;
        let mut i: usize = 0;
        while i < self.workspaces.len()
            invariant
                list == listed(self.workspaces@),
                list == self@.workspaces,
                column == path_column(width as int),
                i <= list.len(),
                forall|k: int|
                    0 <= k < i ==> can_cut(shown(#[trigger] list[k].root), column as int),
            decreases list.len() - i,
        {
            assert(list[i as int] == self.workspaces@[i as int]@);
            if !cuts_well(self.workspaces[i].root.display().as_str(), column) {
                assert(!can_cut(shown(list[i as int].root), path_column(width as int)));
                return false;
            }
            i = i + 1;
        }
        true
    }

    /// What the body of the screen shows, where it is `width` cells wide.
    pub fn render_body(&self, width: u16) -> (body: Body)
        requires
            self.wf(),
            self@.can_show(width),
        ensures
            body@ == self@.body(width),
    {
        let ghost list = self@.workspaces;
        if self.workspaces.is_empty() {
            let scanning = match &self.mode {
                Mode::Scanning => true,
                _ => false,
            };
            if !scanning {
                let mut text = "No reclaimable target/ directories found under ".to_owned();
                text.append(self.start_dir.display().as_str());
                text.append(".");
                return Body::Message(text);
            }
            let mut lines: Vec<Line> = Vec::new();
            push_blank(&mut lines);
            let mut text = "  ".to_owned();
            text.append(spinner_text(self.spinner_frame));
            text.append(" Scanning ");
            text.append(self.start_dir.display().as_str());
            text.append("...");
            push_line(&mut lines, text, Tone::Plain);
            push_line(
                &mut lines,
                "  (this may take a moment on large trees)".to_owned(),
                Tone::Plain,
            );
            proof {
                if let BodyView::Waiting(wanted) = self@.body(width) {
                    assert(shown_lines(lines@) =~= wanted);
                }
            }
            return Body::Waiting(lines);
        }
        let column: usize = path_width(width);
        let ghost wanted = list.map_values(|w: WorkspaceView| row_of(w, path_column(width as int)));
        let mut rows: Vec<Line> = Vec::new();
        let mut i: usize = 0;
        assert(shown_lines(rows@) =~= wanted.take(0));
        while i < self.workspaces.len()
            invariant
                list == listed(self.workspaces@),
                column == path_column(width as int),
                wanted == list.map_values(
                    |w: WorkspaceView| row_of(w, path_column(width as int)),
                ),
                self@.can_show(width),
                list == self@.workspaces,
                i <= list.len(),
                shown_lines(rows@) == wanted.take(i as int),
            decreases list.len() - i,
        {
            assert(list[i as int] == self.workspaces@[i as int]@);
            assert(can_cut(shown(list[i as int].root), column as int));
            let line = row(&self.workspaces[i], column);
            proof {
                assert(wanted[i as int] == line@);
                assert(shown_lines(rows@.push(line)) =~= shown_lines(rows@).push(line@));
                assert(wanted.take(i as int).push(line@) =~= wanted.take(i + 1));
            }
            rows.push(line);
            i = i + 1;
        }
        assert(wanted.take(i as int) =~= wanted);
        Body::Rows(rows)
    }

    /// What the body of the screen shows, where it is `width` cells wide; `None`
    /// where a path of the list cannot be brought to the width of its column.
    pub fn try_render_body(&self, width: u16) -> (body: Option<Body>)
        requires
            self.wf(),
        ensures
            body is Some <==> self@.can_show(width),
            body matches Some(drawn) ==> drawn@ == self@.body(width),
    {
        if self.can_render(width) {
            Some(self.render_body(width))
        } else {
            None
        }
    }

    /// The status line: what there is to say, and what is selected.
    pub fn render_status(&self) -> (line: Fragment)
        requires
            self.wf(),
        ensures
            line@ == self@.status_line(),
    {
        let count: usize = self.selected_count();
        let size: u64 = self.selected_size();
        proof {
            total_of_selected(self@.workspaces);
        }
        let mut selection = "selected: ".to_owned();
        push_decimal(&mut selection, count as u64);
        selection.append(" (");
        selection.append(size_text(size).as_str());
        selection.append(")");
        let mut text = " ".to_owned();
        if let Some(said) = &self.status {
            if !said.as_str().is_empty() {
                text.append(said.as_str());
                text.append("  |  ");
            }
        }
        text.append(selection.as_str());
        text.append(" ");
        let tone = if self.status_is_error {
            Tone::Alarm
        } else {
            Tone::Status
        };
        Fragment { text, tone }
    }

    /// The dialog over the screen, where there is one.
    pub fn render_popup(&self) -> (popup: Option<Popup>)
        requires
            self.wf(),
        ensures
            popup is Some <==> self@.popup() is Some,
            popup matches Some(dialog) ==> Some(dialog@) == self@.popup(),
    {
        match &self.mode {
            Mode::Confirm => Some(
                Popup {
                    title: " Confirm ",
                    lines: self.render_confirm_dialog(),
                    percent_x: 60,
                    percent_y: 30,
                },
            ),
            Mode::Results(outcomes) => Some(
                Popup {
                    title: " Results ",
                    lines: render_results_dialog(outcomes),
                    percent_x: 80,
                    percent_y: 70,
                },
            ),
            _ => None,
        }
    }

    /// The lines of the confirmation dialog.
    pub fn render_confirm_dialog(&self) -> (lines: Vec<Line>)
        requires
            self.wf(),
        ensures
            shown_lines(lines@) == confirm_lines(self@.workspaces),
    {
        let count: usize = self.selected_count();
        let size: u64 = self.selected_size();
        let mut lines: Vec<Line> = Vec::new();
        push_blank(&mut lines);
        let mut text = "  Delete ".to_owned();
        push_decimal(&mut text, count as u64);
        text.append(" workspace");
        text.append(plural(count));
        text.append(", freeing ");
        text.append(size_text(size).as_str());
        text.append("?");
        push_line(&mut lines, text, Tone::Strong);
        push_blank(&mut lines);
        push_line(
            &mut lines,
            "  This will permanently remove the target/ directory in each.".to_owned(),
            Tone::Plain,
        );
        push_blank(&mut lines);
        push_line(&mut lines, "  [y] yes    [n]/Esc cancel".to_owned(), Tone::Accent);
        assert(shown_lines(lines@) =~= confirm_lines(self@.workspaces));
        lines
    }
}

} // verus!
