//! What holds of every screen.

use vstd::prelude::*;
use vstd::utf8::decode_utf8;
use vstd::utf8::encode_utf8;
use vstd::utf8::is_char_boundary;

use crate::app::App;
use crate::app::ModeView;
use crate::delete::freed_by;
use crate::delete::successes;
use crate::delete::OutcomeView;
use crate::layout::centered;
use crate::layout::centered_rect;
use crate::layout::screen_parts;
use crate::layout::share;
use crate::layout::Area;
use crate::layout::Screen;
use crate::path::shown;
use crate::screen::can_cut;
use crate::screen::cut_to;
use crate::screen::outcome_line;
use crate::screen::path_column;
use crate::screen::results_lines;
use crate::screen::row_of;
use crate::screen::spinner_at;
use crate::screen::Body;
use crate::screen::BodyView;
use crate::screen::Fragment;
use crate::screen::Popup;
use crate::screen::Tone;
use crate::start::determine_start_dir;
use crate::start::needs_next;
use crate::start::words;
use crate::text::decimal;
use crate::text::padded_left;
use crate::text::padded_right;
use crate::text::size_shown;
use crate::workspace::selected_of;
use crate::workspace::total;
use crate::workspace::WorkspaceView;

verus! {

/// The path has what is left of the width beside 22 other cells, and ten cells at least.
pub proof fn the_path_has_what_is_left(width: u16)
    ensures
        width >= 32 ==> path_column(width as int) == width - 22,
        width < 32 ==> path_column(width as int) == 10,
{
}

/// A text that takes no more bytes than there are cells is shown as it is. A longer one is
/// shown as three full stops and the end of it that takes the rest of the cells.
pub proof fn a_long_text_keeps_its_end(text: Seq<char>, width: int)
    requires
        width >= 3,
    ensures
        encode_utf8(text).len() <= width ==> cut_to(text, width) == text,
        encode_utf8(text).len() > width ==> cut_to(text, width) == "..."@ + decode_utf8(
            encode_utf8(text).skip(encode_utf8(text).len() - width + 3),
        ),
        encode_utf8(text).len() > width ==> encode_utf8(text).skip(
            encode_utf8(text).len() - width + 3,
        ).len() == width - 3,
{
    let bytes = encode_utf8(text);
    if bytes.len() > width {
        let at = bytes.len() - width + 3;
        assert(bytes.skip(at) =~= bytes.subrange(at, bytes.len() as int));
    }
}

/// Whether a text that is too long for `width` cells would be cut within a character.
pub open spec fn cuts_a_character(text: Seq<char>, width: int) -> bool {
    encode_utf8(text).len() > width && !is_char_boundary(
        encode_utf8(text),
        encode_utf8(text).len() - width + 3,
    )
}

/// The list can be drawn just when no path of it would be cut within a character.
pub proof fn the_list_is_drawn_unless_a_character_is_cut(
    app: App,
    width: u16,
    can: bool,
    body: Option<Body>,
)
    requires
        call_ensures(App::can_render, (&app, width), can),
        call_ensures(App::try_render_body, (&app, width), body),
    ensures
        can <==> forall|i: int|
            0 <= i < app@.workspaces.len() ==> !cuts_a_character(
                shown((#[trigger] app@.workspaces[i]).root),
                path_column(width as int),
            ),
        body is Some <==> can,
{
    let list = app@.workspaces;
    let column = path_column(width as int);
    if can {
        assert forall|i: int| 0 <= i < list.len() implies !cuts_a_character(
            shown((#[trigger] list[i]).root),
            column,
        ) by {
            assert(can_cut(shown(list[i].root), column));
        }
    } else {
        let i = choose|i: int|
            0 <= i < list.len() && !can_cut(
                shown(#[trigger] list[i].root),
                column,
            );
        assert(cuts_a_character(shown(list[i].root), column));
    }
}

/// The body has one row for every workspace, in the order of the list. With nothing
/// listed it shows that a scan is running where one is shown, and otherwise that nothing
/// was found.
pub proof fn every_workspace_has_its_row(app: App, width: u16, body: Body, i: int)
    requires
        call_ensures(App::render_body, (&app, width), body),
    ensures
        app@.workspaces.len() > 0 ==> (body@ matches BodyView::Rows(rows) && rows.len()
            == app@.workspaces.len()),
        0 <= i < app@.workspaces.len() ==> body@->Rows_0[i] == row_of(
            app@.workspaces[i],
            path_column(width as int),
        ),
        app@.workspaces.len() == 0 && app@.mode is Scanning ==> (body@ matches BodyView::Waiting(
            lines,
        ) && lines.len() == 3 && lines[0].len() == 0 && lines[1].len() == 1 && lines[2].len() == 1
            && lines[1][0].text == "  "@ + spinner_at(app@.spinner_frame as int) + " Scanning "@
            + shown(app@.start_dir) + "..."@ && lines[2][0].text
            == "  (this may take a moment on large trees)"@),
        app@.workspaces.len() == 0 && app@.mode !is Scanning ==> body@ == BodyView::Message(
            "No reclaimable target/ directories found under "@ + shown(app@.start_dir) + "."@,
        ),
{
}

/// The box around the body asks to wait just while a scan is shown that has found nothing
/// yet.
pub proof fn the_title_tells_whether_to_wait(body: Body, title: &'static str)
    requires
        call_ensures(Body::title, (&body,), title),
    ensures
        body is Waiting ==> title@ == " Please wait "@,
        body !is Waiting ==> title@ == " Workspaces "@,
{
}

/// The frames of the spinner are four different marks.
pub proof fn the_spinner_has_four_marks()
    ensures
        spinner_at(0) == seq!['|'],
        spinner_at(1) == seq!['/'],
        spinner_at(2) == seq!['-'],
        spinner_at(3) == seq!['\\'],
{
    reveal_strlit("|");
    reveal_strlit("/");
    reveal_strlit("-");
    reveal_strlit("\\");
    assert("|"@ =~= seq!['|']);
    assert("/"@ =~= seq!['/']);
    assert("-"@ =~= seq!['-']);
    assert("\\"@ =~= seq!['\\']);
}

/// A row shows a cross just when its workspace is selected, the path in its column, and
/// the size at the end of twelve cells, for every size and path.
pub proof fn a_row_shows_its_workspace(w: WorkspaceView, column: int)
    requires
        column >= 3,
    ensures
        row_of(w, column).len() == 3,
        w.selected ==> row_of(w, column)[0].text == "[x] "@ && row_of(w, column)[0].tone
            == Tone::Checked,
        !w.selected ==> row_of(w, column)[0].text == "[ ] "@ && row_of(w, column)[0].tone
            == Tone::Faint,
        row_of(w, column)[1].tone == Tone::Plain,
        row_of(w, column)[1].text == padded_right(cut_to(shown(w.root), column), column as nat)
            + " "@,
        row_of(w, column)[2].tone == Tone::Accent,
        size_shown(w.target_size).len() <= 12 ==> row_of(w, column)[2].text.len() == 12,
        row_of(w, column)[2].text == padded_left(size_shown(w.target_size), 12),
        row_of(w, column)[2].text.skip(
            row_of(w, column)[2].text.len() - size_shown(w.target_size).len(),
        ) == size_shown(w.target_size),
{
    let text = row_of(w, column)[2].text;
    let size = size_shown(w.target_size);
    assert(text.skip(text.len() - size.len()) =~= size);
}

/// The header gives the directory, the number of workspaces and the sum of all sizes.
pub proof fn the_header_gives_the_sum(app: App, header: Fragment, count: nat, sum: u64)
    requires
        call_ensures(App::render_header, (&app,), header),
        app@.workspaces.len() == count,
        total(app@.workspaces) == sum,
    ensures
        header.text@ == " cargo-wipe  -  root: "@ + shown(app@.start_dir) + "  -  "@ + decimal(
            count,
        ) + " workspaces  -  "@ + size_shown(sum) + " total "@,
        header.tone == Tone::Header,
{
    assert(header@.text == header.text@);
}

/// The status line gives the message, where there is one, and the number and the sum of
/// what is selected; it stands out just when the message is an error.
pub proof fn the_status_gives_the_selection(app: App, line: Fragment, count: nat, sum: u64)
    requires
        call_ensures(App::render_status, (&app,), line),
        selected_of(app@.workspaces).len() == count,
        total(selected_of(app@.workspaces)) == sum,
    ensures
        app@.status matches Some(said) ==> said.len() > 0 ==> line.text@ == " "@ + said + "  |  "@
            + ("selected: "@ + decimal(count) + " ("@ + size_shown(sum) + ")"@) + " "@,
        app@.status is None || app@.status->Some_0.len() == 0 ==> line.text@ == " "@ + (
        "selected: "@ + decimal(count) + " ("@ + size_shown(sum) + ")"@) + " "@,
        line.tone == (if app@.status_is_error {
            Tone::Alarm
        } else {
            Tone::Status
        }),
{
    assert(line@.text == line.text@);
}

/// A dialog is shown just in the confirmation and over the results. The confirmation gives
/// the number and the sum of what is selected.
pub proof fn the_confirmation_gives_what_is_selected(
    app: App,
    popup: Option<Popup>,
    count: nat,
    sum: u64,
)
    requires
        call_ensures(App::render_popup, (&app,), popup),
        selected_of(app@.workspaces).len() == count,
        total(selected_of(app@.workspaces)) == sum,
    ensures
        popup is Some <==> app@.mode is Confirm || app@.mode is Results,
        app@.mode is Confirm ==> {
            let dialog = popup.unwrap()@;
            &&& dialog.title == " Confirm "@
            &&& dialog.percent_x == 60
            &&& dialog.percent_y == 30
            &&& dialog.lines.len() == 6
            &&& dialog.lines[1].len() == 1
            &&& count == 1 ==> dialog.lines[1][0].text == "  Delete "@ + decimal(1) + " workspace"@
                + ""@ + ", freeing "@ + size_shown(sum) + "?"@
            &&& count != 1 ==> dialog.lines[1][0].text == "  Delete "@ + decimal(count)
                + " workspace"@ + "s"@ + ", freeing "@ + size_shown(sum) + "?"@
            &&& dialog.lines[1][0].tone == Tone::Strong
            &&& dialog.lines[0].len() == 0
            &&& dialog.lines[2].len() == 0
            &&& dialog.lines[4].len() == 0
            &&& dialog.lines[3].len() == 1
            &&& dialog.lines[3][0].text
                == "  This will permanently remove the target/ directory in each."@
            &&& dialog.lines[3][0].tone == Tone::Plain
            &&& dialog.lines[5].len() == 1
            &&& dialog.lines[5][0].text == "  [y] yes    [n]/Esc cancel"@
            &&& dialog.lines[5][0].tone == Tone::Accent
        },
        app@.mode matches ModeView::Results(outcomes) ==> {
            let dialog = popup.unwrap()@;
            &&& dialog.title == " Results "@
            &&& dialog.percent_x == 80
            &&& dialog.percent_y == 70
            &&& dialog.lines == results_lines(outcomes)
        },
{
}

/// The results give the number of deletions that went well, the number that did not and
/// the sum that was freed.
pub proof fn the_results_give_the_sum(
    outcomes: Seq<OutcomeView>,
    done: nat,
    errors: nat,
    freed: u64,
)
    requires
        successes(outcomes).len() == done,
        outcomes.len() == done + errors,
        freed_by(successes(outcomes)) == freed,
    ensures
        results_lines(outcomes).len() == outcomes.len() + 5,
        results_lines(outcomes)[1].len() == 1,
        errors == 1 ==> results_lines(outcomes)[1][0].text == "  Deletion complete: "@ + decimal(
            done,
        ) + " ok, "@ + decimal(1) + " error"@ + ""@ + ", freed "@ + size_shown(freed),
        errors != 1 ==> results_lines(outcomes)[1][0].text == "  Deletion complete: "@ + decimal(
            done,
        ) + " ok, "@ + decimal(errors) + " error"@ + "s"@ + ", freed "@ + size_shown(freed),
        results_lines(outcomes)[1][0].tone == Tone::Strong,
        results_lines(outcomes).last().len() == 1,
        results_lines(outcomes).last()[0].text == "  [Enter/Esc] dismiss   [r] rescan"@,
        results_lines(outcomes).last()[0].tone == Tone::Accent,
        results_lines(outcomes)[0].len() == 0,
        results_lines(outcomes)[2].len() == 0,
        results_lines(outcomes)[outcomes.len() as int + 3].len() == 0,
{
}

/// Every outcome has its line in the results, in order, with its root and what it freed,
/// or its whole error.
pub proof fn every_outcome_has_its_line(outcomes: Seq<OutcomeView>, i: int)
    requires
        0 <= i < outcomes.len(),
    ensures
        ({
            let o = outcomes[i];
            let line = results_lines(outcomes)[i + 3];
            &&& line == outcome_line(o)
            &&& line.len() == 2
            &&& o.error is None ==> line[0].text == "  [OK ] "@ && line[0].tone == Tone::Good
                && line[1].text == shown(o.root) + " - "@ + "freed "@ + size_shown(o.freed)
            &&& o.error matches Some(error) ==> line[0].text == "  [ERR] "@ && line[0].tone
                == Tone::Bad && line[1].text == shown(o.root) + " - "@ + error
        }),
{
}

/// The edges of a centered rectangle are the cells nearest to where the hundredths fall,
/// on every screen: less than a cell is lost or won by rounding.
pub proof fn a_dialog_stands_in_the_middle(
    percent_x: u16,
    percent_y: u16,
    area: Area,
    rect: Area,
)
    requires
        percent_x <= 100,
        percent_y <= 100,
        area.x + area.width <= u16::MAX,
        area.y + area.height <= u16::MAX,
        call_ensures(centered_rect, (percent_x, percent_y, area), rect),
    ensures
        ({
            let side = (100 - percent_x) / 2;
            let top = (100 - percent_y) / 2;
            let left = rect.x - area.x;
            let up = rect.y - area.y;
            &&& -50 <= area.width * side - 100 * left < 50
            &&& -50 <= area.width * (side + percent_x) - 100 * (left + rect.width) < 50
            &&& -50 <= area.height * top - 100 * up < 50
            &&& -50 <= area.height * (top + percent_y) - 100 * (up + rect.height) < 50
            &&& area.x <= rect.x && rect.x + rect.width <= area.x + area.width
            &&& area.y <= rect.y && rect.y + rect.height <= area.y + area.height
        }),
{
    let side = (100 - percent_x) / 2;
    let top = (100 - percent_y) / 2;
    let w = area.width as int;
    let h = area.height as int;
    nearest_cell(w, side);
    nearest_cell(w, side + percent_x);
    nearest_cell(h, top);
    nearest_cell(h, top + percent_y);
    assert(w * side <= w * (side + percent_x)) by (nonlinear_arith)
        requires
            0 <= w,
            0 <= percent_x,
    ;
    assert(h * top <= h * (top + percent_y)) by (nonlinear_arith)
        requires
            0 <= h,
            0 <= percent_y,
    ;
    assert(rect == centered(percent_x, percent_y, area));
    assert(rect.x == area.x + share(w, side));
    assert(rect.width == share(w, side + percent_x) - share(w, side));
    assert(rect.y == area.y + share(h, top));
    assert(rect.height == share(h, top + percent_y) - share(h, top));
}

proof fn nearest_cell(size: int, part: int)
    requires
        0 <= size <= u16::MAX,
        0 <= part <= 100,
    ensures
        0 <= share(size, part) <= size,
        -50 <= size * part - 100 * share(size, part) < 50,
{
    assert(0 <= size * part <= size * 100) by (nonlinear_arith)
        requires
            0 <= size,
            0 <= part <= 100,
    ;
}

/// On every screen of at least four rows the header, the status and the hints have a row
/// each and the body all others, from top to bottom in this order.
pub proof fn the_screen_is_divided(area: Area, screen: Screen)
    requires
        area.x + area.width <= u16::MAX,
        area.y + area.height <= u16::MAX,
        area.height >= 4,
        call_ensures(screen_parts, (area,), screen),
    ensures
        screen.header == (Area { x: area.x, y: area.y, width: area.width, height: 1 }),
        screen.body == (Area {
            x: area.x,
            y: (area.y + 1) as u16,
            width: area.width,
            height: (area.height - 3) as u16,
        }),
        screen.status == (Area {
            x: area.x,
            y: (area.y + area.height - 2) as u16,
            width: area.width,
            height: 1,
        }),
        screen.hints == (Area {
            x: area.x,
            y: (area.y + area.height - 1) as u16,
            width: area.width,
            height: 1,
        }),
{
}

/// On every screen of one to three rows the body has one, and the hints have none.
pub proof fn a_short_screen_keeps_its_body(area: Area, screen: Screen)
    requires
        area.x + area.width <= u16::MAX,
        area.y + area.height <= u16::MAX,
        1 <= area.height <= 3,
        call_ensures(screen_parts, (area,), screen),
    ensures
        screen.body.height == 1,
        screen.hints.height == 0,
        screen.header.height + screen.status.height == area.height - 1,
        area.y <= screen.body.y < area.y + area.height,
{
}

/// An argument is read just when none was read before, or only the `wipe` that cargo
/// passes.
pub proof fn arguments_are_read_while_they_matter(args: Vec<String>, needs: bool)
    requires
        call_ensures(needs_next, (&args,), needs),
    ensures
        needs <==> args@.len() == 0 || (args@.len() == 1 && args@[0]@ == "wipe"@),
{
    if args@.len() > 0 {
        assert(words(args@)[0] == args@[0]@);
    }
}

/// The scan starts at the first argument that is not the `wipe` that cargo passes, and
/// without one at home, or here where home is not known.
pub proof fn the_scan_starts_where_it_is_told(args: Vec<String>, home: Option<&str>, dir: String)
    requires
        call_ensures(determine_start_dir, (&args, home), dir),
    ensures
        args@.len() > 0 && args@[0]@ != "wipe"@ ==> dir@ == args@[0]@,
        args@.len() > 1 && args@[0]@ == "wipe"@ ==> dir@ == args@[1]@,
        args@.len() == 0 || (args@.len() == 1 && args@[0]@ == "wipe"@) ==> dir@ == (
        if home matches Some(text) && text@.len() > 0 {
            home->Some_0@
        } else {
            "."@
        }),
{
    if args@.len() > 0 {
        assert(words(args@)[0] == args@[0]@);
    }
    if args@.len() > 1 {
        assert(words(args@)[1] == args@[1]@);
    }
}

} // verus!
