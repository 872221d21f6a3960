use cargo_wipe::app::{App, Mode};
use cargo_wipe::delete::DeleteOutcome;
use cargo_wipe::keys::{Key, KeyPress};
use cargo_wipe::path::FilePath;
use cargo_wipe::poll::Polled;
use cargo_wipe::scan::ScanMsg;
use cargo_wipe::screen::{hints, render_results_dialog, Body, Line, Tone};
use cargo_wipe::workspace::Workspace;

fn path(text: &str) -> FilePath {
    FilePath::new(text.as_bytes().to_vec())
}

fn workspace(root: &str, size: u64, selected: bool) -> Workspace {
    Workspace {
        root: path(root),
        target_path: path(root).join_target(),
        target_size: size,
        selected,
    }
}

fn browsing(list: Vec<Workspace>) -> App {
    let mut app = App::new(path("/src"));
    app.poll_scan(vec![
        Polled::Message(ScanMsg::Batch(list)),
        Polled::Message(ScanMsg::Done),
    ]);
    app
}

fn press(app: &mut App, c: char) {
    let code = Key::Char(c);
    app.handle_key(KeyPress { code, modifiers: 0 });
}

/// The application with everything selected deleted, or not for the given cause.
fn results(list: Vec<Workspace>, removals: Vec<Result<(), String>>) -> App {
    let mut app = browsing(list);
    press(&mut app, 'd');
    app.run_delete(&removals);
    assert!(matches!(app.mode(), Mode::Results(_)));
    app
}

fn outcome(root: &str, freed: u64, error: Option<&str>) -> DeleteOutcome {
    DeleteOutcome {
        root: path(root),
        freed,
        error: error.map(|e| e.to_string()),
    }
}

fn parts(line: &Line) -> Vec<(&str, Tone)> {
    line.parts
        .iter()
        .map(|f| (f.text.as_str(), f.tone))
        .collect()
}

fn rows(app: &App, width: u16) -> Vec<Line> {
    assert!(app.can_render(width));
    match app.render_body(width) {
        Body::Rows(rows) => rows,
        other => panic!("{:?}", other),
    }
}

fn path_cell(root: &str, width: u16) -> String {
    let app = browsing(vec![workspace(root, 1, false)]);
    rows(&app, width)[0].parts[1].text.clone()
}

#[test]
fn the_header_tells_where_and_how_much() {
    let app = browsing(vec![workspace("/a", 600, false), workspace("/b", 400, true)]);
    let header = app.render_header();
    assert_eq!(
        header.text,
        " cargo-wipe  -  root: /src  -  2 workspaces  -  1000 B total "
    );
    assert_eq!(header.tone, Tone::Header);
}

#[test]
fn sizes_are_shown_for_humans() {
    for (size, expected) in [
        (1, "1 B"),
        (1023, "1023 B"),
        (1024, "1.0 KiB"),
        (1536, "1.5 KiB"),
        (1024 * 1024, "1.0 MiB"),
        (5 * 1024 * 1024 * 1024, "5.0 GiB"),
    ] {
        let app = browsing(vec![workspace("/a", size, false)]);
        let rows = rows(&app, 80);
        assert_eq!(rows[0].parts[2].text, format!("{:>12}", expected));
        assert_eq!(rows[0].parts[2].tone, Tone::Accent);
    }
}

#[test]
fn a_row_shows_the_box_the_path_and_the_size() {
    let app = browsing(vec![
        workspace("/a", 512, true),
        workspace("/b", 100, false),
    ]);
    let rows = rows(&app, 42);
    assert_eq!(rows.len(), 2);
    assert_eq!(
        parts(&rows[0]),
        vec![
            ("[x] ", Tone::Checked),
            ("/a                   ", Tone::Plain),
            ("       512 B", Tone::Accent),
        ]
    );
    assert_eq!(
        parts(&rows[1]),
        vec![
            ("[ ] ", Tone::Faint),
            ("/b                   ", Tone::Plain),
            ("       100 B", Tone::Accent),
        ]
    );
}

#[test]
fn a_long_path_loses_its_beginning() {
    assert_eq!(path_cell("/123456789abcdef", 38), "/123456789abcdef ");
    assert_eq!(path_cell("/0123456789abcdef", 38), "...3456789abcdef ");
    assert_eq!(path_cell("/0123456789abcdefg", 38), "...456789abcdefg ");
}

#[test]
fn a_path_has_ten_cells_at_least() {
    for width in [0, 1, 2, 10, 22, 31, 32] {
        assert_eq!(path_cell("/123456789", width), "/123456789 ");
        assert_eq!(path_cell("/0123456789", width), "...3456789 ");
    }
    assert_eq!(path_cell("/0123456789", 33), "/0123456789 ");
}

#[test]
fn ascii_paths_line_up() {
    for width in 0..120 {
        let short = path_cell("/a", width);
        let long = path_cell("/a/very/long/path/that/goes/on/and/on/and/on/to/the/end", width);
        let column = usize::from(width).saturating_sub(22).max(10);
        assert_eq!(short.len(), column + 1);
        assert_eq!(long.len(), column + 1);
    }
}

#[test]
fn a_path_is_cut_between_characters_only() {
    let app = browsing(vec![workspace("/ääääääääää", 1, false)]);
    // The column of ten cells keeps seven bytes, which start within a character.
    assert!(!app.can_render(32));
    assert!(app.try_render_body(32).is_none());
    // One cell more keeps eight bytes, four characters.
    assert!(app.can_render(33));
    assert!(app.try_render_body(33).is_some());
    assert_eq!(rows(&app, 33)[0].parts[1].text, "...ääää     ");
    // Where nothing is cut, any text will do.
    assert!(app.can_render(80));
}

#[test]
fn invalid_bytes_are_shown_as_replacement_characters() {
    let mut odd = workspace("/a", 1, false);
    odd.root = FilePath::new(vec![b'/', 0xff]);
    assert_eq!(
        rows(&browsing(vec![odd]), 32)[0].parts[1].text,
        "/\u{fffd}         "
    );
}

#[test]
fn a_scan_that_found_nothing_yet_shows_a_spinner() {
    for (frame, mark) in ["|", "/", "-", "\\"].iter().enumerate() {
        let mut app = App::new(path("/src"));
        for _ in 0..frame {
            app.tick(120);
        }
        let body = app.render_body(80);
        assert_eq!(body.title(), " Please wait ");
        match body {
            Body::Waiting(lines) => {
                assert_eq!(lines.len(), 3);
                assert!(lines[0].parts.is_empty());
                assert_eq!(
                    parts(&lines[1]),
                    vec![(format!("  {} Scanning /src...", mark).as_str(), Tone::Plain)]
                );
                assert_eq!(
                    parts(&lines[2]),
                    vec![("  (this may take a moment on large trees)", Tone::Plain)]
                );
            }
            other => panic!("{:?}", other),
        }
    }
}

#[test]
fn a_running_scan_shows_what_it_found() {
    let mut app = App::new(path("/src"));
    app.poll_scan(vec![
        Polled::Message(ScanMsg::Batch(vec![workspace("/a", 1, false)])),
        Polled::Empty,
    ]);
    assert!(matches!(app.mode(), Mode::Scanning));
    assert_eq!(rows(&app, 80).len(), 1);
    assert_eq!(app.render_body(80).title(), " Workspaces ");
}

#[test]
fn an_empty_list_says_so() {
    let emptied = results(vec![workspace("/a", 1, true)], vec![Ok(())]);
    for app in [browsing(Vec::new()), emptied] {
        let body = app.render_body(80);
        assert_eq!(body.title(), " Workspaces ");
        match body {
            Body::Message(text) => assert_eq!(
                text,
                "No reclaimable target/ directories found under /src."
            ),
            other => panic!("{:?}", other),
        }
    }
}

#[test]
fn the_status_line_tells_the_selection() {
    let mut app = browsing(vec![workspace("/a", 512, true), workspace("/b", 100, false)]);
    let line = app.render_status();
    assert_eq!(
        line.text,
        " Found 2 workspaces (612 B total)  |  selected: 1 (512 B) "
    );
    assert_eq!(line.tone, Tone::Status);
    press(&mut app, 'd');
    press(&mut app, 'n');
    assert_eq!(
        app.render_status().text,
        " Deletion cancelled  |  selected: 1 (512 B) "
    );
}

#[test]
fn an_error_on_the_status_line_stands_out() {
    let mut app = App::new(path("/src"));
    app.poll_scan(vec![
        Polled::Message(ScanMsg::Error("x".to_string())),
        Polled::Message(ScanMsg::Done),
    ]);
    let line = app.render_status();
    assert_eq!(line.text, " Scan error: x  |  selected: 0 (0 B) ");
    assert_eq!(line.tone, Tone::Alarm);
}

#[test]
fn the_hints_name_the_keys() {
    let line = hints();
    assert_eq!(
        line.text,
        " [j/k or up/down] move   [space] toggle   [a] select all   [d] delete   [r] rescan   [g/G] top/bottom   [q] quit "
    );
    assert_eq!(line.tone, Tone::Faint);
}

#[test]
fn the_list_has_no_dialog_over_it() {
    assert!(browsing(Vec::new()).render_popup().is_none());
    assert!(App::new(path("/")).render_popup().is_none());
}

#[test]
fn the_confirmation_tells_what_will_be_freed() {
    let mut app = browsing(vec![
        workspace("/a", 512, true),
        workspace("/b", 200, false),
        workspace("/c", 100, true),
    ]);
    press(&mut app, 'd');
    let popup = app.render_popup().unwrap();
    assert_eq!(popup.title, " Confirm ");
    assert_eq!((popup.percent_x, popup.percent_y), (60, 30));
    assert_eq!(popup.lines.len(), 6);
    for i in [0, 2, 4] {
        assert!(popup.lines[i].parts.is_empty());
    }
    assert_eq!(
        parts(&popup.lines[1]),
        vec![("  Delete 2 workspaces, freeing 612 B?", Tone::Strong)]
    );
    assert_eq!(
        parts(&popup.lines[3]),
        vec![(
            "  This will permanently remove the target/ directory in each.",
            Tone::Plain
        )]
    );
    assert_eq!(
        parts(&popup.lines[5]),
        vec![("  [y] yes    [n]/Esc cancel", Tone::Accent)]
    );
}

#[test]
fn one_workspace_is_singular() {
    let app = browsing(vec![workspace("/a", 512, true)]);
    assert_eq!(
        app.render_confirm_dialog()[1].parts[0].text,
        "  Delete 1 workspace, freeing 512 B?"
    );
}

#[test]
fn the_results_report_every_outcome() {
    let app = results(
        vec![
            workspace("/a", 512, true),
            workspace("/b", 200, true),
            workspace("/c", 100, true),
        ],
        vec![Ok(()), Err("busy".to_string()), Ok(())],
    );
    let popup = app.render_popup().unwrap();
    assert_eq!(popup.title, " Results ");
    assert_eq!((popup.percent_x, popup.percent_y), (80, 70));
    assert_eq!(popup.lines.len(), 8);
    for i in [0, 2, 6] {
        assert!(popup.lines[i].parts.is_empty());
    }
    assert_eq!(
        parts(&popup.lines[1]),
        vec![(
            "  Deletion complete: 2 ok, 1 error, freed 612 B",
            Tone::Strong
        )]
    );
    assert_eq!(
        parts(&popup.lines[3]),
        vec![("  [OK ] ", Tone::Good), ("/a - freed 512 B", Tone::Plain)]
    );
    assert_eq!(
        parts(&popup.lines[4]),
        vec![
            ("  [ERR] ", Tone::Bad),
            ("/b - removing /b/target: busy", Tone::Plain)
        ]
    );
    assert_eq!(
        parts(&popup.lines[7]),
        vec![("  [Enter/Esc] dismiss   [r] rescan", Tone::Accent)]
    );
}

#[test]
fn no_errors_are_plural() {
    let lines = render_results_dialog(&vec![outcome("/a", 1024, None)]);
    assert_eq!(lines[3].parts[0].text, "  [OK ] ");
    assert_eq!(
        lines[1].parts[0].text,
        "  Deletion complete: 1 ok, 0 errors, freed 1.0 KiB"
    );
}
