use cargo_wipe::app::{App, Mode};
use cargo_wipe::input::{draw_due, Flow};
use cargo_wipe::keys::{Input, Key, KeyPress};
use cargo_wipe::path::FilePath;
use cargo_wipe::poll::Polled;
use cargo_wipe::scan::ScanMsg;
use cargo_wipe::screen::Body;
use cargo_wipe::workspace::Workspace;

fn path(text: &str) -> FilePath {
    FilePath::new(text.as_bytes().to_vec())
}

fn key(code: Key) -> KeyPress {
    KeyPress { code, modifiers: 0 }
}

fn press(app: &mut App, c: char) -> Flow {
    app.handle_key(key(Key::Char(c)))
}

fn batch(count: u64) -> Polled {
    let list = (0..count)
        .map(|i| Workspace {
            root: path(&format!("/w{}", i)),
            target_path: path(&format!("/w{}/target", i)),
            target_size: 1000 - i,
            selected: false,
        })
        .collect();
    Polled::Message(ScanMsg::Batch(list))
}

fn scanning(count: u64) -> App {
    let mut app = App::new(path("/src"));
    app.poll_scan(vec![batch(count), Polled::Empty]);
    app
}

fn browsing(count: u64) -> App {
    let mut app = App::new(path("/src"));
    app.poll_scan(vec![batch(count), Polled::Message(ScanMsg::Done)]);
    app
}

fn spinner(app: &App) -> String {
    match app.render_body(80) {
        Body::Waiting(lines) => lines[1].parts[0].text.clone(),
        other => panic!("{:?}", other),
    }
}

fn confirming(count: u64) -> App {
    let mut app = browsing(count);
    press(&mut app, 'a');
    press(&mut app, 'd');
    assert!(matches!(app.mode(), Mode::Confirm));
    app
}

fn results(count: u64) -> App {
    let mut app = confirming(count);
    app.run_delete(&(0..count).map(|_| Ok(())).collect());
    assert!(matches!(app.mode(), Mode::Results(_)));
    app
}

#[test]
fn ctrl_c_quits_from_any_mode() {
    for mut app in [scanning(2), browsing(2), confirming(2), results(2)] {
        for modifiers in [2, 3, 6, 0xff] {
            let code = Key::Char('c');
            assert_eq!(app.handle_key(KeyPress { code, modifiers }), Flow::Quit);
        }
    }
}

#[test]
fn c_without_control_does_nothing() {
    for mut app in [scanning(2), browsing(2), confirming(2), results(2)] {
        for modifiers in [0, 1, 4, 8, 0xfd] {
            let code = Key::Char('c');
            assert_eq!(app.handle_key(KeyPress { code, modifiers }), Flow::Continue);
        }
        let code = Key::Char('C');
        assert_eq!(app.handle_key(KeyPress { code, modifiers: 2 }), Flow::Continue);
    }
}

#[test]
fn control_is_the_bit_that_the_terminal_reports() {
    let control = crossterm::event::KeyModifiers::CONTROL.bits();
    let shift = crossterm::event::KeyModifiers::SHIFT.bits();
    let code = Key::Char('c');
    assert!(KeyPress { code, modifiers: control }.is_interrupt());
    assert!(KeyPress { code, modifiers: control | shift }.is_interrupt());
    assert!(!KeyPress { code, modifiers: shift }.is_interrupt());
    assert!(!KeyPress { code: Key::Enter, modifiers: control }.is_interrupt());
}

#[test]
fn the_list_is_left_with_q_or_escape() {
    for code in [Key::Char('q'), Key::Char('Q'), Key::Esc] {
        assert_eq!(browsing(2).handle_key(key(code)), Flow::Quit);
        assert_eq!(scanning(2).handle_key(key(code)), Flow::Quit);
        assert_eq!(App::new(path("/")).handle_key(key(code)), Flow::Quit);
    }
}

#[test]
fn keys_move_the_highlight() {
    let mut app = browsing(30);
    let steps = [
        (Key::Char('j'), 1),
        (Key::Down, 2),
        (Key::Char('k'), 1),
        (Key::Up, 0),
        (Key::Up, 0),
        (Key::PageDown, 10),
        (Key::PageDown, 20),
        (Key::PageDown, 29),
        (Key::PageUp, 19),
        (Key::Char('g'), 0),
        (Key::Char('G'), 29),
        (Key::Home, 0),
        (Key::End, 29),
        (Key::Down, 29),
    ];
    for (code, expected) in steps {
        assert_eq!(app.handle_key(key(code)), Flow::Continue);
        assert_eq!(app.cursor().selected, Some(expected), "{:?}", code);
    }
}

#[test]
fn a_page_is_ten_steps() {
    for start in [0, 3, 14, 19] {
        let mut by_page = browsing(20);
        let mut by_step = browsing(20);
        by_page.move_cursor(start);
        by_step.move_cursor(start);
        by_page.handle_key(key(Key::PageDown));
        for _ in 0..10 {
            by_step.handle_key(key(Key::Down));
        }
        assert_eq!(by_page.cursor().selected, by_step.cursor().selected);
        by_page.handle_key(key(Key::PageUp));
        for _ in 0..10 {
            by_step.handle_key(key(Key::Up));
        }
        assert_eq!(by_page.cursor().selected, by_step.cursor().selected);
    }
}

#[test]
fn keys_select() {
    let mut app = browsing(3);
    assert_eq!(press(&mut app, ' '), Flow::Continue);
    assert_eq!(app.selected_count(), 1);
    press(&mut app, 'a');
    assert_eq!(app.selected_count(), 3);
    press(&mut app, 'A');
    assert_eq!(app.selected_count(), 0);
}

#[test]
fn the_list_works_during_a_scan() {
    let mut app = scanning(3);
    assert_eq!(press(&mut app, 'j'), Flow::Continue);
    assert_eq!(app.cursor().selected, Some(1));
    press(&mut app, ' ');
    assert!(app.workspaces()[1].selected);
    press(&mut app, 'd');
    assert!(matches!(app.mode(), Mode::Confirm));
    press(&mut app, 'n');
    assert!(matches!(app.mode(), Mode::Scanning));
    press(&mut app, 'd');
    assert_eq!(press(&mut app, 'y'), Flow::Delete);
    app.run_delete(&vec![Ok(())]);
    app.handle_key(key(Key::Enter));
    assert!(matches!(app.mode(), Mode::Scanning));
    app.poll_scan(vec![Polled::Message(ScanMsg::Done)]);
    assert!(matches!(app.mode(), Mode::Browsing));
    assert_eq!(app.workspaces().len(), 2);
}

#[test]
fn deleting_nothing_is_refused() {
    for c in ['d', 'D'] {
        let mut app = browsing(3);
        assert_eq!(press(&mut app, c), Flow::Continue);
        assert!(matches!(app.mode(), Mode::Browsing));
        assert_eq!(
            app.status().as_deref(),
            Some("Nothing selected - use [space] to select workspaces")
        );
        assert!(app.status_is_error());
    }
}

#[test]
fn deletion_is_confirmed_first() {
    let mut app = browsing(3);
    press(&mut app, ' ');
    assert_eq!(press(&mut app, 'd'), Flow::Continue);
    assert!(matches!(app.mode(), Mode::Confirm));
    assert_eq!(press(&mut app, 'y'), Flow::Delete);
    assert_eq!(confirming(3).handle_key(key(Key::Char('Y'))), Flow::Delete);
}

#[test]
fn a_cancelled_deletion_keeps_everything() {
    for code in [Key::Char('n'), Key::Char('N'), Key::Esc] {
        let mut app = browsing(3);
        press(&mut app, 'd');
        assert!(app.status_is_error());
        press(&mut app, 'a');
        press(&mut app, 'd');
        assert_eq!(app.handle_key(key(code)), Flow::Continue);
        assert!(matches!(app.mode(), Mode::Browsing));
        assert_eq!(app.status().as_deref(), Some("Deletion cancelled"));
        assert!(!app.status_is_error());
        assert_eq!(app.selected_count(), 3);
        assert_eq!(app.cursor().selected, Some(0));
    }
}

#[test]
fn other_keys_do_nothing_in_the_confirmation() {
    for code in [Key::Enter, Key::Char('q'), Key::Char('d'), Key::Down, Key::Other] {
        let mut app = confirming(2);
        assert_eq!(app.handle_key(key(code)), Flow::Continue);
        assert!(matches!(app.mode(), Mode::Confirm));
    }
}

#[test]
fn results_are_dismissed() {
    for code in [Key::Enter, Key::Esc, Key::Char(' ')] {
        let mut app = results(2);
        assert_eq!(app.handle_key(key(code)), Flow::Continue);
        assert!(matches!(app.mode(), Mode::Browsing));
    }
}

#[test]
fn results_lead_to_a_rescan_or_out() {
    for c in ['r', 'R'] {
        let mut app = results(2);
        assert_eq!(press(&mut app, c), Flow::Rescan);
        assert!(matches!(app.mode(), Mode::Scanning));
    }
    for c in ['q', 'Q'] {
        assert_eq!(press(&mut results(2), c), Flow::Quit);
    }
    let mut app = results(2);
    assert_eq!(app.handle_key(key(Key::Down)), Flow::Continue);
    assert!(matches!(app.mode(), Mode::Results(_)));
}

#[test]
fn the_list_is_rescanned() {
    for c in ['r', 'R'] {
        let mut app = browsing(2);
        assert_eq!(press(&mut app, c), Flow::Rescan);
        assert!(matches!(app.mode(), Mode::Scanning));
        assert!(app.scan_open());
        assert!(app.workspaces().is_empty());
    }
}

#[test]
fn unknown_keys_do_nothing_in_the_list() {
    for code in [Key::Char('x'), Key::Enter, Key::Other, Key::Char('J'), Key::Char('y')] {
        let mut app = browsing(2);
        assert_eq!(app.handle_key(key(code)), Flow::Continue);
        assert!(matches!(app.mode(), Mode::Browsing));
        assert_eq!(app.cursor().selected, Some(0));
        assert_eq!(app.selected_count(), 0);
    }
}

#[test]
fn only_presses_count() {
    let mut app = browsing(3);
    let down = key(Key::Down);
    assert_eq!(app.handle_input(Input::Key(down, false)), Flow::Continue);
    assert_eq!(app.cursor().selected, Some(0));
    assert_eq!(app.handle_input(Input::Key(down, true)), Flow::Continue);
    assert_eq!(app.cursor().selected, Some(1));
    assert_eq!(
        app.handle_input(Input::Key(key(Key::Char('q')), false)),
        Flow::Continue
    );
    assert_eq!(
        app.handle_input(Input::Key(key(Key::Char('q')), true)),
        Flow::Quit
    );
}

#[test]
fn a_resize_is_drawn_at_once() {
    let mut app = browsing(3);
    assert_eq!(app.handle_input(Input::Resize), Flow::Redraw);
    assert_eq!(app.handle_input(Input::Other), Flow::Continue);
}

#[test]
fn the_spinner_moves_after_its_time() {
    let mut app = App::new(path("/"));
    assert!(!app.tick(119));
    assert_eq!(spinner(&app), "  | Scanning /...");
    for expected in ["/", "-", "\\", "|", "/"] {
        assert!(app.tick(120));
        assert_eq!(spinner(&app), format!("  {} Scanning /...", expected));
    }
}

#[test]
fn the_spinner_rests_when_no_scan_is_shown() {
    let mut app = browsing(1);
    assert!(!app.tick(5000));
    press(&mut app, 'r');
    assert_eq!(spinner(&app), "  | Scanning /src...");
}

#[test]
fn the_screen_is_drawn_on_changes_and_after_its_time() {
    assert!(draw_due(true, 0));
    assert!(draw_due(false, 100));
    assert!(!draw_due(false, 99));
}
