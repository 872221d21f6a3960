use cargo_wipe::app::{App, ListCursor, Mode, Position};
use cargo_wipe::keys::{Key, KeyPress};
use cargo_wipe::path::FilePath;
use cargo_wipe::poll::Polled;
use cargo_wipe::scan::{scan_messages, ScanMsg};
use cargo_wipe::workspace::Workspace;

fn path(text: &str) -> FilePath {
    FilePath::new(text.as_bytes().to_vec())
}

fn workspace(root: &str, size: u64) -> Workspace {
    Workspace {
        root: path(root),
        target_path: path(root).join_target(),
        target_size: size,
        selected: false,
    }
}

fn batch(list: &[(&str, u64)]) -> Polled {
    Polled::Message(ScanMsg::Batch(
        list.iter().map(|w| workspace(w.0, w.1)).collect(),
    ))
}

fn done() -> Polled {
    Polled::Message(ScanMsg::Done)
}

fn browsing(sizes: &[u64]) -> App {
    let mut app = App::new(path("/src"));
    let list: Vec<Workspace> = sizes
        .iter()
        .enumerate()
        .map(|(i, n)| workspace(&format!("/w{}", i), *n))
        .collect();
    assert!(app.poll_scan(vec![Polled::Message(ScanMsg::Batch(list)), done()]));
    app
}

fn ask_to_delete(app: &mut App) {
    let code = Key::Char('d');
    app.handle_key(KeyPress { code, modifiers: 0 });
}

fn roots(app: &App) -> Vec<String> {
    app.workspaces().iter().map(|w| w.root.display()).collect()
}

fn selected(app: &App) -> Vec<bool> {
    app.workspaces().iter().map(|w| w.selected).collect()
}

#[test]
fn the_application_starts_with_a_scan() {
    let app = App::new(path("/src"));
    assert!(matches!(app.mode(), Mode::Scanning));
    assert!(app.scan_open());
    assert!(app.workspaces().is_empty());
    assert_eq!(app.cursor().selected, None);
    assert_eq!(app.status().as_deref(), Some("Scanning /src..."));
    assert!(!app.status_is_error());
}

#[test]
fn a_rescan_starts_over() {
    let mut app = browsing(&[3, 2, 1]);
    app.move_cursor(2);
    app.scroll_to(1);
    ask_to_delete(&mut app);
    assert!(app.status_is_error());
    app.begin_rescan();
    assert!(matches!(app.mode(), Mode::Scanning));
    assert!(app.scan_open());
    assert!(app.workspaces().is_empty());
    assert_eq!(app.cursor().selected, None);
    assert_eq!(app.cursor().offset, 0);
    assert_eq!(app.status().as_deref(), Some("Rescanning /src..."));
    assert!(!app.status_is_error());
}

#[test]
fn highlighting_nothing_shows_the_list_from_its_beginning() {
    let mut cursor = ListCursor {
        selected: Some(7),
        offset: 4,
    };
    cursor.select(Some(5));
    assert_eq!((cursor.selected, cursor.offset), (Some(5), 4));
    cursor.select(None);
    assert_eq!((cursor.selected, cursor.offset), (None, 0));
}

#[test]
fn scrolling_keeps_the_highlight() {
    let mut app = browsing(&[3, 2, 1]);
    app.move_cursor(1);
    app.scroll_to(2);
    assert_eq!((app.cursor().selected, app.cursor().offset), (Some(1), 2));
    assert_eq!(roots(&app), vec!["/w0", "/w1", "/w2"]);
}

#[test]
fn counts_and_sums_follow_the_selection() {
    let mut app = browsing(&[30, 20, 10]);
    assert_eq!(app.total_size(), 60);
    assert_eq!((app.selected_count(), app.selected_size()), (0, 0));
    app.toggle_current();
    app.move_cursor(2);
    app.toggle_current();
    assert_eq!(selected(&app), vec![true, false, true]);
    assert_eq!((app.selected_count(), app.selected_size()), (2, 40));
}

#[test]
fn toggling_twice_changes_nothing() {
    let mut app = browsing(&[30, 20]);
    app.move_cursor(1);
    app.toggle_current();
    assert_eq!(selected(&app), vec![false, true]);
    app.toggle_current();
    assert_eq!(selected(&app), vec![false, false]);
}

#[test]
fn toggling_nothing_does_nothing() {
    let mut app = App::new(path("/src"));
    app.toggle_current();
    assert!(app.workspaces().is_empty());
}

#[test]
fn selecting_all_toggles() {
    let mut app = browsing(&[30, 20, 10]);
    app.toggle_current();
    app.select_all();
    assert_eq!(selected(&app), vec![true, true, true]);
    assert_eq!(app.selected_size(), app.total_size());
    app.select_all();
    assert_eq!(selected(&app), vec![false, false, false]);
}

#[test]
fn the_highlight_stays_in_the_list() {
    let mut app = browsing(&[5, 4, 3, 2, 1]);
    assert_eq!(app.cursor().selected, Some(0));
    app.move_cursor(-1);
    assert_eq!(app.cursor().selected, Some(0));
    app.move_cursor(3);
    assert_eq!(app.cursor().selected, Some(3));
    app.move_cursor(10);
    assert_eq!(app.cursor().selected, Some(4));
    app.move_cursor(-2);
    assert_eq!(app.cursor().selected, Some(2));
    app.move_cursor(isize::MIN);
    assert_eq!(app.cursor().selected, Some(0));
    app.move_cursor(isize::MAX);
    assert_eq!(app.cursor().selected, Some(4));
    app.move_cursor(isize::MAX);
    assert_eq!(app.cursor().selected, Some(4));
}

#[test]
fn down_and_up_lead_back() {
    let mut app = browsing(&[5, 4, 3]);
    app.move_cursor(1);
    app.move_cursor(1);
    app.move_cursor(-1);
    assert_eq!(app.cursor().selected, Some(1));
}

#[test]
fn an_empty_list_has_no_highlight() {
    let mut app = App::new(path("/src"));
    app.move_cursor(1);
    assert_eq!(app.cursor().selected, None);
    app.jump_to(Position::First);
    assert_eq!(app.cursor().selected, None);
    app.jump_to(Position::Last);
    assert_eq!(app.cursor().selected, None);
}

#[test]
fn the_highlight_jumps_to_either_end() {
    let mut app = browsing(&[5, 4, 3]);
    app.jump_to(Position::Last);
    assert_eq!(app.cursor().selected, Some(2));
    app.jump_to(Position::First);
    assert_eq!(app.cursor().selected, Some(0));
}

#[test]
fn a_finished_scan_shows_what_it_found() {
    let mut app = App::new(path("/src"));
    let changed = app.poll_scan(vec![batch(&[("/a", 100), ("/b", 300), ("/c", 200)]), done()]);
    assert!(changed);
    assert!(matches!(app.mode(), Mode::Browsing));
    assert!(!app.scan_open());
    assert_eq!(roots(&app), vec!["/b", "/c", "/a"]);
    assert_eq!(app.cursor().selected, Some(0));
    assert_eq!(
        app.status().as_deref(),
        Some("Found 3 workspaces (600 B total)")
    );
}

#[test]
fn large_sums_are_shown_in_larger_units() {
    let mut app = App::new(path("/src"));
    app.poll_scan(vec![batch(&[("/a", 1024 * 1024), ("/b", 512 * 1024)]), done()]);
    assert_eq!(
        app.status().as_deref(),
        Some("Found 2 workspaces (1.5 MiB total)")
    );
}

#[test]
fn a_scan_that_finds_nothing_says_so() {
    let mut app = App::new(path("/src"));
    assert!(app.poll_scan(vec![batch(&[]), done()]));
    assert_eq!(
        app.status().as_deref(),
        Some("No reclaimable target/ directories under /src")
    );
    assert!(!app.status_is_error());
    assert_eq!(app.cursor().selected, None);
}

#[test]
fn a_failed_scan_says_why() {
    let mut app = App::new(path("/src"));
    let messages = scan_messages(Err("scan root does not exist: /src".to_string()));
    let received = messages.into_iter().map(Polled::Message).collect();
    assert!(app.poll_scan(received));
    assert!(matches!(app.mode(), Mode::Browsing));
    assert!(app.status_is_error());
    assert_eq!(
        app.status().as_deref(),
        Some("Scan error: scan root does not exist: /src")
    );
}

#[test]
fn nothing_waiting_changes_nothing() {
    let mut app = App::new(path("/src"));
    assert!(!app.poll_scan(vec![Polled::Empty]));
    assert!(!app.poll_scan(Vec::new()));
    assert!(matches!(app.mode(), Mode::Scanning));
    assert!(app.scan_open());
    assert_eq!(app.status().as_deref(), Some("Scanning /src..."));
}

#[test]
fn a_chunk_is_shown_before_the_scan_is_over() {
    let mut app = App::new(path("/src"));
    assert!(app.poll_scan(vec![batch(&[("/a", 1), ("/b", 2)]), Polled::Empty]));
    assert!(matches!(app.mode(), Mode::Scanning));
    assert_eq!(roots(&app), vec!["/b", "/a"]);
    assert_eq!(app.cursor().selected, None);
    app.move_cursor(1);
    assert_eq!(app.cursor().selected, Some(1));
}

#[test]
fn a_lost_scan_is_over() {
    let mut app = App::new(path("/src"));
    assert!(app.poll_scan(vec![batch(&[("/a", 1)]), Polled::Disconnected]));
    assert!(matches!(app.mode(), Mode::Browsing));
    assert_eq!(app.status().as_deref(), Some("Found 1 workspaces (1 B total)"));
}

#[test]
fn nothing_is_taken_in_after_the_end() {
    let mut app = App::new(path("/src"));
    app.poll_scan(vec![done(), batch(&[("/late", 1)])]);
    assert!(app.workspaces().is_empty());
    assert!(!app.poll_scan(vec![batch(&[("/later", 1)]), done()]));
    assert!(app.workspaces().is_empty());
}

#[test]
fn chunks_make_no_difference() {
    let parts = [("/a", 5), ("/b", 7), ("/c", 5), ("/d", 7), ("/e", 6)];
    let mut whole = App::new(path("/src"));
    whole.poll_scan(vec![batch(&parts), done()]);
    for at in 0..=parts.len() {
        let mut app = App::new(path("/src"));
        app.poll_scan(vec![batch(&parts[..at]), batch(&parts[at..]), done()]);
        assert_eq!(roots(&app), roots(&whole));
        assert_eq!(app.status(), whole.status());
    }
    assert_eq!(roots(&whole), vec!["/b", "/d", "/e", "/a", "/c"]);
}

#[test]
fn dialogs_outlast_the_scan() {
    let mut app = App::new(path("/src"));
    app.poll_scan(vec![batch(&[("/a", 1)]), Polled::Empty]);
    app.select_all();
    ask_to_delete(&mut app);
    assert!(matches!(app.mode(), Mode::Confirm));
    assert!(app.poll_scan(vec![done()]));
    assert!(matches!(app.mode(), Mode::Confirm));
    assert!(!app.scan_open());
}

#[test]
fn the_channel_is_looked_at_until_nothing_more_can_come() {
    assert!(!batch(&[]).ends_poll());
    assert!(!Polled::Message(ScanMsg::Error(String::new())).ends_poll());
    assert!(done().ends_poll());
    assert!(Polled::Empty.ends_poll());
    assert!(Polled::Disconnected.ends_poll());
}

#[test]
fn sizes_must_add_up_to_a_number_that_fits() {
    let app = browsing(&[10]);
    assert!(app.can_poll(&vec![batch(&[("/a", u64::MAX - 10)])]));
    assert!(!app.can_poll(&vec![batch(&[("/a", u64::MAX - 9)])]));
    assert!(!app.can_poll(&vec![batch(&[("/a", u64::MAX - 10)]), batch(&[("/b", 1)])]));
    assert!(app.can_poll(&vec![done(), batch(&[("/a", u64::MAX)])]));
    assert!(app.can_poll(&Vec::new()));
}
