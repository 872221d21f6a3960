use cargo_wipe::app::{App, Mode};
use cargo_wipe::delete::{delete_target, refuse, Removal};
use cargo_wipe::input::Flow;
use cargo_wipe::keys::{Key, KeyPress};
use cargo_wipe::path::FilePath;
use cargo_wipe::poll::Polled;
use cargo_wipe::scan::ScanMsg;
use cargo_wipe::workspace::Workspace;

fn path(text: &str) -> FilePath {
    FilePath::new(text.as_bytes().to_vec())
}

fn workspace(root: &str, target: &str, size: u64, selected: bool) -> Workspace {
    Workspace {
        root: path(root),
        target_path: path(target),
        target_size: size,
        selected,
    }
}

fn confirming(list: Vec<Workspace>, at: isize) -> App {
    let mut app = App::new(path("/src"));
    app.poll_scan(vec![
        Polled::Message(ScanMsg::Batch(list)),
        Polled::Message(ScanMsg::Done),
    ]);
    app.move_cursor(at);
    let code = Key::Char('d');
    let flow = app.handle_key(KeyPress { code, modifiers: 0 });
    assert_eq!(flow, Flow::Continue);
    assert!(matches!(app.mode(), Mode::Confirm));
    app
}

fn failed(cause: &str) -> Removal {
    Err(cause.to_string())
}

fn roots(app: &App) -> Vec<String> {
    app.workspaces().iter().map(|w| w.root.display()).collect()
}

fn outcomes(app: &App) -> Vec<(String, u64, Option<String>)> {
    match app.mode() {
        Mode::Results(list) => list
            .iter()
            .map(|o| (o.root.display(), o.freed, o.error.clone()))
            .collect(),
        other => panic!("{:?}", other),
    }
}

#[test]
fn an_empty_path_is_refused() {
    assert_eq!(refuse(&path("")), Some("empty target path".to_string()));
}

#[test]
fn a_path_without_a_parent_is_refused() {
    assert_eq!(
        refuse(&path("/")),
        Some("refusing to delete / (no parent)".to_string())
    );
}

#[test]
fn a_path_of_another_name_is_refused() {
    assert_eq!(
        refuse(&path("/home/me")),
        Some("refusing to delete non-target path /home/me".to_string())
    );
    assert_eq!(
        refuse(&path("/a/target/..")),
        Some("refusing to delete non-target path /a/target/..".to_string())
    );
    assert_eq!(
        refuse(&FilePath::new(vec![b'a', 0xfe])),
        Some("refusing to delete non-target path a\u{fffd}".to_string())
    );
}

#[test]
fn a_target_is_not_refused() {
    assert_eq!(refuse(&path("/a/target")), None);
    assert_eq!(refuse(&path("/target")), None);
    assert_eq!(refuse(&path("target")), None);
    assert_eq!(refuse(&path("/a").join_target()), None);
}

#[test]
fn a_deletion_frees_the_size_of_the_target() {
    let ws = workspace("/a", "/a/target", 42, true);
    assert_eq!(delete_target(&ws, &Ok(())), Ok(42));
}

#[test]
fn a_failed_removal_says_what_was_removed_and_why_not() {
    let ws = workspace("/a", "/a/target", 42, true);
    assert_eq!(
        delete_target(&ws, &failed("Permission denied (os error 13)")),
        Err("removing /a/target: Permission denied (os error 13)".to_string())
    );
}

#[test]
fn a_refused_deletion_says_so_whatever_the_removal() {
    let ws = workspace("/a", "/a/src", 42, true);
    let expected = Err("refusing to delete non-target path /a/src".to_string());
    assert_eq!(delete_target(&ws, &Ok(())), expected);
    assert_eq!(delete_target(&ws, &failed("x")), expected);
}

#[test]
fn pending_are_the_selected_targets_that_are_not_refused() {
    let app = confirming(
        vec![
            workspace("/a", "/a/target", 9, true),
            workspace("/b", "/b/target", 8, false),
            workspace("/c", "/c/src", 7, true),
            workspace("/d", "/d/target", 6, true),
        ],
        0,
    );
    let pending: Vec<String> = app.pending_deletes().iter().map(|p| p.display()).collect();
    assert_eq!(pending, vec!["/a/target", "/d/target"]);
}

#[test]
fn what_is_deleted_leaves_the_list() {
    let mut app = confirming(
        vec![
            workspace("/a", "/a/target", 500, true),
            workspace("/b", "/b/target", 400, false),
            workspace("/c", "/c/target", 300, true),
        ],
        2,
    );
    assert_eq!(app.selected_size(), 800);
    app.run_delete(&vec![Ok(()), Ok(())]);
    assert_eq!(roots(&app), vec!["/b"]);
    assert_eq!(
        outcomes(&app),
        vec![
            ("/a".to_string(), 500, None),
            ("/c".to_string(), 300, None)
        ]
    );
    assert_eq!(
        app.status().as_deref(),
        Some("Freed 800 B across 2 workspaces")
    );
    assert!(!app.status_is_error());
    assert_eq!(app.cursor().selected, Some(0));
}

#[test]
fn what_fails_stays_and_is_reported() {
    let mut app = confirming(
        vec![
            workspace("/a", "/a/target", 500, true),
            workspace("/b", "/b/src", 400, true),
            workspace("/c", "/c/target", 300, true),
            workspace("/d", "/d/target", 200, false),
        ],
        3,
    );
    app.run_delete(&vec![Ok(()), failed("busy")]);
    assert_eq!(roots(&app), vec!["/b", "/c", "/d"]);
    assert_eq!(
        outcomes(&app),
        vec![
            ("/a".to_string(), 500, None),
            (
                "/b".to_string(),
                0,
                Some("refusing to delete non-target path /b/src".to_string())
            ),
            (
                "/c".to_string(),
                0,
                Some("removing /c/target: busy".to_string())
            ),
        ]
    );
    assert_eq!(
        app.status().as_deref(),
        Some("Freed 500 B across 1 workspaces (2 errors)")
    );
    assert!(app.status_is_error());
    assert_eq!(app.cursor().selected, Some(2));
}

#[test]
fn one_error_is_singular() {
    let mut app = confirming(vec![workspace("/a", "/a/target", 500, true)], 0);
    app.run_delete(&vec![failed("busy")]);
    assert_eq!(
        app.status().as_deref(),
        Some("Freed 0 B across 0 workspaces (1 error)")
    );
    assert_eq!(app.cursor().selected, Some(0));
}

#[test]
fn with_everything_deleted_nothing_is_highlighted() {
    let mut app = confirming(
        vec![
            workspace("/a", "/a/target", 1024 * 1024, true),
            workspace("/b", "/b/target", 1024 * 1024, true),
        ],
        1,
    );
    app.scroll_to(1);
    app.run_delete(&vec![Ok(()), Ok(())]);
    assert!(app.workspaces().is_empty());
    assert_eq!(app.cursor().selected, None);
    assert_eq!(app.cursor().offset, 0);
    assert_eq!(
        app.status().as_deref(),
        Some("Freed 2.0 MiB across 2 workspaces")
    );
}

#[test]
fn freed_and_remaining_add_up() {
    let mut app = confirming(
        vec![
            workspace("/a", "/a/target", 500, true),
            workspace("/b", "/b/target", 400, true),
            workspace("/c", "/c/target", 300, false),
        ],
        0,
    );
    let before = app.total_size();
    app.run_delete(&vec![failed("busy"), Ok(())]);
    let freed: u64 = outcomes(&app).iter().map(|o| o.1).sum();
    assert_eq!(freed + app.total_size(), before);
}
