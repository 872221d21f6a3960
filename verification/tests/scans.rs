use cargo_wipe::path::FilePath;
use cargo_wipe::scan::{
    dir_size, enters, find_roots, is_manifest, is_root, is_skippable_dir, scan, scan_found,
    scan_messages, visit, Candidate, FileEntry, ScanMsg,
};
use cargo_wipe::workspace::{sort_by_size, Workspace};

fn path(text: &str) -> FilePath {
    FilePath::new(text.as_bytes().to_vec())
}

fn candidate(root: &str, has_workspace: bool, has_package: bool) -> Candidate {
    Candidate {
        root: path(root),
        has_workspace,
        has_package,
    }
}

fn roots(all: Vec<Candidate>) -> Vec<String> {
    find_roots(&all).iter().map(|c| c.root.display()).collect()
}

fn file(len: u64) -> FileEntry {
    FileEntry {
        is_file: true,
        len: Some(len),
    }
}

fn workspace(root: &str, size: u64) -> Workspace {
    Workspace {
        root: path(root),
        target_path: path(root).join_target(),
        target_size: size,
        selected: false,
    }
}

fn order(list: &[Workspace]) -> Vec<(String, u64)> {
    list.iter()
        .map(|w| (w.root.display(), w.target_size))
        .collect()
}

#[test]
fn build_and_vcs_directories_are_skipped() {
    for name in ["target", ".git", "node_modules", ".svn", ".hg", ".cache", "...", ".a"] {
        assert!(is_skippable_dir(name), "{}", name);
    }
    for name in ["src", "targets", "git", "a.b", ".", "..", ""] {
        assert!(!is_skippable_dir(name), "{}", name);
    }
}

#[test]
fn the_walk_enters_its_start_whatever_its_name() {
    assert!(enters(0, true, Some("target")));
    assert!(enters(0, true, Some(".hidden")));
    assert!(enters(0, true, None));
}

#[test]
fn the_walk_skips_directories_only() {
    assert!(enters(1, false, Some("target")));
    assert!(enters(3, false, None));
    assert!(enters(1, true, Some("src")));
    assert!(!enters(1, true, Some("target")));
    assert!(!enters(2, true, Some(".git")));
    assert!(!enters(1, true, None));
}

#[test]
fn manifests_are_files_named_cargo_toml() {
    assert!(is_manifest(&path("/a/Cargo.toml"), true));
    assert!(is_manifest(&path("Cargo.toml"), true));
    assert!(!is_manifest(&path("/a/Cargo.toml"), false));
    assert!(!is_manifest(&path("/a/cargo.toml"), true));
    assert!(!is_manifest(&path("/a/Cargo.lock"), true));
    assert!(!is_manifest(&path("/"), true));
}

#[test]
fn a_visited_manifest_makes_a_candidate() {
    let mut found = Vec::new();
    visit(&mut found, &path("/a/Cargo.toml"), true, Some("[package]"));
    visit(&mut found, &path("/b/Cargo.toml"), true, Some("[workspace]\n[package]"));
    assert_eq!(found.len(), 2);
    assert_eq!(found[0].root.display(), "/a");
    assert!(!found[0].has_workspace && found[0].has_package);
    assert_eq!(found[1].root.display(), "/b");
    assert!(found[1].has_workspace && found[1].has_package);
}

#[test]
fn manifests_at_different_places_make_different_candidates() {
    let mut found = Vec::new();
    for place in ["/Cargo.toml", "/a/Cargo.toml", "/a/b/Cargo.toml", "/b/Cargo.toml"] {
        visit(&mut found, &path(place), true, Some("[package]"));
    }
    let places: Vec<String> = found.iter().map(|c| c.root.display()).collect();
    assert_eq!(places, vec!["/", "/a", "/a/b", "/b"]);
}

#[test]
fn a_walk_that_meets_each_manifest_once_lists_each_root_once() {
    let mut found = Vec::new();
    visit(&mut found, &path("/w/Cargo.toml"), true, Some("[workspace]"));
    visit(&mut found, &path("/w/m/Cargo.toml"), true, Some("[package]"));
    visit(&mut found, &path("/p/Cargo.toml"), true, Some("[package]"));
    let listed = scan_found(&path("/"), true, &found, &vec![Some(1), Some(2)]).unwrap();
    assert_eq!(
        order(&listed),
        vec![("/p".to_string(), 2), ("/w".to_string(), 1)]
    );
}

#[test]
fn anything_else_visited_makes_none() {
    let mut found = Vec::new();
    visit(&mut found, &path("/a/Cargo.toml"), false, Some("[package]"));
    visit(&mut found, &path("/a/Other.toml"), true, Some("[package]"));
    visit(&mut found, &path("/a/Cargo.toml"), true, None);
    visit(&mut found, &path("/a/Cargo.toml"), true, Some("[dependencies]"));
    assert!(found.is_empty());
}

#[test]
fn a_workspace_is_always_a_root() {
    let all = vec![candidate("/w", true, false), candidate("/w/inner", true, true)];
    assert!(is_root(&all[0], &all));
    assert!(is_root(&all[1], &all));
}

#[test]
fn a_lone_package_is_a_root() {
    let all = vec![candidate("/p", false, true)];
    assert!(is_root(&all[0], &all));
}

#[test]
fn a_member_is_no_root() {
    assert_eq!(
        roots(vec![
            candidate("/w", true, false),
            candidate("/w/a", false, true),
            candidate("/w/deep/er/b", false, true),
            candidate("/wx", false, true),
        ]),
        vec!["/w", "/wx"]
    );
}

#[test]
fn members_are_told_wherever_their_workspace_stands_in_the_list() {
    assert_eq!(
        roots(vec![
            candidate("/w/a", false, true),
            candidate("/w", true, true),
        ]),
        vec!["/w"]
    );
}

#[test]
fn a_package_does_not_own_the_packages_below_it() {
    assert_eq!(
        roots(vec![
            candidate("/p", false, true),
            candidate("/p/q", false, true),
        ]),
        vec!["/p", "/p/q"]
    );
}

#[test]
fn ownership_reaches_past_a_package_in_between() {
    assert_eq!(
        roots(vec![
            candidate("/w", true, false),
            candidate("/w/p", false, true),
            candidate("/w/p/q", false, true),
        ]),
        vec!["/w"]
    );
}

#[test]
fn the_root_directory_can_own_packages() {
    assert_eq!(
        roots(vec![candidate("/", true, false), candidate("/p", false, true)]),
        vec!["/"]
    );
}

#[test]
fn relative_places_own_packages_too() {
    assert_eq!(
        roots(vec![candidate("", true, false), candidate("p/q", false, true)]),
        vec![""]
    );
    assert_eq!(
        roots(vec![candidate(".", true, false), candidate("./p", false, true)]),
        vec!["."]
    );
}

#[test]
fn places_are_compared_by_their_components() {
    assert_eq!(
        roots(vec![
            candidate("/w//x/./", true, false),
            candidate("/w/x/p", false, true),
        ]),
        vec!["/w//x/./"]
    );
}

#[test]
fn the_first_candidate_at_a_place_speaks_for_it() {
    assert_eq!(
        roots(vec![
            candidate("/w", false, true),
            candidate("/w", true, false),
            candidate("/w/p", false, true),
        ]),
        vec!["/w", "/w", "/w/p"]
    );
}

#[test]
fn neither_section_is_no_root() {
    let all = vec![candidate("/n", false, false)];
    assert!(!is_root(&all[0], &all));
}

#[test]
fn sizes_of_regular_files_are_summed() {
    let entries = vec![
        file(100),
        FileEntry {
            is_file: false,
            len: Some(4096),
        },
        FileEntry {
            is_file: true,
            len: None,
        },
        file(23),
    ];
    assert_eq!(dir_size(&entries), Some(123));
    assert_eq!(dir_size(&Vec::new()), Some(0));
}

#[test]
fn a_sum_that_does_not_fit_is_none() {
    assert_eq!(dir_size(&vec![file(u64::MAX)]), Some(u64::MAX));
    assert_eq!(dir_size(&vec![file(u64::MAX), file(0)]), Some(u64::MAX));
    assert_eq!(dir_size(&vec![file(u64::MAX), file(1)]), None);
}

#[test]
fn parts_of_a_directory_add_up() {
    let first = vec![file(1), file(20)];
    let second = vec![file(300)];
    let both: Vec<FileEntry> = first.iter().chain(second.iter()).copied().collect();
    assert_eq!(
        dir_size(&both).unwrap(),
        dir_size(&first).unwrap() + dir_size(&second).unwrap()
    );
}

#[test]
fn a_scan_lists_the_largest_first() {
    let found = scan(
        &path("/"),
        true,
        vec![
            candidate("/a", false, true),
            candidate("/b", true, false),
            candidate("/c", false, true),
        ],
        &vec![Some(10), Some(300), Some(20)],
    )
    .unwrap();
    assert_eq!(
        order(&found),
        vec![
            ("/b".to_string(), 300),
            ("/c".to_string(), 20),
            ("/a".to_string(), 10)
        ]
    );
    assert_eq!(found[0].target_path.display(), "/b/target");
    assert!(found.iter().all(|w| !w.selected));
}

#[test]
fn missing_and_empty_targets_are_not_listed() {
    let found = scan(
        &path("/"),
        true,
        vec![
            candidate("/a", false, true),
            candidate("/b", false, true),
            candidate("/c", false, true),
        ],
        &vec![None, Some(0), Some(1)],
    )
    .unwrap();
    assert_eq!(order(&found), vec![("/c".to_string(), 1)]);
}

#[test]
fn a_scan_lists_the_roots_among_what_was_found() {
    let found = vec![
        candidate("/w", true, false),
        candidate("/w/member", false, true),
        candidate("/p", false, true),
        candidate("/q", false, true),
    ];
    let listed = scan_found(&path("/"), true, &found, &vec![Some(10), Some(30), None]).unwrap();
    assert_eq!(
        order(&listed),
        vec![("/p".to_string(), 30), ("/w".to_string(), 10)]
    );
}

#[test]
fn what_was_found_is_not_listed_where_the_start_is_missing() {
    let found = vec![candidate("/p", false, true)];
    let error = scan_found(&path("/nowhere"), false, &found, &Vec::new()).unwrap_err();
    assert_eq!(error, "scan root does not exist: /nowhere");
}

#[test]
fn a_missing_start_is_an_error() {
    let error = scan(&path("/nowhere"), false, Vec::new(), &Vec::new()).unwrap_err();
    assert_eq!(error, "scan root does not exist: /nowhere");
}

#[test]
fn equal_sizes_keep_their_order() {
    let sorted = sort_by_size(vec![
        workspace("/a", 5),
        workspace("/b", 7),
        workspace("/c", 5),
        workspace("/d", 7),
        workspace("/e", 9),
    ]);
    let names: Vec<String> = sorted.iter().map(|w| w.root.display()).collect();
    assert_eq!(names, vec!["/e", "/b", "/d", "/a", "/c"]);
}

#[test]
fn a_scan_sends_its_list_and_then_done() {
    let messages = scan_messages(Ok(vec![workspace("/a", 5)]));
    assert_eq!(messages.len(), 2);
    match &messages[0] {
        ScanMsg::Batch(list) => assert_eq!(order(list), vec![("/a".to_string(), 5)]),
        other => panic!("{:?}", other),
    }
    assert!(matches!(messages[1], ScanMsg::Done));
}

#[test]
fn a_scan_sends_its_error_and_then_done() {
    let messages = scan_messages(Err("broken".to_string()));
    assert_eq!(messages.len(), 2);
    match &messages[0] {
        ScanMsg::Error(text) => assert_eq!(text, "broken"),
        other => panic!("{:?}", other),
    }
    assert!(matches!(messages[1], ScanMsg::Done));
}

#[test]
fn a_candidate_clones_whole() {
    let copy = candidate("/a", true, false).clone();
    assert_eq!(copy.root.display(), "/a");
    assert!(copy.has_workspace && !copy.has_package);
}
