use cargo_wipe::start::{determine_start_dir, needs_next};

fn start(args: &[&str], home: Option<&str>) -> String {
    let args: Vec<String> = args.iter().map(|a| a.to_string()).collect();
    determine_start_dir(&args, home)
}

#[test]
fn the_argument_is_where_the_scan_starts() {
    assert_eq!(start(&["/src"], Some("/home/me")), "/src");
    assert_eq!(start(&["/src", "/other"], None), "/src");
}

#[test]
fn the_argument_of_the_subcommand_is_where_the_scan_starts() {
    assert_eq!(start(&["wipe", "/src"], Some("/home/me")), "/src");
}

#[test]
fn without_an_argument_the_scan_starts_at_home() {
    assert_eq!(start(&[], Some("/home/me")), "/home/me");
    assert_eq!(start(&["wipe"], Some("/home/me")), "/home/me");
}

#[test]
fn without_a_home_the_scan_starts_here() {
    assert_eq!(start(&[], None), ".");
    assert_eq!(start(&["wipe"], None), ".");
    assert_eq!(start(&[], Some("")), ".");
}

#[test]
fn an_empty_argument_is_taken_as_it_is() {
    assert_eq!(start(&[""], Some("/home/me")), "");
}

#[test]
fn the_subcommand_name_can_itself_be_a_directory() {
    assert_eq!(start(&["wipe", "wipe"], Some("/home/me")), "wipe");
}

#[test]
fn arguments_are_read_as_far_as_they_matter() {
    assert!(needs_next(&Vec::new()));
    assert!(needs_next(&vec!["wipe".to_string()]));
    assert!(!needs_next(&vec!["/src".to_string()]));
    assert!(!needs_next(&vec!["wipe".to_string(), "/src".to_string()]));
    assert!(!needs_next(&vec!["wipe".to_string(), "wipe".to_string()]));
}

#[test]
fn arguments_that_are_not_read_make_no_difference() {
    for read in [vec!["/src"], vec!["wipe", "/src"], vec!["wipe", "wipe"]] {
        let mut all = read.clone();
        all.push("/more");
        assert_eq!(start(&all, None), start(&read, None));
    }
}
