use cargo_wipe::manifest::inspect_cargo_toml;

#[test]
fn a_package_is_told() {
    assert_eq!(
        inspect_cargo_toml("[package]\nname = \"x\"\n"),
        (false, true)
    );
}

#[test]
fn a_workspace_is_told() {
    assert_eq!(
        inspect_cargo_toml("[workspace]\nmembers = [\"a\"]\n"),
        (true, false)
    );
}

#[test]
fn both_are_told() {
    assert_eq!(
        inspect_cargo_toml("[package]\nname = \"x\"\n\n[workspace]\n"),
        (true, true)
    );
}

#[test]
fn tables_within_the_workspace_count() {
    assert_eq!(
        inspect_cargo_toml("[workspace.dependencies]\nserde = \"1\"\n"),
        (true, false)
    );
    assert_eq!(inspect_cargo_toml("[workspace.]"), (true, false));
}

#[test]
fn other_tables_do_not_count() {
    assert_eq!(inspect_cargo_toml(""), (false, false));
    assert_eq!(inspect_cargo_toml("\n\n"), (false, false));
    assert_eq!(
        inspect_cargo_toml("[dependencies]\n[package.metadata]\n[[package]]\n[workspaces]\n"),
        (false, false)
    );
    assert_eq!(inspect_cargo_toml("[ package ]\n"), (false, false));
    assert_eq!(inspect_cargo_toml("package = 1\n"), (false, false));
}

#[test]
fn comments_are_no_part_of_a_header() {
    assert_eq!(inspect_cargo_toml("[package] # stuff"), (false, true));
    assert_eq!(inspect_cargo_toml("[package]#[workspace]"), (false, true));
    assert_eq!(inspect_cargo_toml("# [package]\n#[workspace]"), (false, false));
}

#[test]
fn space_around_a_header_is_no_part_of_it() {
    assert_eq!(inspect_cargo_toml("  \t[package]  \t"), (false, true));
    assert_eq!(inspect_cargo_toml("\u{a0}[workspace]\u{3000}"), (true, false));
}

#[test]
fn carriage_returns_end_lines_too() {
    assert_eq!(
        inspect_cargo_toml("[package]\r\nname = \"x\"\r\n[workspace]\r\n"),
        (true, true)
    );
}

#[test]
fn the_last_line_needs_no_newline() {
    assert_eq!(inspect_cargo_toml("name\n[package]"), (false, true));
}

#[test]
fn a_header_stands_alone_on_its_line() {
    assert_eq!(inspect_cargo_toml("x [package]"), (false, false));
    assert_eq!(inspect_cargo_toml("[package] x"), (false, false));
    assert_eq!(inspect_cargo_toml("[package\n]"), (false, false));
}

#[test]
fn manifests_under_each_other_declare_what_either_does() {
    let parts = ["[package]", "[workspace]", "# nothing", "[workspace.package]"];
    for a in parts {
        for b in parts {
            let one = inspect_cargo_toml(a);
            let two = inspect_cargo_toml(b);
            assert_eq!(
                inspect_cargo_toml(&format!("{}\n{}", a, b)),
                (one.0 || two.0, one.1 || two.1)
            );
        }
    }
}
