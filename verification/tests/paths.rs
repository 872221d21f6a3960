use std::path::Path;

use cargo_wipe::path::{same_bytes, FilePath};

fn path(text: &str) -> FilePath {
    FilePath::new(text.as_bytes().to_vec())
}

fn parent(text: &str) -> Option<String> {
    path(text).parent().map(|p| p.display())
}

fn name(text: &str) -> Option<String> {
    path(text)
        .file_name()
        .map(|n| String::from_utf8(n).unwrap())
}

const SAMPLES: [&str; 30] = [
    "", "/", "//", ".", "..", "./", "../", "a", "a/", "a//", "/a", "/a/", "//a", "./a", "../a",
    "a/.", "a/..", "a/./b", "a/../b", "a//b", "/a/b", "/a//b//", "/a/./b/.", "/.", "/..", "./.",
    "./..", "target", "/target", "x/target/",
];

#[test]
fn parent_drops_the_final_component() {
    assert_eq!(parent("/a/b"), Some("/a".to_string()));
    assert_eq!(parent("/a"), Some("/".to_string()));
    assert_eq!(parent("a"), Some("".to_string()));
    assert_eq!(parent("a/b/"), Some("a".to_string()));
    assert_eq!(parent("/a//b/./"), Some("/a".to_string()));
}

#[test]
fn root_and_empty_path_have_no_parent() {
    assert_eq!(parent("/"), None);
    assert_eq!(parent("//"), None);
    assert_eq!(parent(""), None);
}

#[test]
fn parents_agree_with_std() {
    for text in SAMPLES {
        let expected = Path::new(text).parent().map(|p| p.to_str().unwrap().to_string());
        assert_eq!(parent(text), expected, "{:?}", text);
    }
}

#[test]
fn file_names_agree_with_std() {
    for text in SAMPLES {
        let expected = Path::new(text)
            .file_name()
            .map(|n| n.to_str().unwrap().to_string());
        assert_eq!(name(text), expected, "{:?}", text);
    }
}

#[test]
fn file_name_is_an_ordinary_name() {
    assert_eq!(name("/a/b"), Some("b".to_string()));
    assert_eq!(name("a/b/."), Some("b".to_string()));
    assert_eq!(name("/"), None);
    assert_eq!(name("a/.."), None);
    assert_eq!(name("."), None);
}

#[test]
fn target_is_joined_under_a_directory() {
    assert_eq!(path("/a").join_target().bytes, b"/a/target".to_vec());
    assert_eq!(path("/a/").join_target().bytes, b"/a/target".to_vec());
    assert_eq!(path("/").join_target().bytes, b"/target".to_vec());
    assert_eq!(path("").join_target().bytes, b"target".to_vec());
    for text in SAMPLES {
        let expected = Path::new(text).join("target");
        assert_eq!(
            path(text).join_target().display(),
            expected.to_str().unwrap(),
            "{:?}",
            text
        );
    }
}

#[test]
fn a_target_lies_in_its_directory() {
    for text in SAMPLES {
        let target = path(text).join_target();
        assert!(target.is_named_target(), "{:?}", text);
        let up = target.parent().unwrap().display();
        assert_eq!(Path::new(&up), Path::new(text), "{:?}", text);
    }
}

#[test]
fn only_the_exact_name_is_target() {
    assert!(path("/a/target").is_named_target());
    assert!(path("target").is_named_target());
    assert!(path("/a/target/").is_named_target());
    assert!(path("/a/target/.").is_named_target());
    assert!(!path("/a/targets").is_named_target());
    assert!(!path("/a/Target").is_named_target());
    assert!(!path("/a/target/..").is_named_target());
    assert!(!path("/target/a").is_named_target());
    assert!(!path("/").is_named_target());
}

#[test]
fn valid_text_is_displayed_as_it_is() {
    assert_eq!(path("/home/ä/日本").display(), "/home/ä/日本");
}

#[test]
fn invalid_bytes_are_displayed_as_replacement_characters() {
    let odd = FilePath::new(vec![b'/', b'a', 0xff, b'b']);
    assert_eq!(odd.display(), "/a\u{fffd}b");
}

#[test]
fn a_clone_has_the_same_bytes() {
    let odd = FilePath::new(vec![b'/', 0xff, 0]);
    assert_eq!(odd.clone().bytes, vec![b'/', 0xff, 0]);
}

#[test]
fn bytes_are_compared_in_full() {
    assert!(same_bytes(b"", b""));
    assert!(same_bytes(b"abc", b"abc"));
    assert!(!same_bytes(b"abc", b"abd"));
    assert!(!same_bytes(b"abc", b"ab"));
}
