use integration_aggressor::path::TestPath;
use std::path::Path;

fn name(path: &str) -> Option<String> {
    TestPath::of(path.to_string()).file_name
}

#[test]
fn file_names_are_those_of_the_platform() {
    let paths = [
        "/build/libc/x.__build__",
        "x",
        "",
        "/",
        "//",
        "//server/share",
        ".",
        "./",
        "./x",
        "..",
        "a/..",
        "a/.",
        "a/./",
        "a//b//",
        "a/b/.",
        "/.",
        "...",
        "a/...",
        ".hidden",
        "a/.hidden/",
        "tést/näme",
        "a./",
        "a/..b",
        "a\\b",
        "threads/sub\\a.__build__",
        "C:",
        "C:a",
        "C:\\a",
        "\\\\?\\C:\\a/b",
        "a/b:c",
    ];
    for path in paths {
        let expected = Path::new(path).file_name().and_then(|n| n.to_str());
        assert_eq!(name(path).as_deref(), expected, "{path}");
    }
}

#[test]
fn plain_paths_have_the_same_name_everywhere() {
    for (path, expected) in [
        ("/build/x.__build__", Some("x.__build__")),
        ("a//b//", Some("b")),
        ("a/b/.", Some("b")),
        ("./x", Some("x")),
        ("a/b:c", Some("b:c")),
        ("a/...", Some("...")),
        ("/", None),
        ("", None),
        (".", None),
        ("a/..", None),
    ] {
        assert_eq!(name(path).as_deref(), expected, "{path}");
    }
}

#[test]
fn a_test_is_shown_by_its_name_or_its_path() {
    let test = TestPath::of("/t/a".to_string());
    assert_eq!(test.path, "/t/a");
    assert_eq!(test.shown_text(), "a");
    assert_eq!(test.name_or_text("none"), "a");
    assert_eq!(test.clone(), test);
    let root = TestPath::of("/".to_string());
    assert_eq!(root.shown_text(), "/");
    assert_eq!(root.name_or_text("none"), "none");
}
