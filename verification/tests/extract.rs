use heroicons_codegen::extract::{parent, plan_extraction, starts_with_path, ExtractAction};
use std::path::Path;

fn chars(s: &str) -> Vec<char> {
    s.chars().collect()
}

#[test]
fn a_file_below_the_icons_is_written() {
    let path = "heroicons-master/optimized/24/solid/arrow-down.svg";
    assert_eq!(
        plan_extraction(path, Some(path)),
        ExtractAction::WriteFile {
            path: path.to_string(),
            parent: "heroicons-master/optimized/24/solid".to_string(),
        }
    );
}

#[test]
fn a_name_that_ends_in_a_slash_is_a_directory() {
    assert_eq!(
        plan_extraction("heroicons-master/optimized/24/", Some("heroicons-master/optimized/24")),
        ExtractAction::CreateDir { path: "heroicons-master/optimized/24".to_string() }
    );
    assert_eq!(
        plan_extraction("heroicons-master/optimized/", Some("heroicons-master/optimized")),
        ExtractAction::CreateDir { path: "heroicons-master/optimized".to_string() }
    );
}

#[test]
fn everything_else_is_skipped() {
    assert_eq!(plan_extraction("heroicons-master/README.md", Some("heroicons-master/README.md")), ExtractAction::Skip);
    assert_eq!(plan_extraction("heroicons-master/", Some("heroicons-master")), ExtractAction::Skip);
    assert_eq!(
        plan_extraction(
            "heroicons-master/optimized-old/a.svg",
            Some("heroicons-master/optimized-old/a.svg")
        ),
        ExtractAction::Skip
    );
    assert_eq!(plan_extraction("../heroicons-master/optimized/a.svg", None), ExtractAction::Skip);
    assert_eq!(plan_extraction("", Some("")), ExtractAction::Skip);
}

#[test]
fn starts_with_path_matches_whole_components() {
    let cases = [
        ("a/b/c", "a/b"),
        ("a/b", "a/b"),
        ("a/bc", "a/b"),
        ("a", "a/b"),
        ("a/b/", "a/b"),
        ("x/a/b", "a/b"),
        ("", "a"),
    ];
    for (path, base) in cases {
        assert_eq!(
            starts_with_path(&chars(path), &chars(base)),
            Path::new(path).starts_with(base),
            "{path} {base}"
        );
    }
}

#[test]
fn parent_is_what_stands_before_the_last_slash() {
    assert_eq!(parent(&chars("a/b/c.svg")), chars("a/b"));
    assert_eq!(parent(&chars("a/b")), chars("a"));
    assert_eq!(parent(&chars("c.svg")), chars(""));
    assert_eq!(parent(&chars("")), chars(""));
}
