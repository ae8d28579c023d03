use heroicons_codegen::names::{feature_path, file_stem, is_i32, module_name};
use std::path::Path;

fn chars(s: &str) -> Vec<char> {
    s.chars().collect()
}

fn text(v: Vec<char>) -> String {
    v.into_iter().collect()
}

#[test]
fn is_i32_accepts_signed_decimal_numbers_in_range() {
    for s in ["0", "24", "007", "+5", "-5", "-0", "2147483647", "-2147483648", "+2147483647"] {
        assert!(is_i32(&chars(s)), "{s}");
    }
}

#[test]
fn is_i32_refuses_everything_else() {
    for s in [
        "", "+", "-", "solid", "1a", "a1", " 1", "1 ", "1_0", "2147483648", "-2147483649",
        "99999999999999999999999", "--1", "+-1", "1.0", "\u{661}",
    ] {
        assert!(!is_i32(&chars(s)), "{s}");
    }
}

#[test]
fn is_i32_agrees_with_the_standard_parser() {
    for s in ["16", "20", "24", "mini", "micro", "-1", "+", "4294967296", "000000000000001", "٣"] {
        assert_eq!(is_i32(&chars(s)), s.parse::<i32>().is_ok(), "{s}");
    }
}

#[test]
fn module_name_prefixes_numbers() {
    assert_eq!(text(module_name(&chars("24"))), "size_24");
    assert_eq!(text(module_name(&chars("-16"))), "size_-16");
    assert_eq!(text(module_name(&chars("solid"))), "solid");
    assert_eq!(text(module_name(&chars("24px"))), "24px");
    assert_eq!(text(module_name(&chars(""))), "");
}

#[test]
fn file_stem_drops_the_last_extension() {
    assert_eq!(text(file_stem(&chars("arrow-down.svg"))), "arrow-down");
    assert_eq!(text(file_stem(&chars("a.b.svg"))), "a.b");
    assert_eq!(text(file_stem(&chars("noext"))), "noext");
    assert_eq!(text(file_stem(&chars(".hidden"))), ".hidden");
    assert_eq!(text(file_stem(&chars(".hidden.svg"))), ".hidden");
    assert_eq!(text(file_stem(&chars("a."))), "a");
    assert_eq!(text(file_stem(&chars(""))), "");
}

#[test]
fn file_stem_agrees_with_the_standard_library() {
    for name in ["arrow-down.svg", "a.b.svg", "noext", ".hidden", ".hidden.svg", "a.", "x.tar.gz"] {
        let expected = Path::new(name).file_stem().unwrap().to_string_lossy().into_owned();
        assert_eq!(text(file_stem(&chars(name))), expected, "{name}");
    }
}

#[test]
fn feature_path_joins_the_levels_below_the_icons() {
    let path = feature_path(&chars("heroicons-master/optimized/24/solid"));
    assert_eq!(path.map(text), Some("24-solid".to_string()));
    let path = feature_path(&chars("heroicons-master/optimized/16"));
    assert_eq!(path.map(text), Some("16".to_string()));
    let path = feature_path(&chars("heroicons-master/optimized/"));
    assert_eq!(path.map(text), Some(String::new()));
}

#[test]
fn feature_path_is_missing_outside_the_icons() {
    assert_eq!(feature_path(&chars("heroicons-master/optimized")), None);
    assert_eq!(feature_path(&chars("heroicons-master/optimizedx/24")), None);
    assert_eq!(feature_path(&chars("elsewhere/24/solid")), None);
    assert_eq!(feature_path(&chars("")), None);
}
