use heroicons_codegen::constants::OPTIMIZED_PATH;
use heroicons_codegen::error::{GenerateError, ManifestError};
use heroicons_codegen::library::{generate_library, render_entries, Entry};
use heroicons_codegen::manifest::{
    declare_features, install_features, new_feature_table, read_manifest, update_manifest,
    write_manifest,
};

fn icon(name: &str, svg: &str) -> Entry {
    Entry::Icon { name: name.to_string(), svg: svg.to_string() }
}

fn dir(name: &str, children: Vec<Entry>) -> Entry {
    Entry::Dir { name: name.to_string(), children }
}

fn chars(s: &str) -> Vec<char> {
    s.chars().collect()
}

fn is_empty_array(value: Option<&toml::Value>) -> bool {
    match value {
        Some(toml::Value::Array(items)) => items.is_empty(),
        _ => false,
    }
}

const ARROW: &str = "<svg xmlns=\"x\">\n  <path d=\"M0\"/>\n</svg>\n";

const SMALL_LIBRARY: &str = "pub mod size_24 {
    #[allow(unused_imports)]
    use leptos::*;

    pub mod solid {
        #[allow(unused_imports)]
        use leptos::*;

        #[cfg(any(feature = \"24-solid-arrow-down\", feature = \"24-solid\"))]
        #[component]
        pub fn ArrowDown(
            cx: Scope,
            #[prop(optional, into)] class: Option<AttributeValue>,
        ) -> impl IntoView {
            view! { cx,
                <svg class=class xmlns=\"x\">
                  <path d=\"M0\"/>
                </svg>
            }
        }
        \n    }

}

";

fn small_tree() -> Vec<Entry> {
    vec![dir("24", vec![dir("solid", vec![icon("arrow-down.svg", ARROW)])])]
}

#[test]
fn generate_library_writes_modules_and_components() {
    let mut features = new_feature_table();
    let source = generate_library(&small_tree(), &mut features, OPTIMIZED_PATH, 0);
    assert_eq!(source, Ok(SMALL_LIBRARY.to_string()));
}

#[test]
fn generate_library_declares_the_icon_and_its_family() {
    let mut features = new_feature_table();
    generate_library(&small_tree(), &mut features, OPTIMIZED_PATH, 0).unwrap();
    let keys: Vec<&str> = features.keys().map(|k| k.as_str()).collect();
    assert_eq!(keys, vec!["24-solid", "24-solid-arrow-down", "default"]);
    assert!(is_empty_array(features.get("24-solid")));
    assert!(is_empty_array(features.get("24-solid-arrow-down")));
    assert!(is_empty_array(features.get("default")));
}

#[test]
fn generate_library_twice_gives_the_same_text() {
    let tree = vec![
        dir("16", vec![dir("solid", vec![icon("x-mark.svg", ARROW), icon("bolt.svg", ARROW)])]),
        dir("24", vec![dir("outline", vec![icon("bolt.svg", ARROW)]), dir("solid", vec![])]),
    ];
    let mut first_features = new_feature_table();
    let first = generate_library(&tree, &mut first_features, OPTIMIZED_PATH, 0).unwrap();
    let mut second_features = new_feature_table();
    let second = generate_library(&tree, &mut second_features, OPTIMIZED_PATH, 0).unwrap();
    assert_eq!(first, second);
    assert_eq!(first_features, second_features);
    assert_eq!(first_features.len(), 6);
}

#[test]
fn generate_library_keeps_the_order_of_the_entries() {
    let tree = vec![dir("20", vec![dir("solid", vec![icon("b.svg", ARROW), icon("a.svg", ARROW)])])];
    let (source, features) = render_entries(&tree, &chars(OPTIMIZED_PATH), 0).unwrap();
    assert!(source.find("pub fn B(").unwrap() < source.find("pub fn A(").unwrap());
    assert_eq!(features, vec!["20-solid-b", "20-solid", "20-solid-a", "20-solid"]);
}

#[test]
fn generate_library_of_nothing_is_empty() {
    let mut features = new_feature_table();
    assert_eq!(generate_library(&vec![], &mut features, OPTIMIZED_PATH, 0), Ok(String::new()));
    assert_eq!(features, new_feature_table());
}

#[test]
fn an_empty_directory_is_an_empty_module() {
    let tree = vec![dir("solid", vec![])];
    let mut features = new_feature_table();
    let source = generate_library(&tree, &mut features, OPTIMIZED_PATH, 1).unwrap();
    assert_eq!(
        source,
        "    pub mod solid {\n        #[allow(unused_imports)]\n        use leptos::*;\n\n    }\n\n"
    );
}

#[test]
fn an_icon_outside_a_family_is_refused() {
    let tree = vec![dir("24", vec![]), icon("stray.svg", ARROW)];
    let mut features = new_feature_table();
    assert_eq!(
        generate_library(&tree, &mut features, OPTIMIZED_PATH, 0),
        Err(GenerateError::OutsideFamily)
    );
    assert_eq!(features, new_feature_table());
    assert_eq!(
        generate_library(&vec![icon("a.svg", ARROW)], &mut features, "elsewhere/24", 0),
        Err(GenerateError::OutsideFamily)
    );
}

#[test]
fn a_depth_whose_indent_overflows_is_refused() {
    let mut features = new_feature_table();
    assert_eq!(
        generate_library(&vec![], &mut features, OPTIMIZED_PATH, usize::MAX / 4 + 1),
        Err(GenerateError::TooDeep)
    );
    assert_eq!(
        generate_library(&vec![dir("a", vec![])], &mut features, OPTIMIZED_PATH, usize::MAX / 4),
        Err(GenerateError::TooDeep)
    );
    assert_eq!(
        generate_library(&vec![], &mut features, OPTIMIZED_PATH, usize::MAX / 4),
        Ok(String::new())
    );
}

#[test]
fn new_feature_table_holds_only_default() {
    let table = new_feature_table();
    assert_eq!(table.len(), 1);
    assert!(is_empty_array(table.get("default")));
}

#[test]
fn declare_features_adds_each_name_once() {
    let mut table = new_feature_table();
    table.insert("old".to_string(), toml::Value::Integer(1));
    let names = vec!["a".to_string(), "b".to_string(), "a".to_string(), "old".to_string()];
    declare_features(&mut table, &names);
    let keys: Vec<&str> = table.keys().map(|k| k.as_str()).collect();
    assert_eq!(keys, vec!["a", "b", "default", "old"]);
    assert!(is_empty_array(table.get("a")));
    assert!(is_empty_array(table.get("b")));
    assert!(is_empty_array(table.get("old")));
}

#[test]
fn update_manifest_replaces_the_features() {
    let manifest = "[package]\nname = \"icons\"\n\n[features]\nstale = []\n";
    let mut features = new_feature_table();
    declare_features(&mut features, &vec!["24-solid".to_string()]);
    let text = update_manifest(manifest, features).unwrap();
    let written: toml::Table = toml::from_str(&text).unwrap();
    let keys: Vec<&str> = written.keys().map(|k| k.as_str()).collect();
    assert_eq!(keys, vec!["features", "package"]);
    let table = written.get("features").unwrap().as_table().unwrap();
    let names: Vec<&str> = table.keys().map(|k| k.as_str()).collect();
    assert_eq!(names, vec!["24-solid", "default"]);
    assert_eq!(written["package"]["name"].as_str(), Some("icons"));
}

#[test]
fn update_manifest_refuses_what_is_no_toml() {
    assert_eq!(update_manifest("[package", new_feature_table()), Err(ManifestError::Unreadable));
}

#[test]
fn install_features_replaces_the_table_of_that_name() {
    let mut manifest: toml::Table = toml::from_str("features = [\"stale\"]\nname = \"x\"\n").unwrap();
    install_features(&mut manifest, new_feature_table());
    let keys: Vec<&str> = manifest.keys().map(|k| k.as_str()).collect();
    assert_eq!(keys, vec!["features", "name"]);
    assert_eq!(manifest.get("features"), Some(&toml::Value::Table(new_feature_table())));
}

#[test]
fn read_manifest_reads_the_top_level_keys() {
    let table = read_manifest("name = \"x\"\n\n[package]\nversion = \"1\"\n").unwrap();
    let keys: Vec<&str> = table.keys().map(|k| k.as_str()).collect();
    assert_eq!(keys, vec!["name", "package"]);
    assert_eq!(read_manifest("").map(|t| t.len()), Ok(0));
}

#[test]
fn read_manifest_refuses_what_is_no_toml() {
    assert_eq!(read_manifest("name = "), Err(ManifestError::Unreadable));
    assert_eq!(read_manifest("a = 1\na = 2\n"), Err(ManifestError::Unreadable));
}

#[test]
fn write_manifest_writes_what_read_manifest_reads() {
    let mut features = new_feature_table();
    declare_features(&mut features, &vec!["24-solid".to_string()]);
    let text = write_manifest(&features).unwrap();
    assert_eq!(text, "24-solid = []\ndefault = []\n");
    assert_eq!(read_manifest(&text), Ok(features));
}

#[test]
fn update_manifest_is_read_install_and_write() {
    let manifest = "[package]\nname = \"icons\"\n";
    let mut table = read_manifest(manifest).unwrap();
    install_features(&mut table, new_feature_table());
    assert_eq!(update_manifest(manifest, new_feature_table()), write_manifest(&table));
    assert_eq!(
        update_manifest(manifest, new_feature_table()),
        Ok("[features]\ndefault = []\n\n[package]\nname = \"icons\"\n".to_string())
    );
}

#[test]
fn declare_features_replaces_a_table_of_that_name() {
    let mut table = new_feature_table();
    table.insert("a".to_string(), toml::Value::Table(new_feature_table()));
    declare_features(&mut table, &vec!["a".to_string()]);
    assert!(is_empty_array(table.get("a")));
}
