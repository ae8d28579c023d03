use heroicons_codegen::error::GenerateError;
use heroicons_codegen::example::{
    generate_examples, join_path, render_examples, render_group, scan_lines, underscore, Group,
    Scanner,
};

fn lines(text: &str) -> Vec<String> {
    text.lines().map(|l| l.to_string()).collect()
}

fn strings(items: &[&str]) -> Vec<String> {
    items.iter().map(|s| s.to_string()).collect()
}

const LIBRARY: &str = "pub mod size_16 {
    #[allow(unused_imports)]
    use leptos::*;

    pub mod solid {
        #[component]
        pub fn AcademicCap(
            cx: Scope,
        ) -> impl IntoView {
        }
        #[component]
        pub fn ArrowDown(
        ) -> impl IntoView {
        }
    }

}

pub mod size_24 {
    pub mod outline {
        pub fn Bolt(
    }

    pub mod solid {
        pub fn Bolt(
        pub fn XMark(
    }

}
";

const EXAMPLES: &str = "use leptos::prelude::*;

pub fn size_16_solid() -> Vec<impl IntoView> {
    use leptos_heroicons::size_16::solid::*;

    vec![
        view! { <AcademicCap /> },
        view! { <ArrowDown /> },
    ]
}

pub fn size_24_outline() -> Vec<impl IntoView> {
    use leptos_heroicons::size_24::outline::*;

    vec![
        view! { <Bolt /> },
    ]
}

pub fn size_24_solid() -> Vec<impl IntoView> {
    use leptos_heroicons::size_24::solid::*;

    vec![
        view! { <Bolt /> },
        view! { <XMark /> },
    ]
}

";

#[test]
fn generate_examples_lists_every_component_by_module() {
    assert_eq!(generate_examples(&lines(LIBRARY)), Ok(EXAMPLES.to_string()));
}

#[test]
fn generate_examples_twice_gives_the_same_text() {
    let first = generate_examples(&lines(LIBRARY));
    let second = generate_examples(&lines(LIBRARY));
    assert_eq!(first, second);
}

#[test]
fn generate_examples_of_nothing_is_the_import() {
    assert_eq!(generate_examples(&vec![]), Ok("use leptos::prelude::*;\n\n".to_string()));
    assert_eq!(
        generate_examples(&lines("fn main() {}\n// pub mod\n")),
        Ok("use leptos::prelude::*;\n\n".to_string())
    );
}

#[test]
fn scan_lines_follows_the_nesting_by_indent() {
    let scanner = scan_lines(&lines(LIBRARY)).unwrap();
    assert_eq!(scanner.indent, 4);
    assert_eq!(scanner.path, strings(&["size_24", "solid"]));
    let modules: Vec<&str> = scanner.groups.iter().map(|g| g.module.as_str()).collect();
    assert_eq!(modules, vec!["size_16::solid", "size_24::outline", "size_24::solid"]);
}

#[test]
fn scan_line_takes_a_module_before_a_component_on_the_same_line() {
    let mut scanner = Scanner::new();
    assert_eq!(scanner.scan_line("  pub mod icons { pub fn Star("), Ok(()));
    assert_eq!(scanner.indent, 2);
    assert_eq!(scanner.path, strings(&["icons"]));
    assert_eq!(
        scanner.groups,
        vec![Group { module: "icons".to_string(), components: strings(&["view! { <Star /> },"]) }]
    );
}

#[test]
fn scan_line_counts_the_indent_in_bytes() {
    let mut scanner = Scanner::new();
    assert_eq!(scanner.scan_line("\u{a0}\tpub mod a {"), Ok(()));
    assert_eq!(scanner.indent, 3);
}

#[test]
fn enter_module_pops_by_indent() {
    let mut scanner = Scanner::new();
    scanner.enter_module(0, "a".to_string());
    assert_eq!(scanner.path, strings(&["a"]));
    scanner.enter_module(4, "b".to_string());
    assert_eq!(scanner.path, strings(&["a", "b"]));
    scanner.enter_module(8, "c".to_string());
    assert_eq!(scanner.path, strings(&["a", "b", "c"]));
    scanner.enter_module(8, "d".to_string());
    assert_eq!(scanner.path, strings(&["a", "b", "d"]));
    scanner.enter_module(4, "e".to_string());
    assert_eq!(scanner.path, strings(&["a", "e"]));
    scanner.enter_module(0, "f".to_string());
    assert_eq!(scanner.path, strings(&["f"]));
    assert_eq!(scanner.indent, 0);
    scanner.enter_module(0, "g".to_string());
    assert_eq!(scanner.path, strings(&["g"]));
}

#[test]
fn add_component_joins_the_group_of_its_module() {
    let mut scanner = Scanner::new();
    scanner.enter_module(0, "a".to_string());
    scanner.add_component("One");
    scanner.enter_module(0, "b".to_string());
    scanner.add_component("Two");
    scanner.enter_module(0, "a".to_string());
    scanner.add_component("Three");
    assert_eq!(
        scanner.groups,
        vec![
            Group {
                module: "a".to_string(),
                components: strings(&["view! { <One /> },", "view! { <Three /> },"]),
            },
            Group { module: "b".to_string(), components: strings(&["view! { <Two /> },"]) },
        ]
    );
}

#[test]
fn add_component_outside_any_module_has_an_empty_path() {
    let mut scanner = Scanner::new();
    scanner.add_component("Top");
    assert_eq!(scanner.groups[0].module, "");
}

#[test]
fn join_path_puts_colons_between_levels() {
    assert_eq!(join_path(&strings(&[])), "");
    assert_eq!(join_path(&strings(&["a"])), "a");
    assert_eq!(join_path(&strings(&["a", "b", "c"])), "a::b::c");
}

#[test]
fn underscore_replaces_pairs_of_colons() {
    assert_eq!(underscore("size_24::solid"), "size_24_solid");
    assert_eq!(underscore("a:::b"), "a_:b");
    assert_eq!(underscore("::::"), "__");
    assert_eq!(underscore(":"), ":");
    assert_eq!(underscore(""), "");
    for s in ["a::b::c", ":a:", "a:::::b", "::"] {
        assert_eq!(underscore(s), s.replace("::", "_"), "{s}");
    }
}

#[test]
fn render_group_writes_one_function() {
    assert_eq!(
        render_group("mini", "size_20::solid", &strings(&["view! { <A /> },"])),
        "pub fn mini() -> Vec<impl IntoView> {\n    use leptos_heroicons::size_20::solid::*;\n\n    vec![\n        view! { <A /> },\n    ]\n}\n\n"
    );
    assert_eq!(
        render_group("f", "m", &vec![]),
        "pub fn f() -> Vec<impl IntoView> {\n    use leptos_heroicons::m::*;\n\n    vec![\n    ]\n}\n\n"
    );
}

#[test]
fn render_examples_names_functions_in_snake_case() {
    let groups = vec![Group { module: "Size24::SolidIcons".to_string(), components: vec![] }];
    let text = render_examples(&groups);
    assert!(text.starts_with("use leptos::prelude::*;\n\npub fn size_24_solid_icons() -> "));
}

#[test]
fn the_error_of_a_refused_pattern_is_its_own() {
    assert_ne!(GenerateError::InvalidPattern, GenerateError::OutsideFamily);
    assert_ne!(GenerateError::InvalidPattern, GenerateError::TooDeep);
}
