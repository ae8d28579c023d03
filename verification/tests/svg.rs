use heroicons_codegen::component::{make_component, make_feature_name, render_component};
use heroicons_codegen::svg::{lay_out_svg, prep_svg};

const COMPONENT: &str = "#[cfg(any(feature = \"24-solid-arrow-down\", feature = \"24-solid\"))]
#[component]
pub fn ArrowDown(
    cx: Scope,
    #[prop(optional, into)] class: Option<AttributeValue>,
) -> impl IntoView {
    view! { cx,
        <svg/>
    }
}

";

#[test]
fn prep_svg_hooks_the_class_into_the_first_tag_only() {
    let svg = "\n<svg a>\n<svg b>\n</svg>\n";
    assert_eq!(
        prep_svg(svg, 4),
        Ok("<svg class=class a>\n    <svg b>\n    </svg>".to_string())
    );
}

#[test]
fn prep_svg_without_indent_only_trims_and_hooks() {
    assert_eq!(
        prep_svg("  <svg viewBox=\"0 0 24 24\"></svg>\n\n", 0),
        Ok("<svg class=class viewBox=\"0 0 24 24\"></svg>".to_string())
    );
}

#[test]
fn prep_svg_leaves_text_without_a_tag_alone() {
    assert_eq!(prep_svg("<svg>\n<g/>\n", 2), Ok("<svg>\n  <g/>".to_string()));
    assert_eq!(prep_svg("", 2), Ok(String::new()));
    assert_eq!(prep_svg(" \n ", 0), Ok(String::new()));
}

#[test]
fn lay_out_svg_indents_all_lines_but_the_first() {
    assert_eq!(lay_out_svg("a\nb\n\nc", 3), "a\n   b\n   \n   c");
    assert_eq!(lay_out_svg("a", 3), "a");
    assert_eq!(lay_out_svg("a\n", 3), "a");
}

#[test]
fn make_feature_name_joins_with_a_hyphen() {
    assert_eq!(make_feature_name("24-solid", "arrow-down"), "24-solid-arrow-down");
    assert_eq!(make_feature_name("", ""), "-");
}

#[test]
fn make_component_names_the_function_in_upper_camel_case() {
    assert_eq!(make_component("arrow-down", "24-solid", "<svg/>", 0), COMPONENT);
}

#[test]
fn make_component_indents_every_line() {
    let plain = COMPONENT.strip_suffix('\n').unwrap();
    let expected: String = plain.split('\n').map(|line| format!("    {line}\n")).collect();
    assert_eq!(make_component("arrow-down", "24-solid", "<svg/>", 4), expected);
    assert!(expected.ends_with("    }\n    \n"));
}

#[test]
fn render_component_takes_the_name_as_given() {
    let text = render_component("Plus", "plus", "16-solid", "<svg>\n</svg>", 0);
    assert_eq!(
        text,
        "#[cfg(any(feature = \"16-solid-plus\", feature = \"16-solid\"))]\n#[component]\npub fn Plus(\n    cx: Scope,\n    #[prop(optional, into)] class: Option<AttributeValue>,\n) -> impl IntoView {\n    view! { cx,\n        <svg>\n</svg>\n    }\n}\n\n"
    );
}
