//! The source text of one icon component.

use crate::casing::{cased, to_case, Case};
use crate::text::{from_chars, indent_chars, indent_lines, to_chars};
use vstd::prelude::*;
use vstd::string::StringExecFns;

verus! {

/// The name of the feature that switches on one icon of a family.
pub open spec fn feature_name(feature_path: Seq<char>, icon_name: Seq<char>) -> Seq<char> {
    feature_path + "-"@ + icon_name
}

/// A component before indentation: the feature gate for the icon and for its
/// family, the component function named `component_name`, and `svg` as the
/// body of its view.
pub open spec fn component_text(
    component_name: Seq<char>,
    icon_name: Seq<char>,
    feature_path: Seq<char>,
    svg: Seq<char>,
) -> Seq<char> {
    "#[cfg(any(feature = \""@ + feature_name(feature_path, icon_name) + "\", feature = \""@
        + feature_path + "\"))]\n#[component]\npub fn "@ + component_name
        + "(\n    cx: Scope,\n    #[prop(optional, into)] class: Option<AttributeValue>,\n) -> impl IntoView {\n    view! { cx,\n        "@
        + svg + "\n    }\n}\n"@
}

/// A component as it stands in the generated module: every line of
/// `component_text`, the empty one behind its last line feed too, indented by
/// `indent` spaces.
pub open spec fn component_source(
    component_name: Seq<char>,
    icon_name: Seq<char>,
    feature_path: Seq<char>,
    svg: Seq<char>,
    indent: nat,
) -> Seq<char> {
    indent_lines(indent, component_text(component_name, icon_name, feature_path, svg))
}

/// Joins `feature_path` and `icon_name` with a hyphen.
pub fn make_feature_name(feature_path: &str, icon_name: &str) -> (out: String)
    ensures
        out@ == feature_name(feature_path@, icon_name@),
{
    let mut out = String::new();
    out.append(feature_path);
    out.append("-");
    out.append(icon_name);
    assert(out@ =~= feature_name(feature_path@, icon_name@));
    out
}

/// Writes the component named `component_name` for the icon `icon_name` of
/// the family `feature_path`, with `svg` as its view, indented by `indent`.
pub fn render_component(
    component_name: &str,
    icon_name: &str,
    feature_path: &str,
    svg: &str,
    indent: usize,
) -> (out: String)
    ensures
        out@ == component_source(
            component_name@,
            icon_name@,
            feature_path@,
            svg@,
            indent as nat,
        ),
{
    let feature = make_feature_name(feature_path, icon_name);
    let mut text = String::new();
    text.append("#[cfg(any(feature = \"");
    text.append(feature.as_str());
    text.append("\", feature = \"");
    text.append(feature_path);
    text.append("\"))]\n#[component]\npub fn ");
    text.append(component_name);
    text.append(
        "(\n    cx: Scope,\n    #[prop(optional, into)] class: Option<AttributeValue>,\n) -> impl IntoView {\n    view! { cx,\n        ",
    );
    text.append(svg);
    text.append("\n    }\n}\n");
    assert(text@ =~= component_text(component_name@, icon_name@, feature_path@, svg@));
    let chars = to_chars(text.as_str());
    from_chars(&indent_chars(indent, &chars))
}

/// Writes the component for the icon `icon_name`: its function is named by
/// the icon's name in upper camel case.
pub fn make_component(icon_name: &str, feature_path: &str, svg: &str, indent: usize) -> (out:
    String)
    ensures
        out@ == component_source(
            cased(icon_name@, Case::UpperCamel),
            icon_name@,
            feature_path@,
            svg@,
            indent as nat,
        ),
{
    let component_name = to_case(icon_name, Case::UpperCamel);
    render_component(component_name.as_str(), icon_name, feature_path, svg, indent)
}

} // verus!
