//! Preparing the text of one SVG icon for use inside a component.

use crate::error::GenerateError;
use crate::pattern::{replace_first, replaced_first};
use crate::text::{
    from_chars, indent_breaks, indent_chars, indent_lines, lemma_indent_breaks_ends,
    lemma_trim_end_of_closed, lemma_trim_start_of_indented, spaces, to_chars, trim_chars,
    trimmed, white_space,
};
use vstd::prelude::*;

verus! {

/// The opening of an SVG element, as a pattern.
pub open spec fn svg_tag() -> Seq<char> {
    "<svg "@
}

/// The opening of an SVG element whose classes come from the component's
/// `class` property.
pub open spec fn svg_tag_with_class() -> Seq<char> {
    "<svg class=class "@
}

/// The icon's text once the class hook is in: every line indented by `indent`
/// spaces, then white space removed at both ends.
pub open spec fn laid_out_svg(hooked: Seq<char>, indent: nat) -> Seq<char> {
    trimmed(indent_lines(indent, hooked))
}

/// Laying out text that neither starts nor ends with white space indents
/// every line but the first, and nothing else: the indent of the first line
/// and the closing line feed are trimmed away again.
pub proof fn lemma_laid_out_svg_of_trimmed(hooked: Seq<char>, indent: nat)
    requires
        hooked.len() > 0,
        !white_space(hooked[0]),
        !white_space(hooked.last()),
    ensures
        laid_out_svg(hooked, indent) == indent_breaks(indent, hooked),
{
    let body = indent_breaks(indent, hooked);
    lemma_indent_breaks_ends(indent, hooked);
    assert(indent_lines(indent, hooked) =~= spaces(indent) + body.push('\n'));
    lemma_trim_start_of_indented(indent, body.push('\n'));
    lemma_trim_end_of_closed(body);
}

/// Indents every line of `hooked` by `indent` spaces and trims the result.
pub fn lay_out_svg(hooked: &str, indent: usize) -> (out: String)
    ensures
        out@ == laid_out_svg(hooked@, indent as nat),
{
    let chars = to_chars(hooked);
    let indented = indent_chars(indent, &chars);
    let trimmed_chars = trim_chars(&indented);
    from_chars(&trimmed_chars)
}

/// Prepares the text of an icon file: trims it, gives the first `<svg ` a
/// `class=class` attribute so that callers can set the classes, and lays
/// the result out at `indent`.
pub fn prep_svg(svg: &str, indent: usize) -> (r: Result<String, GenerateError>)
    ensures
        match replaced_first(svg_tag(), trimmed(svg@), svg_tag_with_class()) {
            Some(hooked) => r matches Ok(out) && out@ == laid_out_svg(hooked, indent as nat),
            None => r == Err::<String, GenerateError>(GenerateError::InvalidPattern),
        },
{
    let chars = to_chars(svg);
    let core = from_chars(&trim_chars(&chars));
    match replace_first("<svg ", core.as_str(), "<svg class=class ") {
        Ok(hooked) => Ok(lay_out_svg(hooked.as_str(), indent)),
        Err(_) => Err(GenerateError::InvalidPattern),
    }
}

} // verus!
