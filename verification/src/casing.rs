//! Case conversion of identifiers, done by the `convert_case` crate.

use vstd::prelude::*;

verus! {

/// The identifier styles that the generators write.
#[derive(Debug, Clone, Copy, PartialEq, Eq, Structural)]
pub enum Case {
    /// Words capitalised and joined, as in `ArrowDown`.
    UpperCamel,
    /// Words in lower case joined by underscores, as in `arrow_down`.
    Snake,
}

/// `s` converted to `case`, with the word boundaries that the `convert_case`
/// crate finds by default.
pub uninterp spec fn cased(s: Seq<char>, case: Case) -> Seq<char>;

/// `Casing::to_case` of the `convert_case` crate on a string slice. The
/// contract gives the converted text its name, `cased`, and claims nothing
/// about what it is.
#[verifier::external_body]
pub(crate) fn to_case(s: &str, case: Case) -> (out: String)
    ensures
        out@ == cased(s@, case),
{
    match case {
        Case::UpperCamel => convert_case::Casing::to_case(&s, convert_case::Case::UpperCamel),
        Case::Snake => convert_case::Casing::to_case(&s, convert_case::Case::Snake),
    }
}

} // verus!
