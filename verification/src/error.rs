//! The ways in which generation fails.

use vstd::prelude::*;

verus! {

/// Why a piece of source text could not be generated.
#[derive(Debug, Clone, Copy, PartialEq, Eq, Structural)]
pub enum GenerateError {
    /// A pattern of the generator was refused as a regular expression.
    InvalidPattern,
    /// An icon stands in a directory that is not below the directory of the
    /// optimized icons, so it belongs to no family.
    OutsideFamily,
    /// The tree is nested so deeply that an indent does not fit the
    /// machine's word.
    TooDeep,
}

/// Why the manifest could not be rewritten.
#[derive(Debug, Clone, Copy, PartialEq, Eq, Structural)]
pub enum ManifestError {
    /// The manifest is no TOML document.
    Unreadable,
    /// The manifest with its new features could not be written as TOML.
    Unwritable,
}

} // verus!
