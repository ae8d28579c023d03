//! Where the icons come from and where the generated files go.

use vstd::prelude::*;

verus! {

/// The archive of the icon set.
pub const HEROICONS_ARCHIVE_URL: &'static str =
    "https://github.com/tailwindlabs/heroicons/archive/refs/heads/master.zip";

/// The local copy of the archive.
pub const ZIP_FILE: &'static str = "heroicons.zip";

/// The directory that the archive unpacks to.
pub const UNZIPPED_DIR: &'static str = "heroicons-master";

/// The directory of the archive that holds the optimized icons, one
/// directory level per part of an icon family's name.
pub const OPTIMIZED_PATH: &'static str = "heroicons-master/optimized";

/// The generated library module.
pub const LIB_PATH: &'static str = "../src/lib.rs";

/// The manifest that lists the library's features.
pub const TOML_PATH: &'static str = "../Cargo.toml";

} // verus!
