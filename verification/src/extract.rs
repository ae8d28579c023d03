//! Which entries of the icon archive are unpacked, and as what.

use crate::constants::OPTIMIZED_PATH;
use crate::text::{copy_range, find_last, from_chars, has_prefix, last_index_of, to_chars};
use vstd::prelude::*;

verus! {

/// What to do with one entry of the archive.
#[derive(Debug, PartialEq, Eq)]
pub enum ExtractAction {
    /// Leave the entry in the archive.
    Skip,
    /// Create the directory `path` and those above it.
    CreateDir { path: String },
    /// Write the entry's bytes to the file `path`, in the directory `parent`,
    /// which is created first where it is missing.
    WriteFile { path: String, parent: String },
}

/// Whether the path `path` is `base` or lies below it: `base` is matched by
/// whole components, so `a/bc` does not start with `a/b`.
pub open spec fn path_starts_with(path: Seq<char>, base: Seq<char>) -> bool {
    base.is_prefix_of(path) && (path.len() == base.len() || path[base.len() as int] == '/')
}

/// The directory that holds `path`: what stands before its last `/`, or
/// nothing where it has none.
pub open spec fn parent_of(path: Seq<char>) -> Seq<char> {
    if last_index_of(path, '/') < 0 {
        Seq::empty()
    } else {
        path.take(last_index_of(path, '/'))
    }
}

/// Whether the plan `action` is the one for the archive entry named `name`
/// whose safe path inside the target directory is `enclosed`, if it has one.
/// Only the optimized icons are unpacked; a name that ends in `/` is a
/// directory.
pub open spec fn is_plan_for(
    action: ExtractAction,
    name: Seq<char>,
    enclosed: Option<Seq<char>>,
) -> bool {
    match enclosed {
        None => action == ExtractAction::Skip,
        Some(path) => if !path_starts_with(path, OPTIMIZED_PATH@) {
            action == ExtractAction::Skip
        } else if name.len() > 0 && name.last() == '/' {
            action matches ExtractAction::CreateDir { path: p } && p@ == path
        } else {
            action matches ExtractAction::WriteFile { path: p, parent: d } && p@ == path && d@
                == parent_of(path)
        },
    }
}

/// Whether `path` is `base` or lies below it.
pub fn starts_with_path(path: &Vec<char>, base: &Vec<char>) -> (r: bool)
    ensures
        r == path_starts_with(path@, base@),
{
    has_prefix(path, base) && (path.len() == base.len() || path[base.len()] == '/')
}

/// The directory that holds `path`.
pub fn parent(path: &Vec<char>) -> (out: Vec<char>)
    ensures
        out@ == parent_of(path@),
{
    match find_last(path, '/') {
        Some(k) => copy_range(path, 0, k),
        None => Vec::new(),
    }
}

/// Plans what to do with the archive entry named `name`, given its safe path
/// `enclosed` inside the target directory.
pub fn plan_extraction(name: &str, enclosed: Option<&str>) -> (action: ExtractAction)
    ensures
        is_plan_for(
            action,
            name@,
            match enclosed {
                Some(p) => Some(p@),
                None => None,
            },
        ),
{
    let path = match enclosed {
        Some(p) => p,
        None => { return ExtractAction::Skip; },
    };
    let path_chars = to_chars(path);
    if !starts_with_path(&path_chars, &to_chars(OPTIMIZED_PATH)) {
        return ExtractAction::Skip;
    }
    let name_chars = to_chars(name);
    if name_chars.len() > 0 && name_chars[name_chars.len() - 1] == '/' {
        ExtractAction::CreateDir { path: from_chars(&path_chars) }
    } else {
        ExtractAction::WriteFile {
            path: from_chars(&path_chars),
            parent: from_chars(&parent(&path_chars)),
        }
    }
}

} // verus!
