//! The generated library module: one module per directory of the icon tree,
//! one component per icon file.

use crate::casing::{cased, to_case, Case};
use crate::component::{component_source, feature_name, make_feature_name, render_component};
use crate::error::GenerateError;
use crate::manifest::{declare_features, table_keys, table_lists, table_tables, with_features};
use crate::names::{
    child_path_of, feature_path, feature_path_of, file_stem, file_stem_of, module_name,
    module_name_of,
};
use crate::pattern::replaced_first;
use crate::svg::{laid_out_svg, prep_svg, svg_tag, svg_tag_with_class};
use crate::text::{
    append_chars, from_chars, indent_chars, indent_lines, push_char, push_space_chars, spaces, texts, to_chars,
    trimmed,
};
use vstd::prelude::*;
use vstd::string::StringExecFns;

verus! {

/// An entry of the icon tree, as read from disk.
#[derive(Debug)]
pub enum Entry {
    /// A directory, with its entries in the order in which they were read.
    Dir { name: String, children: Vec<Entry> },
    /// An icon file, with its text.
    Icon { name: String, svg: String },
}

/// What generation yields: the source text and the names of the features
/// that it is gated by, in the order of the icons.
pub type Output = (Seq<char>, Seq<Seq<char>>);

/// The head of the module `name`, indented by `indent`, and the empty line
/// behind it.
pub open spec fn module_open(name: Seq<char>, indent: nat) -> Seq<char> {
    indent_lines(
        indent,
        "pub mod "@ + name + " {\n    #[allow(unused_imports)]\n    use leptos::*;"@,
    ).push('\n')
}

/// The closing brace of a module, indented by `indent`, and the empty line
/// behind it.
pub open spec fn module_close(indent: nat) -> Seq<char> {
    spaces(indent) + seq!['}', '\n', '\n']
}

/// What the icon file `name` with the text `svg` in the directory `dir`
/// yields: its component, gated by the icon's own feature and by that of its
/// family.
pub open spec fn icon_output(
    name: Seq<char>,
    svg: Seq<char>,
    dir: Seq<char>,
    indent: nat,
) -> Result<Output, GenerateError> {
    let stem = file_stem_of(name);
    match replaced_first(svg_tag(), trimmed(svg), svg_tag_with_class()) {
        None => Err(GenerateError::InvalidPattern),
        Some(hooked) => match feature_path_of(dir) {
            None => Err(GenerateError::OutsideFamily),
            Some(path) => Ok(
                (
                    component_source(
                        cased(stem, Case::UpperCamel),
                        stem,
                        path,
                        laid_out_svg(hooked, indent),
                        indent,
                    ),
                    seq![feature_name(path, stem), path],
                ),
            ),
        },
    }
}

/// What one entry of the directory `dir`, `depth` levels down, yields.
pub open spec fn entry_output(entry: Entry, dir: Seq<char>, depth: nat) -> Result<
    Output,
    GenerateError,
>
    decreases entry, 0nat,
{
    match entry {
        Entry::Dir { name, children } => match entries_output(
            children@,
            child_path_of(dir, name@),
            depth + 1,
        ) {
            Ok(inner) => Ok(
                (
                    module_open(module_name_of(name@), 4 * depth) + inner.0 + module_close(
                        4 * depth,
                    ),
                    inner.1,
                ),
            ),
            Err(e) => Err(e),
        },
        Entry::Icon { name, svg } => icon_output(name@, svg@, dir, 4 * depth),
    }
}

/// What the entries yield one after the other, up to the first that fails.
pub open spec fn walk_output(entries: Seq<Entry>, dir: Seq<char>, depth: nat) -> Result<
    Output,
    GenerateError,
>
    decreases entries, 0nat,
{
    if entries.len() == 0 {
        Ok((Seq::empty(), Seq::empty()))
    } else {
        match walk_output(entries.drop_last(), dir, depth) {
            Err(e) => Err(e),
            Ok(before) => match entry_output(entries.last(), dir, depth) {
                Err(e) => Err(e),
                Ok(last) => Ok((before.0 + last.0, before.1 + last.1)),
            },
        }
    }
}

/// What the entries of the directory `dir`, `depth` levels down, yield: each
/// level is indented by four spaces more than the one above it.
pub open spec fn entries_output(entries: Seq<Entry>, dir: Seq<char>, depth: nat) -> Result<
    Output,
    GenerateError,
>
    decreases entries, 1nat,
{
    if 4 * depth > usize::MAX {
        Err(GenerateError::TooDeep)
    } else {
        walk_output(entries, dir, depth)
    }
}

/// Whether two entries hold the same: both are directories or both icons,
/// with equal names, and equal texts or the same entries below.
pub open spec fn same_entry(a: Entry, b: Entry) -> bool
    decreases a, 0nat,
{
    match (a, b) {
        (Entry::Dir { name: n1, children: c1 }, Entry::Dir { name: n2, children: c2 }) => n1@
            == n2@ && same_entries(c1@, c2@),
        (Entry::Icon { name: n1, svg: s1 }, Entry::Icon { name: n2, svg: s2 }) => n1@ == n2@
            && s1@ == s2@,
        _ => false,
    }
}

/// Whether two lists of entries hold the same, entry by entry.
pub open spec fn same_entries(a: Seq<Entry>, b: Seq<Entry>) -> bool
    decreases a, 1nat,
{
    a.len() == b.len() && forall|i: int| 0 <= i < a.len() ==> same_entry(#[trigger] a[i], b[i])
}

/// Generation is repeatable: two readings of an icon tree that hold the
/// same names and texts in the same order yield the same source text and
/// the same features, or fail alike.
pub proof fn lemma_same_tree_same_library(
    a: Seq<Entry>,
    b: Seq<Entry>,
    dir: Seq<char>,
    depth: nat,
)
    requires
        same_entries(a, b),
    ensures
        entries_output(a, dir, depth) == entries_output(b, dir, depth),
    decreases a, 2nat,
{
    lemma_same_entries_same_walk(a, b, dir, depth);
}

/// Two lists of entries that hold the same yield the same, one entry after
/// the other.
pub proof fn lemma_same_entries_same_walk(
    a: Seq<Entry>,
    b: Seq<Entry>,
    dir: Seq<char>,
    depth: nat,
)
    requires
        same_entries(a, b),
    ensures
        walk_output(a, dir, depth) == walk_output(b, dir, depth),
    decreases a, 1nat,
{
    if a.len() > 0 {
        assert(same_entries(a.drop_last(), b.drop_last())) by {
            assert forall|i: int| 0 <= i < a.drop_last().len() implies same_entry(
                #[trigger] a.drop_last()[i],
                b.drop_last()[i],
            ) by {
                assert(same_entry(a[i], b[i]));
            }
        }
        lemma_same_entries_same_walk(a.drop_last(), b.drop_last(), dir, depth);
        assert(same_entry(a[a.len() - 1], b[a.len() - 1]));
        lemma_same_entry_same_output(a.last(), b.last(), dir, depth);
    }
}

/// Two entries that hold the same yield the same.
pub proof fn lemma_same_entry_same_output(a: Entry, b: Entry, dir: Seq<char>, depth: nat)
    requires
        same_entry(a, b),
    ensures
        entry_output(a, dir, depth) == entry_output(b, dir, depth),
    decreases a, 0nat,
{
    match (a, b) {
        (Entry::Dir { name: n1, children: c1 }, Entry::Dir { name: n2, children: c2 }) => {
            lemma_same_tree_same_library(c1@, c2@, child_path_of(dir, n1@), depth + 1);
        },
        _ => {},
    }
}

/// Once an entry has failed, the entries behind it change nothing.
pub proof fn lemma_walk_stops_at_failure(entries: Seq<Entry>, dir: Seq<char>, depth: nat, k: int)
    requires
        0 <= k <= entries.len(),
        walk_output(entries.take(k), dir, depth) is Err,
    ensures
        walk_output(entries, dir, depth) == walk_output(entries.take(k), dir, depth),
    decreases entries.len() - k,
{
    if k == entries.len() {
        assert(entries.take(k) =~= entries);
    } else {
        assert(entries.take(k + 1).drop_last() =~= entries.take(k));
        lemma_walk_stops_at_failure(entries, dir, depth, k + 1);
    }
}

/// Writes the head of the module `name` at `indent`.
pub fn open_module(out: &mut String, name: &Vec<char>, indent: usize)
    ensures
        final(out)@ == old(out)@ + module_open(name@, indent as nat),
{
    let mut head = String::new();
    head.append("pub mod ");
    head.append(from_chars(name).as_str());
    head.append(" {\n    #[allow(unused_imports)]\n    use leptos::*;");
    assert(head@ =~= "pub mod "@ + name@
        + " {\n    #[allow(unused_imports)]\n    use leptos::*;"@);
    let lines = from_chars(&indent_chars(indent, &to_chars(head.as_str())));
    out.append(lines.as_str());
    push_char(out, '\n');
    assert(final(out)@ =~= old(out)@ + module_open(name@, indent as nat));
}

/// Writes the closing brace of a module at `indent`.
pub fn close_module(out: &mut String, indent: usize)
    ensures
        final(out)@ == old(out)@ + module_close(indent as nat),
{
    let mut close: Vec<char> = Vec::new();
    push_space_chars(&mut close, indent);
    close.push('}');
    close.push('\n');
    close.push('\n');
    assert(close@ =~= module_close(indent as nat));
    out.append(from_chars(&close).as_str());
}

/// Writes the component of the icon file `name` with the text `svg`, found
/// in the directory `dir`, and names its two features.
pub fn render_icon(name: &str, svg: &str, dir: &Vec<char>, indent: usize) -> (r: Result<
    (String, Vec<String>),
    GenerateError,
>)
    ensures
        match r {
            Ok(out) => icon_output(name@, svg@, dir@, indent as nat) == Ok::<Output, GenerateError>(
                (out.0@, texts(out.1@)),
            ),
            Err(e) => icon_output(name@, svg@, dir@, indent as nat) == Err::<Output, GenerateError>(
                e,
            ),
        },
{
    let stem = from_chars(&file_stem(&to_chars(name)));
    let laid_out = match prep_svg(svg, indent) {
        Ok(text) => text,
        Err(e) => { return Err(e); },
    };
    let path = match feature_path(dir) {
        Some(p) => from_chars(&p),
        None => { return Err(GenerateError::OutsideFamily); },
    };
    let component_name = to_case(stem.as_str(), Case::UpperCamel);
    let source = render_component(
        component_name.as_str(),
        stem.as_str(),
        path.as_str(),
        laid_out.as_str(),
        indent,
    );
    let mut features: Vec<String> = Vec::new();
    features.push(make_feature_name(path.as_str(), stem.as_str()));
    features.push(path);
    assert(texts(features@) =~= seq![feature_name(path@, stem@), path@]);
    Ok((source, features))
}

/// The path of the entry `name` of the directory `dir`.
pub fn child_path(dir: &Vec<char>, name: &str) -> (out: Vec<char>)
    ensures
        out@ == child_path_of(dir@, name@),
{
    let mut out = dir.clone();
    out.push('/');
    append_chars(&mut out, &to_chars(name));
    out
}

/// Appends the strings of `more` to `all`.
pub fn append_strings(all: &mut Vec<String>, more: Vec<String>)
    ensures
        texts(final(all)@) == texts(old(all)@) + texts(more@),
{
    let mut more = more;
    let ghost whole = more@;
    let ghost start = all@;
    let mut rest: Vec<String> = Vec::new();
    // Taken from the back and put back in order, so that no string is copied.
    while more.len() > 0
        invariant
            all@ == start,
            texts(more@) + texts(rest@).reverse() == texts(whole),
        decreases more.len(),
    {
        let ghost before = more@;
        let ghost rest_before = rest@;
        let s = more.pop().unwrap();
        rest.push(s);
        assert(texts(more@) + texts(rest@).reverse() =~= texts(before) + texts(
            rest_before,
        ).reverse());
    }
    assert(texts(rest@).reverse() =~= texts(whole));
    while rest.len() > 0
        invariant
            texts(all@) + texts(rest@).reverse() == texts(start) + texts(whole),
        decreases rest.len(),
    {
        let ghost all_before = all@;
        let ghost rest_before = rest@;
        let s = rest.pop().unwrap();
        all.push(s);
        assert(texts(all@) + texts(rest@).reverse() =~= texts(all_before) + texts(
            rest_before,
        ).reverse());
    }
    assert(texts(all@) =~= texts(start) + texts(whole));
}

/// Generates the modules and components for the entries of the directory
/// `dir`, `depth` levels down, and names the features of the icons.
pub fn render_entries(entries: &Vec<Entry>, dir: &Vec<char>, depth: usize) -> (r: Result<
    (String, Vec<String>),
    GenerateError,
>)
    ensures
        match r {
            Ok(out) => entries_output(entries@, dir@, depth as nat) == Ok::<Output, GenerateError>(
                (out.0@, texts(out.1@)),
            ),
            Err(e) => entries_output(entries@, dir@, depth as nat) == Err::<Output, GenerateError>(
                e,
            ),
        },
    decreases entries,
{
    if depth > usize::MAX / 4 {
        return Err(GenerateError::TooDeep);
    }
    let indent: usize = depth * 4;
    let mut source = String::new();
    let mut features: Vec<String> = Vec::new();
    let mut i: usize = 0;
    assert(texts(features@) =~= Seq::<Seq<char>>::empty());
    assert(entries@.take(0) =~= Seq::<Entry>::empty());
    while i < entries.len()
        invariant
            i <= entries.len(),
            indent == 4 * depth,
            walk_output(entries@.take(i as int), dir@, depth as nat) == Ok::<Output, GenerateError>(
                (source@, texts(features@)),
            ),
        decreases entries.len() - i,
    {
        proof {
            assert(entries@.take(i + 1).drop_last() =~= entries@.take(i as int));
            assert(entries@.take(i + 1).last() == entries@[i as int]);
        }
        let step = match &entries[i] {
            Entry::Dir { name, children } => {
                let below = child_path(dir, name.as_str());
                match render_entries(children, &below, depth + 1) {
                    Ok(inner) => {
                        let mut text = String::new();
                        open_module(&mut text, &module_name(&to_chars(name.as_str())), indent);
                        text.append(inner.0.as_str());
                        close_module(&mut text, indent);
                        assert(text@ =~= module_open(module_name_of(name@), indent as nat)
                            + inner.0@ + module_close(indent as nat));
                        Ok((text, inner.1))
                    },
                    Err(e) => Err(e),
                }
            },
            Entry::Icon { name, svg } => render_icon(name.as_str(), svg.as_str(), dir, indent),
        };
        assert(match step {
            Ok(out) => entry_output(entries@[i as int], dir@, depth as nat) == Ok::<
                Output,
                GenerateError,
            >((out.0@, texts(out.1@))),
            Err(e) => entry_output(entries@[i as int], dir@, depth as nat) == Err::<
                Output,
                GenerateError,
            >(e),
        });
        match step {
            Ok(out) => {
                source.append(out.0.as_str());
                append_strings(&mut features, out.1);
            },
            Err(e) => {
                proof {
                    lemma_walk_stops_at_failure(entries@, dir@, depth as nat, i + 1);
                }
                return Err(e);
            },
        }
        i = i + 1;
    }
    assert(entries@.take(entries.len() as int) =~= entries@);
    Ok((source, features))
}

/// Generates the library module for the icon tree whose top directory is
/// `curr` and holds `entries`: the source text is returned, and every icon's
/// two features are declared in `features`. Where generation fails,
/// `features` is left as it was.
pub fn generate_library(
    entries: &Vec<Entry>,
    features: &mut toml::map::Map<String, toml::Value>,
    curr: &str,
    depth: usize,
) -> (r: Result<String, GenerateError>)
    ensures
        match entries_output(entries@, curr@, depth as nat) {
            Ok(out) => {
                &&& r matches Ok(source)
                &&& source@ == out.0
                &&& table_keys(*final(features)) == table_keys(*old(features)).union(
                    out.1.to_set(),
                )
                &&& table_lists(*final(features)) == with_features(
                    table_lists(*old(features)),
                    out.1,
                )
                &&& table_tables(*final(features)) == table_tables(*old(features)).remove_keys(
                    out.1.to_set(),
                )
            },
            Err(e) => r == Err::<String, GenerateError>(e) && *final(features) == *old(features),
        },
{
    match render_entries(entries, &to_chars(curr), depth) {
        Ok(out) => {
            declare_features(features, &out.1);
            Ok(out.0)
        },
        Err(e) => Err(e),
    }
}

} // verus!
