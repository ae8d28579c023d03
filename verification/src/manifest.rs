//! The feature table of the library's manifest, kept in the `toml` crate's
//! own table type.

use crate::error::ManifestError;
use crate::text::texts;
use vstd::string::StringExecFns;
use vstd::prelude::*;

verus! {

/// A TOML table, as the `toml` crate holds it.
#[verifier::external_type_specification]
#[verifier::external_body]
#[verifier::reject_recursive_types(K)]
#[verifier::reject_recursive_types(V)]
pub struct ExTomlMap<K, V>(toml::map::Map<K, V>);

/// A TOML value.
#[verifier::external_type_specification]
#[verifier::external_body]
pub struct ExTomlValue(toml::Value);

/// The error with which the `toml` crate refuses a document.
#[verifier::external_type_specification]
#[verifier::external_body]
pub struct ExTomlReadError(toml::de::Error);

/// The error with which the `toml` crate fails to write a value.
#[verifier::external_type_specification]
#[verifier::external_body]
pub struct ExTomlWriteError(toml::ser::Error);

/// The keys of a table.
pub uninterp spec fn table_keys(table: toml::map::Map<String, toml::Value>) -> Set<Seq<char>>;

/// The entries of a table whose value is an array of strings: each such key
/// with the strings of its array.
pub uninterp spec fn table_lists(table: toml::map::Map<String, toml::Value>) -> Map<
    Seq<char>,
    Seq<Seq<char>>,
>;

/// The entries of a table whose value is a table: each such key with the
/// table under it.
pub uninterp spec fn table_tables(table: toml::map::Map<String, toml::Value>) -> Map<
    Seq<char>,
    toml::map::Map<String, toml::Value>,
>;

/// The TOML document that writes `table` out, or `None` where the table
/// cannot be written as one.
pub uninterp spec fn table_document(table: toml::map::Map<String, toml::Value>) -> Option<
    Seq<char>,
>;

/// The top-level keys of the TOML document `text`, or `None` where `text` is
/// no TOML document.
pub uninterp spec fn document_keys(text: Seq<char>) -> Option<Set<Seq<char>>>;

/// No string lists at all.
pub open spec fn no_lists() -> Map<Seq<char>, Seq<Seq<char>>> {
    Map::empty()
}

/// No tables at all.
pub open spec fn no_tables() -> Map<Seq<char>, toml::map::Map<String, toml::Value>> {
    Map::empty()
}

/// `Map::new` of the `toml` crate: a table without entries.
#[verifier::external_body]
pub(crate) fn new_table() -> (table: toml::map::Map<String, toml::Value>)
    ensures
        table_keys(table) == Set::<Seq<char>>::empty(),
        table_lists(table) == no_lists(),
        table_tables(table) == no_tables(),
{
    toml::map::Map::new()
}

/// `Map::insert` of the `toml` crate, with an array of the strings `items` as
/// the value: afterwards the table has the key, with that array, whether or
/// not it had the key before, and its other entries are as they were.
#[verifier::external_body]
pub(crate) fn insert_list(
    table: &mut toml::map::Map<String, toml::Value>,
    key: String,
    items: Vec<String>,
)
    ensures
        table_keys(*final(table)) == table_keys(*old(table)).insert(key@),
        table_lists(*final(table)) == table_lists(*old(table)).insert(key@, texts(items@)),
        table_tables(*final(table)) == table_tables(*old(table)).remove(key@),
{
    table.insert(key, toml::Value::Array(items.into_iter().map(toml::Value::String).collect()));
}

/// `Map::insert` of the `toml` crate, with the table `inner` as the value:
/// afterwards the table has the key, with `inner` under it, whether or not
/// it had the key before, and its other entries are as they were.
#[verifier::external_body]
pub(crate) fn insert_table(
    table: &mut toml::map::Map<String, toml::Value>,
    key: String,
    inner: toml::map::Map<String, toml::Value>,
)
    ensures
        table_keys(*final(table)) == table_keys(*old(table)).insert(key@),
        table_lists(*final(table)) == table_lists(*old(table)).remove(key@),
        table_tables(*final(table)) == table_tables(*old(table)).insert(key@, inner),
{
    table.insert(key, toml::Value::Table(inner));
}

/// `toml::from_str` of the `toml` crate, reading a table: it succeeds
/// exactly on a TOML document, and the table then has the document's
/// top-level keys. The contract gives those keys their name and claims
/// nothing about what they are.
#[verifier::external_body]
pub(crate) fn parse_table(text: &str) -> (r: Result<
    toml::map::Map<String, toml::Value>,
    toml::de::Error,
>)
    ensures
        match r {
            Ok(table) => document_keys(text@) == Some(table_keys(table)),
            Err(_) => document_keys(text@) is None,
        },
{
    toml::from_str::<toml::map::Map<String, toml::Value>>(text)
}

/// `toml::to_string` of the `toml` crate on a table. The contract gives the
/// text its name, `table_document`, and says that the call fails exactly
/// where the name is `None`; it claims nothing about what the text is.
#[verifier::external_body]
pub(crate) fn table_text(table: &toml::map::Map<String, toml::Value>) -> (r: Result<
    String,
    toml::ser::Error,
>)
    ensures
        match r {
            Ok(text) => table_document(*table) == Some(text@),
            Err(_) => table_document(*table) is None,
        },
{
    toml::to_string(table)
}

/// The string lists `lists` once every name of `names` is declared as a
/// feature that switches on nothing else.
pub open spec fn with_features(
    lists: Map<Seq<char>, Seq<Seq<char>>>,
    names: Seq<Seq<char>>,
) -> Map<Seq<char>, Seq<Seq<char>>> {
    Map::new(
        |k: Seq<char>| lists.dom().contains(k) || names.contains(k),
        |k: Seq<char>|
            if names.contains(k) {
                Seq::<Seq<char>>::empty()
            } else {
                lists[k]
            },
    )
}

/// Declares every name of `names` as a feature of `table`, each with an
/// empty list of what it switches on.
pub fn declare_features(table: &mut toml::map::Map<String, toml::Value>, names: &Vec<String>)
    ensures
        table_keys(*final(table)) == table_keys(*old(table)).union(texts(names@).to_set()),
        table_lists(*final(table)) == with_features(table_lists(*old(table)), texts(names@)),
        table_tables(*final(table)) == table_tables(*old(table)).remove_keys(
            texts(names@).to_set(),
        ),
{
    let mut i: usize = 0;
    assert(texts(names@.take(0)) =~= Seq::<Seq<char>>::empty());
    assert(table_tables(*table) =~= table_tables(*old(table)).remove_keys(
        texts(names@.take(0)).to_set(),
    ));
    assert(table_keys(*table) =~= table_keys(*old(table)).union(
        texts(names@.take(0)).to_set(),
    ));
    assert(table_lists(*table) =~= with_features(
        table_lists(*old(table)),
        texts(names@.take(0)),
    ));
    while i < names.len()
        invariant
            i <= names.len(),
            table_keys(*table) == table_keys(*old(table)).union(
                texts(names@.take(i as int)).to_set(),
            ),
            table_lists(*table) == with_features(
                table_lists(*old(table)),
                texts(names@.take(i as int)),
            ),
            table_tables(*table) == table_tables(*old(table)).remove_keys(
                texts(names@.take(i as int)).to_set(),
            ),
        decreases names.len() - i,
    {
        let name = names[i].clone();
        let none: Vec<String> = Vec::new();
        assert(texts(none@) =~= Seq::<Seq<char>>::empty());
        insert_list(table, name, none);
        proof {
            let before = texts(names@.take(i as int));
            let after = texts(names@.take(i + 1));
            assert(after =~= before.push(names@[i as int]@));
            assert forall|k: Seq<char>| after.contains(k) <==> (before.contains(k) || k
                == names@[i as int]@) by {
                if before.contains(k) {
                    let j = choose|j: int| 0 <= j < before.len() && before[j] == k;
                    assert(after[j] == k);
                }
                if k == names@[i as int]@ {
                    assert(after[i as int] == k);
                }
            }
            assert(table_keys(*table) =~= table_keys(*old(table)).union(after.to_set()));
            assert(table_lists(*table) =~= with_features(table_lists(*old(table)), after));
            assert(table_tables(*table) =~= table_tables(*old(table)).remove_keys(
                after.to_set(),
            ));
        }
        i = i + 1;
    }
    assert(names@.take(names.len() as int) =~= names@);
}

/// The table of features before any icon is known: the feature `default`,
/// which switches on nothing.
pub fn new_feature_table() -> (table: toml::map::Map<String, toml::Value>)
    ensures
        table_keys(table) == set!["default"@],
        table_lists(table) == map!["default"@ => Seq::<Seq<char>>::empty()],
        table_tables(table) == no_tables(),
{
    let mut table = new_table();
    let none: Vec<String> = Vec::new();
    assert(texts(none@) =~= Seq::<Seq<char>>::empty());
    insert_list(&mut table, String::from_str("default"), none);
    assert(table_keys(table) =~= set!["default"@]);
    assert(table_lists(table) =~= map!["default"@ => Seq::<Seq<char>>::empty()]);
    assert(table_tables(table) =~= no_tables());
    table
}

/// Makes `features` the table `features` of the manifest, in place of
/// whatever it held under that key.
pub fn install_features(
    manifest: &mut toml::map::Map<String, toml::Value>,
    features: toml::map::Map<String, toml::Value>,
)
    ensures
        table_keys(*final(manifest)) == table_keys(*old(manifest)).insert("features"@),
        table_lists(*final(manifest)) == table_lists(*old(manifest)).remove("features"@),
        table_tables(*final(manifest)) == table_tables(*old(manifest)).insert(
            "features"@,
            features,
        ),
{
    insert_table(manifest, String::from_str("features"), features);
}

/// Reads the manifest `text` as a table. A text that is no TOML document is
/// refused.
pub fn read_manifest(text: &str) -> (r: Result<
    toml::map::Map<String, toml::Value>,
    ManifestError,
>)
    ensures
        match document_keys(text@) {
            Some(keys) => r matches Ok(table) && table_keys(table) == keys,
            None => r matches Err(e) && e == ManifestError::Unreadable,
        },
{
    match parse_table(text) {
        Ok(table) => Ok(table),
        Err(_) => Err(ManifestError::Unreadable),
    }
}

/// Whether `r` is what writing `table` out gives: its document, or the
/// error where it has none.
pub open spec fn is_written(
    table: toml::map::Map<String, toml::Value>,
    r: Result<String, ManifestError>,
) -> bool {
    match table_document(table) {
        Some(text) => r matches Ok(written) && written@ == text,
        None => r == Err::<String, ManifestError>(ManifestError::Unwritable),
    }
}

/// Writes the manifest `table` out as a TOML document.
pub fn write_manifest(table: &toml::map::Map<String, toml::Value>) -> (r: Result<
    String,
    ManifestError,
>)
    ensures
        is_written(*table, r),
{
    match table_text(table) {
        Ok(text) => Ok(text),
        Err(_) => Err(ManifestError::Unwritable),
    }
}

/// Whether `table` is a manifest that had the top-level keys `keys` when
/// it was read and now holds `features` as its table `features`.
pub open spec fn holds_features(
    table: toml::map::Map<String, toml::Value>,
    keys: Set<Seq<char>>,
    features: toml::map::Map<String, toml::Value>,
) -> bool {
    &&& table_keys(table) == keys.insert("features"@)
    &&& table_tables(table).dom().contains("features"@)
    &&& table_tables(table)["features"@] == features
}

/// Puts `features` into the manifest `manifest` as its table `features`, in
/// place of any that it had, and writes the manifest out again: the text
/// returned is the document of the manifest's table with `features` in it.
/// A text that is no TOML document is refused.
pub fn update_manifest(manifest: &str, features: toml::map::Map<String, toml::Value>) -> (r:
    Result<String, ManifestError>)
    ensures
        match document_keys(manifest@) {
            Some(keys) => exists|table: toml::map::Map<String, toml::Value>|
                #[trigger] holds_features(table, keys, features) && is_written(table, r),
            None => r == Err::<String, ManifestError>(ManifestError::Unreadable),
        },
{
    let mut table = match read_manifest(manifest) {
        Ok(table) => table,
        Err(e) => { return Err(e); },
    };
    install_features(&mut table, features);
    let r = write_manifest(&table);
    assert(holds_features(table, document_keys(manifest@)->0, features) && is_written(table, r));
    r
}

} // verus!
