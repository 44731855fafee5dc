//! Merging inferred library names into a build manifest's dependency table.

use vstd::prelude::*;
use crate::error::RunError;
use crate::imports::name_set;

verus! {

#[verifier::external_type_specification]
#[verifier::external_body]
pub struct ExDocumentMut(toml_edit::DocumentMut);

#[verifier::external_type_specification]
#[verifier::external_body]
pub struct ExTomlError(toml_edit::TomlError);

/// The entries of a document's root `dependencies` table that hold an item:
/// each key maps to the string it is set to, or to `None` where its value is
/// not a string. Empty where `dependencies` holds no table.
pub uninterp spec fn dependency_table(doc: toml_edit::DocumentMut) -> Map<
    Seq<char>,
    Option<Seq<char>>,
>;

/// Whether a document has a root `dependencies` key that holds a table.
pub uninterp spec fn has_dependency_table(doc: toml_edit::DocumentMut) -> bool;

/// The rest of a document: each root key other than `dependencies` that holds
/// an item, mapped to the text that item displays as.
pub uninterp spec fn other_entries(doc: toml_edit::DocumentMut) -> Map<Seq<char>, Seq<char>>;

/// The text a document renders to.
pub uninterp spec fn rendered(doc: toml_edit::DocumentMut) -> Seq<char>;

/// What the contracts know of a manifest document.
pub struct ManifestView {
    pub has_table: bool,
    pub table: Map<Seq<char>, Option<Seq<char>>>,
    pub others: Map<Seq<char>, Seq<char>>,
}

/// The view of the document that a manifest text parses to, or `None` where
/// the text is not a well-formed document.
pub uninterp spec fn parsed_manifest(text: Seq<char>) -> Option<ManifestView>;

/// The view of a document.
pub open spec fn view_of(doc: toml_edit::DocumentMut) -> ManifestView {
    ManifestView {
        has_table: has_dependency_table(doc),
        table: dependency_table(doc),
        others: other_entries(doc),
    }
}

/// The version specifier that means "any available version".
pub open spec fn wildcard() -> Seq<char> {
    "*"@
}

/// A dependency table with no entries.
pub open spec fn empty_table() -> Map<Seq<char>, Option<Seq<char>>> {
    Map::empty()
}

/// The dependency table a document starts from: its own, or an empty one
/// where it has none.
pub open spec fn base_table(doc: toml_edit::DocumentMut) -> Map<Seq<char>, Option<Seq<char>>> {
    if has_dependency_table(doc) {
        dependency_table(doc)
    } else {
        empty_table()
    }
}

/// `base` with every name of `names` set to the wildcard; other entries are
/// kept as they are.
pub open spec fn merged_table(
    base: Map<Seq<char>, Option<Seq<char>>>,
    names: Set<Seq<char>>,
) -> Map<Seq<char>, Option<Seq<char>>> {
    base.union_prefer_right(
        Map::new(|k: Seq<char>| names.contains(k), |k: Seq<char>| Some(wildcard())),
    )
}

/// A manifest after merging `names`: it has a dependency table, which is its
/// old one (or an empty one) with every name set to the wildcard, and the rest
/// of the document is as it was.
pub open spec fn merged_view(v: ManifestView, names: Set<Seq<char>>) -> ManifestView {
    ManifestView {
        has_table: true,
        table: merged_table(if v.has_table { v.table } else { empty_table() }, names),
        others: v.others,
    }
}

/// Relies on `DocumentMut`'s `FromStr` impl: parses a manifest text, or fails
/// where it is not a well-formed document; what it finds depends on the text
/// alone.
#[verifier::external_body]
fn parse_manifest(text: &str) -> (r: Result<toml_edit::DocumentMut, toml_edit::TomlError>)
    ensures
        r is Ok <==> parsed_manifest(text@) is Some,
        r matches Ok(d) ==> parsed_manifest(text@) == Some(view_of(d)),
{
    text.parse::<toml_edit::DocumentMut>()
}

/// Relies on `TomlError`'s `Display` impl, for the message of a parse failure.
#[verifier::external_body]
fn toml_error_message(e: &toml_edit::TomlError) -> String {
    e.to_string()
}

/// Relies on `DocumentMut`'s `Display` impl, which renders the document.
#[verifier::external_body]
fn render_manifest(doc: &toml_edit::DocumentMut) -> (r: String)
    ensures
        r@ == rendered(*doc),
{
    doc.to_string()
}

/// Relies on `Table::contains_table`, on the document's root table: true
/// exactly when `dependencies` holds a table.
#[verifier::external_body]
fn contains_dependency_table(doc: &toml_edit::DocumentMut) -> (r: bool)
    ensures
        r == has_dependency_table(*doc),
{
    doc.contains_table("dependencies")
}

/// Relies on `IndexMut` of `DocumentMut` and `Table::new`: `dependencies`
/// becomes an empty table, replacing whatever it held; no other root entry
/// changes.
#[verifier::external_body]
fn reset_dependency_table(doc: &mut toml_edit::DocumentMut)
    ensures
        has_dependency_table(*final(doc)),
        dependency_table(*final(doc)) == empty_table(),
        other_entries(*final(doc)) == other_entries(*old(doc)),
{
    doc["dependencies"] = toml_edit::Item::Table(toml_edit::Table::new());
}

/// Relies on `IndexMut` of `DocumentMut`, of `Item` and `toml_edit::value`:
/// in the `dependencies` table, `name` is set to the string `*`, inserted
/// where it is missing, and no other entry of the table or of the document
/// changes.
#[verifier::external_body]
fn set_wildcard(doc: &mut toml_edit::DocumentMut, name: &str)
    requires
        has_dependency_table(*old(doc)),
    ensures
        has_dependency_table(*final(doc)),
        dependency_table(*final(doc)) == dependency_table(*old(doc)).insert(
            name@,
            Some(wildcard()),
        ),
        other_entries(*final(doc)) == other_entries(*old(doc)),
{
    doc["dependencies"][name] = toml_edit::value("*");
}

/// Sets every name of `deps` to the wildcard in the document's dependency
/// table, creating the table where the document has none; every other entry
/// and the rest of the document are kept.
pub fn merge_dependencies(doc: &mut toml_edit::DocumentMut, deps: &Vec<String>)
    ensures
        view_of(*final(doc)) == merged_view(view_of(*old(doc)), name_set(deps@)),
{
    let ghost base = base_table(*doc);
    let ghost others = other_entries(*doc);
    if !contains_dependency_table(doc) {
        reset_dependency_table(doc);
    }
    let mut i: usize = 0;
    proof {
        assert(name_set(deps@.take(0)) =~= Set::empty());
        assert(merged_table(base, Set::empty()) =~= base);
    }
    while i < deps.len()
        invariant
            0 <= i <= deps.len(),
            has_dependency_table(*doc),
            other_entries(*doc) == others,
            dependency_table(*doc) == merged_table(base, name_set(deps@.take(i as int))),
        decreases deps.len() - i,
    {
        let ghost before = name_set(deps@.take(i as int));
        set_wildcard(doc, deps[i].as_str());
        proof {
            assert(deps@.take(i + 1) =~= deps@.take(i as int).push(deps@[i as int]));
            assert(name_set(deps@.take(i + 1)) =~= before.insert(deps@[i as int]@)) by {
                deps@.take(i as int).lemma_push_map_commute(|s: String| s@, deps@[i as int]);
                deps@.take(i as int).map_values(|s: String| s@).lemma_push_to_set_commute(
                    deps@[i as int]@,
                );
            }
            assert(dependency_table(*doc) =~= merged_table(base, name_set(deps@.take(i + 1))));
        }
        i = i + 1;
    }
    assert(deps@.take(deps.len() as int) =~= deps@);
    assert(view_of(*doc) == merged_view(view_of(*old(doc)), name_set(deps@)));
}

/// Rewrites a manifest text so that its dependency table holds every name of
/// `deps` with the wildcard version, keeping the rest of the document. With no
/// names the manifest is left as it is (`Ok(None)`); a malformed manifest
/// fails with `RunError::Manifest`.
pub fn synthesize_manifest(text: &str, deps: &Vec<String>) -> (r: Result<Option<String>, RunError>)
    ensures
        deps@.len() == 0 <==> r == Ok::<Option<String>, RunError>(None),
        deps@.len() > 0 ==> (r is Err <==> parsed_manifest(text@) is None),
        r is Err ==> r matches Err(RunError::Manifest(_)),
        r matches Ok(Some(s)) ==> exists|d: toml_edit::DocumentMut|
            s@ == #[trigger] rendered(d) && view_of(d) == merged_view(
                parsed_manifest(text@)->Some_0,
                name_set(deps@),
            ),
{
    if deps.len() == 0 {
        return Ok(None);
    }
    match parse_manifest(text) {
        Ok(doc) => {
            let mut doc = doc;
            merge_dependencies(&mut doc, deps);
            let out = render_manifest(&doc);
            assert(out@ == rendered(doc));
            Ok(Some(out))
        },
        Err(e) => Err(RunError::Manifest(toml_error_message(&e))),
    }
}

/// Merging the same names a second time leaves the document, its dependency
/// table and every other entry, exactly as the first merge left it.
pub proof fn lemma_merge_idempotent(
    doc: toml_edit::DocumentMut,
    once: toml_edit::DocumentMut,
    twice: toml_edit::DocumentMut,
    names: Set<Seq<char>>,
)
    requires
        view_of(once) == merged_view(view_of(doc), names),
        view_of(twice) == merged_view(view_of(once), names),
    ensures
        view_of(twice) == view_of(once),
{
    let v = view_of(doc);
    let b = if v.has_table { v.table } else { empty_table() };
    assert(merged_table(merged_table(b, names), names) =~= merged_table(b, names));
}

} // verus!
