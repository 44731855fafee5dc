//! Parsing a compiled-language source file into declarations, and extracting
//! the external libraries it imports.

use vstd::prelude::*;
use crate::error::RunError;
use crate::imports::{
    declarations_dependencies, declared_dependencies, distinct_names, name_set, Declaration,
    ImportTree,
};

verus! {

#[verifier::external_type_specification]
#[verifier::external_body]
pub struct ExSynError(syn::Error);

#[verifier::external_type_specification]
#[verifier::external_body]
pub struct ExSynUseTree(syn::UseTree);

/// The declarations that the source parser finds in a text, or `None` where
/// the text is not a well-formed source file.
pub uninterp spec fn parsed_declarations(text: Seq<char>) -> Option<Seq<Declaration>>;

/// Relies on syn::parse_file: it parses the whole text as a source file or
/// fails, and its result depends on the text alone. Each parsed item becomes
/// one declaration, in order: a `use` item its tree, any other item `Other`.
#[verifier::external_body]
fn parse_declarations(text: &str) -> (r: Result<Vec<Declaration>, syn::Error>)
    ensures
        match r {
            Ok(ds) => parsed_declarations(text@) == Some(ds@),
            Err(_) => parsed_declarations(text@) is None,
        },
{
    syn::parse_file(text).map(|file| file.items.iter().map(|item| match item {
        syn::Item::Use(item_use) => Declaration::Import(import_tree_of(&item_use.tree)),
        _ => Declaration::Other,
    }).collect())
}

/// Converts one parsed `use` tree node for node, each identifier by its
/// `Display` text; the conversion step of `parse_declarations`.
#[verifier::external_body]
fn import_tree_of(tree: &syn::UseTree) -> ImportTree {
    match tree {
        syn::UseTree::Path(p) => ImportTree::Path {
            ident: p.ident.to_string(),
            tree: Box::new(import_tree_of(&p.tree)),
        },
        syn::UseTree::Name(n) => ImportTree::Name { ident: n.ident.to_string() },
        syn::UseTree::Rename(r) => ImportTree::Rename {
            ident: r.ident.to_string(),
            rename: r.rename.to_string(),
        },
        syn::UseTree::Glob(_) => ImportTree::Glob,
        syn::UseTree::Group(g) => ImportTree::Group { items: g.items.iter().map(import_tree_of).collect() },
    }
}

/// The distinct external library names imported by a source text. Fails with
/// `RunError::Parse` exactly when the text is not a well-formed source file.
pub fn extract_external_dependencies(content: &str) -> (r: Result<Vec<String>, RunError>)
    ensures
        r is Err <==> parsed_declarations(content@) is None,
        r is Err ==> r matches Err(RunError::Parse),
        r matches Ok(v) ==> distinct_names(v@) && name_set(v@) == declared_dependencies(
            parsed_declarations(content@)->Some_0,
        ),
{
    match parse_declarations(content) {
        Ok(ds) => Ok(declarations_dependencies(&ds)),
        Err(_) => Err(RunError::Parse),
    }
}

} // verus!
