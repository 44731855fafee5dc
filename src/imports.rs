//! The import tree of a source file and its reduction to the set of external
//! library names it references.

use vstd::prelude::*;

verus! {

/// One `use` tree: a path node (`a::...`), a leaf (`A`, `A as B`, `*`), or a
/// braced group of sibling trees.
pub enum ImportTree {
    Path { ident: String, tree: Box<ImportTree> },
    Name { ident: String },
    Rename { ident: String, rename: String },
    Glob,
    Group { items: Vec<ImportTree> },
}

/// A top-level declaration of a source file, as far as extraction cares.
pub enum Declaration {
    Import(ImportTree),
    Other,
}

/// Leading identifiers that name the language itself rather than a library.
pub open spec fn is_reserved(name: Seq<char>) -> bool {
    name == "crate"@ || name == "self"@ || name == "super"@ || name == "std"@
}

/// What a single tree node contributes on its own: the leading identifier of
/// a path node, unless it is reserved.
pub open spec fn path_contribution(ident: Seq<char>) -> Set<Seq<char>> {
    if is_reserved(ident) {
        Set::empty()
    } else {
        set![ident]
    }
}

/// The library names referenced by a sequence of sibling trees: each path node
/// contributes its leading identifier, each group contributes what its members
/// do, and leaves contribute nothing.
pub open spec fn forest_dependencies(ts: Seq<ImportTree>) -> Set<Seq<char>>
    decreases ts,
{
    if ts.len() == 0 {
        Set::empty()
    } else {
        let head = match ts.last() {
            ImportTree::Path { ident, .. } => path_contribution(ident@),
            ImportTree::Group { items } => forest_dependencies(items@),
            _ => Set::empty(),
        };
        forest_dependencies(ts.drop_last()).union(head)
    }
}

/// The library names referenced by one tree.
pub open spec fn tree_dependencies(t: ImportTree) -> Set<Seq<char>> {
    forest_dependencies(seq![t])
}

/// The library names referenced by a source file's declarations: the union
/// over its imports; other declarations contribute nothing.
pub open spec fn declared_dependencies(ds: Seq<Declaration>) -> Set<Seq<char>>
    decreases ds.len(),
{
    if ds.len() == 0 {
        Set::empty()
    } else {
        declared_dependencies(ds.drop_last()).union(declaration_dependencies(ds.last()))
    }
}

/// The names held by a list of strings.
pub open spec fn name_seq(v: Seq<String>) -> Seq<Seq<char>> {
    v.map_values(|s: String| s@)
}

/// The set of names held by a list of strings.
pub open spec fn name_set(v: Seq<String>) -> Set<Seq<char>> {
    name_seq(v).to_set()
}

/// A list of names in which no name occurs twice.
pub open spec fn distinct_names(v: Seq<String>) -> bool {
    name_seq(v).no_duplicates()
}


/// Unfolds the reduction of a single tree one level.
pub proof fn lemma_tree_dependencies(t: ImportTree)
    ensures
        tree_dependencies(t) == match t {
            ImportTree::Path { ident, .. } => path_contribution(ident@),
            ImportTree::Group { items } => forest_dependencies(items@),
            _ => Set::empty(),
        },
{
    let ts = seq![t];
    assert(ts.drop_last() =~= Seq::<ImportTree>::empty());
    assert(ts.last() == t);
    assert(forest_dependencies(Seq::<ImportTree>::empty()) == Set::<Seq<char>>::empty());
    reveal_with_fuel(forest_dependencies, 2);
    assert(tree_dependencies(t) =~= match t {
        ImportTree::Path { ident, .. } => path_contribution(ident@),
        ImportTree::Group { items } => forest_dependencies(items@),
        _ => Set::empty(),
    });
}

/// The reduction of the first `i + 1` siblings adds the `i`-th tree's names to
/// that of the first `i`.
pub proof fn lemma_forest_take_step(ts: Seq<ImportTree>, i: int)
    requires
        0 <= i < ts.len(),
    ensures
        forest_dependencies(ts.take(i + 1)) == forest_dependencies(ts.take(i)).union(
            tree_dependencies(ts[i]),
        ),
{
    let s = ts.take(i + 1);
    assert(s.drop_last() =~= ts.take(i));
    assert(s.last() == ts[i]);
    lemma_tree_dependencies(ts[i]);
}

/// The reduction of the first `i + 1` declarations adds the `i`-th one's names
/// to that of the first `i`.
pub proof fn lemma_declarations_take_step(ds: Seq<Declaration>, i: int)
    requires
        0 <= i < ds.len(),
    ensures
        declared_dependencies(ds.take(i + 1)) == declared_dependencies(ds.take(i)).union(
            declaration_dependencies(ds[i]),
        ),
{
    let s = ds.take(i + 1);
    assert(s.drop_last() =~= ds.take(i));
    assert(s.last() == ds[i]);
}

/// A name is referenced by a sequence of sibling trees exactly when one of
/// them references it.
pub proof fn lemma_forest_contains(ts: Seq<ImportTree>, n: Seq<char>)
    ensures
        forest_dependencies(ts).contains(n) <==> exists|i: int|
            0 <= i < ts.len() && #[trigger] tree_dependencies(ts[i]).contains(n),
    decreases ts.len(),
{
    if ts.len() > 0 {
        let k = ts.len() - 1;
        lemma_forest_contains(ts.drop_last(), n);
        lemma_forest_take_step(ts, k);
        assert(ts.take(k + 1) =~= ts);
        assert(ts.take(k) =~= ts.drop_last());
        if forest_dependencies(ts).contains(n) {
            if !tree_dependencies(ts[k]).contains(n) {
                let i = choose|i: int|
                    0 <= i < ts.drop_last().len() && #[trigger] tree_dependencies(
                        ts.drop_last()[i],
                    ).contains(n);
                assert(ts.drop_last()[i] == ts[i]);
            }
        }
        if exists|i: int| 0 <= i < ts.len() && #[trigger] tree_dependencies(ts[i]).contains(n) {
            let i = choose|i: int|
                0 <= i < ts.len() && #[trigger] tree_dependencies(ts[i]).contains(n);
            if i < k {
                assert(ts.drop_last()[i] == ts[i]);
            }
        }
    }
}

/// The names a declaration references on its own.
pub open spec fn declaration_dependencies(d: Declaration) -> Set<Seq<char>> {
    match d {
        Declaration::Import(t) => tree_dependencies(t),
        Declaration::Other => Set::empty(),
    }
}

/// A name is referenced by a source file exactly when one of its declarations
/// references it.
pub proof fn lemma_declared_contains(ds: Seq<Declaration>, n: Seq<char>)
    ensures
        declared_dependencies(ds).contains(n) <==> exists|i: int|
            0 <= i < ds.len() && #[trigger] declaration_dependencies(ds[i]).contains(n),
    decreases ds.len(),
{
    if ds.len() > 0 {
        let k = ds.len() - 1;
        lemma_declared_contains(ds.drop_last(), n);
        lemma_declarations_take_step(ds, k);
        assert(ds.take(k + 1) =~= ds);
        assert(ds.take(k) =~= ds.drop_last());
        if declared_dependencies(ds).contains(n) {
            if !declaration_dependencies(ds[k]).contains(n) {
                let i = choose|i: int|
                    0 <= i < ds.drop_last().len() && #[trigger] declaration_dependencies(
                        ds.drop_last()[i],
                    ).contains(n);
                assert(ds.drop_last()[i] == ds[i]);
            }
        }
        if exists|i: int|
            0 <= i < ds.len() && #[trigger] declaration_dependencies(ds[i]).contains(n) {
            let i = choose|i: int|
                0 <= i < ds.len() && #[trigger] declaration_dependencies(ds[i]).contains(n);
            if i < k {
                assert(ds.drop_last()[i] == ds[i]);
            }
        }
    }
}

/// A reserved name is never referenced by a tree, however deeply it is
/// nested in groups.
pub proof fn lemma_reserved_never_in_tree(t: ImportTree, n: Seq<char>)
    requires
        is_reserved(n),
    ensures
        !tree_dependencies(t).contains(n),
    decreases t,
{
    lemma_tree_dependencies(t);
    if let ImportTree::Group { items } = t {
        lemma_forest_contains(items@, n);
        assert forall|i: int| 0 <= i < items@.len() implies !#[trigger] tree_dependencies(
            items@[i],
        ).contains(n) by {
            broadcast use vstd::std_specs::vec::axiom_vec_index_decreases;

            assert(decreases_to!(t => t->Group_items));
            assert(decreases_to!(items => items[i]));
            lemma_reserved_never_in_tree(items@[i], n);
        }
    }
}

/// Imports rooted at a reserved name never reach the dependency set: no
/// reserved name is referenced by any source file.
pub proof fn lemma_reserved_never_listed(ds: Seq<Declaration>, n: Seq<char>)
    requires
        is_reserved(n),
    ensures
        !declared_dependencies(ds).contains(n),
{
    lemma_declared_contains(ds, n);
    assert forall|i: int| 0 <= i < ds.len() implies !#[trigger] declaration_dependencies(
        ds[i],
    ).contains(n) by {
        if let Declaration::Import(t) = ds[i] {
            lemma_reserved_never_in_tree(t, n);
        }
    }
}

/// A source file whose one import is a path rooted at an external name,
/// whatever else it declares, depends on exactly that name.
pub proof fn lemma_single_import(
    ds: Seq<Declaration>,
    k: int,
    ident: String,
    tree: Box<ImportTree>,
)
    requires
        0 <= k < ds.len(),
        ds[k] == Declaration::Import(ImportTree::Path { ident, tree }),
        !is_reserved(ident@),
        forall|j: int| 0 <= j < ds.len() && j != k ==> ds[j] is Other,
    ensures
        declared_dependencies(ds) == set![ident@],
{
    lemma_tree_dependencies(ImportTree::Path { ident, tree });
    assert forall|n: Seq<char>| declared_dependencies(ds).contains(n) <==> n == ident@ by {
        lemma_declared_contains(ds, n);
        if n == ident@ {
            assert(declaration_dependencies(ds[k]).contains(n));
        }
    }
    assert(declared_dependencies(ds) =~= set![ident@]);
}

/// A group whose branches are all paths rooted at external names references
/// exactly the distinct leading names of its branches.
pub proof fn lemma_group_branches(items: Vec<ImportTree>)
    requires
        forall|i: int|
            0 <= i < items@.len() ==> #[trigger] items@[i] is Path && !is_reserved(
                items@[i]->Path_ident@,
            ),
    ensures
        tree_dependencies(ImportTree::Group { items }) == Set::new(
            |n: Seq<char>| exists|i: int| 0 <= i < items@.len() && #[trigger] items@[i]->Path_ident@ == n,
        ),
{
    lemma_tree_dependencies(ImportTree::Group { items });
    assert forall|n: Seq<char>|
        tree_dependencies(ImportTree::Group { items }).contains(n) <==> exists|i: int|
            0 <= i < items@.len() && #[trigger] items@[i]->Path_ident@ == n by {
        lemma_forest_contains(items@, n);
        assert forall|i: int| 0 <= i < items@.len() implies (tree_dependencies(items@[i]).contains(
            n,
        ) <==> items@[i]->Path_ident@ == n) by {
            lemma_tree_dependencies(items@[i]);
        }
        if exists|i: int| 0 <= i < items@.len() && #[trigger] items@[i]->Path_ident@ == n {
            let i = choose|i: int| 0 <= i < items@.len() && #[trigger] items@[i]->Path_ident@ == n;
            assert(tree_dependencies(items@[i]).contains(n));
        }
    }
    assert(tree_dependencies(ImportTree::Group { items }) =~= Set::new(
        |n: Seq<char>| exists|i: int| 0 <= i < items@.len() && #[trigger] items@[i]->Path_ident@ == n,
    ));
}

/// Whether every path among a sequence of sibling trees, at any depth of
/// grouping, is rooted at a reserved name. Leaves name no library and are
/// allowed.
pub open spec fn reserved_rooted(ts: Seq<ImportTree>) -> bool
    decreases ts,
{
    if ts.len() == 0 {
        true
    } else {
        reserved_rooted(ts.drop_last()) && match ts.last() {
            ImportTree::Path { ident, .. } => is_reserved(ident@),
            ImportTree::Group { items } => reserved_rooted(items@),
            _ => true,
        }
    }
}

/// Sibling trees whose paths are all rooted at reserved names reference
/// nothing.
pub proof fn lemma_reserved_rooted_forest(ts: Seq<ImportTree>)
    requires
        reserved_rooted(ts),
    ensures
        forest_dependencies(ts) == Set::<Seq<char>>::empty(),
    decreases ts,
{
    if ts.len() > 0 {
        lemma_reserved_rooted_forest(ts.drop_last());
        if let ImportTree::Group { items } = ts.last() {
            broadcast use vstd::std_specs::vec::axiom_vec_decreases_to_view;

            assert(decreases_to!(ts => ts[ts.len() - 1]));
            assert(decreases_to!(ts.last() => ts.last()->Group_items));
            assert(decreases_to!(items => items@));
            lemma_reserved_rooted_forest(items@);
        }
        assert(forest_dependencies(ts) =~= Set::<Seq<char>>::empty());
    }
}

/// A source file with no imports, or only imports whose every path, however
/// deeply grouped, is rooted at a reserved name, depends on nothing.
pub proof fn lemma_no_external_imports(ds: Seq<Declaration>)
    requires
        forall|i: int|
            0 <= i < ds.len() ==> match #[trigger] ds[i] {
                Declaration::Other => true,
                Declaration::Import(t) => reserved_rooted(seq![t]),
            },
    ensures
        declared_dependencies(ds) == Set::<Seq<char>>::empty(),
{
    assert forall|n: Seq<char>| !declared_dependencies(ds).contains(n) by {
        lemma_declared_contains(ds, n);
        assert forall|i: int| 0 <= i < ds.len() implies !#[trigger] declaration_dependencies(
            ds[i],
        ).contains(n) by {
            if let Declaration::Import(t) = ds[i] {
                lemma_reserved_rooted_forest(seq![t]);
            }
        }
    }
    assert(declared_dependencies(ds) =~= Set::<Seq<char>>::empty());
}

/// Whether `name` is one of the reserved leading identifiers.
pub fn is_reserved_name(name: &String) -> (r: bool)
    ensures
        r == is_reserved(name@),
{
    *name == String::from_str("crate") || *name == String::from_str("self") || *name
        == String::from_str("super") || *name == String::from_str("std")
}

/// Adds `name` to a list of distinct names unless it is already there.
pub fn insert_name(acc: Vec<String>, name: String) -> (r: Vec<String>)
    requires
        distinct_names(acc@),
    ensures
        distinct_names(r@),
        name_set(r@) == name_set(acc@).insert(name@),
{
    let mut i: usize = 0;
    while i < acc.len()
        invariant
            0 <= i <= acc.len(),
            distinct_names(acc@),
            forall|j: int| 0 <= j < i ==> acc@[j]@ != name@,
        decreases acc.len() - i,
    {
        if acc[i] == name {
            proof {
                assert(name_seq(acc@)[i as int] == name@);
                assert(name_set(acc@).contains(name@));
                assert(name_set(acc@).insert(name@) =~= name_set(acc@));
            }
            return acc;
        }
        i = i + 1;
    }
    let ghost before = acc@;
    let mut acc = acc;
    acc.push(name);
    proof {
        assert(name_seq(acc@) =~= name_seq(before).push(name@));
        assert(!name_seq(before).contains(name@)) by {
            if name_seq(before).contains(name@) {
                let j = choose|j: int| 0 <= j < before.len() && name_seq(before)[j] == name@;
                assert(before[j]@ == name@);
            }
        }
        name_seq(before).lemma_push_to_set_commute(name@);
        assert forall|a: int, b: int|
            0 <= a < name_seq(acc@).len() && 0 <= b < name_seq(acc@).len() && a != b implies
            name_seq(acc@)[a] != name_seq(acc@)[b] by {
            if a < before.len() && b < before.len() {
            } else if a < before.len() {
                assert(name_seq(before)[a] == name_seq(acc@)[a]);
            } else {
                assert(name_seq(before)[b] == name_seq(acc@)[b]);
            }
        }
    }
    acc
}

/// Adds the library names referenced by `t` to `acc`, returning the result.
pub fn collect_tree_dependencies(t: &ImportTree, acc: Vec<String>) -> (r: Vec<String>)
    requires
        distinct_names(acc@),
    ensures
        distinct_names(r@),
        name_set(r@) == name_set(acc@).union(tree_dependencies(*t)),
    decreases t,
{
    proof {
        lemma_tree_dependencies(*t);
    }
    match t {
        ImportTree::Path { ident, .. } => {
            if is_reserved_name(ident) {
                assert(name_set(acc@).union(Set::empty()) =~= name_set(acc@));
                acc
            } else {
                let r = insert_name(acc, ident.clone());
                assert(name_set(acc@).insert(ident@) =~= name_set(acc@).union(set![ident@]));
                r
            }
        },
        ImportTree::Group { items } => {
            let ghost start = acc@;
            let mut acc = acc;
            let mut i: usize = 0;
            assert(items@.take(0) =~= Seq::<ImportTree>::empty());
            assert(name_set(start).union(Set::empty()) =~= name_set(start));
            while i < items.len()
                invariant
                    0 <= i <= items.len(),
                    *t == (ImportTree::Group { items: *items }),
                    distinct_names(acc@),
                    name_set(acc@) == name_set(start).union(
                        forest_dependencies(items@.take(i as int)),
                    ),
                decreases items.len() - i,
            {
                proof {
                    lemma_forest_take_step(items@, i as int);
                }
                let ghost prev = acc@;
                proof {
                    broadcast use vstd::std_specs::vec::axiom_vec_index_decreases;

                    assert(decreases_to!(*t => t->Group_items));
                    assert(decreases_to!(*items => items[i as int]));
                }
                acc = collect_tree_dependencies(&items[i], acc);
                assert(name_set(acc@) =~= name_set(start).union(
                    forest_dependencies(items@.take(i + 1)),
                ));
                i = i + 1;
            }
            assert(items@.take(items.len() as int) =~= items@);
            acc
        },
        _ => {
            assert(name_set(acc@).union(Set::empty()) =~= name_set(acc@));
            acc
        },
    }
}

/// The distinct library names referenced by a source file's declarations.
pub fn declarations_dependencies(ds: &Vec<Declaration>) -> (r: Vec<String>)
    ensures
        distinct_names(r@),
        name_set(r@) == declared_dependencies(ds@),
{
    let mut acc: Vec<String> = Vec::new();
    let mut i: usize = 0;
    assert(ds@.take(0) =~= Seq::<Declaration>::empty());
    assert(name_set(acc@) =~= Set::empty());
    while i < ds.len()
        invariant
            0 <= i <= ds.len(),
            distinct_names(acc@),
            name_set(acc@) == declared_dependencies(ds@.take(i as int)),
        decreases ds.len() - i,
    {
        proof {
            lemma_declarations_take_step(ds@, i as int);
        }
        match &ds[i] {
            Declaration::Import(t) => {
                acc = collect_tree_dependencies(t, acc);
            },
            Declaration::Other => {
                assert(name_set(acc@).union(Set::empty()) =~= name_set(acc@));
            },
        }
        i = i + 1;
    }
    assert(ds@.take(ds.len() as int) =~= ds@);
    acc
}

} // verus!
