//! The export and re-export collectors.
use vstd::prelude::*;
use crate::ast::{Decl, ExportName, ExportSpecifier, Module, ModuleItem, NamedExport, Pat, VarDecl};
use crate::names::NameSet;

verus! {

/// The name a binding pattern introduces, when it is a plain name.
pub open spec fn pat_name(p: Pat) -> Option<Seq<char>> {
    match p {
        Pat::Ident { name, .. } => Some(name@),
        Pat::Other(_) => None,
    }
}

/// The local identifier an export specifier refers to (`orig`), when it is
/// one.
pub open spec fn spec_orig_name(s: ExportSpecifier) -> Option<Seq<char>> {
    match s {
        ExportSpecifier::Named { orig: ExportName::Ident(x), .. } => Some(x@),
        _ => None,
    }
}

/// The identifiers an `export { ... }` statement refers to.
pub open spec fn named_origs(e: NamedExport) -> Set<Seq<char>> {
    Set::new(
        |n: Seq<char>|
            exists|j: int|
                0 <= j < e.specifiers@.len() && spec_orig_name(#[trigger] e.specifiers@[j])
                    == Some(n),
    )
}

/// The plain names a variable declaration introduces.
pub open spec fn var_names(v: VarDecl) -> Set<Seq<char>> {
    Set::new(
        |n: Seq<char>|
            exists|j: int|
                0 <= j < v.decls@.len() && pat_name(#[trigger] v.decls@[j].name) == Some(n),
    )
}

/// What one item adds to the re-export set.
pub open spec fn item_reexports(item: ModuleItem) -> Set<Seq<char>> {
    match item {
        ModuleItem::ExportNamed(e) => named_origs(e),
        _ => Set::empty(),
    }
}

/// What one item adds to the export surface.
pub open spec fn item_exports(item: ModuleItem) -> Set<Seq<char>> {
    match item {
        ModuleItem::ExportNamed(e) => named_origs(e),
        ModuleItem::ExportDecl(Decl::Var(v)) => var_names(v),
        ModuleItem::ExportDecl(Decl::Fn(f)) => set![f.ident@],
        _ => Set::empty(),
    }
}

/// The union of `f` over the first `i` items.
pub open spec fn union_upto(
    body: Seq<ModuleItem>,
    f: spec_fn(ModuleItem) -> Set<Seq<char>>,
    i: int,
) -> Set<Seq<char>> {
    Set::new(|n: Seq<char>| exists|k: int| 0 <= k < i && #[trigger] f(body[k]).contains(n))
}

/// The identifiers named as `orig` by some `export { ... }` statement: the
/// bindings that a re-export keeps alive.
pub open spec fn reexported_names(body: Seq<ModuleItem>) -> Set<Seq<char>> {
    union_upto(body, |it: ModuleItem| item_reexports(it), body.len() as int)
}

/// The module's export surface: names in `export { ... }` lists, and the
/// names of `export const ...` and `export function ...` declarations.
pub open spec fn exported_names(body: Seq<ModuleItem>) -> Set<Seq<char>> {
    union_upto(body, |it: ModuleItem| item_exports(it), body.len() as int)
}

proof fn lemma_union_step(body: Seq<ModuleItem>, f: spec_fn(ModuleItem) -> Set<Seq<char>>, i: int)
    requires
        0 <= i < body.len(),
    ensures
        union_upto(body, f, i + 1) == union_upto(body, f, i).union(f(body[i])),
{
    assert forall|n: Seq<char>|
        #[trigger] union_upto(body, f, i + 1).contains(n) <==> union_upto(body, f, i).union(
            f(body[i]),
        ).contains(n) by {
        if f(body[i]).contains(n) {
            assert(0 <= i < i + 1 && f(body[i]).contains(n));
        }
        if union_upto(body, f, i).contains(n) {
            let k = choose|k: int| 0 <= k < i && #[trigger] f(body[k]).contains(n);
            assert(0 <= k < i + 1 && f(body[k]).contains(n));
        }
    }
    assert(union_upto(body, f, i + 1) =~= union_upto(body, f, i).union(f(body[i])));
}

fn add_named_origs(set: &mut NameSet, e: &NamedExport)
    ensures
        final(set)@ == old(set)@.union(named_origs(*e)),
{
    let ghost start = set@;
    let mut j: usize = 0;
    while j < e.specifiers.len()
        invariant
            j <= e.specifiers@.len(),
            set@ == start.union(
                Set::new(
                    |n: Seq<char>|
                        exists|q: int|
                            0 <= q < j && spec_orig_name(#[trigger] e.specifiers@[q]) == Some(n),
                ),
            ),
        decreases e.specifiers@.len() - j,
    {
        let ghost before = set@;
        if let ExportSpecifier::Named { orig: ExportName::Ident(ident), .. } = &e.specifiers[j] {
            set.insert(ident);
        }
        assert(set@ =~= start.union(
            Set::new(
                |n: Seq<char>|
                    exists|q: int|
                        0 <= q < j + 1 && spec_orig_name(#[trigger] e.specifiers@[q]) == Some(n),
            ),
        ));
        j = j + 1;
    }
    assert(set@ =~= start.union(named_origs(*e)));
}

fn add_var_names(set: &mut NameSet, v: &VarDecl)
    ensures
        final(set)@ == old(set)@.union(var_names(*v)),
{
    let ghost start = set@;
    let mut j: usize = 0;
    while j < v.decls.len()
        invariant
            j <= v.decls@.len(),
            set@ == start.union(
                Set::new(
                    |n: Seq<char>|
                        exists|q: int|
                            0 <= q < j && pat_name(#[trigger] v.decls@[q].name) == Some(n),
                ),
            ),
        decreases v.decls@.len() - j,
    {
        if let Pat::Ident { name, .. } = &v.decls[j].name {
            set.insert(name);
        }
        assert(set@ =~= start.union(
            Set::new(
                |n: Seq<char>|
                    exists|q: int| 0 <= q < j + 1 && pat_name(#[trigger] v.decls@[q].name) == Some(n),
            ),
        ));
        j = j + 1;
    }
    assert(set@ =~= start.union(var_names(*v)));
}

/// Collects the identifiers that `export { ... }` statements name as `orig`.
pub fn collect_reexported_imports(module: &Module) -> (r: NameSet)
    ensures
        r@ == reexported_names(module.body@),
{
    let ghost body = module.body@;
    let mut set = NameSet::new();
    assert(set@ =~= union_upto(body, |it: ModuleItem| item_reexports(it), 0));
    let mut i: usize = 0;
    while i < module.body.len()
        invariant
            body == module.body@,
            i <= body.len(),
            set@ == union_upto(body, |it: ModuleItem| item_reexports(it), i as int),
        decreases body.len() - i,
    {
        proof {
            lemma_union_step(body, |it: ModuleItem| item_reexports(it), i as int);
        }
        let item = &module.body[i];
        assert(item_reexports(body[i as int]) == item_reexports(*item));
        if let ModuleItem::ExportNamed(e) = item {
            add_named_origs(&mut set, e);
        } else {
            assert(set@ =~= set@.union(item_reexports(*item)));
        }
        i = i + 1;
    }
    set
}

/// Collects the module's export surface: the identifiers of `export { ... }`
/// lists and the names that `export` declarations introduce.
pub fn collect_exported_identifiers(module: &Module) -> (r: NameSet)
    ensures
        r@ == exported_names(module.body@),
{
    let ghost body = module.body@;
    let mut set = NameSet::new();
    assert(set@ =~= union_upto(body, |it: ModuleItem| item_exports(it), 0));
    let mut i: usize = 0;
    while i < module.body.len()
        invariant
            body == module.body@,
            i <= body.len(),
            set@ == union_upto(body, |it: ModuleItem| item_exports(it), i as int),
        decreases body.len() - i,
    {
        proof {
            lemma_union_step(body, |it: ModuleItem| item_exports(it), i as int);
        }
        let item = &module.body[i];
        assert(item_exports(body[i as int]) == item_exports(*item));
        match item {
            ModuleItem::ExportNamed(e) => {
                add_named_origs(&mut set, e);
            },
            ModuleItem::ExportDecl(Decl::Var(v)) => {
                add_var_names(&mut set, v);
            },
            ModuleItem::ExportDecl(Decl::Fn(func)) => {
                set.insert(&func.ident);
                assert(set![func.ident@] =~= Set::empty().insert(func.ident@));
            },
            _ => {
                assert(set@ =~= set@.union(item_exports(*item)));
            },
        }
        i = i + 1;
    }
    set
}

} // verus!
