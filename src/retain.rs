//! The retention filter: which top-level items of a client module stay.
use vstd::prelude::*;
use crate::ast::{nodes_view, Decl, ExportName, ExportSpecifier, ImportSpecifier, Module, ModuleItem, Node, NodeV, Pat, Stmt};
use crate::collect::{exported_names, reexported_names, spec_orig_name};
use crate::directive::is_directive_item;
use crate::names::NameSet;
use crate::text::is_client_directive;

verus! {

/// The local identifier an import specifier binds.
pub open spec fn import_local(s: ImportSpecifier) -> Seq<char> {
    match s {
        ImportSpecifier::Named { local, .. } => local@,
        ImportSpecifier::Default { local } => local@,
        ImportSpecifier::Namespace { local } => local@,
    }
}

/// A declarator keeps its declaration: its plain name is exported, or its
/// pattern is not a plain name and so cannot be judged by name.
pub open spec fn declarator_kept(p: Pat, exported: Set<Seq<char>>) -> bool {
    match p {
        Pat::Ident { name, .. } => exported.contains(name@),
        Pat::Other(_) => true,
    }
}

/// Whether a top-level item stays, the first matching rule deciding: the
/// directive stays; an import stays when it binds a re-exported name; an
/// `export { ... }` stays when it refers to a re-exported name; a variable
/// declaration stays when one of its declarators is kept; a function
/// declaration stays when its name is exported; anything else stays.
pub open spec fn retained(
    item: ModuleItem,
    nodes: Seq<NodeV>,
    reexported: Set<Seq<char>>,
    exported: Set<Seq<char>>,
) -> bool {
    if is_directive_item(nodes, item) {
        true
    } else {
        match item {
            ModuleItem::Import(d) => exists|j: int|
                0 <= j < d.specifiers@.len() && reexported.contains(
                    import_local(#[trigger] d.specifiers@[j]),
                ),
            ModuleItem::ExportNamed(e) => exists|j: int|
                0 <= j < e.specifiers@.len() && (#[trigger] spec_orig_name(e.specifiers@[j]) matches Some(
                    n,
                ) && reexported.contains(n)),
            ModuleItem::Stmt(Stmt::Decl(Decl::Var(v))) => exists|j: int|
                0 <= j < v.decls@.len() && declarator_kept(#[trigger] v.decls@[j].name, exported),
            ModuleItem::Stmt(Stmt::Decl(Decl::Fn(f))) => exported.contains(f.ident@),
            _ => true,
        }
    }
}

/// The items of a client module that the filter keeps, in their order.
pub open spec fn retained_items(body: Seq<ModuleItem>, nodes: Seq<NodeV>) -> Seq<ModuleItem> {
    body.filter(
        |it: ModuleItem| retained(it, nodes, reexported_names(body), exported_names(body)),
    )
}

fn item_is_directive(item: &ModuleItem, nodes: &Vec<Node>) -> (r: bool)
    ensures
        r == is_directive_item(nodes_view(nodes@), *item),
{
    if let ModuleItem::Stmt(Stmt::Expr(e)) = item {
        if *e < nodes.len() {
            if let Node::Str(text) = &nodes[*e] {
                return is_client_directive(text.as_str());
            }
        }
    }
    false
}

fn local_name(s: &ImportSpecifier) -> (r: &String)
    ensures
        r@ == import_local(*s),
{
    match s {
        ImportSpecifier::Named { local, .. } => local,
        ImportSpecifier::Default { local } => local,
        ImportSpecifier::Namespace { local } => local,
    }
}

/// Decides one item by the rules of [`retained`].
pub fn item_retained(
    item: &ModuleItem,
    nodes: &Vec<Node>,
    reexported: &NameSet,
    exported: &NameSet,
) -> (r: bool)
    ensures
        r == retained(*item, nodes_view(nodes@), reexported@, exported@),
{
    if item_is_directive(item, nodes) {
        return true;
    }
    match item {
        ModuleItem::Import(d) => {
            let mut j: usize = 0;
            while j < d.specifiers.len()
                invariant
                    j <= d.specifiers@.len(),
                    !is_directive_item(nodes_view(nodes@), *item),
                    *item == ModuleItem::Import(*d),
                    forall|q: int|
                        0 <= q < j ==> !reexported@.contains(import_local(#[trigger] d.specifiers@[q])),
                decreases d.specifiers@.len() - j,
            {
                if reexported.contains(local_name(&d.specifiers[j])) {
                    assert(item->Import_0 == *d);
                    assert(exists|q: int|
                        0 <= q < d.specifiers@.len() && reexported@.contains(
                            import_local(#[trigger] d.specifiers@[q]),
                        ));
                    return true;
                }
                j = j + 1;
            }
            false
        },
        ModuleItem::ExportNamed(e) => {
            let mut j: usize = 0;
            while j < e.specifiers.len()
                invariant
                    j <= e.specifiers@.len(),
                    !is_directive_item(nodes_view(nodes@), *item),
                    *item == ModuleItem::ExportNamed(*e),
                    forall|q: int|
                        0 <= q < j ==> !(#[trigger] spec_orig_name(e.specifiers@[q]) matches Some(n)
                            && reexported@.contains(n)),
                decreases e.specifiers@.len() - j,
            {
                if let ExportSpecifier::Named { orig: ExportName::Ident(ident), .. } = &e.specifiers[j] {
                    if reexported.contains(ident) {
                        assert(spec_orig_name(e.specifiers@[j as int]) == Some(ident@));
                        return true;
                    }
                }
                j = j + 1;
            }
            false
        },
        ModuleItem::Stmt(Stmt::Decl(Decl::Var(v))) => {
            let mut j: usize = 0;
            while j < v.decls.len()
                invariant
                    j <= v.decls@.len(),
                    !is_directive_item(nodes_view(nodes@), *item),
                    *item == ModuleItem::Stmt(Stmt::Decl(Decl::Var(*v))),
                    forall|q: int|
                        0 <= q < j ==> !declarator_kept(#[trigger] v.decls@[q].name, exported@),
                decreases v.decls@.len() - j,
            {
                match &v.decls[j].name {
                    Pat::Ident { name, .. } => {
                        if exported.contains(name) {
                            return true;
                        }
                    },
                    Pat::Other(_) => {
                        return true;
                    },
                }
                j = j + 1;
            }
            false
        },
        ModuleItem::Stmt(Stmt::Decl(Decl::Fn(f))) => exported.contains(&f.ident),
        _ => true,
    }
}

/// Keeps the items of the module body that [`retained`] accepts, in their
/// order, and drops the rest. The arena is not touched.
pub fn retain_items(module: &mut Module, reexported: &NameSet, exported: &NameSet)
    ensures
        final(module).nodes == old(module).nodes,
        final(module).body@ == old(module).body@.filter(
            |it: ModuleItem| retained(it, nodes_view(old(module).nodes@), reexported@, exported@),
        ),
{
    let ghost pred = |it: ModuleItem| retained(it, nodes_view(module.nodes@), reexported@, exported@);
    let mut items: Vec<ModuleItem> = Vec::new();
    std::mem::swap(&mut items, &mut module.body);
    let ghost orig = items@;
    let n = items.len();
    proof {
        reveal(Seq::filter);
        assert(orig.subrange(0, 0).filter(pred) =~= module.body@);
    }
    let mut i: usize = 0;
    while i < n
        invariant
            n == orig.len(),
            i <= n,
            items@.len() == n,
            forall|k: int| i <= k < n ==> #[trigger] items@[k] == orig[k],
            module.body@ == orig.subrange(0, i as int).filter(pred),
            module.nodes == old(module).nodes,
            pred == (|it: ModuleItem| retained(it, nodes_view(module.nodes@), reexported@, exported@)),
        decreases n - i,
    {
        let keep = item_retained(&items[i], &module.nodes, reexported, exported);
        let mut item = ModuleItem::Other(0);
        items.set_and_swap(i, &mut item);
        if keep {
            module.body.push(item);
        }
        proof {
            reveal(Seq::filter);
            assert(orig.subrange(0, i + 1).drop_last() =~= orig.subrange(0, i as int));
        }
        i = i + 1;
    }
    assert(orig.subrange(0, n as int) =~= orig);
}

/// An item of the body survives the filter exactly when [`retained`] accepts it.
pub proof fn lemma_filter_membership(body: Seq<ModuleItem>, nodes: Seq<NodeV>, item: ModuleItem)
    requires
        body.contains(item),
    ensures
        retained_items(body, nodes).contains(item) <==> retained(
            item,
            nodes,
            reexported_names(body),
            exported_names(body),
        ),
{
    let pred = |it: ModuleItem| retained(it, nodes, reexported_names(body), exported_names(body));
    let kept = body.filter(pred);
    if kept.contains(item) {
        let i = choose|i: int| 0 <= i < kept.len() && kept[i] == item;
        body.lemma_filter_pred(pred, i);
    }
    if pred(item) {
        let i = choose|i: int| 0 <= i < body.len() && body[i] == item;
        body.lemma_filter_contains(pred, i);
    }
}

} // verus!
