//! The transform as a whole: neutralize calls everywhere, then strip a client
//! module down to its stubbed export surface.
use vstd::prelude::*;
use crate::ast::{arena_wf, item_refs_below, lemma_item_refs_grow, lemma_node_refs_grow, lemma_stmt_refs_grow, node_refs_below, nodes_view, program_wf, Decl, ModuleItem, Node, NodeV, Program, Stmt};
use crate::collect::{collect_exported_identifiers, collect_reexported_imports, exported_names, reexported_names};
use crate::directive::{is_client_module, is_directive_item, is_string_item, module_has_directive, program_is_client};
use crate::neutralize::{has_target, is_target, lemma_neutralize_keeps_wf, neutralize_calls, neutralized};
use crate::retain::{declarator_kept, import_local, lemma_filter_membership, retain_items, retained, retained_items};
use crate::stub::{lemma_stub_keeps_refs, lemma_stub_nodes_wf, declarator_stubbed, exports_only_null, item_stubbed, stub_declarator, stub_node_values, stub_nodes_at, transform_exports};

verus! {

/// The transform's configuration.
#[derive(Debug, Clone)]
pub struct TransformVisitor {
    /// The factory whose calls in object properties get `null` arguments.
    pub identifier: String,
    /// Whether client modules are stripped to their stubbed export surface.
    pub lobotomize_use_client_files: bool,
}

/// `body2` and `ns2` are what stripping makes of the client module `body`
/// over the arena `ns`: the kept items, each with its exported values
/// erased, over the arena with the stub nodes appended.
pub open spec fn lobotomized(
    body: Seq<ModuleItem>,
    ns: Seq<NodeV>,
    body2: Seq<ModuleItem>,
    ns2: Seq<NodeV>,
) -> bool {
    let kept = retained_items(body, ns);
    &&& ns2 == ns + stub_node_values(ns.len() as usize)
    &&& body2.len() == kept.len()
    &&& forall|i: int|
        0 <= i < kept.len() ==> item_stubbed(
            #[trigger] kept[i],
            body2[i],
            ns,
            exported_names(body),
            stub_nodes_at(ns.len() as usize),
        )
}

/// `new` is what the transform makes of `old`.
pub open spec fn program_transformed(old: Program, new: Program, id: Seq<char>, lobotomize: bool) -> bool {
    match (old, new) {
        (Program::Module(m), Program::Module(m2)) => {
            let ns = neutralized(nodes_view(m.nodes@), id);
            if lobotomize && module_has_directive(m.body@, nodes_view(m.nodes@)) {
                lobotomized(m.body@, ns, m2.body@, nodes_view(m2.nodes@))
            } else {
                m2.body == m.body && nodes_view(m2.nodes@) == ns
            }
        },
        (Program::Script(s), Program::Script(s2)) => s2.body == s.body && nodes_view(s2.nodes@)
            == neutralized(nodes_view(s.nodes@), id),
        _ => false,
    }
}

/// Every name of `old`'s export surface that `new` still declares has a
/// `null` value, or is a function that returns `null`.
pub open spec fn export_surface_null(old: Program, new: Program) -> bool {
    match (old, new) {
        (Program::Module(m), Program::Module(m2)) => forall|i: int|
            0 <= i < m2.body@.len() ==> exports_only_null(
                #[trigger] m2.body@[i],
                nodes_view(m2.nodes@),
                exported_names(m.body@),
            ),
        _ => true,
    }
}

pub open spec fn arena_len(p: Program) -> nat {
    match p {
        Program::Module(m) => m.nodes@.len(),
        Program::Script(s) => s.nodes@.len(),
    }
}

/// Neutralizing calls changes no string literal, so it cannot change whether
/// a statement is the directive, or a string-literal statement.
proof fn lemma_neutralize_keeps_strings(ns: Seq<NodeV>, id: Seq<char>, e: usize)
    ensures
        (e < ns.len() && ns[e as int] is Str) <==> (e < neutralized(ns, id).len() && neutralized(
            ns,
            id,
        )[e as int] is Str),
        e < ns.len() && ns[e as int] is Str ==> neutralized(ns, id)[e as int] == ns[e as int],
{
    let ms = neutralized(ns, id);
    if has_target(ns, id) {
        if e < ns.len() {
            if is_target(ns, id, e as int) {
                assert(!(ms[e as int] is Str));
            }
        } else if e == ns.len() {
            assert(ms[e as int] == NodeV::Null);
        }
    }
}

proof fn lemma_neutralize_keeps_directive(body: Seq<ModuleItem>, ns: Seq<NodeV>, id: Seq<char>)
    ensures
        module_has_directive(body, ns) == module_has_directive(body, neutralized(ns, id)),
{
    let ms = neutralized(ns, id);
    assert forall|i: int| 0 <= i < body.len() implies (is_string_item(ns, #[trigger] body[i])
        == is_string_item(ms, body[i]) && is_directive_item(ns, body[i]) == is_directive_item(
        ms,
        body[i],
    )) by {
        if let ModuleItem::Stmt(Stmt::Expr(e)) = body[i] {
            lemma_neutralize_keeps_strings(ns, id, e);
        }
    }
    if module_has_directive(body, ns) {
        let i = choose|i: int|
            0 <= i < body.len() && is_directive_item(ns, #[trigger] body[i]) && forall|j: int|
                0 <= j < i ==> is_string_item(ns, #[trigger] body[j]);
        assert(is_directive_item(ms, body[i]));
    }
    if module_has_directive(body, ms) {
        let i = choose|i: int|
            0 <= i < body.len() && is_directive_item(ms, #[trigger] body[i]) && forall|j: int|
                0 <= j < i ==> is_string_item(ms, #[trigger] body[j]);
        assert(is_directive_item(ns, body[i]));
    }
}

/// The transform keeps a well-formed program well-formed.
pub proof fn lemma_transform_keeps_wf(old: Program, new: Program, id: Seq<char>, lobotomize: bool)
    requires
        program_transformed(old, new, id, lobotomize),
        program_wf(old),
        arena_len(old) + 5 <= usize::MAX,
    ensures
        program_wf(new),
{
    match (old, new) {
        (Program::Script(s), Program::Script(s2)) => {
            let n = s.nodes@.len() as int;
            lemma_neutralize_keeps_wf(nodes_view(s.nodes@), id);
            assert forall|i: int| 0 <= i < s2.body@.len() implies crate::ast::stmt_refs_below(
                #[trigger] s2.body@[i],
                s2.nodes@.len() as int,
            ) by {
                assert(s2.body@[i] == s.body@[i]);
                lemma_stmt_refs_grow(s.body@[i], n, s2.nodes@.len() as int);
            }
        },
        (Program::Module(m), Program::Module(m2)) => {
            let n = m.nodes@.len() as int;
            let ns = neutralized(nodes_view(m.nodes@), id);
            lemma_neutralize_keeps_wf(nodes_view(m.nodes@), id);
            let n1 = ns.len() as int;
            if lobotomize && module_has_directive(m.body@, nodes_view(m.nodes@)) {
                let body = m.body@;
                let kept = retained_items(body, ns);
                let ns2 = nodes_view(m2.nodes@);
                lemma_stub_nodes_wf(n1 as usize);
                assert forall|i: int| 0 <= i < ns2.len() implies node_refs_below(
                    #[trigger] ns2[i],
                    ns2.len() as int,
                ) by {
                    if i < n1 {
                        assert(ns2[i] == ns[i]);
                        lemma_node_refs_grow(ns[i], n1, n1 + 4);
                    } else {
                        assert(ns2[i] == stub_node_values(n1 as usize)[i - n1]);
                    }
                }
                assert(arena_wf(ns2));
                assert forall|i: int| 0 <= i < m2.body@.len() implies item_refs_below(
                    #[trigger] m2.body@[i],
                    m2.nodes@.len() as int,
                ) by {
                    let pred = |it: ModuleItem|
                        retained(it, ns, reexported_names(body), exported_names(body));
                    assert(kept.contains(kept[i]));
                    body.lemma_filter_contains_rev(pred, kept[i]);
                    let k = choose|k: int| 0 <= k < body.len() && body[k] == kept[i];
                    assert(item_refs_below(body[k], n));
                    lemma_item_refs_grow(kept[i], n, n1);
                    lemma_stub_keeps_refs(kept[i], m2.body@[i], ns, exported_names(body), n1 as usize);
                }
            } else {
                assert forall|i: int| 0 <= i < m2.body@.len() implies item_refs_below(
                    #[trigger] m2.body@[i],
                    m2.nodes@.len() as int,
                ) by {
                    assert(m2.body@[i] == m.body@[i]);
                    lemma_item_refs_grow(m.body@[i], n, m2.nodes@.len() as int);
                }
            }
        },
        _ => {},
    }
}

impl TransformVisitor {
    /// The call neutralizer over a whole arena.
    pub fn visit_mut_key_value_props(&self, nodes: &mut Vec<Node>)
        ensures
            nodes_view(final(nodes)@) == neutralized(nodes_view(old(nodes)@), self.identifier@),
    {
        neutralize_calls(nodes, &self.identifier);
    }

    /// Runs the transform on a program: calls are neutralized everywhere;
    /// then, when stripping is on and the program is a module that opens
    /// with the client directive, the module keeps only the items that the
    /// retention filter accepts, and each exported value among them is
    /// erased to `null` (or a function returning `null`).
    pub fn visit_mut_program(&self, program: &mut Program)
        requires
            arena_len(*old(program)) + 5 <= usize::MAX,
        ensures
            program_transformed(
                *old(program),
                *final(program),
                self.identifier@,
                self.lobotomize_use_client_files,
            ),
            self.lobotomize_use_client_files && program_is_client(*old(program))
                ==> export_surface_null(*old(program), *final(program)),
            program_wf(*old(program)) ==> program_wf(*final(program)),
    {
        let ghost before = *program;
        match program {
            Program::Module(m) => self.visit_mut_key_value_props(&mut m.nodes),
            Program::Script(s) => self.visit_mut_key_value_props(&mut s.nodes),
        }
        if !self.lobotomize_use_client_files {
            proof {
                if program_wf(before) {
                    lemma_transform_keeps_wf(before, *program, self.identifier@, false);
                }
            }
            return ;
        }
        let client = is_client_module(program);
        if let Program::Module(m) = program {
            proof {
                lemma_neutralize_keeps_directive(
                    m.body@,
                    nodes_view(before->Module_0.nodes@),
                    self.identifier@,
                );
            }
            if client {
                let reexported = collect_reexported_imports(m);
                let exported = collect_exported_identifiers(m);
                retain_items(m, &reexported, &exported);
                transform_exports(m, &exported);
            }
        }
        proof {
            if program_wf(before) {
                lemma_transform_keeps_wf(before, *program, self.identifier@, true);
            }
        }
    }
}

/// The program is left as the call neutralizer made it.
pub open spec fn only_neutralized(old: Program, new: Program, id: Seq<char>) -> bool {
    match (old, new) {
        (Program::Module(m), Program::Module(m2)) => m2.body == m.body && nodes_view(m2.nodes@)
            == neutralized(nodes_view(m.nodes@), id),
        (Program::Script(s), Program::Script(s2)) => s2.body == s.body && nodes_view(s2.nodes@)
            == neutralized(nodes_view(s.nodes@), id),
        _ => false,
    }
}

/// Directive gating: a program without the directive keeps every item as it
/// was, whether stripping is on or off; only calls are neutralized.
pub proof fn lemma_directive_gating(old: Program, new: Program, id: Seq<char>, lobotomize: bool)
    requires
        program_transformed(old, new, id, lobotomize),
        !program_is_client(old),
    ensures
        only_neutralized(old, new, id),
{
}

/// Re-export closure: in a stripped client module, an import declaration of
/// the original stays exactly when one of its bindings is named by an
/// `export { ... }` statement of the module.
pub proof fn lemma_reexport_closure(old: Program, new: Program, id: Seq<char>, item: ModuleItem)
    requires
        program_transformed(old, new, id, true),
        program_is_client(old),
        old is Module,
        old->Module_0.body@.contains(item),
        item is Import,
    ensures
        new->Module_0.body@.contains(item) <==> exists|j: int|
            0 <= j < item->Import_0.specifiers@.len() && reexported_names(
                old->Module_0.body@,
            ).contains(import_local(#[trigger] item->Import_0.specifiers@[j])),
{
    let body = old->Module_0.body@;
    let ns = neutralized(nodes_view(old->Module_0.nodes@), id);
    let kept = retained_items(body, ns);
    let out = new->Module_0.body@;
    lemma_filter_membership(body, ns, item);
    if kept.contains(item) {
        let i = choose|i: int| 0 <= i < kept.len() && kept[i] == item;
        assert(item_stubbed(kept[i], out[i], ns, exported_names(body), stub_nodes_at(ns.len() as usize)));
        assert(out[i] == item);
    }
    if out.contains(item) {
        let i = choose|i: int| 0 <= i < out.len() && out[i] == item;
        assert(item_stubbed(kept[i], out[i], ns, exported_names(body), stub_nodes_at(ns.len() as usize)));
        assert(kept[i] == item);
        assert(kept.contains(item));
    }
}

/// A top-level declaration that is not judged by name stays, as does one
/// with an exported name.
pub open spec fn declaration_exported(item: ModuleItem, exported: Set<Seq<char>>) -> bool {
    match item {
        ModuleItem::Stmt(Stmt::Decl(Decl::Var(v))) => exists|j: int|
            0 <= j < v.decls@.len() && declarator_kept(#[trigger] v.decls@[j].name, exported),
        ModuleItem::Stmt(Stmt::Decl(Decl::Fn(f))) => exported.contains(f.ident@),
        _ => true,
    }
}

/// Pruning: in a stripped client module, every top-level variable
/// declaration left declares an exported name (or a pattern that cannot be
/// judged by name), and every top-level function declaration left has an
/// exported name; the others are gone.
pub proof fn lemma_unexported_declarations_dropped(
    old: Program,
    new: Program,
    id: Seq<char>,
)
    requires
        program_transformed(old, new, id, true),
        program_is_client(old),
        old is Module,
    ensures
        forall|i: int|
            0 <= i < new->Module_0.body@.len() ==> declaration_exported(
                #[trigger] new->Module_0.body@[i],
                exported_names(old->Module_0.body@),
            ),
{
    let body = old->Module_0.body@;
    let ns = neutralized(nodes_view(old->Module_0.nodes@), id);
    let exported = exported_names(body);
    let pred = |it: ModuleItem| retained(it, ns, reexported_names(body), exported);
    let kept = body.filter(pred);
    let out = new->Module_0.body@;
    let s = stub_nodes_at(ns.len() as usize);
    assert forall|i: int| 0 <= i < out.len() implies declaration_exported(
        #[trigger] out[i],
        exported,
    ) by {
        body.lemma_filter_pred(pred, i);
        assert(retained(kept[i], ns, reexported_names(body), exported));
        assert(item_stubbed(kept[i], out[i], ns, exported, s));
        if let ModuleItem::Stmt(Stmt::Decl(Decl::Var(v))) = kept[i] {
            let w = out[i]->Stmt_0->Decl_0->Var_0;
            let j = choose|j: int|
                0 <= j < v.decls@.len() && declarator_kept(#[trigger] v.decls@[j].name, exported);
            if declarator_stubbed(v.decls@[j], exported, false) {
                assert(w.decls@[j] == stub_declarator(v.decls@[j], ns, s));
            } else {
                assert(w.decls@[j] == v.decls@[j]);
            }
            assert(declarator_kept(w.decls@[j].name, exported));
        }
    }
}

} // verus!
