use swc_plugin_strip_components::ast::{
    Decl, ExportName, ExportSpecifier, FnDecl, ImportDecl, ImportSpecifier, Module, ModuleItem,
    NamedExport, Node, Pat, Program, Script, Stmt, VarDecl, VarDeclarator, VarKind,
};
use swc_plugin_strip_components::collect::{collect_exported_identifiers, collect_reexported_imports};
use swc_plugin_strip_components::directive::is_client_module;
use swc_plugin_strip_components::names::NameSet;
use swc_plugin_strip_components::retain::item_retained;
use swc_plugin_strip_components::text::is_client_directive;
use swc_plugin_strip_components::transform::TransformVisitor;

fn s(text: &str) -> String {
    text.to_string()
}

fn strip(body: Vec<ModuleItem>, mut nodes: Vec<Node>) -> Module {
    let directive = nodes.len();
    nodes.push(Node::Str(s("use client")));
    let mut items = vec![ModuleItem::Stmt(Stmt::Expr(directive))];
    items.extend(body);
    let mut program = Program::Module(Module { body: items, nodes });
    let v = TransformVisitor { identifier: s("ClientOnly"), lobotomize_use_client_files: true };
    v.visit_mut_program(&mut program);
    match program {
        Program::Module(m) => m,
        Program::Script(_) => panic!("expected a module"),
    }
}

fn import(specifiers: Vec<ImportSpecifier>) -> ModuleItem {
    ModuleItem::Import(ImportDecl { specifiers, src: s("mod"), type_only: false })
}

fn export(specifiers: Vec<ExportSpecifier>) -> ModuleItem {
    ModuleItem::ExportNamed(NamedExport { specifiers, src: None, type_only: false })
}

fn named(orig: &str, alias: Option<&str>) -> ExportSpecifier {
    ExportSpecifier::Named {
        orig: ExportName::Ident(s(orig)),
        exported: alias.map(|a| ExportName::Ident(s(a))),
        is_type_only: false,
    }
}

fn declarator(name: &str, init: Option<usize>) -> VarDeclarator {
    VarDeclarator { name: Pat::Ident { name: s(name), type_ann: None }, init }
}

fn bare_var(decls: Vec<VarDeclarator>) -> ModuleItem {
    ModuleItem::Stmt(Stmt::Decl(Decl::Var(VarDecl { kind: VarKind::Let, declare: false, decls })))
}

fn export_var(decls: Vec<VarDeclarator>) -> ModuleItem {
    ModuleItem::ExportDecl(Decl::Var(VarDecl { kind: VarKind::Const, declare: false, decls }))
}

fn func(name: &str, body: Option<usize>) -> FnDecl {
    FnDecl {
        ident: s(name),
        declare: false,
        params: vec![7],
        body,
        is_async: true,
        is_generator: false,
        type_params: None,
        return_type: None,
    }
}

fn directive_module(text: &str) -> Program {
    Program::Module(Module { body: vec![ModuleItem::Stmt(Stmt::Expr(0))], nodes: vec![Node::Str(s(text))] })
}

/// Checks that `body` is `{ return null; }` in `nodes`.
fn assert_returns_null(nodes: &[Node], body: Option<usize>) {
    let b = body.expect("a body");
    match &nodes[b] {
        Node::Block(stmts) => {
            assert_eq!(stmts.len(), 1);
            match &nodes[stmts[0]] {
                Node::Return(Some(z)) => assert_eq!(nodes[*z], Node::Null),
                other => panic!("expected return, found {:?}", other),
            }
        }
        other => panic!("expected a block, found {:?}", other),
    }
}

#[test]
fn directive_text_is_trimmed_and_case_blind() {
    assert!(is_client_directive("use client"));
    assert!(is_client_directive("  Use Client\t"));
    assert!(is_client_directive("\u{3000}USE CLIENT\n"));
    assert!(!is_client_directive("use  client"));
    assert!(!is_client_directive("use clients"));
    assert!(!is_client_directive("use server"));
    assert!(!is_client_directive(""));
}

#[test]
fn directive_in_prologue_after_other_strings() {
    let program = Program::Module(Module {
        body: vec![ModuleItem::Stmt(Stmt::Expr(0)), ModuleItem::Stmt(Stmt::Expr(1))],
        nodes: vec![Node::Str(s("use strict")), Node::Str(s(" use client "))],
    });
    assert!(is_client_module(&program));
    assert!(is_client_module(&directive_module("USE CLIENT")));
    assert!(!is_client_module(&directive_module("use server")));
}

#[test]
fn directive_after_prologue_does_not_count() {
    let program = Program::Module(Module {
        body: vec![ModuleItem::Stmt(Stmt::Expr(1)), ModuleItem::Stmt(Stmt::Expr(0))],
        nodes: vec![Node::Str(s("use client")), Node::Ident(s("x"))],
    });
    assert!(!is_client_module(&program));
    let program = Program::Module(Module {
        body: vec![export(vec![named("a", None)]), ModuleItem::Stmt(Stmt::Expr(0))],
        nodes: vec![Node::Str(s("use client"))],
    });
    assert!(!is_client_module(&program));
    let script = Program::Script(Script {
        body: vec![Stmt::Other(1), Stmt::Expr(0)],
        nodes: vec![Node::Str(s("use client")), Node::Other { kind: s("If"), children: vec![] }],
    });
    assert!(!is_client_module(&script));
    let empty = Program::Module(Module { body: vec![], nodes: vec![] });
    assert!(!is_client_module(&empty));
}

#[test]
fn collectors_follow_orig_names() {
    let m = Module {
        body: vec![
            export(vec![named("a", Some("b")), ExportSpecifier::Default(s("d"))]),
            export(vec![ExportSpecifier::Named {
                orig: ExportName::Str(s("str name")),
                exported: None,
                is_type_only: false,
            }]),
            export_var(vec![
                declarator("c", None),
                VarDeclarator { name: Pat::Other(0), init: None },
            ]),
            ModuleItem::ExportDecl(Decl::Fn(func("f", None))),
            bare_var(vec![declarator("local", None)]),
        ],
        nodes: vec![Node::Other { kind: s("ObjectPat"), children: vec![] }],
    };
    let re = collect_reexported_imports(&m);
    assert!(re.contains(&s("a")));
    assert!(!re.contains(&s("b")));
    assert!(!re.contains(&s("d")));
    assert!(!re.contains(&s("str name")));
    assert!(!re.contains(&s("c")));
    let ex = collect_exported_identifiers(&m);
    for name in ["a", "c", "f"] {
        assert!(ex.contains(&s(name)), "{} exported", name);
    }
    for name in ["b", "d", "str name", "local"] {
        assert!(!ex.contains(&s(name)), "{} not exported", name);
    }
}

#[test]
fn name_set_insert_and_contains() {
    let mut set = NameSet::new();
    assert!(!set.contains(&s("x")));
    set.insert(&s("x"));
    set.insert(&s("x"));
    set.insert(&s("y"));
    assert!(set.contains(&s("x")));
    assert!(set.contains(&s("y")));
    assert!(!set.contains(&s("z")));
}

#[test]
fn imports_stay_only_when_reexported() {
    let m = strip(
        vec![
            import(vec![ImportSpecifier::Named { local: s("a"), imported: None, is_type_only: false }]),
            import(vec![ImportSpecifier::Default { local: s("D") }]),
            import(vec![ImportSpecifier::Namespace { local: s("NS") }]),
            import(vec![
                ImportSpecifier::Named { local: s("unused"), imported: None, is_type_only: false },
                ImportSpecifier::Default { local: s("E") },
            ]),
            import(vec![ImportSpecifier::Named { local: s("gone"), imported: None, is_type_only: false }]),
            import(vec![]),
            export(vec![named("a", None), named("D", Some("Dee")), named("E", None)]),
            export(vec![named("NS", None)]),
        ],
        vec![],
    );
    assert_eq!(m.body.len(), 7);
    let imports: Vec<&ImportDecl> = m
        .body
        .iter()
        .filter_map(|it| match it {
            ModuleItem::Import(d) => Some(d),
            _ => None,
        })
        .collect();
    assert_eq!(imports.len(), 4);
    assert!(imports.iter().all(|d| !d.specifiers.is_empty()));
    assert!(!m.body.iter().any(|it| matches!(it, ModuleItem::Import(d) if d.specifiers.len() == 1
        && matches!(&d.specifiers[0], ImportSpecifier::Named { local, .. } if local == "gone"))));
}

#[test]
fn alias_keys_reexport_by_orig() {
    let m = strip(
        vec![
            import(vec![ImportSpecifier::Named { local: s("b"), imported: None, is_type_only: false }]),
            export(vec![named("a", Some("b"))]),
        ],
        vec![],
    );
    // `b` is only an alias: its import goes; the export of `a` stays.
    assert_eq!(m.body.len(), 2);
    assert!(matches!(m.body[1], ModuleItem::ExportNamed(_)));
}

#[test]
fn export_lists_without_identifiers_are_dropped() {
    let m = strip(
        vec![
            export(vec![ExportSpecifier::Named {
                orig: ExportName::Str(s("x y")),
                exported: None,
                is_type_only: false,
            }]),
            export(vec![ExportSpecifier::Namespace { name: ExportName::Ident(s("ns")) }]),
            export(vec![]),
        ],
        vec![],
    );
    assert_eq!(m.body.len(), 1);
}

#[test]
fn unexported_declarations_are_pruned() {
    let m = strip(
        vec![
            bare_var(vec![declarator("x", None), declarator("y", None)]),
            ModuleItem::Stmt(Stmt::Decl(Decl::Fn(func("helper", Some(0))))),
            bare_var(vec![VarDeclarator { name: Pat::Other(1), init: Some(0) }]),
            ModuleItem::Stmt(Stmt::Other(2)),
            ModuleItem::Stmt(Stmt::Decl(Decl::Other(2))),
            ModuleItem::Other(2),
        ],
        vec![
            Node::Block(vec![]),
            Node::Other { kind: s("ArrayPat"), children: vec![] },
            Node::Other { kind: s("Misc"), children: vec![] },
        ],
    );
    // The directive, the destructuring declaration, and the three others stay.
    assert_eq!(m.body.len(), 5);
    match &m.body[1] {
        ModuleItem::Stmt(Stmt::Decl(Decl::Var(v))) => {
            assert_eq!(v.decls[0], VarDeclarator { name: Pat::Other(1), init: Some(0) });
        }
        other => panic!("unexpected item {:?}", other),
    }
    assert_eq!(m.body[2], ModuleItem::Stmt(Stmt::Other(2)));
    assert_eq!(m.body[3], ModuleItem::Stmt(Stmt::Decl(Decl::Other(2))));
    assert_eq!(m.body[4], ModuleItem::Other(2));
}

#[test]
fn exported_functions_return_null() {
    let m = strip(
        vec![
            ModuleItem::ExportDecl(Decl::Fn(func("direct", Some(0)))),
            ModuleItem::Stmt(Stmt::Decl(Decl::Fn(func("byName", None)))),
            export(vec![named("byName", None)]),
        ],
        vec![Node::Block(vec![1]), Node::Return(None)],
    );
    assert_eq!(m.body.len(), 4);
    match &m.body[1] {
        ModuleItem::ExportDecl(Decl::Fn(f)) => {
            assert_eq!(f.ident, "direct");
            assert_eq!(f.params, vec![7]);
            assert!(f.is_async);
            assert_returns_null(&m.nodes, f.body);
        }
        other => panic!("unexpected item {:?}", other),
    }
    match &m.body[2] {
        ModuleItem::Stmt(Stmt::Decl(Decl::Fn(f))) => {
            assert_eq!(f.ident, "byName");
            assert_returns_null(&m.nodes, f.body);
        }
        other => panic!("unexpected item {:?}", other),
    }
    // The old body block is untouched, only no longer used.
    assert_eq!(m.nodes[0], Node::Block(vec![1]));
}

#[test]
fn exported_values_become_null() {
    let m = strip(
        vec![
            export_var(vec![
                declarator("arrowFn", Some(0)),
                declarator("funcExpr", Some(1)),
                declarator("plain", Some(2)),
                declarator("empty", None),
                VarDeclarator { name: Pat::Other(3), init: Some(2) },
            ]),
            bare_var(vec![declarator("kept", Some(2)), declarator("other", Some(2))]),
            export(vec![named("kept", None)]),
        ],
        vec![
            Node::Arrow {
                params: vec![3],
                body: 2,
                is_async: true,
                is_generator: false,
                type_params: None,
                return_type: None,
            },
            Node::Function {
                params: vec![],
                body: None,
                is_async: false,
                is_generator: true,
                type_params: None,
                return_type: None,
            },
            Node::Other { kind: s("NumLit:42"), children: vec![] },
            Node::Other { kind: s("ObjectPat"), children: vec![] },
        ],
    );
    let is_null_arrow = |k: Option<usize>| match &m.nodes[k.expect("init")] {
        Node::Arrow { params, body, is_async, is_generator, .. } => {
            params.is_empty() && !is_async && !is_generator && m.nodes[*body] == Node::Null
        }
        _ => false,
    };
    let is_null = |k: Option<usize>| m.nodes[k.expect("init")] == Node::Null;
    match &m.body[1] {
        ModuleItem::ExportDecl(Decl::Var(v)) => {
            assert_eq!(v.kind, VarKind::Const);
            assert!(is_null_arrow(v.decls[0].init));
            assert!(is_null_arrow(v.decls[1].init));
            assert!(is_null(v.decls[2].init));
            assert!(is_null(v.decls[3].init));
            assert_eq!(v.decls[4], VarDeclarator { name: Pat::Other(3), init: Some(2) });
        }
        other => panic!("unexpected item {:?}", other),
    }
    match &m.body[2] {
        ModuleItem::Stmt(Stmt::Decl(Decl::Var(v))) => {
            assert_eq!(v.kind, VarKind::Let);
            assert!(is_null(v.decls[0].init));
            assert_eq!(v.decls[1], declarator("other", Some(2)));
        }
        other => panic!("unexpected item {:?}", other),
    }
}

#[test]
fn item_rules_on_their_own() {
    let nodes = vec![Node::Str(s(" use client "))];
    let mut re = NameSet::new();
    re.insert(&s("a"));
    let mut ex = NameSet::new();
    ex.insert(&s("f"));
    assert!(item_retained(&ModuleItem::Stmt(Stmt::Expr(0)), &nodes, &re, &ex));
    assert!(item_retained(&ModuleItem::Stmt(Stmt::Expr(5)), &nodes, &re, &ex));
    assert!(item_retained(
        &ModuleItem::Stmt(Stmt::Decl(Decl::Fn(func("f", None)))),
        &nodes,
        &re,
        &ex
    ));
    assert!(!item_retained(
        &ModuleItem::Stmt(Stmt::Decl(Decl::Fn(func("g", None)))),
        &nodes,
        &re,
        &ex
    ));
    assert!(item_retained(&ModuleItem::ExportDecl(Decl::Fn(func("g", None))), &nodes, &re, &ex));
    assert!(!item_retained(&bare_var(vec![]), &nodes, &re, &ex));
    assert!(!item_retained(&export(vec![named("f", None)]), &nodes, &re, &ex));
    assert!(item_retained(&export(vec![named("f", None), named("a", None)]), &nodes, &re, &ex));
}
