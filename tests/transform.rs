use swc_plugin_strip_components::ast::{
    Decl, ExportName, ExportSpecifier, FnDecl, ImportDecl, ImportSpecifier, Module, ModuleItem,
    NamedExport, Node, Pat, Program, Script, Stmt, VarDecl, VarDeclarator, VarKind,
};
use swc_plugin_strip_components::directive::is_client_module;
use swc_plugin_strip_components::transform::TransformVisitor;

fn visitor(lobotomize: bool) -> TransformVisitor {
    TransformVisitor { identifier: "ClientOnly".to_string(), lobotomize_use_client_files: lobotomize }
}

fn s(text: &str) -> String {
    text.to_string()
}

fn import_named(local: &str, src: &str) -> ModuleItem {
    ModuleItem::Import(ImportDecl {
        specifiers: vec![ImportSpecifier::Named { local: s(local), imported: None, is_type_only: false }],
        src: s(src),
        type_only: false,
    })
}

fn export_named(orig: &str) -> ModuleItem {
    ModuleItem::ExportNamed(NamedExport {
        specifiers: vec![ExportSpecifier::Named {
            orig: ExportName::Ident(s(orig)),
            exported: None,
            is_type_only: false,
        }],
        src: None,
        type_only: false,
    })
}

fn declarator(name: &str, init: Option<usize>) -> VarDeclarator {
    VarDeclarator { name: Pat::Ident { name: s(name), type_ann: None }, init }
}

fn var(kind: VarKind, decls: Vec<VarDeclarator>) -> VarDecl {
    VarDecl { kind, declare: false, decls }
}

fn func(name: &str, body: Option<usize>) -> FnDecl {
    FnDecl {
        ident: s(name),
        declare: false,
        params: vec![],
        body,
        is_async: false,
        is_generator: false,
        type_params: None,
        return_type: None,
    }
}

fn arrow(body: usize) -> Node {
    Node::Arrow { params: vec![], body, is_async: false, is_generator: false, type_params: None, return_type: None }
}

fn module(program: Program) -> Module {
    match program {
        Program::Module(m) => m,
        Program::Script(_) => panic!("expected a module"),
    }
}

/// `"use client"; import {a} from 'x'; export {a}; const b = 1; export const c = () => b;`
fn scenario_a_input() -> Module {
    Module {
        nodes: vec![
            Node::Str(s("use client")),
            Node::Other { kind: s("NumLit:1"), children: vec![] },
            Node::Ident(s("b")),
            arrow(2),
        ],
        body: vec![
            ModuleItem::Stmt(Stmt::Expr(0)),
            import_named("a", "x"),
            export_named("a"),
            ModuleItem::Stmt(Stmt::Decl(Decl::Var(var(VarKind::Const, vec![declarator("b", Some(1))])))),
            ModuleItem::ExportDecl(Decl::Var(var(VarKind::Const, vec![declarator("c", Some(3))]))),
        ],
    }
}

#[test]
fn scenario_a_client_module_is_stripped() {
    let input = scenario_a_input();
    let mut program = Program::Module(input.clone());
    visitor(true).visit_mut_program(&mut program);
    let m = module(program);
    assert_eq!(m.body.len(), 4);
    assert_eq!(m.body[0], input.body[0]);
    assert_eq!(m.body[1], input.body[1]);
    assert_eq!(m.body[2], input.body[2]);
    // `export const c = () => null;`
    match &m.body[3] {
        ModuleItem::ExportDecl(Decl::Var(v)) => {
            assert_eq!(v.kind, VarKind::Const);
            assert_eq!(v.decls.len(), 1);
            assert_eq!(v.decls[0].name, Pat::Ident { name: s("c"), type_ann: None });
            let k = v.decls[0].init.expect("initializer");
            match &m.nodes[k] {
                Node::Arrow { params, body, .. } => {
                    assert!(params.is_empty());
                    assert_eq!(m.nodes[*body], Node::Null);
                }
                other => panic!("expected an arrow, found {:?}", other),
            }
        }
        other => panic!("expected the export of c, found {:?}", other),
    }
    // `const b = 1;` is gone.
    assert!(!m.body.iter().any(|it| matches!(it, ModuleItem::Stmt(Stmt::Decl(_)))));
    // The original nodes stay in place.
    assert_eq!(m.nodes[..4], input.nodes[..]);
}

/// `const test = { hello: ClientOnly('world') };`
fn scenario_b_nodes() -> Vec<Node> {
    vec![
        Node::Ident(s("ClientOnly")),
        Node::Str(s("world")),
        Node::Call { callee: 0, args: vec![1] },
        Node::Ident(s("hello")),
        Node::KeyValue { key: 3, value: 2 },
        Node::Other { kind: s("Object"), children: vec![4] },
    ]
}

fn scenario_b_body() -> Vec<ModuleItem> {
    vec![ModuleItem::Stmt(Stmt::Decl(Decl::Var(var(VarKind::Const, vec![declarator("test", Some(5))]))))]
}

fn check_scenario_b(m: &Module) {
    assert_eq!(m.nodes.len(), 7);
    assert_eq!(m.nodes[2], Node::Call { callee: 0, args: vec![6] });
    assert_eq!(m.nodes[6], Node::Null);
    let before = scenario_b_nodes();
    for i in [0usize, 1, 3, 4, 5] {
        assert_eq!(m.nodes[i], before[i]);
    }
    assert_eq!(m.body, scenario_b_body());
}

#[test]
fn scenario_b_call_arguments_become_null() {
    for lobotomize in [false, true] {
        let mut program = Program::Module(Module { body: scenario_b_body(), nodes: scenario_b_nodes() });
        visitor(lobotomize).visit_mut_program(&mut program);
        check_scenario_b(&module(program));
    }
}

#[test]
fn scenario_b_in_client_module() {
    let mut nodes = scenario_b_nodes();
    nodes.push(Node::Str(s("use client")));
    let body = vec![
        ModuleItem::Stmt(Stmt::Expr(6)),
        ModuleItem::ExportDecl(Decl::Var(var(VarKind::Const, vec![declarator("test", Some(5))]))),
    ];
    let mut program = Program::Module(Module { body, nodes });
    visitor(true).visit_mut_program(&mut program);
    let m = module(program);
    // Neutralized first: the new `null` argument lands at index 7.
    assert_eq!(m.nodes[2], Node::Call { callee: 0, args: vec![7] });
    assert_eq!(m.nodes[7], Node::Null);
    // Then the exported `test` is erased to `null` (the stub `null` at 8).
    match &m.body[1] {
        ModuleItem::ExportDecl(Decl::Var(v)) => assert_eq!(v.decls[0].init, Some(8)),
        other => panic!("unexpected item {:?}", other),
    }
    assert_eq!(m.nodes[8], Node::Null);
}

#[test]
fn scenario_c_module_without_directive_is_untouched() {
    let mut input = scenario_a_input();
    input.nodes[0] = Node::Str(s("use strict"));
    let mut program = Program::Module(input.clone());
    visitor(true).visit_mut_program(&mut program);
    assert_eq!(module(program), input);
}

#[test]
fn scenario_c_neutralizes_without_directive() {
    let mut nodes = scenario_b_nodes();
    nodes.push(Node::Ident(s("Other")));
    nodes.push(Node::Call { callee: 6, args: vec![1] });
    nodes.push(Node::KeyValue { key: 3, value: 7 });
    let body = vec![import_named("z", "y"), ModuleItem::Stmt(Stmt::Decl(Decl::Fn(func("f", None))))];
    let mut program = Program::Module(Module { body: body.clone(), nodes });
    visitor(true).visit_mut_program(&mut program);
    let m = module(program);
    assert_eq!(m.body, body);
    assert_eq!(m.nodes[2], Node::Call { callee: 0, args: vec![9] });
    assert_eq!(m.nodes[7], Node::Call { callee: 6, args: vec![1] });
    assert_eq!(m.nodes[9], Node::Null);
}

#[test]
fn lobotomize_off_keeps_client_module() {
    let input = scenario_a_input();
    let mut program = Program::Module(input.clone());
    visitor(false).visit_mut_program(&mut program);
    assert_eq!(module(program), input);
}

#[test]
fn script_is_never_stripped() {
    let script = Script {
        body: vec![Stmt::Expr(0), Stmt::Decl(Decl::Fn(func("f", None)))],
        nodes: vec![Node::Str(s("use client"))],
    };
    let mut program = Program::Script(script.clone());
    assert!(is_client_module(&program));
    visitor(true).visit_mut_program(&mut program);
    assert_eq!(program, Program::Script(script));
}

#[test]
fn neutralizing_twice_changes_nothing_more() {
    let v = visitor(false);
    let mut nodes = scenario_b_nodes();
    v.visit_mut_key_value_props(&mut nodes);
    let once = nodes.clone();
    v.visit_mut_key_value_props(&mut nodes);
    assert_eq!(nodes, once);
    assert_eq!(nodes.len(), 7);
}

#[test]
fn call_already_null_is_left_alone() {
    let v = visitor(false);
    let mut nodes = vec![
        Node::Ident(s("ClientOnly")),
        Node::Null,
        Node::Call { callee: 0, args: vec![1] },
        Node::KeyValue { key: 0, value: 2 },
    ];
    let before = nodes.clone();
    v.visit_mut_key_value_props(&mut nodes);
    assert_eq!(nodes, before);
}

#[test]
fn other_calls_are_left_alone() {
    let v = visitor(false);
    let mut nodes = vec![
        Node::Ident(s("clientonly")),
        Node::Str(s("x")),
        // a call to another name, as a property value
        Node::Call { callee: 0, args: vec![1] },
        Node::KeyValue { key: 1, value: 2 },
        // a call to the factory, but not a property value
        Node::Ident(s("ClientOnly")),
        Node::Call { callee: 4, args: vec![1] },
        // a property whose value is a member call `a.ClientOnly(x)`
        Node::Other { kind: s("Member"), children: vec![4] },
        Node::Call { callee: 6, args: vec![1] },
        Node::KeyValue { key: 1, value: 7 },
    ];
    let before = nodes.clone();
    v.visit_mut_key_value_props(&mut nodes);
    assert_eq!(nodes, before);
}

#[test]
fn call_with_no_arguments_gets_null() {
    let v = visitor(false);
    let mut nodes = vec![
        Node::Ident(s("ClientOnly")),
        Node::Call { callee: 0, args: vec![] },
        Node::KeyValue { key: 0, value: 1 },
    ];
    v.visit_mut_key_value_props(&mut nodes);
    assert_eq!(nodes[1], Node::Call { callee: 0, args: vec![3] });
    assert_eq!(nodes[3], Node::Null);
}
