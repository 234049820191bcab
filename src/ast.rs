//! The syntax tree the transform works on.
//!
//! Expressions and nested statements live in an arena (`Vec<Node>`) and refer
//! to each other by index. Top-level items are typed, and point into the
//! arena for the expressions they carry. Leaf nodes that never change (the
//! literal `null`, a `return null;` block) may be shared by several parents.
use vstd::prelude::*;

verus! {

/// One node of the arena.
#[allow(inconsistent_fields)]
#[derive(Debug, Clone, PartialEq, Eq)]
pub enum Node {
    /// The literal `null`.
    Null,
    /// A string literal.
    Str(String),
    /// A bare identifier expression.
    Ident(String),
    /// A call `callee(args...)`.
    Call { callee: usize, args: Vec<usize> },
    /// An object-literal property `key: value`.
    KeyValue { key: usize, value: usize },
    /// An arrow function; `body` is an expression node or a `Block`.
    Arrow {
        params: Vec<usize>,
        body: usize,
        is_async: bool,
        is_generator: bool,
        type_params: Option<usize>,
        return_type: Option<usize>,
    },
    /// A function expression; `body` is a `Block`.
    Function {
        params: Vec<usize>,
        body: Option<usize>,
        is_async: bool,
        is_generator: bool,
        type_params: Option<usize>,
        return_type: Option<usize>,
    },
    /// A block of statements.
    Block(Vec<usize>),
    /// A `return` statement.
    Return(Option<usize>),
    /// Any other syntax: a kind tag and its children, in order.
    Other { kind: String, children: Vec<usize> },
}

/// The mathematical value of a [`Node`].
#[allow(inconsistent_fields)]
pub enum NodeV {
    Null,
    Str(Seq<char>),
    Ident(Seq<char>),
    Call { callee: usize, args: Seq<usize> },
    KeyValue { key: usize, value: usize },
    Arrow {
        params: Seq<usize>,
        body: usize,
        is_async: bool,
        is_generator: bool,
        type_params: Option<usize>,
        return_type: Option<usize>,
    },
    Function {
        params: Seq<usize>,
        body: Option<usize>,
        is_async: bool,
        is_generator: bool,
        type_params: Option<usize>,
        return_type: Option<usize>,
    },
    Block(Seq<usize>),
    Return(Option<usize>),
    Other { kind: Seq<char>, children: Seq<usize> },
}

impl View for Node {
    type V = NodeV;

    open spec fn view(&self) -> NodeV {
        match self {
            Node::Null => NodeV::Null,
            Node::Str(s) => NodeV::Str(s@),
            Node::Ident(s) => NodeV::Ident(s@),
            Node::Call { callee, args } => NodeV::Call { callee: *callee, args: args@ },
            Node::KeyValue { key, value } => NodeV::KeyValue { key: *key, value: *value },
            Node::Arrow { params, body, is_async, is_generator, type_params, return_type } =>
                NodeV::Arrow {
                    params: params@,
                    body: *body,
                    is_async: *is_async,
                    is_generator: *is_generator,
                    type_params: *type_params,
                    return_type: *return_type,
                },
            Node::Function { params, body, is_async, is_generator, type_params, return_type } =>
                NodeV::Function {
                    params: params@,
                    body: *body,
                    is_async: *is_async,
                    is_generator: *is_generator,
                    type_params: *type_params,
                    return_type: *return_type,
                },
            Node::Block(stmts) => NodeV::Block(stmts@),
            Node::Return(arg) => NodeV::Return(*arg),
            Node::Other { kind, children } => NodeV::Other { kind: kind@, children: children@ },
        }
    }
}

/// The values of a whole arena.
pub open spec fn nodes_view(nodes: Seq<Node>) -> Seq<NodeV> {
    nodes.map_values(|n: Node| n@)
}

pub open spec fn opt_below(o: Option<usize>, n: int) -> bool {
    match o {
        Some(k) => k < n,
        None => true,
    }
}

pub open spec fn all_below(s: Seq<usize>, n: int) -> bool {
    forall|i: int| 0 <= i < s.len() ==> #[trigger] s[i] < n
}

/// Every index held by the node is an index of an arena of length `n`.
pub open spec fn node_refs_below(v: NodeV, n: int) -> bool {
    match v {
        NodeV::Call { callee, args } => callee < n && all_below(args, n),
        NodeV::KeyValue { key, value } => key < n && value < n,
        NodeV::Arrow { params, body, type_params, return_type, .. } =>
            all_below(params, n) && body < n && opt_below(type_params, n)
                && opt_below(return_type, n),
        NodeV::Function { params, body, type_params, return_type, .. } =>
            all_below(params, n) && opt_below(body, n) && opt_below(type_params, n)
                && opt_below(return_type, n),
        NodeV::Block(stmts) => all_below(stmts, n),
        NodeV::Return(arg) => opt_below(arg, n),
        NodeV::Other { children, .. } => all_below(children, n),
        _ => true,
    }
}

/// Every index in the arena points into the arena.
pub open spec fn arena_wf(nodes: Seq<NodeV>) -> bool {
    forall|i: int| 0 <= i < nodes.len() ==> node_refs_below(#[trigger] nodes[i], nodes.len() as int)
}

/// The name in an import or export specifier.
#[derive(Debug, Clone, PartialEq, Eq)]
pub enum ExportName {
    Ident(String),
    Str(String),
}

/// One binding of an import declaration.
#[derive(Debug, Clone, PartialEq, Eq)]
pub enum ImportSpecifier {
    /// `import { imported as local }`, or `import { local }`.
    Named { local: String, imported: Option<ExportName>, is_type_only: bool },
    /// `import local from ...`.
    Default { local: String },
    /// `import * as local from ...`.
    Namespace { local: String },
}

#[derive(Debug, Clone, PartialEq, Eq)]
pub struct ImportDecl {
    pub specifiers: Vec<ImportSpecifier>,
    pub src: String,
    pub type_only: bool,
}

/// One binding of an `export { ... }` statement.
#[derive(Debug, Clone, PartialEq, Eq)]
pub enum ExportSpecifier {
    /// `orig as exported`, or `orig`.
    Named { orig: ExportName, exported: Option<ExportName>, is_type_only: bool },
    /// `export v from ...`.
    Default(String),
    /// `export * as name from ...`.
    Namespace { name: ExportName },
}

/// `export { ... }`, with an optional source module.
#[derive(Debug, Clone, PartialEq, Eq)]
pub struct NamedExport {
    pub specifiers: Vec<ExportSpecifier>,
    pub src: Option<String>,
    pub type_only: bool,
}

#[derive(Debug, PartialEq, Eq, Structural, Clone, Copy)]
pub enum VarKind {
    Var,
    Let,
    Const,
}

/// The binding side of a variable declarator.
#[derive(Debug, Clone, PartialEq, Eq)]
pub enum Pat {
    /// A plain name, with an optional type annotation node.
    Ident { name: String, type_ann: Option<usize> },
    /// A destructuring pattern, or any other binding form.
    Other(usize),
}

#[derive(Debug, Clone, PartialEq, Eq)]
pub struct VarDeclarator {
    pub name: Pat,
    pub init: Option<usize>,
}

#[derive(Debug, Clone, PartialEq, Eq)]
pub struct VarDecl {
    pub kind: VarKind,
    pub declare: bool,
    pub decls: Vec<VarDeclarator>,
}

/// `function ident(params) body`; `body` is a `Block` node.
#[derive(Debug, Clone, PartialEq, Eq)]
pub struct FnDecl {
    pub ident: String,
    pub declare: bool,
    pub params: Vec<usize>,
    pub body: Option<usize>,
    pub is_async: bool,
    pub is_generator: bool,
    pub type_params: Option<usize>,
    pub return_type: Option<usize>,
}

#[derive(Debug, Clone, PartialEq, Eq)]
pub enum Decl {
    Var(VarDecl),
    Fn(FnDecl),
    /// Any other declaration (class, type alias, ...), as an arena node.
    Other(usize),
}

/// A top-level statement.
#[derive(Debug, Clone, PartialEq, Eq)]
pub enum Stmt {
    /// An expression statement.
    Expr(usize),
    Decl(Decl),
    /// Any other statement, as an arena node.
    Other(usize),
}

#[derive(Debug, Clone, PartialEq, Eq)]
pub enum ModuleItem {
    Stmt(Stmt),
    Import(ImportDecl),
    ExportNamed(NamedExport),
    /// `export const ...` or `export function ...`.
    ExportDecl(Decl),
    /// Any other module declaration, as an arena node.
    Other(usize),
}

#[derive(Debug, Clone, PartialEq, Eq)]
pub struct Module {
    pub body: Vec<ModuleItem>,
    pub nodes: Vec<Node>,
}

#[derive(Debug, Clone, PartialEq, Eq)]
pub struct Script {
    pub body: Vec<Stmt>,
    pub nodes: Vec<Node>,
}

#[derive(Debug, Clone, PartialEq, Eq)]
pub enum Program {
    Module(Module),
    Script(Script),
}

pub open spec fn pat_refs_below(p: Pat, n: int) -> bool {
    match p {
        Pat::Ident { type_ann, .. } => opt_below(type_ann, n),
        Pat::Other(k) => k < n,
    }
}

pub open spec fn declarator_refs_below(d: VarDeclarator, n: int) -> bool {
    pat_refs_below(d.name, n) && opt_below(d.init, n)
}

pub open spec fn decl_refs_below(d: Decl, n: int) -> bool {
    match d {
        Decl::Var(v) => forall|j: int|
            0 <= j < v.decls@.len() ==> declarator_refs_below(#[trigger] v.decls@[j], n),
        Decl::Fn(f) => all_below(f.params@, n) && opt_below(f.body, n) && opt_below(
            f.type_params,
            n,
        ) && opt_below(f.return_type, n),
        Decl::Other(k) => k < n,
    }
}

pub open spec fn stmt_refs_below(s: Stmt, n: int) -> bool {
    match s {
        Stmt::Expr(e) => e < n,
        Stmt::Decl(d) => decl_refs_below(d, n),
        Stmt::Other(k) => k < n,
    }
}

/// Every index held by the item is an index of an arena of length `n`.
pub open spec fn item_refs_below(item: ModuleItem, n: int) -> bool {
    match item {
        ModuleItem::Stmt(s) => stmt_refs_below(s, n),
        ModuleItem::ExportDecl(d) => decl_refs_below(d, n),
        ModuleItem::Other(k) => k < n,
        _ => true,
    }
}

/// Every index in the module, in its items and in its arena, points into
/// the arena.
pub open spec fn module_wf(m: Module) -> bool {
    &&& arena_wf(nodes_view(m.nodes@))
    &&& forall|i: int| 0 <= i < m.body@.len() ==> item_refs_below(#[trigger] m.body@[i], m.nodes@.len() as int)
}

pub open spec fn script_wf(s: Script) -> bool {
    &&& arena_wf(nodes_view(s.nodes@))
    &&& forall|i: int| 0 <= i < s.body@.len() ==> stmt_refs_below(#[trigger] s.body@[i], s.nodes@.len() as int)
}

pub open spec fn program_wf(p: Program) -> bool {
    match p {
        Program::Module(m) => module_wf(m),
        Program::Script(s) => script_wf(s),
    }
}

/// Bounds on indices hold of any longer arena.
pub proof fn lemma_node_refs_grow(v: NodeV, n: int, m: int)
    requires
        node_refs_below(v, n),
        n <= m,
    ensures
        node_refs_below(v, m),
{
}

pub proof fn lemma_item_refs_grow(item: ModuleItem, n: int, m: int)
    requires
        item_refs_below(item, n),
        n <= m,
    ensures
        item_refs_below(item, m),
{
}

pub proof fn lemma_stmt_refs_grow(s: Stmt, n: int, m: int)
    requires
        stmt_refs_below(s, n),
        n <= m,
    ensures
        stmt_refs_below(s, m),
{
}

} // verus!
