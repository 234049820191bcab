//! Detecting the client directive in a program's prologue.
use vstd::prelude::*;
use crate::ast::{nodes_view, ModuleItem, Node, NodeV, Program, Stmt};
use crate::text::{is_client_directive, is_client_directive_text};

verus! {

/// The node at `e` is a string literal.
pub open spec fn is_string_node(nodes: Seq<NodeV>, e: usize) -> bool {
    e < nodes.len() && nodes[e as int] is Str
}

/// The node at `e` is a string literal that spells the directive.
pub open spec fn is_directive_node(nodes: Seq<NodeV>, e: usize) -> bool {
    &&& e < nodes.len()
    &&& nodes[e as int] matches NodeV::Str(s) && is_client_directive_text(s)
}

/// An expression statement made of a string literal alone.
pub open spec fn is_string_stmt(nodes: Seq<NodeV>, s: Stmt) -> bool {
    s matches Stmt::Expr(e) && is_string_node(nodes, e)
}

/// The directive statement.
pub open spec fn is_directive_stmt(nodes: Seq<NodeV>, s: Stmt) -> bool {
    s matches Stmt::Expr(e) && is_directive_node(nodes, e)
}

pub open spec fn is_string_item(nodes: Seq<NodeV>, item: ModuleItem) -> bool {
    item matches ModuleItem::Stmt(s) && is_string_stmt(nodes, s)
}

pub open spec fn is_directive_item(nodes: Seq<NodeV>, item: ModuleItem) -> bool {
    item matches ModuleItem::Stmt(s) && is_directive_stmt(nodes, s)
}

/// The directive stands among the leading string-literal statements.
pub open spec fn script_has_directive(body: Seq<Stmt>, nodes: Seq<NodeV>) -> bool {
    exists|i: int|
        0 <= i < body.len() && is_directive_stmt(nodes, #[trigger] body[i]) && forall|j: int|
            0 <= j < i ==> is_string_stmt(nodes, #[trigger] body[j])
}

/// The directive stands among the leading string-literal items.
pub open spec fn module_has_directive(body: Seq<ModuleItem>, nodes: Seq<NodeV>) -> bool {
    exists|i: int|
        0 <= i < body.len() && is_directive_item(nodes, #[trigger] body[i]) && forall|j: int|
            0 <= j < i ==> is_string_item(nodes, #[trigger] body[j])
}

pub open spec fn program_is_client(p: Program) -> bool {
    match p {
        Program::Module(m) => module_has_directive(m.body@, nodes_view(m.nodes@)),
        Program::Script(s) => script_has_directive(s.body@, nodes_view(s.nodes@)),
    }
}

/// Reads the statement as a string-literal statement: `None` when it is not
/// one, else whether the literal spells the directive.
fn string_stmt_directive(nodes: &Vec<Node>, s: &Stmt) -> (r: Option<bool>)
    ensures
        r is None <==> !is_string_stmt(nodes_view(nodes@), *s),
        r == Some(true) <==> is_directive_stmt(nodes_view(nodes@), *s),
{
    match s {
        Stmt::Expr(e) => {
            if *e < nodes.len() {
                match &nodes[*e] {
                    Node::Str(text) => Some(is_client_directive(text.as_str())),
                    _ => None,
                }
            } else {
                None
            }
        },
        _ => None,
    }
}

fn script_directive(body: &Vec<Stmt>, nodes: &Vec<Node>) -> (r: bool)
    ensures
        r == script_has_directive(body@, nodes_view(nodes@)),
{
    let mut i: usize = 0;
    while i < body.len()
        invariant
            i <= body.len(),
            forall|j: int|
                0 <= j < i ==> is_string_stmt(nodes_view(nodes@), #[trigger] body@[j]) && !is_directive_stmt(
                    nodes_view(nodes@),
                    body@[j],
                ),
        decreases body.len() - i,
    {
        match string_stmt_directive(nodes, &body[i]) {
            Some(true) => {
                return true;
            },
            Some(false) => {},
            None => {
                assert forall|q: int|
                    0 <= q < body.len() && is_directive_stmt(
                        nodes_view(nodes@),
                        #[trigger] body@[q],
                    ) implies !(forall|j: int|
                    0 <= j < q ==> is_string_stmt(nodes_view(nodes@), #[trigger] body@[j])) by {
                    if q > i {
                        assert(!is_string_stmt(nodes_view(nodes@), body@[i as int]));
                    }
                }
                return false;
            },
        }
        i = i + 1;
    }
    false
}

fn module_directive(body: &Vec<ModuleItem>, nodes: &Vec<Node>) -> (r: bool)
    ensures
        r == module_has_directive(body@, nodes_view(nodes@)),
{
    let mut i: usize = 0;
    while i < body.len()
        invariant
            i <= body.len(),
            forall|j: int|
                0 <= j < i ==> is_string_item(nodes_view(nodes@), #[trigger] body@[j]) && !is_directive_item(
                    nodes_view(nodes@),
                    body@[j],
                ),
        decreases body.len() - i,
    {
        let found = match &body[i] {
            ModuleItem::Stmt(s) => string_stmt_directive(nodes, s),
            _ => None,
        };
        match found {
            Some(true) => {
                return true;
            },
            Some(false) => {},
            None => {
                assert forall|q: int|
                    0 <= q < body.len() && is_directive_item(
                        nodes_view(nodes@),
                        #[trigger] body@[q],
                    ) implies !(forall|j: int|
                    0 <= j < q ==> is_string_item(nodes_view(nodes@), #[trigger] body@[j])) by {
                    if q > i {
                        assert(!is_string_item(nodes_view(nodes@), body@[i as int]));
                    }
                }
                return false;
            },
        }
        i = i + 1;
    }
    false
}

/// Whether the program opens with the `use client` directive: some statement
/// of its prologue (the leading string-literal statements) is a string
/// literal whose trimmed text equals `use client` up to ASCII case.
pub fn is_client_module(program: &Program) -> (r: bool)
    ensures
        r == program_is_client(*program),
{
    match program {
        Program::Module(m) => module_directive(&m.body, &m.nodes),
        Program::Script(s) => script_directive(&s.body, &s.nodes),
    }
}

} // verus!
