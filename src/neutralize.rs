//! The call neutralizer: `{ key: F(args) }` becomes `{ key: F(null) }` for the
//! configured factory name `F`.
use vstd::prelude::*;
use crate::ast::{all_below, arena_wf, lemma_node_refs_grow, node_refs_below, nodes_view, Node, NodeV};

verus! {

/// The node at `k` is an object property whose value is the node at `v`.
pub open spec fn points_to(ns: Seq<NodeV>, k: int, v: int) -> bool {
    ns[k] matches NodeV::KeyValue { value, .. } && value == v
}

/// Some object property in the arena has the node at `v` as its value.
pub open spec fn is_property_value(ns: Seq<NodeV>, v: int) -> bool {
    exists|k: int| 0 <= k < ns.len() && #[trigger] points_to(ns, k, v)
}

/// The node at `v` is a call whose callee is the bare identifier `id`.
pub open spec fn calls_identifier(ns: Seq<NodeV>, v: int, id: Seq<char>) -> bool {
    &&& 0 <= v < ns.len()
    &&& ns[v] matches NodeV::Call { callee, .. } && callee < ns.len() && ns[callee as int]
        == NodeV::Ident(id)
}

/// The argument list is exactly one `null` literal.
pub open spec fn args_are_null(ns: Seq<NodeV>, args: Seq<usize>) -> bool {
    args.len() == 1 && args[0] < ns.len() && ns[args[0] as int] is Null
}

/// The call at `v` is one the neutralizer rewrites.
pub open spec fn is_target(ns: Seq<NodeV>, id: Seq<char>, v: int) -> bool {
    &&& is_property_value(ns, v)
    &&& calls_identifier(ns, v, id)
    &&& !args_are_null(ns, ns[v]->args)
}

pub open spec fn has_target(ns: Seq<NodeV>, id: Seq<char>) -> bool {
    exists|v: int| 0 <= v < ns.len() && #[trigger] is_target(ns, id, v)
}

/// The arena after neutralization: when some call needs it, one `null` node
/// is appended, and every such call takes it as its single argument.
pub open spec fn neutralized(ns: Seq<NodeV>, id: Seq<char>) -> Seq<NodeV> {
    if has_target(ns, id) {
        Seq::new(
            ns.len(),
            |v: int|
                if is_target(ns, id, v) {
                    NodeV::Call { callee: ns[v]->callee, args: seq![ns.len() as usize] }
                } else {
                    ns[v]
                },
        ).push(NodeV::Null)
    } else {
        ns
    }
}

/// Whether the node at `v` calls `identifier` with arguments other than a
/// single `null`.
fn call_needs_neutralizing(nodes: &Vec<Node>, v: usize, identifier: &String) -> (r: bool)
    requires
        v < nodes.len(),
    ensures
        r == (calls_identifier(nodes_view(nodes@), v as int, identifier@) && !args_are_null(
            nodes_view(nodes@),
            nodes_view(nodes@)[v as int]->args,
        )),
{
    let ghost ns = nodes_view(nodes@);
    match &nodes[v] {
        Node::Call { callee, args } => {
            let c = *callee;
            if c >= nodes.len() {
                return false;
            }
            let named = match &nodes[c] {
                Node::Ident(name) => *name == *identifier,
                _ => false,
            };
            if !named {
                return false;
            }
            if args.len() == 1 && args[0] < nodes.len() {
                match &nodes[args[0]] {
                    Node::Null => false,
                    _ => true,
                }
            } else {
                true
            }
        },
        _ => false,
    }
}

/// Marks, for each node, whether the neutralizer rewrites it.
fn mark_targets(nodes: &Vec<Node>, identifier: &String) -> (marks: Vec<bool>)
    ensures
        marks@.len() == nodes@.len(),
        forall|v: int|
            0 <= v < nodes@.len() ==> #[trigger] marks@[v] == is_target(
                nodes_view(nodes@),
                identifier@,
                v,
            ),
{
    let ghost ns = nodes_view(nodes@);
    let n = nodes.len();
    let mut marks: Vec<bool> = Vec::new();
    let mut i: usize = 0;
    while i < n
        invariant
            n == nodes@.len(),
            i <= n,
            marks@.len() == i,
            forall|v: int| 0 <= v < i ==> !#[trigger] marks@[v],
        decreases n - i,
    {
        marks.push(false);
        i = i + 1;
    }
    let mut k: usize = 0;
    while k < n
        invariant
            n == nodes@.len(),
            ns == nodes_view(nodes@),
            k <= n,
            marks@.len() == n,
            forall|v: int|
                0 <= v < n ==> #[trigger] marks@[v] == ((exists|j: int|
                    0 <= j < k && #[trigger] points_to(ns, j, v)) && calls_identifier(
                    ns,
                    v,
                    identifier@,
                ) && !args_are_null(ns, ns[v]->args)),
        decreases n - k,
    {
        let ghost old_marks = marks@;
        if let Node::KeyValue { value, .. } = &nodes[k] {
            let v = *value;
            if v < n && call_needs_neutralizing(nodes, v, identifier) {
                marks.set(v, true);
            }
        }
        assert forall|v: int| 0 <= v < n implies #[trigger] marks@[v] == ((exists|j: int|
            0 <= j < k + 1 && #[trigger] points_to(ns, j, v)) && calls_identifier(
            ns,
            v,
            identifier@,
        ) && !args_are_null(ns, ns[v]->args)) by {
            if points_to(ns, k as int, v) {
                assert(0 <= k < k + 1 && points_to(ns, k as int, v));
            } else {
                if exists|j: int| 0 <= j < k + 1 && #[trigger] points_to(ns, j, v) {
                    let j = choose|j: int| 0 <= j < k + 1 && #[trigger] points_to(ns, j, v);
                    assert(0 <= j < k && points_to(ns, j, v));
                }
            }
        }
        k = k + 1;
    }
    marks
}

/// Rewrites every call to `identifier` that is the value of an object
/// property so that its argument list is a single `null` literal. Calls whose
/// arguments are already a single `null` are left as they are.
pub fn neutralize_calls(nodes: &mut Vec<Node>, identifier: &String)
    ensures
        nodes_view(final(nodes)@) == neutralized(nodes_view(old(nodes)@), identifier@),
{
    let ghost ns = nodes_view(nodes@);
    let n = nodes.len();
    let marks = mark_targets(nodes, identifier);
    let mut any = false;
    let mut v: usize = 0;
    while v < n
        invariant
            n == nodes@.len(),
            ns == nodes_view(nodes@),
            marks@.len() == n,
            v <= n,
            forall|u: int| 0 <= u < n ==> #[trigger] marks@[u] == is_target(ns, identifier@, u),
            any == exists|u: int| 0 <= u < v && #[trigger] marks@[u],
        decreases n - v,
    {
        if marks[v] {
            any = true;
        }
        v = v + 1;
    }
    if !any {
        assert(!has_target(ns, identifier@)) by {
            if exists|u: int| 0 <= u < n && #[trigger] is_target(ns, identifier@, u) {
                let u = choose|u: int| 0 <= u < n && #[trigger] is_target(ns, identifier@, u);
                assert(marks@[u]);
            }
        }
        return ;
    }
    let ghost want = neutralized(ns, identifier@);
    let mut v: usize = 0;
    while v < n
        invariant
            n == nodes@.len(),
            n == ns.len(),
            has_target(ns, identifier@),
            want == neutralized(ns, identifier@),
            marks@.len() == n,
            v <= n,
            forall|u: int| 0 <= u < n ==> #[trigger] marks@[u] == is_target(ns, identifier@, u),
            forall|u: int| 0 <= u < v ==> #[trigger] nodes@[u]@ == want[u],
            forall|u: int| v <= u < n ==> #[trigger] nodes@[u]@ == ns[u],
        decreases n - v,
    {
        if marks[v] {
            assert(nodes@[v as int]@ == ns[v as int]);
            let c = match &nodes[v] {
                Node::Call { callee, .. } => *callee,
                _ => 0,
            };
            assert(is_target(ns, identifier@, v as int));
            assert(c == ns[v as int]->callee);
            let args: Vec<usize> = vec![n];
            assert(args@ =~= seq![n]);
            nodes.set(v, Node::Call { callee: c, args });
            assert(nodes@[v as int]@ =~= want[v as int]);
        }
        v = v + 1;
    }
    nodes.push(Node::Null);
    assert(nodes_view(nodes@) =~= want);
}

/// Neutralizing keeps every index inside the arena, which grows by at most
/// one node.
pub proof fn lemma_neutralize_keeps_wf(ns: Seq<NodeV>, id: Seq<char>)
    requires
        arena_wf(ns),
        ns.len() < usize::MAX,
    ensures
        arena_wf(neutralized(ns, id)),
        ns.len() <= neutralized(ns, id).len() <= ns.len() + 1,
{
    let ms = neutralized(ns, id);
    let n = ns.len() as int;
    if has_target(ns, id) {
        assert forall|i: int| 0 <= i < ms.len() implies node_refs_below(
            #[trigger] ms[i],
            ms.len() as int,
        ) by {
            if i < n {
                assert(node_refs_below(ns[i], n));
                if is_target(ns, id, i) {
                    assert(all_below(seq![n as usize], n + 1));
                } else {
                    lemma_node_refs_grow(ns[i], n, n + 1);
                }
            }
        }
    }
}

/// Neutralizing twice leaves the arena as neutralizing once did.
pub proof fn lemma_neutralize_idempotent(ns: Seq<NodeV>, id: Seq<char>)
    requires
        arena_wf(ns),
        ns.len() < usize::MAX,
    ensures
        neutralized(neutralized(ns, id), id) == neutralized(ns, id),
{
    let ms = neutralized(ns, id);
    if has_target(ns, id) {
        let n = ns.len() as int;
        assert(ms.len() == n + 1);
        assert forall|v: int| 0 <= v < ms.len() implies !#[trigger] is_target(ms, id, v) by {
            if v == n {
                assert(!(ms[v] is Call));
            } else if is_target(ns, id, v) {
                assert(ms[v] == NodeV::Call { callee: ns[v]->callee, args: seq![n as usize] });
                assert(ms[n] == NodeV::Null);
                assert(seq![n as usize][0] == n);
                assert(args_are_null(ms, ms[v]->args));
            } else {
                assert(ms[v] == ns[v]);
                if is_target(ms, id, v) {
                    // The call, its callee and its property all stood before.
                    assert(node_refs_below(ns[v], n));
                    let c = ns[v]->callee;
                    assert(ms[c as int] == ns[c as int] || is_target(ns, id, c as int));
                    let k = choose|k: int| 0 <= k < ms.len() && #[trigger] points_to(ms, k, v);
                    assert(points_to(ns, k, v));
                    assert(ms[ns[v]->args[0] as int] is Null);
                }
            }
        }
    } else {
        assert(ms == ns);
    }
}

} // verus!
