//! The body stubber: exported functions return `null`, exported variables
//! hold `null` or `() => null`.
use vstd::prelude::*;
use crate::ast::{all_below, decl_refs_below, declarator_refs_below, item_refs_below, node_refs_below, nodes_view, Decl, FnDecl, Module, ModuleItem, Node, NodeV, Pat, Stmt, VarDecl, VarDeclarator};
use crate::names::NameSet;

verus! {

/// Where the shared stub nodes stand in the arena.
#[derive(Debug, Clone, Copy, PartialEq, Eq)]
pub struct StubNodes {
    /// The literal `null`.
    pub null: usize,
    /// The block `{ return null; }`.
    pub block: usize,
    /// The arrow `() => null`.
    pub arrow: usize,
}

/// The stub nodes appended to an arena of length `n`: `null`, `return null`,
/// `{ return null; }` and `() => null`, in that order.
pub open spec fn stub_nodes_at(n: usize) -> StubNodes {
    StubNodes { null: n, block: (n + 2) as usize, arrow: (n + 3) as usize }
}

pub open spec fn stub_node_values(n: usize) -> Seq<NodeV> {
    seq![
        NodeV::Null,
        NodeV::Return(Some(n)),
        NodeV::Block(seq![(n + 1) as usize]),
        NodeV::Arrow {
            params: Seq::empty(),
            body: n,
            is_async: false,
            is_generator: false,
            type_params: None,
            return_type: None,
        },
    ]
}

/// The initializer is a function or an arrow expression.
pub open spec fn is_function_init(nodes: Seq<NodeV>, init: Option<usize>) -> bool {
    &&& init matches Some(k)
    &&& k < nodes.len()
    &&& (nodes[k as int] is Arrow || nodes[k as int] is Function)
}

/// The declarator with its value erased.
pub open spec fn stub_declarator(d: VarDeclarator, nodes: Seq<NodeV>, s: StubNodes) -> VarDeclarator {
    VarDeclarator {
        name: d.name,
        init: Some(
            if is_function_init(nodes, d.init) {
                s.arrow
            } else {
                s.null
            },
        ),
    }
}

/// The declarator's value is erased: it binds a plain name, and that name is
/// exported, or every plain name is (`all`, for `export const ...`).
pub open spec fn declarator_stubbed(d: VarDeclarator, exported: Set<Seq<char>>, all: bool) -> bool {
    d.name matches Pat::Ident { name, .. } && (all || exported.contains(name@))
}

pub open spec fn var_stubbed(
    v: VarDecl,
    w: VarDecl,
    nodes: Seq<NodeV>,
    exported: Set<Seq<char>>,
    all: bool,
    s: StubNodes,
) -> bool {
    &&& w.kind == v.kind
    &&& w.declare == v.declare
    &&& w.decls@.len() == v.decls@.len()
    &&& forall|j: int|
        0 <= j < v.decls@.len() ==> #[trigger] w.decls@[j] == if declarator_stubbed(
            v.decls@[j],
            exported,
            all,
        ) {
            stub_declarator(v.decls@[j], nodes, s)
        } else {
            v.decls@[j]
        }
}

/// The function with its body replaced by `{ return null; }`.
pub open spec fn stub_fn(f: FnDecl, s: StubNodes) -> FnDecl {
    FnDecl {
        ident: f.ident,
        declare: f.declare,
        params: f.params,
        body: Some(s.block),
        is_async: f.is_async,
        is_generator: f.is_generator,
        type_params: f.type_params,
        return_type: f.return_type,
    }
}

/// `new` is `old` with the values of its exported declarations erased.
pub open spec fn item_stubbed(
    old: ModuleItem,
    new: ModuleItem,
    nodes: Seq<NodeV>,
    exported: Set<Seq<char>>,
    s: StubNodes,
) -> bool {
    match old {
        ModuleItem::Stmt(Stmt::Decl(Decl::Var(v))) => new matches ModuleItem::Stmt(
            Stmt::Decl(Decl::Var(w)),
        ) && var_stubbed(v, w, nodes, exported, false, s),
        ModuleItem::ExportDecl(Decl::Var(v)) => new matches ModuleItem::ExportDecl(Decl::Var(w))
            && var_stubbed(v, w, nodes, exported, true, s),
        ModuleItem::Stmt(Stmt::Decl(Decl::Fn(f))) => new == if exported.contains(f.ident@) {
            ModuleItem::Stmt(Stmt::Decl(Decl::Fn(stub_fn(f, s))))
        } else {
            old
        },
        ModuleItem::ExportDecl(Decl::Fn(f)) => new == ModuleItem::ExportDecl(
            Decl::Fn(stub_fn(f, s)),
        ),
        _ => new == old,
    }
}

/// The value `init` is `null` or `() => null`.
pub open spec fn is_null_value(ns: Seq<NodeV>, init: Option<usize>) -> bool {
    &&& init matches Some(k)
    &&& k < ns.len()
    &&& {
        ||| ns[k as int] == NodeV::Null
        ||| ns[k as int] matches NodeV::Arrow { params, body, .. } && params.len() == 0 && body
            < ns.len() && ns[body as int] == NodeV::Null
    }
}

/// The function body is `{ return null; }`.
pub open spec fn is_null_body(ns: Seq<NodeV>, body: Option<usize>) -> bool {
    &&& body matches Some(b)
    &&& b < ns.len()
    &&& ns[b as int] matches NodeV::Block(stmts)
    &&& stmts.len() == 1
    &&& stmts[0] < ns.len()
    &&& ns[stmts[0] as int] matches NodeV::Return(Some(z))
    &&& z < ns.len()
    &&& ns[z as int] == NodeV::Null
}

/// Every name of the item that is on the export surface has a `null` value,
/// or is a function that returns `null`.
pub open spec fn exports_only_null(item: ModuleItem, ns: Seq<NodeV>, exported: Set<Seq<char>>) -> bool {
    match item {
        ModuleItem::ExportDecl(Decl::Var(v)) => forall|j: int|
            0 <= j < v.decls@.len() && declarator_stubbed(#[trigger] v.decls@[j], exported, true)
                ==> is_null_value(ns, v.decls@[j].init),
        ModuleItem::ExportDecl(Decl::Fn(f)) => is_null_body(ns, f.body),
        ModuleItem::Stmt(Stmt::Decl(Decl::Var(v))) => forall|j: int|
            0 <= j < v.decls@.len() && declarator_stubbed(#[trigger] v.decls@[j], exported, false)
                ==> is_null_value(ns, v.decls@[j].init),
        ModuleItem::Stmt(Stmt::Decl(Decl::Fn(f))) => exported.contains(f.ident@) ==> is_null_body(
            ns,
            f.body,
        ),
        _ => true,
    }
}

/// The stub nodes point only at each other.
pub proof fn lemma_stub_nodes_wf(n: usize)
    requires
        n + 4 <= usize::MAX,
    ensures
        forall|i: int| 0 <= i < 4 ==> node_refs_below(#[trigger] stub_node_values(n)[i], n + 4),
{
    let vals = stub_node_values(n);
    assert(all_below(seq![(n + 1) as usize], n + 4));
    assert(all_below(Seq::<usize>::empty(), n + 4));
    assert forall|i: int| 0 <= i < 4 implies node_refs_below(#[trigger] vals[i], n + 4) by {
        if i == 2 {
            assert(vals[2] == NodeV::Block(seq![(n + 1) as usize]));
        }
        if i == 3 {
            assert(vals[3]->Arrow_params == Seq::<usize>::empty());
        }
    }
}

/// A stubbed item points only into the arena and at the stub nodes.
pub proof fn lemma_stub_keeps_refs(
    old: ModuleItem,
    new: ModuleItem,
    nodes: Seq<NodeV>,
    exported: Set<Seq<char>>,
    n: usize,
)
    requires
        n + 4 <= usize::MAX,
        item_refs_below(old, n as int),
        item_stubbed(old, new, nodes, exported, stub_nodes_at(n)),
    ensures
        item_refs_below(new, n + 4),
{
    let s = stub_nodes_at(n);
    let m = n + 4;
    match old {
        ModuleItem::Stmt(Stmt::Decl(Decl::Var(v))) | ModuleItem::ExportDecl(Decl::Var(v)) => {
            let w = match new {
                ModuleItem::Stmt(Stmt::Decl(Decl::Var(w))) => w,
                ModuleItem::ExportDecl(Decl::Var(w)) => w,
                _ => v,
            };
            assert forall|j: int| 0 <= j < w.decls@.len() implies declarator_refs_below(
                #[trigger] w.decls@[j],
                m,
            ) by {
                assert(declarator_refs_below(v.decls@[j], n as int));
            }
            assert(decl_refs_below(Decl::Var(w), m));
        },
        _ => {},
    }
}

/// Appends the shared stub nodes to the arena.
fn push_stub_nodes(nodes: &mut Vec<Node>) -> (s: StubNodes)
    requires
        old(nodes)@.len() + 4 <= usize::MAX,
    ensures
        s == stub_nodes_at(old(nodes)@.len() as usize),
        nodes_view(final(nodes)@) == nodes_view(old(nodes)@) + stub_node_values(
            old(nodes)@.len() as usize,
        ),
{
    let ghost before = nodes_view(nodes@);
    let n = nodes.len();
    nodes.push(Node::Null);
    nodes.push(Node::Return(Some(n)));
    let stmts: Vec<usize> = vec![n + 1];
    assert(stmts@ =~= seq![(n + 1) as usize]);
    nodes.push(Node::Block(stmts));
    let params: Vec<usize> = Vec::new();
    assert(params@ =~= Seq::<usize>::empty());
    nodes.push(
        Node::Arrow {
            params,
            body: n,
            is_async: false,
            is_generator: false,
            type_params: None,
            return_type: None,
        },
    );
    let ghost vals = stub_node_values(n);
    assert(nodes@[n as int]@ == vals[0]);
    assert(nodes@[n + 1]@ == vals[1]);
    assert(nodes@[n + 2]@ == vals[2]);
    assert(nodes@[n + 3]@ == vals[3]);
    assert(nodes_view(nodes@) =~= before + vals);
    StubNodes { null: n, block: n + 2, arrow: n + 3 }
}

fn init_is_function(nodes: &Vec<Node>, init: Option<usize>) -> (r: bool)
    ensures
        r == is_function_init(nodes_view(nodes@), init),
{
    match init {
        Some(k) => {
            if k < nodes.len() {
                match &nodes[k] {
                    Node::Arrow { .. } => true,
                    Node::Function { .. } => true,
                    _ => false,
                }
            } else {
                false
            }
        },
        None => false,
    }
}

/// Erases the declarator's value: `() => null` for a function or arrow
/// initializer, `null` otherwise (and when there is none).
fn transform_decl_init(d: &mut VarDeclarator, nodes: &Vec<Node>, s: StubNodes)
    ensures
        *final(d) == stub_declarator(*old(d), nodes_view(nodes@), s),
{
    if init_is_function(nodes, d.init) {
        d.init = Some(s.arrow);
    } else {
        d.init = Some(s.null);
    }
}

fn stub_var(v: VarDecl, nodes: &Vec<Node>, exported: &NameSet, all: bool, s: StubNodes) -> (r:
    VarDecl)
    ensures
        var_stubbed(v, r, nodes_view(nodes@), exported@, all, s),
{
    let mut w = v;
    let n = w.decls.len();
    let mut j: usize = 0;
    while j < n
        invariant
            n == w.decls@.len(),
            n == v.decls@.len(),
            j <= n,
            w.kind == v.kind,
            w.declare == v.declare,
            forall|q: int|
                0 <= q < j ==> #[trigger] w.decls@[q] == if declarator_stubbed(
                    v.decls@[q],
                    exported@,
                    all,
                ) {
                    stub_declarator(v.decls@[q], nodes_view(nodes@), s)
                } else {
                    v.decls@[q]
                },
            forall|q: int| j <= q < n ==> #[trigger] w.decls@[q] == v.decls@[q],
        decreases n - j,
    {
        let mut d = VarDeclarator { name: Pat::Other(0), init: None };
        w.decls.set_and_swap(j, &mut d);
        let stub = match &d.name {
            Pat::Ident { name, .. } => all || exported.contains(name),
            Pat::Other(_) => false,
        };
        if stub {
            transform_decl_init(&mut d, nodes, s);
        }
        w.decls.set(j, d);
        j = j + 1;
    }
    w
}

fn stub_fn_body(f: FnDecl, s: StubNodes) -> (r: FnDecl)
    ensures
        r == stub_fn(f, s),
{
    let mut f = f;
    f.body = Some(s.block);
    f
}

/// Erases the values of the item's exported declarations.
fn stub_item(item: ModuleItem, nodes: &Vec<Node>, exported: &NameSet, s: StubNodes) -> (r:
    ModuleItem)
    ensures
        item_stubbed(item, r, nodes_view(nodes@), exported@, s),
{
    match item {
        ModuleItem::Stmt(Stmt::Decl(Decl::Var(v))) => ModuleItem::Stmt(
            Stmt::Decl(Decl::Var(stub_var(v, nodes, exported, false, s))),
        ),
        ModuleItem::ExportDecl(Decl::Var(v)) => ModuleItem::ExportDecl(
            Decl::Var(stub_var(v, nodes, exported, true, s)),
        ),
        ModuleItem::Stmt(Stmt::Decl(Decl::Fn(f))) => {
            if exported.contains(&f.ident) {
                ModuleItem::Stmt(Stmt::Decl(Decl::Fn(stub_fn_body(f, s))))
            } else {
                ModuleItem::Stmt(Stmt::Decl(Decl::Fn(f)))
            }
        },
        ModuleItem::ExportDecl(Decl::Fn(f)) => ModuleItem::ExportDecl(
            Decl::Fn(stub_fn_body(f, s)),
        ),
        other => other,
    }
}

/// A stubbed item, in an arena that holds the stub nodes, exports nothing
/// but `null` values.
proof fn lemma_stubbed_exports_null(
    old: ModuleItem,
    new: ModuleItem,
    nodes: Seq<NodeV>,
    ns: Seq<NodeV>,
    exported: Set<Seq<char>>,
)
    requires
        ns == nodes + stub_node_values(nodes.len() as usize),
        nodes.len() + 4 <= usize::MAX,
        item_stubbed(old, new, nodes, exported, stub_nodes_at(nodes.len() as usize)),
    ensures
        exports_only_null(new, ns, exported),
{
    let n = nodes.len() as usize;
    let s = stub_nodes_at(n);
    assert(ns[n as int] == NodeV::Null);
    assert(ns[n + 1] == NodeV::Return(Some(n)));
    assert(ns[n + 2] == NodeV::Block(seq![(n + 1) as usize]));
    assert(ns[n + 3] matches NodeV::Arrow { params, body, .. } && params.len() == 0 && body == n);
    assert(is_null_body(ns, Some(s.block)));
    assert forall|d: VarDeclarator| #![auto] is_null_value(ns, stub_declarator(d, nodes, s).init) by {}
}

/// Rewrites every item, and appends the shared stub nodes that the new
/// values point to: a function declaration that is exported (directly, or by
/// name) gets the body `{ return null; }`; an exported variable declarator
/// gets `() => null` when its initializer is a function or arrow expression,
/// else `null`. Nothing else changes.
pub fn transform_exports(module: &mut Module, exported: &NameSet)
    requires
        old(module).nodes@.len() + 4 <= usize::MAX,
    ensures
        nodes_view(final(module).nodes@) == nodes_view(old(module).nodes@) + stub_node_values(
            old(module).nodes@.len() as usize,
        ),
        final(module).body@.len() == old(module).body@.len(),
        forall|i: int|
            0 <= i < old(module).body@.len() ==> item_stubbed(
                #[trigger] old(module).body@[i],
                final(module).body@[i],
                nodes_view(old(module).nodes@),
                exported@,
                stub_nodes_at(old(module).nodes@.len() as usize),
            ),
        forall|i: int|
            0 <= i < final(module).body@.len() ==> exports_only_null(
                #[trigger] final(module).body@[i],
                nodes_view(final(module).nodes@),
                exported@,
            ),
{
    let ghost old_nodes = module.nodes@;
    let ghost orig = module.body@;
    let m = module.nodes.len();
    let s = StubNodes { null: m, block: m + 2, arrow: m + 3 };
    let ghost ns = nodes_view(old_nodes) + stub_node_values(m);
    let n = module.body.len();
    let mut i: usize = 0;
    while i < n
        invariant
            n == orig.len(),
            n == module.body@.len(),
            i <= n,
            m == old_nodes.len(),
            module.nodes@ == old_nodes,
            m + 4 <= usize::MAX,
            s == stub_nodes_at(m),
            ns == nodes_view(old_nodes) + stub_node_values(m),
            forall|k: int|
                0 <= k < i ==> item_stubbed(
                    #[trigger] orig[k],
                    module.body@[k],
                    nodes_view(old_nodes),
                    exported@,
                    s,
                ),
            forall|k: int| 0 <= k < i ==> exports_only_null(#[trigger] module.body@[k], ns, exported@),
            forall|k: int| i <= k < n ==> #[trigger] module.body@[k] == orig[k],
        decreases n - i,
    {
        let mut item = ModuleItem::Other(0);
        module.body.set_and_swap(i, &mut item);
        let new_item = stub_item(item, &module.nodes, exported, s);
        proof {
            lemma_stubbed_exports_null(orig[i as int], new_item, nodes_view(old_nodes), ns, exported@);
        }
        module.body.set(i, new_item);
        i = i + 1;
    }
    push_stub_nodes(&mut module.nodes);
}

} // verus!
