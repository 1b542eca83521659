//! What holds of every walk.
use crate::ast::{children_wf, Expr, Module, Node, Stmt, StmtKind};
use crate::calls::{function_call, method_call, trimmed};
use crate::descent::{
    below, lemma_below_child, lemma_below_trans, lemma_below_wf,
    lemma_ignored_function_call_below, lemma_receiver_below,
};
use crate::ignore::{
    dotted, ignored_call, ignored_function_call, ignored_method, lemma_chain_base_decreases, Config,
};
use crate::span::ByteSpan;
use crate::test_case::test_case;
use crate::trace::{
    lemma_ignored_function_call_decreases, walk_expr, walk_module, walk_nodes, walk_stmt,
    Emission, Walk,
};
use vstd::prelude::*;

verus! {

/// `emission` comes from the walk of `root` inside `test`: it reports on a
/// node at or below `root` that the rules let through, and the test case
/// around it is `test`, or one at or below `root` that the node lies below.
pub open spec fn found_in(emission: Emission, root: Node, test: Option<Expr>) -> bool {
    &&& below(emission.origin(), root)
    &&& match emission {
        Emission::Statement { stmt, .. } => !stmt.spec_is_control_or_declaration(),
        Emission::MethodSuffix { call, .. } => method_call(call) is Some && !ignored_method(
            method_call(call).unwrap().path,
            call.spec_args().len(),
        ),
    }
    &&& (test == Some(emission.test()) || {
        &&& test_case(emission.test()) is Some
        &&& below(Node::Expr(emission.test()), root)
        &&& below(emission.origin(), Node::Expr(emission.test()))
    })
}

/// `emission` comes from the walk of one of the nodes of `nodes` from index
/// `from` on.
pub open spec fn found_among(emission: Emission, nodes: Seq<Node>, from: int, test: Option<Expr>)
    -> bool {
    exists|j: int| 0 <= j && from <= j < nodes.len() && found_in(emission, #[trigger] nodes[j], test)
}

/// What comes from the walk of a node comes from the walk of every node
/// that it lies below.
pub proof fn lemma_found_higher(emission: Emission, root: Node, higher: Node, test: Option<Expr>)
    requires
        found_in(emission, root, test),
        below(root, higher),
    ensures
        found_in(emission, higher, test),
{
    lemma_below_trans(emission.origin(), root, higher);
    if test != Some(emission.test()) {
        lemma_below_trans(Node::Expr(emission.test()), root, higher);
    }
}

/// What comes from the walk of the children of a node comes from the walk
/// of the node.
proof fn lemma_found_in_parent(
    emission: Emission,
    parent: Node,
    from: int,
    test: Option<Expr>,
)
    requires
        found_among(emission, parent.children(), from, test),
    ensures
        found_in(emission, parent, test),
{
    let j = choose|j: int|
        0 <= j && from <= j < parent.children().len() && found_in(
            emission,
            #[trigger] parent.children()[j],
            test,
        );
    lemma_below_child(parent, j);
    lemma_found_higher(emission, parent.children()[j], parent, test);
}

/// Everything that the walk of `nodes` reports comes from the walk of one
/// of them.
pub proof fn lemma_walk_nodes_found(config: Config, nodes: Seq<Node>, from: int, test: Option<Expr>)
    ensures
        forall|k: int|
            0 <= k < walk_nodes(config, nodes, from, test).emitted.len() ==> found_among(
                #[trigger] walk_nodes(config, nodes, from, test).emitted[k],
                nodes,
                from,
                test,
            ),
    decreases nodes, nodes.len() - from,
{
    let w = walk_nodes(config, nodes, from, test);
    if 0 <= from < nodes.len() {
        let first = match nodes[from] {
            Node::Stmt(s) => walk_stmt(config, s, test),
            Node::Expr(e) => walk_expr(config, e, test),
        };
        let rest = walk_nodes(config, nodes, from + 1, test);
        match nodes[from] {
            Node::Stmt(s) => lemma_walk_stmt_found(config, s, test),
            Node::Expr(e) => lemma_walk_expr_found(config, e, test),
        }
        lemma_walk_nodes_found(config, nodes, from + 1, test);
        assert forall|k: int| 0 <= k < w.emitted.len() implies found_among(
            #[trigger] w.emitted[k],
            nodes,
            from,
            test,
        ) by {
            if k < first.emitted.len() {
                assert(w.emitted[k] == first.emitted[k]);
                assert(found_in(w.emitted[k], nodes[from], test));
            } else {
                let r = k - first.emitted.len();
                assert(w.emitted[k] == rest.emitted[r]);
                assert(found_among(rest.emitted[r], nodes, from + 1, test));
                let j = choose|j: int|
                    0 <= j && from + 1 <= j < nodes.len() && found_in(
                        rest.emitted[r],
                        #[trigger] nodes[j],
                        test,
                    );
                assert(found_in(w.emitted[k], nodes[j], test));
            }
        }
    }
}

/// Everything that the walk of the expression `e` reports comes from it.
pub proof fn lemma_walk_expr_found(config: Config, e: Expr, test: Option<Expr>)
    ensures
        forall|k: int|
            0 <= k < walk_expr(config, e, test).emitted.len() ==> found_in(
                #[trigger] walk_expr(config, e, test).emitted[k],
                Node::Expr(e),
                test,
            ),
    decreases e, 0nat,
{
    let w = walk_expr(config, e, test);
    let root = Node::Expr(e);
    assert(below(root, root));
    if test_case(e) is Some {
        let inner = walk_nodes(config, e.children@, 0, Some(e));
        lemma_walk_nodes_found(config, e.children@, 0, Some(e));
        assert forall|k: int| 0 <= k < w.emitted.len() implies found_in(
            #[trigger] w.emitted[k],
            root,
            test,
        ) by {
            assert(w.emitted[k] == inner.emitted[k]);
            assert(found_among(inner.emitted[k], root.children(), 0, Some(e)));
            lemma_found_in_parent(inner.emitted[k], root, 0, Some(e));
        }
    } else {
        let inner = walk_nodes(config, e.children@, 0, test);
        lemma_walk_nodes_found(config, e.children@, 0, test);
        assert forall|k: int| 0 <= k < w.emitted.len() implies found_in(
            #[trigger] w.emitted[k],
            root,
            test,
        ) by {
            if k < inner.emitted.len() {
                assert(w.emitted[k] == inner.emitted[k]);
                assert(found_among(inner.emitted[k], root.children(), 0, test));
                lemma_found_in_parent(inner.emitted[k], root, 0, test);
            }
        }
    }
}

/// Everything that the walk of the statement `s` reports comes from it.
pub proof fn lemma_walk_stmt_found(config: Config, s: Stmt, test: Option<Expr>)
    ensures
        forall|k: int|
            0 <= k < walk_stmt(config, s, test).emitted.len() ==> found_in(
                #[trigger] walk_stmt(config, s, test).emitted[k],
                Node::Stmt(s),
                test,
            ),
    decreases s, 0nat,
{
    let w = walk_stmt(config, s, test);
    let root = Node::Stmt(s);
    assert(below(root, root));
    match ignored_function_call(config, s) {
        Some(fc) => {
            let call = Node::Expr(fc.call);
            lemma_ignored_function_call_decreases(config, s);
            lemma_ignored_function_call_below(config, s);
            lemma_walk_nodes_found(config, fc.call.children@, fc.call.spec_args_start(), test);
            let inner = walk_nodes(config, fc.call.children@, fc.call.spec_args_start(), test);
            assert(w == inner);
            assert forall|k: int| 0 <= k < w.emitted.len() implies found_in(
                #[trigger] w.emitted[k],
                root,
                test,
            ) by {
                assert(w.emitted[k] == inner.emitted[k]);
                assert(found_among(
                    w.emitted[k],
                    call.children(),
                    fc.call.spec_args_start(),
                    test,
                ));
                lemma_found_in_parent(w.emitted[k], call, fc.call.spec_args_start(), test);
                lemma_found_higher(w.emitted[k], call, root, test);
            }
        },
        None => {
            let inner = walk_nodes(config, s.children@, 0, test);
            lemma_walk_nodes_found(config, s.children@, 0, test);
            assert forall|k: int| 0 <= k < w.emitted.len() implies found_in(
                #[trigger] w.emitted[k],
                root,
                test,
            ) by {
                if k < inner.emitted.len() {
                    assert(w.emitted[k] == inner.emitted[k]);
                    assert(found_among(inner.emitted[k], root.children(), 0, test));
                    lemma_found_in_parent(inner.emitted[k], root, 0, test);
                }
            }
        },
    }
}

/// The bytes that are reported for a node lie within the node's span and
/// are in order.
pub proof fn lemma_span_within_origin(emission: Emission)
    requires
        emission.origin().wf(),
        emission matches Emission::MethodSuffix { call, .. } ==> method_call(call) is Some,
    ensures
        emission.origin().span().contains(emission.span()),
        emission.span().lo <= emission.span().hi,
{
    match emission {
        Emission::Statement { .. } => {},
        Emission::MethodSuffix { call, .. } => {
            lemma_receiver_below(call);
            lemma_below_wf(Node::Expr(method_call(call).unwrap().obj), Node::Expr(call));
        },
    }
}

/// In a well-formed module the bytes of everything reported are in order.
pub proof fn lemma_spans_ordered(config: Config, module: Module)
    requires
        module.wf(),
    ensures
        forall|k: int|
            0 <= k < walk_module(config, module).emitted.len() ==> (#[trigger] walk_module(
                config,
                module,
            ).emitted[k]).span().lo <= walk_module(config, module).emitted[k].span().hi,
{
    let w = walk_module(config, module);
    lemma_walk_nodes_found(config, module.children@, 0, None);
    assert forall|k: int| 0 <= k < w.emitted.len() implies (#[trigger] w.emitted[k]).span().lo
        <= w.emitted[k].span().hi by {
        let em = w.emitted[k];
        assert(found_among(em, module.children@, 0, None));
        let j = choose|j: int|
            0 <= j && 0 <= j < module.children@.len() && found_in(
                em,
                #[trigger] module.children@[j],
                None,
            );
        assert(module.children@[j].wf());
        lemma_below_wf(em.origin(), module.children@[j]);
        lemma_span_within_origin(em);
    }
}

/// In a well-formed module everything reported lies within the span of a
/// test case of the module: an expression of the module that is recognized
/// as one.
pub proof fn lemma_spans_within_test_case(config: Config, module: Module)
    requires
        module.wf(),
    ensures
        forall|k: int|
            0 <= k < walk_module(config, module).emitted.len() ==> {
                let emission = #[trigger] walk_module(config, module).emitted[k];
                &&& test_case(emission.test()) is Some
                &&& emission.test().span.contains(emission.span())
                &&& module.span.contains(emission.test().span)
                &&& exists|j: int|
                    0 <= j < module.children@.len() && below(
                        Node::Expr(emission.test()),
                        #[trigger] module.children@[j],
                    )
            },
{
    let w = walk_module(config, module);
    lemma_walk_nodes_found(config, module.children@, 0, None);
    assert forall|k: int| 0 <= k < w.emitted.len() implies {
        let emission = #[trigger] w.emitted[k];
        &&& test_case(emission.test()) is Some
        &&& emission.test().span.contains(emission.span())
        &&& module.span.contains(emission.test().span)
        &&& exists|j: int|
            0 <= j < module.children@.len() && below(
                Node::Expr(emission.test()),
                #[trigger] module.children@[j],
            )
    } by {
        let em = w.emitted[k];
        assert(found_among(em, module.children@, 0, None));
        let j = choose|j: int|
            0 <= j && 0 <= j < module.children@.len() && found_in(
                em,
                #[trigger] module.children@[j],
                None,
            );
        let test = Node::Expr(em.test());
        assert(module.children@[j].wf());
        assert(module.span.contains(module.children@[j].span()));
        lemma_below_wf(test, module.children@[j]);
        lemma_below_wf(em.origin(), test);
        lemma_span_within_origin(em);
    }
}

/// No method call is reported whose chain starts with `should` or `to`, or
/// is `toNumber` or `toString` alone and without arguments; and what is
/// reported of a method call starts at the end of the receiver and ends at
/// the end of the call.
pub proof fn lemma_ignored_methods_not_reported(config: Config, module: Module)
    ensures
        forall|k: int|
            0 <= k < walk_module(config, module).emitted.len() ==> (#[trigger] walk_module(
                config,
                module,
            ).emitted[k] matches Emission::MethodSuffix { call, .. } ==> {
                &&& method_call(call) matches Some(mc)
                &&& mc.path.len() > 0
                &&& mc.path[0] != "should"@
                &&& mc.path[0] != "to"@
                &&& !((mc.path[0] == "toNumber"@ || mc.path[0] == "toString"@) && mc.path.len() == 1
                    && call.spec_args().len() == 0)
                &&& walk_module(config, module).emitted[k].span() == ByteSpan {
                    lo: mc.obj.span.hi,
                    hi: call.span.hi,
                }
            }),
{
    let w = walk_module(config, module);
    lemma_walk_nodes_found(config, module.children@, 0, None);
    assert forall|k: int| 0 <= k < w.emitted.len() implies (#[trigger] w.emitted[k] matches Emission::MethodSuffix {
        call,
        ..
    } ==> {
        &&& method_call(call) matches Some(mc)
        &&& mc.path.len() > 0
        &&& mc.path[0] != "should"@
        &&& mc.path[0] != "to"@
        &&& !((mc.path[0] == "toNumber"@ || mc.path[0] == "toString"@) && mc.path.len() == 1
            && call.spec_args().len() == 0)
        &&& w.emitted[k].span() == ByteSpan { lo: mc.obj.span.hi, hi: call.span.hi }
    }) by {
        assert(found_among(w.emitted[k], module.children@, 0, None));
    }
}

/// No `break`, `continue`, `return` or declaration is reported; and what is
/// reported of a statement is the statement's span.
pub proof fn lemma_control_flow_not_reported(config: Config, module: Module)
    ensures
        forall|k: int|
            0 <= k < walk_module(config, module).emitted.len() ==> (#[trigger] walk_module(
                config,
                module,
            ).emitted[k] matches Emission::Statement { stmt, .. } ==> {
                &&& stmt.kind != StmtKind::Break
                &&& stmt.kind != StmtKind::Continue
                &&& stmt.kind != StmtKind::Return
                &&& stmt.kind != StmtKind::Decl
                &&& walk_module(config, module).emitted[k].span() == stmt.span
            }),
{
    let w = walk_module(config, module);
    lemma_walk_nodes_found(config, module.children@, 0, None);
    assert forall|k: int| 0 <= k < w.emitted.len() implies (#[trigger] w.emitted[k] matches Emission::Statement {
        stmt,
        ..
    } ==> {
        &&& stmt.kind != StmtKind::Break
        &&& stmt.kind != StmtKind::Continue
        &&& stmt.kind != StmtKind::Return
        &&& stmt.kind != StmtKind::Decl
        &&& w.emitted[k].span() == stmt.span
    }) by {
        assert(found_among(w.emitted[k], module.children@, 0, None));
    }
}

/// No statement is among what `walk` reports.
pub open spec fn no_statement(walk: Walk) -> bool {
    forall|k: int| 0 <= k < walk.emitted.len() ==> !(#[trigger] walk.emitted[k] is Statement)
}

/// A walk of nodes that counts no leaf reports no statement.
pub proof fn lemma_leafless_nodes(config: Config, nodes: Seq<Node>, from: int, test: Option<Expr>)
    ensures
        walk_nodes(config, nodes, from, test).leaves == 0 ==> no_statement(
            walk_nodes(config, nodes, from, test),
        ),
    decreases nodes, nodes.len() - from,
{
    let w = walk_nodes(config, nodes, from, test);
    if 0 <= from < nodes.len() && w.leaves == 0 {
        let first = match nodes[from] {
            Node::Stmt(s) => walk_stmt(config, s, test),
            Node::Expr(e) => walk_expr(config, e, test),
        };
        let rest = walk_nodes(config, nodes, from + 1, test);
        match nodes[from] {
            Node::Stmt(s) => lemma_leafless_stmt(config, s, test),
            Node::Expr(e) => lemma_leafless_expr(config, e, test),
        }
        lemma_leafless_nodes(config, nodes, from + 1, test);
        assert forall|k: int| 0 <= k < w.emitted.len() implies !(
        #[trigger] w.emitted[k] is Statement) by {
            if k < first.emitted.len() {
                assert(w.emitted[k] == first.emitted[k]);
            } else {
                assert(w.emitted[k] == rest.emitted[k - first.emitted.len()]);
            }
        }
    }
}

/// A walk of an expression that counts no leaf reports no statement.
pub proof fn lemma_leafless_expr(config: Config, e: Expr, test: Option<Expr>)
    ensures
        walk_expr(config, e, test).leaves == 0 ==> no_statement(walk_expr(config, e, test)),
    decreases e, 0nat,
{
    let w = walk_expr(config, e, test);
    let inner = if test_case(e) is Some {
        walk_nodes(config, e.children@, 0, Some(e))
    } else {
        walk_nodes(config, e.children@, 0, test)
    };
    if test_case(e) is Some {
        lemma_leafless_nodes(config, e.children@, 0, Some(e));
    } else {
        lemma_leafless_nodes(config, e.children@, 0, test);
    }
    if w.leaves == 0 {
        assert forall|k: int| 0 <= k < w.emitted.len() implies !(
        #[trigger] w.emitted[k] is Statement) by {
            if k < inner.emitted.len() {
                assert(w.emitted[k] == inner.emitted[k]);
            }
        }
    }
}

/// A walk of a statement that counts no leaf reports no statement.
pub proof fn lemma_leafless_stmt(config: Config, s: Stmt, test: Option<Expr>)
    ensures
        walk_stmt(config, s, test).leaves == 0 ==> no_statement(walk_stmt(config, s, test)),
    decreases s, 0nat,
{
    match ignored_function_call(config, s) {
        Some(fc) => {
            lemma_ignored_function_call_decreases(config, s);
            lemma_leafless_nodes(config, fc.call.children@, fc.call.spec_args_start(), test);
        },
        None => {},
    }
}

/// Of the statements that `walk` reports, none has a span that lies within
/// the span of another without being equal to it.
pub open spec fn separate(walk: Walk) -> bool {
    forall|a: int, b: int|
        #![trigger walk.emitted[a], walk.emitted[b]]
        0 <= a < walk.emitted.len() && 0 <= b < walk.emitted.len() && a != b
            && walk.emitted[a] is Statement && walk.emitted[b] is Statement
            ==> !walk.emitted[a].span().strictly_contains(walk.emitted[b].span())
}

/// A statement that comes from the walk of a well-formed node covers at
/// least one byte and lies within the node's span.
proof fn lemma_statement_place(emission: Emission, root: Node, test: Option<Expr>)
    requires
        found_in(emission, root, test),
        root.wf(),
        emission is Statement,
    ensures
        root.span().contains(emission.span()),
        emission.span().lo < emission.span().hi,
{
    lemma_below_wf(emission.origin(), root);
}

/// The statements that the walk of well-formed nodes reports are separate.
pub proof fn lemma_separate_nodes(
    config: Config,
    nodes: Seq<Node>,
    from: int,
    test: Option<Expr>,
    span: ByteSpan,
)
    requires
        children_wf(span, nodes),
    ensures
        separate(walk_nodes(config, nodes, from, test)),
    decreases nodes, nodes.len() - from,
{
    let w = walk_nodes(config, nodes, from, test);
    if 0 <= from < nodes.len() {
        let first = match nodes[from] {
            Node::Stmt(s) => walk_stmt(config, s, test),
            Node::Expr(e) => walk_expr(config, e, test),
        };
        let rest = walk_nodes(config, nodes, from + 1, test);
        assert(nodes[from].wf());
        match nodes[from] {
            Node::Stmt(s) => {
                lemma_separate_stmt(config, s, test);
                lemma_walk_stmt_found(config, s, test);
            },
            Node::Expr(e) => {
                lemma_separate_expr(config, e, test);
                lemma_walk_expr_found(config, e, test);
            },
        }
        lemma_separate_nodes(config, nodes, from + 1, test, span);
        lemma_walk_nodes_found(config, nodes, from + 1, test);
        let n = first.emitted.len() as int;
        assert forall|a: int, b: int|
            #![trigger w.emitted[a], w.emitted[b]]
            0 <= a < w.emitted.len() && 0 <= b < w.emitted.len() && a != b
                && w.emitted[a] is Statement && w.emitted[b] is Statement implies !w.emitted[a].span().strictly_contains(
            w.emitted[b].span(),
        ) by {
            if a < n && b < n {
                assert(w.emitted[a] == first.emitted[a]);
                assert(w.emitted[b] == first.emitted[b]);
            } else if a >= n && b >= n {
                assert(w.emitted[a] == rest.emitted[a - n]);
                assert(w.emitted[b] == rest.emitted[b - n]);
            } else {
                let (x, y) = if a < n {
                    (a, b)
                } else {
                    (b, a)
                };
                assert(w.emitted[x] == first.emitted[x]);
                assert(w.emitted[y] == rest.emitted[y - n]);
                assert(found_in(first.emitted[x], nodes[from], test));
                assert(found_among(rest.emitted[y - n], nodes, from + 1, test));
                let j = choose|j: int|
                    0 <= j && from + 1 <= j < nodes.len() && found_in(
                        rest.emitted[y - n],
                        #[trigger] nodes[j],
                        test,
                    );
                assert(nodes[j].wf());
                lemma_statement_place(w.emitted[x], nodes[from], test);
                lemma_statement_place(w.emitted[y], nodes[j], test);
                assert(nodes[from].span().disjoint(nodes[j].span()));
            }
        }
    }
}

/// The statements that the walk of a well-formed expression reports are
/// separate.
pub proof fn lemma_separate_expr(config: Config, e: Expr, test: Option<Expr>)
    requires
        e.wf(),
    ensures
        separate(walk_expr(config, e, test)),
    decreases e, 0nat,
{
    let w = walk_expr(config, e, test);
    let inner = if test_case(e) is Some {
        walk_nodes(config, e.children@, 0, Some(e))
    } else {
        walk_nodes(config, e.children@, 0, test)
    };
    if test_case(e) is Some {
        lemma_separate_nodes(config, e.children@, 0, Some(e), e.span);
    } else {
        lemma_separate_nodes(config, e.children@, 0, test, e.span);
    }
    assert forall|a: int, b: int|
        #![trigger w.emitted[a], w.emitted[b]]
        0 <= a < w.emitted.len() && 0 <= b < w.emitted.len() && a != b && w.emitted[a] is Statement
            && w.emitted[b] is Statement implies !w.emitted[a].span().strictly_contains(
        w.emitted[b].span(),
    ) by {
        assert(a < inner.emitted.len() && b < inner.emitted.len());
        assert(w.emitted[a] == inner.emitted[a]);
        assert(w.emitted[b] == inner.emitted[b]);
    }
}

/// The statements that the walk of a well-formed statement reports are
/// separate.
pub proof fn lemma_separate_stmt(config: Config, s: Stmt, test: Option<Expr>)
    requires
        s.wf(),
    ensures
        separate(walk_stmt(config, s, test)),
    decreases s, 0nat,
{
    let w = walk_stmt(config, s, test);
    match ignored_function_call(config, s) {
        Some(fc) => {
            lemma_ignored_function_call_decreases(config, s);
            lemma_ignored_function_call_below(config, s);
            lemma_below_wf(Node::Expr(fc.call), Node::Stmt(s));
            lemma_separate_nodes(
                config,
                fc.call.children@,
                fc.call.spec_args_start(),
                test,
                fc.call.span,
            );
        },
        None => {
            let inner = walk_nodes(config, s.children@, 0, test);
            lemma_separate_nodes(config, s.children@, 0, test, s.span);
            lemma_leafless_nodes(config, s.children@, 0, test);
            assert forall|a: int, b: int|
                #![trigger w.emitted[a], w.emitted[b]]
                0 <= a < w.emitted.len() && 0 <= b < w.emitted.len() && a != b
                    && w.emitted[a] is Statement && w.emitted[b] is Statement implies !w.emitted[a].span().strictly_contains(
                w.emitted[b].span(),
            ) by {
                if a < inner.emitted.len() {
                    assert(w.emitted[a] == inner.emitted[a]);
                }
                if b < inner.emitted.len() {
                    assert(w.emitted[b] == inner.emitted[b]);
                }
            }
        },
    }
}

/// In a well-formed module, of the statements that are reported none has a
/// span that lies within the span of another without being equal to it.
pub proof fn lemma_statements_separate(config: Config, module: Module)
    requires
        module.wf(),
    ensures
        separate(walk_module(config, module)),
{
    lemma_separate_nodes(config, module.children@, 0, None, module.span);
}

/// The two configurations list the same functions.
pub open spec fn same_lists(a: Config, b: Config) -> bool {
    forall|name: Seq<char>| #[trigger] a.lists(name) == b.lists(name)
}

/// Configurations that list the same functions find the same ignored call.
pub proof fn lemma_same_ignored_call(a: Config, b: Config, e: Expr)
    requires
        same_lists(a, b),
    ensures
        ignored_call(a, e) == ignored_call(b, e),
    decreases e,
{
    match function_call(e) {
        Some(fc) => {
            assert(a.lists(dotted(fc.path)) == b.lists(dotted(fc.path)));
        },
        None => {
            if method_call(e) is Some {
                lemma_chain_base_decreases(e.spec_callee().unwrap());
                lemma_same_ignored_call(a, b, method_call(e).unwrap().obj);
            }
        },
    }
}

/// Configurations that list the same functions yield the same walk of
/// nodes.
pub proof fn lemma_same_walk_nodes(
    a: Config,
    b: Config,
    nodes: Seq<Node>,
    from: int,
    test: Option<Expr>,
)
    requires
        same_lists(a, b),
    ensures
        walk_nodes(a, nodes, from, test) == walk_nodes(b, nodes, from, test),
    decreases nodes, nodes.len() - from,
{
    if 0 <= from < nodes.len() {
        match nodes[from] {
            Node::Stmt(s) => lemma_same_walk_stmt(a, b, s, test),
            Node::Expr(e) => lemma_same_walk_expr(a, b, e, test),
        }
        lemma_same_walk_nodes(a, b, nodes, from + 1, test);
    }
}

/// Configurations that list the same functions yield the same walk of an
/// expression.
pub proof fn lemma_same_walk_expr(a: Config, b: Config, e: Expr, test: Option<Expr>)
    requires
        same_lists(a, b),
    ensures
        walk_expr(a, e, test) == walk_expr(b, e, test),
    decreases e, 0nat,
{
    if test_case(e) is Some {
        lemma_same_walk_nodes(a, b, e.children@, 0, Some(e));
    } else {
        lemma_same_walk_nodes(a, b, e.children@, 0, test);
    }
}

/// Configurations that list the same functions yield the same walk of a
/// statement.
pub proof fn lemma_same_walk_stmt(a: Config, b: Config, s: Stmt, test: Option<Expr>)
    requires
        same_lists(a, b),
    ensures
        walk_stmt(a, s, test) == walk_stmt(b, s, test),
    decreases s, 0nat,
{
    if s.spec_expression() is Some {
        lemma_same_ignored_call(a, b, trimmed(s.spec_expression().unwrap()));
    }
    match ignored_function_call(a, s) {
        Some(fc) => {
            lemma_ignored_function_call_decreases(a, s);
            lemma_same_walk_nodes(a, b, fc.call.children@, fc.call.spec_args_start(), test);
        },
        None => {
            lemma_same_walk_nodes(a, b, s.children@, 0, test);
        },
    }
}

/// The walk of a module depends on the configuration only through the
/// functions that it lists: two configurations that list the same functions
/// report the same things in the same order.
pub proof fn lemma_walk_determined(a: Config, b: Config, module: Module)
    requires
        same_lists(a, b),
    ensures
        walk_module(a, module) == walk_module(b, module),
{
    lemma_same_walk_nodes(a, b, module.children@, 0, None);
}

} // verus!
