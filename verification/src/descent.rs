//! Nodes below other nodes.
use crate::ast::{children_wf, Expr, Node, Stmt};
use crate::calls::{chain_base, function_call, method_call, trimmed};
use crate::ignore::{ignored_call, ignored_function_call, lemma_chain_base_decreases, Config};
use vstd::prelude::*;

verus! {

/// `a` is `b` or lies somewhere below it.
pub open spec fn below(a: Node, b: Node) -> bool
    decreases b,
{
    a == b || exists|i: int| 0 <= i < b.children().len() && below(a, #[trigger] b.children()[i])
}

/// A child lies below its parent.
pub proof fn lemma_below_child(parent: Node, i: int)
    requires
        0 <= i < parent.children().len(),
    ensures
        below(parent.children()[i], parent),
{
    assert(below(parent.children()[i], parent.children()[i]));
}

/// What lies below a node lies below everything that the node lies below.
pub proof fn lemma_below_trans(a: Node, b: Node, c: Node)
    requires
        below(a, b),
        below(b, c),
    ensures
        below(a, c),
    decreases c,
{
    if b != c {
        let i = choose|i: int| 0 <= i < c.children().len() && below(b, #[trigger] c.children()[i]);
        lemma_below_trans(a, b, c.children()[i]);
    }
}

/// What lies below a well-formed node is well formed and within its span.
pub proof fn lemma_below_wf(a: Node, b: Node)
    requires
        below(a, b),
        b.wf(),
    ensures
        a.wf(),
        b.span().contains(a.span()),
    decreases b,
{
    if a != b {
        let i = choose|i: int| 0 <= i < b.children().len() && below(a, #[trigger] b.children()[i]);
        assert(children_wf(b.span(), b.children()));
        assert(b.children()[i].wf());
        assert(b.span().contains(b.children()[i].span()));
        lemma_below_wf(a, b.children()[i]);
    }
}

/// The inner end of a chain lies below the chain's start.
pub proof fn lemma_chain_base_below(e: Expr)
    ensures
        below(Node::Expr(chain_base(e)), Node::Expr(e)),
    decreases e,
{
    if e.spec_property() is Some && e.spec_object() is Some {
        let obj = e.spec_object().unwrap();
        lemma_chain_base_below(obj);
        lemma_below_child(Node::Expr(e), 0);
        lemma_below_trans(Node::Expr(chain_base(e)), Node::Expr(obj), Node::Expr(e));
    }
}

/// The receiver of a method call lies below the call.
pub proof fn lemma_receiver_below(e: Expr)
    requires
        method_call(e) is Some,
    ensures
        below(Node::Expr(method_call(e).unwrap().obj), Node::Expr(e)),
{
    let callee = e.spec_callee().unwrap();
    lemma_chain_base_below(callee);
    lemma_below_child(Node::Expr(e), 0);
    lemma_below_trans(Node::Expr(chain_base(callee)), Node::Expr(callee), Node::Expr(e));
}

/// `e` without what is around it lies below `e`.
pub proof fn lemma_trimmed_below(e: Expr)
    ensures
        below(Node::Expr(trimmed(e)), Node::Expr(e)),
    decreases e,
{
    if e.spec_awaited() is Some {
        let inner = e.spec_awaited().unwrap();
        lemma_trimmed_below(inner);
        lemma_below_child(Node::Expr(e), 0);
        lemma_below_trans(Node::Expr(trimmed(e)), Node::Expr(inner), Node::Expr(e));
    } else if e.spec_object() is Some {
        let inner = e.spec_object().unwrap();
        lemma_trimmed_below(inner);
        lemma_below_child(Node::Expr(e), 0);
        lemma_below_trans(Node::Expr(trimmed(e)), Node::Expr(inner), Node::Expr(e));
    }
}

/// The ignored call that `e` starts with lies below `e`.
pub proof fn lemma_ignored_call_below(config: Config, e: Expr)
    requires
        ignored_call(config, e) is Some,
    ensures
        below(Node::Expr(ignored_call(config, e).unwrap().call), Node::Expr(e)),
    decreases e,
{
    if function_call(e) is None {
        let obj = method_call(e).unwrap().obj;
        lemma_chain_base_decreases(e.spec_callee().unwrap());
        lemma_ignored_call_below(config, obj);
        lemma_receiver_below(e);
        lemma_below_trans(
            Node::Expr(ignored_call(config, e).unwrap().call),
            Node::Expr(obj),
            Node::Expr(e),
        );
    }
}

/// The ignored call that a statement starts with lies below the statement.
pub proof fn lemma_ignored_function_call_below(config: Config, s: Stmt)
    requires
        ignored_function_call(config, s) is Some,
    ensures
        below(Node::Expr(ignored_function_call(config, s).unwrap().call), Node::Stmt(s)),
{
    let e = s.spec_expression().unwrap();
    let call = ignored_function_call(config, s).unwrap().call;
    lemma_trimmed_below(e);
    lemma_ignored_call_below(config, trimmed(e));
    lemma_below_trans(Node::Expr(call), Node::Expr(trimmed(e)), Node::Expr(e));
    lemma_below_child(Node::Stmt(s), 0);
    lemma_below_trans(Node::Expr(call), Node::Expr(e), Node::Stmt(s));
}

} // verus!
