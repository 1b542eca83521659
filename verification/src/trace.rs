//! What a walk of the tree yields.
//!
//! The walk goes through the tree in source order of the nodes' fields.
//! Inside a test case it reports two things: a statement in which no other
//! statement was counted as a leaf, and, behind each method call that is not
//! ignored, the part from the end of the receiver to the end of the call.
use crate::ast::{Expr, Module, Node, Stmt};
use crate::calls::{function_call, method_call, trimmed};
use crate::ignore::{
    ignored_call, ignored_function_call, ignored_method, lemma_chain_base_decreases, Config,
};
use crate::span::ByteSpan;
use crate::test_case::test_case;
use vstd::prelude::*;

verus! {

/// Something that the walk reports, with the test case `test` around it.
pub enum Emission {
    /// The leaf statement `stmt`.
    Statement { stmt: Stmt, test: Expr },
    /// What follows the receiver in the method call `call`.
    MethodSuffix { call: Expr, test: Expr },
}

impl Emission {
    /// The test case around what is reported.
    pub open spec fn test(self) -> Expr {
        match self {
            Emission::Statement { test, .. } => test,
            Emission::MethodSuffix { test, .. } => test,
        }
    }

    /// The node that is reported on.
    pub open spec fn origin(self) -> Node {
        match self {
            Emission::Statement { stmt, .. } => Node::Stmt(stmt),
            Emission::MethodSuffix { call, .. } => Node::Expr(call),
        }
    }

    /// The message of the test case around what is reported.
    pub open spec fn message(self) -> Seq<char> {
        test_case(self.test()).unwrap().it_message
    }

    /// The bytes reported: all of a statement; of a method call, those from
    /// the end of the receiver to the end of the call.
    pub open spec fn span(self) -> ByteSpan {
        match self {
            Emission::Statement { stmt, .. } => stmt.span,
            Emission::MethodSuffix { call, .. } => ByteSpan {
                lo: method_call(call).unwrap().obj.span.hi,
                hi: call.span.hi,
            },
        }
    }
}

/// The outcome of walking a part of the tree.
pub struct Walk {
    /// What was reported, in order.
    pub emitted: Seq<Emission>,
    /// How many statements were counted as leaves.
    pub leaves: nat,
    /// Whether a test case was met inside another.
    pub nested: bool,
}

impl Walk {
    /// The outcome of walking nothing.
    pub open spec fn empty() -> Walk {
        Walk { emitted: Seq::empty(), leaves: 0, nested: false }
    }

    /// The outcome of this walk followed by `next`.
    pub open spec fn followed_by(self, next: Walk) -> Walk {
        Walk {
            emitted: self.emitted + next.emitted,
            leaves: self.leaves + next.leaves,
            nested: self.nested || next.nested,
        }
    }

    /// The outcome of this walk followed by one more report.
    pub open spec fn with(self, emission: Emission) -> Walk {
        Walk { emitted: self.emitted.push(emission), leaves: self.leaves, nested: self.nested }
    }
}

/// `e` without what is around it is `e` or lies below it.
pub proof fn lemma_trimmed_decreases(e: Expr)
    ensures
        trimmed(e) == e || decreases_to!(e => trimmed(e)),
    decreases e,
{
    if e.spec_awaited() is Some {
        let inner = e.spec_awaited().unwrap();
        assert(decreases_to!(e => e.children));
        assert(decreases_to!(e.children => e.children@));
        assert(decreases_to!(e.children@ => e.children@[0]));
        assert(decreases_to!(e.children@[0] => inner));
        lemma_trimmed_decreases(inner);
    } else if e.spec_object() is Some {
        let inner = e.spec_object().unwrap();
        assert(decreases_to!(e => e.children));
        assert(decreases_to!(e.children => e.children@));
        assert(decreases_to!(e.children@ => e.children@[0]));
        assert(decreases_to!(e.children@[0] => inner));
        lemma_trimmed_decreases(inner);
    }
}

/// The ignored call that `e` starts with is `e` or lies below it.
pub proof fn lemma_ignored_call_decreases(config: Config, e: Expr)
    ensures
        ignored_call(config, e) matches Some(fc) ==> fc.call == e || decreases_to!(e => fc.call),
    decreases e,
{
    if function_call(e) is None && method_call(e) is Some {
        let callee = e.spec_callee().unwrap();
        let obj = method_call(e).unwrap().obj;
        assert(decreases_to!(e => e.children));
        assert(decreases_to!(e.children => e.children@));
        assert(decreases_to!(e.children@ => e.children@[0]));
        assert(decreases_to!(e.children@[0] => callee));
        lemma_chain_base_decreases(callee);
        lemma_ignored_call_decreases(config, obj);
    }
}

/// The ignored call that a statement starts with lies below the statement.
pub proof fn lemma_ignored_function_call_decreases(config: Config, s: Stmt)
    ensures
        ignored_function_call(config, s) matches Some(fc) ==> decreases_to!(s => fc.call),
{
    if s.spec_expression() is Some {
        let e = s.spec_expression().unwrap();
        assert(decreases_to!(s => s.children));
        assert(decreases_to!(s.children => s.children@));
        assert(decreases_to!(s.children@ => s.children@[0]));
        assert(decreases_to!(s.children@[0] => e));
        lemma_trimmed_decreases(e);
        lemma_ignored_call_decreases(config, trimmed(e));
    }
}

/// The walk of the nodes of `nodes` from index `from` on, inside the test
/// case `test` if there is one.
pub open spec fn walk_nodes(config: Config, nodes: Seq<Node>, from: int, test: Option<Expr>) -> Walk
    decreases nodes, nodes.len() - from,
{
    if 0 <= from < nodes.len() {
        let first = match nodes[from] {
            Node::Stmt(s) => walk_stmt(config, s, test),
            Node::Expr(e) => walk_expr(config, e, test),
        };
        first.followed_by(walk_nodes(config, nodes, from + 1, test))
    } else {
        Walk::empty()
    }
}

/// The walk of the expression `e`.
///
/// A test case is walked as its own surroundings. Any other expression has
/// its children walked; then, inside a test case, a method call that is not
/// ignored is reported.
pub open spec fn walk_expr(config: Config, e: Expr, test: Option<Expr>) -> Walk
    decreases e, 0nat,
{
    if test_case(e) is Some {
        let inner = walk_nodes(config, e.children@, 0, Some(e));
        Walk { emitted: inner.emitted, leaves: inner.leaves, nested: test is Some || inner.nested }
    } else {
        let inner = walk_nodes(config, e.children@, 0, test);
        if test is Some && method_call(e) is Some && !ignored_method(
            method_call(e).unwrap().path,
            e.spec_args().len(),
        ) {
            inner.with(Emission::MethodSuffix { call: e, test: test.unwrap() })
        } else {
            inner
        }
    }
}

/// The walk of the statement `s`.
///
/// Of a statement that starts with the call of an ignored function, only
/// the arguments and type arguments of that call are walked. Any other
/// statement has its children walked; if no leaf was counted among them,
/// the statement is a leaf itself, and inside a test case it is reported,
/// unless it is `break`, `continue`, `return` or a declaration.
pub open spec fn walk_stmt(config: Config, s: Stmt, test: Option<Expr>) -> Walk
    decreases s, 0nat,
{
    match ignored_function_call(config, s) {
        Some(fc) => {
            proof {
                lemma_ignored_function_call_decreases(config, s);
            }
            walk_nodes(config, fc.call.children@, fc.call.spec_args_start(), test)
        },
        None => {
            let inner = walk_nodes(config, s.children@, 0, test);
            if inner.leaves > 0 {
                inner
            } else if test is Some && !s.spec_is_control_or_declaration() {
                Walk {
                    emitted: inner.emitted.push(Emission::Statement { stmt: s, test: test.unwrap() }),
                    leaves: 1,
                    nested: inner.nested,
                }
            } else {
                Walk { emitted: inner.emitted, leaves: 1, nested: inner.nested }
            }
        },
    }
}

/// The walk of a whole module.
pub open spec fn walk_module(config: Config, module: Module) -> Walk {
    walk_nodes(config, module.children@, 0, None)
}

} // verus!
