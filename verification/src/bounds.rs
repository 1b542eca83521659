//! How many leaves a walk can count.
//!
//! Every leaf is a statement that covers at least one byte, and no two
//! leaves overlap: a walk of a node counts no more leaves than the node's
//! span has bytes.
use crate::ast::{children_wf, Expr, Module, Node, Stmt};
use crate::descent::{lemma_below_wf, lemma_ignored_function_call_below};
use crate::ignore::{ignored_function_call, Config};
use crate::span::ByteSpan;
use crate::test_case::test_case;
use crate::trace::{
    lemma_ignored_function_call_decreases, walk_expr, walk_module, walk_nodes, walk_stmt,
};
use vstd::prelude::*;

verus! {

/// The summed lengths of the spans of the nodes of `nodes` from index `from`
/// on that lie between `lo` and `hi`.
pub open spec fn covered(nodes: Seq<Node>, from: int, lo: int, hi: int) -> int
    decreases nodes.len() - from,
{
    if 0 <= from < nodes.len() {
        let span = nodes[from].span();
        let here = if lo <= span.lo && span.hi <= hi {
            span.hi - span.lo
        } else {
            0
        };
        here + covered(nodes, from + 1, lo, hi)
    } else {
        0
    }
}

/// The spans of `nodes` are in order, and no two of them overlap.
pub open spec fn tidy(nodes: Seq<Node>) -> bool {
    &&& forall|i: int| 0 <= i < nodes.len() ==> (#[trigger] nodes[i]).span().lo <= nodes[i].span().hi
    &&& forall|i: int, j: int|
        #![trigger nodes[i], nodes[j]]
        0 <= i < j < nodes.len() ==> nodes[i].span().disjoint(nodes[j].span())
}

/// Spans in order cover no negative length.
proof fn lemma_covered_nonnegative(nodes: Seq<Node>, from: int, lo: int, hi: int)
    requires
        tidy(nodes),
    ensures
        covered(nodes, from, lo, hi) >= 0,
    decreases nodes.len() - from,
{
    if 0 <= from < nodes.len() {
        lemma_covered_nonnegative(nodes, from + 1, lo, hi);
    }
}

/// Where every span between `lo` and `hi` lies left of `left` or right of
/// `right`, the two sides cover what the whole covers.
proof fn lemma_covered_split(nodes: Seq<Node>, from: int, lo: int, left: int, right: int, hi: int)
    requires
        tidy(nodes),
        0 <= from,
        left <= hi,
        lo <= right,
        forall|j: int|
            from <= j < nodes.len() && lo <= (#[trigger] nodes[j]).span().lo && nodes[j].span().hi
                <= hi ==> nodes[j].span().hi <= left || right <= nodes[j].span().lo,
    ensures
        covered(nodes, from, lo, hi) <= covered(nodes, from, lo, left) + covered(
            nodes,
            from,
            right,
            hi,
        ),
    decreases nodes.len() - from,
{
    if from < nodes.len() {
        lemma_covered_split(nodes, from + 1, lo, left, right, hi);
        lemma_covered_nonnegative(nodes, from + 1, lo, left);
        lemma_covered_nonnegative(nodes, from + 1, right, hi);
        assert(nodes[from].span().lo <= nodes[from].span().hi);
    }
}

/// Spans that do not overlap cover no more between `lo` and `hi` than
/// there is.
pub proof fn lemma_covered_fits(nodes: Seq<Node>, from: int, lo: int, hi: int)
    requires
        tidy(nodes),
        0 <= from,
        lo <= hi,
    ensures
        covered(nodes, from, lo, hi) <= hi - lo,
    decreases nodes.len() - from,
{
    if from < nodes.len() {
        let span = nodes[from].span();
        if lo <= span.lo && span.hi <= hi {
            assert(span.lo <= span.hi);
            assert forall|j: int|
                from + 1 <= j < nodes.len() && lo <= (#[trigger] nodes[j]).span().lo
                    && nodes[j].span().hi <= hi implies nodes[j].span().hi <= span.lo || span.hi
                <= nodes[j].span().lo by {
                assert(nodes[from].span().disjoint(nodes[j].span()));
            }
            lemma_covered_split(nodes, from + 1, lo, span.lo as int, span.hi as int, hi);
            lemma_covered_fits(nodes, from + 1, lo, span.lo as int);
            lemma_covered_fits(nodes, from + 1, span.hi as int, hi);
        } else {
            lemma_covered_fits(nodes, from + 1, lo, hi);
        }
    }
}

/// The children of a well-formed node are tidy.
proof fn lemma_children_tidy(span: ByteSpan, nodes: Seq<Node>)
    requires
        children_wf(span, nodes),
    ensures
        tidy(nodes),
{
    assert forall|i: int| 0 <= i < nodes.len() implies (#[trigger] nodes[i]).span().lo
        <= nodes[i].span().hi by {
        assert(nodes[i].wf());
    }
}

/// A walk of the children of a well-formed node counts no more leaves than
/// their spans have bytes.
pub proof fn lemma_leaves_nodes(
    config: Config,
    nodes: Seq<Node>,
    from: int,
    test: Option<Expr>,
    span: ByteSpan,
)
    requires
        children_wf(span, nodes),
    ensures
        walk_nodes(config, nodes, from, test).leaves <= covered(
            nodes,
            from,
            span.lo as int,
            span.hi as int,
        ),
    decreases nodes, nodes.len() - from,
{
    if 0 <= from < nodes.len() {
        assert(nodes[from].wf());
        assert(span.contains(nodes[from].span()));
        match nodes[from] {
            Node::Stmt(s) => lemma_leaves_stmt(config, s, test),
            Node::Expr(e) => lemma_leaves_expr(config, e, test),
        }
        lemma_leaves_nodes(config, nodes, from + 1, test, span);
    }
}

/// A walk of a well-formed expression counts no more leaves than its span
/// has bytes.
pub proof fn lemma_leaves_expr(config: Config, e: Expr, test: Option<Expr>)
    requires
        e.wf(),
    ensures
        walk_expr(config, e, test).leaves <= e.span.hi - e.span.lo,
    decreases e, 0nat,
{
    lemma_children_tidy(e.span, e.children@);
    lemma_covered_fits(e.children@, 0, e.span.lo as int, e.span.hi as int);
    if test_case(e) is Some {
        lemma_leaves_nodes(config, e.children@, 0, Some(e), e.span);
    } else {
        lemma_leaves_nodes(config, e.children@, 0, test, e.span);
    }
}

/// A walk of a well-formed statement counts no more leaves than its span
/// has bytes.
pub proof fn lemma_leaves_stmt(config: Config, s: Stmt, test: Option<Expr>)
    requires
        s.wf(),
    ensures
        walk_stmt(config, s, test).leaves <= s.span.hi - s.span.lo,
    decreases s, 0nat,
{
    match ignored_function_call(config, s) {
        Some(fc) => {
            let call = fc.call;
            lemma_ignored_function_call_decreases(config, s);
            lemma_ignored_function_call_below(config, s);
            lemma_below_wf(Node::Expr(call), Node::Stmt(s));
            lemma_children_tidy(call.span, call.children@);
            lemma_leaves_nodes(config, call.children@, call.spec_args_start(), test, call.span);
            lemma_covered_fits(
                call.children@,
                call.spec_args_start(),
                call.span.lo as int,
                call.span.hi as int,
            );
        },
        None => {
            lemma_children_tidy(s.span, s.children@);
            lemma_covered_fits(s.children@, 0, s.span.lo as int, s.span.hi as int);
            lemma_leaves_nodes(config, s.children@, 0, test, s.span);
        },
    }
}

/// A walk of a well-formed module counts no more leaves than a counter can
/// hold.
pub proof fn lemma_leaves_module(config: Config, module: Module)
    requires
        module.wf(),
    ensures
        walk_module(config, module).leaves <= u32::MAX,
        walk_module(config, module).leaves <= usize::MAX,
{
    lemma_children_tidy(module.span, module.children@);
    lemma_covered_fits(module.children@, 0, module.span.lo as int, module.span.hi as int);
    lemma_leaves_nodes(config, module.children@, 0, None, module.span);
}

} // verus!
