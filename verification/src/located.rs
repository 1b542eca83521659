//! Trees whose spans are positions of a text.
use crate::ast::{Module, Node};
use crate::descent::below;
use crate::source_map::SourceMap;
use vstd::prelude::*;

verus! {

/// Both ends of the span of `n`, and of every node below it, are positions
/// of the text of `source_map`.
pub open spec fn fits(source_map: SourceMap, n: Node) -> bool
    decreases n,
{
    &&& source_map.valid(n.span().lo)
    &&& source_map.valid(n.span().hi)
    &&& forall|i: int| 0 <= i < n.children().len() ==> fits(source_map, #[trigger] n.children()[i])
}

/// Each node of `nodes` fits the text of `source_map`.
pub open spec fn all_fit(source_map: SourceMap, nodes: Seq<Node>) -> bool {
    forall|i: int| 0 <= i < nodes.len() ==> fits(source_map, #[trigger] nodes[i])
}

/// What lies below a node that fits a text fits it too.
pub proof fn lemma_below_fits(source_map: SourceMap, a: Node, b: Node)
    requires
        below(a, b),
        fits(source_map, b),
    ensures
        fits(source_map, a),
    decreases b,
{
    if a != b {
        let i = choose|i: int| 0 <= i < b.children().len() && below(a, #[trigger] b.children()[i]);
        lemma_below_fits(source_map, a, b.children()[i]);
    }
}

/// Whether each node of `nodes` fits the text of `source_map`.
pub fn check_all_fit(source_map: &SourceMap, nodes: &Vec<Node>) -> (ok: bool)
    ensures
        ok == all_fit(*source_map, nodes@),
    decreases *nodes,
{
    let mut i: usize = 0;
    while i < nodes.len()
        invariant
            i <= nodes.len(),
            forall|k: int| 0 <= k < i ==> fits(*source_map, #[trigger] nodes@[k]),
        decreases nodes.len() - i,
    {
        if !check_fits(source_map, &nodes[i]) {
            return false;
        }
        i = i + 1;
    }
    true
}

/// Whether `n` fits the text of `source_map`.
pub fn check_fits(source_map: &SourceMap, n: &Node) -> (ok: bool)
    ensures
        ok == fits(*source_map, *n),
    decreases *n,
{
    let span = n.byte_span();
    if !source_map.is_valid(span.lo) || !source_map.is_valid(span.hi) {
        return false;
    }
    let children = match n {
        Node::Stmt(s) => &s.children,
        Node::Expr(e) => &e.children,
    };
    assert(children@ == n.children());
    check_all_fit(source_map, children)
}

impl Module {
    /// Each node of the module fits the text of `source_map`.
    pub open spec fn fits(self, source_map: SourceMap) -> bool {
        all_fit(source_map, self.children@)
    }

    /// Whether each node of the module fits the text of `source_map`.
    pub fn check_fits(&self, source_map: &SourceMap) -> (ok: bool)
        ensures
            ok == self.fits(*source_map),
    {
        check_all_fit(source_map, &self.children)
    }
}

} // verus!
