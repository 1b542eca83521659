//! The walk itself.
use crate::ast::{Expr, Module, Node, Stmt};
use crate::bounds::lemma_leaves_module;
use crate::calls::{is_method_call, method_call};
use crate::descent::{lemma_below_wf, lemma_receiver_below};
use crate::ignore::{is_ignored_function_call, is_ignored_method, Config};
use crate::laws::{found_among, found_in, lemma_span_within_origin, lemma_walk_nodes_found};
use crate::located::{fits, lemma_below_fits};
use crate::source_map::SourceMap;
use crate::span::{ByteSpan, SourceFile, SourceFileView, Span, SpanView};
use crate::test_case::{is_it_call_expr, test_case};
use crate::trace::{
    lemma_ignored_function_call_decreases, walk_expr, walk_module, walk_nodes, walk_stmt,
    Emission, Walk,
};
use vstd::pervasive::unreached;
use vstd::prelude::*;

verus! {

/// A span that can be removed, and the message of the test case around it.
#[derive(Debug)]
pub struct Candidate {
    pub span: Span,
    pub it_message: String,
}

/// What a `Candidate` stands for.
pub struct CandidateView {
    pub span: SpanView,
    pub it_message: Seq<char>,
}

impl View for Candidate {
    type V = CandidateView;

    open spec fn view(&self) -> CandidateView {
        CandidateView { span: self.span@, it_message: self.it_message@ }
    }
}

/// The candidate that is recorded for `emission` in the file `file` with
/// the text of `source_map`.
pub open spec fn candidate_of(source_map: SourceMap, file: SourceFileView, emission: Emission)
    -> CandidateView {
    CandidateView {
        span: source_map.span_of(file, emission.span()),
        it_message: emission.message(),
    }
}

/// The bytes of `emission` are in order and at positions of the text.
pub open spec fn locatable(source_map: SourceMap, emission: Emission) -> bool {
    &&& emission.span().lo <= emission.span().hi
    &&& source_map.valid(emission.span().lo)
    &&& source_map.valid(emission.span().hi)
}

/// The state of one walk through one file.
pub struct Visitor<'a> {
    pub config: &'a Config,
    pub source_map: &'a SourceMap,
    pub source_file: SourceFile,
    /// Whether the walk is inside a test case.
    pub in_it_call_expr: bool,
    /// The message of the test case that the walk is inside of.
    pub it_message: Option<&'a String>,
    /// How many statements were counted as leaves.
    pub n_stmt_leaves_visited: usize,
    /// What was found.
    pub candidates: Vec<Candidate>,
    /// Whether a test case was met inside another.
    pub nested: bool,
    /// The test case that the walk is inside of.
    pub test: Ghost<Option<Expr>>,
}

impl<'a> Visitor<'a> {
    /// The flag and the message are those of the test case that the walk is
    /// inside of.
    pub open spec fn wf(self) -> bool {
        &&& self.in_it_call_expr == (self.test@ is Some)
        &&& self.test@ is None ==> self.it_message is None
        &&& self.test@ matches Some(t) ==> {
            &&& test_case(t) is Some
            &&& self.it_message matches Some(m) && m@ == test_case(t).unwrap().it_message
        }
    }

    /// The walk `walk` can be made from this state: the leaf count stays in
    /// range, and everything it reports can be located in the text.
    pub open spec fn ready(self, walk: Walk) -> bool {
        &&& self.n_stmt_leaves_visited + walk.leaves <= usize::MAX
        &&& forall|i: int|
            0 <= i < walk.emitted.len() ==> locatable(*self.source_map, #[trigger] walk.emitted[i])
    }

    /// `self` is the state `before` after the walk `walk`: the leaves are
    /// counted, a test case inside another is noted, and behind the
    /// candidates of `before` stand those of what `walk` reported, in order.
    pub open spec fn follows(self, before: Visitor, walk: Walk) -> bool {
        &&& self.config == before.config
        &&& self.source_map == before.source_map
        &&& self.source_file == before.source_file
        &&& self.in_it_call_expr == before.in_it_call_expr
        &&& self.it_message == before.it_message
        &&& self.test@ == before.test@
        &&& self.n_stmt_leaves_visited == before.n_stmt_leaves_visited + walk.leaves
        &&& self.nested == (before.nested || walk.nested)
        &&& self.candidates@.len() == before.candidates@.len() + walk.emitted.len()
        &&& forall|i: int|
            0 <= i < before.candidates@.len() ==> #[trigger] self.candidates@[i]
                == before.candidates@[i]
        &&& forall|i: int|
            0 <= i < walk.emitted.len() ==> {
                &&& (#[trigger] self.candidates@[before.candidates@.len() + i])@ == candidate_of(
                    *self.source_map,
                    self.source_file@,
                    walk.emitted[i],
                )
                &&& self.candidates@[before.candidates@.len() + i].span.ordered()
                &&& self.source_map@.len() > 0 ==> self.candidates@[before.candidates@.len()
                    + i].span.on_lines()
            }
    }

    /// A visitor at the start of the file `test_file` of the project at
    /// `root`.
    pub fn new(config: &'a Config, source_map: &'a SourceMap, root: String, test_file: String) -> (v:
        Visitor<'a>)
        ensures
            v.wf(),
            v.config == config,
            v.source_map == source_map,
            v.source_file@ == (SourceFileView { root: root@, path: test_file@ }),
            !v.in_it_call_expr,
            !v.nested,
            v.test@ is None,
            v.n_stmt_leaves_visited == 0,
            v.candidates@.len() == 0,
    {
        Visitor {
            config,
            source_map,
            source_file: SourceFile::new(root, test_file),
            in_it_call_expr: false,
            it_message: None,
            n_stmt_leaves_visited: 0,
            candidates: Vec::new(),
            nested: false,
            test: Ghost(None),
        }
    }

    /// Records `span` as a candidate of the test case that the walk is
    /// inside of.
    fn elevate_span(&mut self, span: Span, emission: Ghost<Emission>)
        requires
            old(self).wf(),
            old(self).in_it_call_expr,
            emission@.test() == old(self).test@.unwrap(),
            span@ == old(self).source_map.span_of(old(self).source_file@, emission@.span()),
            span.ordered(),
            old(self).source_map@.len() > 0 ==> span.on_lines(),
        ensures
            final(self).wf(),
            final(self).follows(*old(self), Walk::empty().with(emission@)),
    {
        match self.it_message {
            Some(m) => {
                self.candidates.push(Candidate { span, it_message: m.clone() });
            },
            None => unreached(),
        }
    }

    /// Walks the nodes of `nodes` from index `from` on.
    pub fn visit_nodes(&mut self, nodes: &'a Vec<Node>, from: usize)
        requires
            old(self).wf(),
            old(self).ready(walk_nodes(*old(self).config, nodes@, from as int, old(self).test@)),
        ensures
            final(self).wf(),
            final(self).follows(
                *old(self),
                walk_nodes(*old(self).config, nodes@, from as int, old(self).test@),
            ),
        decreases *nodes,
    {
        let ghost before = *self;
        let ghost total = walk_nodes(*self.config, nodes@, from as int, self.test@);
        let ghost mut done = Walk::empty();
        let mut i: usize = from;
        while i < nodes.len()
            invariant
                from <= i,
                self.wf(),
                before.wf(),
                before.ready(total),
                self.follows(before, done),
                done.followed_by(walk_nodes(*before.config, nodes@, i as int, before.test@))
                    == total,
            decreases nodes.len() - i,
        {
            let ghost prev = *self;
            let ghost rest = walk_nodes(*before.config, nodes@, i + 1, before.test@);
            let ghost here = match nodes@[i as int] {
                Node::Stmt(s) => walk_stmt(*before.config, s, before.test@),
                Node::Expr(e) => walk_expr(*before.config, e, before.test@),
            };
            proof {
                assert(walk_nodes(*before.config, nodes@, i as int, before.test@)
                    == here.followed_by(rest));
                assert forall|k: int| 0 <= k < here.emitted.len() implies locatable(
                    *self.source_map,
                    #[trigger] here.emitted[k],
                ) by {
                    assert(here.emitted[k] == total.emitted[done.emitted.len() + k]);
                }
            }
            match &nodes[i] {
                Node::Stmt(s) => self.visit_stmt(s),
                Node::Expr(e) => self.visit_expr(e),
            }
            proof {
                lemma_follows_twice(before, prev, *self, done, here);
                lemma_followed_by_assoc(done, here, rest);
                done = done.followed_by(here);
            }
            i = i + 1;
        }
        proof {
            assert(done.emitted + Seq::<Emission>::empty() =~= done.emitted);
        }
    }

    /// Walks the expression `expr`.
    pub fn visit_expr(&mut self, expr: &'a Expr)
        requires
            old(self).wf(),
            old(self).ready(walk_expr(*old(self).config, *expr, old(self).test@)),
        ensures
            final(self).wf(),
            final(self).follows(
                *old(self),
                walk_expr(*old(self).config, *expr, old(self).test@),
            ),
        decreases *expr,
    {
        let ghost before = *self;
        match is_it_call_expr(expr) {
            Some(test) => {
                // A test case inside another is an error in the source: it
                // is noted, and the walk goes on.
                if self.in_it_call_expr {
                    self.nested = true;
                }
                let outer_flag = self.in_it_call_expr;
                let outer_message = self.it_message;
                self.in_it_call_expr = true;
                self.it_message = Some(test.it_message);
                self.test = Ghost(Some(*expr));
                proof {
                    let inner = walk_nodes(*self.config, expr.children@, 0, Some(*expr));
                    let w = walk_expr(*self.config, *expr, before.test@);
                    assert(w.emitted == inner.emitted);
                    assert(w.leaves == inner.leaves);
                }
                self.visit_nodes(&expr.children, 0);
                self.in_it_call_expr = outer_flag;
                self.it_message = outer_message;
                self.test = Ghost(before.test@);
            },
            None => {
                let ghost inner = walk_nodes(*self.config, expr.children@, 0, self.test@);
                assert forall|k: int| 0 <= k < inner.emitted.len() implies locatable(
                    *self.source_map,
                    #[trigger] inner.emitted[k],
                ) by {
                    let w = walk_expr(*self.config, *expr, self.test@);
                    assert(inner.emitted[k] == w.emitted[k]);
                }
                self.visit_nodes(&expr.children, 0);
                if self.in_it_call_expr {
                    if let Some(mc) = is_method_call(expr) {
                        let (start, end) = expr.args_range();
                        if !is_ignored_method(&mc.path, end - start) {
                            let ghost emission = Emission::MethodSuffix {
                                call: *expr,
                                test: self.test@.unwrap(),
                            };
                            let ghost mid = *self;
                            proof {
                                let w = walk_expr(*self.config, *expr, self.test@);
                                assert(w == inner.with(emission));
                                assert(w.emitted[inner.emitted.len() as int] == emission);
                                assert(locatable(*self.source_map, emission));
                            }
                            let span = ByteSpan { lo: mc.obj.span.hi, hi: expr.span.hi };
                            let span = span.to_internal_span(self.source_map, &self.source_file);
                            self.elevate_span(span, Ghost(emission));
                            proof {
                                lemma_follows_twice(
                                    before,
                                    mid,
                                    *self,
                                    inner,
                                    Walk::empty().with(emission),
                                );
                                assert(inner.followed_by(Walk::empty().with(emission)).emitted
                                    =~= inner.with(emission).emitted);
                            }
                        }
                    }
                }
            },
        }
    }

    /// Walks the statement `stmt`.
    pub fn visit_stmt(&mut self, stmt: &'a Stmt)
        requires
            old(self).wf(),
            old(self).ready(walk_stmt(*old(self).config, *stmt, old(self).test@)),
        ensures
            final(self).wf(),
            final(self).follows(
                *old(self),
                walk_stmt(*old(self).config, *stmt, old(self).test@),
            ),
        decreases *stmt,
    {
        let ghost before = *self;
        // Of a call of an ignored function, only the arguments are walked:
        // in `assert.equal(..)`, `.equal(..)` is not to be removed.
        match is_ignored_function_call(self.config, stmt) {
            Some(fc) => {
                let (start, _end) = fc.call.args_range();
                proof {
                    lemma_ignored_function_call_decreases(*self.config, *stmt);
                }
                self.visit_nodes(&fc.call.children, start);
            },
            None => {
                let ghost inner = walk_nodes(*self.config, stmt.children@, 0, self.test@);
                let ghost w = walk_stmt(*self.config, *stmt, self.test@);
                assert forall|k: int| 0 <= k < inner.emitted.len() implies locatable(
                    *self.source_map,
                    #[trigger] inner.emitted[k],
                ) by {
                    assert(inner.emitted[k] == w.emitted[k]);
                }
                let n_before = self.n_stmt_leaves_visited;
                self.visit_nodes(&stmt.children, 0);
                let n_after = self.n_stmt_leaves_visited;
                // A statement is a leaf if and only if the walk of its
                // children counted none.
                if n_before != n_after {
                    return ;
                }
                self.n_stmt_leaves_visited = self.n_stmt_leaves_visited + 1;
                if self.in_it_call_expr && !stmt.is_control_or_declaration() {
                    let ghost emission = Emission::Statement {
                        stmt: *stmt,
                        test: self.test@.unwrap(),
                    };
                    let ghost mid = *self;
                    proof {
                        assert(w.emitted[inner.emitted.len() as int] == emission);
                        assert(locatable(*self.source_map, emission));
                    }
                    let span = stmt.span.to_internal_span(self.source_map, &self.source_file);
                    self.elevate_span(span, Ghost(emission));
                    proof {
                        let counted = Walk {
                            emitted: inner.emitted,
                            leaves: 1,
                            nested: inner.nested,
                        };
                        assert(mid.follows(before, counted));
                        lemma_follows_twice(
                            before,
                            mid,
                            *self,
                            counted,
                            Walk::empty().with(emission),
                        );
                        assert(counted.followed_by(Walk::empty().with(emission)).emitted
                            =~= w.emitted);
                    }
                }
            },
        }
    }
}

/// One walk after another is the walk of both.
pub proof fn lemma_follows_twice(
    first: Visitor,
    second: Visitor,
    third: Visitor,
    one: Walk,
    two: Walk,
)
    requires
        second.follows(first, one),
        third.follows(second, two),
    ensures
        third.follows(first, one.followed_by(two)),
{
    let both = one.followed_by(two);
    assert forall|i: int| 0 <= i < both.emitted.len() implies {
        &&& (#[trigger] third.candidates@[first.candidates@.len() + i])@ == candidate_of(
            *third.source_map,
            third.source_file@,
            both.emitted[i],
        )
        &&& third.candidates@[first.candidates@.len() + i].span.ordered()
        &&& third.source_map@.len() > 0 ==> third.candidates@[first.candidates@.len()
            + i].span.on_lines()
    } by {
        if i < one.emitted.len() {
            assert(third.candidates@[first.candidates@.len() + i]
                == second.candidates@[first.candidates@.len() + i]);
        } else {
            let j = i - one.emitted.len();
            assert(both.emitted[i] == two.emitted[j]);
            assert(first.candidates@.len() + i == second.candidates@.len() + j);
        }
    }
}

/// Walks can be joined in any grouping.
pub proof fn lemma_followed_by_assoc(a: Walk, b: Walk, c: Walk)
    ensures
        a.followed_by(b).followed_by(c) == a.followed_by(b.followed_by(c)),
{
    assert((a.emitted + b.emitted) + c.emitted =~= a.emitted + (b.emitted + c.emitted));
}

/// In a well-formed module that fits the text, everything reported can be
/// located in the text.
pub proof fn lemma_module_locatable(config: Config, source_map: SourceMap, module: Module)
    requires
        module.wf(),
        module.fits(source_map),
    ensures
        forall|k: int|
            0 <= k < walk_module(config, module).emitted.len() ==> locatable(
                source_map,
                #[trigger] walk_module(config, module).emitted[k],
            ),
{
    let w = walk_module(config, module);
    lemma_walk_nodes_found(config, module.children@, 0, None);
    assert forall|k: int| 0 <= k < w.emitted.len() implies locatable(
        source_map,
        #[trigger] w.emitted[k],
    ) by {
        let em = w.emitted[k];
        assert(found_among(em, module.children@, 0, None));
        let j = choose|j: int|
            0 <= j && 0 <= j < module.children@.len() && found_in(
                em,
                #[trigger] module.children@[j],
                None,
            );
        let child = module.children@[j];
        assert(child.wf());
        assert(fits(source_map, child));
        lemma_below_wf(em.origin(), child);
        lemma_below_fits(source_map, em.origin(), child);
        lemma_span_within_origin(em);
        match em {
            Emission::Statement { .. } => {},
            Emission::MethodSuffix { call, .. } => {
                let receiver = Node::Expr(method_call(call).unwrap().obj);
                lemma_receiver_below(call);
                lemma_below_fits(source_map, receiver, em.origin());
            },
        }
    }
}

/// `candidates` are the candidates of what `walk` reported, in order, each
/// with its start no later than its end, and with lines counted from 1
/// unless the text is empty.
pub open spec fn reported(
    candidates: Seq<Candidate>,
    source_map: SourceMap,
    file: SourceFileView,
    walk: Walk,
) -> bool {
    &&& candidates.len() == walk.emitted.len()
    &&& forall|i: int|
        0 <= i < candidates.len() ==> {
            &&& (#[trigger] candidates[i])@ == candidate_of(source_map, file, walk.emitted[i])
            &&& candidates[i].span.ordered()
            &&& source_map@.len() > 0 ==> candidates[i].span.on_lines()
        }
}

/// A walk from a state without candidates leaves the candidates of what it
/// reported.
proof fn lemma_follows_from_start(start: Visitor, end: Visitor, walk: Walk)
    requires
        end.follows(start, walk),
        start.candidates@.len() == 0,
    ensures
        reported(end.candidates@, *end.source_map, end.source_file@, walk),
{
    assert forall|i: int| 0 <= i < end.candidates@.len() implies {
        &&& (#[trigger] end.candidates@[i])@ == candidate_of(
            *end.source_map,
            end.source_file@,
            walk.emitted[i],
        )
        &&& end.candidates@[i].span.ordered()
        &&& end.source_map@.len() > 0 ==> end.candidates@[i].span.on_lines()
    } by {
        assert(end.candidates@[i] == end.candidates@[start.candidates@.len() + i]);
    }
}

/// Why a module is not analyzed.
#[derive(Debug)]
pub enum AnalysisError {
    /// A span is out of order, a statement covers no byte, a node reaches
    /// out of its parent, or two children of a node overlap.
    Malformed,
    /// An end of a span is no position of the text.
    OutOfSource,
    /// A test case stands inside another.
    NestedTestCase,
}

/// Walks `module`, the syntax tree of the file `test_file` of the project at
/// `root`, and returns the candidates found, in the order of the walk.
pub fn visit<'a>(
    config: &'a Config,
    source_map: &'a SourceMap,
    root: String,
    test_file: String,
    module: &'a Module,
) -> (candidates: Vec<Candidate>)
    requires
        module.wf(),
        module.fits(*source_map),
        !walk_module(*config, *module).nested,
    ensures
        reported(
            candidates@,
            *source_map,
            SourceFileView { root: root@, path: test_file@ },
            walk_module(*config, *module),
        ),
{
    let mut visitor = Visitor::new(config, source_map, root, test_file);
    proof {
        lemma_module_locatable(*config, *source_map, *module);
        lemma_leaves_module(*config, *module);
    }
    let ghost start = visitor;
    visitor.visit_nodes(&module.children, 0);
    proof {
        lemma_follows_from_start(start, visitor, walk_module(*config, *module));
    }
    visitor.candidates
}

/// Analyzes `module`, the syntax tree of the file `test_file` of the project
/// at `root`: checks the tree, walks it, and returns the candidates found,
/// in the order of the walk.
pub fn analyze<'a>(
    config: &'a Config,
    source_map: &'a SourceMap,
    root: String,
    test_file: String,
    module: &'a Module,
) -> (r: Result<Vec<Candidate>, AnalysisError>)
    ensures
        match r {
            Ok(candidates) => {
                &&& module.wf()
                &&& module.fits(*source_map)
                &&& !walk_module(*config, *module).nested
                &&& reported(
                    candidates@,
                    *source_map,
                    SourceFileView { root: root@, path: test_file@ },
                    walk_module(*config, *module),
                )
            },
            Err(AnalysisError::Malformed) => !module.wf(),
            Err(AnalysisError::OutOfSource) => module.wf() && !module.fits(*source_map),
            Err(AnalysisError::NestedTestCase) => module.wf() && module.fits(*source_map)
                && walk_module(*config, *module).nested,
        },
{
    if !module.check_wf() {
        return Err(AnalysisError::Malformed);
    }
    if !module.check_fits(source_map) {
        return Err(AnalysisError::OutOfSource);
    }
    let mut visitor = Visitor::new(config, source_map, root, test_file);
    proof {
        lemma_module_locatable(*config, *source_map, *module);
        lemma_leaves_module(*config, *module);
    }
    let ghost start = visitor;
    visitor.visit_nodes(&module.children, 0);
    proof {
        lemma_follows_from_start(start, visitor, walk_module(*config, *module));
    }
    if visitor.nested {
        return Err(AnalysisError::NestedTestCase);
    }
    Ok(visitor.candidates)
}

} // verus!
