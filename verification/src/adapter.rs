//! The node types of the framework, seen together with the text that they
//! were parsed from.
use crate::ast::{Expr, ExprKind, Module, Node, Stmt, StmtKind};
use crate::framework::HardhatTs;
use crate::source_map::SourceMap;
use crate::span::{ByteSpan, SourceFile, Span};
use crate::test_case::Test;
use vstd::pervasive::unreached;
use vstd::prelude::*;

verus! {

/// A node together with the text that it was parsed from.
pub struct SourceMapped<'ast, T> {
    pub source_map: &'ast SourceMap,
    pub node: &'ast T,
}

impl<'ast, T> Clone for SourceMapped<'ast, T> {
    fn clone(&self) -> (copy: Self)
        ensures
            copy == *self,
    {
        *self
    }
}

impl<'ast, T> Copy for SourceMapped<'ast, T> {

}

/// The node types that a framework names.
pub trait AbstractTypes {
    type File;

    type Test<'ast>;

    type Statement<'ast>;

    type Expression<'ast>;

    type Await<'ast>;

    type Field<'ast>;

    type Call<'ast>;
}

/// The node types of the Hardhat framework.
pub struct Types;

impl AbstractTypes for Types {
    type File = Module;

    type Test<'ast> = Test<'ast>;

    type Statement<'ast> = SourceMapped<'ast, Stmt>;

    type Expression<'ast> = SourceMapped<'ast, Expr>;

    type Await<'ast> = &'ast Expr;

    type Field<'ast> = SourceMapped<'ast, Expr>;

    type Call<'ast> = SourceMapped<'ast, Expr>;
}

/// The name of an expression: that of an identifier, the property of a
/// member access where it is an identifier, the callee of a call where it is
/// an identifier.
pub open spec fn expression_name(e: Expr) -> Option<Seq<char>> {
    match e.kind {
        ExprKind::Ident { sym } => Some(sym@),
        ExprKind::Member { .. } => e.spec_property(),
        ExprKind::Call { .. } => match e.spec_callee() {
            Some(callee) => callee.spec_ident(),
            None => None,
        },
        _ => None,
    }
}

/// The statements among `nodes`, in order.
pub open spec fn statements_of(nodes: Seq<Node>) -> Seq<Stmt>
    decreases nodes.len(),
{
    if nodes.len() == 0 {
        Seq::empty()
    } else {
        match nodes.last() {
            Node::Stmt(s) => statements_of(nodes.drop_last()).push(s),
            Node::Expr(_) => statements_of(nodes.drop_last()),
        }
    }
}

impl<'ast> SourceMapped<'ast, Stmt> {
    /// The statement's span in `source_file`.
    pub fn span(&self, source_file: &SourceFile) -> (span: Span)
        requires
            self.node.span.lo <= self.node.span.hi,
            self.source_map.valid(self.node.span.lo),
            self.source_map.valid(self.node.span.hi),
        ensures
            span@ == self.source_map.span_of(source_file@, self.node.span),
            span.ordered(),
            self.source_map@.len() > 0 ==> span.on_lines(),
    {
        self.node.span.to_internal_span(self.source_map, source_file)
    }
}

impl<'ast> SourceMapped<'ast, Expr> {
    /// The expression's name, if it has one.
    pub fn name(&self) -> (r: Option<String>)
        ensures
            r matches Some(name) ==> expression_name(*self.node) == Some(name@),
            r is None ==> expression_name(*self.node) is None,
    {
        match &self.node.kind {
            ExprKind::Ident { sym } => Some(sym.clone()),
            ExprKind::Member { .. } => match self.node.property() {
                Some(name) => Some(name.clone()),
                None => None,
            },
            ExprKind::Call { .. } => match self.node.callee() {
                Some(callee) => match callee.ident() {
                    Some(name) => Some(name.clone()),
                    None => None,
                },
                None => None,
            },
            _ => None,
        }
    }

    /// The expression's span in `source_file`.
    pub fn span(&self, source_file: &SourceFile) -> (span: Span)
        requires
            self.node.span.lo <= self.node.span.hi,
            self.source_map.valid(self.node.span.lo),
            self.source_map.valid(self.node.span.hi),
        ensures
            span@ == self.source_map.span_of(source_file@, self.node.span),
            span.ordered(),
            self.source_map@.len() > 0 ==> span.on_lines(),
    {
        self.node.span.to_internal_span(self.source_map, source_file)
    }

    /// The span of a member access without its object: from the end of the
    /// object to the end of the access.
    pub fn field_span(&self, source_file: &SourceFile) -> (span: Span)
        requires
            self.node.spec_object() is Some,
            self.node.spec_object().unwrap().span.hi <= self.node.span.hi,
            self.source_map.valid(self.node.spec_object().unwrap().span.hi),
            self.source_map.valid(self.node.span.hi),
        ensures
            span@ == self.source_map.span_of(
                source_file@,
                ByteSpan { lo: self.node.spec_object().unwrap().span.hi, hi: self.node.span.hi },
            ),
            span.ordered(),
            self.source_map@.len() > 0 ==> span.on_lines(),
    {
        match self.node.object() {
            Some(object) => {
                let span = ByteSpan { lo: object.span.hi, hi: self.node.span.hi };
                span.to_internal_span(self.source_map, source_file)
            },
            None => unreached(),
        }
    }
}

impl HardhatTs {
    /// The statements of a test case.
    pub fn test_statements<'ast>(&self, source_map: &'ast SourceMap, test: Test<'ast>) -> (r: Vec<
        SourceMapped<'ast, Stmt>,
    >)
        ensures
            r@.len() == statements_of(test.stmts@).len(),
            forall|i: int|
                0 <= i < r@.len() ==> *(#[trigger] r@[i]).node == statements_of(test.stmts@)[i]
                    && r@[i].source_map == source_map,
    {
        let mut found: Vec<SourceMapped<'ast, Stmt>> = Vec::new();
        let mut i: usize = 0;
        while i < test.stmts.len()
            invariant
                i <= test.stmts@.len(),
                found@.len() == statements_of(test.stmts@.take(i as int)).len(),
                forall|k: int|
                    0 <= k < found@.len() ==> *(#[trigger] found@[k]).node == statements_of(
                        test.stmts@.take(i as int),
                    )[k] && found@[k].source_map == source_map,
            decreases test.stmts@.len() - i,
        {
            proof {
                assert(test.stmts@.take(i + 1).drop_last() =~= test.stmts@.take(i as int));
            }
            match &test.stmts[i] {
                Node::Stmt(s) => {
                    found.push(SourceMapped { source_map, node: s });
                },
                Node::Expr(_) => {},
            }
            i = i + 1;
        }
        proof {
            assert(test.stmts@.take(test.stmts@.len() as int) =~= test.stmts@);
        }
        found
    }

    /// The expression of an expression statement.
    pub fn statement_is_expression<'ast>(&self, statement: SourceMapped<'ast, Stmt>) -> (r: Option<
        SourceMapped<'ast, Expr>,
    >)
        ensures
            r matches Some(e) ==> statement.node.spec_expression() == Some(*e.node)
                && e.source_map == statement.source_map,
            r is None ==> statement.node.spec_expression() is None,
    {
        match statement.node.expression() {
            Some(expr) => Some(SourceMapped { source_map: statement.source_map, node: expr }),
            None => None,
        }
    }

    /// Whether a statement is `break`, `continue` or `return`.
    pub fn statement_is_control<'ast>(&self, statement: SourceMapped<'ast, Stmt>) -> (r: bool)
        ensures
            r == (statement.node.kind == StmtKind::Break || statement.node.kind
                == StmtKind::Continue || statement.node.kind == StmtKind::Return),
    {
        statement.node.kind == StmtKind::Break || statement.node.kind == StmtKind::Continue
            || statement.node.kind == StmtKind::Return
    }

    /// Whether a statement is a declaration.
    pub fn statement_is_declaration<'ast>(&self, statement: SourceMapped<'ast, Stmt>) -> (r: bool)
        ensures
            r == (statement.node.kind == StmtKind::Decl),
    {
        statement.node.kind == StmtKind::Decl
    }

    /// An expression as an `await`.
    pub fn expression_is_await<'ast>(&self, expression: SourceMapped<'ast, Expr>) -> (r: Option<
        &'ast Expr,
    >)
        ensures
            r matches Some(e) ==> expression.node.kind is Await && e == expression.node,
            r is None ==> !(expression.node.kind is Await),
    {
        match &expression.node.kind {
            ExprKind::Await => Some(expression.node),
            _ => None,
        }
    }

    /// An expression as a member access.
    pub fn expression_is_field<'ast>(&self, expression: SourceMapped<'ast, Expr>) -> (r: Option<
        SourceMapped<'ast, Expr>,
    >)
        ensures
            r matches Some(e) ==> expression.node.kind is Member && e == expression,
            r is None ==> !(expression.node.kind is Member),
    {
        match &expression.node.kind {
            ExprKind::Member { .. } => Some(expression),
            _ => None,
        }
    }

    /// An expression as a call.
    pub fn expression_is_call<'ast>(&self, expression: SourceMapped<'ast, Expr>) -> (r: Option<
        SourceMapped<'ast, Expr>,
    >)
        ensures
            r matches Some(e) ==> expression.node.kind is Call && e == expression,
            r is None ==> !(expression.node.kind is Call),
    {
        match &expression.node.kind {
            ExprKind::Call { .. } => Some(expression),
            _ => None,
        }
    }

    /// The expression that an `await` waits for.
    pub fn await_arg<'ast>(&self, source_map: &'ast SourceMap, await_: &'ast Expr) -> (r: Option<
        SourceMapped<'ast, Expr>,
    >)
        ensures
            r matches Some(e) ==> await_.spec_awaited() == Some(*e.node) && e.source_map
                == source_map,
            r is None ==> await_.spec_awaited() is None,
    {
        match await_.awaited() {
            Some(arg) => Some(SourceMapped { source_map, node: arg }),
            None => None,
        }
    }

    /// The object of a member access.
    pub fn field_base<'ast>(&self, field: SourceMapped<'ast, Expr>) -> (r: Option<
        SourceMapped<'ast, Expr>,
    >)
        ensures
            r matches Some(e) ==> field.node.spec_object() == Some(*e.node) && e.source_map
                == field.source_map,
            r is None ==> field.node.spec_object() is None,
    {
        match field.node.object() {
            Some(object) => Some(SourceMapped { source_map: field.source_map, node: object }),
            None => None,
        }
    }

    /// The callee of a call, where it is an expression.
    pub fn call_callee<'ast>(&self, call: SourceMapped<'ast, Expr>) -> (r: Option<
        SourceMapped<'ast, Expr>,
    >)
        ensures
            r matches Some(e) ==> call.node.spec_callee() == Some(*e.node) && e.source_map
                == call.source_map,
            r is None ==> call.node.spec_callee() is None,
    {
        match call.node.callee() {
            Some(callee) => Some(SourceMapped { source_map: call.source_map, node: callee }),
            None => None,
        }
    }
}

} // verus!
