//! Recognizing test cases.
//!
//! A test case is a call `it("message", () => { ... })`: the callee is the
//! identifier `it`, there are exactly two arguments, the first is a string
//! literal and the second is an arrow function whose body is a block.
use crate::ast::{ArrowBody, Expr, ExprKind, Node, Stmt};
use crate::ignore::is_str;
use vstd::prelude::*;
use vstd::slice::slice_subrange;

verus! {

/// A test case: its message, and the statements of its body.
#[derive(Clone, Copy)]
pub struct Test<'a> {
    pub it_message: &'a String,
    pub stmts: &'a [Node],
}

/// What a `Test` stands for.
pub struct TestView {
    pub it_message: Seq<char>,
    pub stmts: Seq<Node>,
}

impl<'a> View for Test<'a> {
    type V = TestView;

    open spec fn view(&self) -> TestView {
        TestView { it_message: self.it_message@, stmts: self.stmts@ }
    }
}

/// The value of a string literal.
pub open spec fn string_literal(n: Node) -> Option<Seq<char>> {
    match n {
        Node::Expr(e) => match e.kind {
            ExprKind::Str { value } => Some(value@),
            _ => None,
        },
        Node::Stmt(_) => None,
    }
}

/// The statements of an arrow function whose body is a block.
pub open spec fn arrow_block(n: Node) -> Option<Seq<Node>> {
    match n {
        Node::Expr(e) => match e.kind {
            ExprKind::Arrow { body: ArrowBody::Block { start, len } } => if start + len
                <= e.children@.len() {
                Some(e.children@.subrange(start as int, start + len))
            } else {
                None
            },
            _ => None,
        },
        Node::Stmt(_) => None,
    }
}

/// The number of arguments that a call says it has.
pub open spec fn declared_args(e: Expr) -> int {
    match e.kind {
        ExprKind::Call { args, .. } => args as int,
        _ => 0,
    }
}

/// `e` as a test case.
pub open spec fn test_case(e: Expr) -> Option<TestView> {
    let args = e.spec_args();
    if e.spec_callee() is Some && e.spec_callee().unwrap().spec_ident() == Some("it"@)
        && declared_args(e) == 2 && args.len() == 2 && string_literal(args[0]) is Some
        && arrow_block(args[1]) is Some {
        Some(
            TestView {
                it_message: string_literal(args[0]).unwrap(),
                stmts: arrow_block(args[1]).unwrap(),
            },
        )
    } else {
        None
    }
}

/// The value of `n`, where it is a string literal.
fn as_string_literal<'a>(n: &'a Node) -> (r: Option<&'a String>)
    ensures
        r matches Some(value) ==> string_literal(*n) == Some(value@),
        r is None ==> string_literal(*n) is None,
{
    match n {
        Node::Expr(e) => match &e.kind {
            ExprKind::Str { value } => Some(value),
            _ => None,
        },
        Node::Stmt(_) => None,
    }
}

/// The statements of `n`, where it is an arrow function whose body is a
/// block.
fn as_arrow_block<'a>(n: &'a Node) -> (r: Option<&'a [Node]>)
    ensures
        r matches Some(stmts) ==> arrow_block(*n) == Some(stmts@),
        r is None ==> arrow_block(*n) is None,
{
    match n {
        Node::Expr(e) => match &e.kind {
            ExprKind::Arrow { body: ArrowBody::Block { start, len } } => {
                let total = e.children.len();
                if *start <= total && *len <= total - *start {
                    Some(slice_subrange(e.children.as_slice(), *start, *start + *len))
                } else {
                    None
                }
            },
            _ => None,
        },
        Node::Stmt(_) => None,
    }
}

/// Recognizes `expr` as a test case.
pub fn is_it_call_expr<'a>(expr: &'a Expr) -> (r: Option<Test<'a>>)
    ensures
        r matches Some(test) ==> test_case(*expr) == Some(test@),
        r is None ==> test_case(*expr) is None,
{
    let callee = match expr.callee() {
        Some(callee) => callee,
        None => {
            return None;
        },
    };
    match callee.ident() {
        Some(name) => {
            if !is_str(name, "it") {
                return None;
            }
        },
        None => {
            return None;
        },
    }
    match &expr.kind {
        ExprKind::Call { args, .. } => {
            if *args != 2 {
                return None;
            }
        },
        _ => {
            return None;
        },
    }
    let (start, end) = expr.args_range();
    if end - start != 2 {
        return None;
    }
    assert(expr.spec_args()[0] == expr.children@[start as int]);
    assert(expr.spec_args()[1] == expr.children@[start + 1]);
    let it_message = match as_string_literal(&expr.children[start]) {
        Some(value) => value,
        None => {
            return None;
        },
    };
    let stmts = match as_arrow_block(&expr.children[start + 1]) {
        Some(stmts) => stmts,
        None => {
            return None;
        },
    };
    Some(Test { it_message, stmts })
}

/// Recognizes the statement `stmt` as a test case: an expression statement
/// whose expression is one.
pub fn is_it_call_stmt<'a>(stmt: &'a Stmt) -> (r: Option<Test<'a>>)
    ensures
        r matches Some(test) ==> stmt.spec_expression() matches Some(e) && test_case(e) == Some(
            test@,
        ),
        r is None ==> !(stmt.spec_expression() matches Some(e) && test_case(e) is Some),
{
    match stmt.expression() {
        Some(expr) => is_it_call_expr(expr),
        None => None,
    }
}

impl<'a> Test<'a> {
    /// The test's name: its message.
    pub fn name(&self) -> (name: String)
        ensures
            name@ == self@.it_message,
    {
        self.it_message.clone()
    }
}

} // verus!
