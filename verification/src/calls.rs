//! Taking call expressions apart.
//!
//! A call `receiver.p1.p2(args)` is a method call with path `p1.p2`; a call
//! `a.b.c(args)` whose chain starts at an identifier is a function call with
//! path `a.b.c`.
use crate::ast::Expr;
use vstd::prelude::*;

verus! {

/// The expression at the inner end of the member accesses with identifier
/// properties that start at `e`: for `x().a.b` it is `x()`.
pub open spec fn chain_base(e: Expr) -> Expr
    decreases e,
{
    if e.spec_property() is Some && e.spec_object() is Some {
        chain_base(e.spec_object().unwrap())
    } else {
        e
    }
}

/// The identifiers of the member accesses that start at `e`, in source
/// order: for `x().a.b` they are `a`, `b`.
pub open spec fn chain_path(e: Expr) -> Seq<Seq<char>>
    decreases e,
{
    if e.spec_property() is Some && e.spec_object() is Some {
        chain_path(e.spec_object().unwrap()).push(e.spec_property().unwrap())
    } else {
        Seq::empty()
    }
}

/// What `names` are as sequences of characters.
pub open spec fn names(path: Seq<&String>) -> Seq<Seq<char>> {
    Seq::new(path.len(), |i: int| path[i]@)
}

/// What `names` are as sequences of characters, last name first.
pub open spec fn names_reversed(path: Seq<&String>) -> Seq<Seq<char>> {
    Seq::new(path.len(), |i: int| path[path.len() - 1 - i]@)
}

/// A method call: `obj.path(args)`.
pub struct MethodCall<'a> {
    /// The whole call.
    pub call: &'a Expr,
    /// The receiver.
    pub obj: &'a Expr,
    /// The identifiers between the receiver and the arguments.
    pub path: Vec<&'a String>,
}

/// A function call: `path(args)`.
pub struct FunctionCall<'a> {
    /// The whole call.
    pub call: &'a Expr,
    /// The identifiers before the arguments.
    pub path: Vec<&'a String>,
}

/// What a `MethodCall` stands for.
pub struct MethodCallView {
    pub call: Expr,
    pub obj: Expr,
    pub path: Seq<Seq<char>>,
}

/// What a `FunctionCall` stands for.
pub struct FunctionCallView {
    pub call: Expr,
    pub path: Seq<Seq<char>>,
}

impl<'a> View for MethodCall<'a> {
    type V = MethodCallView;

    open spec fn view(&self) -> MethodCallView {
        MethodCallView { call: *self.call, obj: *self.obj, path: names(self.path@) }
    }
}

impl<'a> View for FunctionCall<'a> {
    type V = FunctionCallView;

    open spec fn view(&self) -> FunctionCallView {
        FunctionCallView { call: *self.call, path: names(self.path@) }
    }
}

/// `e` as a method call: a call whose callee is an expression that ends in
/// at least one member access with an identifier property.
pub open spec fn method_call(e: Expr) -> Option<MethodCallView> {
    match e.spec_callee() {
        Some(callee) => if chain_path(callee).len() > 0 {
            Some(MethodCallView { call: e, obj: chain_base(callee), path: chain_path(callee) })
        } else {
            None
        },
        None => None,
    }
}

/// `e` as a function call: a call whose callee is an identifier followed by
/// member accesses with identifier properties.
pub open spec fn function_call(e: Expr) -> Option<FunctionCallView> {
    match e.spec_callee() {
        Some(callee) => match chain_base(callee).spec_ident() {
            Some(name) => Some(
                FunctionCallView { call: e, path: seq![name] + chain_path(callee) },
            ),
            None => None,
        },
        None => None,
    }
}

/// `e` without the `await`s and member accesses around it: for
/// `(await f()).a` it is `f()`.
pub open spec fn trimmed(e: Expr) -> Expr
    decreases e,
{
    if e.spec_awaited() is Some {
        trimmed(e.spec_awaited().unwrap())
    } else if e.spec_object() is Some {
        trimmed(e.spec_object().unwrap())
    } else {
        e
    }
}

/// Follows the member accesses with identifier properties from `callee`
/// inwards. Returns the expression at the inner end, and the identifiers met,
/// last one first.
fn walk_chain<'a>(callee: &'a Expr) -> (r: (&'a Expr, Vec<&'a String>))
    ensures
        *r.0 == chain_base(*callee),
        names_reversed(r.1@) == chain_path(*callee),
{
    let mut cur: &Expr = callee;
    let mut path_reversed: Vec<&String> = Vec::new();
    loop
        invariant
            chain_base(*callee) == chain_base(*cur),
            chain_path(*callee) == chain_path(*cur) + names_reversed(path_reversed@),
        ensures
            *cur == chain_base(*callee),
            names_reversed(path_reversed@) == chain_path(*callee),
        decreases *cur,
    {
        let property = cur.property();
        let object = cur.object();
        match (property, object) {
            (Some(name), Some(obj)) => {
                proof {
                    let before = path_reversed@;
                    let after = before.push(name);
                    assert(names_reversed(after) =~= seq![name@] + names_reversed(before));
                    assert(chain_path(*cur) + names_reversed(before) =~= chain_path(*obj)
                        + names_reversed(after));
                }
                path_reversed.push(name);
                cur = obj;
            },
            _ => {
                assert(chain_path(*cur) + names_reversed(path_reversed@) =~= names_reversed(
                    path_reversed@,
                ));
                break ;
            },
        }
    }
    (cur, path_reversed)
}

/// The names of `reversed`, first one last.
fn reverse<'a>(reversed: &Vec<&'a String>) -> (path: Vec<&'a String>)
    ensures
        names(path@) == names_reversed(reversed@),
{
    let n = reversed.len();
    let mut path: Vec<&String> = Vec::new();
    let mut i: usize = 0;
    while i < n
        invariant
            i <= n,
            n == reversed.len(),
            path.len() == i,
            forall|k: int| 0 <= k < i ==> path[k] == reversed[n - 1 - k],
        decreases n - i,
    {
        path.push(reversed[n - 1 - i]);
        i = i + 1;
    }
    assert(names(path@) =~= names_reversed(reversed@));
    path
}

/// Takes `expr` apart as a method call, if it is one.
pub fn is_method_call<'a>(expr: &'a Expr) -> (r: Option<MethodCall<'a>>)
    ensures
        r matches Some(mc) ==> method_call(*expr) == Some(mc@),
        r is None ==> method_call(*expr) is None,
{
    match expr.callee() {
        Some(callee) => {
            let (obj, path_reversed) = walk_chain(callee);
            if path_reversed.len() == 0 {
                None
            } else {
                let path = reverse(&path_reversed);
                Some(MethodCall { call: expr, obj, path })
            }
        },
        None => None,
    }
}

/// Takes `expr` apart as a function call, if it is one.
pub fn is_function_call<'a>(expr: &'a Expr) -> (r: Option<FunctionCall<'a>>)
    ensures
        r matches Some(fc) ==> function_call(*expr) == Some(fc@),
        r is None ==> function_call(*expr) is None,
{
    match expr.callee() {
        Some(callee) => {
            let (base, mut path_reversed) = walk_chain(callee);
            match base.ident() {
                Some(name) => {
                    proof {
                        assert(names_reversed(path_reversed@.push(name)) =~= seq![name@]
                            + names_reversed(path_reversed@));
                    }
                    path_reversed.push(name);
                    let path = reverse(&path_reversed);
                    Some(FunctionCall { call: expr, path })
                },
                None => None,
            }
        },
        None => None,
    }
}

/// Strips the `await`s and member accesses around `expr`.
pub fn trim_expr<'a>(expr: &'a Expr) -> (r: &'a Expr)
    ensures
        *r == trimmed(*expr),
{
    let mut cur: &Expr = expr;
    loop
        invariant
            trimmed(*expr) == trimmed(*cur),
        ensures
            *cur == trimmed(*expr),
        decreases *cur,
    {
        match cur.awaited() {
            Some(arg) => {
                cur = arg;
            },
            None => match cur.object() {
                Some(obj) => {
                    cur = obj;
                },
                None => {
                    break ;
                },
            },
        }
    }
    cur
}

} // verus!
