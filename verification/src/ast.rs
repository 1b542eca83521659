//! The syntax tree that the analysis walks.
//!
//! Only the node kinds that the analysis tells apart are modelled. Every
//! statement and every expression keeps, as its children, the statements and
//! expressions directly below it, in the order in which a walk of the full
//! tree meets them; nodes of other kinds (patterns, types, class members)
//! are passed over and their statements and expressions move up.
use crate::span::ByteSpan;
use vstd::prelude::*;

verus! {

/// What the callee of a call expression is.
#[derive(Clone, Copy, Debug, PartialEq, Eq, Structural)]
pub enum Callee {
    /// An expression; it is the first child of the call.
    Expr,
    /// The keyword `super`.
    Super,
    /// The keyword `import`.
    Import,
}

/// The property of a member access.
#[derive(Clone, Debug)]
pub enum MemberProp {
    /// A plain identifier, as in `a.b`.
    Ident(String),
    /// A private name, as in `a.#b`.
    PrivateName,
    /// A computed property, as in `a[b]`; the property's expression follows
    /// the object among the children.
    Computed,
}

/// The body of an arrow function.
#[derive(Clone, Copy, Debug, PartialEq, Eq, Structural)]
pub enum ArrowBody {
    /// A block; its statements are the `len` children from child `start` on.
    Block { start: usize, len: usize },
    /// A single expression, which is child `at`.
    Expr { at: usize },
}

/// The kinds of expression.
#[derive(Clone, Debug)]
pub enum ExprKind {
    /// A call. The children are the callee, if it is an expression, then
    /// `args` arguments, then what the type arguments hold.
    Call { callee: Callee, args: usize },
    /// A member access. The first child is the object.
    Member { prop: MemberProp },
    /// An identifier.
    Ident { sym: String },
    /// A string literal.
    Str { value: String },
    /// An arrow function. The children are what the parameters hold, then
    /// the body, then what the type annotations hold.
    Arrow { body: ArrowBody },
    /// An `await`. The first child is the awaited expression.
    Await,
    /// Any other expression.
    Other,
}

/// The kinds of statement.
#[derive(Clone, Copy, Debug, PartialEq, Eq, Structural)]
pub enum StmtKind {
    /// An expression statement. The first child is the expression.
    Expr,
    Break,
    Continue,
    Return,
    /// A declaration.
    Decl,
    /// Any other statement: a block, `if`, a loop, `try`, `throw`, ...
    Other,
}

#[derive(Debug)]
pub struct Expr {
    pub span: ByteSpan,
    pub kind: ExprKind,
    pub children: Vec<Node>,
}

#[derive(Debug)]
pub struct Stmt {
    pub span: ByteSpan,
    pub kind: StmtKind,
    pub children: Vec<Node>,
}

/// A statement or an expression.
#[derive(Debug)]
pub enum Node {
    Stmt(Stmt),
    Expr(Expr),
}

/// A parsed source file. Its children are the statements and expressions
/// directly below the module's items.
#[derive(Debug)]
pub struct Module {
    pub span: ByteSpan,
    pub children: Vec<Node>,
}

/// The children of a node lie within the node's span, no two of them
/// overlap, and each is well formed.
pub open spec fn children_wf(span: ByteSpan, children: Seq<Node>) -> bool
    decreases children,
{
    &&& forall|i: int| 0 <= i < children.len() ==> span.contains(#[trigger] children[i].span())
    &&& forall|i: int, j: int|
        #![trigger children[i], children[j]]
        0 <= i < j < children.len() ==> children[i].span().disjoint(children[j].span())
    &&& forall|i: int| 0 <= i < children.len() ==> (#[trigger] children[i]).wf()
}

impl Node {
    pub open spec fn span(self) -> ByteSpan {
        match self {
            Node::Stmt(s) => s.span,
            Node::Expr(e) => e.span,
        }
    }

    pub open spec fn children(self) -> Seq<Node> {
        match self {
            Node::Stmt(s) => s.children@,
            Node::Expr(e) => e.children@,
        }
    }

    /// The node and everything below it is well formed.
    pub open spec fn wf(self) -> bool
        decreases self,
    {
        match self {
            Node::Stmt(s) => s.wf(),
            Node::Expr(e) => e.wf(),
        }
    }

    /// The node's span.
    pub fn byte_span(&self) -> (span: ByteSpan)
        ensures
            span == self.span(),
    {
        match self {
            Node::Stmt(s) => s.span,
            Node::Expr(e) => e.span,
        }
    }

    /// Whether the node and everything below it is well formed.
    pub fn check_wf(&self) -> (ok: bool)
        ensures
            ok == self.wf(),
        decreases *self,
    {
        match self {
            Node::Stmt(s) => s.check_wf(),
            Node::Expr(e) => e.check_wf(),
        }
    }
}

/// Whether the children of a node with span `span` are well formed.
pub fn check_children_wf(span: ByteSpan, children: &Vec<Node>) -> (ok: bool)
    ensures
        ok == children_wf(span, children@),
    decreases *children,
{
    let n = children.len();
    let mut i: usize = 0;
    while i < n
        invariant
            i <= n,
            n == children.len(),
            forall|k: int| 0 <= k < i ==> span.contains(#[trigger] children[k].span()),
            forall|k: int, l: int|
                #![trigger children[k], children[l]]
                0 <= k < l < children.len() && k < i ==> children[k].span().disjoint(
                    children[l].span(),
                ),
            forall|k: int| 0 <= k < i ==> (#[trigger] children[k]).wf(),
        decreases n - i,
    {
        let here = children[i].byte_span();
        if !(span.lo <= here.lo && here.hi <= span.hi) {
            return false;
        }
        if !children[i].check_wf() {
            return false;
        }
        let mut j: usize = i + 1;
        while j < n
            invariant
                i < j <= n,
                n == children.len(),
                here == children[i as int].span(),
                forall|l: int|
                    i < l < j ==> children[i as int].span().disjoint(
                        (#[trigger] children[l]).span(),
                    ),
            decreases n - j,
        {
            let there = children[j].byte_span();
            if !(here.hi <= there.lo || there.hi <= here.lo) {
                return false;
            }
            j = j + 1;
        }
        i = i + 1;
    }
    true
}

impl Stmt {
    /// A statement covers at least one byte, and its children are well
    /// formed.
    pub open spec fn wf(self) -> bool
        decreases self,
    {
        self.span.lo < self.span.hi && children_wf(self.span, self.children@)
    }

    /// Whether the statement is well formed.
    pub fn check_wf(&self) -> (ok: bool)
        ensures
            ok == self.wf(),
        decreases *self,
    {
        self.span.lo < self.span.hi && check_children_wf(self.span, &self.children)
    }

    /// `break`, `continue`, `return` or a declaration.
    pub open spec fn spec_is_control_or_declaration(self) -> bool {
        self.kind == StmtKind::Break || self.kind == StmtKind::Continue || self.kind
            == StmtKind::Return || self.kind == StmtKind::Decl
    }

    /// The expression of an expression statement.
    pub open spec fn spec_expression(self) -> Option<Expr> {
        if self.kind == StmtKind::Expr && self.children@.len() > 0 && self.children@[0] is Expr {
            Some(self.children@[0]->Expr_0)
        } else {
            None
        }
    }

    /// The expression of an expression statement.
    pub fn expression(&self) -> (r: Option<&Expr>)
        ensures
            r matches Some(e) ==> self.spec_expression() == Some(*e),
            r is None ==> self.spec_expression() is None,
    {
        if self.kind == StmtKind::Expr && self.children.len() > 0 {
            match &self.children[0] {
                Node::Expr(e) => Some(e),
                Node::Stmt(_) => None,
            }
        } else {
            None
        }
    }

    /// Whether this is `break`, `continue`, `return` or a declaration.
    pub fn is_control_or_declaration(&self) -> (r: bool)
        ensures
            r == self.spec_is_control_or_declaration(),
    {
        self.kind == StmtKind::Break || self.kind == StmtKind::Continue || self.kind
            == StmtKind::Return || self.kind == StmtKind::Decl
    }
}

impl Expr {
    /// An expression's span is in order, and its children are well formed.
    pub open spec fn wf(self) -> bool
        decreases self,
    {
        self.span.lo <= self.span.hi && children_wf(self.span, self.children@)
    }

    /// Whether the expression is well formed.
    pub fn check_wf(&self) -> (ok: bool)
        ensures
            ok == self.wf(),
        decreases *self,
    {
        self.span.lo <= self.span.hi && check_children_wf(self.span, &self.children)
    }

    /// The callee of a call, where it is an expression.
    pub open spec fn spec_callee(self) -> Option<Expr> {
        if self.kind matches ExprKind::Call { callee: Callee::Expr, .. } && self.children@.len() > 0
            && self.children@[0] is Expr {
            Some(self.children@[0]->Expr_0)
        } else {
            None
        }
    }

    /// The index of the child that is a call's first argument.
    pub open spec fn spec_args_start(self) -> int {
        let first: int = if self.kind matches ExprKind::Call { callee: Callee::Expr, .. } {
            1
        } else {
            0
        };
        if first <= self.children@.len() {
            first
        } else {
            self.children@.len() as int
        }
    }

    /// The index of the child behind a call's last argument.
    pub open spec fn spec_args_end(self) -> int {
        match self.kind {
            ExprKind::Call { args, .. } => {
                if self.spec_args_start() + args <= self.children@.len() {
                    self.spec_args_start() + args
                } else {
                    self.children@.len() as int
                }
            },
            _ => self.spec_args_start(),
        }
    }

    /// The arguments of a call; none for other expressions.
    pub open spec fn spec_args(self) -> Seq<Node> {
        self.children@.subrange(self.spec_args_start(), self.spec_args_end())
    }

    /// What the type arguments of a call hold; nothing for other
    /// expressions.
    pub open spec fn spec_type_args(self) -> Seq<Node> {
        if self.kind is Call {
            self.children@.subrange(self.spec_args_end(), self.children@.len() as int)
        } else {
            Seq::empty()
        }
    }

    /// The object of a member access.
    pub open spec fn spec_object(self) -> Option<Expr> {
        if self.kind is Member && self.children@.len() > 0 && self.children@[0] is Expr {
            Some(self.children@[0]->Expr_0)
        } else {
            None
        }
    }

    /// The property of a member access, where it is a plain identifier.
    pub open spec fn spec_property(self) -> Option<Seq<char>> {
        match self.kind {
            ExprKind::Member { prop: MemberProp::Ident(name) } => Some(name@),
            _ => None,
        }
    }

    /// The expression that an `await` waits for.
    pub open spec fn spec_awaited(self) -> Option<Expr> {
        if self.kind is Await && self.children@.len() > 0 && self.children@[0] is Expr {
            Some(self.children@[0]->Expr_0)
        } else {
            None
        }
    }

    /// The name of an identifier.
    pub open spec fn spec_ident(self) -> Option<Seq<char>> {
        match self.kind {
            ExprKind::Ident { sym } => Some(sym@),
            _ => None,
        }
    }

    fn first_child_expr(&self) -> (r: Option<&Expr>)
        ensures
            r matches Some(e) ==> self.children@.len() > 0 && self.children@[0] == Node::Expr(*e),
            r is None ==> !(self.children@.len() > 0 && self.children@[0] is Expr),
    {
        if self.children.len() > 0 {
            match &self.children[0] {
                Node::Expr(e) => Some(e),
                Node::Stmt(_) => None,
            }
        } else {
            None
        }
    }

    /// The callee of a call, where it is an expression.
    pub fn callee(&self) -> (r: Option<&Expr>)
        ensures
            r matches Some(e) ==> self.spec_callee() == Some(*e),
            r is None ==> self.spec_callee() is None,
    {
        match &self.kind {
            ExprKind::Call { callee: Callee::Expr, .. } => self.first_child_expr(),
            _ => None,
        }
    }

    /// The indices of the children that are a call's arguments: the first,
    /// and the one behind the last.
    pub fn args_range(&self) -> (r: (usize, usize))
        ensures
            r.0 == self.spec_args_start(),
            r.1 == self.spec_args_end(),
            r.0 <= r.1 <= self.children@.len(),
    {
        let len = self.children.len();
        match &self.kind {
            ExprKind::Call { callee, args } => {
                let first: usize = match callee {
                    Callee::Expr => 1,
                    _ => 0,
                };
                let start = if first <= len {
                    first
                } else {
                    len
                };
                let end = if *args <= len - start {
                    start + *args
                } else {
                    len
                };
                (start, end)
            },
            _ => (0, 0),
        }
    }

    /// The object of a member access.
    pub fn object(&self) -> (r: Option<&Expr>)
        ensures
            r matches Some(e) ==> self.spec_object() == Some(*e),
            r is None ==> self.spec_object() is None,
    {
        match &self.kind {
            ExprKind::Member { .. } => self.first_child_expr(),
            _ => None,
        }
    }

    /// The property of a member access, where it is a plain identifier.
    pub fn property(&self) -> (r: Option<&String>)
        ensures
            r matches Some(name) ==> self.spec_property() == Some(name@),
            r is None ==> self.spec_property() is None,
    {
        match &self.kind {
            ExprKind::Member { prop: MemberProp::Ident(name) } => Some(name),
            _ => None,
        }
    }

    /// The expression that an `await` waits for.
    pub fn awaited(&self) -> (r: Option<&Expr>)
        ensures
            r matches Some(e) ==> self.spec_awaited() == Some(*e),
            r is None ==> self.spec_awaited() is None,
    {
        match &self.kind {
            ExprKind::Await => self.first_child_expr(),
            _ => None,
        }
    }

    /// The name of an identifier.
    pub fn ident(&self) -> (r: Option<&String>)
        ensures
            r matches Some(name) ==> self.spec_ident() == Some(name@),
            r is None ==> self.spec_ident() is None,
    {
        match &self.kind {
            ExprKind::Ident { sym } => Some(sym),
            _ => None,
        }
    }
}

impl Expr {
    /// The identifier `sym`.
    pub fn identifier(span: ByteSpan, sym: String) -> (e: Expr)
        ensures
            e.span == span,
            e.spec_ident() == Some(sym@),
            e.children@.len() == 0,
    {
        Expr { span, kind: ExprKind::Ident { sym }, children: Vec::new() }
    }

    /// The string literal with the value `value`.
    pub fn string(span: ByteSpan, value: String) -> (e: Expr)
        ensures
            e.span == span,
            e.kind matches ExprKind::Str { value: v } && v@ == value@,
            e.children@.len() == 0,
    {
        Expr { span, kind: ExprKind::Str { value }, children: Vec::new() }
    }

    /// The call of the expression `callee` with the arguments `args`;
    /// `type_args` is what the type arguments hold.
    pub fn call(span: ByteSpan, callee: Expr, args: Vec<Node>, type_args: Vec<Node>) -> (e: Expr)
        ensures
            e.span == span,
            e.kind == (ExprKind::Call { callee: Callee::Expr, args: args@.len() as usize }),
            e.children@ == seq![Node::Expr(callee)] + args@ + type_args@,
            e.spec_callee() == Some(callee),
            e.spec_args() == args@,
            e.spec_type_args() == type_args@,
    {
        let count = args.len();
        let mut args = args;
        let mut type_args = type_args;
        let mut children: Vec<Node> = Vec::new();
        children.push(Node::Expr(callee));
        children.append(&mut args);
        children.append(&mut type_args);
        let e = Expr { span, kind: ExprKind::Call { callee: Callee::Expr, args: count }, children };
        assert(e.spec_args() =~= e.children@.subrange(1, 1 + count));
        assert(e.children@.subrange(1, 1 + count) =~= e.spec_args());
        e
    }

    /// The call of `super` or `import` with the arguments `args`.
    pub fn keyword_call(span: ByteSpan, callee: Callee, args: Vec<Node>, type_args: Vec<Node>) -> (e:
        Expr)
        requires
            callee != Callee::Expr,
        ensures
            e.span == span,
            e.kind == (ExprKind::Call { callee, args: args@.len() as usize }),
            e.children@ == args@ + type_args@,
            e.spec_callee() is None,
            e.spec_args() == args@,
            e.spec_type_args() == type_args@,
    {
        let count = args.len();
        let mut children = args;
        let mut type_args = type_args;
        children.append(&mut type_args);
        let e = Expr { span, kind: ExprKind::Call { callee, args: count }, children };
        assert(e.spec_args() =~= e.children@.subrange(0, count as int));
        e
    }

    /// The member access `object.name`.
    pub fn member(span: ByteSpan, object: Expr, name: String) -> (e: Expr)
        ensures
            e.span == span,
            e.spec_object() == Some(object),
            e.spec_property() == Some(name@),
            e.children@ == seq![Node::Expr(object)],
    {
        let mut children: Vec<Node> = Vec::new();
        children.push(Node::Expr(object));
        Expr { span, kind: ExprKind::Member { prop: MemberProp::Ident(name) }, children }
    }

    /// The member access `object[property]`.
    pub fn computed_member(span: ByteSpan, object: Expr, property: Expr) -> (e: Expr)
        ensures
            e.span == span,
            e.kind matches ExprKind::Member { prop: MemberProp::Computed },
            e.spec_object() == Some(object),
            e.spec_property() is None,
            e.children@ == seq![Node::Expr(object), Node::Expr(property)],
    {
        let mut children: Vec<Node> = Vec::new();
        children.push(Node::Expr(object));
        children.push(Node::Expr(property));
        Expr { span, kind: ExprKind::Member { prop: MemberProp::Computed }, children }
    }

    /// The member access `object.#name`.
    pub fn private_member(span: ByteSpan, object: Expr) -> (e: Expr)
        ensures
            e.span == span,
            e.kind matches ExprKind::Member { prop: MemberProp::PrivateName },
            e.spec_object() == Some(object),
            e.spec_property() is None,
            e.children@ == seq![Node::Expr(object)],
    {
        let mut children: Vec<Node> = Vec::new();
        children.push(Node::Expr(object));
        Expr { span, kind: ExprKind::Member { prop: MemberProp::PrivateName }, children }
    }

    /// The arrow function whose body is the block of the statements
    /// `stmts`; `params` is what the parameters hold, `types` what the type
    /// annotations hold.
    pub fn arrow_block(span: ByteSpan, params: Vec<Node>, stmts: Vec<Node>, types: Vec<Node>) -> (e:
        Expr)
        ensures
            e.span == span,
            e.kind == (ExprKind::Arrow {
                body: ArrowBody::Block { start: params@.len() as usize, len: stmts@.len() as usize },
            }),
            e.children@ == params@ + stmts@ + types@,
    {
        let start = params.len();
        let len = stmts.len();
        let mut children = params;
        let mut stmts = stmts;
        let mut types = types;
        children.append(&mut stmts);
        children.append(&mut types);
        Expr { span, kind: ExprKind::Arrow { body: ArrowBody::Block { start, len } }, children }
    }

    /// The arrow function whose body is the expression `body`.
    pub fn arrow_expr(span: ByteSpan, params: Vec<Node>, body: Expr, types: Vec<Node>) -> (e: Expr)
        ensures
            e.span == span,
            e.kind == (ExprKind::Arrow { body: ArrowBody::Expr { at: params@.len() as usize } }),
            e.children@ == params@.push(Node::Expr(body)) + types@,
    {
        let at = params.len();
        let mut children = params;
        let mut types = types;
        children.push(Node::Expr(body));
        children.append(&mut types);
        Expr { span, kind: ExprKind::Arrow { body: ArrowBody::Expr { at } }, children }
    }

    /// The expression `await arg`.
    pub fn await_of(span: ByteSpan, arg: Expr) -> (e: Expr)
        ensures
            e.span == span,
            e.spec_awaited() == Some(arg),
            e.children@ == seq![Node::Expr(arg)],
    {
        let mut children: Vec<Node> = Vec::new();
        children.push(Node::Expr(arg));
        Expr { span, kind: ExprKind::Await, children }
    }

    /// An expression of another kind, with the statements and expressions
    /// directly below it.
    pub fn other(span: ByteSpan, children: Vec<Node>) -> (e: Expr)
        ensures
            e.span == span,
            e.kind is Other,
            e.children == children,
    {
        Expr { span, kind: ExprKind::Other, children }
    }
}

impl Stmt {
    /// The expression statement of `expr`.
    pub fn expr(span: ByteSpan, expr: Expr) -> (s: Stmt)
        ensures
            s.span == span,
            s.kind == StmtKind::Expr,
            s.spec_expression() == Some(expr),
            s.children@ == seq![Node::Expr(expr)],
    {
        let mut children: Vec<Node> = Vec::new();
        children.push(Node::Expr(expr));
        Stmt { span, kind: StmtKind::Expr, children }
    }

    /// A statement of the kind `kind`, with the statements and expressions
    /// directly below it.
    pub fn new(span: ByteSpan, kind: StmtKind, children: Vec<Node>) -> (s: Stmt)
        ensures
            s.span == span,
            s.kind == kind,
            s.children == children,
    {
        Stmt { span, kind, children }
    }
}

impl Module {
    /// A module with the statements and expressions directly below its
    /// items.
    pub fn new(span: ByteSpan, children: Vec<Node>) -> (m: Module)
        ensures
            m.span == span,
            m.children == children,
    {
        Module { span, children }
    }

    /// The module's span is in order, and its children are well formed.
    pub open spec fn wf(self) -> bool {
        self.span.lo <= self.span.hi && children_wf(self.span, self.children@)
    }

    /// Whether the module is well formed.
    pub fn check_wf(&self) -> (ok: bool)
        ensures
            ok == self.wf(),
    {
        self.span.lo <= self.span.hi && check_children_wf(self.span, &self.children)
    }
}

} // verus!
