//! The abstract syntax tree: expressions, statements, and the line spans
//! that tie each node back to the source text.

use vstd::prelude::*;

verus! {

/// A line range `(start, end)` bounding a syntactic construct, used for
/// diagnostics. Well-formed spans satisfy `start <= end`.
#[derive(Debug, Clone, Copy, PartialEq, Eq, Structural)]
pub struct Span {
    pub start: u32,
    pub end: u32,
}

impl Span {
    pub fn new(start: u32, end: u32) -> (s: Self)
        ensures
            s.start == start,
            s.end == end,
    {
        Self { start, end }
    }

    /// A span is well formed when its end line is at least its start line.
    pub open spec fn wf(self) -> bool {
        self.start <= self.end
    }
}

/// Unary operators.
#[derive(Debug, Clone, Copy, PartialEq, Eq, Structural)]
pub enum UnaryOpr {
    Not,
    Minus,
    Length,
    NoUnary,
}

/// Binary operators.
#[derive(Debug, Clone, Copy, PartialEq, Eq, Structural)]
pub enum BinaryOpr {
    Add,
    Sub,
    Mul,
    Div,
    IDiv,
    Mod,
    Pow,
    Concat,
    Eq,
    NE,
    LT,
    LE,
    GT,
    GE,
    And,
    Or,
    NoBinary,
}

/// Expressions. Identifier and string payloads are the source bytes; a
/// float literal carries its source text, to be converted by a consumer.
#[derive(Debug)]
pub enum Expr {
    Nil,
    Bool(bool),
    Integer(i64),
    Float(Vec<u8>),
    Str(Vec<u8>),
    Dots,
    Ident(Vec<u8>),
    UnaryOp(UnaryOpr, Box<ExprNode>),
    BinaryOp(BinaryOpr, Box<ExprNode>, Box<ExprNode>),
    FuncCall(Box<ExprNode>, Vec<ExprNode>),
    MethodCall(Box<ExprNode>, Vec<u8>, Vec<ExprNode>),
    AttrGet(Box<ExprNode>, Box<ExprNode>),
    Table(Vec<Field>),
    Function(ParList, Vec<StmtNode>),
}

/// A wrapper that stores the expression and its span.
#[derive(Debug)]
pub struct ExprNode {
    pub expr: Expr,
    pub span: Span,
}

impl Expr {
    /// Every span in the expression tree is well formed.
    pub open spec fn wf(self) -> bool
        decreases self,
    {
        match self {
            Expr::UnaryOp(_, e) => e.wf(),
            Expr::BinaryOp(_, l, r) => l.wf() && r.wf(),
            Expr::FuncCall(f, args) => f.wf() && forall|i: int|
                0 <= i < args@.len() ==> #[trigger] args@[i].wf(),
            Expr::MethodCall(obj, _, args) => obj.wf() && forall|i: int|
                0 <= i < args@.len() ==> #[trigger] args@[i].wf(),
            Expr::AttrGet(obj, key) => obj.wf() && key.wf(),
            Expr::Table(fields) => forall|i: int|
                0 <= i < fields@.len() ==> #[trigger] fields@[i].wf(),
            Expr::Function(pl, body) => pl.wf() && forall|i: int|
                0 <= i < body@.len() ==> #[trigger] body@[i].wf(),
            _ => true,
        }
    }
}

impl ExprNode {
    pub fn new(expr: Expr, span: (u32, u32)) -> (n: Self)
        ensures
            n.expr == expr,
            n.span == (Span { start: span.0, end: span.1 }),
    {
        Self { expr, span: Span::new(span.0, span.1) }
    }

    /// The node's own span and every span beneath it are well formed.
    pub open spec fn wf(self) -> bool
        decreases self,
    {
        self.span.wf() && self.expr.wf()
    }
}

/// A table-constructor entry: an optional key expression (absent means a
/// positional entry) and a mandatory value expression.
#[derive(Debug)]
pub struct Field {
    pub key: Option<ExprNode>,
    pub val: ExprNode,
}

impl Field {
    pub fn new(key: Option<ExprNode>, val: ExprNode) -> (f: Self)
        ensures
            f.key == key,
            f.val == val,
    {
        Self { key, val }
    }

    pub open spec fn wf(self) -> bool
        decreases self,
    {
        &&& match self.key {
            Some(k) => k.wf(),
            None => true,
        }
        &&& self.val.wf()
    }
}

/// Parameter list for functions: names in order, plus a variadic flag.
#[derive(Debug)]
pub struct ParList {
    pub names: Vec<Vec<u8>>,
    pub varargs: bool,
}

impl ParList {
    pub fn new() -> (p: Self)
        ensures
            p.names@.len() == 0,
            !p.varargs,
    {
        Self { names: Vec::new(), varargs: false }
    }

    pub fn set_names(&mut self, names: Vec<Vec<u8>>)
        ensures
            final(self).names == names,
            final(self).varargs == old(self).varargs,
    {
        self.names = names;
    }

    pub fn set_vargs(&mut self, varargs: bool)
        ensures
            final(self).names == old(self).names,
            final(self).varargs == varargs,
    {
        self.varargs = varargs;
    }

    /// No parameter name is the empty string; order and duplicates are
    /// not constrained at this layer.
    pub open spec fn wf(self) -> bool {
        forall|i: int| 0 <= i < self.names@.len() ==> (#[trigger] self.names@[i])@.len() > 0
    }
}

/// Statements.
#[derive(Debug)]
pub enum Stmt {
    Break,
    Return(Vec<ExprNode>),
    Assign(Vec<ExprNode>, Vec<ExprNode>),
    LocalAssign(Vec<Vec<u8>>, Vec<ExprNode>),
    FuncCall(ExprNode),
    MethodCall(ExprNode),
    DoBlock(Vec<StmtNode>),
    If(IfThenElse),
    While(ExprNode, Vec<StmtNode>),
    Repeat(ExprNode, Vec<StmtNode>),
    NumberFor(NumberFor),
    GenericFor(GenericFor),
    FuncDef(FuncDef),
    MethodDef(MethodDef),
}

/// A wrapper storing a statement and its span.
#[derive(Debug)]
pub struct StmtNode {
    pub stmt: Stmt,
    pub span: Span,
}

impl Stmt {
    /// Every span in the statement tree is well formed.
    pub open spec fn wf(self) -> bool
        decreases self,
    {
        match self {
            Stmt::Break => true,
            Stmt::Return(es) => forall|i: int|
                0 <= i < es@.len() ==> #[trigger] es@[i].wf(),
            Stmt::Assign(ts, vs) => {
                &&& forall|i: int| 0 <= i < ts@.len() ==> #[trigger] ts@[i].wf()
                &&& forall|i: int| 0 <= i < vs@.len() ==> #[trigger] vs@[i].wf()
            },
            Stmt::LocalAssign(_, vs) => forall|i: int|
                0 <= i < vs@.len() ==> #[trigger] vs@[i].wf(),
            Stmt::FuncCall(e) => e.wf(),
            Stmt::MethodCall(e) => e.wf(),
            Stmt::DoBlock(body) => forall|i: int|
                0 <= i < body@.len() ==> #[trigger] body@[i].wf(),
            Stmt::If(ite) => ite.wf(),
            Stmt::While(c, body) => c.wf() && forall|i: int|
                0 <= i < body@.len() ==> #[trigger] body@[i].wf(),
            Stmt::Repeat(c, body) => c.wf() && forall|i: int|
                0 <= i < body@.len() ==> #[trigger] body@[i].wf(),
            Stmt::NumberFor(nf) => nf.wf(),
            Stmt::GenericFor(gf) => gf.wf(),
            Stmt::FuncDef(fd) => fd.wf(),
            Stmt::MethodDef(md) => md.wf(),
        }
    }
}

impl StmtNode {
    pub fn new(stmt: Stmt, span: (u32, u32)) -> (n: Self)
        ensures
            n.stmt == stmt,
            n.span == (Span { start: span.0, end: span.1 }),
    {
        Self { stmt, span: Span::new(span.0, span.1) }
    }

    /// The node's own span and every span beneath it are well formed.
    pub open spec fn wf(self) -> bool
        decreases self,
    {
        self.span.wf() && self.stmt.wf()
    }
}

/// An `if` statement: condition, then-branch, else-branch. An empty else
/// sequence represents "no else"; an `elseif` chain nests a further `If`
/// as the sole statement of the else-branch.
#[derive(Debug)]
pub struct IfThenElse {
    pub cond: ExprNode,
    pub then_branch: Vec<StmtNode>,
    pub else_branch: Vec<StmtNode>,
}

impl IfThenElse {
    pub fn new(cond: ExprNode, then_branch: Vec<StmtNode>, else_branch: Vec<StmtNode>) -> (r: Self)
        ensures
            r.cond == cond,
            r.then_branch == then_branch,
            r.else_branch == else_branch,
    {
        Self { cond, then_branch, else_branch }
    }

    pub fn set_els(&mut self, els: Vec<StmtNode>)
        ensures
            final(self).cond == old(self).cond,
            final(self).then_branch == old(self).then_branch,
            final(self).else_branch == els,
    {
        self.else_branch = els;
    }

    pub open spec fn wf(self) -> bool
        decreases self,
    {
        &&& self.cond.wf()
        &&& forall|i: int| 0 <= i < self.then_branch@.len() ==> #[trigger] self.then_branch@[i].wf()
        &&& forall|i: int| 0 <= i < self.else_branch@.len() ==> #[trigger] self.else_branch@[i].wf()
    }
}

/// A numeric for-loop: `for var = init, limit, step do body end`. A missing
/// step defaults to the integer literal `1` at parse time.
#[derive(Debug)]
pub struct NumberFor {
    pub var: Vec<u8>,
    pub init: ExprNode,
    pub limit: ExprNode,
    pub step: ExprNode,
    pub body: Vec<StmtNode>,
}

impl NumberFor {
    pub fn new(var: Vec<u8>, init: ExprNode, limit: ExprNode, step: ExprNode, body: Vec<StmtNode>) -> (r: Self)
        ensures
            r.var == var,
            r.init == init,
            r.limit == limit,
            r.step == step,
            r.body == body,
    {
        Self { var, init, limit, step, body }
    }

    pub open spec fn wf(self) -> bool
        decreases self,
    {
        &&& self.init.wf()
        &&& self.limit.wf()
        &&& self.step.wf()
        &&& forall|i: int| 0 <= i < self.body@.len() ==> #[trigger] self.body@[i].wf()
    }
}

/// A generic for-loop: `for names in exprs do body end`.
#[derive(Debug)]
pub struct GenericFor {
    pub names: Vec<Vec<u8>>,
    pub exprs: Vec<ExprNode>,
    pub body: Vec<StmtNode>,
}

impl GenericFor {
    pub fn new(names: Vec<Vec<u8>>, exprs: Vec<ExprNode>, body: Vec<StmtNode>) -> (r: Self)
        ensures
            r.names == names,
            r.exprs == exprs,
            r.body == body,
    {
        Self { names, exprs, body }
    }

    pub open spec fn wf(self) -> bool
        decreases self,
    {
        &&& forall|i: int| 0 <= i < self.exprs@.len() ==> #[trigger] self.exprs@[i].wf()
        &&& forall|i: int| 0 <= i < self.body@.len() ==> #[trigger] self.body@[i].wf()
    }
}

/// A function definition statement: `function name(...) body end`.
#[derive(Debug)]
pub struct FuncDef {
    pub name: ExprNode,
    pub body: ExprNode,
}

impl FuncDef {
    pub fn new(name: ExprNode, body: ExprNode) -> (r: Self)
        ensures
            r.name == name,
            r.body == body,
    {
        Self { name, body }
    }

    pub open spec fn wf(self) -> bool
        decreases self,
    {
        self.name.wf() && self.body.wf()
    }
}

/// A method definition statement: `function obj:method(...) body end`. The
/// parser injects the implicit `self` receiver into the parameter list.
#[derive(Debug)]
pub struct MethodDef {
    pub obj: ExprNode,
    pub method: Vec<u8>,
    pub body: ExprNode,
}

impl MethodDef {
    pub fn new(obj: ExprNode, method: Vec<u8>, body: ExprNode) -> (r: Self)
        ensures
            r.obj == obj,
            r.method == method,
            r.body == body,
    {
        Self { obj, method, body }
    }

    pub open spec fn wf(self) -> bool
        decreases self,
    {
        self.obj.wf() && self.body.wf()
    }
}

} // verus!
