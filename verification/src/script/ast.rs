//! Syntax tree of the duel language. It does not record whether a block was
//! written with `:` and indentation or with `{}`: both styles give the same
//! tree. Every statement carries its source line, which is what lets the
//! duel screen highlight the line being executed.

use vstd::prelude::*;

verus! {

#[derive(Debug, PartialEq)]
pub enum Expr {
    /// a number literal, as written
    Number(String),
    Str(String),
    Bool(bool),
    Ident(String),
    /// `base[key]`, e.g. `magia["fogo"]`
    Index(Box<Expr>, Box<Expr>),
    /// `base.field`, e.g. `inimigo.vida`
    Field(Box<Expr>, String),
    /// `name(args...)`, e.g. `atacar(magia["fogo"])`
    Call(String, Vec<Expr>),
    Unary(UnaryOp, Box<Expr>),
    Binary(Box<Expr>, BinOp, Box<Expr>),
    /// `selecionar(mochila, onde: predicate, limite: limit)`
    Select { predicate: Box<Expr>, limit: Box<Expr> },
}

#[derive(Debug, Clone, Copy, PartialEq, Eq, Structural)]
pub enum UnaryOp {
    Neg,
    Not,
}

#[derive(Debug, Clone, Copy, PartialEq, Eq, Structural)]
pub enum BinOp {
    Add,
    Sub,
    Mul,
    Div,
    Mod,
    Eq,
    NotEq,
    Lt,
    Gt,
    Le,
    Ge,
    And,
    Or,
}

#[derive(Debug, PartialEq)]
pub struct Stmt {
    pub line: usize,
    pub kind: StmtKind,
}

#[derive(Debug, PartialEq)]
pub enum StmtKind {
    Expr(Expr),
    Assign(String, Expr),
    If { cond: Expr, then_branch: Vec<Stmt>, else_branch: Option<Vec<Stmt>> },
    While { cond: Expr, body: Vec<Stmt> },
    For { var: String, from: Expr, to: Expr, body: Vec<Stmt> },
    /// `func name(): body`, only at the top level of a script
    FuncDef { name: String, body: Vec<Stmt> },
    /// `invocar name: body`, run on a budget of its own
    Invoke { name: String, body: Vec<Stmt> },
}

/// The syntax tree as the specification sees it: texts as character
/// sequences, lists as sequences.
pub enum SExpr {
    Number(Seq<char>),
    Str(Seq<char>),
    Bool(bool),
    Ident(Seq<char>),
    Index(Box<SExpr>, Box<SExpr>),
    Field(Box<SExpr>, Seq<char>),
    Call(Seq<char>, Seq<SExpr>),
    Unary(UnaryOp, Box<SExpr>),
    Binary(Box<SExpr>, BinOp, Box<SExpr>),
    Select(Box<SExpr>, Box<SExpr>),
}

pub struct SStmt {
    pub line: int,
    pub kind: SStmtKind,
}

pub enum SStmtKind {
    Expr(SExpr),
    Assign(Seq<char>, SExpr),
    If(SExpr, Seq<SStmt>, Option<Seq<SStmt>>),
    While(SExpr, Seq<SStmt>),
    For(Seq<char>, SExpr, SExpr, Seq<SStmt>),
    FuncDef(Seq<char>, Seq<SStmt>),
    Invoke(Seq<char>, Seq<SStmt>),
}

pub open spec fn expr_view(e: Expr) -> SExpr
    decreases e,
{
    match e {
        Expr::Number(s) => SExpr::Number(s@),
        Expr::Str(s) => SExpr::Str(s@),
        Expr::Bool(b) => SExpr::Bool(b),
        Expr::Ident(s) => SExpr::Ident(s@),
        Expr::Index(a, b) => SExpr::Index(Box::new(expr_view(*a)), Box::new(expr_view(*b))),
        Expr::Field(a, f) => SExpr::Field(Box::new(expr_view(*a)), f@),
        Expr::Call(n, args) => SExpr::Call(n@, exprs_view(args@)),
        Expr::Unary(op, a) => SExpr::Unary(op, Box::new(expr_view(*a))),
        Expr::Binary(a, op, b) => SExpr::Binary(Box::new(expr_view(*a)), op, Box::new(expr_view(*b))),
        Expr::Select { predicate, limit } => SExpr::Select(
            Box::new(expr_view(*predicate)),
            Box::new(expr_view(*limit)),
        ),
    }
}

pub open spec fn exprs_view(s: Seq<Expr>) -> Seq<SExpr>
    decreases s,
{
    if s.len() == 0 {
        Seq::empty()
    } else {
        exprs_view(s.drop_last()).push(expr_view(s.last()))
    }
}

pub open spec fn stmt_view(s: Stmt) -> SStmt
    decreases s,
{
    SStmt { line: s.line as int, kind: kind_view(s.kind) }
}

pub open spec fn kind_view(k: StmtKind) -> SStmtKind
    decreases k,
{
    match k {
        StmtKind::Expr(e) => SStmtKind::Expr(expr_view(e)),
        StmtKind::Assign(n, e) => SStmtKind::Assign(n@, expr_view(e)),
        StmtKind::If { cond, then_branch, else_branch } => SStmtKind::If(
            expr_view(cond),
            stmts_view(then_branch@),
            match else_branch {
                Some(b) => Some(stmts_view(b@)),
                None => None,
            },
        ),
        StmtKind::While { cond, body } => SStmtKind::While(expr_view(cond), stmts_view(body@)),
        StmtKind::For { var, from, to, body } => SStmtKind::For(
            var@,
            expr_view(from),
            expr_view(to),
            stmts_view(body@),
        ),
        StmtKind::FuncDef { name, body } => SStmtKind::FuncDef(name@, stmts_view(body@)),
        StmtKind::Invoke { name, body } => SStmtKind::Invoke(name@, stmts_view(body@)),
    }
}

pub open spec fn stmts_view(s: Seq<Stmt>) -> Seq<SStmt>
    decreases s,
{
    if s.len() == 0 {
        Seq::empty()
    } else {
        stmts_view(s.drop_last()).push(stmt_view(s.last()))
    }
}

} // verus!
