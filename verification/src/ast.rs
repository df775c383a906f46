//! The AST model: program, statement and expression nodes returned by the
//! parser. Pure data, fully owned by the `Program` that contains it.

use vstd::prelude::*;

verus! {

#[derive(Debug, Clone, Copy, PartialEq, Eq, Structural)]
pub enum BinOp {
    Add,
    Sub,
    Mul,
    Div,
}

#[derive(Debug, PartialEq)]
pub enum Expr {
    Int(i64),
    Var(String),
    Binary { op: BinOp, left: Box<Expr>, right: Box<Expr> },
}

#[derive(Debug, PartialEq)]
pub enum Stmt {
    Println(Expr),
    Declaration(String, Expr),
    Expr(Expr),
}

/// The root AST node: an ordered sequence of statements.
#[derive(Debug, PartialEq)]
pub struct Program {
    pub statements: Vec<Stmt>,
}

/// Mathematical value of an expression tree.
pub enum ExprV {
    Int(i64),
    Var(Seq<char>),
    Binary { op: BinOp, left: Box<ExprV>, right: Box<ExprV> },
}

/// Mathematical value of a statement.
pub enum StmtV {
    Println(ExprV),
    Declaration(Seq<char>, ExprV),
    Expr(ExprV),
}

pub open spec fn expr_view(e: Expr) -> ExprV
    decreases e,
{
    match e {
        Expr::Int(n) => ExprV::Int(n),
        Expr::Var(s) => ExprV::Var(s@),
        Expr::Binary { op, left, right } => ExprV::Binary {
            op,
            left: Box::new(expr_view(*left)),
            right: Box::new(expr_view(*right)),
        },
    }
}

impl View for Expr {
    type V = ExprV;

    open spec fn view(&self) -> ExprV {
        expr_view(*self)
    }
}

impl View for Stmt {
    type V = StmtV;

    open spec fn view(&self) -> StmtV {
        match self {
            Stmt::Println(e) => StmtV::Println(e@),
            Stmt::Declaration(name, e) => StmtV::Declaration(name@, e@),
            Stmt::Expr(e) => StmtV::Expr(e@),
        }
    }
}

pub open spec fn stmt_seq_view(s: Seq<Stmt>) -> Seq<StmtV> {
    s.map_values(|x: Stmt| x@)
}

impl View for Program {
    type V = Seq<StmtV>;

    open spec fn view(&self) -> Seq<StmtV> {
        stmt_seq_view(self.statements@)
    }
}

} // verus!
