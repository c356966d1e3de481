//! The expression tree that the parser builds. Every node owns its
//! children, so a tree has no cycles and nothing is shared.

use vstd::prelude::*;
use crate::token::{Token, TokenView, Value, ValueView};

verus! {

/// An expression.
#[derive(Debug, PartialEq)]
pub enum Expr {
    Binary(Box<Binary>),
    Grouping(Box<Grouping>),
    Literal(Box<Literal>),
    Unary(Box<Unary>),
    /// No expression: what is built where one was due and none stood.
    Empty,
}

/// Two operands and the operator between them.
#[derive(Debug, PartialEq)]
pub struct Binary {
    pub left: Expr,
    pub op: Token,
    pub right: Expr,
}

/// An expression in parentheses.
#[derive(Debug, PartialEq)]
pub struct Grouping {
    pub exp: Expr,
}

/// A literal value.
#[derive(Debug, PartialEq)]
pub struct Literal {
    pub value: Value,
}

/// An operator and the operand behind it.
#[derive(Debug, PartialEq)]
pub struct Unary {
    pub op: Token,
    pub right: Expr,
}

/// What an `Expr` stands for in contracts.
pub enum ExprView {
    Binary { left: Box<ExprView>, op: TokenView, right: Box<ExprView> },
    Grouping { exp: Box<ExprView> },
    Literal { value: ValueView },
    Unary { op: TokenView, right: Box<ExprView> },
    Empty,
}

/// The tree of views that mirrors `e` node for node.
pub open spec fn expr_view(e: Expr) -> ExprView
    decreases e,
{
    match e {
        Expr::Binary(b) => ExprView::Binary {
            left: Box::new(expr_view(b.left)),
            op: b.op@,
            right: Box::new(expr_view(b.right)),
        },
        Expr::Grouping(g) => ExprView::Grouping { exp: Box::new(expr_view(g.exp)) },
        Expr::Literal(l) => ExprView::Literal { value: l.value@ },
        Expr::Unary(u) => ExprView::Unary { op: u.op@, right: Box::new(expr_view(u.right)) },
        Expr::Empty => ExprView::Empty,
    }
}

impl View for Expr {
    type V = ExprView;

    open spec fn view(&self) -> ExprView {
        expr_view(*self)
    }
}

impl Clone for Expr {
    fn clone(&self) -> (r: Self)
        ensures
            r == *self,
        decreases *self,
    {
        match self {
            Expr::Binary(b) => Expr::Binary(
                Box::new(Binary { left: b.left.clone(), op: b.op.clone(), right: b.right.clone() }),
            ),
            Expr::Grouping(g) => Expr::Grouping(Box::new(Grouping { exp: g.exp.clone() })),
            Expr::Literal(l) => Expr::Literal(Box::new(Literal { value: l.value.clone() })),
            Expr::Unary(u) => Expr::Unary(
                Box::new(Unary { op: u.op.clone(), right: u.right.clone() }),
            ),
            Expr::Empty => Expr::Empty,
        }
    }
}

impl Clone for Binary {
    fn clone(&self) -> (r: Self)
        ensures
            r == *self,
    {
        Binary { left: self.left.clone(), op: self.op.clone(), right: self.right.clone() }
    }
}

impl Clone for Grouping {
    fn clone(&self) -> (r: Self)
        ensures
            r == *self,
    {
        Grouping { exp: self.exp.clone() }
    }
}

impl Clone for Literal {
    fn clone(&self) -> (r: Self)
        ensures
            r == *self,
    {
        Literal { value: self.value.clone() }
    }
}

impl Clone for Unary {
    fn clone(&self) -> (r: Self)
        ensures
            r == *self,
    {
        Unary { op: self.op.clone(), right: self.right.clone() }
    }
}

} // verus!
