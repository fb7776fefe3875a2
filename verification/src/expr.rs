//! Expressions of the syntax tree.

use crate::list::List;
use crate::token::{Literal, Token};
use vstd::prelude::*;

verus! {

/// An expression. The nodes that name a variable also hold the number of
/// scopes between the use and the declaration, once the resolver has found
/// it; `None` stands for a global.
#[derive(Debug)]
#[allow(inconsistent_fields)]
pub enum Expr {
    Assign { name: Token, value: Box<Expr>, depth: Option<usize> },
    Binary { left: Box<Expr>, operator: Token, right: Box<Expr> },
    Call { callee: Box<Expr>, paren: Token, arguments: Box<List<Expr>> },
    Get { object: Box<Expr>, name: Token },
    Grouping { expression: Box<Expr> },
    Literal { value: Literal },
    Logical { left: Box<Expr>, operator: Token, right: Box<Expr> },
    SetField { object: Box<Expr>, name: Token, value: Box<Expr> },
    Super { keyword: Token, method: Token, depth: Option<usize> },
    This { keyword: Token, depth: Option<usize> },
    Unary { operator: Token, right: Box<Expr> },
    Variable { name: Token, depth: Option<usize> },
}

impl Expr {
    pub fn binary(left: Expr, operator: Token, right: Expr) -> (r: Self)
        ensures
            r == (Expr::Binary { left: Box::new(left), operator, right: Box::new(right) }),
    {
        Self::Binary { left: Box::new(left), operator, right: Box::new(right) }
    }

    pub fn logical(left: Expr, operator: Token, right: Expr) -> (r: Self)
        ensures
            r == (Expr::Logical { left: Box::new(left), operator, right: Box::new(right) }),
    {
        Self::Logical { left: Box::new(left), operator, right: Box::new(right) }
    }

    pub fn group(expr: Expr) -> (r: Self)
        ensures
            r == (Expr::Grouping { expression: Box::new(expr) }),
    {
        Self::Grouping { expression: Box::new(expr) }
    }

    pub fn literal(value: Literal) -> (r: Self)
        ensures
            r == (Expr::Literal { value }),
    {
        Self::Literal { value }
    }

    pub fn unary(operator: Token, right: Expr) -> (r: Self)
        ensures
            r == (Expr::Unary { operator, right: Box::new(right) }),
    {
        Self::Unary { operator, right: Box::new(right) }
    }
}

impl Default for Expr {
    fn default() -> (r: Self)
        ensures
            r == (Expr::Literal { value: Literal::Nil }),
    {
        Expr::Literal { value: Literal::Nil }
    }
}

} // verus!
