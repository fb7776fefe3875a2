//! Statements of the syntax tree.

use crate::expr::Expr;
use crate::list::List;
use crate::token::{Literal, Token};
use std::rc::Rc;
use vstd::prelude::*;

verus! {

/// A function as it is written: a named function or a method of a class.
#[derive(Debug)]
pub struct Declaration {
    pub name: Token,
    pub params: List<Token>,
    pub body: List<Stmt>,
}

#[derive(Debug)]
pub enum Stmt {
    Block(Rc<List<Stmt>>),
    Class { name: Token, superclass: Option<Expr>, methods: Rc<List<Rc<Declaration>>> },
    Expression(Expr),
    Function(Rc<Declaration>),
    If { condition: Expr, then_branch: Box<Stmt>, else_branch: Option<Box<Stmt>> },
    Print(Expr),
    Return { keyword: Token, value: Option<Expr> },
    Var { name: Token, initializer: Option<Expr> },
    While { condition: Expr, body: Box<Stmt> },
}

impl Default for Stmt {
    fn default() -> (r: Self)
        ensures
            r == Stmt::Expression(Expr::Literal { value: Literal::Nil }),
    {
        Stmt::Expression(Expr::default())
    }
}

} // verus!
