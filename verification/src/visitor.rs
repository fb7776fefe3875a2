//! Expressions as nodes that a visitor is handed: one method for each
//! kind of node.

use crate::token::Token;
use vstd::prelude::*;

verus! {

/// An expression, as one of its kinds of node.
#[derive(Debug)]
pub enum Node {
    Binary(Box<Binary>),
    Grouping(Box<Grouping>),
    Literal(Literal),
    Unary(Box<Unary>),
}

#[derive(Debug)]
pub struct Binary {
    pub left: Node,
    pub operator: Token,
    pub right: Node,
}

#[derive(Debug)]
pub struct Grouping {
    pub expression: Node,
}

#[derive(Debug)]
pub struct Literal {
    pub value: String,
}

#[derive(Debug)]
pub struct Unary {
    pub operator: Token,
    pub right: Node,
}

/// What is done with each kind of node. For each method a spec function
/// says what the method returns.
pub trait Visitor<R> {
    spec fn binary(&self, expr: &Binary) -> R;

    spec fn grouping(&self, expr: &Grouping) -> R;

    spec fn literal(&self, expr: &Literal) -> R;

    spec fn unary(&self, expr: &Unary) -> R;

    fn visit_binary_expr(&self, expr: &Binary) -> (r: R)
        ensures
            r == self.binary(expr),
    ;

    fn visit_grouping_expr(&self, expr: &Grouping) -> (r: R)
        ensures
            r == self.grouping(expr),
    ;

    fn visit_literal_expr(&self, expr: &Literal) -> (r: R)
        ensures
            r == self.literal(expr),
    ;

    fn visit_unary_expr(&self, expr: &Unary) -> (r: R)
        ensures
            r == self.unary(expr),
    ;
}

impl Binary {
    pub fn accept<R, V: Visitor<R>>(&self, visitor: &V) -> (r: R)
        ensures
            r == visitor.binary(self),
    {
        visitor.visit_binary_expr(self)
    }
}

impl Grouping {
    pub fn accept<R, V: Visitor<R>>(&self, visitor: &V) -> (r: R)
        ensures
            r == visitor.grouping(self),
    {
        visitor.visit_grouping_expr(self)
    }
}

impl Literal {
    pub fn accept<R, V: Visitor<R>>(&self, visitor: &V) -> (r: R)
        ensures
            r == visitor.literal(self),
    {
        visitor.visit_literal_expr(self)
    }
}

impl Unary {
    pub fn accept<R, V: Visitor<R>>(&self, visitor: &V) -> (r: R)
        ensures
            r == visitor.unary(self),
    {
        visitor.visit_unary_expr(self)
    }
}

impl Node {
    /// What the visitor makes of the node.
    pub open spec fn visited<R, V: Visitor<R>>(&self, visitor: &V) -> R {
        match self {
            Node::Binary(e) => visitor.binary(e),
            Node::Grouping(e) => visitor.grouping(e),
            Node::Literal(e) => visitor.literal(e),
            Node::Unary(e) => visitor.unary(e),
        }
    }

    pub fn accept<R, V: Visitor<R>>(&self, visitor: &V) -> (r: R)
        ensures
            r == self.visited(visitor),
    {
        match self {
            Node::Binary(e) => e.accept(visitor),
            Node::Grouping(e) => e.accept(visitor),
            Node::Literal(e) => e.accept(visitor),
            Node::Unary(e) => e.accept(visitor),
        }
    }
}

/// A visitor that tells how many operators a node itself applies: one for
/// a binary or a unary node, none for a group or a literal.
pub struct Operators;

impl Visitor<usize> for Operators {
    open spec fn binary(&self, expr: &Binary) -> usize {
        1
    }

    open spec fn grouping(&self, expr: &Grouping) -> usize {
        0
    }

    open spec fn literal(&self, expr: &Literal) -> usize {
        0
    }

    open spec fn unary(&self, expr: &Unary) -> usize {
        1
    }

    fn visit_binary_expr(&self, expr: &Binary) -> (r: usize) {
        1
    }

    fn visit_grouping_expr(&self, expr: &Grouping) -> (r: usize) {
        0
    }

    fn visit_literal_expr(&self, expr: &Literal) -> (r: usize) {
        0
    }

    fn visit_unary_expr(&self, expr: &Unary) -> (r: usize) {
        1
    }
}

} // verus!
