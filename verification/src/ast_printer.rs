//! Expressions written out as text, with the operator before or behind
//! its operands.

use crate::expr::Expr;
use crate::semantics::literal_value;
use crate::text::{push_str, string_of};
use crate::token::Literal;
use crate::value::Value;
use vstd::prelude::*;

verus! {

/// The text of a literal.
pub open spec fn literal_text(literal: Literal) -> Seq<char> {
    literal_value(literal).text()
}

fn push_literal(out: &mut Vec<char>, literal: &Literal)
    ensures
        final(out)@ == old(out)@ + literal_text(*literal),
{
    let value = match literal {
        Literal::Nil => Value::Nil,
        Literal::Bool(b) => Value::Bool(*b),
        Literal::Number(n) => Value::Number(*n),
        Literal::String(s) => Value::String(s.clone()),
    };
    let text = value.display();
    push_str(out, text.as_str());
}

impl Expr {
    /// Whether the expression is made of operators, groups and literals alone.
    pub open spec fn printable(self) -> bool
        decreases self,
    {
        match self {
            Expr::Binary { left, operator, right } => left.printable() && right.printable(),
            Expr::Grouping { expression } => expression.printable(),
            Expr::Literal { value } => true,
            Expr::Unary { operator, right } => right.printable(),
            _ => false,
        }
    }

    /// The expression with every operator before its operands, in
    /// parentheses: `(+ 1 (* 2 3))`.
    pub open spec fn prefixed(self) -> Seq<char>
        decreases self,
    {
        match self {
            Expr::Binary { left, operator, right } => "("@ + operator.lexeme@ + " "@
                + left.prefixed() + " "@ + right.prefixed() + ")"@,
            Expr::Grouping { expression } => "(group "@ + expression.prefixed() + ")"@,
            Expr::Literal { value } => literal_text(value),
            Expr::Unary { operator, right } => "("@ + operator.lexeme@ + " "@ + right.prefixed()
                + ")"@,
            _ => Seq::empty(),
        }
    }

    /// The expression with every operator behind its operands: `1 2 3 * +`.
    pub open spec fn postfixed(self) -> Seq<char>
        decreases self,
    {
        match self {
            Expr::Binary { left, operator, right } => left.postfixed() + " "@ + right.postfixed()
                + " "@ + operator.lexeme@,
            Expr::Grouping { expression } => expression.postfixed(),
            Expr::Literal { value } => literal_text(value),
            Expr::Unary { operator, right } => right.postfixed() + " "@ + operator.lexeme@,
            _ => Seq::empty(),
        }
    }

    /// What the node itself says, without its operands: its operator, its
    /// name, or its value.
    pub open spec fn label(self) -> Seq<char> {
        match self {
            Expr::Assign { name, value, depth } => "assign "@ + name.lexeme@,
            Expr::Binary { left, operator, right } => operator.lexeme@,
            Expr::Call { callee, paren, arguments } => "call"@,
            Expr::Get { object, name } => "get "@ + name.lexeme@,
            Expr::Grouping { expression } => "grouping"@,
            Expr::Literal { value } => literal_text(value),
            Expr::Logical { left, operator, right } => operator.lexeme@,
            Expr::SetField { object, name, value } => "set "@ + name.lexeme@,
            Expr::Super { keyword, method, depth } => "super "@ + method.lexeme@,
            Expr::This { keyword, depth } => keyword.lexeme@,
            Expr::Unary { operator, right } => operator.lexeme@,
            Expr::Variable { name, depth } => name.lexeme@,
        }
    }

    /// The text of the node itself.
    pub fn describe(&self) -> (r: String)
        ensures
            r@ == self.label(),
    {
        let mut out: Vec<char> = Vec::new();
        match self {
            Expr::Assign { name, value, depth } => {
                push_str(&mut out, "assign ");
                push_str(&mut out, name.lexeme.as_str());
            },
            Expr::Binary { left, operator, right } => push_str(&mut out, operator.lexeme.as_str()),
            Expr::Call { callee, paren, arguments } => push_str(&mut out, "call"),
            Expr::Get { object, name } => {
                push_str(&mut out, "get ");
                push_str(&mut out, name.lexeme.as_str());
            },
            Expr::Grouping { expression } => push_str(&mut out, "grouping"),
            Expr::Literal { value } => push_literal(&mut out, value),
            Expr::Logical { left, operator, right } => push_str(&mut out, operator.lexeme.as_str()),
            Expr::SetField { object, name, value } => {
                push_str(&mut out, "set ");
                push_str(&mut out, name.lexeme.as_str());
            },
            Expr::Super { keyword, method, depth } => {
                push_str(&mut out, "super ");
                push_str(&mut out, method.lexeme.as_str());
            },
            Expr::This { keyword, depth } => push_str(&mut out, keyword.lexeme.as_str()),
            Expr::Unary { operator, right } => push_str(&mut out, operator.lexeme.as_str()),
            Expr::Variable { name, depth } => push_str(&mut out, name.lexeme.as_str()),
        }
        assert(out@ =~= self.label());
        string_of(&out)
    }

    fn push_prefixed(&self, out: &mut Vec<char>)
        requires
            self.printable(),
        ensures
            final(out)@ == old(out)@ + self.prefixed(),
        decreases self,
    {
        match self {
            Expr::Binary { left, operator, right } => {
                push_str(out, "(");
                push_str(out, operator.lexeme.as_str());
                push_str(out, " ");
                left.push_prefixed(out);
                push_str(out, " ");
                right.push_prefixed(out);
                push_str(out, ")");
                assert(out@ =~= old(out)@ + self.prefixed());
            },
            Expr::Grouping { expression } => {
                push_str(out, "(group ");
                expression.push_prefixed(out);
                push_str(out, ")");
                assert(out@ =~= old(out)@ + self.prefixed());
            },
            Expr::Literal { value } => {
                push_literal(out, value);
            },
            Expr::Unary { operator, right } => {
                push_str(out, "(");
                push_str(out, operator.lexeme.as_str());
                push_str(out, " ");
                right.push_prefixed(out);
                push_str(out, ")");
                assert(out@ =~= old(out)@ + self.prefixed());
            },
            _ => {},
        }
    }

    fn push_postfixed(&self, out: &mut Vec<char>)
        requires
            self.printable(),
        ensures
            final(out)@ == old(out)@ + self.postfixed(),
        decreases self,
    {
        match self {
            Expr::Binary { left, operator, right } => {
                left.push_postfixed(out);
                push_str(out, " ");
                right.push_postfixed(out);
                push_str(out, " ");
                push_str(out, operator.lexeme.as_str());
                assert(out@ =~= old(out)@ + self.postfixed());
            },
            Expr::Grouping { expression } => {
                expression.push_postfixed(out);
            },
            Expr::Literal { value } => {
                push_literal(out, value);
            },
            Expr::Unary { operator, right } => {
                right.push_postfixed(out);
                push_str(out, " ");
                push_str(out, operator.lexeme.as_str());
                assert(out@ =~= old(out)@ + self.postfixed());
            },
            _ => {},
        }
    }

    /// The expression as text, operators first.
    pub fn print(&self) -> (r: String)
        requires
            self.printable(),
        ensures
            r@ == self.prefixed(),
    {
        self.polish_notation()
    }

    /// The expression in Polish notation.
    pub fn polish_notation(&self) -> (r: String)
        requires
            self.printable(),
        ensures
            r@ == self.prefixed(),
    {
        let mut out: Vec<char> = Vec::new();
        self.push_prefixed(&mut out);
        assert(out@ =~= self.prefixed());
        string_of(&out)
    }

    /// The expression in reverse Polish notation.
    pub fn reverse_polish_notation(&self) -> (r: String)
        requires
            self.printable(),
        ensures
            r@ == self.postfixed(),
    {
        let mut out: Vec<char> = Vec::new();
        self.push_postfixed(&mut out);
        assert(out@ =~= self.postfixed());
        string_of(&out)
    }
}

} // verus!
