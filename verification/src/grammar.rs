//! The grammar: what the parser makes of a token sequence, as functions
//! from the tokens and a position to a result and the position reached.
//!
//! ```text
//! program     := declaration* EoF
//! declaration := classDecl | funDecl | varDecl | statement
//! classDecl   := "class" IDENT ("<" IDENT)? "{" function* "}"
//! funDecl     := "fun" function
//! function    := IDENT "(" params? ")" block
//! varDecl     := "var" IDENT ("=" expression)? ";"
//! statement   := exprStmt | ifStmt | whileStmt | forStmt | printStmt
//!              | returnStmt | block
//! block       := "{" declaration* "}"
//! expression  := assignment
//! assignment  := (call ".")? IDENT "=" assignment | logic_or
//! logic_or    := logic_and ("or" logic_and)*
//! logic_and   := equality ("and" equality)*
//! equality    := comparison (("!="|"==") comparison)*
//! comparison  := term ((">"|">="|"<"|"<=") term)*
//! term        := factor (("-"|"+") factor)*
//! factor      := unary (("/"|"*") unary)*
//! unary       := ("!"|"-") unary | call
//! call        := primary ( "(" args? ")" | "." IDENT )*
//! primary     := NUMBER | STRING | "true" | "false" | "nil" | "this"
//!              | IDENT | "(" expression ")" | "super" "." IDENT
//! ```

use crate::error::{Expected, ParserError};
use crate::expr::Expr;
use crate::list::List;
use crate::stmt::{Declaration, Stmt};
use crate::token::{Literal, Token, TokenType};
use std::rc::Rc;
use vstd::prelude::*;

verus! {

/// The most arguments of a call and parameters of a function.
pub const LIMIT: usize = 255;

/// What a rule made of the tokens from a position on: its result, and the
/// position of the first token that it left.
pub struct Parsed<T> {
    pub result: Result<T, ParserError>,
    pub pos: int,
}

/// A token sequence that the parser takes: its last token ends the input.
pub open spec fn terminated(ts: Seq<Token>) -> bool {
    ts.len() > 0 && ts.last().ty == TokenType::EoF
}

/// The kind of the token at `pos`; past the tokens, the end of input.
pub open spec fn kind_at(ts: Seq<Token>, pos: int) -> TokenType {
    if 0 <= pos < ts.len() {
        ts[pos].ty
    } else {
        TokenType::EoF
    }
}

/// The token at `pos`; past the tokens, the last one.
pub open spec fn token_at(ts: Seq<Token>, pos: int) -> Token {
    if 0 <= pos < ts.len() {
        ts[pos]
    } else {
        ts.last()
    }
}

pub open spec fn at_end(ts: Seq<Token>, pos: int) -> bool {
    kind_at(ts, pos) == TokenType::EoF
}

/// How many tokens stand at `pos` and after it.
pub open spec fn remaining(ts: Seq<Token>, pos: int) -> nat {
    if 0 <= pos < ts.len() {
        (ts.len() - pos) as nat
    } else {
        0
    }
}

/// The position `next`, which lies past `pos`: every rule that succeeds
/// has taken a token. (Were it not so, the position after `pos`.)
pub open spec fn past(pos: int, next: int) -> int {
    if next > pos {
        next
    } else {
        pos + 1
    }
}

/// At the end of the input there is no expression.
pub open spec fn nothing_to_read<T>(ts: Seq<Token>, pos: int) -> Parsed<T> {
    failed(ParserError::ExpectingExpression(token_at(ts, pos)), pos)
}

/// Lists read so far, last item first, in front of what the rest of the
/// rule reads.
pub open spec fn joined<T>(read: List<T>, rest: Parsed<List<T>>) -> Parsed<List<T>> {
    match rest.result {
        Ok(more) => done(read.turned(more), rest.pos),
        Err(error) => failed(error, rest.pos),
    }
}

pub open spec fn failed<T>(error: ParserError, pos: int) -> Parsed<T> {
    Parsed { result: Err(error), pos }
}

pub open spec fn done<T>(value: T, pos: int) -> Parsed<T> {
    Parsed { result: Ok(value), pos }
}

/// The token at `pos` if it is of kind `ty`, else an error.
pub open spec fn consume(ts: Seq<Token>, pos: int, ty: TokenType, expected: Expected) -> Parsed<
    Token,
> {
    if !at_end(ts, pos) && kind_at(ts, pos) == ty {
        done(ts[pos], pos + 1)
    } else {
        failed(ParserError::Consume { found: token_at(ts, pos), expected }, pos)
    }
}

/// The levels of left-associative binary operators, loosest first.
#[derive(Debug, Clone, Copy, PartialEq, Eq, Structural)]
pub enum Level {
    Or,
    And,
    Equality,
    Comparison,
    Term,
    Factor,
}

impl Level {
    /// Whether a token of kind `ty` is an operator of the level.
    pub open spec fn has(self, ty: TokenType) -> bool {
        match self {
            Level::Or => ty == TokenType::Or,
            Level::And => ty == TokenType::And,
            Level::Equality => ty == TokenType::BangEqual || ty == TokenType::EqualEqual,
            Level::Comparison => ty == TokenType::Greater || ty == TokenType::GreaterEqual || ty
                == TokenType::Less || ty == TokenType::LessEqual,
            Level::Term => ty == TokenType::Minus || ty == TokenType::Plus,
            Level::Factor => ty == TokenType::Slash || ty == TokenType::Star,
        }
    }

    /// The next tighter level; after the tightest come the unary operators.
    pub open spec fn tighter(self) -> Option<Level> {
        match self {
            Level::Or => Some(Level::And),
            Level::And => Some(Level::Equality),
            Level::Equality => Some(Level::Comparison),
            Level::Comparison => Some(Level::Term),
            Level::Term => Some(Level::Factor),
            Level::Factor => None,
        }
    }

    pub open spec fn rank(self) -> nat {
        match self {
            Level::Or => 16,
            Level::And => 15,
            Level::Equality => 14,
            Level::Comparison => 13,
            Level::Term => 12,
            Level::Factor => 11,
        }
    }

    /// The expression for two operands joined by an operator of the level.
    pub open spec fn join(self, left: Expr, operator: Token, right: Expr) -> Expr {
        match self {
            Level::Or | Level::And => Expr::Logical {
                left: Box::new(left),
                operator,
                right: Box::new(right),
            },
            _ => Expr::Binary { left: Box::new(left), operator, right: Box::new(right) },
        }
    }
}

/// The literal that a number or string token writes.
pub open spec fn literal_of(token: Token) -> Literal {
    match token.literal {
        Some(l) => l,
        None => Literal::Nil,
    }
}

pub open spec fn primary(ts: Seq<Token>, pos: int) -> Parsed<Expr>
    decreases remaining(ts, pos), 4nat,
{
    if at_end(ts, pos) {
        failed(ParserError::ExpectingExpression(token_at(ts, pos)), pos)
    } else {
        let token = ts[pos];
        match token.ty {
            TokenType::Nil => done(Expr::Literal { value: Literal::Nil }, pos + 1),
            TokenType::False => done(Expr::Literal { value: Literal::Bool(false) }, pos + 1),
            TokenType::True => done(Expr::Literal { value: Literal::Bool(true) }, pos + 1),
            TokenType::Number | TokenType::String => done(
                Expr::Literal { value: literal_of(token) },
                pos + 1,
            ),
            TokenType::This => done(Expr::This { keyword: token, depth: None }, pos + 1),
            TokenType::Identifier => done(Expr::Variable { name: token, depth: None }, pos + 1),
            TokenType::LeftParen => {
                let inner = expression(ts, pos + 1);
                match inner.result {
                    Ok(e) => {
                        let close = consume(
                            ts,
                            inner.pos,
                            TokenType::RightParen,
                            Expected::ParenAfterExpression,
                        );
                        match close.result {
                            Ok(_) => done(Expr::Grouping { expression: Box::new(e) }, close.pos),
                            Err(error) => failed(error, close.pos),
                        }
                    },
                    Err(error) => failed(error, inner.pos),
                }
            },
            TokenType::Super => {
                let dot = consume(ts, pos + 1, TokenType::Dot, Expected::DotAfterSuper);
                match dot.result {
                    Ok(_) => {
                        let method = consume(
                            ts,
                            dot.pos,
                            TokenType::Identifier,
                            Expected::SuperclassMethodName,
                        );
                        match method.result {
                            Ok(m) => done(
                                Expr::Super { keyword: token, method: m, depth: None },
                                method.pos,
                            ),
                            Err(error) => failed(error, method.pos),
                        }
                    },
                    Err(error) => failed(error, dot.pos),
                }
            },
            _ => failed(ParserError::ExpectingExpression(token), pos + 1),
        }
    }
}

/// The arguments of a call, from the `count`-th on, up to the closing
/// parenthesis.
pub open spec fn arguments(ts: Seq<Token>, pos: int, count: nat) -> Parsed<List<Expr>>
    decreases remaining(ts, pos), 30nat,
{
    if at_end(ts, pos) {
        nothing_to_read(ts, pos)
    } else {
        let first = expression(ts, pos);
        match first.result {
            Ok(e) => if !at_end(ts, first.pos) && kind_at(ts, first.pos) == TokenType::Comma {
                if count + 1 >= LIMIT {
                    failed(
                        ParserError::TooManyArguments(token_at(ts, first.pos + 1)),
                        first.pos + 1,
                    )
                } else {
                    let rest = arguments(ts, past(pos, first.pos + 1), count + 1);
                    match rest.result {
                        Ok(es) => done(List::Cons(e, Box::new(es)), rest.pos),
                        Err(error) => failed(error, rest.pos),
                    }
                }
            } else {
                done(List::Cons(e, Box::new(List::Nil)), first.pos)
            },
            Err(error) => failed(error, first.pos),
        }
    }
}

/// A call, from behind its opening parenthesis.
pub open spec fn finish_call(ts: Seq<Token>, pos: int, callee: Expr) -> Parsed<Expr>
    decreases remaining(ts, pos), 31nat,
{
    let args = if !at_end(ts, pos) && kind_at(ts, pos) == TokenType::RightParen {
        done(List::Nil, pos)
    } else {
        arguments(ts, pos, 0)
    };
    match args.result {
        Ok(es) => {
            let close = consume(ts, args.pos, TokenType::RightParen, Expected::ParenAfterArguments);
            match close.result {
                Ok(paren) => done(
                    Expr::Call { callee: Box::new(callee), paren, arguments: Box::new(es) },
                    close.pos,
                ),
                Err(error) => failed(error, close.pos),
            }
        },
        Err(error) => failed(error, args.pos),
    }
}

/// The calls and property accesses that follow `callee`.
pub open spec fn call_rest(ts: Seq<Token>, pos: int, callee: Expr) -> Parsed<Expr>
    decreases remaining(ts, pos), 6nat,
{
    if at_end(ts, pos) {
        done(callee, pos)
    } else if kind_at(ts, pos) == TokenType::LeftParen {
        let call = finish_call(ts, pos + 1, callee);
        match call.result {
            Ok(e) => call_rest(ts, past(pos, call.pos), e),
            Err(error) => failed(error, call.pos),
        }
    } else if kind_at(ts, pos) == TokenType::Dot {
        let name = consume(ts, pos + 1, TokenType::Identifier, Expected::PropertyName);
        match name.result {
            Ok(n) => call_rest(ts, past(pos, name.pos), Expr::Get { object: Box::new(callee), name: n }),
            Err(error) => failed(error, name.pos),
        }
    } else {
        done(callee, pos)
    }
}

pub open spec fn call(ts: Seq<Token>, pos: int) -> Parsed<Expr>
    decreases remaining(ts, pos), 7nat,
{
    if at_end(ts, pos) {
        nothing_to_read(ts, pos)
    } else {
        let first = primary(ts, pos);
        match first.result {
            Ok(e) => call_rest(ts, past(pos, first.pos), e),
            Err(error) => failed(error, first.pos),
        }
    }
}

pub open spec fn unary(ts: Seq<Token>, pos: int) -> Parsed<Expr>
    decreases remaining(ts, pos), 8nat,
{
    if !at_end(ts, pos) && (kind_at(ts, pos) == TokenType::Bang || kind_at(ts, pos)
        == TokenType::Minus) {
        let right = unary(ts, pos + 1);
        match right.result {
            Ok(e) => done(Expr::Unary { operator: ts[pos], right: Box::new(e) }, right.pos),
            Err(error) => failed(error, right.pos),
        }
    } else {
        call(ts, pos)
    }
}

/// An operand of the operators of `level`.
pub open spec fn operand(ts: Seq<Token>, pos: int, level: Level) -> Parsed<Expr>
    decreases remaining(ts, pos), level.rank(), 0nat,
{
    match level.tighter() {
        Some(next) => infix(ts, pos, next),
        None => unary(ts, pos),
    }
}

/// The operators of `level` and their right operands that follow `left`.
pub open spec fn infix_rest(ts: Seq<Token>, pos: int, level: Level, left: Expr) -> Parsed<Expr>
    decreases remaining(ts, pos), level.rank(), 1nat,
{
    if !at_end(ts, pos) && level.has(kind_at(ts, pos)) {
        let right = operand(ts, pos + 1, level);
        match right.result {
            Ok(e) => infix_rest(ts, past(pos, right.pos), level, level.join(left, ts[pos], e)),
            Err(error) => failed(error, right.pos),
        }
    } else {
        done(left, pos)
    }
}

/// Operands joined by operators of `level`, grouped from the left.
pub open spec fn infix(ts: Seq<Token>, pos: int, level: Level) -> Parsed<Expr>
    decreases remaining(ts, pos), level.rank(), 2nat,
{
    if at_end(ts, pos) {
        nothing_to_read(ts, pos)
    } else {
        let first = operand(ts, pos, level);
        match first.result {
            Ok(e) => infix_rest(ts, past(pos, first.pos), level, e),
            Err(error) => failed(error, first.pos),
        }
    }
}

/// What an assignment to `target` is: to a variable or to a property;
/// nothing else can be assigned to.
pub open spec fn assigned(target: Expr, equals: Token, value: Expr) -> Result<Expr, ParserError> {
    match target {
        Expr::Variable { name, depth } => Ok(
            Expr::Assign { name, value: Box::new(value), depth: None },
        ),
        Expr::Get { object, name } => Ok(Expr::SetField { object, name, value: Box::new(value) }),
        _ => Err(ParserError::InvalidAssignmentTarget(equals)),
    }
}

pub open spec fn assignment(ts: Seq<Token>, pos: int) -> Parsed<Expr>
    decreases remaining(ts, pos), 18nat,
{
    if at_end(ts, pos) {
        nothing_to_read(ts, pos)
    } else {
        let target = infix(ts, pos, Level::Or);
        match target.result {
            Ok(e) => if !at_end(ts, target.pos) && kind_at(ts, target.pos) == TokenType::Equal {
                let value = assignment(ts, past(pos, target.pos + 1));
                match value.result {
                    Ok(v) => Parsed { result: assigned(e, ts[target.pos], v), pos: value.pos },
                    Err(error) => failed(error, value.pos),
                }
            } else {
                done(e, target.pos)
            },
            Err(error) => failed(error, target.pos),
        }
    }
}

pub open spec fn expression(ts: Seq<Token>, pos: int) -> Parsed<Expr>
    decreases remaining(ts, pos), 19nat,
{
    assignment(ts, pos)
}

/// An expression and the `;` that ends it.
pub open spec fn terminated_expression(ts: Seq<Token>, pos: int, expected: Expected) -> Parsed<Expr>
    decreases remaining(ts, pos), 20nat,
{
    let value = expression(ts, pos);
    match value.result {
        Ok(e) => {
            let end = consume(ts, value.pos, TokenType::Semicolon, expected);
            match end.result {
                Ok(_) => done(e, end.pos),
                Err(error) => failed(error, end.pos),
            }
        },
        Err(error) => failed(error, value.pos),
    }
}

pub open spec fn expression_statement(ts: Seq<Token>, pos: int) -> Parsed<Stmt>
    decreases remaining(ts, pos), 21nat,
{
    let value = terminated_expression(ts, pos, Expected::SemicolonAfterExpression);
    match value.result {
        Ok(e) => done(Stmt::Expression(e), value.pos),
        Err(error) => failed(error, value.pos),
    }
}


pub open spec fn print_statement(ts: Seq<Token>, pos: int) -> Parsed<Stmt>
    decreases remaining(ts, pos), 21nat,
{
    let value = terminated_expression(ts, pos, Expected::SemicolonAfterValue);
    match value.result {
        Ok(e) => done(Stmt::Print(e), value.pos),
        Err(error) => failed(error, value.pos),
    }
}

/// A `return` statement, from behind its keyword.
pub open spec fn return_statement(ts: Seq<Token>, pos: int, keyword: Token) -> Parsed<Stmt>
    decreases remaining(ts, pos), 21nat,
{
    if !at_end(ts, pos) && kind_at(ts, pos) == TokenType::Semicolon {
        done(Stmt::Return { keyword, value: None }, pos + 1)
    } else {
        let value = terminated_expression(ts, pos, Expected::SemicolonAfterReturn);
        match value.result {
            Ok(e) => done(Stmt::Return { keyword, value: Some(e) }, value.pos),
            Err(error) => failed(error, value.pos),
        }
    }
}

/// A variable declaration, from behind `var`.
pub open spec fn var_declaration(ts: Seq<Token>, pos: int) -> Parsed<Stmt>
    decreases remaining(ts, pos), 21nat,
{
    let name = consume(ts, pos, TokenType::Identifier, Expected::VariableName);
    match name.result {
        Ok(n) => if !at_end(ts, name.pos) && kind_at(ts, name.pos) == TokenType::Equal {
            let value = terminated_expression(
                ts,
                name.pos + 1,
                Expected::SemicolonAfterVariable,
            );
            match value.result {
                Ok(e) => done(Stmt::Var { name: n, initializer: Some(e) }, value.pos),
                Err(error) => failed(error, value.pos),
            }
        } else {
            let end = consume(ts, name.pos, TokenType::Semicolon, Expected::SemicolonAfterVariable);
            match end.result {
                Ok(_) => done(Stmt::Var { name: n, initializer: None }, end.pos),
                Err(error) => failed(error, end.pos),
            }
        },
        Err(error) => failed(error, name.pos),
    }
}

/// A condition in parentheses, from the opening parenthesis on.
pub open spec fn condition(ts: Seq<Token>, pos: int, open: Expected, close: Expected) -> Parsed<
    Expr,
>
    decreases remaining(ts, pos), 21nat,
{
    let left = consume(ts, pos, TokenType::LeftParen, open);
    match left.result {
        Ok(_) => {
            let value = expression(ts, left.pos);
            match value.result {
                Ok(e) => {
                    let right = consume(ts, value.pos, TokenType::RightParen, close);
                    match right.result {
                        Ok(_) => done(e, right.pos),
                        Err(error) => failed(error, right.pos),
                    }
                },
                Err(error) => failed(error, value.pos),
            }
        },
        Err(error) => failed(error, left.pos),
    }
}

/// An `if` statement, from behind its keyword.
pub open spec fn if_statement(ts: Seq<Token>, pos: int) -> Parsed<Stmt>
    decreases remaining(ts, pos), 22nat,
{
    let test = condition(ts, pos, Expected::ParenAfterIf, Expected::ParenAfterIfCondition);
    match test.result {
        Ok(c) => {
            let then = statement(ts, past(pos, test.pos));
            match then.result {
                Ok(t) => if !at_end(ts, then.pos) && kind_at(ts, then.pos) == TokenType::Else {
                    let other = statement(ts, past(pos, then.pos + 1));
                    match other.result {
                        Ok(o) => done(
                            Stmt::If {
                                condition: c,
                                then_branch: Box::new(t),
                                else_branch: Some(Box::new(o)),
                            },
                            other.pos,
                        ),
                        Err(error) => failed(error, other.pos),
                    }
                } else {
                    done(
                        Stmt::If { condition: c, then_branch: Box::new(t), else_branch: None },
                        then.pos,
                    )
                },
                Err(error) => failed(error, then.pos),
            }
        },
        Err(error) => failed(error, test.pos),
    }
}

/// A `while` statement, from behind its keyword.
pub open spec fn while_statement(ts: Seq<Token>, pos: int) -> Parsed<Stmt>
    decreases remaining(ts, pos), 22nat,
{
    let test = condition(ts, pos, Expected::ParenAfterWhile, Expected::ParenAfterWhileCondition);
    match test.result {
        Ok(c) => {
            let body = statement(ts, past(pos, test.pos));
            match body.result {
                Ok(b) => done(Stmt::While { condition: c, body: Box::new(b) }, body.pos),
                Err(error) => failed(error, body.pos),
            }
        },
        Err(error) => failed(error, test.pos),
    }
}

/// The first clause of a `for` statement: nothing, a variable
/// declaration, or an expression; each with its `;`.
pub open spec fn for_initializer(ts: Seq<Token>, pos: int) -> Parsed<Option<Stmt>>
    decreases remaining(ts, pos), 22nat,
{
    if !at_end(ts, pos) && kind_at(ts, pos) == TokenType::Semicolon {
        done(None, pos + 1)
    } else {
        let first = if !at_end(ts, pos) && kind_at(ts, pos) == TokenType::Var {
            var_declaration(ts, pos + 1)
        } else {
            expression_statement(ts, pos)
        };
        match first.result {
            Ok(s) => done(Some(s), first.pos),
            Err(error) => failed(error, first.pos),
        }
    }
}

/// An optional expression and the token of kind `end` that closes it.
pub open spec fn for_clause(ts: Seq<Token>, pos: int, end: TokenType, expected: Expected) -> Parsed<
    Option<Expr>,
>
    decreases remaining(ts, pos), 22nat,
{
    if !at_end(ts, pos) && kind_at(ts, pos) == end {
        done(None, pos + 1)
    } else {
        let value = expression(ts, pos);
        match value.result {
            Ok(e) => {
                let close = consume(ts, value.pos, end, expected);
                match close.result {
                    Ok(_) => done(Some(e), close.pos),
                    Err(error) => failed(error, close.pos),
                }
            },
            Err(error) => failed(error, value.pos),
        }
    }
}

/// What a `for` statement stands for: a block with the initializer and a
/// `while` loop whose body is followed by the increment.
pub open spec fn desugared(
    initializer: Option<Stmt>,
    condition: Option<Expr>,
    increment: Option<Expr>,
    body: Stmt,
) -> Stmt {
    let round = match increment {
        Some(i) => Stmt::Block(
            Rc::new(
                List::Cons(
                    body,
                    Box::new(List::Cons(Stmt::Expression(i), Box::new(List::Nil))),
                ),
            ),
        ),
        None => body,
    };
    let repeated = Stmt::While {
        condition: match condition {
            Some(c) => c,
            None => Expr::Literal { value: Literal::Bool(true) },
        },
        body: Box::new(round),
    };
    match initializer {
        Some(i) => Stmt::Block(
            Rc::new(List::Cons(i, Box::new(List::Cons(repeated, Box::new(List::Nil))))),
        ),
        None => repeated,
    }
}

/// A `for` statement, from behind its keyword.
pub open spec fn for_statement(ts: Seq<Token>, pos: int) -> Parsed<Stmt>
    decreases remaining(ts, pos), 23nat,
{
    let open = consume(ts, pos, TokenType::LeftParen, Expected::ParenAfterFor);
    match open.result {
        Ok(_) => {
            let first = for_initializer(ts, open.pos);
            match first.result {
                Ok(initializer) => {
                    let second = for_clause(
                        ts,
                        first.pos,
                        TokenType::Semicolon,
                        Expected::SemicolonAfterLoopCondition,
                    );
                    match second.result {
                        Ok(test) => {
                            let third = for_clause(
                                ts,
                                second.pos,
                                TokenType::RightParen,
                                Expected::ParenAfterForClauses,
                            );
                            match third.result {
                                Ok(increment) => {
                                    let body = statement(ts, past(pos, third.pos));
                                    match body.result {
                                        Ok(b) => done(
                                            desugared(initializer, test, increment, b),
                                            body.pos,
                                        ),
                                        Err(error) => failed(error, body.pos),
                                    }
                                },
                                Err(error) => failed(error, third.pos),
                            }
                        },
                        Err(error) => failed(error, second.pos),
                    }
                },
                Err(error) => failed(error, first.pos),
            }
        },
        Err(error) => failed(error, open.pos),
    }
}

/// The declarations of a block up to its closing brace, from behind the
/// opening brace.
pub open spec fn block(ts: Seq<Token>, pos: int) -> Parsed<List<Stmt>>
    decreases remaining(ts, pos), 40nat,
{
    if at_end(ts, pos) || kind_at(ts, pos) == TokenType::RightBrace {
        let close = consume(ts, pos, TokenType::RightBrace, Expected::BraceAfterBlock);
        match close.result {
            Ok(_) => done(List::Nil, close.pos),
            Err(error) => failed(error, close.pos),
        }
    } else {
        let first = declaration(ts, pos);
        match first.result {
            Ok(s) => {
                let rest = block(ts, past(pos, first.pos));
                match rest.result {
                    Ok(more) => done(List::Cons(s, Box::new(more)), rest.pos),
                    Err(error) => failed(error, rest.pos),
                }
            },
            Err(error) => failed(error, first.pos),
        }
    }
}

pub open spec fn statement(ts: Seq<Token>, pos: int) -> Parsed<Stmt>
    decreases remaining(ts, pos), 26nat,
{
    if at_end(ts, pos) {
        expression_statement(ts, pos)
    } else {
        match kind_at(ts, pos) {
            TokenType::If => if_statement(ts, pos + 1),
            TokenType::Print => print_statement(ts, pos + 1),
            TokenType::Return => return_statement(ts, pos + 1, ts[pos]),
            TokenType::While => while_statement(ts, pos + 1),
            TokenType::For => for_statement(ts, pos + 1),
            TokenType::LeftBrace => {
                let inner = block(ts, pos + 1);
                match inner.result {
                    Ok(stmts) => done(Stmt::Block(Rc::new(stmts)), inner.pos),
                    Err(error) => failed(error, inner.pos),
                }
            },
            _ => expression_statement(ts, pos),
        }
    }
}

/// Whether a function or a method is being read.
#[derive(Debug, Clone, Copy, PartialEq, Eq, Structural)]
pub enum Kind {
    Function,
    Method,
}

impl Kind {
    pub open spec fn name(self) -> Expected {
        match self {
            Kind::Function => Expected::FunctionName,
            Kind::Method => Expected::MethodName,
        }
    }

    pub open spec fn paren(self) -> Expected {
        match self {
            Kind::Function => Expected::ParenAfterFunctionName,
            Kind::Method => Expected::ParenAfterMethodName,
        }
    }

    pub open spec fn brace(self) -> Expected {
        match self {
            Kind::Function => Expected::BraceBeforeFunctionBody,
            Kind::Method => Expected::BraceBeforeMethodBody,
        }
    }
}

/// The parameters of a function, from the `count`-th on.
pub open spec fn parameters(ts: Seq<Token>, pos: int, count: nat) -> Parsed<List<Token>>
    decreases remaining(ts, pos), 1nat,
{
    let first = consume(ts, pos, TokenType::Identifier, Expected::ParameterName);
    match first.result {
        Ok(p) => if !at_end(ts, first.pos) && kind_at(ts, first.pos) == TokenType::Comma {
            if count + 1 >= LIMIT {
                failed(
                    ParserError::TooManyParameters(token_at(ts, first.pos + 1)),
                    first.pos + 1,
                )
            } else {
                let rest = parameters(ts, first.pos + 1, count + 1);
                match rest.result {
                    Ok(ps) => done(List::Cons(p, Box::new(ps)), rest.pos),
                    Err(error) => failed(error, rest.pos),
                }
            }
        } else {
            done(List::Cons(p, Box::new(List::Nil)), first.pos)
        },
        Err(error) => failed(error, first.pos),
    }
}

/// A function: its name, its parameters in parentheses, and its body.
pub open spec fn function(ts: Seq<Token>, pos: int, kind: Kind) -> Parsed<Declaration>
    decreases remaining(ts, pos), 28nat,
{
    let name = consume(ts, pos, TokenType::Identifier, kind.name());
    match name.result {
        Ok(n) => {
            let open = consume(ts, name.pos, TokenType::LeftParen, kind.paren());
            match open.result {
                Ok(_) => {
                    let params = if !at_end(ts, open.pos) && kind_at(ts, open.pos)
                        == TokenType::RightParen {
                        done(List::Nil, open.pos)
                    } else {
                        parameters(ts, open.pos, 0)
                    };
                    match params.result {
                        Ok(ps) => {
                            let close = consume(
                                ts,
                                params.pos,
                                TokenType::RightParen,
                                Expected::ParenAfterParameters,
                            );
                            match close.result {
                                Ok(_) => {
                                    let brace = consume(
                                        ts,
                                        close.pos,
                                        TokenType::LeftBrace,
                                        kind.brace(),
                                    );
                                    match brace.result {
                                        Ok(_) => {
                                            let body = block(ts, past(pos, brace.pos));
                                            match body.result {
                                                Ok(b) => done(
                                                    Declaration { name: n, params: ps, body: b },
                                                    body.pos,
                                                ),
                                                Err(error) => failed(error, body.pos),
                                            }
                                        },
                                        Err(error) => failed(error, brace.pos),
                                    }
                                },
                                Err(error) => failed(error, close.pos),
                            }
                        },
                        Err(error) => failed(error, params.pos),
                    }
                },
                Err(error) => failed(error, open.pos),
            }
        },
        Err(error) => failed(error, name.pos),
    }
}

/// The methods of a class up to its closing brace.
pub open spec fn methods(ts: Seq<Token>, pos: int) -> Parsed<List<Rc<Declaration>>>
    decreases remaining(ts, pos), 35nat,
{
    if at_end(ts, pos) || kind_at(ts, pos) == TokenType::RightBrace {
        let close = consume(ts, pos, TokenType::RightBrace, Expected::BraceAfterClassBody);
        match close.result {
            Ok(_) => done(List::Nil, close.pos),
            Err(error) => failed(error, close.pos),
        }
    } else {
        let first = function(ts, pos, Kind::Method);
        match first.result {
            Ok(m) => {
                let rest = methods(ts, past(pos, first.pos));
                match rest.result {
                    Ok(more) => done(List::Cons(Rc::new(m), Box::new(more)), rest.pos),
                    Err(error) => failed(error, rest.pos),
                }
            },
            Err(error) => failed(error, first.pos),
        }
    }
}

/// A class declaration, from behind `class`.
pub open spec fn class_declaration(ts: Seq<Token>, pos: int) -> Parsed<Stmt>
    decreases remaining(ts, pos), 36nat,
{
    let name = consume(ts, pos, TokenType::Identifier, Expected::ClassName);
    match name.result {
        Ok(n) => {
            let parent = if !at_end(ts, name.pos) && kind_at(ts, name.pos) == TokenType::Less {
                let from = consume(
                    ts,
                    name.pos + 1,
                    TokenType::Identifier,
                    Expected::SuperclassName,
                );
                match from.result {
                    Ok(s) => done(Some(Expr::Variable { name: s, depth: None }), from.pos),
                    Err(error) => failed(error, from.pos),
                }
            } else {
                done(None, name.pos)
            };
            match parent.result {
                Ok(superclass) => {
                    let open = consume(
                        ts,
                        parent.pos,
                        TokenType::LeftBrace,
                        Expected::BraceBeforeClassBody,
                    );
                    match open.result {
                        Ok(_) => {
                            let body = methods(ts, past(pos, open.pos));
                            match body.result {
                                Ok(ms) => done(
                                    Stmt::Class { name: n, superclass, methods: Rc::new(ms) },
                                    body.pos,
                                ),
                                Err(error) => failed(error, body.pos),
                            }
                        },
                        Err(error) => failed(error, open.pos),
                    }
                },
                Err(error) => failed(error, parent.pos),
            }
        },
        Err(error) => failed(error, name.pos),
    }
}

/// Whether a statement can start with a token of kind `ty`.
pub open spec fn starts_statement(ty: TokenType) -> bool {
    ty == TokenType::Class || ty == TokenType::For || ty == TokenType::Fun || ty == TokenType::If
        || ty == TokenType::Print || ty == TokenType::Return || ty == TokenType::Var || ty
        == TokenType::While
}

/// From `pos` on, the first position behind a `;` or at the start of a
/// statement, or else the end.
pub open spec fn boundary(ts: Seq<Token>, pos: int) -> int
    decreases remaining(ts, pos),
{
    if at_end(ts, pos) || !(0 <= pos < ts.len()) {
        pos
    } else if kind_at(ts, pos - 1) == TokenType::Semicolon {
        pos
    } else if starts_statement(kind_at(ts, pos)) {
        pos
    } else {
        boundary(ts, pos + 1)
    }
}

/// Where parsing takes up again after an error at `pos`: one token is
/// skipped, then those up to the next boundary.
pub open spec fn synchronize(ts: Seq<Token>, pos: int) -> int {
    if at_end(ts, pos) {
        pos
    } else {
        boundary(ts, pos + 1)
    }
}

pub open spec fn declaration(ts: Seq<Token>, pos: int) -> Parsed<Stmt>
    decreases remaining(ts, pos), 38nat,
{
    let parsed = if at_end(ts, pos) {
        statement(ts, pos)
    } else {
        match kind_at(ts, pos) {
            TokenType::Class => class_declaration(ts, pos + 1),
            TokenType::Fun => {
                let f = function(ts, pos + 1, Kind::Function);
                match f.result {
                    Ok(d) => done(Stmt::Function(Rc::new(d)), f.pos),
                    Err(error) => failed(error, f.pos),
                }
            },
            TokenType::Var => var_declaration(ts, pos + 1),
            _ => statement(ts, pos),
        }
    };
    match parsed.result {
        Ok(_) => parsed,
        Err(_) => Parsed { pos: synchronize(ts, parsed.pos), ..parsed },
    }
}

/// The statements and the errors of a whole program.
pub open spec fn program(ts: Seq<Token>, pos: int) -> (List<Stmt>, Seq<ParserError>)
    decreases remaining(ts, pos), 41nat,
{
    if at_end(ts, pos) {
        (List::Nil, Seq::empty())
    } else {
        let first = declaration(ts, pos);
        let rest = program(ts, past(pos, first.pos));
        match first.result {
            Ok(s) => (List::Cons(s, Box::new(rest.0)), rest.1),
            Err(error) => (rest.0, seq![error] + rest.1),
        }
    }
}

} // verus!
