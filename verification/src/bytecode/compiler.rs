//! The compiler: tokens of one arithmetic expression to a chunk, in one
//! pass, by precedence climbing.
//!
//! The expression that the tokens write is described as a tree; the chunk
//! is the code of that tree, followed by a `Return`.

use crate::bytecode::chunk::{Chunk, ChunkView, OpCode};
use crate::error::ScannerErrors;
use crate::grammar::{at_end, kind_at, past, remaining, terminated, token_at};
use crate::number::Number;
use crate::scanner::{error_views, errors_of, lexed, token_views, Scanner};
use crate::token::{Literal, Token, TokenType};
use crate::value::{Value, ValueView};
use vstd::prelude::*;

verus! {

/// How tightly an operator binds, loosest first.
#[derive(Debug, Clone, Copy, Eq, PartialEq, Structural)]
pub enum Precedence {
    Lowest,
    Assignment,
    Or,
    And,
    Equality,
    Comparison,
    Term,
    Factor,
    Unary,
    Call,
    Primary,
}

impl Precedence {
    /// The place of the precedence on the ladder.
    pub open spec fn rank(self) -> nat {
        match self {
            Precedence::Lowest => 0,
            Precedence::Assignment => 1,
            Precedence::Or => 2,
            Precedence::And => 3,
            Precedence::Equality => 4,
            Precedence::Comparison => 5,
            Precedence::Term => 6,
            Precedence::Factor => 7,
            Precedence::Unary => 8,
            Precedence::Call => 9,
            Precedence::Primary => 10,
        }
    }

    /// The next precedence up the ladder; the highest stays.
    pub open spec fn above(self) -> Precedence {
        match self {
            Precedence::Lowest => Precedence::Assignment,
            Precedence::Assignment => Precedence::Or,
            Precedence::Or => Precedence::And,
            Precedence::And => Precedence::Equality,
            Precedence::Equality => Precedence::Comparison,
            Precedence::Comparison => Precedence::Term,
            Precedence::Term => Precedence::Factor,
            Precedence::Factor => Precedence::Unary,
            Precedence::Unary => Precedence::Call,
            Precedence::Call => Precedence::Primary,
            Precedence::Primary => Precedence::Primary,
        }
    }

    pub fn level(self) -> (r: u8)
        ensures
            r == self.rank(),
    {
        match self {
            Precedence::Lowest => 0,
            Precedence::Assignment => 1,
            Precedence::Or => 2,
            Precedence::And => 3,
            Precedence::Equality => 4,
            Precedence::Comparison => 5,
            Precedence::Term => 6,
            Precedence::Factor => 7,
            Precedence::Unary => 8,
            Precedence::Call => 9,
            Precedence::Primary => 10,
        }
    }

    pub fn next(self) -> (r: Precedence)
        ensures
            r == self.above(),
            self != Precedence::Primary ==> r.rank() == self.rank() + 1,
    {
        match self {
            Precedence::Lowest => Precedence::Assignment,
            Precedence::Assignment => Precedence::Or,
            Precedence::Or => Precedence::And,
            Precedence::And => Precedence::Equality,
            Precedence::Equality => Precedence::Comparison,
            Precedence::Comparison => Precedence::Term,
            Precedence::Term => Precedence::Factor,
            Precedence::Factor => Precedence::Unary,
            Precedence::Unary => Precedence::Call,
            Precedence::Call => Precedence::Primary,
            Precedence::Primary => Precedence::Primary,
        }
    }

    /// Whether `self` binds no tighter than `other`.
    pub fn at_most(self, other: Precedence) -> (r: bool)
        ensures
            r == (self.rank() <= other.rank()),
    {
        self.level() <= other.level()
    }
}

/// What the compiler does at a token.
#[derive(Debug, Clone, Copy, Eq, PartialEq, Structural)]
pub enum Action {
    Grouping,
    Unary,
    Binary,
    Number,
}

/// The rule of a kind of token: what to do when an expression starts with
/// it, what to do when it follows an operand, and how tightly it binds then.
#[derive(Debug, Clone, Copy, Eq, PartialEq, Structural)]
pub struct ParseRule {
    pub prefix: Option<Action>,
    pub infix: Option<Action>,
    pub precedence: Precedence,
}

impl ParseRule {
    /// The table of rules.
    pub open spec fn of(ty: TokenType) -> ParseRule {
        match ty {
            TokenType::LeftParen => ParseRule {
                prefix: Some(Action::Grouping),
                infix: None,
                precedence: Precedence::Lowest,
            },
            TokenType::Minus => ParseRule {
                prefix: Some(Action::Unary),
                infix: Some(Action::Binary),
                precedence: Precedence::Term,
            },
            TokenType::Plus => ParseRule {
                prefix: None,
                infix: Some(Action::Binary),
                precedence: Precedence::Term,
            },
            TokenType::Slash | TokenType::Star => ParseRule {
                prefix: None,
                infix: Some(Action::Binary),
                precedence: Precedence::Factor,
            },
            TokenType::Number => ParseRule {
                prefix: Some(Action::Number),
                infix: None,
                precedence: Precedence::Lowest,
            },
            _ => ParseRule { prefix: None, infix: None, precedence: Precedence::Lowest },
        }
    }

    fn prec(precedence: Precedence) -> (r: Self)
        ensures
            r == (ParseRule { prefix: None, infix: None, precedence }),
    {
        ParseRule { prefix: None, infix: None, precedence }
    }

    fn prefix(prefix: Action, precedence: Precedence) -> (r: Self)
        ensures
            r == (ParseRule { prefix: Some(prefix), infix: None, precedence }),
    {
        ParseRule { prefix: Some(prefix), infix: None, precedence }
    }

    fn infix(infix: Action, precedence: Precedence) -> (r: Self)
        ensures
            r == (ParseRule { prefix: None, infix: Some(infix), precedence }),
    {
        ParseRule { prefix: None, infix: Some(infix), precedence }
    }

    fn full(prefix: Action, infix: Action, precedence: Precedence) -> (r: Self)
        ensures
            r == (ParseRule { prefix: Some(prefix), infix: Some(infix), precedence }),
    {
        ParseRule { prefix: Some(prefix), infix: Some(infix), precedence }
    }

    pub fn get_rule(ty: TokenType) -> (r: Self)
        ensures
            r == ParseRule::of(ty),
    {
        match ty {
            TokenType::LeftParen => Self::prefix(Action::Grouping, Precedence::Lowest),
            TokenType::Minus => Self::full(Action::Unary, Action::Binary, Precedence::Term),
            TokenType::Plus => Self::infix(Action::Binary, Precedence::Term),
            TokenType::Slash | TokenType::Star => Self::infix(Action::Binary, Precedence::Factor),
            TokenType::Number => Self::prefix(Action::Number, Precedence::Lowest),
            _ => Self::prec(Precedence::Lowest),
        }
    }
}

/// What the compiler found wrong.
#[derive(Debug, Clone, Copy, Eq, PartialEq, Structural)]
pub enum Message {
    ExpectExpression,
    ExpectParenAfterExpression,
    ExpectEndOfExpression,
    TooManyConstants,
    NoInfixRule,
}

/// Why the tokens were refused, with the token concerned.
#[derive(Debug)]
pub enum ParserError {
    At { token: Token, message: Message },
}

/// Why a source text was refused.
#[derive(Debug)]
pub enum Error {
    Scanner(ScannerErrors),
    Parser(ParserError),
}

/// The most constants of a chunk.
pub const POOL: usize = 256;

/// An arithmetic expression. Numbers and groups keep the line of their
/// last token, from which the lines of the code come.
#[derive(Debug)]
pub enum Arith {
    Number { value: Number, line: usize },
    Group { inner: Box<Arith>, line: usize },
    Negate { operand: Box<Arith> },
    Binary { operator: OpCode, left: Box<Arith>, right: Box<Arith> },
}

impl Arith {
    /// The line of the last token of the expression.
    pub open spec fn last_line(self) -> usize
        decreases self,
    {
        match self {
            Arith::Number { value, line } => line,
            Arith::Group { inner, line } => line,
            Arith::Negate { operand } => operand.last_line(),
            Arith::Binary { operator, left, right } => right.last_line(),
        }
    }

    /// How many numbers the expression writes.
    pub open spec fn constants(self) -> nat
        decreases self,
    {
        match self {
            Arith::Number { value, line } => 1,
            Arith::Group { inner, line } => inner.constants(),
            Arith::Negate { operand } => operand.constants(),
            Arith::Binary { operator, left, right } => left.constants() + right.constants(),
        }
    }

    /// The chunk with the code of the expression added: the operands
    /// before their operator.
    pub open spec fn emit(self, chunk: ChunkView) -> ChunkView
        decreases self,
    {
        match self {
            Arith::Number { value, line } => chunk.add_constant(ValueView::Number(value)).write(
                OpCode::Constant.byte(),
                line,
            ).write(chunk.constants.len() as u8, line),
            Arith::Group { inner, line } => inner.emit(chunk),
            Arith::Negate { operand } => operand.emit(chunk).write(
                OpCode::Negate.byte(),
                operand.last_line(),
            ),
            Arith::Binary { operator, left, right } => right.emit(left.emit(chunk)).write(
                operator.byte(),
                right.last_line(),
            ),
        }
    }
}

/// What a rule made of the tokens from a position on.
pub struct Read<T> {
    pub result: Result<T, ParserError>,
    pub pos: int,
}

pub open spec fn refused<T>(ts: Seq<Token>, pos: int, message: Message) -> Read<T> {
    Read { result: Err(ParserError::At { token: token_at(ts, pos), message }), pos }
}

/// The number that a number token writes.
pub open spec fn number_of(token: Token) -> Number {
    match token.literal {
        Some(Literal::Number(n)) => n,
        _ => Number { bits: 0 },
    }
}

/// The instruction of a binary operator.
pub open spec fn instruction(ty: TokenType) -> OpCode {
    match ty {
        TokenType::Plus => OpCode::Add,
        TokenType::Minus => OpCode::Subtract,
        TokenType::Star => OpCode::Multiply,
        _ => OpCode::Divide,
    }
}

/// An expression that starts at `pos`, up to its first operator:
/// a number, a group, or a negation. `count` constants are in the chunk.
pub open spec fn prefix(ts: Seq<Token>, pos: int, count: nat) -> Read<Arith>
    decreases remaining(ts, pos), 0nat,
{
    if at_end(ts, pos) {
        refused(ts, pos, Message::ExpectExpression)
    } else {
        match ParseRule::of(ts[pos].ty).prefix {
            Some(Action::Number) => if count >= POOL {
                refused(ts, pos, Message::TooManyConstants)
            } else {
                Read {
                    result: Ok(Arith::Number { value: number_of(ts[pos]), line: ts[pos].line }),
                    pos: pos + 1,
                }
            },
            Some(Action::Grouping) => {
                let inner = precedence(ts, pos + 1, Precedence::Assignment, count);
                match inner.result {
                    Ok(e) => if !at_end(ts, inner.pos) && kind_at(ts, inner.pos)
                        == TokenType::RightParen {
                        Read {
                            result: Ok(
                                Arith::Group { inner: Box::new(e), line: ts[inner.pos].line },
                            ),
                            pos: inner.pos + 1,
                        }
                    } else {
                        refused(ts, inner.pos, Message::ExpectParenAfterExpression)
                    },
                    Err(error) => Read { result: Err(error), pos: inner.pos },
                }
            },
            Some(Action::Unary) => {
                let operand = precedence(ts, pos + 1, Precedence::Unary, count);
                match operand.result {
                    Ok(e) => Read {
                        result: Ok(Arith::Negate { operand: Box::new(e) }),
                        pos: operand.pos,
                    },
                    Err(error) => Read { result: Err(error), pos: operand.pos },
                }
            },
            _ => refused(ts, pos, Message::ExpectExpression),
        }
    }
}

/// The operators that bind at least as tightly as `level`, and their
/// right operands, after `left`. `count` constants are in the chunk.
pub open spec fn infix(ts: Seq<Token>, pos: int, level: Precedence, left: Arith, count: nat) -> Read<
    Arith,
>
    decreases remaining(ts, pos), 1nat,
{
    let rule = ParseRule::of(kind_at(ts, pos));
    if level.rank() <= rule.precedence.rank() {
        if at_end(ts, pos) || rule.infix != Some(Action::Binary) {
            refused(ts, pos, Message::NoInfixRule)
        } else {
            let right = precedence(ts, pos + 1, rule.precedence.above(), count);
            match right.result {
                Ok(e) => infix(
                    ts,
                    past(pos, right.pos),
                    level,
                    Arith::Binary {
                        operator: instruction(ts[pos].ty),
                        left: Box::new(left),
                        right: Box::new(e),
                    },
                    count + e.constants(),
                ),
                Err(error) => Read { result: Err(error), pos: right.pos },
            }
        }
    } else {
        Read { result: Ok(left), pos }
    }
}

/// The expression at `pos` whose operators bind at least as tightly as `level`.
pub open spec fn precedence(ts: Seq<Token>, pos: int, level: Precedence, count: nat) -> Read<Arith>
    decreases remaining(ts, pos), 2nat,
{
    if at_end(ts, pos) {
        refused(ts, pos, Message::ExpectExpression)
    } else {
        let first = prefix(ts, pos, count);
        match first.result {
            Ok(e) => infix(ts, past(pos, first.pos), level, e, count + e.constants()),
            Err(error) => Read { result: Err(error), pos: first.pos },
        }
    }
}

/// The expression that the tokens write, all of them.
pub open spec fn expression_of(ts: Seq<Token>) -> Result<Arith, ParserError> {
    let whole = precedence(ts, 0, Precedence::Assignment, 0);
    match whole.result {
        Ok(e) => if at_end(ts, whole.pos) {
            Ok(e)
        } else {
            Err(
                ParserError::At {
                    token: token_at(ts, whole.pos),
                    message: Message::ExpectEndOfExpression,
                },
            )
        },
        Err(error) => Err(error),
    }
}

/// The chunk of an expression: its code, then a `Return` on line `line`.
pub open spec fn chunk_of(e: Arith, line: usize) -> ChunkView {
    e.emit(ChunkView::empty()).write(OpCode::Return.byte(), line)
}

/// The line of the token that ends the input: the first end token.
pub open spec fn end_line(ts: Seq<Token>) -> usize {
    token_at(ts, precedence(ts, 0, Precedence::Assignment, 0).pos).line
}

/// The compiler at work: the tokens, the place of the next one, and the
/// chunk so far.
#[derive(Debug)]
pub struct Parser {
    tokens: Vec<Token>,
    current: usize,
    chunk: Chunk,
}

impl Parser {
    pub closed spec fn wf(&self) -> bool {
        terminated(self.tokens@) && self.current < self.tokens.len()
    }

    /// Whether the compiler stands where `rule` leaves it: behind the
    /// expression, with its code added to the chunk.
    closed spec fn stands(&self, before: &Parser, r: Result<(), ParserError>, rule: Read<Arith>) -> bool {
        &&& self.wf()
        &&& self.tokens == before.tokens
        &&& match rule.result {
            Ok(e) => {
                &&& r.is_ok()
                &&& self.current == rule.pos
                &&& self.current > before.current
                &&& self.chunk@ == e.emit(before.chunk@)
                &&& self.chunk@.constants.len() == before.chunk@.constants.len() + e.constants()
                &&& self.chunk@.constants.len() <= POOL
                &&& e.last_line() == self.tokens@[self.current - 1].line
            },
            Err(error) => r == Err::<(), ParserError>(error),
        }
    }

    /// Compiles the tokens of one expression.
    pub fn compile_tokens(tokens: Vec<Token>) -> (r: Result<Chunk, ParserError>)
        requires
            terminated(tokens@),
        ensures
            match r {
                Ok(chunk) => expression_of(tokens@).is_ok() && chunk@ == chunk_of(
                    expression_of(tokens@).unwrap(),
                    end_line(tokens@),
                ),
                Err(error) => expression_of(tokens@) == Err::<Arith, ParserError>(error),
            },
    {
        let mut parser = Parser { tokens, current: 0, chunk: Chunk::new() };
        match parser.expression() {
            Ok(()) => {},
            Err(error) => {
                return Err(error);
            },
        }
        if !parser.is_at_end() {
            return Err(
                ParserError::At {
                    token: parser.peek().clone(),
                    message: Message::ExpectEndOfExpression,
                },
            );
        }
        let line = parser.peek().line;
        parser.chunk.write(OpCode::Return.to_byte(), line);
        Ok(parser.chunk)
    }

    /// Compiles the source text of one expression.
    pub fn compile(source: &str) -> (r: Result<Chunk, Error>)
        requires
            source@.len() < usize::MAX,
        ensures
            match r {
                Err(Error::Scanner(errors)) => errors.0.len() > 0 && error_views(errors.0@)
                    == errors_of(source@),
                Err(Error::Parser(error)) => errors_of(source@).len() == 0 && expression_of(
                    lexed(source@),
                ) == Err::<Arith, ParserError>(error),
                Ok(chunk) => errors_of(source@).len() == 0 && expression_of(
                    lexed(source@),
                ).is_ok() && chunk@ == chunk_of(
                    expression_of(lexed(source@)).unwrap(),
                    end_line(lexed(source@)),
                ),
            },
    {
        let scanner = Scanner::new(source.to_owned());
        let tokens = match scanner.scan_tokens() {
            Ok(tokens) => tokens,
            Err(errors) => {
                return Err(Error::Scanner(errors));
            },
        };
        proof {
            let views = token_views(tokens@);
            assert(views.len() == tokens@.len());
            assert(views.last() == tokens@.last()@);
        }
        match Parser::compile_tokens(tokens) {
            Ok(chunk) => Ok(chunk),
            Err(error) => Err(Error::Parser(error)),
        }
    }

    fn is_at_end(&self) -> (r: bool)
        requires
            self.wf(),
        ensures
            r == at_end(self.tokens@, self.current as int),
    {
        self.tokens[self.current].ty == TokenType::EoF
    }

    fn peek(&self) -> (r: &Token)
        requires
            self.wf(),
        ensures
            *r == token_at(self.tokens@, self.current as int),
            *r == self.tokens@[self.current as int],
    {
        &self.tokens[self.current]
    }

    fn error_at_current(&self, message: Message) -> (r: ParserError)
        requires
            self.wf(),
        ensures
            r == (ParserError::At { token: token_at(self.tokens@, self.current as int), message }),
    {
        ParserError::At { token: self.peek().clone(), message }
    }

    fn emit_byte(&mut self, byte: u8)
        requires
            old(self).wf(),
            old(self).current >= 1,
        ensures
            final(self).wf(),
            final(self).tokens == old(self).tokens,
            final(self).current == old(self).current,
            final(self).chunk@ == old(self).chunk@.write(
                byte,
                old(self).tokens@[old(self).current - 1].line,
            ),
    {
        let line = self.tokens[self.current - 1].line;
        self.chunk.write(byte, line);
    }

    fn expression(&mut self) -> (r: Result<(), ParserError>)
        requires
            old(self).wf(),
            old(self).chunk@.constants.len() <= POOL,
        ensures
            final(self).stands(
                old(self),
                r,
                precedence(
                    old(self).tokens@,
                    old(self).current as int,
                    Precedence::Assignment,
                    old(self).chunk@.constants.len(),
                ),
            ),
        decreases remaining(old(self).tokens@, old(self).current as int), 3nat,
    {
        self.parse_precedence(Precedence::Assignment)
    }

    /// A number: a constant of the chunk, and the instruction that loads it.
    fn number(&mut self) -> (r: Result<(), ParserError>)
        requires
            old(self).wf(),
            old(self).chunk@.constants.len() <= POOL,
            !at_end(old(self).tokens@, old(self).current as int),
            ParseRule::of(old(self).tokens@[old(self).current as int].ty).prefix == Some(
                Action::Number,
            ),
        ensures
            final(self).stands(
                old(self),
                r,
                prefix(
                    old(self).tokens@,
                    old(self).current as int,
                    old(self).chunk@.constants.len(),
                ),
            ),
    {
        if self.chunk.constants.len() >= POOL {
            return Err(self.error_at_current(Message::TooManyConstants));
        }
        let value = match &self.peek().literal {
            Some(Literal::Number(n)) => *n,
            _ => Number { bits: 0 },
        };
        self.current += 1;
        let constant = self.chunk.add_constant(Value::Number(value));
        self.emit_byte(OpCode::Constant.to_byte());
        self.emit_byte(constant as u8);
        Ok(())
    }

    /// A group: the expression in the parentheses.
    fn grouping(&mut self) -> (r: Result<(), ParserError>)
        requires
            old(self).wf(),
            old(self).chunk@.constants.len() <= POOL,
            !at_end(old(self).tokens@, old(self).current as int),
            ParseRule::of(old(self).tokens@[old(self).current as int].ty).prefix == Some(
                Action::Grouping,
            ),
        ensures
            final(self).stands(
                old(self),
                r,
                prefix(
                    old(self).tokens@,
                    old(self).current as int,
                    old(self).chunk@.constants.len(),
                ),
            ),
        decreases remaining(old(self).tokens@, old(self).current as int), 0nat,
    {
        self.current += 1;
        match self.expression() {
            Ok(()) => {},
            Err(error) => {
                return Err(error);
            },
        }
        if !self.is_at_end() && self.tokens[self.current].ty == TokenType::RightParen {
            self.current += 1;
            Ok(())
        } else {
            Err(self.error_at_current(Message::ExpectParenAfterExpression))
        }
    }

    /// A negation: the operand, then the instruction.
    fn unary(&mut self) -> (r: Result<(), ParserError>)
        requires
            old(self).wf(),
            old(self).chunk@.constants.len() <= POOL,
            !at_end(old(self).tokens@, old(self).current as int),
            ParseRule::of(old(self).tokens@[old(self).current as int].ty).prefix == Some(
                Action::Unary,
            ),
        ensures
            final(self).stands(
                old(self),
                r,
                prefix(
                    old(self).tokens@,
                    old(self).current as int,
                    old(self).chunk@.constants.len(),
                ),
            ),
        decreases remaining(old(self).tokens@, old(self).current as int), 0nat,
    {
        self.current += 1;
        match self.parse_precedence(Precedence::Unary) {
            Ok(()) => {},
            Err(error) => {
                return Err(error);
            },
        }
        self.emit_byte(OpCode::Negate.to_byte());
        Ok(())
    }

    /// The right operand of a binary operator, then its instruction. The
    /// operator is the token before the current one.
    fn binary(&mut self) -> (r: Result<(), ParserError>)
        requires
            old(self).wf(),
            old(self).chunk@.constants.len() <= POOL,
            old(self).current >= 1,
        ensures
            final(self).wf(),
            final(self).tokens == old(self).tokens,
            match precedence(
                old(self).tokens@,
                old(self).current as int,
                ParseRule::of(old(self).tokens@[old(self).current - 1].ty).precedence.above(),
                old(self).chunk@.constants.len(),
            ).result {
                Ok(e) => {
                    &&& r.is_ok()
                    &&& final(self).current == precedence(
                        old(self).tokens@,
                        old(self).current as int,
                        ParseRule::of(
                            old(self).tokens@[old(self).current - 1].ty,
                        ).precedence.above(),
                        old(self).chunk@.constants.len(),
                    ).pos
                    &&& final(self).current > old(self).current
                    &&& final(self).chunk@ == e.emit(old(self).chunk@).write(
                        instruction(old(self).tokens@[old(self).current - 1].ty).byte(),
                        e.last_line(),
                    )
                    &&& final(self).chunk@.constants.len() == old(self).chunk@.constants.len()
                        + e.constants()
                    &&& final(self).chunk@.constants.len() <= POOL
                    &&& e.last_line() == final(self).tokens@[final(self).current - 1].line
                },
                Err(error) => r == Err::<(), ParserError>(error),
            },
        decreases remaining(old(self).tokens@, old(self).current as int), 3nat,
    {
        let operator_type = self.tokens[self.current - 1].ty;
        let rule = ParseRule::get_rule(operator_type);
        match self.parse_precedence(rule.precedence.next()) {
            Ok(()) => {},
            Err(error) => {
                return Err(error);
            },
        }
        match operator_type {
            TokenType::Plus => self.emit_byte(OpCode::Add.to_byte()),
            TokenType::Minus => self.emit_byte(OpCode::Subtract.to_byte()),
            TokenType::Star => self.emit_byte(OpCode::Multiply.to_byte()),
            _ => self.emit_byte(OpCode::Divide.to_byte()),
        }
        Ok(())
    }

    fn parse_precedence(&mut self, level: Precedence) -> (r: Result<(), ParserError>)
        requires
            old(self).wf(),
            old(self).chunk@.constants.len() <= POOL,
        ensures
            final(self).stands(
                old(self),
                r,
                precedence(
                    old(self).tokens@,
                    old(self).current as int,
                    level,
                    old(self).chunk@.constants.len(),
                ),
            ),
        decreases remaining(old(self).tokens@, old(self).current as int), 2nat,
    {
        if self.is_at_end() {
            return Err(self.error_at_current(Message::ExpectExpression));
        }
        let ghost ts = self.tokens@;
        let ghost start = self.current as int;
        let ghost count = self.chunk@.constants.len();
        let first = match ParseRule::get_rule(self.peek().ty).prefix {
            Some(Action::Number) => self.number(),
            Some(Action::Grouping) => self.grouping(),
            Some(Action::Unary) => self.unary(),
            _ => Err(self.error_at_current(Message::ExpectExpression)),
        };
        match first {
            Ok(()) => {},
            Err(error) => {
                return Err(error);
            },
        }
        let ghost mut left = prefix(ts, start, count).result.unwrap();
        loop
            invariant
                self.wf(),
                self.tokens == old(self).tokens,
                self.tokens@ == ts,
                start == old(self).current,
                count == old(self).chunk@.constants.len(),
                self.current > old(self).current,
                self.chunk@ == left.emit(old(self).chunk@),
                self.chunk@.constants.len() == count + left.constants(),
                self.chunk@.constants.len() <= POOL,
                left.last_line() == ts[self.current - 1].line,
                infix(ts, self.current as int, level, left, count + left.constants())
                    == precedence(ts, start, level, count),
            decreases remaining(ts, self.current as int),
        {
            let rule = ParseRule::get_rule(self.peek().ty);
            if !level.at_most(rule.precedence) {
                return Ok(());
            }
            if self.is_at_end() {
                return Err(self.error_at_current(Message::NoInfixRule));
            }
            match rule.infix {
                Some(Action::Binary) => {},
                _ => {
                    return Err(self.error_at_current(Message::NoInfixRule));
                },
            }
            let ghost operator = instruction(ts[self.current as int].ty);
            let ghost at = self.current as int;
            self.current += 1;
            match self.binary() {
                Ok(()) => {
                    proof {
                        let right = precedence(
                            ts,
                            at + 1,
                            rule.precedence.above(),
                            count + left.constants(),
                        ).result.unwrap();
                        left = Arith::Binary {
                            operator,
                            left: Box::new(left),
                            right: Box::new(right),
                        };
                    }
                },
                Err(error) => {
                    return Err(error);
                },
            }
        }
    }
}

} // verus!
