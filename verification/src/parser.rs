//! The parser: tokens to a syntax tree, by recursive descent with one
//! token of lookahead. Errors are collected; after one, parsing takes up
//! again at the next statement.

use crate::error::{Expected, ParserError, ParserErrors};
use crate::expr::Expr;
use crate::grammar::{
    arguments, assignment, at_end, block, boundary, call, call_rest, class_declaration,
    condition, consume, declaration, desugared, expression, expression_statement, finish_call, for_clause, for_initializer, for_statement, function, if_statement, infix,
    infix_rest, joined, kind_at, methods, operand, parameters, past,
    primary, print_statement, program, remaining, return_statement, starts_statement, statement,
    synchronize, terminated, terminated_expression, token_at, unary, var_declaration,
    while_statement, Kind, Level, Parsed, LIMIT,
};
use crate::list::List;
use crate::stmt::{Declaration, Stmt};
use crate::token::{Literal, Token, TokenType};
use std::rc::Rc;
use vstd::prelude::*;

verus! {

#[derive(Debug)]
pub struct Parser {
    tokens: Vec<Token>,
    current: usize,
}

impl Level {
    fn holds(self, ty: TokenType) -> (r: bool)
        ensures
            r == self.has(ty),
    {
        match self {
            Level::Or => ty == TokenType::Or,
            Level::And => ty == TokenType::And,
            Level::Equality => ty == TokenType::BangEqual || ty == TokenType::EqualEqual,
            Level::Comparison => ty == TokenType::Greater || ty == TokenType::GreaterEqual || ty
                == TokenType::Less || ty == TokenType::LessEqual,
            Level::Term => ty == TokenType::Minus || ty == TokenType::Plus,
            Level::Factor => ty == TokenType::Slash || ty == TokenType::Star,
        }
    }

    fn next(self) -> (r: Option<Level>)
        ensures
            r == self.tighter(),
    {
        match self {
            Level::Or => Some(Level::And),
            Level::And => Some(Level::Equality),
            Level::Equality => Some(Level::Comparison),
            Level::Comparison => Some(Level::Term),
            Level::Term => Some(Level::Factor),
            Level::Factor => None,
        }
    }

    fn combine(self, left: Expr, operator: Token, right: Expr) -> (r: Expr)
        ensures
            r == self.join(left, operator, right),
    {
        match self {
            Level::Or | Level::And => Expr::logical(left, operator, right),
            _ => Expr::binary(left, operator, right),
        }
    }
}

impl Kind {
    fn name_expected(self) -> (r: Expected)
        ensures
            r == self.name(),
    {
        match self {
            Kind::Function => Expected::FunctionName,
            Kind::Method => Expected::MethodName,
        }
    }

    fn paren_expected(self) -> (r: Expected)
        ensures
            r == self.paren(),
    {
        match self {
            Kind::Function => Expected::ParenAfterFunctionName,
            Kind::Method => Expected::ParenAfterMethodName,
        }
    }

    fn brace_expected(self) -> (r: Expected)
        ensures
            r == self.brace(),
    {
        match self {
            Kind::Function => Expected::BraceBeforeFunctionBody,
            Kind::Method => Expected::BraceBeforeMethodBody,
        }
    }
}

fn starts(ty: TokenType) -> (r: bool)
    ensures
        r == starts_statement(ty),
{
    ty == TokenType::Class || ty == TokenType::For || ty == TokenType::Fun || ty == TokenType::If
        || ty == TokenType::Print || ty == TokenType::Return || ty == TokenType::Var || ty
        == TokenType::While
}

impl Parser {
    /// The tokens that are parsed.
    pub closed spec fn input(&self) -> Seq<Token> {
        self.tokens@
    }

    /// The position of the token that is read next.
    pub closed spec fn position(&self) -> int {
        self.current as int
    }

    /// The invariant: the tokens end with the end of input, and the
    /// position is among them.
    pub closed spec fn wf(&self) -> bool {
        terminated(self.tokens@) && self.current < self.tokens.len()
    }

    /// Whether the parser stands where `rule` leaves it, with the result of `rule`.
    pub closed spec fn stands<T>(&self, before: &Parser, r: Result<T, ParserError>, rule: Parsed<T>) -> bool {
        &&& self.wf()
        &&& self.tokens == before.tokens
        &&& r == rule.result
        &&& self.current == rule.pos
        &&& self.current >= before.current
        &&& (r.is_ok() ==> self.current > before.current)
    }

    /// Whether the tokens end with the end of input, as the parser asks.
    pub fn accepts(tokens: &Vec<Token>) -> (r: bool)
        ensures
            r == terminated(tokens@),
    {
        tokens.len() > 0 && tokens[tokens.len() - 1].ty == TokenType::EoF
    }

    pub fn new(tokens: Vec<Token>) -> (r: Self)
        requires
            terminated(tokens@),
        ensures
            r.wf(),
            r.input() == tokens@,
            r.position() == 0,
    {
        Self { tokens, current: 0 }
    }

    /// Parses a whole program. All errors are collected; there are
    /// statements only if there was no error.
    pub fn parse(self) -> (r: Result<List<Stmt>, ParserErrors>)
        requires
            self.wf(),
            self.position() == 0,
        ensures
            match r {
                Ok(stmts) => program(self.input(), 0).1.len() == 0 && stmts == program(
                    self.input(),
                    0,
                ).0,
                Err(errors) => errors.0.len() > 0 && errors.0@ == program(self.input(), 0).1,
            },
    {
        let mut parser = self;
        let mut stmts: List<Stmt> = List::Nil;
        let mut errors: Vec<ParserError> = Vec::new();
        let ghost ts = parser.tokens@;
        assert(errors@ + program(ts, 0).1 =~= program(ts, 0).1);
        while !parser.is_at_end()
            invariant
                parser.wf(),
                parser.tokens@ == ts,
                stmts.turned(program(ts, parser.current as int).0) == program(ts, 0).0,
                errors@ + program(ts, parser.current as int).1 == program(ts, 0).1,
            decreases remaining(ts, parser.current as int),
        {
            let ghost pos = parser.current as int;
            let ghost before = errors@;
            match parser.declaration() {
                Ok(stmt) => {
                    stmts = List::Cons(stmt, Box::new(stmts));
                },
                Err(error) => {
                    errors.push(error);
                    assert(errors@ + program(ts, parser.current as int).1 =~= before + program(
                        ts,
                        pos,
                    ).1);
                },
            }
        }
        assert(errors@ + Seq::<ParserError>::empty() =~= errors@);
        if errors.len() == 0 {
            Ok(stmts.reverse())
        } else {
            Err(ParserErrors(errors))
        }
    }

    fn declaration(&mut self) -> (r: Result<Stmt, ParserError>)
        requires
            old(self).wf(),
        ensures
            final(self).stands(
                old(self),
                r,
                declaration(old(self).tokens@, old(self).current as int),
            ),
            r.is_err() ==> final(self).current > old(self).current || at_end(
                final(self).tokens@,
                final(self).current as int,
            ),
        decreases remaining(old(self).tokens@, old(self).current as int), 38nat,
    {
        let result = match self.peek_kind() {
            TokenType::Class => {
                self.advance();
                self.class_declaration()
            },
            TokenType::Fun => {
                self.advance();
                match self.function(Kind::Function) {
                    Ok(d) => Ok(Stmt::Function(Rc::new(d))),
                    Err(error) => Err(error),
                }
            },
            TokenType::Var => {
                self.advance();
                self.var_declaration()
            },
            _ => self.statement(),
        };
        if result.is_err() {
            self.synchronize();
        }
        result
    }

    fn class_declaration(&mut self) -> (r: Result<Stmt, ParserError>)
        requires
            old(self).wf(),
        ensures
            final(self).stands(
                old(self),
                r,
                class_declaration(old(self).tokens@, old(self).current as int),
            ),
        decreases remaining(old(self).tokens@, old(self).current as int), 36nat,
    {
        let name = match self.consume(TokenType::Identifier, Expected::ClassName) {
            Ok(n) => n,
            Err(error) => {
                return Err(error);
            },
        };
        let superclass = if self.check(TokenType::Less) {
            self.advance();
            match self.consume(TokenType::Identifier, Expected::SuperclassName) {
                Ok(s) => Some(Expr::Variable { name: s, depth: None }),
                Err(error) => {
                    return Err(error);
                },
            }
        } else {
            None
        };
        match self.consume(TokenType::LeftBrace, Expected::BraceBeforeClassBody) {
            Ok(_) => {},
            Err(error) => {
                return Err(error);
            },
        }
        match self.methods() {
            Ok(ms) => Ok(Stmt::Class { name, superclass, methods: Rc::new(ms) }),
            Err(error) => Err(error),
        }
    }

    fn methods(&mut self) -> (r: Result<List<Rc<Declaration>>, ParserError>)
        requires
            old(self).wf(),
        ensures
            final(self).stands(old(self), r, methods(old(self).tokens@, old(self).current as int)),
        decreases remaining(old(self).tokens@, old(self).current as int), 35nat,
    {
        let mut read: List<Rc<Declaration>> = List::Nil;
        let ghost ts = self.tokens@;
        while !self.check(TokenType::RightBrace) && !self.is_at_end()
            invariant
                self.wf(),
                self.tokens == old(self).tokens,
                self.tokens@ == ts,
                self.current >= old(self).current,
                joined(read, methods(ts, self.current as int)) == methods(
                    ts,
                    old(self).current as int,
                ),
            decreases remaining(ts, self.current as int),
        {
            match self.function(Kind::Method) {
                Ok(m) => {
                    read = List::Cons(Rc::new(m), Box::new(read));
                },
                Err(error) => {
                    return Err(error);
                },
            }
        }
        match self.consume(TokenType::RightBrace, Expected::BraceAfterClassBody) {
            Ok(_) => Ok(read.reverse()),
            Err(error) => Err(error),
        }
    }

    fn function(&mut self, kind: Kind) -> (r: Result<Declaration, ParserError>)
        requires
            old(self).wf(),
        ensures
            final(self).stands(
                old(self),
                r,
                function(old(self).tokens@, old(self).current as int, kind),
            ),
        decreases remaining(old(self).tokens@, old(self).current as int), 28nat,
    {
        let name = match self.consume(TokenType::Identifier, kind.name_expected()) {
            Ok(n) => n,
            Err(error) => {
                return Err(error);
            },
        };
        match self.consume(TokenType::LeftParen, kind.paren_expected()) {
            Ok(_) => {},
            Err(error) => {
                return Err(error);
            },
        }
        let params = if self.check(TokenType::RightParen) {
            List::Nil
        } else {
            match self.parameters() {
                Ok(ps) => ps,
                Err(error) => {
                    return Err(error);
                },
            }
        };
        match self.consume(TokenType::RightParen, Expected::ParenAfterParameters) {
            Ok(_) => {},
            Err(error) => {
                return Err(error);
            },
        }
        match self.consume(TokenType::LeftBrace, kind.brace_expected()) {
            Ok(_) => {},
            Err(error) => {
                return Err(error);
            },
        }
        match self.block() {
            Ok(body) => Ok(Declaration { name, params, body }),
            Err(error) => Err(error),
        }
    }

    fn parameters(&mut self) -> (r: Result<List<Token>, ParserError>)
        requires
            old(self).wf(),
        ensures
            final(self).stands(
                old(self),
                r,
                parameters(old(self).tokens@, old(self).current as int, 0),
            ),
    {
        let mut read: List<Token> = List::Nil;
        let mut count: usize = 0;
        let ghost ts = self.tokens@;
        loop
            invariant
                self.wf(),
                self.tokens == old(self).tokens,
                self.tokens@ == ts,
                self.current >= old(self).current,
                count < LIMIT,
                joined(read, parameters(ts, self.current as int, count as nat)) == parameters(
                    ts,
                    old(self).current as int,
                    0,
                ),
            decreases remaining(ts, self.current as int),
        {
            match self.consume(TokenType::Identifier, Expected::ParameterName) {
                Ok(p) => {
                    read = List::Cons(p, Box::new(read));
                },
                Err(error) => {
                    return Err(error);
                },
            }
            if self.check(TokenType::Comma) {
                self.advance();
                if count + 1 >= LIMIT {
                    return Err(ParserError::TooManyParameters(self.peek().clone()));
                }
                count += 1;
            } else {
                return Ok(read.reverse());
            }
        }
    }

    fn var_declaration(&mut self) -> (r: Result<Stmt, ParserError>)
        requires
            old(self).wf(),
        ensures
            final(self).stands(
                old(self),
                r,
                var_declaration(old(self).tokens@, old(self).current as int),
            ),
        decreases remaining(old(self).tokens@, old(self).current as int), 21nat,
    {
        let name = match self.consume(TokenType::Identifier, Expected::VariableName) {
            Ok(n) => n,
            Err(error) => {
                return Err(error);
            },
        };
        if self.check(TokenType::Equal) {
            self.advance();
            match self.terminated_expression(Expected::SemicolonAfterVariable) {
                Ok(e) => Ok(Stmt::Var { name, initializer: Some(e) }),
                Err(error) => Err(error),
            }
        } else {
            match self.consume(TokenType::Semicolon, Expected::SemicolonAfterVariable) {
                Ok(_) => Ok(Stmt::Var { name, initializer: None }),
                Err(error) => Err(error),
            }
        }
    }

    fn statement(&mut self) -> (r: Result<Stmt, ParserError>)
        requires
            old(self).wf(),
        ensures
            final(self).stands(old(self), r, statement(old(self).tokens@, old(self).current as int)),
        decreases remaining(old(self).tokens@, old(self).current as int), 26nat,
    {
        match self.peek_kind() {
            TokenType::If => {
                self.advance();
                self.if_statement()
            },
            TokenType::Print => {
                self.advance();
                self.print_statement()
            },
            TokenType::Return => {
                let keyword = self.peek().clone();
                self.advance();
                self.return_statement(keyword)
            },
            TokenType::While => {
                self.advance();
                self.while_statement()
            },
            TokenType::For => {
                self.advance();
                self.for_statement()
            },
            TokenType::LeftBrace => {
                self.advance();
                match self.block() {
                    Ok(stmts) => Ok(Stmt::Block(Rc::new(stmts))),
                    Err(error) => Err(error),
                }
            },
            _ => self.expression_statement(),
        }
    }

    fn condition(&mut self, open: Expected, close: Expected) -> (r: Result<Expr, ParserError>)
        requires
            old(self).wf(),
        ensures
            final(self).stands(
                old(self),
                r,
                condition(old(self).tokens@, old(self).current as int, open, close),
            ),
        decreases remaining(old(self).tokens@, old(self).current as int), 21nat,
    {
        match self.consume(TokenType::LeftParen, open) {
            Ok(_) => {},
            Err(error) => {
                return Err(error);
            },
        }
        let value = match self.expression() {
            Ok(e) => e,
            Err(error) => {
                return Err(error);
            },
        };
        match self.consume(TokenType::RightParen, close) {
            Ok(_) => Ok(value),
            Err(error) => Err(error),
        }
    }

    fn if_statement(&mut self) -> (r: Result<Stmt, ParserError>)
        requires
            old(self).wf(),
        ensures
            final(self).stands(
                old(self),
                r,
                if_statement(old(self).tokens@, old(self).current as int),
            ),
        decreases remaining(old(self).tokens@, old(self).current as int), 22nat,
    {
        let condition = match self.condition(
            Expected::ParenAfterIf,
            Expected::ParenAfterIfCondition,
        ) {
            Ok(c) => c,
            Err(error) => {
                return Err(error);
            },
        };
        let then_branch = match self.statement() {
            Ok(t) => t,
            Err(error) => {
                return Err(error);
            },
        };
        if self.check(TokenType::Else) {
            self.advance();
            match self.statement() {
                Ok(other) => Ok(
                    Stmt::If {
                        condition,
                        then_branch: Box::new(then_branch),
                        else_branch: Some(Box::new(other)),
                    },
                ),
                Err(error) => Err(error),
            }
        } else {
            Ok(Stmt::If { condition, then_branch: Box::new(then_branch), else_branch: None })
        }
    }

    fn print_statement(&mut self) -> (r: Result<Stmt, ParserError>)
        requires
            old(self).wf(),
        ensures
            final(self).stands(
                old(self),
                r,
                print_statement(old(self).tokens@, old(self).current as int),
            ),
        decreases remaining(old(self).tokens@, old(self).current as int), 21nat,
    {
        match self.terminated_expression(Expected::SemicolonAfterValue) {
            Ok(e) => Ok(Stmt::Print(e)),
            Err(error) => Err(error),
        }
    }

    fn return_statement(&mut self, keyword: Token) -> (r: Result<Stmt, ParserError>)
        requires
            old(self).wf(),
        ensures
            final(self).stands(
                old(self),
                r,
                return_statement(old(self).tokens@, old(self).current as int, keyword),
            ),
        decreases remaining(old(self).tokens@, old(self).current as int), 21nat,
    {
        if self.check(TokenType::Semicolon) {
            self.advance();
            Ok(Stmt::Return { keyword, value: None })
        } else {
            match self.terminated_expression(Expected::SemicolonAfterReturn) {
                Ok(e) => Ok(Stmt::Return { keyword, value: Some(e) }),
                Err(error) => Err(error),
            }
        }
    }

    fn while_statement(&mut self) -> (r: Result<Stmt, ParserError>)
        requires
            old(self).wf(),
        ensures
            final(self).stands(
                old(self),
                r,
                while_statement(old(self).tokens@, old(self).current as int),
            ),
        decreases remaining(old(self).tokens@, old(self).current as int), 22nat,
    {
        let condition = match self.condition(
            Expected::ParenAfterWhile,
            Expected::ParenAfterWhileCondition,
        ) {
            Ok(c) => c,
            Err(error) => {
                return Err(error);
            },
        };
        match self.statement() {
            Ok(body) => Ok(Stmt::While { condition, body: Box::new(body) }),
            Err(error) => Err(error),
        }
    }

    fn for_initializer(&mut self) -> (r: Result<Option<Stmt>, ParserError>)
        requires
            old(self).wf(),
        ensures
            final(self).stands(
                old(self),
                r,
                for_initializer(old(self).tokens@, old(self).current as int),
            ),
        decreases remaining(old(self).tokens@, old(self).current as int), 22nat,
    {
        if self.check(TokenType::Semicolon) {
            self.advance();
            Ok(None)
        } else {
            let first = if self.check(TokenType::Var) {
                self.advance();
                self.var_declaration()
            } else {
                self.expression_statement()
            };
            match first {
                Ok(s) => Ok(Some(s)),
                Err(error) => Err(error),
            }
        }
    }

    fn for_clause(&mut self, end: TokenType, expected: Expected) -> (r: Result<
        Option<Expr>,
        ParserError,
    >)
        requires
            old(self).wf(),
        ensures
            final(self).stands(
                old(self),
                r,
                for_clause(old(self).tokens@, old(self).current as int, end, expected),
            ),
        decreases remaining(old(self).tokens@, old(self).current as int), 22nat,
    {
        if self.check(end) {
            self.advance();
            Ok(None)
        } else {
            let value = match self.expression() {
                Ok(e) => e,
                Err(error) => {
                    return Err(error);
                },
            };
            match self.consume(end, expected) {
                Ok(_) => Ok(Some(value)),
                Err(error) => Err(error),
            }
        }
    }

    fn for_statement(&mut self) -> (r: Result<Stmt, ParserError>)
        requires
            old(self).wf(),
        ensures
            final(self).stands(
                old(self),
                r,
                for_statement(old(self).tokens@, old(self).current as int),
            ),
        decreases remaining(old(self).tokens@, old(self).current as int), 23nat,
    {
        match self.consume(TokenType::LeftParen, Expected::ParenAfterFor) {
            Ok(_) => {},
            Err(error) => {
                return Err(error);
            },
        }
        let initializer = match self.for_initializer() {
            Ok(i) => i,
            Err(error) => {
                return Err(error);
            },
        };
        let condition = match self.for_clause(
            TokenType::Semicolon,
            Expected::SemicolonAfterLoopCondition,
        ) {
            Ok(c) => c,
            Err(error) => {
                return Err(error);
            },
        };
        let increment = match self.for_clause(
            TokenType::RightParen,
            Expected::ParenAfterForClauses,
        ) {
            Ok(i) => i,
            Err(error) => {
                return Err(error);
            },
        };
        match self.statement() {
            Ok(body) => Ok(desugar(initializer, condition, increment, body)),
            Err(error) => Err(error),
        }
    }

    fn block(&mut self) -> (r: Result<List<Stmt>, ParserError>)
        requires
            old(self).wf(),
        ensures
            final(self).stands(old(self), r, block(old(self).tokens@, old(self).current as int)),
        decreases remaining(old(self).tokens@, old(self).current as int), 40nat,
    {
        let mut read: List<Stmt> = List::Nil;
        let ghost ts = self.tokens@;
        while !self.check(TokenType::RightBrace) && !self.is_at_end()
            invariant
                self.wf(),
                self.tokens == old(self).tokens,
                self.tokens@ == ts,
                self.current >= old(self).current,
                joined(read, block(ts, self.current as int)) == block(
                    ts,
                    old(self).current as int,
                ),
            decreases remaining(ts, self.current as int),
        {
            match self.declaration() {
                Ok(s) => {
                    read = List::Cons(s, Box::new(read));
                },
                Err(error) => {
                    return Err(error);
                },
            }
        }
        match self.consume(TokenType::RightBrace, Expected::BraceAfterBlock) {
            Ok(_) => Ok(read.reverse()),
            Err(error) => Err(error),
        }
    }

    fn terminated_expression(&mut self, expected: Expected) -> (r: Result<Expr, ParserError>)
        requires
            old(self).wf(),
        ensures
            final(self).stands(
                old(self),
                r,
                terminated_expression(old(self).tokens@, old(self).current as int, expected),
            ),
        decreases remaining(old(self).tokens@, old(self).current as int), 20nat,
    {
        let value = match self.expression() {
            Ok(e) => e,
            Err(error) => {
                return Err(error);
            },
        };
        match self.consume(TokenType::Semicolon, expected) {
            Ok(_) => Ok(value),
            Err(error) => Err(error),
        }
    }

    fn expression_statement(&mut self) -> (r: Result<Stmt, ParserError>)
        requires
            old(self).wf(),
        ensures
            final(self).stands(
                old(self),
                r,
                expression_statement(old(self).tokens@, old(self).current as int),
            ),
        decreases remaining(old(self).tokens@, old(self).current as int), 21nat,
    {
        match self.terminated_expression(Expected::SemicolonAfterExpression) {
            Ok(e) => Ok(Stmt::Expression(e)),
            Err(error) => Err(error),
        }
    }

    fn expression(&mut self) -> (r: Result<Expr, ParserError>)
        requires
            old(self).wf(),
        ensures
            final(self).stands(
                old(self),
                r,
                expression(old(self).tokens@, old(self).current as int),
            ),
        decreases remaining(old(self).tokens@, old(self).current as int), 19nat,
    {
        self.assignment()
    }

    fn assignment(&mut self) -> (r: Result<Expr, ParserError>)
        requires
            old(self).wf(),
        ensures
            final(self).stands(
                old(self),
                r,
                assignment(old(self).tokens@, old(self).current as int),
            ),
        decreases remaining(old(self).tokens@, old(self).current as int), 18nat,
    {
        if self.is_at_end() {
            return Err(ParserError::ExpectingExpression(self.peek().clone()));
        }
        let target = match self.infix(Level::Or) {
            Ok(e) => e,
            Err(error) => {
                return Err(error);
            },
        };
        if self.check(TokenType::Equal) {
            let equals = self.peek().clone();
            self.advance();
            match self.assignment() {
                Ok(value) => match target {
                    Expr::Variable { name, depth } => Ok(
                        Expr::Assign { name, value: Box::new(value), depth: None },
                    ),
                    Expr::Get { object, name } => Ok(
                        Expr::SetField { object, name, value: Box::new(value) },
                    ),
                    _ => Err(ParserError::InvalidAssignmentTarget(equals)),
                },
                Err(error) => Err(error),
            }
        } else {
            Ok(target)
        }
    }

    fn operand(&mut self, level: Level) -> (r: Result<Expr, ParserError>)
        requires
            old(self).wf(),
        ensures
            final(self).stands(
                old(self),
                r,
                operand(old(self).tokens@, old(self).current as int, level),
            ),
        decreases remaining(old(self).tokens@, old(self).current as int), level.rank(), 0nat,
    {
        match level.next() {
            Some(next) => self.infix(next),
            None => self.unary(),
        }
    }

    fn infix(&mut self, level: Level) -> (r: Result<Expr, ParserError>)
        requires
            old(self).wf(),
        ensures
            final(self).stands(
                old(self),
                r,
                infix(old(self).tokens@, old(self).current as int, level),
            ),
        decreases remaining(old(self).tokens@, old(self).current as int), level.rank(), 2nat,
    {
        if self.is_at_end() {
            return Err(ParserError::ExpectingExpression(self.peek().clone()));
        }
        let mut left = match self.operand(level) {
            Ok(e) => e,
            Err(error) => {
                return Err(error);
            },
        };
        let ghost ts = self.tokens@;
        while !self.is_at_end() && level.holds(self.peek_kind())
            invariant
                self.wf(),
                self.tokens == old(self).tokens,
                self.tokens@ == ts,
                self.current > old(self).current,
                infix_rest(ts, self.current as int, level, left) == infix(
                    ts,
                    old(self).current as int,
                    level,
                ),
            decreases remaining(ts, self.current as int),
        {
            let operator = self.peek().clone();
            self.advance();
            match self.operand(level) {
                Ok(right) => {
                    left = level.combine(left, operator, right);
                },
                Err(error) => {
                    return Err(error);
                },
            }
        }
        Ok(left)
    }

    fn unary(&mut self) -> (r: Result<Expr, ParserError>)
        requires
            old(self).wf(),
        ensures
            final(self).stands(old(self), r, unary(old(self).tokens@, old(self).current as int)),
        decreases remaining(old(self).tokens@, old(self).current as int), 8nat,
    {
        if self.check(TokenType::Bang) || self.check(TokenType::Minus) {
            let operator = self.peek().clone();
            self.advance();
            match self.unary() {
                Ok(right) => Ok(Expr::unary(operator, right)),
                Err(error) => Err(error),
            }
        } else {
            self.call()
        }
    }

    fn call(&mut self) -> (r: Result<Expr, ParserError>)
        requires
            old(self).wf(),
        ensures
            final(self).stands(old(self), r, call(old(self).tokens@, old(self).current as int)),
        decreases remaining(old(self).tokens@, old(self).current as int), 7nat,
    {
        if self.is_at_end() {
            return Err(ParserError::ExpectingExpression(self.peek().clone()));
        }
        let mut expr = match self.primary() {
            Ok(e) => e,
            Err(error) => {
                return Err(error);
            },
        };
        let ghost ts = self.tokens@;
        loop
            invariant
                self.wf(),
                self.tokens == old(self).tokens,
                self.tokens@ == ts,
                self.current > old(self).current,
                call_rest(ts, self.current as int, expr) == call(ts, old(self).current as int),
            decreases remaining(ts, self.current as int),
        {
            if self.check(TokenType::LeftParen) {
                self.advance();
                match self.finish_call(expr) {
                    Ok(e) => {
                        expr = e;
                    },
                    Err(error) => {
                        return Err(error);
                    },
                }
            } else if self.check(TokenType::Dot) {
                self.advance();
                match self.consume(TokenType::Identifier, Expected::PropertyName) {
                    Ok(name) => {
                        expr = Expr::Get { object: Box::new(expr), name };
                    },
                    Err(error) => {
                        return Err(error);
                    },
                }
            } else {
                return Ok(expr);
            }
        }
    }

    fn finish_call(&mut self, callee: Expr) -> (r: Result<Expr, ParserError>)
        requires
            old(self).wf(),
        ensures
            final(self).stands(
                old(self),
                r,
                finish_call(old(self).tokens@, old(self).current as int, callee),
            ),
        decreases remaining(old(self).tokens@, old(self).current as int), 31nat,
    {
        let arguments = if self.check(TokenType::RightParen) {
            List::Nil
        } else {
            match self.arguments() {
                Ok(es) => es,
                Err(error) => {
                    return Err(error);
                },
            }
        };
        match self.consume(TokenType::RightParen, Expected::ParenAfterArguments) {
            Ok(paren) => Ok(
                Expr::Call { callee: Box::new(callee), paren, arguments: Box::new(arguments) },
            ),
            Err(error) => Err(error),
        }
    }

    fn arguments(&mut self) -> (r: Result<List<Expr>, ParserError>)
        requires
            old(self).wf(),
        ensures
            final(self).stands(
                old(self),
                r,
                arguments(old(self).tokens@, old(self).current as int, 0),
            ),
        decreases remaining(old(self).tokens@, old(self).current as int), 30nat,
    {
        let mut read: List<Expr> = List::Nil;
        let mut count: usize = 0;
        let ghost ts = self.tokens@;
        loop
            invariant
                self.wf(),
                self.tokens == old(self).tokens,
                self.tokens@ == ts,
                self.current >= old(self).current,
                count < LIMIT,
                joined(read, arguments(ts, self.current as int, count as nat)) == arguments(
                    ts,
                    old(self).current as int,
                    0,
                ),
            decreases remaining(ts, self.current as int),
        {
            if self.is_at_end() {
                return Err(ParserError::ExpectingExpression(self.peek().clone()));
            }
            match self.expression() {
                Ok(e) => {
                    read = List::Cons(e, Box::new(read));
                },
                Err(error) => {
                    return Err(error);
                },
            }
            if self.check(TokenType::Comma) {
                self.advance();
                if count + 1 >= LIMIT {
                    return Err(ParserError::TooManyArguments(self.peek().clone()));
                }
                count += 1;
            } else {
                return Ok(read.reverse());
            }
        }
    }

    fn primary(&mut self) -> (r: Result<Expr, ParserError>)
        requires
            old(self).wf(),
        ensures
            final(self).stands(old(self), r, primary(old(self).tokens@, old(self).current as int)),
        decreases remaining(old(self).tokens@, old(self).current as int), 4nat,
    {
        if self.is_at_end() {
            return Err(ParserError::ExpectingExpression(self.peek().clone()));
        }
        let token = self.peek().clone();
        self.advance();
        match token.ty {
            TokenType::Nil => Ok(Expr::Literal { value: Literal::Nil }),
            TokenType::False => Ok(Expr::Literal { value: Literal::Bool(false) }),
            TokenType::True => Ok(Expr::Literal { value: Literal::Bool(true) }),
            TokenType::Number | TokenType::String => Ok(
                Expr::Literal {
                    value: match token.literal {
                        Some(l) => l,
                        None => Literal::Nil,
                    },
                },
            ),
            TokenType::This => Ok(Expr::This { keyword: token, depth: None }),
            TokenType::Identifier => Ok(Expr::Variable { name: token, depth: None }),
            TokenType::LeftParen => {
                let inner = match self.expression() {
                    Ok(e) => e,
                    Err(error) => {
                        return Err(error);
                    },
                };
                match self.consume(TokenType::RightParen, Expected::ParenAfterExpression) {
                    Ok(_) => Ok(Expr::group(inner)),
                    Err(error) => Err(error),
                }
            },
            TokenType::Super => {
                match self.consume(TokenType::Dot, Expected::DotAfterSuper) {
                    Ok(_) => {},
                    Err(error) => {
                        return Err(error);
                    },
                }
                match self.consume(TokenType::Identifier, Expected::SuperclassMethodName) {
                    Ok(method) => Ok(Expr::Super { keyword: token, method, depth: None }),
                    Err(error) => Err(error),
                }
            },
            _ => Err(ParserError::ExpectingExpression(token)),
        }
    }

    /// Takes the next token if it is of kind `ty`.
    fn consume(&mut self, ty: TokenType, expected: Expected) -> (r: Result<Token, ParserError>)
        requires
            old(self).wf(),
        ensures
            final(self).stands(
                old(self),
                r,
                consume(old(self).tokens@, old(self).current as int, ty, expected),
            ),
    {
        if self.check(ty) {
            let token = self.peek().clone();
            self.advance();
            Ok(token)
        } else {
            Err(ParserError::Consume { found: self.peek().clone(), expected })
        }
    }

    fn check(&self, ty: TokenType) -> (r: bool)
        requires
            self.wf(),
        ensures
            r == (!at_end(self.tokens@, self.current as int) && kind_at(
                self.tokens@,
                self.current as int,
            ) == ty),
    {
        !self.is_at_end() && self.tokens[self.current].ty == ty
    }

    /// Moves past the next token, unless it is the end of input.
    fn advance(&mut self)
        requires
            old(self).wf(),
        ensures
            final(self).wf(),
            final(self).tokens == old(self).tokens,
            final(self).current == if at_end(old(self).tokens@, old(self).current as int) {
                old(self).current as int
            } else {
                old(self).current + 1
            },
    {
        if !self.is_at_end() {
            self.current += 1;
        }
    }

    fn is_at_end(&self) -> (r: bool)
        requires
            self.wf(),
        ensures
            r == at_end(self.tokens@, self.current as int),
    {
        self.tokens[self.current].ty == TokenType::EoF
    }

    fn peek(&self) -> (r: &Token)
        requires
            self.wf(),
        ensures
            *r == token_at(self.tokens@, self.current as int),
            *r == self.tokens@[self.current as int],
    {
        &self.tokens[self.current]
    }

    fn peek_kind(&self) -> (r: TokenType)
        requires
            self.wf(),
        ensures
            r == kind_at(self.tokens@, self.current as int),
    {
        self.tokens[self.current].ty
    }

    /// After an error: skips a token, then those up to the next boundary.
    fn synchronize(&mut self)
        requires
            old(self).wf(),
        ensures
            final(self).wf(),
            final(self).tokens == old(self).tokens,
            final(self).current == synchronize(old(self).tokens@, old(self).current as int),
            final(self).current >= old(self).current,
            final(self).current > old(self).current || at_end(
                final(self).tokens@,
                final(self).current as int,
            ),
    {
        if self.is_at_end() {
            return ;
        }
        self.current += 1;
        let ghost ts = self.tokens@;
        loop
            invariant
                self.wf(),
                self.tokens == old(self).tokens,
                self.tokens@ == ts,
                self.current > old(self).current,
                !at_end(ts, old(self).current as int),
                boundary(ts, self.current as int) == boundary(ts, old(self).current + 1),
            decreases remaining(ts, self.current as int),
        {
            if self.is_at_end() {
                return ;
            }
            if self.tokens[self.current - 1].ty == TokenType::Semicolon {
                return ;
            }
            if starts(self.tokens[self.current].ty) {
                return ;
            }
            self.current += 1;
        }
    }
}

/// What a `for` statement stands for.
fn desugar(
    initializer: Option<Stmt>,
    condition: Option<Expr>,
    increment: Option<Expr>,
    body: Stmt,
) -> (r: Stmt)
    ensures
        r == desugared(initializer, condition, increment, body),
{
    let round = match increment {
        Some(i) => Stmt::Block(
            Rc::new(
                List::Cons(body, Box::new(List::Cons(Stmt::Expression(i), Box::new(List::Nil)))),
            ),
        ),
        None => body,
    };
    let repeated = Stmt::While {
        condition: match condition {
            Some(c) => c,
            None => Expr::Literal { value: Literal::Bool(true) },
        },
        body: Box::new(round),
    };
    match initializer {
        Some(i) => Stmt::Block(
            Rc::new(List::Cons(i, Box::new(List::Cons(repeated, Box::new(List::Nil))))),
        ),
        None => repeated,
    }
}

} // verus!
