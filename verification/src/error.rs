//! What can go wrong before a program runs: while scanning and parsing.

use crate::text::{decimal, push_decimal, push_str, string_of};
use crate::value::{Value, ValueView};
use crate::token::Token;
use vstd::prelude::*;

verus! {

/// Why the scanner refused a piece of the source text.
#[derive(Debug)]
pub enum ScannerError {
    /// A character that starts no token.
    Character(char),
    /// A string without its closing quote.
    String,
    /// Digits that do not write a number.
    Number(String),
}

pub enum ScannerErrorView {
    Character(char),
    String,
    Number(Seq<char>),
}

impl View for ScannerError {
    type V = ScannerErrorView;

    open spec fn view(&self) -> ScannerErrorView {
        match self {
            ScannerError::Character(c) => ScannerErrorView::Character(*c),
            ScannerError::String => ScannerErrorView::String,
            ScannerError::Number(s) => ScannerErrorView::Number(s@),
        }
    }
}

impl ScannerErrorView {
    pub open spec fn message(self) -> Seq<char> {
        match self {
            ScannerErrorView::Character(c) => "Unexpected character `"@.push(c) + "`."@,
            ScannerErrorView::String => "Unterminated string."@,
            ScannerErrorView::Number(s) => "Could not convert "@ + s + " to a number."@,
        }
    }
}

impl ScannerError {
    /// The text shown to the user for this error.
    pub fn message(&self) -> (r: String)
        ensures
            r@ == self@.message(),
    {
        let mut out: Vec<char> = Vec::new();
        match self {
            ScannerError::Character(c) => {
                push_str(&mut out, "Unexpected character `");
                out.push(*c);
                push_str(&mut out, "`.");
            },
            ScannerError::String => {
                push_str(&mut out, "Unterminated string.");
            },
            ScannerError::Number(s) => {
                push_str(&mut out, "Could not convert ");
                push_str(&mut out, s.as_str());
                push_str(&mut out, " to a number.");
            },
        }
        string_of(&out)
    }
}

/// All the errors of one scan, in the order of the source text.
#[derive(Debug)]
pub struct ScannerErrors(pub Vec<ScannerError>);

/// The messages of `errors[from..]`, each followed by a line feed.
pub open spec fn scanner_report(errors: Seq<ScannerError>, from: int) -> Seq<char>
    decreases errors.len() - from,
{
    if 0 <= from < errors.len() {
        errors[from]@.message().push('\n') + scanner_report(errors, from + 1)
    } else {
        Seq::empty()
    }
}

impl ScannerErrors {
    /// The text shown to the user: one line for each error.
    pub fn message(&self) -> (r: String)
        ensures
            r@ == scanner_report(self.0@, 0),
    {
        let mut out: Vec<char> = Vec::new();
        let mut i: usize = 0;
        while i < self.0.len()
            invariant
                i <= self.0.len(),
                out@ + scanner_report(self.0@, i as int) == scanner_report(self.0@, 0),
            decreases self.0.len() - i,
        {
            let ghost before = out@;
            let line = self.0[i].message();
            push_str(&mut out, line.as_str());
            out.push('\n');
            assert(out@ + scanner_report(self.0@, i + 1) =~= before + scanner_report(
                self.0@,
                i as int,
            ));
            i += 1;
        }
        assert(out@ + Seq::<char>::empty() =~= out@);
        string_of(&out)
    }
}


/// What the parser wanted to see next.
#[derive(Debug, Clone, Copy, PartialEq, Eq, Structural)]
pub enum Expected {
    FunctionName,
    MethodName,
    ParenAfterFunctionName,
    ParenAfterMethodName,
    ParameterName,
    ParenAfterParameters,
    BraceBeforeFunctionBody,
    BraceBeforeMethodBody,
    ClassName,
    SuperclassName,
    BraceBeforeClassBody,
    BraceAfterClassBody,
    VariableName,
    SemicolonAfterVariable,
    ParenAfterIf,
    ParenAfterIfCondition,
    SemicolonAfterValue,
    SemicolonAfterReturn,
    ParenAfterWhile,
    ParenAfterWhileCondition,
    ParenAfterFor,
    SemicolonAfterLoopCondition,
    ParenAfterForClauses,
    BraceAfterBlock,
    SemicolonAfterExpression,
    ParenAfterArguments,
    ParenAfterExpression,
    PropertyName,
    DotAfterSuper,
    SuperclassMethodName,
}

impl Expected {
    pub open spec fn text(self) -> Seq<char> {
        match self {
            Expected::FunctionName => "Expect function name."@,
            Expected::MethodName => "Expect method name."@,
            Expected::ParenAfterFunctionName => "Expect `(` after function name."@,
            Expected::ParenAfterMethodName => "Expect `(` after method name."@,
            Expected::ParameterName => "Expect parameter name."@,
            Expected::ParenAfterParameters => "Expect `)` after parameters."@,
            Expected::BraceBeforeFunctionBody => "Expect `{` before function body."@,
            Expected::BraceBeforeMethodBody => "Expect `{` before method body."@,
            Expected::ClassName => "Expect class name."@,
            Expected::SuperclassName => "Expect superclass name."@,
            Expected::BraceBeforeClassBody => "Expect `{` before class body."@,
            Expected::BraceAfterClassBody => "Expect `}` after class body."@,
            Expected::VariableName => "Expect variable name."@,
            Expected::SemicolonAfterVariable => "Expect `;` after variable declaration."@,
            Expected::ParenAfterIf => "Expect `(` after `if`."@,
            Expected::ParenAfterIfCondition => "Expect `)` after `if` condition."@,
            Expected::SemicolonAfterValue => "Expect `;` after value."@,
            Expected::SemicolonAfterReturn => "Expect `;` after return."@,
            Expected::ParenAfterWhile => "Expect `(` after `while`."@,
            Expected::ParenAfterWhileCondition => "Expect `)` after `while` condition."@,
            Expected::ParenAfterFor => "Expect `(` after `for`."@,
            Expected::SemicolonAfterLoopCondition => "Expect `;` after loop condition."@,
            Expected::ParenAfterForClauses => "Expect `)` after for clauses."@,
            Expected::BraceAfterBlock => "Expect `}` after block."@,
            Expected::SemicolonAfterExpression => "Expect `;` after expression."@,
            Expected::ParenAfterArguments => "Expect `)` after arguments."@,
            Expected::ParenAfterExpression => "Expect `)` after expression."@,
            Expected::PropertyName => "Expect property name after `.`."@,
            Expected::DotAfterSuper => "Expect `.` after `super`."@,
            Expected::SuperclassMethodName => "Expect superclass method name."@,
        }
    }

    pub fn describe(&self) -> (r: String)
        ensures
            r@ == self.text(),
    {
        match self {
            Expected::FunctionName => "Expect function name.".to_owned(),
            Expected::MethodName => "Expect method name.".to_owned(),
            Expected::ParenAfterFunctionName => "Expect `(` after function name.".to_owned(),
            Expected::ParenAfterMethodName => "Expect `(` after method name.".to_owned(),
            Expected::ParameterName => "Expect parameter name.".to_owned(),
            Expected::ParenAfterParameters => "Expect `)` after parameters.".to_owned(),
            Expected::BraceBeforeFunctionBody => "Expect `{` before function body.".to_owned(),
            Expected::BraceBeforeMethodBody => "Expect `{` before method body.".to_owned(),
            Expected::ClassName => "Expect class name.".to_owned(),
            Expected::SuperclassName => "Expect superclass name.".to_owned(),
            Expected::BraceBeforeClassBody => "Expect `{` before class body.".to_owned(),
            Expected::BraceAfterClassBody => "Expect `}` after class body.".to_owned(),
            Expected::VariableName => "Expect variable name.".to_owned(),
            Expected::SemicolonAfterVariable => "Expect `;` after variable declaration.".to_owned(),
            Expected::ParenAfterIf => "Expect `(` after `if`.".to_owned(),
            Expected::ParenAfterIfCondition => "Expect `)` after `if` condition.".to_owned(),
            Expected::SemicolonAfterValue => "Expect `;` after value.".to_owned(),
            Expected::SemicolonAfterReturn => "Expect `;` after return.".to_owned(),
            Expected::ParenAfterWhile => "Expect `(` after `while`.".to_owned(),
            Expected::ParenAfterWhileCondition => "Expect `)` after `while` condition.".to_owned(),
            Expected::ParenAfterFor => "Expect `(` after `for`.".to_owned(),
            Expected::SemicolonAfterLoopCondition => "Expect `;` after loop condition.".to_owned(),
            Expected::ParenAfterForClauses => "Expect `)` after for clauses.".to_owned(),
            Expected::BraceAfterBlock => "Expect `}` after block.".to_owned(),
            Expected::SemicolonAfterExpression => "Expect `;` after expression.".to_owned(),
            Expected::ParenAfterArguments => "Expect `)` after arguments.".to_owned(),
            Expected::ParenAfterExpression => "Expect `)` after expression.".to_owned(),
            Expected::PropertyName => "Expect property name after `.`.".to_owned(),
            Expected::DotAfterSuper => "Expect `.` after `super`.".to_owned(),
            Expected::SuperclassMethodName => "Expect superclass method name.".to_owned(),
        }
    }
}

/// Why the parser refused a piece of the token sequence, with the token
/// at which it gave up.
#[derive(Debug)]
pub enum ParserError {
    ExpectingExpression(Token),
    TooManyArguments(Token),
    TooManyParameters(Token),
    InvalidAssignmentTarget(Token),
    Consume { found: Token, expected: Expected },
}

impl ParserError {
    /// The token at which the parser gave up.
    pub open spec fn place(self) -> Token {
        match self {
            ParserError::ExpectingExpression(t) => t,
            ParserError::TooManyArguments(t) => t,
            ParserError::TooManyParameters(t) => t,
            ParserError::InvalidAssignmentTarget(t) => t,
            ParserError::Consume { found, expected } => found,
        }
    }

    /// What was wrong there.
    pub open spec fn reason(self) -> Seq<char> {
        match self {
            ParserError::ExpectingExpression(_) => "Expecting expression."@,
            ParserError::TooManyArguments(_) => "Can't have more than 255 arguments."@,
            ParserError::TooManyParameters(_) => "Can't have more than 255 parameters."@,
            ParserError::InvalidAssignmentTarget(_) => "Invalid assignment target."@,
            ParserError::Consume { found, expected } => expected.text(),
        }
    }

    /// The text shown to the user: `[line N] Error at '<lexeme>': <reason>`.
    pub open spec fn text(self) -> Seq<char> {
        located(self.place(), self.reason())
    }

    pub fn token(&self) -> (r: &Token)
        ensures
            *r == self.place(),
    {
        match self {
            ParserError::ExpectingExpression(t) => t,
            ParserError::TooManyArguments(t) => t,
            ParserError::TooManyParameters(t) => t,
            ParserError::InvalidAssignmentTarget(t) => t,
            ParserError::Consume { found, expected } => found,
        }
    }

    pub fn message(&self) -> (r: String)
        ensures
            r@ == self.text(),
    {
        let reason = match self {
            ParserError::ExpectingExpression(_) => "Expecting expression.".to_owned(),
            ParserError::TooManyArguments(_) => "Can't have more than 255 arguments.".to_owned(),
            ParserError::TooManyParameters(_) => "Can't have more than 255 parameters.".to_owned(),
            ParserError::InvalidAssignmentTarget(_) => "Invalid assignment target.".to_owned(),
            ParserError::Consume { found, expected } => expected.describe(),
        };
        locate(self.token(), reason.as_str())
    }
}

/// A message with the line and the lexeme of the token that it is about.
pub open spec fn located(token: Token, reason: Seq<char>) -> Seq<char> {
    "[line "@ + decimal(token.line as nat) + "] Error at '"@ + token.lexeme@ + "': "@ + reason
}

pub fn locate(token: &Token, reason: &str) -> (r: String)
    ensures
        r@ == located(*token, reason@),
{
    let mut out: Vec<char> = Vec::new();
    push_str(&mut out, "[line ");
    push_decimal(&mut out, token.line);
    push_str(&mut out, "] Error at '");
    push_str(&mut out, token.lexeme.as_str());
    push_str(&mut out, "': ");
    push_str(&mut out, reason);
    string_of(&out)
}

/// All the errors of one parse, in the order of the tokens.
#[derive(Debug)]
pub struct ParserErrors(pub Vec<ParserError>);

/// The messages of `errors[from..]`, each followed by a line feed.
pub open spec fn parser_report(errors: Seq<ParserError>, from: int) -> Seq<char>
    decreases errors.len() - from,
{
    if 0 <= from < errors.len() {
        errors[from].text().push('\n') + parser_report(errors, from + 1)
    } else {
        Seq::empty()
    }
}

impl ParserErrors {
    /// The text shown to the user: one line for each error.
    pub fn message(&self) -> (r: String)
        ensures
            r@ == parser_report(self.0@, 0),
    {
        let mut out: Vec<char> = Vec::new();
        let mut i: usize = 0;
        while i < self.0.len()
            invariant
                i <= self.0.len(),
                out@ + parser_report(self.0@, i as int) == parser_report(self.0@, 0),
            decreases self.0.len() - i,
        {
            let ghost before = out@;
            let line = self.0[i].message();
            push_str(&mut out, line.as_str());
            out.push('\n');
            assert(out@ + parser_report(self.0@, i + 1) =~= before + parser_report(
                self.0@,
                i as int,
            ));
            i += 1;
        }
        assert(out@ + Seq::<char>::empty() =~= out@);
        string_of(&out)
    }
}

/// Why a running program stopped.
#[derive(Debug, Clone, Copy, PartialEq, Eq, Structural)]
pub enum Failure {
    /// An operand of `-`, `*`, `/`, `<`, `<=`, `>` or `>=` is not a number.
    OperandNotNumber,
    /// The operands of `+` are neither two numbers nor hold a string.
    OperandsNotAddable,
    /// The token is no operator of the expression it stands in.
    UnknownOperator,
    UndefinedVariable,
    UndefinedProperty,
    /// What is called is neither a function nor a class.
    NotCallable,
    Arity { expected: usize, got: usize },
    /// A property is read from what is no instance.
    NoProperties,
    /// A field is set on what is no instance.
    NoFields,
    SuperclassNotClass,
    /// A native function got an argument that it cannot use.
    NativeArgument,
    /// The value refers to a function, class or instance that does not
    /// exist. No evaluation in a well-formed interpreter ends so.
    Dangling,
    /// The budget of calls and loop rounds is used up.
    Exhausted,
}

/// What leaves an evaluation instead of a value: an error, or the value of
/// a `return` on its way to the call that it returns from.
#[derive(Debug)]
pub enum RuntimeError {
    Thrown { failure: Failure, subject: String, line: usize },
    Return(Value),
}

pub enum RuntimeErrorView {
    Thrown { failure: Failure, subject: Seq<char>, line: usize },
    Return(ValueView),
}

impl View for RuntimeError {
    type V = RuntimeErrorView;

    open spec fn view(&self) -> RuntimeErrorView {
        match self {
            RuntimeError::Thrown { failure, subject, line } => RuntimeErrorView::Thrown {
                failure: *failure,
                subject: subject@,
                line: *line,
            },
            RuntimeError::Return(v) => RuntimeErrorView::Return(v@),
        }
    }
}

/// The error `failure` at `token`.
pub open spec fn thrown_at(failure: Failure, token: Token) -> RuntimeErrorView {
    RuntimeErrorView::Thrown { failure, subject: token.lexeme@, line: token.line }
}

/// The error `failure` at no place in the source.
pub open spec fn thrown(failure: Failure) -> RuntimeErrorView {
    RuntimeErrorView::Thrown { failure, subject: Seq::empty(), line: 0 }
}

impl Failure {
    /// What the failure is called in a message.
    pub open spec fn text(self) -> Seq<char> {
        match self {
            Failure::OperandNotNumber => "Operand must be a number."@,
            Failure::OperandsNotAddable =>
                "Operator `+` can only be applied to `string` or `number`."@,
            Failure::UnknownOperator => "Unknown operator."@,
            Failure::UndefinedVariable => "Undefined variable."@,
            Failure::UndefinedProperty => "Undefined property."@,
            Failure::NotCallable => "Can only call functions or classes."@,
            Failure::Arity { expected, got } => "Expected "@ + decimal(expected as nat)
                + " arguments but got "@ + decimal(got as nat) + "."@,
            Failure::NoProperties => "Only instances have properties."@,
            Failure::NoFields => "Only instances have fields."@,
            Failure::SuperclassNotClass => "Superclass must be a class."@,
            Failure::NativeArgument => "Invalid argument to a native function."@,
            Failure::Dangling => "Reference to an object that does not exist."@,
            Failure::Exhausted => "Evaluation budget exhausted."@,
        }
    }

    pub fn describe(&self) -> (r: String)
        ensures
            r@ == self.text(),
    {
        let mut out: Vec<char> = Vec::new();
        match self {
            Failure::OperandNotNumber => push_str(&mut out, "Operand must be a number."),
            Failure::OperandsNotAddable => push_str(
                &mut out,
                "Operator `+` can only be applied to `string` or `number`.",
            ),
            Failure::UnknownOperator => push_str(&mut out, "Unknown operator."),
            Failure::UndefinedVariable => push_str(&mut out, "Undefined variable."),
            Failure::UndefinedProperty => push_str(&mut out, "Undefined property."),
            Failure::NotCallable => push_str(&mut out, "Can only call functions or classes."),
            Failure::Arity { expected, got } => {
                push_str(&mut out, "Expected ");
                push_decimal(&mut out, *expected);
                push_str(&mut out, " arguments but got ");
                push_decimal(&mut out, *got);
                push_str(&mut out, ".");
            },
            Failure::NoProperties => push_str(&mut out, "Only instances have properties."),
            Failure::NoFields => push_str(&mut out, "Only instances have fields."),
            Failure::SuperclassNotClass => push_str(&mut out, "Superclass must be a class."),
            Failure::NativeArgument => push_str(&mut out, "Invalid argument to a native function."),
            Failure::Dangling => push_str(&mut out, "Reference to an object that does not exist."),
            Failure::Exhausted => push_str(&mut out, "Evaluation budget exhausted."),
        }
        string_of(&out)
    }
}

impl RuntimeErrorView {
    /// The text shown to the user: the line, the token, and what failed.
    pub open spec fn message(self) -> Seq<char> {
        match self {
            RuntimeErrorView::Thrown { failure, subject, line } => "[line "@ + decimal(
                line as nat,
            ) + "] Error at '"@ + subject + "': "@ + failure.text(),
            RuntimeErrorView::Return(_) => "Can't return from top-level code."@,
        }
    }
}

impl RuntimeError {
    pub fn thrown_at(failure: Failure, token: &Token) -> (r: RuntimeError)
        ensures
            r@ == thrown_at(failure, *token),
    {
        RuntimeError::Thrown { failure, subject: token.lexeme.clone(), line: token.line }
    }

    pub fn thrown(failure: Failure) -> (r: RuntimeError)
        ensures
            r@ == thrown(failure),
    {
        RuntimeError::Thrown { failure, subject: String::new(), line: 0 }
    }

    /// The text shown to the user for this error.
    pub fn message(&self) -> (r: String)
        ensures
            r@ == self@.message(),
    {
        let mut out: Vec<char> = Vec::new();
        match self {
            RuntimeError::Thrown { failure, subject, line } => {
                push_str(&mut out, "[line ");
                push_decimal(&mut out, *line);
                push_str(&mut out, "] Error at '");
                push_str(&mut out, subject.as_str());
                push_str(&mut out, "': ");
                let text = failure.describe();
                push_str(&mut out, text.as_str());
            },
            RuntimeError::Return(_) => {
                push_str(&mut out, "Can't return from top-level code.");
            },
        }
        string_of(&out)
    }
}

} // verus!
