//! From source text to its effect: scanning, parsing, resolving and
//! evaluating, one after the other; the first stage that fails ends the run.

use crate::error::{ParserError, ParserErrors, RuntimeError, RuntimeErrorView, ScannerErrors};
use crate::grammar::{program, terminated};
use crate::interpreter::Interpreter;
use crate::parser::Parser;
use crate::resolver::{resolved, ResolveError, Resolver};
use crate::scanner::{error_views, errors_of, lexed, token_views, Scanner};
use crate::semantics::{exec_all, State};
use crate::token::Token;
use vstd::prelude::*;

verus! {

/// Why a run ended early.
#[derive(Debug)]
pub enum Error {
    Scanner(ScannerErrors),
    Parser(ParserErrors),
    Resolver(ResolveError),
    Runtime(RuntimeError),
}

/// How the run of a token sequence ends.
pub enum Verdict {
    Done,
    Parser(Seq<ParserError>),
    Resolver(ResolveError),
    Runtime(RuntimeErrorView),
}

/// The end of the run of a token sequence, and the state it leaves: the
/// state changes only if the tokens parse and resolve.
pub open spec fn ran(ts: Seq<Token>, st: State, fuel: nat) -> (Verdict, State) {
    if program(ts, 0).1.len() > 0 {
        (Verdict::Parser(program(ts, 0).1), st)
    } else {
        match resolved(program(ts, 0).0) {
            Err(error) => (Verdict::Resolver(error), st),
            Ok(stmts) => match exec_all(stmts, st, fuel).0 {
                Ok(()) => (Verdict::Done, exec_all(stmts, st, fuel).1),
                Err(error) => (Verdict::Runtime(error), exec_all(stmts, st, fuel).1),
            },
        }
    }
}

/// The verdict that a result of `run_tokens` stands for.
pub open spec fn verdict(r: Result<(), Error>) -> Verdict {
    match r {
        Ok(()) => Verdict::Done,
        Err(Error::Parser(errors)) => Verdict::Parser(errors.0@),
        Err(Error::Resolver(error)) => Verdict::Resolver(error),
        Err(Error::Runtime(error)) => Verdict::Runtime(error@),
        Err(Error::Scanner(errors)) => Verdict::Done,
    }
}

/// Parses, resolves and evaluates a token sequence.
pub fn run_tokens(tokens: Vec<Token>, interpreter: &mut Interpreter, fuel: u64) -> (r: Result<
    (),
    Error,
>)
    requires
        old(interpreter).wf(),
        terminated(tokens@),
    ensures
        final(interpreter).wf(),
        !(r matches Err(Error::Scanner(_))),
        (verdict(r), final(interpreter)@) == ran(tokens@, old(interpreter)@, fuel as nat),
{
    let parser = Parser::new(tokens);
    let stmts = match parser.parse() {
        Ok(stmts) => stmts,
        Err(errors) => {
            return Err(Error::Parser(errors));
        },
    };
    let mut resolver = Resolver::new();
    let program = match resolver.resolve(&stmts) {
        Ok(program) => program,
        Err(error) => {
            return Err(Error::Resolver(error));
        },
    };
    match interpreter.interpret(&program, fuel) {
        Ok(()) => Ok(()),
        Err(error) => Err(Error::Runtime(error)),
    }
}

/// Runs a source text: with scanner errors nothing else happens; else the
/// tokens that the scanner makes of the text are run.
pub fn run(input: String, interpreter: &mut Interpreter, fuel: u64) -> (r: Result<(), Error>)
    requires
        old(interpreter).wf(),
        input@.len() < usize::MAX,
    ensures
        final(interpreter).wf(),
        match r {
            Err(Error::Scanner(errors)) => errors.0.len() > 0 && error_views(errors.0@)
                == errors_of(input@) && final(interpreter)@ == old(interpreter)@,
            _ => errors_of(input@).len() == 0 && ran(
                lexed(input@),
                old(interpreter)@,
                fuel as nat,
            ) == (verdict(r), final(interpreter)@),
        },
{
    let scanner = Scanner::new(input);
    let tokens = match scanner.scan_tokens() {
        Ok(tokens) => tokens,
        Err(errors) => {
            return Err(Error::Scanner(errors));
        },
    };
    proof {
        let views = token_views(tokens@);
        assert(views.len() == tokens@.len());
        assert(views.last() == tokens@.last()@);
    }
    run_tokens(tokens, interpreter, fuel)
}

} // verus!
