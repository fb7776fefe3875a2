//! The functions that the host provides to every program.

use crate::error::RuntimeError;
use crate::interpreter::{value_result, value_views, Interpreter};
use crate::token::Token;
use crate::value::{Callable, Native, Value, ValueView};
use vstd::prelude::*;

verus! {

/// `clock()`: the time in seconds, as the host has set it.
#[derive(Debug)]
pub struct Clock {}

/// `readLines()`: the next line of input, or `nil` if there is none or it is empty.
#[derive(Debug)]
pub struct ReadLines {}

/// `parseInt(text)`: the number that a text writes.
#[derive(Debug)]
pub struct ParseInt {}

impl Native {
    /// The number of arguments that the native function takes.
    pub open spec fn params(self) -> usize {
        match self {
            Native::Clock => 0,
            Native::ReadLines => 0,
            Native::ParseInt => 1,
        }
    }

    pub fn arity(&self) -> (r: usize)
        ensures
            r == self.params(),
    {
        match self {
            Native::Clock => 0,
            Native::ReadLines => 0,
            Native::ParseInt => 1,
        }
    }
}

impl Clock {
    pub fn value() -> (r: Value)
        ensures
            r@ == ValueView::Callable(Callable::Native(Native::Clock)),
    {
        Value::Callable(Callable::Native(Native::Clock))
    }

    pub fn arity(&self) -> (r: usize)
        ensures
            r == Native::Clock.params(),
    {
        0
    }

    pub fn call(&self, interpreter: &mut Interpreter, arguments: &Vec<Value>, site: &Token) -> (r:
        Result<Value, RuntimeError>)
        requires
            old(interpreter).wf(),
        ensures
            final(interpreter).wf(),
            (value_result(r), final(interpreter)@) == old(interpreter)@.native(
                Native::Clock,
                value_views(arguments@),
                *site,
            ),
    {
        interpreter.native(Native::Clock, arguments, site)
    }
}

impl ReadLines {
    pub fn value() -> (r: Value)
        ensures
            r@ == ValueView::Callable(Callable::Native(Native::ReadLines)),
    {
        Value::Callable(Callable::Native(Native::ReadLines))
    }

    pub fn arity(&self) -> (r: usize)
        ensures
            r == Native::ReadLines.params(),
    {
        0
    }

    pub fn call(&self, interpreter: &mut Interpreter, arguments: &Vec<Value>, site: &Token) -> (r:
        Result<Value, RuntimeError>)
        requires
            old(interpreter).wf(),
        ensures
            final(interpreter).wf(),
            (value_result(r), final(interpreter)@) == old(interpreter)@.native(
                Native::ReadLines,
                value_views(arguments@),
                *site,
            ),
    {
        interpreter.native(Native::ReadLines, arguments, site)
    }
}

impl ParseInt {
    pub fn value() -> (r: Value)
        ensures
            r@ == ValueView::Callable(Callable::Native(Native::ParseInt)),
    {
        Value::Callable(Callable::Native(Native::ParseInt))
    }

    pub fn arity(&self) -> (r: usize)
        ensures
            r == Native::ParseInt.params(),
    {
        1
    }

    pub fn call(&self, interpreter: &mut Interpreter, arguments: &Vec<Value>, site: &Token) -> (r:
        Result<Value, RuntimeError>)
        requires
            old(interpreter).wf(),
        ensures
            final(interpreter).wf(),
            (value_result(r), final(interpreter)@) == old(interpreter)@.native(
                Native::ParseInt,
                value_views(arguments@),
                *site,
            ),
    {
        interpreter.native(Native::ParseInt, arguments, site)
    }
}

} // verus!
