//! Functions as values.

use crate::error::RuntimeError;
use crate::list::List;
use crate::interpreter::{value_result, value_views, Interpreter};
use crate::semantics::{call, call_function};
use crate::stmt::{Declaration, Stmt};
use crate::token::Token;
use crate::value::Value;
use std::rc::Rc;
use vstd::prelude::*;

verus! {

/// A function value: what was declared, the frame it was declared in, and
/// whether it is the initializer of a class. Assignments made in that frame
/// after the function was made are seen by its body.
#[derive(Debug)]
pub struct Function {
    pub declaration: Rc<Declaration>,
    pub closure: usize,
    pub is_initializer: bool,
}

impl Clone for Function {
    fn clone(&self) -> (r: Self)
        ensures
            r == *self,
    {
        Function {
            declaration: self.declaration.clone(),
            closure: self.closure,
            is_initializer: self.is_initializer,
        }
    }
}

impl Value {
    /// The number of arguments that a call of the value must bring, if the
    /// value can be called.
    pub fn arity(&self, interpreter: &Interpreter) -> (r: Option<usize>)
        ensures
            r == interpreter@.arity(self@),
    {
        interpreter.arity(self)
    }

    /// Calls the value with arguments.
    pub fn call(&self, interpreter: &mut Interpreter, arguments: &Vec<Value>, site: &Token, fuel: u64) -> (r:
        Result<Value, RuntimeError>)
        requires
            old(interpreter).wf(),
            old(interpreter)@.known(self@),
            old(interpreter)@.all_known(value_views(arguments@)),
        ensures
            final(interpreter).wf(),
            final(interpreter)@.extends(old(interpreter)@),
            final(interpreter)@.sound(value_result(r)),
            (value_result(r), final(interpreter)@) == call(
                self@,
                value_views(arguments@),
                *site,
                old(interpreter)@,
                fuel as nat,
            ),
    {
        interpreter.call(self, arguments, site, fuel)
    }
}

impl Function {
    /// The parameters of the function.
    pub open spec fn parameters(self) -> List<Token> {
        self.declaration.params
    }

    /// The statements of the function.
    pub open spec fn body(self) -> List<Stmt> {
        self.declaration.body
    }

    /// The number of arguments that a call must bring.
    pub open spec fn params(self) -> usize {
        self.declaration.params.size()
    }

    pub fn arity(&self) -> (r: usize)
        ensures
            r == self.params(),
    {
        self.declaration.params.count()
    }

    /// Calls the function with arguments.
    pub fn call(&self, interpreter: &mut Interpreter, arguments: &Vec<Value>, site: &Token, fuel: u64) -> (r:
        Result<Value, RuntimeError>)
        requires
            old(interpreter).wf(),
            self.closure < old(interpreter)@.env.frames.len(),
            old(interpreter)@.all_known(value_views(arguments@)),
        ensures
            final(interpreter).wf(),
            final(interpreter)@.extends(old(interpreter)@),
            final(interpreter)@.sound(value_result(r)),
            (value_result(r), final(interpreter)@) == call_function(
                *self,
                value_views(arguments@),
                *site,
                old(interpreter)@,
                fuel as nat,
            ),
    {
        interpreter.call_function(self, arguments, site, fuel)
    }

    /// The function with another frame to close over.
    pub fn with_environment(self, closure: usize) -> (r: Self)
        ensures
            r == (Function { closure, ..self }),
    {
        Function { closure, ..self }
    }
}

} // verus!
