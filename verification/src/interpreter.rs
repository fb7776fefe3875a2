//! The interpreter: the state of a running program, and evaluation.

use crate::callable::Function;
use crate::class::{Class};
use crate::environment::{lookup_keeps_each, Environment};
use crate::error::{thrown, thrown_at, Failure, RuntimeError, RuntimeErrorView};
use crate::expr::Expr;
use crate::instance::{Instance, InstanceView};
use crate::list::List;
use crate::number::{is_decimal, Number};
use crate::semantics::{
    bound_parameters, call, call_function, declared_class, eval, eval_all, exec,
    exec_all, instantiate, run_while, unary, Floor, State,
};
use crate::stmt::{Declaration, Stmt};
use crate::token::{same_text, Literal, Token, TokenType};
use crate::value::{Callable, Native, Value, ValueView};
use std::rc::Rc;
use vstd::prelude::*;
use vstd::string::StringExecFns;

verus! {

/// A running program: its scopes, the functions, classes and instances it
/// has made, what it has printed, and what the host lets it read.
#[derive(Debug)]
pub struct Interpreter {
    env: Environment,
    functions: Vec<Function>,
    classes: Vec<Class>,
    instances: Vec<Instance>,
    output: Vec<String>,
    input: Vec<String>,
    read: usize,
    clock: Number,
}

pub open spec fn text_views(lines: Seq<String>) -> Seq<Seq<char>> {
    lines.map_values(|s: String| s@)
}

pub open spec fn instance_views(instances: Seq<Instance>) -> Seq<InstanceView> {
    instances.map_values(|i: Instance| i@)
}

pub open spec fn value_views(values: Seq<Value>) -> Seq<ValueView> {
    values.map_values(|v: Value| v@)
}

pub open spec fn value_result(r: Result<Value, RuntimeError>) -> Result<ValueView, RuntimeErrorView> {
    match r {
        Ok(v) => Ok(v@),
        Err(e) => Err(e@),
    }
}

pub open spec fn values_result(r: Result<Vec<Value>, RuntimeError>) -> Result<
    Seq<ValueView>,
    RuntimeErrorView,
> {
    match r {
        Ok(vs) => Ok(value_views(vs@)),
        Err(e) => Err(e@),
    }
}

pub open spec fn unit_result(r: Result<(), RuntimeError>) -> Result<(), RuntimeErrorView> {
    match r {
        Ok(()) => Ok(()),
        Err(e) => Err(e@),
    }
}

impl View for Interpreter {
    type V = State;

    closed spec fn view(&self) -> State {
        State {
            env: self.env@,
            functions: self.functions@,
            classes: self.classes@,
            instances: instance_views(self.instances@),
            output: text_views(self.output@),
            input: text_views(self.input@).subrange(self.read as int, self.input.len() as int),
            clock: self.clock,
        }
    }
}

impl Interpreter {
    /// The invariant: the state is well formed.
    pub closed spec fn wf(&self) -> bool {
        self@.wf() && self.read <= self.input.len()
    }

    /// A well-formed interpreter holds a well-formed state.
    pub proof fn wf_state(&self)
        requires
            self.wf(),
        ensures
            self@.wf(),
    {
    }

    /// An interpreter whose globals are the native functions.
    pub fn new() -> (r: Self)
        ensures
            r.wf(),
            r@ == State::initial(),
    {
        let mut env = Environment::new();
        let ghost empty = State { env: env@, ..State::initial() };
        assert(empty.wf()) by {
            assert(empty.env.frames[0].values.len() == 0);
        }
        env.define("clock", Value::Callable(Callable::Native(Native::Clock)));
        proof {
            empty.bound_keeps_wf(0, "clock"@, ValueView::Callable(Callable::Native(Native::Clock)));
        }
        let ghost one = State { env: env@, ..empty };
        env.define("readLines", Value::Callable(Callable::Native(Native::ReadLines)));
        proof {
            one.bound_keeps_wf(
                0,
                "readLines"@,
                ValueView::Callable(Callable::Native(Native::ReadLines)),
            );
        }
        let ghost two = State { env: env@, ..one };
        env.define("parseInt", Value::Callable(Callable::Native(Native::ParseInt)));
        proof {
            two.bound_keeps_wf(
                0,
                "parseInt"@,
                ValueView::Callable(Callable::Native(Native::ParseInt)),
            );
        }
        let r = Interpreter {
            env,
            functions: Vec::new(),
            classes: Vec::new(),
            instances: Vec::new(),
            output: Vec::new(),
            input: Vec::new(),
            read: 0,
            clock: Number { bits: 0 },
        };
        assert(r@.instances =~= Seq::empty());
        assert(r@.output =~= Seq::empty());
        assert(r@.input =~= Seq::empty());
        r
    }

    /// Sets the time that `clock` tells.
    pub fn set_clock(&mut self, now: Number)
        requires
            old(self).wf(),
        ensures
            final(self).wf(),
            final(self)@ == (State { clock: now, ..old(self)@ }),
    {
        self.clock = now;
        proof {
            old(self)@.elsewhere(self@);
        }
    }

    /// Adds a line for `readLines` to read, after those that wait already.
    pub fn push_input(&mut self, line: String)
        requires
            old(self).wf(),
        ensures
            final(self).wf(),
            final(self)@ == (State { input: old(self)@.input.push(line@), ..old(self)@ }),
    {
        self.input.push(line);
        assert(self@.input =~= old(self)@.input.push(line@));
        proof {
            old(self)@.elsewhere(self@);
        }
    }

    /// Hands out the lines printed since the last call, and forgets them.
    pub fn take_output(&mut self) -> (lines: Vec<String>)
        requires
            old(self).wf(),
        ensures
            final(self).wf(),
            text_views(lines@) == old(self)@.output,
            final(self)@ == (State { output: Seq::empty(), ..old(self)@ }),
    {
        let mut lines: Vec<String> = Vec::new();
        std::mem::swap(&mut lines, &mut self.output);
        assert(self@.output =~= Seq::empty());
        proof {
            old(self)@.elsewhere(self@);
        }
        lines
    }

    /// The text that `print` shows for a value.
    pub fn display(&self, v: &Value) -> (r: String)
        ensures
            r@ == self@.display(v@),
    {
        match v {
            Value::Callable(_) => "fun".to_owned(),
            Value::Class(c) => if *c < self.classes.len() {
                self.classes[*c].name.clone()
            } else {
                "class".to_owned()
            },
            Value::Instance(i) => if *i < self.instances.len() && self.instances[*i].class
                < self.classes.len() {
                self.classes[self.instances[*i].class].name.clone().concat(" instance")
            } else {
                "instance".to_owned()
            },
            Value::String(s) => s.clone(),
            Value::Number(n) => n.display(),
            Value::Bool(b) => if *b {
                "true".to_owned()
            } else {
                "false".to_owned()
            },
            Value::Nil => "nil".to_owned(),
        }
    }

    /// The result of a unary operator.
    pub fn unary(operator: &Token, v: Value) -> (r: Result<Value, RuntimeError>)
        ensures
            value_result(r) == unary(*operator, v@),
            match r {
                Ok(out) => out@ is Bool || out@ is Number,
                Err(e) => e@ matches RuntimeErrorView::Thrown { failure, subject, line }
                    && failure != Failure::Dangling,
            },
    {
        match operator.ty {
            TokenType::Bang => Ok(Value::Bool(v.is_falsy())),
            TokenType::Minus => match v {
                Value::Number(n) => Ok(Value::Number(n.negate())),
                _ => Err(RuntimeError::thrown_at(Failure::OperandNotNumber, operator)),
            },
            _ => Err(RuntimeError::thrown_at(Failure::UnknownOperator, operator)),
        }
    }

    /// The result of a binary operator.
    pub fn binary(&self, operator: &Token, a: Value, b: Value) -> (r: Result<Value, RuntimeError>)
        ensures
            value_result(r) == self@.binary(*operator, a@, b@),
            match r {
                Ok(out) => out@ is Bool || out@ is Number || out@ is String,
                Err(e) => e@ matches RuntimeErrorView::Thrown { failure, subject, line }
                    && failure != Failure::Dangling,
            },
    {
        match operator.ty {
            TokenType::Slash | TokenType::Star | TokenType::Minus | TokenType::Greater
            | TokenType::GreaterEqual | TokenType::Less | TokenType::LessEqual => match (a, b) {
                (Value::Number(x), Value::Number(y)) => Ok(
                    match operator.ty {
                        TokenType::Slash => Value::Number(x.divided_by(y)),
                        TokenType::Star => Value::Number(x.times(y)),
                        TokenType::Minus => Value::Number(x.minus(y)),
                        TokenType::Greater => Value::Bool(x.greater(y)),
                        TokenType::GreaterEqual => Value::Bool(x.greater_equal(y)),
                        TokenType::Less => Value::Bool(x.less(y)),
                        _ => Value::Bool(x.less_equal(y)),
                    },
                ),
                _ => Err(RuntimeError::thrown_at(Failure::OperandNotNumber, operator)),
            },
            TokenType::Plus => {
                if a.is_string() || b.is_string() {
                    let left = self.display(&a);
                    let right = self.display(&b);
                    Ok(Value::String(left.concat(right.as_str())))
                } else {
                    match (a, b) {
                        (Value::Number(x), Value::Number(y)) => Ok(Value::Number(x.plus(y))),
                        _ => Err(RuntimeError::thrown_at(Failure::OperandsNotAddable, operator)),
                    }
                }
            },
            TokenType::EqualEqual => Ok(Value::Bool(a.equals(&b))),
            TokenType::BangEqual => Ok(Value::Bool(!a.equals(&b))),
            _ => Err(RuntimeError::thrown_at(Failure::UnknownOperator, operator)),
        }
    }

    /// The method called `name` of a class or of the nearest class that it
    /// inherits from, with the class that declares it.
    pub fn find_method(&self, class: usize, name: &str) -> (r: Option<(Rc<Declaration>, usize)>)
        ensures
            r == self@.find_method(class as int, name@),
    {
        let mut at = class;
        loop
            invariant
                self@.find_method(at as int, name@) == self@.find_method(class as int, name@),
            decreases at,
        {
            if at >= self.classes.len() {
                return None;
            }
            match self.classes[at].find_method(name) {
                Some(m) => {
                    return Some((m, at));
                },
                None => match self.classes[at].superclass {
                    Some(s) => {
                        if s < at {
                            at = s;
                        } else {
                            return None;
                        }
                    },
                    None => {
                        return None;
                    },
                },
            }
        }
    }

    /// The number of arguments that the constructor of a class takes.
    pub fn class_arity(&self, class: usize) -> (r: usize)
        ensures
            r == self@.class_arity(class),
    {
        match self.find_method(class, "init") {
            Some((m, _)) => m.params.count(),
            None => 0,
        }
    }

    /// The number of arguments that a call of the value must bring, if the
    /// value can be called.
    pub fn arity(&self, callee: &Value) -> (r: Option<usize>)
        ensures
            r == self@.arity(callee@),
    {
        match callee {
            Value::Callable(Callable::Function(f)) => if *f < self.functions.len() {
                Some(self.functions[*f].arity())
            } else {
                None
            },
            Value::Callable(Callable::Native(n)) => Some(
                match n {
                    Native::Clock => 0,
                    Native::ReadLines => 0,
                    Native::ParseInt => 1,
                },
            ),
            Value::Class(c) => if *c < self.classes.len() {
                Some(self.class_arity(*c))
            } else {
                None
            },
            _ => None,
        }
    }

    /// The value of a variable.
    pub fn lookup_variable(&self, name: &Token, depth: Option<usize>) -> (r: Result<
        Value,
        RuntimeError,
    >)
        requires
            self.wf(),
        ensures
            value_result(r) == self@.variable(*name, depth),
            self@.sound(value_result(r)),
    {
        proof {
            self@.read_is_known(
                match depth {
                    Some(d) => self@.env.ancestor(self@.env.current as int, d as nat),
                    None => Some(0int),
                },
                name.lexeme@,
            );
        }
        let found = match depth {
            Some(d) => self.env.get_at(d, name.lexeme.as_str()),
            None => self.env.get_global(name.lexeme.as_str()),
        };
        match found {
            Ok(v) => Ok(v),
            Err(_) => Err(RuntimeError::thrown_at(Failure::UndefinedVariable, name)),
        }
    }

    /// Binds a method to an instance; returns the bound function, which is
    /// also the last of the functions of the interpreter.
    pub fn bind(&mut self, method: Rc<Declaration>, owner: usize, instance: usize) -> (r: Function)
        requires
            old(self).wf(),
            old(self)@.bindable(owner),
            instance < old(self)@.instances.len(),
        ensures
            final(self).wf(),
            (r, final(self)@) == old(self)@.bind(method, owner, instance),
            final(self)@.extends(old(self)@),
            final(self)@.functions.len() == old(self)@.functions.len() + 1,
            r.closure < final(self)@.env.frames.len(),
    {
        let ghost s0 = self@;
        let closure = self.env.frame_count();
        let parent = self.classes[owner].closure;
        let previous = self.env.enclose(parent);
        proof {
            s0.enclosed_keeps_wf(parent);
        }
        let ghost s1 = self@;
        self.env.define("this", Value::Instance(instance));
        proof {
            s1.bound_keeps_wf(s1.env.current as int, "this"@, ValueView::Instance(instance));
        }
        let ghost s2 = self@;
        self.env.declose(previous);
        proof {
            s2.declosed_keeps_wf(previous);
        }
        let ghost s3 = self@;
        let is_initializer = same_text(method.name.lexeme.as_str(), "init");
        let r = Function { declaration: method, closure, is_initializer };
        self.functions.push(r.clone());
        proof {
            s3.with_function(r);
        }
        r
    }

    /// The property `name` of a value.
    pub fn property(&mut self, object: Value, name: &Token) -> (r: Result<Value, RuntimeError>)
        requires
            old(self).wf(),
            old(self)@.known(object@),
        ensures
            final(self).wf(),
            (value_result(r), final(self)@) == old(self)@.property(object@, *name),
            final(self)@.extends(old(self)@),
            final(self)@.sound(value_result(r)),
    {
        match object {
            Value::Instance(i) => {
                if i >= self.instances.len() {
                    return Err(RuntimeError::thrown_at(Failure::Dangling, name));
                }
                proof {
                    let st = self@;
                    assert(st.instances[i as int] == self.instances@[i as int]@);
                    lookup_keeps_each(st.instances[i as int].fields, name.lexeme@, st.knows());
                    st.method_owner_exists(st.instances[i as int].class as int, name.lexeme@);
                }
                match self.instances[i].get(name.lexeme.as_str()) {
                    Some(v) => Ok(v),
                    None => match self.find_method(self.instances[i].class, name.lexeme.as_str()) {
                        Some((m, owner)) => {
                            if owner < self.classes.len() && self.classes[owner].closure
                                < self.env.frame_count() {
                                let handle = self.functions.len();
                                self.bind(m, owner, i);
                                Ok(Value::Callable(Callable::Function(handle)))
                            } else {
                                Err(RuntimeError::thrown_at(Failure::Dangling, name))
                            }
                        },
                        None => Err(RuntimeError::thrown_at(Failure::UndefinedProperty, name)),
                    },
                }
            },
            _ => Err(RuntimeError::thrown_at(Failure::NoProperties, name)),
        }
    }

    /// `super.method`, bound to `this`.
    pub fn super_method(&mut self, keyword: &Token, method: &Token, depth: Option<usize>) -> (r:
        Result<Value, RuntimeError>)
        requires
            old(self).wf(),
        ensures
            final(self).wf(),
            (value_result(r), final(self)@) == old(self)@.super_method(*keyword, *method, depth),
            final(self)@.extends(old(self)@),
            final(self)@.sound(value_result(r)),
    {
        match depth {
            Some(d) => {
                if d == 0 {
                    return Err(RuntimeError::thrown_at(Failure::UndefinedVariable, keyword));
                }
                proof {
                    let st = self@;
                    st.read_is_known(st.env.ancestor(st.env.current as int, d as nat), "super"@);
                    st.read_is_known(
                        st.env.ancestor(st.env.current as int, (d - 1) as nat),
                        "this"@,
                    );
                }
                let superclass = self.env.get_at(d, "super");
                let this = self.env.get_at(d - 1, "this");
                match (superclass, this) {
                    (Ok(Value::Class(c)), Ok(Value::Instance(i))) => {
                        if !(c < self.classes.len() && self.classes[c].closure
                            < self.env.frame_count()) {
                            return Err(RuntimeError::thrown_at(Failure::Dangling, keyword));
                        }
                        match self.classes[c].find_method(method.lexeme.as_str()) {
                            Some(m) => {
                                let handle = self.functions.len();
                                self.bind(m, c, i);
                                Ok(Value::Callable(Callable::Function(handle)))
                            },
                            None => Err(
                                RuntimeError::thrown_at(Failure::UndefinedProperty, method),
                            ),
                        }
                    },
                    _ => Err(RuntimeError::thrown_at(Failure::UndefinedVariable, keyword)),
                }
            },
            None => Err(RuntimeError::thrown_at(Failure::UndefinedVariable, keyword)),
        }
    }

    /// The result of a native function.
    pub fn native(&mut self, native: Native, args: &Vec<Value>, site: &Token) -> (r: Result<
        Value,
        RuntimeError,
    >)
        requires
            old(self).wf(),
        ensures
            final(self).wf(),
            (value_result(r), final(self)@) == old(self)@.native(native, value_views(args@), *site),
            final(self)@.env == old(self)@.env,
            final(self)@.extends(old(self)@),
            final(self)@.sound(value_result(r)),
    {
        proof {
            old(self)@.elsewhere(old(self)@.native(native, value_views(args@), *site).1);
        }
        match native {
            Native::Clock => {
                if args.len() != 0 {
                    return Err(
                        RuntimeError::thrown_at(
                            Failure::Arity { expected: 0, got: args.len() },
                            site,
                        ),
                    );
                }
                Ok(Value::Number(self.clock))
            },
            Native::ReadLines => {
                if args.len() != 0 {
                    return Err(
                        RuntimeError::thrown_at(
                            Failure::Arity { expected: 0, got: args.len() },
                            site,
                        ),
                    );
                }
                if self.read >= self.input.len() {
                    return Ok(Value::Nil);
                }
                let line = self.input[self.read].clone();
                self.read += 1;
                assert(self@.input =~= old(self)@.input.subrange(
                    1,
                    old(self)@.input.len() as int,
                ));
                if line.as_str().unicode_len() == 0 {
                    Ok(Value::Nil)
                } else {
                    Ok(Value::String(line))
                }
            },
            Native::ParseInt => {
                if args.len() != 1 {
                    return Err(
                        RuntimeError::thrown_at(
                            Failure::Arity { expected: 1, got: args.len() },
                            site,
                        ),
                    );
                }
                match &args[0] {
                    Value::String(s) => {
                        if !is_decimal(s.as_str()) {
                            return Err(RuntimeError::thrown_at(Failure::NativeArgument, site));
                        }
                        match Number::parse(s.as_str()) {
                            Some(n) => Ok(Value::Number(n)),
                            None => Err(RuntimeError::thrown_at(Failure::NativeArgument, site)),
                        }
                    },
                    _ => Err(RuntimeError::thrown_at(Failure::NativeArgument, site)),
                }
            },
        }
    }
}


/// The values `before`, then what the evaluation of more expressions gave.
pub open spec fn after(
    before: Seq<ValueView>,
    more: (Result<Seq<ValueView>, RuntimeErrorView>, State),
) -> (Result<Seq<ValueView>, RuntimeErrorView>, State) {
    match more.0 {
        Ok(vs) => (Ok(before + vs), more.1),
        Err(e) => (Err(e), more.1),
    }
}

impl Interpreter {
    /// Enters the frame in which the body of `function` runs; returns the
    /// frame that was current.
    fn enter(&mut self, function: &Function, args: &Vec<Value>) -> (previous: usize)
        requires
            old(self).wf(),
            function.closure < old(self)@.env.frames.len(),
            old(self)@.all_known(value_views(args@)),
        ensures
            final(self).wf(),
            final(self)@ == old(self)@.entered(*function, value_views(args@)),
            previous == old(self)@.env.current,
            final(self)@.extends(old(self)@),
    {
        let previous = self.env.enclose(function.closure);
        proof {
            old(self)@.enclosed_keeps_wf(function.closure);
        }
        let mut at: &List<Token> = &function.declaration.params;
        let mut i: usize = 0;
        loop
            invariant
                self.wf(),
                old(self)@.all_known(value_views(args@)),
                self@ == (State { env: self.env@, ..old(self)@ }),
                self.env@.frames.len() > old(self)@.env.frames.len(),
                previous == old(self)@.env.current,
                bound_parameters(self.env@, *at, value_views(args@), i as int) == old(
                    self,
                )@.entered(*function, value_views(args@)).env,
            decreases at,
        {
            match at {
                List::Nil => {
                    return previous;
                },
                List::Cons(first, rest) => {
                    if i >= args.len() {
                        return previous;
                    }
                    proof {
                        let st = self@;
                        assert(old(self)@.known(value_views(args@)[i as int]));
                        st.bound_keeps_wf(st.env.current as int, first.lexeme@, args@[i as int]@);
                    }
                    self.env.define(first.lexeme.as_str(), args[i].clone());
                    i += 1;
                    at = rest;
                },
            }
        }
    }

    /// What a call hands back, given how the body ended.
    fn returned(&self, function: &Function, ended: Result<(), RuntimeError>) -> (r: Result<
        Value,
        RuntimeError,
    >)
        requires
            self.wf(),
            function.closure < self@.env.frames.len(),
            self@.sound_end(unit_result(ended)),
        ensures
            value_result(r) == self@.returned(*function, unit_result(ended)),
            self@.sound(value_result(r)),
    {
        proof {
            self@.read_is_known(Some(function.closure as int), "this"@);
        }
        let value = match ended {
            Ok(()) => Value::Nil,
            Err(RuntimeError::Return(v)) => v,
            Err(RuntimeError::Thrown { failure, subject, line }) => {
                return Err(RuntimeError::Thrown { failure, subject, line });
            },
        };
        if function.is_initializer {
            match self.env.get_from(function.closure, "this") {
                Ok(this) => Ok(this),
                Err(_) => Ok(value),
            }
        } else {
            Ok(value)
        }
    }

    /// Calls a function with arguments.
    pub fn call_function(
        &mut self,
        function: &Function,
        args: &Vec<Value>,
        site: &Token,
        fuel: u64,
    ) -> (r: Result<Value, RuntimeError>)
        requires
            old(self).wf(),
            function.closure < old(self)@.env.frames.len(),
            old(self)@.all_known(value_views(args@)),
        ensures
            final(self).wf(),
            final(self)@.extends(old(self)@),
            final(self)@.sound(value_result(r)),
            (value_result(r), final(self)@) == call_function(
                *function,
                value_views(args@),
                *site,
                old(self)@,
                fuel as nat,
            ),
        decreases 2 * fuel, 0nat, Floor::Ground, 0nat,
    {
        let expected = function.arity();
        if expected != args.len() {
            return Err(
                RuntimeError::thrown_at(Failure::Arity { expected, got: args.len() }, site),
            );
        }
        if function.closure >= self.env.frame_count() {
            return Err(RuntimeError::thrown_at(Failure::Dangling, site));
        }
        if fuel == 0 {
            return Err(RuntimeError::thrown_at(Failure::Exhausted, site));
        }
        let previous = self.enter(function, args);
        let ended = execute_all(&function.declaration.body, self, fuel - 1);
        proof {
            self@.declosed_keeps_wf(previous);
        }
        self.env.declose(previous);
        self.returned(function, ended)
    }

    /// Calls a class with arguments: makes an instance and runs its initializer.
    pub fn instantiate(&mut self, class: usize, args: &Vec<Value>, site: &Token, fuel: u64) -> (r:
        Result<Value, RuntimeError>)
        requires
            old(self).wf(),
            class < old(self)@.classes.len(),
            old(self)@.all_known(value_views(args@)),
        ensures
            final(self).wf(),
            final(self)@.extends(old(self)@),
            final(self)@.sound(value_result(r)),
            (value_result(r), final(self)@) == instantiate(
                class,
                value_views(args@),
                *site,
                old(self)@,
                fuel as nat,
            ),
        decreases 2 * fuel, 0nat, Floor::Ground, 1nat,
    {
        if class >= self.classes.len() {
            return Err(RuntimeError::thrown_at(Failure::Dangling, site));
        }
        let initializer = self.find_method(class, "init");
        let expected = match &initializer {
            Some((m, _)) => m.params.count(),
            None => 0,
        };
        if expected != args.len() {
            return Err(
                RuntimeError::thrown_at(Failure::Arity { expected, got: args.len() }, site),
            );
        }
        let instance = self.instances.len();
        self.instances.push(Instance::new(class));
        assert(self@.instances =~= old(self)@.instances.push(InstanceView::fresh(class)));
        proof {
            old(self)@.with_instance(class);
            old(self)@.method_owner_exists(class as int, "init"@);
            assert(self@.all_known(value_views(args@))) by {
                assert forall|k: int| 0 <= k < value_views(args@).len() implies self@.known(
                    #[trigger] value_views(args@)[k],
                ) by {
                    assert(old(self)@.known(value_views(args@)[k]));
                }
            }
        }
        match initializer {
            Some((m, owner)) => {
                if !(owner < self.classes.len() && self.classes[owner].closure
                    < self.env.frame_count()) {
                    return Err(RuntimeError::thrown_at(Failure::Dangling, site));
                }
                let function = self.bind(m, owner, instance);
                proof {
                    assert(self@.all_known(value_views(args@))) by {
                        assert forall|k: int| 0 <= k < value_views(args@).len() implies self@.known(
                            #[trigger] value_views(args@)[k],
                        ) by {
                            assert(old(self)@.known(value_views(args@)[k]));
                        }
                    }
                }
                match self.call_function(&function, args, site, fuel) {
                    Ok(_) => Ok(Value::Instance(instance)),
                    Err(e) => Err(e),
                }
            },
            None => Ok(Value::Instance(instance)),
        }
    }

    /// Calls a value with arguments.
    pub fn call(&mut self, callee: &Value, args: &Vec<Value>, site: &Token, fuel: u64) -> (r:
        Result<Value, RuntimeError>)
        requires
            old(self).wf(),
            old(self)@.known(callee@),
            old(self)@.all_known(value_views(args@)),
        ensures
            final(self).wf(),
            final(self)@.extends(old(self)@),
            final(self)@.sound(value_result(r)),
            (value_result(r), final(self)@) == call(
                callee@,
                value_views(args@),
                *site,
                old(self)@,
                fuel as nat,
            ),
        decreases 2 * fuel, 0nat, Floor::Ground, 2nat,
    {
        match callee {
            Value::Callable(Callable::Function(f)) => {
                if *f < self.functions.len() {
                    let function = self.functions[*f].clone();
                    self.call_function(&function, args, site, fuel)
                } else {
                    Err(RuntimeError::thrown_at(Failure::Dangling, site))
                }
            },
            Value::Callable(Callable::Native(n)) => self.native(*n, args, site),
            Value::Class(c) => self.instantiate(*c, args, site, fuel),
            _ => Err(RuntimeError::thrown_at(Failure::NotCallable, site)),
        }
    }

    /// Declares a class in the current scope.
    fn declare_class(
        &mut self,
        name: &Token,
        methods: &Rc<List<Rc<Declaration>>>,
        superclass: Option<usize>,
    )
        requires
            old(self).wf(),
            match superclass {
                Some(s) => s < old(self)@.classes.len(),
                None => true,
            },
        ensures
            final(self).wf(),
            final(self)@.extends(old(self)@),
            final(self)@ == declared_class(old(self)@, *name, *methods, superclass),
    {
        let ghost s0 = self@;
        let previous = self.env.current();
        proof {
            s0.bound_keeps_wf(previous as int, name.lexeme@, ValueView::Nil);
        }
        self.env.define(name.lexeme.as_str(), Value::Nil);
        let ghost s1 = self@;
        match superclass {
            Some(s) => {
                self.env.enclose(previous);
                proof {
                    s1.enclosed_keeps_wf(previous);
                }
                let ghost s2 = self@;
                proof {
                    s2.bound_keeps_wf(s2.env.current as int, "super"@, ValueView::Class(s));
                }
                self.env.define("super", Value::Class(s));
            },
            None => {},
        }
        let class = Class::new(name.lexeme.clone(), methods.clone(), superclass, self.env.current());
        proof {
            self@.declosed_keeps_wf(previous);
        }
        self.env.declose(previous);
        let ghost s4 = self@;
        let handle = self.classes.len();
        self.classes.push(class);
        proof {
            s4.with_class(class);
        }
        let ghost s5 = self@;
        proof {
            s5.assigned_keeps_wf(
                Some(s5.env.current as int),
                name.lexeme@,
                ValueView::Class(handle),
            );
        }
        let _ = self.env.assign(name.lexeme.as_str(), Value::Class(handle));
    }

    /// Runs statements from first to last, within a budget of calls in
    /// progress and loop rounds.
    pub fn interpret(&mut self, stmts: &List<Stmt>, fuel: u64) -> (r: Result<(), RuntimeError>)
        requires
            old(self).wf(),
        ensures
            final(self).wf(),
            final(self)@.extends(old(self)@),
            final(self)@.sound_end(unit_result(r)),
            (unit_result(r), final(self)@) == exec_all(*stmts, old(self)@, fuel as nat),
    {
        execute_all(stmts, self, fuel)
    }
}

impl Expr {
    /// Evaluates the expression.
    pub fn evaluate(&self, interpreter: &mut Interpreter, fuel: u64) -> (r: Result<
        Value,
        RuntimeError,
    >)
        requires
            old(interpreter).wf(),
        ensures
            final(interpreter).wf(),
            final(interpreter)@.extends(old(interpreter)@),
            final(interpreter)@.sound(value_result(r)),
            (value_result(r), final(interpreter)@) == eval(*self, old(interpreter)@, fuel as nat),
        decreases 2 * fuel + 1, 0nat, self, 1nat,
    {
        match self {
            Expr::Literal { value } => Ok(
                match value {
                    Literal::Nil => Value::Nil,
                    Literal::Bool(b) => Value::Bool(*b),
                    Literal::Number(n) => Value::Number(*n),
                    Literal::String(s) => Value::String(s.clone()),
                },
            ),
            Expr::Grouping { expression } => expression.evaluate(interpreter, fuel),
            Expr::Variable { name, depth } => interpreter.lookup_variable(name, *depth),
            Expr::This { keyword, depth } => interpreter.lookup_variable(keyword, *depth),
            Expr::Unary { operator, right } => {
                match right.evaluate(interpreter, fuel) {
                    Ok(v) => Interpreter::unary(operator, v),
                    Err(e) => Err(e),
                }
            },
            Expr::Binary { left, operator, right } => {
                match left.evaluate(interpreter, fuel) {
                    Ok(a) => match right.evaluate(interpreter, fuel) {
                        Ok(b) => interpreter.binary(operator, a, b),
                        Err(e) => Err(e),
                    },
                    Err(e) => Err(e),
                }
            },
            Expr::Logical { left, operator, right } => {
                match left.evaluate(interpreter, fuel) {
                    Ok(a) => {
                        if (operator.ty == TokenType::Or) == a.is_truthy() {
                            Ok(a)
                        } else {
                            right.evaluate(interpreter, fuel)
                        }
                    },
                    Err(e) => Err(e),
                }
            },
            Expr::Assign { name, value, depth } => {
                match value.evaluate(interpreter, fuel) {
                    Ok(v) => {
                        proof {
                            let st = interpreter@;
                            st.assigned_keeps_wf(
                                match depth {
                                    Some(d) => st.env.ancestor(st.env.current as int, *d as nat),
                                    None => Some(0int),
                                },
                                name.lexeme@,
                                v@,
                            );
                        }
                        let assigned = match depth {
                            Some(d) => interpreter.env.assign_at(
                                *d,
                                name.lexeme.as_str(),
                                v.clone(),
                            ),
                            None => interpreter.env.assign_global(name.lexeme.as_str(), v.clone()),
                        };
                        match assigned {
                            Ok(()) => Ok(v),
                            Err(_) => Err(
                                RuntimeError::thrown_at(Failure::UndefinedVariable, name),
                            ),
                        }
                    },
                    Err(e) => Err(e),
                }
            },
            Expr::Call { callee, paren, arguments } => {
                match callee.evaluate(interpreter, fuel) {
                    Ok(f) => match evaluate_all(arguments, interpreter, fuel) {
                        Ok(args) => interpreter.call(&f, &args, paren, fuel),
                        Err(e) => Err(e),
                    },
                    Err(e) => Err(e),
                }
            },
            Expr::Get { object, name } => {
                match object.evaluate(interpreter, fuel) {
                    Ok(v) => interpreter.property(v, name),
                    Err(e) => Err(e),
                }
            },
            Expr::SetField { object, name, value } => {
                match object.evaluate(interpreter, fuel) {
                    Ok(Value::Instance(i)) => match value.evaluate(interpreter, fuel) {
                        Ok(v) => {
                            if i < interpreter.instances.len() {
                                let ghost before = interpreter@;
                                proof {
                                    before.with_field_keeps_wf(i, name.lexeme@, v@);
                                }
                                interpreter.instances[i].set(name.lexeme.as_str(), v.clone());
                                assert(interpreter@.instances =~= before.with_field(
                                    i,
                                    name.lexeme@,
                                    v@,
                                ).instances);
                                Ok(v)
                            } else {
                                Err(RuntimeError::thrown_at(Failure::Dangling, name))
                            }
                        },
                        Err(e) => Err(e),
                    },
                    Ok(_) => Err(RuntimeError::thrown_at(Failure::NoFields, name)),
                    Err(e) => Err(e),
                }
            },
            Expr::Super { keyword, method, depth } => interpreter.super_method(
                keyword,
                method,
                *depth,
            ),
        }
    }
}

/// Evaluates expressions from first to last.
pub fn evaluate_all(es: &List<Expr>, interpreter: &mut Interpreter, fuel: u64) -> (r: Result<
    Vec<Value>,
    RuntimeError,
>)
    requires
        old(interpreter).wf(),
    ensures
        final(interpreter).wf(),
        final(interpreter)@.extends(old(interpreter)@),
        match r {
            Ok(values) => final(interpreter)@.all_known(value_views(values@)),
            Err(e) => final(interpreter)@.sound(Err(e@)),
        },
        (values_result(r), final(interpreter)@) == eval_all(*es, old(interpreter)@, fuel as nat),
    decreases 2 * fuel + 1, 0nat, es, 1nat,
{
    let mut values: Vec<Value> = Vec::new();
    let mut at = es;
    assert(value_views(values@) =~= Seq::empty());
    loop
        invariant
            interpreter.wf(),
            interpreter@.extends(old(interpreter)@),
            interpreter@.all_known(value_views(values@)),
            *at == *es || decreases_to!(*es => *at),
            after(value_views(values@), eval_all(*at, interpreter@, fuel as nat)) == eval_all(
                *es,
                old(interpreter)@,
                fuel as nat,
            ),
        decreases at,
    {
        match at {
            List::Nil => {
                assert(value_views(values@) + Seq::<ValueView>::empty() =~= value_views(values@));
                return Ok(values);
            },
            List::Cons(first, rest) => {
                let ghost before = value_views(values@);
                let ghost st = interpreter@;
                match first.evaluate(interpreter, fuel) {
                    Ok(v) => {
                        values.push(v);
                        proof {
                            let more = eval_all(**rest, interpreter@, fuel as nat);
                            assert(value_views(values@) =~= before.push(v@));
                            assert forall|k: int| 0 <= k < value_views(values@).len() implies interpreter@.known(
                                #[trigger] value_views(values@)[k],
                            ) by {
                                if k < before.len() {
                                    assert(st.known(before[k]));
                                }
                            }
                            match more.0 {
                                Ok(vs) => {
                                    assert(before.push(v@) + vs =~= before + (seq![v@] + vs));
                                },
                                Err(_) => {},
                            }
                        }
                        at = rest;
                    },
                    Err(e) => {
                        return Err(e);
                    },
                }
            },
        }
    }
}

impl Stmt {
    /// Runs the statement.
    pub fn evaluate(&self, interpreter: &mut Interpreter, fuel: u64) -> (r: Result<
        (),
        RuntimeError,
    >)
        requires
            old(interpreter).wf(),
        ensures
            final(interpreter).wf(),
            final(interpreter)@.extends(old(interpreter)@),
            final(interpreter)@.sound_end(unit_result(r)),
            (unit_result(r), final(interpreter)@) == exec(*self, old(interpreter)@, fuel as nat),
        decreases 2 * fuel + 1, 1nat, self, 1nat,
    {
        match self {
            Stmt::Expression(e) => match e.evaluate(interpreter, fuel) {
                Ok(_) => Ok(()),
                Err(e) => Err(e),
            },
            Stmt::Print(e) => match e.evaluate(interpreter, fuel) {
                Ok(v) => {
                    let line = interpreter.display(&v);
                    let ghost before = interpreter@;
                    interpreter.output.push(line);
                    assert(interpreter@.output =~= before.output.push(line@));
                    proof {
                        before.elsewhere(interpreter@);
                    }
                    Ok(())
                },
                Err(e) => Err(e),
            },
            Stmt::Var { name, initializer } => {
                let value = match initializer {
                    Some(e) => match e.evaluate(interpreter, fuel) {
                        Ok(v) => v,
                        Err(e) => {
                            return Err(e);
                        },
                    },
                    None => Value::Nil,
                };
                proof {
                    let st = interpreter@;
                    st.bound_keeps_wf(st.env.current as int, name.lexeme@, value@);
                }
                interpreter.env.define(name.lexeme.as_str(), value);
                Ok(())
            },
            Stmt::Block(stmts) => {
                let ghost s0 = interpreter@;
                let previous = interpreter.env.enclose(interpreter.env.current());
                proof {
                    s0.enclosed_keeps_wf(s0.env.current);
                }
                let r = execute_all(stmts, interpreter, fuel);
                proof {
                    interpreter@.declosed_keeps_wf(previous);
                }
                interpreter.env.declose(previous);
                r
            },
            Stmt::If { condition, then_branch, else_branch } => {
                match condition.evaluate(interpreter, fuel) {
                    Ok(v) => {
                        if v.is_truthy() {
                            then_branch.evaluate(interpreter, fuel)
                        } else {
                            match else_branch {
                                Some(other) => other.evaluate(interpreter, fuel),
                                None => Ok(()),
                            }
                        }
                    },
                    Err(e) => Err(e),
                }
            },
            Stmt::While { condition, body } => {
                let mut left = fuel;
                loop
                    invariant
                        interpreter.wf(),
                        interpreter@.extends(old(interpreter)@),
                        left <= fuel,
                        *self == (Stmt::While { condition: *condition, body: *body }),
                        run_while(*self, interpreter@, left as nat) == run_while(
                            *self,
                            old(interpreter)@,
                            fuel as nat,
                        ),
                    decreases left,
                {
                    match condition.evaluate(interpreter, left) {
                        Ok(v) => {
                            if v.is_falsy() {
                                return Ok(());
                            }
                            if left == 0 {
                                return Err(RuntimeError::thrown(Failure::Exhausted));
                            }
                            match body.evaluate(interpreter, left) {
                                Ok(()) => {
                                    left -= 1;
                                },
                                Err(e) => {
                                    return Err(e);
                                },
                            }
                        },
                        Err(e) => {
                            return Err(e);
                        },
                    }
                }
            },
            Stmt::Function(declaration) => {
                let ghost s0 = interpreter@;
                let handle = interpreter.functions.len();
                let function = Function {
                    declaration: declaration.clone(),
                    closure: interpreter.env.current(),
                    is_initializer: false,
                };
                proof {
                    s0.with_function(function);
                }
                interpreter.functions.push(function);
                proof {
                    let s1 = interpreter@;
                    s1.bound_keeps_wf(
                        s1.env.current as int,
                        declaration.name.lexeme@,
                        ValueView::Callable(Callable::Function(handle)),
                    );
                }
                interpreter.env.define(
                    declaration.name.lexeme.as_str(),
                    Value::Callable(Callable::Function(handle)),
                );
                Ok(())
            },
            Stmt::Class { name, superclass, methods } => match superclass {
                Some(e) => match e.evaluate(interpreter, fuel) {
                    Ok(Value::Class(c)) => {
                        if c < interpreter.classes.len() {
                            interpreter.declare_class(name, methods, Some(c));
                            Ok(())
                        } else {
                            Err(RuntimeError::thrown_at(Failure::Dangling, name))
                        }
                    },
                    Ok(_) => Err(RuntimeError::thrown_at(Failure::SuperclassNotClass, name)),
                    Err(e) => Err(e),
                },
                None => {
                    interpreter.declare_class(name, methods, None);
                    Ok(())
                },
            },
            Stmt::Return { keyword, value } => match value {
                Some(e) => match e.evaluate(interpreter, fuel) {
                    Ok(v) => Err(RuntimeError::Return(v)),
                    Err(e) => Err(e),
                },
                None => Err(RuntimeError::Return(Value::Nil)),
            },
        }
    }
}

/// Runs statements from first to last.
pub fn execute_all(stmts: &List<Stmt>, interpreter: &mut Interpreter, fuel: u64) -> (r: Result<
    (),
    RuntimeError,
>)
    requires
        old(interpreter).wf(),
    ensures
        final(interpreter).wf(),
        final(interpreter)@.extends(old(interpreter)@),
        final(interpreter)@.sound_end(unit_result(r)),
        (unit_result(r), final(interpreter)@) == exec_all(*stmts, old(interpreter)@, fuel as nat),
    decreases 2 * fuel + 1, 1nat, stmts, 1nat,
{
    let mut at = stmts;
    loop
        invariant
            interpreter.wf(),
            interpreter@.extends(old(interpreter)@),
            *at == *stmts || decreases_to!(*stmts => *at),
            exec_all(*at, interpreter@, fuel as nat) == exec_all(
                *stmts,
                old(interpreter)@,
                fuel as nat,
            ),
        decreases at,
    {
        match at {
            List::Nil => {
                return Ok(());
            },
            List::Cons(first, rest) => {
                match first.evaluate(interpreter, fuel) {
                    Ok(()) => {
                        at = rest;
                    },
                    Err(e) => {
                        return Err(e);
                    },
                }
            },
        }
    }
}

} // verus!
