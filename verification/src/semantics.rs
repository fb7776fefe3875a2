//! What a program means: evaluation as a function from a syntax tree, a
//! state and a budget to a result and a state.
//!
//! The budget bounds the calls in progress and the rounds of a loop, so
//! that every evaluation ends; an evaluation that runs out of it fails with
//! `Failure::Exhausted`.

use crate::callable::Function;
use crate::class::{method_in, Class};
use crate::environment::{
    bind, bind_keeps_distinct, bind_keeps_each, distinct, each, lookup, place, EnvironmentView,
};
use crate::error::{thrown, thrown_at, Failure, RuntimeErrorView};
use crate::expr::Expr;
use crate::instance::InstanceView;
use crate::list::List;
use crate::number::{decimal_text, float_difference, float_product, float_quotient, float_sum, number_text, parsed, Number};
use crate::stmt::{Declaration, Stmt};
use crate::token::{Literal, Token, TokenType};
use crate::value::{Callable, Native, ValueView};
use std::rc::Rc;
use vstd::prelude::*;

verus! {

/// All that a running program can see and change.
pub struct State {
    pub env: EnvironmentView,
    pub functions: Seq<Function>,
    pub classes: Seq<Class>,
    pub instances: Seq<InstanceView>,
    /// The lines printed so far.
    pub output: Seq<Seq<char>>,
    /// The lines of input not yet read.
    pub input: Seq<Seq<char>>,
    /// The time that `clock` tells, in seconds.
    pub clock: Number,
}

/// The measure of the functions that work on values, below that of every
/// syntax tree.
pub enum Floor {
    Ground,
}

pub type Evaluated = (Result<ValueView, RuntimeErrorView>, State);

pub type Executed = (Result<(), RuntimeErrorView>, State);

pub open spec fn literal_value(literal: Literal) -> ValueView {
    match literal {
        Literal::Nil => ValueView::Nil,
        Literal::Bool(b) => ValueView::Bool(b),
        Literal::Number(n) => ValueView::Number(n),
        Literal::String(s) => ValueView::String(s@),
    }
}

/// The result of a unary operator.
pub open spec fn unary(operator: Token, v: ValueView) -> Result<ValueView, RuntimeErrorView> {
    match operator.ty {
        TokenType::Bang => Ok(ValueView::Bool(v.falsy())),
        TokenType::Minus => match v {
            ValueView::Number(n) => Ok(ValueView::Number(n.opposite())),
            _ => Err(thrown_at(Failure::OperandNotNumber, operator)),
        },
        _ => Err(thrown_at(Failure::UnknownOperator, operator)),
    }
}

/// Whether `ty` is an operator that takes two numbers.
pub open spec fn numeric(ty: TokenType) -> bool {
    ty == TokenType::Slash || ty == TokenType::Star || ty == TokenType::Minus || ty
        == TokenType::Greater || ty == TokenType::GreaterEqual || ty == TokenType::Less || ty
        == TokenType::LessEqual
}

/// The result of a numeric operator on two numbers.
pub open spec fn calculated(ty: TokenType, a: Number, b: Number) -> ValueView {
    match ty {
        TokenType::Slash => ValueView::Number(Number { bits: float_quotient(a.bits, b.bits) }),
        TokenType::Star => ValueView::Number(Number { bits: float_product(a.bits, b.bits) }),
        TokenType::Minus => ValueView::Number(Number { bits: float_difference(a.bits, b.bits) }),
        TokenType::Greater => ValueView::Bool(b.less_than(a)),
        TokenType::GreaterEqual => ValueView::Bool(b.at_most(a)),
        TokenType::Less => ValueView::Bool(a.less_than(b)),
        _ => ValueView::Bool(a.at_most(b)),
    }
}

impl State {
    /// Whether a value refers to what exists: a function, class or
    /// instance of the state, or nothing at all.
    pub open spec fn known(self, v: ValueView) -> bool {
        match v {
            ValueView::Callable(Callable::Function(f)) => f < self.functions.len(),
            ValueView::Class(c) => c < self.classes.len(),
            ValueView::Instance(i) => i < self.instances.len(),
            _ => true,
        }
    }

    /// `known`, as a predicate on values.
    pub open spec fn knows(self) -> spec_fn(ValueView) -> bool {
        |v: ValueView| self.known(v)
    }

    /// Whether all of the values are known.
    pub open spec fn all_known(self, values: Seq<ValueView>) -> bool {
        forall|k: int| 0 <= k < values.len() ==> self.known(#[trigger] values[k])
    }

    /// The state is well formed: the scopes are, and whatever a value, a
    /// function, a class or an instance refers to exists. A class inherits
    /// from a class made before it, and no instance has a field twice.
    pub open spec fn wf(self) -> bool {
        &&& self.env.wf()
        &&& self.env.all(self.knows())
        &&& forall|f: int|
            0 <= f < self.functions.len() ==> (#[trigger] self.functions[f]).closure
                < self.env.frames.len()
        &&& forall|c: int|
            0 <= c < self.classes.len() ==> (#[trigger] self.classes[c]).closure
                < self.env.frames.len() && match self.classes[c].superclass {
                Some(s) => s < c,
                None => true,
            }
        &&& forall|i: int|
            0 <= i < self.instances.len() ==> (#[trigger] self.instances[i]).class
                < self.classes.len() && each(self.instances[i].fields, self.knows())
                && distinct(self.instances[i].fields)
    }

    /// Whether the state holds at least the frames, functions, classes and
    /// instances that `before` holds: nothing is ever taken away.
    pub open spec fn extends(self, before: State) -> bool {
        &&& self.env.frames.len() >= before.env.frames.len()
        &&& self.functions.len() >= before.functions.len()
        &&& self.classes.len() >= before.classes.len()
        &&& self.instances.len() >= before.instances.len()
    }

    /// Whether what an evaluation gave is sound in the state: a value that
    /// is known, or an error other than a reference to what does not exist.
    pub open spec fn sound(self, r: Result<ValueView, RuntimeErrorView>) -> bool {
        match r {
            Ok(v) => self.known(v),
            Err(RuntimeErrorView::Return(v)) => self.known(v),
            Err(RuntimeErrorView::Thrown { failure, subject, line }) => failure
                != Failure::Dangling,
        }
    }

    /// Whether the way a statement ended is sound in the state.
    pub open spec fn sound_end(self, r: Result<(), RuntimeErrorView>) -> bool {
        match r {
            Ok(()) => true,
            Err(RuntimeErrorView::Return(v)) => self.known(v),
            Err(RuntimeErrorView::Thrown { failure, subject, line }) => failure
                != Failure::Dangling,
        }
    }

    /// A well-formed state with another environment, as well formed and
    /// with known values only, is well formed.
    pub proof fn with_env(self, env: EnvironmentView)
        requires
            self.wf(),
            env.wf(),
            env.all(self.knows()),
            env.frames.len() >= self.env.frames.len(),
        ensures
            (State { env, ..self }).wf(),
            (State { env, ..self }).extends(self),
    {
        let after = State { env, ..self };
        assert forall|i: int| 0 <= i < env.frames.len() implies each(
            (#[trigger] env.frames[i]).values,
            after.knows(),
        ) by {
            assert(each(env.frames[i].values, self.knows()));
            assert forall|j: int| 0 <= j < env.frames[i].values.len() implies (after.knows())(
                (#[trigger] env.frames[i].values[j]).1,
            ) by {
                assert((self.knows())(env.frames[i].values[j].1));
            }
        }
        assert forall|i: int| 0 <= i < after.instances.len() implies each(
            (#[trigger] after.instances[i]).fields,
            after.knows(),
        ) by {
            assert(each(self.instances[i].fields, self.knows()));
            assert forall|j: int| 0 <= j < self.instances[i].fields.len() implies (
            after.knows())((#[trigger] self.instances[i].fields[j]).1) by {
                assert((self.knows())(self.instances[i].fields[j].1));
            }
        }
    }

    /// A state that holds more objects, and the same environment and
    /// instances, knows what the smaller state knows.
    pub proof fn grows(self, after: State)
        requires
            self.wf(),
            after.extends(self),
            after.env == self.env,
            after.instances.len() >= self.instances.len(),
            forall|i: int|
                0 <= i < self.instances.len() ==> (#[trigger] after.instances[i])
                    == self.instances[i],
        ensures
            after.env.all(after.knows()),
            forall|i: int|
                0 <= i < self.instances.len() ==> each(
                    (#[trigger] after.instances[i]).fields,
                    after.knows(),
                ),
    {
        assert forall|i: int| 0 <= i < after.env.frames.len() implies each(
            (#[trigger] after.env.frames[i]).values,
            after.knows(),
        ) by {
            assert(each(self.env.frames[i].values, self.knows()));
            assert forall|j: int| 0 <= j < self.env.frames[i].values.len() implies (
            after.knows())((#[trigger] self.env.frames[i].values[j]).1) by {
                assert((self.knows())(self.env.frames[i].values[j].1));
            }
        }
        assert forall|i: int| 0 <= i < self.instances.len() implies each(
            (#[trigger] after.instances[i]).fields,
            after.knows(),
        ) by {
            assert(each(self.instances[i].fields, self.knows()));
            assert forall|j: int| 0 <= j < self.instances[i].fields.len() implies (
            after.knows())((#[trigger] self.instances[i].fields[j]).1) by {
                assert((self.knows())(self.instances[i].fields[j].1));
            }
        }
    }

    /// What is read in a well-formed state is known.
    pub proof fn read_is_known(self, at: Option<int>, name: Seq<char>)
        requires
            self.wf(),
        ensures
            match self.env.value_from(at, name) {
                Some(v) => self.known(v),
                None => true,
            },
    {
        self.env.value_from_keeps(at, name, self.knows());
    }

    /// Binding a known value in a frame keeps the state well formed.
    pub proof fn bound_keeps_wf(self, at: int, name: Seq<char>, value: ValueView)
        requires
            self.wf(),
            0 <= at < self.env.frames.len(),
            self.known(value),
        ensures
            (State { env: self.env.bound_in(at, name, value), ..self }).wf(),
            (State { env: self.env.bound_in(at, name, value), ..self }).extends(self),
            self.env.bound_in(at, name, value).current == self.env.current,
    {
        self.env.bound_in_keeps(at, name, value, self.knows());
        self.with_env(self.env.bound_in(at, name, value));
    }

    /// An assignment of a known value keeps the state well formed.
    pub proof fn assigned_keeps_wf(self, at: Option<int>, name: Seq<char>, value: ValueView)
        requires
            self.wf(),
            self.known(value),
        ensures
            match self.env.assigned_from(at, name, value) {
                Some(env) => (State { env, ..self }).wf() && (State { env, ..self }).extends(self)
                    && env.current == self.env.current,
                None => true,
            },
    {
        self.env.assigned_from_keeps(at, name, value, self.knows());
        match self.env.assigned_from(at, name, value) {
            Some(env) => {
                self.with_env(env);
            },
            None => {},
        }
    }

    /// A fresh frame keeps the state well formed.
    pub proof fn enclosed_keeps_wf(self, enclosing: usize)
        requires
            self.wf(),
            self.env.enclose(enclosing).wf(),
        ensures
            (State { env: self.env.enclose(enclosing), ..self }).wf(),
            (State { env: self.env.enclose(enclosing), ..self }).extends(self),
    {
        self.env.enclose_keeps(enclosing, self.knows());
        self.with_env(self.env.enclose(enclosing));
    }

    /// Going back to a frame keeps the state well formed.
    pub proof fn declosed_keeps_wf(self, previous: usize)
        requires
            self.wf(),
            previous < self.env.frames.len(),
        ensures
            (State { env: self.env.declose(previous), ..self }).wf(),
            (State { env: self.env.declose(previous), ..self }).extends(self),
    {
        let env = self.env.declose(previous);
        assert(env.frames == self.env.frames);
        self.with_env(env);
    }

    /// One more function, closed over a frame that exists, keeps the state
    /// well formed.
    pub proof fn with_function(self, function: Function)
        requires
            self.wf(),
            function.closure < self.env.frames.len(),
        ensures
            (State { functions: self.functions.push(function), ..self }).wf(),
            (State { functions: self.functions.push(function), ..self }).extends(self),
    {
        let after = State { functions: self.functions.push(function), ..self };
        self.grows(after);
        assert forall|f: int| 0 <= f < after.functions.len() implies (
        #[trigger] after.functions[f]).closure < after.env.frames.len() by {
            if f < self.functions.len() {
                assert(after.functions[f] == self.functions[f]);
            }
        }
    }

    /// One more class keeps the state well formed.
    pub proof fn with_class(self, class: Class)
        requires
            self.wf(),
            class.closure < self.env.frames.len(),
            match class.superclass {
                Some(s) => s < self.classes.len(),
                None => true,
            },
        ensures
            (State { classes: self.classes.push(class), ..self }).wf(),
            (State { classes: self.classes.push(class), ..self }).extends(self),
    {
        let after = State { classes: self.classes.push(class), ..self };
        self.grows(after);
        assert forall|c: int| 0 <= c < after.classes.len() implies (
        #[trigger] after.classes[c]).closure < after.env.frames.len()
            && match after.classes[c].superclass {
            Some(s) => s < c,
            None => true,
        } by {
            if c < self.classes.len() {
                assert(after.classes[c] == self.classes[c]);
            }
        }
    }

    /// One more instance of a class that exists keeps the state well formed.
    pub proof fn with_instance(self, class: usize)
        requires
            self.wf(),
            class < self.classes.len(),
        ensures
            (State { instances: self.instances.push(InstanceView::fresh(class)), ..self }).wf(),
            (State { instances: self.instances.push(InstanceView::fresh(class)), ..self }).extends(
                self,
            ),
    {
        let after = State { instances: self.instances.push(InstanceView::fresh(class)), ..self };
        self.grows(after);
        assert forall|i: int| 0 <= i < after.instances.len() implies (
        #[trigger] after.instances[i]).class < after.classes.len() && each(
            after.instances[i].fields,
            after.knows(),
        ) && distinct(after.instances[i].fields) by {
            if i < self.instances.len() {
                assert(after.instances[i] == self.instances[i]);
            }
        }
    }

    /// A known value in a field of an instance keeps the state well formed.
    pub proof fn with_field_keeps_wf(self, instance: usize, name: Seq<char>, value: ValueView)
        requires
            self.wf(),
            instance < self.instances.len(),
            self.known(value),
        ensures
            self.with_field(instance, name, value).wf(),
            self.with_field(instance, name, value).extends(self),
    {
        let after = self.with_field(instance, name, value);
        bind_keeps_each(self.instances[instance as int].fields, name, value, self.knows());
        bind_keeps_distinct(self.instances[instance as int].fields, name, value);
        assert forall|i: int| 0 <= i < after.env.frames.len() implies each(
            (#[trigger] after.env.frames[i]).values,
            after.knows(),
        ) by {
            assert(each(self.env.frames[i].values, self.knows()));
            assert forall|j: int| 0 <= j < self.env.frames[i].values.len() implies (
            after.knows())((#[trigger] self.env.frames[i].values[j]).1) by {
                assert((self.knows())(self.env.frames[i].values[j].1));
            }
        }
        assert forall|i: int| 0 <= i < after.instances.len() implies (
        #[trigger] after.instances[i]).class < after.classes.len() && each(
            after.instances[i].fields,
            after.knows(),
        ) && distinct(after.instances[i].fields) by {
            let fields = if i == instance {
                bind(self.instances[i].fields, name, value)
            } else {
                self.instances[i].fields
            };
            assert(after.instances[i].fields == fields);
            assert(each(self.instances[i].fields, self.knows()));
            assert forall|j: int| 0 <= j < fields.len() implies (after.knows())(
                (#[trigger] fields[j]).1,
            ) by {
                assert((self.knows())(fields[j].1));
            }
        }
    }

    /// A change of what is printed, what is read and what the clock tells
    /// keeps the state well formed.
    pub proof fn elsewhere(self, after: State)
        requires
            self.wf(),
            after.env == self.env,
            after.functions == self.functions,
            after.classes == self.classes,
            after.instances == self.instances,
        ensures
            after.wf(),
            after.extends(self),
    {
        self.grows(after);
    }

    /// The class that declares a method that was found exists.
    pub proof fn method_owner_exists(self, class: int, name: Seq<char>)
        ensures
            match self.find_method(class, name) {
                Some((m, owner)) => owner < self.classes.len(),
                None => true,
            },
        decreases class,
    {
        if 0 <= class < self.classes.len() {
            match self.classes[class].superclass {
                Some(s) => {
                    if s < class {
                        self.method_owner_exists(s as int, name);
                    }
                },
                None => {},
            }
        }
    }

    /// The state of an interpreter that has run nothing: the natives are
    /// the only globals.
    pub open spec fn initial() -> State {
        State {
            env: EnvironmentView::fresh().define(
                "clock"@,
                ValueView::Callable(Callable::Native(Native::Clock)),
            ).define("readLines"@, ValueView::Callable(Callable::Native(Native::ReadLines))).define(
                "parseInt"@,
                ValueView::Callable(Callable::Native(Native::ParseInt)),
            ),
            functions: Seq::empty(),
            classes: Seq::empty(),
            instances: Seq::empty(),
            output: Seq::empty(),
            input: Seq::empty(),
            clock: Number { bits: 0 },
        }
    }

    /// The text that `print` shows for a value.
    pub open spec fn display(self, v: ValueView) -> Seq<char> {
        match v {
            ValueView::Callable(_) => "fun"@,
            ValueView::Class(c) => if c < self.classes.len() {
                self.classes[c as int].name@
            } else {
                "class"@
            },
            ValueView::Instance(i) => if i < self.instances.len() && self.instances[i as int].class
                < self.classes.len() {
                self.classes[self.instances[i as int].class as int].name@ + " instance"@
            } else {
                "instance"@
            },
            ValueView::String(s) => s,
            ValueView::Number(n) => number_text(n),
            ValueView::Bool(b) => if b {
                "true"@
            } else {
                "false"@
            },
            ValueView::Nil => "nil"@,
        }
    }

    /// The result of a binary operator.
    pub open spec fn binary(self, operator: Token, a: ValueView, b: ValueView) -> Result<
        ValueView,
        RuntimeErrorView,
    > {
        if numeric(operator.ty) {
            match (a, b) {
                (ValueView::Number(x), ValueView::Number(y)) => Ok(calculated(operator.ty, x, y)),
                _ => Err(thrown_at(Failure::OperandNotNumber, operator)),
            }
        } else if operator.ty == TokenType::Plus {
            if a is String || b is String {
                Ok(ValueView::String(self.display(a) + self.display(b)))
            } else {
                match (a, b) {
                    (ValueView::Number(x), ValueView::Number(y)) => Ok(
                        ValueView::Number(Number { bits: float_sum(x.bits, y.bits) }),
                    ),
                    _ => Err(thrown_at(Failure::OperandsNotAddable, operator)),
                }
            }
        } else if operator.ty == TokenType::EqualEqual {
            Ok(ValueView::Bool(a.equal_to(b)))
        } else if operator.ty == TokenType::BangEqual {
            Ok(ValueView::Bool(!a.equal_to(b)))
        } else {
            Err(thrown_at(Failure::UnknownOperator, operator))
        }
    }

    /// The method called `name` of class `class` or of the nearest class
    /// that it inherits from, with the class that declares it.
    pub open spec fn find_method(self, class: int, name: Seq<char>) -> Option<
        (Rc<Declaration>, usize),
    >
        decreases class,
    {
        if !(0 <= class < self.classes.len()) {
            None
        } else {
            match method_in(*self.classes[class].methods, name) {
                Some(m) => Some((m, class as usize)),
                None => match self.classes[class].superclass {
                    Some(s) => if s < class {
                        self.find_method(s as int, name)
                    } else {
                        None
                    },
                    None => None,
                },
            }
        }
    }

    /// The number of arguments that the constructor of a class takes.
    pub open spec fn class_arity(self, class: usize) -> usize {
        match self.find_method(class as int, "init"@) {
            Some((m, _)) => m.params.size(),
            None => 0,
        }
    }

    /// The number of arguments that a call of the value must bring, if the
    /// value can be called.
    pub open spec fn arity(self, callee: ValueView) -> Option<usize> {
        match callee {
            ValueView::Callable(Callable::Function(f)) => if f < self.functions.len() {
                Some(self.functions[f as int].params())
            } else {
                None
            },
            ValueView::Callable(Callable::Native(n)) => Some(
                match n {
                    Native::Clock => 0,
                    Native::ReadLines => 0,
                    Native::ParseInt => 1,
                },
            ),
            ValueView::Class(c) => if c < self.classes.len() {
                Some(self.class_arity(c))
            } else {
                None
            },
            _ => None,
        }
    }

    /// The value of a variable, or the error for a variable that does not exist.
    pub open spec fn variable(self, name: Token, depth: Option<usize>) -> Result<
        ValueView,
        RuntimeErrorView,
    > {
        match self.env.read(depth, name.lexeme@) {
            Some(v) => Ok(v),
            None => Err(thrown_at(Failure::UndefinedVariable, name)),
        }
    }

    /// A method bound to an instance: a fresh function whose closure is a
    /// fresh frame that holds `this` and is enclosed by the closure of the
    /// class that declares the method.
    pub open spec fn bind(self, method: Rc<Declaration>, owner: usize, instance: usize) -> (
        Function,
        State,
    ) {
        let function = Function {
            declaration: method,
            closure: self.env.frames.len() as usize,
            is_initializer: method.name.lexeme@ == "init"@,
        };
        (
            function,
            State {
                env: self.env.enclose(self.classes[owner as int].closure).define(
                    "this"@,
                    ValueView::Instance(instance),
                ).declose(self.env.current),
                functions: self.functions.push(function),
                ..self
            },
        )
    }

    /// Whether a method of class `owner` can be bound.
    pub open spec fn bindable(self, owner: usize) -> bool {
        owner < self.classes.len() && self.classes[owner as int].closure < self.env.frames.len()
    }

    /// The property `name` of a value: a field of the instance, or else a
    /// method of its class, bound to the instance.
    pub open spec fn property(self, object: ValueView, name: Token) -> Evaluated {
        match object {
            ValueView::Instance(i) => if i >= self.instances.len() {
                (Err(thrown_at(Failure::Dangling, name)), self)
            } else {
                match lookup(self.instances[i as int].fields, name.lexeme@) {
                    Some(v) => (Ok(v), self),
                    None => match self.find_method(
                        self.instances[i as int].class as int,
                        name.lexeme@,
                    ) {
                        Some((m, owner)) => if self.bindable(owner) {
                            (
                                Ok(
                                    ValueView::Callable(
                                        Callable::Function(self.functions.len() as usize),
                                    ),
                                ),
                                self.bind(m, owner, i).1,
                            )
                        } else {
                            (Err(thrown_at(Failure::Dangling, name)), self)
                        },
                        None => (Err(thrown_at(Failure::UndefinedProperty, name)), self),
                    },
                }
            },
            _ => (Err(thrown_at(Failure::NoProperties, name)), self),
        }
    }

    /// `super.method`: the method that the superclass itself declares,
    /// bound to the `this` one scope inside the scope of `super`.
    pub open spec fn super_method(self, keyword: Token, method: Token, depth: Option<usize>) -> Evaluated {
        match depth {
            Some(d) => if d == 0 {
                (Err(thrown_at(Failure::UndefinedVariable, keyword)), self)
            } else {
                match (
                    self.env.get_at(d as nat, "super"@),
                    self.env.get_at((d - 1) as nat, "this"@),
                ) {
                    (Some(ValueView::Class(c)), Some(ValueView::Instance(i))) => if !self.bindable(
                        c,
                    ) {
                        (Err(thrown_at(Failure::Dangling, keyword)), self)
                    } else {
                        match method_in(*self.classes[c as int].methods, method.lexeme@) {
                            Some(m) => (
                                Ok(
                                    ValueView::Callable(
                                        Callable::Function(self.functions.len() as usize),
                                    ),
                                ),
                                self.bind(m, c, i).1,
                            ),
                            None => (Err(thrown_at(Failure::UndefinedProperty, method)), self),
                        }
                    },
                    _ => (Err(thrown_at(Failure::UndefinedVariable, keyword)), self),
                }
            },
            None => (Err(thrown_at(Failure::UndefinedVariable, keyword)), self),
        }
    }

    /// The state after a field of an instance got a value.
    pub open spec fn with_field(self, instance: usize, name: Seq<char>, value: ValueView) -> State {
        State {
            instances: self.instances.update(
                instance as int,
                self.instances[instance as int].with_field(name, value),
            ),
            ..self
        }
    }

    /// The result of a native function.
    pub open spec fn native(self, native: Native, args: Seq<ValueView>, site: Token) -> Evaluated {
        match native {
            Native::Clock => if args.len() != 0 {
                (Err(thrown_at(Failure::Arity { expected: 0, got: args.len() as usize }, site)), self)
            } else {
                (Ok(ValueView::Number(self.clock)), self)
            },
            Native::ReadLines => if args.len() != 0 {
                (Err(thrown_at(Failure::Arity { expected: 0, got: args.len() as usize }, site)), self)
            } else if self.input.len() == 0 {
                (Ok(ValueView::Nil), self)
            } else {
                (
                    if self.input[0].len() == 0 {
                        Ok(ValueView::Nil)
                    } else {
                        Ok(ValueView::String(self.input[0]))
                    },
                    State { input: self.input.subrange(1, self.input.len() as int), ..self },
                )
            },
            Native::ParseInt => if args.len() != 1 {
                (Err(thrown_at(Failure::Arity { expected: 1, got: args.len() as usize }, site)), self)
            } else {
                match args[0] {
                    ValueView::String(s) => if decimal_text(s) {
                        match parsed(s) {
                            Some(n) => (Ok(ValueView::Number(n)), self),
                            None => (Err(thrown_at(Failure::NativeArgument, site)), self),
                        }
                    } else {
                        (Err(thrown_at(Failure::NativeArgument, site)), self)
                    },
                    _ => (Err(thrown_at(Failure::NativeArgument, site)), self),
                }
            },
        }
    }

    /// The state in which the body of `function` starts: a fresh current
    /// frame, enclosed by the closure, that binds the parameters to the
    /// arguments in their order.
    pub open spec fn entered(self, function: Function, args: Seq<ValueView>) -> State {
        State {
            env: bound_parameters(
                self.env.enclose(function.closure),
                function.declaration.params,
                args,
                0,
            ),
            ..self
        }
    }

    /// What a call hands back, given how the body ended: the value of a
    /// `return`, or `nil`; for an initializer always `this`.
    pub open spec fn returned(self, function: Function, ended: Result<(), RuntimeErrorView>) -> Result<
        ValueView,
        RuntimeErrorView,
    > {
        let value = match ended {
            Ok(()) => ValueView::Nil,
            Err(RuntimeErrorView::Return(v)) => v,
            Err(e) => ValueView::Nil,
        };
        match ended {
            Err(RuntimeErrorView::Thrown { failure, subject, line }) => Err(
                RuntimeErrorView::Thrown { failure, subject, line },
            ),
            _ => if function.is_initializer {
                match self.env.value_from(Some(function.closure as int), "this"@) {
                    Some(this) => Ok(this),
                    None => Ok(value),
                }
            } else {
                Ok(value)
            },
        }
    }
}

/// The environment with the parameters from `index` on bound to the
/// arguments at their places, in the current frame.
pub open spec fn bound_parameters(
    env: EnvironmentView,
    params: List<Token>,
    args: Seq<ValueView>,
    index: int,
) -> EnvironmentView
    decreases params,
{
    match params {
        List::Nil => env,
        List::Cons(first, rest) => if 0 <= index < args.len() {
            bound_parameters(env.define(first.lexeme@, args[index]), *rest, args, index + 1)
        } else {
            env
        },
    }
}

/// The value of an expression.
pub open spec fn eval(e: Expr, st: State, fuel: nat) -> Evaluated
    decreases 2 * fuel + 1, 0nat, e, 1nat,
{
    match e {
        Expr::Literal { value } => (Ok(literal_value(value)), st),
        Expr::Grouping { expression } => eval(*expression, st, fuel),
        Expr::Variable { name, depth } => (st.variable(name, depth), st),
        Expr::This { keyword, depth } => (st.variable(keyword, depth), st),
        Expr::Unary { operator, right } => {
            let (r, st1) = eval(*right, st, fuel);
            match r {
                Ok(v) => (unary(operator, v), st1),
                Err(e) => (Err(e), st1),
            }
        },
        Expr::Binary { left, operator, right } => {
            let (l, st1) = eval(*left, st, fuel);
            match l {
                Ok(a) => {
                    let (r, st2) = eval(*right, st1, fuel);
                    match r {
                        Ok(b) => (st2.binary(operator, a, b), st2),
                        Err(e) => (Err(e), st2),
                    }
                },
                Err(e) => (Err(e), st1),
            }
        },
        Expr::Logical { left, operator, right } => {
            let (l, st1) = eval(*left, st, fuel);
            match l {
                Ok(a) => if (operator.ty == TokenType::Or) == a.truthy() {
                    (Ok(a), st1)
                } else {
                    eval(*right, st1, fuel)
                },
                Err(e) => (Err(e), st1),
            }
        },
        Expr::Assign { name, value, depth } => {
            let (r, st1) = eval(*value, st, fuel);
            match r {
                Ok(v) => match st1.env.write(depth, name.lexeme@, v) {
                    Some(env) => (Ok(v), State { env, ..st1 }),
                    None => (Err(thrown_at(Failure::UndefinedVariable, name)), st1),
                },
                Err(e) => (Err(e), st1),
            }
        },
        Expr::Call { callee, paren, arguments } => {
            let (c, st1) = eval(*callee, st, fuel);
            match c {
                Ok(f) => {
                    let (a, st2) = eval_all(*arguments, st1, fuel);
                    match a {
                        Ok(args) => call(f, args, paren, st2, fuel),
                        Err(e) => (Err(e), st2),
                    }
                },
                Err(e) => (Err(e), st1),
            }
        },
        Expr::Get { object, name } => {
            let (o, st1) = eval(*object, st, fuel);
            match o {
                Ok(v) => st1.property(v, name),
                Err(e) => (Err(e), st1),
            }
        },
        Expr::SetField { object, name, value } => {
            let (o, st1) = eval(*object, st, fuel);
            match o {
                Ok(ValueView::Instance(i)) => {
                    let (r, st2) = eval(*value, st1, fuel);
                    match r {
                        Ok(v) => if i < st2.instances.len() {
                            (Ok(v), st2.with_field(i, name.lexeme@, v))
                        } else {
                            (Err(thrown_at(Failure::Dangling, name)), st2)
                        },
                        Err(e) => (Err(e), st2),
                    }
                },
                Ok(_) => (Err(thrown_at(Failure::NoFields, name)), st1),
                Err(e) => (Err(e), st1),
            }
        },
        Expr::Super { keyword, method, depth } => st.super_method(keyword, method, depth),
    }
}

/// The values of expressions, evaluated from first to last.
pub open spec fn eval_all(es: List<Expr>, st: State, fuel: nat) -> (
    Result<Seq<ValueView>, RuntimeErrorView>,
    State,
)
    decreases 2 * fuel + 1, 0nat, es, 1nat,
{
    match es {
        List::Nil => (Ok(Seq::empty()), st),
        List::Cons(first, rest) => {
            let (r, st1) = eval(first, st, fuel);
            match r {
                Ok(v) => {
                    let (rs, st2) = eval_all(*rest, st1, fuel);
                    match rs {
                        Ok(vs) => (Ok(seq![v] + vs), st2),
                        Err(e) => (Err(e), st2),
                    }
                },
                Err(e) => (Err(e), st1),
            }
        },
    }
}

/// The result of calling a value with arguments.
pub open spec fn call(callee: ValueView, args: Seq<ValueView>, site: Token, st: State, fuel: nat) -> Evaluated
    decreases 2 * fuel, 0nat, Floor::Ground, 2nat,
{
    match callee {
        ValueView::Callable(Callable::Function(f)) => if f < st.functions.len() {
            call_function(st.functions[f as int], args, site, st, fuel)
        } else {
            (Err(thrown_at(Failure::Dangling, site)), st)
        },
        ValueView::Callable(Callable::Native(n)) => st.native(n, args, site),
        ValueView::Class(c) => instantiate(c, args, site, st, fuel),
        _ => (Err(thrown_at(Failure::NotCallable, site)), st),
    }
}

/// The result of calling a function: with another number of arguments
/// than it has parameters, an error; else what its body returns, run in a
/// fresh frame enclosed by its closure.
pub open spec fn call_function(
    function: Function,
    args: Seq<ValueView>,
    site: Token,
    st: State,
    fuel: nat,
) -> Evaluated
    decreases 2 * fuel, 0nat, Floor::Ground, 0nat,
{
    if function.params() != args.len() {
        (
            Err(
                thrown_at(
                    Failure::Arity { expected: function.params(), got: args.len() as usize },
                    site,
                ),
            ),
            st,
        )
    } else if function.closure >= st.env.frames.len() {
        (Err(thrown_at(Failure::Dangling, site)), st)
    } else if fuel == 0 {
        (Err(thrown_at(Failure::Exhausted, site)), st)
    } else {
        let (ended, st1) = exec_all(
            function.declaration.body,
            st.entered(function, args),
            (fuel - 1) as nat,
        );
        let st2 = State { env: st1.env.declose(st.env.current), ..st1 };
        (st2.returned(function, ended), st2)
    }
}

/// The result of calling a class: a fresh instance, after its initializer
/// has run if the class has one.
pub open spec fn instantiate(class: usize, args: Seq<ValueView>, site: Token, st: State, fuel: nat) -> Evaluated
    decreases 2 * fuel, 0nat, Floor::Ground, 1nat,
{
    if class >= st.classes.len() {
        (Err(thrown_at(Failure::Dangling, site)), st)
    } else if st.class_arity(class) != args.len() {
        (
            Err(
                thrown_at(
                    Failure::Arity { expected: st.class_arity(class), got: args.len() as usize },
                    site,
                ),
            ),
            st,
        )
    } else {
        let instance = st.instances.len() as usize;
        let st1 = State { instances: st.instances.push(InstanceView::fresh(class)), ..st };
        match st.find_method(class as int, "init"@) {
            Some((m, owner)) => if st1.bindable(owner) {
                let (function, st2) = st1.bind(m, owner, instance);
                let (r, st3) = call_function(function, args, site, st2, fuel);
                match r {
                    Ok(_) => (Ok(ValueView::Instance(instance)), st3),
                    Err(e) => (Err(e), st3),
                }
            } else {
                (Err(thrown_at(Failure::Dangling, site)), st1)
            },
            None => (Ok(ValueView::Instance(instance)), st1),
        }
    }
}

/// The state after the declaration of a class, given the class it
/// inherits from.
pub open spec fn declared_class(
    st: State,
    name: Token,
    methods: Rc<List<Rc<Declaration>>>,
    superclass: Option<usize>,
) -> State {
    let defined = st.env.define(name.lexeme@, ValueView::Nil);
    let scoped = match superclass {
        Some(s) => defined.enclose(defined.current).define("super"@, ValueView::Class(s)),
        None => defined,
    };
    let class = Class { name: name.lexeme, methods, superclass, closure: scoped.current };
    let left = scoped.declose(st.env.current);
    State {
        env: match left.assign(name.lexeme@, ValueView::Class(st.classes.len() as usize)) {
            Some(env) => env,
            None => left,
        },
        classes: st.classes.push(class),
        ..st
    }
}

/// The effect of a statement.
pub open spec fn exec(s: Stmt, st: State, fuel: nat) -> Executed
    decreases 2 * fuel + 1, 1nat, s, 1nat,
{
    match s {
        Stmt::Expression(e) => {
            let (r, st1) = eval(e, st, fuel);
            match r {
                Ok(_) => (Ok(()), st1),
                Err(e) => (Err(e), st1),
            }
        },
        Stmt::Print(e) => {
            let (r, st1) = eval(e, st, fuel);
            match r {
                Ok(v) => (Ok(()), State { output: st1.output.push(st1.display(v)), ..st1 }),
                Err(e) => (Err(e), st1),
            }
        },
        Stmt::Var { name, initializer } => {
            let (r, st1) = match initializer {
                Some(e) => eval(e, st, fuel),
                None => (Ok(ValueView::Nil), st),
            };
            match r {
                Ok(v) => (Ok(()), State { env: st1.env.define(name.lexeme@, v), ..st1 }),
                Err(e) => (Err(e), st1),
            }
        },
        Stmt::Block(stmts) => {
            let (r, st1) = exec_all(
                *stmts,
                State { env: st.env.enclose(st.env.current), ..st },
                fuel,
            );
            (r, State { env: st1.env.declose(st.env.current), ..st1 })
        },
        Stmt::If { condition, then_branch, else_branch } => {
            let (c, st1) = eval(condition, st, fuel);
            match c {
                Ok(v) => if v.truthy() {
                    exec(*then_branch, st1, fuel)
                } else {
                    match else_branch {
                        Some(other) => exec(*other, st1, fuel),
                        None => (Ok(()), st1),
                    }
                },
                Err(e) => (Err(e), st1),
            }
        },
        Stmt::While { condition, body } => run_while(s, st, fuel),
        Stmt::Function(declaration) => (
            Ok(()),
            State {
                env: st.env.define(
                    declaration.name.lexeme@,
                    ValueView::Callable(Callable::Function(st.functions.len() as usize)),
                ),
                functions: st.functions.push(
                    Function { declaration, closure: st.env.current, is_initializer: false },
                ),
                ..st
            },
        ),
        Stmt::Class { name, superclass, methods } => match superclass {
            Some(e) => {
                let (r, st1) = eval(e, st, fuel);
                match r {
                    Ok(ValueView::Class(c)) => if c < st1.classes.len() {
                        (Ok(()), declared_class(st1, name, methods, Some(c)))
                    } else {
                        (Err(thrown_at(Failure::Dangling, name)), st1)
                    },
                    Ok(_) => (Err(thrown_at(Failure::SuperclassNotClass, name)), st1),
                    Err(e) => (Err(e), st1),
                }
            },
            None => (Ok(()), declared_class(st, name, methods, None)),
        },
        Stmt::Return { keyword, value } => match value {
            Some(e) => {
                let (r, st1) = eval(e, st, fuel);
                match r {
                    Ok(v) => (Err(RuntimeErrorView::Return(v)), st1),
                    Err(e) => (Err(e), st1),
                }
            },
            None => (Err(RuntimeErrorView::Return(ValueView::Nil)), st),
        },
    }
}

/// The effect of a `while` statement: its body again and again, as long as
/// its condition is truthy.
pub open spec fn run_while(s: Stmt, st: State, fuel: nat) -> Executed
    decreases 2 * fuel + 1, 1nat, s, 0nat,
{
    match s {
        Stmt::While { condition, body } => {
            let (c, st1) = eval(condition, st, fuel);
            match c {
                Ok(v) => if v.falsy() {
                    (Ok(()), st1)
                } else if fuel == 0 {
                    (Err(thrown(Failure::Exhausted)), st1)
                } else {
                    let (r, st2) = exec(*body, st1, fuel);
                    match r {
                        Ok(()) => run_while(s, st2, (fuel - 1) as nat),
                        Err(e) => (Err(e), st2),
                    }
                },
                Err(e) => (Err(e), st1),
            }
        },
        _ => (Ok(()), st),
    }
}

/// The effect of statements, run from first to last; what does not end
/// with `Ok` ends the run.
pub open spec fn exec_all(stmts: List<Stmt>, st: State, fuel: nat) -> Executed
    decreases 2 * fuel + 1, 1nat, stmts, 1nat,
{
    match stmts {
        List::Nil => (Ok(()), st),
        List::Cons(first, rest) => {
            let (r, st1) = exec(first, st, fuel);
            match r {
                Ok(()) => exec_all(*rest, st1, fuel),
                Err(e) => (Err(e), st1),
            }
        },
    }
}


/// `print e;` and `e;` agree on the value of `e`: they fail together with
/// the same error, and where they succeed they leave the same state, but
/// for the line that `print` adds, which is the text of the value.
pub proof fn print_agrees_with_expression(e: Expr, st: State, fuel: nat)
    ensures
        match eval(e, st, fuel) {
            (Ok(v), after) => exec(Stmt::Expression(e), st, fuel) == (Ok::<(), RuntimeErrorView>(()), after)
                && exec(Stmt::Print(e), st, fuel) == (
                Ok::<(), RuntimeErrorView>(()),
                State { output: after.output.push(after.display(v)), ..after },
            ),
            (Err(error), after) => exec(Stmt::Expression(e), st, fuel) == (
                Err::<(), RuntimeErrorView>(error),
                after,
            ) && exec(Stmt::Print(e), st, fuel) == (Err::<(), RuntimeErrorView>(error), after),
        },
{
}

/// `==` and `!=` never fail, and one is the negation of the other.
pub proof fn unequal_is_not_equal(st: State, equal: Token, unequal: Token, a: ValueView, b: ValueView)
    requires
        equal.ty == TokenType::EqualEqual,
        unequal.ty == TokenType::BangEqual,
    ensures
        st.binary(equal, a, b) == Ok::<ValueView, RuntimeErrorView>(ValueView::Bool(a.equal_to(b))),
        st.binary(unequal, a, b) == Ok::<ValueView, RuntimeErrorView>(
            ValueView::Bool(!a.equal_to(b)),
        ),
{
}

/// A call with another number of arguments than the function has
/// parameters fails with the arity error of that call, and changes nothing.
pub proof fn wrong_count_fails(function: Function, args: Seq<ValueView>, site: Token, st: State, fuel: nat)
    requires
        args.len() != function.params(),
    ensures
        call_function(function, args, site, st, fuel) == (
            Err::<ValueView, RuntimeErrorView>(
                thrown_at(
                    Failure::Arity { expected: function.params(), got: args.len() as usize },
                    site,
                ),
            ),
            st,
        ),
{
}

/// A call with as many arguments as the function has parameters runs the
/// body: it fails only with what the body throws, and where the body ends
/// or returns, the call gives a value.
pub proof fn right_count_runs_body(function: Function, args: Seq<ValueView>, site: Token, st: State, fuel: nat)
    requires
        args.len() == function.params(),
        function.closure < st.env.frames.len(),
        fuel > 0,
    ensures
        ({
            let (ended, after) = exec_all(
                function.declaration.body,
                st.entered(function, args),
                (fuel - 1) as nat,
            );
            let (result, _) = call_function(function, args, site, st, fuel);
            match ended {
                Err(RuntimeErrorView::Thrown { failure, subject, line }) => result == Err::<
                    ValueView,
                    RuntimeErrorView,
                >(RuntimeErrorView::Thrown { failure, subject, line }),
                _ => result.is_ok(),
            }
        }),
{
}

/// A function without parameters and with an empty body, called without
/// arguments, gives `nil`: the arity of a call alone decides whether the
/// call itself fails.
pub proof fn empty_function_gives_nil(function: Function, site: Token, st: State, fuel: nat)
    requires
        function.declaration.params is Nil,
        function.declaration.body is Nil,
        !function.is_initializer,
        function.closure < st.env.frames.len(),
        fuel > 0,
    ensures
        call_function(function, Seq::empty(), site, st, fuel).0 == Ok::<
            ValueView,
            RuntimeErrorView,
        >(ValueView::Nil),
{
}


/// Whatever is called, a function, a native function or a class: with
/// another number of arguments than its arity the call fails with the
/// arity error, and changes nothing.
pub proof fn wrong_count_fails_for_all(
    callee: ValueView,
    args: Seq<ValueView>,
    site: Token,
    st: State,
    fuel: nat,
)
    requires
        st.arity(callee).is_some(),
        args.len() != st.arity(callee).unwrap(),
    ensures
        call(callee, args, site, st, fuel) == (
            Err::<ValueView, RuntimeErrorView>(
                thrown_at(
                    Failure::Arity {
                        expected: st.arity(callee).unwrap(),
                        got: args.len() as usize,
                    },
                    site,
                ),
            ),
            st,
        ),
{
}

/// What cannot be called has no arity, and a call of it fails without
/// changing anything.
pub proof fn call_of_other_values_fails(
    callee: ValueView,
    args: Seq<ValueView>,
    site: Token,
    st: State,
    fuel: nat,
)
    requires
        st.arity(callee).is_none(),
    ensures
        call(callee, args, site, st, fuel).0.is_err(),
        call(callee, args, site, st, fuel).1 == st,
{
}


/// A native function called with as many arguments as it takes is not
/// refused for their number.
pub proof fn native_right_count_passes(native: Native, args: Seq<ValueView>, site: Token, st: State)
    requires
        st.arity(ValueView::Callable(Callable::Native(native))) == Some(args.len() as usize),
        args.len() <= usize::MAX,
    ensures
        match st.native(native, args, site).0 {
            Ok(_) => true,
            Err(RuntimeErrorView::Thrown { failure, subject, line }) => failure
                == Failure::NativeArgument,
            Err(_) => false,
        },
{
}

/// A class called with as many arguments as its initializer takes makes
/// an instance and calls the initializer, bound to the instance, with the
/// arguments; the initializer takes that many, so the call of the class
/// fails only with what the call of the initializer fails with. A class
/// without initializer, called without arguments, gives the instance.
pub proof fn class_right_count_runs_initializer(
    class: usize,
    args: Seq<ValueView>,
    site: Token,
    st: State,
    fuel: nat,
)
    requires
        st.wf(),
        class < st.classes.len(),
        st.class_arity(class) == args.len(),
    ensures
        ({
            let instance = st.instances.len() as usize;
            let made = State { instances: st.instances.push(InstanceView::fresh(class)), ..st };
            match st.find_method(class as int, "init"@) {
                Some((m, owner)) => {
                    let (function, bound) = made.bind(m, owner, instance);
                    let called = call_function(function, args, site, bound, fuel);
                    &&& function.params() == args.len()
                    &&& function.closure < bound.env.frames.len()
                    &&& instantiate(class, args, site, st, fuel) == (
                        match called.0 {
                            Ok(_) => Ok::<ValueView, RuntimeErrorView>(
                                ValueView::Instance(instance),
                            ),
                            Err(e) => Err::<ValueView, RuntimeErrorView>(e),
                        },
                        called.1,
                    )
                },
                None => instantiate(class, args, site, st, fuel) == (
                    Ok::<ValueView, RuntimeErrorView>(ValueView::Instance(instance)),
                    made,
                ),
            }
        }),
{
    st.method_owner_exists(class as int, "init"@);
}

/// Binding parameters changes the current frame alone.
pub proof fn bound_parameters_keep_frames(
    env: EnvironmentView,
    params: List<Token>,
    args: Seq<ValueView>,
    index: int,
)
    requires
        env.current < env.frames.len(),
    ensures
        bound_parameters(env, params, args, index).current == env.current,
        bound_parameters(env, params, args, index).frames.len() == env.frames.len(),
        bound_parameters(env, params, args, index).frames[env.current as int].enclosing
            == env.frames[env.current as int].enclosing,
        forall|k: int|
            0 <= k < env.frames.len() && k != env.current ==> #[trigger] bound_parameters(
                env,
                params,
                args,
                index,
            ).frames[k] == env.frames[k],
    decreases params,
{
    match params {
        List::Nil => {},
        List::Cons(first, rest) => {
            if 0 <= index < args.len() {
                let next = env.define(first.lexeme@, args[index]);
                bound_parameters_keep_frames(next, *rest, args, index + 1);
                assert forall|k: int|
                    0 <= k < env.frames.len() && k != env.current implies #[trigger] bound_parameters(
                    env,
                    params,
                    args,
                    index,
                ).frames[k] == env.frames[k] by {
                    assert(next.frames[k] == env.frames[k]);
                }
            }
        },
    }
}

/// What is read from a frame is the same in two environments that agree
/// on that frame and on the frames made before it.
pub proof fn read_agrees(a: EnvironmentView, b: EnvironmentView, at: int, name: Seq<char>)
    requires
        0 <= at < a.frames.len(),
        at < b.frames.len(),
        forall|k: int| 0 <= k <= at ==> #[trigger] a.frames[k] == b.frames[k],
    ensures
        a.holder(at, name) == b.holder(at, name),
        a.value_from(Some(at), name) == b.value_from(Some(at), name),
    decreases at,
{
    assert(a.frames[at] == b.frames[at]);
    if place(a.frames[at].values, name, 0).is_none() {
        match a.frames[at].enclosing {
            Some(p) => {
                if p < at {
                    read_agrees(a, b, p as int, name);
                }
            },
            None => {},
        }
    }
    a.holder_found(at, name);
    match a.holder(at, name) {
        Some(h) => {
            a.holder_below(at, name);
            assert(a.frames[h] == b.frames[h]);
        },
        None => {},
    }
}

/// A method fetched from an instance is bound to the instance: the
/// property is a new function whose closure binds `this` to the instance,
/// and the body of a call of it starts in a scope from which `this`, one
/// scope out, is that very instance, whatever the arguments.
pub proof fn fetched_method_is_bound(st: State, instance: usize, name: Token, args: Seq<ValueView>)
    requires
        st.wf(),
        instance < st.instances.len(),
        lookup(st.instances[instance as int].fields, name.lexeme@).is_none(),
        st.find_method(st.instances[instance as int].class as int, name.lexeme@).is_some(),
        st.env.frames.len() + 1 <= usize::MAX,
        st.functions.len() <= usize::MAX,
    ensures
        ({
            let (fetched, after) = st.property(ValueView::Instance(instance), name);
            let handle = st.functions.len() as int;
            &&& fetched == Ok::<ValueView, RuntimeErrorView>(
                ValueView::Callable(Callable::Function(handle as usize)),
            )
            &&& after.functions.len() == handle + 1
            &&& after.env.value_from(Some(after.functions[handle].closure as int), "this"@) == Some(
                ValueView::Instance(instance),
            )
            &&& after.entered(after.functions[handle], args).env.get_at(1, "this"@) == Some(
                ValueView::Instance(instance),
            )
        }),
{
    let class = st.instances[instance as int].class;
    st.method_owner_exists(class as int, name.lexeme@);
    let (m, owner) = st.find_method(class as int, name.lexeme@).unwrap();
    assert(st.bindable(owner));
    let (function, after) = st.bind(m, owner, instance);
    let frame = st.env.frames.len() as int;
    assert(function.closure == frame);
    let bound = after.env;
    assert(bound.frames.len() == frame + 1);
    let values = bound.frames[frame].values;
    assert(values =~= seq![("this"@, ValueView::Instance(instance))]);
    assert(place(values, "this"@, 0) == Some(0int));
    assert(bound.holder(frame, "this"@) == Some(frame));
    assert(bound.value_from(Some(frame), "this"@) == Some(ValueView::Instance(instance)));
    // the call: a fresh frame enclosed by the closure, the parameters in it
    let entered = bound.enclose(function.closure);
    let started = after.entered(function, args).env;
    bound_parameters_keep_frames(entered, function.parameters(), args, 0);
    assert(started.current == frame + 1);
    assert(started.frames[frame + 1].enclosing == Some(function.closure));
    assert(started.ancestor(frame, 0) == Some(frame));
    assert(started.ancestor(frame + 1, 1) == Some(frame));
    assert forall|k: int| 0 <= k <= frame implies #[trigger] started.frames[k] == bound.frames[k] by {
        assert(started.frames[k] == entered.frames[k]);
    }
    read_agrees(started, bound, frame, "this"@);
}


/// A function sees the globals as they are when it is called, not as they
/// were when it was made: a function whose body returns a global gives
/// the value that the global has in the state of the call.
pub proof fn function_reads_global_at_call(
    function: Function,
    name: Token,
    keyword: Token,
    site: Token,
    st: State,
    fuel: nat,
)
    requires
        function.parameters() is Nil,
        function.declaration.body == List::Cons(
            Stmt::Return { keyword, value: Some(Expr::Variable { name, depth: None }) },
            Box::new(List::Nil),
        ),
        !function.is_initializer,
        function.closure < st.env.frames.len(),
        st.env.frames.len() + 1 <= usize::MAX,
        fuel > 0,
    ensures
        call_function(function, Seq::empty(), site, st, fuel).0 == match st.env.get_global(
            name.lexeme@,
        ) {
            Some(v) => Ok::<ValueView, RuntimeErrorView>(v),
            None => Err::<ValueView, RuntimeErrorView>(
                thrown_at(Failure::UndefinedVariable, name),
            ),
        },
{
    let entered = st.entered(function, Seq::empty());
    assert(entered.env == st.env.enclose(function.closure));
    assert forall|k: int| 0 <= k <= 0 implies #[trigger] entered.env.frames[k]
        == st.env.frames[k] by {}
    read_agrees(entered.env, st.env, 0, name.lexeme@);
    let first = Stmt::Return { keyword, value: Some(Expr::Variable { name, depth: None }) };
    let inner = (fuel - 1) as nat;
    assert(eval(Expr::Variable { name, depth: None }, entered, inner) == (
        entered.variable(name, None),
        entered,
    ));
    assert(exec_all(function.body(), entered, inner) == exec(first, entered, inner));
}

} // verus!
