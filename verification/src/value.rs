//! Values of the language.

use crate::number::{number_text, Number};
use vstd::prelude::*;

verus! {

/// The functions that the host provides.
#[derive(Debug, Clone, Copy, PartialEq, Eq, Structural)]
pub enum Native {
    Clock,
    ReadLines,
    ParseInt,
}

/// What can be called besides a class: a function of the program, by its
/// place among the functions of the interpreter, or a native function.
#[derive(Debug, Clone, Copy, PartialEq, Eq, Structural)]
pub enum Callable {
    Function(usize),
    Native(Native),
}

/// A value. Functions, classes and instances are shared: the value holds
/// the place of the object in the interpreter, and two such values are the
/// same object when they hold the same place.
#[derive(Debug)]
pub enum Value {
    Callable(Callable),
    Class(usize),
    Instance(usize),
    String(String),
    Number(Number),
    Bool(bool),
    Nil,
}

/// A value seen through the characters of its text.
pub enum ValueView {
    Callable(Callable),
    Class(usize),
    Instance(usize),
    String(Seq<char>),
    Number(Number),
    Bool(bool),
    Nil,
}

impl ValueView {
    /// `nil` and `false` are the only values that count as false.
    pub open spec fn falsy(self) -> bool {
        self == ValueView::Nil || self == ValueView::Bool(false)
    }

    pub open spec fn truthy(self) -> bool {
        !self.falsy()
    }

    /// The text that stands for a value where nothing is known of the
    /// classes of a program: a number in decimal, a string as it is.
    pub open spec fn text(self) -> Seq<char> {
        match self {
            ValueView::Callable(_) => "fun"@,
            ValueView::Class(_) => "class"@,
            ValueView::Instance(_) => "instance"@,
            ValueView::String(s) => s,
            ValueView::Number(n) => number_text(n),
            ValueView::Bool(b) => if b {
                "true"@
            } else {
                "false"@
            },
            ValueView::Nil => "nil"@,
        }
    }

    /// Equality of the language: values of different kinds are never
    /// equal; numbers are equal as binary64 values are; functions, classes
    /// and instances are equal when they are the same object.
    pub open spec fn equal_to(self, other: ValueView) -> bool {
        match (self, other) {
            (ValueView::Callable(a), ValueView::Callable(b)) => a == b,
            (ValueView::Class(a), ValueView::Class(b)) => a == b,
            (ValueView::Instance(a), ValueView::Instance(b)) => a == b,
            (ValueView::String(a), ValueView::String(b)) => a == b,
            (ValueView::Number(a), ValueView::Number(b)) => a.equal_to(b),
            (ValueView::Bool(a), ValueView::Bool(b)) => a == b,
            (ValueView::Nil, ValueView::Nil) => true,
            _ => false,
        }
    }
}

impl View for Value {
    type V = ValueView;

    open spec fn view(&self) -> ValueView {
        match self {
            Value::Callable(c) => ValueView::Callable(*c),
            Value::Class(c) => ValueView::Class(*c),
            Value::Instance(i) => ValueView::Instance(*i),
            Value::String(s) => ValueView::String(s@),
            Value::Number(n) => ValueView::Number(*n),
            Value::Bool(b) => ValueView::Bool(*b),
            Value::Nil => ValueView::Nil,
        }
    }
}

impl Clone for Value {
    fn clone(&self) -> (r: Self)
        ensures
            r == *self,
    {
        match self {
            Value::Callable(c) => Value::Callable(*c),
            Value::Class(c) => Value::Class(*c),
            Value::Instance(i) => Value::Instance(*i),
            Value::String(s) => Value::String(s.clone()),
            Value::Number(n) => Value::Number(*n),
            Value::Bool(b) => Value::Bool(*b),
            Value::Nil => Value::Nil,
        }
    }
}

impl Default for Value {
    fn default() -> (r: Self)
        ensures
            r == Value::Nil,
    {
        Self::Nil
    }
}

impl Value {
    pub fn is_truthy(&self) -> (r: bool)
        ensures
            r == self@.truthy(),
            r == !(self@ == ValueView::Nil || self@ == ValueView::Bool(false)),
    {
        !self.is_falsy()
    }

    pub fn is_falsy(&self) -> (r: bool)
        ensures
            r == self@.falsy(),
            r == (self@ == ValueView::Nil || self@ == ValueView::Bool(false)),
    {
        match self {
            Value::Bool(false) => true,
            Value::Nil => true,
            _ => false,
        }
    }

    pub fn is_nil(&self) -> (r: bool)
        ensures
            r == (self@ == ValueView::Nil),
    {
        matches!(self, Value::Nil)
    }

    pub fn is_number(&self) -> (r: bool)
        ensures
            r == (self@ is Number),
    {
        matches!(self, Value::Number(_))
    }

    pub fn is_string(&self) -> (r: bool)
        ensures
            r == (self@ is String),
    {
        matches!(self, Value::String(_))
    }

    pub fn is_callable(&self) -> (r: bool)
        ensures
            r == (self@ is Callable),
    {
        matches!(self, Value::Callable(_))
    }

    /// The number that the value is, if it is one.
    pub fn number(self) -> (r: Option<Number>)
        ensures
            r == match self@ {
                ValueView::Number(n) => Some(n),
                _ => None,
            },
    {
        match self {
            Value::Number(n) => Some(n),
            _ => None,
        }
    }

    /// The text that the value is, if it is a string.
    pub fn string(self) -> (r: Option<String>)
        ensures
            match r {
                Some(s) => self@ == ValueView::String(s@),
                None => !(self@ is String),
            },
    {
        match self {
            Value::String(s) => Some(s),
            _ => None,
        }
    }

    /// The truth value that the value is, if it is a boolean.
    pub fn bool(self) -> (r: Option<bool>)
        ensures
            r == match self@ {
                ValueView::Bool(b) => Some(b),
                _ => None,
            },
    {
        match self {
            Value::Bool(b) => Some(b),
            _ => None,
        }
    }

    /// Whether the value is `nil`, as a result.
    pub fn nil(self) -> (r: Option<()>)
        ensures
            r.is_some() == (self@ == ValueView::Nil),
    {
        match self {
            Value::Nil => Some(()),
            _ => None,
        }
    }

    /// The text that stands for the value where the classes of a program
    /// are not at hand: a class is shown as `class` and an instance as
    /// `instance`, without the name of the class. `Interpreter::display`
    /// shows them with the name.
    pub fn display(&self) -> (r: String)
        ensures
            r@ == self@.text(),
            self@ is Instance ==> r@ == "instance"@,
            self@ is Class ==> r@ == "class"@,
    {
        match self {
            Value::Callable(_) => "fun".to_owned(),
            Value::Class(_) => "class".to_owned(),
            Value::Instance(_) => "instance".to_owned(),
            Value::String(s) => s.clone(),
            Value::Number(n) => n.display(),
            Value::Bool(b) => if *b {
                "true".to_owned()
            } else {
                "false".to_owned()
            },
            Value::Nil => "nil".to_owned(),
        }
    }

    /// Equality of the language.
    pub fn equals(&self, other: &Value) -> (r: bool)
        ensures
            r == self@.equal_to(other@),
    {
        match (self, other) {
            (Value::Callable(a), Value::Callable(b)) => *a == *b,
            (Value::Class(a), Value::Class(b)) => *a == *b,
            (Value::Instance(a), Value::Instance(b)) => *a == *b,
            (Value::String(a), Value::String(b)) => *a == *b,
            (Value::Number(a), Value::Number(b)) => a.equals(*b),
            (Value::Bool(a), Value::Bool(b)) => *a == *b,
            (Value::Nil, Value::Nil) => true,
            _ => false,
        }
    }
}

/// Equality is reflexive for every value but a NaN number.
pub proof fn equality_reflexive(v: ValueView)
    ensures
        v.equal_to(v) <==> !(v is Number && v->Number_0.nan()),
{
}

/// Equality does not depend on the order of its operands.
pub proof fn equality_symmetric(a: ValueView, b: ValueView)
    ensures
        a.equal_to(b) == b.equal_to(a),
{
}

/// Every value is either truthy or falsy, and `nil` and `false` are the
/// only falsy ones.
pub proof fn truthiness_partition(v: ValueView)
    ensures
        v.truthy() != v.falsy(),
        v.falsy() <==> (v == ValueView::Nil || v == ValueView::Bool(false)),
{
}

} // verus!
