//! Classes as values.

use crate::list::List;
use crate::stmt::Declaration;
use crate::token::same_text;
use std::rc::Rc;
use vstd::prelude::*;

verus! {

/// A class: its name, its methods as they were declared, the class it
/// inherits from, by its place among the classes of the interpreter, and
/// the frame its methods close over.
#[derive(Debug)]
pub struct Class {
    pub name: String,
    pub methods: Rc<List<Rc<Declaration>>>,
    pub superclass: Option<usize>,
    pub closure: usize,
}

/// The method called `name` among `methods`; of two with one name the
/// later one counts.
pub open spec fn method_in(methods: List<Rc<Declaration>>, name: Seq<char>) -> Option<
    Rc<Declaration>,
>
    decreases methods,
{
    match methods {
        List::Nil => None,
        List::Cons(first, rest) => match method_in(*rest, name) {
            Some(m) => Some(m),
            None => if first.name.lexeme@ == name {
                Some(first)
            } else {
                None
            },
        },
    }
}

impl Clone for Class {
    fn clone(&self) -> (r: Self)
        ensures
            r == *self,
    {
        Class {
            name: self.name.clone(),
            methods: self.methods.clone(),
            superclass: self.superclass,
            closure: self.closure,
        }
    }
}

impl Class {
    pub fn new(
        name: String,
        methods: Rc<List<Rc<Declaration>>>,
        superclass: Option<usize>,
        closure: usize,
    ) -> (r: Self)
        ensures
            r == (Class { name, methods, superclass, closure }),
    {
        Class { name, methods, superclass, closure }
    }

    /// The method called `name` that the class itself declares.
    pub fn find_method(&self, name: &str) -> (r: Option<Rc<Declaration>>)
        ensures
            r == method_in(*self.methods, name@),
    {
        let mut found: Option<Rc<Declaration>> = None;
        let mut at: &List<Rc<Declaration>> = &self.methods;
        loop
            invariant
                method_in(*self.methods, name@) == match method_in(*at, name@) {
                    Some(m) => Some(m),
                    None => found,
                },
            decreases at,
        {
            match at {
                List::Nil => {
                    return found;
                },
                List::Cons(first, rest) => {
                    if same_text(first.name.lexeme.as_str(), name) {
                        found = Some(first.clone());
                    }
                    at = rest;
                },
            }
        }
    }
}

} // verus!
