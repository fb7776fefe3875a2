//! Immutable singly linked lists, the sequences of the syntax tree.

use vstd::prelude::*;

verus! {

#[derive(Debug)]
pub enum List<T> {
    Nil,
    Cons(T, Box<List<T>>),
}

impl<T> List<T> {
    /// The items of the list, first to last.
    pub open spec fn items(self) -> Seq<T>
        decreases self,
    {
        match self {
            List::Nil => Seq::empty(),
            List::Cons(first, rest) => seq![first] + rest.items(),
        }
    }

    /// The number of items, or `usize::MAX` if there are more than that.
    pub open spec fn size(self) -> usize
        decreases self,
    {
        match self {
            List::Nil => 0,
            List::Cons(_, rest) => if rest.size() == usize::MAX {
                usize::MAX
            } else {
                (rest.size() + 1) as usize
            },
        }
    }

    pub fn count(&self) -> (r: usize)
        ensures
            r == self.size(),
    {
        let mut n: usize = 0;
        let mut at = self;
        loop
            invariant
                self.size() == if n as int + at.size() as int >= usize::MAX {
                    usize::MAX
                } else {
                    (n + at.size()) as usize
                },
            decreases at,
        {
            match at {
                List::Nil => {
                    return n;
                },
                List::Cons(_, rest) => {
                    if n == usize::MAX {
                        return n;
                    }
                    n += 1;
                    at = rest;
                },
            }
        }
    }

    /// The list with `item` in front.
    pub fn cons(item: T, rest: List<T>) -> (r: List<T>)
        ensures
            r == List::Cons(item, Box::new(rest)),
    {
        List::Cons(item, Box::new(rest))
    }

    /// `self` with its items in the opposite order, in front of `onto`.
    pub open spec fn turned(self, onto: List<T>) -> List<T>
        decreases self,
    {
        match self {
            List::Nil => onto,
            List::Cons(first, rest) => rest.turned(List::Cons(first, Box::new(onto))),
        }
    }

    /// The list with its items in the opposite order.
    pub fn reverse(self) -> (r: List<T>)
        ensures
            r == self.turned(List::Nil),
    {
        let mut out: List<T> = List::Nil;
        let mut at = self;
        loop
            invariant
                at.turned(out) == self.turned(List::Nil),
            decreases at,
        {
            match at {
                List::Nil => {
                    return out;
                },
                List::Cons(first, rest) => {
                    out = List::Cons(first, Box::new(out));
                    at = *rest;
                },
            }
        }
    }
}

} // verus!
