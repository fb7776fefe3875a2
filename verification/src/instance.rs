//! Instances of classes.

use crate::environment::{bind, binding_views, fetch, lookup, store, Binding, Bindings};
use crate::value::{Value, ValueView};
use vstd::prelude::*;

verus! {

/// An instance: its class, by its place among the classes of the
/// interpreter, and its fields.
#[derive(Debug)]
pub struct Instance {
    pub class: usize,
    pub fields: Vec<Binding>,
}

pub struct InstanceView {
    pub class: usize,
    pub fields: Bindings,
}

impl View for Instance {
    type V = InstanceView;

    open spec fn view(&self) -> InstanceView {
        InstanceView { class: self.class, fields: binding_views(self.fields@) }
    }
}

impl InstanceView {
    pub open spec fn fresh(class: usize) -> InstanceView {
        InstanceView { class, fields: Seq::empty() }
    }

    pub open spec fn with_field(self, name: Seq<char>, value: ValueView) -> InstanceView {
        InstanceView { fields: bind(self.fields, name, value), ..self }
    }
}

impl Instance {
    /// An instance of `class` without fields.
    pub fn new(class: usize) -> (r: Self)
        ensures
            r@ == InstanceView::fresh(class),
    {
        let r = Instance { class, fields: Vec::new() };
        assert(r@.fields =~= Seq::empty());
        r
    }

    /// The value of the field `name`, if the instance has that field.
    pub fn get(&self, name: &str) -> (r: Option<Value>)
        ensures
            match r {
                Some(v) => lookup(self@.fields, name@) == Some(v@),
                None => lookup(self@.fields, name@).is_none(),
            },
    {
        fetch(&self.fields, name)
    }

    /// Gives the field `name` a value; makes the field if there is none.
    pub fn set(&mut self, name: &str, value: Value)
        ensures
            final(self)@ == old(self)@.with_field(name@, value@),
    {
        store(&mut self.fields, name, value)
    }
}

} // verus!
