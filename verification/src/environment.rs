//! Environments: the scopes of a running program.
//!
//! Scopes are frames that are never moved once made, so that a closure can
//! refer to the frame it was made in and see later assignments. A frame
//! names the frame that encloses it; the first frame holds the globals.

use crate::token::same_text;
use crate::value::{Value, ValueView};
use vstd::prelude::*;

verus! {

/// A name bound to a value.
#[derive(Debug)]
pub struct Binding {
    pub name: String,
    pub value: Value,
}

pub type Bindings = Seq<(Seq<char>, ValueView)>;

impl View for Binding {
    type V = (Seq<char>, ValueView);

    open spec fn view(&self) -> (Seq<char>, ValueView) {
        (self.name@, self.value@)
    }
}

pub open spec fn binding_views(bindings: Seq<Binding>) -> Bindings {
    bindings.map_values(|b: Binding| b@)
}

/// The first place from `from` on where `name` is bound.
pub open spec fn place(bindings: Bindings, name: Seq<char>, from: int) -> Option<int>
    decreases bindings.len() - from,
{
    if 0 <= from < bindings.len() {
        if bindings[from].0 == name {
            Some(from)
        } else {
            place(bindings, name, from + 1)
        }
    } else {
        None
    }
}

/// The value bound to `name`.
pub open spec fn lookup(bindings: Bindings, name: Seq<char>) -> Option<ValueView> {
    match place(bindings, name, 0) {
        Some(i) => Some(bindings[i].1),
        None => None,
    }
}

/// The bindings with `name` bound to `value`, anew or in place of its old value.
pub open spec fn bind(bindings: Bindings, name: Seq<char>, value: ValueView) -> Bindings {
    match place(bindings, name, 0) {
        Some(i) => bindings.update(i, (name, value)),
        None => bindings.push((name, value)),
    }
}

/// Whether no name is bound twice.
pub open spec fn distinct(bindings: Bindings) -> bool {
    forall|i: int, j: int|
        0 <= i < j < bindings.len() ==> (#[trigger] bindings[i]).0 != (#[trigger] bindings[j]).0
}

/// Whether every bound value meets `p`.
pub open spec fn each(bindings: Bindings, p: spec_fn(ValueView) -> bool) -> bool {
    forall|j: int| 0 <= j < bindings.len() ==> p((#[trigger] bindings[j]).1)
}

/// Where `place` finds a name, the name stands; where it finds none, the
/// name stands nowhere.
pub proof fn place_found(bindings: Bindings, name: Seq<char>, from: int)
    requires
        0 <= from,
    ensures
        match place(bindings, name, from) {
            Some(i) => from <= i < bindings.len() && bindings[i].0 == name,
            None => forall|j: int| from <= j < bindings.len() ==> (#[trigger] bindings[j]).0 != name,
        },
    decreases bindings.len() - from,
{
    if from < bindings.len() && bindings[from].0 != name {
        place_found(bindings, name, from + 1);
    }
}

/// Binding a name leaves no name bound twice.
pub proof fn bind_keeps_distinct(bindings: Bindings, name: Seq<char>, value: ValueView)
    requires
        distinct(bindings),
    ensures
        distinct(bind(bindings, name, value)),
{
    place_found(bindings, name, 0);
    let after = bind(bindings, name, value);
    assert forall|i: int, j: int| 0 <= i < j < after.len() implies (#[trigger] after[i]).0 != (
    #[trigger] after[j]).0 by {
        match place(bindings, name, 0) {
            Some(k) => {
                assert(after[i].0 == bindings[i].0);
                assert(after[j].0 == bindings[j].0);
            },
            None => {
                if j < bindings.len() {
                    assert(after[i] == bindings[i]);
                    assert(after[j] == bindings[j]);
                } else {
                    assert(after[i] == bindings[i]);
                }
            },
        }
    }
}

/// Binding a value that meets `p` among values that meet `p` leaves
/// values that meet `p`.
pub proof fn bind_keeps_each(
    bindings: Bindings,
    name: Seq<char>,
    value: ValueView,
    p: spec_fn(ValueView) -> bool,
)
    requires
        each(bindings, p),
        p(value),
    ensures
        each(bind(bindings, name, value), p),
{
    place_found(bindings, name, 0);
    let after = bind(bindings, name, value);
    assert forall|j: int| 0 <= j < after.len() implies p((#[trigger] after[j]).1) by {
        match place(bindings, name, 0) {
            Some(k) => {
                if j != k {
                    assert(after[j] == bindings[j]);
                }
            },
            None => {
                if j < bindings.len() {
                    assert(after[j] == bindings[j]);
                }
            },
        }
    }
}

/// What is looked up among values that meet `p` meets `p`.
pub proof fn lookup_keeps_each(bindings: Bindings, name: Seq<char>, p: spec_fn(ValueView) -> bool)
    requires
        each(bindings, p),
    ensures
        match lookup(bindings, name) {
            Some(v) => p(v),
            None => true,
        },
{
    place_found(bindings, name, 0);
}

/// Where `name` is bound among `bindings`, if it is.
pub fn find(bindings: &Vec<Binding>, name: &str) -> (r: Option<usize>)
    ensures
        match r {
            Some(i) => place(binding_views(bindings@), name@, 0) == Some(i as int) && i
                < bindings.len(),
            None => place(binding_views(bindings@), name@, 0).is_none(),
        },
{
    let mut i: usize = 0;
    while i < bindings.len()
        invariant
            i <= bindings.len(),
            place(binding_views(bindings@), name@, 0) == place(
                binding_views(bindings@),
                name@,
                i as int,
            ),
        decreases bindings.len() - i,
    {
        if same_text(bindings[i].name.as_str(), name) {
            return Some(i);
        }
        i += 1;
    }
    None
}

/// The value bound to `name` among `bindings`.
pub fn fetch(bindings: &Vec<Binding>, name: &str) -> (r: Option<Value>)
    ensures
        match r {
            Some(v) => lookup(binding_views(bindings@), name@) == Some(v@),
            None => lookup(binding_views(bindings@), name@).is_none(),
        },
{
    match find(bindings, name) {
        Some(i) => Some(bindings[i].value.clone()),
        None => None,
    }
}

/// Binds `name` to `value` among `bindings`.
pub fn store(bindings: &mut Vec<Binding>, name: &str, value: Value)
    ensures
        binding_views(final(bindings)@) == bind(binding_views(old(bindings)@), name@, value@),
{
    let binding = Binding { name: name.to_owned(), value };
    match find(bindings, name) {
        Some(i) => {
            bindings[i] = binding;
            assert(binding_views(bindings@) =~= bind(
                binding_views(old(bindings)@),
                name@,
                value@,
            ));
        },
        None => {
            bindings.push(binding);
            assert(binding_views(bindings@) =~= bind(
                binding_views(old(bindings)@),
                name@,
                value@,
            ));
        },
    }
}

/// One scope.
#[derive(Debug)]
pub struct Frame {
    pub values: Vec<Binding>,
    pub enclosing: Option<usize>,
}

pub struct FrameView {
    pub values: Bindings,
    pub enclosing: Option<usize>,
}

impl View for Frame {
    type V = FrameView;

    open spec fn view(&self) -> FrameView {
        FrameView { values: binding_views(self.values@), enclosing: self.enclosing }
    }
}

/// All the scopes made so far, and the one that is current.
#[derive(Debug)]
pub struct Environment {
    frames: Vec<Frame>,
    current: usize,
}

pub struct EnvironmentView {
    pub frames: Seq<FrameView>,
    pub current: usize,
}

impl View for Environment {
    type V = EnvironmentView;

    closed spec fn view(&self) -> EnvironmentView {
        EnvironmentView { frames: self.frames@.map_values(|f: Frame| f@), current: self.current }
    }
}

/// What went wrong with a variable.
#[derive(Debug, Clone, Copy, PartialEq, Eq, Structural)]
pub struct Undefined;

impl EnvironmentView {
    /// There is a current frame, every frame is enclosed by an earlier
    /// one, and no frame binds a name twice.
    pub open spec fn wf(self) -> bool {
        &&& self.current < self.frames.len()
        &&& forall|i: int|
            0 <= i < self.frames.len() ==> match (#[trigger] self.frames[i]).enclosing {
                Some(p) => p < i,
                None => true,
            }
        &&& forall|i: int| 0 <= i < self.frames.len() ==> distinct((#[trigger] self.frames[i]).values)
    }

    /// Whether every value bound in a frame meets `p`.
    pub open spec fn all(self, p: spec_fn(ValueView) -> bool) -> bool {
        forall|i: int| 0 <= i < self.frames.len() ==> each((#[trigger] self.frames[i]).values, p)
    }

    /// The frame that holds a name is one of the frames, and binds the name.
    pub proof fn holder_found(self, at: int, name: Seq<char>)
        ensures
            match self.holder(at, name) {
                Some(h) => 0 <= h < self.frames.len() && place(
                    self.frames[h].values,
                    name,
                    0,
                ).is_some(),
                None => true,
            },
        decreases at,
    {
        if 0 <= at < self.frames.len() && place(self.frames[at].values, name, 0).is_none() {
            match self.frames[at].enclosing {
                Some(p) => {
                    if p < at {
                        self.holder_found(p as int, name);
                    }
                },
                None => {},
            }
        }
    }

    /// The frame that holds a name, looking from a frame, is that frame or
    /// one made before it.
    pub proof fn holder_below(self, at: int, name: Seq<char>)
        ensures
            match self.holder(at, name) {
                Some(h) => h <= at,
                None => true,
            },
        decreases at,
    {
        if 0 <= at < self.frames.len() && place(self.frames[at].values, name, 0).is_none() {
            match self.frames[at].enclosing {
                Some(p) => {
                    if p < at {
                        self.holder_below(p as int, name);
                    }
                },
                None => {},
            }
        }
    }

    /// An ancestor of a frame is one of the frames.
    pub proof fn ancestor_found(self, at: int, distance: nat)
        ensures
            match self.ancestor(at, distance) {
                Some(a) => 0 <= a < self.frames.len(),
                None => true,
            },
        decreases distance,
    {
        if 0 <= at < self.frames.len() && distance > 0 {
            match self.frames[at].enclosing {
                Some(p) => {
                    self.ancestor_found(p as int, (distance - 1) as nat);
                },
                None => {},
            }
        }
    }

    /// What is read where all values meet `p` meets `p`.
    pub proof fn value_from_keeps(self, at: Option<int>, name: Seq<char>, p: spec_fn(ValueView) -> bool)
        requires
            self.all(p),
        ensures
            match self.value_from(at, name) {
                Some(v) => p(v),
                None => true,
            },
    {
        match at {
            Some(at) => {
                self.holder_found(at, name);
                match self.holder(at, name) {
                    Some(h) => {
                        lookup_keeps_each(self.frames[h].values, name, p);
                    },
                    None => {},
                }
            },
            None => {},
        }
    }

    /// Binding a value that meets `p` keeps the environment well formed,
    /// with values that meet `p`.
    pub proof fn bound_in_keeps(self, at: int, name: Seq<char>, value: ValueView, p: spec_fn(ValueView) -> bool)
        requires
            self.wf(),
            self.all(p),
            0 <= at < self.frames.len(),
            p(value),
        ensures
            self.bound_in(at, name, value).wf(),
            self.bound_in(at, name, value).all(p),
            self.bound_in(at, name, value).frames.len() == self.frames.len(),
            self.bound_in(at, name, value).current == self.current,
    {
        let after = self.bound_in(at, name, value);
        bind_keeps_distinct(self.frames[at].values, name, value);
        bind_keeps_each(self.frames[at].values, name, value, p);
        assert forall|i: int| 0 <= i < after.frames.len() implies distinct(
            (#[trigger] after.frames[i]).values,
        ) && each(after.frames[i].values, p) && match after.frames[i].enclosing {
            Some(q) => q < i,
            None => true,
        } by {
            if i != at {
                assert(after.frames[i] == self.frames[i]);
            }
        }
    }

    /// An assignment of a value that meets `p` keeps the environment
    /// well formed, with values that meet `p`.
    pub proof fn assigned_from_keeps(
        self,
        at: Option<int>,
        name: Seq<char>,
        value: ValueView,
        p: spec_fn(ValueView) -> bool,
    )
        requires
            self.wf(),
            self.all(p),
            p(value),
        ensures
            match self.assigned_from(at, name, value) {
                Some(after) => after.wf() && after.all(p) && after.frames.len()
                    == self.frames.len() && after.current == self.current,
                None => true,
            },
    {
        match at {
            Some(at) => {
                self.holder_found(at, name);
                match self.holder(at, name) {
                    Some(h) => {
                        self.bound_in_keeps(h, name, value, p);
                    },
                    None => {},
                }
            },
            None => {},
        }
    }

    /// A fresh frame leaves values that meet `p`.
    pub proof fn enclose_keeps(self, enclosing: usize, p: spec_fn(ValueView) -> bool)
        requires
            self.all(p),
        ensures
            self.enclose(enclosing).all(p),
            self.enclose(enclosing).frames.len() == self.frames.len() + 1,
    {
        let after = self.enclose(enclosing);
        assert forall|i: int| 0 <= i < after.frames.len() implies each(
            (#[trigger] after.frames[i]).values,
            p,
        ) by {
            if i < self.frames.len() {
                assert(after.frames[i] == self.frames[i]);
            }
        }
    }

    /// The frame `distance` scopes out from frame `at`.
    pub open spec fn ancestor(self, at: int, distance: nat) -> Option<int>
        decreases distance,
    {
        if !(0 <= at < self.frames.len()) {
            None
        } else if distance == 0 {
            Some(at)
        } else {
            match self.frames[at].enclosing {
                Some(p) => self.ancestor(p as int, (distance - 1) as nat),
                None => None,
            }
        }
    }

    /// The nearest frame from `at` outwards that binds `name`.
    pub open spec fn holder(self, at: int, name: Seq<char>) -> Option<int>
        decreases at,
    {
        if !(0 <= at < self.frames.len()) {
            None
        } else if place(self.frames[at].values, name, 0).is_some() {
            Some(at)
        } else {
            match self.frames[at].enclosing {
                Some(p) => if p < at {
                    self.holder(p as int, name)
                } else {
                    None
                },
                None => None,
            }
        }
    }

    /// The value of `name` as seen from frame `at`.
    pub open spec fn value_from(self, at: Option<int>, name: Seq<char>) -> Option<ValueView> {
        match at {
            Some(at) => match self.holder(at, name) {
                Some(h) => lookup(self.frames[h].values, name),
                None => None,
            },
            None => None,
        }
    }

    /// The environment after `name`, as seen from frame `at`, got `value`.
    pub open spec fn assigned_from(
        self,
        at: Option<int>,
        name: Seq<char>,
        value: ValueView,
    ) -> Option<EnvironmentView> {
        match at {
            Some(at) => match self.holder(at, name) {
                Some(h) => Some(self.bound_in(h, name, value)),
                None => None,
            },
            None => None,
        }
    }

    /// The environment with `name` bound to `value` in frame `at`.
    pub open spec fn bound_in(self, at: int, name: Seq<char>, value: ValueView) -> EnvironmentView {
        EnvironmentView {
            frames: self.frames.update(
                at,
                FrameView { values: bind(self.frames[at].values, name, value), ..self.frames[at] },
            ),
            ..self
        }
    }

    /// The value of `name` in the current scope or one that encloses it.
    pub open spec fn get(self, name: Seq<char>) -> Option<ValueView> {
        self.value_from(Some(self.current as int), name)
    }

    /// The value of `name` as seen `distance` scopes out.
    pub open spec fn get_at(self, distance: nat, name: Seq<char>) -> Option<ValueView> {
        self.value_from(self.ancestor(self.current as int, distance), name)
    }

    /// The value of the global `name`.
    pub open spec fn get_global(self, name: Seq<char>) -> Option<ValueView> {
        self.value_from(Some(0), name)
    }

    /// The value of a variable whose scope the resolver found `depth` scopes
    /// out, or which it left to the globals.
    pub open spec fn read(self, depth: Option<usize>, name: Seq<char>) -> Option<ValueView> {
        match depth {
            Some(d) => self.get_at(d as nat, name),
            None => self.get_global(name),
        }
    }

    pub open spec fn define(self, name: Seq<char>, value: ValueView) -> EnvironmentView {
        self.bound_in(self.current as int, name, value)
    }

    pub open spec fn assign(self, name: Seq<char>, value: ValueView) -> Option<EnvironmentView> {
        self.assigned_from(Some(self.current as int), name, value)
    }

    pub open spec fn assign_at(self, distance: nat, name: Seq<char>, value: ValueView) -> Option<
        EnvironmentView,
    > {
        self.assigned_from(self.ancestor(self.current as int, distance), name, value)
    }

    pub open spec fn assign_global(self, name: Seq<char>, value: ValueView) -> Option<
        EnvironmentView,
    > {
        self.assigned_from(Some(0), name, value)
    }

    /// The environment after an assignment routed as `read` routes a use.
    pub open spec fn write(self, depth: Option<usize>, name: Seq<char>, value: ValueView) -> Option<
        EnvironmentView,
    > {
        match depth {
            Some(d) => self.assign_at(d as nat, name, value),
            None => self.assign_global(name, value),
        }
    }

    /// The environment with a fresh current frame enclosed by `enclosing`.
    pub open spec fn enclose(self, enclosing: usize) -> EnvironmentView {
        EnvironmentView {
            frames: self.frames.push(
                FrameView { values: Seq::empty(), enclosing: Some(enclosing) },
            ),
            current: self.frames.len() as usize,
        }
    }

    /// The environment with `previous` as its current frame.
    pub open spec fn declose(self, previous: usize) -> EnvironmentView {
        EnvironmentView { current: previous, ..self }
    }

    /// The environment with the globals alone.
    pub open spec fn fresh() -> EnvironmentView {
        EnvironmentView {
            frames: seq![FrameView { values: Seq::empty(), enclosing: None }],
            current: 0,
        }
    }
}

impl Environment {
    /// The invariant of the exec representation.
    pub open spec fn wf(&self) -> bool {
        self@.wf()
    }

    pub fn new() -> (r: Self)
        ensures
            r.wf(),
            r@ == EnvironmentView::fresh(),
    {
        let mut frames: Vec<Frame> = Vec::new();
        frames.push(Frame { values: Vec::new(), enclosing: None });
        let r = Environment { frames, current: 0 };
        assert(r.frames@[0]@.values =~= Seq::empty());
        assert(r@.frames =~= EnvironmentView::fresh().frames);
        r
    }

    /// The current frame.
    pub fn current(&self) -> (r: usize)
        ensures
            r == self@.current,
    {
        self.current
    }

    /// How many frames there are.
    pub fn frame_count(&self) -> (r: usize)
        ensures
            r == self@.frames.len(),
    {
        self.frames.len()
    }

    /// Enters a fresh scope enclosed by frame `enclosing`; returns the frame
    /// that was current.
    pub fn enclose(&mut self, enclosing: usize) -> (previous: usize)
        requires
            old(self).wf(),
            enclosing < old(self)@.frames.len(),
        ensures
            final(self).wf(),
            final(self)@ == old(self)@.enclose(enclosing),
            final(self)@.frames.len() == old(self)@.frames.len() + 1,
            previous == old(self)@.current,
    {
        let previous = self.current;
        self.current = self.frames.len();
        self.frames.push(Frame { values: Vec::new(), enclosing: Some(enclosing) });
        assert(self.frames@.last()@.values =~= Seq::empty());
        assert(self@.frames =~= old(self)@.enclose(enclosing).frames);
        previous
    }

    /// Leaves the current scope for frame `previous`.
    pub fn declose(&mut self, previous: usize)
        requires
            old(self).wf(),
            previous < old(self)@.frames.len(),
        ensures
            final(self).wf(),
            final(self)@ == old(self)@.declose(previous),
            final(self)@.frames.len() == old(self)@.frames.len(),
    {
        self.current = previous;
    }

    fn ancestor(&self, distance: usize) -> (r: Option<usize>)
        requires
            self.wf(),
        ensures
            match r {
                Some(at) => self@.ancestor(self@.current as int, distance as nat) == Some(
                    at as int,
                ) && at < self.frames.len(),
                None => self@.ancestor(self@.current as int, distance as nat).is_none(),
            },
    {
        let mut at = self.current;
        let mut left = distance;
        while left > 0
            invariant
                self.wf(),
                at < self.frames.len(),
                self@.ancestor(at as int, left as nat) == self@.ancestor(
                    self@.current as int,
                    distance as nat,
                ),
            decreases left,
        {
            match self.frames[at].enclosing {
                Some(p) => {
                    at = p;
                    left -= 1;
                },
                None => {
                    return None;
                },
            }
        }
        Some(at)
    }

    fn holder(&self, from: usize, name: &str) -> (r: Option<usize>)
        requires
            self.wf(),
            from < self.frames.len(),
        ensures
            match r {
                Some(h) => self@.holder(from as int, name@) == Some(h as int) && h
                    < self.frames.len() && place(self@.frames[h as int].values, name@, 0).is_some(),
                None => self@.holder(from as int, name@).is_none(),
            },
    {
        let mut at = from;
        loop
            invariant
                self.wf(),
                at < self.frames.len(),
                self@.holder(at as int, name@) == self@.holder(from as int, name@),
            decreases at,
        {
            if find(&self.frames[at].values, name).is_some() {
                return Some(at);
            }
            match self.frames[at].enclosing {
                Some(p) => {
                    at = p;
                },
                None => {
                    return None;
                },
            }
        }
    }

    fn value_from(&self, at: Option<usize>, name: &str) -> (r: Result<Value, Undefined>)
        requires
            self.wf(),
            at.is_some() ==> at.unwrap() < self.frames.len(),
        ensures
            match r {
                Ok(v) => self@.value_from(
                    match at {
                        Some(a) => Some(a as int),
                        None => None,
                    },
                    name@,
                ) == Some(v@),
                Err(_) => self@.value_from(
                    match at {
                        Some(a) => Some(a as int),
                        None => None,
                    },
                    name@,
                ).is_none(),
            },
    {
        match at {
            Some(at) => match self.holder(at, name) {
                Some(h) => match fetch(&self.frames[h].values, name) {
                    Some(v) => Ok(v),
                    None => Err(Undefined),
                },
                None => Err(Undefined),
            },
            None => Err(Undefined),
        }
    }

    fn assign_from(&mut self, at: Option<usize>, name: &str, value: Value) -> (r: Result<
        (),
        Undefined,
    >)
        requires
            old(self).wf(),
            at.is_some() ==> at.unwrap() < old(self).frames.len(),
        ensures
            final(self).wf(),
            final(self)@.frames.len() == old(self)@.frames.len(),
            final(self)@.current == old(self)@.current,
            match old(self)@.assigned_from(
                match at {
                    Some(a) => Some(a as int),
                    None => None,
                },
                name@,
                value@,
            ) {
                Some(after) => r.is_ok() && final(self)@ == after,
                None => r.is_err() && final(self)@ == old(self)@,
            },
    {
        match at {
            Some(at) => match self.holder(at, name) {
                Some(h) => {
                    self.bind_in(h, name, value);
                    Ok(())
                },
                None => Err(Undefined),
            },
            None => Err(Undefined),
        }
    }

    fn bind_in(&mut self, at: usize, name: &str, value: Value)
        requires
            old(self).wf(),
            at < old(self).frames.len(),
        ensures
            final(self).wf(),
            final(self)@ == old(self)@.bound_in(at as int, name@, value@),
            final(self)@.frames.len() == old(self)@.frames.len(),
    {
        let ghost before = self@;
        let mut values: Vec<Binding> = Vec::new();
        std::mem::swap(&mut values, &mut self.frames[at].values);
        store(&mut values, name, value);
        std::mem::swap(&mut values, &mut self.frames[at].values);
        assert(self@.frames =~= before.bound_in(at as int, name@, value@).frames);
        proof {
            before.bound_in_keeps(at as int, name@, value@, |v: ValueView| true);
        }
    }

    /// Binds `name` in the current scope.
    pub fn define(&mut self, name: &str, value: Value)
        requires
            old(self).wf(),
        ensures
            final(self).wf(),
            final(self)@ == old(self)@.define(name@, value@),
            final(self)@.frames.len() == old(self)@.frames.len(),
            final(self)@.current == old(self)@.current,
    {
        self.bind_in(self.current, name, value)
    }

    /// Gives the nearest binding of `name` a new value.
    pub fn assign(&mut self, name: &str, value: Value) -> (r: Result<(), Undefined>)
        requires
            old(self).wf(),
        ensures
            final(self).wf(),
            final(self)@.frames.len() == old(self)@.frames.len(),
            final(self)@.current == old(self)@.current,
            match old(self)@.assign(name@, value@) {
                Some(after) => r.is_ok() && final(self)@ == after,
                None => r.is_err() && final(self)@ == old(self)@,
            },
    {
        self.assign_from(Some(self.current), name, value)
    }

    /// Gives `name` a new value, looking from `distance` scopes out.
    pub fn assign_at(&mut self, distance: usize, name: &str, value: Value) -> (r: Result<
        (),
        Undefined,
    >)
        requires
            old(self).wf(),
        ensures
            final(self).wf(),
            final(self)@.frames.len() == old(self)@.frames.len(),
            final(self)@.current == old(self)@.current,
            match old(self)@.assign_at(distance as nat, name@, value@) {
                Some(after) => r.is_ok() && final(self)@ == after,
                None => r.is_err() && final(self)@ == old(self)@,
            },
    {
        let at = self.ancestor(distance);
        self.assign_from(at, name, value)
    }

    /// Gives the global `name` a new value.
    pub fn assign_global(&mut self, name: &str, value: Value) -> (r: Result<(), Undefined>)
        requires
            old(self).wf(),
        ensures
            final(self).wf(),
            final(self)@.frames.len() == old(self)@.frames.len(),
            final(self)@.current == old(self)@.current,
            match old(self)@.assign_global(name@, value@) {
                Some(after) => r.is_ok() && final(self)@ == after,
                None => r.is_err() && final(self)@ == old(self)@,
            },
    {
        self.assign_from(Some(0), name, value)
    }

    /// The value of the nearest binding of `name`.
    pub fn get(&self, name: &str) -> (r: Result<Value, Undefined>)
        requires
            self.wf(),
        ensures
            match r {
                Ok(v) => self@.get(name@) == Some(v@),
                Err(_) => self@.get(name@).is_none(),
            },
    {
        self.value_from(Some(self.current), name)
    }

    /// The value of `name`, looking from `distance` scopes out.
    pub fn get_at(&self, distance: usize, name: &str) -> (r: Result<Value, Undefined>)
        requires
            self.wf(),
        ensures
            match r {
                Ok(v) => self@.get_at(distance as nat, name@) == Some(v@),
                Err(_) => self@.get_at(distance as nat, name@).is_none(),
            },
    {
        let at = self.ancestor(distance);
        self.value_from(at, name)
    }

    /// The value of `name` as seen from frame `frame`.
    pub fn get_from(&self, frame: usize, name: &str) -> (r: Result<Value, Undefined>)
        requires
            self.wf(),
            frame < self@.frames.len(),
        ensures
            match r {
                Ok(v) => self@.value_from(Some(frame as int), name@) == Some(v@),
                Err(_) => self@.value_from(Some(frame as int), name@).is_none(),
            },
    {
        self.value_from(Some(frame), name)
    }

    /// The value of the global `name`.
    pub fn get_global(&self, name: &str) -> (r: Result<Value, Undefined>)
        requires
            self.wf(),
        ensures
            match r {
                Ok(v) => self@.get_global(name@) == Some(v@),
                Err(_) => self@.get_global(name@).is_none(),
            },
    {
        self.value_from(Some(0), name)
    }
}

impl Default for Environment {
    fn default() -> (r: Self)
        ensures
            r.wf(),
            r@ == EnvironmentView::fresh(),
    {
        Environment::new()
    }
}

} // verus!
