//! The resolver: for every use of a local variable, the number of scopes
//! between the use and the declaration that it refers to.
//!
//! The resolver walks the syntax tree with a stack of scopes, the
//! innermost first, and hands back the tree with the distances filled in.
//! The globals have no scope: a name that no scope declares is left to
//! them.

use crate::expr::Expr;
use crate::list::List;
use crate::stmt::{Declaration, Stmt};
use crate::error::{locate, located};
use crate::token::{same_text, Token};
use std::rc::Rc;
use vstd::prelude::*;

verus! {

/// Why a program was refused before it ran, with the token concerned.
#[derive(Debug)]
pub enum ResolveError {
    /// A second declaration of a name in one scope.
    AlreadyDeclared(Token),
    /// A local variable read in its own initializer.
    OwnInitializer(Token),
    /// `return` outside a function.
    TopLevelReturn(Token),
    /// `return` with a value in an initializer.
    InitializerReturn(Token),
    /// `this` outside a class.
    ThisOutsideClass(Token),
    /// `super` outside a class.
    SuperOutsideClass(Token),
    /// `super` in a class that inherits from none.
    SuperWithoutSuperclass(Token),
    /// A class that inherits from itself.
    InheritsFromItself(Token),
}

impl ResolveError {
    /// The token that the error is about.
    pub open spec fn place(self) -> Token {
        match self {
            ResolveError::AlreadyDeclared(t) => t,
            ResolveError::OwnInitializer(t) => t,
            ResolveError::TopLevelReturn(t) => t,
            ResolveError::InitializerReturn(t) => t,
            ResolveError::ThisOutsideClass(t) => t,
            ResolveError::SuperOutsideClass(t) => t,
            ResolveError::SuperWithoutSuperclass(t) => t,
            ResolveError::InheritsFromItself(t) => t,
        }
    }

    /// What is wrong there.
    pub open spec fn reason(self) -> Seq<char> {
        match self {
            ResolveError::AlreadyDeclared(_) =>
                "Already a variable with this name in this scope."@,
            ResolveError::OwnInitializer(_) =>
                "Can't read local variable in its own initializer."@,
            ResolveError::TopLevelReturn(_) => "Can't return from top-level code."@,
            ResolveError::InitializerReturn(_) => "Can't return a value from an initializer."@,
            ResolveError::ThisOutsideClass(_) => "Can't use `this` outside of a class."@,
            ResolveError::SuperOutsideClass(_) => "Can't use `super` outside of a class."@,
            ResolveError::SuperWithoutSuperclass(_) =>
                "Can't use `super` in a class with no superclass."@,
            ResolveError::InheritsFromItself(_) => "A class can't inherit from itself."@,
        }
    }

    /// The text shown to the user: `[line N] Error at '<lexeme>': <reason>`.
    pub fn message(&self) -> (r: String)
        ensures
            r@ == located(self.place(), self.reason()),
    {
        match self {
            ResolveError::AlreadyDeclared(t) => locate(
                t,
                "Already a variable with this name in this scope.",
            ),
            ResolveError::OwnInitializer(t) => locate(
                t,
                "Can't read local variable in its own initializer.",
            ),
            ResolveError::TopLevelReturn(t) => locate(t, "Can't return from top-level code."),
            ResolveError::InitializerReturn(t) => locate(
                t,
                "Can't return a value from an initializer.",
            ),
            ResolveError::ThisOutsideClass(t) => locate(t, "Can't use `this` outside of a class."),
            ResolveError::SuperOutsideClass(t) => locate(
                t,
                "Can't use `super` outside of a class.",
            ),
            ResolveError::SuperWithoutSuperclass(t) => locate(
                t,
                "Can't use `super` in a class with no superclass.",
            ),
            ResolveError::InheritsFromItself(t) => locate(t, "A class can't inherit from itself."),
        }
    }
}

/// What a scope binds: a name of the program, or what a class brings.
#[derive(Debug)]
pub enum Name {
    This,
    Super,
    Named(String),
}

impl Name {
    pub open spec fn same(self, other: Name) -> bool {
        match (self, other) {
            (Name::This, Name::This) => true,
            (Name::Super, Name::Super) => true,
            (Name::Named(a), Name::Named(b)) => a@ == b@,
            _ => false,
        }
    }

    pub fn is(&self, other: &Name) -> (r: bool)
        ensures
            r == self.same(*other),
    {
        match (self, other) {
            (Name::This, Name::This) => true,
            (Name::Super, Name::Super) => true,
            (Name::Named(a), Name::Named(b)) => same_text(a.as_str(), b.as_str()),
            _ => false,
        }
    }
}

/// A name of a scope, and whether its initializer has been passed.
#[derive(Debug)]
pub struct Entry {
    pub name: Name,
    pub defined: bool,
}

/// The kind of function that is being resolved.
#[derive(Debug, Clone, Copy, PartialEq, Eq, Structural)]
pub enum FunctionType {
    Outside,
    Function,
    Initializer,
    Method,
}

/// The kind of class that is being resolved.
#[derive(Debug, Clone, Copy, PartialEq, Eq, Structural)]
pub enum ClassType {
    Outside,
    Class,
    Subclass,
}

/// The scopes around the place that is being resolved, the innermost
/// first; in a scope the latest entry of a name counts.
#[derive(Debug)]
pub struct Resolver {
    pub scopes: List<List<Entry>>,
    pub current_function: FunctionType,
    pub current_class: ClassType,
}

/// Whether `key` has been met in a scope, and if so whether it is defined.
pub open spec fn status(scope: List<Entry>, key: Name) -> Option<bool>
    decreases scope,
{
    match scope {
        List::Nil => None,
        List::Cons(first, rest) => if first.name.same(key) {
            Some(first.defined)
        } else {
            status(*rest, key)
        },
    }
}

/// The number of scopes to leave to come to the innermost one that
/// declares `key`; `None` if there is none.
pub open spec fn innermost(scopes: List<List<Entry>>, key: Name) -> Option<usize>
    decreases scopes,
{
    match scopes {
        List::Nil => None,
        List::Cons(first, rest) => if status(first, key).is_some() {
            Some(0)
        } else {
            match innermost(*rest, key) {
                Some(d) => if d < usize::MAX {
                    Some((d + 1) as usize)
                } else {
                    None
                },
                None => None,
            }
        },
    }
}

/// The innermost scope that declares a name is the one that the distance
/// leads to: it declares the name, and no scope inside it does.
pub proof fn distance_is_nearest(scopes: List<List<Entry>>, key: Name, d: usize)
    requires
        innermost(scopes, key) == Some(d),
    ensures
        d < scopes.items().len(),
        status(scopes.items()[d as int], key).is_some(),
        forall|j: int| 0 <= j < d ==> status(#[trigger] scopes.items()[j], key).is_none(),
    decreases scopes,
{
    match scopes {
        List::Nil => {},
        List::Cons(first, rest) => {
            if status(first, key).is_some() {
            } else {
                let inner = (d - 1) as usize;
                distance_is_nearest(*rest, key, inner);
                assert forall|j: int| 0 <= j < d implies status(
                    #[trigger] scopes.items()[j],
                    key,
                ).is_none() by {
                    if j > 0 {
                        assert(scopes.items()[j] == rest.items()[j - 1]);
                    }
                }
                assert(scopes.items()[d as int] == rest.items()[d - 1]);
            }
        },
    }
}

/// A name that no scope declares is left to the globals.
pub proof fn undeclared_is_global(scopes: List<List<Entry>>, key: Name)
    requires
        innermost(scopes, key).is_none(),
        scopes.items().len() <= usize::MAX,
    ensures
        forall|j: int| 0 <= j < scopes.items().len() ==> status(
            #[trigger] scopes.items()[j],
            key,
        ).is_none(),
    decreases scopes,
{
    match scopes {
        List::Nil => {},
        List::Cons(first, rest) => {
            match innermost(*rest, key) {
                Some(d) => {
                    distance_is_nearest(*rest, key, d);
                },
                None => {
                    undeclared_is_global(*rest, key);
                },
            }
            assert forall|j: int| 0 <= j < scopes.items().len() implies status(
                #[trigger] scopes.items()[j],
                key,
            ).is_none() by {
                if j > 0 {
                    assert(scopes.items()[j] == rest.items()[j - 1]);
                }
            }
        },
    }
}

impl Resolver {
    /// The resolver at the top of a program: no scope, no function, no class.
    pub open spec fn initial() -> Resolver {
        Resolver {
            scopes: List::Nil,
            current_function: FunctionType::Outside,
            current_class: ClassType::Outside,
        }
    }

    pub open spec fn begun(self) -> Resolver {
        Resolver { scopes: List::Cons(List::Nil, Box::new(self.scopes)), ..self }
    }

    pub open spec fn ended(self) -> Resolver {
        Resolver {
            scopes: match self.scopes {
                List::Nil => List::Nil,
                List::Cons(_, rest) => *rest,
            },
            ..self
        }
    }

    /// The resolver with `entry` added to the innermost scope.
    pub open spec fn with_entry(self, entry: Entry) -> Resolver {
        Resolver {
            scopes: match self.scopes {
                List::Nil => List::Nil,
                List::Cons(first, rest) => List::Cons(List::Cons(entry, Box::new(first)), rest),
            },
            ..self
        }
    }

    /// Whether the innermost scope has met `key`.
    pub open spec fn local(self, key: Name) -> Option<bool> {
        match self.scopes {
            List::Nil => None,
            List::Cons(first, _) => status(first, key),
        }
    }

    /// A name declared: an error if the innermost scope declares it already.
    pub open spec fn declared(self, name: Token) -> Result<Resolver, ResolveError> {
        if self.local(Name::Named(name.lexeme)).is_some() {
            Err(ResolveError::AlreadyDeclared(name))
        } else {
            Ok(self.with_entry(Entry { name: Name::Named(name.lexeme), defined: false }))
        }
    }

    pub open spec fn defined(self, name: Token) -> Resolver {
        self.with_entry(Entry { name: Name::Named(name.lexeme), defined: true })
    }

    pub open spec fn distance(self, key: Name) -> Option<usize> {
        innermost(self.scopes, key)
    }

    /// The resolver inside a class: in a scope that holds `this`, and
    /// around it, for a class that inherits, a scope that holds `super`.
    pub open spec fn in_class(self, inherits: bool) -> Resolver {
        if inherits {
            Resolver { current_class: ClassType::Subclass, ..self }.begun().with_entry(
                Entry { name: Name::Super, defined: true },
            ).begun().with_entry(Entry { name: Name::This, defined: true })
        } else {
            Resolver { current_class: ClassType::Class, ..self }.begun().with_entry(
                Entry { name: Name::This, defined: true },
            )
        }
    }

    /// Whether `other` stands where `self` stands: in the same function
    /// and class, with the same scopes around the innermost one.
    pub open spec fn beside(self, other: Resolver) -> bool {
        &&& self.ended() == other.ended()
        &&& (self.scopes is Nil) == (other.scopes is Nil)
        &&& self.current_function == other.current_function
        &&& self.current_class == other.current_class
    }
}

/// Whether the expression is the variable called as the token is.
pub open spec fn names(e: Expr, name: Token) -> bool {
    match e {
        Expr::Variable { name: n, depth } => n.lexeme@ == name.lexeme@,
        _ => false,
    }
}

/// Statements resolved so far, last first, in front of what the rest
/// resolves to.
pub open spec fn joined_stmts(
    read: List<Stmt>,
    rest: Result<(List<Stmt>, Resolver), ResolveError>,
) -> Result<(List<Stmt>, Resolver), ResolveError> {
    match rest {
        Ok((more, r)) => Ok((read.turned(more), r)),
        Err(error) => Err(error),
    }
}

/// Items resolved so far, last first, in front of what the rest resolves to.
pub open spec fn joined_items<T>(read: List<T>, rest: Result<List<T>, ResolveError>) -> Result<
    List<T>,
    ResolveError,
> {
    match rest {
        Ok(more) => Ok(read.turned(more)),
        Err(error) => Err(error),
    }
}

/// The expression with the distances of its variables.
pub open spec fn resolved_expr(e: Expr, r: Resolver) -> Result<Expr, ResolveError>
    decreases e,
{
    match e {
        Expr::Literal { value } => Ok(e),
        Expr::Variable { name, depth } => if r.local(Name::Named(name.lexeme)) == Some(false) {
            Err(ResolveError::OwnInitializer(name))
        } else {
            Ok(Expr::Variable { name, depth: r.distance(Name::Named(name.lexeme)) })
        },
        Expr::This { keyword, depth } => if r.current_class == ClassType::Outside {
            Err(ResolveError::ThisOutsideClass(keyword))
        } else {
            Ok(Expr::This { keyword, depth: r.distance(Name::This) })
        },
        Expr::Super { keyword, method, depth } => if r.current_class == ClassType::Outside {
            Err(ResolveError::SuperOutsideClass(keyword))
        } else if r.current_class != ClassType::Subclass {
            Err(ResolveError::SuperWithoutSuperclass(keyword))
        } else {
            Ok(Expr::Super { keyword, method, depth: r.distance(Name::Super) })
        },
        Expr::Assign { name, value, depth } => match resolved_expr(*value, r) {
            Ok(v) => Ok(
                Expr::Assign {
                    name,
                    value: Box::new(v),
                    depth: r.distance(Name::Named(name.lexeme)),
                },
            ),
            Err(error) => Err(error),
        },
        Expr::Grouping { expression } => match resolved_expr(*expression, r) {
            Ok(inner) => Ok(Expr::Grouping { expression: Box::new(inner) }),
            Err(error) => Err(error),
        },
        Expr::Unary { operator, right } => match resolved_expr(*right, r) {
            Ok(inner) => Ok(Expr::Unary { operator, right: Box::new(inner) }),
            Err(error) => Err(error),
        },
        Expr::Binary { left, operator, right } => match resolved_expr(*left, r) {
            Ok(l) => match resolved_expr(*right, r) {
                Ok(rr) => Ok(Expr::Binary { left: Box::new(l), operator, right: Box::new(rr) }),
                Err(error) => Err(error),
            },
            Err(error) => Err(error),
        },
        Expr::Logical { left, operator, right } => match resolved_expr(*left, r) {
            Ok(l) => match resolved_expr(*right, r) {
                Ok(rr) => Ok(Expr::Logical { left: Box::new(l), operator, right: Box::new(rr) }),
                Err(error) => Err(error),
            },
            Err(error) => Err(error),
        },
        Expr::Call { callee, paren, arguments } => match resolved_expr(*callee, r) {
            Ok(c) => match resolved_exprs(*arguments, r) {
                Ok(args) => Ok(
                    Expr::Call { callee: Box::new(c), paren, arguments: Box::new(args) },
                ),
                Err(error) => Err(error),
            },
            Err(error) => Err(error),
        },
        Expr::Get { object, name } => match resolved_expr(*object, r) {
            Ok(o) => Ok(Expr::Get { object: Box::new(o), name }),
            Err(error) => Err(error),
        },
        Expr::SetField { object, name, value } => match resolved_expr(*value, r) {
            Ok(v) => match resolved_expr(*object, r) {
                Ok(o) => Ok(Expr::SetField { object: Box::new(o), name, value: Box::new(v) }),
                Err(error) => Err(error),
            },
            Err(error) => Err(error),
        },
    }
}

pub open spec fn resolved_exprs(es: List<Expr>, r: Resolver) -> Result<List<Expr>, ResolveError>
    decreases es,
{
    match es {
        List::Nil => Ok(List::Nil),
        List::Cons(first, rest) => match resolved_expr(first, r) {
            Ok(e) => match resolved_exprs(*rest, r) {
                Ok(more) => Ok(List::Cons(e, Box::new(more))),
                Err(error) => Err(error),
            },
            Err(error) => Err(error),
        },
    }
}

/// The resolver with the parameters of a function declared and defined.
pub open spec fn with_parameters(params: List<Token>, r: Resolver) -> Result<Resolver, ResolveError>
    decreases params,
{
    match params {
        List::Nil => Ok(r),
        List::Cons(first, rest) => match r.declared(first) {
            Ok(r1) => with_parameters(*rest, r1.defined(first)),
            Err(error) => Err(error),
        },
    }
}

/// A function resolved in a scope of its own, which holds its parameters
/// and what its body declares.
pub open spec fn resolved_function(d: Declaration, r: Resolver, ty: FunctionType) -> Result<
    Declaration,
    ResolveError,
>
    decreases d, 1nat,
{
    match with_parameters(d.params, Resolver { current_function: ty, ..r }.begun()) {
        Ok(inner) => match resolved_stmts(d.body, inner) {
            Ok((body, _)) => Ok(Declaration { name: d.name, params: d.params, body }),
            Err(error) => Err(error),
        },
        Err(error) => Err(error),
    }
}

pub open spec fn resolved_methods(ms: List<Rc<Declaration>>, r: Resolver) -> Result<
    List<Rc<Declaration>>,
    ResolveError,
>
    decreases ms, 1nat,
{
    match ms {
        List::Nil => Ok(List::Nil),
        List::Cons(first, rest) => match resolved_function(
            *first,
            r,
            if first.name.lexeme@ == "init"@ {
                FunctionType::Initializer
            } else {
                FunctionType::Method
            },
        ) {
            Ok(m) => match resolved_methods(*rest, r) {
                Ok(more) => Ok(List::Cons(Rc::new(m), Box::new(more))),
                Err(error) => Err(error),
            },
            Err(error) => Err(error),
        },
    }
}

/// The statement with the distances of its variables, and the resolver
/// after what the statement declares.
pub open spec fn resolved_stmt(s: Stmt, r: Resolver) -> Result<(Stmt, Resolver), ResolveError>
    decreases s, 1nat,
{
    match s {
        Stmt::Expression(e) => match resolved_expr(e, r) {
            Ok(e1) => Ok((Stmt::Expression(e1), r)),
            Err(error) => Err(error),
        },
        Stmt::Print(e) => match resolved_expr(e, r) {
            Ok(e1) => Ok((Stmt::Print(e1), r)),
            Err(error) => Err(error),
        },
        Stmt::Var { name, initializer } => match r.declared(name) {
            Ok(r1) => match initializer {
                Some(e) => match resolved_expr(e, r1) {
                    Ok(e1) => Ok((Stmt::Var { name, initializer: Some(e1) }, r1.defined(name))),
                    Err(error) => Err(error),
                },
                None => Ok((Stmt::Var { name, initializer: None }, r1.defined(name))),
            },
            Err(error) => Err(error),
        },
        Stmt::Block(stmts) => match resolved_stmts(*stmts, r.begun()) {
            Ok((inner, r1)) => Ok((Stmt::Block(Rc::new(inner)), r1.ended())),
            Err(error) => Err(error),
        },
        Stmt::If { condition, then_branch, else_branch } => match resolved_expr(condition, r) {
            Ok(c) => match resolved_stmt(*then_branch, r) {
                Ok((t, r1)) => match else_branch {
                    Some(other) => match resolved_stmt(*other, r1) {
                        Ok((o, r2)) => Ok(
                            (
                                Stmt::If {
                                    condition: c,
                                    then_branch: Box::new(t),
                                    else_branch: Some(Box::new(o)),
                                },
                                r2,
                            ),
                        ),
                        Err(error) => Err(error),
                    },
                    None => Ok(
                        (
                            Stmt::If { condition: c, then_branch: Box::new(t), else_branch: None },
                            r1,
                        ),
                    ),
                },
                Err(error) => Err(error),
            },
            Err(error) => Err(error),
        },
        Stmt::While { condition, body } => match resolved_expr(condition, r) {
            Ok(c) => match resolved_stmt(*body, r) {
                Ok((b, r1)) => Ok((Stmt::While { condition: c, body: Box::new(b) }, r1)),
                Err(error) => Err(error),
            },
            Err(error) => Err(error),
        },
        Stmt::Return { keyword, value } => if r.current_function == FunctionType::Outside {
            Err(ResolveError::TopLevelReturn(keyword))
        } else {
            match value {
                Some(e) => if r.current_function == FunctionType::Initializer {
                    Err(ResolveError::InitializerReturn(keyword))
                } else {
                    match resolved_expr(e, r) {
                        Ok(e1) => Ok((Stmt::Return { keyword, value: Some(e1) }, r)),
                        Err(error) => Err(error),
                    }
                },
                None => Ok((Stmt::Return { keyword, value: None }, r)),
            }
        },
        Stmt::Function(declaration) => match r.declared(declaration.name) {
            Ok(r1) => {
                let r2 = r1.defined(declaration.name);
                match resolved_function(*declaration, r2, FunctionType::Function) {
                    Ok(d) => Ok((Stmt::Function(Rc::new(d)), r2)),
                    Err(error) => Err(error),
                }
            },
            Err(error) => Err(error),
        },
        Stmt::Class { name, superclass, methods } => resolved_class(name, superclass, methods, r),
    }
}

/// A class declaration resolved: its name declared, its methods resolved
/// inside the scopes that a class brings.
pub open spec fn resolved_class(
    name: Token,
    superclass: Option<Expr>,
    methods: Rc<List<Rc<Declaration>>>,
    r: Resolver,
) -> Result<(Stmt, Resolver), ResolveError>
    decreases methods, 2nat,
{
    match r.declared(name) {
        Ok(r1) => {
            let r2 = r1.defined(name);
            match superclass {
                Some(parent) => if names(parent, name) {
                    Err(ResolveError::InheritsFromItself(name))
                } else {
                    match resolved_expr(parent, r2) {
                        Ok(p) => match resolved_methods(*methods, r2.in_class(true)) {
                            Ok(ms) => Ok(
                                (
                                    Stmt::Class { name, superclass: Some(p), methods: Rc::new(ms) },
                                    r2,
                                ),
                            ),
                            Err(error) => Err(error),
                        },
                        Err(error) => Err(error),
                    }
                },
                None => match resolved_methods(*methods, r2.in_class(false)) {
                    Ok(ms) => Ok((Stmt::Class { name, superclass: None, methods: Rc::new(ms) }, r2)),
                    Err(error) => Err(error),
                },
            }
        },
        Err(error) => Err(error),
    }
}

pub open spec fn resolved_stmts(stmts: List<Stmt>, r: Resolver) -> Result<
    (List<Stmt>, Resolver),
    ResolveError,
>
    decreases stmts, 1nat,
{
    match stmts {
        List::Nil => Ok((List::Nil, r)),
        List::Cons(first, rest) => match resolved_stmt(first, r) {
            Ok((s, r1)) => match resolved_stmts(*rest, r1) {
                Ok((more, r2)) => Ok((List::Cons(s, Box::new(more)), r2)),
                Err(error) => Err(error),
            },
            Err(error) => Err(error),
        },
    }
}

/// A whole program resolved.
pub open spec fn resolved(stmts: List<Stmt>) -> Result<List<Stmt>, ResolveError> {
    match resolved_stmts(stmts, Resolver::initial()) {
        Ok((program, _)) => Ok(program),
        Err(error) => Err(error),
    }
}


fn scope_status(scope: &List<Entry>, key: &Name) -> (r: Option<bool>)
    ensures
        r == status(*scope, *key),
{
    let mut at = scope;
    loop
        invariant
            status(*at, *key) == status(*scope, *key),
        decreases at,
    {
        match at {
            List::Nil => {
                return None;
            },
            List::Cons(first, rest) => {
                if first.name.is(key) {
                    return Some(first.defined);
                }
                at = rest;
            },
        }
    }
}

impl Resolver {
    pub fn new() -> (r: Self)
        ensures
            r == Resolver::initial(),
    {
        Resolver {
            scopes: List::Nil,
            current_function: FunctionType::Outside,
            current_class: ClassType::Outside,
        }
    }

    /// Resolves a whole program, from the top: the distances are
    /// reckoned anew, whatever the tree held before.
    pub fn resolve(&mut self, stmts: &List<Stmt>) -> (r: Result<List<Stmt>, ResolveError>)
        ensures
            r == resolved(*stmts),
            *final(self) == Resolver::initial(),
    {
        *self = Resolver::new();
        match resolve_stmts(stmts, Resolver::new()) {
            Ok((program, _)) => Ok(program),
            Err(error) => Err(error),
        }
    }

    fn begin_scope(self) -> (r: Self)
        ensures
            r == self.begun(),
    {
        Resolver {
            scopes: List::Cons(List::Nil, Box::new(self.scopes)),
            current_function: self.current_function,
            current_class: self.current_class,
        }
    }

    fn end_scope(self) -> (r: Self)
        ensures
            r == self.ended(),
    {
        Resolver {
            scopes: match self.scopes {
                List::Nil => List::Nil,
                List::Cons(_, rest) => *rest,
            },
            current_function: self.current_function,
            current_class: self.current_class,
        }
    }

    fn add(self, entry: Entry) -> (r: Self)
        ensures
            r == self.with_entry(entry),
            r.beside(self),
    {
        Resolver {
            scopes: match self.scopes {
                List::Nil => List::Nil,
                List::Cons(first, rest) => List::Cons(List::Cons(entry, Box::new(first)), rest),
            },
            current_function: self.current_function,
            current_class: self.current_class,
        }
    }

    fn find_local(&self, key: &Name) -> (r: Option<bool>)
        ensures
            r == self.local(*key),
    {
        match &self.scopes {
            List::Nil => None,
            List::Cons(first, _) => scope_status(first, key),
        }
    }

    fn declare(self, name: &Token) -> (r: Result<Self, ResolveError>)
        ensures
            r == self.declared(*name),
            r.is_ok() ==> r.unwrap().beside(self),
    {
        let key = Name::Named(name.lexeme.clone());
        if self.find_local(&key).is_some() {
            Err(ResolveError::AlreadyDeclared(name.clone()))
        } else {
            Ok(self.add(Entry { name: key, defined: false }))
        }
    }

    fn define(self, name: &Token) -> (r: Self)
        ensures
            r == self.defined(*name),
            r.beside(self),
    {
        self.add(Entry { name: Name::Named(name.lexeme.clone()), defined: true })
    }

    /// The number of scopes between here and the innermost scope that
    /// declares `key`.
    fn resolve_local(&self, key: &Name) -> (r: Option<usize>)
        ensures
            r == self.distance(*key),
    {
        distance_in(&self.scopes, key)
    }

    fn enter_class(self, inherits: bool) -> (r: Self)
        ensures
            r == self.in_class(inherits),
    {
        if inherits {
            Resolver {
                scopes: self.scopes,
                current_function: self.current_function,
                current_class: ClassType::Subclass,
            }.begin_scope().add(Entry { name: Name::Super, defined: true }).begin_scope().add(
                Entry { name: Name::This, defined: true },
            )
        } else {
            Resolver {
                scopes: self.scopes,
                current_function: self.current_function,
                current_class: ClassType::Class,
            }.begin_scope().add(Entry { name: Name::This, defined: true })
        }
    }

    /// Back from inside a class.
    fn leave_class(self, inherits: bool, outer: ClassType) -> (r: Self)
        ensures
            r == (Resolver {
                current_class: outer,
                ..if inherits {
                    self.ended().ended()
                } else {
                    self.ended()
                }
            }),
    {
        let inner = if inherits {
            self.end_scope().end_scope()
        } else {
            self.end_scope()
        };
        Resolver {
            scopes: inner.scopes,
            current_function: inner.current_function,
            current_class: outer,
        }
    }
}

fn distance_in(scopes: &List<List<Entry>>, key: &Name) -> (r: Option<usize>)
    ensures
        r == innermost(*scopes, *key),
    decreases scopes,
{
    match scopes {
        List::Nil => None,
        List::Cons(first, rest) => {
            if scope_status(first, key).is_some() {
                Some(0)
            } else {
                match distance_in(rest, key) {
                    Some(d) => if d < usize::MAX {
                        Some(d + 1)
                    } else {
                        None
                    },
                    None => None,
                }
            }
        },
    }
}

fn is_named(e: &Expr, name: &Token) -> (r: bool)
    ensures
        r == names(*e, *name),
{
    match e {
        Expr::Variable { name: n, depth } => same_text(n.lexeme.as_str(), name.lexeme.as_str()),
        _ => false,
    }
}

/// Resolves an expression.
pub fn resolve_expr(e: &Expr, r: &Resolver) -> (out: Result<Expr, ResolveError>)
    ensures
        out == resolved_expr(*e, *r),
    decreases e,
{
    match e {
        Expr::Literal { value } => Ok(Expr::Literal { value: value.clone() }),
        Expr::Variable { name, depth } => {
            let key = Name::Named(name.lexeme.clone());
            match r.find_local(&key) {
                Some(false) => Err(ResolveError::OwnInitializer(name.clone())),
                _ => Ok(Expr::Variable { name: name.clone(), depth: r.resolve_local(&key) }),
            }
        },
        Expr::This { keyword, depth } => {
            if r.current_class == ClassType::Outside {
                Err(ResolveError::ThisOutsideClass(keyword.clone()))
            } else {
                Ok(Expr::This { keyword: keyword.clone(), depth: r.resolve_local(&Name::This) })
            }
        },
        Expr::Super { keyword, method, depth } => {
            if r.current_class == ClassType::Outside {
                Err(ResolveError::SuperOutsideClass(keyword.clone()))
            } else if r.current_class != ClassType::Subclass {
                Err(ResolveError::SuperWithoutSuperclass(keyword.clone()))
            } else {
                Ok(
                    Expr::Super {
                        keyword: keyword.clone(),
                        method: method.clone(),
                        depth: r.resolve_local(&Name::Super),
                    },
                )
            }
        },
        Expr::Assign { name, value, depth } => match resolve_expr(value, r) {
            Ok(v) => Ok(
                Expr::Assign {
                    name: name.clone(),
                    value: Box::new(v),
                    depth: r.resolve_local(&Name::Named(name.lexeme.clone())),
                },
            ),
            Err(error) => Err(error),
        },
        Expr::Grouping { expression } => match resolve_expr(expression, r) {
            Ok(inner) => Ok(Expr::Grouping { expression: Box::new(inner) }),
            Err(error) => Err(error),
        },
        Expr::Unary { operator, right } => match resolve_expr(right, r) {
            Ok(inner) => Ok(Expr::Unary { operator: operator.clone(), right: Box::new(inner) }),
            Err(error) => Err(error),
        },
        Expr::Binary { left, operator, right } => match resolve_expr(left, r) {
            Ok(l) => match resolve_expr(right, r) {
                Ok(rr) => Ok(
                    Expr::Binary {
                        left: Box::new(l),
                        operator: operator.clone(),
                        right: Box::new(rr),
                    },
                ),
                Err(error) => Err(error),
            },
            Err(error) => Err(error),
        },
        Expr::Logical { left, operator, right } => match resolve_expr(left, r) {
            Ok(l) => match resolve_expr(right, r) {
                Ok(rr) => Ok(
                    Expr::Logical {
                        left: Box::new(l),
                        operator: operator.clone(),
                        right: Box::new(rr),
                    },
                ),
                Err(error) => Err(error),
            },
            Err(error) => Err(error),
        },
        Expr::Call { callee, paren, arguments } => match resolve_expr(callee, r) {
            Ok(c) => match resolve_exprs(arguments, r) {
                Ok(args) => Ok(
                    Expr::Call {
                        callee: Box::new(c),
                        paren: paren.clone(),
                        arguments: Box::new(args),
                    },
                ),
                Err(error) => Err(error),
            },
            Err(error) => Err(error),
        },
        Expr::Get { object, name } => match resolve_expr(object, r) {
            Ok(o) => Ok(Expr::Get { object: Box::new(o), name: name.clone() }),
            Err(error) => Err(error),
        },
        Expr::SetField { object, name, value } => match resolve_expr(value, r) {
            Ok(v) => match resolve_expr(object, r) {
                Ok(o) => Ok(
                    Expr::SetField { object: Box::new(o), name: name.clone(), value: Box::new(v) },
                ),
                Err(error) => Err(error),
            },
            Err(error) => Err(error),
        },
    }
}

fn resolve_exprs(es: &List<Expr>, r: &Resolver) -> (out: Result<List<Expr>, ResolveError>)
    ensures
        out == resolved_exprs(*es, *r),
    decreases es,
{
    let mut read: List<Expr> = List::Nil;
    let mut at = es;
    loop
        invariant
            *at == *es || decreases_to!(*es => *at),
            joined_items(read, resolved_exprs(*at, *r)) == resolved_exprs(*es, *r),
        decreases at,
    {
        match at {
            List::Nil => {
                return Ok(read.reverse());
            },
            List::Cons(first, rest) => {
                match resolve_expr(first, r) {
                    Ok(e) => {
                        read = List::Cons(e, Box::new(read));
                        at = rest;
                    },
                    Err(error) => {
                        return Err(error);
                    },
                }
            },
        }
    }
}

fn declare_parameters(params: &List<Token>, r: Resolver) -> (out: Result<Resolver, ResolveError>)
    ensures
        out == with_parameters(*params, r),
        out.is_ok() ==> out.unwrap().beside(r),
{
    let mut at = params;
    let mut now = r;
    loop
        invariant
            with_parameters(*at, now) == with_parameters(*params, r),
            now.beside(r),
        decreases at,
    {
        match at {
            List::Nil => {
                return Ok(now);
            },
            List::Cons(first, rest) => {
                match now.declare(first) {
                    Ok(declared) => {
                        now = declared.define(first);
                        at = rest;
                    },
                    Err(error) => {
                        return Err(error);
                    },
                }
            },
        }
    }
}

/// Resolves a function; hands the resolver back as it was.
fn resolve_function(d: &Declaration, r: Resolver, ty: FunctionType) -> (out: Result<
    (Declaration, Resolver),
    ResolveError,
>)
    ensures
        match out {
            Ok((resolved, back)) => resolved_function(*d, r, ty) == Ok::<
                Declaration,
                ResolveError,
            >(resolved) && back == r,
            Err(error) => resolved_function(*d, r, ty) == Err::<Declaration, ResolveError>(error),
        },
    decreases d, 1nat,
{
    let outer = r.current_function;
    let inner = Resolver {
        scopes: r.scopes,
        current_function: ty,
        current_class: r.current_class,
    }.begin_scope();
    match declare_parameters(&d.params, inner) {
        Ok(inside) => match resolve_stmts(&d.body, inside) {
            Ok((body, after)) => {
                let left = after.end_scope();
                Ok(
                    (
                        Declaration { name: d.name.clone(), params: copy_tokens(&d.params), body },
                        Resolver {
                            scopes: left.scopes,
                            current_function: outer,
                            current_class: left.current_class,
                        },
                    ),
                )
            },
            Err(error) => Err(error),
        },
        Err(error) => Err(error),
    }
}

fn copy_tokens(tokens: &List<Token>) -> (r: List<Token>)
    ensures
        r == *tokens,
    decreases tokens,
{
    match tokens {
        List::Nil => List::Nil,
        List::Cons(first, rest) => List::Cons(first.clone(), Box::new(copy_tokens(rest))),
    }
}

/// Resolves the methods of a class; hands the resolver back as it was.
fn resolve_methods(ms: &List<Rc<Declaration>>, r: Resolver) -> (out: Result<
    (List<Rc<Declaration>>, Resolver),
    ResolveError,
>)
    ensures
        match out {
            Ok((resolved, back)) => resolved_methods(*ms, r) == Ok::<
                List<Rc<Declaration>>,
                ResolveError,
            >(resolved) && back == r,
            Err(error) => resolved_methods(*ms, r) == Err::<List<Rc<Declaration>>, ResolveError>(
                error,
            ),
        },
    decreases ms, 1nat,
{
    let mut read: List<Rc<Declaration>> = List::Nil;
    let mut at = ms;
    let mut now = r;
    loop
        invariant
            *at == *ms || decreases_to!(*ms => *at),
            now == r,
            joined_items(read, resolved_methods(*at, r)) == resolved_methods(*ms, r),
        decreases at,
    {
        match at {
            List::Nil => {
                return Ok((read.reverse(), now));
            },
            List::Cons(first, rest) => {
                let ty = if same_text(first.name.lexeme.as_str(), "init") {
                    FunctionType::Initializer
                } else {
                    FunctionType::Method
                };
                match resolve_function(first, now, ty) {
                    Ok((m, back)) => {
                        read = List::Cons(Rc::new(m), Box::new(read));
                        now = back;
                        at = rest;
                    },
                    Err(error) => {
                        return Err(error);
                    },
                }
            },
        }
    }
}

/// Resolves a statement.
pub fn resolve_stmt(s: &Stmt, r: Resolver) -> (out: Result<(Stmt, Resolver), ResolveError>)
    ensures
        out == resolved_stmt(*s, r),
        out.is_ok() ==> out.unwrap().1.beside(r),
    decreases s, 1nat,
{
    match s {
        Stmt::Expression(e) => match resolve_expr(e, &r) {
            Ok(e1) => Ok((Stmt::Expression(e1), r)),
            Err(error) => Err(error),
        },
        Stmt::Print(e) => match resolve_expr(e, &r) {
            Ok(e1) => Ok((Stmt::Print(e1), r)),
            Err(error) => Err(error),
        },
        Stmt::Var { name, initializer } => match r.declare(name) {
            Ok(r1) => match initializer {
                Some(e) => match resolve_expr(e, &r1) {
                    Ok(e1) => Ok(
                        (Stmt::Var { name: name.clone(), initializer: Some(e1) }, r1.define(name)),
                    ),
                    Err(error) => Err(error),
                },
                None => Ok((Stmt::Var { name: name.clone(), initializer: None }, r1.define(name))),
            },
            Err(error) => Err(error),
        },
        Stmt::Block(stmts) => match resolve_stmts(stmts, r.begin_scope()) {
            Ok((inner, r1)) => Ok((Stmt::Block(Rc::new(inner)), r1.end_scope())),
            Err(error) => Err(error),
        },
        Stmt::If { condition, then_branch, else_branch } => match resolve_expr(condition, &r) {
            Ok(c) => match resolve_stmt(then_branch, r) {
                Ok((t, r1)) => match else_branch {
                    Some(other) => match resolve_stmt(other, r1) {
                        Ok((o, r2)) => Ok(
                            (
                                Stmt::If {
                                    condition: c,
                                    then_branch: Box::new(t),
                                    else_branch: Some(Box::new(o)),
                                },
                                r2,
                            ),
                        ),
                        Err(error) => Err(error),
                    },
                    None => Ok(
                        (
                            Stmt::If { condition: c, then_branch: Box::new(t), else_branch: None },
                            r1,
                        ),
                    ),
                },
                Err(error) => Err(error),
            },
            Err(error) => Err(error),
        },
        Stmt::While { condition, body } => match resolve_expr(condition, &r) {
            Ok(c) => match resolve_stmt(body, r) {
                Ok((b, r1)) => Ok((Stmt::While { condition: c, body: Box::new(b) }, r1)),
                Err(error) => Err(error),
            },
            Err(error) => Err(error),
        },
        Stmt::Return { keyword, value } => {
            if r.current_function == FunctionType::Outside {
                return Err(ResolveError::TopLevelReturn(keyword.clone()));
            }
            match value {
                Some(e) => {
                    if r.current_function == FunctionType::Initializer {
                        Err(ResolveError::InitializerReturn(keyword.clone()))
                    } else {
                        match resolve_expr(e, &r) {
                            Ok(e1) => Ok(
                                (Stmt::Return { keyword: keyword.clone(), value: Some(e1) }, r),
                            ),
                            Err(error) => Err(error),
                        }
                    }
                },
                None => Ok((Stmt::Return { keyword: keyword.clone(), value: None }, r)),
            }
        },
        Stmt::Function(declaration) => match r.declare(&declaration.name) {
            Ok(r1) => {
                let r2 = r1.define(&declaration.name);
                match resolve_function(declaration, r2, FunctionType::Function) {
                    Ok((d, back)) => Ok((Stmt::Function(Rc::new(d)), back)),
                    Err(error) => Err(error),
                }
            },
            Err(error) => Err(error),
        },
        Stmt::Class { name, superclass, methods } => resolve_class(name, superclass, methods, r),
    }
}

impl Expr {
    /// The expression with the distances of its variables.
    pub fn resolve(&self, resolver: &Resolver) -> (out: Result<Expr, ResolveError>)
        ensures
            out == resolved_expr(*self, *resolver),
    {
        resolve_expr(self, resolver)
    }
}

impl Stmt {
    /// The statement with the distances of its variables, and the
    /// resolver after what the statement declares.
    pub fn resolve(&self, resolver: Resolver) -> (out: Result<(Stmt, Resolver), ResolveError>)
        ensures
            out == resolved_stmt(*self, resolver),
    {
        resolve_stmt(self, resolver)
    }
}

/// Resolves a class declaration.
fn resolve_class(
    name: &Token,
    superclass: &Option<Expr>,
    methods: &Rc<List<Rc<Declaration>>>,
    r: Resolver,
) -> (out: Result<(Stmt, Resolver), ResolveError>)
    ensures
        out == resolved_class(*name, *superclass, *methods, r),
        out.is_ok() ==> out.unwrap().1.beside(r),
    decreases methods, 2nat,
{
    let r1 = match r.declare(name) {
        Ok(r1) => r1,
        Err(error) => {
            return Err(error);
        },
    };
    let r2 = r1.define(name);
    let outer = r2.current_class;
    match superclass {
        Some(parent) => {
            if is_named(parent, name) {
                return Err(ResolveError::InheritsFromItself(name.clone()));
            }
            match resolve_expr(parent, &r2) {
                Ok(p) => match resolve_methods(methods, r2.enter_class(true)) {
                    Ok((ms, back)) => Ok(
                        (
                            Stmt::Class {
                                name: name.clone(),
                                superclass: Some(p),
                                methods: Rc::new(ms),
                            },
                            back.leave_class(true, outer),
                        ),
                    ),
                    Err(error) => Err(error),
                },
                Err(error) => Err(error),
            }
        },
        None => match resolve_methods(methods, r2.enter_class(false)) {
            Ok((ms, back)) => Ok(
                (
                    Stmt::Class { name: name.clone(), superclass: None, methods: Rc::new(ms) },
                    back.leave_class(false, outer),
                ),
            ),
            Err(error) => Err(error),
        },
    }
}

/// Resolves statements from first to last.
pub fn resolve_stmts(stmts: &List<Stmt>, r: Resolver) -> (out: Result<
    (List<Stmt>, Resolver),
    ResolveError,
>)
    ensures
        out == resolved_stmts(*stmts, r),
        out.is_ok() ==> out.unwrap().1.beside(r),
    decreases stmts, 1nat,
{
    let mut read: List<Stmt> = List::Nil;
    let mut at = stmts;
    let mut now = r;
    loop
        invariant
            *at == *stmts || decreases_to!(*stmts => *at),
            now.beside(r),
            joined_stmts(read, resolved_stmts(*at, now)) == resolved_stmts(*stmts, r),
        decreases at,
    {
        match at {
            List::Nil => {
                return Ok((read.reverse(), now));
            },
            List::Cons(first, rest) => {
                match resolve_stmt(first, now) {
                    Ok((s, next)) => {
                        read = List::Cons(s, Box::new(read));
                        now = next;
                        at = rest;
                    },
                    Err(error) => {
                        return Err(error);
                    },
                }
            },
        }
    }
}


/// What resolution gives for a variable: the variable with the distance to
/// the innermost scope that declares it, and no distance if none does.
pub proof fn variable_resolves_to_nearest(name: Token, depth: Option<usize>, r: Resolver)
    requires
        resolved_expr(Expr::Variable { name, depth }, r).is_ok(),
    ensures
        resolved_expr(Expr::Variable { name, depth }, r) == Ok::<Expr, ResolveError>(
            Expr::Variable { name, depth: innermost(r.scopes, Name::Named(name.lexeme)) },
        ),
        match innermost(r.scopes, Name::Named(name.lexeme)) {
            Some(d) => d < r.scopes.items().len() && status(
                r.scopes.items()[d as int],
                Name::Named(name.lexeme),
            ).is_some() && forall|j: int|
                0 <= j < d ==> status(
                    #[trigger] r.scopes.items()[j],
                    Name::Named(name.lexeme),
                ).is_none(),
            None => true,
        },
{
    match innermost(r.scopes, Name::Named(name.lexeme)) {
        Some(d) => {
            distance_is_nearest(r.scopes, Name::Named(name.lexeme), d);
        },
        None => {},
    }
}

/// Resolution is stable: what it gave for an expression, it gives again
/// for what it gave.
pub proof fn resolved_expr_is_stable(e: Expr, r: Resolver)
    ensures
        match resolved_expr(e, r) {
            Ok(once) => resolved_expr(once, r) == Ok::<Expr, ResolveError>(once) && names_alike(
                e,
                once,
            ),
            Err(_) => true,
        },
    decreases e,
{
    match e {
        Expr::Literal { value } => {},
        Expr::Variable { name, depth } => {},
        Expr::This { keyword, depth } => {},
        Expr::Super { keyword, method, depth } => {},
        Expr::Assign { name, value, depth } => {
            resolved_expr_is_stable(*value, r);
        },
        Expr::Grouping { expression } => {
            resolved_expr_is_stable(*expression, r);
        },
        Expr::Unary { operator, right } => {
            resolved_expr_is_stable(*right, r);
        },
        Expr::Binary { left, operator, right } => {
            resolved_expr_is_stable(*left, r);
            resolved_expr_is_stable(*right, r);
        },
        Expr::Logical { left, operator, right } => {
            resolved_expr_is_stable(*left, r);
            resolved_expr_is_stable(*right, r);
        },
        Expr::Call { callee, paren, arguments } => {
            resolved_expr_is_stable(*callee, r);
            resolved_exprs_are_stable(*arguments, r);
        },
        Expr::Get { object, name } => {
            resolved_expr_is_stable(*object, r);
        },
        Expr::SetField { object, name, value } => {
            resolved_expr_is_stable(*value, r);
            resolved_expr_is_stable(*object, r);
        },
    }
}

/// What a shared pointer holds.
pub open spec fn held<T>(shared: Rc<T>) -> T {
    *shared
}

/// Whether two expressions are the same variable, or neither is a variable.
pub open spec fn names_alike(a: Expr, b: Expr) -> bool {
    match (a, b) {
        (Expr::Variable { name: x, depth: _ }, Expr::Variable { name: y, depth: _ }) => x == y,
        (Expr::Variable { name: _, depth: _ }, _) => false,
        (_, Expr::Variable { name: _, depth: _ }) => false,
        _ => true,
    }
}

proof fn resolved_exprs_are_stable(es: List<Expr>, r: Resolver)
    ensures
        match resolved_exprs(es, r) {
            Ok(once) => resolved_exprs(once, r) == Ok::<List<Expr>, ResolveError>(once),
            Err(_) => true,
        },
    decreases es,
{
    match es {
        List::Nil => {},
        List::Cons(first, rest) => {
            resolved_expr_is_stable(first, r);
            resolved_exprs_are_stable(*rest, r);
        },
    }
}

proof fn resolved_function_is_stable(d: Declaration, r: Resolver, ty: FunctionType)
    ensures
        match resolved_function(d, r, ty) {
            Ok(once) => resolved_function(once, r, ty) == Ok::<Declaration, ResolveError>(once)
                && once.name == d.name,
            Err(_) => true,
        },
    decreases d, 1nat,
{
    match with_parameters(d.params, Resolver { current_function: ty, ..r }.begun()) {
        Ok(inner) => {
            resolved_stmts_are_stable(d.body, inner);
        },
        Err(_) => {},
    }
}

proof fn resolved_methods_are_stable(ms: List<Rc<Declaration>>, r: Resolver)
    ensures
        match resolved_methods(ms, r) {
            Ok(once) => resolved_methods(once, r) == Ok::<List<Rc<Declaration>>, ResolveError>(
                once,
            ),
            Err(_) => true,
        },
    decreases ms, 1nat,
{
    match ms {
        List::Nil => {},
        List::Cons(first, rest) => {
            let ty = if first.name.lexeme@ == "init"@ {
                FunctionType::Initializer
            } else {
                FunctionType::Method
            };
            resolved_function_is_stable(held(first), r, ty);
            resolved_methods_are_stable(*rest, r);
        },
    }
}

proof fn resolved_class_is_stable(
    name: Token,
    superclass: Option<Expr>,
    methods: Rc<List<Rc<Declaration>>>,
    r: Resolver,
)
    ensures
        match resolved_class(name, superclass, methods, r) {
            Ok((once, after)) => resolved_stmt(once, r) == Ok::<(Stmt, Resolver), ResolveError>(
                (once, after),
            ),
            Err(_) => true,
        },
    decreases methods, 2nat,
{
    match r.declared(name) {
        Ok(r1) => {
            let r2 = r1.defined(name);
            match superclass {
                Some(parent) => {
                    if !names(parent, name) {
                        resolved_expr_is_stable(parent, r2);
                        resolved_methods_are_stable(held(methods), r2.in_class(true));
                        match (resolved_expr(parent, r2), resolved_methods(held(methods), r2.in_class(true))) {
                            (Ok(p), Ok(ms)) => {
                                assert(!names(p, name));
                                assert(held(Rc::new(ms)) == ms);
                                let once = Stmt::Class {
                                    name,
                                    superclass: Some(p),
                                    methods: Rc::new(ms),
                                };
                                assert(resolved_class(name, superclass, methods, r) == Ok::<
                                    (Stmt, Resolver),
                                    ResolveError,
                                >((once, r2)));
                                assert(resolved_class(name, Some(p), Rc::new(ms), r) == Ok::<
                                    (Stmt, Resolver),
                                    ResolveError,
                                >((once, r2)));
                                assert(resolved_stmt(once, r) == resolved_class(
                                    name,
                                    Some(p),
                                    Rc::new(ms),
                                    r,
                                ));
                            },
                            _ => {},
                        }
                    }
                },
                None => {
                    resolved_methods_are_stable(held(methods), r2.in_class(false));
                    match resolved_methods(held(methods), r2.in_class(false)) {
                        Ok(ms) => {
                            assert(held(Rc::new(ms)) == ms);
                            let once = Stmt::Class { name, superclass: None, methods: Rc::new(ms) };
                            assert(resolved_class(name, None, Rc::new(ms), r) == Ok::<
                                (Stmt, Resolver),
                                ResolveError,
                            >((once, r2)));
                            assert(resolved_stmt(once, r) == resolved_class(
                                name,
                                None,
                                Rc::new(ms),
                                r,
                            ));
                        },
                        Err(_) => {},
                    }
                },
            }
        },
        Err(_) => {},
    }
}

/// Resolution is stable for a statement.
#[verifier::rlimit(60)]
pub proof fn resolved_stmt_is_stable(s: Stmt, r: Resolver)
    ensures
        match resolved_stmt(s, r) {
            Ok((once, after)) => resolved_stmt(once, r) == Ok::<(Stmt, Resolver), ResolveError>(
                (once, after),
            ),
            Err(_) => true,
        },
    decreases s, 1nat,
{
    match s {
        Stmt::Expression(e) => {
            resolved_expr_is_stable(e, r);
        },
        Stmt::Print(e) => {
            resolved_expr_is_stable(e, r);
        },
        Stmt::Var { name, initializer } => {
            match r.declared(name) {
                Ok(r1) => match initializer {
                    Some(e) => {
                        resolved_expr_is_stable(e, r1);
                    },
                    None => {},
                },
                Err(_) => {},
            }
        },
        Stmt::Block(stmts) => {
            resolved_stmts_are_stable(held(stmts), r.begun());
        },
        Stmt::If { condition, then_branch, else_branch } => {
            resolved_expr_is_stable(condition, r);
            resolved_stmt_is_stable(*then_branch, r);
            match resolved_stmt(*then_branch, r) {
                Ok((_, r1)) => match else_branch {
                    Some(other) => {
                        resolved_stmt_is_stable(*other, r1);
                    },
                    None => {},
                },
                Err(_) => {},
            }
        },
        Stmt::While { condition, body } => {
            resolved_expr_is_stable(condition, r);
            resolved_stmt_is_stable(*body, r);
        },
        Stmt::Return { keyword, value } => {
            match value {
                Some(e) => {
                    resolved_expr_is_stable(e, r);
                },
                None => {},
            }
        },
        Stmt::Function(declaration) => {
            match r.declared(held(declaration).name) {
                Ok(r1) => {
                    resolved_function_is_stable(
                        held(declaration),
                        r1.defined(held(declaration).name),
                        FunctionType::Function,
                    );
                },
                Err(_) => {},
            }
        },
        Stmt::Class { name, superclass, methods } => {
            resolved_class_is_stable(name, superclass, methods, r);
        },
    }
}

/// Resolution is stable for statements in a row.
pub proof fn resolved_stmts_are_stable(stmts: List<Stmt>, r: Resolver)
    ensures
        match resolved_stmts(stmts, r) {
            Ok((once, after)) => resolved_stmts(once, r) == Ok::<
                (List<Stmt>, Resolver),
                ResolveError,
            >((once, after)),
            Err(_) => true,
        },
    decreases stmts, 1nat,
{
    match stmts {
        List::Nil => {},
        List::Cons(first, rest) => {
            resolved_stmt_is_stable(first, r);
            match resolved_stmt(first, r) {
                Ok((_, r1)) => {
                    resolved_stmts_are_stable(*rest, r1);
                },
                Err(_) => {},
            }
        },
    }
}

/// Resolution of a program either gives a program or one error, and a
/// program that it gave resolves to itself.
pub proof fn resolution_is_stable(stmts: List<Stmt>)
    ensures
        match resolved(stmts) {
            Ok(once) => resolved(once) == Ok::<List<Stmt>, ResolveError>(once),
            Err(_) => true,
        },
{
    resolved_stmts_are_stable(stmts, Resolver::initial());
}

} // verus!
