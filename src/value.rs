//! Runtime values and the environment that maps names to them.
use vstd::prelude::*;
use crate::ast::{copy_parameters, names_of, Expr, Parameter, Term};

verus! {

/// A computed result.
#[derive(Debug)]
pub enum Val {
    Void,
    Int(i32),
    Bool(bool),
    Str(String),
    Closure { body: Term, params: Vec<Parameter>, env: Scope },
}

/// The environment: the most recent binding of a name hides any earlier one.
#[derive(Debug)]
pub enum Scope {
    Empty,
    Entry { name: String, value: Box<Val>, rest: Box<Scope> },
}

/// The mathematical model of a value.
pub enum Value {
    Void,
    Int(i32),
    Bool(bool),
    Str(Seq<char>),
    Closure { params: Seq<Seq<char>>, body: Expr, env: Map<Seq<char>, Value> },
}

/// The mathematical model of an environment.
pub type Env = Map<Seq<char>, Value>;

impl Val {
    pub open spec fn model(&self) -> Value
        decreases self,
    {
        match self {
            Val::Void => Value::Void,
            Val::Int(n) => Value::Int(*n),
            Val::Bool(b) => Value::Bool(*b),
            Val::Str(s) => Value::Str(s@),
            Val::Closure { body, params, env } => Value::Closure {
                params: names_of(params@),
                body: body.model(),
                env: env.model(),
            },
        }
    }

    /// An independent copy of the value.
    pub fn copy(&self) -> (r: Val)
        ensures
            r.model() == self.model(),
        decreases self,
    {
        match self {
            Val::Void => Val::Void,
            Val::Int(n) => Val::Int(*n),
            Val::Bool(b) => Val::Bool(*b),
            Val::Str(s) => Val::Str(s.clone()),
            Val::Closure { body, params, env } => Val::Closure {
                body: body.copy(),
                params: copy_parameters(params),
                env: env.snapshot(),
            },
        }
    }
}

impl Scope {
    pub open spec fn model(&self) -> Env
        decreases self,
    {
        match self {
            Scope::Empty => Map::empty(),
            Scope::Entry { name, value, rest } => rest.model().insert(name@, value.model()),
        }
    }

    /// The empty environment.
    pub fn new() -> (r: Scope)
        ensures
            r.model() == Map::<Seq<char>, Value>::empty(),
    {
        Scope::Empty
    }

    /// The value bound to `name`, if any.
    pub fn lookup(&self, name: &String) -> (r: Option<Val>)
        ensures
            r is Some <==> self.model().contains_key(name@),
            r is Some ==> r->Some_0.model() == self.model()[name@],
        decreases self,
    {
        match self {
            Scope::Empty => None,
            Scope::Entry { name: n, value, rest } => {
                if *n == *name {
                    Some(value.copy())
                } else {
                    rest.lookup(name)
                }
            },
        }
    }

    /// Binds `name` to `value`, replacing any earlier binding of `name`.
    pub fn bind(&mut self, name: String, value: Val)
        ensures
            final(self).model() == old(self).model().insert(name@, value.model()),
    {
        let mut rest = Scope::Empty;
        std::mem::swap(self, &mut rest);
        *self = Scope::Entry { name, value: Box::new(value), rest: Box::new(rest) };
    }

    /// An independent copy of the environment.
    pub fn snapshot(&self) -> (r: Scope)
        ensures
            r.model() == self.model(),
        decreases self,
    {
        match self {
            Scope::Empty => Scope::Empty,
            Scope::Entry { name, value, rest } => Scope::Entry {
                name: name.clone(),
                value: Box::new(value.copy()),
                rest: Box::new(rest.snapshot()),
            },
        }
    }
}

} // verus!
