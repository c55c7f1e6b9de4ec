//! Runtime values and the persistent environment that binds names to them.
use vstd::prelude::*;
use crate::error::EvalError;
use crate::expr::Expr;

verus! {

/// A function value: its parameter, its body (borrowed from the tree that
/// holds it) and the environment it was created in.
#[derive(Debug)]
pub struct FnValue<'a> {
    pub arg: String,
    pub body: &'a Expr,
    pub env: Box<Environ<'a>>,
}

#[derive(Debug)]
pub enum Value<'a> {
    String(String),
    Bool(bool),
    Int(i64),
    /// An IEEE-754 double, held as its bit pattern.
    Float(u64),
    Fn(FnValue<'a>),
    Unit,
}

/// A persistent name-to-value mapping. Extending it yields a new mapping, with
/// its own copy of the older entries, and leaves the receiver as it was, so a
/// closure may keep the one it captured.
#[derive(Debug)]
pub enum Environ<'a> {
    Empty,
    /// A newest entry in front of the older ones.
    Extended(String, Value<'a>, Box<Environ<'a>>),
}

/// The value bound to `name` by the last entry of `entries` that names it.
pub open spec fn lookup_in<'a>(entries: Seq<(Seq<char>, Value<'a>)>, name: Seq<char>) -> Option<Value<'a>>
    decreases entries.len(),
{
    if entries.len() == 0 {
        None
    } else if entries.last().0 == name {
        Some(entries.last().1)
    } else {
        lookup_in(entries.drop_last(), name)
    }
}

impl<'a> Environ<'a> {
    /// The entries, oldest first.
    pub open spec fn entries(self) -> Seq<(Seq<char>, Value<'a>)>
        decreases self,
    {
        match self {
            Environ::Empty => Seq::empty(),
            Environ::Extended(name, value, older) => older.entries().push((name@, value)),
        }
    }

    pub open spec fn lookup_spec(self, name: Seq<char>) -> Option<Value<'a>> {
        lookup_in(self.entries(), name)
    }

    pub fn empty() -> (r: Environ<'a>)
        ensures
            r == Environ::<'a>::Empty,
            r.entries() == Seq::<(Seq<char>, Value<'a>)>::empty(),
    {
        Environ::Empty
    }

    /// The receiver plus one newer entry, which shadows any older one of that name.
    pub fn extend(&self, ident: String, val: Value<'a>) -> (r: Environ<'a>)
        ensures
            r.entries() == self.entries().push((ident@, val)),
            r == Environ::Extended(ident, val, Box::new(*self)),
    {
        Environ::Extended(ident, val, Box::new(self.copy()))
    }

    /// A copy of the value most recently bound to `ident`.
    pub fn lookup(&self, ident: &String) -> (r: Option<Value<'a>>)
        ensures
            r == self.lookup_spec(ident@),
    {
        let mut cur = self;
        loop
            invariant
                lookup_in(self.entries(), ident@) == lookup_in(cur.entries(), ident@),
            decreases cur.entries().len(),
        {
            match cur {
                Environ::Empty => {
                    return None;
                },
                Environ::Extended(name, value, older) => {
                    assert(cur.entries().drop_last() == older.entries());
                    if *name == *ident {
                        return Some(value.copy());
                    }
                    cur = older;
                },
            }
        }
    }

    /// An independent copy, equal to the receiver.
    pub fn copy(&self) -> (r: Environ<'a>)
        ensures
            r == *self,
        decreases self,
    {
        match self {
            Environ::Empty => Environ::Empty,
            Environ::Extended(name, value, older) => Environ::Extended(
                name.clone(),
                value.copy(),
                Box::new(older.copy()),
            ),
        }
    }
}

impl<'a> Value<'a> {
    /// An independent copy: strings are duplicated, a closure shares its body
    /// and copies its captured environment.
    pub fn copy(&self) -> (r: Value<'a>)
        ensures
            r == *self,
        decreases self,
    {
        match self {
            Value::String(s) => Value::String(s.clone()),
            Value::Bool(b) => Value::Bool(*b),
            Value::Int(i) => Value::Int(*i),
            Value::Float(f) => Value::Float(*f),
            Value::Fn(f) => Value::Fn(FnValue { arg: f.arg.clone(), body: f.body, env: Box::new(f.env.copy()) }),
            Value::Unit => Value::Unit,
        }
    }

    /// The boolean held, or an error for any other variant.
    pub fn extract_bool(self) -> (r: Result<bool, EvalError>)
        ensures
            r == (match self {
                Value::Bool(b) => Ok::<bool, EvalError>(b),
                _ => Err(EvalError::BooleanOperands),
            }),
    {
        match self {
            Value::Bool(b) => Ok(b),
            _ => Err(EvalError::BooleanOperands),
        }
    }
}

} // verus!
