use vstd::prelude::*;
use crate::id::{Step, ViewId};

verus! {

/// What a stored state value is, mathematically.
pub enum Payload {
    Int(int),
    Bool(bool),
    Text(Seq<char>),
}

/// A state value as the store holds it: the payload with its kind as tag.
#[derive(Debug)]
pub enum Value {
    Int(i64),
    Bool(bool),
    Text(String),
}

impl View for Value {
    type V = Payload;

    open spec fn view(&self) -> Payload {
        match self {
            Value::Int(n) => Payload::Int(*n as int),
            Value::Bool(b) => Payload::Bool(*b),
            Value::Text(s) => Payload::Text(s@),
        }
    }
}

impl Value {
    /// A copy of this value.
    pub fn clone_value(&self) -> (r: Value)
        ensures
            r@ == self@,
    {
        match self {
            Value::Int(n) => Value::Int(*n),
            Value::Bool(b) => Value::Bool(*b),
            Value::Text(s) => Value::Text(s.clone()),
        }
    }
}

/// A type whose values can live in the state store.
pub trait StateValue: Sized {
    /// The payload that stands for this value in the store.
    spec fn payload(&self) -> Payload;

    /// Whether a stored payload has this type's tag.
    spec fn accepts(p: Payload) -> bool;

    /// A value's own payload carries its type's tag.
    proof fn lemma_accepts_payload(&self)
        ensures
            Self::accepts(self.payload()),
    ;

    /// Erases the value to its stored form.
    fn to_value(&self) -> (r: Value)
        ensures
            r@ == self.payload(),
            Self::accepts(r@),
    ;

    /// Reads a stored value back; `None` when its tag is another type's.
    fn from_value(v: &Value) -> (r: Option<Self>)
        ensures
            r is Some <==> Self::accepts(v@),
            r matches Some(x) ==> x.payload() == v@,
    ;
}

impl StateValue for i64 {
    proof fn lemma_accepts_payload(&self) {
    }

    open spec fn payload(&self) -> Payload {
        Payload::Int(*self as int)
    }

    open spec fn accepts(p: Payload) -> bool {
        p is Int
    }

    fn to_value(&self) -> (r: Value) {
        Value::Int(*self)
    }

    fn from_value(v: &Value) -> (r: Option<i64>) {
        match v {
            Value::Int(n) => Some(*n),
            _ => None,
        }
    }
}

impl StateValue for bool {
    proof fn lemma_accepts_payload(&self) {
    }

    open spec fn payload(&self) -> Payload {
        Payload::Bool(*self)
    }

    open spec fn accepts(p: Payload) -> bool {
        p is Bool
    }

    fn to_value(&self) -> (r: Value) {
        Value::Bool(*self)
    }

    fn from_value(v: &Value) -> (r: Option<bool>) {
        match v {
            Value::Bool(b) => Some(*b),
            _ => None,
        }
    }
}

impl StateValue for String {
    proof fn lemma_accepts_payload(&self) {
    }

    open spec fn payload(&self) -> Payload {
        Payload::Text(self@)
    }

    open spec fn accepts(p: Payload) -> bool {
        p is Text
    }

    fn to_value(&self) -> (r: Value) {
        Value::Text(self.clone())
    }

    fn from_value(v: &Value) -> (r: Option<String>) {
        match v {
            Value::Text(s) => Some(s.clone()),
            _ => None,
        }
    }
}

/// A typed handle to the state stored for one view identity. It owns no
/// data: reads and writes go through the context.
pub struct State<S> {
    id: ViewId,
    tag: std::marker::PhantomData<S>,
}

impl<S> View for State<S> {
    type V = Seq<Step>;

    closed spec fn view(&self) -> Seq<Step> {
        self.id@
    }
}

impl<S> State<S> {
    /// The handle to the state of `id`.
    pub fn new(id: &ViewId) -> (r: State<S>)
        ensures
            r@ == id@,
    {
        State { id: id.duplicate(), tag: std::marker::PhantomData }
    }

    /// The identity whose state this handle names.
    pub fn id(&self) -> (r: ViewId)
        ensures
            r@ == self@,
    {
        self.id.duplicate()
    }
}

impl<S> Clone for State<S> {
    fn clone(&self) -> (r: State<S>)
        ensures
            r@ == self@,
    {
        State::new(&self.id)
    }
}

} // verus!
