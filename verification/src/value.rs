use vstd::prelude::*;

verus! {

/// The mathematical content of a [`Value`]: an integer or a sequence of
/// characters.
pub enum Atom {
    Int(i64),
    Text(Seq<char>),
}

/// An atomic value in a tuple.
#[derive(Debug, Clone, PartialEq, Eq, PartialOrd, Ord, Hash)]
pub enum Value {
    Int(i64),
    Str(String),
}

impl View for Value {
    type V = Atom;

    open spec fn view(&self) -> Atom {
        match self {
            Value::Int(n) => Atom::Int(*n),
            Value::Str(s) => Atom::Text(s@),
        }
    }
}

impl DeepView for Value {
    type V = Atom;

    open spec fn deep_view(&self) -> Atom {
        self@
    }
}

/// An integer value.
pub fn integer(n: i64) -> (v: Value)
    ensures
        v@ == Atom::Int(n),
{
    Value::Int(n)
}

/// A string value holding a copy of `s`.
pub fn val(s: &str) -> (v: Value)
    ensures
        v@ == Atom::Text(s@),
{
    Value::Str(s.to_owned())
}

impl Value {
    /// A copy of this value.
    pub fn duplicate(&self) -> (v: Value)
        ensures
            v@ == self@,
    {
        match self {
            Value::Int(n) => Value::Int(*n),
            Value::Str(s) => Value::Str(s.clone()),
        }
    }
}

} // verus!
