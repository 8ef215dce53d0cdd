use vstd::prelude::*;

verus! {

/// A value held in a row, or computed by an expression.
#[derive(Debug, PartialEq)]
pub enum Value {
    Null,
    Bool(bool),
    I64(i64),
    Str(String),
}

impl Value {
    /// An owned copy of this value.
    pub fn duplicate(&self) -> (r: Value)
        ensures
            r == *self,
    {
        match self {
            Value::Null => Value::Null,
            Value::Bool(b) => Value::Bool(*b),
            Value::I64(n) => Value::I64(*n),
            Value::Str(s) => Value::Str(s.clone()),
        }
    }
}

} // verus!
