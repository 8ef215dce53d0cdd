use vstd::prelude::*;
use crate::ast::{BinaryOperator, Literal};
use crate::error::{Error, Side};
use crate::value::Value;

verus! {

/// The result of evaluating one expression node. The first three forms
/// borrow what the expression tree or a row already holds; only computed
/// results are owned.
#[derive(Debug)]
pub enum Evaluated<'a> {
    LiteralRef(&'a Literal),
    StringRef(&'a String),
    ValueRef(&'a Value),
    Value(Value),
}

/// The value that a literal stands for.
pub open spec fn literal_value(l: Literal) -> Value {
    match l {
        Literal::Number(n) => Value::I64(n),
        Literal::Boolean(b) => Value::Bool(b),
        Literal::SingleQuotedString(s) => Value::Str(s),
        Literal::Null => Value::Null,
    }
}

impl<'a> Evaluated<'a> {
    /// The value this result stands for, whether borrowed or owned.
    pub open spec fn value(self) -> Value {
        match self {
            Evaluated::LiteralRef(l) => literal_value(*l),
            Evaluated::StringRef(s) => Value::Str(*s),
            Evaluated::ValueRef(v) => *v,
            Evaluated::Value(v) => v,
        }
    }
}

pub open spec fn is_arithmetic(op: BinaryOperator) -> bool {
    op == BinaryOperator::Plus || op == BinaryOperator::Minus || op == BinaryOperator::Multiply
        || op == BinaryOperator::Divide
}

pub open spec fn abs(a: int) -> nat {
    if a < 0 {
        (-a) as nat
    } else {
        a as nat
    }
}

/// Integer division rounding toward zero.
pub open spec fn trunc_div(a: int, b: int) -> int {
    let q = (abs(a) / abs(b)) as int;
    if (a < 0) != (b < 0) {
        -q
    } else {
        q
    }
}

pub open spec fn fits_i64(x: int) -> bool {
    i64::MIN <= x <= i64::MAX
}

/// What an arithmetic operator makes of two values: null wins over every
/// other outcome, then each side must be a number, then the divisor must not
/// be zero, and the exact result must fit in 64 bits.
pub open spec fn arithmetic(op: BinaryOperator, l: Value, r: Value) -> Result<Value, Error> {
    match (l, r) {
        (Value::Null, _) => Ok(Value::Null),
        (_, Value::Null) => Ok(Value::Null),
        (Value::I64(a), Value::I64(b)) => {
            if op == BinaryOperator::Divide && b == 0 {
                Err(Error::DivisorZero)
            } else {
                let x: int = if op == BinaryOperator::Plus {
                    a + b
                } else if op == BinaryOperator::Minus {
                    a - b
                } else if op == BinaryOperator::Multiply {
                    a * b
                } else {
                    trunc_div(a as int, b as int)
                };
                if fits_i64(x) {
                    Ok(Value::I64(x as i64))
                } else {
                    Err(Error::Overflow(op))
                }
            }
        },
        (Value::I64(_), _) => Err(Error::UnsupportedOperand(op, Side::Right)),
        _ => Err(Error::UnsupportedOperand(op, Side::Left)),
    }
}

/// An arithmetic result as an owned evaluation result.
pub open spec fn owned<'a>(r: Result<Value, Error>) -> Result<Evaluated<'a>, Error> {
    match r {
        Ok(v) => Ok(Evaluated::Value(v)),
        Err(e) => Err(e),
    }
}

/// A borrowed look at the value behind an evaluation result.
pub enum Scalar<'b> {
    Null,
    Bool(bool),
    Int(i64),
    Text(&'b String),
}

pub open spec fn scalar_value<'b>(s: Scalar<'b>) -> Value {
    match s {
        Scalar::Null => Value::Null,
        Scalar::Bool(b) => Value::Bool(b),
        Scalar::Int(n) => Value::I64(n),
        Scalar::Text(t) => Value::Str(*t),
    }
}

impl<'a> Evaluated<'a> {
    pub fn scalar(&self) -> (r: Scalar<'_>)
        ensures
            scalar_value(r) == self.value(),
    {
        let v: &Value = match self {
            Evaluated::LiteralRef(l) => {
                return match l {
                    Literal::Number(n) => Scalar::Int(*n),
                    Literal::Boolean(b) => Scalar::Bool(*b),
                    Literal::SingleQuotedString(t) => Scalar::Text(t),
                    Literal::Null => Scalar::Null,
                };
            },
            Evaluated::StringRef(t) => {
                return Scalar::Text(t);
            },
            Evaluated::ValueRef(v) => v,
            Evaluated::Value(v) => v,
        };
        match v {
            Value::Null => Scalar::Null,
            Value::Bool(b) => Scalar::Bool(*b),
            Value::I64(n) => Scalar::Int(*n),
            Value::Str(t) => Scalar::Text(t),
        }
    }

    fn operate(&self, op: BinaryOperator, other: &Evaluated<'a>) -> (r: Result<Evaluated<'a>, Error>)
        requires
            is_arithmetic(op),
        ensures
            r == owned(arithmetic(op, self.value(), other.value())),
    {
        let l = self.scalar();
        let r = other.scalar();
        match (l, r) {
            (Scalar::Null, _) => Ok(Evaluated::Value(Value::Null)),
            (_, Scalar::Null) => Ok(Evaluated::Value(Value::Null)),
            (Scalar::Int(a), Scalar::Int(b)) => match int_arithmetic(op, a, b) {
                Ok(n) => Ok(Evaluated::Value(Value::I64(n))),
                Err(e) => Err(e),
            },
            (Scalar::Int(_), _) => Err(Error::UnsupportedOperand(op, Side::Right)),
            _ => Err(Error::UnsupportedOperand(op, Side::Left)),
        }
    }

    pub fn add(&self, other: &Evaluated<'a>) -> (r: Result<Evaluated<'a>, Error>)
        ensures
            r == owned(arithmetic(BinaryOperator::Plus, self.value(), other.value())),
    {
        self.operate(BinaryOperator::Plus, other)
    }

    pub fn subtract(&self, other: &Evaluated<'a>) -> (r: Result<Evaluated<'a>, Error>)
        ensures
            r == owned(arithmetic(BinaryOperator::Minus, self.value(), other.value())),
    {
        self.operate(BinaryOperator::Minus, other)
    }

    pub fn multiply(&self, other: &Evaluated<'a>) -> (r: Result<Evaluated<'a>, Error>)
        ensures
            r == owned(arithmetic(BinaryOperator::Multiply, self.value(), other.value())),
    {
        self.operate(BinaryOperator::Multiply, other)
    }

    pub fn divide(&self, other: &Evaluated<'a>) -> (r: Result<Evaluated<'a>, Error>)
        ensures
            r == owned(arithmetic(BinaryOperator::Divide, self.value(), other.value())),
    {
        self.operate(BinaryOperator::Divide, other)
    }
}

/// The arithmetic of two integers, computed exactly and then range checked.
fn int_arithmetic(op: BinaryOperator, a: i64, b: i64) -> (r: Result<i64, Error>)
    requires
        is_arithmetic(op),
    ensures
        match arithmetic(op, Value::I64(a), Value::I64(b)) {
            Ok(Value::I64(n)) => r == Ok::<i64, Error>(n),
            Ok(_) => false,
            Err(e) => r == Err::<i64, Error>(e),
        },
{
    if op == BinaryOperator::Divide && b == 0 {
        return Err(Error::DivisorZero);
    }
    let x: i128 = match op {
        BinaryOperator::Plus => a as i128 + b as i128,
        BinaryOperator::Minus => a as i128 - b as i128,
        BinaryOperator::Multiply => {
            assert((a as int) * (b as int) <= 0x4000_0000_0000_0000_0000_0000_0000_0000) by (nonlinear_arith)
                requires
                    i64::MIN <= a <= i64::MAX,
                    i64::MIN <= b <= i64::MAX,
            ;
            assert((a as int) * (b as int) >= -0x4000_0000_0000_0000_0000_0000_0000_0000) by (nonlinear_arith)
                requires
                    i64::MIN <= a <= i64::MAX,
                    i64::MIN <= b <= i64::MAX,
            ;
            a as i128 * b as i128
        },
        _ => {
            let ua: u128 = if a < 0 { (-(a as i128)) as u128 } else { a as u128 };
            let ub: u128 = if b < 0 { (-(b as i128)) as u128 } else { b as u128 };
            let q: u128 = ua / ub;
            assert(q <= ua) by (nonlinear_arith)
                requires
                    q == ua / ub,
                    ub > 0,
            ;
            if (a < 0) != (b < 0) {
                -(q as i128)
            } else {
                q as i128
            }
        },
    };
    if x < i64::MIN as i128 || x > i64::MAX as i128 {
        Err(Error::Overflow(op))
    } else {
        Ok(x as i64)
    }
}

/// Integer arithmetic stays integral and exact while the result fits; a null
/// operand gives null; division by zero and non-numeric operands are errors.
pub proof fn lemma_arithmetic(op: BinaryOperator, l: Value, r: Value)
    requires
        is_arithmetic(op),
    ensures
        (l is Null || r is Null) ==> arithmetic(op, l, r) == Ok::<Value, Error>(Value::Null),
        (l is I64 && r is I64 && op == BinaryOperator::Plus && fits_i64(l->I64_0 + r->I64_0))
            ==> arithmetic(op, l, r) == Ok::<Value, Error>(Value::I64((l->I64_0 + r->I64_0) as i64)),
        (l is I64 && r is I64 && op == BinaryOperator::Divide && r->I64_0 == 0) ==> arithmetic(op, l, r)
            == Err::<Value, Error>(Error::DivisorZero),
        ((l is Bool || l is Str) && !(r is Null)) ==> arithmetic(op, l, r) == Err::<Value, Error>(
            Error::UnsupportedOperand(op, Side::Left),
        ),
        (l is I64 && (r is Bool || r is Str)) ==> arithmetic(op, l, r) == Err::<Value, Error>(
            Error::UnsupportedOperand(op, Side::Right),
        ),
        arithmetic(op, l, r) is Ok ==> (arithmetic(op, l, r)->Ok_0 is I64 || arithmetic(op, l, r)->Ok_0 is Null),
{
}

} // verus!
