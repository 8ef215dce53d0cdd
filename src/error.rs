use vstd::prelude::*;
use crate::ast::BinaryOperator;

verus! {

/// The operand of a binary operator that an error is about.
#[derive(Debug, Clone, Copy, PartialEq, Eq, Structural)]
pub enum Side {
    Left,
    Right,
}

/// Everything that evaluating an expression or scanning a table can fail with.
#[derive(Debug, PartialEq)]
pub enum Error {
    /// The expression has a shape that the evaluator does not handle.
    Unimplemented,
    /// A compound identifier without exactly two segments; carries its text.
    UnsupportedCompoundIdentifier(String),
    /// A scalar subquery produced no row.
    NestedSelectRowNotFound,
    /// No frame of the filter context holds this column.
    ValueNotFound(String),
    /// The storage holds no table of this name.
    TableNotFound(String),
    /// An arithmetic operand is neither a number nor null.
    UnsupportedOperand(BinaryOperator, Side),
    /// Division by an integer zero.
    DivisorZero,
    /// An integer result that does not fit in 64 bits.
    Overflow(BinaryOperator),
    /// A row that the storage failed to produce during a scan.
    Scan(String),
    /// A predicate that gives neither a boolean nor null.
    BooleanTypeRequired,
}

/// A string holding exactly the characters `s`.
pub open spec fn text_string(s: Seq<char>) -> String {
    choose|t: String| t@ == s
}

impl Error {
    /// The error with any text that it was built from compared by its
    /// characters alone.
    pub open spec fn normal(self) -> Error {
        match self {
            Error::UnsupportedCompoundIdentifier(s) => Error::UnsupportedCompoundIdentifier(
                text_string(s@),
            ),
            e => e,
        }
    }
}

} // verus!
