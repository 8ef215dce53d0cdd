use vstd::prelude::*;
use crate::ast::{compound_text, compound_to_string, expr_size, predicate_size, BinaryOperator, Expr, Ident, Literal, Query};
use crate::context::{context_alias_value, context_value, FilterContext, Frame};
use crate::error::{text_string, Error};
use crate::evaluated::{arithmetic, is_arithmetic, literal_value, owned, Evaluated, Scalar};
use crate::storage::{ScanItem, Storage, Table};
use crate::value::Value;

verus! {

/// A row that passed a filter: the table's columns, the row's key and the row.
#[derive(Debug)]
pub struct FetchedRow<'a> {
    pub columns: &'a Vec<String>,
    pub key: u64,
    pub row: &'a Vec<Value>,
}

/// What a fetched row stands for: its key and its values.
pub open spec fn fetched_view<'a>(r: Result<FetchedRow<'a>, Error>) -> Result<(u64, Vec<Value>), Error> {
    match r {
        Ok(f) => Ok((f.key, *f.row)),
        Err(e) => Err(e.normal()),
    }
}

/// What an evaluation result stands for.
pub open spec fn outcome<'a>(r: Result<Evaluated<'a>, Error>) -> Result<Value, Error> {
    match r {
        Ok(e) => Ok(e.value()),
        Err(e) => Err(e.normal()),
    }
}

pub open spec fn is_comparison(op: BinaryOperator) -> bool {
    op == BinaryOperator::Eq || op == BinaryOperator::NotEq || op == BinaryOperator::Lt || op
        == BinaryOperator::LtEq || op == BinaryOperator::Gt || op == BinaryOperator::GtEq
}

/// Equality of two non-null values of one type.
pub open spec fn values_equal(l: Value, r: Value) -> bool {
    match (l, r) {
        (Value::I64(a), Value::I64(b)) => a == b,
        (Value::Bool(a), Value::Bool(b)) => a == b,
        (Value::Str(a), Value::Str(b)) => a@ == b@,
        _ => false,
    }
}

/// Whether a comparison holds. Values of different types are never equal,
/// a null makes every comparison false, and only integers are ordered.
pub open spec fn compare(op: BinaryOperator, l: Value, r: Value) -> bool {
    if l is Null || r is Null {
        false
    } else if op == BinaryOperator::Eq {
        values_equal(l, r)
    } else if op == BinaryOperator::NotEq {
        !values_equal(l, r)
    } else {
        match (l, r) {
            (Value::I64(a), Value::I64(b)) => {
                if op == BinaryOperator::Lt {
                    a < b
                } else if op == BinaryOperator::LtEq {
                    a <= b
                } else if op == BinaryOperator::Gt {
                    a > b
                } else {
                    a >= b
                }
            },
            _ => false,
        }
    }
}

/// The value of expression `e` with the names in scope given by `frames`.
pub open spec fn eval_spec<'a>(st: Storage, frames: Seq<Frame<'a>>, e: Expr) -> Result<Value, Error>
    decreases expr_size(e), 1nat,
{
    match e {
        Expr::Value(l) => match l {
            Literal::Number(_) => Ok(literal_value(l)),
            Literal::Boolean(_) => Ok(literal_value(l)),
            _ => Err(Error::Unimplemented),
        },
        Expr::Identifier(id) => {
            if id.quote_style.is_some() {
                Ok(Value::Str(id.value))
            } else {
                match context_value(frames, id.value@) {
                    Some(v) => Ok(v),
                    None => Err(Error::ValueNotFound(id.value)),
                }
            }
        },
        Expr::Nested(inner) => eval_spec(st, frames, *inner),
        Expr::CompoundIdentifier(ids) => {
            if ids@.len() != 2 {
                Err(Error::UnsupportedCompoundIdentifier(text_string(compound_text(ids@))))
            } else {
                match context_alias_value(frames, ids@[0].value@, ids@[1].value@) {
                    Some(v) => Ok(v),
                    None => Err(Error::ValueNotFound(ids@[1].value)),
                }
            }
        },
        Expr::Subquery(q) => subquery_spec(st, frames, *q),
        Expr::BinaryOp { left, op, right } => {
            match eval_spec(st, frames, *left) {
                Err(x) => Err(x),
                Ok(l) => match eval_spec(st, frames, *right) {
                    Err(x) => Err(x),
                    Ok(r) => {
                        if is_arithmetic(op) {
                            arithmetic(op, l, r)
                        } else {
                            Err(Error::Unimplemented)
                        }
                    },
                },
            }
        },
        _ => Err(Error::Unimplemented),
    }
}

/// The value of a scalar subquery: the queried column of the first row that
/// the filtered scan yields.
pub open spec fn subquery_spec<'a>(st: Storage, frames: Seq<Frame<'a>>, q: Query) -> Result<Value, Error>
    decreases 3 + predicate_size(q.selection), 0nat,
{
    match st.table_spec(q.table_name@) {
        None => Err(Error::TableNotFound(q.table_name)),
        Some(t) => {
            let s = fetch_spec(st, frames, q.alias_spec(), &t.columns, q.selection, t.items@);
            if s.len() == 0 {
                Err(Error::NestedSelectRowNotFound)
            } else {
                match s[0] {
                    Err(x) => Err(x),
                    Ok((key, row)) => {
                        let f = Frame { alias: q.alias_spec(), columns: &t.columns, row: &row };
                        match f.value_of(q.column@) {
                            Some(v) => Ok(v),
                            None => Err(Error::ValueNotFound(q.column)),
                        }
                    },
                }
            }
        },
    }
}

/// Whether predicate `e` holds with the names in scope given by `frames`.
pub open spec fn check_spec<'a>(st: Storage, frames: Seq<Frame<'a>>, e: Expr) -> Result<bool, Error>
    decreases expr_size(e), 2nat,
{
    match e {
        Expr::Nested(inner) => check_spec(st, frames, *inner),
        Expr::Not(inner) => match check_spec(st, frames, *inner) {
            Ok(b) => Ok(!b),
            Err(x) => Err(x),
        },
        Expr::BinaryOp { left, op, right } => {
            if op == BinaryOperator::And {
                match check_spec(st, frames, *left) {
                    Err(x) => Err(x),
                    Ok(false) => Ok(false),
                    Ok(true) => check_spec(st, frames, *right),
                }
            } else if op == BinaryOperator::Or {
                match check_spec(st, frames, *left) {
                    Err(x) => Err(x),
                    Ok(true) => Ok(true),
                    Ok(false) => check_spec(st, frames, *right),
                }
            } else if is_comparison(op) {
                match eval_spec(st, frames, *left) {
                    Err(x) => Err(x),
                    Ok(l) => match eval_spec(st, frames, *right) {
                        Err(x) => Err(x),
                        Ok(r) => Ok(compare(op, l, r)),
                    },
                }
            } else {
                value_check(eval_spec(st, frames, e))
            }
        },
        _ => value_check(eval_spec(st, frames, e)),
    }
}

/// A value used as a predicate: a boolean stands for itself, null fails.
pub open spec fn value_check(r: Result<Value, Error>) -> Result<bool, Error> {
    match r {
        Err(x) => Err(x),
        Ok(Value::Bool(b)) => Ok(b),
        Ok(Value::Null) => Ok(false),
        Ok(_) => Err(Error::BooleanTypeRequired),
    }
}

/// Whether an optional predicate holds for a row of a table, the row's frame
/// innermost.
pub open spec fn row_check<'a>(
    st: Storage,
    frames: Seq<Frame<'a>>,
    alias: &'a String,
    columns: &'a Vec<String>,
    pred: Option<Expr>,
    row: &'a Vec<Value>,
) -> Result<bool, Error>
    decreases predicate_size(pred) + 1, 0nat,
{
    match pred {
        None => Ok(true),
        Some(e) => check_spec(st, frames.push(Frame { alias, columns, row }), e),
    }
}

/// What one scan item contributes to a filtered scan.
#[verifier::opaque]
pub open spec fn fetch_step<'a>(
    st: Storage,
    frames: Seq<Frame<'a>>,
    alias: &'a String,
    columns: &'a Vec<String>,
    pred: Option<Expr>,
    item: ScanItem,
) -> Seq<Result<(u64, Vec<Value>), Error>>
    decreases predicate_size(pred) + 1, 1nat,
{
    match item {
        ScanItem::Fault(m) => seq![Err(Error::Scan(m))],
        ScanItem::Row { key, row } => match row_check(st, frames, alias, columns, pred, &row) {
            Ok(true) => seq![Ok((key, row))],
            Ok(false) => Seq::empty(),
            Err(x) => seq![Err(x)],
        },
    }
}

/// The filtered scan of `items`: scan failures in place, rows that pass the
/// predicate in scan order, and the predicate's own errors in place of their rows.
pub open spec fn fetch_spec<'a>(
    st: Storage,
    frames: Seq<Frame<'a>>,
    alias: &'a String,
    columns: &'a Vec<String>,
    pred: Option<Expr>,
    items: Seq<ScanItem>,
) -> Seq<Result<(u64, Vec<Value>), Error>>
    decreases predicate_size(pred) + 1, 2nat + items.len(),
{
    if items.len() == 0 {
        Seq::empty()
    } else {
        fetch_step(st, frames, alias, columns, pred, items[0]) + fetch_spec(
            st,
            frames,
            alias,
            columns,
            pred,
            items.drop_first(),
        )
    }
}

/// A predicate outcome, with any error compared by its characters alone.
pub open spec fn checked(r: Result<bool, Error>) -> Result<bool, Error> {
    match r {
        Ok(b) => Ok(b),
        Err(e) => Err(e.normal()),
    }
}

/// The form a successful evaluation of `e` takes: a literal and a quoted
/// name are borrowed from the expression, a column is borrowed from its
/// row, a computed value is owned, and parentheses change nothing.
pub open spec fn yields_form<'a>(e: Expr, r: Evaluated<'a>) -> bool
    decreases e,
{
    match e {
        Expr::Value(l) => r matches Evaluated::LiteralRef(x) && *x == l,
        Expr::Identifier(id) => {
            if id.quote_style.is_some() {
                r matches Evaluated::StringRef(x) && *x == id.value
            } else {
                r is ValueRef
            }
        },
        Expr::CompoundIdentifier(_) => r is ValueRef,
        Expr::Nested(inner) => yields_form(*inner, r),
        Expr::Subquery(_) => r is Value,
        Expr::BinaryOp { .. } => r is Value,
        _ => true,
    }
}

/// Evaluates `expr` with the names in scope given by `ctx`; a subquery is run
/// against `storage` with `ctx` as its outer scope.
pub fn evaluate<'a>(storage: &'a Storage, ctx: &FilterContext<'a>, expr: &'a Expr) -> (r: Result<
    Evaluated<'a>,
    Error,
>)
    ensures
        outcome(r) == eval_spec(*storage, ctx.frames@, *expr),
        r is Ok ==> yields_form(*expr, r->Ok_0),
        match *expr {
            Expr::CompoundIdentifier(ids) => ids@.len() != 2 ==> (r matches Err(
                Error::UnsupportedCompoundIdentifier(t),
            ) && t@ == compound_text(ids@)),
            _ => true,
        },
    decreases expr_size(*expr), 1nat,
{
    match expr {
        Expr::Value(l) => match l {
            Literal::Number(_) => Ok(Evaluated::LiteralRef(l)),
            Literal::Boolean(_) => Ok(Evaluated::LiteralRef(l)),
            _ => Err(Error::Unimplemented),
        },
        Expr::Identifier(id) => match id.quote_style {
            Some(_) => Ok(Evaluated::StringRef(&id.value)),
            None => match ctx.get_value(&id.value) {
                Ok(v) => Ok(Evaluated::ValueRef(v)),
                Err(e) => Err(e),
            },
        },
        Expr::Nested(inner) => evaluate(storage, ctx, inner),
        Expr::CompoundIdentifier(ids) => {
            if ids.len() != 2 {
                let text = compound_to_string(ids);
                return Err(Error::UnsupportedCompoundIdentifier(text));
            }
            match ctx.get_alias_value(&ids[0].value, &ids[1].value) {
                Ok(v) => Ok(Evaluated::ValueRef(v)),
                Err(e) => Err(e),
            }
        },
        Expr::Subquery(q) => subquery(storage, ctx, q),
        Expr::BinaryOp { left, op, right } => {
            let l = match evaluate(storage, ctx, left) {
                Ok(l) => l,
                Err(e) => return Err(e),
            };
            let r = match evaluate(storage, ctx, right) {
                Ok(r) => r,
                Err(e) => return Err(e),
            };
            match op {
                BinaryOperator::Plus => l.add(&r),
                BinaryOperator::Minus => l.subtract(&r),
                BinaryOperator::Multiply => l.multiply(&r),
                BinaryOperator::Divide => l.divide(&r),
                _ => Err(Error::Unimplemented),
            }
        },
        _ => Err(Error::Unimplemented),
    }
}

/// Runs a scalar subquery and takes the queried column of its first row.
fn subquery<'a>(storage: &'a Storage, ctx: &FilterContext<'a>, q: &'a Query) -> (r: Result<
    Evaluated<'a>,
    Error,
>)
    ensures
        outcome(r) == subquery_spec(*storage, ctx.frames@, *q),
        r is Ok ==> r->Ok_0 is Value,
    decreases 3 + predicate_size(q.selection), 0nat,
{
    let table = match storage.table(q.table_name.as_str()) {
        Some(t) => t,
        None => return Err(Error::TableNotFound(q.table_name.clone())),
    };
    let alias = q.table_alias();
    let (first, _) = next_passing(storage, ctx, alias, &table.columns, &q.selection, &table.items, 0);
    proof {
        assert(table.items@.skip(0) =~= table.items@);
    }
    match first {
        None => Err(Error::NestedSelectRowNotFound),
        Some(Err(e)) => Err(e),
        Some(Ok(fetched)) => {
            let frame = Frame { alias, columns: &table.columns, row: fetched.row };
            match frame.get_value(&q.column) {
                Some(v) => Ok(Evaluated::Value(v.duplicate())),
                None => Err(Error::ValueNotFound(q.column.clone())),
            }
        },
    }
}

/// Whether a predicate holds with the names in scope given by `ctx`.
fn check_expr<'a>(storage: &'a Storage, ctx: &FilterContext<'a>, expr: &'a Expr) -> (r: Result<bool, Error>)
    ensures
        checked(r) == check_spec(*storage, ctx.frames@, *expr),
    decreases expr_size(*expr), 2nat,
{
    match expr {
        Expr::Nested(inner) => check_expr(storage, ctx, inner),
        Expr::Not(inner) => match check_expr(storage, ctx, inner) {
            Ok(b) => Ok(!b),
            Err(e) => Err(e),
        },
        Expr::BinaryOp { left, op, right } => {
            if *op == BinaryOperator::And {
                match check_expr(storage, ctx, left) {
                    Err(e) => Err(e),
                    Ok(false) => Ok(false),
                    Ok(true) => check_expr(storage, ctx, right),
                }
            } else if *op == BinaryOperator::Or {
                match check_expr(storage, ctx, left) {
                    Err(e) => Err(e),
                    Ok(true) => Ok(true),
                    Ok(false) => check_expr(storage, ctx, right),
                }
            } else if *op == BinaryOperator::Eq || *op == BinaryOperator::NotEq || *op == BinaryOperator::Lt
                || *op == BinaryOperator::LtEq || *op == BinaryOperator::Gt || *op == BinaryOperator::GtEq {
                let l = match evaluate(storage, ctx, left) {
                    Ok(l) => l,
                    Err(e) => return Err(e),
                };
                let r = match evaluate(storage, ctx, right) {
                    Ok(r) => r,
                    Err(e) => return Err(e),
                };
                Ok(compare_scalars(*op, l.scalar(), r.scalar()))
            } else {
                truth(evaluate(storage, ctx, expr))
            }
        },
        _ => truth(evaluate(storage, ctx, expr)),
    }
}

/// A value used as a predicate.
fn truth<'a>(r: Result<Evaluated<'a>, Error>) -> (b: Result<bool, Error>)
    ensures
        checked(b) == value_check(outcome(r)),
{
    match r {
        Err(e) => Err(e),
        Ok(v) => match v.scalar() {
            Scalar::Bool(b) => Ok(b),
            Scalar::Null => Ok(false),
            _ => Err(Error::BooleanTypeRequired),
        },
    }
}

fn compare_scalars<'b>(op: BinaryOperator, l: Scalar<'b>, r: Scalar<'b>) -> (b: bool)
    requires
        is_comparison(op),
    ensures
        b == compare(op, crate::evaluated::scalar_value(l), crate::evaluated::scalar_value(r)),
{
    let equal = match (&l, &r) {
        (Scalar::Int(a), Scalar::Int(b)) => *a == *b,
        (Scalar::Bool(a), Scalar::Bool(b)) => *a == *b,
        (Scalar::Text(a), Scalar::Text(b)) => **a == **b,
        _ => false,
    };
    match (l, r) {
        (Scalar::Null, _) => false,
        (_, Scalar::Null) => false,
        (Scalar::Int(a), Scalar::Int(b)) => match op {
            BinaryOperator::Eq => a == b,
            BinaryOperator::NotEq => a != b,
            BinaryOperator::Lt => a < b,
            BinaryOperator::LtEq => a <= b,
            BinaryOperator::Gt => a > b,
            _ => a >= b,
        },
        _ => match op {
            BinaryOperator::Eq => equal,
            BinaryOperator::NotEq => !equal,
            _ => false,
        },
    }
}

/// Checks an optional predicate against one row of a table.
pub(crate) fn check_row<'a>(
    storage: &'a Storage,
    ctx: &FilterContext<'a>,
    alias: &'a String,
    columns: &'a Vec<String>,
    pred: &'a Option<Expr>,
    row: &'a Vec<Value>,
) -> (r: Result<bool, Error>)
    ensures
        checked(r) == row_check(*storage, ctx.frames@, alias, columns, *pred, row),
    decreases predicate_size(*pred) + 1, 0nat,
{
    match pred {
        None => Ok(true),
        Some(e) => {
            let inner = ctx.with_frame(Frame { alias, columns, row });
            check_expr(storage, &inner, e)
        },
    }
}

/// What one scan item yields through the filter, if anything.
fn scan_item<'a>(
    storage: &'a Storage,
    ctx: &FilterContext<'a>,
    alias: &'a String,
    columns: &'a Vec<String>,
    pred: &'a Option<Expr>,
    item: &'a ScanItem,
) -> (r: Option<Result<FetchedRow<'a>, Error>>)
    ensures
        ({
            let step = fetch_step(*storage, ctx.frames@, alias, columns, *pred, *item);
            match r {
                None => step.len() == 0,
                Some(x) => step == seq![fetched_view(x)] && (x is Ok ==> x->Ok_0.columns == columns),
            }
        }),
    decreases predicate_size(*pred) + 1, 1nat,
{
    reveal(fetch_step);
    match item {
        ScanItem::Fault(m) => Some(Err(Error::Scan(m.clone()))),
        ScanItem::Row { key, row } => match check_row(storage, ctx, alias, columns, pred, row) {
            Ok(true) => Some(Ok(FetchedRow { columns, key: *key, row })),
            Ok(false) => None,
            Err(e) => Some(Err(e)),
        },
    }
}

proof fn lemma_fetch_unfold<'a>(
    st: Storage,
    frames: Seq<Frame<'a>>,
    alias: &'a String,
    columns: &'a Vec<String>,
    pred: Option<Expr>,
    items: Seq<ScanItem>,
    i: int,
)
    requires
        0 <= i < items.len(),
    ensures
        fetch_spec(st, frames, alias, columns, pred, items.skip(i)) == fetch_step(
            st,
            frames,
            alias,
            columns,
            pred,
            items[i],
        ) + fetch_spec(st, frames, alias, columns, pred, items.skip(i + 1)),
{
    let sk = items.skip(i);
    assert(sk.len() > 0);
    reveal(fetch_step);
    assert(sk.drop_first() =~= items.skip(i + 1));
    assert(sk[0] == items[i]);
    assert(fetch_spec(st, frames, alias, columns, pred, sk) == fetch_step(st, frames, alias, columns, pred, sk[0])
        + fetch_spec(st, frames, alias, columns, pred, sk.drop_first()));
}

/// Scans `items` from `start` to the first item that the filtered scan
/// yields; returns it and the position after it.
pub(crate) fn next_passing<'a>(
    storage: &'a Storage,
    ctx: &FilterContext<'a>,
    alias: &'a String,
    columns: &'a Vec<String>,
    pred: &'a Option<Expr>,
    items: &'a Vec<ScanItem>,
    start: usize,
) -> (r: (Option<Result<FetchedRow<'a>, Error>>, usize))
    requires
        start <= items.len(),
    ensures
        start <= r.1 <= items.len(),
        ({
            let s = fetch_spec(*storage, ctx.frames@, alias, columns, *pred, items@.skip(start as int));
            match r.0 {
                None => s.len() == 0 && r.1 == items.len(),
                Some(x) => s.len() > 0 && fetched_view(x) == s[0] && (x is Ok ==> x->Ok_0.columns
                    == columns) && fetch_spec(*storage, ctx.frames@, alias, columns, *pred, items@.skip(r.1 as int))
                    == s.drop_first(),
            }
        }),
    decreases predicate_size(*pred) + 1, 2nat,
{
    let ghost s = fetch_spec(*storage, ctx.frames@, alias, columns, *pred, items@.skip(start as int));
    let mut i: usize = start;
    while i < items.len()
        invariant
            start <= i <= items.len(),
            s == fetch_spec(*storage, ctx.frames@, alias, columns, *pred, items@.skip(start as int)),
            s == fetch_spec(*storage, ctx.frames@, alias, columns, *pred, items@.skip(i as int)),
        decreases items.len() - i,
    {
        proof {
            lemma_fetch_unfold(*storage, ctx.frames@, alias, columns, *pred, items@, i as int);
        }
        let ghost step = fetch_step(*storage, ctx.frames@, alias, columns, *pred, items@[i as int]);
        let found = scan_item(storage, ctx, alias, columns, pred, &items[i]);
        match found {
            Some(x) => {
                assert(step.len() == 1);
                assert(s[0] == step[0]);
                assert(s.drop_first() =~= fetch_spec(*storage, ctx.frames@, alias, columns, *pred, items@.skip(i + 1)));
                return (Some(x), i + 1);
            },
            None => {
                assert(s =~= fetch_spec(*storage, ctx.frames@, alias, columns, *pred, items@.skip(i + 1)));
            },
        }
        i = i + 1;
    }
    (None, i)
}

/// A quoted identifier is a string equal to its own text, whatever the
/// context holds.
pub proof fn lemma_quoted_identifier<'a>(st: Storage, f1: Seq<Frame<'a>>, f2: Seq<Frame<'a>>, id: Ident)
    requires
        id.quote_style.is_some(),
    ensures
        eval_spec(st, f1, Expr::Identifier(id)) == Ok::<Value, Error>(Value::Str(id.value)),
        eval_spec(st, f1, Expr::Identifier(id)) == eval_spec(st, f2, Expr::Identifier(id)),
{
}

/// A compound identifier of other than two segments is refused.
pub proof fn lemma_compound_identifier_arity<'a>(st: Storage, frames: Seq<Frame<'a>>, ids: Vec<Ident>)
    requires
        ids@.len() != 2,
    ensures
        eval_spec(st, frames, Expr::CompoundIdentifier(ids)) matches Err(Error::UnsupportedCompoundIdentifier(_)),
{
}

/// A parenthesized expression evaluates as the expression inside it.
pub proof fn lemma_nested_transparent<'a>(st: Storage, frames: Seq<Frame<'a>>, e: Expr)
    ensures
        eval_spec(st, frames, Expr::Nested(Box::new(e))) == eval_spec(st, frames, e),
{
}

/// A scalar subquery: no row is an error; otherwise the first item of the
/// filtered scan decides, whatever follows it.
pub proof fn lemma_scalar_subquery<'a>(st: Storage, frames: Seq<Frame<'a>>, q: Query, t: Table)
    requires
        st.table_spec(q.table_name@) == Some(t),
    ensures
        ({
            let s = fetch_spec(st, frames, q.alias_spec(), &t.columns, q.selection, t.items@);
            let r = eval_spec(st, frames, Expr::Subquery(Box::new(q)));
            &&& s.len() == 0 ==> r == Err::<Value, Error>(Error::NestedSelectRowNotFound)
            &&& s.len() > 0 ==> match s[0] {
                Err(x) => r == Err::<Value, Error>(x),
                Ok((_, row)) => match (Frame { alias: q.alias_spec(), columns: &t.columns, row: &row }).value_of(
                    q.column@,
                ) {
                    Some(v) => r == Ok::<Value, Error>(v),
                    None => r == Err::<Value, Error>(Error::ValueNotFound(q.column)),
                },
            }
        }),
{
    assert(eval_spec(st, frames, Expr::Subquery(Box::new(q))) == subquery_spec(st, frames, q));
}

} // verus!
