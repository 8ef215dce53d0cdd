use gluesql::{
    evaluate, BinaryOperator, Error, Evaluated, Expr, FilterContext, Frame, Ident, Literal, Query,
    QuoteStyle, ScanItem, Side, Storage, Table, Value,
};

fn ident(name: &str) -> Ident {
    Ident { value: name.to_string(), quote_style: None }
}

fn quoted(name: &str) -> Ident {
    Ident { value: name.to_string(), quote_style: Some(QuoteStyle::Double) }
}

fn number(n: i64) -> Expr {
    Expr::Value(Literal::Number(n))
}

fn binary(left: Expr, op: BinaryOperator, right: Expr) -> Expr {
    Expr::BinaryOp { left: Box::new(left), op, right: Box::new(right) }
}

fn row(key: u64, values: Vec<Value>) -> ScanItem {
    ScanItem::Row { key, row: values }
}

/// Table T(key, a) with rows (1, 5) and (2, 10).
fn storage_t() -> Storage {
    Storage {
        tables: vec![Table {
            name: "T".to_string(),
            columns: vec!["key".to_string(), "a".to_string()],
            items: vec![
                row(1, vec![Value::I64(1), Value::I64(5)]),
                row(2, vec![Value::I64(2), Value::I64(10)]),
            ],
        }],
    }
}

fn empty_storage() -> Storage {
    Storage { tables: vec![] }
}

fn eval_value(expr: &Expr) -> Result<Value, Error> {
    let storage = empty_storage();
    let ctx = FilterContext::empty();
    evaluate(&storage, &ctx, expr).map(|e| match e {
        Evaluated::LiteralRef(Literal::Number(n)) => Value::I64(*n),
        Evaluated::LiteralRef(Literal::Boolean(b)) => Value::Bool(*b),
        Evaluated::LiteralRef(_) => panic!("unexpected literal"),
        Evaluated::StringRef(s) => Value::Str(s.clone()),
        Evaluated::ValueRef(v) => v.duplicate(),
        Evaluated::Value(v) => v,
    })
}

fn scalar_query(column: &str, table: &str, selection: Option<Expr>) -> Expr {
    Expr::Subquery(Box::new(Query {
        column: column.to_string(),
        table_name: table.to_string(),
        alias: None,
        selection,
    }))
}

#[test]
fn number_literal_is_borrowed_unchanged() {
    let storage = empty_storage();
    let ctx = FilterContext::empty();
    let expr = number(42);
    match evaluate(&storage, &ctx, &expr) {
        Ok(Evaluated::LiteralRef(l)) => assert_eq!(*l, Literal::Number(42)),
        other => panic!("unexpected {:?}", other),
    }
}

#[test]
fn boolean_literal_is_borrowed_unchanged() {
    let storage = empty_storage();
    let ctx = FilterContext::empty();
    let expr = Expr::Value(Literal::Boolean(true));
    match evaluate(&storage, &ctx, &expr) {
        Ok(Evaluated::LiteralRef(l)) => assert_eq!(*l, Literal::Boolean(true)),
        other => panic!("unexpected {:?}", other),
    }
}

#[test]
fn other_literals_are_unimplemented() {
    assert_eq!(eval_value(&Expr::Value(Literal::Null)), Err(Error::Unimplemented));
    assert_eq!(
        eval_value(&Expr::Value(Literal::SingleQuotedString("x".to_string()))),
        Err(Error::Unimplemented)
    );
    assert_eq!(eval_value(&Expr::Other("ABS(1)".to_string())), Err(Error::Unimplemented));
}

#[test]
fn quoted_identifier_is_its_text_not_a_column() {
    let storage = empty_storage();
    let alias = "T".to_string();
    let columns = vec!["a".to_string()];
    let values = vec![Value::I64(3)];
    let ctx = FilterContext::empty().with_frame(Frame { alias: &alias, columns: &columns, row: &values });
    let expr = Expr::Identifier(quoted("a"));
    match evaluate(&storage, &ctx, &expr) {
        Ok(Evaluated::StringRef(s)) => assert_eq!(s, "a"),
        other => panic!("unexpected {:?}", other),
    }
    let empty = FilterContext::empty();
    match evaluate(&storage, &empty, &expr) {
        Ok(Evaluated::StringRef(s)) => assert_eq!(s, "a"),
        other => panic!("unexpected {:?}", other),
    }
}

#[test]
fn unquoted_identifier_reads_the_context() {
    let storage = empty_storage();
    let outer_alias = "O".to_string();
    let outer_columns = vec!["a".to_string(), "b".to_string()];
    let outer_row = vec![Value::I64(1), Value::I64(2)];
    let inner_alias = "I".to_string();
    let inner_columns = vec!["a".to_string()];
    let inner_row = vec![Value::I64(9)];
    let ctx = FilterContext::empty()
        .with_frame(Frame { alias: &outer_alias, columns: &outer_columns, row: &outer_row })
        .with_frame(Frame { alias: &inner_alias, columns: &inner_columns, row: &inner_row });
    match evaluate(&storage, &ctx, &Expr::Identifier(ident("a"))) {
        Ok(Evaluated::ValueRef(v)) => assert_eq!(*v, Value::I64(9)),
        other => panic!("unexpected {:?}", other),
    }
    match evaluate(&storage, &ctx, &Expr::Identifier(ident("b"))) {
        Ok(Evaluated::ValueRef(v)) => assert_eq!(*v, Value::I64(2)),
        other => panic!("unexpected {:?}", other),
    }
    let unknown = Expr::Identifier(ident("c"));
    let missing = evaluate(&storage, &ctx, &unknown);
    assert!(matches!(missing, Err(Error::ValueNotFound(ref n)) if n == "c"));
}

#[test]
fn compound_identifier_reads_the_aliased_frame() {
    let storage = empty_storage();
    let outer_alias = "O".to_string();
    let outer_columns = vec!["a".to_string()];
    let outer_row = vec![Value::I64(1)];
    let inner_alias = "I".to_string();
    let inner_columns = vec!["a".to_string()];
    let inner_row = vec![Value::I64(9)];
    let ctx = FilterContext::empty()
        .with_frame(Frame { alias: &outer_alias, columns: &outer_columns, row: &outer_row })
        .with_frame(Frame { alias: &inner_alias, columns: &inner_columns, row: &inner_row });
    let expr = Expr::CompoundIdentifier(vec![ident("O"), ident("a")]);
    match evaluate(&storage, &ctx, &expr) {
        Ok(Evaluated::ValueRef(v)) => assert_eq!(*v, Value::I64(1)),
        other => panic!("unexpected {:?}", other),
    }
    let unknown = Expr::CompoundIdentifier(vec![ident("X"), ident("a")]);
    let missing = evaluate(&storage, &ctx, &unknown);
    assert!(matches!(missing, Err(Error::ValueNotFound(ref n)) if n == "a"));
}

#[test]
fn compound_identifier_of_other_length_is_refused() {
    let three = Expr::CompoundIdentifier(vec![ident("s"), ident("t"), ident("a")]);
    assert_eq!(
        eval_value(&three),
        Err(Error::UnsupportedCompoundIdentifier("s.t.a".to_string()))
    );
    let one = Expr::CompoundIdentifier(vec![ident("a")]);
    assert_eq!(eval_value(&one), Err(Error::UnsupportedCompoundIdentifier("a".to_string())));
}

#[test]
fn nested_expression_is_transparent() {
    let inner = binary(number(2), BinaryOperator::Plus, number(3));
    let nested = Expr::Nested(Box::new(binary(number(2), BinaryOperator::Plus, number(3))));
    assert_eq!(eval_value(&inner), Ok(Value::I64(5)));
    assert_eq!(eval_value(&nested), eval_value(&inner));
}

#[test]
fn integer_arithmetic() {
    assert_eq!(eval_value(&binary(number(2), BinaryOperator::Plus, number(3))), Ok(Value::I64(5)));
    assert_eq!(eval_value(&binary(number(2), BinaryOperator::Minus, number(3))), Ok(Value::I64(-1)));
    assert_eq!(eval_value(&binary(number(4), BinaryOperator::Multiply, number(-3))), Ok(Value::I64(-12)));
    assert_eq!(eval_value(&binary(number(-7), BinaryOperator::Divide, number(2))), Ok(Value::I64(-3)));
    assert_eq!(eval_value(&binary(number(7), BinaryOperator::Divide, number(2))), Ok(Value::I64(3)));
}

#[test]
fn integer_overflow_is_an_error() {
    assert_eq!(
        eval_value(&binary(number(i64::MAX), BinaryOperator::Plus, number(1))),
        Err(Error::Overflow(BinaryOperator::Plus))
    );
    assert_eq!(
        eval_value(&binary(number(i64::MIN), BinaryOperator::Divide, number(-1))),
        Err(Error::Overflow(BinaryOperator::Divide))
    );
    assert_eq!(
        eval_value(&binary(number(i64::MIN), BinaryOperator::Multiply, number(2))),
        Err(Error::Overflow(BinaryOperator::Multiply))
    );
}

#[test]
fn division_by_zero_is_an_error() {
    assert_eq!(
        eval_value(&binary(number(7), BinaryOperator::Divide, number(0))),
        Err(Error::DivisorZero)
    );
}

#[test]
fn null_operand_gives_null() {
    let storage = empty_storage();
    let alias = "T".to_string();
    let columns = vec!["n".to_string()];
    let values = vec![Value::Null];
    let ctx = FilterContext::empty().with_frame(Frame { alias: &alias, columns: &columns, row: &values });
    let left = binary(Expr::Identifier(ident("n")), BinaryOperator::Plus, number(1));
    match evaluate(&storage, &ctx, &left) {
        Ok(Evaluated::Value(v)) => assert_eq!(v, Value::Null),
        other => panic!("unexpected {:?}", other),
    }
    let right = binary(Expr::Value(Literal::Boolean(true)), BinaryOperator::Divide, Expr::Identifier(ident("n")));
    match evaluate(&storage, &ctx, &right) {
        Ok(Evaluated::Value(v)) => assert_eq!(v, Value::Null),
        other => panic!("unexpected {:?}", other),
    }
}

#[test]
fn non_numeric_operand_is_a_type_mismatch() {
    assert_eq!(
        eval_value(&binary(Expr::Value(Literal::Boolean(true)), BinaryOperator::Plus, number(1))),
        Err(Error::UnsupportedOperand(BinaryOperator::Plus, Side::Left))
    );
    assert_eq!(
        eval_value(&binary(number(1), BinaryOperator::Multiply, Expr::Identifier(quoted("x")))),
        Err(Error::UnsupportedOperand(BinaryOperator::Multiply, Side::Right))
    );
}

#[test]
fn left_error_wins_over_right() {
    let expr = binary(Expr::Identifier(ident("missing")), BinaryOperator::Plus, Expr::Other("f()".to_string()));
    assert_eq!(eval_value(&expr), Err(Error::ValueNotFound("missing".to_string())));
}

#[test]
fn comparison_is_not_a_value() {
    assert_eq!(eval_value(&binary(number(1), BinaryOperator::Eq, number(1))), Err(Error::Unimplemented));
}

#[test]
fn scalar_subquery_gives_the_first_row() {
    let storage = storage_t();
    let ctx = FilterContext::empty();
    let expr = scalar_query(
        "a",
        "T",
        Some(binary(Expr::Identifier(ident("key")), BinaryOperator::Eq, number(1))),
    );
    match evaluate(&storage, &ctx, &expr) {
        Ok(Evaluated::Value(v)) => assert_eq!(v, Value::I64(5)),
        other => panic!("unexpected {:?}", other),
    }
}

#[test]
fn scalar_subquery_without_rows_fails() {
    let storage = storage_t();
    let ctx = FilterContext::empty();
    let expr = scalar_query(
        "a",
        "T",
        Some(binary(Expr::Identifier(ident("key")), BinaryOperator::Eq, number(3))),
    );
    assert!(matches!(evaluate(&storage, &ctx, &expr), Err(Error::NestedSelectRowNotFound)));
}

#[test]
fn scalar_subquery_with_many_rows_takes_the_first() {
    let storage = storage_t();
    let ctx = FilterContext::empty();
    let expr = scalar_query("a", "T", None);
    match evaluate(&storage, &ctx, &expr) {
        Ok(Evaluated::Value(v)) => assert_eq!(v, Value::I64(5)),
        other => panic!("unexpected {:?}", other),
    }
}

#[test]
fn scalar_subquery_errors() {
    let storage = storage_t();
    let ctx = FilterContext::empty();
    let missing_table = scalar_query("a", "U", None);
    assert!(matches!(evaluate(&storage, &ctx, &missing_table), Err(Error::TableNotFound(ref n)) if n == "U"));
    let missing_column = scalar_query("b", "T", None);
    assert!(matches!(evaluate(&storage, &ctx, &missing_column), Err(Error::ValueNotFound(ref n)) if n == "b"));
    let faulty = Storage {
        tables: vec![Table {
            name: "T".to_string(),
            columns: vec!["a".to_string()],
            items: vec![ScanItem::Fault("disk".to_string()), row(1, vec![Value::I64(1)])],
        }],
    };
    let expr = scalar_query("a", "T", None);
    assert_eq!(
        evaluate(&faulty, &ctx, &expr).map(|_| ()),
        Err(Error::Scan("disk".to_string()))
    );
}

#[test]
fn correlated_subquery_reads_the_outer_row() {
    let storage = storage_t();
    let alias = "O".to_string();
    let columns = vec!["k".to_string()];
    let values = vec![Value::I64(2)];
    let ctx = FilterContext::empty().with_frame(Frame { alias: &alias, columns: &columns, row: &values });
    let expr = scalar_query(
        "a",
        "T",
        Some(binary(
            Expr::Identifier(ident("key")),
            BinaryOperator::Eq,
            Expr::CompoundIdentifier(vec![ident("O"), ident("k")]),
        )),
    );
    match evaluate(&storage, &ctx, &expr) {
        Ok(Evaluated::Value(v)) => assert_eq!(v, Value::I64(10)),
        other => panic!("unexpected {:?}", other),
    }
}

#[test]
fn subquery_in_arithmetic() {
    let storage = storage_t();
    let ctx = FilterContext::empty();
    let expr = binary(
        scalar_query("a", "T", Some(binary(Expr::Identifier(ident("key")), BinaryOperator::Eq, number(2)))),
        BinaryOperator::Plus,
        number(1),
    );
    match evaluate(&storage, &ctx, &expr) {
        Ok(Evaluated::Value(v)) => assert_eq!(v, Value::I64(11)),
        other => panic!("unexpected {:?}", other),
    }
}

fn quoted_with(name: &str, style: QuoteStyle) -> Ident {
    Ident { value: name.to_string(), quote_style: Some(style) }
}

#[test]
fn compound_identifier_error_keeps_quotes() {
    let expr = Expr::CompoundIdentifier(vec![quoted("a"), quoted("a"), quoted("a")]);
    assert_eq!(
        eval_value(&expr),
        Err(Error::UnsupportedCompoundIdentifier("\"a\".\"a\".\"a\"".to_string()))
    );
    let mixed = Expr::CompoundIdentifier(vec![
        quoted_with("s", QuoteStyle::Bracket),
        quoted_with("t", QuoteStyle::Backtick),
        quoted_with("u", QuoteStyle::Single),
        ident("v"),
    ]);
    assert_eq!(
        eval_value(&mixed),
        Err(Error::UnsupportedCompoundIdentifier("[s].`t`.'u'.v".to_string()))
    );
}

#[test]
fn compound_identifier_error_escapes_embedded_quotes() {
    let expr = Expr::CompoundIdentifier(vec![quoted("a\"b")]);
    assert_eq!(
        eval_value(&expr),
        Err(Error::UnsupportedCompoundIdentifier("\"a\"\"b\"".to_string()))
    );
}
