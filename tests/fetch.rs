use gluesql::{
    fetch, fetch_columns, BinaryOperator, Error, Expr, FilterContext, Filter, Ident, Literal,
    ScanItem, Storage, Table, Value,
};

fn ident(name: &str) -> Ident {
    Ident { value: name.to_string(), quote_style: None }
}

fn number(n: i64) -> Expr {
    Expr::Value(Literal::Number(n))
}

fn binary(left: Expr, op: BinaryOperator, right: Expr) -> Expr {
    Expr::BinaryOp { left: Box::new(left), op, right: Box::new(right) }
}

fn row(key: u64, values: Vec<Value>) -> ScanItem {
    ScanItem::Row { key, row: values }
}

/// Table T(a) with rows (key=1, a=5) and (key=2, a=10), with the given items
/// in between.
fn storage_with(items: Vec<ScanItem>) -> Storage {
    Storage {
        tables: vec![Table { name: "T".to_string(), columns: vec!["a".to_string()], items }],
    }
}

fn storage_t() -> Storage {
    storage_with(vec![row(1, vec![Value::I64(5)]), row(2, vec![Value::I64(10)])])
}

/// The keys of the rows a fetch yields, and the errors in their places.
fn collect(storage: &Storage, predicate: &Option<Expr>) -> Vec<Result<(u64, Vec<Value>), Error>> {
    let ctx = FilterContext::empty();
    let columns = vec!["a".to_string()];
    let filter = Filter::new(storage, predicate, &ctx);
    let mut scan = fetch(storage, "T", &columns, filter).unwrap();
    let mut out = Vec::new();
    while let Some(item) = scan.next() {
        out.push(item.map(|r| {
            assert_eq!(r.columns, &columns);
            (r.key, r.row.iter().map(|v| v.duplicate()).collect())
        }));
    }
    out
}

#[test]
fn predicate_keeps_only_passing_rows() {
    let storage = storage_t();
    let predicate = Some(binary(Expr::Identifier(ident("a")), BinaryOperator::Gt, number(7)));
    assert_eq!(collect(&storage, &predicate), vec![Ok((2, vec![Value::I64(10)]))]);
}

#[test]
fn no_predicate_keeps_every_row() {
    let storage = storage_t();
    assert_eq!(
        collect(&storage, &None),
        vec![Ok((1, vec![Value::I64(5)])), Ok((2, vec![Value::I64(10)]))]
    );
}

#[test]
fn rows_keep_scan_order() {
    let storage = storage_with(vec![
        row(3, vec![Value::I64(30)]),
        row(1, vec![Value::I64(1)]),
        row(2, vec![Value::I64(20)]),
    ]);
    let predicate = Some(binary(Expr::Identifier(ident("a")), BinaryOperator::GtEq, number(20)));
    assert_eq!(
        collect(&storage, &predicate),
        vec![Ok((3, vec![Value::I64(30)])), Ok((2, vec![Value::I64(20)]))]
    );
}

#[test]
fn scan_error_stays_in_place() {
    let storage = storage_with(vec![
        row(1, vec![Value::I64(8)]),
        ScanItem::Fault("bad page".to_string()),
        row(2, vec![Value::I64(10)]),
    ]);
    let predicate = Some(binary(Expr::Identifier(ident("a")), BinaryOperator::Gt, number(7)));
    assert_eq!(
        collect(&storage, &predicate),
        vec![
            Ok((1, vec![Value::I64(8)])),
            Err(Error::Scan("bad page".to_string())),
            Ok((2, vec![Value::I64(10)])),
        ]
    );
}

#[test]
fn predicate_error_stays_in_place() {
    let storage = storage_t();
    let predicate = Some(binary(Expr::Identifier(ident("b")), BinaryOperator::Gt, number(7)));
    assert_eq!(
        collect(&storage, &predicate),
        vec![
            Err(Error::ValueNotFound("b".to_string())),
            Err(Error::ValueNotFound("b".to_string())),
        ]
    );
}

#[test]
fn logical_predicates() {
    let storage = storage_t();
    let a_gt_7 = || binary(Expr::Identifier(ident("a")), BinaryOperator::Gt, number(7));
    let not = Some(Expr::Not(Box::new(a_gt_7())));
    assert_eq!(collect(&storage, &not), vec![Ok((1, vec![Value::I64(5)]))]);
    let or = Some(binary(
        a_gt_7(),
        BinaryOperator::Or,
        binary(Expr::Identifier(ident("a")), BinaryOperator::Eq, number(5)),
    ));
    assert_eq!(collect(&storage, &or).len(), 2);
    let and = Some(binary(
        a_gt_7(),
        BinaryOperator::And,
        binary(Expr::Identifier(ident("a")), BinaryOperator::NotEq, number(10)),
    ));
    assert_eq!(collect(&storage, &and), vec![]);
    let truth = Some(Expr::Value(Literal::Boolean(true)));
    assert_eq!(collect(&storage, &truth).len(), 2);
    let number_predicate = Some(number(1));
    assert_eq!(
        collect(&storage, &number_predicate),
        vec![Err(Error::BooleanTypeRequired), Err(Error::BooleanTypeRequired)]
    );
}

#[test]
fn rest_yields_every_remaining_item() {
    let storage = storage_t();
    let ctx = FilterContext::empty();
    let columns = vec!["a".to_string()];
    let predicate = None;
    let filter = Filter::new(&storage, &predicate, &ctx);
    let mut scan = fetch(&storage, "T", &columns, filter).unwrap();
    let first = scan.next().unwrap().unwrap();
    assert_eq!(first.key, 1);
    let rest = scan.rest();
    assert_eq!(rest.len(), 1);
    assert_eq!(rest[0].as_ref().unwrap().key, 2);
    assert!(scan.next().is_none());
}

#[test]
fn fetch_of_missing_table_fails() {
    let storage = storage_t();
    let ctx = FilterContext::empty();
    let columns = vec![];
    let predicate = None;
    let filter = Filter::new(&storage, &predicate, &ctx);
    assert!(matches!(fetch(&storage, "U", &columns, filter), Err(Error::TableNotFound(ref n)) if n == "U"));
}

#[test]
fn filter_check_without_predicate_passes() {
    let storage = storage_t();
    let ctx = FilterContext::empty();
    let predicate = None;
    let filter = Filter::new(&storage, &predicate, &ctx);
    let alias = "T".to_string();
    let columns = vec!["a".to_string()];
    let values = vec![Value::I64(0)];
    assert_eq!(filter.check(&alias, &columns, &values), Ok(true));
}

#[test]
fn columns_of_a_table() {
    let storage = Storage {
        tables: vec![Table {
            name: "T".to_string(),
            columns: vec!["id".to_string(), "name".to_string()],
            items: vec![],
        }],
    };
    assert_eq!(fetch_columns(&storage, "T"), Ok(vec!["id".to_string(), "name".to_string()]));
    assert_eq!(fetch_columns(&storage, "U"), Err(Error::TableNotFound("U".to_string())));
}
