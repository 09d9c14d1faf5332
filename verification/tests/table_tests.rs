use rustledger::columns::QueryResult;
use rustledger::date::Date;
use rustledger::dec::Dec;
use rustledger::order::{sort_results, SortKey, SortTarget};
use rustledger::tables::{evaluate_literal_expr, InsertSource, Literal, LiteralArgs, LiteralExpr, TableStore};
use rustledger::value::{QueryError, UnaryOperator, Value};

fn describe(e: &QueryError) -> String {
    match e {
        QueryError::UnknownColumn(m) => format!("unknown column: {m}"),
        QueryError::UnknownFunction(m) => format!("unknown function: {m}"),
        QueryError::InvalidArguments(f, m) => format!("invalid arguments for {f}: {m}"),
        QueryError::Type(m) => m.clone(),
        QueryError::Aggregation(m) => m.clone(),
        QueryError::Evaluation(m) => m.clone(),
    }
}

fn names(cols: &[&str]) -> Vec<String> {
    cols.iter().map(|c| c.to_string()).collect()
}

fn lit_str(t: &str) -> LiteralExpr {
    LiteralExpr::Literal(Literal::String(t.to_string()))
}

fn lit_num(n: i128) -> LiteralExpr {
    LiteralExpr::Literal(Literal::Number(Dec { mantissa: n, scale: 0 }))
}

fn text(t: &str) -> Value {
    Value::String(t.to_string())
}

fn created(store: &mut TableStore, name: &str, cols: &[&str]) {
    store.execute_create_table(name, names(cols), None).expect("should execute");
}

fn result_text(r: &QueryResult) -> String {
    match &r.rows[0][0] {
        Value::String(m) => m.clone(),
        other => panic!("unexpected {other:?}"),
    }
}

#[test]
fn test_create_table_simple() {
    let mut store = TableStore::new();
    let result = store.execute_create_table("test_table", names(&["col1", "col2", "col3"]), None).expect("should execute");
    assert_eq!(result.columns, vec!["result"]);
    assert_eq!(result.rows.len(), 1);
    assert!(result_text(&result).contains("Created table"));
}

#[test]
fn test_create_table_as_select() {
    let mut store = TableStore::new();
    let mut selected = QueryResult::new(names(&["account", "sum"]));
    selected.add_row(vec![text("Assets:Bank"), Value::Number(Dec { mantissa: 100, scale: 0 })]);
    let result = store.execute_create_table("balances", vec![], Some(Ok(selected))).expect("should execute");
    assert_eq!(result.columns, vec!["result"]);
    assert!(result_text(&result).contains("Created table 'balances'"));
    let table = store.get_table("balances").expect("table exists");
    assert!(!table.rows.is_empty());
    assert_eq!(table.columns, vec!["account", "sum"]);
}

#[test]
fn test_insert_values() {
    let mut store = TableStore::new();
    created(&mut store, "accounts", &["name", "balance"]);
    let rows = vec![vec![lit_str("Checking"), lit_num(100)], vec![lit_str("Savings"), lit_num(500)]];
    let result = store.execute_insert("accounts", None, InsertSource::Values(rows)).expect("should execute");
    assert!(result_text(&result).contains("Inserted 2 row(s)"));
    let table = store.get_table("accounts").unwrap();
    assert_eq!(table.rows.len(), 2);
    assert_eq!(table.rows[0][0], Value::String("Checking".to_string()));
    assert_eq!(table.rows[0][1], Value::Number(Dec { mantissa: 100, scale: 0 }));
    assert_eq!(table.rows[1][0], Value::String("Savings".to_string()));
    assert_eq!(table.rows[1][1], Value::Number(Dec { mantissa: 500, scale: 0 }));
}

#[test]
fn test_insert_select() {
    let mut store = TableStore::new();
    created(&mut store, "expenses", &["account"]);
    let mut selected = QueryResult::new(names(&["account"]));
    selected.add_row(vec![text("Expenses:Food")]);
    selected.add_row(vec![text("Expenses:Transport")]);
    let result = store.execute_insert("expenses", None, InsertSource::Select(Ok(selected))).expect("should execute");
    assert!(result_text(&result).contains("Inserted"));
    let table = store.get_table("EXPENSES").unwrap();
    assert!(!table.rows.is_empty());
    for row in &table.rows {
        if let Value::String(acct) = &row[0] {
            assert!(acct.starts_with("Expenses:"));
        }
    }
}

#[test]
fn test_create_table_duplicate_error() {
    let mut store = TableStore::new();
    store.execute_create_table("mytable", names(&["col1"]), None).expect("should execute first time");
    let result = store.execute_create_table("mytable", names(&["col1"]), None);
    assert!(result.is_err());
    if let Err(e) = result {
        assert!(describe(&e).contains("already exists"));
    }
}

#[test]
fn test_insert_table_not_exists_error() {
    let mut store = TableStore::new();
    let result = store.execute_insert("nonexistent", None, InsertSource::Values(vec![vec![lit_num(1)]]));
    assert!(result.is_err());
    if let Err(e) = result {
        assert!(describe(&e).contains("does not exist"));
    }
}

#[test]
fn test_insert_with_reordered_columns() {
    let mut store = TableStore::new();
    created(&mut store, "test_reorder", &["col1", "col2"]);
    store
        .execute_insert("test_reorder", Some(names(&["col2", "col1"])), InsertSource::Values(vec![vec![lit_str("second"), lit_str("first")]]))
        .expect("should execute");
    let table = store.get_table("test_reorder").unwrap();
    assert_eq!(table.rows.len(), 1);
    assert_eq!(table.rows[0][0], Value::String("first".to_string()));
    assert_eq!(table.rows[0][1], Value::String("second".to_string()));
}

#[test]
fn test_insert_with_column_subset() {
    let mut store = TableStore::new();
    created(&mut store, "test_subset", &["a", "b", "c"]);
    store
        .execute_insert("test_subset", Some(names(&["b"])), InsertSource::Values(vec![vec![lit_str("middle")]]))
        .expect("should execute");
    let table = store.get_table("test_subset").unwrap();
    assert_eq!(table.rows.len(), 1);
    assert_eq!(table.rows[0][0], Value::Null);
    assert_eq!(table.rows[0][1], Value::String("middle".to_string()));
    assert_eq!(table.rows[0][2], Value::Null);
}

#[test]
fn test_insert_invalid_column_error() {
    let mut store = TableStore::new();
    created(&mut store, "test_invalid", &["col1", "col2"]);
    let result = store.execute_insert(
        "test_invalid",
        Some(names(&["nonexistent"])),
        InsertSource::Values(vec![vec![lit_str("value")]]),
    );
    assert!(result.is_err());
    if let Err(e) = result {
        assert!(describe(&e).contains("does not exist"));
    }
}

#[test]
fn test_insert_multiple_rows_with_columns() {
    let mut store = TableStore::new();
    created(&mut store, "multi_insert", &["col1", "col2"]);
    let rows = vec![
        vec![lit_str("a"), lit_str("b")],
        vec![lit_str("c"), lit_str("d")],
        vec![lit_str("e"), lit_str("f")],
    ];
    store.execute_insert("multi_insert", Some(names(&["col2", "col1"])), InsertSource::Values(rows)).expect("should execute");
    let table = store.get_table("multi_insert").unwrap();
    let mut result = QueryResult::new(table.columns.clone());
    for row in &table.rows {
        result.add_row(row.clone());
    }
    sort_results(&mut result, &[SortKey { target: SortTarget::Column("col1".to_string()), descending: false }]).unwrap();
    assert_eq!(result.len(), 3);
    assert_eq!(result.rows[0][0], Value::String("b".to_string()));
    assert_eq!(result.rows[0][1], Value::String("a".to_string()));
    assert_eq!(result.rows[1][0], Value::String("d".to_string()));
    assert_eq!(result.rows[1][1], Value::String("c".to_string()));
    assert_eq!(result.rows[2][0], Value::String("f".to_string()));
    assert_eq!(result.rows[2][1], Value::String("e".to_string()));
}

#[test]
fn test_insert_column_case_insensitive() {
    let mut store = TableStore::new();
    created(&mut store, "case_test", &["name", "value"]);
    store
        .execute_insert("case_test", Some(names(&["NAME", "VALUE"])), InsertSource::Values(vec![vec![lit_str("test"), lit_num(123)]]))
        .expect("should execute");
    let table = store.get_table("case_test").unwrap();
    assert_eq!(table.rows.len(), 1);
    assert_eq!(table.rows[0][0], Value::String("test".to_string()));
}

#[test]
fn test_insert_natural_column_order() {
    let mut store = TableStore::new();
    created(&mut store, "natural_order", &["a", "b", "c"]);
    store
        .execute_insert(
            "natural_order",
            Some(names(&["a", "b", "c"])),
            InsertSource::Values(vec![vec![lit_str("x"), lit_str("y"), lit_str("z")]]),
        )
        .expect("should execute");
    let table = store.get_table("natural_order").unwrap();
    assert_eq!(table.rows.len(), 1);
    assert_eq!(table.rows[0][0], Value::String("x".to_string()));
    assert_eq!(table.rows[0][1], Value::String("y".to_string()));
    assert_eq!(table.rows[0][2], Value::String("z".to_string()));
}

#[test]
fn insert_counts_are_checked_before_anything_is_added() {
    let mut store = TableStore::new();
    created(&mut store, "t", &["a", "b"]);
    let err = store.execute_insert("t", None, InsertSource::Values(vec![vec![lit_num(1), lit_num(2)], vec![lit_num(3)]]));
    assert_eq!(err, Err(QueryError::Evaluation("table has 2 columns but VALUES has 1 values".to_string())));
    let err = store.execute_insert("t", Some(names(&["a"])), InsertSource::Values(vec![vec![lit_num(1), lit_num(2)]]));
    assert_eq!(err, Err(QueryError::Evaluation("INSERT has 1 columns but VALUES has 2 values".to_string())));
    let one_column = QueryResult::new(names(&["x"]));
    let err = store.execute_insert("t", None, InsertSource::Select(Ok(one_column)));
    assert_eq!(err, Err(QueryError::Evaluation("table has 2 columns but SELECT returns 1 columns".to_string())));
    let err = store.execute_insert("t", None, InsertSource::Select(Err(QueryError::UnknownColumn("zz".to_string()))));
    assert_eq!(err, Err(QueryError::UnknownColumn("zz".to_string())));
    assert!(store.get_table("t").unwrap().rows.is_empty());
}

#[test]
fn insert_values_evaluate_literal_expressions() {
    let neg = LiteralExpr::Unary(UnaryOperator::Neg, Box::new(lit_num(5)));
    assert_eq!(evaluate_literal_expr(&neg), Ok(Value::Number(Dec { mantissa: -5, scale: 0 })));
    let not = LiteralExpr::Paren(Box::new(LiteralExpr::Unary(
        UnaryOperator::Not,
        Box::new(LiteralExpr::Literal(Literal::Boolean(false))),
    )));
    assert_eq!(evaluate_literal_expr(&not), Ok(Value::Boolean(true)));
    let date_text = LiteralExpr::Function(
        "date".to_string(),
        Box::new(LiteralArgs::Arg(Box::new(lit_str("2024-02-29")), Box::new(LiteralArgs::End))),
    );
    assert_eq!(evaluate_literal_expr(&date_text), Ok(Value::Date(Date { year: 2024, month: 2, day: 29 })));
    let int = |i: i64| Box::new(LiteralExpr::Literal(Literal::Integer(i)));
    let date_parts = LiteralExpr::Function(
        "DATE".to_string(),
        Box::new(LiteralArgs::Arg(
            int(2023),
            Box::new(LiteralArgs::Arg(int(2), Box::new(LiteralArgs::Arg(int(29), Box::new(LiteralArgs::End))))),
        )),
    );
    assert_eq!(evaluate_literal_expr(&date_parts), Err(QueryError::Type("invalid date components".to_string())));
    let upper = LiteralExpr::Function("upper".to_string(), Box::new(LiteralArgs::End));
    assert_eq!(
        evaluate_literal_expr(&upper),
        Err(QueryError::Evaluation("function 'upper' not supported in INSERT VALUES".to_string()))
    );
    assert_eq!(
        evaluate_literal_expr(&LiteralExpr::Other),
        Err(QueryError::Evaluation("only literal values are allowed in INSERT VALUES".to_string()))
    );
    let not_number = LiteralExpr::Unary(UnaryOperator::Neg, Box::new(lit_str("x")));
    assert_eq!(evaluate_literal_expr(&not_number), Err(QueryError::Type("cannot negate non-numeric value".to_string())));
}
