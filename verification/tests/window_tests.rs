use rustledger::columns::WindowContext;
use rustledger::date::Date;
use rustledger::dec::Dec;
use rustledger::value::{QueryError, Value};
use rustledger::grouping::{group_by_keys, group_postings};
use rustledger::windows::{compute_window_contexts, evaluate_window_function};

fn date(year: i32, month: u32, day: u32) -> Value {
    Value::Date(Date { year, month, day })
}

fn text(t: &str) -> Value {
    Value::String(t.to_string())
}

fn keys(ks: &[&str]) -> Vec<String> {
    ks.iter().map(|k| k.to_string()).collect()
}

fn triple(c: &WindowContext) -> (usize, usize, usize) {
    (c.row_number, c.rank, c.dense_rank)
}

#[test]
fn window_row_numbers_follow_the_order_by_values() {
    let rows = vec![vec![date(2024, 1, 3)], vec![date(2024, 1, 1)], vec![date(2024, 1, 2)]];
    let ctx = compute_window_contexts(&keys(&["", "", ""]), &rows, &vec![false]);
    let numbers: Vec<usize> = ctx.iter().map(|c| c.row_number).collect();
    assert_eq!(numbers, vec![3, 1, 2]);
}

#[test]
fn window_descending_reverses_the_order() {
    let rows = vec![vec![date(2024, 1, 3)], vec![date(2024, 1, 1)], vec![date(2024, 1, 2)]];
    let ctx = compute_window_contexts(&keys(&["", "", ""]), &rows, &vec![true]);
    let numbers: Vec<usize> = ctx.iter().map(|c| c.row_number).collect();
    assert_eq!(numbers, vec![1, 3, 2]);
}

#[test]
fn window_ties_share_rank_and_dense_rank_has_no_gaps() {
    let rows = vec![
        vec![text("Expenses:Food")],
        vec![text("Expenses:Transport")],
        vec![text("Expenses:Food")],
        vec![text("Assets:Bank")],
    ];
    let ctx = compute_window_contexts(&keys(&["", "", "", ""]), &rows, &vec![false]);
    let got: Vec<(usize, usize, usize)> = ctx.iter().map(triple).collect();
    assert_eq!(got, vec![(2, 2, 2), (4, 4, 3), (3, 2, 2), (1, 1, 1)]);
}

#[test]
fn window_partitions_number_their_rows_separately() {
    let rows = vec![
        vec![date(2024, 2, 1)],
        vec![date(2024, 1, 1)],
        vec![date(2024, 3, 1)],
        vec![date(2024, 1, 5)],
    ];
    let ctx = compute_window_contexts(&keys(&["Food", "Bank", "Food", "Food"]), &rows, &vec![false]);
    let got: Vec<(usize, usize, usize)> = ctx.iter().map(triple).collect();
    assert_eq!(got, vec![(2, 2, 2), (1, 1, 1), (3, 3, 3), (1, 1, 1)]);
}

#[test]
fn window_without_order_keeps_row_order_and_ties_everything() {
    let rows: Vec<Vec<Value>> = vec![vec![], vec![], vec![]];
    let ctx = compute_window_contexts(&keys(&["", "", ""]), &rows, &vec![]);
    let got: Vec<(usize, usize, usize)> = ctx.iter().map(triple).collect();
    assert_eq!(got, vec![(1, 1, 1), (2, 1, 1), (3, 1, 1)]);
}

#[test]
fn window_numbers_compare_by_value() {
    let rows = vec![
        vec![Value::Number(Dec { mantissa: 10, scale: 1 })],
        vec![Value::Number(Dec { mantissa: 1, scale: 0 })],
        vec![Value::Number(Dec { mantissa: 5, scale: 0 })],
    ];
    let ctx = compute_window_contexts(&keys(&["", "", ""]), &rows, &vec![false]);
    let got: Vec<(usize, usize, usize)> = ctx.iter().map(triple).collect();
    assert_eq!(got, vec![(1, 1, 1), (2, 1, 1), (3, 3, 2)]);
}

#[test]
fn window_function_reads_the_context() {
    let c = WindowContext { row_number: 4, rank: 3, dense_rank: 2 };
    assert_eq!(evaluate_window_function("row_number", Some(&c)), Ok(Value::Integer(4)));
    assert_eq!(evaluate_window_function("RANK", Some(&c)), Ok(Value::Integer(3)));
    assert_eq!(evaluate_window_function("Dense_Rank", Some(&c)), Ok(Value::Integer(2)));
}

#[test]
fn window_function_errors() {
    let c = WindowContext { row_number: 1, rank: 1, dense_rank: 1 };
    assert_eq!(
        evaluate_window_function("ntile", Some(&c)),
        Err(QueryError::Evaluation("Window function 'ntile' not yet implemented".to_string()))
    );
    assert_eq!(
        evaluate_window_function("ROW_NUMBER", None),
        Err(QueryError::Evaluation("Window function requires window context".to_string()))
    );
}

#[test]
fn group_by_keys_groups_in_order_of_first_row() {
    let kv = vec![
        vec![text("Expenses"), Value::Integer(2024)],
        vec![text("Assets"), Value::Integer(2024)],
        vec![text("Expenses"), Value::Integer(2024)],
        vec![text("Expenses"), Value::Integer(2023)],
        vec![text("Assets"), Value::Integer(2024)],
    ];
    let groups = group_by_keys(kv);
    let got: Vec<(Vec<Value>, Vec<usize>)> = groups;
    assert_eq!(
        got,
        vec![
            (vec![text("Expenses"), Value::Integer(2024)], vec![0, 2]),
            (vec![text("Assets"), Value::Integer(2024)], vec![1, 4]),
            (vec![text("Expenses"), Value::Integer(2023)], vec![3]),
        ]
    );
}

#[test]
fn group_postings_without_group_by() {
    assert!(group_postings(None, 0).is_empty());
    let groups = group_postings(None, 3);
    assert_eq!(groups, vec![(vec![], vec![0, 1, 2])]);
    let groups = group_postings(Some(vec![vec![Value::Null], vec![Value::Null]]), 2);
    assert_eq!(groups, vec![(vec![Value::Null], vec![0, 1])]);
}
