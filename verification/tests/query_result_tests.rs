use rustledger::accounts::{build_account_info, eval_account_date};
use rustledger::columns::QueryResult;
use rustledger::date::Date;
use rustledger::dec::Dec;
use rustledger::ledger::{
    Amount, Balance, Close, Commodity, Custom, Directive, Document, Event, IncompleteAmount, Note, Open, Pad, Posting,
    Price, Query, Transaction,
};
use rustledger::order::{find_pivot_column, sort_results, PivotTarget, SortKey, SortTarget};
use rustledger::print::{execute_print, format_directive};
use rustledger::value::{QueryError, Value};

fn date(year: i32, month: u32, day: u32) -> Date {
    Date { year, month, day }
}

fn amount(n: i128, scale: u32, cur: &str) -> Amount {
    Amount { number: Dec { mantissa: n, scale }, currency: cur.to_string() }
}

fn posting(account: &str, a: Amount) -> Posting {
    Posting {
        account: account.to_string(),
        units: Some(IncompleteAmount::Complete(a)),
        cost: None,
        price: None,
        flag: None,
        meta: vec![],
    }
}

fn txn(d: Date, payee: &str, narration: &str, postings: Vec<Posting>) -> Transaction {
    Transaction {
        date: d,
        flag: '*',
        payee: Some(payee.to_string()),
        narration: narration.to_string(),
        tags: vec![],
        links: vec![],
        meta: vec![],
        postings,
    }
}

fn sample_directives() -> Vec<Directive> {
    vec![
        Directive::Transaction(txn(
            date(2024, 1, 15),
            "Coffee Shop",
            "Coffee",
            vec![
                posting("Expenses:Food:Coffee", amount(500, 2, "USD")),
                posting("Assets:Bank:Checking", amount(-500, 2, "USD")),
            ],
        )),
        Directive::Transaction(txn(
            date(2024, 1, 16),
            "Supermarket",
            "Groceries",
            vec![
                posting("Expenses:Food:Groceries", amount(5000, 2, "USD")),
                posting("Assets:Bank:Checking", amount(-5000, 2, "USD")),
            ],
        )),
    ]
}

fn text(t: &str) -> Value {
    Value::String(t.to_string())
}

fn result_of(columns: &[&str], rows: Vec<Vec<Value>>) -> QueryResult {
    let mut r = QueryResult::new(columns.iter().map(|c| c.to_string()).collect());
    for row in rows {
        r.add_row(row);
    }
    r
}

#[test]
fn test_print_query() {
    let directives = sample_directives();
    let result = execute_print(&directives, None);
    assert_eq!(result.columns.len(), 1);
    assert_eq!(result.columns[0], "directive");
    assert_eq!(result.len(), 2);
}

#[test]
fn print_writes_a_transaction_in_beancount_form() {
    let directives = sample_directives();
    let result = execute_print(&directives, None);
    assert_eq!(
        result.rows[0][0],
        text("2024-01-15 * \"Coffee Shop\" \"Coffee\"\n  Expenses:Food:Coffee  5.00 USD\n  Assets:Bank:Checking  -5.00 USD\n")
    );
}

#[test]
fn print_filter_drops_transactions_only() {
    let mut directives = sample_directives();
    directives.push(Directive::Close(Close { date: date(2024, 2, 1), account: "Assets:Bank:Checking".to_string() }));
    let passes = vec![false, true, false];
    let result = execute_print(&directives, Some(&passes));
    assert_eq!(result.len(), 2);
    assert_eq!(result.rows[1][0], text("2024-02-01 close Assets:Bank:Checking\n"));
}

#[test]
fn print_writes_tags_links_and_incomplete_postings() {
    let t = Transaction {
        date: date(2024, 3, 1),
        flag: '!',
        payee: None,
        narration: "Trip".to_string(),
        tags: vec!["travel".to_string(), "work".to_string()],
        links: vec!["inv-1".to_string()],
        meta: vec![],
        postings: vec![
            posting("Expenses:Travel", amount(12, 0, "EUR")),
            Posting { account: "Assets:Cash".to_string(), units: None, cost: None, price: None, flag: None, meta: vec![] },
        ],
    };
    assert_eq!(
        format_directive(&Directive::Transaction(t)),
        "2024-03-01 ! \"Trip\" #travel #work ^inv-1\n  Expenses:Travel  12 EUR\n  Assets:Cash\n"
    );
}

#[test]
fn print_writes_every_other_directive() {
    let d = date(2024, 1, 1);
    let cases: Vec<(Directive, &str)> = vec![
        (
            Directive::Balance(Balance { date: d, account: "Assets:Bank".to_string(), amount: amount(10050, 2, "USD"), tolerance: None }),
            "2024-01-01 balance Assets:Bank 100.50 USD\n",
        ),
        (
            Directive::Open(Open { date: d, account: "Assets:Bank".to_string(), currencies: vec!["USD".to_string(), "EUR".to_string()], meta: vec![] }),
            "2024-01-01 open Assets:Bank USD,EUR\n",
        ),
        (Directive::Open(Open { date: d, account: "Assets:Bank".to_string(), currencies: vec![], meta: vec![] }), "2024-01-01 open Assets:Bank\n"),
        (Directive::Commodity(Commodity { date: d, currency: "USD".to_string() }), "2024-01-01 commodity USD\n"),
        (
            Directive::Pad(Pad { date: d, account: "Assets:Bank".to_string(), source_account: "Equity:Opening".to_string() }),
            "2024-01-01 pad Assets:Bank Equity:Opening\n",
        ),
        (
            Directive::Event(Event { date: d, event_type: "location".to_string(), value: "Paris".to_string() }),
            "2024-01-01 event \"location\" \"Paris\"\n",
        ),
        (
            Directive::Query(Query { date: d, name: "cash".to_string(), query: "SELECT 1".to_string() }),
            "2024-01-01 query \"cash\" \"SELECT 1\"\n",
        ),
        (
            Directive::Note(Note { date: d, account: "Assets:Bank".to_string(), comment: "called".to_string() }),
            "2024-01-01 note Assets:Bank \"called\"\n",
        ),
        (
            Directive::Document(Document { date: d, account: "Assets:Bank".to_string(), path: "/tmp/a.pdf".to_string() }),
            "2024-01-01 document Assets:Bank \"/tmp/a.pdf\"\n",
        ),
        (
            Directive::Price(Price { date: d, currency: "AAPL".to_string(), amount: amount(18525, 2, "USD") }),
            "2024-01-01 price AAPL 185.25 USD\n",
        ),
        (Directive::Custom(Custom { date: d, custom_type: "budget".to_string() }), "2024-01-01 custom \"budget\"\n"),
    ];
    for (directive, expected) in cases {
        assert_eq!(format_directive(&directive), expected);
    }
}

fn posting_rows() -> QueryResult {
    result_of(
        &["date", "account"],
        vec![
            vec![Value::Date(date(2024, 1, 15)), text("Expenses:Food:Coffee")],
            vec![Value::Date(date(2024, 1, 15)), text("Assets:Bank:Checking")],
            vec![Value::Date(date(2024, 1, 16)), text("Expenses:Food:Groceries")],
            vec![Value::Date(date(2024, 1, 16)), text("Assets:Bank:Checking")],
        ],
    )
}

#[test]
fn test_order_by() {
    let mut result = posting_rows();
    let keys = vec![SortKey { target: SortTarget::Column("date".to_string()), descending: true }];
    sort_results(&mut result, &keys).unwrap();
    assert_eq!(result.len(), 4);
    assert_eq!(result.rows[0][0], Value::Date(date(2024, 1, 16)));
}

#[test]
fn order_by_is_stable_and_uses_later_keys_for_ties() {
    let mut result = posting_rows();
    sort_results(&mut result, &[SortKey { target: SortTarget::Column("date".to_string()), descending: true }]).unwrap();
    let accounts: Vec<Value> = result.rows.iter().map(|r| r[1].clone()).collect();
    assert_eq!(
        accounts,
        vec![text("Expenses:Food:Groceries"), text("Assets:Bank:Checking"), text("Expenses:Food:Coffee"), text("Assets:Bank:Checking")]
    );
    let mut result = posting_rows();
    let keys = vec![
        SortKey { target: SortTarget::Column("account".to_string()), descending: false },
        SortKey { target: SortTarget::Column("date".to_string()), descending: true },
    ];
    sort_results(&mut result, &keys).unwrap();
    let got: Vec<(Value, Value)> = result.rows.iter().map(|r| (r[0].clone(), r[1].clone())).collect();
    assert_eq!(
        got,
        vec![
            (Value::Date(date(2024, 1, 16)), text("Assets:Bank:Checking")),
            (Value::Date(date(2024, 1, 15)), text("Assets:Bank:Checking")),
            (Value::Date(date(2024, 1, 15)), text("Expenses:Food:Coffee")),
            (Value::Date(date(2024, 1, 16)), text("Expenses:Food:Groceries")),
        ]
    );
}

#[test]
fn order_by_nulls_sort_last() {
    let mut result = result_of(&["n"], vec![vec![Value::Null], vec![Value::Integer(2)], vec![Value::Integer(1)]]);
    sort_results(&mut result, &[SortKey { target: SortTarget::Function("n".to_string()), descending: false }]).unwrap();
    assert_eq!(result.rows, vec![vec![Value::Integer(1)], vec![Value::Integer(2)], vec![Value::Null]]);
}

#[test]
fn order_by_errors_leave_rows() {
    let mut result = posting_rows();
    let before = result.clone();
    let err = sort_results(&mut result, &[SortKey { target: SortTarget::Column("payee".to_string()), descending: false }]);
    assert_eq!(err, Err(QueryError::UnknownColumn("payee".to_string())));
    assert_eq!(result, before);
    let err = sort_results(&mut result, &[SortKey { target: SortTarget::Function("SUM".to_string()), descending: false }]);
    assert_eq!(err, Err(QueryError::Evaluation("ORDER BY expression not found in SELECT: SUM".to_string())));
    let err = sort_results(&mut result, &[SortKey { target: SortTarget::Other, descending: false }]);
    assert_eq!(err, Err(QueryError::Evaluation("ORDER BY expression must reference a selected column".to_string())));
    assert_eq!(result, before);
}

#[test]
fn pivot_column_by_name_or_number() {
    let result = result_of(&["account", "year", "sum"], vec![]);
    assert_eq!(find_pivot_column(&result, &PivotTarget::Column("YEAR".to_string())), Ok(1));
    assert_eq!(find_pivot_column(&result, &PivotTarget::Integer(3)), Ok(2));
    assert_eq!(find_pivot_column(&result, &PivotTarget::Integer(0)), Ok(0));
    assert_eq!(find_pivot_column(&result, &PivotTarget::Number(Dec { mantissa: 25, scale: 1 })), Ok(1));
    assert_eq!(
        find_pivot_column(&result, &PivotTarget::Integer(4)),
        Err(QueryError::Evaluation("PIVOT BY column index 4 out of range".to_string()))
    );
    assert_eq!(
        find_pivot_column(&result, &PivotTarget::Number(Dec { mantissa: 70, scale: 1 })),
        Err(QueryError::Evaluation("PIVOT BY column index 7.0 out of range".to_string()))
    );
    assert_eq!(
        find_pivot_column(&result, &PivotTarget::Column("month".to_string())),
        Err(QueryError::Evaluation("PIVOT BY column 'month' not found in SELECT".to_string()))
    );
    assert_eq!(
        find_pivot_column(&result, &PivotTarget::Other),
        Err(QueryError::Evaluation("PIVOT BY must reference a column name or index".to_string()))
    );
}

#[test]
fn account_dates_come_from_open_and_close() {
    let directives = vec![
        Directive::Open(Open { date: date(2020, 1, 1), account: "Assets:Bank".to_string(), currencies: vec![], meta: vec![] }),
        Directive::Close(Close { date: date(2023, 6, 30), account: "Assets:Bank".to_string() }),
        Directive::Close(Close { date: date(2022, 1, 1), account: "Assets:Old".to_string() }),
        Directive::Open(Open { date: date(2021, 5, 5), account: "Assets:Bank".to_string(), currencies: vec![], meta: vec![] }),
    ];
    let info = build_account_info(&directives);
    assert_eq!(eval_account_date(true, &[text("Assets:Bank")], &info), Ok(Value::Date(date(2021, 5, 5))));
    assert_eq!(eval_account_date(false, &[text("Assets:Bank")], &info), Ok(Value::Date(date(2023, 6, 30))));
    assert_eq!(eval_account_date(true, &[text("Assets:Old")], &info), Ok(Value::Null));
    assert_eq!(eval_account_date(false, &[text("Assets:Unknown")], &info), Ok(Value::Null));
    assert_eq!(
        eval_account_date(true, &[Value::Integer(1)], &info),
        Err(QueryError::Type("OPEN_DATE expects an account string".to_string()))
    );
    assert_eq!(
        eval_account_date(false, &[], &info),
        Err(QueryError::InvalidArguments("CLOSE_DATE".to_string(), "expected 1 argument(s)".to_string()))
    );
}
