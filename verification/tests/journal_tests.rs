use rustledger::date::Date;
use rustledger::dec::Dec;
use rustledger::journal::{execute_journal, try_execute_journal};
use rustledger::ledger::{Amount, Cost, CostSpec, Directive, IncompleteAmount, Open, Position, Posting, Transaction};
use rustledger::value::{QueryError, Value};

fn date(year: i32, month: u32, day: u32) -> Date {
    Date { year, month, day }
}

fn amount(n: i128, scale: u32, cur: &str) -> Amount {
    Amount { number: Dec { mantissa: n, scale }, currency: cur.to_string() }
}

fn posting(account: &str, units: Amount) -> Posting {
    Posting {
        account: account.to_string(),
        units: Some(IncompleteAmount::Complete(units)),
        cost: None,
        price: None,
        flag: None,
        meta: vec![],
    }
}

fn txn(d: Date, payee: Option<&str>, narration: &str, postings: Vec<Posting>) -> Transaction {
    Transaction {
        date: d,
        flag: '*',
        payee: payee.map(|p| p.to_string()),
        narration: narration.to_string(),
        tags: vec![],
        links: vec![],
        meta: vec![],
        postings,
    }
}

fn sample_directives() -> Vec<Directive> {
    vec![
        Directive::Transaction(txn(
            date(2024, 1, 15),
            Some("Coffee Shop"),
            "Coffee",
            vec![posting("Expenses:Food:Coffee", amount(500, 2, "USD")), posting("Assets:Bank:Checking", amount(-500, 2, "USD"))],
        )),
        Directive::Transaction(txn(
            date(2024, 1, 16),
            Some("Supermarket"),
            "Groceries",
            vec![
                posting("Expenses:Food:Groceries", amount(5000, 2, "USD")),
                posting("Assets:Bank:Checking", amount(-5000, 2, "USD")),
            ],
        )),
    ]
}

/// Every transaction kept, every posting without a resolved cost.
fn plain_inputs(ds: &[Directive]) -> (Vec<Result<bool, QueryError>>, Vec<Vec<Option<Cost>>>) {
    let kept = ds.iter().map(|_| Ok(true)).collect();
    let costs = ds
        .iter()
        .map(|d| match d {
            Directive::Transaction(t) => t.postings.iter().map(|_| None).collect(),
            _ => vec![],
        })
        .collect();
    (kept, costs)
}

#[test]
fn test_journal_query() {
    let directives = sample_directives();
    let (kept, costs) = plain_inputs(&directives);
    let mut balances = Vec::new();
    let result = execute_journal(&directives, "Expenses", &None, &kept, &costs, &mut balances).unwrap();
    assert!(result.columns.contains(&"account".to_string()));
    assert_eq!(result.len(), 2);
}

#[test]
fn test_execute_journal_query() {
    let directives = vec![
        Directive::Open(Open { date: date(2024, 1, 1), account: "Assets:Bank:Checking".to_string(), currencies: vec![], meta: vec![] }),
        Directive::Transaction(txn(
            date(2024, 1, 15),
            Some("Employer"),
            "Monthly salary",
            vec![posting("Income:Salary", amount(-5000, 0, "USD")), posting("Assets:Bank:Checking", amount(5000, 0, "USD"))],
        )),
    ];
    let (kept, costs) = plain_inputs(&directives);
    let mut balances = Vec::new();
    let result = execute_journal(&directives, "Assets:Bank:Checking", &None, &kept, &costs, &mut balances)
        .expect("should execute");
    assert!(!result.is_empty());
}

#[test]
fn journal_rows_carry_the_running_balance() {
    let directives = sample_directives();
    let (kept, costs) = plain_inputs(&directives);
    let mut balances = Vec::new();
    let result = execute_journal(&directives, "Checking", &None, &kept, &costs, &mut balances).unwrap();
    assert_eq!(
        result.columns,
        vec!["date", "flag", "payee", "narration", "account", "position", "balance"]
    );
    assert_eq!(result.rows.len(), 2);
    assert_eq!(
        result.rows[0],
        vec![
            Value::Date(date(2024, 1, 15)),
            Value::String("*".to_string()),
            Value::String("Coffee Shop".to_string()),
            Value::String("Coffee".to_string()),
            Value::String("Assets:Bank:Checking".to_string()),
            Value::Amount(amount(-500, 2, "USD")),
            Value::Inventory(vec![Position { units: amount(-500, 2, "USD"), cost: None }]),
        ]
    );
    assert_eq!(result.rows[1][6], Value::Inventory(vec![Position { units: amount(-5500, 2, "USD"), cost: None }]));
    assert_eq!(balances.len(), 1);
    assert_eq!(balances[0].0, "Assets:Bank:Checking");
}

#[test]
fn journal_pattern_that_is_no_regex_matches_as_text() {
    let directives = vec![Directive::Transaction(txn(
        date(2024, 2, 1),
        None,
        "Odd account",
        vec![posting("Assets:Cash(old)", amount(1, 0, "USD")), posting("Equity:Opening", amount(-1, 0, "USD"))],
    ))];
    let (kept, costs) = plain_inputs(&directives);
    let mut balances = Vec::new();
    let result = execute_journal(&directives, "Cash(", &None, &kept, &costs, &mut balances).unwrap();
    assert_eq!(result.rows.len(), 1);
    assert_eq!(result.rows[0][2], Value::String(String::new()));
    assert_eq!(result.rows[0][4], Value::String("Assets:Cash(old)".to_string()));
}

#[test]
fn journal_at_cost_and_filter_outcomes() {
    let mut buy = posting("Assets:Brokerage", amount(10, 0, "AAPL"));
    buy.cost = Some(CostSpec {
        number_per: Some(Dec { mantissa: 100, scale: 0 }),
        number_total: None,
        currency: Some("USD".to_string()),
        date: None,
        label: None,
    });
    let directives = vec![
        Directive::Transaction(txn(date(2024, 3, 1), None, "Buy", vec![buy, posting("Assets:Cash", amount(-1000, 0, "USD"))])),
        Directive::Transaction(txn(date(2024, 3, 2), None, "Skipped", vec![posting("Assets:Brokerage", amount(1, 0, "AAPL"))])),
    ];
    let held = Cost { number: Dec { mantissa: 100, scale: 0 }, currency: "USD".to_string(), date: Some(date(2024, 3, 1)), label: None };
    let costs = vec![vec![Some(held.clone()), None], vec![None]];
    let kept = vec![Ok(true), Ok(false)];
    let mut balances = Vec::new();
    let at = Some("cost".to_string());
    let result = execute_journal(&directives, "Brokerage", &at, &kept, &costs, &mut balances).unwrap();
    assert_eq!(result.rows.len(), 1);
    assert_eq!(result.rows[0][5], Value::Amount(amount(1000, 0, "USD")));
    assert_eq!(result.rows[0][6], Value::Inventory(vec![Position { units: amount(10, 0, "AAPL"), cost: Some(held) }]));

    let failing = vec![Ok(true), Err(QueryError::Type("bad filter".to_string()))];
    let mut balances = Vec::new();
    assert_eq!(
        execute_journal(&directives, "Brokerage", &None, &failing, &costs, &mut balances),
        Err(QueryError::Type("bad filter".to_string()))
    );
    assert_eq!(balances.len(), 1);
}

#[test]
fn try_journal_reports_an_overflowing_balance() {
    let big = Amount { number: Dec { mantissa: 79228162514264337593543950335, scale: 0 }, currency: "USD".to_string() };
    let directives = vec![
        Directive::Transaction(txn(date(2024, 1, 1), None, "a", vec![posting("Assets:Big", big.clone())])),
        Directive::Transaction(txn(date(2024, 1, 2), None, "b", vec![posting("Assets:Big", big)])),
    ];
    let (kept, costs) = plain_inputs(&directives);
    let mut balances = Vec::new();
    assert!(try_execute_journal(&directives, "Big", &None, &kept, &costs, &mut balances).is_none());
    assert!(balances.is_empty());
    let fine = sample_directives();
    let (kept, costs) = plain_inputs(&fine);
    let r = try_execute_journal(&fine, "Expenses", &None, &kept, &costs, &mut balances).unwrap().unwrap();
    assert_eq!(r.rows.len(), 2);
    assert_eq!(balances.len(), 2);
}
