use rustledger::accounts::{build_account_info, eval_account_date, eval_open_meta};
use rustledger::calls::try_evaluate_ledger_function;
use rustledger::columns::PostingContext;
use rustledger::date::Date;
use rustledger::dec::Dec;
use rustledger::ledger::{Amount, Close, Directive, IncompleteAmount, MetaValue, Open, Posting, Transaction};
use rustledger::meta::eval_meta_function;
use rustledger::value::{QueryError, Value};

fn date(year: i32, month: u32, day: u32) -> Date {
    Date { year, month, day }
}

fn amount(n: i128, cur: &str) -> Amount {
    Amount { number: Dec { mantissa: n, scale: 0 }, currency: cur.to_string() }
}

fn posting(account: &str, a: Amount, meta: Vec<(String, MetaValue)>) -> Posting {
    Posting { account: account.to_string(), units: Some(IncompleteAmount::Complete(a)), cost: None, price: None, flag: None, meta }
}

fn text(t: &str) -> Value {
    Value::String(t.to_string())
}

fn coffee_with_meta() -> Transaction {
    Transaction {
        date: date(2024, 1, 15),
        flag: '*',
        payee: Some("Coffee Shop".into()),
        narration: "Coffee".into(),
        tags: vec![],
        links: vec![],
        meta: vec![("source".to_string(), MetaValue::String("bank_import".to_string()))],
        postings: vec![
            posting("Expenses:Food", amount(5, "USD"), vec![("category".to_string(), MetaValue::String("food".to_string()))]),
            posting("Assets:Cash", amount(-5, "USD"), vec![]),
        ],
    }
}

fn ctx(t: &Transaction, i: usize) -> PostingContext<'_> {
    PostingContext { transaction: t, posting_index: i, balance: None, directive_index: None }
}

#[test]
fn test_meta_functions() {
    let txn = coffee_with_meta();
    let c = ctx(&txn, 0);
    assert_eq!(eval_meta_function("META", &[text("category")], &c), Ok(Value::String("food".to_string())));
    assert_eq!(eval_meta_function("ENTRY_META", &[text("source")], &c), Ok(Value::String("bank_import".to_string())));
    assert_eq!(eval_meta_function("ANY_META", &[text("source")], &c), Ok(Value::String("bank_import".to_string())));
    assert_eq!(eval_meta_function("ANY_META", &[text("category")], &c), Ok(Value::String("food".to_string())));
    assert_eq!(eval_meta_function("META", &[text("nonexistent")], &c), Ok(Value::Null));
}

#[test]
fn meta_function_errors_and_kinds() {
    let mut txn = coffee_with_meta();
    txn.postings[1].meta = vec![
        ("n".to_string(), MetaValue::Number(Dec { mantissa: 25, scale: 1 })),
        ("when".to_string(), MetaValue::Date(date(2024, 2, 1))),
        ("ok".to_string(), MetaValue::Bool(true)),
        ("cur".to_string(), MetaValue::Currency("EUR".to_string())),
        ("amt".to_string(), MetaValue::Amount(amount(3, "USD"))),
        ("acct".to_string(), MetaValue::Account("Assets:Cash".to_string())),
        ("tag".to_string(), MetaValue::Tag("trip".to_string())),
        ("link".to_string(), MetaValue::Link("inv".to_string())),
        ("nothing".to_string(), MetaValue::NoValue),
    ];
    let c = ctx(&txn, 1);
    let get = |k: &str| eval_meta_function("POSTING_META", &[text(k)], &c).unwrap();
    assert_eq!(get("n"), Value::Number(Dec { mantissa: 25, scale: 1 }));
    assert_eq!(get("when"), Value::Date(date(2024, 2, 1)));
    assert_eq!(get("ok"), Value::Boolean(true));
    assert_eq!(get("cur"), text("EUR"));
    assert_eq!(get("amt"), Value::Amount(amount(3, "USD")));
    assert_eq!(get("acct"), text("Assets:Cash"));
    assert_eq!(get("tag"), text("trip"));
    assert_eq!(get("link"), text("inv"));
    assert_eq!(get("nothing"), Value::Null);
    assert_eq!(get("category"), Value::Null);
    assert_eq!(
        eval_meta_function("META", &[Value::Integer(1)], &c),
        Err(QueryError::Type("META: argument must be a string key".to_string()))
    );
    assert_eq!(
        eval_meta_function("ENTRY_META", &[], &c),
        Err(QueryError::InvalidArguments("ENTRY_META".to_string(), "expected 1 argument(s)".to_string()))
    );
}

#[test]
fn test_account_meta_functions() {
    let directives = vec![
        Directive::Open(Open {
            date: date(2020, 1, 1),
            account: "Assets:Bank:Checking".into(),
            currencies: vec![],
            meta: vec![("category".to_string(), MetaValue::String("checking".to_string()))],
        }),
        Directive::Open(Open { date: date(2020, 2, 15), account: "Expenses:Food".into(), currencies: vec![], meta: vec![] }),
        Directive::Close(Close { date: date(2024, 12, 31), account: "Assets:Bank:Checking".into() }),
        Directive::Transaction(coffee_with_meta()),
    ];
    let info = build_account_info(&directives);
    assert_eq!(eval_account_date(true, &[text("Assets:Bank:Checking")], &info), Ok(Value::Date(date(2020, 1, 1))));
    assert_eq!(eval_account_date(false, &[text("Assets:Bank:Checking")], &info), Ok(Value::Date(date(2024, 12, 31))));
    assert_eq!(eval_account_date(false, &[text("Expenses:Food")], &info), Ok(Value::Null));
    assert_eq!(
        eval_open_meta(&[text("Assets:Bank:Checking"), text("category")], &info),
        Ok(Value::String("checking".to_string()))
    );
    assert_eq!(eval_open_meta(&[text("Assets:Bank:Checking"), text("nonexistent")], &info), Ok(Value::Null));
    assert_eq!(eval_account_date(true, &[text("NonExistent:Account")], &info), Ok(Value::Null));
}

#[test]
fn open_meta_errors() {
    let info = build_account_info(&[]);
    assert_eq!(eval_open_meta(&[text("A"), text("k")], &info), Ok(Value::Null));
    assert_eq!(
        eval_open_meta(&[text("A"), Value::Integer(2)], &info),
        Err(QueryError::Type("OPEN_META expects (account_string, key_string)".to_string()))
    );
    assert_eq!(
        eval_open_meta(&[text("A")], &info),
        Err(QueryError::InvalidArguments("OPEN_META".to_string(), "expected 2 argument(s)".to_string()))
    );
}

#[test]
fn ledger_functions_dispatch_by_name() {
    let txn = coffee_with_meta();
    let directives = vec![
        Directive::Open(Open { date: date(2021, 3, 1), account: "Expenses:Food".into(), currencies: vec![], meta: vec![] }),
        Directive::Transaction(coffee_with_meta()),
    ];
    let info = build_account_info(&directives);
    let c = ctx(&txn, 0);
    let call = |n: &str, args: &[Value]| try_evaluate_ledger_function(n, args, &c, &info);
    assert_eq!(call("open_date", &[text("Expenses:Food")]), Some(Ok(Value::Date(date(2021, 3, 1)))));
    assert_eq!(call("Close_Date", &[text("Expenses:Food")]), Some(Ok(Value::Null)));
    assert_eq!(call("open_meta", &[text("Expenses:Food"), text("x")]), Some(Ok(Value::Null)));
    assert_eq!(call("meta", &[text("category")]), Some(Ok(text("food"))));
    assert_eq!(call("entry_meta", &[text("source")]), Some(Ok(text("bank_import"))));
    assert_eq!(call("getprice", &[text("USD")]), None);
    let far = ctx(&txn, 5);
    assert_eq!(try_evaluate_ledger_function("meta", &[text("category")], &far, &info), None);
}
