use rustledger::date::Date;
use rustledger::dec::Dec;
use rustledger::fromfilter::{evaluate_from_filter, FromFilter, FromLiteral, FromOperand};
use rustledger::ledger::{Posting, Transaction};
use rustledger::value::{BinaryOperator, QueryError};

fn date(year: i32, month: u32, day: u32) -> Date {
    Date { year, month, day }
}

fn posting(account: &str) -> Posting {
    Posting { account: account.to_string(), units: None, cost: None, price: None, flag: None, meta: vec![] }
}

fn txn() -> Transaction {
    Transaction {
        date: date(2024, 3, 15),
        flag: '*',
        payee: None,
        narration: "Groceries".to_string(),
        tags: vec![],
        links: vec![],
        meta: vec![],
        postings: vec![posting("Assets:Bank:Checking"), posting("Expenses:Food")],
    }
}

fn has_account(pattern: &str) -> FromFilter {
    FromFilter::Function {
        name: "has_account".to_string(),
        args: vec![FromOperand::Literal(FromLiteral::String(pattern.to_string()))],
    }
}

fn compare(col: &str, op: BinaryOperator, lit: FromLiteral) -> FromFilter {
    FromFilter::BinaryOp { op, left: FromOperand::Column(col.to_string()), right: FromOperand::Literal(lit) }
}

#[test]
fn has_account_matches_any_posting() {
    let t = txn();
    assert_eq!(evaluate_from_filter(&has_account("^Expenses"), &t), Some(Ok(true)));
    assert_eq!(evaluate_from_filter(&has_account("Income"), &t), Some(Ok(false)));
    assert_eq!(evaluate_from_filter(&has_account("Bank"), &t), Some(Ok(true)));
}

#[test]
fn has_account_errors() {
    let t = txn();
    assert_eq!(
        evaluate_from_filter(&has_account("("), &t),
        Some(Err(QueryError::Type("invalid regex: (".to_string())))
    );
    let no_args = FromFilter::Function { name: "HAS_ACCOUNT".to_string(), args: vec![] };
    assert_eq!(
        evaluate_from_filter(&no_args, &t),
        Some(Err(QueryError::InvalidArguments("has_account".to_string(), "expected 1 argument".to_string())))
    );
    let bad = FromFilter::Function { name: "has_account".to_string(), args: vec![FromOperand::Other] };
    assert_eq!(
        evaluate_from_filter(&bad, &t),
        Some(Err(QueryError::Type("has_account expects a string pattern".to_string())))
    );
    let mut empty = txn();
    empty.postings.clear();
    assert_eq!(
        evaluate_from_filter(&has_account("("), &empty),
        Some(Err(QueryError::Type("invalid regex: (".to_string())))
    );
}

#[test]
fn year_and_month_compare_with_literals() {
    let t = txn();
    assert_eq!(evaluate_from_filter(&compare("year", BinaryOperator::Eq, FromLiteral::Integer(2024)), &t), Some(Ok(true)));
    assert_eq!(evaluate_from_filter(&compare("YEAR", BinaryOperator::Ne, FromLiteral::Integer(2024)), &t), Some(Ok(false)));
    assert_eq!(evaluate_from_filter(&compare("year", BinaryOperator::Lt, FromLiteral::Integer(2023)), &t), Some(Ok(true)));
    assert_eq!(
        evaluate_from_filter(&compare("year", BinaryOperator::Eq, FromLiteral::Number(Dec { mantissa: 2024, scale: 0 })), &t),
        Some(Ok(true))
    );
    assert_eq!(
        evaluate_from_filter(&compare("year", BinaryOperator::Eq, FromLiteral::Number(Dec { mantissa: 20240, scale: 1 })), &t),
        Some(Ok(false))
    );
    assert_eq!(evaluate_from_filter(&compare("year", BinaryOperator::Eq, FromLiteral::Other), &t), Some(Ok(false)));
    assert_eq!(evaluate_from_filter(&compare("month", BinaryOperator::Eq, FromLiteral::Integer(3)), &t), Some(Ok(true)));
    assert_eq!(evaluate_from_filter(&compare("month", BinaryOperator::Eq, FromLiteral::Integer(4)), &t), Some(Ok(false)));
    assert_eq!(
        evaluate_from_filter(&compare("month", BinaryOperator::Eq, FromLiteral::Number(Dec { mantissa: -3, scale: 0 })), &t),
        Some(Ok(false))
    );
}

#[test]
fn date_compares_with_a_date_literal() {
    let t = txn();
    let d = |op| compare("date", op, FromLiteral::Date(date(2024, 3, 1)));
    assert_eq!(evaluate_from_filter(&d(BinaryOperator::Gt), &t), Some(Ok(true)));
    assert_eq!(evaluate_from_filter(&d(BinaryOperator::Ge), &t), Some(Ok(true)));
    assert_eq!(evaluate_from_filter(&d(BinaryOperator::Lt), &t), Some(Ok(false)));
    assert_eq!(evaluate_from_filter(&d(BinaryOperator::Eq), &t), Some(Ok(false)));
    assert_eq!(evaluate_from_filter(&d(BinaryOperator::Ne), &t), Some(Ok(true)));
    assert_eq!(evaluate_from_filter(&d(BinaryOperator::Add), &t), Some(Ok(false)));
}

#[test]
fn other_filters_are_left_to_the_predicate() {
    let t = txn();
    assert_eq!(evaluate_from_filter(&FromFilter::Other, &t), None);
    let f = FromFilter::Function { name: "length".to_string(), args: vec![] };
    assert_eq!(evaluate_from_filter(&f, &t), None);
    assert_eq!(evaluate_from_filter(&compare("account", BinaryOperator::Eq, FromLiteral::Integer(1)), &t), None);
    assert_eq!(evaluate_from_filter(&compare("date", BinaryOperator::Eq, FromLiteral::Integer(1)), &t), None);
    let g = FromFilter::BinaryOp {
        op: BinaryOperator::Eq,
        left: FromOperand::Column("year".to_string()),
        right: FromOperand::Other,
    };
    assert_eq!(evaluate_from_filter(&g, &t), None);
}
