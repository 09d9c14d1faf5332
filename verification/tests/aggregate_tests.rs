use rustledger::aggregates::{aggregate_on_values, try_aggregate_on_values};
use rustledger::calls::try_evaluate_function;
use rustledger::date::Date;
use rustledger::dec::Dec;
use rustledger::interval::{Interval, IntervalUnit};
use rustledger::ledger::{Amount, Cost, Position};
use rustledger::value::{binary_op_on_values, unary_op_on_value, BinaryOperator, QueryError, UnaryOperator, Value};

fn date(year: i32, month: u32, day: u32) -> Date {
    Date { year, month, day }
}

fn amount(n: i128, cur: &str) -> Amount {
    Amount { number: Dec { mantissa: n, scale: 0 }, currency: cur.to_string() }
}

fn text(t: &str) -> Value {
    Value::String(t.to_string())
}

fn num(n: i128) -> Value {
    Value::Number(Dec { mantissa: n, scale: 0 })
}

fn call(name: &str, args: Vec<Value>) -> Result<Value, QueryError> {
    try_evaluate_function(name, &args).expect("the call is evaluated here")
}

fn held(units: i128, cur: &str, cost: i128, d: Date) -> Value {
    Value::Position(Position {
        units: amount(units, cur),
        cost: Some(Cost { number: Dec { mantissa: cost, scale: 0 }, currency: "USD".to_string(), date: Some(d), label: None }),
    })
}

/// SUM(position) over the Brokerage postings: 10 AAPL {100 USD} and 5 AAPL {120 USD}.
fn brokerage_sum() -> Value {
    let values = vec![held(10, "AAPL", 100, date(2024, 1, 15)), held(5, "AAPL", 120, date(2024, 3, 20))];
    let dates = vec![date(2024, 1, 15), date(2024, 3, 20)];
    aggregate_on_values("SUM", 1, &values, &dates).unwrap()
}

#[test]
fn test_aggregate_sum_on_ledger() {
    let values = vec![num(150), num(80)];
    let dates = vec![date(2024, 1, 5), date(2024, 1, 20)];
    let result = aggregate_on_values("SUM", 1, &values, &dates).unwrap();
    if let Value::Number(sum) = &result {
        assert_eq!(*sum, Dec { mantissa: 230, scale: 0 });
    }
    assert_eq!(result, Value::Inventory(vec![Position { units: amount(230, "__NUMBER__"), cost: None }]));
}

#[test]
fn sum_skips_nulls_and_refuses_other_values() {
    let dates = vec![date(2024, 1, 1); 3];
    let r = aggregate_on_values("SUM", 1, &[Value::Amount(amount(3, "EUR")), Value::Null, num(2)], &dates).unwrap();
    assert_eq!(
        r,
        Value::Inventory(vec![
            Position { units: amount(3, "EUR"), cost: None },
            Position { units: amount(2, "__NUMBER__"), cost: None },
        ])
    );
    assert_eq!(
        aggregate_on_values("SUM", 1, &[num(1), text("x"), Value::Integer(2)], &dates),
        Err(QueryError::Type("SUM requires numeric or position value".to_string()))
    );
    assert_eq!(
        aggregate_on_values("SUM", 2, &[num(1), num(1), num(1)], &dates),
        Err(QueryError::InvalidArguments("SUM".to_string(), "expected 1 argument".to_string()))
    );
}

#[test]
fn test_cost_sum_position() {
    match call("cost", vec![brokerage_sum()]).unwrap() {
        Value::Amount(amt) => {
            assert_eq!(amt.number, Dec { mantissa: 1600, scale: 0 });
            assert_eq!(amt.currency.as_str(), "USD");
        },
        other => panic!("Expected Amount value for book_value, got {other:?}"),
    }
}

#[test]
fn test_number_cost_sum_position() {
    let cost = call("cost", vec![brokerage_sum()]).unwrap();
    assert_eq!(call("number", vec![cost]).unwrap(), num(1600));
}

#[test]
fn test_currency_on_aggregate() {
    let cost = call("cost", vec![brokerage_sum()]).unwrap();
    assert_eq!(call("currency", vec![cost]).unwrap(), text("USD"));
}

#[test]
fn test_unary_negation_on_aggregate() {
    let n = call("number", vec![call("cost", vec![brokerage_sum()]).unwrap()]).unwrap();
    assert_eq!(unary_op_on_value(UnaryOperator::Neg, &n).unwrap(), num(-1600));
}

#[test]
fn test_safediv_with_aggregates() {
    let n = call("number", vec![call("cost", vec![brokerage_sum()]).unwrap()]).unwrap();
    assert_eq!(call("safediv", vec![n, Value::Integer(100)]).unwrap(), num(16));
}

#[test]
fn test_safediv_with_two_aggregate_args() {
    let n = call("number", vec![call("cost", vec![brokerage_sum()]).unwrap()]).unwrap();
    assert_eq!(call("safediv", vec![n, Value::Integer(2)]).unwrap(), num(800));
}

#[test]
fn test_safediv_division_by_zero() {
    let n = call("number", vec![call("cost", vec![brokerage_sum()]).unwrap()]).unwrap();
    assert!(matches!(call("safediv", vec![n, Value::Integer(0)]).unwrap(), Value::Null));
    assert!(matches!(call("safediv", vec![num(5), num(0)]).unwrap(), Value::Null));
    assert!(matches!(call("safediv", vec![Value::Integer(5), Value::Integer(0)]).unwrap(), Value::Null));
}

#[test]
fn test_safediv_with_null() {
    // The Cash postings have no cost, so the cost's number is NULL here.
    assert!(matches!(call("safediv", vec![Value::Null, Value::Null]).unwrap(), Value::Null));
    assert!(matches!(call("safediv", vec![num(3), Value::Null]).unwrap(), Value::Null));
    assert_eq!(
        call("safediv", vec![text("a"), num(1)]),
        Err(QueryError::Type("SAFEDIV expects two numbers".to_string()))
    );
}

#[test]
fn sum_merges_positions_of_the_same_lot() {
    let dates = vec![date(2024, 1, 15), date(2024, 3, 20)];
    let units = aggregate_on_values(
        "SUM",
        1,
        &[Value::Amount(amount(10, "AAPL")), Value::Amount(amount(5, "AAPL"))],
        &dates,
    )
    .unwrap();
    assert_eq!(units, Value::Inventory(vec![Position { units: amount(15, "AAPL"), cost: None }]));
    match call("only", vec![text("AAPL"), units]).unwrap() {
        Value::Amount(a) => assert_eq!(a.number, Dec { mantissa: 15, scale: 0 }),
        other => panic!("Expected Amount value, got {other:?}"),
    }
    let same_cost = aggregate_on_values(
        "SUM",
        1,
        &[held(10, "AAPL", 100, date(2024, 1, 15)), held(5, "AAPL", 100, date(2024, 1, 15))],
        &dates,
    )
    .unwrap();
    match &same_cost {
        Value::Inventory(ps) => {
            assert_eq!(ps.len(), 1);
            assert_eq!(ps[0].units, amount(15, "AAPL"));
        },
        other => panic!("unexpected {other:?}"),
    }
    assert_eq!(call("cost", vec![same_cost]).unwrap(), Value::Amount(amount(1500, "USD")));
}

#[test]
fn sum_keeps_lots_at_different_costs_apart() {
    match brokerage_sum() {
        Value::Inventory(ps) => {
            assert_eq!(ps.len(), 2);
            assert_eq!(ps[0].units, amount(10, "AAPL"));
            assert_eq!(ps[1].units, amount(5, "AAPL"));
        },
        other => panic!("unexpected {other:?}"),
    }
}

#[test]
fn division_and_remainder_by_zero_are_errors() {
    assert_eq!(
        binary_op_on_values(BinaryOperator::Div, &num(10), &num(0)),
        Err(QueryError::Evaluation("division by zero".to_string()))
    );
    assert_eq!(
        binary_op_on_values(BinaryOperator::Mod, &Value::Integer(10), &Value::Integer(0)),
        Err(QueryError::Evaluation("remainder by zero".to_string()))
    );
    assert_eq!(binary_op_on_values(BinaryOperator::Div, &Value::Integer(10), &Value::Integer(2)).unwrap(), num(5));
}

#[test]
fn try_aggregate_reports_an_overflowing_sum() {
    let big = Value::Number(Dec { mantissa: 79228162514264337593543950335, scale: 0 });
    let dates = vec![date(2024, 1, 1); 2];
    assert_eq!(try_aggregate_on_values("SUM", 1, &[big.clone(), big.clone()], &dates), None);
    assert_eq!(try_aggregate_on_values("AVG", 1, &[big.clone(), big.clone()], &dates), None);
    assert_eq!(
        try_aggregate_on_values("SUM", 1, &[num(1), num(2)], &dates),
        Some(Ok(Value::Inventory(vec![Position { units: amount(3, "__NUMBER__"), cost: None }])))
    );
    assert_eq!(try_aggregate_on_values("COUNT", 1, &[big.clone(), big], &dates), Some(Ok(Value::Integer(2))));
}

#[test]
fn test_inventory_functions() {
    let assets_sum = aggregate_on_values(
        "SUM",
        1,
        &[Value::Position(Position { units: amount(-5, "USD"), cost: None })],
        &[date(2024, 1, 15)],
    )
    .unwrap();
    assert!(matches!(call("empty", vec![assets_sum]).unwrap(), Value::Boolean(_)));
    assert_eq!(call("possign", vec![num(100), text("Assets:Bank")]).unwrap(), num(100));
    assert_eq!(call("possign", vec![num(100), text("Income:Salary")]).unwrap(), num(-100));
    assert_eq!(call("possign", vec![num(50), text("Expenses:Food")]).unwrap(), num(50));
    assert_eq!(call("possign", vec![num(200), text("Liabilities:CreditCard")]).unwrap(), num(-200));
    assert_eq!(call("possign", vec![num(300), text("Equity:OpeningBalances")]).unwrap(), num(-300));
}

#[test]
fn test_date_add_with_interval() {
    assert_eq!(
        call("date_add", vec![Value::Date(date(2024, 1, 15)), Value::Interval(Interval::new(1, IntervalUnit::Month))]).unwrap(),
        Value::Date(date(2024, 2, 15))
    );
    assert_eq!(
        binary_op_on_values(BinaryOperator::Add, &Value::Date(date(2024, 1, 15)), &Value::Interval(Interval::new(1, IntervalUnit::Year)))
            .unwrap(),
        Value::Date(date(2025, 1, 15))
    );
    assert_eq!(
        binary_op_on_values(BinaryOperator::Sub, &Value::Date(date(2024, 3, 15)), &Value::Interval(Interval::new(2, IntervalUnit::Month)))
            .unwrap(),
        Value::Date(date(2024, 1, 15))
    );
}

#[test]
fn interval_beyond_the_calendar_gives_none() {
    assert_eq!(Interval::new(4294967296, IntervalUnit::Month).add_to_date(date(2024, 1, 15)), None);
    assert_eq!(Interval::new(-4294967296, IntervalUnit::Month).add_to_date(date(2024, 1, 15)), None);
    assert_eq!(Interval::new(2147483647, IntervalUnit::Year).add_to_date(date(2024, 1, 15)), None);
    assert_eq!(Interval::new(3, IntervalUnit::Quarter).add_to_date(date(2024, 1, 31)), Some(date(2024, 10, 31)));
    assert_eq!(Interval::new(i64::MAX, IntervalUnit::Year).add_to_date(date(2024, 1, 15)), None);
    assert_eq!(Interval::new(i64::MIN, IntervalUnit::Quarter).add_to_date(date(2024, 1, 15)), None);
    assert_eq!(Interval::new(i64::MIN, IntervalUnit::Month).add_to_date(date(2024, 1, 15)), None);
}

#[test]
fn date_bin_finds_the_bucket_holding_the_source() {
    assert_eq!(
        call("date_bin", vec![text("7 days"), Value::Date(date(2023, 12, 31)), Value::Date(date(2024, 1, 1))]).unwrap(),
        Value::Date(date(2023, 12, 25))
    );
    assert_eq!(
        call("date_bin", vec![text("7 days"), Value::Date(date(2024, 1, 15)), Value::Date(date(2024, 1, 1))]).unwrap(),
        Value::Date(date(2024, 1, 15))
    );
    assert_eq!(
        call("date_bin", vec![Value::Integer(10), Value::Date(date(2024, 1, 9)), Value::Date(date(2024, 1, 1))]).unwrap(),
        Value::Date(date(2024, 1, 1))
    );
    assert_eq!(
        call("date_bin", vec![text("1 week"), Value::Date(date(2023, 12, 24)), Value::Date(date(2024, 1, 1))]).unwrap(),
        Value::Date(date(2023, 12, 18))
    );
    assert_eq!(
        call("date_bin", vec![text("1 month"), Value::Date(date(2023, 11, 15)), Value::Date(date(2024, 1, 1))]).unwrap(),
        Value::Date(date(2023, 11, 1))
    );
    assert_eq!(
        call("date_bin", vec![text("2 years"), Value::Date(date(2021, 6, 1)), Value::Date(date(2024, 1, 1))]).unwrap(),
        Value::Date(date(2020, 1, 1))
    );
}

#[test]
fn test_string_upper_lower_ledger() {
    assert_eq!(call("upper", vec![text("Monthly salary")]).unwrap(), Value::String("MONTHLY SALARY".to_string()));
    assert_eq!(call("lower", vec![text("Monthly salary")]).unwrap(), Value::String("monthly salary".to_string()));
}

#[test]
fn test_string_length_ledger() {
    for account in ["Assets:Bank:Checking", "Assets:Cash"] {
        if let Value::Integer(len) = call("length", vec![text(account)]).unwrap() {
            assert!(len > 0);
        }
    }
}

#[test]
fn test_math_round_ledger() {
    let rounded = call("round", vec![Value::Number(Dec { mantissa: 15050, scale: 2 })]).unwrap();
    assert!(!matches!(rounded, Value::Null));
}

#[test]
fn test_coalesce_with_payee() {
    assert!(!matches!(call("coalesce", vec![Value::Null, text("Groceries")]).unwrap(), Value::Null));
    assert!(!matches!(call("coalesce", vec![text("Store"), text("Groceries")]).unwrap(), Value::Null));
}

#[test]
fn test_coalesce_first_non_null() {
    assert_eq!(call("coalesce", vec![Value::Null, text("Salary")]).unwrap(), text("Salary"));
    assert_eq!(call("coalesce", vec![text("Employer"), text("Salary")]).unwrap(), text("Employer"));
}

#[test]
fn test_interval_function() {
    assert_eq!(call("interval", vec![text("month")]).unwrap(), Value::Interval(Interval::new(1, IntervalUnit::Month)));
    assert_eq!(
        call("interval", vec![num(3), text("day")]).unwrap(),
        Value::Interval(Interval::new(3, IntervalUnit::Day))
    );
    assert_eq!(
        call("interval", vec![num(-2), text("week")]).unwrap(),
        Value::Interval(Interval::new(-2, IntervalUnit::Week))
    );
}

#[test]
fn test_division_behavior() {
    let r = binary_op_on_values(BinaryOperator::Div, &num(10), &num(2)).unwrap();
    if let Value::Integer(val) = &r {
        assert_eq!(*val, 5);
    } else if let Value::Number(val) = &r {
        assert_eq!(*val, Dec { mantissa: 5, scale: 0 });
    }
    assert!(matches!(r, Value::Number(_) | Value::Integer(_)));
}

#[test]
fn test_aggregate_avg_on_ledger() {
    let dates = vec![date(2024, 1, 20), date(2024, 1, 27)];
    let result = aggregate_on_values("AVG", 1, &[num(150), num(80)], &dates).unwrap();
    if let Value::Number(avg) = &result {
        assert_eq!(*avg, Dec { mantissa: 115, scale: 0 });
    }
    assert!(matches!(result, Value::Number(_)));
}

#[test]
fn test_aggregate_min_max_on_ledger() {
    let values = vec![num(150), num(45), num(80)];
    let dates = vec![date(2024, 1, 20), date(2024, 1, 22), date(2024, 1, 27)];
    let min = aggregate_on_values("MIN", 1, &values, &dates).unwrap();
    let max = aggregate_on_values("MAX", 1, &values, &dates).unwrap();
    if let Value::Number(m) = &min {
        assert_eq!(*m, Dec { mantissa: 45, scale: 0 });
    }
    if let Value::Number(m) = &max {
        assert_eq!(*m, Dec { mantissa: 150, scale: 0 });
    }
    assert_eq!(min, num(45));
    assert_eq!(max, num(150));
}

#[test]
fn test_math_abs_ledger() {
    let r = call("abs", vec![num(-5000)]).unwrap();
    if let Value::Number(abs_val) = &r {
        assert!(abs_val.mantissa > 0);
    }
    assert_eq!(r, num(5000));
}

#[test]
fn test_empty_function() {
    let sum = aggregate_on_values("SUM", 1, &[Value::Amount(amount(150, "USD"))], &[date(2024, 1, 20)]).unwrap();
    assert!(matches!(call("empty", vec![sum]).unwrap(), Value::Boolean(_)));
    assert_eq!(call("empty", vec![Value::Null]).unwrap(), Value::Boolean(true));
}
