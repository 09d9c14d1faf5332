use rustledger::aggregates::aggregate_on_values;
use rustledger::calls::try_evaluate_function;
use rustledger::date::Date;
use rustledger::dec::{Dec, Order};
use rustledger::interval::{Interval, IntervalUnit};
use rustledger::ledger::{Amount, Cost, Position};
use rustledger::value::{binary_op_on_values, compare_values_for_sort, values_equal, BinaryOperator, QueryError, Value};

fn date(year: i32, month: u32, day: u32) -> Date {
    Date { year, month, day }
}

fn s(text: &str) -> Value {
    Value::String(text.to_string())
}

fn num(mantissa: i128, scale: u32) -> Value {
    Value::Number(Dec { mantissa, scale })
}

fn call(name: &str, args: Vec<Value>) -> Result<Value, QueryError> {
    try_evaluate_function(name, &args).expect("the call is evaluated here")
}

fn message(e: &QueryError) -> String {
    match e {
        QueryError::UnknownColumn(m) => format!("unknown column: {m}"),
        QueryError::UnknownFunction(m) => format!("unknown function: {m}"),
        QueryError::InvalidArguments(f, m) => format!("invalid arguments for {f}: {m}"),
        QueryError::Type(m) => m.clone(),
        QueryError::Aggregation(m) => m.clone(),
        QueryError::Evaluation(m) => m.clone(),
    }
}

fn amount(n: i128, scale: u32, cur: &str) -> Amount {
    Amount { number: Dec { mantissa: n, scale }, currency: cur.to_string() }
}

#[test]
fn test_interval_basic_construction() {
    let result = call("interval", vec![Value::Integer(1), s("day")]).unwrap();
    assert_eq!(result, Value::Interval(Interval::new(1, IntervalUnit::Day)));
}

#[test]
fn test_interval_all_units() {
    assert_eq!(
        call("interval", vec![Value::Integer(5), s("day")]).unwrap(),
        Value::Interval(Interval::new(5, IntervalUnit::Day))
    );
    assert_eq!(
        call("interval", vec![Value::Integer(2), s("week")]).unwrap(),
        Value::Interval(Interval::new(2, IntervalUnit::Week))
    );
    assert_eq!(
        call("interval", vec![Value::Integer(3), s("month")]).unwrap(),
        Value::Interval(Interval::new(3, IntervalUnit::Month))
    );
    assert_eq!(
        call("interval", vec![Value::Integer(4), s("quarter")]).unwrap(),
        Value::Interval(Interval::new(4, IntervalUnit::Quarter))
    );
    assert_eq!(
        call("interval", vec![Value::Integer(1), s("year")]).unwrap(),
        Value::Interval(Interval::new(1, IntervalUnit::Year))
    );
}

#[test]
fn test_interval_negative() {
    assert_eq!(
        call("interval", vec![Value::Integer(-7), s("day")]).unwrap(),
        Value::Interval(Interval::new(-7, IntervalUnit::Day))
    );
}

#[test]
fn test_interval_invalid_unit() {
    let result = call("interval", vec![Value::Integer(1), s("invalid_unit")]);
    assert!(result.is_err());
    if let Err(e) = result {
        assert!(message(&e).contains("invalid interval unit"));
    }
}

#[test]
fn test_interval_decimal_count_error() {
    let result = call("interval", vec![num(35, 1), s("day")]);
    assert!(result.is_err());
    if let Err(e) = result {
        assert!(message(&e).contains("must be an integer"));
    }
}

fn add(d: Date, count: i64, unit: IntervalUnit) -> Value {
    binary_op_on_values(BinaryOperator::Add, &Value::Date(d), &Value::Interval(Interval::new(count, unit))).unwrap()
}

fn sub(d: Date, count: i64, unit: IntervalUnit) -> Value {
    binary_op_on_values(BinaryOperator::Sub, &Value::Date(d), &Value::Interval(Interval::new(count, unit))).unwrap()
}

#[test]
fn test_interval_date_arithmetic() {
    assert_eq!(add(date(2024, 1, 15), 10, IntervalUnit::Day), Value::Date(date(2024, 1, 25)));
    assert_eq!(add(date(2024, 1, 15), 2, IntervalUnit::Month), Value::Date(date(2024, 3, 15)));
    assert_eq!(sub(date(2024, 1, 15), 5, IntervalUnit::Day), Value::Date(date(2024, 1, 10)));
    assert_eq!(sub(date(2024, 3, 15), 1, IntervalUnit::Month), Value::Date(date(2024, 2, 15)));
}

#[test]
fn test_interval_zero() {
    assert_eq!(
        call("interval", vec![Value::Integer(0), s("day")]).unwrap(),
        Value::Interval(Interval::new(0, IntervalUnit::Day))
    );
    assert_eq!(add(date(2024, 1, 15), 0, IntervalUnit::Day), Value::Date(date(2024, 1, 15)));
    assert_eq!(add(date(2024, 1, 15), 0, IntervalUnit::Month), Value::Date(date(2024, 1, 15)));
}

#[test]
fn test_interval_month_end_arithmetic() {
    assert_eq!(add(date(2024, 1, 31), 1, IntervalUnit::Month), Value::Date(date(2024, 2, 29)));
    assert_eq!(sub(date(2024, 3, 31), 1, IntervalUnit::Month), Value::Date(date(2024, 2, 29)));
    assert_eq!(add(date(2023, 1, 31), 1, IntervalUnit::Month), Value::Date(date(2023, 2, 28)));
}

#[test]
fn test_interval_quarter_arithmetic() {
    assert_eq!(add(date(2024, 1, 15), 1, IntervalUnit::Quarter), Value::Date(date(2024, 4, 15)));
    assert_eq!(add(date(2024, 1, 15), 2, IntervalUnit::Quarter), Value::Date(date(2024, 7, 15)));
    assert_eq!(sub(date(2024, 10, 15), 2, IntervalUnit::Quarter), Value::Date(date(2024, 4, 15)));
}

#[test]
fn test_interval_year_arithmetic() {
    assert_eq!(add(date(2024, 6, 15), 1, IntervalUnit::Year), Value::Date(date(2025, 6, 15)));
    assert_eq!(add(date(2024, 2, 29), 1, IntervalUnit::Year), Value::Date(date(2025, 2, 28)));
    assert_eq!(sub(date(2024, 6, 15), 2, IntervalUnit::Year), Value::Date(date(2022, 6, 15)));
}

#[test]
fn test_interval_case_insensitive_unit() {
    assert_eq!(
        call("interval", vec![Value::Integer(1), s("DAY")]).unwrap(),
        Value::Interval(Interval::new(1, IntervalUnit::Day))
    );
    assert_eq!(
        call("interval", vec![Value::Integer(1), s("Month")]).unwrap(),
        Value::Interval(Interval::new(1, IntervalUnit::Month))
    );
    assert_eq!(
        call("interval", vec![Value::Integer(1), s("d")]).unwrap(),
        Value::Interval(Interval::new(1, IntervalUnit::Day))
    );
}

#[test]
fn test_date_functions() {
    assert_eq!(call("date", vec![s("2024-06-15")]).unwrap(), Value::Date(date(2024, 6, 15)));
    assert_eq!(
        call("date", vec![Value::Integer(2024), Value::Integer(6), Value::Integer(15)]).unwrap(),
        Value::Date(date(2024, 6, 15))
    );
    assert_eq!(
        call("date_diff", vec![Value::Date(date(2024, 1, 20)), Value::Date(date(2024, 1, 15))]).unwrap(),
        Value::Integer(5)
    );
    assert_eq!(
        call("date_add", vec![Value::Date(date(2024, 1, 15)), Value::Integer(10)]).unwrap(),
        Value::Date(date(2024, 1, 25))
    );
    assert_eq!(
        call("date_trunc", vec![s("year"), Value::Date(date(2024, 6, 15))]).unwrap(),
        Value::Date(date(2024, 1, 1))
    );
    assert_eq!(
        call("date_trunc", vec![s("month"), Value::Date(date(2024, 6, 15))]).unwrap(),
        Value::Date(date(2024, 6, 1))
    );
    assert_eq!(
        call("date_part", vec![s("month"), Value::Date(date(2024, 6, 15))]).unwrap(),
        Value::Integer(6)
    );
    assert_eq!(
        call("parse_date", vec![s("15/06/2024"), s("%d/%m/%Y")]).unwrap(),
        Value::Date(date(2024, 6, 15))
    );
    assert_eq!(
        call("date_bin", vec![s("7 days"), Value::Date(date(2024, 1, 15)), Value::Date(date(2024, 1, 1))]).unwrap(),
        Value::Date(date(2024, 1, 15))
    );
    assert_eq!(
        call("date_bin", vec![s("1 week"), Value::Date(date(2024, 1, 20)), Value::Date(date(2024, 1, 1))]).unwrap(),
        Value::Date(date(2024, 1, 15))
    );
    assert_eq!(
        call("date_bin", vec![s("1 month"), Value::Date(date(2024, 6, 15)), Value::Date(date(2024, 1, 1))]).unwrap(),
        Value::Date(date(2024, 6, 1))
    );
    assert_eq!(
        call("date_bin", vec![s("1 year"), Value::Date(date(2024, 6, 15)), Value::Date(date(2020, 1, 1))]).unwrap(),
        Value::Date(date(2024, 1, 1))
    );
}

#[test]
fn test_string_functions_extended() {
    assert_eq!(call("grep", vec![s("Ex[a-z]+"), s("Hello Expenses World")]).unwrap(), s("Expenses"));
    assert_eq!(call("grep", vec![s("xyz"), s("Hello World")]).unwrap(), Value::Null);
    assert_eq!(
        call("grepn", vec![s("([0-9]+)-([0-9]+)"), s("2024-01"), Value::Integer(1)]).unwrap(),
        s("2024")
    );
    assert_eq!(call("subst", vec![s("-"), s("/"), s("2024-01-15")]).unwrap(), s("2024/01/15"));
    assert_eq!(call("splitcomp", vec![s("a:b:c"), s(":"), Value::Integer(1)]).unwrap(), s("b"));
    assert_eq!(call("joinstr", vec![s("hello"), s("world")]).unwrap(), s("hello, world"));
    assert_eq!(call("maxwidth", vec![s("hello"), Value::Integer(10)]).unwrap(), s("hello"));
    assert_eq!(call("maxwidth", vec![s("hello world"), Value::Integer(8)]).unwrap(), s("hello..."));
}

#[test]
fn test_type_cast_functions() {
    assert_eq!(call("int", vec![num(57, 1)]).unwrap(), Value::Integer(5));
    assert_eq!(call("decimal", vec![Value::Integer(42)]).unwrap(), num(42, 0));
    assert_eq!(call("str", vec![Value::Integer(123)]).unwrap(), s("123"));
    assert_eq!(call("bool", vec![Value::Integer(1)]).unwrap(), Value::Boolean(true));
    assert_eq!(call("bool", vec![Value::Integer(0)]).unwrap(), Value::Boolean(false));
}

#[test]
fn test_string_trim_literal() {
    assert_eq!(call("TRIM", vec![s("  hello  ")]).unwrap(), s("hello"));
}

#[test]
fn test_error_unknown_function() {
    let result = call("NONEXISTENT_FUNC", vec![s("Assets:Bank")]);
    assert!(result.is_err());
    match result {
        Err(QueryError::UnknownFunction(name)) => assert_eq!(name, "NONEXISTENT_FUNC"),
        other => panic!("unexpected result {other:?}"),
    }
}

#[test]
fn test_error_invalid_function_args_year() {
    let result = call("YEAR", vec![s("not a date")]);
    assert!(result.is_err());
    assert!(matches!(result, Err(QueryError::Type(m)) if m == "YEAR expects a date"));
    match call("YEAR", vec![]) {
        Err(QueryError::InvalidArguments(name, msg)) => {
            assert_eq!(name, "YEAR");
            assert_eq!(msg, "expected 1 argument");
        },
        other => panic!("unexpected result {other:?}"),
    }
}

#[test]
fn test_error_invalid_function_args_length() {
    let result = call("LENGTH", vec![Value::Integer(12345)]);
    assert!(result.is_err());
    assert!(matches!(result, Err(QueryError::Type(m)) if m == "LENGTH expects a string or set"));
}

#[test]
fn ymonth_weekday_and_quarter_of_a_date() {
    let d = Value::Date(date(2024, 6, 15));
    assert_eq!(call("ymonth", vec![d.clone()]).unwrap(), s("2024-06"));
    // 2024-06-15 is a Saturday: five days after Monday.
    assert_eq!(call("weekday", vec![d.clone()]).unwrap(), Value::Integer(5));
    assert_eq!(call("quarter", vec![d.clone()]).unwrap(), Value::Integer(2));
    assert_eq!(call("date_part", vec![s("doy"), d.clone()]).unwrap(), Value::Integer(167));
    assert_eq!(call("date_part", vec![s("week"), d.clone()]).unwrap(), Value::Integer(24));
    assert_eq!(call("date_trunc", vec![s("week"), d.clone()]).unwrap(), Value::Date(date(2024, 6, 10)));
    assert_eq!(call("date_trunc", vec![s("quarter"), d]).unwrap(), Value::Date(date(2024, 4, 1)));
}

#[test]
fn date_errors_name_the_argument() {
    assert!(matches!(call("date", vec![s("not a date")]), Err(QueryError::Type(m)) if m == "DATE: cannot parse 'not a date' as date"));
    assert!(matches!(
        call("date", vec![Value::Integer(2023), Value::Integer(2), Value::Integer(29)]),
        Err(QueryError::Type(m)) if m == "DATE: invalid date 2023-2-29"
    ));
    assert!(matches!(
        call("date_trunc", vec![s("decade"), Value::Date(date(2024, 1, 1))]),
        Err(QueryError::Type(m)) if m.contains("unknown field 'DECADE'")
    ));
    assert!(matches!(
        call("date_bin", vec![s("1 fortnight"), Value::Date(date(2024, 1, 1)), Value::Date(date(2024, 1, 1))]),
        Err(QueryError::Type(m)) if m.contains("unknown unit 'fortnight'")
    ));
    assert!(matches!(
        call("date_bin", vec![s("x days"), Value::Date(date(2024, 1, 1)), Value::Date(date(2024, 1, 1))]),
        Err(QueryError::Type(m)) if m == "DATE_BIN: invalid stride number 'x'"
    ));
}

#[test]
fn date_bin_before_the_origin_finds_its_bucket() {
    assert_eq!(
        call("date_bin", vec![s("1 month"), Value::Date(date(2023, 11, 15)), Value::Date(date(2024, 1, 1))]).unwrap(),
        Value::Date(date(2023, 11, 1))
    );
    assert_eq!(
        call("date_bin", vec![s("7 days"), Value::Date(date(2023, 12, 31)), Value::Date(date(2024, 1, 1))]).unwrap(),
        Value::Date(date(2023, 12, 25))
    );
}

#[test]
fn date_add_and_date_diff_agree() {
    let d = date(2024, 2, 20);
    let later = call("date_add", vec![Value::Date(d), Value::Integer(40)]).unwrap();
    assert_eq!(later, Value::Date(date(2024, 3, 31)));
    assert_eq!(call("date_diff", vec![later, Value::Date(d)]).unwrap(), Value::Integer(40));
}

#[test]
fn string_functions_on_plain_values() {
    assert_eq!(call("length", vec![s("héllo")]).unwrap(), Value::Integer(6));
    assert_eq!(
        call("length", vec![Value::StringSet(vec!["a".to_string(), "b".to_string()])]).unwrap(),
        Value::Integer(2)
    );
    assert_eq!(call("upper", vec![s("abc")]).unwrap(), s("ABC"));
    assert_eq!(call("lower", vec![s("ABC")]).unwrap(), s("abc"));
    assert_eq!(call("startswith", vec![s("Assets:Bank"), s("Assets")]).unwrap(), Value::Boolean(true));
    assert_eq!(call("endswith", vec![s("Assets:Bank"), s("Assets")]).unwrap(), Value::Boolean(false));
    assert_eq!(call("endswith", vec![s("Assets:Bank"), s("Bank")]).unwrap(), Value::Boolean(true));
    assert_eq!(call("substr", vec![s("abcdef"), Value::Integer(2), Value::Integer(3)]).unwrap(), s("cde"));
    assert_eq!(call("splitcomp", vec![s("a,,b"), s(","), Value::Integer(1)]).unwrap(), s(""));
    assert_eq!(call("splitcomp", vec![s("abc"), s(""), Value::Integer(0)]).unwrap(), s(""));
    assert_eq!(call("splitcomp", vec![s("abc"), s(""), Value::Integer(2)]).unwrap(), s("b"));
    assert_eq!(call("splitcomp", vec![s("a:b"), s(":"), Value::Integer(5)]).unwrap(), Value::Null);
    assert!(matches!(
        call("grep", vec![s("("), s("x")]),
        Err(QueryError::Type(m)) if m.starts_with("GREP: invalid regex '(': ")
    ));
}

#[test]
fn cast_functions_cover_each_kind() {
    assert_eq!(call("int", vec![num(-57, 1)]).unwrap(), Value::Integer(-5));
    assert_eq!(call("int", vec![Value::Boolean(true)]).unwrap(), Value::Integer(1));
    assert_eq!(call("int", vec![s("-42")]).unwrap(), Value::Integer(-42));
    assert!(matches!(call("int", vec![s("4x")]), Err(QueryError::Type(m)) if m == "INT: cannot parse '4x' as integer"));
    assert_eq!(call("int", vec![Value::Null]).unwrap(), Value::Null);
    assert_eq!(call("decimal", vec![s("1.50")]).unwrap(), num(150, 2));
    assert_eq!(call("decimal", vec![Value::Boolean(true)]).unwrap(), num(1, 0));
    assert_eq!(call("str", vec![num(150, 2)]).unwrap(), s("1.50"));
    assert_eq!(call("str", vec![Value::Boolean(false)]).unwrap(), s("FALSE"));
    assert_eq!(call("str", vec![Value::Date(date(2024, 3, 5))]).unwrap(), s("2024-03-05"));
    assert_eq!(call("str", vec![Value::Amount(amount(-500, 2, "USD"))]).unwrap(), s("-5.00 USD"));
    assert_eq!(call("bool", vec![s("yes")]).unwrap(), Value::Boolean(true));
    assert_eq!(call("bool", vec![s("")]).unwrap(), Value::Boolean(false));
    assert!(matches!(call("bool", vec![s("maybe")]), Err(QueryError::Type(_))));
}

#[test]
fn math_functions_on_plain_values() {
    assert_eq!(call("abs", vec![Value::Integer(-3)]).unwrap(), Value::Integer(3));
    assert_eq!(call("neg", vec![num(25, 1)]).unwrap(), num(-25, 1));
    assert_eq!(call("round", vec![num(12345, 3), Value::Integer(1)]).unwrap(), num(123, 1));
    assert_eq!(call("round", vec![Value::Integer(7)]).unwrap(), Value::Integer(7));
    assert_eq!(call("safediv", vec![Value::Integer(7), Value::Integer(0)]).unwrap(), Value::Null);
    assert_eq!(call("safediv", vec![Value::Integer(-7), Value::Integer(2)]).unwrap(), Value::Integer(-3));
    assert!(matches!(
        call("round", vec![num(1, 0), s("x")]),
        Err(QueryError::Type(m)) if m == "ROUND second arg must be integer"
    ));
}

fn inventory() -> Value {
    Value::Inventory(vec![
        Position { units: amount(10, 0, "AAPL"), cost: Some(Cost { number: Dec { mantissa: 150, scale: 0 }, currency: "USD".to_string(), date: None, label: None }) },
        Position { units: amount(-250, 2, "USD"), cost: None },
        Position { units: amount(5, 0, "GOOG"), cost: Some(Cost { number: Dec { mantissa: 100, scale: 0 }, currency: "USD".to_string(), date: None, label: None }) },
    ])
}

#[test]
fn position_and_inventory_functions() {
    assert_eq!(call("units", vec![inventory()]).unwrap(), s("10 AAPL, -2.50 USD, 5 GOOG"));
    assert_eq!(call("cost", vec![inventory()]).unwrap(), Value::Amount(amount(2000, 0, "USD")));
    assert_eq!(call("getitem", vec![inventory(), s("USD")]).unwrap(), Value::Amount(amount(-250, 2, "USD")));
    assert_eq!(call("getitem", vec![inventory(), s("EUR")]).unwrap(), Value::Null);
    assert_eq!(call("only", vec![s("GOOG"), inventory()]).unwrap(), Value::Amount(amount(5, 0, "GOOG")));
    assert_eq!(call("only", vec![s("EUR"), inventory()]).unwrap(), Value::Null);
    assert_eq!(call("empty", vec![Value::Inventory(vec![])]).unwrap(), Value::Boolean(true));
    assert_eq!(call("empty", vec![inventory()]).unwrap(), Value::Boolean(false));
    match call("filter_currency", vec![inventory(), s("USD")]).unwrap() {
        Value::Inventory(ps) => {
            assert_eq!(ps.len(), 1);
            assert_eq!(ps[0].units, amount(-250, 2, "USD"));
        },
        other => panic!("unexpected value {other:?}"),
    }
    let p = Position { units: amount(-2, 0, "AAPL"), cost: Some(Cost { number: Dec { mantissa: 150, scale: 0 }, currency: "USD".to_string(), date: None, label: None }) };
    assert_eq!(call("cost", vec![Value::Position(p.clone())]).unwrap(), Value::Amount(amount(300, 0, "USD")));
    assert_eq!(call("weight", vec![Value::Position(p.clone())]).unwrap(), Value::Amount(amount(-300, 0, "USD")));
    assert_eq!(call("number", vec![Value::Position(p.clone())]).unwrap(), num(-2, 0));
    assert_eq!(call("currency", vec![Value::Position(p)]).unwrap(), s("AAPL"));
    assert_eq!(
        call("possign", vec![Value::Amount(amount(5, 0, "USD")), s("Income:Salary")]).unwrap(),
        Value::Amount(amount(-5, 0, "USD"))
    );
    assert_eq!(
        call("possign", vec![Value::Amount(amount(5, 0, "USD")), s("Assets:Bank")]).unwrap(),
        Value::Amount(amount(5, 0, "USD"))
    );
}

#[test]
fn account_functions_on_plain_values() {
    assert_eq!(call("parent", vec![s("Expenses:Food:Coffee")]).unwrap(), s("Expenses:Food"));
    assert_eq!(call("parent", vec![s("Expenses")]).unwrap(), Value::Null);
    assert_eq!(call("leaf", vec![s("Expenses:Food:Coffee")]).unwrap(), s("Coffee"));
    assert_eq!(call("root", vec![s("Expenses:Food:Coffee")]).unwrap(), s("Expenses"));
    assert_eq!(call("root", vec![s("Expenses:Food:Coffee"), Value::Integer(2)]).unwrap(), s("Expenses:Food"));
    assert_eq!(call("account_depth", vec![s("Expenses:Food:Coffee")]).unwrap(), Value::Integer(3));
    assert_eq!(call("coalesce", vec![Value::Null, s("x"), s("y")]).unwrap(), s("x"));
    assert_eq!(call("sum", vec![Value::Integer(1)]).unwrap(), Value::Null);
}

#[test]
fn calls_that_would_fault_are_refused() {
    assert!(try_evaluate_function("neg", &[Value::Integer(i64::MIN)]).is_none());
    assert!(try_evaluate_function("getprice", &[s("USD")]).is_none());
    assert!(try_evaluate_function("substr", &[s("é"), Value::Integer(1)]).is_none());
    assert!(try_evaluate_function("date_bin", &[s("0 days"), Value::Date(date(2024, 1, 1)), Value::Date(date(2024, 1, 1))]).is_none());
    assert!(try_evaluate_function("safediv", &[Value::Integer(i64::MIN), Value::Integer(-1)]).is_none());
}

#[test]
fn aggregates_over_evaluated_rows() {
    let values = vec![Value::Integer(3), Value::Null, Value::Integer(1), Value::Integer(4)];
    let dates = vec![date(2024, 3, 1), date(2024, 1, 1), date(2024, 1, 1), date(2024, 3, 1)];
    assert_eq!(aggregate_on_values("COUNT", 1, &values, &dates).unwrap(), Value::Integer(4));
    assert_eq!(aggregate_on_values("MIN", 1, &values, &dates).unwrap(), Value::Integer(1));
    assert_eq!(aggregate_on_values("MAX", 1, &values, &dates).unwrap(), Value::Integer(4));
    // The first of the earliest rows, and the last of the latest.
    assert_eq!(aggregate_on_values("FIRST", 1, &values, &dates).unwrap(), Value::Null);
    assert_eq!(aggregate_on_values("LAST", 1, &values, &dates).unwrap(), Value::Integer(4));
    // (3 + 1 + 4) / 3, rounded by the decimal division.
    assert_eq!(
        aggregate_on_values("AVG", 1, &[Value::Integer(3), Value::Integer(1)], &dates[..2]).unwrap(),
        Value::Number(Dec { mantissa: 2, scale: 0 })
    );
    assert_eq!(aggregate_on_values("AVG", 1, &[Value::Null], &dates[..1]).unwrap(), Value::Null);
    assert!(matches!(
        aggregate_on_values("AVG", 1, &[s("x")], &dates[..1]),
        Err(QueryError::Type(m)) if m == "AVG expects numeric values"
    ));
    assert!(matches!(
        aggregate_on_values("MIN", 1, &[Value::Integer(1), s("x")], &dates[..2]),
        Err(QueryError::Type(m)) if m == "cannot compare values"
    ));
    assert!(matches!(aggregate_on_values("MAX", 2, &values, &dates), Err(QueryError::InvalidArguments(_, _))));
    assert_eq!(aggregate_on_values("FIRST", 1, &[], &[]).unwrap(), Value::Null);
}

fn op(o: BinaryOperator, a: Value, b: Value) -> Value {
    binary_op_on_values(o, &a, &b).unwrap()
}

#[test]
fn arithmetic_goes_through_the_decimal_operations() {
    assert_eq!(op(BinaryOperator::Add, num(15, 1), Value::Integer(2)), num(35, 1));
    assert_eq!(op(BinaryOperator::Sub, Value::Integer(7), Value::Integer(10)), num(-3, 0));
    assert_eq!(op(BinaryOperator::Mul, num(15, 1), Value::Integer(2)), num(30, 1));
    assert_eq!(op(BinaryOperator::Div, Value::Integer(3), Value::Integer(2)), num(150, 2));
    assert_eq!(op(BinaryOperator::Mod, Value::Integer(7), Value::Integer(3)), num(1, 0));
    assert_eq!(op(BinaryOperator::Regex, s("Expenses:Food"), s("^Exp")), Value::Boolean(true));
    assert_eq!(op(BinaryOperator::NotRegex, s("Expenses:Food"), s("^Exp")), Value::Boolean(false));
    assert_eq!(op(BinaryOperator::Lt, num(15, 1), Value::Integer(2)), Value::Boolean(true));
}

#[test]
fn decimal_arguments_are_converted_to_integers() {
    assert_eq!(call("date", vec![num(20240, 1), num(60, 1), num(15, 0)]).unwrap(), Value::Date(date(2024, 6, 15)));
    assert!(matches!(
        call("date", vec![Value::Integer(2024), num(-1, 0), Value::Integer(1)]),
        Err(QueryError::Type(m)) if m == "DATE: month must be an integer"
    ));
    assert_eq!(call("maxwidth", vec![s("hello world"), num(50, 1)]).unwrap(), s("he..."));
    assert_eq!(call("splitcomp", vec![s("a:b:c"), s(":"), num(20, 1)]).unwrap(), s("c"));
    assert_eq!(add(date(2024, 1, 1), 2, IntervalUnit::Week), Value::Date(date(2024, 1, 15)));
}

#[test]
fn today_is_a_date() {
    match call("today", vec![]).unwrap() {
        Value::Date(d) => assert!(d.month >= 1 && d.month <= 12 && d.day >= 1 && d.day <= 31),
        other => panic!("unexpected value {other:?}"),
    }
    assert!(matches!(call("today", vec![Value::Null]), Err(QueryError::InvalidArguments(_, _))));
}

#[test]
fn equality_is_symmetric_and_null_sorts_last() {
    let pairs = vec![
        (num(10, 1), Value::Integer(1)),
        (s("a"), s("b")),
        (Value::Null, Value::Null),
        (Value::Date(date(2024, 1, 1)), Value::Integer(1)),
    ];
    for (a, b) in &pairs {
        assert_eq!(values_equal(a, b), values_equal(b, a));
    }
    assert!(values_equal(&num(10, 1), &Value::Integer(1)));
    assert_eq!(compare_values_for_sort(&s("a"), &s("b")), Order::Less);
    assert_eq!(compare_values_for_sort(&s("b"), &s("a")), Order::Greater);
    assert_eq!(compare_values_for_sort(&Value::Integer(5), &Value::Null), Order::Less);
    assert_eq!(compare_values_for_sort(&Value::Null, &Value::Integer(5)), Order::Greater);
}

#[test]
fn int_gives_back_the_text_str_writes() {
    for i in [i64::MIN, -1, 0, 7, 12345, i64::MAX] {
        let text = call("str", vec![Value::Integer(i)]).unwrap();
        assert_eq!(call("int", vec![text]).unwrap(), Value::Integer(i));
    }
}

#[test]
fn truncating_twice_changes_nothing() {
    for field in ["year", "quarter", "month", "day", "week"] {
        let once = call("date_trunc", vec![s(field), Value::Date(date(2024, 8, 29))]).unwrap();
        let twice = call("date_trunc", vec![s(field), once.clone()]).unwrap();
        assert_eq!(once, twice);
    }
}

#[test]
fn a_parent_is_one_level_shallower() {
    for account in ["Assets:Bank:Checking", "Expenses:Food", "a:b:c:d:e"] {
        let parent = call("parent", vec![s(account)]).unwrap();
        let depth = call("account_depth", vec![s(account)]).unwrap();
        let parent_depth = call("account_depth", vec![parent]).unwrap();
        match (depth, parent_depth) {
            (Value::Integer(d), Value::Integer(p)) => assert_eq!(p + 1, d),
            other => panic!("unexpected values {other:?}"),
        }
    }
}
