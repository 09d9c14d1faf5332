//! BQL date functions, evaluated on already-evaluated argument values.

use vstd::prelude::*;
use crate::date::{
    Date, day_number, new_year, chrono_add_days, chrono_iso_week, chrono_parse_from_str, from_ymd,
    days_between, weekday_from_monday, ordinal, iso_week, parse_from_str, add_days, MAX_DELTA_DAYS,
    lemma_day_number_bound,
};
use crate::dec::{pow10, trunc_int, to_i64, to_i32, to_u32, fract_is_zero};
use crate::interval::{Interval, IntervalUnit, unit_of_upper};
use crate::text::{
    str_eq, string_of, push_str, push_char, nat_text, int_text, u64_text, i64_text, std_to_uppercase, to_uppercase,
    parse_i64, parse_i64_spec, split_whitespace, std_split_whitespace, zero_pad,
};
use crate::value::{Value, QueryError, QueryErrorSpec, ValueView, rview, value_wf, type_error};
use crate::funcs::{
    call_arity_error, require_args, today, to_lowercase, std_to_lowercase, int_div, trunc_div, lemma_trunc_div_between,
    floor_div, floor_div_i64, lemma_floor_div_bounds,
};

verus! {

/// An integer written with at least `w` characters, zeros after the sign
/// (the `{:0w}` format of std).
pub open spec fn padded_int(i: int, w: int) -> Seq<char> {
    if i < 0 {
        seq!['-'] + zero_pad(nat_text((-i) as nat), w - 1)
    } else {
        zero_pad(nat_text(i as nat), w)
    }
}

/// The quarter of a month, from 1.
pub open spec fn quarter_of(month: u32) -> int {
    (month - 1) / 3 + 1
}

/// A text padded on the left with zeros to at least `w` characters.
fn zero_padded(t: String, w: usize) -> (res: String)
    ensures
        res@ == zero_pad(t@, w as int),
{
    let n = t.as_str().unicode_len();
    if n >= w {
        return t;
    }
    let mut s = String::new();
    let mut k: usize = 0;
    while k < w - n
        invariant
            n < w,
            k <= w - n,
            s@ == Seq::new(k as nat, |_i: int| '0'),
        decreases w - n - k,
    {
        push_char(&mut s, '0');
        assert(s@ =~= Seq::new((k + 1) as nat, |_i: int| '0'));
        k = k + 1;
    }
    push_str(&mut s, t.as_str());
    s
}

/// An integer written with at least `w` characters, zeros after the sign.
fn padded(i: i64, w: usize) -> (res: String)
    requires
        w >= 1,
    ensures
        res@ == padded_int(i as int, w as int),
{
    if i < 0 {
        let mag: u64 = if i == i64::MIN { 9223372036854775808u64 } else { (-i) as u64 };
        let digits = zero_padded(u64_text(mag), w - 1);
        let mut s = string_of("-");
        push_str(&mut s, digits.as_str());
        proof {
            reveal_strlit("-");
        }
        assert(s@ =~= seq!['-'] + zero_pad(nat_text((-i) as nat), w - 1));
        s
    } else {
        zero_padded(u64_text(i as u64), w)
    }
}

/// The date functions `YEAR`, `MONTH`, `DAY`, `WEEKDAY`, `QUARTER` and
/// `YMONTH` of one date argument, and the argument errors of `TODAY`.
pub open spec fn date_function_spec(name: Seq<char>, args: Seq<Value>) -> Result<ValueView, QueryErrorSpec> {
    if name == "TODAY"@ {
        Err(QueryErrorSpec::InvalidArguments("TODAY"@, "expected 0 arguments"@))
    } else if args.len() != 1 {
        Err(QueryErrorSpec::InvalidArguments(name, "expected 1 argument"@))
    } else {
        match args[0] {
            Value::Date(d) => Ok(
                if name == "YEAR"@ {
                    ValueView::Integer(d.year as i64)
                } else if name == "MONTH"@ {
                    ValueView::Integer(d.month as i64)
                } else if name == "DAY"@ {
                    ValueView::Integer(d.day as i64)
                } else if name == "WEEKDAY"@ {
                    ValueView::Integer(((day_number(d) + 3) % 7) as i64)
                } else if name == "QUARTER"@ {
                    ValueView::Integer(quarter_of(d.month) as i64)
                } else {
                    ValueView::String(padded_int(d.year as int, 4) + "-"@ + padded_int(d.month as int, 2))
                },
            ),
            _ => Err(QueryErrorSpec::Type(name + " expects a date"@)),
        }
    }
}

/// Evaluate the date functions `YEAR`, `MONTH`, `DAY`, `WEEKDAY`,
/// `QUARTER`, `YMONTH` and `TODAY` (today's date in the local time zone,
/// which depends on the clock).
pub fn eval_date_function(name: &str, args: &[Value]) -> (res: Result<Value, QueryError>)
    requires
        name@ == "YEAR"@ || name@ == "MONTH"@ || name@ == "DAY"@ || name@ == "WEEKDAY"@ || name@ == "QUARTER"@
            || name@ == "YMONTH"@ || name@ == "TODAY"@,
        forall|i: int| 0 <= i < args@.len() ==> value_wf(#[trigger] args@[i]),
    ensures
        name@ == "TODAY"@ && args@.len() == 0 ==> (res matches Ok(Value::Date(d)) && d.wf()),
        !(name@ == "TODAY"@ && args@.len() == 0) ==> rview(res) == date_function_spec(name@, args@),
{
    if str_eq(name, "TODAY") {
        if args.len() != 0 {
            return Err(QueryError::InvalidArguments(string_of("TODAY"), string_of("expected 0 arguments")));
        }
        return Ok(Value::Date(today()));
    }
    if args.len() != 1 {
        return Err(QueryError::InvalidArguments(string_of(name), string_of("expected 1 argument")));
    }
    let date = match &args[0] {
        Value::Date(d) => *d,
        _ => {
            let mut msg = string_of(name);
            push_str(&mut msg, " expects a date");
            return Err(QueryError::Type(msg));
        },
    };
    assert(value_wf(args@[0]));
    if str_eq(name, "YEAR") {
        Ok(Value::Integer(date.year as i64))
    } else if str_eq(name, "MONTH") {
        Ok(Value::Integer(date.month as i64))
    } else if str_eq(name, "DAY") {
        Ok(Value::Integer(date.day as i64))
    } else if str_eq(name, "WEEKDAY") {
        Ok(Value::Integer(weekday_from_monday(date) as i64))
    } else if str_eq(name, "QUARTER") {
        Ok(Value::Integer(((date.month - 1) / 3 + 1) as i64))
    } else {
        let mut s = padded(date.year as i64, 4);
        push_str(&mut s, "-");
        push_str(&mut s, padded(date.month as i64, 2).as_str());
        Ok(Value::String(s))
    }
}

/// A year argument of `DATE`: an integer (cast to `i32`) or a decimal whose
/// whole part fits an `i32`.
pub open spec fn year_arg(v: Value) -> Option<i32> {
    match v {
        Value::Integer(i) => Some(i as i32),
        Value::Number(n) => if i32::MIN <= trunc_int(n) <= i32::MAX { Some(trunc_int(n) as i32) } else { None },
        _ => None,
    }
}

/// A month or day argument of `DATE`: an integer (cast to `u32`) or a
/// non-negative decimal whose whole part fits a `u32`.
pub open spec fn month_day_arg(v: Value) -> Option<u32> {
    match v {
        Value::Integer(i) => Some(i as u32),
        Value::Number(n) => if n.mantissa >= 0 && trunc_int(n) <= u32::MAX { Some(trunc_int(n) as u32) } else { None },
        _ => None,
    }
}

/// The `DATE` function: a date parsed from `YYYY-MM-DD`, or made from a
/// year, a month and a day.
pub open spec fn date_construct_spec(args: Seq<Value>) -> Result<ValueView, QueryErrorSpec> {
    if args.len() == 1 {
        match args[0] {
            Value::String(s) => match chrono_parse_from_str(s@, "%Y-%m-%d"@) {
                Ok(d) => Ok(ValueView::Date(d)),
                Err(_) => Err(QueryErrorSpec::Type("DATE: cannot parse '"@ + s@ + "' as date"@)),
            },
            Value::Date(d) => Ok(ValueView::Date(d)),
            _ => Err(QueryErrorSpec::Type("DATE: argument must be a string or date"@)),
        }
    } else if args.len() == 3 {
        match year_arg(args[0]) {
            None => Err(QueryErrorSpec::Type("DATE: year must be an integer"@)),
            Some(y) => match month_day_arg(args[1]) {
                None => Err(QueryErrorSpec::Type("DATE: month must be an integer"@)),
                Some(m) => match month_day_arg(args[2]) {
                    None => Err(QueryErrorSpec::Type("DATE: day must be an integer"@)),
                    Some(d) => if (Date { year: y, month: m, day: d }).wf() {
                        Ok(ValueView::Date(Date { year: y, month: m, day: d }))
                    } else {
                        Err(
                            QueryErrorSpec::Type(
                                "DATE: invalid date "@ + int_text(y as int) + "-"@ + nat_text(m as nat) + "-"@
                                    + nat_text(d as nat),
                            ),
                        )
                    },
                },
            },
        }
    } else {
        Err(QueryErrorSpec::InvalidArguments("DATE"@, "expected 1 or 3 arguments"@))
    }
}

/// Evaluate a year argument of `DATE`.
fn eval_year_arg(v: &Value) -> (res: Option<i32>)
    requires
        value_wf(*v),
    ensures
        res == year_arg(*v),
{
    match v {
        Value::Integer(i) => Some(*i as i32),
        Value::Number(n) => to_i32(*n),
        _ => None,
    }
}

/// Evaluate a month or day argument of `DATE`.
fn eval_month_day_arg(v: &Value) -> (res: Option<u32>)
    requires
        value_wf(*v),
    ensures
        res == month_day_arg(*v),
{
    match v {
        Value::Integer(i) => Some(*i as u32),
        Value::Number(n) => to_u32(*n),
        _ => None,
    }
}

/// Evaluate `DATE` on evaluated arguments.
pub fn eval_date_construct(args: &[Value]) -> (res: Result<Value, QueryError>)
    requires
        forall|i: int| 0 <= i < args@.len() ==> value_wf(#[trigger] args@[i]),
    ensures
        rview(res) == date_construct_spec(args@),
{
    if args.len() == 1 {
        return match &args[0] {
            Value::String(s) => match parse_from_str(s.as_str(), "%Y-%m-%d") {
                Ok(d) => Ok(Value::Date(d)),
                Err(_) => {
                    let mut msg = string_of("DATE: cannot parse '");
                    push_str(&mut msg, s.as_str());
                    push_str(&mut msg, "' as date");
                    Err(QueryError::Type(msg))
                },
            },
            Value::Date(d) => Ok(Value::Date(*d)),
            _ => Err(type_error("DATE: argument must be a string or date")),
        };
    }
    if args.len() != 3 {
        return Err(QueryError::InvalidArguments(string_of("DATE"), string_of("expected 1 or 3 arguments")));
    }
    assert(value_wf(args@[0]) && value_wf(args@[1]) && value_wf(args@[2]));
    let year = match eval_year_arg(&args[0]) {
        Some(y) => y,
        None => {
            return Err(type_error("DATE: year must be an integer"));
        },
    };
    let month = match eval_month_day_arg(&args[1]) {
        Some(m) => m,
        None => {
            return Err(type_error("DATE: month must be an integer"));
        },
    };
    let day = match eval_month_day_arg(&args[2]) {
        Some(d) => d,
        None => {
            return Err(type_error("DATE: day must be an integer"));
        },
    };
    match from_ymd(year, month, day) {
        Some(d) => Ok(Value::Date(d)),
        None => {
            let mut msg = string_of("DATE: invalid date ");
            push_str(&mut msg, i64_text(year as i64).as_str());
            push_str(&mut msg, "-");
            push_str(&mut msg, u64_text(month as u64).as_str());
            push_str(&mut msg, "-");
            push_str(&mut msg, u64_text(day as u64).as_str());
            Err(QueryError::Type(msg))
        },
    }
}

/// The `DATE_DIFF` function: the days from the second date to the first.
pub open spec fn date_diff_spec(args: Seq<Value>) -> Result<ValueView, QueryErrorSpec> {
    if args.len() != 2 {
        Err(call_arity_error("DATE_DIFF"@, 2))
    } else {
        match args[0] {
            Value::Date(a) => match args[1] {
                Value::Date(b) => Ok(ValueView::Integer((day_number(a) - day_number(b)) as i64)),
                _ => Err(QueryErrorSpec::Type("DATE_DIFF: second argument must be a date"@)),
            },
            _ => Err(QueryErrorSpec::Type("DATE_DIFF: first argument must be a date"@)),
        }
    }
}

/// Evaluate `DATE_DIFF` on evaluated arguments.
pub fn eval_date_diff(args: &[Value]) -> (res: Result<Value, QueryError>)
    requires
        forall|i: int| 0 <= i < args@.len() ==> value_wf(#[trigger] args@[i]),
    ensures
        rview(res) == date_diff_spec(args@),
{
    match require_args("DATE_DIFF", args, 2) {
        Ok(()) => {},
        Err(e) => {
            return Err(e);
        },
    }
    let a = match &args[0] {
        Value::Date(d) => *d,
        _ => {
            return Err(type_error("DATE_DIFF: first argument must be a date"));
        },
    };
    let b = match &args[1] {
        Value::Date(d) => *d,
        _ => {
            return Err(type_error("DATE_DIFF: second argument must be a date"));
        },
    };
    assert(value_wf(args@[0]) && value_wf(args@[1]));
    Ok(Value::Integer(days_between(a, b)))
}

/// The days a `DATE_ADD` second argument adds: an integer, or the whole part
/// of a decimal when it fits an `i64`.
pub open spec fn days_arg(v: Value) -> Option<i64> {
    match v {
        Value::Integer(i) => Some(i),
        Value::Number(n) => if i64::MIN <= trunc_int(n) <= i64::MAX { Some(trunc_int(n) as i64) } else { None },
        _ => None,
    }
}

/// The `DATE_ADD` function: a date moved by a number of days or by an
/// interval.
pub open spec fn date_add_spec(args: Seq<Value>) -> Result<ValueView, QueryErrorSpec> {
    if args.len() != 2 {
        Err(call_arity_error("DATE_ADD"@, 2))
    } else {
        match args[0] {
            Value::Date(d) => match args[1] {
                Value::Interval(iv) => match iv.add_to_date_spec(d) {
                    Some(r) => Ok(ValueView::Date(r)),
                    None => Err(QueryErrorSpec::Evaluation("DATE_ADD: interval overflow"@)),
                },
                Value::Integer(_) | Value::Number(_) => match days_arg(args[1]) {
                    Some(days) => Ok(ValueView::Date(chrono_add_days(d, days as int)->Some_0)),
                    None => Err(QueryErrorSpec::Type("DATE_ADD: days must be an integer"@)),
                },
                _ => Err(QueryErrorSpec::Type("DATE_ADD: second argument must be an integer or interval"@)),
            },
            _ => Err(QueryErrorSpec::Type("DATE_ADD: first argument must be a date"@)),
        }
    }
}

/// The day or interval arithmetic of `DATE_ADD` does not fault: a day count
/// that a time span can hold and whose result is in the calendar's range (the
/// date arithmetic panics otherwise), and an interval that can be applied.
pub open spec fn date_add_defined(args: Seq<Value>) -> bool {
    args.len() == 2 ==> match (args[0], args[1]) {
        (Value::Date(d), Value::Interval(iv)) => iv.applicable(),
        (Value::Date(d), v) => match days_arg(v) {
            Some(days) => -MAX_DELTA_DAYS <= days <= MAX_DELTA_DAYS && chrono_add_days(d, days as int) is Some,
            None => true,
        },
        _ => true,
    }
}

/// Evaluate `DATE_ADD` on evaluated arguments.
pub fn eval_date_add(args: &[Value]) -> (res: Result<Value, QueryError>)
    requires
        forall|i: int| 0 <= i < args@.len() ==> value_wf(#[trigger] args@[i]),
        date_add_defined(args@),
    ensures
        rview(res) == date_add_spec(args@),
        args@.len() == 2 ==> (args@[0] matches Value::Date(d) ==> (days_arg(args@[1]) matches Some(n) ==> (res matches Ok(
            Value::Date(r),
        ) && day_number(r) == day_number(d) + n))),
{
    match require_args("DATE_ADD", args, 2) {
        Ok(()) => {},
        Err(e) => {
            return Err(e);
        },
    }
    let date = match &args[0] {
        Value::Date(d) => *d,
        _ => {
            return Err(type_error("DATE_ADD: first argument must be a date"));
        },
    };
    assert(value_wf(args@[0]) && value_wf(args@[1]));
    let days: i64 = match &args[1] {
        Value::Integer(i) => *i,
        Value::Number(n) => match to_i64(*n) {
            Some(k) => k,
            None => {
                return Err(type_error("DATE_ADD: days must be an integer"));
            },
        },
        Value::Interval(iv) => {
            return match iv.add_to_date(date) {
                Some(r) => Ok(Value::Date(r)),
                None => Err(QueryError::Evaluation(string_of("DATE_ADD: interval overflow"))),
            };
        },
        _ => {
            return Err(type_error("DATE_ADD: second argument must be an integer or interval"));
        },
    };
    Ok(Value::Date(add_days(date, days).unwrap()))
}

/// The `DATE_TRUNC` function: the first day of the year, quarter, month or
/// week (from Monday) of a date, or the date itself for `DAY`; the field is
/// read case-insensitively.
pub open spec fn date_trunc_spec(args: Seq<Value>) -> Result<ValueView, QueryErrorSpec> {
    if args.len() != 2 {
        Err(call_arity_error("DATE_TRUNC"@, 2))
    } else {
        match args[0] {
            Value::String(s) => {
                let field = std_to_uppercase(s@);
                match args[1] {
                    Value::Date(d) => if field == "YEAR"@ {
                        Ok(ValueView::Date(Date { year: d.year, month: 1, day: 1 }))
                    } else if field == "QUARTER"@ {
                        Ok(ValueView::Date(Date { year: d.year, month: ((d.month - 1) / 3 * 3 + 1) as u32, day: 1 }))
                    } else if field == "MONTH"@ {
                        Ok(ValueView::Date(Date { year: d.year, month: d.month, day: 1 }))
                    } else if field == "WEEK"@ {
                        Ok(ValueView::Date(chrono_add_days(d, -((day_number(d) + 3) % 7))->Some_0))
                    } else if field == "DAY"@ {
                        Ok(ValueView::Date(d))
                    } else {
                        Err(
                            QueryErrorSpec::Type(
                                "DATE_TRUNC: unknown field '"@ + field
                                    + "', expected YEAR, QUARTER, MONTH, WEEK, or DAY"@,
                            ),
                        )
                    },
                    _ => Err(QueryErrorSpec::Type("DATE_TRUNC: second argument must be a date"@)),
                }
            },
            _ => Err(QueryErrorSpec::Type("DATE_TRUNC: first argument must be a string"@)),
        }
    }
}

/// The Monday of a week is within the calendar's range (the date arithmetic
/// panics otherwise, for dates in the first days of the range).
pub open spec fn date_trunc_defined(args: Seq<Value>) -> bool {
    args.len() == 2 ==> match (args[0], args[1]) {
        (Value::String(s), Value::Date(d)) => std_to_uppercase(s@) == "WEEK"@ ==> chrono_add_days(
            d,
            -((day_number(d) + 3) % 7),
        ) is Some,
        _ => true,
    }
}

/// Evaluate `DATE_TRUNC` on evaluated arguments.
pub fn eval_date_trunc(args: &[Value]) -> (res: Result<Value, QueryError>)
    requires
        forall|i: int| 0 <= i < args@.len() ==> value_wf(#[trigger] args@[i]),
        date_trunc_defined(args@),
    ensures
        rview(res) == date_trunc_spec(args@),
{
    match require_args("DATE_TRUNC", args, 2) {
        Ok(()) => {},
        Err(e) => {
            return Err(e);
        },
    }
    let field = match &args[0] {
        Value::String(s) => to_uppercase(s.as_str()),
        _ => {
            return Err(type_error("DATE_TRUNC: first argument must be a string"));
        },
    };
    let date = match &args[1] {
        Value::Date(d) => *d,
        _ => {
            return Err(type_error("DATE_TRUNC: second argument must be a date"));
        },
    };
    assert(value_wf(args@[1]));
    let f = field.as_str();
    if str_eq(f, "YEAR") {
        Ok(Value::Date(from_ymd(date.year, 1, 1).unwrap()))
    } else if str_eq(f, "QUARTER") {
        let quarter = (date.month - 1) / 3;
        Ok(Value::Date(from_ymd(date.year, quarter * 3 + 1, 1).unwrap()))
    } else if str_eq(f, "MONTH") {
        Ok(Value::Date(from_ymd(date.year, date.month, 1).unwrap()))
    } else if str_eq(f, "WEEK") {
        let back = weekday_from_monday(date) as i64;
        Ok(Value::Date(add_days(date, -back).unwrap()))
    } else if str_eq(f, "DAY") {
        Ok(Value::Date(date))
    } else {
        let mut msg = string_of("DATE_TRUNC: unknown field '");
        push_str(&mut msg, f);
        push_str(&mut msg, "', expected YEAR, QUARTER, MONTH, WEEK, or DAY");
        Err(QueryError::Type(msg))
    }
}

/// The `DATE_PART` function: one field of a date, by a case-insensitive
/// name.
pub open spec fn date_part_spec(args: Seq<Value>) -> Result<ValueView, QueryErrorSpec> {
    if args.len() != 2 {
        Err(call_arity_error("DATE_PART"@, 2))
    } else {
        match args[0] {
            Value::String(s) => {
                let field = std_to_uppercase(s@);
                match args[1] {
                    Value::Date(d) => if field == "YEAR"@ {
                        Ok(ValueView::Integer(d.year as i64))
                    } else if field == "MONTH"@ {
                        Ok(ValueView::Integer(d.month as i64))
                    } else if field == "DAY"@ {
                        Ok(ValueView::Integer(d.day as i64))
                    } else if field == "QUARTER"@ {
                        Ok(ValueView::Integer(quarter_of(d.month) as i64))
                    } else if field == "WEEK"@ {
                        Ok(ValueView::Integer(chrono_iso_week(d) as i64))
                    } else if field == "WEEKDAY"@ || field == "DOW"@ {
                        Ok(ValueView::Integer(((day_number(d) + 3) % 7) as i64))
                    } else if field == "DOY"@ {
                        Ok(ValueView::Integer((day_number(d) - day_number(new_year(d)) + 1) as i64))
                    } else {
                        Err(
                            QueryErrorSpec::Type(
                                "DATE_PART: unknown field '"@ + field
                                    + "', expected YEAR, MONTH, DAY, QUARTER, WEEK, WEEKDAY, DOW, or DOY"@,
                            ),
                        )
                    },
                    _ => Err(QueryErrorSpec::Type("DATE_PART: second argument must be a date"@)),
                }
            },
            _ => Err(QueryErrorSpec::Type("DATE_PART: first argument must be a string"@)),
        }
    }
}

/// Evaluate `DATE_PART` on evaluated arguments.
pub fn eval_date_part(args: &[Value]) -> (res: Result<Value, QueryError>)
    requires
        forall|i: int| 0 <= i < args@.len() ==> value_wf(#[trigger] args@[i]),
    ensures
        rview(res) == date_part_spec(args@),
{
    match require_args("DATE_PART", args, 2) {
        Ok(()) => {},
        Err(e) => {
            return Err(e);
        },
    }
    let field = match &args[0] {
        Value::String(s) => to_uppercase(s.as_str()),
        _ => {
            return Err(type_error("DATE_PART: first argument must be a string"));
        },
    };
    let date = match &args[1] {
        Value::Date(d) => *d,
        _ => {
            return Err(type_error("DATE_PART: second argument must be a date"));
        },
    };
    assert(value_wf(args@[1]));
    let f = field.as_str();
    let part: i64 = if str_eq(f, "YEAR") {
        date.year as i64
    } else if str_eq(f, "MONTH") {
        date.month as i64
    } else if str_eq(f, "DAY") {
        date.day as i64
    } else if str_eq(f, "QUARTER") {
        ((date.month - 1) / 3 + 1) as i64
    } else if str_eq(f, "WEEK") {
        iso_week(date) as i64
    } else if str_eq(f, "WEEKDAY") || str_eq(f, "DOW") {
        weekday_from_monday(date) as i64
    } else if str_eq(f, "DOY") {
        ordinal(date) as i64
    } else {
        let mut msg = string_of("DATE_PART: unknown field '");
        push_str(&mut msg, f);
        push_str(&mut msg, "', expected YEAR, MONTH, DAY, QUARTER, WEEK, WEEKDAY, DOW, or DOY");
        return Err(QueryError::Type(msg));
    };
    Ok(Value::Integer(part))
}

/// The `PARSE_DATE` function: a date parsed with a format.
pub open spec fn parse_date_spec(args: Seq<Value>) -> Result<ValueView, QueryErrorSpec> {
    if args.len() != 2 {
        Err(call_arity_error("PARSE_DATE"@, 2))
    } else {
        match args[0] {
            Value::String(s) => match args[1] {
                Value::String(f) => match chrono_parse_from_str(s@, f@) {
                    Ok(d) => Ok(ValueView::Date(d)),
                    Err(e) => Err(
                        QueryErrorSpec::Type(
                            "PARSE_DATE: cannot parse '"@ + s@ + "' with format '"@ + f@ + "': "@ + e,
                        ),
                    ),
                },
                _ => Err(QueryErrorSpec::Type("PARSE_DATE: second argument must be a format string"@)),
            },
            _ => Err(QueryErrorSpec::Type("PARSE_DATE: first argument must be a string"@)),
        }
    }
}

/// Evaluate `PARSE_DATE` on evaluated arguments.
pub fn eval_parse_date(args: &[Value]) -> (res: Result<Value, QueryError>)
    ensures
        rview(res) == parse_date_spec(args@),
{
    match require_args("PARSE_DATE", args, 2) {
        Ok(()) => {},
        Err(e) => {
            return Err(e);
        },
    }
    let s = match &args[0] {
        Value::String(s) => s,
        _ => {
            return Err(type_error("PARSE_DATE: first argument must be a string"));
        },
    };
    let f = match &args[1] {
        Value::String(f) => f,
        _ => {
            return Err(type_error("PARSE_DATE: second argument must be a format string"));
        },
    };
    match parse_from_str(s.as_str(), f.as_str()) {
        Ok(d) => Ok(Value::Date(d)),
        Err(e) => {
            let mut msg = string_of("PARSE_DATE: cannot parse '");
            push_str(&mut msg, s.as_str());
            push_str(&mut msg, "' with format '");
            push_str(&mut msg, f.as_str());
            push_str(&mut msg, "': ");
            push_str(&mut msg, e.as_str());
            Err(QueryError::Type(msg))
        },
    }
}

/// The count argument of `INTERVAL`: an integer, or a decimal without a
/// fraction whose value fits an `i64`.
pub open spec fn interval_count(v: Value) -> Result<i64, QueryErrorSpec> {
    match v {
        Value::Integer(n) => Ok(n),
        Value::Number(d) => if (if d.mantissa < 0 { -d.mantissa } else { d.mantissa as int }) % pow10(d.scale as nat)
            != 0 {
            Err(QueryErrorSpec::Type("interval() count must be an integer"@))
        } else if i64::MIN <= trunc_int(d) <= i64::MAX {
            Ok(trunc_int(d) as i64)
        } else {
            Err(QueryErrorSpec::Type("interval() count must be an integer"@))
        },
        _ => Err(QueryErrorSpec::Type("interval() count must be a number"@)),
    }
}

/// The unit argument of `INTERVAL`.
pub open spec fn interval_unit(v: Value) -> Result<IntervalUnit, QueryErrorSpec> {
    match v {
        Value::String(s) => match unit_of_upper(std_to_uppercase(s@)) {
            Some(u) => Ok(u),
            None => Err(QueryErrorSpec::InvalidArguments("INTERVAL"@, "invalid interval unit: "@ + s@)),
        },
        _ => Err(QueryErrorSpec::Type("interval() unit must be a string"@)),
    }
}

/// The `INTERVAL` function: an interval of one unit, or of a count of units.
pub open spec fn interval_spec(args: Seq<Value>) -> Result<ValueView, QueryErrorSpec> {
    if args.len() == 1 {
        match interval_unit(args[0]) {
            Ok(u) => Ok(ValueView::Interval(Interval { count: 1, unit: u })),
            Err(e) => Err(e),
        }
    } else if args.len() == 2 {
        match interval_count(args[0]) {
            Err(e) => Err(e),
            Ok(n) => match interval_unit(args[1]) {
                Ok(u) => Ok(ValueView::Interval(Interval { count: n, unit: u })),
                Err(e) => Err(e),
            },
        }
    } else {
        Err(QueryErrorSpec::InvalidArguments("INTERVAL"@, "expected 1 or 2 arguments"@))
    }
}

/// Evaluate the unit argument of `INTERVAL`.
fn eval_interval_unit(v: &Value) -> (res: Result<IntervalUnit, QueryError>)
    ensures
        match res {
            Ok(u) => interval_unit(*v) == Ok::<IntervalUnit, QueryErrorSpec>(u),
            Err(e) => interval_unit(*v) == Err::<IntervalUnit, QueryErrorSpec>(e.spec()),
        },
{
    match v {
        Value::String(s) => match IntervalUnit::parse_unit(s.as_str()) {
            Some(u) => Ok(u),
            None => {
                let mut msg = string_of("invalid interval unit: ");
                push_str(&mut msg, s.as_str());
                Err(QueryError::InvalidArguments(string_of("INTERVAL"), msg))
            },
        },
        _ => Err(type_error("interval() unit must be a string")),
    }
}

/// Evaluate `INTERVAL` on evaluated arguments.
pub fn eval_interval(args: &[Value]) -> (res: Result<Value, QueryError>)
    requires
        forall|i: int| 0 <= i < args@.len() ==> value_wf(#[trigger] args@[i]),
    ensures
        rview(res) == interval_spec(args@),
{
    if args.len() == 1 {
        return match eval_interval_unit(&args[0]) {
            Ok(u) => Ok(Value::Interval(Interval::new(1, u))),
            Err(e) => Err(e),
        };
    }
    if args.len() != 2 {
        return Err(QueryError::InvalidArguments(string_of("INTERVAL"), string_of("expected 1 or 2 arguments")));
    }
    assert(value_wf(args@[0]));
    let count: i64 = match &args[0] {
        Value::Integer(n) => *n,
        Value::Number(d) => {
            if !fract_is_zero(*d) {
                return Err(type_error("interval() count must be an integer"));
            }
            match to_i64(*d) {
                Some(k) => k,
                None => {
                    return Err(type_error("interval() count must be an integer"));
                },
            }
        },
        _ => {
            return Err(type_error("interval() count must be a number"));
        },
    };
    match eval_interval_unit(&args[1]) {
        Ok(u) => Ok(Value::Interval(Interval::new(count, u))),
        Err(e) => Err(e),
    }
}

/// A unit word without its trailing `s` characters.
pub open spec fn trim_trailing_s(u: Seq<char>) -> Seq<char>
    decreases u.len(),
{
    if u.len() > 0 && u.last() == 's' {
        trim_trailing_s(u.drop_last())
    } else {
        u
    }
}

/// The remainder of integer division truncated towards zero (Rust's `%`).
pub open spec fn trunc_rem(a: int, b: int) -> int {
    a - b * trunc_div(a, b)
}

/// The date of a year, month and day, or `fallback` when there is none
/// (the month is cast to `u32`, wrapping as such a cast does).
pub open spec fn ymd_or(year: int, month: int, day: int, fallback: Date) -> Date {
    let d = Date { year: year as i32, month: month as u32, day: day as u32 };
    if d.wf() { d } else { fallback }
}

/// The months from one date's month to another's.
pub open spec fn months_between(source: Date, origin: Date) -> int {
    (source.year - origin.year) * 12 + source.month - origin.month
}

/// The stride of `DATE_BIN`: the count and the unit word, read from the
/// lower-cased stride text split at white space.
pub open spec fn stride_parts(stride: Seq<char>) -> Result<(i64, Seq<char>), QueryErrorSpec> {
    let parts = std_split_whitespace(std_to_lowercase(stride));
    if parts.len() == 2 {
        match parse_i64_spec(parts[0]) {
            Some(n) => Ok((n, parts[1])),
            None => Err(QueryErrorSpec::Type("DATE_BIN: invalid stride number '"@ + parts[0] + "'"@)),
        }
    } else if parts.len() == 1 {
        Ok((1, parts[0]))
    } else {
        Err(QueryErrorSpec::Type("DATE_BIN: invalid stride format '"@ + stride + "'"@))
    }
}

/// The days in a bin of day or week units; `None` for other units.
pub open spec fn day_stride(amount: i64, unit: Seq<char>) -> Option<int> {
    let u = trim_trailing_s(unit);
    if u == "day"@ {
        Some(amount as int)
    } else if u == "week"@ {
        Some(amount * 7)
    } else {
        None
    }
}

/// The start of the bin of `source`: bins of `amount` units laid from
/// `origin` in both directions, the bin holding `source` found by division
/// rounded down; `None` for an unknown unit. Month, quarter and year bins
/// go by the month (or year) numbers and start on the first of a month (or
/// on the origin's day of the year).
pub open spec fn bin_start(amount: i64, unit: Seq<char>, source: Date, origin: Date) -> Option<Date> {
    let u = trim_trailing_s(unit);
    let days = day_number(source) - day_number(origin);
    let a32: int = (amount as i32) as int;
    match day_stride(amount, unit) {
        Some(per) => Some(chrono_add_days(origin, floor_div(days, per) * per)->Some_0),
        None => if u == "month"@ {
            let total = origin.month - 1 + floor_div(months_between(source, origin), a32) * a32;
            Some(ymd_or(origin.year + total / 12, total % 12 + 1, 1, origin))
        } else if u == "quarter"@ {
            let total = origin.month - 1 + floor_div(months_between(source, origin), 3 * a32) * (3 * a32);
            Some(ymd_or(origin.year + total / 12, total % 12 + 1, 1, origin))
        } else if u == "year"@ {
            let y = origin.year + floor_div(source.year - origin.year, a32) * a32;
            Some(ymd_or(y, origin.month as int, origin.day as int, origin))
        } else {
            None
        },
    }
}

/// The bin that `DATE_BIN` gives for a day or week stride of `per > 0` days
/// holds the source: it starts at most `per - 1` days before it, a whole
/// number of strides from the origin.
pub open spec fn day_bin_holds(args: Seq<Value>, r: Date) -> bool {
    args.len() == 3 ==> match (stride_text(args[0]), args[1], args[2]) {
        (Some(stride), Value::Date(source), Value::Date(origin)) => match stride_parts(stride) {
            Ok((amount, unit)) => match day_stride(amount, unit) {
                Some(per) => per > 0 ==> {
                    &&& day_number(r) <= day_number(source) < day_number(r) + per
                    &&& (day_number(r) - day_number(origin)) % per == 0
                },
                None => true,
            },
            Err(_) => true,
        },
        _ => true,
    }
}

/// The stride text of a `DATE_BIN` first argument.
pub open spec fn stride_text(v: Value) -> Option<Seq<char>> {
    match v {
        Value::String(s) => Some(s@),
        Value::Integer(n) => Some(int_text(n as int) + " days"@),
        _ => None,
    }
}

/// The `DATE_BIN` function: the start of the bin of a date, for bins of a
/// stride laid from an origin.
pub open spec fn date_bin_spec(args: Seq<Value>) -> Result<ValueView, QueryErrorSpec> {
    if args.len() != 3 {
        Err(call_arity_error("DATE_BIN"@, 3))
    } else {
        match stride_text(args[0]) {
            None => Err(QueryErrorSpec::Type("DATE_BIN: first argument must be a stride string or integer days"@)),
            Some(stride) => match args[1] {
                Value::Date(source) => match args[2] {
                    Value::Date(origin) => match stride_parts(stride) {
                        Err(e) => Err(e),
                        Ok((amount, unit)) => match bin_start(amount, unit, source, origin) {
                            Some(d) => Ok(ValueView::Date(d)),
                            None => Err(
                                QueryErrorSpec::Type(
                                    "DATE_BIN: unknown unit '"@ + unit
                                        + "', expected day(s), week(s), month(s), quarter(s), or year(s)"@,
                                ),
                            ),
                        },
                    },
                    _ => Err(QueryErrorSpec::Type("DATE_BIN: third argument must be a date"@)),
                },
                _ => Err(QueryErrorSpec::Type("DATE_BIN: second argument must be a date"@)),
            },
        }
    }
}

/// The arithmetic of a bin does not fault: a stride that is not zero (the
/// bin divides by it), a week stride whose days fit an `i64`, a quarter
/// stride whose months fit an `i32`, and day and week bins that land within
/// the calendar's range.
pub open spec fn bin_defined(amount: i64, unit: Seq<char>, source: Date, origin: Date) -> bool {
    let u = trim_trailing_s(unit);
    let days = day_number(source) - day_number(origin);
    let a32: int = (amount as i32) as int;
    &&& (u == "week"@ ==> i64::MIN <= amount * 7 <= i64::MAX)
    &&& (day_stride(amount, unit) matches Some(per) ==> per != 0 && -MAX_DELTA_DAYS <= floor_div(days, per) * per
        <= MAX_DELTA_DAYS && chrono_add_days(origin, floor_div(days, per) * per) is Some)
    &&& ((u == "month"@ || u == "year"@) ==> a32 != 0)
    &&& (u == "quarter"@ ==> a32 != 0 && i32::MIN <= 3 * a32 <= i32::MAX)
}

/// The arithmetic of `DATE_BIN` on these arguments does not fault.
pub open spec fn date_bin_defined(args: Seq<Value>) -> bool {
    args.len() == 3 ==> match (stride_text(args[0]), args[1], args[2]) {
        (Some(stride), Value::Date(source), Value::Date(origin)) => match stride_parts(stride) {
            Ok((amount, unit)) => bin_defined(amount, unit, source, origin),
            Err(_) => true,
        },
        _ => true,
    }
}

/// A unit word without its trailing `s` characters.
fn trim_s(u: &str) -> (res: String)
    ensures
        res@ == trim_trailing_s(u@),
{
    let mut n = u.unicode_len();
    let ghost full = u@;
    assert(u@.subrange(0, n as int) =~= u@);
    while n > 0 && u.get_char(n - 1) == 's'
        invariant
            n <= u@.len(),
            trim_trailing_s(u@.subrange(0, n as int)) == trim_trailing_s(full),
            full == u@,
        decreases n,
    {
        assert(u@.subrange(0, n - 1) =~= u@.subrange(0, n as int).drop_last());
        n = n - 1;
    }
    assert(u@.subrange(0, 0) =~= Seq::<char>::empty());
    String::from_str(u.substring_char(0, n))
}

/// A date of a year, month and day computed in wide integers, or `fallback`.
fn ymd_or_fallback(year: i64, month: i64, day: u32, fallback: Date) -> (res: Date)
    ensures
        res == ymd_or(year as int, month as int, day as int, fallback),
{
    match from_ymd(year as i32, month as u32, day) {
        Some(d) => d,
        None => fallback,
    }
}

/// Evaluate `DATE_BIN` on evaluated arguments.
pub fn eval_date_bin(args: &[Value]) -> (res: Result<Value, QueryError>)
    requires
        forall|i: int| 0 <= i < args@.len() ==> value_wf(#[trigger] args@[i]),
        date_bin_defined(args@),
    ensures
        rview(res) == date_bin_spec(args@),
        res matches Ok(Value::Date(r)) ==> day_bin_holds(args@, r),
{
    match require_args("DATE_BIN", args, 3) {
        Ok(()) => {},
        Err(e) => {
            return Err(e);
        },
    }
    let stride: String = match &args[0] {
        Value::String(s) => s.clone(),
        Value::Integer(n) => {
            let mut t = i64_text(*n);
            push_str(&mut t, " days");
            t
        },
        _ => {
            return Err(type_error("DATE_BIN: first argument must be a stride string or integer days"));
        },
    };
    let source = match &args[1] {
        Value::Date(d) => *d,
        _ => {
            return Err(type_error("DATE_BIN: second argument must be a date"));
        },
    };
    let origin = match &args[2] {
        Value::Date(d) => *d,
        _ => {
            return Err(type_error("DATE_BIN: third argument must be a date"));
        },
    };
    assert(value_wf(args@[1]) && value_wf(args@[2]));
    let lower = to_lowercase(stride.as_str());
    let parts = split_whitespace(lower.as_str());
    let (amount, unit): (i64, &str) = if parts.len() == 2 {
        match parse_i64(parts[0].as_str()) {
            Some(n) => (n, parts[1].as_str()),
            None => {
                let mut msg = string_of("DATE_BIN: invalid stride number '");
                push_str(&mut msg, parts[0].as_str());
                push_str(&mut msg, "'");
                return Err(QueryError::Type(msg));
            },
        }
    } else if parts.len() == 1 {
        (1, parts[0].as_str())
    } else {
        let mut msg = string_of("DATE_BIN: invalid stride format '");
        push_str(&mut msg, stride.as_str());
        push_str(&mut msg, "'");
        return Err(QueryError::Type(msg));
    };
    match bin_date(amount, unit, source, origin) {
        Some(d) => {
            proof {
                match day_stride(amount, unit@) {
                    Some(per) => {
                        if per > 0 {
                            let days = day_number(source) - day_number(origin);
                            lemma_floor_div_bounds(days, per);
                            vstd::arithmetic::div_mod::lemma_mod_multiples_basic(floor_div(days, per), per);
                        }
                    },
                    None => {},
                }
            }
            Ok(Value::Date(d))
        },
        None => {
            let mut msg = string_of("DATE_BIN: unknown unit '");
            push_str(&mut msg, unit);
            push_str(&mut msg, "', expected day(s), week(s), month(s), quarter(s), or year(s)");
            Err(QueryError::Type(msg))
        },
    }
}

/// The start of the bin of `source`, for bins of `amount` units laid from
/// `origin`; `None` for an unknown unit.
fn bin_date(amount: i64, unit: &str, source: Date, origin: Date) -> (res: Option<Date>)
    requires
        source.wf(),
        origin.wf(),
        bin_defined(amount, unit@, source, origin),
    ensures
        res == bin_start(amount, unit@, source, origin),
        day_stride(amount, unit@) matches Some(per) ==> (res matches Some(r) && day_number(r) == day_number(origin)
            + floor_div(day_number(source) - day_number(origin), per) * per),
{
    let trimmed = trim_s(unit);
    let u = trimmed.as_str();
    proof {
        lemma_day_number_bound(source);
        lemma_day_number_bound(origin);
    }
    if str_eq(u, "day") || str_eq(u, "week") {
        let per: i64 = if str_eq(u, "day") { amount } else { amount * 7 };
        Some(bin_by_days(per, source, origin))
    } else if str_eq(u, "month") || str_eq(u, "quarter") {
        let a32: i64 = (amount as i32) as i64;
        let step: i64 = if str_eq(u, "month") { a32 } else { 3 * a32 };
        Some(bin_by_months(step, source, origin))
    } else if str_eq(u, "year") {
        let a32: i64 = (amount as i32) as i64;
        let years: i64 = source.year as i64 - origin.year as i64;
        let q = floor_div_i64(years, a32);
        proof {
            lemma_floor_div_bounds(years as int, a32 as int);
            assert(-8589934592 <= q * a32 <= 8589934592) by (nonlinear_arith)
                requires
                    a32 > 0 ==> q * a32 <= years < q * a32 + a32,
                    a32 < 0 ==> q * a32 + a32 < years <= q * a32,
                    -4294967296 <= years <= 4294967296,
                    -2147483648 <= a32 <= 2147483647,
                    a32 != 0,
            ;
        }
        let year: i64 = origin.year as i64 + q * a32;
        Some(ymd_or_fallback(year, origin.month as i64, origin.day, origin))
    } else {
        None
    }
}

/// The start of the bin of `source` for bins of `per` days laid from
/// `origin`.
fn bin_by_days(per: i64, source: Date, origin: Date) -> (res: Date)
    requires
        source.wf(),
        origin.wf(),
        per != 0,
        -MAX_DELTA_DAYS <= floor_div(day_number(source) - day_number(origin), per as int) * per <= MAX_DELTA_DAYS,
        chrono_add_days(origin, floor_div(day_number(source) - day_number(origin), per as int) * per) is Some,
    ensures
        res == chrono_add_days(origin, floor_div(day_number(source) - day_number(origin), per as int) * per)->Some_0,
        day_number(res) == day_number(origin) + floor_div(day_number(source) - day_number(origin), per as int) * per,
{
    proof {
        lemma_day_number_bound(source);
        lemma_day_number_bound(origin);
    }
    let days = days_between(source, origin);
    let bucket = floor_div_i64(days, per);
    add_days(origin, bucket * per).unwrap()
}

/// The start of the bin of `source` for bins of `step` months laid from the
/// month of `origin`.
fn bin_by_months(step: i64, source: Date, origin: Date) -> (res: Date)
    requires
        source.wf(),
        origin.wf(),
        step != 0,
        i32::MIN <= step <= i32::MAX,
    ensures
        ({
            let total = origin.month - 1 + floor_div(months_between(source, origin), step as int) * step;
            res == ymd_or(origin.year + total / 12, total % 12 + 1, 1, origin)
        }),
{
    let months: i64 = (source.year as i64 - origin.year as i64) * 12 + source.month as i64 - origin.month as i64;
    let q = floor_div_i64(months, step);
    proof {
        lemma_floor_div_bounds(months as int, step as int);
        assert(-60000000000 <= q * step <= 60000000000) by (nonlinear_arith)
            requires
                step > 0 ==> q * step <= months < q * step + step,
                step < 0 ==> q * step + step < months <= q * step,
                -55834574848 <= months <= 55834574848,
                -2147483648 <= step <= 2147483647,
                step != 0,
        ;
    }
    let total: i64 = origin.month as i64 - 1 + q * step;
    let qy = floor_div_i64(total, 12);
    proof {
        lemma_floor_div_bounds(total as int, 12);
        vstd::arithmetic::div_mod::lemma_fundamental_div_mod(total as int, 12);
    }
    let year: i64 = origin.year as i64 + qy;
    let month: i64 = total - 12 * qy + 1;
    ymd_or_fallback(year, month, 1, origin)
}

/// The extended date functions, by name.
pub open spec fn extended_date_spec(name: Seq<char>, args: Seq<Value>) -> Result<ValueView, QueryErrorSpec> {
    if name == "DATE"@ {
        date_construct_spec(args)
    } else if name == "DATE_DIFF"@ {
        date_diff_spec(args)
    } else if name == "DATE_ADD"@ {
        date_add_spec(args)
    } else if name == "DATE_TRUNC"@ {
        date_trunc_spec(args)
    } else if name == "DATE_PART"@ {
        date_part_spec(args)
    } else if name == "PARSE_DATE"@ {
        parse_date_spec(args)
    } else if name == "DATE_BIN"@ {
        date_bin_spec(args)
    } else {
        interval_spec(args)
    }
}

/// The arithmetic of an extended date function does not fault.
pub open spec fn extended_date_defined(name: Seq<char>, args: Seq<Value>) -> bool {
    &&& (name == "DATE_ADD"@ ==> date_add_defined(args))
    &&& (name == "DATE_TRUNC"@ ==> date_trunc_defined(args))
    &&& (name == "DATE_BIN"@ ==> date_bin_defined(args))
}

/// Evaluate the extended date functions `DATE`, `DATE_DIFF`, `DATE_ADD`,
/// `DATE_TRUNC`, `DATE_PART`, `PARSE_DATE`, `DATE_BIN` and `INTERVAL` on
/// evaluated arguments.
pub fn eval_extended_date_function(name: &str, args: &[Value]) -> (res: Result<Value, QueryError>)
    requires
        name@ == "DATE"@ || name@ == "DATE_DIFF"@ || name@ == "DATE_ADD"@ || name@ == "DATE_TRUNC"@ || name@
            == "DATE_PART"@ || name@ == "PARSE_DATE"@ || name@ == "DATE_BIN"@ || name@ == "INTERVAL"@,
        forall|i: int| 0 <= i < args@.len() ==> value_wf(#[trigger] args@[i]),
        extended_date_defined(name@, args@),
    ensures
        rview(res) == extended_date_spec(name@, args@),
{
    if str_eq(name, "DATE") {
        eval_date_construct(args)
    } else if str_eq(name, "DATE_DIFF") {
        eval_date_diff(args)
    } else if str_eq(name, "DATE_ADD") {
        eval_date_add(args)
    } else if str_eq(name, "DATE_TRUNC") {
        eval_date_trunc(args)
    } else if str_eq(name, "DATE_PART") {
        eval_date_part(args)
    } else if str_eq(name, "PARSE_DATE") {
        eval_parse_date(args)
    } else if str_eq(name, "DATE_BIN") {
        eval_date_bin(args)
    } else {
        eval_interval(args)
    }
}

/// Truncating a date to its year, quarter, month or day a second time
/// changes nothing.
pub proof fn law_date_trunc_idempotent(field: Value, d: Date)
    requires
        d.wf(),
        field matches Value::String(f) && std_to_uppercase(f@) != "WEEK"@,
        date_trunc_spec(seq![field, Value::Date(d)]) is Ok,
    ensures
        date_trunc_spec(seq![field, Value::Date(d)]) matches Ok(ValueView::Date(t)) && date_trunc_spec(
            seq![field, Value::Date(t)],
        ) == date_trunc_spec(seq![field, Value::Date(d)]),
{
    let f = field->String_0;
    let u = std_to_uppercase(f@);
    if u == "QUARTER"@ {
        let q = ((d.month - 1) / 3 * 3 + 1) as u32;
        assert(((q - 1) / 3 * 3 + 1) as u32 == q);
    }
}

/// The days a `DATE_ADD` second argument adds.
fn eval_days_arg(v: &Value) -> (res: Option<i64>)
    requires
        value_wf(*v),
    ensures
        res == days_arg(*v),
{
    match v {
        Value::Integer(i) => Some(*i),
        Value::Number(n) => to_i64(*n),
        _ => None,
    }
}

/// Whether the arithmetic of `DATE_ADD` on these arguments does not fault.
pub fn date_add_checked(args: &[Value]) -> (res: bool)
    requires
        forall|i: int| 0 <= i < args@.len() ==> value_wf(#[trigger] args@[i]),
    ensures
        res == date_add_defined(args@),
{
    if args.len() != 2 {
        return true;
    }
    assert(value_wf(args@[0]) && value_wf(args@[1]));
    match &args[0] {
        Value::Date(d) => match &args[1] {
            Value::Interval(iv) => crate::value::interval_applicable(iv),
            v => match eval_days_arg(v) {
                Some(days) => {
                    if days < -MAX_DELTA_DAYS || days > MAX_DELTA_DAYS {
                        false
                    } else {
                        add_days(*d, days).is_some()
                    }
                },
                None => true,
            },
        },
        _ => true,
    }
}

/// Whether `DATE_TRUNC` on these arguments stays within the calendar.
pub fn date_trunc_checked(args: &[Value]) -> (res: bool)
    requires
        forall|i: int| 0 <= i < args@.len() ==> value_wf(#[trigger] args@[i]),
    ensures
        res == date_trunc_defined(args@),
{
    if args.len() != 2 {
        return true;
    }
    match (&args[0], &args[1]) {
        (Value::String(s), Value::Date(d)) => {
            assert(value_wf(args@[1]));
            let field = to_uppercase(s.as_str());
            if str_eq(field.as_str(), "WEEK") {
                let back = weekday_from_monday(*d) as i64;
                add_days(*d, -back).is_some()
            } else {
                true
            }
        },
        _ => true,
    }
}

/// Whether the arithmetic of a bin does not fault.
fn bin_checked(amount: i64, unit: &str, source: Date, origin: Date) -> (res: bool)
    requires
        source.wf(),
        origin.wf(),
    ensures
        res == bin_defined(amount, unit@, source, origin),
{
    let trimmed = trim_s(unit);
    let u = trimmed.as_str();
    proof {
        lemma_day_number_bound(source);
        lemma_day_number_bound(origin);
    }
    let a32: i64 = (amount as i32) as i64;
    let day = str_eq(u, "day");
    let week = str_eq(u, "week");
    let month = str_eq(u, "month");
    let year = str_eq(u, "year");
    let quarter = str_eq(u, "quarter");
    let week_range = if week { -1317624576693539401 <= amount && amount <= 1317624576693539401 } else { true };
    let day_ok = if (day || week) && week_range {
        let per: i64 = if day { amount } else { amount * 7 };
        if per == 0 {
            false
        } else {
            let days = days_between(source, origin);
            let q = floor_div_i64(days, per);
            proof {
                lemma_floor_div_bounds(days as int, per as int);
            }
            let prod: i128 = q as i128 * per as i128;
            if prod < -106751991167 || prod > 106751991167 {
                false
            } else {
                add_days(origin, prod as i64).is_some()
            }
        }
    } else {
        true
    };
    let week_ok = week_range;
    let month_year_ok = if month || year { a32 != 0 } else { true };
    let quarter_ok = if quarter { a32 != 0 && -715827882 <= a32 && a32 <= 715827882 } else { true };
    day_ok && week_ok && month_year_ok && quarter_ok
}

/// Whether the arithmetic of `DATE_BIN` on these arguments does not fault.
pub fn date_bin_checked(args: &[Value]) -> (res: bool)
    requires
        forall|i: int| 0 <= i < args@.len() ==> value_wf(#[trigger] args@[i]),
    ensures
        res == date_bin_defined(args@),
{
    if args.len() != 3 {
        return true;
    }
    let stride: String = match &args[0] {
        Value::String(s) => s.clone(),
        Value::Integer(n) => {
            let mut t = i64_text(*n);
            push_str(&mut t, " days");
            t
        },
        _ => {
            return true;
        },
    };
    let (source, origin) = match (&args[1], &args[2]) {
        (Value::Date(a), Value::Date(b)) => (*a, *b),
        _ => {
            return true;
        },
    };
    assert(value_wf(args@[1]) && value_wf(args@[2]));
    let lower = to_lowercase(stride.as_str());
    let parts = split_whitespace(lower.as_str());
    if parts.len() == 2 {
        match parse_i64(parts[0].as_str()) {
            Some(n) => bin_checked(n, parts[1].as_str(), source, origin),
            None => true,
        }
    } else if parts.len() == 1 {
        bin_checked(1, parts[0].as_str(), source, origin)
    } else {
        true
    }
}

/// Whether the arithmetic of an extended date function on these arguments
/// does not fault.
pub fn extended_date_checked(name: &str, args: &[Value]) -> (res: bool)
    requires
        forall|i: int| 0 <= i < args@.len() ==> value_wf(#[trigger] args@[i]),
    ensures
        res == extended_date_defined(name@, args@),
{
    let add_ok = if str_eq(name, "DATE_ADD") { date_add_checked(args) } else { true };
    let trunc_ok = if str_eq(name, "DATE_TRUNC") { date_trunc_checked(args) } else { true };
    let bin_ok = if str_eq(name, "DATE_BIN") { date_bin_checked(args) } else { true };
    add_ok && trunc_ok && bin_ok
}

} // verus!
