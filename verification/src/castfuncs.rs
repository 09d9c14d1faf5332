//! BQL math and type-casting functions, evaluated on already-evaluated
//! argument values.

use vstd::prelude::*;
use crate::date::chrono_date_display;
use crate::dec::{Dec, decimal_round_dp, decimal_display, round_dp, trunc_int, to_i64};
use crate::text::{
    str_eq, string_of, push_str, int_text, nat_text, digit_char, digits_value, all_digits, i64_text, std_to_uppercase,
    to_uppercase, parse_i64, parse_i64_spec,
};
use crate::validate::{absolute, negated};
use crate::value::{Value, QueryError, QueryErrorSpec, ValueView, rview, value_wf, type_error, int_dec};
use crate::funcs::{call_arity_error, require_args, safediv_spec, safediv_defined, eval_safediv};

verus! {

/// What `Decimal::from_str` (the `str::parse` of `rust_decimal`) gives for a
/// text: the decimal, or `None` when it does not parse.
pub uninterp spec fn decimal_parse_spec(s: Seq<char>) -> Option<Dec>;

/// Calls `str::parse::<rust_decimal::Decimal>`; the outcome is named
/// `decimal_parse_spec`, and a parsed decimal is a valid one.
#[verifier::external_body]
fn parse_decimal(s: &str) -> (res: Option<Dec>)
    ensures
        res == decimal_parse_spec(s@),
        res matches Some(d) ==> d.wf(),
{
    s.parse::<rust_decimal::Decimal>().ok().map(|r| Dec { mantissa: r.mantissa(), scale: r.scale() })
}

/// The `ROUND` function: a decimal rounded to 0 places, or to the places of
/// the second argument (cast to `u32`); an integer is returned as it is.
pub open spec fn round_spec(args: Seq<Value>) -> Result<ValueView, QueryErrorSpec> {
    if args.len() == 0 || args.len() > 2 {
        Err(QueryErrorSpec::InvalidArguments("ROUND"@, "expected 1 or 2 arguments"@))
    } else if args.len() == 2 && !(args[1] is Integer) {
        Err(QueryErrorSpec::Type("ROUND second arg must be integer"@))
    } else {
        let places: u32 = if args.len() == 2 { (args[1]->Integer_0) as u32 } else { 0 };
        match args[0] {
            Value::Number(n) => Ok(ValueView::Number(decimal_round_dp(n, places))),
            Value::Integer(i) => Ok(ValueView::Integer(i)),
            _ => Err(QueryErrorSpec::Type("ROUND expects a number"@)),
        }
    }
}

/// Evaluate `ROUND` on evaluated arguments.
pub fn eval_round(args: &[Value]) -> (res: Result<Value, QueryError>)
    requires
        forall|i: int| 0 <= i < args@.len() ==> value_wf(#[trigger] args@[i]),
    ensures
        rview(res) == round_spec(args@),
{
    if args.len() == 0 || args.len() > 2 {
        return Err(QueryError::InvalidArguments(string_of("ROUND"), string_of("expected 1 or 2 arguments")));
    }
    let places: u32 = if args.len() == 2 {
        match &args[1] {
            Value::Integer(i) => *i as u32,
            _ => {
                return Err(type_error("ROUND second arg must be integer"));
            },
        }
    } else {
        0
    };
    assert(value_wf(args@[0]));
    match &args[0] {
        Value::Number(n) => Ok(Value::Number(round_dp(*n, places))),
        Value::Integer(i) => Ok(Value::Integer(*i)),
        _ => Err(type_error("ROUND expects a number")),
    }
}

/// The math functions `ABS`, `NEG`, `ROUND` and `SAFEDIV`.
pub open spec fn math_function_spec(name: Seq<char>, args: Seq<Value>) -> Result<ValueView, QueryErrorSpec> {
    if name == "ROUND"@ {
        round_spec(args)
    } else if name == "SAFEDIV"@ {
        safediv_spec(args)
    } else if args.len() != 1 {
        Err(call_arity_error(name, 1))
    } else if name == "ABS"@ {
        match args[0] {
            Value::Number(n) => Ok(ValueView::Number(absolute(n))),
            Value::Integer(i) => Ok(ValueView::Integer(if i < 0 { (-i) as i64 } else { i })),
            _ => Err(QueryErrorSpec::Type("ABS expects a number"@)),
        }
    } else {
        match args[0] {
            Value::Number(n) => Ok(ValueView::Number(negated(n))),
            Value::Integer(i) => Ok(ValueView::Integer((-i) as i64)),
            _ => Err(QueryErrorSpec::Type("NEG expects a number"@)),
        }
    }
}

/// Evaluate the math functions `ABS`, `NEG`, `ROUND` and `SAFEDIV` on
/// evaluated arguments. The integer `i64::MIN` has no absolute value or
/// negation in `i64` (computing one panics), so it is left out for `ABS` and
/// `NEG`.
pub fn eval_math_function(name: &str, args: &[Value]) -> (res: Result<Value, QueryError>)
    requires
        name@ == "ABS"@ || name@ == "NEG"@ || name@ == "ROUND"@ || name@ == "SAFEDIV"@,
        forall|i: int| 0 <= i < args@.len() ==> value_wf(#[trigger] args@[i]),
        (name@ == "ABS"@ || name@ == "NEG"@) && args@.len() == 1 ==> !(args@[0] matches Value::Integer(k) && k
            == i64::MIN),
        name@ == "SAFEDIV"@ ==> safediv_defined(args@),
    ensures
        rview(res) == math_function_spec(name@, args@),
{
    if str_eq(name, "ROUND") {
        return eval_round(args);
    }
    if str_eq(name, "SAFEDIV") {
        return eval_safediv(args);
    }
    match require_args(name, args, 1) {
        Ok(()) => {},
        Err(e) => {
            return Err(e);
        },
    }
    assert(value_wf(args@[0]));
    if str_eq(name, "ABS") {
        match &args[0] {
            Value::Number(n) => Ok(Value::Number(n.abs())),
            Value::Integer(i) => Ok(Value::Integer(if *i < 0 { -*i } else { *i })),
            _ => Err(type_error("ABS expects a number")),
        }
    } else {
        match &args[0] {
            Value::Number(n) => Ok(Value::Number(n.neg())),
            Value::Integer(i) => Ok(Value::Integer(-*i)),
            _ => Err(type_error("NEG expects a number")),
        }
    }
}

/// The `INT` function: a value cast to an integer.
pub open spec fn int_spec(args: Seq<Value>) -> Result<ValueView, QueryErrorSpec> {
    if args.len() != 1 {
        Err(call_arity_error("INT"@, 1))
    } else {
        match args[0] {
            Value::Integer(i) => Ok(ValueView::Integer(i)),
            Value::Number(n) => if i64::MIN <= trunc_int(n) <= i64::MAX {
                Ok(ValueView::Integer(trunc_int(n) as i64))
            } else {
                Err(QueryErrorSpec::Type("INT: number too large for integer"@))
            },
            Value::Boolean(b) => Ok(ValueView::Integer(if b { 1 } else { 0 })),
            Value::String(s) => match parse_i64_spec(s@) {
                Some(k) => Ok(ValueView::Integer(k)),
                None => Err(QueryErrorSpec::Type("INT: cannot parse '"@ + s@ + "' as integer"@)),
            },
            Value::Null => Ok(ValueView::Null),
            _ => Err(QueryErrorSpec::Type("INT expects a number, integer, boolean, or string"@)),
        }
    }
}

/// Evaluate `INT` on evaluated arguments.
pub fn eval_int(args: &[Value]) -> (res: Result<Value, QueryError>)
    requires
        forall|i: int| 0 <= i < args@.len() ==> value_wf(#[trigger] args@[i]),
    ensures
        rview(res) == int_spec(args@),
{
    match require_args("INT", args, 1) {
        Ok(()) => {},
        Err(e) => {
            return Err(e);
        },
    }
    assert(value_wf(args@[0]));
    match &args[0] {
        Value::Integer(i) => Ok(Value::Integer(*i)),
        Value::Number(n) => match to_i64(*n) {
            Some(k) => Ok(Value::Integer(k)),
            None => Err(type_error("INT: number too large for integer")),
        },
        Value::Boolean(b) => Ok(Value::Integer(if *b { 1 } else { 0 })),
        Value::String(s) => match parse_i64(s.as_str()) {
            Some(k) => Ok(Value::Integer(k)),
            None => {
                let mut msg = string_of("INT: cannot parse '");
                push_str(&mut msg, s.as_str());
                push_str(&mut msg, "' as integer");
                Err(QueryError::Type(msg))
            },
        },
        Value::Null => Ok(Value::Null),
        _ => Err(type_error("INT expects a number, integer, boolean, or string")),
    }
}

/// The `DECIMAL` function: a value cast to a decimal.
pub open spec fn decimal_spec(args: Seq<Value>) -> Result<ValueView, QueryErrorSpec> {
    if args.len() != 1 {
        Err(call_arity_error("DECIMAL"@, 1))
    } else {
        match args[0] {
            Value::Number(n) => Ok(ValueView::Number(n)),
            Value::Integer(i) => Ok(ValueView::Number(int_dec(i))),
            Value::Boolean(b) => Ok(ValueView::Number(Dec { mantissa: if b { 1 } else { 0 }, scale: 0 })),
            Value::String(s) => match decimal_parse_spec(s@) {
                Some(d) => Ok(ValueView::Number(d)),
                None => Err(QueryErrorSpec::Type("DECIMAL: cannot parse '"@ + s@ + "' as decimal"@)),
            },
            Value::Null => Ok(ValueView::Null),
            _ => Err(QueryErrorSpec::Type("DECIMAL expects a number, integer, boolean, or string"@)),
        }
    }
}

/// Evaluate `DECIMAL` on evaluated arguments.
pub fn eval_decimal(args: &[Value]) -> (res: Result<Value, QueryError>)
    ensures
        rview(res) == decimal_spec(args@),
{
    match require_args("DECIMAL", args, 1) {
        Ok(()) => {},
        Err(e) => {
            return Err(e);
        },
    }
    match &args[0] {
        Value::Number(n) => Ok(Value::Number(*n)),
        Value::Integer(i) => Ok(Value::Number(Dec { mantissa: *i as i128, scale: 0 })),
        Value::Boolean(b) => Ok(Value::Number(if *b { Dec::one() } else { Dec::zero() })),
        Value::String(s) => match parse_decimal(s.as_str()) {
            Some(d) => Ok(Value::Number(d)),
            None => {
                let mut msg = string_of("DECIMAL: cannot parse '");
                push_str(&mut msg, s.as_str());
                push_str(&mut msg, "' as decimal");
                Err(QueryError::Type(msg))
            },
        },
        Value::Null => Ok(Value::Null),
        _ => Err(type_error("DECIMAL expects a number, integer, boolean, or string")),
    }
}

/// The `STR` function: a scalar value as text.
pub open spec fn str_spec(args: Seq<Value>) -> Result<ValueView, QueryErrorSpec> {
    if args.len() != 1 {
        Err(call_arity_error("STR"@, 1))
    } else {
        match args[0] {
            Value::String(s) => Ok(ValueView::String(s@)),
            Value::Integer(i) => Ok(ValueView::String(int_text(i as int))),
            Value::Number(n) => Ok(ValueView::String(decimal_display(n))),
            Value::Boolean(b) => Ok(ValueView::String(if b { "TRUE"@ } else { "FALSE"@ })),
            Value::Date(d) => Ok(ValueView::String(chrono_date_display(d))),
            Value::Amount(a) => Ok(ValueView::String(decimal_display(a.number) + " "@ + a.currency@)),
            Value::Null => Ok(ValueView::Null),
            _ => Err(QueryErrorSpec::Type("STR expects a scalar value"@)),
        }
    }
}

/// Evaluate `STR` on evaluated arguments.
pub fn eval_str(args: &[Value]) -> (res: Result<Value, QueryError>)
    requires
        forall|i: int| 0 <= i < args@.len() ==> value_wf(#[trigger] args@[i]),
    ensures
        rview(res) == str_spec(args@),
{
    match require_args("STR", args, 1) {
        Ok(()) => {},
        Err(e) => {
            return Err(e);
        },
    }
    assert(value_wf(args@[0]));
    match &args[0] {
        Value::String(s) => Ok(Value::String(s.clone())),
        Value::Integer(i) => Ok(Value::String(i64_text(*i))),
        Value::Number(n) => Ok(Value::String(crate::dec::to_text(*n))),
        Value::Boolean(b) => Ok(Value::String(string_of(if *b { "TRUE" } else { "FALSE" }))),
        Value::Date(d) => Ok(Value::String(crate::date::to_text(*d))),
        Value::Amount(a) => {
            let mut t = crate::dec::to_text(a.number);
            push_str(&mut t, " ");
            push_str(&mut t, a.currency.as_str());
            Ok(Value::String(t))
        },
        Value::Null => Ok(Value::Null),
        _ => Err(type_error("STR expects a scalar value")),
    }
}

/// The words `BOOL` reads as true, by their upper-case form.
pub open spec fn true_word(u: Seq<char>) -> bool {
    u == "TRUE"@ || u == "YES"@ || u == "1"@ || u == "T"@ || u == "Y"@
}

/// The words `BOOL` reads as false, by their upper-case form.
pub open spec fn false_word(u: Seq<char>) -> bool {
    u == "FALSE"@ || u == "NO"@ || u == "0"@ || u == "F"@ || u == "N"@ || u == ""@
}

/// The `BOOL` function: a value cast to a boolean.
pub open spec fn bool_spec(args: Seq<Value>) -> Result<ValueView, QueryErrorSpec> {
    if args.len() != 1 {
        Err(call_arity_error("BOOL"@, 1))
    } else {
        match args[0] {
            Value::Boolean(b) => Ok(ValueView::Boolean(b)),
            Value::Integer(i) => Ok(ValueView::Boolean(i != 0)),
            Value::Number(n) => Ok(ValueView::Boolean(n.mantissa != 0)),
            Value::String(s) => {
                let u = std_to_uppercase(s@);
                if true_word(u) {
                    Ok(ValueView::Boolean(true))
                } else if false_word(u) {
                    Ok(ValueView::Boolean(false))
                } else {
                    Err(QueryErrorSpec::Type("BOOL: cannot parse '"@ + s@ + "' as boolean"@))
                }
            },
            Value::Null => Ok(ValueView::Null),
            _ => Err(QueryErrorSpec::Type("BOOL expects an integer, number, boolean, or string"@)),
        }
    }
}

/// Evaluate `BOOL` on evaluated arguments.
pub fn eval_bool(args: &[Value]) -> (res: Result<Value, QueryError>)
    ensures
        rview(res) == bool_spec(args@),
{
    match require_args("BOOL", args, 1) {
        Ok(()) => {},
        Err(e) => {
            return Err(e);
        },
    }
    match &args[0] {
        Value::Boolean(b) => Ok(Value::Boolean(*b)),
        Value::Integer(i) => Ok(Value::Boolean(*i != 0)),
        Value::Number(n) => Ok(Value::Boolean(!n.is_zero())),
        Value::String(s) => {
            let upper = to_uppercase(s.as_str());
            let u = upper.as_str();
            if str_eq(u, "TRUE") || str_eq(u, "YES") || str_eq(u, "1") || str_eq(u, "T") || str_eq(u, "Y") {
                Ok(Value::Boolean(true))
            } else if str_eq(u, "FALSE") || str_eq(u, "NO") || str_eq(u, "0") || str_eq(u, "F") || str_eq(u, "N")
                || str_eq(u, "") {
                Ok(Value::Boolean(false))
            } else {
                let mut msg = string_of("BOOL: cannot parse '");
                push_str(&mut msg, s.as_str());
                push_str(&mut msg, "' as boolean");
                Err(QueryError::Type(msg))
            }
        },
        Value::Null => Ok(Value::Null),
        _ => Err(type_error("BOOL expects an integer, number, boolean, or string")),
    }
}

proof fn lemma_nat_text_parses(n: nat)
    ensures
        nat_text(n).len() > 0,
        all_digits(nat_text(n)),
        digits_value(nat_text(n)) == n,
    decreases n,
{
    if n < 10 {
        let c = digit_char(n);
        assert(c as int == 48 + n);
        assert('0' as int == 48);
        assert(nat_text(n) == seq![c]);
        assert(seq![c].drop_last() =~= Seq::<char>::empty());
        assert(digits_value(seq![c]) == digits_value(Seq::<char>::empty()) * 10 + (c as int - '0' as int));
    } else {
        lemma_nat_text_parses(n / 10);
        let t = nat_text(n / 10);
        let c = digit_char(n % 10);
        assert(c as int == 48 + n % 10);
        assert(nat_text(n) == t.push(c));
        assert(t.push(c).drop_last() =~= t);
        assert('0' as int == 48);
        assert(digits_value(t.push(c)) == digits_value(t) * 10 + (c as int - '0' as int));
        assert((n / 10) * 10 + n % 10 == n) by (nonlinear_arith);
        assert forall|i: int| 0 <= i < t.push(c).len() implies '0' <= #[trigger] t.push(c)[i] <= '9' by {
            if i < t.len() {
                assert(t.push(c)[i] == t[i]);
            }
        }
    }
}

/// `INT` gives back the integer whose text `STR` writes: the text of an
/// `i64` parses as that `i64`.
pub proof fn law_int_of_str(i: i64)
    ensures
        parse_i64_spec(int_text(i as int)) == Some(i),
{
    if i < 0 {
        let t = nat_text((-i) as nat);
        lemma_nat_text_parses((-i) as nat);
        let s = seq!['-'] + t;
        assert(s.skip(1) =~= t);
    } else {
        let t = nat_text(i as nat);
        lemma_nat_text_parses(i as nat);
        assert('0' <= t[0] <= '9');
    }
}

} // verus!
