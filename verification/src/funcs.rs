//! BQL functions evaluated on already-evaluated argument values.

use vstd::prelude::*;
use vstd::string::*;
use vstd::utf8::{encode_utf8, decode_utf8, is_char_boundary, valid_utf8, is_ascii_chars};
use chrono::Datelike;
use rust_decimal::prelude::ToPrimitive;
use crate::dec::{Dec, pow10, decimal_round_dp, round_dp, checked_div, decimal_checked_div};
use crate::date::Date;
use crate::text::{ascii_lower, ascii_white_space, std_to_uppercase, to_uppercase, str_eq, string_of, push_str, nat_text, u64_text};
use crate::account::{
    parent_spec, leaf_spec, root_spec, count_char, parent, leaf, root, account_depth, account_sortkey,
};
use crate::value::{
    Value, QueryError, QueryErrorSpec, ValueView, rview, vview, value_wf, type_error, value_text,
    value_to_string, int_dec,
};
use crate::account::{join_seq, join_strings, views};
use crate::ledger::{Amount, Position};

verus! {

/// What `str::to_lowercase` returns for a string, by its characters.
pub uninterp spec fn std_to_lowercase(s: Seq<char>) -> Seq<char>;

/// What `str::trim` returns for a string, by its characters.
pub uninterp spec fn std_trim(s: Seq<char>) -> Seq<char>;

/// Calls `str::to_lowercase` of std. The result is named `std_to_lowercase`;
/// for an all-ASCII input the Unicode lower-case mapping is the ASCII one,
/// which is stated here. What it does to other characters is left unsaid.
#[verifier::external_body]
pub(crate) fn to_lowercase(s: &str) -> (res: String)
    ensures
        res@ == std_to_lowercase(s@),
        is_ascii_chars(s@) ==> res@ == s@.map_values(|c: char| ascii_lower(c)),
{
    s.to_lowercase()
}

/// The characters without their leading ASCII white space.
pub open spec fn trim_start_ascii(s: Seq<char>) -> Seq<char>
    decreases s.len(),
{
    if s.len() > 0 && ascii_white_space(s[0]) {
        trim_start_ascii(s.drop_first())
    } else {
        s
    }
}

/// The characters without their trailing ASCII white space.
pub open spec fn trim_end_ascii(s: Seq<char>) -> Seq<char>
    decreases s.len(),
{
    if s.len() > 0 && ascii_white_space(s.last()) {
        trim_end_ascii(s.drop_last())
    } else {
        s
    }
}

/// Calls `str::trim` of std. The result is named `std_trim`; for an
/// all-ASCII input, whose white space is the ASCII white space, it is the
/// input without its leading and trailing white space, which is stated
/// here. What counts as white space among other characters is left unsaid.
#[verifier::external_body]
pub(crate) fn trim(s: &str) -> (res: String)
    ensures
        res@ == std_trim(s@),
        is_ascii_chars(s@) ==> res@ == trim_end_ascii(trim_start_ascii(s@)),
{
    s.trim().to_string()
}

/// Calls `chrono::Local::now().date_naive()`: today's date in the local time
/// zone. It depends on the clock, so only its validity is stated.
#[verifier::external_body]
pub(crate) fn today() -> (res: Date)
    ensures
        res.wf(),
{
    let d = chrono::Local::now().date_naive();
    Date { year: d.year(), month: d.month(), day: d.day() }
}

/// The error for a wrong number of evaluated arguments.
pub open spec fn arg_count_error(name: Seq<char>, expected: nat, got: nat) -> QueryErrorSpec {
    QueryErrorSpec::InvalidArguments(
        name,
        "expected "@ + nat_text(expected) + " argument(s), got "@ + nat_text(got),
    )
}

/// Require a specific number of evaluated arguments.
pub fn require_args_count(name: &str, args: &[Value], expected: usize) -> (res: Result<(), QueryError>)
    ensures
        args@.len() == expected ==> res is Ok,
        args@.len() != expected ==> (res matches Err(e) && e.spec() == arg_count_error(
            name@,
            expected as nat,
            args@.len(),
        )),
{
    if args.len() != expected {
        let mut msg = string_of("expected ");
        push_str(&mut msg, u64_text(expected as u64).as_str());
        push_str(&mut msg, " argument(s), got ");
        push_str(&mut msg, u64_text(args.len() as u64).as_str());
        return Err(QueryError::InvalidArguments(string_of(name), msg));
    }
    Ok(())
}

/// The error for a wrong number of arguments of a function call.
pub open spec fn call_arity_error(name: Seq<char>, expected: nat) -> QueryErrorSpec {
    QueryErrorSpec::InvalidArguments(name, "expected "@ + nat_text(expected) + " argument(s)"@)
}

/// Require a specific number of arguments of a function call.
pub fn require_args(name: &str, args: &[Value], expected: usize) -> (res: Result<(), QueryError>)
    ensures
        args@.len() == expected ==> res is Ok,
        args@.len() != expected ==> (res matches Err(e) && e.spec() == call_arity_error(name@, expected as nat)),
{
    if args.len() != expected {
        let mut msg = string_of("expected ");
        push_str(&mut msg, u64_text(expected as u64).as_str());
        push_str(&mut msg, " argument(s)");
        return Err(QueryError::InvalidArguments(string_of(name), msg));
    }
    Ok(())
}

/// The account functions of one argument, by name.
pub open spec fn account_function_spec(name: Seq<char>, args: Seq<Value>) -> Result<ValueView, QueryErrorSpec> {
    if args.len() != 1 {
        Err(call_arity_error(name, 1))
    } else {
        match args[0] {
            Value::String(s) => if name == "PARENT"@ {
                match parent_spec(s@) {
                    Some(p) => Ok(ValueView::String(p)),
                    None => Ok(ValueView::Null),
                }
            } else if name == "LEAF"@ {
                Ok(ValueView::String(leaf_spec(s@)))
            } else if name == "ACCOUNT_DEPTH"@ {
                Ok(ValueView::Integer((count_char(s@, ':') + 1) as i64))
            } else {
                Ok(ValueView::String(s@))
            },
            _ => Err(QueryErrorSpec::Type(name + " expects an account string"@)),
        }
    }
}

/// A string value's length fits a machine counter.
pub open spec fn length_fits(v: Value) -> bool {
    v matches Value::String(s) ==> s@.len() < u64::MAX
}

/// Evaluate the account functions `PARENT`, `LEAF`, `ACCOUNT_DEPTH` and
/// `ACCOUNT_SORTKEY` (and `ROOT`, through `eval_root`).
pub fn eval_account_function(name: &str, args: &[Value]) -> (res: Result<Value, QueryError>)
    requires
        name@ == "PARENT"@ || name@ == "LEAF"@ || name@ == "ACCOUNT_DEPTH"@ || name@ == "ACCOUNT_SORTKEY"@
            || name@ == "ROOT"@,
        forall|i: int| 0 <= i < args@.len() ==> length_fits(#[trigger] args@[i]),
    ensures
        name@ == "ROOT"@ ==> rview(res) == root_function_spec(args@),
        name@ != "ROOT"@ ==> rview(res) == account_function_spec(name@, args@),
{
    if str_eq(name, "ROOT") {
        return eval_root(args);
    }
    match require_args(name, args, 1) {
        Ok(()) => {},
        Err(e) => {
            return Err(e);
        },
    }
    match &args[0] {
        Value::String(s) => {
            if str_eq(name, "PARENT") {
                match parent(s.as_str()) {
                    Some(p) => Ok(Value::String(p)),
                    None => Ok(Value::Null),
                }
            } else if str_eq(name, "LEAF") {
                Ok(Value::String(leaf(s.as_str())))
            } else if str_eq(name, "ACCOUNT_DEPTH") {
                assert(length_fits(args@[0]));
                let d = account_depth(s.as_str());
                proof {
                    lemma_count_char_le(s@, ':');
                }
                Ok(Value::Integer(d as i64))
            } else {
                Ok(Value::String(account_sortkey(s.as_str())))
            }
        },
        _ => {
            let mut msg = string_of(name);
            push_str(&mut msg, " expects an account string");
            Err(QueryError::Type(msg))
        },
    }
}

proof fn lemma_count_char_le(s: Seq<char>, c: char)
    ensures
        count_char(s, c) <= s.len(),
    decreases s.len(),
{
    if s.len() > 0 {
        lemma_count_char_le(s.drop_last(), c);
    }
}

/// The `ROOT` function: the first `n` components of an account (`n` is 1 by
/// default; a negative `n` counts as a huge one, as the cast to `usize` does).
pub open spec fn root_function_spec(args: Seq<Value>) -> Result<ValueView, QueryErrorSpec> {
    if args.len() == 0 || args.len() > 2 {
        Err(QueryErrorSpec::InvalidArguments("ROOT"@, "expected 1 or 2 arguments"@))
    } else if args.len() == 2 && !(args[1] is Integer) {
        Err(QueryErrorSpec::Type("ROOT second arg must be integer"@))
    } else {
        let n: usize = if args.len() == 2 { (args[1]->Integer_0) as usize } else { 1 };
        match args[0] {
            Value::String(s) => Ok(ValueView::String(root_spec(s@, n as int))),
            _ => Err(QueryErrorSpec::Type("ROOT expects an account string"@)),
        }
    }
}

/// Evaluate the ROOT function (1 or 2 arguments).
pub fn eval_root(args: &[Value]) -> (res: Result<Value, QueryError>)
    ensures
        rview(res) == root_function_spec(args@),
{
    if args.len() == 0 || args.len() > 2 {
        return Err(QueryError::InvalidArguments(string_of("ROOT"), string_of("expected 1 or 2 arguments")));
    }
    let n: usize = if args.len() == 2 {
        match &args[1] {
            Value::Integer(i) => *i as usize,
            _ => {
                return Err(type_error("ROOT second arg must be integer"));
            },
        }
    } else {
        1
    };
    match &args[0] {
        Value::String(s) => Ok(Value::String(root(s.as_str(), n))),
        _ => Err(type_error("ROOT expects an account string")),
    }
}

/// The first argument that is not NULL, or NULL.
pub open spec fn coalesce_spec(args: Seq<Value>) -> ValueView
    decreases args.len(),
{
    if args.len() == 0 {
        ValueView::Null
    } else if !(args[0] is Null) {
        vview(args[0])
    } else {
        coalesce_spec(args.drop_first())
    }
}

/// A copy of a value.
pub fn copy_value(v: &Value) -> (res: Value)
    ensures
        vview(res) == vview(*v),
        value_wf(*v) ==> value_wf(res),
    decreases v,
{
    match v {
        Value::String(s) => Value::String(s.clone()),
        Value::Number(n) => Value::Number(*n),
        Value::Integer(i) => Value::Integer(*i),
        Value::Date(d) => Value::Date(*d),
        Value::Boolean(b) => Value::Boolean(*b),
        Value::Amount(a) => Value::Amount(crate::ledger::Amount { number: a.number, currency: a.currency.clone() }),
        Value::Position(p) => Value::Position(copy_position(p)),
        Value::Inventory(ps) => {
            let mut out: Vec<crate::ledger::Position> = Vec::new();
            let n = ps.len();
            let mut i: usize = 0;
            while i < n
                invariant
                    n == ps@.len(),
                    i <= n,
                    out@ == ps@.subrange(0, i as int),
                decreases n - i,
            {
                out.push(copy_position(&ps[i]));
                assert(out@ =~= ps@.subrange(0, i + 1));
                i = i + 1;
            }
            assert(ps@.subrange(0, n as int) =~= ps@);
            Value::Inventory(out)
        },
        Value::StringSet(ss) => Value::StringSet(ss.clone()),
        Value::Interval(i) => Value::Interval(*i),
        Value::Metadata(m) => Value::Metadata(crate::meta::copy_meta(m)),
        Value::Object(fields) => {
            let mut out: Vec<(String, Value)> = Vec::new();
            let n = fields.len();
            let mut i: usize = 0;
            while i < n
                invariant
                    n == fields@.len(),
                    i <= n,
                    *v == Value::Object(*fields),
                    out@.len() == i,
                    forall|j: int| 0 <= j < i ==> (#[trigger] out@[j]).0 == fields@[j].0
                        && vview(out@[j].1) == vview(fields@[j].1)
                        && (value_wf(fields@[j].1) ==> value_wf(out@[j].1)),
                decreases n - i,
            {
                proof {
                    assert(decreases_to!(*v => (*v)->Object_0));
                    assert(decreases_to!(*fields => fields@));
                    assert(decreases_to!(fields@ => fields@[i as int]));
                }
                let c = copy_value(&fields[i].1);
                out.push((fields[i].0.clone(), c));
                i = i + 1;
            }
            proof {
                crate::value::lemma_field_views(out, n as nat);
                crate::value::lemma_field_views(*fields, n as nat);
                assert(crate::value::field_views(out, n as nat) =~= crate::value::field_views(*fields, n as nat));
                assert(value_wf(*v) ==> value_wf(Value::Object(out)));
            }
            Value::Object(out)
        },
        Value::Null => Value::Null,
    }
}

/// A copy of a position.
pub fn copy_position(p: &crate::ledger::Position) -> (res: crate::ledger::Position)
    ensures
        res == *p,
{
    let units = crate::ledger::Amount { number: p.units.number, currency: p.units.currency.clone() };
    let cost = match &p.cost {
        Some(c) => Some(crate::ledger::Cost {
            number: c.number,
            currency: c.currency.clone(),
            date: c.date,
            label: match &c.label {
                Some(l) => Some(l.clone()),
                None => None,
            },
        }),
        None => None,
    };
    crate::ledger::Position { units, cost }
}

/// Evaluate COALESCE: the first argument that is not NULL.
pub fn eval_coalesce(args: &[Value]) -> (res: Value)
    ensures
        vview(res) == coalesce_spec(args@),
{
    let n = args.len();
    let mut i: usize = 0;
    assert(args@.skip(0) =~= args@);
    while i < n
        invariant
            n == args@.len(),
            i <= n,
            coalesce_spec(args@) == coalesce_spec(args@.skip(i as int)),
        decreases n - i,
    {
        assert(args@.skip(i as int).drop_first() =~= args@.skip(i + 1));
        if !matches!(args[i], Value::Null) {
            return copy_value(&args[i]);
        }
        i = i + 1;
    }
    Value::Null
}

/// The aggregate function names, which give NULL on a single row.
pub open spec fn is_aggregate_name(u: Seq<char>) -> bool {
    u == "SUM"@ || u == "COUNT"@ || u == "MIN"@ || u == "MAX"@ || u == "FIRST"@ || u == "LAST"@
        || u == "AVG"@
}

/// A function evaluated on already-evaluated arguments, by its upper-cased
/// name (`TODAY` aside, which reads the clock).
pub open spec fn function_on_values_spec(u: Seq<char>, name: Seq<char>, args: Seq<Value>) -> Result<ValueView, QueryErrorSpec> {
    if u == "YEAR"@ || u == "MONTH"@ || u == "DAY"@ {
        if args.len() != 1 {
            Err(arg_count_error(u, 1, args.len()))
        } else {
            match args[0] {
                Value::Date(d) => Ok(ValueView::Integer(
                    if u == "YEAR"@ { d.year as i64 } else if u == "MONTH"@ { d.month as i64 } else { d.day as i64 },
                )),
                _ => Err(QueryErrorSpec::Type(u + " expects a date"@)),
            }
        }
    } else if u == "LENGTH"@ || u == "UPPER"@ || u == "LOWER"@ || u == "TRIM"@ {
        if args.len() != 1 {
            Err(arg_count_error(u, 1, args.len()))
        } else {
            match args[0] {
                Value::String(s) => Ok(
                    if u == "LENGTH"@ {
                        ValueView::Integer((encode_utf8(s@).len() as usize) as i64)
                    } else if u == "UPPER"@ {
                        ValueView::String(std_to_uppercase(s@))
                    } else if u == "LOWER"@ {
                        ValueView::String(std_to_lowercase(s@))
                    } else {
                        ValueView::String(std_trim(s@))
                    },
                ),
                _ => Err(QueryErrorSpec::Type(u + " expects a string"@)),
            }
        }
    } else if u == "ABS"@ {
        if args.len() != 1 {
            Err(arg_count_error(u, 1, args.len()))
        } else {
            match args[0] {
                Value::Number(n) => Ok(ValueView::Number(crate::validate::absolute(n))),
                Value::Integer(i) => Ok(ValueView::Integer(if i < 0 { (-i) as i64 } else { i })),
                _ => Err(QueryErrorSpec::Type("ABS expects a number"@)),
            }
        }
    } else if u == "ROUND"@ {
        if args.len() == 0 || args.len() > 2 {
            Err(QueryErrorSpec::InvalidArguments("ROUND"@, "expected 1 or 2 arguments"@))
        } else {
            match args[0] {
                Value::Number(n) => {
                    let scale: u32 = if args.len() == 2 {
                        match args[1] {
                            Value::Integer(i) => i as u32,
                            _ => 0,
                        }
                    } else {
                        0
                    };
                    Ok(ValueView::Number(decimal_round_dp(n, scale)))
                },
                Value::Integer(i) => Ok(ValueView::Integer(i)),
                _ => Err(QueryErrorSpec::Type("ROUND expects a number"@)),
            }
        }
    } else if u == "COALESCE"@ {
        Ok(coalesce_spec(args))
    } else if is_aggregate_name(u) {
        Ok(ValueView::Null)
    } else {
        Err(QueryErrorSpec::UnknownFunction(name))
    }
}

/// Evaluate a function with pre-evaluated arguments (`LENGTH` counts the
/// UTF-8 bytes of a string).
pub fn evaluate_function_on_values(name: &str, args: &[Value]) -> (res: Result<Value, QueryError>)
    requires
        forall|i: int| 0 <= i < args@.len() ==> value_wf(#[trigger] args@[i]),
        std_to_uppercase(name@) == "ABS"@ && args@.len() == 1 ==> !(args@[0] matches Value::Integer(k) && k
            == i64::MIN),
    ensures
        std_to_uppercase(name@) == "TODAY"@ ==> (res matches Ok(Value::Date(d)) && d.wf()),
        std_to_uppercase(name@) != "TODAY"@ ==> rview(res) == function_on_values_spec(
            std_to_uppercase(name@),
            name@,
            args@,
        ),
{
    let upper = to_uppercase(name);
    let u = upper.as_str();
    if str_eq(u, "TODAY") {
        return Ok(Value::Date(today()));
    }
    if str_eq(u, "YEAR") || str_eq(u, "MONTH") || str_eq(u, "DAY") {
        match require_args_count(u, args, 1) {
            Ok(()) => {},
            Err(e) => {
                return Err(e);
            },
        }
        return match &args[0] {
            Value::Date(d) => Ok(Value::Integer(
                if str_eq(u, "YEAR") { d.year as i64 } else if str_eq(u, "MONTH") { d.month as i64 } else { d.day as i64 },
            )),
            _ => {
                let mut msg = string_of(u);
                push_str(&mut msg, " expects a date");
                Err(QueryError::Type(msg))
            },
        };
    }
    if str_eq(u, "LENGTH") || str_eq(u, "UPPER") || str_eq(u, "LOWER") || str_eq(u, "TRIM") {
        match require_args_count(u, args, 1) {
            Ok(()) => {},
            Err(e) => {
                return Err(e);
            },
        }
        return match &args[0] {
            Value::String(s) => {
                if str_eq(u, "LENGTH") {
                    let n = s.as_str().len();
                    Ok(Value::Integer(n as i64))
                } else if str_eq(u, "UPPER") {
                    Ok(Value::String(to_uppercase(s.as_str())))
                } else if str_eq(u, "LOWER") {
                    Ok(Value::String(to_lowercase(s.as_str())))
                } else {
                    Ok(Value::String(trim(s.as_str())))
                }
            },
            _ => {
                let mut msg = string_of(u);
                push_str(&mut msg, " expects a string");
                Err(QueryError::Type(msg))
            },
        };
    }
    if str_eq(u, "ABS") {
        match require_args_count(u, args, 1) {
            Ok(()) => {},
            Err(e) => {
                return Err(e);
            },
        }
        return match &args[0] {
            Value::Number(n) => Ok(Value::Number(n.abs())),
            Value::Integer(i) => Ok(Value::Integer(if *i < 0 { -*i } else { *i })),
            _ => Err(type_error("ABS expects a number")),
        };
    }
    if str_eq(u, "ROUND") {
        if args.len() == 0 || args.len() > 2 {
            return Err(QueryError::InvalidArguments(string_of("ROUND"), string_of("expected 1 or 2 arguments")));
        }
        return match &args[0] {
            Value::Number(n) => {
                let scale: u32 = if args.len() == 2 {
                    match &args[1] {
                        Value::Integer(i) => *i as u32,
                        _ => 0,
                    }
                } else {
                    0
                };
                Ok(Value::Number(round_dp(*n, scale)))
            },
            Value::Integer(i) => Ok(Value::Integer(*i)),
            _ => Err(type_error("ROUND expects a number")),
        };
    }
    if str_eq(u, "COALESCE") {
        return Ok(eval_coalesce(args));
    }
    if str_eq(u, "SUM") || str_eq(u, "COUNT") || str_eq(u, "MIN") || str_eq(u, "MAX") || str_eq(u, "FIRST")
        || str_eq(u, "LAST") || str_eq(u, "AVG") {
        return Ok(Value::Null);
    }
    Err(QueryError::UnknownFunction(string_of(name)))
}

/// The `SUBSTR` function on the UTF-8 bytes of a string: from `start` (at
/// least 0) to the end, or for `len` bytes (at least 0); empty past the end.
pub open spec fn substr_spec(args: Seq<Value>) -> Result<ValueView, QueryErrorSpec> {
    if args.len() < 2 || args.len() > 3 {
        Err(QueryErrorSpec::InvalidArguments("SUBSTR"@, "expected 2 or 3 arguments"@))
    } else {
        match (args[0], args[1]) {
            (Value::String(s), Value::Integer(start)) => {
                let b = encode_utf8(s@);
                let st: int = if start < 0 { 0 } else { (start as usize) as int };
                if args.len() == 2 {
                    if st >= b.len() {
                        Ok(ValueView::String(Seq::empty()))
                    } else {
                        Ok(ValueView::String(decode_utf8(b.subrange(st, b.len() as int))))
                    }
                } else {
                    match args[2] {
                        Value::Integer(len) => {
                            let ln: int = if len < 0 { 0 } else { (len as usize) as int };
                            if st >= b.len() {
                                Ok(ValueView::String(Seq::empty()))
                            } else {
                                let end = if st + ln < b.len() { st + ln } else { b.len() as int };
                                Ok(ValueView::String(decode_utf8(b.subrange(st, end))))
                            }
                        },
                        _ => Err(QueryErrorSpec::Type("SUBSTR expects (string, int, [int])"@)),
                    }
                }
            },
            _ => Err(QueryErrorSpec::Type("SUBSTR expects (string, int, [int])"@)),
        }
    }
}

/// The byte positions `SUBSTR` cuts at are character boundaries (the
/// slicing panics when a cut falls inside a character), and the end
/// position does not overflow.
pub open spec fn substr_cuts_ok(args: Seq<Value>) -> bool {
    (2 <= args.len() <= 3) ==> match (args[0], args[1]) {
        (Value::String(s), Value::Integer(start)) => {
            let b = encode_utf8(s@);
            let st: int = if start < 0 { 0 } else { (start as usize) as int };
            st < b.len() ==> (is_char_boundary(b, st) && (args.len() == 3 ==> match args[2] {
                Value::Integer(len) => {
                    let ln: int = if len < 0 { 0 } else { (len as usize) as int };
                    st + ln <= usize::MAX && is_char_boundary(b, if st + ln < b.len() { st + ln } else { b.len() as int })
                },
                _ => true,
            }))
        },
        _ => true,
    }
}

/// Evaluate SUBSTR/SUBSTRING on byte positions.
pub fn eval_substr(args: &[Value]) -> (res: Result<Value, QueryError>)
    requires
        substr_cuts_ok(args@),
    ensures
        rview(res) == substr_spec(args@),
{
    broadcast use vstd::utf8::encode_utf8_decode_utf8;
    if args.len() < 2 || args.len() > 3 {
        return Err(QueryError::InvalidArguments(string_of("SUBSTR"), string_of("expected 2 or 3 arguments")));
    }
    let (s, start) = match (&args[0], &args[1]) {
        (Value::String(s), Value::Integer(start)) => (s, *start),
        _ => {
            return Err(type_error("SUBSTR expects (string, int, [int])"));
        },
    };
    let len_arg: Option<i64> = if args.len() == 3 {
        match &args[2] {
            Value::Integer(l) => Some(*l),
            _ => {
                return Err(type_error("SUBSTR expects (string, int, [int])"));
            },
        }
    } else {
        None
    };
    let st: usize = if start < 0 { 0 } else { start as usize };
    let text = s.as_str();
    let nbytes = text.as_bytes().len();
    if st >= nbytes {
        return Ok(Value::String(String::new()));
    }
    let end: usize = match len_arg {
        Some(l) => {
            let ln: usize = if l < 0 { 0 } else { l as usize };
            if st + ln < nbytes { st + ln } else { nbytes }
        },
        None => nbytes,
    };
    proof {
        vstd::utf8::encode_utf8_valid_utf8(text@);
        vstd::utf8::is_char_boundary_start_end_of_seq(text.spec_bytes());
    }
    let (head, _) = text.split_at(end);
    assert(head.spec_bytes() =~= text.spec_bytes().subrange(0, end as int));
    proof {
        assert(is_char_boundary(text.spec_bytes(), st as int));
        vstd::utf8::valid_utf8_split(text.spec_bytes(), end as int);
        vstd::utf8::encode_utf8_valid_utf8(text@);
        lemma_boundary_prefix(text.spec_bytes(), end as int, st as int);
    }
    let (_, part) = head.split_at(st);
    assert(part.spec_bytes() =~= text.spec_bytes().subrange(st as int, end as int));
    proof {
        vstd::utf8::encode_utf8_decode_utf8(part@);
    }
    Ok(Value::String(String::from_str(part)))
}

/// A character boundary of a byte string is one of its prefixes too.
proof fn lemma_boundary_prefix(b: Seq<u8>, end: int, st: int)
    requires
        0 <= st <= end <= b.len(),
        valid_utf8(b),
        is_char_boundary(b, st),
        is_char_boundary(b, end),
    ensures
        is_char_boundary(b.subrange(0, end), st),
{
    vstd::utf8::valid_utf8_split(b, end);
    let p = b.subrange(0, end);
    vstd::utf8::is_char_boundary_start_end_of_seq(p);
    if 0 < st && st < end {
        vstd::utf8::is_char_boundary_iff_not_is_continuation_byte(b, st);
        vstd::utf8::is_char_boundary_iff_not_is_continuation_byte(p, st);
        assert(p[st] == b[st]);
    }
}

/// The whole part of a decimal as a `usize`: `None` for a negative value or
/// one whose whole part does not fit.
pub open spec fn whole_usize(d: Dec) -> Option<usize> {
    if d.mantissa < 0 {
        None
    } else {
        let t = d.mantissa as int / pow10(d.scale as nat);
        if t <= usize::MAX { Some(t as usize) } else { None }
    }
}

/// Calls `ToPrimitive::to_usize` of `rust_decimal::Decimal`, which truncates
/// the fraction, gives `None` for a negative sign, and `None` when the whole
/// part does not fit in a `u64` or a `usize`.
#[verifier::external_body]
pub(crate) fn decimal_to_usize(d: Dec) -> (res: Option<usize>)
    requires
        d.wf(),
    ensures
        res == whole_usize(d),
{
    rust_decimal::Decimal::from_i128_with_scale(d.mantissa, d.scale).to_usize()
}

/// The count argument of `MAXWIDTH`, or the error about it.
pub open spec fn width_arg(v: Value) -> Result<usize, QueryErrorSpec> {
    match v {
        Value::Integer(i) => Ok(i as usize),
        Value::Number(n) => match whole_usize(n) {
            Some(k) => Ok(k),
            None => Err(QueryErrorSpec::Type("MAXWIDTH: second argument must be a positive integer"@)),
        },
        _ => Err(QueryErrorSpec::Type("MAXWIDTH: second argument must be an integer"@)),
    }
}

/// The `MAXWIDTH` function: the string cut to `n` characters, ending in
/// `...` when it is cut and `n` is more than 3.
pub open spec fn maxwidth_spec(args: Seq<Value>) -> Result<ValueView, QueryErrorSpec> {
    if args.len() != 2 {
        Err(call_arity_error("MAXWIDTH"@, 2))
    } else {
        match args[0] {
            Value::String(s) => match width_arg(args[1]) {
                Ok(n) => if s@.len() <= n {
                    Ok(ValueView::String(s@))
                } else if n <= 3 {
                    Ok(ValueView::String(s@.subrange(0, n as int)))
                } else {
                    Ok(ValueView::String(s@.subrange(0, n - 3) + "..."@))
                },
                Err(e) => Err(e),
            },
            _ => Err(QueryErrorSpec::Type("MAXWIDTH: first argument must be a string"@)),
        }
    }
}

/// Evaluate MAXWIDTH (truncate with an ellipsis).
pub fn eval_maxwidth(args: &[Value]) -> (res: Result<Value, QueryError>)
    requires
        forall|i: int| 0 <= i < args@.len() ==> value_wf(#[trigger] args@[i]),
    ensures
        rview(res) == maxwidth_spec(args@),
{
    match require_args("MAXWIDTH", args, 2) {
        Ok(()) => {},
        Err(e) => {
            return Err(e);
        },
    }
    let string = match &args[0] {
        Value::String(s) => s,
        _ => {
            return Err(type_error("MAXWIDTH: first argument must be a string"));
        },
    };
    let n: usize = match &args[1] {
        Value::Integer(i) => *i as usize,
        Value::Number(d) => {
            assert(value_wf(args@[1]));
            match decimal_to_usize(*d) {
                Some(k) => k,
                None => {
                    return Err(type_error("MAXWIDTH: second argument must be a positive integer"));
                },
            }
        },
        _ => {
            return Err(type_error("MAXWIDTH: second argument must be an integer"));
        },
    };
    let count = string.as_str().unicode_len();
    if count <= n {
        Ok(Value::String(string.clone()))
    } else if n <= 3 {
        Ok(Value::String(String::from_str(string.as_str().substring_char(0, n))))
    } else {
        let mut truncated = String::from_str(string.as_str().substring_char(0, n - 3));
        push_str(&mut truncated, "...");
        Ok(Value::String(truncated))
    }
}

/// The strings `JOINSTR` joins from one argument.
pub open spec fn joinstr_parts(v: Value) -> Seq<Seq<char>> {
    match v {
        Value::String(s) => seq![s@],
        Value::StringSet(ss) => views(ss@),
        Value::Null => Seq::empty(),
        _ => seq![value_text(v)],
    }
}

/// The strings `JOINSTR` joins from its arguments, in order.
pub open spec fn joinstr_all(args: Seq<Value>) -> Seq<Seq<char>>
    decreases args.len(),
{
    if args.len() == 0 {
        Seq::empty()
    } else {
        joinstr_all(args.drop_last()) + joinstr_parts(args.last())
    }
}

/// The `JOINSTR` function: the strings of its arguments joined by `, `.
pub open spec fn joinstr_spec(args: Seq<Value>) -> Result<ValueView, QueryErrorSpec> {
    if args.len() == 0 {
        Err(QueryErrorSpec::InvalidArguments("JOINSTR"@, "expected at least 1 argument"@))
    } else {
        Ok(ValueView::String(join_seq(joinstr_all(args), ", "@)))
    }
}

/// Evaluate JOINSTR (join values with `, `; NULLs are skipped).
pub fn eval_joinstr(args: &[Value]) -> (res: Result<Value, QueryError>)
    requires
        forall|i: int| 0 <= i < args@.len() ==> value_wf(#[trigger] args@[i]),
    ensures
        rview(res) == joinstr_spec(args@),
{
    if args.len() == 0 {
        return Err(QueryError::InvalidArguments(string_of("JOINSTR"), string_of("expected at least 1 argument")));
    }
    let mut parts: Vec<String> = Vec::new();
    let n = args.len();
    let mut i: usize = 0;
    while i < n
        invariant
            n == args@.len(),
            i <= n,
            forall|j: int| 0 <= j < args@.len() ==> value_wf(#[trigger] args@[j]),
            views(parts@) == joinstr_all(args@.subrange(0, i as int)),
        decreases n - i,
    {
        let ghost pre = args@.subrange(0, i + 1);
        assert(pre.drop_last() =~= args@.subrange(0, i as int));
        let ghost before = views(parts@);
        match &args[i] {
            Value::String(s) => {
                parts.push(s.clone());
                assert(views(parts@) =~= before + joinstr_parts(args@[i as int]));
            },
            Value::StringSet(ss) => {
                let m = ss.len();
                let mut k: usize = 0;
                while k < m
                    invariant
                        m == ss@.len(),
                        k <= m,
                        views(parts@) == before + views(ss@).subrange(0, k as int),
                    decreases m - k,
                {
                    let ghost b2 = views(parts@);
                    parts.push(ss[k].clone());
                    assert(views(parts@) =~= b2.push(ss@[k as int]@));
                    assert(views(ss@).subrange(0, k + 1) =~= views(ss@).subrange(0, k as int).push(ss@[k as int]@));
                    k = k + 1;
                }
                assert(views(ss@).subrange(0, m as int) =~= views(ss@));
            },
            Value::Null => {
                assert(views(parts@) =~= before + joinstr_parts(args@[i as int]));
            },
            other => {
                let t = value_to_string(other);
                let ghost tv = t@;
                parts.push(t);
                assert(views(parts@) =~= before.push(tv));
                assert(views(parts@) =~= before + joinstr_parts(args@[i as int]));
            },
        }
        i = i + 1;
    }
    assert(args@.subrange(0, n as int) =~= args@);
    Ok(Value::String(join_strings(parts.as_slice(), ", ")))
}

/// Integer division truncated towards zero (Rust's `/` on integers).
pub open spec fn trunc_div(a: int, b: int) -> int {
    let q = (if a < 0 { -a } else { a }) / (if b < 0 { -b } else { b });
    if (a < 0) == (b < 0) { q } else { -q }
}

/// Integer division rounded down (towards negative infinity).
pub open spec fn floor_div(a: int, b: int) -> int {
    if b > 0 {
        a / b
    } else {
        (-a) / (-b)
    }
}

/// The remainder of a quotient truncated towards zero is smaller than the
/// divisor and has the dividend's sign.
pub proof fn lemma_trunc_rem(a: int, b: int)
    requires
        b != 0,
    ensures
        a >= 0 ==> 0 <= a - trunc_div(a, b) * b < (if b < 0 { -b } else { b }),
        a < 0 ==> -(if b < 0 { -b } else { b }) < a - trunc_div(a, b) * b <= 0,
{
    let aa: int = if a < 0 { -a } else { a };
    let bb: int = if b < 0 { -b } else { b };
    let q = aa / bb;
    let r = aa % bb;
    vstd::arithmetic::div_mod::lemma_fundamental_div_mod(aa, bb);
    assert(0 <= r < bb) by {
        vstd::arithmetic::div_mod::lemma_mod_bound(aa, bb);
    }
    let t = trunc_div(a, b);
    assert(t * b == (if a < 0 { -(q * bb) } else { q * bb })) by (nonlinear_arith)
        requires
            t == (if (a < 0) == (b < 0) { q } else { -q }),
            bb == (if b < 0 { -b } else { b }),
    ;
    assert(aa == bb * q + r);
    assert(bb * q == q * bb) by (nonlinear_arith);
}

/// A quotient rounded down, times a positive divisor, is the largest
/// multiple not above the dividend (and the mirror for a negative one).
pub proof fn lemma_floor_div_bounds(a: int, b: int)
    requires
        b != 0,
    ensures
        b > 0 ==> floor_div(a, b) * b <= a < floor_div(a, b) * b + b,
        b < 0 ==> floor_div(a, b) * b + b < a <= floor_div(a, b) * b,
{
    if b > 0 {
        vstd::arithmetic::div_mod::lemma_fundamental_div_mod(a, b);
        vstd::arithmetic::div_mod::lemma_mod_bound(a, b);
        assert(b * (a / b) == (a / b) * b) by (nonlinear_arith);
    } else {
        vstd::arithmetic::div_mod::lemma_fundamental_div_mod(-a, -b);
        vstd::arithmetic::div_mod::lemma_mod_bound(-a, -b);
        let q = (-a) / (-b);
        assert((-b) * q == -(q * b)) by (nonlinear_arith);
    }
}

/// Integer division rounded down.
pub(crate) fn floor_div_i64(n: i64, d: i64) -> (res: i64)
    requires
        d != 0,
        !(n == i64::MIN && d == -1),
    ensures
        res == floor_div(n as int, d as int),
{
    let t = int_div(n, d);
    proof {
        lemma_trunc_div_between(n as int, d as int);
        lemma_trunc_rem(n as int, d as int);
    }
    let r: i64 = n - t * d;
    let ghost k: int = if r != 0 && ((r < 0) != (d < 0)) { t - 1 } else { t as int };
    proof {
        let bb: int = if d < 0 { -d } else { d as int };
        assert(k * d == (if k == t - 1 { t * d - d } else { t * d })) by (nonlinear_arith)
            requires
                k == t - 1 || k == t,
        ;
        if d > 0 {
            vstd::arithmetic::div_mod::lemma_fundamental_div_mod_converse(n as int, d as int, k, n - k * d);
        } else {
            assert(-n == k * (-d) + (-(n - k * d))) by (nonlinear_arith);
            vstd::arithmetic::div_mod::lemma_fundamental_div_mod_converse(-n, -d, k, -(n - k * d));
        }
    }
    if r != 0 && ((r < 0) != (d < 0)) {
        t - 1
    } else {
        t
    }
}

/// A quotient truncated towards zero, times the divisor, lies between zero
/// and the dividend.
pub proof fn lemma_trunc_div_between(a: int, b: int)
    requires
        b != 0,
    ensures
        a >= 0 ==> 0 <= trunc_div(a, b) * b <= a,
        a < 0 ==> a <= trunc_div(a, b) * b <= 0,
{
    let aa: int = if a < 0 { -a } else { a };
    let bb: int = if b < 0 { -b } else { b };
    let q = aa / bb;
    assert(0 <= q * bb <= aa) by (nonlinear_arith)
        requires
            bb > 0,
            aa >= 0,
            q == aa / bb,
    ;
    if (a < 0) == (b < 0) {
        assert(trunc_div(a, b) == q);
        if b < 0 {
            assert(q * b == -(q * bb)) by (nonlinear_arith)
                requires
                    bb == -b,
            ;
        } else {
            assert(q * b == q * bb);
        }
    } else {
        assert(trunc_div(a, b) == -q);
        if b < 0 {
            assert((-q) * b == q * bb) by (nonlinear_arith)
                requires
                    bb == -b,
            ;
        } else {
            assert((-q) * b == -(q * bb)) by (nonlinear_arith)
                requires
                    bb == b,
            ;
        }
    }
}

/// A number argument of `SAFEDIV` as a decimal: a decimal as it is, an
/// integer converted.
pub open spec fn safediv_operand(v: Value) -> Option<Dec> {
    match v {
        Value::Number(n) => Some(n),
        Value::Integer(i) => Some(int_dec(i)),
        _ => None,
    }
}

/// The `SAFEDIV` function: division that gives NULL for a zero divisor or
/// a NULL argument. Two integers divide as integers (truncating); any
/// other pair of numbers divides as decimals.
pub open spec fn safediv_spec(args: Seq<Value>) -> Result<ValueView, QueryErrorSpec> {
    if args.len() != 2 {
        Err(call_arity_error("SAFEDIV"@, 2))
    } else if args[0] is Null || args[1] is Null {
        Ok(ValueView::Null)
    } else {
        match (args[0], args[1]) {
            (Value::Integer(n), Value::Integer(d)) => if d == 0 {
                Ok(ValueView::Null)
            } else {
                Ok(ValueView::Integer(trunc_div(n as int, d as int) as i64))
            },
            _ => match (safediv_operand(args[0]), safediv_operand(args[1])) {
                (Some(n), Some(d)) => if d.mantissa == 0 {
                    Ok(ValueView::Null)
                } else {
                    Ok(ValueView::Number(decimal_checked_div(n, d)->Some_0))
                },
                _ => Err(QueryErrorSpec::Type("SAFEDIV expects two numbers"@)),
            },
        }
    }
}

/// The division of `SAFEDIV` does not fault (no decimal overflow, no
/// `i64::MIN / -1`): the inputs on which the division panics are left out.
pub open spec fn safediv_defined(args: Seq<Value>) -> bool {
    args.len() == 2 ==> match (args[0], args[1]) {
        (Value::Integer(n), Value::Integer(d)) => !(n == i64::MIN && d == -1),
        _ => match (safediv_operand(args[0]), safediv_operand(args[1])) {
            (Some(n), Some(d)) => d.mantissa != 0 ==> decimal_checked_div(n, d) is Some,
            _ => true,
        },
    }
}

/// A number argument of `SAFEDIV` as a decimal.
fn safediv_operand_of(v: &Value) -> (res: Option<Dec>)
    requires
        value_wf(*v),
    ensures
        res == safediv_operand(*v),
        res matches Some(d) ==> d.wf(),
{
    match v {
        Value::Number(n) => Some(*n),
        Value::Integer(i) => Some(Dec { mantissa: *i as i128, scale: 0 }),
        _ => None,
    }
}

/// Evaluate SAFEDIV.
pub fn eval_safediv(args: &[Value]) -> (res: Result<Value, QueryError>)
    requires
        forall|i: int| 0 <= i < args@.len() ==> value_wf(#[trigger] args@[i]),
        safediv_defined(args@),
    ensures
        rview(res) == safediv_spec(args@),
{
    match require_args("SAFEDIV", args, 2) {
        Ok(()) => {},
        Err(e) => {
            return Err(e);
        },
    }
    if matches!(args[0], Value::Null) || matches!(args[1], Value::Null) {
        return Ok(Value::Null);
    }
    match (&args[0], &args[1]) {
        (Value::Integer(n), Value::Integer(d)) => {
            if *d == 0 {
                Ok(Value::Null)
            } else {
                let q = int_div(*n, *d);
                Ok(Value::Integer(q))
            }
        },
        _ => {
            assert(value_wf(args@[0]) && value_wf(args@[1]));
            match (safediv_operand_of(&args[0]), safediv_operand_of(&args[1])) {
                (Some(n), Some(d)) => {
                    if d.is_zero() {
                        Ok(Value::Null)
                    } else {
                        Ok(Value::Number(checked_div(n, d).unwrap()))
                    }
                },
                _ => Err(type_error("SAFEDIV expects two numbers")),
            }
        },
    }
}

/// Integer division truncated towards zero.
pub(crate) fn int_div(n: i64, d: i64) -> (res: i64)
    requires
        d != 0,
        !(n == i64::MIN && d == -1),
    ensures
        res == trunc_div(n as int, d as int),
{
    let an: u64 = if n < 0 { if n == i64::MIN { 9223372036854775808u64 } else { (-n) as u64 } } else { n as u64 };
    let ad: u64 = if d < 0 { if d == i64::MIN { 9223372036854775808u64 } else { (-d) as u64 } } else { d as u64 };
    let q: u64 = an / ad;
    if (n < 0) == (d < 0) {
        assert(q <= i64::MAX) by {
            if n == i64::MIN {
                assert(ad >= 2);
                assert(an / ad <= an / 2) by (nonlinear_arith) requires ad >= 2;
            } else {
                assert(an / ad <= an) by (nonlinear_arith) requires ad >= 1;
            }
        }
        q as i64
    } else {
        assert(q <= an) by (nonlinear_arith) requires ad >= 1, q == an / ad;
        if q == 9223372036854775808u64 {
            i64::MIN
        } else {
            -(q as i64)
        }
    }
}

/// Whether the cuts of `SUBSTR` on these arguments fall on character
/// boundaries and its end position does not overflow.
pub fn substr_cuts_checked(args: &[Value]) -> (res: bool)
    ensures
        res == substr_cuts_ok(args@),
{
    if args.len() < 2 || args.len() > 3 {
        return true;
    }
    match (&args[0], &args[1]) {
        (Value::String(s), Value::Integer(start)) => {
            let st: usize = if *start < 0 { 0 } else { *start as usize };
            let text = s.as_str();
            let nbytes = text.as_bytes().len();
            if st >= nbytes {
                return true;
            }
            if !text.is_char_boundary(st) {
                return false;
            }
            if args.len() == 3 {
                match &args[2] {
                    Value::Integer(l) => {
                        let ln: usize = if *l < 0 { 0 } else { *l as usize };
                        if ln > usize::MAX - st {
                            return false;
                        }
                        let end: usize = if st + ln < nbytes { st + ln } else { nbytes };
                        text.is_char_boundary(end)
                    },
                    _ => true,
                }
            } else {
                true
            }
        },
        _ => true,
    }
}

/// Whether the division of `SAFEDIV` on these arguments does not fault.
pub fn safediv_checked(args: &[Value]) -> (res: bool)
    requires
        forall|i: int| 0 <= i < args@.len() ==> value_wf(#[trigger] args@[i]),
    ensures
        res == safediv_defined(args@),
{
    if args.len() != 2 {
        return true;
    }
    match (&args[0], &args[1]) {
        (Value::Integer(n), Value::Integer(d)) => !(*n == i64::MIN && *d == -1),
        _ => {
            assert(value_wf(args@[0]) && value_wf(args@[1]));
            match (safediv_operand_of(&args[0]), safediv_operand_of(&args[1])) {
                (Some(n), Some(d)) => d.is_zero() || checked_div(n, d).is_some(),
                _ => true,
            }
        },
    }
}

/// Whether every string argument's length fits a machine counter.
pub fn lengths_checked(args: &[Value]) -> (res: bool)
    ensures
        res == forall|i: int| 0 <= i < args@.len() ==> length_fits(#[trigger] args@[i]),
{
    let n = args.len();
    let mut i: usize = 0;
    while i < n
        invariant
            n == args@.len(),
            i <= n,
            forall|j: int| 0 <= j < i ==> length_fits(#[trigger] args@[j]),
        decreases n - i,
    {
        match &args[i] {
            Value::String(s) => {
                if s.as_str().unicode_len() as u64 == u64::MAX {
                    assert(!length_fits(args@[i as int]));
                    return false;
                }
            },
            _ => {},
        }
        i = i + 1;
    }
    true
}

/// Evaluate a function on pre-evaluated arguments, unless it is `ABS` of
/// the smallest `i64`, which has no absolute value (`None` then).
pub fn try_evaluate_function_on_values(name: &str, args: &[Value]) -> (res: Option<Result<Value, QueryError>>)
    requires
        forall|i: int| 0 <= i < args@.len() ==> value_wf(#[trigger] args@[i]),
    ensures
        res is None <==> (std_to_uppercase(name@) == "ABS"@ && args@.len() == 1 && (args@[0] matches Value::Integer(
            k
        ) && k == i64::MIN)),
        res matches Some(r) ==> (std_to_uppercase(name@) == "TODAY"@ ==> (r matches Ok(Value::Date(d)) && d.wf())),
        res matches Some(r) ==> (std_to_uppercase(name@) != "TODAY"@ ==> rview(r) == function_on_values_spec(
            std_to_uppercase(name@),
            name@,
            args@,
        )),
{
    let upper = to_uppercase(name);
    if str_eq(upper.as_str(), "ABS") && args.len() == 1 {
        match &args[0] {
            Value::Integer(k) => {
                if *k == i64::MIN {
                    return None;
                }
            },
            _ => {},
        }
    }
    Some(evaluate_function_on_values(name, args))
}

} // verus!
