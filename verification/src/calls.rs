//! A BQL function call on already-evaluated argument values, dispatched by
//! the function's name.

use vstd::prelude::*;
use crate::text::{str_eq, string_of, std_to_uppercase, to_uppercase};
use crate::accounts::{AccountInfo, eval_account_date, eval_open_meta, account_date_spec, open_meta_spec};
use crate::meta::{eval_meta_function, meta_function_spec, is_meta_name};
use crate::columns::PostingContext;
use crate::value::{Value, QueryError, QueryErrorSpec, ValueView, rview, value_wf};
use crate::funcs::{
    account_function_spec, root_function_spec, eval_account_function, length_fits, coalesce_spec, eval_coalesce,
    is_aggregate_name, substr_cuts_ok, safediv_defined, substr_cuts_checked, safediv_checked, lengths_checked,
};
use crate::datefuncs::{
    date_function_spec, eval_date_function, extended_date_spec, extended_date_defined, eval_extended_date_function,
    extended_date_checked,
};
use crate::strfuncs::{string_function_spec, eval_string_function};
use crate::castfuncs::{
    math_function_spec, eval_math_function, int_spec, eval_int, decimal_spec, eval_decimal, str_spec, eval_str,
    bool_spec, eval_bool,
};
use crate::posfuncs::{
    position_function_spec, position_arith_ok, eval_position_function, inventory_function_spec,
    eval_inventory_function, only_spec, eval_only, position_arith_checked,
};

verus! {

/// The date functions of one date.
pub open spec fn is_date_name(u: Seq<char>) -> bool {
    u == "YEAR"@ || u == "MONTH"@ || u == "DAY"@ || u == "WEEKDAY"@ || u == "QUARTER"@ || u == "YMONTH"@ || u
        == "TODAY"@
}

/// The extended date functions.
pub open spec fn is_extended_date_name(u: Seq<char>) -> bool {
    u == "DATE"@ || u == "DATE_DIFF"@ || u == "DATE_ADD"@ || u == "DATE_TRUNC"@ || u == "DATE_PART"@ || u
        == "PARSE_DATE"@ || u == "DATE_BIN"@ || u == "INTERVAL"@
}

/// The string functions.
pub open spec fn is_string_name(u: Seq<char>) -> bool {
    u == "LENGTH"@ || u == "UPPER"@ || u == "LOWER"@ || u == "SUBSTR"@ || u == "SUBSTRING"@ || u == "TRIM"@ || u
        == "STARTSWITH"@ || u == "ENDSWITH"@ || u == "GREP"@ || u == "GREPN"@ || u == "SUBST"@ || u == "SPLITCOMP"@
        || u == "JOINSTR"@ || u == "MAXWIDTH"@
}

/// The account functions.
pub open spec fn is_account_name(u: Seq<char>) -> bool {
    u == "PARENT"@ || u == "LEAF"@ || u == "ROOT"@ || u == "ACCOUNT_DEPTH"@ || u == "ACCOUNT_SORTKEY"@
}

/// The math functions.
pub open spec fn is_math_name(u: Seq<char>) -> bool {
    u == "ABS"@ || u == "NEG"@ || u == "ROUND"@ || u == "SAFEDIV"@
}

/// The amount and position functions.
pub open spec fn is_position_name(u: Seq<char>) -> bool {
    u == "NUMBER"@ || u == "CURRENCY"@ || u == "GETITEM"@ || u == "GET"@ || u == "UNITS"@ || u == "COST"@ || u
        == "WEIGHT"@
}

/// The inventory functions.
pub open spec fn is_inventory_name(u: Seq<char>) -> bool {
    u == "EMPTY"@ || u == "FILTER_CURRENCY"@ || u == "POSSIGN"@
}

/// The functions that read the ledger beyond their arguments (account
/// dates and metadata, entry metadata, prices): `evaluate_function` leaves
/// them to `evaluate_ledger_function`, which takes the ledger's tables.
pub open spec fn reads_ledger(u: Seq<char>) -> bool {
    u == "OPEN_DATE"@ || u == "CLOSE_DATE"@ || u == "OPEN_META"@ || u == "VALUE"@ || u == "GETPRICE"@ || u
        == "META"@ || u == "ENTRY_META"@ || u == "ANY_META"@ || u == "POSTING_META"@ || u == "CONVERT"@
}

/// A function call on evaluated arguments, by its upper-cased name `u`
/// (`name` is the name as written, for the unknown-function error).
pub open spec fn function_spec(u: Seq<char>, name: Seq<char>, args: Seq<Value>) -> Result<ValueView, QueryErrorSpec> {
    if is_date_name(u) {
        date_function_spec(u, args)
    } else if is_extended_date_name(u) {
        extended_date_spec(u, args)
    } else if is_string_name(u) {
        string_function_spec(u, args)
    } else if is_account_name(u) {
        if u == "ROOT"@ {
            root_function_spec(args)
        } else {
            account_function_spec(u, args)
        }
    } else if is_math_name(u) {
        math_function_spec(u, args)
    } else if is_position_name(u) {
        position_function_spec(u, args)
    } else if is_inventory_name(u) {
        inventory_function_spec(u, args)
    } else if u == "COALESCE"@ {
        Ok(coalesce_spec(args))
    } else if u == "ONLY"@ {
        only_spec(args)
    } else if u == "INT"@ {
        int_spec(args)
    } else if u == "DECIMAL"@ {
        decimal_spec(args)
    } else if u == "STR"@ {
        str_spec(args)
    } else if u == "BOOL"@ {
        bool_spec(args)
    } else if is_aggregate_name(u) {
        Ok(ValueView::Null)
    } else {
        Err(QueryErrorSpec::UnknownFunction(name))
    }
}

/// The call does not fault: its arithmetic does not overflow and its cuts
/// fall on character boundaries, as each function states.
pub open spec fn function_defined(u: Seq<char>, args: Seq<Value>) -> bool {
    &&& (is_extended_date_name(u) ==> extended_date_defined(u, args))
    &&& ((u == "SUBSTR"@ || u == "SUBSTRING"@) ==> substr_cuts_ok(args))
    &&& (is_account_name(u) ==> forall|i: int| 0 <= i < args.len() ==> length_fits(#[trigger] args[i]))
    &&& ((u == "ABS"@ || u == "NEG"@) && args.len() == 1 ==> !(args[0] matches Value::Integer(k) && k == i64::MIN))
    &&& (u == "SAFEDIV"@ ==> safediv_defined(args))
    &&& (is_position_name(u) ==> position_arith_ok(u, args))
}

/// Evaluate a function call on evaluated arguments; the name is matched
/// case-insensitively. `TODAY` reads the clock.
pub fn evaluate_function(name: &str, args: &[Value]) -> (res: Result<Value, QueryError>)
    requires
        !reads_ledger(std_to_uppercase(name@)),
        forall|i: int| 0 <= i < args@.len() ==> value_wf(#[trigger] args@[i]),
        function_defined(std_to_uppercase(name@), args@),
    ensures
        std_to_uppercase(name@) == "TODAY"@ && args@.len() == 0 ==> (res matches Ok(Value::Date(d)) && d.wf()),
        !(std_to_uppercase(name@) == "TODAY"@ && args@.len() == 0) ==> rview(res) == function_spec(
            std_to_uppercase(name@),
            name@,
            args@,
        ),
{
    let upper = to_uppercase(name);
    let u = upper.as_str();
    if str_eq(u, "YEAR") || str_eq(u, "MONTH") || str_eq(u, "DAY") || str_eq(u, "WEEKDAY") || str_eq(u, "QUARTER")
        || str_eq(u, "YMONTH") || str_eq(u, "TODAY") {
        eval_date_function(u, args)
    } else if str_eq(u, "DATE") || str_eq(u, "DATE_DIFF") || str_eq(u, "DATE_ADD") || str_eq(u, "DATE_TRUNC")
        || str_eq(u, "DATE_PART") || str_eq(u, "PARSE_DATE") || str_eq(u, "DATE_BIN") || str_eq(u, "INTERVAL") {
        eval_extended_date_function(u, args)
    } else if str_eq(u, "LENGTH") || str_eq(u, "UPPER") || str_eq(u, "LOWER") || str_eq(u, "SUBSTR") || str_eq(
        u,
        "SUBSTRING",
    ) || str_eq(u, "TRIM") || str_eq(u, "STARTSWITH") || str_eq(u, "ENDSWITH") || str_eq(u, "GREP") || str_eq(
        u,
        "GREPN",
    ) || str_eq(u, "SUBST") || str_eq(u, "SPLITCOMP") || str_eq(u, "JOINSTR") || str_eq(u, "MAXWIDTH") {
        eval_string_function(u, args)
    } else if str_eq(u, "PARENT") || str_eq(u, "LEAF") || str_eq(u, "ROOT") || str_eq(u, "ACCOUNT_DEPTH") || str_eq(
        u,
        "ACCOUNT_SORTKEY",
    ) {
        eval_account_function(u, args)
    } else if str_eq(u, "ABS") || str_eq(u, "NEG") || str_eq(u, "ROUND") || str_eq(u, "SAFEDIV") {
        eval_math_function(u, args)
    } else if str_eq(u, "NUMBER") || str_eq(u, "CURRENCY") || str_eq(u, "GETITEM") || str_eq(u, "GET") || str_eq(
        u,
        "UNITS",
    ) || str_eq(u, "COST") || str_eq(u, "WEIGHT") {
        eval_position_function(u, args)
    } else if str_eq(u, "EMPTY") || str_eq(u, "FILTER_CURRENCY") || str_eq(u, "POSSIGN") {
        eval_inventory_function(u, args)
    } else if str_eq(u, "COALESCE") {
        Ok(eval_coalesce(args))
    } else if str_eq(u, "ONLY") {
        eval_only(args)
    } else if str_eq(u, "INT") {
        eval_int(args)
    } else if str_eq(u, "DECIMAL") {
        eval_decimal(args)
    } else if str_eq(u, "STR") {
        eval_str(args)
    } else if str_eq(u, "BOOL") {
        eval_bool(args)
    } else if str_eq(u, "SUM") || str_eq(u, "COUNT") || str_eq(u, "MIN") || str_eq(u, "MAX") || str_eq(u, "FIRST")
        || str_eq(u, "LAST") || str_eq(u, "AVG") {
        Ok(Value::Null)
    } else {
        Err(QueryError::UnknownFunction(string_of(name)))
    }
}

/// Whether a name is one of the extended date functions.
fn extended_date_name(u: &str) -> (res: bool)
    ensures
        res == is_extended_date_name(u@),
{
    str_eq(u, "DATE") || str_eq(u, "DATE_DIFF") || str_eq(u, "DATE_ADD") || str_eq(u, "DATE_TRUNC") || str_eq(
        u,
        "DATE_PART",
    ) || str_eq(u, "PARSE_DATE") || str_eq(u, "DATE_BIN") || str_eq(u, "INTERVAL")
}

/// Whether a name is one of the account functions.
fn account_name(u: &str) -> (res: bool)
    ensures
        res == is_account_name(u@),
{
    str_eq(u, "PARENT") || str_eq(u, "LEAF") || str_eq(u, "ROOT") || str_eq(u, "ACCOUNT_DEPTH") || str_eq(
        u,
        "ACCOUNT_SORTKEY",
    )
}

/// Whether a name is one of the amount and position functions.
fn position_name(u: &str) -> (res: bool)
    ensures
        res == is_position_name(u@),
{
    str_eq(u, "NUMBER") || str_eq(u, "CURRENCY") || str_eq(u, "GETITEM") || str_eq(u, "GET") || str_eq(u, "UNITS")
        || str_eq(u, "COST") || str_eq(u, "WEIGHT")
}

/// Whether a name is one of the functions that read the ledger.
fn ledger_name(u: &str) -> (res: bool)
    ensures
        res == reads_ledger(u@),
{
    str_eq(u, "OPEN_DATE") || str_eq(u, "CLOSE_DATE") || str_eq(u, "OPEN_META") || str_eq(u, "VALUE") || str_eq(
        u,
        "GETPRICE",
    ) || str_eq(u, "META") || str_eq(u, "ENTRY_META") || str_eq(u, "ANY_META") || str_eq(u, "POSTING_META")
        || str_eq(u, "CONVERT")
}

/// Whether a call by the upper-cased name `u` on these arguments is one
/// evaluated here and does not fault.
pub fn call_checked(u: &str, args: &[Value]) -> (res: bool)
    requires
        forall|i: int| 0 <= i < args@.len() ==> value_wf(#[trigger] args@[i]),
    ensures
        res == (!reads_ledger(u@) && function_defined(u@, args@)),
{
    let ledger = ledger_name(u);
    let dates_ok = if extended_date_name(u) { extended_date_checked(u, args) } else { true };
    let cuts_ok = if str_eq(u, "SUBSTR") || str_eq(u, "SUBSTRING") { substr_cuts_checked(args) } else { true };
    let lengths_ok = if account_name(u) { lengths_checked(args) } else { true };
    let sign_ok = if (str_eq(u, "ABS") || str_eq(u, "NEG")) && args.len() == 1 {
        match &args[0] {
            Value::Integer(k) => *k != i64::MIN,
            _ => true,
        }
    } else {
        true
    };
    let div_ok = if str_eq(u, "SAFEDIV") { safediv_checked(args) } else { true };
    let arith_ok = if position_name(u) { position_arith_checked(u, args) } else { true };
    !ledger && dates_ok && cuts_ok && lengths_ok && sign_ok && div_ok && arith_ok
}

/// Evaluate a function call on evaluated arguments when it is one evaluated
/// here and does not fault; `None` for a function that reads the ledger, and
/// for arithmetic that would overflow or a cut that would fall inside a
/// character.
pub fn try_evaluate_function(name: &str, args: &[Value]) -> (res: Option<Result<Value, QueryError>>)
    requires
        forall|i: int| 0 <= i < args@.len() ==> value_wf(#[trigger] args@[i]),
    ensures
        res is Some <==> (!reads_ledger(std_to_uppercase(name@)) && function_defined(std_to_uppercase(name@), args@)),
        res matches Some(r) ==> (std_to_uppercase(name@) == "TODAY"@ && args@.len() == 0 ==> (r matches Ok(
            Value::Date(d),
        ) && d.wf())),
        res matches Some(r) ==> (!(std_to_uppercase(name@) == "TODAY"@ && args@.len() == 0) ==> rview(r)
            == function_spec(std_to_uppercase(name@), name@, args@)),
{
    let upper = to_uppercase(name);
    if !call_checked(upper.as_str(), args) {
        return None;
    }
    Some(evaluate_function(name, args))
}

/// The functions of account dates and metadata, by upper-cased name.
pub open spec fn is_account_meta_name(u: Seq<char>) -> bool {
    u == "OPEN_DATE"@ || u == "CLOSE_DATE"@ || u == "OPEN_META"@
}

/// A call of a function that reads the account table or the row's
/// metadata, by its upper-cased name `u`.
pub open spec fn ledger_function_spec(
    u: Seq<char>,
    args: Seq<Value>,
    ctx: PostingContext,
    accounts: Seq<AccountInfo>,
) -> Result<ValueView, QueryErrorSpec> {
    if u == "OPEN_DATE"@ {
        account_date_spec("OPEN_DATE"@, true, args, accounts)
    } else if u == "CLOSE_DATE"@ {
        account_date_spec("CLOSE_DATE"@, false, args, accounts)
    } else if u == "OPEN_META"@ {
        open_meta_spec(args, accounts)
    } else {
        meta_function_spec(u, args, ctx)
    }
}

/// Evaluate a call of `OPEN_DATE`, `CLOSE_DATE`, `OPEN_META` (against the
/// account table built from the ledger's `open` and `close` directives) or
/// of a metadata function (against the row's posting and transaction); the
/// name is matched case-insensitively.
pub fn evaluate_ledger_function(
    name: &str,
    args: &[Value],
    ctx: &PostingContext,
    accounts: &Vec<AccountInfo>,
) -> (res: Result<Value, QueryError>)
    requires
        is_account_meta_name(std_to_uppercase(name@)) || is_meta_name(std_to_uppercase(name@)),
        ctx.posting_index < ctx.transaction.postings@.len(),
    ensures
        rview(res) == ledger_function_spec(std_to_uppercase(name@), args@, *ctx, accounts@),
{
    let upper = to_uppercase(name);
    let u = upper.as_str();
    if str_eq(u, "OPEN_DATE") {
        eval_account_date(true, args, accounts)
    } else if str_eq(u, "CLOSE_DATE") {
        eval_account_date(false, args, accounts)
    } else if str_eq(u, "OPEN_META") {
        eval_open_meta(args, accounts)
    } else {
        eval_meta_function(u, args, ctx)
    }
}

/// Evaluate a call of a function that reads the account table or the
/// row's metadata, when the name is one of them and the row's posting
/// exists; `None` otherwise.
pub fn try_evaluate_ledger_function(
    name: &str,
    args: &[Value],
    ctx: &PostingContext,
    accounts: &Vec<AccountInfo>,
) -> (res: Option<Result<Value, QueryError>>)
    ensures
        res is Some <==> ((is_account_meta_name(std_to_uppercase(name@)) || is_meta_name(std_to_uppercase(name@)))
            && ctx.posting_index < ctx.transaction.postings@.len()),
        res matches Some(r) ==> rview(r) == ledger_function_spec(std_to_uppercase(name@), args@, *ctx, accounts@),
{
    let upper = to_uppercase(name);
    let u = upper.as_str();
    let known = str_eq(u, "OPEN_DATE") || str_eq(u, "CLOSE_DATE") || str_eq(u, "OPEN_META") || str_eq(u, "META")
        || str_eq(u, "POSTING_META") || str_eq(u, "ENTRY_META") || str_eq(u, "ANY_META");
    if known && ctx.posting_index < ctx.transaction.postings.len() {
        Some(evaluate_ledger_function(name, args, ctx, accounts))
    } else {
        None
    }
}

} // verus!
