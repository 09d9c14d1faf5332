//! The `FROM` clause's filter on transactions: `HAS_ACCOUNT(pattern)`,
//! `YEAR` or `MONTH` compared with a literal and `date` compared with a date
//! are decided on the transaction itself; any other filter is a predicate
//! that the caller evaluates on the transaction's first posting.

use vstd::prelude::*;
use crate::date::Date;
use crate::dec::{Dec, Order, decimal_display};
use crate::ledger::{Posting, Transaction};
use crate::text::{str_eq, string_of, push_str, to_uppercase, std_to_uppercase, parse_i64, parse_i64_spec};
use crate::value::{BinaryOperator, QueryError, QueryErrorSpec, regex_is_match, regex_match_spec, regex_refused};

verus! {

/// A literal as a `FROM` filter reads it.
#[derive(Debug, Clone)]
pub enum FromLiteral {
    /// A string literal.
    String(String),
    /// An integer literal.
    Integer(i64),
    /// A decimal literal.
    Number(Dec),
    /// A date literal.
    Date(Date),
    /// Any other literal.
    Other,
}

/// An operand of a `FROM` filter: a column name, a literal, or any other
/// expression.
#[derive(Debug, Clone)]
pub enum FromOperand {
    /// A column reference, by its name.
    Column(String),
    /// A literal.
    Literal(FromLiteral),
    /// Any other expression.
    Other,
}

/// A `FROM` filter, as far as the transaction-level forms read it.
#[derive(Debug, Clone)]
pub enum FromFilter {
    /// A function call: its name and arguments.
    Function { name: String, args: Vec<FromOperand> },
    /// A binary operation.
    BinaryOp { op: BinaryOperator, left: FromOperand, right: FromOperand },
    /// Any other expression.
    Other,
}

/// The numbers inside a filter are well formed.
pub open spec fn operand_wf(o: FromOperand) -> bool {
    o matches FromOperand::Literal(FromLiteral::Number(d)) ==> d.wf()
}

/// The numbers inside a filter are well formed.
pub open spec fn from_filter_wf(f: FromFilter) -> bool {
    match f {
        FromFilter::BinaryOp { right, .. } => operand_wf(right),
        _ => true,
    }
}

/// Whether some posting's account matches the pattern.
pub open spec fn some_account_matches(pattern: Seq<char>, ps: Seq<Posting>) -> bool {
    exists|i: int| 0 <= i < ps.len() && regex_match_spec(pattern, (#[trigger] ps[i]).account@) == Some(true)
}

/// `HAS_ACCOUNT(pattern)`: whether some posting's account matches the
/// pattern (a string literal or a column's name).
pub open spec fn has_account_spec(args: Seq<FromOperand>, ps: Seq<Posting>) -> Result<bool, QueryErrorSpec> {
    if args.len() != 1 {
        Err(QueryErrorSpec::InvalidArguments("has_account"@, "expected 1 argument"@))
    } else {
        let pattern = match args[0] {
            FromOperand::Literal(FromLiteral::String(s)) => Some(s@),
            FromOperand::Column(s) => Some(s@),
            _ => None,
        };
        match pattern {
            None => Err(QueryErrorSpec::Type("has_account expects a string pattern"@)),
            Some(p) => if regex_refused(p) {
                Err(QueryErrorSpec::Type("invalid regex: "@ + p))
            } else {
                Ok(some_account_matches(p, ps))
            },
        }
    }
}

/// The year a literal names: an integer cut to 32 bits, or a decimal whose
/// text reads as an `i32`.
pub open spec fn year_of_literal(lit: FromLiteral) -> Option<i32> {
    match lit {
        FromLiteral::Integer(n) => Some(n as i32),
        FromLiteral::Number(d) => match parse_i64_spec(decimal_display(d)) {
            Some(v) => if i32::MIN <= v <= i32::MAX { Some(v as i32) } else { None },
            None => None,
        },
        _ => None,
    }
}

/// The month a literal names: an integer cut to 32 bits, or a decimal whose
/// text reads as a `u32`.
pub open spec fn month_of_literal(lit: FromLiteral) -> Option<u32> {
    match lit {
        FromLiteral::Integer(n) => Some(n as u32),
        FromLiteral::Number(d) => {
            let t = decimal_display(d);
            if t.len() > 0 && t[0] == '-' {
                None
            } else {
                match parse_i64_spec(t) {
                    Some(v) => if 0 <= v <= u32::MAX { Some(v as u32) } else { None },
                    None => None,
                }
            }
        },
        _ => None,
    }
}

/// `=` keeps a match, any other operator negates it.
pub open spec fn eq_or_not(op: BinaryOperator, matches: bool) -> bool {
    if op == BinaryOperator::Eq {
        matches
    } else {
        !matches
    }
}

/// A date comparison; operators other than comparisons give false.
pub open spec fn date_compare(op: BinaryOperator, a: Date, b: Date) -> bool {
    let o = a.order_with(b);
    match op {
        BinaryOperator::Eq => o == Order::Equal,
        BinaryOperator::Ne => o != Order::Equal,
        BinaryOperator::Lt => o == Order::Less,
        BinaryOperator::Le => o != Order::Greater,
        BinaryOperator::Gt => o == Order::Greater,
        BinaryOperator::Ge => o != Order::Less,
        _ => false,
    }
}

/// What a `FROM` filter gives for a transaction: `Some` with the outcome
/// where it is decided on the transaction itself, `None` where it is an
/// ordinary predicate, to be evaluated on the transaction's first posting.
pub open spec fn from_filter_spec(f: FromFilter, t: Transaction) -> Option<Result<bool, QueryErrorSpec>> {
    match f {
        FromFilter::Function { name, args } => if std_to_uppercase(name@) == "HAS_ACCOUNT"@ {
            Some(has_account_spec(args@, t.postings@))
        } else {
            None
        },
        FromFilter::BinaryOp { op, left, right } => match (left, right) {
            (FromOperand::Column(col), FromOperand::Literal(lit)) => if std_to_uppercase(col@) == "YEAR"@ {
                Some(
                    Ok(
                        match year_of_literal(lit) {
                            Some(n) => eq_or_not(op, t.date.year == n),
                            None => false,
                        },
                    ),
                )
            } else if std_to_uppercase(col@) == "MONTH"@ {
                Some(
                    Ok(
                        match month_of_literal(lit) {
                            Some(n) => eq_or_not(op, t.date.month == n),
                            None => false,
                        },
                    ),
                )
            } else if std_to_uppercase(col@) == "DATE"@ && lit is Date {
                Some(Ok(date_compare(op, t.date, lit->Date_0)))
            } else {
                None
            },
            _ => None,
        },
        FromFilter::Other => None,
    }
}

/// The filter comparing a column with a literal by an operator.
pub open spec fn column_filter(op: BinaryOperator, col: String, lit: FromLiteral) -> FromFilter {
    FromFilter::BinaryOp { op, left: FromOperand::Column(col), right: FromOperand::Literal(lit) }
}

/// A transaction's year (or month) compared with a literal that names a
/// number: `=` and `!=` keep exactly the opposite transactions.
pub proof fn law_year_month_eq_ne_opposite(t: Transaction, col: String, lit: FromLiteral)
    requires
        (std_to_uppercase(col@) == "YEAR"@ && year_of_literal(lit) is Some) || (std_to_uppercase(col@) == "MONTH"@
            && month_of_literal(lit) is Some),
    ensures
        from_filter_spec(column_filter(BinaryOperator::Eq, col, lit), t) matches Some(Ok(a))
            && from_filter_spec(column_filter(BinaryOperator::Ne, col, lit), t) matches Some(Ok(b)) && a == !b,
{
    reveal_strlit("YEAR");
    reveal_strlit("MONTH");
    assert("YEAR"@[0] != "MONTH"@[0]);
}

/// A transaction's date compared with a date literal: `<` and `>=`, `>` and
/// `<=`, `=` and `!=` each keep exactly the opposite transactions.
pub proof fn law_date_comparisons_opposite(t: Transaction, col: String, d: Date)
    requires
        std_to_uppercase(col@) == "DATE"@,
    ensures
        from_filter_spec(column_filter(BinaryOperator::Lt, col, FromLiteral::Date(d)), t) matches Some(Ok(a))
            && from_filter_spec(column_filter(BinaryOperator::Ge, col, FromLiteral::Date(d)), t) matches Some(Ok(b))
            && a == !b,
        from_filter_spec(column_filter(BinaryOperator::Gt, col, FromLiteral::Date(d)), t) matches Some(Ok(a))
            && from_filter_spec(column_filter(BinaryOperator::Le, col, FromLiteral::Date(d)), t) matches Some(Ok(b))
            && a == !b,
        from_filter_spec(column_filter(BinaryOperator::Eq, col, FromLiteral::Date(d)), t) matches Some(Ok(a))
            && from_filter_spec(column_filter(BinaryOperator::Ne, col, FromLiteral::Date(d)), t) matches Some(Ok(b))
            && a == !b,
{
    reveal_strlit("YEAR");
    reveal_strlit("MONTH");
    reveal_strlit("DATE");
    assert("DATE"@[0] != "YEAR"@[0]);
    assert("DATE"@[0] != "MONTH"@[0]);
}

/// A result of a filter by its plain parts.
pub open spec fn filter_view(r: Option<Result<bool, QueryError>>) -> Option<Result<bool, QueryErrorSpec>> {
    match r {
        None => None,
        Some(Ok(b)) => Some(Ok(b)),
        Some(Err(e)) => Some(Err(e.spec())),
    }
}

/// `HAS_ACCOUNT` with its arguments.
fn has_account(args: &Vec<FromOperand>, ps: &Vec<Posting>) -> (res: Result<bool, QueryError>)
    ensures
        match res {
            Ok(b) => has_account_spec(args@, ps@) == Ok::<bool, QueryErrorSpec>(b),
            Err(e) => has_account_spec(args@, ps@) == Err::<bool, QueryErrorSpec>(e.spec()),
        },
{
    if args.len() != 1 {
        return Err(QueryError::InvalidArguments(string_of("has_account"), string_of("expected 1 argument")));
    }
    let pattern: &String = match &args[0] {
        FromOperand::Literal(FromLiteral::String(s)) => s,
        FromOperand::Column(s) => s,
        _ => {
            return Err(QueryError::Type(string_of("has_account expects a string pattern")));
        },
    };
    if regex_is_match(pattern.as_str(), "").is_none() {
        let mut msg = string_of("invalid regex: ");
        push_str(&mut msg, pattern.as_str());
        return Err(QueryError::Type(msg));
    }
    assert(has_account_spec(args@, ps@) == Ok::<bool, QueryErrorSpec>(some_account_matches(pattern@, ps@)));
    let n = ps.len();
    let mut i: usize = 0;
    while i < n
        invariant
            n == ps@.len(),
            i <= n,
            !regex_refused(pattern@),
            has_account_spec(args@, ps@) == Ok::<bool, QueryErrorSpec>(some_account_matches(pattern@, ps@)),
            forall|j: int| 0 <= j < i ==> regex_match_spec(pattern@, (#[trigger] ps@[j]).account@) != Some(true),
        decreases n - i,
    {
        if let Some(true) = regex_is_match(pattern.as_str(), ps[i].account.as_str()) {
            assert(regex_match_spec(pattern@, ps@[i as int].account@) == Some(true));
            assert(some_account_matches(pattern@, ps@));
            return Ok(true);
        }
        i = i + 1;
    }
    Ok(false)
}

/// The year a literal names.
fn year_literal(lit: &FromLiteral) -> (res: Option<i32>)
    requires
        lit matches FromLiteral::Number(d) ==> d.wf(),
    ensures
        res == year_of_literal(*lit),
{
    match lit {
        FromLiteral::Integer(n) => Some(*n as i32),
        FromLiteral::Number(d) => {
            let t = crate::dec::to_text(*d);
            match parse_i64(t.as_str()) {
                Some(v) => if -2147483648 <= v && v <= 2147483647 { Some(v as i32) } else { None },
                None => None,
            }
        },
        _ => None,
    }
}

/// The month a literal names.
fn month_literal(lit: &FromLiteral) -> (res: Option<u32>)
    requires
        lit matches FromLiteral::Number(d) ==> d.wf(),
    ensures
        res == month_of_literal(*lit),
{
    match lit {
        FromLiteral::Integer(n) => Some(*n as u32),
        FromLiteral::Number(d) => {
            let t = crate::dec::to_text(*d);
            if t.unicode_len() > 0 && t.as_str().get_char(0) == '-' {
                return None;
            }
            match parse_i64(t.as_str()) {
                Some(v) => if 0 <= v && v <= 4294967295 { Some(v as u32) } else { None },
                None => None,
            }
        },
        _ => None,
    }
}

/// Decide a `FROM` filter on a transaction: `HAS_ACCOUNT(pattern)` (the
/// function's name in any case) tells whether some posting's account matches
/// the pattern; `YEAR` or `MONTH` compared with a literal compares the
/// transaction's year or month (`=` for a match, any other operator for a
/// mismatch, false when the literal names no number); `date` compared with a
/// date literal compares the transaction's date. Any other filter gives
/// `None`: it is a predicate to evaluate on the transaction's first posting.
pub fn evaluate_from_filter(filter: &FromFilter, txn: &Transaction) -> (res: Option<Result<bool, QueryError>>)
    requires
        from_filter_wf(*filter),
    ensures
        filter_view(res) == from_filter_spec(*filter, *txn),
{
    match filter {
        FromFilter::Function { name, args } => {
            let upper = to_uppercase(name.as_str());
            if str_eq(upper.as_str(), "HAS_ACCOUNT") {
                let r = has_account(args, &txn.postings);
                match r {
                    Ok(b) => Some(Ok(b)),
                    Err(e) => Some(Err(e)),
                }
            } else {
                None
            }
        },
        FromFilter::BinaryOp { op, left, right } => match (left, right) {
            (FromOperand::Column(col), FromOperand::Literal(lit)) => {
                let upper = to_uppercase(col.as_str());
                if str_eq(upper.as_str(), "YEAR") {
                    let m = match year_literal(lit) {
                        Some(n) => {
                            let matches = txn.date.year == n;
                            if *op == BinaryOperator::Eq { matches } else { !matches }
                        },
                        None => false,
                    };
                    Some(Ok(m))
                } else if str_eq(upper.as_str(), "MONTH") {
                    let m = match month_literal(lit) {
                        Some(n) => {
                            let matches = txn.date.month == n;
                            if *op == BinaryOperator::Eq { matches } else { !matches }
                        },
                        None => false,
                    };
                    Some(Ok(m))
                } else if str_eq(upper.as_str(), "DATE") {
                    match lit {
                        FromLiteral::Date(d) => {
                            let o = txn.date.compare(d);
                            let m = match op {
                                BinaryOperator::Eq => o == Order::Equal,
                                BinaryOperator::Ne => o != Order::Equal,
                                BinaryOperator::Lt => o == Order::Less,
                                BinaryOperator::Le => o != Order::Greater,
                                BinaryOperator::Gt => o == Order::Greater,
                                BinaryOperator::Ge => o != Order::Less,
                                _ => false,
                            };
                            Some(Ok(m))
                        },
                        _ => None,
                    }
                } else {
                    None
                }
            },
            _ => None,
        },
        FromFilter::Other => None,
    }
}

} // verus!
