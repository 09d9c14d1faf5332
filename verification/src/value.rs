//! Values of BQL expressions and the operations of the query language on them.

use vstd::prelude::*;
use vstd::string::*;
use crate::dec::{
    Dec, Order, checked_add, checked_sub, checked_mul, checked_div, checked_rem, decimal_checked_add,
    decimal_checked_sub, decimal_checked_mul, decimal_checked_div, decimal_checked_rem,
};
use crate::date::Date;
use crate::interval::{Interval, IntervalUnit};
use crate::text::{string_of, push_str, push_char, int_text, i64_text};
use crate::account::{join_seq, join_strings, views};
use crate::date::chrono_date_display;
use crate::dec::decimal_display;
use crate::ledger::{Amount, MetaValue, Position};

verus! {

/// A value that can result from evaluating a BQL expression.
#[derive(Debug, PartialEq)]
pub enum Value {
    /// String value.
    String(String),
    /// Numeric value.
    Number(Dec),
    /// Integer value.
    Integer(i64),
    /// Date value.
    Date(Date),
    /// Boolean value.
    Boolean(bool),
    /// Amount (number + currency).
    Amount(Amount),
    /// Position (amount + optional cost).
    Position(Position),
    /// Inventory (aggregated positions).
    Inventory(Vec<Position>),
    /// Set of strings (tags, links).
    StringSet(Vec<String>),
    /// Metadata dictionary, its entries in order.
    Metadata(Vec<(String, MetaValue)>),
    /// Interval for date arithmetic.
    Interval(Interval),
    /// Structured object (the `entry` and `meta` columns): fields by key,
    /// in increasing order of the keys.
    Object(Vec<(String, Value)>),
    /// NULL value.
    Null,
}

impl Clone for Value {
    fn clone(&self) -> (res: Self)
        ensures
            vview(res) == vview(*self),
    {
        crate::funcs::copy_value(self)
    }
}

/// An error of query evaluation.
#[derive(Debug, Clone, PartialEq)]
pub enum QueryError {
    /// A referenced column name doesn't exist.
    UnknownColumn(String),
    /// An unknown function is called.
    UnknownFunction(String),
    /// A function is called with wrong arguments: the function and what is wrong.
    InvalidArguments(String, String),
    /// A type mismatch.
    Type(String),
    /// An error in an aggregate function.
    Aggregation(String),
    /// A general evaluation error.
    Evaluation(String),
}

/// A query error by its plain parts.
pub enum QueryErrorSpec {
    UnknownColumn(Seq<char>),
    UnknownFunction(Seq<char>),
    InvalidArguments(Seq<char>, Seq<char>),
    Type(Seq<char>),
    Aggregation(Seq<char>),
    Evaluation(Seq<char>),
}

impl QueryError {
    /// The error by its plain parts.
    pub open spec fn spec(self) -> QueryErrorSpec {
        match self {
            QueryError::UnknownColumn(s) => QueryErrorSpec::UnknownColumn(s@),
            QueryError::UnknownFunction(s) => QueryErrorSpec::UnknownFunction(s@),
            QueryError::InvalidArguments(a, b) => QueryErrorSpec::InvalidArguments(a@, b@),
            QueryError::Type(s) => QueryErrorSpec::Type(s@),
            QueryError::Aggregation(s) => QueryErrorSpec::Aggregation(s@),
            QueryError::Evaluation(s) => QueryErrorSpec::Evaluation(s@),
        }
    }
}

/// A type error with the given message.
pub fn type_error(msg: &str) -> (res: QueryError)
    ensures
        res.spec() == QueryErrorSpec::Type(msg@),
{
    QueryError::Type(String::from_str(msg))
}

/// The numbers and dates inside a value are well formed.
pub open spec fn value_wf(v: Value) -> bool
    decreases v,
{
    match v {
        Value::Number(n) => n.wf(),
        Value::Date(d) => d.wf(),
        Value::Amount(a) => a.number.wf(),
        Value::Position(p) => p.units.number.wf() && (p.cost matches Some(c) ==> c.number.wf()),
        Value::Inventory(ps) => forall|i: int| 0 <= i < ps@.len() ==> (#[trigger] ps@[i]).units.number.wf()
            && (ps@[i].cost matches Some(c) ==> c.number.wf()),
        Value::Metadata(m) => forall|i: int| 0 <= i < m@.len() ==> meta_wf(#[trigger] m@[i].1),
        Value::Object(fields) => forall|i: int| 0 <= i < fields@.len() ==> value_wf(#[trigger] fields@[i].1),
        _ => true,
    }
}

/// The numbers and dates inside a metadata value are well formed.
pub open spec fn meta_wf(mv: MetaValue) -> bool {
    match mv {
        MetaValue::Number(n) => n.wf(),
        MetaValue::Date(d) => d.wf(),
        MetaValue::Amount(a) => a.number.wf(),
        _ => true,
    }
}

/// An integer as a decimal.
pub open spec fn int_dec(i: i64) -> Dec {
    Dec { mantissa: i as i128, scale: 0 }
}

/// Lexicographic order of character sequences (the order of `str`).
pub open spec fn seq_order(a: Seq<char>, b: Seq<char>) -> Order
    decreases a.len(),
{
    if a.len() == 0 {
        if b.len() == 0 {
            Order::Equal
        } else {
            Order::Less
        }
    } else if b.len() == 0 {
        Order::Greater
    } else if (a[0] as u32) < (b[0] as u32) {
        Order::Less
    } else if (a[0] as u32) > (b[0] as u32) {
        Order::Greater
    } else {
        seq_order(a.drop_first(), b.drop_first())
    }
}

proof fn lemma_seq_order_skip(a: Seq<char>, b: Seq<char>, i: int)
    requires
        0 <= i <= a.len(),
        i <= b.len(),
        forall|j: int| 0 <= j < i ==> a[j] == b[j],
    ensures
        seq_order(a, b) == seq_order(a.skip(i), b.skip(i)),
    decreases i,
{
    if i > 0 {
        lemma_seq_order_skip(a.drop_first(), b.drop_first(), i - 1);
        assert(a.drop_first().skip(i - 1) =~= a.skip(i));
        assert(b.drop_first().skip(i - 1) =~= b.skip(i));
    } else {
        assert(a.skip(0) =~= a);
        assert(b.skip(0) =~= b);
    }
}

/// Compare two strings (as `str::cmp` does).
pub fn str_order(a: &str, b: &str) -> (res: Order)
    ensures
        res == seq_order(a@, b@),
{
    let n = a.unicode_len();
    let m = b.unicode_len();
    let mut i: usize = 0;
    while i < n && i < m
        invariant
            n == a@.len(),
            m == b@.len(),
            i <= n,
            i <= m,
            forall|j: int| 0 <= j < i ==> a@[j] == b@[j],
        decreases n - i,
    {
        let x = a.get_char(i);
        let y = b.get_char(i);
        if (x as u32) < (y as u32) {
            proof {
                lemma_seq_order_skip(a@, b@, i as int);
            }
            return Order::Less;
        }
        if (x as u32) > (y as u32) {
            proof {
                lemma_seq_order_skip(a@, b@, i as int);
            }
            return Order::Greater;
        }
        assert(x == y);
        i = i + 1;
    }
    proof {
        lemma_seq_order_skip(a@, b@, i as int);
    }
    if i < n {
        Order::Greater
    } else if i < m {
        Order::Less
    } else {
        Order::Equal
    }
}

/// Order of integers.
pub open spec fn int_order(a: int, b: int) -> Order {
    if a < b {
        Order::Less
    } else if a == b {
        Order::Equal
    } else {
        Order::Greater
    }
}

fn i64_order(a: i64, b: i64) -> (res: Order)
    ensures
        res == int_order(a as int, b as int),
{
    if a < b {
        Order::Less
    } else if a == b {
        Order::Equal
    } else {
        Order::Greater
    }
}

/// The equality of BQL: NULL equals NULL; integers and numbers compare by value.
pub open spec fn values_equal_spec(left: Value, right: Value) -> bool {
    match (left, right) {
        (Value::Null, Value::Null) => true,
        (Value::String(a), Value::String(b)) => a@ == b@,
        (Value::Number(a), Value::Number(b)) => a.same_value(b),
        (Value::Integer(a), Value::Integer(b)) => a == b,
        (Value::Number(a), Value::Integer(b)) => a.same_value(int_dec(b)),
        (Value::Integer(a), Value::Number(b)) => int_dec(a).same_value(b),
        (Value::Date(a), Value::Date(b)) => a == b,
        (Value::Boolean(a), Value::Boolean(b)) => a == b,
        _ => false,
    }
}

/// Check if two values are equal.
pub fn values_equal(left: &Value, right: &Value) -> (res: bool)
    requires
        value_wf(*left),
        value_wf(*right),
    ensures
        res == values_equal_spec(*left, *right),
{
    match (left, right) {
        (Value::Null, Value::Null) => true,
        (Value::String(a), Value::String(b)) => crate::text::str_eq(a.as_str(), b.as_str()),
        (Value::Number(a), Value::Number(b)) => a.eq_value(b),
        (Value::Integer(a), Value::Integer(b)) => *a == *b,
        (Value::Number(a), Value::Integer(b)) => a.eq_value(&Dec::from_i64(*b)),
        (Value::Integer(a), Value::Number(b)) => Dec::from_i64(*a).eq_value(b),
        (Value::Date(a), Value::Date(b)) => *a == *b,
        (Value::Boolean(a), Value::Boolean(b)) => *a == *b,
        _ => false,
    }
}

/// The order of two values for `<`, `<=`, `>`, `>=`; `None` when they cannot
/// be compared.
pub open spec fn order_spec(left: Value, right: Value) -> Option<Order> {
    match (left, right) {
        (Value::Number(a), Value::Number(b)) => Some(a.order_with(b)),
        (Value::Integer(a), Value::Integer(b)) => Some(int_order(a as int, b as int)),
        (Value::Number(a), Value::Integer(b)) => Some(a.order_with(int_dec(b))),
        (Value::Integer(a), Value::Number(b)) => Some(int_dec(a).order_with(b)),
        (Value::String(a), Value::String(b)) => Some(seq_order(a@, b@)),
        (Value::Date(a), Value::Date(b)) => Some(a.order_with(b)),
        _ => None,
    }
}

/// The order of two values for `<`, `<=`, `>`, `>=`.
pub fn value_order(left: &Value, right: &Value) -> (res: Option<Order>)
    requires
        value_wf(*left),
        value_wf(*right),
    ensures
        res == order_spec(*left, *right),
{
    match (left, right) {
        (Value::Number(a), Value::Number(b)) => Some(a.compare(b)),
        (Value::Integer(a), Value::Integer(b)) => Some(i64_order(*a, *b)),
        (Value::Number(a), Value::Integer(b)) => Some(a.compare(&Dec::from_i64(*b))),
        (Value::Integer(a), Value::Number(b)) => Some(Dec::from_i64(*a).compare(b)),
        (Value::String(a), Value::String(b)) => Some(str_order(a.as_str(), b.as_str())),
        (Value::Date(a), Value::Date(b)) => Some(a.compare(b)),
        _ => None,
    }
}

/// A comparison operator.
#[derive(Debug, Clone, Copy, PartialEq, Eq, Structural)]
pub enum CompareOp {
    /// `<`
    Lt,
    /// `<=`
    Le,
    /// `>`
    Gt,
    /// `>=`
    Ge,
}

/// Whether an order satisfies a comparison operator.
pub open spec fn holds(op: CompareOp, c: Order) -> bool {
    match op {
        CompareOp::Lt => c == Order::Less,
        CompareOp::Le => c != Order::Greater,
        CompareOp::Gt => c == Order::Greater,
        CompareOp::Ge => c != Order::Less,
    }
}

/// Compare two values with an operator; a type error when they cannot be compared.
pub fn compare_values(left: &Value, right: &Value, op: CompareOp) -> (res: Result<Value, QueryError>)
    requires
        value_wf(*left),
        value_wf(*right),
    ensures
        match order_spec(*left, *right) {
            Some(c) => res matches Ok(Value::Boolean(b)) && b == holds(op, c),
            None => res matches Err(e) && e.spec() == QueryErrorSpec::Type("cannot compare values"@),
        },
{
    match value_order(left, right) {
        Some(c) => {
            let b = match op {
                CompareOp::Lt => c == Order::Less,
                CompareOp::Le => c != Order::Greater,
                CompareOp::Gt => c == Order::Greater,
                CompareOp::Ge => c != Order::Less,
            };
            Ok(Value::Boolean(b))
        },
        None => Err(type_error("cannot compare values")),
    }
}

/// Check if left value is less than right value.
pub fn value_less_than(left: &Value, right: &Value) -> (res: Result<bool, QueryError>)
    requires
        value_wf(*left),
        value_wf(*right),
    ensures
        match order_spec(*left, *right) {
            Some(c) => res == Ok::<bool, QueryError>(c == Order::Less),
            None => res matches Err(e) && e.spec() == QueryErrorSpec::Type("cannot compare values"@),
        },
{
    match value_order(left, right) {
        Some(c) => Ok(c == Order::Less),
        None => Err(type_error("cannot compare values")),
    }
}

/// The truth of a value: booleans, and NULL as false.
pub open spec fn bool_spec(v: Value) -> Option<bool> {
    match v {
        Value::Boolean(b) => Some(b),
        Value::Null => Some(false),
        _ => None,
    }
}

/// Convert a value to boolean.
pub fn to_bool(val: &Value) -> (res: Result<bool, QueryError>)
    ensures
        match bool_spec(*val) {
            Some(b) => res == Ok::<bool, QueryError>(b),
            None => res matches Err(e) && e.spec() == QueryErrorSpec::Type("expected boolean"@),
        },
{
    match val {
        Value::Boolean(b) => Ok(*b),
        Value::Null => Ok(false),
        _ => Err(type_error("expected boolean")),
    }
}

/// The first position's units of an inventory, if any.
pub open spec fn first_units(ps: Seq<Position>) -> Option<Dec> {
    if ps.len() > 0 {
        Some(ps[0].units.number)
    } else {
        None
    }
}

/// The order used to sort query results: NULL last, numbers and integers by
/// value, strings, dates and booleans in their order, amounts and positions by
/// number, inventories by their first position, intervals by approximate days;
/// anything else is equal.
pub open spec fn sort_order_spec(left: Value, right: Value) -> Order {
    match (left, right) {
        (Value::Null, Value::Null) => Order::Equal,
        (Value::Null, _) => Order::Greater,
        (_, Value::Null) => Order::Less,
        (Value::Number(a), Value::Number(b)) => a.order_with(b),
        (Value::Integer(a), Value::Integer(b)) => int_order(a as int, b as int),
        (Value::Number(a), Value::Integer(b)) => a.order_with(int_dec(b)),
        (Value::Integer(a), Value::Number(b)) => int_dec(a).order_with(b),
        (Value::String(a), Value::String(b)) => seq_order(a@, b@),
        (Value::Date(a), Value::Date(b)) => a.order_with(b),
        (Value::Boolean(a), Value::Boolean(b)) => int_order(
            if a { 1int } else { 0int },
            if b { 1int } else { 0int },
        ),
        (Value::Amount(a), Value::Amount(b)) => a.number.order_with(b.number),
        (Value::Position(a), Value::Position(b)) => a.units.number.order_with(b.units.number),
        (Value::Inventory(a), Value::Inventory(b)) => match (first_units(a@), first_units(b@)) {
            (Some(x), Some(y)) => x.order_with(y),
            (Some(_), None) => Order::Less,
            (None, Some(_)) => Order::Greater,
            (None, None) => Order::Equal,
        },
        (Value::Interval(a), Value::Interval(b)) => int_order(a.approx_days_spec(), b.approx_days_spec()),
        _ => Order::Equal,
    }
}

/// Compare two values for sorting purposes.
pub fn compare_values_for_sort(left: &Value, right: &Value) -> (res: Order)
    requires
        value_wf(*left),
        value_wf(*right),
    ensures
        res == sort_order_spec(*left, *right),
{
    match (left, right) {
        (Value::Null, Value::Null) => Order::Equal,
        (Value::Null, _) => Order::Greater,
        (_, Value::Null) => Order::Less,
        (Value::Number(a), Value::Number(b)) => a.compare(b),
        (Value::Integer(a), Value::Integer(b)) => i64_order(*a, *b),
        (Value::Number(a), Value::Integer(b)) => a.compare(&Dec::from_i64(*b)),
        (Value::Integer(a), Value::Number(b)) => Dec::from_i64(*a).compare(b),
        (Value::String(a), Value::String(b)) => str_order(a.as_str(), b.as_str()),
        (Value::Date(a), Value::Date(b)) => a.compare(b),
        (Value::Boolean(a), Value::Boolean(b)) => {
            let x: i64 = if *a { 1 } else { 0 };
            let y: i64 = if *b { 1 } else { 0 };
            i64_order(x, y)
        },
        (Value::Amount(a), Value::Amount(b)) => a.number.compare(&b.number),
        (Value::Position(a), Value::Position(b)) => a.units.number.compare(&b.units.number),
        (Value::Inventory(a), Value::Inventory(b)) => {
            if a.len() > 0 && b.len() > 0 {
                a[0].units.number.compare(&b[0].units.number)
            } else if a.len() > 0 {
                Order::Less
            } else if b.len() > 0 {
                Order::Greater
            } else {
                Order::Equal
            }
        },
        (Value::Interval(a), Value::Interval(b)) => i64_order(a.to_approx_days(), b.to_approx_days()),
        _ => Order::Equal,
    }
}

/// A binary operator of BQL.
#[derive(Debug, Clone, Copy, PartialEq, Eq, Structural)]
pub enum BinaryOperator {
    /// `=`
    Eq,
    /// `!=`
    Ne,
    /// `<`
    Lt,
    /// `<=`
    Le,
    /// `>`
    Gt,
    /// `>=`
    Ge,
    /// `AND`
    And,
    /// `OR`
    Or,
    /// `~`
    Regex,
    /// `!~`
    NotRegex,
    /// `IN`
    In,
    /// `NOT IN`
    NotIn,
    /// `+`
    Add,
    /// `-`
    Sub,
    /// `*`
    Mul,
    /// `/`
    Div,
    /// `%`
    Mod,
}

/// A unary operator of BQL.
#[derive(Debug, Clone, Copy, PartialEq, Eq, Structural)]
pub enum UnaryOperator {
    /// `NOT`
    Not,
    /// `-`
    Neg,
    /// `IS NULL`
    IsNull,
    /// `IS NOT NULL`
    IsNotNull,
}

/// Whether a regular expression matches a string: `None` when the pattern
/// does not compile. Named result of the `regex` crate.
pub uninterp spec fn regex_match_spec(pattern: Seq<char>, s: Seq<char>) -> Option<bool>;

/// Whether `regex::Regex::new` refuses a pattern.
pub uninterp spec fn regex_refused(pattern: Seq<char>) -> bool;

/// Calls `regex::Regex::new` on the pattern and, when it compiles,
/// `Regex::is_match` on the string. The outcome is named `regex_match_spec`;
/// it is `None` exactly when `Regex::new` refuses the pattern, whatever the
/// string.
#[verifier::external_body]
pub(crate) fn regex_is_match(pattern: &str, s: &str) -> (res: Option<bool>)
    ensures
        res == regex_match_spec(pattern@, s@),
        res is None <==> regex_refused(pattern@),
{
    regex::Regex::new(pattern).ok().map(|re| re.is_match(s))
}

/// Both operands as decimals, when both are numbers or integers.
pub open spec fn numeric_pair(left: Value, right: Value) -> Option<(Dec, Dec)> {
    match (left, right) {
        (Value::Number(a), Value::Number(b)) => Some((a, b)),
        (Value::Integer(a), Value::Integer(b)) => Some((int_dec(a), int_dec(b))),
        (Value::Number(a), Value::Integer(b)) => Some((a, int_dec(b))),
        (Value::Integer(a), Value::Number(b)) => Some((int_dec(a), b)),
        _ => None,
    }
}

/// The decimal result of an arithmetic operator (`None` on overflow or a zero divisor).
pub open spec fn arith_result(op: BinaryOperator, a: Dec, b: Dec) -> Option<Dec> {
    match op {
        BinaryOperator::Add => decimal_checked_add(a, b),
        BinaryOperator::Sub => decimal_checked_sub(a, b),
        BinaryOperator::Mul => decimal_checked_mul(a, b),
        BinaryOperator::Div => decimal_checked_div(a, b),
        _ => decimal_checked_rem(a, b),
    }
}

/// Whether an operator divides (`/` and `%`).
pub open spec fn divides(op: BinaryOperator) -> bool {
    op == BinaryOperator::Div || op == BinaryOperator::Mod
}

/// Arithmetic on two values: numbers and integers are computed as decimals;
/// `/` and `%` by zero are an evaluation error.
pub open spec fn arith_spec(op: BinaryOperator, left: Value, right: Value) -> Result<Value, QueryErrorSpec> {
    match numeric_pair(left, right) {
        Some((a, b)) => if divides(op) && b.mantissa == 0 {
            Err(QueryErrorSpec::Evaluation(if op == BinaryOperator::Div { "division by zero"@ } else { "remainder by zero"@ }))
        } else {
            Ok(Value::Number(arith_result(op, a, b)->Some_0))
        },
        None => Err(QueryErrorSpec::Type("arithmetic requires numeric values"@)),
    }
}

/// The decimal operation of an arithmetic operator does not overflow, where
/// it is carried out (`/` and `%` by zero are not).
pub open spec fn arith_defined(op: BinaryOperator, left: Value, right: Value) -> bool {
    numeric_pair(left, right) matches Some((a, b)) ==> (!(divides(op) && b.mantissa == 0) ==> arith_result(op, a, b) is Some)
}

/// A value or a query error by plain parts.
pub open spec fn res_spec(r: Result<Value, QueryError>) -> Result<Value, QueryErrorSpec> {
    match r {
        Ok(v) => Ok(v),
        Err(e) => Err(e.spec()),
    }
}

/// Perform an arithmetic operation (the decimal operation is required not to
/// overflow: it panics when it does). Division and remainder by zero give an
/// evaluation error.
pub fn arithmetic_op(left: &Value, right: &Value, op: BinaryOperator) -> (res: Result<Value, QueryError>)
    requires
        value_wf(*left),
        value_wf(*right),
        arith_defined(op, *left, *right),
    ensures
        res_spec(res) == arith_spec(op, *left, *right),
        res matches Ok(v) ==> value_wf(v),
{
    let (a, b) = match (left, right) {
        (Value::Number(a), Value::Number(b)) => (*a, *b),
        (Value::Integer(a), Value::Integer(b)) => (Dec::from_i64(*a), Dec::from_i64(*b)),
        (Value::Number(a), Value::Integer(b)) => (*a, Dec::from_i64(*b)),
        (Value::Integer(a), Value::Number(b)) => (Dec::from_i64(*a), *b),
        _ => {
            return Err(type_error("arithmetic requires numeric values"));
        },
    };
    if (op == BinaryOperator::Div || op == BinaryOperator::Mod) && b.is_zero() {
        let msg = if op == BinaryOperator::Div { "division by zero" } else { "remainder by zero" };
        return Err(QueryError::Evaluation(string_of(msg)));
    }
    let r = match op {
        BinaryOperator::Add => checked_add(a, b),
        BinaryOperator::Sub => checked_sub(a, b),
        BinaryOperator::Mul => checked_mul(a, b),
        BinaryOperator::Div => checked_div(a, b),
        _ => checked_rem(a, b),
    };
    Ok(Value::Number(r.unwrap()))
}

/// Whether a string is in a set of strings.
pub fn set_contains(set: &Vec<String>, s: &String) -> (res: bool)
    ensures
        res == set@.map_values(|t: String| t@).contains(s@),
{
    let n = set.len();
    let mut i: usize = 0;
    while i < n
        invariant
            n == set@.len(),
            i <= n,
            forall|j: int| 0 <= j < i ==> set@[j]@ != s@,
        decreases n - i,
    {
        if crate::text::str_eq(set[i].as_str(), s.as_str()) {
            assert(set@.map_values(|t: String| t@)[i as int] == s@);
            return true;
        }
        i = i + 1;
    }
    proof {
        let vs = set@.map_values(|t: String| t@);
        assert forall|j: int| 0 <= j < vs.len() implies vs[j] != s@ by {
            assert(vs[j] == set@[j]@);
        }
    }
    false
}

/// Result of a regex operator (`~` when `negate` is false, `!~` otherwise).
pub open spec fn regex_op_spec(left: Value, right: Value, negate: bool) -> Result<Value, QueryErrorSpec> {
    match left {
        Value::String(s) => match right {
            Value::String(p) => match regex_match_spec(p@, s@) {
                Some(b) => Ok(Value::Boolean(if negate { !b } else { b })),
                None => Err(QueryErrorSpec::Type("invalid regex: "@ + p@)),
            },
            _ => Err(QueryErrorSpec::Type(if negate { "!~ requires string pattern"@ } else { "regex requires string pattern"@ })),
        },
        _ => Err(QueryErrorSpec::Type(if negate { "!~ requires string left operand"@ } else { "regex requires string left operand"@ })),
    }
}

/// Result of a set-membership operator (`IN` when `negate` is false, `NOT IN` otherwise).
pub open spec fn in_op_spec(left: Value, right: Value, negate: bool) -> Result<Value, QueryErrorSpec> {
    match right {
        Value::StringSet(set) => match left {
            Value::String(s) => {
                let b = set@.map_values(|t: String| t@).contains(s@);
                Ok(Value::Boolean(if negate { !b } else { b }))
            },
            _ => Err(QueryErrorSpec::Type(if negate { "NOT IN requires string left operand"@ } else { "IN requires string left operand"@ })),
        },
        _ => Err(QueryErrorSpec::Type(if negate { "NOT IN requires set right operand"@ } else { "IN requires set right operand"@ })),
    }
}

/// The result of applying a binary operator to two values.
pub open spec fn binary_spec(op: BinaryOperator, left: Value, right: Value) -> Result<Value, QueryErrorSpec> {
    match op {
        BinaryOperator::Eq => Ok(Value::Boolean(values_equal_spec(left, right))),
        BinaryOperator::Ne => Ok(Value::Boolean(!values_equal_spec(left, right))),
        BinaryOperator::Lt | BinaryOperator::Le | BinaryOperator::Gt | BinaryOperator::Ge => {
            let cop = match op {
                BinaryOperator::Lt => CompareOp::Lt,
                BinaryOperator::Le => CompareOp::Le,
                BinaryOperator::Gt => CompareOp::Gt,
                _ => CompareOp::Ge,
            };
            match order_spec(left, right) {
                Some(c) => Ok(Value::Boolean(holds(cop, c))),
                None => Err(QueryErrorSpec::Type("cannot compare values"@)),
            }
        },
        BinaryOperator::And | BinaryOperator::Or => match (bool_spec(left), bool_spec(right)) {
            (Some(l), Some(r)) => Ok(Value::Boolean(if op == BinaryOperator::And { l && r } else { l || r })),
            _ => Err(QueryErrorSpec::Type("expected boolean"@)),
        },
        BinaryOperator::Regex => regex_op_spec(left, right, false),
        BinaryOperator::NotRegex => regex_op_spec(left, right, true),
        BinaryOperator::In => in_op_spec(left, right, false),
        BinaryOperator::NotIn => in_op_spec(left, right, true),
        BinaryOperator::Add => match (left, right) {
            (Value::Date(d), Value::Interval(i)) => match i.add_to_date_spec(d) {
                Some(r) => Ok(Value::Date(r)),
                None => Err(QueryErrorSpec::Evaluation("date overflow"@)),
            },
            (Value::Interval(i), Value::Date(d)) => match i.add_to_date_spec(d) {
                Some(r) => Ok(Value::Date(r)),
                None => Err(QueryErrorSpec::Evaluation("date overflow"@)),
            },
            _ => arith_spec(op, left, right),
        },
        BinaryOperator::Sub => match (left, right) {
            (Value::Date(d), Value::Interval(i)) => if i.count == i64::MIN {
                Err(QueryErrorSpec::Evaluation("interval count overflow"@))
            } else {
                match (Interval { count: (-i.count) as i64, unit: i.unit }).add_to_date_spec(d) {
                    Some(r) => Ok(Value::Date(r)),
                    None => Err(QueryErrorSpec::Evaluation("date overflow"@)),
                }
            },
            _ => arith_spec(op, left, right),
        },
        _ => arith_spec(op, left, right),
    }
}

/// The operator can be applied without a fault of the underlying arithmetic
/// (decimal overflow, division by zero, or an interval beyond the time-span
/// bounds): on other inputs the operation panics.
pub open spec fn binary_defined(op: BinaryOperator, left: Value, right: Value) -> bool {
    match op {
        BinaryOperator::Add => match (left, right) {
            (Value::Date(d), Value::Interval(i)) => i.applicable(),
            (Value::Interval(i), Value::Date(d)) => i.applicable(),
            _ => arith_defined(op, left, right),
        },
        BinaryOperator::Sub => match (left, right) {
            (Value::Date(d), Value::Interval(i)) => i.count != i64::MIN ==> (Interval {
                count: (-i.count) as i64,
                unit: i.unit,
            }).applicable(),
            _ => arith_defined(op, left, right),
        },
        BinaryOperator::Mul | BinaryOperator::Div | BinaryOperator::Mod => arith_defined(op, left, right),
        _ => true,
    }
}

/// Apply a binary operator to two values.
pub fn binary_op_on_values(op: BinaryOperator, left: &Value, right: &Value) -> (res: Result<Value, QueryError>)
    requires
        value_wf(*left),
        value_wf(*right),
        binary_defined(op, *left, *right),
    ensures
        res_spec(res) == binary_spec(op, *left, *right),
{
    match op {
        BinaryOperator::Eq => Ok(Value::Boolean(values_equal(left, right))),
        BinaryOperator::Ne => Ok(Value::Boolean(!values_equal(left, right))),
        BinaryOperator::Lt => compare_values(left, right, CompareOp::Lt),
        BinaryOperator::Le => compare_values(left, right, CompareOp::Le),
        BinaryOperator::Gt => compare_values(left, right, CompareOp::Gt),
        BinaryOperator::Ge => compare_values(left, right, CompareOp::Ge),
        BinaryOperator::And | BinaryOperator::Or => {
            let l = match to_bool(left) {
                Ok(b) => b,
                Err(e) => {
                    return Err(e);
                },
            };
            let r = match to_bool(right) {
                Ok(b) => b,
                Err(e) => {
                    return Err(e);
                },
            };
            if op == BinaryOperator::And {
                Ok(Value::Boolean(l && r))
            } else {
                Ok(Value::Boolean(l || r))
            }
        },
        BinaryOperator::Regex | BinaryOperator::NotRegex => {
            let negate = op == BinaryOperator::NotRegex;
            let s = match left {
                Value::String(s) => s,
                _ => {
                    return Err(type_error(if negate { "!~ requires string left operand" } else { "regex requires string left operand" }));
                },
            };
            let pattern = match right {
                Value::String(p) => p,
                _ => {
                    return Err(type_error(if negate { "!~ requires string pattern" } else { "regex requires string pattern" }));
                },
            };
            match regex_is_match(pattern.as_str(), s.as_str()) {
                Some(b) => Ok(Value::Boolean(if negate { !b } else { b })),
                None => {
                    let mut msg = string_of("invalid regex: ");
                    crate::text::push_str(&mut msg, pattern.as_str());
                    Err(QueryError::Type(msg))
                },
            }
        },
        BinaryOperator::In | BinaryOperator::NotIn => {
            let negate = op == BinaryOperator::NotIn;
            match right {
                Value::StringSet(set) => {
                    let needle = match left {
                        Value::String(s) => s,
                        _ => {
                            return Err(type_error(if negate { "NOT IN requires string left operand" } else { "IN requires string left operand" }));
                        },
                    };
                    let b = set_contains(set, needle);
                    Ok(Value::Boolean(if negate { !b } else { b }))
                },
                _ => Err(type_error(if negate { "NOT IN requires set right operand" } else { "IN requires set right operand" })),
            }
        },
        BinaryOperator::Add => {
            match (left, right) {
                (Value::Date(d), Value::Interval(i)) => match i.add_to_date(*d) {
                    Some(r) => Ok(Value::Date(r)),
                    None => Err(QueryError::Evaluation(string_of("date overflow"))),
                },
                (Value::Interval(i), Value::Date(d)) => match i.add_to_date(*d) {
                    Some(r) => Ok(Value::Date(r)),
                    None => Err(QueryError::Evaluation(string_of("date overflow"))),
                },
                _ => arithmetic_op(left, right, op),
            }
        },
        BinaryOperator::Sub => {
            match (left, right) {
                (Value::Date(d), Value::Interval(i)) => {
                    if i.count == i64::MIN {
                        return Err(QueryError::Evaluation(string_of("interval count overflow")));
                    }
                    let neg_interval = Interval::new(-i.count, i.unit);
                    match neg_interval.add_to_date(*d) {
                        Some(r) => Ok(Value::Date(r)),
                        None => Err(QueryError::Evaluation(string_of("date overflow"))),
                    }
                },
                _ => arithmetic_op(left, right, op),
            }
        },
        _ => arithmetic_op(left, right, op),
    }
}

/// Apply a binary operator to two values, or return `None` on the inputs
/// where the underlying arithmetic would fault (see `binary_defined`).
pub fn try_binary_op_on_values(op: BinaryOperator, left: &Value, right: &Value) -> (res: Option<Result<Value, QueryError>>)
    requires
        value_wf(*left),
        value_wf(*right),
    ensures
        res is Some == binary_defined(op, *left, *right),
        res matches Some(r) ==> res_spec(r) == binary_spec(op, *left, *right),
{
    let defined = match op {
        BinaryOperator::Add | BinaryOperator::Sub | BinaryOperator::Mul | BinaryOperator::Div | BinaryOperator::Mod => {
            let date_case = match (left, right) {
                (Value::Date(_), Value::Interval(i)) => {
                    if op == BinaryOperator::Add {
                        Some(interval_applicable(i))
                    } else if op == BinaryOperator::Sub {
                        if i.count == i64::MIN {
                            Some(true)
                        } else {
                            Some(interval_applicable(&Interval::new(-i.count, i.unit)))
                        }
                    } else {
                        None
                    }
                },
                (Value::Interval(i), Value::Date(_)) => {
                    if op == BinaryOperator::Add {
                        Some(interval_applicable(i))
                    } else {
                        None
                    }
                },
                _ => None,
            };
            match date_case {
                Some(b) => b,
                None => {
                    let pair = match (left, right) {
                        (Value::Number(a), Value::Number(b)) => Some((*a, *b)),
                        (Value::Integer(a), Value::Integer(b)) => Some((Dec::from_i64(*a), Dec::from_i64(*b))),
                        (Value::Number(a), Value::Integer(b)) => Some((*a, Dec::from_i64(*b))),
                        (Value::Integer(a), Value::Number(b)) => Some((Dec::from_i64(*a), *b)),
                        _ => None,
                    };
                    match pair {
                        Some((a, b)) => if (op == BinaryOperator::Div || op == BinaryOperator::Mod) && b.is_zero() {
                            true
                        } else {
                            let r = match op {
                                BinaryOperator::Add => checked_add(a, b),
                                BinaryOperator::Sub => checked_sub(a, b),
                                BinaryOperator::Mul => checked_mul(a, b),
                                BinaryOperator::Div => checked_div(a, b),
                                _ => checked_rem(a, b),
                            };
                            r.is_some()
                        },
                        None => true,
                    }
                },
            }
        },
        _ => true,
    };
    if defined {
        Some(binary_op_on_values(op, left, right))
    } else {
        None
    }
}

/// Whether an interval can be applied to a date without an arithmetic fault.
pub fn interval_applicable(i: &Interval) -> (res: bool)
    ensures
        res == i.applicable(),
{
    match i.unit {
        IntervalUnit::Day => -crate::date::MAX_DELTA_DAYS <= i.count && i.count <= crate::date::MAX_DELTA_DAYS,
        IntervalUnit::Week => -crate::date::MAX_DELTA_WEEKS <= i.count && i.count <= crate::date::MAX_DELTA_WEEKS,
        _ => true,
    }
}

/// The result of applying a unary operator to a value.
pub open spec fn unary_spec(op: UnaryOperator, v: Value) -> Result<Value, QueryErrorSpec> {
    match op {
        UnaryOperator::Not => match bool_spec(v) {
            Some(b) => Ok(Value::Boolean(!b)),
            None => Err(QueryErrorSpec::Type("expected boolean"@)),
        },
        UnaryOperator::Neg => match v {
            Value::Number(n) => Ok(Value::Number(Dec { mantissa: (-n.mantissa) as i128, scale: n.scale })),
            Value::Integer(i) => Ok(Value::Integer((-i) as i64)),
            _ => Err(QueryErrorSpec::Type("negation requires numeric value"@)),
        },
        UnaryOperator::IsNull => Ok(Value::Boolean(v is Null)),
        UnaryOperator::IsNotNull => Ok(Value::Boolean(!(v is Null))),
    }
}

/// Apply a unary operator to a value (negating `i64::MIN`, which overflows,
/// is left out).
pub fn unary_op_on_value(op: UnaryOperator, val: &Value) -> (res: Result<Value, QueryError>)
    requires
        value_wf(*val),
        op == UnaryOperator::Neg ==> !(*val matches Value::Integer(i) && i == i64::MIN),
    ensures
        res_spec(res) == unary_spec(op, *val),
        res matches Ok(v) ==> value_wf(v),
{
    match op {
        UnaryOperator::Not => {
            match to_bool(val) {
                Ok(b) => Ok(Value::Boolean(!b)),
                Err(e) => Err(e),
            }
        },
        UnaryOperator::Neg => match val {
            Value::Number(n) => Ok(Value::Number(n.neg())),
            Value::Integer(i) => Ok(Value::Integer(-*i)),
            _ => Err(type_error("negation requires numeric value")),
        },
        UnaryOperator::IsNull => Ok(Value::Boolean(matches!(val, Value::Null))),
        UnaryOperator::IsNotNull => Ok(Value::Boolean(!matches!(val, Value::Null))),
    }
}

/// The name of an interval unit (its `Debug` form).
pub open spec fn unit_name(u: IntervalUnit) -> Seq<char> {
    match u {
        IntervalUnit::Day => "Day"@,
        IntervalUnit::Week => "Week"@,
        IntervalUnit::Month => "Month"@,
        IntervalUnit::Quarter => "Quarter"@,
        IntervalUnit::Year => "Year"@,
    }
}

/// The name of an interval unit (its `Debug` form).
pub fn unit_text(u: IntervalUnit) -> (res: String)
    ensures
        res@ == unit_name(u),
{
    match u {
        IntervalUnit::Day => string_of("Day"),
        IntervalUnit::Week => string_of("Week"),
        IntervalUnit::Month => string_of("Month"),
        IntervalUnit::Quarter => string_of("Quarter"),
        IntervalUnit::Year => string_of("Year"),
    }
}

/// The text of an amount: number, a space, currency.
pub open spec fn amount_text_spec(a: Amount) -> Seq<char> {
    decimal_display(a.number) + " "@ + a.currency@
}

/// The text of a position: its units, then its cost in braces when held at cost.
pub open spec fn position_text_spec(p: Position) -> Seq<char> {
    match p.cost {
        Some(c) => amount_text_spec(p.units) + " {"@ + decimal_display(c.number) + " "@ + c.currency@ + "}"@,
        None => amount_text_spec(p.units),
    }
}

/// The texts of some positions.
pub open spec fn position_texts(ps: Seq<Position>) -> Seq<Seq<char>> {
    ps.map_values(|p: Position| position_text_spec(p))
}

/// The text of a metadata value: that of the query value it stands for.
pub open spec fn meta_value_text(mv: MetaValue) -> Seq<char> {
    match mv {
        MetaValue::String(s) => s@,
        MetaValue::Number(n) => decimal_display(n),
        MetaValue::Bool(b) => if b { "true"@ } else { "false"@ },
        MetaValue::Date(d) => chrono_date_display(d),
        MetaValue::Currency(s) => s@,
        MetaValue::Amount(a) => amount_text_spec(a),
        MetaValue::Account(s) => s@,
        MetaValue::Tag(s) => s@,
        MetaValue::Link(s) => s@,
        MetaValue::NoValue => "NULL"@,
    }
}

/// The texts `key: value` of the entries of a metadata dictionary.
pub open spec fn meta_entry_texts(m: Seq<(String, MetaValue)>) -> Seq<Seq<char>> {
    m.map_values(|e: (String, MetaValue)| e.0@ + ": "@ + meta_value_text(e.1))
}

/// The texts `key: value` of the first `n` fields of an object.
pub open spec fn field_texts(fields: Vec<(String, Value)>, n: nat) -> Seq<Seq<char>>
    decreases fields, n,
{
    if n == 0 || n > fields@.len() {
        Seq::empty()
    } else {
        proof {
            assert(decreases_to!(fields => fields@));
            assert(decreases_to!(fields@ => fields@[n - 1]));
        }
        field_texts(fields, (n - 1) as nat).push(fields@[n - 1].0@ + ": "@ + value_text(fields@[n - 1].1))
    }
}

/// The display text of a value.
pub open spec fn value_text(v: Value) -> Seq<char>
    decreases v, 0nat,
{
    match v {
        Value::String(s) => s@,
        Value::Number(n) => decimal_display(n),
        Value::Integer(i) => int_text(i as int),
        Value::Date(d) => chrono_date_display(d),
        Value::Boolean(b) => if b { "true"@ } else { "false"@ },
        Value::Amount(a) => amount_text_spec(a),
        Value::Position(p) => position_text_spec(p),
        Value::Inventory(ps) => join_seq(position_texts(ps@), ", "@),
        Value::StringSet(ss) => join_seq(views(ss@), ", "@),
        Value::Metadata(m) => "{"@ + join_seq(meta_entry_texts(m@), ", "@) + "}"@,
        Value::Interval(i) => int_text(i.count as int) + " "@ + unit_name(i.unit),
        Value::Object(fields) => "{"@ + join_seq(field_texts(fields, fields@.len() as nat), ", "@) + "}"@,
        Value::Null => "NULL"@,
    }
}

/// The text of an amount.
pub fn amount_text(a: &Amount) -> (res: String)
    requires
        a.number.wf(),
    ensures
        res@ == amount_text_spec(*a),
{
    let mut res = crate::dec::to_text(a.number);
    push_str(&mut res, " ");
    push_str(&mut res, a.currency.as_str());
    res
}

/// The text of a position.
pub fn position_text(p: &Position) -> (res: String)
    requires
        p.units.number.wf(),
        p.cost matches Some(c) ==> c.number.wf(),
    ensures
        res@ == position_text_spec(*p),
{
    let mut res = amount_text(&p.units);
    if let Some(c) = &p.cost {
        push_str(&mut res, " {");
        push_str(&mut res, crate::dec::to_text(c.number).as_str());
        push_str(&mut res, " ");
        push_str(&mut res, c.currency.as_str());
        push_str(&mut res, "}");
    }
    res
}

/// Convert a value to string for display and grouping.
pub fn value_to_string(val: &Value) -> (res: String)
    requires
        value_wf(*val),
    ensures
        res@ == value_text(*val),
    decreases val,
{
    match val {
        Value::String(s) => string_of(s.as_str()),
        Value::Number(n) => crate::dec::to_text(*n),
        Value::Integer(i) => i64_text(*i),
        Value::Date(d) => crate::date::to_text(*d),
        Value::Boolean(b) => if *b { string_of("true") } else { string_of("false") },
        Value::Amount(a) => amount_text(a),
        Value::Position(p) => position_text(p),
        Value::Inventory(ps) => {
            let mut texts: Vec<String> = Vec::new();
            let n = ps.len();
            let mut i: usize = 0;
            while i < n
                invariant
                    n == ps@.len(),
                    i <= n,
                    value_wf(*val),
                    *val == Value::Inventory(*ps),
                    views(texts@) == position_texts(ps@).subrange(0, i as int),
                decreases n - i,
            {
                assert(ps@[i as int].units.number.wf());
                let t = position_text(&ps[i]);
                let ghost old_v = views(texts@);
                let ghost tv = t@;
                texts.push(t);
                assert(views(texts@) =~= old_v.push(tv));
                assert(position_texts(ps@)[i as int] == position_text_spec(ps@[i as int]));
                assert(views(texts@) =~= position_texts(ps@).subrange(0, i + 1));
                i = i + 1;
            }
            assert(position_texts(ps@).subrange(0, n as int) =~= position_texts(ps@));
            join_strings(texts.as_slice(), ", ")
        },
        Value::StringSet(ss) => join_strings(ss.as_slice(), ", "),
        Value::Interval(i) => {
            let mut res = i64_text(i.count);
            push_str(&mut res, " ");
            push_str(&mut res, unit_text(i.unit).as_str());
            res
        },
        Value::Metadata(m) => {
            let mut texts: Vec<String> = Vec::new();
            let n = m.len();
            let mut i: usize = 0;
            while i < n
                invariant
                    n == m@.len(),
                    i <= n,
                    forall|j: int| 0 <= j < m@.len() ==> meta_wf(#[trigger] m@[j].1),
                    views(texts@) == meta_entry_texts(m@).subrange(0, i as int),
                decreases n - i,
            {
                let mut t = string_of(m[i].0.as_str());
                push_str(&mut t, ": ");
                push_str(&mut t, meta_text(&m[i].1).as_str());
                let ghost old_v = views(texts@);
                let ghost tv = t@;
                assert(meta_entry_texts(m@)[i as int] == tv);
                texts.push(t);
                assert(views(texts@) =~= old_v.push(tv));
                assert(views(texts@) =~= meta_entry_texts(m@).subrange(0, i + 1));
                i = i + 1;
            }
            assert(meta_entry_texts(m@).subrange(0, n as int) =~= meta_entry_texts(m@));
            let mut res = string_of("{");
            push_str(&mut res, join_strings(texts.as_slice(), ", ").as_str());
            push_str(&mut res, "}");
            assert(res@ == value_text(*val));
            res
        },
        Value::Object(fields) => {

            let mut texts: Vec<String> = Vec::new();
            let n = fields.len();
            let mut i: usize = 0;
            while i < n
                invariant
                    n == fields@.len(),
                    i <= n,
                    *val == Value::Object(*fields),
                    value_wf(*val),
                    views(texts@) == field_texts(*fields, i as nat),
                decreases n - i,
            {
                proof {
                    lemma_object_field_wf(*fields, i as int);
                    assert(decreases_to!(*val => (*val)->Object_0));
                    assert(decreases_to!(*fields => fields@));
                    assert(decreases_to!(fields@ => fields@[i as int]));
                }
                let inner = value_to_string(&fields[i].1);
                let mut t = string_of(fields[i].0.as_str());
                push_str(&mut t, ": ");
                push_str(&mut t, inner.as_str());
                let ghost old_v = views(texts@);
                let ghost tv = t@;
                texts.push(t);
                assert(views(texts@) =~= old_v.push(tv));
                i = i + 1;
            }
            let mut res = string_of("{");
            push_str(&mut res, join_strings(texts.as_slice(), ", ").as_str());
            push_str(&mut res, "}");
            res
        },
        Value::Null => string_of("NULL"),
    }
}

/// A field of a well-formed object is well formed.
proof fn lemma_object_field_wf(fields: Vec<(String, Value)>, i: int)
    requires
        value_wf(Value::Object(fields)),
        0 <= i < fields@.len(),
    ensures
        value_wf(fields@[i].1),
{
    let v = Value::Object(fields);
    assert(v matches Value::Object(f) && f == fields);
    assert(forall|j: int| 0 <= j < fields@.len() ==> value_wf(#[trigger] fields@[j].1));
}

/// The text of a metadata value.
fn meta_text(mv: &MetaValue) -> (res: String)
    requires
        meta_wf(*mv),
    ensures
        res@ == meta_value_text(*mv),
{
    match mv {
        MetaValue::String(s) => string_of(s.as_str()),
        MetaValue::Number(n) => crate::dec::to_text(*n),
        MetaValue::Bool(b) => if *b { string_of("true") } else { string_of("false") },
        MetaValue::Date(d) => crate::date::to_text(*d),
        MetaValue::Currency(s) => string_of(s.as_str()),
        MetaValue::Amount(a) => amount_text(a),
        MetaValue::Account(s) => string_of(s.as_str()),
        MetaValue::Tag(s) => string_of(s.as_str()),
        MetaValue::Link(s) => string_of(s.as_str()),
        MetaValue::NoValue => string_of("NULL"),
    }
}

/// The grouping key part of one value: a tag character then its text.
pub open spec fn key_part(v: Value) -> Seq<char> {
    match v {
        Value::String(s) => seq!['S'] + s@,
        Value::Number(n) => seq!['N'] + decimal_display(n),
        Value::Integer(i) => seq!['I'] + int_text(i as int),
        Value::Date(d) => seq!['D'] + chrono_date_display(d),
        Value::Boolean(b) => if b { seq!['T'] } else { seq!['F'] },
        Value::Amount(a) => seq!['A'] + amount_text_spec(a),
        Value::Position(p) => seq!['P'] + amount_text_spec(p.units),
        Value::Inventory(_) => seq!['V'],
        Value::StringSet(ss) => seq!['Z'] + set_key_text(views(ss@)),
        Value::Metadata(_) => seq!['M'] + value_text(v),
        Value::Interval(i) => seq!['R'] + int_text(i.count as int) + " "@ + unit_name(i.unit),
        Value::Object(fields) => seq!['O'] + join_seq(
            fields@.map_values(|f: (String, Value)| f.0@ + ":"@ + value_text(f.1) + ";"@),
            ""@,
        ),
        Value::Null => seq!['0'],
    }
}

/// Each string of a set followed by a comma.
pub open spec fn set_key_text(ss: Seq<Seq<char>>) -> Seq<char>
    decreases ss.len(),
{
    if ss.len() == 0 {
        Seq::empty()
    } else {
        set_key_text(ss.drop_last()) + ss.last() + seq![',']
    }
}

/// The grouping key of some values: their key parts separated by NUL.
pub open spec fn group_key_spec(vals: Seq<Value>) -> Seq<char>
    decreases vals.len(),
{
    if vals.len() == 0 {
        Seq::empty()
    } else if vals.len() == 1 {
        key_part(vals[0])
    } else {
        group_key_spec(vals.drop_last()) + seq!['\0'] + key_part(vals.last())
    }
}

/// The key part of one value.
fn key_part_text(v: &Value) -> (res: String)
    requires
        value_wf(*v),
    ensures
        res@ == key_part(*v),
{
    let mut key = String::new();
    match v {
        Value::String(s) => {
            push_char(&mut key, 'S');
            push_str(&mut key, s.as_str());
        },
        Value::Number(n) => {
            push_char(&mut key, 'N');
            push_str(&mut key, crate::dec::to_text(*n).as_str());
        },
        Value::Integer(i) => {
            push_char(&mut key, 'I');
            push_str(&mut key, i64_text(*i).as_str());
        },
        Value::Date(d) => {
            push_char(&mut key, 'D');
            push_str(&mut key, crate::date::to_text(*d).as_str());
        },
        Value::Boolean(b) => {
            push_char(&mut key, if *b { 'T' } else { 'F' });
        },
        Value::Amount(a) => {
            push_char(&mut key, 'A');
            push_str(&mut key, amount_text(a).as_str());
        },
        Value::Position(p) => {
            push_char(&mut key, 'P');
            push_str(&mut key, amount_text(&p.units).as_str());
        },
        Value::Inventory(_) => {
            push_char(&mut key, 'V');
        },
        Value::StringSet(ss) => {
            push_char(&mut key, 'Z');
            let n = ss.len();
            let mut i: usize = 0;
            while i < n
                invariant
                    n == ss@.len(),
                    i <= n,
                    key@ == seq!['Z'] + set_key_text(views(ss@).subrange(0, i as int)),
                decreases n - i,
            {
                assert(views(ss@).subrange(0, i + 1).drop_last() =~= views(ss@).subrange(0, i as int));
                push_str(&mut key, ss[i].as_str());
                push_char(&mut key, ',');
                i = i + 1;
            }
            assert(views(ss@).subrange(0, n as int) =~= views(ss@));
        },
        Value::Interval(i) => {
            push_char(&mut key, 'R');
            push_str(&mut key, i64_text(i.count).as_str());
            push_str(&mut key, " ");
            push_str(&mut key, unit_text(i.unit).as_str());
        },
        Value::Metadata(_) => {
            push_char(&mut key, 'M');
            push_str(&mut key, value_to_string(v).as_str());
        },
        Value::Object(fields) => {
            push_char(&mut key, 'O');
            let ghost parts = fields@.map_values(|f: (String, Value)| f.0@ + ":"@ + value_text(f.1) + ";"@);
            let n = fields.len();
            let mut i: usize = 0;
            while i < n
                invariant
                    n == fields@.len(),
                    i <= n,
                    *v == Value::Object(*fields),
                    value_wf(*v),
                    parts == fields@.map_values(|f: (String, Value)| f.0@ + ":"@ + value_text(f.1) + ";"@),
                    key@ == seq!['O'] + join_seq(parts.subrange(0, i as int), ""@),
                decreases n - i,
            {
                proof {
                    lemma_object_field_wf(*fields, i as int);
                }
                let inner = value_to_string(&fields[i].1);
                let ghost before = key@;
                proof {
                    reveal_strlit(":");
                    reveal_strlit(";");
                    reveal_strlit("");
                }
                push_str(&mut key, fields[i].0.as_str());
                push_char(&mut key, ':');
                push_str(&mut key, inner.as_str());
                push_char(&mut key, ';');
                let ghost sub = parts.subrange(0, i + 1);
                let ghost piece = fields@[i as int].0@ + ":"@ + value_text(fields@[i as int].1) + ";"@;
                assert(parts[i as int] == piece);
                assert(sub.drop_last() =~= parts.subrange(0, i as int));
                assert(sub.last() == piece);
                assert(key@ =~= before + piece);
                if i == 0 {
                    assert(sub.len() == 1);
                    assert(join_seq(sub, ""@) == piece);
                    assert(before =~= seq!['O']);
                } else {
                    assert(join_seq(sub, ""@) == join_seq(sub.drop_last(), ""@) + ""@ + piece);
                    assert(join_seq(sub.drop_last(), ""@) + ""@ + piece =~= join_seq(sub.drop_last(), ""@) + piece);
                }
                assert(key@ =~= seq!['O'] + join_seq(sub, ""@));
                i = i + 1;
            }
            assert(parts.subrange(0, n as int) =~= parts);
        },
        Value::Null => {
            push_char(&mut key, '0');
        },
    }
    assert(key@ =~= key_part(*v));
    key
}

/// Generate a grouping key from some values (used for GROUP BY).
pub fn make_group_key(values: &[Value]) -> (res: String)
    requires
        forall|i: int| 0 <= i < values@.len() ==> value_wf(#[trigger] values@[i]),
    ensures
        res@ == group_key_spec(values@),
{
    let mut key = String::new();
    let n = values.len();
    let mut i: usize = 0;
    while i < n
        invariant
            n == values@.len(),
            i <= n,
            forall|j: int| 0 <= j < values@.len() ==> value_wf(#[trigger] values@[j]),
            key@ == group_key_spec(values@.subrange(0, i as int)),
        decreases n - i,
    {
        let ghost pre = values@.subrange(0, i + 1);
        assert(pre.drop_last() =~= values@.subrange(0, i as int));
        if i > 0 {
            push_char(&mut key, '\0');
        }
        let part = key_part_text(&values[i]);
        push_str(&mut key, part.as_str());
        i = i + 1;
    }
    assert(values@.subrange(0, n as int) =~= values@);
    key
}

/// A value by its plain parts.
pub enum ValueView {
    String(Seq<char>),
    Number(Dec),
    Integer(i64),
    Date(Date),
    Boolean(bool),
    Amount(Dec, Seq<char>),
    Position(Position),
    Inventory(Seq<Position>),
    StringSet(Seq<Seq<char>>),
    Metadata(Seq<(String, MetaValue)>),
    Interval(Interval),
    Object(Seq<(Seq<char>, ValueView)>),
    Null,
}

/// The first `n` fields of an object, each by its key's characters and its
/// value's plain parts.
pub open spec fn field_views(fields: Vec<(String, Value)>, n: nat) -> Seq<(Seq<char>, ValueView)>
    decreases fields, n,
{
    if n == 0 || n > fields@.len() {
        Seq::empty()
    } else {
        proof {
            assert(decreases_to!(fields => fields@));
            assert(decreases_to!(fields@ => fields@[n - 1]));
        }
        field_views(fields, (n - 1) as nat).push((fields@[n - 1].0@, vview(fields@[n - 1].1)))
    }
}

/// The views of the fields, one by one.
pub proof fn lemma_field_views(fields: Vec<(String, Value)>, n: nat)
    requires
        n <= fields@.len(),
    ensures
        field_views(fields, n).len() == n,
        forall|j: int| 0 <= j < n ==> #[trigger] field_views(fields, n)[j] == (fields@[j].0@, vview(fields@[j].1)),
    decreases n,
{
    if n > 0 {
        lemma_field_views(fields, (n - 1) as nat);
    }
}

/// A value by its plain parts.
pub open spec fn vview(v: Value) -> ValueView
    decreases v, 0nat,
{
    match v {
        Value::String(s) => ValueView::String(s@),
        Value::Number(n) => ValueView::Number(n),
        Value::Integer(i) => ValueView::Integer(i),
        Value::Date(d) => ValueView::Date(d),
        Value::Boolean(b) => ValueView::Boolean(b),
        Value::Amount(a) => ValueView::Amount(a.number, a.currency@),
        Value::Position(p) => ValueView::Position(p),
        Value::Inventory(ps) => ValueView::Inventory(ps@),
        Value::StringSet(ss) => ValueView::StringSet(views(ss@)),
        Value::Metadata(m) => ValueView::Metadata(m@),
        Value::Interval(i) => ValueView::Interval(i),
        Value::Object(fields) => ValueView::Object(field_views(fields, fields@.len() as nat)),
        Value::Null => ValueView::Null,
    }
}

/// A result by plain parts.
pub open spec fn rview(r: Result<Value, QueryError>) -> Result<ValueView, QueryErrorSpec> {
    match r {
        Ok(v) => Ok(vview(v)),
        Err(e) => Err(e.spec()),
    }
}

/// An order seen from the other side.
pub open spec fn reversed(o: Order) -> Order {
    match o {
        Order::Less => Order::Greater,
        Order::Equal => Order::Equal,
        Order::Greater => Order::Less,
    }
}

pub(crate) proof fn lemma_seq_order_antisymmetric(a: Seq<char>, b: Seq<char>)
    ensures
        seq_order(a, b) == reversed(seq_order(b, a)),
    decreases a.len(),
{
    if a.len() > 0 && b.len() > 0 && (a[0] as u32) == (b[0] as u32) {
        lemma_seq_order_antisymmetric(a.drop_first(), b.drop_first());
    }
}

/// BQL equality is symmetric: `a = b` exactly when `b = a`.
pub proof fn law_values_equal_symmetric(a: Value, b: Value)
    ensures
        values_equal_spec(a, b) == values_equal_spec(b, a),
{
}

/// The sort order is antisymmetric: comparing the other way round reverses
/// the outcome.
pub proof fn law_sort_order_antisymmetric(a: Value, b: Value)
    ensures
        sort_order_spec(a, b) == reversed(sort_order_spec(b, a)),
{
    match (a, b) {
        (Value::String(x), Value::String(y)) => {
            lemma_seq_order_antisymmetric(x@, y@);
        },
        _ => {},
    }
}

/// NULL sorts after every other value.
pub proof fn law_null_sorts_last(v: Value)
    requires
        !(v is Null),
    ensures
        sort_order_spec(v, Value::Null) == Order::Less,
        sort_order_spec(Value::Null, v) == Order::Greater,
{
}

/// The comparison operators agree with each other: `a < b` exactly when
/// `b > a`, for values that can be compared.
pub proof fn law_order_antisymmetric(a: Value, b: Value)
    ensures
        order_spec(a, b) is Some <==> order_spec(b, a) is Some,
        order_spec(a, b) matches Some(o) ==> order_spec(b, a) == Some(reversed(o)),
{
    match (a, b) {
        (Value::String(x), Value::String(y)) => {
            lemma_seq_order_antisymmetric(x@, y@);
        },
        _ => {},
    }
}

/// `>=` is `<=` with the operands swapped, and `>` is `<` swapped: on any
/// two values, both give the same answer (or the same error).
pub proof fn law_ge_le_swap(a: Value, b: Value)
    ensures
        binary_spec(BinaryOperator::Ge, a, b) == binary_spec(BinaryOperator::Le, b, a),
        binary_spec(BinaryOperator::Gt, a, b) == binary_spec(BinaryOperator::Lt, b, a),
{
    law_order_antisymmetric(a, b);
}

/// Whatever is greater is also greater or equal, and whatever is less is
/// also less or equal; `>=` and `<` never both hold, nor `<=` and `>`.
pub proof fn law_strict_implies_weak(a: Value, b: Value)
    ensures
        binary_spec(BinaryOperator::Gt, a, b) == Ok::<Value, QueryErrorSpec>(Value::Boolean(true)) ==> binary_spec(
            BinaryOperator::Ge,
            a,
            b,
        ) == Ok::<Value, QueryErrorSpec>(Value::Boolean(true)),
        binary_spec(BinaryOperator::Lt, a, b) == Ok::<Value, QueryErrorSpec>(Value::Boolean(true)) ==> binary_spec(
            BinaryOperator::Le,
            a,
            b,
        ) == Ok::<Value, QueryErrorSpec>(Value::Boolean(true)),
        binary_spec(BinaryOperator::Ge, a, b) == Ok::<Value, QueryErrorSpec>(Value::Boolean(true)) ==> binary_spec(
            BinaryOperator::Lt,
            a,
            b,
        ) == Ok::<Value, QueryErrorSpec>(Value::Boolean(false)),
        binary_spec(BinaryOperator::Le, a, b) == Ok::<Value, QueryErrorSpec>(Value::Boolean(true)) ==> binary_spec(
            BinaryOperator::Gt,
            a,
            b,
        ) == Ok::<Value, QueryErrorSpec>(Value::Boolean(false)),
{
}

/// On integers the comparison operators are those of arithmetic.
pub proof fn law_integer_comparisons(x: i64, y: i64)
    ensures
        binary_spec(BinaryOperator::Lt, Value::Integer(x), Value::Integer(y)) == Ok::<Value, QueryErrorSpec>(
            Value::Boolean(x < y),
        ),
        binary_spec(BinaryOperator::Le, Value::Integer(x), Value::Integer(y)) == Ok::<Value, QueryErrorSpec>(
            Value::Boolean(x <= y),
        ),
        binary_spec(BinaryOperator::Gt, Value::Integer(x), Value::Integer(y)) == Ok::<Value, QueryErrorSpec>(
            Value::Boolean(x > y),
        ),
        binary_spec(BinaryOperator::Ge, Value::Integer(x), Value::Integer(y)) == Ok::<Value, QueryErrorSpec>(
            Value::Boolean(x >= y),
        ),
{
}

/// On dates the comparison operators follow the calendar: a date is greater
/// or equal to another exactly when its year is later, or the year is the
/// same and its month later, or both are the same and its day is not
/// earlier.
pub proof fn law_date_comparisons(d: Date, e: Date)
    ensures
        binary_spec(BinaryOperator::Ge, Value::Date(d), Value::Date(e)) == Ok::<Value, QueryErrorSpec>(
            Value::Boolean(
                d.year > e.year || (d.year == e.year && (d.month > e.month || (d.month == e.month && d.day >= e.day))),
            ),
        ),
        binary_spec(BinaryOperator::Lt, Value::Date(d), Value::Date(e)) == Ok::<Value, QueryErrorSpec>(
            Value::Boolean(
                d.year < e.year || (d.year == e.year && (d.month < e.month || (d.month == e.month && d.day < e.day))),
            ),
        ),
{
}

} // verus!
