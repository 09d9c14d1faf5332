//! In-memory tables: `CREATE TABLE` and `INSERT INTO`, with the literal
//! expressions that `INSERT ... VALUES` accepts.

use vstd::prelude::*;
use crate::columns::{QueryResult, Table};
use crate::date::{Date, chrono_parse_from_str, from_ymd, parse_from_str};
use crate::dec::Dec;
use crate::text::{ascii_lower, str_eq, string_of, push_str, std_to_uppercase, to_uppercase, nat_text, u64_text};
use crate::value::{Value, QueryError, QueryErrorSpec, ValueView, UnaryOperator, rview, vview, value_wf, type_error};

verus! {

/// A literal of a query.
#[derive(Debug, Clone)]
pub enum Literal {
    /// A string.
    String(String),
    /// A decimal number.
    Number(Dec),
    /// An integer.
    Integer(i64),
    /// A date.
    Date(Date),
    /// A boolean.
    Boolean(bool),
    /// `NULL`.
    Null,
}

/// An expression of `INSERT ... VALUES`, as far as its evaluation reads
/// it: literals, unary operators, parentheses and function calls; any
/// other expression is refused.
#[derive(Debug)]
pub enum LiteralExpr {
    /// A literal.
    Literal(Literal),
    /// A unary operator applied to an expression.
    Unary(UnaryOperator, Box<LiteralExpr>),
    /// An expression in parentheses.
    Paren(Box<LiteralExpr>),
    /// A function call: the name as written and the arguments.
    Function(String, Box<LiteralArgs>),
    /// Any other expression.
    Other,
}

/// The arguments of a function call, in order.
#[derive(Debug)]
pub enum LiteralArgs {
    /// No more arguments.
    End,
    /// An argument and the ones after it.
    Arg(Box<LiteralExpr>, Box<LiteralArgs>),
}

/// The value of a literal.
pub open spec fn literal_value(l: Literal) -> ValueView {
    match l {
        Literal::String(s) => ValueView::String(s@),
        Literal::Number(n) => ValueView::Number(n),
        Literal::Integer(i) => ValueView::Integer(i),
        Literal::Date(d) => ValueView::Date(d),
        Literal::Boolean(b) => ValueView::Boolean(b),
        Literal::Null => ValueView::Null,
    }
}

/// A unary operator applied to an evaluated literal: `-` on numbers, `NOT`
/// on booleans; the other operators are refused.
pub open spec fn literal_unary(op: UnaryOperator, v: ValueView) -> Result<ValueView, QueryErrorSpec> {
    match op {
        UnaryOperator::Neg => match v {
            ValueView::Number(n) => Ok(ValueView::Number(Dec { mantissa: (-n.mantissa) as i128, scale: n.scale })),
            ValueView::Integer(i) => Ok(ValueView::Integer((-i) as i64)),
            _ => Err(QueryErrorSpec::Type("cannot negate non-numeric value"@)),
        },
        UnaryOperator::Not => match v {
            ValueView::Boolean(b) => Ok(ValueView::Boolean(!b)),
            _ => Err(QueryErrorSpec::Type("cannot negate non-boolean value"@)),
        },
        _ => Err(QueryErrorSpec::Evaluation("unsupported operator in INSERT VALUES"@)),
    }
}

/// `DATE` of three evaluated arguments: a date from integer year, month
/// and day (each converted to the width chrono takes).
pub open spec fn date_of_parts(y: ValueView, m: ValueView, d: ValueView) -> Result<ValueView, QueryErrorSpec> {
    match (y, m, d) {
        (ValueView::Integer(y), ValueView::Integer(m), ValueView::Integer(d)) => {
            let date = Date { year: y as i32, month: m as u32, day: d as u32 };
            if date.wf() {
                Ok(ValueView::Date(date))
            } else {
                Err(QueryErrorSpec::Type("invalid date components"@))
            }
        },
        _ => Err(QueryErrorSpec::Type("DATE() requires integer arguments"@)),
    }
}

/// `DATE` of one evaluated argument: a string in `YYYY-MM-DD` form.
pub open spec fn date_of_text(v: ValueView) -> Result<ValueView, QueryErrorSpec> {
    match v {
        ValueView::String(s) => match chrono_parse_from_str(s, "%Y-%m-%d"@) {
            Ok(d) => Ok(ValueView::Date(d)),
            Err(_) => Err(QueryErrorSpec::Type("invalid date string"@)),
        },
        _ => Err(QueryErrorSpec::Type("invalid date string"@)),
    }
}

/// The value of an expression of `INSERT ... VALUES`.
pub open spec fn literal_spec(e: LiteralExpr) -> Result<ValueView, QueryErrorSpec>
    decreases e,
{
    match e {
        LiteralExpr::Literal(l) => Ok(literal_value(l)),
        LiteralExpr::Unary(op, inner) => match literal_spec(*inner) {
            Ok(v) => literal_unary(op, v),
            Err(x) => Err(x),
        },
        LiteralExpr::Paren(inner) => literal_spec(*inner),
        LiteralExpr::Function(name, args) => if std_to_uppercase(name@) == "DATE"@ {
            match *args {
                LiteralArgs::Arg(a0, r1) => match *r1 {
                    LiteralArgs::End => match literal_spec(*a0) {
                        Ok(v) => date_of_text(v),
                        Err(x) => Err(x),
                    },
                    LiteralArgs::Arg(a1, r2) => match *r2 {
                        LiteralArgs::Arg(a2, r3) => match *r3 {
                            LiteralArgs::End => match literal_spec(*a0) {
                                Err(x) => Err(x),
                                Ok(y) => match literal_spec(*a1) {
                                    Err(x) => Err(x),
                                    Ok(m) => match literal_spec(*a2) {
                                        Err(x) => Err(x),
                                        Ok(d) => date_of_parts(y, m, d),
                                    },
                                },
                            },
                            _ => Err(QueryErrorSpec::Evaluation("DATE() requires 1 or 3 arguments"@)),
                        },
                        LiteralArgs::End => Err(QueryErrorSpec::Evaluation("DATE() requires 1 or 3 arguments"@)),
                    },
                },
                LiteralArgs::End => Err(QueryErrorSpec::Evaluation("DATE() requires 1 or 3 arguments"@)),
            }
        } else {
            Err(QueryErrorSpec::Evaluation("function '"@ + name@ + "' not supported in INSERT VALUES"@))
        },
        LiteralExpr::Other => Err(QueryErrorSpec::Evaluation("only literal values are allowed in INSERT VALUES"@)),
    }
}

/// An expression the evaluation can take: its decimals and dates are well
/// formed, and no `-` is applied to the smallest `i64` (where the negation
/// overflows).
pub open spec fn literal_ok(e: LiteralExpr) -> bool
    decreases e,
{
    match e {
        LiteralExpr::Literal(l) => match l {
            Literal::Number(n) => n.wf(),
            Literal::Date(d) => d.wf(),
            _ => true,
        },
        LiteralExpr::Unary(op, inner) => literal_ok(*inner) && !(op == UnaryOperator::Neg && literal_spec(*inner)
            == Ok::<ValueView, QueryErrorSpec>(ValueView::Integer(i64::MIN))),
        LiteralExpr::Paren(inner) => literal_ok(*inner),
        LiteralExpr::Function(_, args) => args_ok(*args),
        LiteralExpr::Other => true,
    }
}

/// Each argument is an expression the evaluation can take.
pub open spec fn args_ok(a: LiteralArgs) -> bool
    decreases a,
{
    match a {
        LiteralArgs::End => true,
        LiteralArgs::Arg(x, rest) => literal_ok(*x) && args_ok(*rest),
    }
}

/// The value of an expression of `INSERT ... VALUES`.
pub fn evaluate_literal_expr(e: &LiteralExpr) -> (res: Result<Value, QueryError>)
    requires
        literal_ok(*e),
    ensures
        rview(res) == literal_spec(*e),
        res matches Ok(v) ==> value_wf(v),
    decreases e,
{
    match e {
        LiteralExpr::Literal(l) => Ok(
            match l {
                Literal::String(s) => Value::String(string_of(s.as_str())),
                Literal::Number(n) => Value::Number(*n),
                Literal::Integer(i) => Value::Integer(*i),
                Literal::Date(d) => Value::Date(*d),
                Literal::Boolean(b) => Value::Boolean(*b),
                Literal::Null => Value::Null,
            },
        ),
        LiteralExpr::Unary(op, inner) => {
            let v = match evaluate_literal_expr(inner) {
                Ok(v) => v,
                Err(x) => {
                    return Err(x);
                },
            };
            match op {
                UnaryOperator::Neg => match v {
                    Value::Number(n) => Ok(Value::Number(n.neg())),
                    Value::Integer(i) => Ok(Value::Integer(-i)),
                    _ => Err(type_error("cannot negate non-numeric value")),
                },
                UnaryOperator::Not => match v {
                    Value::Boolean(b) => Ok(Value::Boolean(!b)),
                    _ => Err(type_error("cannot negate non-boolean value")),
                },
                _ => Err(QueryError::Evaluation(string_of("unsupported operator in INSERT VALUES"))),
            }
        },
        LiteralExpr::Paren(inner) => evaluate_literal_expr(inner),
        LiteralExpr::Function(name, args) => {
            let upper = to_uppercase(name.as_str());
            if !str_eq(upper.as_str(), "DATE") {
                let mut msg = string_of("function '");
                push_str(&mut msg, name.as_str());
                push_str(&mut msg, "' not supported in INSERT VALUES");
                return Err(QueryError::Evaluation(msg));
            }
            assert(args_ok(**args));
            let (a0, r1) = match &**args {
                LiteralArgs::Arg(a0, r1) => {
                    assert(literal_ok(**a0) && args_ok(**r1));
                    (a0, r1)
                },
                LiteralArgs::End => {
                    return Err(QueryError::Evaluation(string_of("DATE() requires 1 or 3 arguments")));
                },
            };
            match &**r1 {
                LiteralArgs::End => {
                    let v = match evaluate_literal_expr(a0) {
                        Ok(v) => v,
                        Err(x) => {
                            return Err(x);
                        },
                    };
                    match v {
                        Value::String(s) => match parse_from_str(s.as_str(), "%Y-%m-%d") {
                            Ok(d) => Ok(Value::Date(d)),
                            Err(_) => Err(type_error("invalid date string")),
                        },
                        _ => Err(type_error("invalid date string")),
                    }
                },
                LiteralArgs::Arg(a1, r2) => {
                    let a2 = match &**r2 {
                        LiteralArgs::Arg(a2, r3) => match &**r3 {
                            LiteralArgs::End => {
                                assert(literal_ok(**a1) && args_ok(**r2));
                                assert(literal_ok(**a2));
                                a2
                            },
                            _ => {
                                return Err(QueryError::Evaluation(string_of("DATE() requires 1 or 3 arguments")));
                            },
                        },
                        LiteralArgs::End => {
                            return Err(QueryError::Evaluation(string_of("DATE() requires 1 or 3 arguments")));
                        },
                    };
                    let y = match evaluate_literal_expr(a0) {
                        Ok(v) => v,
                        Err(x) => {
                            return Err(x);
                        },
                    };
                    let m = match evaluate_literal_expr(a1) {
                        Ok(v) => v,
                        Err(x) => {
                            return Err(x);
                        },
                    };
                    let d = match evaluate_literal_expr(a2) {
                        Ok(v) => v,
                        Err(x) => {
                            return Err(x);
                        },
                    };
                    match (y, m, d) {
                        (Value::Integer(y), Value::Integer(m), Value::Integer(d)) => match from_ymd(
                            y as i32,
                            m as u32,
                            d as u32,
                        ) {
                            Some(date) => Ok(Value::Date(date)),
                            None => Err(type_error("invalid date components")),
                        },
                        _ => Err(type_error("DATE() requires integer arguments")),
                    }
                },
            }
        },
        LiteralExpr::Other => Err(QueryError::Evaluation(string_of("only literal values are allowed in INSERT VALUES"))),
    }
}

/// The tables made by `CREATE TABLE`, each under its upper-cased name.
#[derive(Debug)]
pub struct TableStore {
    /// The tables by name.
    pub tables: Vec<(String, Table)>,
}

/// The place of the table stored under a key.
pub open spec fn key_index(ts: Seq<(String, Table)>, key: Seq<char>) -> Option<int>
    decreases ts.len(),
{
    if ts.len() == 0 {
        None
    } else if ts.last().0@ == key {
        Some(ts.len() - 1)
    } else {
        key_index(ts.drop_last(), key)
    }
}

/// No two tables are stored under the same key.
pub open spec fn keys_distinct(ts: Seq<(String, Table)>) -> bool {
    forall|i: int, j: int| 0 <= i < j < ts.len() ==> (#[trigger] ts[i]).0@ != (#[trigger] ts[j]).0@
}

/// A one-column result, `result`, with a single message row.
pub open spec fn message_result(q: QueryResult, msg: Seq<char>) -> bool {
    &&& q.columns@.len() == 1
    &&& q.columns@[0]@ == "result"@
    &&& q.rows@.len() == 1
    &&& q.rows@[0]@.len() == 1
    &&& q.rows@[0]@[0] matches Value::String(m) && m@ == msg
}

/// The place of the table stored under a key.
fn find_table(ts: &Vec<(String, Table)>, key: &str) -> (res: Option<usize>)
    ensures
        match res {
            Some(i) => key_index(ts@, key@) == Some(i as int) && i < ts@.len() && ts@[i as int].0@ == key@,
            None => key_index(ts@, key@) is None,
        },
{
    let mut i: usize = ts.len();
    assert(ts@.subrange(0, i as int) =~= ts@);
    while i > 0
        invariant
            i <= ts@.len(),
            key_index(ts@, key@) == key_index(ts@.subrange(0, i as int), key@),
        decreases i,
    {
        let ghost pre = ts@.subrange(0, i as int);
        assert(pre.drop_last() =~= ts@.subrange(0, i - 1));
        assert(pre.last() == ts@[i - 1]);
        if str_eq(ts[i - 1].0.as_str(), key) {
            return Some(i - 1);
        }
        i = i - 1;
    }
    None
}

/// A one-column result, `result`, holding one message.
fn message(msg: String) -> (res: QueryResult)
    ensures
        message_result(res, msg@),
{
    let mut cols: Vec<String> = Vec::new();
    cols.push(string_of("result"));
    let mut q = QueryResult::new(cols);
    let mut row: Vec<Value> = Vec::new();
    row.push(Value::String(msg));
    q.add_row(row);
    q
}

impl TableStore {
    /// A store without tables.
    pub fn new() -> (res: TableStore)
        ensures
            res.tables@.len() == 0,
    {
        TableStore { tables: Vec::new() }
    }

    /// The table of a name (matched case-insensitively, as upper case).
    pub fn get_table(&self, name: &str) -> (res: Option<&Table>)
        ensures
            match key_index(self.tables@, std_to_uppercase(name@)) {
                Some(i) => res == Some(&self.tables@[i].1),
                None => res is None,
            },
    {
        let key = to_uppercase(name);
        match find_table(&self.tables, key.as_str()) {
            Some(i) => Some(&self.tables[i].1),
            None => None,
        }
    }

    /// `CREATE TABLE`: a new table under the upper-cased name, with the
    /// given columns and no rows, or with the columns and rows of the
    /// `AS SELECT` query's result (the query run by the caller and handed
    /// over with its outcome). An error when a table of that name exists
    /// (checked first) or when the query failed; the store is then left as
    /// it was.
    pub fn execute_create_table(
        &mut self,
        table_name: &str,
        columns: Vec<String>,
        as_select: Option<Result<QueryResult, QueryError>>,
    ) -> (res: Result<QueryResult, QueryError>)
        requires
            keys_distinct(old(self).tables@),
        ensures
            keys_distinct(final(self).tables@),
            key_index(old(self).tables@, std_to_uppercase(table_name@)) is Some ==> (res matches Err(e)
                && e.spec() == QueryErrorSpec::Evaluation("table '"@ + table_name@ + "' already exists"@)
                && final(self).tables@ == old(self).tables@),
            key_index(old(self).tables@, std_to_uppercase(table_name@)) is None ==> match as_select {
                Some(Err(e)) => res == Err::<QueryResult, QueryError>(e) && final(self).tables@ == old(self).tables@,
                _ => {
                    &&& res matches Ok(q) && message_result(q, "Created table '"@ + table_name@ + "'"@)
                    &&& final(self).tables@.len() == old(self).tables@.len() + 1
                    &&& final(self).tables@.drop_last() == old(self).tables@
                    &&& final(self).tables@.last().0@ == std_to_uppercase(table_name@)
                    &&& final(self).tables@.last().1.columns@ == match as_select {
                        Some(Ok(r)) => r.columns@,
                        _ => columns@,
                    }
                    &&& final(self).tables@.last().1.rows@ == match as_select {
                        Some(Ok(r)) => r.rows@,
                        _ => Seq::empty(),
                    }
                },
            },
    {
        let key = to_uppercase(table_name);
        if find_table(&self.tables, key.as_str()).is_some() {
            let mut msg = string_of("table '");
            push_str(&mut msg, table_name);
            push_str(&mut msg, "' already exists");
            return Err(QueryError::Evaluation(msg));
        }
        let table = match as_select {
            Some(Ok(r)) => Table { columns: r.columns, rows: r.rows },
            Some(Err(e)) => {
                return Err(e);
            },
            None => Table::new(columns),
        };
        proof {
            assert forall|i: int| 0 <= i < self.tables@.len() implies self.tables@[i].0@ != key@ by {
                lemma_key_index_none(self.tables@, key@, i);
            }
        }
        self.tables.push((key, table));
        let mut msg = string_of("Created table '");
        push_str(&mut msg, table_name);
        push_str(&mut msg, "'");
        Ok(message(msg))
    }
}

/// No table is stored under a key the lookup does not find.
proof fn lemma_key_index_none(ts: Seq<(String, Table)>, key: Seq<char>, i: int)
    requires
        key_index(ts, key) is None,
        0 <= i < ts.len(),
    ensures
        ts[i].0@ != key,
    decreases ts.len(),
{
    if i < ts.len() - 1 {
        assert(ts.drop_last()[i] == ts[i]);
        lemma_key_index_none(ts.drop_last(), key, i);
    }
}

/// Where the rows of `INSERT` come from: rows of expressions, or the
/// outcome of a `SELECT` query run by the caller.
#[derive(Debug)]
pub enum InsertSource {
    /// `VALUES (..), (..)`.
    Values(Vec<Vec<LiteralExpr>>),
    /// `SELECT ...`, with the query's outcome.
    Select(Result<QueryResult, QueryError>),
}

/// The values of a row, by their plain parts.
pub open spec fn row_views(r: Seq<Value>) -> Seq<ValueView> {
    r.map_values(|v: Value| vview(v))
}

/// The values of a row of expressions, evaluated left to right; the first
/// error stops it.
pub open spec fn exprs_spec(es: Seq<LiteralExpr>) -> Result<Seq<ValueView>, QueryErrorSpec>
    decreases es.len(),
{
    if es.len() == 0 {
        Ok(Seq::empty())
    } else {
        match exprs_spec(es.drop_last()) {
            Err(e) => Err(e),
            Ok(acc) => match literal_spec(es.last()) {
                Err(e) => Err(e),
                Ok(v) => Ok(acc.push(v)),
            },
        }
    }
}

/// The error when a row or a query gives the wrong number of values: `what`
/// names the source and `unit` its values, `named` is the number of
/// columns the statement names, if it names any, `n` the table's.
pub open spec fn count_error(named: Option<nat>, n: nat, what: Seq<char>, got: nat, unit: Seq<char>) -> QueryErrorSpec {
    match named {
        Some(c) => QueryErrorSpec::Evaluation(
            "INSERT has "@ + nat_text(c) + " columns but "@ + what + " "@ + nat_text(got) + " "@ + unit,
        ),
        None => QueryErrorSpec::Evaluation(
            "table has "@ + nat_text(n) + " columns but "@ + what + " "@ + nat_text(got) + " "@ + unit,
        ),
    }
}

/// The number of values a source must give.
pub open spec fn expected_count(named: Option<nat>, n: nat) -> nat {
    match named {
        Some(c) => c,
        None => n,
    }
}

/// The rows of `VALUES`, each checked for its number of values and then
/// evaluated, in order; the first error stops it.
pub open spec fn values_spec(rows: Seq<Vec<LiteralExpr>>, named: Option<nat>, n: nat) -> Result<Seq<Seq<ValueView>>, QueryErrorSpec>
    decreases rows.len(),
{
    if rows.len() == 0 {
        Ok(Seq::empty())
    } else {
        match values_spec(rows.drop_last(), named, n) {
            Err(e) => Err(e),
            Ok(acc) => {
                let r = rows.last()@;
                if r.len() != expected_count(named, n) {
                    Err(count_error(named, n, "VALUES has"@, r.len(), "values"@))
                } else {
                    match exprs_spec(r) {
                        Err(e) => Err(e),
                        Ok(vs) => Ok(acc.push(vs)),
                    }
                }
            },
        }
    }
}

/// The rows of a `SELECT` source, once its number of columns is checked.
pub open spec fn select_spec(r: QueryResult, named: Option<nat>, n: nat) -> Result<Seq<Seq<ValueView>>, QueryErrorSpec> {
    if r.columns@.len() != expected_count(named, n) {
        Err(count_error(named, n, "SELECT returns"@, r.columns@.len(), "columns"@))
    } else {
        Ok(r.rows@.map_values(|row: Vec<Value>| row_views(row@)))
    }
}

/// Two texts are equal but for the case of ASCII letters.
pub open spec fn ascii_ci_eq(a: Seq<char>, b: Seq<char>) -> bool {
    a.len() == b.len() && forall|i: int| 0 <= i < a.len() ==> ascii_lower(#[trigger] a[i]) == ascii_lower(b[i])
}

/// The first table column from `i` on whose name matches `c` but for ASCII
/// case.
pub open spec fn first_ci(tcols: Seq<String>, c: Seq<char>, i: int) -> Option<usize>
    decreases tcols.len() - i,
{
    if i < 0 || i >= tcols.len() {
        None
    } else if ascii_ci_eq(tcols[i]@, c) {
        Some(i as usize)
    } else {
        first_ci(tcols, c, i + 1)
    }
}

/// The table column of each named column, or the error for the first one
/// the table lacks.
pub open spec fn positions_spec(tcols: Seq<String>, cols: Seq<String>, table: Seq<char>) -> Result<Seq<usize>, QueryErrorSpec>
    decreases cols.len(),
{
    if cols.len() == 0 {
        Ok(Seq::empty())
    } else {
        match positions_spec(tcols, cols.drop_last(), table) {
            Err(e) => Err(e),
            Ok(acc) => match first_ci(tcols, cols.last()@, 0) {
                Some(p) => Ok(acc.push(p)),
                None => Err(
                    QueryErrorSpec::Evaluation(
                        "column '"@ + cols.last()@ + "' does not exist in table '"@ + table + "'"@,
                    ),
                ),
            },
        }
    }
}

/// The value that lands in table column `j`: that of the last of the first
/// `upto` values whose named column is `j`, else NULL.
pub open spec fn placed(row: Seq<ValueView>, idx: Seq<usize>, j: int, upto: int) -> ValueView
    decreases upto,
{
    if upto <= 0 {
        ValueView::Null
    } else if idx[upto - 1] == j {
        row[upto - 1]
    } else {
        placed(row, idx, j, upto - 1)
    }
}

/// A full table row from the values of the named columns.
pub open spec fn full_row_spec(row: Seq<ValueView>, idx: Seq<usize>, n: nat) -> Seq<ValueView> {
    let upto = if row.len() < idx.len() { row.len() } else { idx.len() };
    Seq::new(n, |j: int| placed(row, idx, j, upto as int))
}

/// The rows an `INSERT` adds to its table, or its error. The table is
/// looked up by the upper-cased name; the rows come from the source, each
/// with as many values as the statement names columns (or the table has);
/// with named columns, each value goes to the table column of that name
/// (ASCII case aside) and the other columns get NULL.
pub open spec fn insert_spec(
    ts: Seq<(String, Table)>,
    table_name: Seq<char>,
    cols: Option<Seq<String>>,
    source: InsertSource,
) -> Result<Seq<Seq<ValueView>>, QueryErrorSpec> {
    match key_index(ts, std_to_uppercase(table_name)) {
        None => Err(QueryErrorSpec::Evaluation("table '"@ + table_name + "' does not exist"@)),
        Some(t) => {
            let tcols = ts[t].1.columns@;
            let n = tcols.len();
            let named = match cols {
                Some(c) => Some(c.len()),
                None => None,
            };
            let rows = match source {
                InsertSource::Values(vr) => values_spec(vr@, named, n),
                InsertSource::Select(Err(e)) => Err(e.spec()),
                InsertSource::Select(Ok(r)) => select_spec(r, named, n),
            };
            match rows {
                Err(e) => Err(e),
                Ok(rs) => match cols {
                    None => Ok(rs),
                    Some(c) => match positions_spec(tcols, c, table_name) {
                        Err(e) => Err(e),
                        Ok(idx) => Ok(rs.map_values(|r: Seq<ValueView>| full_row_spec(r, idx, n))),
                    },
                },
            }
        },
    }
}

/// All the expressions of all the rows can be evaluated.
pub open spec fn value_rows_ok(rows: Seq<Vec<LiteralExpr>>) -> bool {
    forall|i: int, j: int| 0 <= i < rows.len() && 0 <= j < rows[i]@.len() ==> literal_ok(#[trigger] rows[i]@[j])
}

/// Whether two texts are equal but for the case of ASCII letters (as
/// `str::eq_ignore_ascii_case` tells).
fn eq_ignore_ascii_case(a: &str, b: &str) -> (res: bool)
    ensures
        res == ascii_ci_eq(a@, b@),
{
    let n = a.unicode_len();
    if n != b.unicode_len() {
        return false;
    }
    let mut i: usize = 0;
    while i < n
        invariant
            n == a@.len(),
            n == b@.len(),
            i <= n,
            forall|j: int| 0 <= j < i ==> ascii_lower(#[trigger] a@[j]) == ascii_lower(b@[j]),
        decreases n - i,
    {
        let x = a.get_char(i);
        let y = b.get_char(i);
        let lx: u32 = if 'A' <= x && x <= 'Z' { (x as u32) + 32 } else { x as u32 };
        let ly: u32 = if 'A' <= y && y <= 'Z' { (y as u32) + 32 } else { y as u32 };
        assert(ascii_lower(x) as u32 == lx);
        assert(ascii_lower(y) as u32 == ly);
        if lx != ly {
            return false;
        }
        assert(ascii_lower(x) == ascii_lower(y));
        i = i + 1;
    }
    true
}

/// The values of a row of expressions.
fn eval_row(es: &Vec<LiteralExpr>) -> (res: Result<Vec<Value>, QueryError>)
    requires
        forall|j: int| 0 <= j < es@.len() ==> literal_ok(#[trigger] es@[j]),
    ensures
        match res {
            Ok(r) => exprs_spec(es@) == Ok::<Seq<ValueView>, QueryErrorSpec>(row_views(r@)),
            Err(e) => exprs_spec(es@) == Err::<Seq<ValueView>, QueryErrorSpec>(e.spec()),
        },
{
    let mut out: Vec<Value> = Vec::new();
    let mut i: usize = 0;
    assert(es@.subrange(0, 0) =~= Seq::<LiteralExpr>::empty());
    assert(row_views(out@) =~= Seq::<ValueView>::empty());
    while i < es.len()
        invariant
            i <= es@.len(),
            forall|j: int| 0 <= j < es@.len() ==> literal_ok(#[trigger] es@[j]),
            exprs_spec(es@.subrange(0, i as int)) == Ok::<Seq<ValueView>, QueryErrorSpec>(row_views(out@)),
        decreases es@.len() - i,
    {
        let ghost pre = es@.subrange(0, i + 1);
        assert(pre.drop_last() =~= es@.subrange(0, i as int));
        assert(pre.last() == es@[i as int]);
        match evaluate_literal_expr(&es[i]) {
            Ok(v) => {
                let ghost before = out@;
                out.push(v);
                assert(row_views(out@) =~= row_views(before).push(vview(v)));
            },
            Err(e) => {
                proof {
                    lemma_exprs_err_stays(es@, i as int + 1);
                }
                return Err(e);
            },
        }
        i = i + 1;
    }
    assert(es@.subrange(0, es@.len() as int) =~= es@);
    Ok(out)
}

/// Once a prefix of the row fails, the whole row fails with that error.
proof fn lemma_exprs_err_stays(es: Seq<LiteralExpr>, k: int)
    requires
        0 <= k <= es.len(),
        exprs_spec(es.subrange(0, k)) is Err,
    ensures
        exprs_spec(es) == exprs_spec(es.subrange(0, k)),
    decreases es.len() - k,
{
    if k < es.len() {
        let next = es.subrange(0, k + 1);
        assert(next.drop_last() =~= es.subrange(0, k));
        lemma_exprs_err_stays(es, k + 1);
    } else {
        assert(es.subrange(0, k) =~= es);
    }
}

/// The number of columns named, by its value.
pub open spec fn named_count(named: Option<usize>) -> Option<nat> {
    match named {
        Some(c) => Some(c as nat),
        None => None,
    }
}

/// The error for a source that gives the wrong number of values.
fn count_error_of(named: Option<usize>, n: usize, what: &str, got: usize, unit: &str) -> (res: QueryError)
    ensures
        res.spec() == count_error(named_count(named), n as nat, what@, got as nat, unit@),
{
    let mut msg = match named {
        Some(c) => {
            let mut m = string_of("INSERT has ");
            push_str(&mut m, u64_text(c as u64).as_str());
            m
        },
        None => {
            let mut m = string_of("table has ");
            push_str(&mut m, u64_text(n as u64).as_str());
            m
        },
    };
    push_str(&mut msg, " columns but ");
    push_str(&mut msg, what);
    push_str(&mut msg, " ");
    push_str(&mut msg, u64_text(got as u64).as_str());
    push_str(&mut msg, " ");
    push_str(&mut msg, unit);
    QueryError::Evaluation(msg)
}

/// The rows of `VALUES`, checked and evaluated.
fn eval_values(vrows: &Vec<Vec<LiteralExpr>>, named: Option<usize>, n: usize) -> (res: Result<Vec<Vec<Value>>, QueryError>)
    requires
        value_rows_ok(vrows@),
    ensures
        match res {
            Ok(rs) => values_spec(vrows@, named_count(named), n as nat) == Ok::<Seq<Seq<ValueView>>, QueryErrorSpec>(
                rs@.map_values(|r: Vec<Value>| row_views(r@)),
            ),
            Err(e) => values_spec(vrows@, named_count(named), n as nat) == Err::<Seq<Seq<ValueView>>, QueryErrorSpec>(
                e.spec(),
            ),
        },
{
    let expected = match named {
        Some(c) => c,
        None => n,
    };
    let mut out: Vec<Vec<Value>> = Vec::new();
    let mut i: usize = 0;
    assert(vrows@.subrange(0, 0) =~= Seq::<Vec<LiteralExpr>>::empty());
    assert(out@.map_values(|r: Vec<Value>| row_views(r@)) =~= Seq::<Seq<ValueView>>::empty());
    while i < vrows.len()
        invariant
            i <= vrows@.len(),
            value_rows_ok(vrows@),
            expected == expected_count(named_count(named), n as nat),
            values_spec(vrows@.subrange(0, i as int), named_count(named), n as nat) == Ok::<
                Seq<Seq<ValueView>>,
                QueryErrorSpec,
            >(out@.map_values(|r: Vec<Value>| row_views(r@))),
        decreases vrows@.len() - i,
    {
        let ghost pre = vrows@.subrange(0, i + 1);
        proof {
            assert(pre.drop_last() =~= vrows@.subrange(0, i as int));
            assert(pre.last() == vrows@[i as int]);
        }
        if vrows[i].len() != expected {
            proof {
                lemma_values_err_stays(vrows@, named_count(named), n as nat, i as int + 1);
            }
            return Err(count_error_of(named, n, "VALUES has", vrows[i].len(), "values"));
        }
        proof {
            assert forall|j: int| 0 <= j < vrows@[i as int]@.len() implies literal_ok(#[trigger] vrows@[i as int]@[j]) by {
                assert(literal_ok(vrows@[i as int]@[j]));
            }
        }
        match eval_row(&vrows[i]) {
            Ok(r) => {
                let ghost before = out@;
                out.push(r);
                assert(out@.map_values(|r: Vec<Value>| row_views(r@)) =~= before.map_values(
                    |r: Vec<Value>| row_views(r@),
                ).push(row_views(r@)));
            },
            Err(e) => {
                proof {
                    lemma_values_err_stays(vrows@, named_count(named), n as nat, i as int + 1);
                }
                return Err(e);
            },
        }
        i = i + 1;
    }
    assert(vrows@.subrange(0, vrows@.len() as int) =~= vrows@);
    Ok(out)
}

/// Once a prefix of the rows fails, all the rows fail with that error.
proof fn lemma_values_err_stays(rows: Seq<Vec<LiteralExpr>>, named: Option<nat>, n: nat, k: int)
    requires
        0 <= k <= rows.len(),
        values_spec(rows.subrange(0, k), named, n) is Err,
    ensures
        values_spec(rows, named, n) == values_spec(rows.subrange(0, k), named, n),
    decreases rows.len() - k,
{
    if k < rows.len() {
        let next = rows.subrange(0, k + 1);
        assert(next.drop_last() =~= rows.subrange(0, k));
        lemma_values_err_stays(rows, named, n, k + 1);
    } else {
        assert(rows.subrange(0, k) =~= rows);
    }
}

/// The first table column matching a name but for ASCII case.
fn find_ci(tcols: &Vec<String>, c: &str) -> (res: Option<usize>)
    ensures
        res == first_ci(tcols@, c@, 0),
{
    let mut i: usize = 0;
    while i < tcols.len()
        invariant
            i <= tcols@.len(),
            first_ci(tcols@, c@, 0) == first_ci(tcols@, c@, i as int),
        decreases tcols@.len() - i,
    {
        if eq_ignore_ascii_case(tcols[i].as_str(), c) {
            return Some(i);
        }
        i = i + 1;
    }
    None
}

/// A first match is a column of the table.
proof fn lemma_first_ci_bound(tcols: Seq<String>, c: Seq<char>, i: int)
    ensures
        first_ci(tcols, c, i) matches Some(p) ==> p < tcols.len(),
    decreases tcols.len() - i,
{
    if 0 <= i < tcols.len() {
        lemma_first_ci_bound(tcols, c, i + 1);
    }
}

/// The table column of each named column.
fn positions(tcols: &Vec<String>, cols: &Vec<String>, table: &str) -> (res: Result<Vec<usize>, QueryError>)
    ensures
        match res {
            Ok(idx) => positions_spec(tcols@, cols@, table@) == Ok::<Seq<usize>, QueryErrorSpec>(idx@)
                && forall|k: int| 0 <= k < idx@.len() ==> #[trigger] idx@[k] < tcols@.len(),
            Err(e) => positions_spec(tcols@, cols@, table@) == Err::<Seq<usize>, QueryErrorSpec>(e.spec()),
        },
{
    let mut out: Vec<usize> = Vec::new();
    let mut i: usize = 0;
    assert(cols@.subrange(0, 0) =~= Seq::<String>::empty());
    while i < cols.len()
        invariant
            i <= cols@.len(),
            positions_spec(tcols@, cols@.subrange(0, i as int), table@) == Ok::<Seq<usize>, QueryErrorSpec>(out@),
            forall|k: int| 0 <= k < out@.len() ==> #[trigger] out@[k] < tcols@.len(),
        decreases cols@.len() - i,
    {
        let ghost pre = cols@.subrange(0, i + 1);
        proof {
            assert(pre.drop_last() =~= cols@.subrange(0, i as int));
            assert(pre.last() == cols@[i as int]);
        }
        match find_ci(tcols, cols[i].as_str()) {
            Some(p) => {
                proof {
                    lemma_first_ci_bound(tcols@, cols@[i as int]@, 0);
                }
                out.push(p);
            },
            None => {
                proof {
                    lemma_positions_err_stays(tcols@, cols@, table@, i as int + 1);
                }
                let mut msg = string_of("column '");
                push_str(&mut msg, cols[i].as_str());
                push_str(&mut msg, "' does not exist in table '");
                push_str(&mut msg, table);
                push_str(&mut msg, "'");
                return Err(QueryError::Evaluation(msg));
            },
        }
        i = i + 1;
    }
    assert(cols@.subrange(0, cols@.len() as int) =~= cols@);
    Ok(out)
}

/// Once a prefix of the named columns fails, all fail with that error.
proof fn lemma_positions_err_stays(tcols: Seq<String>, cols: Seq<String>, table: Seq<char>, k: int)
    requires
        0 <= k <= cols.len(),
        positions_spec(tcols, cols.subrange(0, k), table) is Err,
    ensures
        positions_spec(tcols, cols, table) == positions_spec(tcols, cols.subrange(0, k), table),
    decreases cols.len() - k,
{
    if k < cols.len() {
        let next = cols.subrange(0, k + 1);
        assert(next.drop_last() =~= cols.subrange(0, k));
        lemma_positions_err_stays(tcols, cols, table, k + 1);
    } else {
        assert(cols.subrange(0, k) =~= cols);
    }
}

/// A full table row: each value put in the table column of its named
/// column, NULL elsewhere.
fn build_full_row(row: Vec<Value>, idx: &Vec<usize>, n: usize) -> (res: Vec<Value>)
    requires
        forall|k: int| 0 <= k < idx@.len() ==> #[trigger] idx@[k] < n,
    ensures
        row_views(res@) == full_row_spec(row_views(row@), idx@, n as nat),
{
    let ghost orig = row@;
    let mut full: Vec<Value> = Vec::new();
    let mut j: usize = 0;
    while j < n
        invariant
            j <= n,
            full@.len() == j,
            forall|t: int| 0 <= t < j ==> (#[trigger] full@[t]) == Value::Null,
        decreases n - j,
    {
        full.push(Value::Null);
        j = j + 1;
    }
    let len = row.len();
    let mut rest = row;
    let mut i: usize = 0;
    while i < len
        invariant
            len == orig.len(),
            i <= len,
            rest@ == orig.subrange(i as int, len as int),
            full@.len() == n,
            forall|k: int| 0 <= k < idx@.len() ==> #[trigger] idx@[k] < n,
            forall|t: int|
                0 <= t < n ==> vview(#[trigger] full@[t]) == placed(
                    row_views(orig),
                    idx@,
                    t,
                    if (i as int) < idx@.len() { i as int } else { idx@.len() as int },
                ),
        decreases len - i,
    {
        let v = rest.remove(0);
        assert(v == orig[i as int]);
        assert(rest@ =~= orig.subrange(i + 1, len as int));
        if i < idx.len() {
            let target = idx[i];
            let ghost before = full@;
            full.set(target, v);
            assert forall|t: int| 0 <= t < n implies vview(#[trigger] full@[t]) == placed(
                row_views(orig),
                idx@,
                t,
                i + 1,
            ) by {
                if t != target {
                    assert(full@[t] == before[t]);
                }
            }
        }
        i = i + 1;
    }
    proof {
        let upto = if orig.len() < idx@.len() { orig.len() } else { idx@.len() };
        assert(row_views(orig).len() == orig.len());
        assert(row_views(full@) =~= full_row_spec(row_views(orig), idx@, n as nat));
    }
    full
}

/// The named columns, by their values.
pub open spec fn named_cols(columns: Option<Vec<String>>) -> Option<Seq<String>> {
    match columns {
        Some(c) => Some(c@),
        None => None,
    }
}

/// The sources of `INSERT` whose expressions can all be evaluated.
pub open spec fn source_ok(source: InsertSource) -> bool {
    match source {
        InsertSource::Values(vr) => value_rows_ok(vr@),
        InsertSource::Select(_) => true,
    }
}

/// The store after `INSERT` added rows to the table at `t`: that table has
/// the same name and columns and the rows after its old ones; the other
/// tables are as they were.
pub open spec fn rows_added(old_ts: Seq<(String, Table)>, new_ts: Seq<(String, Table)>, t: int, rows: Seq<Seq<ValueView>>) -> bool {
    &&& new_ts.len() == old_ts.len()
    &&& forall|i: int| 0 <= i < old_ts.len() && i != t ==> #[trigger] new_ts[i] == old_ts[i]
    &&& new_ts[t].0 == old_ts[t].0
    &&& new_ts[t].1.columns == old_ts[t].1.columns
    &&& new_ts[t].1.rows@.len() == old_ts[t].1.rows@.len() + rows.len()
    &&& new_ts[t].1.rows@.subrange(0, old_ts[t].1.rows@.len() as int) == old_ts[t].1.rows@
    &&& forall|j: int|
        0 <= j < rows.len() ==> row_views((#[trigger] new_ts[t].1.rows@[old_ts[t].1.rows@.len() + j])@) == rows[j]
}

impl TableStore {
    /// `INSERT INTO`: rows added to the table of the name (matched as upper
    /// case), from `VALUES` or from a `SELECT` query (run by the caller and
    /// handed over with its outcome). With named columns each value goes to
    /// the table column of that name, ASCII case aside, and the others get
    /// NULL. Any error leaves the store as it was; on success the result
    /// says how many rows were added.
    pub fn execute_insert(
        &mut self,
        table_name: &str,
        columns: Option<Vec<String>>,
        source: InsertSource,
    ) -> (res: Result<QueryResult, QueryError>)
        requires
            keys_distinct(old(self).tables@),
            source_ok(source),
        ensures
            keys_distinct(final(self).tables@),
            match insert_spec(old(self).tables@, table_name@, named_cols(columns), source) {
                Err(e) => res matches Err(x) && x.spec() == e && final(self).tables@ == old(self).tables@,
                Ok(rows) => {
                    &&& res matches Ok(q) && message_result(
                        q,
                        "Inserted "@ + nat_text(rows.len()) + " row(s) into '"@ + table_name@ + "'"@,
                    )
                    &&& rows_added(
                        old(self).tables@,
                        final(self).tables@,
                        key_index(old(self).tables@, std_to_uppercase(table_name@))->Some_0,
                        rows,
                    )
                },
            },
    {
        let key = to_uppercase(table_name);
        let t = match find_table(&self.tables, key.as_str()) {
            Some(t) => t,
            None => {
                let mut msg = string_of("table '");
                push_str(&mut msg, table_name);
                push_str(&mut msg, "' does not exist");
                return Err(QueryError::Evaluation(msg));
            },
        };
        let n = self.tables[t].1.columns.len();
        let named: Option<usize> = match &columns {
            Some(c) => Some(c.len()),
            None => None,
        };
        let ghost src = source;
        let rows: Vec<Vec<Value>> = match source {
            InsertSource::Values(vr) => match eval_values(&vr, named, n) {
                Ok(rs) => rs,
                Err(e) => {
                    return Err(e);
                },
            },
            InsertSource::Select(Err(e)) => {
                return Err(e);
            },
            InsertSource::Select(Ok(r)) => {
                let expected = match named {
                    Some(c) => c,
                    None => n,
                };
                if r.columns.len() != expected {
                    return Err(count_error_of(named, n, "SELECT returns", r.columns.len(), "columns"));
                }
                r.rows
            },
        };
        let ghost views = rows@.map_values(|r: Vec<Value>| row_views(r@));
        let count = rows.len();
        let mut to_add: Vec<Vec<Value>> = Vec::new();
        let ghost added: Seq<Seq<ValueView>>;
        match &columns {
            None => {
                to_add = rows;
                proof {
                    added = views;
                    assert forall|q: int| 0 <= q < count implies row_views((#[trigger] to_add@[q])@) == added[q] by {}
                }
            },
            Some(c) => {
                let idx = match positions(&self.tables[t].1.columns, c, table_name) {
                    Ok(idx) => idx,
                    Err(e) => {
                        return Err(e);
                    },
                };
                let mut rest = rows;
                let ghost orig = rest@;
                let mut k: usize = 0;
                while k < count
                    invariant
                        count == orig.len(),
                        k <= count,
                        rest@ == orig.subrange(k as int, count as int),
                        to_add@.len() == k,
                        forall|q: int| 0 <= q < idx@.len() ==> #[trigger] idx@[q] < n,
                        forall|q: int|
                            0 <= q < k ==> row_views((#[trigger] to_add@[q])@) == full_row_spec(
                                row_views(orig[q]@),
                                idx@,
                                n as nat,
                            ),
                    decreases count - k,
                {
                    let r = rest.remove(0);
                    assert(r == orig[k as int]);
                    assert(rest@ =~= orig.subrange(k + 1, count as int));
                    let full = build_full_row(r, &idx, n);
                    to_add.push(full);
                    k = k + 1;
                }
                proof {
                    added = views.map_values(|r: Seq<ValueView>| full_row_spec(r, idx@, n as nat));
                    assert forall|q: int| 0 <= q < count implies row_views((#[trigger] to_add@[q])@) == added[q] by {}
                }
            },
        }
        proof {
            assert(insert_spec(old(self).tables@, table_name@, named_cols(columns), src) == Ok::<
                Seq<Seq<ValueView>>,
                QueryErrorSpec,
            >(added));
        }
        assert(forall|q: int| 0 <= q < count ==> row_views((#[trigger] to_add@[q])@) == added[q]);
        assert(added.len() == count);
        let ghost old_ts = self.tables@;
        let (name_key, mut table) = self.tables.remove(t);
        let old_len = table.rows.len();
        let ghost old_rows = table.rows@;
        let mut feed = to_add;
        let ghost fed = feed@;
        let mut k: usize = 0;
        while k < count
            invariant
                count == fed.len(),
                k <= count,
                feed@ == fed.subrange(k as int, count as int),
                table.rows@.len() == old_len + k,
                table.rows@.subrange(0, old_len as int) == old_rows,
                forall|q: int| 0 <= q < k ==> #[trigger] table.rows@[old_len + q] == fed[q],
                forall|q: int| 0 <= q < count ==> row_views((#[trigger] fed[q])@) == added[q],
                table.columns == old_ts[t as int].1.columns,
                old_len == old_ts[t as int].1.rows@.len(),
                old_rows == old_ts[t as int].1.rows@,
            decreases count - k,
        {
            let r = feed.remove(0);
            assert(r == fed[k as int]);
            assert(feed@ =~= fed.subrange(k + 1, count as int));
            let ghost before = table.rows@;
            table.rows.push(r);
            assert(table.rows@.subrange(0, old_len as int) =~= before.subrange(0, old_len as int));
            k = k + 1;
        }
        self.tables.insert(t, (name_key, table));
        proof {
            let nt = self.tables@;
            assert forall|i: int| 0 <= i < old_ts.len() && i != t implies #[trigger] nt[i] == old_ts[i] by {}
            assert forall|i: int, j: int| 0 <= i < j < nt.len() implies (#[trigger] nt[i]).0@ != (#[trigger] nt[j]).0@ by {
                assert(nt[i].0 == old_ts[i].0);
                assert(nt[j].0 == old_ts[j].0);
                assert(old_ts[i].0@ != old_ts[j].0@);
            }
        }
        assert(key_index(old_ts, std_to_uppercase(table_name@)) == Some(t as int));
        proof {
            let nt = self.tables@;
            assert(nt[t as int].1.rows@.subrange(0, old_len as int) == old_ts[t as int].1.rows@);
            assert forall|j: int| 0 <= j < added.len() implies row_views(
                (#[trigger] nt[t as int].1.rows@[old_ts[t as int].1.rows@.len() + j])@,
            ) == added[j] by {
                assert(nt[t as int].1.rows@[old_len + j] == fed[j]);
            }
        }
        assert(rows_added(old_ts, self.tables@, t as int, added));
        let mut msg = string_of("Inserted ");
        push_str(&mut msg, u64_text(count as u64).as_str());
        push_str(&mut msg, " row(s) into '");
        push_str(&mut msg, table_name);
        push_str(&mut msg, "'");
        Ok(message(msg))
    }
}

} // verus!
