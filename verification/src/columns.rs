//! The columns of a posting row, and the tables that queries fill.

use vstd::prelude::*;
use crate::account::views;
use crate::dec::{decimal_checked_mul, checked_mul};
use crate::ledger::{amount_of, Amount, Cost, CostSpec, Posting, Position, PriceAnnotation, Transaction};
use crate::text::{str_eq, string_of, push_str, push_char, nat_text, u64_text};
use crate::validate::absolute;
use crate::value::{Value, QueryError, QueryErrorSpec, ValueView, rview, vview, field_views, lemma_field_views};
use crate::meta::{copy_meta, meta_object, meta_object_view};
use crate::funcs::copy_position;

verus! {

/// Where a directive was written.
#[derive(Debug, Clone, PartialEq)]
pub struct SourceLocation {
    /// File path.
    pub filename: String,
    /// Line number, from 1.
    pub lineno: usize,
}

/// The place of a row within its window partition.
#[derive(Debug, Clone, PartialEq)]
pub struct WindowContext {
    /// Row number within the partition, from 1.
    pub row_number: usize,
    /// Rank within the partition, from 1; ties share a rank.
    pub rank: usize,
    /// Dense rank within the partition, from 1; no gaps after ties.
    pub dense_rank: usize,
}

/// The result of a query: column names and rows.
#[derive(Debug, Clone, PartialEq)]
pub struct QueryResult {
    /// Column names.
    pub columns: Vec<String>,
    /// Result rows.
    pub rows: Vec<Vec<Value>>,
}

impl QueryResult {
    /// A result with the given columns and no rows.
    pub fn new(columns: Vec<String>) -> (res: QueryResult)
        ensures
            res.columns@ == columns@,
            res.rows@.len() == 0,
    {
        QueryResult { columns, rows: Vec::new() }
    }

    /// Add a row at the end.
    pub fn add_row(&mut self, row: Vec<Value>)
        ensures
            final(self).rows@ == old(self).rows@.push(row),
            final(self).columns == old(self).columns,
    {
        self.rows.push(row);
    }

    /// Number of rows.
    pub fn len(&self) -> (res: usize)
        ensures
            res == self.rows@.len(),
    {
        self.rows.len()
    }

    /// Whether there are no rows.
    pub fn is_empty(&self) -> (res: bool)
        ensures
            res == (self.rows@.len() == 0),
    {
        self.rows.len() == 0
    }
}

/// An in-memory table made by `CREATE TABLE`.
#[derive(Debug, Clone, PartialEq)]
pub struct Table {
    /// Column names.
    pub columns: Vec<String>,
    /// Rows of data.
    pub rows: Vec<Vec<Value>>,
}

impl Table {
    /// A table with the given columns and no rows.
    pub fn new(columns: Vec<String>) -> (res: Table)
        ensures
            res.columns@ == columns@,
            res.rows@.len() == 0,
    {
        Table { columns, rows: Vec::new() }
    }

    /// Add a row at the end.
    pub fn add_row(&mut self, row: Vec<Value>)
        ensures
            final(self).rows@ == old(self).rows@.push(row),
            final(self).columns == old(self).columns,
    {
        self.rows.push(row);
    }
}

/// One posting of a transaction, being evaluated as a row.
#[derive(Debug)]
pub struct PostingContext<'a> {
    /// The transaction the posting belongs to.
    pub transaction: &'a Transaction,
    /// The index of the posting within the transaction.
    pub posting_index: usize,
    /// The running balance of the account after this posting, if known.
    pub balance: Option<Vec<Position>>,
    /// The index of the directive, for its source location.
    pub directive_index: Option<usize>,
}

/// The source location of a directive, when locations are known and the
/// index is within them.
pub open spec fn location_at(locs: Option<Seq<SourceLocation>>, idx: Option<usize>) -> Option<SourceLocation> {
    match (locs, idx) {
        (Some(l), Some(i)) => if i < l.len() { Some(l[i as int]) } else { None },
        _ => None,
    }
}

/// A list of source locations by its items.
pub open spec fn locs_view(locs: Option<Vec<SourceLocation>>) -> Option<Seq<SourceLocation>> {
    match locs {
        Some(l) => Some(l@),
        None => None,
    }
}

/// The `position` column: the units, with the cost when the cost
/// specification gives a number per unit and a currency.
pub open spec fn position_column(p: Posting) -> ValueView {
    match amount_of(p) {
        Some(u) => match p.cost {
            Some(cs) => match (cs.number_per, cs.currency) {
                (Some(np), Some(cur)) => ValueView::Position(
                    Position {
                        units: u,
                        cost: Some(Cost { number: np, currency: cur, date: cs.date, label: cs.label }),
                    },
                ),
                _ => ValueView::Position(Position { units: u, cost: None }),
            },
            None => ValueView::Position(Position { units: u, cost: None }),
        },
        None => ValueView::Null,
    }
}

/// The `cost` column (`weight` false: the absolute units times the cost per
/// unit) or the `weight` column (`weight` true: the units times the cost per
/// unit, or the units themselves without a cost).
pub open spec fn cost_column(p: Posting, weight: bool) -> ValueView {
    match amount_of(p) {
        Some(u) => {
            let own = if weight { ValueView::Amount(u.number, u.currency@) } else { ValueView::Null };
            match p.cost {
                Some(cs) => match (cs.number_per, cs.currency) {
                    (Some(np), Some(cur)) => ValueView::Amount(
                        decimal_checked_mul(if weight { u.number } else { absolute(u.number) }, np)->Some_0,
                        cur@,
                    ),
                    _ => own,
                },
                None => own,
            }
        },
        None => ValueView::Null,
    }
}

/// The product that the `cost` or `weight` column computes does not overflow
/// (the decimal product panics when it does).
pub open spec fn cost_product_defined(p: Posting, weight: bool) -> bool {
    match (amount_of(p), p.cost) {
        (Some(u), Some(cs)) => match (cs.number_per, cs.currency) {
            (Some(np), Some(_)) => decimal_checked_mul(if weight { u.number } else { absolute(u.number) }, np) is Some,
            _ => true,
        },
        _ => true,
    }
}

/// The `price` column: the amount of the price annotation when it is
/// complete.
pub open spec fn price_column(p: Option<PriceAnnotation>) -> ValueView {
    match p {
        Some(PriceAnnotation::Unit(a)) => ValueView::Amount(a.number, a.currency@),
        Some(PriceAnnotation::Total(a)) => ValueView::Amount(a.number, a.currency@),
        Some(PriceAnnotation::UnitIncomplete(Some(a))) => ValueView::Amount(a.number, a.currency@),
        Some(PriceAnnotation::TotalIncomplete(Some(a))) => ValueView::Amount(a.number, a.currency@),
        _ => ValueView::Null,
    }
}

/// The accounts of some postings, in order.
pub open spec fn posting_accounts(ps: Seq<Posting>) -> Seq<Seq<char>>
    decreases ps.len(),
{
    if ps.len() == 0 {
        Seq::empty()
    } else {
        posting_accounts(ps.drop_last()).push(ps.last().account@)
    }
}

/// The accounts of some postings other than `current`, in order.
pub open spec fn other_accounts(ps: Seq<Posting>, current: Seq<char>) -> Seq<Seq<char>>
    decreases ps.len(),
{
    if ps.len() == 0 {
        Seq::empty()
    } else if ps.last().account@ == current {
        other_accounts(ps.drop_last(), current)
    } else {
        other_accounts(ps.drop_last(), current).push(ps.last().account@)
    }
}

/// The columns read from the transaction alone.
pub open spec fn transaction_column(name: Seq<char>, t: Transaction) -> Option<ValueView> {
    if name == "date"@ {
        Some(ValueView::Date(t.date))
    } else if name == "narration"@ {
        Some(ValueView::String(t.narration@))
    } else if name == "payee"@ {
        Some(
            match t.payee {
                Some(p) => ValueView::String(p@),
                None => ValueView::Null,
            },
        )
    } else if name == "flag"@ {
        Some(ValueView::String(seq![t.flag]))
    } else if name == "tags"@ {
        Some(ValueView::StringSet(views(t.tags@)))
    } else if name == "links"@ {
        Some(ValueView::StringSet(views(t.links@)))
    } else if name == "year"@ {
        Some(ValueView::Integer(t.date.year as i64))
    } else if name == "month"@ {
        Some(ValueView::Integer(t.date.month as i64))
    } else if name == "day"@ {
        Some(ValueView::Integer(t.date.day as i64))
    } else if name == "description"@ {
        Some(
            ValueView::String(
                match t.payee {
                    Some(p) => p@ + " "@ + t.narration@,
                    None => t.narration@,
                },
            ),
        )
    } else if name == "accounts"@ {
        Some(ValueView::StringSet(posting_accounts(t.postings@)))
    } else {
        None
    }
}

/// The columns read from the posting.
pub open spec fn posting_column(name: Seq<char>, t: Transaction, p: Posting) -> Option<ValueView> {
    if name == "account"@ {
        Some(ValueView::String(p.account@))
    } else if name == "position"@ {
        Some(position_column(p))
    } else if name == "units"@ {
        Some(
            match amount_of(p) {
                Some(u) => ValueView::Amount(u.number, u.currency@),
                None => ValueView::Null,
            },
        )
    } else if name == "cost"@ {
        Some(cost_column(p, false))
    } else if name == "weight"@ {
        Some(cost_column(p, true))
    } else if name == "currency"@ {
        Some(
            match amount_of(p) {
                Some(u) => ValueView::String(u.currency@),
                None => ValueView::Null,
            },
        )
    } else if name == "number"@ {
        Some(
            match amount_of(p) {
                Some(u) => ValueView::Number(u.number),
                None => ValueView::Null,
            },
        )
    } else if name == "posting_flag"@ {
        Some(
            match p.flag {
                Some(f) => ValueView::String(seq![f]),
                None => ValueView::Null,
            },
        )
    } else if name == "other_accounts"@ {
        Some(ValueView::StringSet(other_accounts(t.postings@, p.account@)))
    } else if name == "has_cost"@ {
        Some(ValueView::Boolean(p.cost is Some))
    } else if name == "price"@ {
        Some(price_column(p.price))
    } else if name == "meta"@ {
        Some(ValueView::Metadata(p.meta@))
    } else if name == "entry"@ {
        Some(entry_view(t))
    } else {
        None
    }
}

/// The `entry` column: the transaction as an object, its fields in
/// increasing order of their keys (`payee` only where there is one).
pub open spec fn entry_view(t: Transaction) -> ValueView {
    ValueView::Object(
        seq![
            ("date"@, ValueView::Date(t.date)),
            ("flag"@, ValueView::String(seq![t.flag])),
            ("links"@, ValueView::StringSet(views(t.links@))),
            ("meta"@, ValueView::Object(meta_object_view(t.meta@))),
            ("narration"@, ValueView::String(t.narration@)),
        ] + match t.payee {
            Some(p) => seq![("payee"@, ValueView::String(p@))],
            None => Seq::empty(),
        } + seq![("tags"@, ValueView::StringSet(views(t.tags@)))],
    )
}

/// The transaction as an object (the `entry` column).
fn entry_value(t: &Transaction) -> (res: Value)
    ensures
        vview(res) == entry_view(*t),
{
    let links = t.links.clone();
    let tags = t.tags.clone();
    assert(views(links@) =~= views(t.links@));
    assert(views(tags@) =~= views(t.tags@));
    let meta = meta_object(&t.meta);
    let ghost meta_len = meta@.len();
    let mut obj: Vec<(String, Value)> = Vec::new();
    obj.push((string_of("date"), Value::Date(t.date)));
    obj.push((string_of("flag"), Value::String(char_string(t.flag))));
    obj.push((string_of("links"), Value::StringSet(links)));
    obj.push((string_of("meta"), Value::Object(meta)));
    obj.push((string_of("narration"), Value::String(t.narration.clone())));
    if let Some(p) = &t.payee {
        obj.push((string_of("payee"), Value::String(p.clone())));
    }
    obj.push((string_of("tags"), Value::StringSet(tags)));
    proof {
        lemma_field_views(obj, obj@.len() as nat);
        if let ValueView::Object(e) = entry_view(*t) {
            assert(field_views(obj, obj@.len() as nat) =~= e);
        }
    }
    Value::Object(obj)
}

/// The columns read from the cost specification of the posting.
pub open spec fn cost_spec_column(name: Seq<char>, c: Option<CostSpec>) -> Option<ValueView> {
    if name == "cost_number"@ {
        Some(
            match c {
                Some(cs) => match cs.number_per {
                    Some(n) => ValueView::Number(n),
                    None => ValueView::Null,
                },
                None => ValueView::Null,
            },
        )
    } else if name == "cost_currency"@ {
        Some(
            match c {
                Some(cs) => match cs.currency {
                    Some(cur) => ValueView::String(cur@),
                    None => ValueView::Null,
                },
                None => ValueView::Null,
            },
        )
    } else if name == "cost_date"@ {
        Some(
            match c {
                Some(cs) => match cs.date {
                    Some(d) => ValueView::Date(d),
                    None => ValueView::Null,
                },
                None => ValueView::Null,
            },
        )
    } else if name == "cost_label"@ {
        Some(
            match c {
                Some(cs) => match cs.label {
                    Some(l) => ValueView::String(l@),
                    None => ValueView::Null,
                },
                None => ValueView::Null,
            },
        )
    } else {
        None
    }
}

/// The columns read from the running balance and the source location.
pub open spec fn context_column(
    name: Seq<char>,
    balance: Option<Seq<Position>>,
    loc: Option<SourceLocation>,
) -> Option<ValueView> {
    if name == "balance"@ {
        Some(
            match balance {
                Some(b) => ValueView::Inventory(b),
                None => ValueView::Null,
            },
        )
    } else if name == "filename"@ {
        Some(
            match loc {
                Some(l) => ValueView::String(l.filename@),
                None => ValueView::Null,
            },
        )
    } else if name == "lineno"@ {
        Some(
            match loc {
                Some(l) => ValueView::Integer(l.lineno as i64),
                None => ValueView::Null,
            },
        )
    } else if name == "location"@ {
        Some(
            match loc {
                Some(l) => ValueView::String(l.filename@ + ":"@ + nat_text(l.lineno as nat)),
                None => ValueView::Null,
            },
        )
    } else {
        None
    }
}

/// The value of a column for a posting row; an unknown name is an error.
pub open spec fn column_spec(
    name: Seq<char>,
    t: Transaction,
    index: int,
    balance: Option<Seq<Position>>,
    loc: Option<SourceLocation>,
) -> Result<ValueView, QueryErrorSpec> {
    let p = t.postings@[index];
    if let Some(v) = transaction_column(name, t) {
        Ok(v)
    } else if let Some(v) = posting_column(name, t, p) {
        Ok(v)
    } else if let Some(v) = cost_spec_column(name, p.cost) {
        Ok(v)
    } else if let Some(v) = context_column(name, balance, loc) {
        Ok(v)
    } else {
        Err(QueryErrorSpec::UnknownColumn(name))
    }
}

/// The balance of a context by its positions.
pub open spec fn balance_view(b: Option<Vec<Position>>) -> Option<Seq<Position>> {
    match b {
        Some(v) => Some(v@),
        None => None,
    }
}

/// The numbers that the `cost` and `weight` columns multiply are well formed
/// and their products do not overflow.
pub open spec fn posting_numbers_ok(name: Seq<char>, p: Posting) -> bool {
    &&& (amount_of(p) matches Some(u) ==> u.number.wf())
    &&& (p.cost matches Some(cs) ==> (cs.number_per matches Some(n) ==> n.wf()))
    &&& (name == "cost"@ ==> cost_product_defined(p, false))
    &&& (name == "weight"@ ==> cost_product_defined(p, true))
}

/// A copy of an amount.
pub fn copy_amount(a: &Amount) -> (res: Amount)
    ensures
        res == *a,
{
    Amount { number: a.number, currency: a.currency.clone() }
}

/// A copy of a list of positions.
pub fn copy_positions(ps: &Vec<Position>) -> (res: Vec<Position>)
    ensures
        res@ == ps@,
{
    let mut out: Vec<Position> = Vec::new();
    let n = ps.len();
    let mut i: usize = 0;
    while i < n
        invariant
            n == ps@.len(),
            i <= n,
            out@ == ps@.subrange(0, i as int),
        decreases n - i,
    {
        out.push(copy_position(&ps[i]));
        assert(out@ =~= ps@.subrange(0, i + 1));
        i = i + 1;
    }
    assert(ps@.subrange(0, n as int) =~= ps@);
    out
}

/// A one-character string.
fn char_string(c: char) -> (res: String)
    ensures
        res@ == seq![c],
{
    let mut s = String::new();
    push_char(&mut s, c);
    assert(s@ =~= seq![c]);
    s
}

/// The accounts of the postings, in order.
fn accounts_of(ps: &Vec<Posting>) -> (res: Vec<String>)
    ensures
        views(res@) == posting_accounts(ps@),
{
    let mut out: Vec<String> = Vec::new();
    let n = ps.len();
    let mut i: usize = 0;
    while i < n
        invariant
            n == ps@.len(),
            i <= n,
            views(out@) == posting_accounts(ps@.subrange(0, i as int)),
        decreases n - i,
    {
        assert(ps@.subrange(0, i + 1).drop_last() =~= ps@.subrange(0, i as int));
        let ghost before = views(out@);
        out.push(ps[i].account.clone());
        assert(views(out@) =~= before.push(ps@[i as int].account@));
        i = i + 1;
    }
    assert(ps@.subrange(0, n as int) =~= ps@);
    out
}

/// The accounts of the postings other than `current`, in order.
fn other_accounts_of(ps: &Vec<Posting>, current: &str) -> (res: Vec<String>)
    ensures
        views(res@) == other_accounts(ps@, current@),
{
    let mut out: Vec<String> = Vec::new();
    let n = ps.len();
    let mut i: usize = 0;
    while i < n
        invariant
            n == ps@.len(),
            i <= n,
            views(out@) == other_accounts(ps@.subrange(0, i as int), current@),
        decreases n - i,
    {
        assert(ps@.subrange(0, i + 1).drop_last() =~= ps@.subrange(0, i as int));
        let ghost before = views(out@);
        if !str_eq(ps[i].account.as_str(), current) {
            out.push(ps[i].account.clone());
            assert(views(out@) =~= before.push(ps@[i as int].account@));
        }
        i = i + 1;
    }
    assert(ps@.subrange(0, n as int) =~= ps@);
    out
}

/// Evaluate a column for a posting row.
pub fn evaluate_column(
    name: &str,
    ctx: &PostingContext,
    locations: &Option<Vec<SourceLocation>>,
) -> (res: Result<Value, QueryError>)
    requires
        ctx.posting_index < ctx.transaction.postings@.len(),
        posting_numbers_ok(name@, ctx.transaction.postings@[ctx.posting_index as int]),
    ensures
        rview(res) == column_spec(
            name@,
            *ctx.transaction,
            ctx.posting_index as int,
            balance_view(ctx.balance),
            location_at(locs_view(*locations), ctx.directive_index),
        ),
{
    let txn = ctx.transaction;
    let posting = &txn.postings[ctx.posting_index];
    if let Some(v) = transaction_value(name, txn) {
        return Ok(v);
    }
    if let Some(v) = posting_value(name, txn, posting) {
        return Ok(v);
    }
    if let Some(v) = cost_spec_value(name, &posting.cost) {
        return Ok(v);
    }
    let loc: Option<&SourceLocation> = match (locations, ctx.directive_index) {
        (Some(l), Some(i)) => if i < l.len() { Some(&l[i]) } else { None },
        _ => None,
    };
    if let Some(v) = context_value(name, &ctx.balance, loc) {
        return Ok(v);
    }
    Err(QueryError::UnknownColumn(string_of(name)))
}

/// Evaluate the columns read from the transaction alone.
fn transaction_value(name: &str, t: &Transaction) -> (res: Option<Value>)
    ensures
        match transaction_column(name@, *t) {
            Some(v) => res matches Some(r) && rview(Ok(r)) == Ok::<ValueView, QueryErrorSpec>(v),
            None => res is None,
        },
{
    if str_eq(name, "date") {
        Some(Value::Date(t.date))
    } else if str_eq(name, "narration") {
        Some(Value::String(t.narration.clone()))
    } else if str_eq(name, "payee") {
        Some(
            match &t.payee {
                Some(p) => Value::String(p.clone()),
                None => Value::Null,
            },
        )
    } else if str_eq(name, "flag") {
        Some(Value::String(char_string(t.flag)))
    } else if str_eq(name, "tags") {
        Some(Value::StringSet(t.tags.clone()))
    } else if str_eq(name, "links") {
        Some(Value::StringSet(t.links.clone()))
    } else if str_eq(name, "year") {
        Some(Value::Integer(t.date.year as i64))
    } else if str_eq(name, "month") {
        Some(Value::Integer(t.date.month as i64))
    } else if str_eq(name, "day") {
        Some(Value::Integer(t.date.day as i64))
    } else if str_eq(name, "description") {
        let desc = match &t.payee {
            Some(p) => {
                let mut d = p.clone();
                push_str(&mut d, " ");
                push_str(&mut d, t.narration.as_str());
                d
            },
            None => t.narration.clone(),
        };
        Some(Value::String(desc))
    } else if str_eq(name, "accounts") {
        Some(Value::StringSet(accounts_of(&t.postings)))
    } else {
        None
    }
}

/// Evaluate the columns read from the posting.
fn posting_value(name: &str, t: &Transaction, p: &Posting) -> (res: Option<Value>)
    requires
        posting_numbers_ok(name@, *p),
    ensures
        match posting_column(name@, *t, *p) {
            Some(v) => res matches Some(r) && rview(Ok(r)) == Ok::<ValueView, QueryErrorSpec>(v),
            None => res is None,
        },
{
    if str_eq(name, "account") {
        Some(Value::String(p.account.clone()))
    } else if str_eq(name, "position") {
        Some(position_value(p))
    } else if str_eq(name, "units") {
        Some(
            match p.amount() {
                Some(u) => Value::Amount(copy_amount(u)),
                None => Value::Null,
            },
        )
    } else if str_eq(name, "cost") {
        Some(cost_value(p, false))
    } else if str_eq(name, "weight") {
        Some(cost_value(p, true))
    } else if str_eq(name, "currency") {
        Some(
            match p.amount() {
                Some(u) => Value::String(u.currency.clone()),
                None => Value::Null,
            },
        )
    } else if str_eq(name, "number") {
        Some(
            match p.amount() {
                Some(u) => Value::Number(u.number),
                None => Value::Null,
            },
        )
    } else if str_eq(name, "posting_flag") {
        Some(
            match p.flag {
                Some(f) => Value::String(char_string(f)),
                None => Value::Null,
            },
        )
    } else if str_eq(name, "other_accounts") {
        Some(Value::StringSet(other_accounts_of(&t.postings, p.account.as_str())))
    } else if str_eq(name, "has_cost") {
        Some(Value::Boolean(p.cost.is_some()))
    } else if str_eq(name, "price") {
        Some(
            match &p.price {
                Some(PriceAnnotation::Unit(a)) => Value::Amount(copy_amount(a)),
                Some(PriceAnnotation::Total(a)) => Value::Amount(copy_amount(a)),
                Some(PriceAnnotation::UnitIncomplete(Some(a))) => Value::Amount(copy_amount(a)),
                Some(PriceAnnotation::TotalIncomplete(Some(a))) => Value::Amount(copy_amount(a)),
                _ => Value::Null,
            },
        )
    } else if str_eq(name, "meta") {
        Some(Value::Metadata(copy_meta(&p.meta)))
    } else if str_eq(name, "entry") {
        Some(entry_value(t))
    } else {
        None
    }
}

/// The `position` column of a posting.
fn position_value(p: &Posting) -> (res: Value)
    ensures
        vview(res) == position_column(*p),
{
    match p.amount() {
        Some(u) => {
            let units = copy_amount(u);
            match &p.cost {
                Some(cs) => match (&cs.number_per, &cs.currency) {
                    (Some(np), Some(cur)) => {
                        let label = match &cs.label {
                            Some(l) => Some(l.clone()),
                            None => None,
                        };
                        let cost = Cost { number: *np, currency: cur.clone(), date: cs.date, label };
                        Value::Position(Position { units, cost: Some(cost) })
                    },
                    _ => Value::Position(Position { units, cost: None }),
                },
                None => Value::Position(Position { units, cost: None }),
            }
        },
        None => Value::Null,
    }
}

/// The `cost` column (`weight` false) or the `weight` column (`weight`
/// true) of a posting.
fn cost_value(p: &Posting, weight: bool) -> (res: Value)
    requires
        amount_of(*p) matches Some(u) ==> u.number.wf(),
        p.cost matches Some(cs) ==> (cs.number_per matches Some(n) ==> n.wf()),
        cost_product_defined(*p, weight),
    ensures
        vview(res) == cost_column(*p, weight),
{
    match p.amount() {
        Some(u) => {
            let own = if weight { Value::Amount(copy_amount(u)) } else { Value::Null };
            match &p.cost {
                Some(cs) => match (&cs.number_per, &cs.currency) {
                    (Some(np), Some(cur)) => {
                        let base = if weight { u.number } else { u.number.abs() };
                        assert(base == (if weight { u.number } else { absolute(u.number) }));
                        let total = checked_mul(base, *np).unwrap();
                        Value::Amount(Amount { number: total, currency: cur.clone() })
                    },
                    _ => own,
                },
                None => own,
            }
        },
        None => Value::Null,
    }
}

/// Evaluate the columns read from the cost specification.
fn cost_spec_value(name: &str, c: &Option<CostSpec>) -> (res: Option<Value>)
    ensures
        match cost_spec_column(name@, *c) {
            Some(v) => res matches Some(r) && rview(Ok(r)) == Ok::<ValueView, QueryErrorSpec>(v),
            None => res is None,
        },
{
    if str_eq(name, "cost_number") {
        Some(
            match c {
                Some(cs) => match cs.number_per {
                    Some(n) => Value::Number(n),
                    None => Value::Null,
                },
                None => Value::Null,
            },
        )
    } else if str_eq(name, "cost_currency") {
        Some(
            match c {
                Some(cs) => match &cs.currency {
                    Some(cur) => Value::String(cur.clone()),
                    None => Value::Null,
                },
                None => Value::Null,
            },
        )
    } else if str_eq(name, "cost_date") {
        Some(
            match c {
                Some(cs) => match cs.date {
                    Some(d) => Value::Date(d),
                    None => Value::Null,
                },
                None => Value::Null,
            },
        )
    } else if str_eq(name, "cost_label") {
        Some(
            match c {
                Some(cs) => match &cs.label {
                    Some(l) => Value::String(l.clone()),
                    None => Value::Null,
                },
                None => Value::Null,
            },
        )
    } else {
        None
    }
}

/// Evaluate the columns read from the running balance and the location.
fn context_value(name: &str, balance: &Option<Vec<Position>>, loc: Option<&SourceLocation>) -> (res: Option<Value>)
    ensures
        match context_column(
            name@,
            balance_view(*balance),
            match loc {
                Some(l) => Some(*l),
                None => None,
            },
        ) {
            Some(v) => res matches Some(r) && rview(Ok(r)) == Ok::<ValueView, QueryErrorSpec>(v),
            None => res is None,
        },
{
    if str_eq(name, "balance") {
        Some(
            match balance {
                Some(b) => Value::Inventory(copy_positions(b)),
                None => Value::Null,
            },
        )
    } else if str_eq(name, "filename") {
        Some(
            match loc {
                Some(l) => Value::String(l.filename.clone()),
                None => Value::Null,
            },
        )
    } else if str_eq(name, "lineno") {
        Some(
            match loc {
                Some(l) => Value::Integer(l.lineno as i64),
                None => Value::Null,
            },
        )
    } else if str_eq(name, "location") {
        Some(
            match loc {
                Some(l) => {
                    let mut s = l.filename.clone();
                    push_str(&mut s, ":");
                    push_str(&mut s, u64_text(l.lineno as u64).as_str());
                    Value::String(s)
                },
                None => Value::Null,
            },
        )
    } else {
        None
    }
}

} // verus!
