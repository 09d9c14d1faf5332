//! Aggregate functions over a group of rows, on the argument already
//! evaluated for each row.

use vstd::prelude::*;
use crate::date::Date;
use crate::dec::{Dec, Order, decimal_checked_add, decimal_checked_div, checked_add, checked_div};
use crate::text::{str_eq, string_of};
use crate::value::{
    Value, QueryError, QueryErrorSpec, ValueView, rview, vview, value_wf, order_spec, value_less_than, int_dec,
    type_error,
};
use crate::funcs::{copy_value, copy_position};
use crate::ledger::{Amount, Cost, Position};
use crate::columns::copy_amount;

verus! {

/// `MIN` (`less` true) or `MAX` (`less` false) over some values, NULLs
/// skipped: the running value is replaced by a value less (or greater) than
/// it; an error when two values cannot be compared.
pub open spec fn extreme_fold(vs: Seq<Value>, less: bool) -> Result<Option<Value>, QueryErrorSpec>
    decreases vs.len(),
{
    if vs.len() == 0 {
        Ok(None)
    } else {
        match extreme_fold(vs.drop_last(), less) {
            Err(e) => Err(e),
            Ok(cur) => {
                let v = vs.last();
                if v is Null {
                    Ok(cur)
                } else {
                    match cur {
                        None => Ok(Some(v)),
                        Some(c) => match (if less { order_spec(v, c) } else { order_spec(c, v) }) {
                            Some(o) => Ok(Some(if o == Order::Less { v } else { c })),
                            None => Err(QueryErrorSpec::Type("cannot compare values"@)),
                        },
                    }
                }
            },
        }
    }
}

/// The running sum and count of `AVG` over some values: an error at the
/// first value that is not a number, an integer or NULL; `Ok(None)` once a
/// sum has overflowed.
pub open spec fn avg_fold(vs: Seq<Value>) -> Result<Option<(Dec, int)>, QueryErrorSpec>
    decreases vs.len(),
{
    if vs.len() == 0 {
        Ok(Some((Dec { mantissa: 0, scale: 0 }, 0)))
    } else {
        match avg_fold(vs.drop_last()) {
            Err(e) => Err(e),
            Ok(None) => Ok(None),
            Ok(Some((sum, count))) => match vs.last() {
                Value::Number(n) => match decimal_checked_add(sum, n) {
                    Some(t) => Ok(Some((t, count + 1))),
                    None => Ok(None),
                },
                Value::Integer(i) => match decimal_checked_add(sum, int_dec(i)) {
                    Some(t) => Ok(Some((t, count + 1))),
                    None => Ok(None),
                },
                Value::Null => Ok(Some((sum, count))),
                _ => Err(QueryErrorSpec::Type("AVG expects numeric values"@)),
            },
        }
    }
}

/// The index of the first of the earliest dates.
pub open spec fn first_earliest(dates: Seq<Date>) -> Option<int>
    decreases dates.len(),
{
    if dates.len() == 0 {
        None
    } else {
        match first_earliest(dates.drop_last()) {
            None => Some(dates.len() - 1),
            Some(i) => if dates.last().order_with(dates[i]) == Order::Less {
                Some(dates.len() - 1)
            } else {
                Some(i)
            },
        }
    }
}

/// The index of the last of the latest dates.
pub open spec fn last_latest(dates: Seq<Date>) -> Option<int>
    decreases dates.len(),
{
    if dates.len() == 0 {
        None
    } else {
        match last_latest(dates.drop_last()) {
            None => Some(dates.len() - 1),
            Some(i) => if dates.last().order_with(dates[i]) == Order::Less {
                Some(i)
            } else {
                Some(dates.len() - 1)
            },
        }
    }
}

/// An aggregate function over a group, on the argument evaluated for each
/// row (`dates` holds each row's transaction date, `arg_count` the number of
/// arguments the call was written with).
pub open spec fn aggregate_spec(name: Seq<char>, arg_count: nat, vs: Seq<Value>, dates: Seq<Date>) -> Result<ValueView, QueryErrorSpec> {
    if name == "COUNT"@ {
        Ok(ValueView::Integer(vs.len() as i64))
    } else if arg_count != 1 {
        Err(QueryErrorSpec::InvalidArguments(name, "expected 1 argument"@))
    } else if name == "FIRST"@ {
        match first_earliest(dates) {
            Some(i) => Ok(vview(vs[i])),
            None => Ok(ValueView::Null),
        }
    } else if name == "LAST"@ {
        match last_latest(dates) {
            Some(i) => Ok(vview(vs[i])),
            None => Ok(ValueView::Null),
        }
    } else if name == "MIN"@ || name == "MAX"@ {
        match extreme_fold(vs, name == "MIN"@) {
            Ok(Some(v)) => Ok(vview(v)),
            Ok(None) => Ok(ValueView::Null),
            Err(e) => Err(e),
        }
    } else {
        match avg_fold(vs) {
            Ok(Some((sum, count))) => if count == 0 {
                Ok(ValueView::Null)
            } else {
                Ok(ValueView::Number(decimal_checked_div(sum, Dec { mantissa: count as i128, scale: 0 })->Some_0))
            },
            Err(e) => Err(e),
            Ok(None) => Ok(ValueView::Null),
        }
    }
}

/// The sums and the final division of `AVG` do not overflow (the decimal
/// arithmetic panics when they do).
pub open spec fn avg_defined(vs: Seq<Value>) -> bool {
    match avg_fold(vs) {
        Ok(None) => false,
        Ok(Some((sum, count))) => count != 0 ==> decimal_checked_div(sum, Dec { mantissa: count as i128, scale: 0 }) is Some,
        Err(_) => true,
    }
}

/// `MIN` or `MAX` over the values.
fn extreme(values: &[Value], less: bool) -> (res: Result<Option<Value>, QueryError>)
    requires
        forall|i: int| 0 <= i < values@.len() ==> value_wf(#[trigger] values@[i]),
    ensures
        match (res, extreme_fold(values@, less)) {
            (Ok(Some(v)), Ok(Some(w))) => vview(v) == vview(w),
            (Ok(None), Ok(None)) => true,
            (Err(e), Err(f)) => e.spec() == f,
            _ => false,
        },
{
    let mut cur: Option<Value> = None;
    let n = values.len();
    let mut i: usize = 0;
    while i < n
        invariant
            n == values@.len(),
            i <= n,
            forall|j: int| 0 <= j < values@.len() ==> value_wf(#[trigger] values@[j]),
            extreme_fold(values@.subrange(0, i as int), less) matches Ok(w) && match (cur, w) {
                (Some(c), Some(x)) => vview(c) == vview(x),
                (None, None) => true,
                _ => false,
            },
            cur matches Some(c) ==> value_wf(c),
        decreases n - i,
    {
        assert(values@.subrange(0, i + 1).drop_last() =~= values@.subrange(0, i as int));
        assert(values@.subrange(0, i + 1).last() == values@[i as int]);
        let v = &values[i];
        if !matches!(v, Value::Null) {
            match cur {
                None => {
                    cur = Some(copy_value(v));
                },
                Some(c) => {
                    proof {
                        let w = extreme_fold(values@.subrange(0, i as int), less)->Ok_0->Some_0;
                        lemma_order_spec_view(c, w, values@[i as int]);
                    }
                    let keep_new = if less { value_less_than(v, &c) } else { value_less_than(&c, v) };
                    match keep_new {
                        Ok(true) => {
                            cur = Some(copy_value(v));
                        },
                        Ok(false) => {
                            cur = Some(c);
                        },
                        Err(e) => {
                            proof {
                                lemma_extreme_error_stays(values@, less, i + 1);
                            }
                            return Err(e);
                        },
                    }
                },
            }
        }
        i = i + 1;
    }
    assert(values@.subrange(0, n as int) =~= values@);
    Ok(cur)
}

/// Values with the same plain parts compare alike.
proof fn lemma_order_spec_view(a: Value, a2: Value, b: Value)
    requires
        vview(a) == vview(a2),
    ensures
        order_spec(a, b) == order_spec(a2, b),
        order_spec(b, a) == order_spec(b, a2),
{
}

/// Once `MIN` or `MAX` has failed on a prefix, it fails on the whole.
proof fn lemma_extreme_error_stays(vs: Seq<Value>, less: bool, k: int)
    requires
        0 <= k <= vs.len(),
        extreme_fold(vs.subrange(0, k), less) is Err,
    ensures
        extreme_fold(vs, less) == extreme_fold(vs.subrange(0, k), less),
    decreases vs.len() - k,
{
    if k < vs.len() {
        assert(vs.subrange(0, k + 1).drop_last() =~= vs.subrange(0, k));
        lemma_extreme_error_stays(vs, less, k + 1);
    } else {
        assert(vs.subrange(0, k) =~= vs);
    }
}

/// Once `AVG` has failed on a prefix, it fails on the whole.
proof fn lemma_avg_error_stays(vs: Seq<Value>, k: int)
    requires
        0 <= k <= vs.len(),
        avg_fold(vs.subrange(0, k)) is Err,
    ensures
        avg_fold(vs) == avg_fold(vs.subrange(0, k)),
    decreases vs.len() - k,
{
    if k < vs.len() {
        assert(vs.subrange(0, k + 1).drop_last() =~= vs.subrange(0, k));
        lemma_avg_error_stays(vs, k + 1);
    } else {
        assert(vs.subrange(0, k) =~= vs);
    }
}

/// Once an `AVG` sum has overflowed on a prefix, the whole stays so or
/// fails later.
proof fn lemma_avg_overflow_stays(vs: Seq<Value>, k: int)
    requires
        0 <= k <= vs.len(),
        avg_fold(vs.subrange(0, k)) == Ok::<Option<(Dec, int)>, QueryErrorSpec>(None),
    ensures
        avg_fold(vs) == Ok::<Option<(Dec, int)>, QueryErrorSpec>(None),
    decreases vs.len() - k,
{
    if k < vs.len() {
        assert(vs.subrange(0, k + 1).drop_last() =~= vs.subrange(0, k));
        lemma_avg_overflow_stays(vs, k + 1);
    } else {
        assert(vs.subrange(0, k) =~= vs);
    }
}

/// `AVG` over the values.
fn average(values: &[Value]) -> (res: Result<Value, QueryError>)
    requires
        forall|i: int| 0 <= i < values@.len() ==> value_wf(#[trigger] values@[i]),
        avg_defined(values@),
    ensures
        rview(res) == match avg_fold(values@) {
            Ok(Some((sum, count))) => if count == 0 {
                Ok(ValueView::Null)
            } else {
                Ok(ValueView::Number(decimal_checked_div(sum, Dec { mantissa: count as i128, scale: 0 })->Some_0))
            },
            Err(e) => Err(e),
            Ok(None) => Ok(ValueView::Null),
        },
{
    let mut sum = Dec::zero();
    let mut count: usize = 0;
    let n = values.len();
    let mut i: usize = 0;
    while i < n
        invariant
            n == values@.len(),
            i <= n,
            count <= i,
            forall|j: int| 0 <= j < values@.len() ==> value_wf(#[trigger] values@[j]),
            avg_defined(values@),
            sum.wf(),
            avg_fold(values@.subrange(0, i as int)) == Ok::<Option<(Dec, int)>, QueryErrorSpec>(
                Some((sum, count as int)),
            ),
        decreases n - i,
    {
        assert(values@.subrange(0, i + 1).drop_last() =~= values@.subrange(0, i as int));
        assert(values@.subrange(0, i + 1).last() == values@[i as int]);
        assert(value_wf(values@[i as int]));
        match &values[i] {
            Value::Number(x) => match checked_add(sum, *x) {
                Some(t) => {
                    sum = t;
                    count = count + 1;
                },
                None => {
                    proof {
                        lemma_avg_overflow_stays(values@, i + 1);
                    }
                    assert(false);
                    return Err(type_error("AVG expects numeric values"));
                },
            },
            Value::Integer(k) => match checked_add(sum, Dec { mantissa: *k as i128, scale: 0 }) {
                Some(t) => {
                    sum = t;
                    count = count + 1;
                },
                None => {
                    proof {
                        lemma_avg_overflow_stays(values@, i + 1);
                    }
                    assert(false);
                    return Err(type_error("AVG expects numeric values"));
                },
            },
            Value::Null => {},
            _ => {
                proof {
                    lemma_avg_error_stays(values@, i + 1);
                }
                return Err(type_error("AVG expects numeric values"));
            },
        }
        i = i + 1;
    }
    assert(values@.subrange(0, n as int) =~= values@);
    if count == 0 {
        Ok(Value::Null)
    } else {
        Ok(Value::Number(checked_div(sum, Dec { mantissa: count as i128, scale: 0 }).unwrap()))
    }
}

/// The index of the first of the earliest dates.
fn earliest(dates: &[Date]) -> (res: Option<usize>)
    ensures
        match res {
            Some(i) => first_earliest(dates@) == Some(i as int) && i < dates@.len(),
            None => first_earliest(dates@) is None,
        },
{
    let mut best: Option<usize> = None;
    let n = dates.len();
    let mut i: usize = 0;
    while i < n
        invariant
            n == dates@.len(),
            i <= n,
            match best {
                Some(b) => b < i && first_earliest(dates@.subrange(0, i as int)) == Some(b as int),
                None => i == 0 && first_earliest(dates@.subrange(0, i as int)) is None,
            },
        decreases n - i,
    {
        let ghost pre = dates@.subrange(0, i + 1);
        assert(pre.drop_last() =~= dates@.subrange(0, i as int));
        match best {
            None => {
                best = Some(i);
            },
            Some(b) => {
                assert(pre[b as int] == dates@[b as int]);
                if dates[i].before(&dates[b]) {
                    best = Some(i);
                }
            },
        }
        i = i + 1;
    }
    assert(dates@.subrange(0, n as int) =~= dates@);
    best
}

/// The index of the last of the latest dates.
fn latest(dates: &[Date]) -> (res: Option<usize>)
    ensures
        match res {
            Some(i) => last_latest(dates@) == Some(i as int) && i < dates@.len(),
            None => last_latest(dates@) is None,
        },
{
    let mut best: Option<usize> = None;
    let n = dates.len();
    let mut i: usize = 0;
    while i < n
        invariant
            n == dates@.len(),
            i <= n,
            match best {
                Some(b) => b < i && last_latest(dates@.subrange(0, i as int)) == Some(b as int),
                None => i == 0 && last_latest(dates@.subrange(0, i as int)) is None,
            },
        decreases n - i,
    {
        let ghost pre = dates@.subrange(0, i + 1);
        assert(pre.drop_last() =~= dates@.subrange(0, i as int));
        match best {
            None => {
                best = Some(i);
            },
            Some(b) => {
                assert(pre[b as int] == dates@[b as int]);
                if !dates[i].before(&dates[b]) {
                    best = Some(i);
                }
            },
        }
        i = i + 1;
    }
    assert(dates@.subrange(0, n as int) =~= dates@);
    best
}

/// What `SUM` adds to its inventory for one value: a position as it is, or
/// a plain number (kept under the currency `__NUMBER__`).
pub enum SumItem {
    /// A position added as it is.
    Pos(Position),
    /// A number.
    Num(Dec),
}

/// The items `SUM` adds, in row order: an amount as a position without
/// cost, a position as it is, a number as a plain number; NULLs are
/// skipped, and any other value is an error (the first one stops it).
pub open spec fn sum_items(vs: Seq<Value>) -> Result<Seq<SumItem>, QueryErrorSpec>
    decreases vs.len(),
{
    if vs.len() == 0 {
        Ok(Seq::empty())
    } else {
        match sum_items(vs.drop_last()) {
            Err(e) => Err(e),
            Ok(acc) => match vs.last() {
                Value::Amount(a) => Ok(acc.push(SumItem::Pos(Position { units: a, cost: None }))),
                Value::Position(p) => Ok(acc.push(SumItem::Pos(p))),
                Value::Number(n) => Ok(acc.push(SumItem::Num(n))),
                Value::Null => Ok(acc),
                _ => Err(QueryErrorSpec::Type("SUM requires numeric or position value"@)),
            },
        }
    }
}

/// A position by its plain parts: number, currency and cost.
pub struct Lot {
    pub number: Dec,
    pub currency: Seq<char>,
    pub cost: Option<Cost>,
}

/// A position by its plain parts.
pub open spec fn lot_of(p: Position) -> Lot {
    Lot { number: p.units.number, currency: p.units.currency@, cost: p.cost }
}

/// The positions of an inventory by their plain parts.
pub open spec fn lots(ps: Seq<Position>) -> Seq<Lot> {
    ps.map_values(|p: Position| lot_of(p))
}

/// The position an item adds: a number goes under the currency `__NUMBER__`
/// without cost.
pub open spec fn item_lot(it: SumItem) -> Lot {
    match it {
        SumItem::Pos(p) => lot_of(p),
        SumItem::Num(n) => Lot { number: n, currency: "__NUMBER__"@, cost: None },
    }
}

/// An optional text by its characters.
pub open spec fn opt_text(t: Option<String>) -> Option<Seq<char>> {
    match t {
        Some(x) => Some(x@),
        None => None,
    }
}

/// Two costs are the same: both absent, or the same number (by value),
/// currency, date and label.
pub open spec fn same_cost(a: Option<Cost>, b: Option<Cost>) -> bool {
    match (a, b) {
        (None, None) => true,
        (Some(x), Some(y)) => x.number.same_value(y.number) && x.currency@ == y.currency@ && x.date == y.date
            && opt_text(x.label) == opt_text(y.label),
        _ => false,
    }
}

/// Two positions are the same lot: the same currency held at the same cost.
pub open spec fn same_lot(a: Lot, b: Lot) -> bool {
    a.currency == b.currency && same_cost(a.cost, b.cost)
}

/// The place of the first position that is the same lot as `x`.
pub open spec fn lot_index(s: Seq<Lot>, x: Lot) -> Option<int>
    decreases s.len(),
{
    if s.len() == 0 {
        None
    } else if same_lot(s[0], x) {
        Some(0)
    } else {
        match lot_index(s.drop_first(), x) {
            Some(i) => Some(i + 1),
            None => None,
        }
    }
}

/// A position added to an inventory: its units go to the first position of
/// the same lot, or it is put at the end when there is none; `None` when
/// the sum of units overflows.
pub open spec fn add_lot(s: Seq<Lot>, x: Lot) -> Option<Seq<Lot>> {
    match lot_index(s, x) {
        Some(i) => match decimal_checked_add(s[i].number, x.number) {
            Some(t) => Some(s.update(i, Lot { number: t, currency: s[i].currency, cost: s[i].cost })),
            None => None,
        },
        None => Some(s.push(x)),
    }
}

/// The inventory the items add up to, in order (`None` on an overflow).
pub open spec fn sum_lots(items: Seq<SumItem>) -> Option<Seq<Lot>>
    decreases items.len(),
{
    if items.len() == 0 {
        Some(Seq::empty())
    } else {
        match sum_lots(items.drop_last()) {
            None => None,
            Some(s) => add_lot(s, item_lot(items.last())),
        }
    }
}

/// No sum of units overflows in `SUM` over the values, up to the first
/// value it refuses (the decimal sum panics when it does).
pub open spec fn sum_defined(vs: Seq<Value>) -> bool
    decreases vs.len(),
{
    vs.len() == 0 || (sum_defined(vs.drop_last()) && (sum_items(vs) matches Ok(items) ==> sum_lots(items) is Some))
}

/// The outcome of `SUM`: an inventory with the positions the items add up
/// to (positions of the same lot merged, as `sum_lots` states), or the
/// error.
pub open spec fn sum_result_ok(res: Result<Value, QueryError>, arg_count: nat, vs: Seq<Value>) -> bool {
    if arg_count != 1 {
        res matches Err(e) && e.spec() == QueryErrorSpec::InvalidArguments("SUM"@, "expected 1 argument"@)
    } else {
        match sum_items(vs) {
            Err(e) => res matches Err(x) && x.spec() == e,
            Ok(items) => res matches Ok(Value::Inventory(ps)) && sum_lots(items) == Some(
                lots(ps@),
            ),
        }
    }
}

/// Whether two costs are the same.
fn same_cost_exec(a: &Option<Cost>, b: &Option<Cost>) -> (res: bool)
    requires
        a matches Some(x) ==> x.number.wf(),
        b matches Some(y) ==> y.number.wf(),
    ensures
        res == same_cost(*a, *b),
{
    match (a, b) {
        (None, None) => true,
        (Some(x), Some(y)) => {
            if !x.number.eq_value(&y.number) || !str_eq(x.currency.as_str(), y.currency.as_str()) || x.date != y.date {
                return false;
            }
            match (&x.label, &y.label) {
                (None, None) => true,
                (Some(l), Some(m)) => str_eq(l.as_str(), m.as_str()),
                _ => false,
            }
        },
        _ => false,
    }
}

/// The positions of an inventory are well formed.
pub open spec fn lots_wf(ps: Seq<Position>) -> bool {
    forall|i: int| 0 <= i < ps.len() ==> (#[trigger] ps[i]).units.number.wf()
        && (ps[i].cost matches Some(c) ==> c.number.wf())
}

proof fn lemma_lot_index_map(ps: Seq<Position>, x: Lot)
    ensures
        lot_index(lots(ps), x) matches Some(i) ==> 0 <= i < ps.len() && same_lot(lot_of(ps[i]), x)
            && forall|j: int| 0 <= j < i ==> !same_lot(lot_of(#[trigger] ps[j]), x),
        lot_index(lots(ps), x) is None ==> forall|j: int| 0 <= j < ps.len() ==> !same_lot(
            lot_of(#[trigger] ps[j]),
            x,
        ),
    decreases ps.len(),
{
    if ps.len() > 0 {
        lemma_lot_index_map(ps.drop_first(), x);
        assert(lots(ps).drop_first() =~= lots(ps.drop_first()));
        assert forall|j: int| 0 < j < ps.len() implies ps[j] == ps.drop_first()[j - 1] by {}
    }
}

/// The place of the first position of the same lot as `x`.
pub(crate) fn find_lot(ps: &Vec<Position>, x: &Position) -> (res: Option<usize>)
    requires
        lots_wf(ps@),
        x.cost matches Some(c) ==> c.number.wf(),
    ensures
        match res {
            Some(i) => lot_index(lots(ps@), lot_of(*x)) == Some(i as int),
            None => lot_index(lots(ps@), lot_of(*x)) is None,
        },
        res matches Some(i) ==> i < ps@.len(),
{
    proof {
        lemma_lot_index_map(ps@, lot_of(*x));
    }
    let n = ps.len();
    let mut i: usize = 0;
    while i < n
        invariant
            n == ps@.len(),
            i <= n,
            lots_wf(ps@),
            x.cost matches Some(c) ==> c.number.wf(),
            forall|j: int| 0 <= j < i ==> !same_lot(lot_of(#[trigger] ps@[j]), lot_of(*x)),
        decreases n - i,
    {
        assert(ps@[i as int].units.number.wf());
        if str_eq(ps[i].units.currency.as_str(), x.units.currency.as_str()) && same_cost_exec(&ps[i].cost, &x.cost) {
            proof {
                lemma_lot_index_map(ps@, lot_of(*x));
                match lot_index(lots(ps@), lot_of(*x)) {
                    Some(k) => {
                        if k < i {
                            assert(!same_lot(lot_of(ps@[k]), lot_of(*x)));
                        }
                        if k > i {
                            assert(!same_lot(lot_of(ps@[i as int]), lot_of(*x)));
                        }
                    },
                    None => {
                        assert(!same_lot(lot_of(ps@[i as int]), lot_of(*x)));
                    },
                }
            }
            return Some(i);
        }
        i = i + 1;
    }
    proof {
        lemma_lot_index_map(ps@, lot_of(*x));
        if let Some(k) = lot_index(lots(ps@), lot_of(*x)) {
            assert(!same_lot(lot_of(ps@[k]), lot_of(*x)));
        }
    }
    None
}

/// The position of the same lot as `p` at `i`, with the units of `p` added.
pub open spec fn merged_at(s: Seq<Position>, i: int, p: Position) -> Position {
    Position {
        units: Amount {
            number: decimal_checked_add(s[i].units.number, p.units.number)->Some_0,
            currency: s[i].units.currency,
        },
        cost: s[i].cost,
    }
}

/// A position added to an inventory: merged into the first position of the
/// same lot, or put at the end when there is none.
pub open spec fn inv_add(s: Seq<Position>, p: Position) -> Seq<Position> {
    match lot_index(lots(s), lot_of(p)) {
        Some(i) => s.update(i, merged_at(s, i, p)),
        None => s.push(p),
    }
}

/// Adding a position to an inventory does not overflow.
pub open spec fn inv_add_defined(s: Seq<Position>, p: Position) -> bool {
    lot_index(lots(s), lot_of(p)) matches Some(i) ==> decimal_checked_add(s[i].units.number, p.units.number) is Some
}

/// `inv_add` on positions is `add_lot` on their plain parts.
pub proof fn lemma_inv_add_lots(s: Seq<Position>, p: Position)
    ensures
        inv_add_defined(s, p) == add_lot(lots(s), lot_of(p)) is Some,
        inv_add_defined(s, p) ==> add_lot(lots(s), lot_of(p)) == Some(lots(inv_add(s, p))),
{
    lemma_lot_index_map(s, lot_of(p));
    match lot_index(lots(s), lot_of(p)) {
        Some(i) => {
            assert(lots(s)[i] == lot_of(s[i]));
            if inv_add_defined(s, p) {
                assert(lots(inv_add(s, p)) =~= lots(s).update(
                    i,
                    Lot { number: decimal_checked_add(s[i].units.number, p.units.number)->Some_0, currency: lots(s)[i].currency, cost: lots(s)[i].cost },
                ));
            }
        },
        None => {
            assert(lots(inv_add(s, p)) =~= lots(s).push(lot_of(p)));
        },
    }
}

/// Add a position to an inventory, merging it into the first position of
/// the same lot.
pub(crate) fn add_to_inventory(ps: &mut Vec<Position>, x: Position)
    requires
        lots_wf(old(ps)@),
        x.units.number.wf(),
        x.cost matches Some(c) ==> c.number.wf(),
        inv_add_defined(old(ps)@, x),
    ensures
        lots_wf(final(ps)@),
        final(ps)@ == inv_add(old(ps)@, x),
        Some(lots(final(ps)@)) == add_lot(lots(old(ps)@), lot_of(x)),
{
    proof {
        lemma_inv_add_lots(old(ps)@, x);
    }
    let ghost before = ps@;
    let ghost lv = lots(before);
    match find_lot(ps, &x) {
        Some(i) => {
            proof {
                lemma_lot_index_map(before, lot_of(x));
                assert(lv[i as int] == lot_of(before[i as int]));
            }
            assert(before[i as int].units.number.wf());
            let t = match checked_add(ps[i].units.number, x.units.number) {
                Some(t) => t,
                None => {
                    assert(false);
                    return;
                },
            };
            let merged = Position {
                units: Amount { number: t, currency: ps[i].units.currency.clone() },
                cost: copy_cost(&ps[i].cost),
            };
            ps.set(i, merged);
            proof {
                assert(ps@ =~= before.update(i as int, merged));
                assert(merged == merged_at(before, i as int, x));
                assert(lots(ps@) =~= lv.update(
                    i as int,
                    Lot { number: t, currency: lv[i as int].currency, cost: lv[i as int].cost },
                ));
                assert(lots_wf(ps@)) by {
                    assert forall|j: int| 0 <= j < ps@.len() implies (#[trigger] ps@[j]).units.number.wf()
                        && (ps@[j].cost matches Some(c) ==> c.number.wf()) by {
                        if j != i {
                            assert(ps@[j] == before[j]);
                        }
                    }
                }
            }
        },
        None => {
            ps.push(x);
            proof {
                assert(lots(ps@) =~= lv.push(lot_of(x)));
                assert(ps@ == inv_add(before, x));
                assert(lots_wf(ps@)) by {
                    assert forall|j: int| 0 <= j < ps@.len() implies (#[trigger] ps@[j]).units.number.wf()
                        && (ps@[j].cost matches Some(c) ==> c.number.wf()) by {
                        if j < before.len() {
                            assert(ps@[j] == before[j]);
                        }
                    }
                }
            }
        },
    }
}

/// A copy of a cost.
pub(crate) fn copy_cost(c: &Option<Cost>) -> (res: Option<Cost>)
    ensures
        res == *c,
{
    match c {
        Some(c) => Some(Cost {
            number: c.number,
            currency: c.currency.clone(),
            date: c.date,
            label: match &c.label {
                Some(l) => Some(l.clone()),
                None => None,
            },
        }),
        None => None,
    }
}

/// Once a prefix of the values fails, `SUM` fails with that error.
proof fn lemma_sum_err_stays(vs: Seq<Value>, k: int)
    requires
        0 <= k <= vs.len(),
        sum_items(vs.subrange(0, k)) is Err,
    ensures
        sum_items(vs) == sum_items(vs.subrange(0, k)),
    decreases vs.len() - k,
{
    if k < vs.len() {
        let next = vs.subrange(0, k + 1);
        assert(next.drop_last() =~= vs.subrange(0, k));
        lemma_sum_err_stays(vs, k + 1);
    } else {
        assert(vs.subrange(0, k) =~= vs);
    }
}

/// When the sum over the values is defined, so is the sum over a prefix.
proof fn lemma_sum_prefix_defined(vs: Seq<Value>, k: int)
    requires
        0 <= k <= vs.len(),
        sum_defined(vs),
    ensures
        sum_defined(vs.subrange(0, k)),
        sum_items(vs.subrange(0, k)) matches Ok(items) ==> sum_lots(items) is Some,
    decreases vs.len() - k,
{
    if k < vs.len() {
        assert(vs.drop_last() =~= vs.subrange(0, vs.len() - 1));
        lemma_sum_prefix_defined(vs.drop_last(), k);
        assert(vs.drop_last().subrange(0, k) =~= vs.subrange(0, k));
    } else {
        assert(vs.subrange(0, k) =~= vs);
    }
}

/// `SUM` over the values: an inventory of the amounts, positions and numbers,
/// positions of the same lot merged.
fn sum_values(values: &[Value]) -> (res: Result<Value, QueryError>)
    requires
        forall|i: int| 0 <= i < values@.len() ==> value_wf(#[trigger] values@[i]),
        sum_defined(values@),
    ensures
        sum_result_ok(res, 1, values@),
{
    let mut ps: Vec<Position> = Vec::new();
    let n = values.len();
    let mut i: usize = 0;
    let ghost items: Seq<SumItem> = Seq::empty();
    assert(values@.subrange(0, 0) =~= Seq::<Value>::empty());
    assert(lots(ps@) =~= Seq::<Lot>::empty());
    while i < n
        invariant
            n == values@.len(),
            i <= n,
            forall|j: int| 0 <= j < values@.len() ==> value_wf(#[trigger] values@[j]),
            sum_defined(values@),
            sum_items(values@.subrange(0, i as int)) == Ok::<Seq<SumItem>, QueryErrorSpec>(items),
            lots_wf(ps@),
            sum_lots(items) == Some(lots(ps@)),
        decreases n - i,
    {
        let ghost pre = values@.subrange(0, i + 1);
        proof {
            assert(pre.drop_last() =~= values@.subrange(0, i as int));
            assert(pre.last() == values@[i as int]);
            assert(value_wf(values@[i as int]));
        }
        let item: Option<Position> = match &values[i] {
            Value::Amount(a) => Some(Position { units: copy_amount(a), cost: None }),
            Value::Position(p) => Some(copy_position(p)),
            Value::Number(d) => Some(Position { units: Amount { number: *d, currency: string_of("__NUMBER__") }, cost: None }),
            Value::Null => None,
            _ => {
                proof {
                    lemma_sum_err_stays(values@, i as int + 1);
                }
                return Err(type_error("SUM requires numeric or position value"));
            },
        };
        let ghost it: SumItem = match values@[i as int] {
            Value::Amount(a) => SumItem::Pos(Position { units: a, cost: None }),
            Value::Position(p) => SumItem::Pos(p),
            Value::Number(d) => SumItem::Num(d),
            _ => SumItem::Num(Dec { mantissa: 0, scale: 0 }),
        };
        if let Some(x) = item {
            proof {
                let next = items.push(it);
                assert(next.drop_last() =~= items);
                assert(lot_of(x) == item_lot(it));
                lemma_sum_prefix_defined(values@, i as int + 1);
                assert(sum_lots(next) is Some);
                items = next;
            }
            proof {
                lemma_inv_add_lots(ps@, x);
            }
            add_to_inventory(&mut ps, x);
        }
        i = i + 1;
    }
    assert(values@.subrange(0, n as int) =~= values@);
    Ok(Value::Inventory(ps))
}

/// Evaluate the aggregate functions `COUNT`, `SUM`, `FIRST`, `LAST`, `MIN`,
/// `MAX` and `AVG` over a group, on the argument evaluated for each row.
/// `FIRST` and `LAST` take the row of the earliest (the first of them) or
/// latest (the last of them) transaction date.
pub fn aggregate_on_values(name: &str, arg_count: usize, values: &[Value], dates: &[Date]) -> (res: Result<Value, QueryError>)
    requires
        name@ == "COUNT"@ || name@ == "SUM"@ || name@ == "FIRST"@ || name@ == "LAST"@ || name@ == "MIN"@ || name@
            == "MAX"@ || name@ == "AVG"@,
        values@.len() == dates@.len(),
        forall|i: int| 0 <= i < values@.len() ==> value_wf(#[trigger] values@[i]),
        name@ == "AVG"@ ==> avg_defined(values@),
        name@ == "SUM"@ ==> sum_defined(values@),
    ensures
        name@ != "SUM"@ ==> rview(res) == aggregate_spec(name@, arg_count as nat, values@, dates@),
        name@ == "SUM"@ ==> sum_result_ok(res, arg_count as nat, values@),
{
    proof {
        reveal_strlit("SUM");
        reveal_strlit("COUNT");
        assert("SUM"@.len() != "COUNT"@.len());
    }
    if str_eq(name, "COUNT") {
        return Ok(Value::Integer(values.len() as i64));
    }
    if arg_count != 1 {
        return Err(QueryError::InvalidArguments(string_of(name), string_of("expected 1 argument")));
    }
    if str_eq(name, "SUM") {
        return sum_values(values);
    }
    if str_eq(name, "FIRST") || str_eq(name, "LAST") {
        let pick = if str_eq(name, "FIRST") { earliest(dates) } else { latest(dates) };
        return match pick {
            Some(i) => Ok(copy_value(&values[i])),
            None => Ok(Value::Null),
        };
    }
    if str_eq(name, "MIN") || str_eq(name, "MAX") {
        return match extreme(values, str_eq(name, "MIN")) {
            Ok(Some(v)) => Ok(v),
            Ok(None) => Ok(Value::Null),
            Err(e) => Err(e),
        };
    }
    average(values)
}

/// Once `SUM` has refused a value, the sum over all the values is defined
/// when it was up to there.
proof fn lemma_sum_defined_after_err(vs: Seq<Value>, k: int)
    requires
        0 < k <= vs.len(),
        sum_defined(vs.subrange(0, k)),
        sum_items(vs.subrange(0, k)) is Err,
    ensures
        sum_defined(vs),
    decreases vs.len() - k,
{
    if k < vs.len() {
        lemma_sum_err_stays(vs, k);
        assert(vs.drop_last() =~= vs.subrange(0, vs.len() - 1));
        assert(vs.drop_last().subrange(0, k) =~= vs.subrange(0, k));
        lemma_sum_defined_after_err(vs.drop_last(), k);
    } else {
        assert(vs.subrange(0, k) =~= vs);
    }
}

/// Add a position to an inventory unless the sum of units overflows; tells
/// whether it was added (the inventory is left as it was when not).
fn try_add_to_inventory(ps: &mut Vec<Position>, x: Position) -> (res: bool)
    requires
        lots_wf(old(ps)@),
        x.units.number.wf(),
        x.cost matches Some(c) ==> c.number.wf(),
    ensures
        lots_wf(final(ps)@),
        res == add_lot(lots(old(ps)@), lot_of(x)) is Some,
        res ==> Some(lots(final(ps)@)) == add_lot(lots(old(ps)@), lot_of(x)),
        !res ==> final(ps)@ == old(ps)@,
{
    match find_lot(ps, &x) {
        Some(i) => {
            assert(ps@[i as int].units.number.wf());
            assert(lots(ps@)[i as int] == lot_of(ps@[i as int]));
            if checked_add(ps[i].units.number, x.units.number).is_none() {
                return false;
            }
        },
        None => {},
    }
    proof {
        lemma_inv_add_lots(ps@, x);
    }
    add_to_inventory(ps, x);
    true
}

/// Whether no sum of units overflows in `SUM` over the values.
fn sum_is_defined(values: &[Value]) -> (res: bool)
    requires
        forall|i: int| 0 <= i < values@.len() ==> value_wf(#[trigger] values@[i]),
    ensures
        res == sum_defined(values@),
{
    let mut ps: Vec<Position> = Vec::new();
    let n = values.len();
    let mut i: usize = 0;
    let ghost items: Seq<SumItem> = Seq::empty();
    assert(values@.subrange(0, 0) =~= Seq::<Value>::empty());
    assert(lots(ps@) =~= Seq::<Lot>::empty());
    while i < n
        invariant
            n == values@.len(),
            i <= n,
            forall|j: int| 0 <= j < values@.len() ==> value_wf(#[trigger] values@[j]),
            sum_defined(values@.subrange(0, i as int)),
            sum_items(values@.subrange(0, i as int)) == Ok::<Seq<SumItem>, QueryErrorSpec>(items),
            lots_wf(ps@),
            sum_lots(items) == Some(lots(ps@)),
        decreases n - i,
    {
        let ghost pre = values@.subrange(0, i + 1);
        proof {
            assert(pre.drop_last() =~= values@.subrange(0, i as int));
            assert(pre.last() == values@[i as int]);
            assert(value_wf(values@[i as int]));
        }
        let item: Option<Position> = match &values[i] {
            Value::Amount(a) => Some(Position { units: copy_amount(a), cost: None }),
            Value::Position(p) => Some(copy_position(p)),
            Value::Number(d) => Some(Position { units: Amount { number: *d, currency: string_of("__NUMBER__") }, cost: None }),
            Value::Null => None,
            _ => {
                proof {
                    lemma_sum_defined_after_err(values@, i as int + 1);
                }
                return true;
            },
        };
        let ghost it: SumItem = match values@[i as int] {
            Value::Amount(a) => SumItem::Pos(Position { units: a, cost: None }),
            Value::Position(p) => SumItem::Pos(p),
            Value::Number(d) => SumItem::Num(d),
            _ => SumItem::Num(Dec { mantissa: 0, scale: 0 }),
        };
        if let Some(x) = item {
            let ghost next = items.push(it);
            proof {
                assert(next.drop_last() =~= items);
                assert(lot_of(x) == item_lot(it));
            }
            if !try_add_to_inventory(&mut ps, x) {
                proof {
                    assert(sum_lots(next) is None);
                    assert(!sum_defined(pre));
                    if sum_defined(values@) {
                        lemma_sum_prefix_defined(values@, i + 1);
                    }
                }
                return false;
            }
            proof {
                items = next;
            }
        }
        i = i + 1;
    }
    assert(values@.subrange(0, n as int) =~= values@);
    true
}

/// Whether no sum overflows in `AVG` over the values and its final
/// division is defined.
fn avg_is_defined(values: &[Value]) -> (res: bool)
    requires
        forall|i: int| 0 <= i < values@.len() ==> value_wf(#[trigger] values@[i]),
    ensures
        res == avg_defined(values@),
{
    let mut sum = Dec::zero();
    let mut count: usize = 0;
    let n = values.len();
    let mut i: usize = 0;
    assert(values@.subrange(0, 0) =~= Seq::<Value>::empty());
    while i < n
        invariant
            n == values@.len(),
            i <= n,
            count <= i,
            forall|j: int| 0 <= j < values@.len() ==> value_wf(#[trigger] values@[j]),
            sum.wf(),
            avg_fold(values@.subrange(0, i as int)) == Ok::<Option<(Dec, int)>, QueryErrorSpec>(
                Some((sum, count as int)),
            ),
        decreases n - i,
    {
        assert(values@.subrange(0, i + 1).drop_last() =~= values@.subrange(0, i as int));
        assert(values@.subrange(0, i + 1).last() == values@[i as int]);
        assert(value_wf(values@[i as int]));
        let add = match &values[i] {
            Value::Number(x) => Some(*x),
            Value::Integer(k) => Some(Dec { mantissa: *k as i128, scale: 0 }),
            Value::Null => None,
            _ => {
                proof {
                    lemma_avg_error_stays(values@, i + 1);
                }
                return true;
            },
        };
        if let Some(x) = add {
            match checked_add(sum, x) {
                Some(t) => {
                    sum = t;
                    count = count + 1;
                },
                None => {
                    proof {
                        lemma_avg_overflow_stays(values@, i + 1);
                    }
                    return false;
                },
            }
        }
        i = i + 1;
    }
    assert(values@.subrange(0, n as int) =~= values@);
    if count == 0 {
        true
    } else {
        checked_div(sum, Dec { mantissa: count as i128, scale: 0 }).is_some()
    }
}

/// Evaluate an aggregate as `aggregate_on_values` does, where its decimal
/// sums and division are defined; `None` where a sum of `SUM` or `AVG`
/// overflows or the average's division is not defined (the decimal
/// operations panic there).
pub fn try_aggregate_on_values(name: &str, arg_count: usize, values: &[Value], dates: &[Date]) -> (res: Option<
    Result<Value, QueryError>,
>)
    requires
        name@ == "COUNT"@ || name@ == "SUM"@ || name@ == "FIRST"@ || name@ == "LAST"@ || name@ == "MIN"@ || name@
            == "MAX"@ || name@ == "AVG"@,
        values@.len() == dates@.len(),
        forall|i: int| 0 <= i < values@.len() ==> value_wf(#[trigger] values@[i]),
    ensures
        res is None <==> ((name@ == "AVG"@ && !avg_defined(values@)) || (name@ == "SUM"@ && !sum_defined(values@))),
        res matches Some(r) ==> (name@ != "SUM"@ ==> rview(r) == aggregate_spec(name@, arg_count as nat, values@, dates@)),
        res matches Some(r) ==> (name@ == "SUM"@ ==> sum_result_ok(r, arg_count as nat, values@)),
{
    if str_eq(name, "AVG") && !avg_is_defined(values) {
        return None;
    }
    if str_eq(name, "SUM") && !sum_is_defined(values) {
        return None;
    }
    Some(aggregate_on_values(name, arg_count, values, dates))
}

} // verus!
