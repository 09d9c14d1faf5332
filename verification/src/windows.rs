//! Window functions: the row number, rank and dense rank of each row within
//! its partition, in the order of the window's `ORDER BY` values.

use vstd::prelude::*;
use crate::account::views;
use crate::dec::Order;
use crate::ledger::{Amount, Cost, Position};
use crate::text::{str_eq, string_of, push_str, std_to_uppercase, to_uppercase};
use crate::value::{Value, QueryError, QueryErrorSpec, ValueView, rview, value_wf, sort_order_spec, compare_values_for_sort, reversed};
use crate::columns::WindowContext;

verus! {

/// Two costs are equal: the same number (by value), currency, date and
/// label.
pub open spec fn cost_same(a: Cost, b: Cost) -> bool {
    a.number.same_value(b.number) && a.currency@ == b.currency@ && a.date == b.date && match (a.label, b.label) {
        (Some(x), Some(y)) => x@ == y@,
        (None, None) => true,
        _ => false,
    }
}

/// Two positions are equal: the same units and the same cost.
pub open spec fn position_same(a: Position, b: Position) -> bool {
    a.units.number.same_value(b.units.number) && a.units.currency@ == b.units.currency@ && match (a.cost, b.cost) {
        (Some(x), Some(y)) => cost_same(x, y),
        (None, None) => true,
        _ => false,
    }
}

/// Two inventories are equal: the same positions in the same order.
pub open spec fn positions_same(a: Seq<Position>, b: Seq<Position>) -> bool {
    a.len() == b.len() && forall|i: int| 0 <= i < a.len() ==> position_same(#[trigger] a[i], b[i])
}

/// The equality of values that ties are judged by: the same kind of value
/// with equal contents, decimals compared by value.
pub open spec fn value_same(a: Value, b: Value) -> bool {
    match (a, b) {
        (Value::String(x), Value::String(y)) => x@ == y@,
        (Value::Number(x), Value::Number(y)) => x.same_value(y),
        (Value::Integer(x), Value::Integer(y)) => x == y,
        (Value::Date(x), Value::Date(y)) => x == y,
        (Value::Boolean(x), Value::Boolean(y)) => x == y,
        (Value::Amount(x), Value::Amount(y)) => x.number.same_value(y.number) && x.currency@ == y.currency@,
        (Value::Position(x), Value::Position(y)) => position_same(x, y),
        (Value::Inventory(x), Value::Inventory(y)) => positions_same(x@, y@),
        (Value::StringSet(x), Value::StringSet(y)) => views(x@) == views(y@),
        (Value::Interval(x), Value::Interval(y)) => x == y,
        (Value::Null, Value::Null) => true,
        _ => false,
    }
}

/// Two rows of `ORDER BY` values are equal: the same length and equal
/// values.
pub open spec fn rows_same(a: Seq<Value>, b: Seq<Value>) -> bool {
    a.len() == b.len() && forall|i: int| 0 <= i < a.len() ==> value_same(#[trigger] a[i], b[i])
}

/// The order of two rows by their `ORDER BY` values: the first pair of
/// values that do not sort equal decides, reversed for a descending column.
pub open spec fn row_order(a: Seq<Value>, b: Seq<Value>, desc: Seq<bool>) -> Order
    decreases a.len(),
{
    if a.len() == 0 || b.len() == 0 {
        Order::Equal
    } else {
        let c = sort_order_spec(a[0], b[0]);
        if c != Order::Equal {
            if desc.len() > 0 && desc[0] {
                reversed(c)
            } else {
                c
            }
        } else {
            row_order(a.drop_first(), b.drop_first(), if desc.len() > 0 { desc.drop_first() } else { desc })
        }
    }
}

/// Whether two costs are equal.
fn cost_equal(a: &Cost, b: &Cost) -> (res: bool)
    requires
        a.number.wf(),
        b.number.wf(),
    ensures
        res == cost_same(*a, *b),
{
    a.number.eq_value(&b.number) && str_eq(a.currency.as_str(), b.currency.as_str()) && a.date == b.date && match (
        &a.label,
        &b.label,
    ) {
        (Some(x), Some(y)) => str_eq(x.as_str(), y.as_str()),
        (None, None) => true,
        _ => false,
    }
}

/// Whether two positions are equal.
fn position_equal(a: &Position, b: &Position) -> (res: bool)
    requires
        a.units.number.wf(),
        b.units.number.wf(),
        a.cost matches Some(c) ==> c.number.wf(),
        b.cost matches Some(c) ==> c.number.wf(),
    ensures
        res == position_same(*a, *b),
{
    a.units.number.eq_value(&b.units.number) && str_eq(a.units.currency.as_str(), b.units.currency.as_str())
        && match (&a.cost, &b.cost) {
        (Some(x), Some(y)) => cost_equal(x, y),
        (None, None) => true,
        _ => false,
    }
}

/// Whether two values are equal.
pub fn value_equal(a: &Value, b: &Value) -> (res: bool)
    requires
        value_wf(*a),
        value_wf(*b),
    ensures
        res == value_same(*a, *b),
{
    match (a, b) {
        (Value::String(x), Value::String(y)) => str_eq(x.as_str(), y.as_str()),
        (Value::Number(x), Value::Number(y)) => x.eq_value(y),
        (Value::Integer(x), Value::Integer(y)) => *x == *y,
        (Value::Date(x), Value::Date(y)) => *x == *y,
        (Value::Boolean(x), Value::Boolean(y)) => *x == *y,
        (Value::Amount(x), Value::Amount(y)) => x.number.eq_value(&y.number) && str_eq(
            x.currency.as_str(),
            y.currency.as_str(),
        ),
        (Value::Position(x), Value::Position(y)) => position_equal(x, y),
        (Value::Inventory(x), Value::Inventory(y)) => {
            if x.len() != y.len() {
                assert(!positions_same(x@, y@));
                return false;
            }
            let n = x.len();
            let mut i: usize = 0;
            while i < n
                invariant
                    n == x@.len(),
                    n == y@.len(),
                    i <= n,
                    value_wf(*a),
                    value_wf(*b),
                    *a == Value::Inventory(*x),
                    *b == Value::Inventory(*y),
                    forall|j: int| 0 <= j < i ==> position_same(#[trigger] x@[j], y@[j]),
                decreases n - i,
            {
                if !position_equal(&x[i], &y[i]) {
                    assert(!position_same(x@[i as int], y@[i as int]));
                    assert(!positions_same(x@, y@));
                    return false;
                }
                i = i + 1;
            }
            true
        },
        (Value::StringSet(x), Value::StringSet(y)) => {
            if x.len() != y.len() {
                assert(views(x@).len() != views(y@).len());
                return false;
            }
            let n = x.len();
            let mut i: usize = 0;
            while i < n
                invariant
                    n == x@.len(),
                    n == y@.len(),
                    i <= n,
                    *a == Value::StringSet(*x),
                    *b == Value::StringSet(*y),
                    forall|j: int| 0 <= j < i ==> (#[trigger] x@[j])@ == y@[j]@,
                decreases n - i,
            {
                if !str_eq(x[i].as_str(), y[i].as_str()) {
                    assert(views(x@)[i as int] != views(y@)[i as int]);
                    assert(!value_same(*a, *b));
                    return false;
                }
                i = i + 1;
            }
            assert(views(x@) =~= views(y@));
            true
        },
        (Value::Interval(x), Value::Interval(y)) => *x == *y,
        (Value::Null, Value::Null) => true,
        _ => false,
    }
}

/// The `ORDER BY` values of a row are well formed.
pub open spec fn row_wf(r: Seq<Value>) -> bool {
    forall|i: int| 0 <= i < r.len() ==> value_wf(#[trigger] r[i])
}

/// Whether two rows of values are equal.
fn row_equal(a: &Vec<Value>, b: &Vec<Value>) -> (res: bool)
    requires
        row_wf(a@),
        row_wf(b@),
    ensures
        res == rows_same(a@, b@),
{
    if a.len() != b.len() {
        return false;
    }
    let n = a.len();
    let mut i: usize = 0;
    while i < n
        invariant
            n == a@.len(),
            n == b@.len(),
            i <= n,
            row_wf(a@),
            row_wf(b@),
            forall|j: int| 0 <= j < i ==> value_same(#[trigger] a@[j], b@[j]),
        decreases n - i,
    {
        assert(value_wf(a@[i as int]) && value_wf(b@[i as int]));
        if !value_equal(&a[i], &b[i]) {
            return false;
        }
        i = i + 1;
    }
    true
}

/// The order of two rows by their `ORDER BY` values.
fn compare_rows(a: &Vec<Value>, b: &Vec<Value>, desc: &Vec<bool>) -> (res: Order)
    requires
        row_wf(a@),
        row_wf(b@),
    ensures
        res == row_order(a@, b@, desc@),
{
    let n = if a.len() < b.len() { a.len() } else { b.len() };
    let mut i: usize = 0;
    assert(a@.skip(0) =~= a@);
    assert(b@.skip(0) =~= b@);
    assert(desc@.skip(0) =~= desc@);
    while i < n
        invariant
            n <= a@.len(),
            n <= b@.len(),
            n == a@.len() || n == b@.len(),
            i <= n,
            row_wf(a@),
            row_wf(b@),
            row_order(a@, b@, desc@) == row_order(
                a@.skip(i as int),
                b@.skip(i as int),
                if i <= desc@.len() { desc@.skip(i as int) } else { Seq::<bool>::empty() },
            ),
        decreases n - i,
    {
        let ghost da = if i <= desc@.len() { desc@.skip(i as int) } else { Seq::<bool>::empty() };
        assert(a@.skip(i as int)[0] == a@[i as int]);
        assert(b@.skip(i as int)[0] == b@[i as int]);
        assert(value_wf(a@[i as int]) && value_wf(b@[i as int]));
        let c = compare_values_for_sort(&a[i], &b[i]);
        if c != Order::Equal {
            if i < desc.len() && desc[i] {
                assert(da[0] == desc@[i as int]);
                return match c {
                    Order::Less => Order::Greater,
                    Order::Greater => Order::Less,
                    Order::Equal => Order::Equal,
                };
            }
            if i < desc.len() {
                assert(da[0] == desc@[i as int]);
            }
            return c;
        }
        assert(a@.skip(i as int).drop_first() =~= a@.skip(i + 1));
        assert(b@.skip(i as int).drop_first() =~= b@.skip(i + 1));
        if i < desc.len() {
            assert(da.drop_first() =~= desc@.skip(i + 1));
        } else {
            assert(da.len() == 0);
            assert(da =~= Seq::<bool>::empty());
        }
        i = i + 1;
    }
    Order::Equal
}

/// `x` inserted into the sorted indices `s` after the last one whose row is
/// not greater than the row of `x`.
pub open spec fn insert_row(s: Seq<usize>, x: usize, rows: Seq<Vec<Value>>, desc: Seq<bool>) -> Seq<usize>
    decreases s.len(),
{
    if s.len() == 0 {
        seq![x]
    } else if row_order(rows[s.last() as int]@, rows[x as int]@, desc) == Order::Greater {
        insert_row(s.drop_last(), x, rows, desc).push(s.last())
    } else {
        s.push(x)
    }
}

/// Indices sorted by their rows, stably: each is inserted after the ones
/// before it that are not greater.
pub open spec fn sort_indices(idx: Seq<usize>, rows: Seq<Vec<Value>>, desc: Seq<bool>) -> Seq<usize>
    decreases idx.len(),
{
    if idx.len() == 0 {
        Seq::empty()
    } else {
        insert_row(sort_indices(idx.drop_last(), rows, desc), idx.last(), rows, desc)
    }
}

/// Inserting at the place found from the end.
proof fn lemma_insert_row_at(s: Seq<usize>, x: usize, rows: Seq<Vec<Value>>, desc: Seq<bool>, p: int)
    requires
        0 <= p <= s.len(),
        forall|j: int| p <= j < s.len() ==> row_order(rows[#[trigger] s[j] as int]@, rows[x as int]@, desc) == Order::Greater,
        p == 0 || row_order(rows[s[p - 1] as int]@, rows[x as int]@, desc) != Order::Greater,
    ensures
        insert_row(s, x, rows, desc) == s.insert(p, x),
    decreases s.len() - p,
{
    if p == s.len() {
        if s.len() > 0 {
            assert(s.insert(p, x) =~= s.push(x));
        } else {
            assert(s.insert(p, x) =~= seq![x]);
        }
    } else {
        let t = s.drop_last();
        assert forall|j: int| p <= j < t.len() implies row_order(rows[#[trigger] t[j] as int]@, rows[x as int]@, desc)
            == Order::Greater by {
            assert(t[j] == s[j]);
        }
        if p > 0 {
            assert(t[p - 1] == s[p - 1]);
        }
        lemma_insert_row_at(t, x, rows, desc, p);
        assert(s[s.len() - 1] == s.last());
        assert(s.insert(p, x) =~= t.insert(p, x).push(s.last()));
    }
}

/// Inserting adds `x` and keeps the other indices; without repeats before,
/// there are none after when `x` was not among them.
proof fn lemma_insert_row_contents(s: Seq<usize>, x: usize, rows: Seq<Vec<Value>>, desc: Seq<bool>)
    ensures
        insert_row(s, x, rows, desc).len() == s.len() + 1,
        forall|y: usize| insert_row(s, x, rows, desc).contains(y) <==> (s.contains(y) || y == x),
        s.no_duplicates() && !s.contains(x) ==> insert_row(s, x, rows, desc).no_duplicates(),
    decreases s.len(),
{
    if s.len() > 0 {
        let t = s.drop_last();
        lemma_insert_row_contents(t, x, rows, desc);
        assert(s =~= t.push(s.last()));
        assert forall|y: usize| s.contains(y) <==> (t.contains(y) || y == s.last()) by {
            if s.contains(y) {
                let k = choose|k: int| 0 <= k < s.len() && s[k] == y;
                if k < t.len() {
                    assert(t[k] == y);
                }
            }
            if t.contains(y) {
                let k = choose|k: int| 0 <= k < t.len() && t[k] == y;
                assert(s[k] == y);
            }
        }
        if row_order(rows[s.last() as int]@, rows[x as int]@, desc) == Order::Greater {
            let u = insert_row(t, x, rows, desc);
            assert forall|y: usize| u.push(s.last()).contains(y) <==> (u.contains(y) || y == s.last()) by {
                if u.push(s.last()).contains(y) {
                    let k = choose|k: int| 0 <= k < u.len() + 1 && u.push(s.last())[k] == y;
                    if k < u.len() {
                        assert(u[k] == y);
                    }
                }
                if u.contains(y) {
                    let k = choose|k: int| 0 <= k < u.len() && u[k] == y;
                    assert(u.push(s.last())[k] == y);
                }
                if y == s.last() {
                    assert(u.push(s.last())[u.len() as int] == y);
                }
            }
            if s.no_duplicates() && !s.contains(x) {
                assert(t.no_duplicates()) by {
                    assert forall|a: int, b: int| 0 <= a < t.len() && 0 <= b < t.len() && a != b implies t[a] != t[b] by {
                        assert(t[a] == s[a] && t[b] == s[b]);
                    }
                }
                assert(!t.contains(x)) by {
                    if t.contains(x) {
                        let k = choose|k: int| 0 <= k < t.len() && t[k] == x;
                        assert(s[k] == x);
                    }
                }
                assert(!u.contains(s.last())) by {
                    if u.contains(s.last()) {
                        if t.contains(s.last()) {
                            let k = choose|k: int| 0 <= k < t.len() && t[k] == s.last();
                            assert(s[k] == s[s.len() - 1]);
                        }
                        assert(s.contains(x)) by {
                            assert(s[s.len() - 1] == x);
                        }
                    }
                }
                assert(u.push(s.last()).no_duplicates()) by {
                    assert forall|a: int, b: int|
                        0 <= a < u.len() + 1 && 0 <= b < u.len() + 1 && a != b implies u.push(s.last())[a] != u.push(
                        s.last(),
                    )[b] by {
                        if a < u.len() && b < u.len() {
                            assert(u.push(s.last())[a] == u[a]);
                            assert(u.push(s.last())[b] == u[b]);
                        } else if a < u.len() {
                            assert(u.push(s.last())[a] == u[a]);
                            assert(u.contains(u[a]));
                        } else {
                            assert(u.push(s.last())[b] == u[b]);
                            assert(u.contains(u[b]));
                        }
                    }
                }
            }
        } else {
            assert forall|y: usize| s.push(x).contains(y) <==> (s.contains(y) || y == x) by {
                if s.push(x).contains(y) {
                    let k = choose|k: int| 0 <= k < s.len() + 1 && s.push(x)[k] == y;
                    if k < s.len() {
                        assert(s[k] == y);
                    }
                }
                if s.contains(y) {
                    let k = choose|k: int| 0 <= k < s.len() && s[k] == y;
                    assert(s.push(x)[k] == y);
                }
                if y == x {
                    assert(s.push(x)[s.len() as int] == y);
                }
            }
            if s.no_duplicates() && !s.contains(x) {
                assert(s.push(x).no_duplicates()) by {
                    assert forall|a: int, b: int|
                        0 <= a < s.len() + 1 && 0 <= b < s.len() + 1 && a != b implies s.push(x)[a] != s.push(x)[b] by {
                        if a < s.len() && b < s.len() {
                            assert(s.push(x)[a] == s[a]);
                            assert(s.push(x)[b] == s[b]);
                        } else if a < s.len() {
                            assert(s.push(x)[a] == s[a]);
                            assert(s.contains(s[a]));
                        } else {
                            assert(s.push(x)[b] == s[b]);
                            assert(s.contains(s[b]));
                        }
                    }
                }
            }
        }
    } else {
        assert forall|y: usize| seq![x].contains(y) <==> y == x by {
            if y == x {
                assert(seq![x][0] == y);
            }
        }
    }
}

/// Insert an index into sorted indices.
fn insert_index(v: &mut Vec<usize>, x: usize, rows: &[Vec<Value>], desc: &Vec<bool>)
    requires
        forall|j: int| 0 <= j < old(v)@.len() ==> (#[trigger] old(v)@[j]) < rows@.len(),
        x < rows@.len(),
        forall|j: int| 0 <= j < rows@.len() ==> row_wf((#[trigger] rows@[j])@),
    ensures
        final(v)@ == insert_row(old(v)@, x, rows@, desc@),
{
    let ghost s = v@;
    let mut p = v.len();
    while p > 0
        invariant
            p <= v@.len(),
            v@ == s,
            forall|j: int| 0 <= j < s.len() ==> (#[trigger] s[j]) < rows@.len(),
            x < rows@.len(),
            forall|j: int| 0 <= j < rows@.len() ==> row_wf((#[trigger] rows@[j])@),
            forall|j: int| p <= j < s.len() ==> row_order(rows@[#[trigger] s[j] as int]@, rows@[x as int]@, desc@)
                == Order::Greater,
        ensures
            p == 0 || row_order(rows@[s[p - 1] as int]@, rows@[x as int]@, desc@) != Order::Greater,
        decreases p,
    {
        let y = v[p - 1];
        assert(row_wf(rows@[y as int]@) && row_wf(rows@[x as int]@));
        if compare_rows(&rows[y], &rows[x], desc) != Order::Greater {
            break;
        }
        p = p - 1;
    }
    proof {
        lemma_insert_row_at(s, x, rows@, desc@, p as int);
    }
    v.insert(p, x);
}

/// The rows whose partition key is `k`, among the first `n`, in increasing
/// order.
pub open spec fn members(keys: Seq<Seq<char>>, k: Seq<char>, n: nat) -> Seq<usize>
    decreases n,
{
    if n == 0 {
        Seq::empty()
    } else {
        let m = members(keys, k, (n - 1) as nat);
        if keys[n - 1] == k {
            m.push((n - 1) as usize)
        } else {
            m
        }
    }
}

/// The rows of the partition of row `r`, sorted by their `ORDER BY` values.
pub open spec fn window_sorted(keys: Seq<String>, rows: Seq<Vec<Value>>, desc: Seq<bool>, r: int) -> Seq<usize> {
    sort_indices(members(views(keys), keys[r]@, keys.len()), rows, desc)
}

/// The row at position `k` of the sorted partition `s` does not tie with
/// the row before it.
pub open spec fn starts_group(s: Seq<usize>, rows: Seq<Vec<Value>>, k: int) -> bool {
    k > 0 && !rows_same(rows[s[k] as int]@, rows[s[k - 1] as int]@)
}

/// The rank at position `k` of a sorted partition: one more than the
/// position where its group of ties starts.
pub open spec fn rank_at(s: Seq<usize>, rows: Seq<Vec<Value>>, k: int) -> int
    decreases k,
{
    if k <= 0 {
        1
    } else if starts_group(s, rows, k) {
        k + 1
    } else {
        rank_at(s, rows, k - 1)
    }
}

/// The dense rank at position `k` of a sorted partition: one more than the
/// number of group starts up to it.
pub open spec fn dense_at(s: Seq<usize>, rows: Seq<Vec<Value>>, k: int) -> int
    decreases k,
{
    if k <= 0 {
        1
    } else {
        dense_at(s, rows, k - 1) + if starts_group(s, rows, k) {
            1int
        } else {
            0int
        }
    }
}

/// The window context of row `r`: its position in its sorted partition,
/// counted from one, and the rank and dense rank at that position.
pub open spec fn window_entry(
    keys: Seq<String>,
    rows: Seq<Vec<Value>>,
    desc: Seq<bool>,
    r: int,
    c: WindowContext,
) -> bool {
    let s = window_sorted(keys, rows, desc, r);
    &&& 1 <= c.row_number <= s.len()
    &&& s[c.row_number - 1] == r
    &&& c.rank == rank_at(s, rows, c.row_number - 1)
    &&& c.dense_rank == dense_at(s, rows, c.row_number - 1)
}

/// The members of a partition are the rows below `n` with that key, each
/// once.
pub(crate) proof fn lemma_members(keys: Seq<Seq<char>>, k: Seq<char>, n: nat)
    requires
        n <= keys.len(),
        n <= usize::MAX,
    ensures
        members(keys, k, n).no_duplicates(),
        forall|y: usize| #[trigger] members(keys, k, n).contains(y) <==> (y < n && keys[y as int] == k),
    decreases n,
{
    if n > 0 {
        let m = members(keys, k, (n - 1) as nat);
        lemma_members(keys, k, (n - 1) as nat);
        if keys[n - 1] == k {
            let x = (n - 1) as usize;
            assert forall|y: usize| m.push(x).contains(y) <==> (m.contains(y) || y == x) by {
                if m.push(x).contains(y) {
                    let j = choose|j: int| 0 <= j < m.len() + 1 && m.push(x)[j] == y;
                    if j < m.len() {
                        assert(m[j] == y);
                    }
                }
                if m.contains(y) {
                    let j = choose|j: int| 0 <= j < m.len() && m[j] == y;
                    assert(m.push(x)[j] == y);
                }
                if y == x {
                    assert(m.push(x)[m.len() as int] == y);
                }
            }
            assert(members(keys, k, n) == m.push(x));
            assert forall|y: usize| #[trigger] members(keys, k, n).contains(y) <==> (y < n && keys[y as int] == k) by {
                assert(m.push(x).contains(y) <==> (m.contains(y) || y == x));
                assert(m.contains(y) <==> (y < n - 1 && keys[y as int] == k));
            }
            assert(m.push(x).no_duplicates()) by {
                assert forall|a: int, b: int|
                    0 <= a < m.len() + 1 && 0 <= b < m.len() + 1 && a != b implies m.push(x)[a] != m.push(x)[b] by {
                    if a < m.len() {
                        assert(m.push(x)[a] == m[a]);
                        assert(m.contains(m[a]));
                    }
                    if b < m.len() {
                        assert(m.push(x)[b] == m[b]);
                        assert(m.contains(m[b]));
                    }
                }
            }
        } else {
            assert(members(keys, k, n) == m);
            assert forall|y: usize| m.contains(y) <==> (y < n && keys[y as int] == k) by {
                if y < n && keys[y as int] == k {
                    assert(y != n - 1);
                }
            }
            assert forall|y: usize| #[trigger] members(keys, k, n).contains(y) <==> (y < n && keys[y as int] == k) by {
                assert(m.contains(y) <==> (y < n && keys[y as int] == k));
            }
        }
    }
}

/// Sorting keeps the indices: the same ones, each once.
proof fn lemma_sort_contents(idx: Seq<usize>, rows: Seq<Vec<Value>>, desc: Seq<bool>)
    requires
        idx.no_duplicates(),
    ensures
        sort_indices(idx, rows, desc).len() == idx.len(),
        sort_indices(idx, rows, desc).no_duplicates(),
        forall|y: usize| sort_indices(idx, rows, desc).contains(y) <==> idx.contains(y),
    decreases idx.len(),
{
    if idx.len() > 0 {
        let t = idx.drop_last();
        let x = idx.last();
        assert(t.no_duplicates()) by {
            assert forall|a: int, b: int| 0 <= a < t.len() && 0 <= b < t.len() && a != b implies t[a] != t[b] by {
                assert(t[a] == idx[a] && t[b] == idx[b]);
            }
        }
        lemma_sort_contents(t, rows, desc);
        assert forall|y: usize| idx.contains(y) <==> (t.contains(y) || y == x) by {
            if idx.contains(y) {
                let j = choose|j: int| 0 <= j < idx.len() && idx[j] == y;
                if j < t.len() {
                    assert(t[j] == y);
                }
            }
            if t.contains(y) {
                let j = choose|j: int| 0 <= j < t.len() && t[j] == y;
                assert(idx[j] == y);
            }
            if y == x {
                assert(idx[idx.len() - 1] == y);
            }
        }
        assert(!t.contains(x)) by {
            if t.contains(x) {
                let j = choose|j: int| 0 <= j < t.len() && t[j] == x;
                assert(idx[j] == idx[idx.len() - 1]);
            }
        }
        lemma_insert_row_contents(sort_indices(t, rows, desc), x, rows, desc);
    }
}

/// The ranks never pass the position counted from one.
proof fn lemma_rank_bounds(s: Seq<usize>, rows: Seq<Vec<Value>>, k: int)
    requires
        k >= 0,
    ensures
        1 <= rank_at(s, rows, k) <= k + 1,
        1 <= dense_at(s, rows, k) <= k + 1,
    decreases k,
{
    if k > 0 {
        lemma_rank_bounds(s, rows, k - 1);
    }
}

/// The row number, rank and dense rank of each row within its partition:
/// rows with the same partition key form a partition, sorted stably by
/// their `ORDER BY` values (a descending column reversed); ranks go up
/// where a row's values differ from those of the row before it.
pub fn compute_window_contexts(keys: &Vec<String>, rows: &Vec<Vec<Value>>, desc: &Vec<bool>) -> (res: Vec<
    WindowContext,
>)
    requires
        rows@.len() == keys@.len(),
        forall|j: int| 0 <= j < rows@.len() ==> row_wf((#[trigger] rows@[j])@),
    ensures
        res@.len() == keys@.len(),
        forall|r: int| 0 <= r < keys@.len() ==> window_entry(keys@, rows@, desc@, r, #[trigger] res@[r]),
{
    let n = keys.len();
    let mut out: Vec<WindowContext> = Vec::new();
    let mut i: usize = 0;
    while i < n
        invariant
            n == keys@.len(),
            i <= n,
            out@.len() == i,
        decreases n - i,
    {
        out.push(WindowContext { row_number: 0, rank: 0, dense_rank: 0 });
        i = i + 1;
    }
    i = 0;
    while i < n
        invariant
            n == keys@.len(),
            n == rows@.len(),
            i <= n,
            out@.len() == n,
            forall|j: int| 0 <= j < rows@.len() ==> row_wf((#[trigger] rows@[j])@),
            forall|r: int|
                0 <= r < n && (exists|f: int| 0 <= f < i && #[trigger] keys@[f]@ == keys@[r]@) ==> window_entry(
                    keys@,
                    rows@,
                    desc@,
                    r,
                    #[trigger] out@[r],
                ),
        decreases n - i,
    {
        let mut first = true;
        let mut j: usize = 0;
        while j < i
            invariant
                i < n,
                n == keys@.len(),
                j <= i,
                first <==> forall|f: int| 0 <= f < j ==> keys@[f]@ != keys@[i as int]@,
            decreases i - j,
        {
            if str_eq(keys[j].as_str(), keys[i].as_str()) {
                first = false;
            }
            j = j + 1;
        }
        if first {
            let ghost k = keys@[i as int]@;
            let mut sorted: Vec<usize> = Vec::new();
            j = 0;
            while j < n
                invariant
                    n == keys@.len(),
                    n == rows@.len(),
                    i < n,
                    j <= n,
                    k == keys@[i as int]@,
                    forall|t: int| 0 <= t < rows@.len() ==> row_wf((#[trigger] rows@[t])@),
                    sorted@ == sort_indices(members(views(keys@), k, j as nat), rows@, desc@),
                    forall|t: int| 0 <= t < sorted@.len() ==> (#[trigger] sorted@[t]) < j,
                decreases n - j,
            {
                let ghost m = members(views(keys@), k, j as nat);
                proof {
                    lemma_members(views(keys@), k, j as nat);
                    lemma_sort_contents(m, rows@, desc@);
                    assert forall|t: int| 0 <= t < sorted@.len() implies (#[trigger] sorted@[t]) < j by {
                        assert(sorted@.contains(sorted@[t]));
                    }
                }
                if str_eq(keys[j].as_str(), keys[i].as_str()) {
                    proof {
                        assert(m.push(j).drop_last() =~= m);
                        assert(members(views(keys@), k, (j + 1) as nat) == m.push(j));
                        lemma_insert_row_contents(sorted@, j, rows@, desc@);
                    }
                    let ghost old_s = sorted@;
                    insert_index(&mut sorted, j, rows.as_slice(), desc);
                    proof {
                        let v = sorted@;
                        assert forall|t: int| 0 <= t < v.len() implies (#[trigger] v[t]) < j + 1 by {
                            assert(v.contains(v[t]));
                            if old_s.contains(v[t]) {
                                let u = choose|u: int| 0 <= u < old_s.len() && old_s[u] == v[t];
                                assert(old_s[u] < j);
                            }
                        }
                    }
                }
                j = j + 1;
            }
            proof {
                lemma_members(views(keys@), k, n as nat);
                lemma_sort_contents(members(views(keys@), k, n as nat), rows@, desc@);
                assert forall|y: usize| sorted@.contains(y) <==> (y < n && keys@[y as int]@ == k) by {
                    assert(sorted@.contains(y) <==> members(views(keys@), k, n as nat).contains(y));
                    if y < n {
                        assert(views(keys@)[y as int] == keys@[y as int]@);
                    }
                }
            }
            let ghost s = sorted@;
            let ghost old_out = out@;
            let len = sorted.len();
            let mut rank: usize = 1;
            let mut dense: usize = 1;
            let mut q: usize = 0;
            while q < len
                invariant
                    n == keys@.len(),
                    n == rows@.len(),
                    i < n,
                    len == s.len(),
                    s == sorted@,
                    q <= len,
                    k == keys@[i as int]@,
                    s == sort_indices(members(views(keys@), k, n as nat), rows@, desc@),
                    s.no_duplicates(),
                    forall|y: usize| s.contains(y) <==> (y < n && keys@[y as int]@ == k),
                    forall|t: int| 0 <= t < rows@.len() ==> row_wf((#[trigger] rows@[t])@),
                    out@.len() == n,
                    q > 0 ==> rank == rank_at(s, rows@, q - 1) && dense == dense_at(s, rows@, q - 1),
                    q == 0 ==> rank == 1 && dense == 1,
                    1 <= rank <= q + 1,
                    1 <= dense <= q + 1,
                    forall|r: int| 0 <= r < n && keys@[r]@ != k ==> out@[r] == old_out[r],
                    forall|t: int| 0 <= t < q ==> window_entry(keys@, rows@, desc@, #[trigger] s[t] as int, out@[s[t] as int]),
                decreases len - q,
            {
                let idx = sorted[q];
                assert(s.contains(idx));
                if q > 0 {
                    let prev = sorted[q - 1];
                    assert(s.contains(prev));
                    assert(row_wf(rows@[idx as int]@) && row_wf(rows@[prev as int]@));
                    proof {
                        lemma_rank_bounds(s, rows@, q - 1);
                    }
                    if !row_equal(&rows[idx], &rows[prev]) {
                        rank = q + 1;
                        dense = dense + 1;
                    }
                }
                proof {
                    lemma_rank_bounds(s, rows@, q as int);
                }
                let ghost before = out@;
                out.set(idx, WindowContext { row_number: q + 1, rank, dense_rank: dense });
                proof {
                    assert(window_sorted(keys@, rows@, desc@, idx as int) == s);
                    assert forall|t: int| 0 <= t < q + 1 implies window_entry(
                        keys@,
                        rows@,
                        desc@,
                        #[trigger] s[t] as int,
                        out@[s[t] as int],
                    ) by {
                        if t < q {
                            assert(s.contains(s[t]));
                            assert(s[t] != s[q as int]);
                            assert(out@[s[t] as int] == before[s[t] as int]);
                        }
                    }
                }
                q = q + 1;
            }
            proof {
                assert forall|r: int|
                    0 <= r < n && (exists|f: int| 0 <= f < i + 1 && #[trigger] keys@[f]@ == keys@[r]@) implies window_entry(
                    keys@,
                    rows@,
                    desc@,
                    r,
                    #[trigger] out@[r],
                ) by {
                    if keys@[r]@ == k {
                        assert(s.contains(r as usize));
                        let t = choose|t: int| 0 <= t < s.len() && s[t] == r as usize;
                        assert(window_entry(keys@, rows@, desc@, s[t] as int, out@[s[t] as int]));
                    } else {
                        let f = choose|f: int| 0 <= f < i + 1 && #[trigger] keys@[f]@ == keys@[r]@;
                        assert(f != i);
                        assert(out@[r] == old_out[r]);
                    }
                }
            }
        } else {
            proof {
                assert forall|r: int|
                    0 <= r < n && (exists|f: int| 0 <= f < i + 1 && #[trigger] keys@[f]@ == keys@[r]@) implies window_entry(
                    keys@,
                    rows@,
                    desc@,
                    r,
                    #[trigger] out@[r],
                ) by {
                    let f = choose|f: int| 0 <= f < i + 1 && #[trigger] keys@[f]@ == keys@[r]@;
                    if f == i {
                        let g = choose|g: int| 0 <= g < i && keys@[g]@ == keys@[i as int]@;
                        assert(keys@[g]@ == keys@[r]@);
                    }
                }
            }
        }
        i = i + 1;
    }
    proof {
        assert forall|r: int| 0 <= r < keys@.len() implies window_entry(keys@, rows@, desc@, r, #[trigger] out@[r]) by {
            assert(keys@[r]@ == keys@[r]@);
        }
    }
    out
}

/// What a window function gives for a row: its row number, rank or dense
/// rank by the (upper-cased) name; any other name is not implemented.
pub open spec fn window_function_spec(upper: Seq<char>, name: Seq<char>, ctx: Option<WindowContext>) -> Result<
    ValueView,
    QueryErrorSpec,
> {
    match ctx {
        None => Err(QueryErrorSpec::Evaluation("Window function requires window context"@)),
        Some(c) => if upper == "ROW_NUMBER"@ {
            Ok(ValueView::Integer(c.row_number as i64))
        } else if upper == "RANK"@ {
            Ok(ValueView::Integer(c.rank as i64))
        } else if upper == "DENSE_RANK"@ {
            Ok(ValueView::Integer(c.dense_rank as i64))
        } else {
            Err(
                QueryErrorSpec::Evaluation(
                    "Window function '"@ + name + "' not yet implemented"@,
                ),
            )
        },
    }
}

/// Evaluate a window function for a row from the row's window context; the
/// name is matched case-insensitively.
pub fn evaluate_window_function(name: &str, window_ctx: Option<&WindowContext>) -> (res: Result<Value, QueryError>)
    ensures
        rview(res) == window_function_spec(
            std_to_uppercase(name@),
            name@,
            match window_ctx {
                Some(c) => Some(*c),
                None => None,
            },
        ),
{
    let ctx = match window_ctx {
        Some(c) => c,
        None => {
            return Err(QueryError::Evaluation(string_of("Window function requires window context")));
        },
    };
    let upper = to_uppercase(name);
    let u = upper.as_str();
    if str_eq(u, "ROW_NUMBER") {
        Ok(Value::Integer(ctx.row_number as i64))
    } else if str_eq(u, "RANK") {
        Ok(Value::Integer(ctx.rank as i64))
    } else if str_eq(u, "DENSE_RANK") {
        Ok(Value::Integer(ctx.dense_rank as i64))
    } else {
        let mut msg = string_of("Window function '");
        push_str(&mut msg, name);
        push_str(&mut msg, "' not yet implemented");
        Err(QueryError::Evaluation(msg))
    }
}

/// The dense rank never passes the rank at the same position.
proof fn lemma_dense_below_rank(s: Seq<usize>, rows: Seq<Vec<Value>>, k: int)
    requires
        k >= 0,
    ensures
        dense_at(s, rows, k) <= rank_at(s, rows, k),
    decreases k,
{
    if k > 0 {
        lemma_dense_below_rank(s, rows, k - 1);
        lemma_rank_bounds(s, rows, k - 1);
    }
}

/// In every window context the numbers are ordered: the dense rank is at
/// least one and at most the rank, which is at most the row number.
pub proof fn law_window_ranks_ordered(
    keys: Seq<String>,
    rows: Seq<Vec<Value>>,
    desc: Seq<bool>,
    r: int,
    c: WindowContext,
)
    requires
        window_entry(keys, rows, desc, r, c),
    ensures
        1 <= c.dense_rank <= c.rank <= c.row_number,
{
    let s = window_sorted(keys, rows, desc, r);
    lemma_rank_bounds(s, rows, c.row_number - 1);
    lemma_dense_below_rank(s, rows, c.row_number - 1);
}

/// Two rows next to each other in a sorted partition whose values tie get
/// the same rank and the same dense rank.
pub proof fn law_ties_share_rank(s: Seq<usize>, rows: Seq<Vec<Value>>, k: int)
    requires
        0 < k < s.len(),
        rows_same(rows[s[k] as int]@, rows[s[k - 1] as int]@),
    ensures
        rank_at(s, rows, k) == rank_at(s, rows, k - 1),
        dense_at(s, rows, k) == dense_at(s, rows, k - 1),
{
}

/// Two different rows of one partition never share a row number.
pub proof fn law_row_numbers_distinct(
    keys: Seq<String>,
    rows: Seq<Vec<Value>>,
    desc: Seq<bool>,
    r1: int,
    r2: int,
    c1: WindowContext,
    c2: WindowContext,
)
    requires
        window_entry(keys, rows, desc, r1, c1),
        window_entry(keys, rows, desc, r2, c2),
        keys[r1]@ == keys[r2]@,
        r1 != r2,
    ensures
        c1.row_number != c2.row_number,
{
    assert(window_sorted(keys, rows, desc, r1) == window_sorted(keys, rows, desc, r2));
}

} // verus!
