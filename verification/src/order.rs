//! `ORDER BY` on a finished result: each key names a selected column, and
//! the rows are sorted stably by those columns.

use vstd::prelude::*;
use crate::columns::QueryResult;
use crate::dec::Order;
use crate::text::{str_eq, string_of, push_str, std_to_uppercase, to_uppercase, int_text, i64_text};
use crate::dec::{Dec, decimal_display};
use crate::funcs::{whole_usize, decimal_to_usize};
use crate::value::{
    Value, QueryError, QueryErrorSpec, value_wf, sort_order_spec, compare_values_for_sort, reversed,
    law_sort_order_antisymmetric,
};
use crate::windows::row_wf;

verus! {

/// What an `ORDER BY` expression is, as far as sorting a result reads it: a
/// column name, a function call (found by its name), or anything else.
#[derive(Debug, Clone)]
pub enum SortTarget {
    /// A column reference.
    Column(String),
    /// A function call, by the function's name.
    Function(String),
    /// Any other expression.
    Other,
}

/// One `ORDER BY` key.
#[derive(Debug, Clone)]
pub struct SortKey {
    /// What is sorted by.
    pub target: SortTarget,
    /// Whether the key sorts descending.
    pub descending: bool,
}

/// The last column among the first `n` with the given name.
pub open spec fn last_index(cols: Seq<String>, name: Seq<char>, n: int) -> Option<usize>
    decreases n,
{
    if n <= 0 {
        None
    } else if cols[n - 1]@ == name {
        Some((n - 1) as usize)
    } else {
        last_index(cols, name, n - 1)
    }
}

/// The column a key sorts by, or the error for it.
pub open spec fn resolve_key(cols: Seq<String>, key: SortKey) -> Result<usize, QueryErrorSpec> {
    match key.target {
        SortTarget::Column(name) => match last_index(cols, name@, cols.len() as int) {
            Some(i) => Ok(i),
            None => Err(QueryErrorSpec::UnknownColumn(name@)),
        },
        SortTarget::Function(name) => match last_index(cols, name@, cols.len() as int) {
            Some(i) => Ok(i),
            None => Err(QueryErrorSpec::Evaluation("ORDER BY expression not found in SELECT: "@ + name@)),
        },
        SortTarget::Other => Err(QueryErrorSpec::Evaluation("ORDER BY expression must reference a selected column"@)),
    }
}

/// The columns and directions (`true` for ascending) of the keys, or the
/// error of the first key that names no column.
pub open spec fn resolve_keys(cols: Seq<String>, keys: Seq<SortKey>) -> Result<Seq<(usize, bool)>, QueryErrorSpec>
    decreases keys.len(),
{
    if keys.len() == 0 {
        Ok(Seq::empty())
    } else {
        match resolve_key(cols, keys[0]) {
            Err(e) => Err(e),
            Ok(i) => match resolve_keys(cols, keys.drop_first()) {
                Err(e) => Err(e),
                Ok(rest) => Ok(seq![(i, !keys[0].descending)] + rest),
            },
        }
    }
}

/// The order of two rows: the first key whose column both rows have and
/// whose values do not sort equal decides, reversed for a descending key.
pub open spec fn keyed_order(a: Seq<Value>, b: Seq<Value>, specs: Seq<(usize, bool)>) -> Order
    decreases specs.len(),
{
    if specs.len() == 0 {
        Order::Equal
    } else {
        let (idx, asc) = specs[0];
        if idx >= a.len() || idx >= b.len() {
            keyed_order(a, b, specs.drop_first())
        } else {
            let o = sort_order_spec(a[idx as int], b[idx as int]);
            if o != Order::Equal {
                if asc {
                    o
                } else {
                    reversed(o)
                }
            } else {
                keyed_order(a, b, specs.drop_first())
            }
        }
    }
}

/// `x` put into sorted rows before the first one it is not greater than.
pub open spec fn insert_sorted(s: Seq<Vec<Value>>, x: Vec<Value>, specs: Seq<(usize, bool)>) -> Seq<Vec<Value>>
    decreases s.len(),
{
    if s.len() == 0 {
        seq![x]
    } else if keyed_order(x@, s[0]@, specs) == Order::Greater {
        seq![s[0]] + insert_sorted(s.drop_first(), x, specs)
    } else {
        seq![x] + s
    }
}

/// The rows sorted stably: each row goes before the later rows it is not
/// greater than.
pub open spec fn sort_rows(rows: Seq<Vec<Value>>, specs: Seq<(usize, bool)>) -> Seq<Vec<Value>>
    decreases rows.len(),
{
    if rows.len() == 0 {
        Seq::empty()
    } else {
        insert_sorted(sort_rows(rows.drop_first(), specs), rows[0], specs)
    }
}

/// All the values of all the rows are well formed.
pub open spec fn rows_wf(rows: Seq<Vec<Value>>) -> bool {
    forall|i: int| 0 <= i < rows.len() ==> row_wf((#[trigger] rows[i])@)
}

/// A result without a value, by its plain parts.
pub open spec fn unit_view(r: Result<(), QueryError>) -> Result<(), QueryErrorSpec> {
    match r {
        Ok(_) => Ok(()),
        Err(e) => Err(e.spec()),
    }
}

/// Inserting at the first place where `x` is not greater.
proof fn lemma_insert_sorted_at(s: Seq<Vec<Value>>, x: Vec<Value>, specs: Seq<(usize, bool)>, p: int)
    requires
        0 <= p <= s.len(),
        forall|j: int| 0 <= j < p ==> keyed_order(x@, (#[trigger] s[j])@, specs) == Order::Greater,
        p == s.len() || keyed_order(x@, s[p]@, specs) != Order::Greater,
    ensures
        insert_sorted(s, x, specs) == s.insert(p, x),
    decreases p,
{
    if p == 0 {
        if s.len() == 0 {
            assert(s.insert(0, x) =~= seq![x]);
        } else {
            assert(s.insert(0, x) =~= seq![x] + s);
        }
    } else {
        let t = s.drop_first();
        assert(keyed_order(x@, s[0]@, specs) == Order::Greater);
        assert forall|j: int| 0 <= j < p - 1 implies keyed_order(x@, (#[trigger] t[j])@, specs) == Order::Greater by {
            assert(t[j] == s[j + 1]);
        }
        if p < s.len() {
            assert(t[p - 1] == s[p]);
        }
        lemma_insert_sorted_at(t, x, specs, p - 1);
        assert(s.insert(p, x) =~= seq![s[0]] + t.insert(p - 1, x));
    }
}

/// Inserting keeps the rows well formed.
proof fn lemma_insert_sorted_wf(s: Seq<Vec<Value>>, x: Vec<Value>, p: int)
    requires
        0 <= p <= s.len(),
        rows_wf(s),
        row_wf(x@),
    ensures
        rows_wf(s.insert(p, x)),
{
    assert forall|i: int| 0 <= i < s.insert(p, x).len() implies row_wf((#[trigger] s.insert(p, x)[i])@) by {
        if i < p {
            assert(s.insert(p, x)[i] == s[i]);
        } else if i > p {
            assert(s.insert(p, x)[i] == s[i - 1]);
        }
    }
}

/// With no keys, sorting keeps the rows as they are.
pub proof fn law_sort_without_keys(rows: Seq<Vec<Value>>)
    ensures
        sort_rows(rows, Seq::empty()) == rows,
    decreases rows.len(),
{
    if rows.len() > 0 {
        law_sort_without_keys(rows.drop_first());
        let s = rows.drop_first();
        if s.len() > 0 {
            assert(keyed_order(rows[0]@, s[0]@, Seq::empty()) == Order::Equal);
        }
        assert(seq![rows[0]] + s =~= rows);
    }
}

/// The order of two rows by the resolved keys.
fn compare_rows_by(a: &Vec<Value>, b: &Vec<Value>, specs: &Vec<(usize, bool)>) -> (res: Order)
    requires
        row_wf(a@),
        row_wf(b@),
    ensures
        res == keyed_order(a@, b@, specs@),
{
    let n = specs.len();
    let mut k: usize = 0;
    assert(specs@.skip(0) =~= specs@);
    while k < n
        invariant
            n == specs@.len(),
            k <= n,
            row_wf(a@),
            row_wf(b@),
            keyed_order(a@, b@, specs@) == keyed_order(a@, b@, specs@.skip(k as int)),
        decreases n - k,
    {
        let (idx, asc) = specs[k];
        assert(specs@.skip(k as int)[0] == specs@[k as int]);
        assert(specs@.skip(k as int).drop_first() =~= specs@.skip(k + 1));
        if idx < a.len() && idx < b.len() {
            assert(value_wf(a@[idx as int]) && value_wf(b@[idx as int]));
            let o = compare_values_for_sort(&a[idx], &b[idx]);
            if o != Order::Equal {
                if asc {
                    return o;
                } else {
                    return match o {
                        Order::Less => Order::Greater,
                        Order::Greater => Order::Less,
                        Order::Equal => Order::Equal,
                    };
                }
            }
        }
        k = k + 1;
    }
    Order::Equal
}

/// The last column with the given name.
fn find_last_column(cols: &Vec<String>, name: &str) -> (res: Option<usize>)
    ensures
        res == last_index(cols@, name@, cols@.len() as int),
{
    let mut found: Option<usize> = None;
    let mut i: usize = 0;
    while i < cols.len()
        invariant
            i <= cols@.len(),
            found == last_index(cols@, name@, i as int),
        decreases cols@.len() - i,
    {
        if str_eq(cols[i].as_str(), name) {
            found = Some(i);
        }
        i = i + 1;
    }
    found
}

/// The column of one key, or its error.
fn resolve_one(cols: &Vec<String>, key: &SortKey) -> (res: Result<usize, QueryError>)
    ensures
        match res {
            Ok(i) => resolve_key(cols@, *key) == Ok::<usize, QueryErrorSpec>(i),
            Err(e) => resolve_key(cols@, *key) == Err::<usize, QueryErrorSpec>(e.spec()),
        },
{
    match &key.target {
        SortTarget::Column(name) => match find_last_column(cols, name.as_str()) {
            Some(i) => Ok(i),
            None => Err(QueryError::UnknownColumn(string_of(name.as_str()))),
        },
        SortTarget::Function(name) => match find_last_column(cols, name.as_str()) {
            Some(i) => Ok(i),
            None => {
                let mut msg = string_of("ORDER BY expression not found in SELECT: ");
                push_str(&mut msg, name.as_str());
                Err(QueryError::Evaluation(msg))
            },
        },
        SortTarget::Other => Err(
            QueryError::Evaluation(string_of("ORDER BY expression must reference a selected column")),
        ),
    }
}

/// Sort a result by `ORDER BY` keys that name its columns (a column by
/// its name, a function call by the function's name; where names repeat,
/// the last column counts). The sort is stable and compares values as
/// `compare_values_for_sort` does; a key whose column a row lacks is
/// skipped for that pair. When a key names no column, the error of the
/// first such key is returned and the result is left as it was.
pub fn sort_results(result: &mut QueryResult, order_by: &[SortKey]) -> (res: Result<(), QueryError>)
    requires
        rows_wf(old(result).rows@),
    ensures
        final(result).columns == old(result).columns,
        match resolve_keys(old(result).columns@, order_by@) {
            Ok(specs) => res is Ok && final(result).rows@ == sort_rows(old(result).rows@, specs) && rows_in_order(
                final(result).rows@,
                specs,
            ),
            Err(e) => unit_view(res) == Err::<(), QueryErrorSpec>(e) && final(result).rows@ == old(result).rows@,
        },
{
    if order_by.len() == 0 {
        proof {
            law_sort_without_keys(result.rows@);
            law_sorted_rows_in_order(result.rows@, Seq::empty());
        }
        return Ok(());
    }
    let mut specs: Vec<(usize, bool)> = Vec::new();
    let mut k: usize = 0;
    let ghost keys = order_by@;
    let ghost cols = result.columns@;
    proof {
        assert(keys.skip(0) =~= keys);
        match resolve_keys(cols, keys) {
            Ok(rest) => {
                assert(specs@ + rest =~= rest);
            },
            Err(_) => {},
        }
    }
    while k < order_by.len()
        invariant
            keys == order_by@,
            cols == result.columns@,
            k <= keys.len(),
            resolve_keys(cols, keys) == match resolve_keys(cols, keys.skip(k as int)) {
                Ok(rest) => Ok(specs@ + rest),
                Err(e) => Err::<Seq<(usize, bool)>, QueryErrorSpec>(e),
            },
        decreases keys.len() - k,
    {
        assert(keys.skip(k as int)[0] == keys[k as int]);
        assert(keys.skip(k as int).drop_first() =~= keys.skip(k + 1));
        match resolve_one(&result.columns, &order_by[k]) {
            Ok(i) => {
                let ghost before = specs@;
                specs.push((i, !order_by[k].descending));
                proof {
                    match resolve_keys(cols, keys.skip(k + 1)) {
                        Ok(rest) => {
                            assert(before + (seq![(i, !keys[k as int].descending)] + rest) =~= specs@ + rest);
                        },
                        Err(_) => {},
                    }
                }
            },
            Err(e) => {
                return Err(e);
            },
        }
        k = k + 1;
    }
    proof {
        assert(keys.skip(keys.len() as int) =~= Seq::<SortKey>::empty());
        assert(specs@ + Seq::<(usize, bool)>::empty() =~= specs@);
    }
    let mut src: Vec<Vec<Value>> = Vec::new();
    std::mem::swap(&mut src, &mut result.rows);
    let ghost orig = src@;
    let n = src.len();
    let mut dst: Vec<Vec<Value>> = Vec::new();
    assert(orig.subrange(n as int, n as int) =~= Seq::<Vec<Value>>::empty());
    while src.len() > 0
        invariant
            n == orig.len(),
            src@.len() <= n,
            src@ == orig.subrange(0, src@.len() as int),
            rows_wf(orig),
            rows_wf(dst@),
            dst@ == sort_rows(orig.subrange(src@.len() as int, n as int), specs@),
            result.columns@ == cols,
        decreases src@.len(),
    {
        let ghost k = src@.len() as int;
        let x = match src.pop() {
            Some(x) => x,
            None => {
                return Ok(());
            },
        };
        assert(x == orig[k - 1]);
        assert(row_wf(orig[k - 1]@));
        let mut p: usize = 0;
        while p < dst.len()
            invariant
                p <= dst@.len(),
                rows_wf(dst@),
                row_wf(x@),
                forall|j: int| 0 <= j < p ==> keyed_order(x@, (#[trigger] dst@[j])@, specs@) == Order::Greater,
            ensures
                p <= dst@.len(),
                forall|j: int| 0 <= j < p ==> keyed_order(x@, (#[trigger] dst@[j])@, specs@) == Order::Greater,
                p == dst@.len() || keyed_order(x@, dst@[p as int]@, specs@) != Order::Greater,
            decreases dst@.len() - p,
        {
            assert(row_wf(dst@[p as int]@));
            if compare_rows_by(&x, &dst[p], &specs) != Order::Greater {
                break;
            }
            p = p + 1;
        }
        proof {
            lemma_insert_sorted_at(dst@, x, specs@, p as int);
            lemma_insert_sorted_wf(dst@, x, p as int);
            let suffix = orig.subrange(k - 1, n as int);
            assert(suffix.drop_first() =~= orig.subrange(k, n as int));
            assert(suffix[0] == x);
        }
        dst.insert(p, x);
        assert(src@ =~= orig.subrange(0, src@.len() as int));
    }
    assert(orig.subrange(0, n as int) =~= orig);
    proof {
        law_sorted_rows_in_order(orig, specs@);
    }
    result.rows = dst;
    Ok(())
}

/// No row is greater than the next one.
pub open spec fn rows_in_order(rows: Seq<Vec<Value>>, specs: Seq<(usize, bool)>) -> bool {
    forall|i: int, j: int|
        0 <= i && j == i + 1 && j < rows.len() ==> keyed_order(#[trigger] rows[i]@, #[trigger] rows[j]@, specs)
            != Order::Greater
}

/// Comparing two rows the other way round reverses the outcome.
proof fn lemma_keyed_order_antisymmetric(a: Seq<Value>, b: Seq<Value>, specs: Seq<(usize, bool)>)
    ensures
        keyed_order(a, b, specs) == reversed(keyed_order(b, a, specs)),
    decreases specs.len(),
{
    if specs.len() > 0 {
        let (idx, asc) = specs[0];
        lemma_keyed_order_antisymmetric(a, b, specs.drop_first());
        if idx < a.len() && idx < b.len() {
            law_sort_order_antisymmetric(a[idx as int], b[idx as int]);
        }
    }
}

/// Inserting a row into rows in order keeps them in order.
proof fn lemma_insert_sorted_in_order(s: Seq<Vec<Value>>, x: Vec<Value>, specs: Seq<(usize, bool)>)
    requires
        rows_in_order(s, specs),
    ensures
        rows_in_order(insert_sorted(s, x, specs), specs),
        insert_sorted(s, x, specs).len() == s.len() + 1,
        insert_sorted(s, x, specs)[0] == x || (s.len() > 0 && insert_sorted(s, x, specs)[0] == s[0]),
    decreases s.len(),
{
    if s.len() == 0 {
    } else if keyed_order(x@, s[0]@, specs) == Order::Greater {
        let t = s.drop_first();
        assert(rows_in_order(t, specs)) by {
            assert forall|i: int, j: int| 0 <= i && j == i + 1 && j < t.len() implies keyed_order(
                #[trigger] t[i]@,
                #[trigger] t[j]@,
                specs,
            ) != Order::Greater by {
                assert(t[i] == s[i + 1] && t[j] == s[j + 1]);
                assert(keyed_order(s[i + 1]@, s[j + 1]@, specs) != Order::Greater);
            }
        }
        lemma_insert_sorted_in_order(t, x, specs);
        let u = insert_sorted(t, x, specs);
        let r = seq![s[0]] + u;
        assert(r == insert_sorted(s, x, specs));
        if u[0] == x {
            lemma_keyed_order_antisymmetric(s[0]@, x@, specs);
        } else {
            assert(keyed_order(s[0]@, s[1]@, specs) != Order::Greater);
        }
        assert forall|i: int, j: int| 0 <= i && j == i + 1 && j < r.len() implies keyed_order(
            #[trigger] r[i]@,
            #[trigger] r[j]@,
            specs,
        ) != Order::Greater by {
            if i > 0 {
                assert(r[i] == u[i - 1] && r[j] == u[j - 1]);
                assert(keyed_order(u[i - 1]@, u[j - 1]@, specs) != Order::Greater);
            } else {
                assert(r[0] == s[0] && r[1] == u[0]);
            }
        }
    } else {
        let r = seq![x] + s;
        assert forall|i: int, j: int| 0 <= i && j == i + 1 && j < r.len() implies keyed_order(
            #[trigger] r[i]@,
            #[trigger] r[j]@,
            specs,
        ) != Order::Greater by {
            if i > 0 {
                assert(r[i] == s[i - 1] && r[j] == s[j - 1]);
                assert(keyed_order(s[i - 1]@, s[j - 1]@, specs) != Order::Greater);
            } else {
                assert(r[0] == x && r[1] == s[0]);
            }
        }
    }
}

/// Sorting puts the rows in order: no row is greater than the next one by
/// the keys.
pub proof fn law_sorted_rows_in_order(rows: Seq<Vec<Value>>, specs: Seq<(usize, bool)>)
    ensures
        rows_in_order(sort_rows(rows, specs), specs),
    decreases rows.len(),
{
    if rows.len() > 0 {
        law_sorted_rows_in_order(rows.drop_first(), specs);
        lemma_insert_sorted_in_order(sort_rows(rows.drop_first(), specs), rows[0], specs);
    }
}

/// Inserting a row adds it to the rows, whatever the place.
proof fn lemma_insert_sorted_multiset(s: Seq<Vec<Value>>, x: Vec<Value>, specs: Seq<(usize, bool)>)
    ensures
        insert_sorted(s, x, specs).to_multiset() =~= s.to_multiset().insert(x),
    decreases s.len(),
{
    if s.len() == 0 {
        assert(seq![x] =~= s.insert(0, x));
        vstd::seq_lib::to_multiset_insert(s, 0, x);
    } else if keyed_order(x@, s[0]@, specs) == Order::Greater {
        let t = s.drop_first();
        lemma_insert_sorted_multiset(t, x, specs);
        let u = insert_sorted(t, x, specs);
        assert(seq![s[0]] + u =~= u.insert(0, s[0]));
        vstd::seq_lib::to_multiset_insert(u, 0, s[0]);
        assert(s =~= t.insert(0, s[0]));
        vstd::seq_lib::to_multiset_insert(t, 0, s[0]);
    } else {
        assert(seq![x] + s =~= s.insert(0, x));
        vstd::seq_lib::to_multiset_insert(s, 0, x);
    }
}

/// Sorting keeps every row, as often as it occurs.
pub proof fn law_sort_keeps_rows(rows: Seq<Vec<Value>>, specs: Seq<(usize, bool)>)
    ensures
        sort_rows(rows, specs).to_multiset() =~= rows.to_multiset(),
    decreases rows.len(),
{
    if rows.len() > 0 {
        let t = rows.drop_first();
        law_sort_keeps_rows(t, specs);
        lemma_insert_sorted_multiset(sort_rows(t, specs), rows[0], specs);
        assert(rows =~= t.insert(0, rows[0]));
        vstd::seq_lib::to_multiset_insert(t, 0, rows[0]);
    } else {
        assert(sort_rows(rows, specs) =~= rows);
    }
}

/// What a `PIVOT BY` expression is, as far as finding its column reads
/// it: a column name, an integer or decimal column number (counted from
/// one), or anything else.
#[derive(Debug, Clone)]
pub enum PivotTarget {
    /// A column name.
    Column(String),
    /// An integer literal.
    Integer(i64),
    /// A decimal literal.
    Number(Dec),
    /// Any other expression.
    Other,
}

/// The first column from `i` on whose upper-cased name is `upper`.
pub open spec fn first_upper_match(cols: Seq<String>, upper: Seq<char>, i: int) -> Option<usize>
    decreases cols.len() - i,
{
    if i < 0 || i >= cols.len() {
        None
    } else if std_to_uppercase(cols[i]@) == upper {
        Some(i as usize)
    } else {
        first_upper_match(cols, upper, i + 1)
    }
}

/// A column number counted from one, as an index: one less, but not below
/// zero.
pub open spec fn index_from_number(k: usize) -> usize {
    if k == 0 {
        0
    } else {
        (k - 1) as usize
    }
}

/// The column a `PIVOT BY` expression picks, or the error for it. A column
/// name is matched case-insensitively and the first match counts; a number
/// is a position counted from one, a negative integer taken as the
/// `usize` it converts to and a decimal by its whole part (zero when that
/// is negative or does not fit).
pub open spec fn pivot_column_spec(cols: Seq<String>, target: PivotTarget) -> Result<usize, QueryErrorSpec> {
    match target {
        PivotTarget::Column(name) => match first_upper_match(cols, std_to_uppercase(name@), 0) {
            Some(i) => Ok(i),
            None => Err(QueryErrorSpec::Evaluation("PIVOT BY column '"@ + name@ + "' not found in SELECT"@)),
        },
        PivotTarget::Integer(n) => {
            let idx = index_from_number(n as usize);
            if idx < cols.len() {
                Ok(idx)
            } else {
                Err(QueryErrorSpec::Evaluation("PIVOT BY column index "@ + int_text(n as int) + " out of range"@))
            }
        },
        PivotTarget::Number(d) => {
            let idx = index_from_number(
                match whole_usize(d) {
                    Some(k) => k,
                    None => 0,
                },
            );
            if idx < cols.len() {
                Ok(idx)
            } else {
                Err(QueryErrorSpec::Evaluation("PIVOT BY column index "@ + decimal_display(d) + " out of range"@))
            }
        },
        PivotTarget::Other => Err(QueryErrorSpec::Evaluation("PIVOT BY must reference a column name or index"@)),
    }
}

/// The index of the result column a `PIVOT BY` expression picks.
pub fn find_pivot_column(result: &QueryResult, target: &PivotTarget) -> (res: Result<usize, QueryError>)
    requires
        target matches PivotTarget::Number(d) ==> d.wf(),
    ensures
        match res {
            Ok(i) => pivot_column_spec(result.columns@, *target) == Ok::<usize, QueryErrorSpec>(i),
            Err(e) => pivot_column_spec(result.columns@, *target) == Err::<usize, QueryErrorSpec>(e.spec()),
        },
{
    let cols = &result.columns;
    match target {
        PivotTarget::Column(name) => {
            let upper = to_uppercase(name.as_str());
            let mut i: usize = 0;
            while i < cols.len()
                invariant
                    i <= cols@.len(),
                    first_upper_match(cols@, upper@, 0) == first_upper_match(cols@, upper@, i as int),
                    upper@ == std_to_uppercase(name@),
                    *target == PivotTarget::Column(*name),
                    cols == &result.columns,
                decreases cols@.len() - i,
            {
                let c = to_uppercase(cols[i].as_str());
                if str_eq(c.as_str(), upper.as_str()) {
                    assert(std_to_uppercase(cols@[i as int]@) == upper@);
                    assert(first_upper_match(cols@, upper@, i as int) == Some(i));
                    return Ok(i);
                }
                i = i + 1;
            }
            let mut msg = string_of("PIVOT BY column '");
            push_str(&mut msg, name.as_str());
            push_str(&mut msg, "' not found in SELECT");
            Err(QueryError::Evaluation(msg))
        },
        PivotTarget::Integer(n) => {
            let k = *n as usize;
            let idx = if k == 0 { 0 } else { k - 1 };
            if idx < cols.len() {
                Ok(idx)
            } else {
                let mut msg = string_of("PIVOT BY column index ");
                let t = i64_text(*n);
                push_str(&mut msg, t.as_str());
                push_str(&mut msg, " out of range");
                Err(QueryError::Evaluation(msg))
            }
        },
        PivotTarget::Number(d) => {
            let k = match decimal_to_usize(*d) {
                Some(k) => k,
                None => 0,
            };
            let idx = if k == 0 { 0 } else { k - 1 };
            if idx < cols.len() {
                Ok(idx)
            } else {
                let mut msg = string_of("PIVOT BY column index ");
                let t = crate::dec::to_text(*d);
                push_str(&mut msg, t.as_str());
                push_str(&mut msg, " out of range");
                Err(QueryError::Evaluation(msg))
            }
        },
        PivotTarget::Other => Err(QueryError::Evaluation(string_of("PIVOT BY must reference a column name or index"))),
    }
}

} // verus!
