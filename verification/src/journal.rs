//! `JOURNAL`: the postings of the accounts a pattern picks, each with the
//! running balance of its account. The FROM filter's outcome for each
//! transaction and the cost each posting resolves to come from outside (the
//! filter may be any predicate, and resolving a cost specification belongs
//! to the ledger's core); the rows and balances are computed here.

use vstd::prelude::*;
use crate::account::views;
use crate::dec::{decimal_checked_mul, checked_mul, checked_add};
use crate::ledger::{amount_of, Amount, Cost, Directive, Posting, Position, Transaction};
use crate::columns::{QueryResult, copy_amount};
use crate::funcs::copy_position;
use crate::text::{str_eq, string_of, push_char, to_uppercase, std_to_uppercase};
use crate::validate::{find_key, invs_view, vindex, lemma_vindex_invs, lemma_vindex_bounds};
use crate::aggregates::{add_to_inventory, copy_cost, find_lot, inv_add, inv_add_defined, lots, lot_of, lots_wf};
use crate::value::{QueryError, QueryErrorSpec, Value, ValueView, vview, regex_is_match, regex_match_spec, regex_refused};

verus! {

/// Whether `needle` occurs in `hay`.
pub open spec fn seq_contains(hay: Seq<char>, needle: Seq<char>) -> bool {
    exists|i: int| 0 <= i && i + needle.len() <= hay.len() && #[trigger] hay.subrange(i, i + needle.len()) == needle
}

/// Whether `needle` occurs in `hay` at `i`.
fn occurs_at(hay: &str, needle: &str, i: usize) -> (res: bool)
    requires
        i + needle@.len() <= hay@.len(),
    ensures
        res == (hay@.subrange(i as int, i + needle@.len()) == needle@),
{
    let m = needle.unicode_len();
    let hl = hay.unicode_len();
    let mut k: usize = 0;
    while k < m
        invariant
            m == needle@.len(),
            hl == hay@.len(),
            i + m <= hay@.len(),
            k <= m,
            forall|j: int| 0 <= j < k ==> hay@[i + j] == needle@[j],
        decreases m - k,
    {
        if hay.get_char(i + k) != needle.get_char(k) {
            assert(hay@.subrange(i as int, i + m)[k as int] != needle@[k as int]);
            return false;
        }
        k = k + 1;
    }
    assert(hay@.subrange(i as int, i + m) =~= needle@);
    true
}

/// Whether `needle` occurs in `hay` (as `str::contains` tells).
pub fn str_contains(hay: &str, needle: &str) -> (res: bool)
    ensures
        res == seq_contains(hay@, needle@),
{
    let n = hay.unicode_len();
    let m = needle.unicode_len();
    if m > n {
        return false;
    }
    if m == 0 {
        assert(hay@.subrange(0, 0 + needle@.len() as int) =~= needle@);
        return true;
    }
    let mut i: usize = 0;
    while i <= n - m
        invariant
            n == hay@.len(),
            m == needle@.len(),
            1 <= m <= n,
            forall|j: int| 0 <= j < i ==> #[trigger] hay@.subrange(j, j + m) != needle@,
        decreases n - m + 1 - i,
    {
        if occurs_at(hay, needle, i) {
            return true;
        }
        i = i + 1;
    }
    false
}

/// Whether a posting's account is picked: by the pattern as a regular
/// expression when it compiles, else by containing the pattern.
pub open spec fn journal_match(pattern: Seq<char>, account: Seq<char>) -> bool {
    if regex_refused(pattern) {
        seq_contains(account, pattern)
    } else {
        regex_match_spec(pattern, account) == Some(true)
    }
}

/// The cost a posting is held at: the resolved cost, where the posting has a
/// cost specification.
pub open spec fn held_cost(p: Posting, c: Option<Cost>) -> Option<Cost> {
    if p.cost is Some {
        c
    } else {
        None
    }
}

/// Whether the `AT` function is `COST` (in any case).
pub open spec fn at_cost(at: Option<String>) -> bool {
    at matches Some(f) && std_to_uppercase(f@) == "COST"@
}

/// The position value of a row: the units, or under `AT COST` the units
/// times the cost per unit in the cost's currency; NULL without units.
pub open spec fn journal_value(at: Option<String>, p: Posting, c: Option<Cost>) -> ValueView {
    match amount_of(p) {
        None => ValueView::Null,
        Some(u) => match held_cost(p, c) {
            Some(k) => if at_cost(at) {
                ValueView::Amount(decimal_checked_mul(u.number, k.number)->Some_0, k.currency@)
            } else {
                ValueView::Amount(u.number, u.currency@)
            },
            None => ValueView::Amount(u.number, u.currency@),
        },
    }
}

/// The inventories after a position is added to that of `key` (merged into
/// the position of its lot, as `inv_add` states).
pub open spec fn account_add(
    v: Seq<(Seq<char>, Seq<Position>)>,
    key: Seq<char>,
    p: Position,
) -> Seq<(Seq<char>, Seq<Position>)> {
    match vindex(v, key) {
        Some(i) => v.update(i, (v[i].0, inv_add(v[i].1, p))),
        None => v,
    }
}

/// The balances before a picked posting's position is added: its account
/// gets an empty inventory if it has none.
pub open spec fn with_account(b: Seq<(Seq<char>, Seq<Position>)>, p: Posting) -> Seq<(Seq<char>, Seq<Position>)> {
    if vindex(b, p.account@) is Some {
        b
    } else {
        b.push((p.account@, Seq::<Position>::empty()))
    }
}

/// The position a posting with units adds.
pub open spec fn posting_position(p: Posting, c: Option<Cost>) -> Position {
    Position { units: amount_of(p)->Some_0, cost: held_cost(p, c) }
}

/// The balances after a picked posting: its account gets an empty
/// inventory if it has none, and the posting's position is added to it
/// when the posting has units.
pub open spec fn journal_balances(
    b: Seq<(Seq<char>, Seq<Position>)>,
    p: Posting,
    c: Option<Cost>,
) -> Seq<(Seq<char>, Seq<Position>)> {
    let b1 = with_account(b, p);
    if amount_of(p) is Some {
        account_add(b1, p.account@, posting_position(p, c))
    } else {
        b1
    }
}

/// Adding a picked posting's position to its account's inventory does not
/// overflow (the decimal sum panics when it does).
pub open spec fn journal_step_defined(b: Seq<(Seq<char>, Seq<Position>)>, p: Posting, c: Option<Cost>) -> bool {
    amount_of(p) is Some ==> {
        let b1 = with_account(b, p);
        vindex(b1, p.account@) matches Some(i) ==> inv_add_defined(b1[i].1, posting_position(p, c))
    }
}

/// The row of a picked posting: date, flag, payee (empty without one),
/// narration, account, position value and the balance of its account.
pub open spec fn journal_row(t: Transaction, p: Posting, v: ValueView, b: Seq<(Seq<char>, Seq<Position>)>) -> Seq<ValueView> {
    seq![
        ValueView::Date(t.date),
        ValueView::String(seq![t.flag]),
        ValueView::String(
            match t.payee {
                Some(x) => x@,
                None => Seq::empty(),
            },
        ),
        ValueView::String(t.narration@),
        ValueView::String(p.account@),
        v,
        ValueView::Inventory(b[vindex(b, p.account@)->Some_0].1),
    ]
}

/// The balances and the rows after the first `k` postings of a transaction.
pub open spec fn journal_postings(
    t: Transaction,
    costs: Seq<Option<Cost>>,
    pattern: Seq<char>,
    at: Option<String>,
    b0: Seq<(Seq<char>, Seq<Position>)>,
    k: int,
) -> (Seq<(Seq<char>, Seq<Position>)>, Seq<Seq<ValueView>>)
    decreases k,
{
    if k <= 0 {
        (b0, Seq::empty())
    } else {
        let (b, rows) = journal_postings(t, costs, pattern, at, b0, k - 1);
        let p = t.postings@[k - 1];
        if journal_match(pattern, p.account@) {
            let b2 = journal_balances(b, p, costs[k - 1]);
            (b2, rows.push(journal_row(t, p, journal_value(at, p, costs[k - 1]), b2)))
        } else {
            (b, rows)
        }
    }
}

/// The balances, the rows and the error, if any, after the first `n`
/// directives: a transaction whose filter outcome is an error stops the
/// journal with it, one the filter rejects is passed over.
pub open spec fn journal_spec(
    ds: Seq<Directive>,
    kept: Seq<Result<bool, QueryError>>,
    costs: Seq<Vec<Option<Cost>>>,
    pattern: Seq<char>,
    at: Option<String>,
    b0: Seq<(Seq<char>, Seq<Position>)>,
    n: int,
) -> (Seq<(Seq<char>, Seq<Position>)>, Seq<Seq<ValueView>>, Option<QueryErrorSpec>)
    decreases n,
{
    if n <= 0 {
        (b0, Seq::empty(), None)
    } else {
        let (b, rows, err) = journal_spec(ds, kept, costs, pattern, at, b0, n - 1);
        if err is Some {
            (b, rows, err)
        } else {
            match ds[n - 1] {
                Directive::Transaction(t) => match kept[n - 1] {
                    Err(e) => (b, rows, Some(e.spec())),
                    Ok(false) => (b, rows, None),
                    Ok(true) => {
                        let (b2, r2) = journal_postings(t, costs[n - 1]@, pattern, at, b, t.postings@.len() as int);
                        (b2, rows + r2, None)
                    },
                },
                _ => (b, rows, None),
            }
        }
    }
}

/// No balance sum overflows over the first `k` postings of a transaction.
pub open spec fn postings_defined(
    t: Transaction,
    costs: Seq<Option<Cost>>,
    pattern: Seq<char>,
    at: Option<String>,
    b0: Seq<(Seq<char>, Seq<Position>)>,
    k: int,
) -> bool
    decreases k,
{
    k <= 0 || (postings_defined(t, costs, pattern, at, b0, k - 1) && (journal_match(pattern, t.postings@[k - 1].account@)
        ==> journal_step_defined(journal_postings(t, costs, pattern, at, b0, k - 1).0, t.postings@[k - 1], costs[k - 1])))
}

/// No balance sum overflows over the first `n` directives, up to an error.
pub open spec fn journal_defined(
    ds: Seq<Directive>,
    kept: Seq<Result<bool, QueryError>>,
    costs: Seq<Vec<Option<Cost>>>,
    pattern: Seq<char>,
    at: Option<String>,
    b0: Seq<(Seq<char>, Seq<Position>)>,
    n: int,
) -> bool
    decreases n,
{
    n <= 0 || (journal_defined(ds, kept, costs, pattern, at, b0, n - 1) && {
        let (b, rows, err) = journal_spec(ds, kept, costs, pattern, at, b0, n - 1);
        (err is None && kept[n - 1] == Ok::<bool, QueryError>(true) && ds[n - 1] is Transaction) ==> postings_defined(
            ds[n - 1]->Transaction_0,
            costs[n - 1]@,
            pattern,
            at,
            b,
            ds[n - 1]->Transaction_0.postings@.len() as int,
        )
    })
}

/// Being defined up to `n` means being defined up to any `k` before it.
proof fn lemma_postings_defined_prefix(
    t: Transaction,
    costs: Seq<Option<Cost>>,
    pattern: Seq<char>,
    at: Option<String>,
    b0: Seq<(Seq<char>, Seq<Position>)>,
    k: int,
    n: int,
)
    requires
        0 <= k <= n,
        postings_defined(t, costs, pattern, at, b0, n),
    ensures
        postings_defined(t, costs, pattern, at, b0, k),
    decreases n - k,
{
    if k < n {
        lemma_postings_defined_prefix(t, costs, pattern, at, b0, k, n - 1);
    }
}

/// Being defined up to `n` means being defined up to any `k` before it.
proof fn lemma_journal_defined_prefix(
    ds: Seq<Directive>,
    kept: Seq<Result<bool, QueryError>>,
    costs: Seq<Vec<Option<Cost>>>,
    pattern: Seq<char>,
    at: Option<String>,
    b0: Seq<(Seq<char>, Seq<Position>)>,
    k: int,
    n: int,
)
    requires
        0 <= k <= n,
        journal_defined(ds, kept, costs, pattern, at, b0, n),
    ensures
        journal_defined(ds, kept, costs, pattern, at, b0, k),
    decreases n - k,
{
    if k < n {
        lemma_journal_defined_prefix(ds, kept, costs, pattern, at, b0, k, n - 1);
    }
}

/// Every inventory of the balances is well formed.
pub open spec fn balances_wf(v: Seq<(String, Vec<Position>)>) -> bool {
    forall|i: int| 0 <= i < v.len() ==> lots_wf((#[trigger] v[i]).1@)
}

/// Whether adding a position to the inventory of an account does not
/// overflow.
fn account_add_ok(balances: &Vec<(String, Vec<Position>)>, key: &str, p: &Position) -> (res: bool)
    requires
        balances_wf(balances@),
        p.cost matches Some(c) ==> c.number.wf(),
        p.units.number.wf(),
    ensures
        res == (vindex(invs_view(balances@), key@) matches Some(i) ==> inv_add_defined(invs_view(balances@)[i].1, *p)),
{
    proof {
        lemma_vindex_invs(balances@, key@);
    }
    match find_key(balances, key) {
        Some(k) => {
            assert(invs_view(balances@)[k as int].1 == balances@[k as int].1@);
            assert(lots_wf(balances@[k as int].1@));
            match find_lot(&balances[k].1, p) {
                Some(j) => {
                    assert(balances@[k as int].1@[j as int].units.number.wf());
                    checked_add(balances[k].1[j].units.number, p.units.number).is_some()
                },
                None => true,
            }
        },
        None => true,
    }
}

/// Add a position to the inventory of an account that has one.
fn add_to_account(balances: &mut Vec<(String, Vec<Position>)>, key: &str, p: Position)
    requires
        balances_wf(old(balances)@),
        p.units.number.wf(),
        p.cost matches Some(c) ==> c.number.wf(),
        vindex(invs_view(old(balances)@), key@) matches Some(i) ==> inv_add_defined(invs_view(old(balances)@)[i].1, p),
    ensures
        balances_wf(final(balances)@),
        invs_view(final(balances)@) == account_add(invs_view(old(balances)@), key@, p),
{
    let ghost before = balances@;
    proof {
        lemma_vindex_invs(balances@, key@);
    }
    match find_key(balances, key) {
        Some(k) => {
            assert(invs_view(before)[k as int].1 == before[k as int].1@);
            assert(lots_wf(before[k as int].1@));
            let (acct, mut ps) = balances.remove(k);
            add_to_inventory(&mut ps, p);
            let ghost inner = ps@;
            balances.insert(k, (acct, ps));
            proof {
                assert(invs_view(balances@) =~= account_add(invs_view(before), key@, p));
                assert forall|i: int| 0 <= i < balances@.len() implies lots_wf((#[trigger] balances@[i]).1@) by {
                    if i != k {
                        assert(balances@[i] == before[i]);
                    }
                }
            }
        },
        None => {},
    }
}

/// The numbers of the picked postings are well formed, and where `AT COST`
/// multiplies units by a cost the product does not overflow (the decimal
/// product panics when it does).
pub open spec fn journal_inputs_ok(
    ds: Seq<Directive>,
    costs: Seq<Vec<Option<Cost>>>,
    pattern: Seq<char>,
    at: Option<String>,
) -> bool {
    &&& costs.len() == ds.len()
    &&& forall|i: int| 0 <= i < ds.len() ==> (#[trigger] ds[i] matches Directive::Transaction(t) ==> {
        &&& costs[i]@.len() == t.postings@.len()
        &&& forall|j: int| 0 <= j < t.postings@.len() ==> #[trigger] posting_ok(t.postings@[j], costs[i]@[j], pattern, at)
    })
}

/// The numbers of one posting are well formed, and its product under
/// `AT COST` does not overflow.
pub open spec fn posting_ok(p: Posting, c: Option<Cost>, pattern: Seq<char>, at: Option<String>) -> bool {
    &&& (amount_of(p) matches Some(u) ==> u.number.wf())
    &&& (c matches Some(k) ==> k.number.wf())
    &&& (journal_match(pattern, p.account@) && at_cost(at) && amount_of(p) is Some && held_cost(p, c) is Some
        ==> decimal_checked_mul(amount_of(p)->Some_0.number, held_cost(p, c)->Some_0.number) is Some)
}

/// The rows of a result by their values' plain parts.
pub open spec fn rows_view(rows: Seq<Vec<Value>>) -> Seq<Seq<ValueView>> {
    rows.map_values(|r: Vec<Value>| r@.map_values(|v: Value| vview(v)))
}

/// The column names of a journal.
pub open spec fn journal_columns() -> Seq<Seq<char>> {
    seq!["date"@, "flag"@, "payee"@, "narration"@, "account"@, "position"@, "balance"@]
}

/// A copy of an error.
fn copy_error(e: &QueryError) -> (res: QueryError)
    ensures
        res.spec() == e.spec(),
{
    match e {
        QueryError::UnknownColumn(s) => QueryError::UnknownColumn(s.clone()),
        QueryError::UnknownFunction(s) => QueryError::UnknownFunction(s.clone()),
        QueryError::InvalidArguments(a, b) => QueryError::InvalidArguments(a.clone(), b.clone()),
        QueryError::Type(s) => QueryError::Type(s.clone()),
        QueryError::Aggregation(s) => QueryError::Aggregation(s.clone()),
        QueryError::Evaluation(s) => QueryError::Evaluation(s.clone()),
    }
}

/// The index of a key added at the end of entries that lacked it.
proof fn lemma_vindex_push<T>(v: Seq<(Seq<char>, T)>, key: Seq<char>, x: T)
    requires
        vindex(v, key) is None,
    ensures
        vindex(v.push((key, x)), key) == Some(v.len() as int),
    decreases v.len(),
{
    if v.len() > 0 {
        assert(v.push((key, x)).drop_first() =~= v.drop_first().push((key, x)));
        lemma_vindex_push(v.drop_first(), key, x);
    }
}

/// `account_add` keeps the place of each key.
proof fn lemma_account_add_index(v: Seq<(Seq<char>, Seq<Position>)>, key: Seq<char>, p: Position)
    ensures
        vindex(account_add(v, key, p), key) == vindex(v, key),
        account_add(v, key, p).len() == v.len(),
{
    lemma_vindex_bounds(v, key);
    match vindex(v, key) {
        Some(i) => {
            crate::validate::lemma_vindex_update(v, key, i, inv_add(v[i].1, p));
        },
        None => {},
    }
}

/// Once the journal has stopped on an error, later directives change nothing.
proof fn lemma_journal_stopped(
    ds: Seq<Directive>,
    kept: Seq<Result<bool, QueryError>>,
    costs: Seq<Vec<Option<Cost>>>,
    pattern: Seq<char>,
    at: Option<String>,
    b0: Seq<(Seq<char>, Seq<Position>)>,
    i: int,
    n: int,
)
    requires
        0 <= i <= n,
        journal_spec(ds, kept, costs, pattern, at, b0, i).2 is Some,
    ensures
        journal_spec(ds, kept, costs, pattern, at, b0, n) == journal_spec(ds, kept, costs, pattern, at, b0, i),
    decreases n - i,
{
    if i < n {
        lemma_journal_stopped(ds, kept, costs, pattern, at, b0, i, n - 1);
    }
}

/// Add the rows of one transaction that the filter kept, when no balance
/// sum overflows on the way; tells whether none did.
fn journal_transaction(
    t: &Transaction,
    costs: &Vec<Option<Cost>>,
    pattern: &str,
    at: &Option<String>,
    is_cost: bool,
    balances: &mut Vec<(String, Vec<Position>)>,
    rows: &mut Vec<Vec<Value>>,
) -> (ok: bool)
    requires
        costs@.len() == t.postings@.len(),
        is_cost == at_cost(*at),
        forall|j: int| 0 <= j < t.postings@.len() ==> #[trigger] posting_ok(t.postings@[j], costs@[j], pattern@, *at),
        balances_wf(old(balances)@),
    ensures
        balances_wf(final(balances)@),
        ok == postings_defined(*t, costs@, pattern@, *at, invs_view(old(balances)@), t.postings@.len() as int),
        ok ==> invs_view(final(balances)@) == journal_postings(
            *t,
            costs@,
            pattern@,
            *at,
            invs_view(old(balances)@),
            t.postings@.len() as int,
        ).0,
        ok ==> rows_view(final(rows)@) == rows_view(old(rows)@) + journal_postings(
            *t,
            costs@,
            pattern@,
            *at,
            invs_view(old(balances)@),
            t.postings@.len() as int,
        ).1,
{
    let ghost b0 = invs_view(balances@);
    let ghost r0 = rows_view(rows@);
    let n = t.postings.len();
    let mut k: usize = 0;
    while k < n
        invariant
            n == t.postings@.len(),
            k <= n,
            costs@.len() == n,
            is_cost == at_cost(*at),
            forall|j: int| 0 <= j < t.postings@.len() ==> #[trigger] posting_ok(t.postings@[j], costs@[j], pattern@, *at),
            balances_wf(balances@),
            b0 == invs_view(old(balances)@),
            postings_defined(*t, costs@, pattern@, *at, b0, k as int),
            invs_view(balances@) == journal_postings(*t, costs@, pattern@, *at, b0, k as int).0,
            rows_view(rows@) == r0 + journal_postings(*t, costs@, pattern@, *at, b0, k as int).1,
        decreases n - k,
    {
        let p = &t.postings[k];
        let ghost pv = *p;
        assert(posting_ok(pv, costs@[k as int], pattern@, *at));
        let picked = match regex_is_match(pattern, p.account.as_str()) {
            Some(b) => b,
            None => str_contains(p.account.as_str(), pattern),
        };
        if picked {
            let ghost b = invs_view(balances@);
            proof {
                lemma_vindex_invs(balances@, p.account@);
            }
            match find_key(balances, p.account.as_str()) {
                Some(_) => {},
                None => {
                    let ghost old_bal = balances@;
                    balances.push((p.account.clone(), Vec::new()));
                    proof {
                        lemma_vindex_push(b, p.account@, Seq::<Position>::empty());
                        assert(invs_view(balances@) =~= b.push((p.account@, Seq::<Position>::empty())));
                        assert forall|i: int| 0 <= i < balances@.len() implies lots_wf((#[trigger] balances@[i]).1@) by {
                            if i < old_bal.len() {
                                assert(balances@[i] == old_bal[i]);
                            }
                        }
                    }
                },
            }
            let ghost b1 = invs_view(balances@);
            let cost: Option<Cost> = if p.cost.is_some() {
                copy_cost(&costs[k])
            } else {
                None
            };
            assert(cost == held_cost(pv, costs@[k as int]));
            assert(b1 == with_account(b, pv));
            if let Some(u) = p.amount() {
                let pos = Position { units: copy_amount(u), cost: copy_cost(&cost) };
                assert(pos == posting_position(pv, costs@[k as int]));
                if !account_add_ok(balances, p.account.as_str(), &pos) {
                    proof {
                        assert(!journal_step_defined(b, pv, costs@[k as int]));
                        assert(!postings_defined(*t, costs@, pattern@, *at, b0, k + 1));
                        if postings_defined(*t, costs@, pattern@, *at, b0, n as int) {
                            lemma_postings_defined_prefix(*t, costs@, pattern@, *at, b0, k + 1, n as int);
                        }
                    }
                    return false;
                }
                add_to_account(balances, p.account.as_str(), pos);
            }
            proof {
                assert(journal_step_defined(b, pv, costs@[k as int]));
            }
            let ghost b2 = invs_view(balances@);
            assert(b2 == journal_balances(b, pv, costs@[k as int]));
            let value = match p.amount() {
                None => Value::Null,
                Some(u) => match &cost {
                    Some(c) => if is_cost {
                        match checked_mul(u.number, c.number) {
                            Some(total) => Value::Amount(Amount { number: total, currency: c.currency.clone() }),
                            None => Value::Amount(copy_amount(u)),
                        }
                    } else {
                        Value::Amount(copy_amount(u))
                    },
                    None => Value::Amount(copy_amount(u)),
                },
            };
            proof {
                lemma_vindex_invs(balances@, p.account@);
                if let Some(u) = amount_of(pv) {
                    lemma_account_add_index(b1, pv.account@, posting_position(pv, costs@[k as int]));
                }
                lemma_vindex_bounds(b2, pv.account@);
            }
            let idx = match find_key(balances, p.account.as_str()) {
                Some(i) => i,
                None => {
                    proof {
                        if vindex(b, pv.account@) is None {
                            lemma_vindex_push(b, pv.account@, Seq::<Position>::empty());
                        }
                    }
                    assert(false);
                    0
                },
            };
            let mut inv: Vec<Position> = Vec::new();
            let m = balances[idx].1.len();
            let mut q: usize = 0;
            while q < m
                invariant
                    idx < balances@.len(),
                    m == balances@[idx as int].1@.len(),
                    q <= m,
                    inv@ == balances@[idx as int].1@.subrange(0, q as int),
                decreases m - q,
            {
                inv.push(copy_position(&balances[idx].1[q]));
                assert(inv@ =~= balances@[idx as int].1@.subrange(0, q + 1));
                q = q + 1;
            }
            assert(balances@[idx as int].1@.subrange(0, m as int) =~= balances@[idx as int].1@);
            let mut flag = String::new();
            push_char(&mut flag, t.flag);
            assert(flag@ =~= seq![t.flag]);
            let payee = match &t.payee {
                Some(x) => x.clone(),
                None => String::new(),
            };
            let row = vec![
                Value::Date(t.date),
                Value::String(flag),
                Value::String(payee),
                Value::String(t.narration.clone()),
                Value::String(p.account.clone()),
                value,
                Value::Inventory(inv),
            ];
            let ghost before = rows_view(rows@);
            rows.push(row);
            proof {
                let rv = journal_row(*t, pv, journal_value(*at, pv, costs@[k as int]), b2);
                assert(b2[idx as int].1 == balances@[idx as int].1@);
                assert(rows@.last()@.map_values(|v: Value| vview(v)) =~= rv);
                assert(rows_view(rows@) =~= before.push(rv));
            }
        }
        k = k + 1;
    }
    true
}

/// Run a `JOURNAL` query over the directives: for each transaction that the
/// FROM filter keeps (its outcome in `kept`; an error stops the query with
/// that error), each posting whose account the pattern picks (as a regular
/// expression when it compiles, else as a part of the name) gives a row with
/// the transaction's date, flag, payee and narration, the account, the
/// position value (the units, or under `AT COST` their cost) and the running
/// balance of the account, which the posting's position (held at the cost
/// that `costs` gives for it) has been added to.
pub fn execute_journal(
    directives: &Vec<Directive>,
    account_pattern: &str,
    at_function: &Option<String>,
    kept: &Vec<Result<bool, QueryError>>,
    costs: &Vec<Vec<Option<Cost>>>,
    balances: &mut Vec<(String, Vec<Position>)>,
) -> (res: Result<QueryResult, QueryError>)
    requires
        kept@.len() == directives@.len(),
        journal_inputs_ok(directives@, costs@, account_pattern@, *at_function),
        balances_wf(old(balances)@),
        journal_defined(
            directives@,
            kept@,
            costs@,
            account_pattern@,
            *at_function,
            invs_view(old(balances)@),
            directives@.len() as int,
        ),
    ensures
        ({
            let (b, rows, err) = journal_spec(
                directives@,
                kept@,
                costs@,
                account_pattern@,
                *at_function,
                invs_view(old(balances)@),
                directives@.len() as int,
            );
            &&& invs_view(final(balances)@) == b
            &&& match res {
                Ok(r) => err is None && views(r.columns@) == journal_columns() && rows_view(r.rows@) == rows,
                Err(e) => err == Some(e.spec()),
            }
        }),
{
    let is_cost = match at_function {
        Some(f) => {
            let u = to_uppercase(f.as_str());
            str_eq(u.as_str(), "COST")
        },
        None => false,
    };
    let ghost b0 = invs_view(balances@);
    let mut rows: Vec<Vec<Value>> = Vec::new();
    let n = directives.len();
    let mut i: usize = 0;
    while i < n
        invariant
            n == directives@.len(),
            i <= n,
            kept@.len() == n,
            is_cost == at_cost(*at_function),
            b0 == invs_view(old(balances)@),
            journal_inputs_ok(directives@, costs@, account_pattern@, *at_function),
            balances_wf(balances@),
            journal_defined(directives@, kept@, costs@, account_pattern@, *at_function, b0, n as int),
            journal_spec(directives@, kept@, costs@, account_pattern@, *at_function, b0, i as int) == (
                invs_view(balances@),
                rows_view(rows@),
                None::<QueryErrorSpec>,
            ),
        decreases n - i,
    {
        assert(directives@[i as int] matches Directive::Transaction(t) ==> costs@[i as int]@.len() == t.postings@.len());
        match &directives[i] {
            Directive::Transaction(t) => {
                match &kept[i] {
                    Err(e) => {
                        proof {
                            assert(journal_spec(directives@, kept@, costs@, account_pattern@, *at_function, b0, i + 1) == (
                                invs_view(balances@),
                                rows_view(rows@),
                                Some(e.spec()),
                            ));
                            lemma_journal_stopped(
                                directives@,
                                kept@,
                                costs@,
                                account_pattern@,
                                *at_function,
                                b0,
                                i + 1,
                                n as int,
                            );
                        }
                        return Err(copy_error(e));
                    },
                    Ok(false) => {},
                    Ok(true) => {
                        proof {
                            lemma_journal_defined_prefix(
                                directives@,
                                kept@,
                                costs@,
                                account_pattern@,
                                *at_function,
                                b0,
                                i + 1,
                                n as int,
                            );
                        }
                        let ok = journal_transaction(t, &costs[i], account_pattern, at_function, is_cost, balances, &mut rows);
                        assert(ok);
                    },
                }
            },
            _ => {},
        }
        i = i + 1;
    }
    let columns = vec![
        string_of("date"),
        string_of("flag"),
        string_of("payee"),
        string_of("narration"),
        string_of("account"),
        string_of("position"),
        string_of("balance"),
    ];
    assert(views(columns@) =~= journal_columns());
    Ok(QueryResult { columns, rows })
}

/// Once the journal has stopped on an error, it stays defined.
proof fn lemma_journal_defined_after_err(
    ds: Seq<Directive>,
    kept: Seq<Result<bool, QueryError>>,
    costs: Seq<Vec<Option<Cost>>>,
    pattern: Seq<char>,
    at: Option<String>,
    b0: Seq<(Seq<char>, Seq<Position>)>,
    k: int,
    n: int,
)
    requires
        0 <= k <= n,
        journal_defined(ds, kept, costs, pattern, at, b0, k),
        journal_spec(ds, kept, costs, pattern, at, b0, k).2 is Some,
    ensures
        journal_defined(ds, kept, costs, pattern, at, b0, n),
    decreases n - k,
{
    if k < n {
        lemma_journal_defined_after_err(ds, kept, costs, pattern, at, b0, k, n - 1);
        lemma_journal_stopped(ds, kept, costs, pattern, at, b0, k, n - 1);
    }
}

/// A copy of the balances.
fn copy_balances(b: &Vec<(String, Vec<Position>)>) -> (res: Vec<(String, Vec<Position>)>)
    ensures
        invs_view(res@) == invs_view(b@),
        balances_wf(b@) ==> balances_wf(res@),
{
    let mut out: Vec<(String, Vec<Position>)> = Vec::new();
    let n = b.len();
    let mut i: usize = 0;
    while i < n
        invariant
            n == b@.len(),
            i <= n,
            out@.len() == i,
            forall|j: int| 0 <= j < i ==> (#[trigger] out@[j]).0@ == b@[j].0@ && out@[j].1@ == b@[j].1@,
        decreases n - i,
    {
        let ps = crate::columns::copy_positions(&b[i].1);
        out.push((b[i].0.clone(), ps));
        i = i + 1;
    }
    assert(invs_view(out@) =~= invs_view(b@));
    out
}

/// Whether no balance sum overflows in the journal (see `journal_defined`).
fn journal_is_defined(
    directives: &Vec<Directive>,
    account_pattern: &str,
    at_function: &Option<String>,
    is_cost: bool,
    kept: &Vec<Result<bool, QueryError>>,
    costs: &Vec<Vec<Option<Cost>>>,
    balances: &Vec<(String, Vec<Position>)>,
) -> (res: bool)
    requires
        kept@.len() == directives@.len(),
        is_cost == at_cost(*at_function),
        journal_inputs_ok(directives@, costs@, account_pattern@, *at_function),
        balances_wf(balances@),
    ensures
        res == journal_defined(
            directives@,
            kept@,
            costs@,
            account_pattern@,
            *at_function,
            invs_view(balances@),
            directives@.len() as int,
        ),
{
    let ghost b0 = invs_view(balances@);
    let mut work = copy_balances(balances);
    let mut rows: Vec<Vec<Value>> = Vec::new();
    let n = directives.len();
    let mut i: usize = 0;
    while i < n
        invariant
            n == directives@.len(),
            i <= n,
            kept@.len() == n,
            is_cost == at_cost(*at_function),
            b0 == invs_view(balances@),
            journal_inputs_ok(directives@, costs@, account_pattern@, *at_function),
            balances_wf(work@),
            journal_defined(directives@, kept@, costs@, account_pattern@, *at_function, b0, i as int),
            journal_spec(directives@, kept@, costs@, account_pattern@, *at_function, b0, i as int) == (
                invs_view(work@),
                rows_view(rows@),
                None::<QueryErrorSpec>,
            ),
        decreases n - i,
    {
        assert(directives@[i as int] matches Directive::Transaction(t) ==> costs@[i as int]@.len() == t.postings@.len());
        match &directives[i] {
            Directive::Transaction(t) => {
                match &kept[i] {
                    Err(e) => {
                        proof {
                            assert(journal_defined(directives@, kept@, costs@, account_pattern@, *at_function, b0, i + 1));
                            lemma_journal_defined_after_err(
                                directives@,
                                kept@,
                                costs@,
                                account_pattern@,
                                *at_function,
                                b0,
                                i + 1,
                                n as int,
                            );
                        }
                        return true;
                    },
                    Ok(false) => {},
                    Ok(true) => {
                        let ok = journal_transaction(t, &costs[i], account_pattern, at_function, is_cost, &mut work, &mut rows);
                        if !ok {
                            proof {
                                if journal_defined(directives@, kept@, costs@, account_pattern@, *at_function, b0, n as int) {
                                    lemma_journal_defined_prefix(
                                        directives@,
                                        kept@,
                                        costs@,
                                        account_pattern@,
                                        *at_function,
                                        b0,
                                        i + 1,
                                        n as int,
                                    );
                                }
                            }
                            return false;
                        }
                    },
                }
            },
            _ => {},
        }
        i = i + 1;
    }
    true
}

/// Run a `JOURNAL` query as `execute_journal` does where no sum of a running
/// balance overflows; `None`, with the balances left as they were, where
/// one would (the decimal sum panics there).
pub fn try_execute_journal(
    directives: &Vec<Directive>,
    account_pattern: &str,
    at_function: &Option<String>,
    kept: &Vec<Result<bool, QueryError>>,
    costs: &Vec<Vec<Option<Cost>>>,
    balances: &mut Vec<(String, Vec<Position>)>,
) -> (res: Option<Result<QueryResult, QueryError>>)
    requires
        kept@.len() == directives@.len(),
        journal_inputs_ok(directives@, costs@, account_pattern@, *at_function),
        balances_wf(old(balances)@),
    ensures
        res is None <==> !journal_defined(
            directives@,
            kept@,
            costs@,
            account_pattern@,
            *at_function,
            invs_view(old(balances)@),
            directives@.len() as int,
        ),
        res is None ==> final(balances)@ == old(balances)@,
        res matches Some(r) ==> ({
            let (b, rows, err) = journal_spec(
                directives@,
                kept@,
                costs@,
                account_pattern@,
                *at_function,
                invs_view(old(balances)@),
                directives@.len() as int,
            );
            &&& invs_view(final(balances)@) == b
            &&& match r {
                Ok(q) => err is None && views(q.columns@) == journal_columns() && rows_view(q.rows@) == rows,
                Err(e) => err == Some(e.spec()),
            }
        }),
{
    let is_cost = match at_function {
        Some(f) => {
            let u = to_uppercase(f.as_str());
            str_eq(u.as_str(), "COST")
        },
        None => false,
    };
    if !journal_is_defined(directives, account_pattern, at_function, is_cost, kept, costs, balances) {
        return None;
    }
    Some(execute_journal(directives, account_pattern, at_function, kept, costs, balances))
}

} // verus!
