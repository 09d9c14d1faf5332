//! What the ledger's `open` and `close` directives say of each account, and
//! the `OPEN_DATE` and `CLOSE_DATE` functions that read it.

use vstd::prelude::*;
use crate::date::Date;
use crate::ledger::{Directive, MetaValue};
use crate::meta::{meta_lookup, meta_to_value, meta_get, meta_value_to_value};
use crate::text::{str_eq, string_of};
use crate::value::{Value, QueryError, QueryErrorSpec, ValueView, rview};
use crate::funcs::{require_args, call_arity_error};

verus! {

/// The dates an account was opened and closed on.
#[derive(Debug, Clone)]
pub struct AccountInfo {
    /// The account's name.
    pub account: String,
    /// The date of its `open` directive, if any.
    pub open_date: Option<Date>,
    /// The date of its `close` directive, if any.
    pub close_date: Option<Date>,
    /// The metadata of its `open` directive (none without one).
    pub open_meta: Vec<(String, MetaValue)>,
}

/// The date of the last `open` directive of the account.
pub open spec fn open_date_of(ds: Seq<Directive>, a: Seq<char>) -> Option<Date>
    decreases ds.len(),
{
    if ds.len() == 0 {
        None
    } else {
        match ds.last() {
            Directive::Open(o) if o.account@ == a => Some(o.date),
            _ => open_date_of(ds.drop_last(), a),
        }
    }
}

/// The date of the last `close` directive of the account.
pub open spec fn close_date_of(ds: Seq<Directive>, a: Seq<char>) -> Option<Date>
    decreases ds.len(),
{
    if ds.len() == 0 {
        None
    } else {
        match ds.last() {
            Directive::Close(c) if c.account@ == a => Some(c.date),
            _ => close_date_of(ds.drop_last(), a),
        }
    }
}

/// The metadata of the last `open` directive of the account; none without
/// one.
pub open spec fn open_meta_of(ds: Seq<Directive>, a: Seq<char>) -> Seq<(String, MetaValue)>
    decreases ds.len(),
{
    if ds.len() == 0 {
        Seq::empty()
    } else {
        match ds.last() {
            Directive::Open(o) if o.account@ == a => o.meta@,
            _ => open_meta_of(ds.drop_last(), a),
        }
    }
}

/// A copy of a metadata value.
fn copy_meta_value(m: &MetaValue) -> (res: MetaValue)
    ensures
        res == *m,
{
    match m {
        MetaValue::String(s) => MetaValue::String(s.clone()),
        MetaValue::Number(n) => MetaValue::Number(*n),
        MetaValue::Bool(b) => MetaValue::Bool(*b),
        MetaValue::Date(d) => MetaValue::Date(*d),
        MetaValue::Currency(s) => MetaValue::Currency(s.clone()),
        MetaValue::Amount(a) => MetaValue::Amount(crate::columns::copy_amount(a)),
        MetaValue::Account(s) => MetaValue::Account(s.clone()),
        MetaValue::Tag(s) => MetaValue::Tag(s.clone()),
        MetaValue::Link(s) => MetaValue::Link(s.clone()),
        MetaValue::NoValue => MetaValue::NoValue,
    }
}

/// A copy of some metadata.
fn copy_meta(m: &Vec<(String, MetaValue)>) -> (res: Vec<(String, MetaValue)>)
    ensures
        res@ == m@,
{
    let mut out: Vec<(String, MetaValue)> = Vec::new();
    let mut i: usize = 0;
    while i < m.len()
        invariant
            i <= m@.len(),
            out@ == m@.subrange(0, i as int),
        decreases m@.len() - i,
    {
        let k = m[i].0.clone();
        let v = copy_meta_value(&m[i].1);
        out.push((k, v));
        assert(out@ =~= m@.subrange(0, i + 1));
        i = i + 1;
    }
    assert(m@.subrange(0, m@.len() as int) =~= m@);
    out
}

/// The account an `open` or `close` directive is about.
pub open spec fn lifecycle_account(d: Directive) -> Option<Seq<char>> {
    match d {
        Directive::Open(o) => Some(o.account@),
        Directive::Close(c) => Some(c.account@),
        _ => None,
    }
}

/// Some `open` or `close` directive is about the account.
pub open spec fn mentioned(ds: Seq<Directive>, a: Seq<char>) -> bool {
    exists|i: int| 0 <= i < ds.len() && lifecycle_account(#[trigger] ds[i]) == Some(a)
}

/// The entry of an account in the table, if there is one.
pub open spec fn info_of(infos: Seq<AccountInfo>, a: Seq<char>) -> Option<AccountInfo>
    decreases infos.len(),
{
    if infos.len() == 0 {
        None
    } else if infos.last().account@ == a {
        Some(infos.last())
    } else {
        info_of(infos.drop_last(), a)
    }
}

/// The table holds, for each account that an `open` or `close` directive
/// names, the dates of the last of each, and nothing for other accounts.
pub open spec fn describes(infos: Seq<AccountInfo>, ds: Seq<Directive>) -> bool {
    forall|a: Seq<char>|
        #![trigger info_of(infos, a)]
        match info_of(infos, a) {
            Some(e) => mentioned(ds, a) && e.open_date == open_date_of(ds, a) && e.close_date == close_date_of(ds, a)
                && e.open_meta@ == open_meta_of(ds, a),
            None => !mentioned(ds, a),
        }
}

/// The place of an account's entry in the table.
fn find_info(infos: &Vec<AccountInfo>, a: &str) -> (res: Option<usize>)
    ensures
        match res {
            Some(i) => i < infos@.len() && infos@[i as int].account@ == a@ && info_of(infos@, a@) == Some(
                infos@[i as int],
            ) && forall|j: int| i < j < infos@.len() ==> (#[trigger] infos@[j]).account@ != a@,
            None => info_of(infos@, a@) is None,
        },
{
    let mut i: usize = infos.len();
    assert(infos@.subrange(0, i as int) =~= infos@);
    while i > 0
        invariant
            i <= infos@.len(),
            info_of(infos@, a@) == info_of(infos@.subrange(0, i as int), a@),
            forall|j: int| i <= j < infos@.len() ==> (#[trigger] infos@[j]).account@ != a@,
        decreases i,
    {
        let ghost pre = infos@.subrange(0, i as int);
        assert(pre.drop_last() =~= infos@.subrange(0, i - 1));
        assert(pre.last() == infos@[i - 1]);
        if str_eq(infos[i - 1].account.as_str(), a) {
            return Some(i - 1);
        }
        i = i - 1;
    }
    None
}

/// Whether the first `n` directives mention the account.
proof fn lemma_mentioned_step(ds: Seq<Directive>, a: Seq<char>, n: int)
    requires
        0 < n <= ds.len(),
    ensures
        mentioned(ds.subrange(0, n), a) == (mentioned(ds.subrange(0, n - 1), a) || lifecycle_account(ds[n - 1]) == Some(a)),
{
    let pre = ds.subrange(0, n);
    let prev = ds.subrange(0, n - 1);
    if mentioned(pre, a) {
        let i = choose|i: int| 0 <= i < pre.len() && lifecycle_account(#[trigger] pre[i]) == Some(a);
        if i < n - 1 {
            assert(prev[i] == pre[i]);
        }
    }
    if mentioned(prev, a) {
        let i = choose|i: int| 0 <= i < prev.len() && lifecycle_account(#[trigger] prev[i]) == Some(a);
        assert(pre[i] == prev[i]);
    }
    if lifecycle_account(ds[n - 1]) == Some(a) {
        assert(pre[n - 1] == ds[n - 1]);
    }
}

/// An account that no `open` or `close` directive names has no dates.
proof fn lemma_unmentioned(ds: Seq<Directive>, a: Seq<char>)
    requires
        !mentioned(ds, a),
    ensures
        open_date_of(ds, a) is None,
        close_date_of(ds, a) is None,
        open_meta_of(ds, a) == Seq::<(String, MetaValue)>::empty(),
    decreases ds.len(),
{
    if ds.len() > 0 {
        let t = ds.drop_last();
        assert(!mentioned(t, a)) by {
            if mentioned(t, a) {
                let i = choose|i: int| 0 <= i < t.len() && lifecycle_account(#[trigger] t[i]) == Some(a);
                assert(ds[i] == t[i]);
            }
        }
        assert(lifecycle_account(ds[ds.len() - 1]) != Some(a));
        lemma_unmentioned(t, a);
    }
}

/// Changing or adding the entry of one account leaves the others' entries.
proof fn lemma_info_update(infos: Seq<AccountInfo>, k: int, e: AccountInfo, b: Seq<char>)
    requires
        0 <= k < infos.len(),
        infos[k].account@ == e.account@,
        info_of(infos, e.account@) == Some(infos[k]),
        forall|j: int| k < j < infos.len() ==> (#[trigger] infos[j]).account@ != e.account@,
    ensures
        info_of(infos.update(k, e), b) == if b == e.account@ { Some(e) } else { info_of(infos, b) },
    decreases infos.len(),
{
    let u = infos.update(k, e);
    if k == infos.len() - 1 {
        assert(u.drop_last() =~= infos.drop_last());
    } else {
        assert(u.drop_last() =~= infos.drop_last().update(k, e));
        assert(u.last() == infos.last());
        assert(infos.last() == infos[infos.len() - 1]);
        let t = infos.drop_last();
        assert forall|j: int| k < j < t.len() implies (#[trigger] t[j]).account@ != e.account@ by {
            assert(t[j] == infos[j]);
        }
        assert(t[k] == infos[k]);
        lemma_info_update(t, k, e, b);
    }
}

/// What the `open` and `close` directives say of each account they name.
pub fn build_account_info(directives: &[Directive]) -> (res: Vec<AccountInfo>)
    ensures
        describes(res@, directives@),
{
    let mut infos: Vec<AccountInfo> = Vec::new();
    let n = directives.len();
    let mut i: usize = 0;
    while i < n
        invariant
            n == directives@.len(),
            i <= n,
            describes(infos@, directives@.subrange(0, i as int)),
        decreases n - i,
    {
        let ghost prev = directives@.subrange(0, i as int);
        let ghost pre = directives@.subrange(0, i + 1);
        let ghost old_infos = infos@;
        proof {
            assert(pre.drop_last() =~= prev);
            assert(pre.last() == directives@[i as int]);
        }
        let (name, date, opened): (&String, Date, Option<&Vec<(String, MetaValue)>>) = match &directives[i] {
            Directive::Open(o) => (&o.account, o.date, Some(&o.meta)),
            Directive::Close(c) => (&c.account, c.date, None),
            _ => {
                proof {
                    assert forall|a: Seq<char>| #![trigger info_of(infos@, a)] mentioned(pre, a) == mentioned(prev, a) by {
                        lemma_mentioned_step(directives@, a, i + 1);
                    }
                }
                i = i + 1;
                continue;
            },
        };
        proof {
            assert(lifecycle_account(pre.last()) == Some(name@));
            assert(opened matches Some(m) ==> (pre.last() matches Directive::Open(o) && o.account@ == name@ && o.date == date
                && o.meta == *m));
            assert(opened is None ==> (pre.last() matches Directive::Close(c) && c.account@ == name@ && c.date == date));
        }
        match find_info(&infos, name.as_str()) {
            Some(k) => {
                let old_e = &infos[k];
                proof {
                    assert(info_of(old_infos, name@) == Some(old_infos[k as int]));
                }
                let e = match opened {
                    Some(m) => AccountInfo {
                        account: string_of(name.as_str()),
                        open_date: Some(date),
                        close_date: old_e.close_date,
                        open_meta: copy_meta(m),
                    },
                    None => AccountInfo {
                        account: string_of(name.as_str()),
                        open_date: old_e.open_date,
                        close_date: Some(date),
                        open_meta: copy_meta(&old_e.open_meta),
                    },
                };
                infos.set(k, e);
                proof {
                    assert forall|b: Seq<char>| #![trigger info_of(infos@, b)]
                        info_of(infos@, b) == if b == name@ { Some(infos@[k as int]) } else { info_of(old_infos, b) } by {
                        lemma_info_update(old_infos, k as int, infos@[k as int], b);
                    }
                }
            },
            None => {
                let e = match opened {
                    Some(m) => AccountInfo {
                        account: string_of(name.as_str()),
                        open_date: Some(date),
                        close_date: None,
                        open_meta: copy_meta(m),
                    },
                    None => AccountInfo {
                        account: string_of(name.as_str()),
                        open_date: None,
                        close_date: Some(date),
                        open_meta: Vec::new(),
                    },
                };
                infos.push(e);
                proof {
                    assert(infos@.drop_last() =~= old_infos);
                    assert forall|b: Seq<char>| #![trigger info_of(infos@, b)]
                        info_of(infos@, b) == if b == name@ { Some(infos@.last()) } else { info_of(old_infos, b) } by {}
                    assert(!mentioned(prev, name@));
                    lemma_unmentioned(prev, name@);
                }
            },
        }
        proof {
            assert forall|a: Seq<char>| #![trigger info_of(infos@, a)]
                match info_of(infos@, a) {
                    Some(e) => mentioned(pre, a) && e.open_date == open_date_of(pre, a) && e.close_date == close_date_of(pre, a)
                        && e.open_meta@ == open_meta_of(pre, a),
                    None => !mentioned(pre, a),
                } by {
                lemma_mentioned_step(directives@, a, i + 1);
                assert(info_of(old_infos, a) == info_of(old_infos, a));
                if a != name@ {
                    assert(open_date_of(pre, a) == open_date_of(prev, a));
                    assert(close_date_of(pre, a) == close_date_of(prev, a));
                    assert(open_meta_of(pre, a) == open_meta_of(prev, a));
                }
            }
        }
        i = i + 1;
    }
    assert(directives@.subrange(0, n as int) =~= directives@);
    infos
}

/// `OPEN_DATE` (`opening` true) or `CLOSE_DATE` of an account string: the
/// date the table holds, NULL when it holds none; a type error for another
/// argument.
pub open spec fn account_date_spec(name: Seq<char>, opening: bool, args: Seq<Value>, infos: Seq<AccountInfo>) -> Result<ValueView, QueryErrorSpec> {
    if args.len() != 1 {
        Err(call_arity_error(name, 1))
    } else {
        match args[0] {
            Value::String(a) => match info_of(infos, a@) {
                Some(e) => match (if opening { e.open_date } else { e.close_date }) {
                    Some(d) => Ok(ValueView::Date(d)),
                    None => Ok(ValueView::Null),
                },
                None => Ok(ValueView::Null),
            },
            _ => Err(QueryErrorSpec::Type(name + " expects an account string"@)),
        }
    }
}

/// `OPEN_DATE(account)` or `CLOSE_DATE(account)` against the account table.
pub fn eval_account_date(opening: bool, args: &[Value], infos: &Vec<AccountInfo>) -> (res: Result<Value, QueryError>)
    ensures
        rview(res) == account_date_spec(if opening { "OPEN_DATE"@ } else { "CLOSE_DATE"@ }, opening, args@, infos@),
{
    let name = if opening { "OPEN_DATE" } else { "CLOSE_DATE" };
    match require_args(name, args, 1) {
        Ok(()) => {},
        Err(e) => {
            return Err(e);
        },
    }
    match &args[0] {
        Value::String(a) => match find_info(infos, a.as_str()) {
            Some(k) => {
                let d = if opening { infos[k].open_date } else { infos[k].close_date };
                match d {
                    Some(d) => Ok(Value::Date(d)),
                    None => Ok(Value::Null),
                }
            },
            None => Ok(Value::Null),
        },
        _ => {
            let msg = if opening {
                string_of("OPEN_DATE expects an account string")
            } else {
                string_of("CLOSE_DATE expects an account string")
            };
            proof {
                reveal_strlit("OPEN_DATE expects an account string");
                reveal_strlit("CLOSE_DATE expects an account string");
                reveal_strlit("OPEN_DATE");
                reveal_strlit("CLOSE_DATE");
                reveal_strlit(" expects an account string");
                assert("OPEN_DATE expects an account string"@ =~= "OPEN_DATE"@ + " expects an account string"@);
                assert("CLOSE_DATE expects an account string"@ =~= "CLOSE_DATE"@ + " expects an account string"@);
            }
            Err(QueryError::Type(msg))
        },
    }
}

/// `OPEN_META(account, key)` against the account table: the value under
/// the key in the metadata of the account's `open` directive (as
/// `meta_to_value` converts it), NULL for an account the table lacks.
pub open spec fn open_meta_spec(args: Seq<Value>, infos: Seq<AccountInfo>) -> Result<ValueView, QueryErrorSpec> {
    if args.len() != 2 {
        Err(call_arity_error("OPEN_META"@, 2))
    } else {
        match (args[0], args[1]) {
            (Value::String(a), Value::String(k)) => match info_of(infos, a@) {
                Some(e) => Ok(meta_to_value(meta_lookup(e.open_meta@, k@))),
                None => Ok(ValueView::Null),
            },
            _ => Err(QueryErrorSpec::Type("OPEN_META expects (account_string, key_string)"@)),
        }
    }
}

/// `OPEN_META(account, key)` against the account table.
pub fn eval_open_meta(args: &[Value], infos: &Vec<AccountInfo>) -> (res: Result<Value, QueryError>)
    ensures
        rview(res) == open_meta_spec(args@, infos@),
{
    match require_args("OPEN_META", args, 2) {
        Ok(()) => {},
        Err(e) => {
            return Err(e);
        },
    }
    match (&args[0], &args[1]) {
        (Value::String(a), Value::String(k)) => match find_info(infos, a.as_str()) {
            Some(i) => Ok(meta_value_to_value(meta_get(&infos[i].open_meta, k.as_str()))),
            None => Ok(Value::Null),
        },
        _ => Err(QueryError::Type(string_of("OPEN_META expects (account_string, key_string)"))),
    }
}

} // verus!
