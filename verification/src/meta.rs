//! Metadata lookups: `META`, `POSTING_META`, `ENTRY_META` and `ANY_META`.

use vstd::prelude::*;
use crate::columns::PostingContext;
use crate::ledger::MetaValue;
use crate::text::{str_eq, string_of, push_str};
use crate::value::{
    Value, QueryError, QueryErrorSpec, ValueView, rview, vview, seq_order, str_order, field_views, lemma_field_views,
    lemma_seq_order_antisymmetric, reversed,
};
use crate::dec::Order;
use crate::funcs::{require_args, call_arity_error};

verus! {

/// The value stored under a key: that of the first entry with the key.
pub open spec fn meta_lookup(m: Seq<(String, MetaValue)>, key: Seq<char>) -> Option<MetaValue>
    decreases m.len(),
{
    if m.len() == 0 {
        None
    } else if m[0].0@ == key {
        Some(m[0].1)
    } else {
        meta_lookup(m.drop_first(), key)
    }
}

/// A metadata value as a query value: texts of every kind become strings,
/// a missing value or `None` becomes NULL.
pub open spec fn meta_to_value(mv: Option<MetaValue>) -> ValueView {
    match mv {
        None => ValueView::Null,
        Some(MetaValue::String(s)) => ValueView::String(s@),
        Some(MetaValue::Number(n)) => ValueView::Number(n),
        Some(MetaValue::Date(d)) => ValueView::Date(d),
        Some(MetaValue::Bool(b)) => ValueView::Boolean(b),
        Some(MetaValue::Amount(a)) => ValueView::Amount(a.number, a.currency@),
        Some(MetaValue::Account(s)) => ValueView::String(s@),
        Some(MetaValue::Currency(s)) => ValueView::String(s@),
        Some(MetaValue::Tag(s)) => ValueView::String(s@),
        Some(MetaValue::Link(s)) => ValueView::String(s@),
        Some(MetaValue::NoValue) => ValueView::Null,
    }
}

/// The value stored under a key.
pub fn meta_get<'a>(m: &'a Vec<(String, MetaValue)>, key: &str) -> (res: Option<&'a MetaValue>)
    ensures
        match res {
            Some(v) => meta_lookup(m@, key@) == Some(*v),
            None => meta_lookup(m@, key@) is None,
        },
{
    let mut i: usize = 0;
    assert(m@.skip(0) =~= m@);
    while i < m.len()
        invariant
            i <= m@.len(),
            meta_lookup(m@, key@) == meta_lookup(m@.skip(i as int), key@),
        decreases m@.len() - i,
    {
        assert(m@.skip(i as int)[0] == m@[i as int]);
        if str_eq(m[i].0.as_str(), key) {
            return Some(&m[i].1);
        }
        assert(m@.skip(i as int).drop_first() =~= m@.skip(i + 1));
        i = i + 1;
    }
    None
}

/// A copy of a metadata value.
pub fn copy_meta_value(mv: &MetaValue) -> (res: MetaValue)
    ensures
        res == *mv,
{
    match mv {
        MetaValue::String(s) => MetaValue::String(s.clone()),
        MetaValue::Number(n) => MetaValue::Number(*n),
        MetaValue::Bool(b) => MetaValue::Bool(*b),
        MetaValue::Date(d) => MetaValue::Date(*d),
        MetaValue::Currency(s) => MetaValue::Currency(s.clone()),
        MetaValue::Amount(a) => MetaValue::Amount(crate::columns::copy_amount(a)),
        MetaValue::Account(s) => MetaValue::Account(s.clone()),
        MetaValue::Tag(s) => MetaValue::Tag(s.clone()),
        MetaValue::Link(s) => MetaValue::Link(s.clone()),
        MetaValue::NoValue => MetaValue::NoValue,
    }
}

/// A copy of a metadata dictionary.
pub fn copy_meta(m: &Vec<(String, MetaValue)>) -> (res: Vec<(String, MetaValue)>)
    ensures
        res@ == m@,
{
    let mut out: Vec<(String, MetaValue)> = Vec::new();
    let n = m.len();
    let mut i: usize = 0;
    while i < n
        invariant
            n == m@.len(),
            i <= n,
            out@ == m@.subrange(0, i as int),
        decreases n - i,
    {
        out.push((m[i].0.clone(), copy_meta_value(&m[i].1)));
        assert(out@ =~= m@.subrange(0, i + 1));
        i = i + 1;
    }
    assert(m@.subrange(0, n as int) =~= m@);
    out
}

/// A metadata value as a query value.
pub fn meta_value_to_value(mv: Option<&MetaValue>) -> (res: Value)
    ensures
        vview(res) == meta_to_value(
            match mv {
                Some(v) => Some(*v),
                None => None,
            },
        ),
{
    match mv {
        None => Value::Null,
        Some(MetaValue::String(s)) => Value::String(s.clone()),
        Some(MetaValue::Number(n)) => Value::Number(*n),
        Some(MetaValue::Date(d)) => Value::Date(*d),
        Some(MetaValue::Bool(b)) => Value::Boolean(*b),
        Some(MetaValue::Amount(a)) => Value::Amount(crate::columns::copy_amount(a)),
        Some(MetaValue::Account(s)) => Value::String(s.clone()),
        Some(MetaValue::Currency(s)) => Value::String(s.clone()),
        Some(MetaValue::Tag(s)) => Value::String(s.clone()),
        Some(MetaValue::Link(s)) => Value::String(s.clone()),
        Some(MetaValue::NoValue) => Value::Null,
    }
}

/// Fields kept in increasing order of their keys, with one more put before
/// the first field whose key is not less than its own.
pub open spec fn sorted_insert(
    s: Seq<(Seq<char>, ValueView)>,
    k: Seq<char>,
    v: ValueView,
) -> Seq<(Seq<char>, ValueView)>
    decreases s.len(),
{
    if s.len() == 0 {
        seq![(k, v)]
    } else if seq_order(s[0].0, k) == Order::Less {
        seq![s[0]] + sorted_insert(s.drop_first(), k, v)
    } else {
        seq![(k, v)] + s
    }
}

/// A metadata dictionary as an object: each key once, in increasing order,
/// with the value stored under it.
pub open spec fn meta_object_view(m: Seq<(String, MetaValue)>) -> Seq<(Seq<char>, ValueView)>
    decreases m.len(),
{
    if m.len() == 0 {
        Seq::empty()
    } else {
        let rest = meta_object_view(m.drop_last());
        let k = m.last().0@;
        if meta_lookup(m.drop_last(), k) is Some {
            rest
        } else {
            sorted_insert(rest, k, meta_to_value(Some(m.last().1)))
        }
    }
}

/// Inserting in order puts the field after the fields with smaller keys.
proof fn lemma_sorted_insert_at(s: Seq<(Seq<char>, ValueView)>, k: Seq<char>, v: ValueView, p: int)
    requires
        0 <= p <= s.len(),
        forall|j: int| 0 <= j < p ==> seq_order(#[trigger] s[j].0, k) == Order::Less,
        p == s.len() || seq_order(s[p].0, k) != Order::Less,
    ensures
        sorted_insert(s, k, v) == s.insert(p, (k, v)),
    decreases p,
{
    if p == 0 {
        if s.len() == 0 {
            assert(s.insert(0, (k, v)) =~= seq![(k, v)]);
        } else {
            assert(s.insert(0, (k, v)) =~= seq![(k, v)] + s);
        }
    } else {
        let t = s.drop_first();
        assert forall|j: int| 0 <= j < p - 1 implies seq_order(#[trigger] t[j].0, k) == Order::Less by {
            assert(t[j] == s[j + 1]);
        }
        if p < s.len() {
            assert(t[p - 1] == s[p]);
        }
        lemma_sorted_insert_at(t, k, v, p - 1);
        assert(seq_order(s[0].0, k) == Order::Less);
        assert(seq![s[0]] + t.insert(p - 1, (k, v)) =~= s.insert(p, (k, v)));
    }
}

/// The code of a character, as a `u32`, is the character itself.
proof fn lemma_char_code(x: char)
    ensures
        (x as u32) as int == x as int,
{
    assert(0 <= x as int <= 0x10FFFF);
}

/// Characters with the same code are the same.
proof fn lemma_char_same(x: char, y: char)
    requires
        (x as int) == (y as int),
    ensures
        x == y,
{
}

/// Texts that sort equal are equal.
proof fn lemma_seq_order_equal(a: Seq<char>, b: Seq<char>)
    requires
        seq_order(a, b) == Order::Equal,
    ensures
        a == b,
    decreases a.len(),
{
    if a.len() > 0 && b.len() > 0 {
        lemma_char_code(a[0]);
        lemma_char_code(b[0]);
        lemma_char_same(a[0], b[0]);
        lemma_seq_order_equal(a.drop_first(), b.drop_first());
        assert(a =~= seq![a[0]] + a.drop_first());
        assert(b =~= seq![b[0]] + b.drop_first());
    } else {
        assert(a =~= b);
    }
}

/// Inserting in order puts the field at some place after the fields with
/// smaller keys and before the first field whose key is not smaller.
proof fn lemma_sorted_insert_place(s: Seq<(Seq<char>, ValueView)>, k: Seq<char>, v: ValueView) -> (p: int)
    ensures
        0 <= p <= s.len(),
        forall|j: int| 0 <= j < p ==> seq_order(#[trigger] s[j].0, k) == Order::Less,
        p == s.len() || seq_order(s[p].0, k) != Order::Less,
        sorted_insert(s, k, v) == s.insert(p, (k, v)),
    decreases s.len(),
{
    if s.len() == 0 || seq_order(s[0].0, k) != Order::Less {
        lemma_sorted_insert_at(s, k, v, 0);
        0
    } else {
        let t = s.drop_first();
        let q = lemma_sorted_insert_place(t, k, v);
        assert forall|j: int| 0 <= j < q + 1 implies seq_order(#[trigger] s[j].0, k) == Order::Less by {
            if j > 0 {
                assert(s[j] == t[j - 1]);
            }
        }
        if q + 1 < s.len() {
            assert(s[q + 1] == t[q]);
        }
        lemma_sorted_insert_at(s, k, v, q + 1);
        q + 1
    }
}

/// Looking a key up after one more entry: the earlier entries win.
proof fn lemma_meta_lookup_push(m: Seq<(String, MetaValue)>, e: (String, MetaValue), k: Seq<char>)
    ensures
        meta_lookup(m.push(e), k) == (match meta_lookup(m, k) {
            Some(v) => Some(v),
            None => if e.0@ == k {
                Some(e.1)
            } else {
                None
            },
        }),
    decreases m.len(),
{
    let mp = m.push(e);
    if m.len() > 0 {
        assert(mp[0] == m[0]);
        assert(mp.drop_first() =~= m.drop_first().push(e));
        lemma_meta_lookup_push(m.drop_first(), e, k);
        if m[0].0@ != k {
            assert(meta_lookup(mp, k) == meta_lookup(mp.drop_first(), k));
            assert(meta_lookup(m, k) == meta_lookup(m.drop_first(), k));
        }
    } else {
        assert(mp[0] == e);
        assert(mp.drop_first() =~= Seq::<(String, MetaValue)>::empty());
        assert(meta_lookup(m, k) is None);
        if e.0@ != k {
            assert(meta_lookup(mp, k) == meta_lookup(mp.drop_first(), k));
        }
    }
}

/// The object a metadata dictionary gives has each key of the dictionary
/// once, in increasing order of the keys, with the value stored under it (that
/// of its first entry), and no other key.
pub proof fn law_meta_object(m: Seq<(String, MetaValue)>)
    ensures
        forall|k: Seq<char>|
            (exists|i: int| 0 <= i < meta_object_view(m).len() && #[trigger] meta_object_view(m)[i].0 == k)
                <==> (#[trigger] meta_lookup(m, k)) is Some,
        forall|i: int|
            0 <= i < meta_object_view(m).len() ==> (#[trigger] meta_object_view(m)[i]).1 == meta_to_value(
                meta_lookup(m, meta_object_view(m)[i].0),
            ),
        forall|i: int, j: int|
            0 <= i && j == i + 1 && j < meta_object_view(m).len() ==> seq_order(
                (#[trigger] meta_object_view(m)[i]).0,
                (#[trigger] meta_object_view(m)[j]).0,
            ) == Order::Less,
    decreases m.len(),
{
    if m.len() > 0 {
        let m0 = m.drop_last();
        let e = m.last();
        assert(m0.push(e) =~= m);
        law_meta_object(m0);
        let o0 = meta_object_view(m0);
        let o = meta_object_view(m);
        assert forall|k: Seq<char>| #[trigger] meta_lookup(m, k) == (match meta_lookup(m0, k) {
            Some(v) => Some(v),
            None => if e.0@ == k {
                Some(e.1)
            } else {
                None
            },
        }) by {
            lemma_meta_lookup_push(m0, e, k);
        }
        if meta_lookup(m0, e.0@) is Some {
            assert(o == o0);
            assert forall|k: Seq<char>|
                (exists|i: int| 0 <= i < o.len() && #[trigger] o[i].0 == k) <==> (#[trigger] meta_lookup(m, k)) is Some by {
                if meta_lookup(m, k) is Some {
                    assert(meta_lookup(m0, k) is Some);
                }
            }
        } else {
            let k0 = e.0@;
            let v0 = meta_to_value(Some(e.1));
            let p = lemma_sorted_insert_place(o0, k0, v0);
            assert(o == o0.insert(p, (k0, v0)));
            assert forall|k: Seq<char>|
                (exists|i: int| 0 <= i < o.len() && #[trigger] o[i].0 == k) <==> (#[trigger] meta_lookup(m, k)) is Some by {
                if exists|i: int| 0 <= i < o.len() && #[trigger] o[i].0 == k {
                    let i = choose|i: int| 0 <= i < o.len() && #[trigger] o[i].0 == k;
                    if i < p {
                        assert(o[i] == o0[i]);
                    } else if i > p {
                        assert(o[i] == o0[i - 1]);
                    }
                }
                if meta_lookup(m, k) is Some {
                    if meta_lookup(m0, k) is Some {
                        let i = choose|i: int| 0 <= i < o0.len() && #[trigger] o0[i].0 == k;
                        if i < p {
                            assert(o[i] == o0[i]);
                        } else {
                            assert(o[i + 1] == o0[i]);
                        }
                    } else {
                        assert(o[p].0 == k);
                    }
                }
            }
            assert forall|i: int| 0 <= i < o.len() implies (#[trigger] o[i]).1 == meta_to_value(meta_lookup(m, o[i].0)) by {
                if i < p {
                    assert(o[i] == o0[i]);
                    assert(meta_lookup(m0, o0[i].0) is Some);
                } else if i > p {
                    assert(o[i] == o0[i - 1]);
                    assert(meta_lookup(m0, o0[i - 1].0) is Some);
                }
            }
            if p < o0.len() {
                let kp = o0[p].0;
                if seq_order(kp, k0) == Order::Equal {
                    lemma_seq_order_equal(kp, k0);
                    assert(meta_lookup(m0, kp) is Some);
                }
                lemma_seq_order_antisymmetric(k0, kp);
                assert(seq_order(k0, kp) == Order::Less);
            }
            assert forall|i: int, j: int|
                0 <= i && j == i + 1 && j < o.len() implies seq_order(
                (#[trigger] o[i]).0,
                (#[trigger] o[j]).0,
            ) == Order::Less by {
                if j < p {
                    assert(o[i] == o0[i] && o[j] == o0[j]);
                } else if j == p {
                    assert(o[i] == o0[i]);
                } else if i == p {
                    assert(o[j] == o0[p]);
                } else {
                    assert(o[i] == o0[i - 1] && o[j] == o0[j - 1]);
                }
            }
        }
    }
}

/// Whether a key occurs among the first `i` entries.
fn seen_before(m: &Vec<(String, MetaValue)>, i: usize, key: &str) -> (res: bool)
    requires
        i <= m@.len(),
    ensures
        res == (meta_lookup(m@.take(i as int), key@) is Some),
{
    let ghost t = m@.take(i as int);
    let mut j: usize = 0;
    assert(t.skip(0) =~= t);
    while j < i
        invariant
            i <= m@.len(),
            j <= i,
            t == m@.take(i as int),
            meta_lookup(t, key@) == meta_lookup(t.skip(j as int), key@),
        decreases i - j,
    {
        assert(t.skip(j as int)[0] == m@[j as int]);
        if str_eq(m[j].0.as_str(), key) {
            return true;
        }
        assert(t.skip(j as int).drop_first() =~= t.skip(j + 1));
        j = j + 1;
    }
    assert(t.skip(i as int).len() == 0);
    false
}

/// Whether a field's key comes before a key.
fn key_before(field: &(String, Value), key: &str) -> (res: bool)
    ensures
        res == (seq_order(field.0@, key@) == Order::Less),
{
    str_order(field.0.as_str(), key) == Order::Less
}

/// A metadata dictionary as an object (the `meta` field of the `entry`
/// column).
pub fn meta_object(m: &Vec<(String, MetaValue)>) -> (res: Vec<(String, Value)>)
    ensures
        field_views(res, res@.len() as nat) == meta_object_view(m@),
{
    let mut out: Vec<(String, Value)> = Vec::new();
    let n = m.len();
    let mut i: usize = 0;
    assert(m@.take(0) =~= Seq::<(String, MetaValue)>::empty());
    while i < n
        invariant
            n == m@.len(),
            i <= n,
            field_views(out, out@.len() as nat) == meta_object_view(m@.take(i as int)),
        decreases n - i,
    {
        let ghost pre = m@.take(i + 1);
        assert(pre.drop_last() =~= m@.take(i as int));
        assert(pre.last() == m@[i as int]);
        let key = m[i].0.as_str();
        if !seen_before(m, i, key) {
            let ghost ov = field_views(out, out@.len() as nat);
            proof {
                lemma_field_views(out, out@.len() as nat);
            }
            let mut p: usize = 0;
            while p < out.len() && key_before(&out[p], key)
                invariant
                    p <= out@.len(),
                    ov == field_views(out, out@.len() as nat),
                    ov.len() == out@.len(),
                    forall|j: int| 0 <= j < out@.len() ==> #[trigger] ov[j] == (out@[j].0@, vview(out@[j].1)),
                    forall|j: int| 0 <= j < p ==> seq_order(#[trigger] ov[j].0, key@) == Order::Less,
                decreases out@.len() - p,
            {
                p = p + 1;
            }
            let v = meta_value_to_value(Some(&m[i].1));
            let ghost vv = vview(v);
            let ghost old_out = out@;
            out.insert(p, (m[i].0.clone(), v));
            proof {
                lemma_sorted_insert_at(ov, key@, meta_to_value(Some(m@[i as int].1)), p as int);
                lemma_field_views(out, out@.len() as nat);
                assert(out@ == old_out.insert(p as int, out@[p as int]));
                assert(field_views(out, out@.len() as nat) =~= ov.insert(p as int, (key@, vv)));
            }
        }
        i = i + 1;
    }
    assert(m@.take(n as int) =~= m@);
    out
}

/// The names of the metadata functions.
pub open spec fn is_meta_name(u: Seq<char>) -> bool {
    u == "META"@ || u == "POSTING_META"@ || u == "ENTRY_META"@ || u == "ANY_META"@
}

/// A metadata function (by its upper-cased name) of a row's posting: a
/// string key is looked up in the posting's metadata (`META`,
/// `POSTING_META`), in the transaction's (`ENTRY_META`), or in the
/// posting's and then the transaction's (`ANY_META`).
pub open spec fn meta_function_spec(u: Seq<char>, args: Seq<Value>, ctx: PostingContext) -> Result<ValueView, QueryErrorSpec> {
    if args.len() != 1 {
        Err(call_arity_error(u, 1))
    } else {
        match args[0] {
            Value::String(key) => {
                let pm = ctx.transaction.postings@[ctx.posting_index as int].meta@;
                let tm = ctx.transaction.meta@;
                Ok(
                    meta_to_value(
                        if u == "ENTRY_META"@ {
                            meta_lookup(tm, key@)
                        } else if u == "ANY_META"@ {
                            match meta_lookup(pm, key@) {
                                Some(v) => Some(v),
                                None => meta_lookup(tm, key@),
                            }
                        } else {
                            meta_lookup(pm, key@)
                        },
                    ),
                )
            },
            _ => Err(QueryErrorSpec::Type(u + ": argument must be a string key"@)),
        }
    }
}

/// Evaluate a metadata function for a row.
pub fn eval_meta_function(name: &str, args: &[Value], ctx: &PostingContext) -> (res: Result<Value, QueryError>)
    requires
        is_meta_name(name@),
        ctx.posting_index < ctx.transaction.postings@.len(),
    ensures
        rview(res) == meta_function_spec(name@, args@, *ctx),
{
    match require_args(name, args, 1) {
        Ok(()) => {},
        Err(e) => {
            return Err(e);
        },
    }
    let key = match &args[0] {
        Value::String(s) => s,
        _ => {
            let mut msg = string_of(name);
            push_str(&mut msg, ": argument must be a string key");
            return Err(QueryError::Type(msg));
        },
    };
    let posting = &ctx.transaction.postings[ctx.posting_index];
    let mv = if str_eq(name, "ENTRY_META") {
        meta_get(&ctx.transaction.meta, key.as_str())
    } else if str_eq(name, "ANY_META") {
        match meta_get(&posting.meta, key.as_str()) {
            Some(v) => Some(v),
            None => meta_get(&ctx.transaction.meta, key.as_str()),
        }
    } else {
        meta_get(&posting.meta, key.as_str())
    };
    Ok(meta_value_to_value(mv))
}

} // verus!
