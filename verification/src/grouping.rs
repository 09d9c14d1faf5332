//! `GROUP BY`: rows with the same group key form a group, keyed by the
//! values of its first row.

use vstd::prelude::*;
use crate::text::str_eq;
use crate::value::{Value, group_key_spec, make_group_key};
use crate::windows::{members, lemma_members, row_wf};

verus! {

/// The group key of each row.
pub open spec fn group_keys(kv: Seq<Vec<Value>>) -> Seq<Seq<char>> {
    kv.map_values(|v: Vec<Value>| group_key_spec(v@))
}

/// Row `i` is the first with its key.
pub open spec fn first_of_key(ks: Seq<Seq<char>>, i: int) -> bool {
    forall|j: int| 0 <= j < i ==> ks[j] != ks[i]
}

/// The first row of each group among the first `n`, in order.
pub open spec fn group_starts(ks: Seq<Seq<char>>, n: nat) -> Seq<usize>
    decreases n,
{
    if n == 0 {
        Seq::empty()
    } else {
        let f = group_starts(ks, (n - 1) as nat);
        if first_of_key(ks, n - 1) {
            f.push((n - 1) as usize)
        } else {
            f
        }
    }
}

/// Group rows by the key of their `GROUP BY` values: one group per key, in
/// the order of each key's first row, holding that row's values and the
/// indices of all the rows with the key, in order.
pub fn group_by_keys(key_values: Vec<Vec<Value>>) -> (res: Vec<(Vec<Value>, Vec<usize>)>)
    requires
        forall|i: int| 0 <= i < key_values@.len() ==> row_wf((#[trigger] key_values@[i])@),
    ensures
        res@.len() == group_starts(group_keys(key_values@), key_values@.len()).len(),
        forall|g: int|
            0 <= g < res@.len() ==> {
                let ks = group_keys(key_values@);
                let f = group_starts(ks, key_values@.len())[g];
                &&& (#[trigger] res@[g]).0 == key_values@[f as int]
                &&& res@[g].1@ == members(ks, ks[f as int], key_values@.len())
            },
{
    let ghost kv = key_values@;
    let ghost ks = group_keys(kv);
    let n = key_values.len();
    let mut keys: Vec<String> = Vec::new();
    let mut i: usize = 0;
    while i < n
        invariant
            n == kv.len(),
            kv == key_values@,
            i <= n,
            keys@.len() == i,
            forall|j: int| 0 <= j < kv.len() ==> row_wf((#[trigger] kv[j])@),
            forall|j: int| 0 <= j < i ==> (#[trigger] keys@[j])@ == ks[j],
            ks == group_keys(kv),
        decreases n - i,
    {
        assert(row_wf(kv[i as int]@));
        assert(ks[i as int] == group_key_spec(kv[i as int]@));
        let k = make_group_key(key_values[i].as_slice());
        keys.push(k);
        i = i + 1;
    }
    assert(ks.len() == n);
    let mut rest = key_values;
    let mut out: Vec<(Vec<Value>, Vec<usize>)> = Vec::new();
    i = 0;
    while i < n
        invariant
            n == kv.len(),
            ks.len() == n,
            i <= n,
            keys@.len() == n,
            rest@ == kv.subrange(i as int, n as int),
            forall|j: int| 0 <= j < n ==> (#[trigger] keys@[j])@ == ks[j],
            out@.len() == group_starts(ks, i as nat).len(),
            forall|g: int|
                0 <= g < out@.len() ==> {
                    let f = group_starts(ks, i as nat)[g];
                    &&& (#[trigger] out@[g]).0 == kv[f as int]
                    &&& out@[g].1@ == members(ks, ks[f as int], n as nat)
                },
        decreases n - i,
    {
        let v = rest.remove(0);
        assert(v == kv[i as int]);
        assert(rest@ =~= kv.subrange(i + 1, n as int));
        let mut first = true;
        let mut j: usize = 0;
        while j < i
            invariant
                i < n,
                keys@.len() == n,
                j <= i,
                forall|t: int| 0 <= t < n ==> (#[trigger] keys@[t])@ == ks[t],
                first <==> forall|t: int| 0 <= t < j ==> ks[t] != ks[i as int],
            decreases i - j,
        {
            if str_eq(keys[j].as_str(), keys[i].as_str()) {
                first = false;
            }
            j = j + 1;
        }
        if first {
            let mut mem: Vec<usize> = Vec::new();
            let mut t: usize = 0;
            while t < n
                invariant
                    i < n,
                    t <= n,
                    keys@.len() == n,
                    ks.len() == n,
                    forall|q: int| 0 <= q < n ==> (#[trigger] keys@[q])@ == ks[q],
                    mem@ == members(ks, ks[i as int], t as nat),
                decreases n - t,
            {
                if str_eq(keys[t].as_str(), keys[i].as_str()) {
                    mem.push(t);
                }
                t = t + 1;
            }
            out.push((v, mem));
        }
        proof {
            assert(first_of_key(ks, i as int) == first);
        }
        i = i + 1;
    }
    out
}

/// The groups of `GROUP BY`, over `count` rows: without `GROUP BY`
/// (`key_values` is `None`) all the rows form one group with no key values,
/// and there is no group at all when there are no rows.
pub fn group_postings(key_values: Option<Vec<Vec<Value>>>, count: usize) -> (res: Vec<(Vec<Value>, Vec<usize>)>)
    requires
        key_values matches Some(kv) ==> kv@.len() == count && forall|i: int| 0 <= i < kv@.len() ==> row_wf(
            (#[trigger] kv@[i])@,
        ),
    ensures
        match key_values {
            None => if count == 0 {
                res@.len() == 0
            } else {
                &&& res@.len() == 1
                &&& res@[0].0@.len() == 0
                &&& res@[0].1@ == Seq::new(count as nat, |i: int| i as usize)
            },
            Some(kv) => {
                let ks = group_keys(kv@);
                &&& res@.len() == group_starts(ks, count as nat).len()
                &&& forall|g: int|
                    0 <= g < res@.len() ==> {
                        let f = group_starts(ks, count as nat)[g];
                        &&& (#[trigger] res@[g]).0 == kv@[f as int]
                        &&& res@[g].1@ == members(ks, ks[f as int], count as nat)
                    }
            },
        },
{
    match key_values {
        Some(kv) => group_by_keys(kv),
        None => {
            let mut out: Vec<(Vec<Value>, Vec<usize>)> = Vec::new();
            if count > 0 {
                let mut all: Vec<usize> = Vec::new();
                let mut i: usize = 0;
                while i < count
                    invariant
                        i <= count,
                        all@ == Seq::new(i as nat, |j: int| j as usize),
                    decreases count - i,
                {
                    all.push(i);
                    i = i + 1;
                    assert(all@ =~= Seq::new(i as nat, |j: int| j as usize));
                }
                out.push((Vec::new(), all));
            }
            out
        },
    }
}

/// A group holds exactly the rows that have its key, each once.
pub proof fn law_group_holds_its_rows(ks: Seq<Seq<char>>, k: Seq<char>, n: nat)
    requires
        n <= ks.len(),
        n <= usize::MAX,
    ensures
        members(ks, k, n).no_duplicates(),
        forall|y: usize| #[trigger] members(ks, k, n).contains(y) <==> (y < n && ks[y as int] == k),
{
    lemma_members(ks, k, n);
}

} // verus!
