//! Account names: the naming rules, and the account functions of queries
//! (`PARENT`, `LEAF`, `ROOT`, `ACCOUNT_DEPTH`, `ACCOUNT_SORTKEY`).

use vstd::prelude::*;
use vstd::string::*;
use crate::text::{nat_text, push_char, push_str, str_eq, string_of, u64_text};

verus! {

/// The components of a name split at every `:` (as `str::split(':')` gives them).
pub open spec fn split_colon(s: Seq<char>) -> Seq<Seq<char>>
    decreases s.len(),
{
    if s.len() == 0 {
        seq![Seq::empty()]
    } else {
        let p = split_colon(s.drop_last());
        if s.last() == ':' {
            p.push(Seq::empty())
        } else {
            p.update(p.len() - 1, p.last().push(s.last()))
        }
    }
}

pub proof fn lemma_split_colon_nonempty(s: Seq<char>)
    ensures
        split_colon(s).len() >= 1,
    decreases s.len(),
{
    if s.len() > 0 {
        lemma_split_colon_nonempty(s.drop_last());
    }
}

/// The strings of a list joined with a separator between them.
pub open spec fn join_seq(list: Seq<Seq<char>>, sep: Seq<char>) -> Seq<char>
    decreases list.len(),
{
    if list.len() == 0 {
        Seq::empty()
    } else if list.len() == 1 {
        list[0]
    } else {
        join_seq(list.drop_last(), sep) + sep + list.last()
    }
}

/// The characters of each string of a list.
pub open spec fn views(list: Seq<String>) -> Seq<Seq<char>> {
    list.map_values(|t: String| t@)
}

/// An optional string by its characters.
pub open spec fn opt_chars(o: Option<String>) -> Option<Seq<char>> {
    match o {
        Some(s) => Some(s@),
        None => None,
    }
}

/// A character that may start an account component: an upper-case ASCII
/// letter, an ASCII digit, or any non-ASCII character.
pub open spec fn valid_start(c: char) -> bool {
    ('A' <= c && c <= 'Z') || ('0' <= c && c <= '9') || (c as u32) >= 128
}

/// An ASCII character that may not appear after the first one of a component:
/// anything but letters, digits and `-`.
pub open spec fn invalid_rest(c: char) -> bool {
    (c as u32) < 128 && !(('A' <= c && c <= 'Z') || ('a' <= c && c <= 'z') || ('0' <= c
        && c <= '9') || c == '-')
}

/// The first character from position `k` on that may not appear in a component.
pub open spec fn first_invalid_from(part: Seq<char>, k: int) -> Option<char>
    decreases part.len() - k,
{
    if k < 0 || k >= part.len() {
        None
    } else if invalid_rest(part[k]) {
        Some(part[k])
    } else {
        first_invalid_from(part, k + 1)
    }
}

/// What is wrong with component number `i` (counting from zero), if anything.
pub open spec fn component_error_spec(part: Seq<char>, i: nat) -> Option<Seq<char>> {
    if part.len() == 0 {
        Some("component "@ + nat_text(i + 1) + " is empty"@)
    } else if !valid_start(part[0]) {
        Some("component '"@ + part + "' must start with uppercase letter or digit"@)
    } else {
        match first_invalid_from(part, 1) {
            Some(c) => Some(
                "component '"@ + part + "' contains invalid character '"@ + seq![c] + "'"@,
            ),
            None => None,
        }
    }
}

/// The first error among the components from number `i` on.
pub open spec fn components_error(comps: Seq<Seq<char>>, i: int) -> Option<Seq<char>>
    decreases comps.len() - i,
{
    if i < 0 || i >= comps.len() {
        None
    } else {
        match component_error_spec(comps[i], i as nat) {
            Some(e) => Some(e),
            None => components_error(comps, i + 1),
        }
    }
}

/// Why an account name is invalid under the given account types, or `None`
/// when it is valid.
pub open spec fn account_name_error(account: Seq<char>, types: Seq<Seq<char>>) -> Option<
    Seq<char>,
> {
    if account.len() == 0 {
        Some("account name is empty"@)
    } else {
        let comps = split_colon(account);
        if comps[0].len() == 0 {
            Some("component 1 is empty"@)
        } else if !types.contains(comps[0]) {
            Some("account must start with one of: "@ + join_seq(types, ", "@))
        } else {
            components_error(comps, 0)
        }
    }
}

proof fn lemma_first_invalid_skip(part: Seq<char>, a: int, b: int)
    requires
        0 <= a <= b,
        forall|j: int| a <= j < b && j < part.len() ==> !invalid_rest(#[trigger] part[j]),
    ensures
        first_invalid_from(part, a) == first_invalid_from(part, b),
    decreases b - a,
{
    if a < b {
        lemma_first_invalid_skip(part, a + 1, b);
    }
}

proof fn lemma_components_skip(comps: Seq<Seq<char>>, a: int, b: int)
    requires
        0 <= a <= b <= comps.len(),
        forall|j: int| a <= j < b ==> component_error_spec(#[trigger] comps[j], j as nat) is None,
    ensures
        components_error(comps, a) == components_error(comps, b),
    decreases b - a,
{
    if a < b {
        lemma_components_skip(comps, a + 1, b);
    }
}

/// Split a name into its `:`-separated components.
pub fn split_account(s: &str) -> (res: Vec<String>)
    ensures
        views(res@) == split_colon(s@),
{
    let n = s.unicode_len();
    let mut done: Vec<String> = Vec::new();
    let mut cur = String::new();
    let mut i: usize = 0;
    while i < n
        invariant
            n == s@.len(),
            i <= n,
            views(done@).push(cur@) == split_colon(s@.subrange(0, i as int)),
        decreases n - i,
    {
        let c = s.get_char(i);
        let ghost pre = s@.subrange(0, i as int);
        assert(s@.subrange(0, i + 1).drop_last() =~= pre);
        assert(s@.subrange(0, i + 1).last() == c);
        if c == ':' {
            let finished = cur;
            done.push(finished);
            cur = String::new();
            assert(views(done@).push(cur@) =~= split_colon(pre).push(Seq::empty()));
        } else {
            let ghost old_cur = cur@;
            push_char(&mut cur, c);
            assert(views(done@).push(cur@) =~= split_colon(pre).update(
                split_colon(pre).len() - 1,
                split_colon(pre).last().push(c),
            ));
        }
        i = i + 1;
    }
    assert(s@.subrange(0, n as int) =~= s@);
    done.push(cur);
    assert(views(done@) =~= split_colon(s@));
    done
}

/// The strings of a list joined with a separator between them.
pub fn join_strings(list: &[String], sep: &str) -> (res: String)
    ensures
        res@ == join_seq(views(list@), sep@),
{
    let res = join_first(list, list.len(), sep);
    assert(views(list@).subrange(0, list@.len() as int) =~= views(list@));
    res
}

/// The first `count` strings of a list joined with a separator between them.
pub fn join_first(list: &[String], count: usize, sep: &str) -> (res: String)
    requires
        count <= list@.len(),
    ensures
        res@ == join_seq(views(list@).subrange(0, count as int), sep@),
{
    let mut res = String::new();
    let n = count;
    let mut i: usize = 0;
    while i < n
        invariant
            n <= list@.len(),
            i <= n,
            res@ == join_seq(views(list@).subrange(0, i as int), sep@),
        decreases n - i,
    {
        let ghost l = views(list@).subrange(0, i + 1);
        assert(l.drop_last() =~= views(list@).subrange(0, i as int));
        assert(l.last() == list@[i as int]@);
        if i > 0 {
            push_str(&mut res, sep);
        } else {
            assert(l.len() == 1);
        }
        push_str(&mut res, list[i].as_str());
        i = i + 1;
    }
    res
}

/// What is wrong with one component, counting components from zero.
pub fn component_error(part: &str, index: usize) -> (res: Option<String>)
    requires
        index < usize::MAX,
        index < u64::MAX,
    ensures
        opt_chars(res) == component_error_spec(part@, index as nat),
{
    let n = part.unicode_len();
    if n == 0 {
        let mut msg = string_of("component ");
        let num = u64_text((index + 1) as u64);
        push_str(&mut msg, num.as_str());
        push_str(&mut msg, " is empty");
        return Some(msg);
    }
    let first = part.get_char(0);
    let is_valid_start = ('A' <= first && first <= 'Z') || ('0' <= first && first <= '9') || (
    first as u32) >= 128;
    if !is_valid_start {
        let mut msg = string_of("component '");
        push_str(&mut msg, part);
        push_str(&mut msg, "' must start with uppercase letter or digit");
        return Some(msg);
    }
    let mut k: usize = 1;
    while k < n
        invariant
            n == part@.len(),
            1 <= k <= n,
            valid_start(part@[0]),
            first_invalid_from(part@, 1) == first_invalid_from(part@, k as int),
        decreases n - k,
    {
        let c = part.get_char(k);
        let bad = (c as u32) < 128 && !(('A' <= c && c <= 'Z') || ('a' <= c && c <= 'z') || (
        '0' <= c && c <= '9') || c == '-');
        if bad {
            let mut msg = string_of("component '");
            push_str(&mut msg, part);
            push_str(&mut msg, "' contains invalid character '");
            push_char(&mut msg, c);
            push_str(&mut msg, "'");
            assert(msg@ =~= "component '"@ + part@ + "' contains invalid character '"@ + seq![c]
                + "'"@);
            assert(first_invalid_from(part@, k as int) == Some(c));
            return Some(msg);
        }
        proof {
            lemma_first_invalid_skip(part@, k as int, k + 1);
        }
        k = k + 1;
    }
    None
}

/// Validate an account name according to beancount rules.
/// Returns None if valid, or Some(reason) if invalid.
///
/// The `account_types` parameter specifies valid account type prefixes (from options
/// like `name_assets`, `name_liabilities`, etc.).
pub fn validate_account_name(account: &str, account_types: &[String]) -> (res: Option<String>)
    ensures
        opt_chars(res) == account_name_error(account@, views(account_types@)),
{
    if account.unicode_len() == 0 {
        return Some(string_of("account name is empty"));
    }
    let comps = split_account(account);
    proof {
        lemma_split_colon_nonempty(account@);
    }
    let root = comps[0].as_str();
    if root.unicode_len() == 0 {
        return Some(string_of("component 1 is empty"));
    }
    let nt = account_types.len();
    let mut found = false;
    let mut t: usize = 0;
    while t < nt
        invariant
            nt == account_types@.len(),
            t <= nt,
            comps@.len() >= 1,
            root@ == views(comps@)[0],
            found ==> views(account_types@).contains(root@),
            !found ==> forall|j: int| 0 <= j < t ==> account_types@[j]@ != root@,
        decreases nt - t,
    {
        if str_eq(account_types[t].as_str(), root) {
            found = true;
            assert(views(account_types@)[t as int] == root@);
        }
        t = t + 1;
    }
    if !found {
        proof {
            if views(account_types@).contains(root@) {
                let j = choose|j: int| 0 <= j < views(account_types@).len() && views(account_types@)[j] == root@;
                assert(account_types@[j]@ == root@);
            }
        }
        let mut msg = string_of("account must start with one of: ");
        let joined = join_strings(account_types, ", ");
        push_str(&mut msg, joined.as_str());
        return Some(msg);
    }
    let nc = comps.len();
    let mut i: usize = 0;
    while i < nc
        invariant
            nc == comps@.len(),
            nc == views(comps@).len(),
            i <= nc,
            views(comps@) == split_colon(account@),
            account@.len() > 0,
            views(comps@)[0].len() > 0,
            views(account_types@).contains(views(comps@)[0]),
            components_error(views(comps@), 0) == components_error(views(comps@), i as int),
        decreases nc - i,
    {
        assert(views(comps@)[i as int] == comps@[i as int]@);
        let e = component_error(comps[i].as_str(), i);
        if e.is_some() {
            assert(components_error(views(comps@), i as int) == component_error_spec(
                views(comps@)[i as int],
                i as nat,
            ));
            return e;
        }
        proof {
            lemma_components_skip(views(comps@), i as int, i + 1);
        }
        i = i + 1;
    }
    None
}

/// The position of the last occurrence of a character.
pub open spec fn last_index_of(s: Seq<char>, c: char) -> Option<int>
    decreases s.len(),
{
    if s.len() == 0 {
        None
    } else if s.last() == c {
        Some(s.len() - 1)
    } else {
        last_index_of(s.drop_last(), c)
    }
}

/// How many times a character occurs.
pub open spec fn count_char(s: Seq<char>, c: char) -> nat
    decreases s.len(),
{
    if s.len() == 0 {
        0
    } else {
        count_char(s.drop_last(), c) + if s.last() == c { 1nat } else { 0nat }
    }
}

/// The parent of an account: everything before the last `:`.
pub open spec fn parent_spec(s: Seq<char>) -> Option<Seq<char>> {
    match last_index_of(s, ':') {
        Some(i) => Some(s.subrange(0, i)),
        None => None,
    }
}

/// The leaf of an account: everything after the last `:`.
pub open spec fn leaf_spec(s: Seq<char>) -> Seq<char> {
    match last_index_of(s, ':') {
        Some(i) => s.subrange(i + 1, s.len() as int),
        None => s,
    }
}

/// The first `n` components of an account, or the whole account.
pub open spec fn root_spec(s: Seq<char>, n: int) -> Seq<char> {
    let parts = split_colon(s);
    if n >= parts.len() {
        s
    } else {
        join_seq(parts.subrange(0, n), ":"@)
    }
}

proof fn lemma_last_index_bounds(s: Seq<char>, c: char)
    ensures
        last_index_of(s, c) matches Some(i) ==> 0 <= i < s.len() && s[i] == c,
        last_index_of(s, c) matches Some(i) ==> forall|j: int| i < j < s.len() ==> s[j] != c,
        last_index_of(s, c) is None ==> forall|j: int| 0 <= j < s.len() ==> s[j] != c,
    decreases s.len(),
{
    if s.len() > 0 {
        lemma_last_index_bounds(s.drop_last(), c);
        if s.last() != c {
            assert forall|j: int| 0 <= j < s.len() - 1 implies s[j] == s.drop_last()[j] by {}
        }
    }
}

/// The position of the last `:` in a name.
pub fn last_colon(s: &str) -> (res: Option<usize>)
    ensures
        match res {
            Some(i) => last_index_of(s@, ':') == Some(i as int),
            None => last_index_of(s@, ':') is None,
        },
{
    let n = s.unicode_len();
    let mut k: usize = n;
    assert(s@.subrange(0, n as int) =~= s@);
    while k > 0
        invariant
            n == s@.len(),
            k <= n,
            last_index_of(s@, ':') == last_index_of(s@.subrange(0, k as int), ':'),
        decreases k,
    {
        let ghost pre = s@.subrange(0, k as int);
        assert(pre.drop_last() =~= s@.subrange(0, k - 1));
        if s.get_char(k - 1) == ':' {
            return Some(k - 1);
        }
        k = k - 1;
    }
    None
}

/// The parent account (`PARENT`): `None` when there is no `:`.
pub fn parent(s: &str) -> (res: Option<String>)
    ensures
        opt_chars(res) == parent_spec(s@),
{
    match last_colon(s) {
        Some(i) => {
            proof {
                lemma_last_index_bounds(s@, ':');
            }
            Some(String::from_str(s.substring_char(0, i)))
        },
        None => None,
    }
}

/// The last component of an account (`LEAF`).
pub fn leaf(s: &str) -> (res: String)
    ensures
        res@ == leaf_spec(s@),
{
    let n = s.unicode_len();
    match last_colon(s) {
        Some(i) => {
            proof {
                lemma_last_index_bounds(s@, ':');
            }
            String::from_str(s.substring_char(i + 1, n))
        },
        None => String::from_str(s),
    }
}

/// The number of components of an account (`ACCOUNT_DEPTH`): the number of
/// `:` plus one.
pub fn account_depth(s: &str) -> (res: u64)
    requires
        s@.len() < u64::MAX,
    ensures
        res == count_char(s@, ':') + 1,
{
    let n = s.unicode_len();
    let mut count: u64 = 0;
    let mut i: usize = 0;
    while i < n
        invariant
            n == s@.len(),
            n < u64::MAX,
            i <= n,
            count == count_char(s@.subrange(0, i as int), ':'),
            count <= i,
        decreases n - i,
    {
        assert(s@.subrange(0, i + 1).drop_last() =~= s@.subrange(0, i as int));
        if s.get_char(i) == ':' {
            count = count + 1;
        }
        i = i + 1;
    }
    assert(s@.subrange(0, n as int) =~= s@);
    count + 1
}

/// The key accounts are sorted by (`ACCOUNT_SORTKEY`): the account itself.
pub fn account_sortkey(s: &str) -> (res: String)
    ensures
        res@ == s@,
{
    String::from_str(s)
}

/// The first `n` components of an account joined by `:` (`ROOT`); the whole
/// account when it has no more than `n` components.
pub fn root(s: &str, n: usize) -> (res: String)
    ensures
        res@ == root_spec(s@, n as int),
{
    let parts = split_account(s);
    if n >= parts.len() {
        String::from_str(s)
    } else {
        join_first(parts.as_slice(), n, ":")
    }
}

/// An account's parent is one level less deep: it has one `:` fewer.
pub proof fn law_parent_depth(s: Seq<char>)
    requires
        parent_spec(s) is Some,
    ensures
        count_char(parent_spec(s).unwrap(), ':') + 1 == count_char(s, ':'),
    decreases s.len(),
{
    if s.last() != ':' {
        let t = s.drop_last();
        assert(parent_spec(t) == parent_spec(s)) by {
            lemma_last_index_bounds(t, ':');
            let i = last_index_of(t, ':').unwrap();
            assert(t.subrange(0, i) =~= s.subrange(0, i));
        }
        law_parent_depth(t);
    } else {
        assert(s.subrange(0, s.len() - 1) =~= s.drop_last());
    }
}

/// For an account with a `:`, its parent, a `:` and its leaf make up the account.
pub proof fn law_parent_leaf_rebuild(s: Seq<char>)
    requires
        parent_spec(s) is Some,
    ensures
        parent_spec(s).unwrap() + seq![':'] + leaf_spec(s) == s,
{
    lemma_last_index_bounds(s, ':');
    let i = last_index_of(s, ':').unwrap();
    assert(s.subrange(0, i) + seq![':'] + s.subrange(i + 1, s.len() as int) =~= s);
}

/// An account without a `:` has no parent and is its own leaf.
pub proof fn law_no_parent_is_leaf(s: Seq<char>)
    requires
        parent_spec(s) is None,
    ensures
        leaf_spec(s) == s,
{
}

/// A component that starts with an ASCII character other than an upper-case
/// letter or a digit (a lower-case letter among them) is refused for its
/// first character.
pub proof fn law_component_bad_start(part: Seq<char>, i: nat)
    requires
        part.len() > 0,
        (part[0] as u32) < 128,
        !('A' <= part[0] && part[0] <= 'Z'),
        !('0' <= part[0] && part[0] <= '9'),
    ensures
        component_error_spec(part, i) == Some("component '"@ + part + "' must start with uppercase letter or digit"@),
{
}

/// In particular a component starting with a lower-case ASCII letter is
/// refused for its first character.
pub proof fn law_component_lower_start(part: Seq<char>, i: nat)
    requires
        part.len() > 0,
        'a' <= part[0] && part[0] <= 'z',
    ensures
        component_error_spec(part, i) == Some("component '"@ + part + "' must start with uppercase letter or digit"@),
{
    assert((part[0] as u32) < 128) by {
        assert(part[0] as int <= 'z' as int);
    }
}

/// A component that starts with an upper-case ASCII letter, an ASCII digit
/// or a non-ASCII character, and whose other ASCII characters are letters,
/// digits or `-`, is accepted.
pub proof fn law_component_good(part: Seq<char>, i: nat)
    requires
        part.len() > 0,
        ('A' <= part[0] && part[0] <= 'Z') || ('0' <= part[0] && part[0] <= '9') || (part[0] as u32) >= 128,
        forall|j: int|
            1 <= j < part.len() ==> ((#[trigger] part[j] as u32) >= 128 || ('A' <= part[j] && part[j] <= 'Z') || (
            'a' <= part[j] && part[j] <= 'z') || ('0' <= part[j] && part[j] <= '9') || part[j] == '-'),
    ensures
        component_error_spec(part, i) is None,
{
    lemma_first_invalid_skip(part, 1, part.len() as int);
}

} // verus!
