//! Small verified string helpers shared by the other modules.

use vstd::prelude::*;
use vstd::string::*;
use vstd::utf8::is_ascii_chars;

verus! {

/// Whether two string slices hold the same characters.
pub fn str_eq(a: &str, b: &str) -> (res: bool)
    ensures
        res == (a@ == b@),
{
    let n = a.unicode_len();
    let m = b.unicode_len();
    if n != m {
        return false;
    }
    let mut i: usize = 0;
    while i < n
        invariant
            n == a@.len(),
            m == b@.len(),
            n == m,
            i <= n,
            forall|j: int| 0 <= j < i ==> a@[j] == b@[j],
        decreases n - i,
    {
        if a.get_char(i) != b.get_char(i) {
            return false;
        }
        i = i + 1;
    }
    assert(a@ =~= b@);
    true
}

/// What `str::to_uppercase` returns for a string, by its characters.
pub uninterp spec fn std_to_uppercase(s: Seq<char>) -> Seq<char>;

/// The ASCII upper-case form of a character.
pub open spec fn ascii_upper(c: char) -> char {
    if 'a' <= c && c <= 'z' {
        ((c as u32) - 32) as char
    } else {
        c
    }
}

/// The ASCII lower-case form of a character.
pub open spec fn ascii_lower(c: char) -> char {
    if 'A' <= c && c <= 'Z' {
        ((c as u32) + 32) as char
    } else {
        c
    }
}

/// Calls `str::to_uppercase` of std. The result is named by `std_to_uppercase`;
/// for an all-ASCII input std documents the plain ASCII mapping, which is stated
/// here. What the Unicode case mapping does to other characters is left unsaid.
#[verifier::external_body]
pub(crate) fn to_uppercase(s: &str) -> (res: String)
    ensures
        res@ == std_to_uppercase(s@),
        is_ascii_chars(s@) ==> res@ == s@.map_values(|c: char| ascii_upper(c)),
{
    s.to_uppercase()
}

/// Calls `String::push` of std: appends one character.
#[verifier::external_body]
pub(crate) fn push_char(s: &mut String, c: char)
    ensures
        final(s)@ == old(s)@.push(c),
{
    s.push(c);
}

/// Appends a string slice.
pub fn push_str(s: &mut String, t: &str)
    ensures
        final(s)@ == old(s)@ + t@,
{
    s.append(t);
}

/// A fresh string holding the given characters.
pub fn string_of(t: &str) -> (res: String)
    ensures
        res@ == t@,
{
    String::from_str(t)
}

/// The decimal digit character of a number below ten.
pub open spec fn digit_char(d: nat) -> char {
    ((48 + d) as u32) as char
}

/// A text padded on the left with zeros to at least `w` characters.
pub open spec fn zero_pad(t: Seq<char>, w: int) -> Seq<char> {
    if t.len() >= w {
        t
    } else {
        Seq::new((w - t.len()) as nat, |_i: int| '0') + t
    }
}

/// The decimal text of a natural number, without leading zeros.
pub open spec fn nat_text(n: nat) -> Seq<char>
    decreases n,
{
    if n < 10 {
        seq![digit_char(n)]
    } else {
        nat_text(n / 10).push(digit_char(n % 10))
    }
}

/// The decimal text of an integer, with a leading `-` when negative.
pub open spec fn int_text(i: int) -> Seq<char> {
    if i < 0 {
        seq!['-'] + nat_text((-i) as nat)
    } else {
        nat_text(i as nat)
    }
}

/// The decimal text of a `u64`, as `Display` of std writes it.
pub fn u64_text(n: u64) -> (res: String)
    ensures
        res@ == nat_text(n as nat),
{
    // collect the digits least significant first
    let mut digits: Vec<char> = Vec::new();
    let mut m: u64 = n;
    loop
        invariant_except_break
            m <= n,
            nat_text(n as nat) == nat_text(m as nat) + digits@.reverse(),
        ensures
            nat_text(n as nat) =~= digits@.reverse(),
        decreases m,
    {
        let d = m % 10;
        let c = ((48 + d) as u8) as char;
        assert(c == digit_char(d as nat));
        if m < 10 {
            let ghost old_rev = digits@.reverse();
            digits.push(c);
            assert(nat_text(m as nat) == seq![c]);
            assert(digits@.reverse() =~= seq![c] + old_rev);
            break;
        }
        assert(nat_text(m as nat) == nat_text((m / 10) as nat).push(c));
        digits.push(c);
        assert(digits@.reverse() =~= seq![c] + digits@.drop_last().reverse());
        m = m / 10;
    }
    let mut res = String::new();
    let len = digits.len();
    let mut k: usize = len;
    while k > 0
        invariant
            k <= len,
            len == digits@.len(),
            res@ =~= digits@.reverse().subrange(0, (len - k) as int),
        decreases k,
    {
        k = k - 1;
        push_char(&mut res, digits[k]);
        assert(digits@.reverse().subrange(0, (len - k) as int) =~= digits@.reverse().subrange(0, (len - k - 1) as int).push(digits@[k as int]));
    }
    assert(digits@.reverse().subrange(0, len as int) =~= digits@.reverse());
    res
}

/// The decimal text of an `i64`, as `Display` of std writes it.
pub fn i64_text(i: i64) -> (res: String)
    ensures
        res@ == int_text(i as int),
{
    if i < 0 {
        let mag: u64 = if i == i64::MIN { 9223372036854775808u64 } else { (-i) as u64 };
        let digits = u64_text(mag);
        let mut res = string_of("-");
        push_str(&mut res, digits.as_str());
        proof { reveal_strlit("-"); }
        res
    } else {
        u64_text(i as u64)
    }
}

/// The value of a sequence of decimal digit characters.
pub open spec fn digits_value(s: Seq<char>) -> int
    decreases s.len(),
{
    if s.len() == 0 {
        0
    } else {
        digits_value(s.drop_last()) * 10 + (s.last() as int - '0' as int)
    }
}

/// Every character is an ASCII decimal digit.
pub open spec fn all_digits(s: Seq<char>) -> bool {
    forall|i: int| 0 <= i < s.len() ==> '0' <= #[trigger] s[i] <= '9'
}

/// What `str::parse::<i64>` gives: an optional `+` or `-` followed by one or
/// more ASCII digits, whose value fits an `i64`; `None` otherwise.
pub open spec fn parse_i64_spec(s: Seq<char>) -> Option<i64> {
    let neg = s.len() > 0 && s[0] == '-';
    let digits = if s.len() > 0 && (s[0] == '-' || s[0] == '+') { s.skip(1) } else { s };
    let v = if neg { -digits_value(digits) } else { digits_value(digits) };
    if digits.len() > 0 && all_digits(digits) && i64::MIN <= v <= i64::MAX {
        Some(v as i64)
    } else {
        None
    }
}

/// Calls `str::parse::<i64>` of std, which std documents to accept an
/// optional sign and decimal digits, and to fail on anything else and on a
/// value out of range.
#[verifier::external_body]
pub(crate) fn parse_i64(s: &str) -> (res: Option<i64>)
    ensures
        res == parse_i64_spec(s@),
{
    s.parse::<i64>().ok()
}

/// The ASCII characters with the Unicode `White_Space` property: tab, line
/// feed, vertical tab, form feed, carriage return and space.
pub open spec fn ascii_white_space(c: char) -> bool {
    (9 <= (c as u32) && (c as u32) <= 13) || c == ' '
}

/// The length of the longest prefix without ASCII white space.
pub open spec fn word_len(s: Seq<char>) -> nat
    decreases s.len(),
{
    if s.len() == 0 || ascii_white_space(s[0]) {
        0
    } else {
        1 + word_len(s.drop_first())
    }
}

/// A word is no longer than the text, and not empty where the text starts
/// with a character other than white space.
pub proof fn lemma_word_len(s: Seq<char>)
    ensures
        word_len(s) <= s.len(),
        s.len() > 0 && !ascii_white_space(s[0]) ==> word_len(s) >= 1,
    decreases s.len(),
{
    if s.len() > 0 {
        lemma_word_len(s.drop_first());
    }
}

/// The words of a text: the longest runs of characters other than ASCII
/// white space, in order.
pub open spec fn ascii_words(s: Seq<char>) -> Seq<Seq<char>>
    decreases s.len(),
{
    if s.len() == 0 {
        Seq::empty()
    } else if ascii_white_space(s[0]) {
        ascii_words(s.drop_first())
    } else {
        proof {
            lemma_word_len(s);
        }
        seq![s.take(word_len(s) as int)] + ascii_words(s.skip(word_len(s) as int))
    }
}

/// The pieces that `str::split_whitespace` gives for a text.
pub uninterp spec fn std_split_whitespace(s: Seq<char>) -> Seq<Seq<char>>;

/// Calls `str::split_whitespace` of std and collects the pieces; they are
/// named `std_split_whitespace`. For an all-ASCII input, whose white space is
/// the ASCII white space, std documents the pieces as the runs of other
/// characters (`ascii_words`), which is stated here.
#[verifier::external_body]
pub(crate) fn split_whitespace(s: &str) -> (res: Vec<String>)
    ensures
        res@.len() == std_split_whitespace(s@).len(),
        forall|i: int| 0 <= i < res@.len() ==> (#[trigger] res@[i])@ == std_split_whitespace(s@)[i],
        is_ascii_chars(s@) ==> res@.len() == ascii_words(s@).len(),
        is_ascii_chars(s@) ==> forall|i: int| 0 <= i < res@.len() ==> (#[trigger] res@[i])@ == ascii_words(s@)[i],
{
    s.split_whitespace().map(|p| p.to_string()).collect()
}

} // verus!
