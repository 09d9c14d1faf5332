//! Ledger options read from `option` directives, and the source lines that
//! validation errors are reported at.

use vstd::prelude::*;
use crate::account::views;
use crate::date::Date;
use crate::text::str_eq;

verus! {

/// The options of a ledger that the bindings report.
#[derive(Debug, Clone, PartialEq)]
pub struct LedgerOptions {
    /// The ledger's title.
    pub title: Option<String>,
    /// The operating currencies, in the order they were declared.
    pub operating_currencies: Vec<String>,
}

/// The options read from `(key, value)` pairs: the last `title` wins, and
/// every `operating_currency` is added in order; other keys are ignored.
pub open spec fn options_of(entries: Seq<(String, String)>) -> (Option<Seq<char>>, Seq<Seq<char>>)
    decreases entries.len(),
{
    if entries.len() == 0 {
        (None, Seq::empty())
    } else {
        let (title, currencies) = options_of(entries.drop_last());
        let (k, v) = entries.last();
        if k@ == "title"@ {
            (Some(v@), currencies)
        } else if k@ == "operating_currency"@ {
            (title, currencies.push(v@))
        } else {
            (title, currencies)
        }
    }
}

/// Extract the ledger options from the `(key, value)` pairs of the option
/// directives.
pub fn extract_options(entries: &[(String, String)]) -> (res: LedgerOptions)
    ensures
        (match res.title {
            Some(t) => Some(t@),
            None => None::<Seq<char>>,
        }) == options_of(entries@).0,
        views(res.operating_currencies@) == options_of(entries@).1,
{
    let mut options = LedgerOptions { title: None, operating_currencies: Vec::new() };
    let n = entries.len();
    let mut i: usize = 0;
    while i < n
        invariant
            n == entries@.len(),
            i <= n,
            (match options.title {
                Some(t) => Some(t@),
                None => None::<Seq<char>>,
            }) == options_of(entries@.subrange(0, i as int)).0,
            views(options.operating_currencies@) == options_of(entries@.subrange(0, i as int)).1,
        decreases n - i,
    {
        assert(entries@.subrange(0, i + 1).drop_last() =~= entries@.subrange(0, i as int));
        assert(entries@.subrange(0, i + 1).last() == entries@[i as int]);
        let (key, value) = &entries[i];
        if str_eq(key.as_str(), "title") {
            options.title = Some(value.clone());
        } else if str_eq(key.as_str(), "operating_currency") {
            let ghost before = views(options.operating_currencies@);
            options.operating_currencies.push(value.clone());
            assert(views(options.operating_currencies@) =~= before.push(value@));
        }
        i = i + 1;
    }
    assert(entries@.subrange(0, n as int) =~= entries@);
    options
}

/// The line of the first directive with the given date.
pub open spec fn first_line_of(entries: Seq<(Date, u32)>, date: Date) -> Option<u32>
    decreases entries.len(),
{
    if entries.len() == 0 {
        None
    } else if entries[0].0 == date {
        Some(entries[0].1)
    } else {
        first_line_of(entries.drop_first(), date)
    }
}

/// The line at which an error of the given date is reported: that of the
/// first directive of the same date, if any.
pub fn line_for_date(entries: &[(Date, u32)], date: Date) -> (res: Option<u32>)
    ensures
        res == first_line_of(entries@, date),
{
    let n = entries.len();
    let mut i: usize = 0;
    assert(entries@.skip(0) =~= entries@);
    while i < n
        invariant
            n == entries@.len(),
            i <= n,
            first_line_of(entries@, date) == first_line_of(entries@.skip(i as int), date),
        decreases n - i,
    {
        assert(entries@.skip(i as int).drop_first() =~= entries@.skip(i + 1));
        let (d, line) = entries[i];
        if d == date {
            return Some(line);
        }
        i = i + 1;
    }
    None
}

} // verus!
