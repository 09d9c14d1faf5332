//! `PRINT`: the directives of the ledger written back in Beancount form,
//! one row each.

use vstd::prelude::*;
use crate::account::{join_seq, join_strings, views};
use crate::columns::QueryResult;
use crate::date::{chrono_date_display, Date};
use crate::dec::decimal_display;
use crate::ledger::{amount_of, Directive, Posting, Transaction};
use crate::symbols::quoted;
use crate::text::{push_char, push_str, string_of};
use crate::value::Value;

verus! {

/// Each item written after a prefix, one after the other.
pub open spec fn prefixed(list: Seq<Seq<char>>, prefix: Seq<char>) -> Seq<char>
    decreases list.len(),
{
    if list.len() == 0 {
        Seq::empty()
    } else {
        prefixed(list.drop_last(), prefix) + prefix + list.last()
    }
}

/// The line of a posting: its account, then its number and currency when
/// the amount is complete.
pub open spec fn posting_line(p: Posting) -> Seq<char> {
    "  "@ + p.account@ + match amount_of(p) {
        Some(a) => "  "@ + decimal_display(a.number) + " "@ + a.currency@,
        None => Seq::empty(),
    } + "\n"@
}

/// The lines of some postings.
pub open spec fn posting_lines(ps: Seq<Posting>) -> Seq<char>
    decreases ps.len(),
{
    if ps.len() == 0 {
        Seq::empty()
    } else {
        posting_lines(ps.drop_last()) + posting_line(ps.last())
    }
}

/// A transaction written out: date, flag, the payee and narration quoted,
/// its tags and links, then a line per posting.
pub open spec fn transaction_text(t: Transaction) -> Seq<char> {
    chrono_date_display(t.date) + " "@ + seq![t.flag] + " "@ + match t.payee {
        Some(p) => quoted(p@) + " "@,
        None => Seq::empty(),
    } + quoted(t.narration@) + prefixed(views(t.tags@), " #"@) + prefixed(views(t.links@), " ^"@) + "\n"@
        + posting_lines(t.postings@)
}

/// A directive written out in Beancount form.
pub open spec fn directive_text(d: Directive) -> Seq<char> {
    match d {
        Directive::Transaction(t) => transaction_text(t),
        Directive::Balance(b) => chrono_date_display(b.date) + " balance "@ + b.account@ + " "@ + decimal_display(
            b.amount.number,
        ) + " "@ + b.amount.currency@ + "\n"@,
        Directive::Open(o) => chrono_date_display(o.date) + " open "@ + o.account@ + if o.currencies@.len() == 0 {
            Seq::empty()
        } else {
            " "@ + join_seq(views(o.currencies@), ","@)
        } + "\n"@,
        Directive::Close(c) => chrono_date_display(c.date) + " close "@ + c.account@ + "\n"@,
        Directive::Commodity(c) => chrono_date_display(c.date) + " commodity "@ + c.currency@ + "\n"@,
        Directive::Pad(p) => chrono_date_display(p.date) + " pad "@ + p.account@ + " "@ + p.source_account@ + "\n"@,
        Directive::Event(e) => chrono_date_display(e.date) + " event "@ + quoted(e.event_type@) + " "@ + quoted(
            e.value@,
        ) + "\n"@,
        Directive::Query(q) => chrono_date_display(q.date) + " query "@ + quoted(q.name@) + " "@ + quoted(q.query@)
            + "\n"@,
        Directive::Note(n) => chrono_date_display(n.date) + " note "@ + n.account@ + " "@ + quoted(n.comment@) + "\n"@,
        Directive::Document(d) => chrono_date_display(d.date) + " document "@ + d.account@ + " "@ + quoted(d.path@)
            + "\n"@,
        Directive::Price(p) => chrono_date_display(p.date) + " price "@ + p.currency@ + " "@ + decimal_display(
            p.amount.number,
        ) + " "@ + p.amount.currency@ + "\n"@,
        Directive::Custom(c) => chrono_date_display(c.date) + " custom "@ + quoted(c.custom_type@) + "\n"@,
    }
}

/// The date of a directive.
pub open spec fn directive_date(d: Directive) -> Date {
    match d {
        Directive::Transaction(t) => t.date,
        Directive::Balance(b) => b.date,
        Directive::Open(o) => o.date,
        Directive::Close(c) => c.date,
        Directive::Commodity(c) => c.date,
        Directive::Pad(p) => p.date,
        Directive::Event(e) => e.date,
        Directive::Query(q) => q.date,
        Directive::Note(n) => n.date,
        Directive::Document(d) => d.date,
        Directive::Price(p) => p.date,
        Directive::Custom(c) => c.date,
    }
}

/// A directive can be written: its date is a calendar date and the numbers
/// it writes are well formed.
pub open spec fn printable(d: Directive) -> bool {
    &&& directive_date(d).wf()
    &&& match d {
        Directive::Transaction(t) => forall|i: int|
            0 <= i < t.postings@.len() ==> (amount_of(#[trigger] t.postings@[i]) matches Some(a) ==> a.number.wf()),
        Directive::Balance(b) => b.amount.number.wf(),
        Directive::Price(p) => p.amount.number.wf(),
        _ => true,
    }
}

/// Appends each string after a prefix.
fn push_prefixed(out: &mut String, list: &Vec<String>, prefix: &str)
    ensures
        final(out)@ == old(out)@ + prefixed(views(list@), prefix@),
{
    let n = list.len();
    let mut i: usize = 0;
    while i < n
        invariant
            n == list@.len(),
            i <= n,
            out@ == old(out)@ + prefixed(views(list@).subrange(0, i as int), prefix@),
        decreases n - i,
    {
        let ghost before = out@;
        push_str(out, prefix);
        push_str(out, list[i].as_str());
        proof {
            let v = views(list@);
            assert(v.subrange(0, i + 1).drop_last() =~= v.subrange(0, i as int));
            assert(v.subrange(0, i + 1).last() == list@[i as int]@);
            assert(out@ =~= old(out)@ + prefixed(v.subrange(0, i + 1), prefix@));
        }
        i = i + 1;
    }
    assert(views(list@).subrange(0, n as int) =~= views(list@));
}

/// Appends a text between double quotes.
fn push_quoted(out: &mut String, t: &str)
    ensures
        final(out)@ == old(out)@ + quoted(t@),
{
    push_str(out, "\"");
    push_str(out, t);
    push_str(out, "\"");
    assert(out@ =~= old(out)@ + quoted(t@));
}

/// Appends the line of a posting.
fn push_posting_line(out: &mut String, p: &Posting)
    requires
        amount_of(*p) matches Some(a) ==> a.number.wf(),
    ensures
        final(out)@ == old(out)@ + posting_line(*p),
{
    push_str(out, "  ");
    push_str(out, p.account.as_str());
    match p.amount() {
        Some(a) => {
            push_str(out, "  ");
            let num = crate::dec::to_text(a.number);
            push_str(out, num.as_str());
            push_str(out, " ");
            push_str(out, a.currency.as_str());
        },
        None => {},
    }
    push_str(out, "\n");
    assert(out@ =~= old(out)@ + posting_line(*p));
}

/// A transaction written out.
fn format_transaction(t: &Transaction) -> (res: String)
    requires
        t.date.wf(),
        forall|i: int| 0 <= i < t.postings@.len() ==> (amount_of(#[trigger] t.postings@[i]) matches Some(a) ==> a.number.wf()),
    ensures
        res@ == transaction_text(*t),
{
    let mut out = crate::date::to_text(t.date);
    push_str(&mut out, " ");
    push_char(&mut out, t.flag);
    push_str(&mut out, " ");
    match &t.payee {
        Some(p) => {
            push_str(&mut out, "\"");
            push_str(&mut out, p.as_str());
            push_str(&mut out, "\"");
            push_str(&mut out, " ");
        },
        None => {},
    }
    push_str(&mut out, "\"");
    push_str(&mut out, t.narration.as_str());
    push_str(&mut out, "\"");
    let ghost head = out@;
    push_prefixed(&mut out, &t.tags, " #");
    push_prefixed(&mut out, &t.links, " ^");
    push_str(&mut out, "\n");
    let ghost top = out@;
    let n = t.postings.len();
    let mut i: usize = 0;
    while i < n
        invariant
            n == t.postings@.len(),
            i <= n,
            forall|j: int| 0 <= j < t.postings@.len() ==> (amount_of(#[trigger] t.postings@[j]) matches Some(a) ==> a.number.wf()),
            out@ == top + posting_lines(t.postings@.subrange(0, i as int)),
        decreases n - i,
    {
        assert(amount_of(t.postings@[i as int]) matches Some(a) ==> a.number.wf());
        push_posting_line(&mut out, &t.postings[i]);
        proof {
            let ps = t.postings@;
            assert(ps.subrange(0, i + 1).drop_last() =~= ps.subrange(0, i as int));
            assert(ps.subrange(0, i + 1).last() == ps[i as int]);
            assert(out@ =~= top + posting_lines(ps.subrange(0, i + 1)));
        }
        i = i + 1;
    }
    assert(t.postings@.subrange(0, n as int) =~= t.postings@);
    assert(out@ =~= transaction_text(*t));
    out
}

/// A directive written out in Beancount form.
pub fn format_directive(d: &Directive) -> (res: String)
    requires
        printable(*d),
    ensures
        res@ == directive_text(*d),
{
    match d {
        Directive::Transaction(t) => format_transaction(t),
        Directive::Balance(b) => {
            let mut out = crate::date::to_text(b.date);
            push_str(&mut out, " balance ");
            push_str(&mut out, b.account.as_str());
            push_str(&mut out, " ");
            let num = crate::dec::to_text(b.amount.number);
            push_str(&mut out, num.as_str());
            push_str(&mut out, " ");
            push_str(&mut out, b.amount.currency.as_str());
            push_str(&mut out, "\n");
            assert(out@ =~= directive_text(*d));
            out
        },
        Directive::Open(o) => {
            let mut out = crate::date::to_text(o.date);
            push_str(&mut out, " open ");
            push_str(&mut out, o.account.as_str());
            if o.currencies.len() > 0 {
                push_str(&mut out, " ");
                let joined = join_strings(o.currencies.as_slice(), ",");
                push_str(&mut out, joined.as_str());
            }
            push_str(&mut out, "\n");
            assert(out@ =~= directive_text(*d));
            out
        },
        Directive::Close(c) => {
            let mut out = crate::date::to_text(c.date);
            push_str(&mut out, " close ");
            push_str(&mut out, c.account.as_str());
            push_str(&mut out, "\n");
            assert(out@ =~= directive_text(*d));
            out
        },
        Directive::Commodity(c) => {
            let mut out = crate::date::to_text(c.date);
            push_str(&mut out, " commodity ");
            push_str(&mut out, c.currency.as_str());
            push_str(&mut out, "\n");
            assert(out@ =~= directive_text(*d));
            out
        },
        Directive::Pad(p) => {
            let mut out = crate::date::to_text(p.date);
            push_str(&mut out, " pad ");
            push_str(&mut out, p.account.as_str());
            push_str(&mut out, " ");
            push_str(&mut out, p.source_account.as_str());
            push_str(&mut out, "\n");
            assert(out@ =~= directive_text(*d));
            out
        },
        Directive::Event(e) => {
            let mut out = crate::date::to_text(e.date);
            push_str(&mut out, " event ");
            push_quoted(&mut out, e.event_type.as_str());
            push_str(&mut out, " ");
            push_quoted(&mut out, e.value.as_str());
            push_str(&mut out, "\n");
            assert(out@ =~= directive_text(*d));
            out
        },
        Directive::Query(q) => {
            let mut out = crate::date::to_text(q.date);
            push_str(&mut out, " query ");
            push_quoted(&mut out, q.name.as_str());
            push_str(&mut out, " ");
            push_quoted(&mut out, q.query.as_str());
            push_str(&mut out, "\n");
            assert(out@ =~= directive_text(*d));
            out
        },
        Directive::Note(n) => {
            let mut out = crate::date::to_text(n.date);
            push_str(&mut out, " note ");
            push_str(&mut out, n.account.as_str());
            push_str(&mut out, " ");
            push_quoted(&mut out, n.comment.as_str());
            push_str(&mut out, "\n");
            assert(out@ =~= directive_text(*d));
            out
        },
        Directive::Document(doc) => {
            let mut out = crate::date::to_text(doc.date);
            push_str(&mut out, " document ");
            push_str(&mut out, doc.account.as_str());
            push_str(&mut out, " ");
            push_quoted(&mut out, doc.path.as_str());
            push_str(&mut out, "\n");
            assert(out@ =~= directive_text(*d));
            out
        },
        Directive::Price(p) => {
            let mut out = crate::date::to_text(p.date);
            push_str(&mut out, " price ");
            push_str(&mut out, p.currency.as_str());
            push_str(&mut out, " ");
            let num = crate::dec::to_text(p.amount.number);
            push_str(&mut out, num.as_str());
            push_str(&mut out, " ");
            push_str(&mut out, p.amount.currency.as_str());
            push_str(&mut out, "\n");
            assert(out@ =~= directive_text(*d));
            out
        },
        Directive::Custom(c) => {
            let mut out = crate::date::to_text(c.date);
            push_str(&mut out, " custom ");
            push_quoted(&mut out, c.custom_type.as_str());
            push_str(&mut out, "\n");
            assert(out@ =~= directive_text(*d));
            out
        },
    }
}

/// Whether `PRINT` writes the directive at index `i`: a transaction only
/// when the `FROM` filter, if there is one, kept it; any other directive
/// always.
pub open spec fn printed(d: Directive, i: int, passes: Option<Seq<bool>>) -> bool {
    match d {
        Directive::Transaction(_) => match passes {
            Some(p) => p[i],
            None => true,
        },
        _ => true,
    }
}

/// The texts that `PRINT` writes for the directives, in order.
pub open spec fn print_texts(ds: Seq<Directive>, passes: Option<Seq<bool>>) -> Seq<Seq<char>>
    decreases ds.len(),
{
    if ds.len() == 0 {
        Seq::empty()
    } else {
        let prev = print_texts(ds.drop_last(), passes);
        if printed(ds.last(), ds.len() - 1, passes) {
            prev.push(directive_text(ds.last()))
        } else {
            prev
        }
    }
}

/// The filter's verdicts by their values.
pub open spec fn flags(passes: Option<&Vec<bool>>) -> Option<Seq<bool>> {
    match passes {
        Some(p) => Some(p@),
        None => None,
    }
}

/// A row of one string value with the given text.
pub open spec fn text_row(row: Vec<Value>, t: Seq<char>) -> bool {
    row@.len() == 1 && match row@[0] {
        Value::String(s) => s@ == t,
        _ => false,
    }
}

/// The result of `PRINT`: one column, `directive`, and a row with the text
/// of each directive written. `passes` holds, for each directive, whether
/// the `FROM` filter kept it (read only for transactions), or is `None`
/// where the query has no filter.
pub fn execute_print(directives: &[Directive], passes: Option<&Vec<bool>>) -> (res: QueryResult)
    requires
        forall|i: int| 0 <= i < directives@.len() ==> printable(#[trigger] directives@[i]),
        passes matches Some(p) ==> p@.len() == directives@.len(),
    ensures
        views(res.columns@) == seq!["directive"@],
        res.rows@.len() == print_texts(directives@, flags(passes)).len(),
        forall|i: int|
            0 <= i < res.rows@.len() ==> text_row(#[trigger] res.rows@[i], print_texts(directives@, flags(passes))[i]),
{
    let ghost pv = flags(passes);
    let mut columns: Vec<String> = Vec::new();
    columns.push(string_of("directive"));
    let mut result = QueryResult::new(columns);
    proof {
        assert(views(result.columns@) =~= seq!["directive"@]);
    }
    let n = directives.len();
    let mut i: usize = 0;
    while i < n
        invariant
            n == directives@.len(),
            i <= n,
            pv == flags(passes),
            passes matches Some(p) ==> p@.len() == n,
            forall|j: int| 0 <= j < directives@.len() ==> printable(#[trigger] directives@[j]),
            views(result.columns@) == seq!["directive"@],
            result.rows@.len() == print_texts(directives@.subrange(0, i as int), pv).len(),
            forall|j: int|
                0 <= j < result.rows@.len() ==> text_row(#[trigger] result.rows@[j], print_texts(directives@.subrange(0, i as int), pv)[j]),
        decreases n - i,
    {
        let d = &directives[i];
        let ghost pre = directives@.subrange(0, i + 1);
        proof {
            assert(pre.drop_last() =~= directives@.subrange(0, i as int));
            assert(pre.last() == directives@[i as int]);
        }
        let keep = match d {
            Directive::Transaction(_) => match passes {
                Some(p) => p[i],
                None => true,
            },
            _ => true,
        };
        if keep {
            assert(printable(directives@[i as int]));
            let text = format_directive(d);
            let mut row: Vec<Value> = Vec::new();
            row.push(Value::String(text));
            result.add_row(row);
        }
        i = i + 1;
    }
    assert(directives@.subrange(0, n as int) =~= directives@);
    result
}

} // verus!
