//! Document symbols (the outline of a ledger file) for an editor.

use vstd::prelude::*;
use crate::account::{join_seq, join_strings, opt_chars, views};
use crate::date::chrono_date_display;
use crate::dec::{decimal_display, Dec};
use crate::ledger::{Directive, IncompleteAmount, Posting, Transaction};
use crate::text::{push_str, string_of};

verus! {

/// The kind of a document symbol.
#[derive(Debug, Clone, Copy, PartialEq, Eq, Structural)]
pub enum SymbolKind {
    /// A transaction.
    Transaction,
    /// An open or close directive.
    Account,
    /// A balance assertion.
    Balance,
    /// A pad directive.
    Pad,
    /// A commodity declaration.
    Commodity,
    /// An event.
    Event,
    /// A note.
    Note,
    /// A document.
    Document,
    /// A price.
    Price,
    /// A named query.
    Query,
    /// A custom directive.
    Custom,
    /// A posting of a transaction.
    Posting,
}

/// A range of a document, by line and character.
#[derive(Debug, Clone, Copy, PartialEq, Eq, Structural)]
pub struct EditorRange {
    /// The first line.
    pub start_line: u32,
    /// The character within the first line.
    pub start_character: u32,
    /// The last line.
    pub end_line: u32,
    /// The character within the last line.
    pub end_character: u32,
}

/// A symbol of the document outline.
#[derive(Debug)]
pub struct EditorDocumentSymbol {
    /// The symbol's name.
    pub name: String,
    /// More detail, if any.
    pub detail: Option<String>,
    /// The kind of symbol.
    pub kind: SymbolKind,
    /// Where the symbol stands.
    pub range: EditorRange,
    /// The symbols within this one.
    pub children: Option<Vec<EditorDocumentSymbol>>,
    /// Whether the symbol is marked deprecated.
    pub deprecated: Option<bool>,
}

/// A directive with the range of the document it was written in.
#[derive(Debug, Clone)]
pub struct PlacedDirective {
    /// The directive.
    pub directive: Directive,
    /// Where it was written.
    pub range: EditorRange,
}

/// A text between double quotes.
pub open spec fn quoted(s: Seq<char>) -> Seq<char> {
    "\""@ + s + "\""@
}

/// A number followed by a space and a currency.
pub open spec fn amount_detail(n: Dec, c: Seq<char>) -> Seq<char> {
    decimal_display(n) + " "@ + c
}

/// The detail of a posting symbol: what is written of its units.
pub open spec fn units_detail(u: IncompleteAmount) -> Seq<char> {
    match u {
        IncompleteAmount::Complete(a) => amount_detail(a.number, a.currency@),
        IncompleteAmount::NumberOnly(n) => decimal_display(n),
        IncompleteAmount::CurrencyOnly(_) => Seq::empty(),
    }
}

/// The name of a transaction's symbol: its date and its payee, else its
/// narration, else the word `Transaction`.
pub open spec fn transaction_name(t: Transaction) -> Seq<char> {
    chrono_date_display(t.date) + " "@ + match t.payee {
        Some(p) => p@,
        None => if t.narration@.len() > 0 {
            t.narration@
        } else {
            "Transaction"@
        },
    }
}

/// The name of a directive's symbol.
pub open spec fn symbol_name(d: Directive) -> Seq<char> {
    match d {
        Directive::Transaction(t) => transaction_name(t),
        Directive::Open(o) => "open "@ + o.account@,
        Directive::Close(c) => "close "@ + c.account@,
        Directive::Balance(b) => "balance "@ + b.account@,
        Directive::Pad(p) => "pad "@ + p.account@,
        Directive::Commodity(c) => "commodity "@ + c.currency@,
        Directive::Event(e) => "event "@ + quoted(e.event_type@),
        Directive::Note(n) => "note "@ + n.account@,
        Directive::Document(d) => "document "@ + d.account@,
        Directive::Price(p) => "price "@ + p.currency@,
        Directive::Query(q) => "query "@ + quoted(q.name@),
        Directive::Custom(c) => "custom "@ + quoted(c.custom_type@),
    }
}

/// The detail of a directive's symbol.
pub open spec fn symbol_detail(d: Directive) -> Option<Seq<char>> {
    match d {
        Directive::Transaction(t) => if t.narration@.len() == 0 {
            None
        } else {
            Some(t.narration@)
        },
        Directive::Open(o) => if o.currencies@.len() == 0 {
            None
        } else {
            Some(join_seq(views(o.currencies@), ", "@))
        },
        Directive::Balance(b) => Some(amount_detail(b.amount.number, b.amount.currency@)),
        Directive::Pad(p) => Some("from "@ + p.source_account@),
        Directive::Event(e) => Some(e.value@),
        Directive::Note(n) => Some(n.comment@),
        Directive::Document(d) => Some(d.path@),
        Directive::Price(p) => Some(amount_detail(p.amount.number, p.amount.currency@)),
        _ => None,
    }
}

/// The kind of a directive's symbol.
pub open spec fn symbol_kind(d: Directive) -> SymbolKind {
    match d {
        Directive::Transaction(_) => SymbolKind::Transaction,
        Directive::Open(_) => SymbolKind::Account,
        Directive::Close(_) => SymbolKind::Account,
        Directive::Balance(_) => SymbolKind::Balance,
        Directive::Pad(_) => SymbolKind::Pad,
        Directive::Commodity(_) => SymbolKind::Commodity,
        Directive::Event(_) => SymbolKind::Event,
        Directive::Note(_) => SymbolKind::Note,
        Directive::Document(_) => SymbolKind::Document,
        Directive::Price(_) => SymbolKind::Price,
        Directive::Query(_) => SymbolKind::Query,
        Directive::Custom(_) => SymbolKind::Custom,
    }
}

/// The range of the symbol of a transaction's `i`-th posting: the line
/// `i + 1` below the transaction's first line, characters 2 to 50.
pub open spec fn posting_range(line: int, i: int) -> EditorRange {
    EditorRange {
        start_line: (line + 1 + i) as u32,
        start_character: 2,
        end_line: (line + 1 + i) as u32,
        end_character: 50,
    }
}

/// The symbol of a posting, placed on the given line.
pub open spec fn posting_symbol_ok(s: EditorDocumentSymbol, p: Posting, range: EditorRange) -> bool {
    &&& s.name@ == p.account@
    &&& opt_chars(s.detail) == match p.units {
        Some(u) => Some(units_detail(u)),
        None => None,
    }
    &&& s.kind == SymbolKind::Posting
    &&& s.range == range
    &&& s.children is None
    &&& s.deprecated is None
}

/// The children of a transaction's symbol: one per posting, in order; none
/// at all for a transaction without postings.
pub open spec fn posting_children_ok(children: Option<Vec<EditorDocumentSymbol>>, ps: Seq<Posting>, line: int) -> bool {
    if ps.len() == 0 {
        children is None
    } else {
        children matches Some(cs) && cs@.len() == ps.len() && forall|i: int|
            0 <= i < ps.len() ==> posting_symbol_ok(#[trigger] cs@[i], ps[i], posting_range(line, i))
    }
}

/// The symbol of a directive placed at `range`.
pub open spec fn symbol_ok(s: EditorDocumentSymbol, d: Directive, range: EditorRange) -> bool {
    &&& s.name@ == symbol_name(d)
    &&& opt_chars(s.detail) == symbol_detail(d)
    &&& s.kind == symbol_kind(d)
    &&& s.range == range
    &&& s.deprecated == (if d is Close { Some(true) } else { None::<bool> })
    &&& match d {
        Directive::Transaction(t) => posting_children_ok(s.children, t.postings@, range.start_line as int),
        _ => s.children is None,
    }
}

/// The dates and numbers a directive's symbol writes out are well formed, and
/// the line numbers of its postings fit in a `u32`.
pub open spec fn directive_symbol_ok(d: Directive, range: EditorRange) -> bool {
    match d {
        Directive::Transaction(t) => {
            &&& t.date.wf()
            &&& range.start_line + t.postings@.len() <= u32::MAX
            &&& forall|i: int| 0 <= i < t.postings@.len() ==> match (#[trigger] t.postings@[i]).units {
                Some(IncompleteAmount::Complete(a)) => a.number.wf(),
                Some(IncompleteAmount::NumberOnly(n)) => n.wf(),
                _ => true,
            }
        },
        Directive::Balance(b) => b.amount.number.wf(),
        Directive::Price(p) => p.amount.number.wf(),
        _ => true,
    }
}

/// Two texts one after the other.
fn concat(a: &str, b: &str) -> (res: String)
    ensures
        res@ == a@ + b@,
{
    let mut s = string_of(a);
    push_str(&mut s, b);
    s
}

/// A text between double quotes.
fn quote(s: &str) -> (res: String)
    ensures
        res@ == quoted(s@),
{
    let mut q = string_of("\"");
    push_str(&mut q, s);
    push_str(&mut q, "\"");
    q
}

/// A number, a space and a currency.
fn amount_text(n: Dec, c: &str) -> (res: String)
    requires
        n.wf(),
    ensures
        res@ == amount_detail(n, c@),
{
    let mut s = crate::dec::to_text(n);
    push_str(&mut s, " ");
    push_str(&mut s, c);
    s
}

/// The symbol of one posting.
fn posting_symbol(p: &Posting, range: EditorRange) -> (res: EditorDocumentSymbol)
    requires
        match p.units {
            Some(IncompleteAmount::Complete(a)) => a.number.wf(),
            Some(IncompleteAmount::NumberOnly(n)) => n.wf(),
            _ => true,
        },
    ensures
        posting_symbol_ok(res, *p, range),
{
    let detail = match &p.units {
        Some(IncompleteAmount::Complete(a)) => Some(amount_text(a.number, a.currency.as_str())),
        Some(IncompleteAmount::NumberOnly(n)) => Some(crate::dec::to_text(*n)),
        Some(IncompleteAmount::CurrencyOnly(_)) => Some(String::new()),
        None => None,
    };
    EditorDocumentSymbol {
        name: p.account.clone(),
        detail,
        kind: SymbolKind::Posting,
        range,
        children: None,
        deprecated: None,
    }
}

/// The name of a transaction's symbol.
fn transaction_symbol_name(t: &Transaction) -> (res: String)
    requires
        t.date.wf(),
    ensures
        res@ == transaction_name(*t),
{
    let mut name = crate::date::to_text(t.date);
    push_str(&mut name, " ");
    match &t.payee {
        Some(p) => push_str(&mut name, p.as_str()),
        None => if t.narration.as_str().unicode_len() > 0 {
            push_str(&mut name, t.narration.as_str());
        } else {
            push_str(&mut name, "Transaction");
        },
    }
    name
}

/// The symbol of a transaction, with one child per posting.
fn transaction_symbol(t: &Transaction, range: EditorRange) -> (res: EditorDocumentSymbol)
    requires
        directive_symbol_ok(Directive::Transaction(*t), range),
    ensures
        symbol_ok(res, Directive::Transaction(*t), range),
{
    let name = transaction_symbol_name(t);
    let detail = if t.narration.as_str().unicode_len() == 0 {
        None
    } else {
        Some(t.narration.clone())
    };
    let mut children: Vec<EditorDocumentSymbol> = Vec::new();
    let n = t.postings.len();
    let mut i: usize = 0;
    while i < n
        invariant
            n == t.postings@.len(),
            i <= n,
            range.start_line + n <= u32::MAX,
            children@.len() == i,
            forall|j: int| 0 <= j < t.postings@.len() ==> match (#[trigger] t.postings@[j]).units {
                Some(IncompleteAmount::Complete(a)) => a.number.wf(),
                Some(IncompleteAmount::NumberOnly(n)) => n.wf(),
                _ => true,
            },
            forall|j: int|
                0 <= j < i ==> posting_symbol_ok(
                    #[trigger] children@[j],
                    t.postings@[j],
                    posting_range(range.start_line as int, j),
                ),
        decreases n - i,
    {
        let line: u32 = range.start_line + 1 + i as u32;
        let prange = EditorRange { start_line: line, start_character: 2, end_line: line, end_character: 50 };
        assert(prange == posting_range(range.start_line as int, i as int));
        let child = posting_symbol(&t.postings[i], prange);
        children.push(child);
        i = i + 1;
    }
    EditorDocumentSymbol {
        name,
        detail,
        kind: SymbolKind::Transaction,
        range,
        children: if children.len() == 0 {
            None
        } else {
            Some(children)
        },
        deprecated: None,
    }
}

/// Convert a directive to its document symbol.
pub fn directive_to_symbol(directive: &Directive, range: EditorRange) -> (res: Option<EditorDocumentSymbol>)
    requires
        directive_symbol_ok(*directive, range),
    ensures
        res matches Some(s) && symbol_ok(s, *directive, range),
{
    let (name, detail, kind, deprecated): (String, Option<String>, SymbolKind, Option<bool>) = match directive {
        Directive::Transaction(t) => {
            return Some(transaction_symbol(t, range));
        },
        Directive::Open(o) => (
            concat("open ", o.account.as_str()),
            if o.currencies.len() == 0 {
                None
            } else {
                Some(join_strings(o.currencies.as_slice(), ", "))
            },
            SymbolKind::Account,
            None,
        ),
        Directive::Close(c) => (concat("close ", c.account.as_str()), None, SymbolKind::Account, Some(true)),
        Directive::Balance(b) => (
            concat("balance ", b.account.as_str()),
            Some(amount_text(b.amount.number, b.amount.currency.as_str())),
            SymbolKind::Balance,
            None,
        ),
        Directive::Pad(p) => (
            concat("pad ", p.account.as_str()),
            Some(concat("from ", p.source_account.as_str())),
            SymbolKind::Pad,
            None,
        ),
        Directive::Commodity(c) => (concat("commodity ", c.currency.as_str()), None, SymbolKind::Commodity, None),
        Directive::Event(e) => (
            concat("event ", quote(e.event_type.as_str()).as_str()),
            Some(e.value.clone()),
            SymbolKind::Event,
            None,
        ),
        Directive::Note(n) => (
            concat("note ", n.account.as_str()),
            Some(n.comment.clone()),
            SymbolKind::Note,
            None,
        ),
        Directive::Document(d) => (
            concat("document ", d.account.as_str()),
            Some(d.path.clone()),
            SymbolKind::Document,
            None,
        ),
        Directive::Price(p) => (
            concat("price ", p.currency.as_str()),
            Some(amount_text(p.amount.number, p.amount.currency.as_str())),
            SymbolKind::Price,
            None,
        ),
        Directive::Query(q) => (concat("query ", quote(q.name.as_str()).as_str()), None, SymbolKind::Query, None),
        Directive::Custom(c) => (
            concat("custom ", quote(c.custom_type.as_str()).as_str()),
            None,
            SymbolKind::Custom,
            None,
        ),
    };
    Some(EditorDocumentSymbol { name, detail, kind, range, children: None, deprecated })
}

/// The document symbols of the directives of a file, in order.
pub fn get_document_symbols(directives: &[PlacedDirective]) -> (res: Vec<EditorDocumentSymbol>)
    requires
        forall|i: int|
            0 <= i < directives@.len() ==> directive_symbol_ok(
                (#[trigger] directives@[i]).directive,
                directives@[i].range,
            ),
    ensures
        res@.len() == directives@.len(),
        forall|i: int|
            0 <= i < directives@.len() ==> symbol_ok(
                #[trigger] res@[i],
                directives@[i].directive,
                directives@[i].range,
            ),
{
    let mut out: Vec<EditorDocumentSymbol> = Vec::new();
    let n = directives.len();
    let mut i: usize = 0;
    while i < n
        invariant
            n == directives@.len(),
            i <= n,
            out@.len() == i,
            forall|j: int|
                0 <= j < directives@.len() ==> directive_symbol_ok(
                    (#[trigger] directives@[j]).directive,
                    directives@[j].range,
                ),
            forall|j: int|
                0 <= j < i ==> symbol_ok(#[trigger] out@[j], directives@[j].directive, directives@[j].range),
        decreases n - i,
    {
        let placed = &directives[i];
        match directive_to_symbol(&placed.directive, placed.range) {
            Some(s) => out.push(s),
            None => {},
        }
        i = i + 1;
    }
    out
}

} // verus!
