//! The ledger data that validation and queries read: amounts, costs,
//! positions, postings, transactions and the other directives.

use vstd::prelude::*;
use crate::dec::{Dec, decimal_checked_add, checked_add};
use crate::date::Date;
use crate::text::str_eq;

verus! {

/// A metadata value.
#[derive(Debug, Clone, PartialEq)]
pub enum MetaValue {
    /// A string.
    String(String),
    /// A number.
    Number(Dec),
    /// A boolean.
    Bool(bool),
    /// A date.
    Date(Date),
    /// A currency.
    Currency(String),
    /// An amount.
    Amount(Amount),
    /// An account name.
    Account(String),
    /// A tag.
    Tag(String),
    /// A link.
    Link(String),
    /// No value.
    NoValue,
}

/// A number with a currency.
#[derive(Debug, Clone, PartialEq)]
pub struct Amount {
    /// The number.
    pub number: Dec,
    /// The currency.
    pub currency: String,
}

/// The cost of a lot held at cost.
#[derive(Debug, Clone, PartialEq)]
pub struct Cost {
    /// Cost per unit.
    pub number: Dec,
    /// Currency of the cost.
    pub currency: String,
    /// Acquisition date.
    pub date: Option<Date>,
    /// Lot label.
    pub label: Option<String>,
}

/// A cost specification as written on a posting (parts may be missing).
#[derive(Debug, Clone, PartialEq)]
pub struct CostSpec {
    /// Cost per unit.
    pub number_per: Option<Dec>,
    /// Total cost.
    pub number_total: Option<Dec>,
    /// Currency of the cost.
    pub currency: Option<String>,
    /// Acquisition date.
    pub date: Option<Date>,
    /// Lot label.
    pub label: Option<String>,
}

/// A price annotation on a posting.
#[derive(Debug, Clone, PartialEq)]
pub enum PriceAnnotation {
    /// Per-unit price (`@`).
    Unit(Amount),
    /// Total price (`@@`).
    Total(Amount),
    /// Per-unit price with parts missing; the amount when it is complete.
    UnitIncomplete(Option<Amount>),
    /// Total price with parts missing; the amount when it is complete.
    TotalIncomplete(Option<Amount>),
    /// A price marker with nothing after it.
    Empty,
}

/// The units written on a posting, possibly with a part left out.
#[derive(Debug, Clone, PartialEq)]
pub enum IncompleteAmount {
    /// Both number and currency.
    Complete(Amount),
    /// A number without a currency.
    NumberOnly(Dec),
    /// A currency without a number.
    CurrencyOnly(String),
}

/// A position: units, possibly held at a cost.
#[derive(Debug, Clone, PartialEq)]
pub struct Position {
    /// The units.
    pub units: Amount,
    /// The cost, if held at cost.
    pub cost: Option<Cost>,
}

/// A posting of a transaction.
#[derive(Debug, Clone, PartialEq)]
pub struct Posting {
    /// The account.
    pub account: String,
    /// The units as written.
    pub units: Option<IncompleteAmount>,
    /// The cost specification.
    pub cost: Option<CostSpec>,
    /// The price annotation.
    pub price: Option<PriceAnnotation>,
    /// The posting's own flag.
    pub flag: Option<char>,
    /// The posting's metadata.
    pub meta: Vec<(String, MetaValue)>,
}

/// The units of a posting when both number and currency are written.
pub open spec fn amount_of(p: Posting) -> Option<Amount> {
    match p.units {
        Some(IncompleteAmount::Complete(a)) => Some(a),
        _ => None,
    }
}

impl Posting {
    /// The units when both number and currency are written.
    pub fn amount(&self) -> (res: Option<&Amount>)
        ensures
            match res {
                Some(a) => amount_of(*self) == Some(*a),
                None => amount_of(*self) is None,
            },
    {
        match &self.units {
            Some(IncompleteAmount::Complete(a)) => Some(a),
            _ => None,
        }
    }
}

/// A transaction.
#[derive(Debug, Clone, PartialEq)]
pub struct Transaction {
    /// The date.
    pub date: Date,
    /// The flag character.
    pub flag: char,
    /// The payee.
    pub payee: Option<String>,
    /// The narration.
    pub narration: String,
    /// The tags.
    pub tags: Vec<String>,
    /// The links.
    pub links: Vec<String>,
    /// The transaction's metadata.
    pub meta: Vec<(String, MetaValue)>,
    /// The postings.
    pub postings: Vec<Posting>,
}

/// The sum of the units of one currency over some positions, added in order
/// with the decimal addition; `None` when an addition overflows.
pub open spec fn units_of(ps: Seq<Position>, currency: Seq<char>) -> Option<Dec>
    decreases ps.len(),
{
    if ps.len() == 0 {
        Some(Dec { mantissa: 0, scale: 0 })
    } else {
        match units_of(ps.drop_last(), currency) {
            Some(s) => if ps.last().units.currency@ == currency {
                decimal_checked_add(s, ps.last().units.number)
            } else {
                Some(s)
            },
            None => None,
        }
    }
}

/// All the numbers of some positions are well formed.
pub open spec fn positions_wf(ps: Seq<Position>) -> bool {
    forall|i: int| 0 <= i < ps.len() ==> (#[trigger] ps[i]).units.number.wf()
}

/// The units of one currency in an inventory; `None` when the sum overflows.
pub fn inventory_units(ps: &Vec<Position>, currency: &str) -> (res: Option<Dec>)
    requires
        positions_wf(ps@),
    ensures
        res == units_of(ps@, currency@),
        res matches Some(d) ==> d.wf(),
{
    let n = ps.len();
    let mut sum = Dec::zero();
    let mut i: usize = 0;
    while i < n
        invariant
            n == ps@.len(),
            i <= n,
            positions_wf(ps@),
            sum.wf(),
            Some(sum) == units_of(ps@.subrange(0, i as int), currency@),
        decreases n - i,
    {
        let ghost pre = ps@.subrange(0, i + 1);
        assert(pre.drop_last() =~= ps@.subrange(0, i as int));
        assert(pre.last() == ps@[i as int]);
        if str_eq(ps[i].units.currency.as_str(), currency) {
            match checked_add(sum, ps[i].units.number) {
                Some(s) => {
                    sum = s;
                },
                None => {
                    proof {
                        lemma_units_of_none_stays(ps@, currency@, i as int + 1);
                    }
                    return None;
                },
            }
        }
        i = i + 1;
    }
    assert(ps@.subrange(0, n as int) =~= ps@);
    Some(sum)
}

/// Once the running sum overflows it stays overflowed.
pub proof fn lemma_units_of_none_stays(ps: Seq<Position>, currency: Seq<char>, k: int)
    requires
        0 <= k <= ps.len(),
        units_of(ps.subrange(0, k), currency) is None,
    ensures
        units_of(ps, currency) is None,
    decreases ps.len() - k,
{
    if k < ps.len() {
        let next = ps.subrange(0, k + 1);
        assert(next.drop_last() =~= ps.subrange(0, k));
        lemma_units_of_none_stays(ps, currency, k + 1);
    } else {
        assert(ps.subrange(0, k) =~= ps);
    }
}

/// A balance assertion.
#[derive(Debug, Clone, PartialEq)]
pub struct Balance {
    /// The date.
    pub date: Date,
    /// The account.
    pub account: String,
    /// The expected amount.
    pub amount: Amount,
    /// The explicit tolerance, if given.
    pub tolerance: Option<Dec>,
}

/// A pad directive.
#[derive(Debug, Clone, PartialEq)]
pub struct Pad {
    /// The date.
    pub date: Date,
    /// The account to pad.
    pub account: String,
    /// The account the padding comes from.
    pub source_account: String,
}

/// A note directive.
#[derive(Debug, Clone, PartialEq)]
pub struct Note {
    /// The date.
    pub date: Date,
    /// The account.
    pub account: String,
    /// The comment.
    pub comment: String,
}

/// A document directive.
#[derive(Debug, Clone, PartialEq)]
pub struct Document {
    /// The date.
    pub date: Date,
    /// The account.
    pub account: String,
    /// The path of the document.
    pub path: String,
}

/// An open directive.
#[derive(Debug, Clone, PartialEq)]
pub struct Open {
    /// The date.
    pub date: Date,
    /// The account opened.
    pub account: String,
    /// The currencies the account may hold (none: any).
    pub currencies: Vec<String>,
    /// The directive's metadata.
    pub meta: Vec<(String, MetaValue)>,
}

/// A close directive.
#[derive(Debug, Clone, PartialEq)]
pub struct Close {
    /// The date.
    pub date: Date,
    /// The account closed.
    pub account: String,
}

/// A commodity declaration.
#[derive(Debug, Clone, PartialEq)]
pub struct Commodity {
    /// The date.
    pub date: Date,
    /// The currency declared.
    pub currency: String,
}

/// An event directive.
#[derive(Debug, Clone, PartialEq)]
pub struct Event {
    /// The date.
    pub date: Date,
    /// The event type.
    pub event_type: String,
    /// The event value.
    pub value: String,
}

/// A named query directive.
#[derive(Debug, Clone, PartialEq)]
pub struct Query {
    /// The date.
    pub date: Date,
    /// The query's name.
    pub name: String,
    /// The query text.
    pub query: String,
}

/// A price directive.
#[derive(Debug, Clone, PartialEq)]
pub struct Price {
    /// The date.
    pub date: Date,
    /// The currency priced.
    pub currency: String,
    /// The price.
    pub amount: Amount,
}

/// A custom directive (its values are not read here).
#[derive(Debug, Clone, PartialEq)]
pub struct Custom {
    /// The date.
    pub date: Date,
    /// The custom type.
    pub custom_type: String,
}

/// A ledger directive.
#[derive(Debug, Clone, PartialEq)]
pub enum Directive {
    /// A transaction.
    Transaction(Transaction),
    /// A balance assertion.
    Balance(Balance),
    /// An open directive.
    Open(Open),
    /// A close directive.
    Close(Close),
    /// A commodity declaration.
    Commodity(Commodity),
    /// A pad directive.
    Pad(Pad),
    /// An event directive.
    Event(Event),
    /// A named query.
    Query(Query),
    /// A note.
    Note(Note),
    /// A document.
    Document(Document),
    /// A price.
    Price(Price),
    /// A custom directive.
    Custom(Custom),
}

/// The tolerance inferred for an amount: half a unit of its last digit
/// (`5 * 10^-(scale+1)`), zero when the scale is already the largest.
pub open spec fn inferred_tolerance_spec(a: Amount) -> Dec {
    if a.number.scale < 28 {
        Dec { mantissa: 5, scale: (a.number.scale + 1) as u32 }
    } else {
        Dec { mantissa: 0, scale: 0 }
    }
}

impl Amount {
    /// The tolerance inferred from the precision of the number.
    pub fn inferred_tolerance(&self) -> (res: Dec)
        ensures
            res == inferred_tolerance_spec(*self),
            res.wf(),
    {
        if self.number.scale < 28 {
            Dec { mantissa: 5, scale: self.number.scale + 1 }
        } else {
            Dec { mantissa: 0, scale: 0 }
        }
    }
}

} // verus!
