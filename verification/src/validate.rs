//! Validation checks on ledger directives against the running ledger state.

use vstd::prelude::*;
use vstd::string::*;
use crate::dec::{
    Dec, Order, checked_add, checked_sub, checked_mul, decimal_checked_add, decimal_checked_sub,
    decimal_checked_mul, decimal_display, to_text as dec_text,
};
use crate::date::{Date, chrono_date_display};
use crate::ledger::{amount_of, 
    Amount, Balance, Document, Note, Pad, Position, Posting, Transaction, units_of, positions_wf,
    inventory_units, inferred_tolerance_spec,
};
use crate::text::{push_str, str_eq, string_of};
use crate::account::{opt_chars, join_seq, join_strings, views};

verus! {

/// The kind of a validation error.
#[derive(Debug, Clone, Copy, PartialEq, Eq, Structural)]
pub enum ErrorCode {
    /// An account is used before it is opened, or never opened.
    AccountNotOpen,
    /// An account is used after it is closed.
    AccountClosed,
    /// A transaction has a single posting.
    SinglePosting,
    /// A currency is not among those an account allows.
    CurrencyNotAllowed,
    /// A currency has no commodity declaration.
    UndeclaredCurrency,
    /// A transaction does not balance.
    TransactionUnbalanced,
    /// More than one pad applies to a balance assertion.
    MultiplePadForBalance,
    /// A balance assertion with an explicit tolerance failed.
    BalanceToleranceExceeded,
    /// A balance assertion failed.
    BalanceAssertionFailed,
    /// A document file was not found.
    DocumentNotFound,
}

/// A validation error.
#[derive(Debug, Clone, PartialEq)]
pub struct ValidationError {
    /// The kind of error.
    pub code: ErrorCode,
    /// The message.
    pub message: String,
    /// The date of the directive.
    pub date: Date,
    /// Further context.
    pub context: Option<String>,
}

/// A validation error by its plain parts.
pub struct ErrorSpec {
    pub code: ErrorCode,
    pub message: Seq<char>,
    pub date: Date,
    pub context: Option<Seq<char>>,
}

impl ValidationError {
    /// The error by its plain parts.
    pub open spec fn spec(self) -> ErrorSpec {
        ErrorSpec {
            code: self.code,
            message: self.message@,
            date: self.date,
            context: opt_chars(self.context),
        }
    }
}

/// Errors by their plain parts.
pub open spec fn errs(v: Seq<ValidationError>) -> Seq<ErrorSpec> {
    v.map_values(|e: ValidationError| e.spec())
}

/// An error without context, by its plain parts.
pub open spec fn err(code: ErrorCode, message: Seq<char>, date: Date) -> ErrorSpec {
    ErrorSpec { code, message, date, context: None }
}

/// The booking method of an account.
#[derive(Debug, Clone, Copy, PartialEq, Eq, Structural)]
pub enum BookingMethod {
    /// Lots must match exactly.
    Strict,
    /// Lots must match, with a total reduction allowed.
    StrictWithSize,
    /// Oldest lots first.
    Fifo,
    /// Newest lots first.
    Lifo,
    /// Highest cost first.
    Hifo,
    /// Average cost.
    Average,
    /// No lot matching (beancount's `NONE`).
    NoMatching,
}

/// What the state knows of an opened account.
#[derive(Debug, Clone, PartialEq)]
pub struct AccountState {
    /// The date it was opened.
    pub opened: Date,
    /// The date it was closed, if it was.
    pub closed: Option<Date>,
    /// The currencies it allows (all when empty).
    pub currencies: Vec<String>,
    /// The booking method.
    pub booking: BookingMethod,
}

/// A pad that waits for a balance assertion.
#[derive(Debug, Clone, PartialEq)]
pub struct PendingPad {
    /// The account the padding comes from.
    pub source_account: String,
    /// The date of the pad.
    pub date: Date,
    /// Whether the pad has been used.
    pub used: bool,
}

/// Options that change what validation checks.
#[derive(Debug, Clone, PartialEq)]
pub struct ValidationOptions {
    /// Every currency must be declared with a commodity directive.
    pub require_commodities: bool,
    /// Document files must exist.
    pub check_documents: bool,
    /// Multiplier applied to the quantum of amounts to get tolerances.
    pub tolerance_multiplier: Dec,
    /// Also infer tolerances from costs.
    pub infer_tolerance_from_cost: bool,
    /// Base directory for relative document paths.
    pub document_base: Option<String>,
    /// Directories searched for relative document paths.
    pub document_dirs: Vec<String>,
}

/// The running state of validation.
pub struct LedgerState {
    /// Opened accounts, by name.
    pub accounts: Vec<(String, AccountState)>,
    /// Declared commodities.
    pub commodities: Vec<String>,
    /// Inventories, by account.
    pub inventories: Vec<(String, Vec<Position>)>,
    /// Pads waiting for a balance assertion, by account.
    pub pending_pads: Vec<(String, Vec<PendingPad>)>,
    /// Validation options.
    pub options: ValidationOptions,
}

/// The first entry of a keyed list with the given key.
pub open spec fn lookup<T>(entries: Seq<(String, T)>, key: Seq<char>) -> Option<T>
    decreases entries.len(),
{
    if entries.len() == 0 {
        None
    } else if entries[0].0@ == key {
        Some(entries[0].1)
    } else {
        lookup(entries.drop_first(), key)
    }
}

/// The position of the first entry with the given key.
pub open spec fn lookup_index<T>(entries: Seq<(String, T)>, key: Seq<char>) -> Option<int>
    decreases entries.len(),
{
    if entries.len() == 0 {
        None
    } else if entries[0].0@ == key {
        Some(0)
    } else {
        match lookup_index(entries.drop_first(), key) {
            Some(i) => Some(i + 1),
            None => None,
        }
    }
}

proof fn lemma_lookup_index<T>(entries: Seq<(String, T)>, key: Seq<char>)
    ensures
        match lookup_index(entries, key) {
            Some(i) => 0 <= i < entries.len() && entries[i].0@ == key && lookup(entries, key)
                == Some(entries[i].1) && forall|j: int| 0 <= j < i ==> entries[j].0@ != key,
            None => lookup(entries, key) is None && forall|j: int|
                0 <= j < entries.len() ==> entries[j].0@ != key,
        },
    decreases entries.len(),
{
    if entries.len() > 0 && entries[0].0@ != key {
        lemma_lookup_index(entries.drop_first(), key);
        assert forall|j: int| 1 <= j < entries.len() implies entries[j] == entries.drop_first()[j
            - 1] by {}
    }
}

/// Find the entry of a keyed list with the given key.
pub fn find_key<T>(entries: &Vec<(String, T)>, key: &str) -> (res: Option<usize>)
    ensures
        match res {
            Some(i) => lookup_index(entries@, key@) == Some(i as int),
            None => lookup_index(entries@, key@) is None,
        },
        res matches Some(i) ==> i < entries@.len() && entries@[i as int].0@ == key@,
        res matches Some(i) ==> lookup(entries@, key@) == Some(entries@[i as int].1),
        res is None ==> lookup(entries@, key@) is None,
{
    proof {
        lemma_lookup_index(entries@, key@);
    }
    let n = entries.len();
    let mut i: usize = 0;
    while i < n
        invariant
            n == entries@.len(),
            i <= n,
            forall|j: int| 0 <= j < i ==> entries@[j].0@ != key@,
            match lookup_index(entries@, key@) {
                Some(k) => 0 <= k < entries@.len() && entries@[k].0@ == key@ && lookup(entries@, key@)
                    == Some(entries@[k].1) && forall|j: int| 0 <= j < k ==> entries@[j].0@ != key@,
                None => lookup(entries@, key@) is None && forall|j: int|
                    0 <= j < entries@.len() ==> entries@[j].0@ != key@,
            },
        decreases n - i,
    {
        if str_eq(entries[i].0.as_str(), key) {
            return Some(i);
        }
        i = i + 1;
    }
    None
}

/// Whether a list of strings holds the given one.
pub fn contains_str(list: &Vec<String>, s: &str) -> (res: bool)
    ensures
        res == exists|i: int| 0 <= i < list@.len() && list@[i]@ == s@,
{
    let n = list.len();
    let mut i: usize = 0;
    while i < n
        invariant
            n == list@.len(),
            i <= n,
            forall|j: int| 0 <= j < i ==> list@[j]@ != s@,
        decreases n - i,
    {
        if str_eq(list[i].as_str(), s) {
            return true;
        }
        i = i + 1;
    }
    false
}

/// Whether a string list holds a string.
pub open spec fn has_str(list: Seq<String>, s: Seq<char>) -> bool {
    exists|i: int| 0 <= i < list.len() && list[i]@ == s
}

/// Push an error without context.
fn push_error(errors: &mut Vec<ValidationError>, code: ErrorCode, message: String, date: Date)
    ensures
        errs(final(errors)@) == errs(old(errors)@).push(err(code, message@, date)),
{
    let e = ValidationError { code, message, date, context: None };
    errors.push(e);
    assert(errs(final(errors)@) =~= errs(old(errors)@).push(err(code, message@, date)));
}

/// Validate transaction structure. Returns false when there is nothing to
/// validate (no postings); warns about a single posting.
pub fn validate_transaction_structure(txn: &Transaction, errors: &mut Vec<ValidationError>) -> (res: bool)
    ensures
        res == (txn.postings@.len() != 0),
        errs(final(errors)@) == if txn.postings@.len() == 1 {
            errs(old(errors)@).push(
                err(ErrorCode::SinglePosting, "Transaction has only one posting"@, txn.date),
            )
        } else {
            errs(old(errors)@)
        },
{
    if txn.postings.len() == 0 {
        return false;
    }
    if txn.postings.len() == 1 {
        push_error(
            errors,
            ErrorCode::SinglePosting,
            string_of("Transaction has only one posting"),
            txn.date,
        );
    }
    true
}

/// The message for an account used before it was opened.
pub open spec fn not_opened_until_msg(account: Seq<char>, used: Date, opened: Date) -> Seq<char> {
    "Account "@ + account + " used on "@ + chrono_date_display(used) + " but not opened until "@
        + chrono_date_display(opened)
}

/// The message for an account used after it was closed.
pub open spec fn closed_msg(account: Seq<char>, used: Date, closed: Date) -> Seq<char> {
    "Account "@ + account + " used on "@ + chrono_date_display(used) + " but was closed on "@
        + chrono_date_display(closed)
}

/// The errors for the lifecycle of an account used by a posting.
pub open spec fn lifecycle_errors(txn_date: Date, account: Seq<char>, st: AccountState) -> Seq<ErrorSpec> {
    let e1: Seq<ErrorSpec> = if txn_date.order_with(st.opened) == Order::Less {
        seq![err(ErrorCode::AccountNotOpen, not_opened_until_msg(account, txn_date, st.opened), txn_date)]
    } else {
        Seq::empty()
    };
    let e2: Seq<ErrorSpec> = match st.closed {
        Some(c) => if txn_date.order_with(c) != Order::Less {
            seq![err(ErrorCode::AccountClosed, closed_msg(account, txn_date, c), txn_date)]
        } else {
            Seq::empty()
        },
        None => Seq::empty(),
    };
    e1 + e2
}

/// An account is reported closed exactly when it has a close date and the
/// transaction is on or after it; it is reported not yet open exactly when
/// the transaction is before its open date. A transaction strictly before the
/// close date never gets the closed error.
pub proof fn law_lifecycle_dates(d: Date, account: Seq<char>, st: AccountState)
    ensures
        (exists|i: int|
            0 <= i < lifecycle_errors(d, account, st).len() && (#[trigger] lifecycle_errors(d, account, st)[i]).code
                == ErrorCode::AccountClosed) <==> (st.closed matches Some(c) && (d.year > c.year || (d.year == c.year
            && (d.month > c.month || (d.month == c.month && d.day >= c.day))))),
        (exists|i: int|
            0 <= i < lifecycle_errors(d, account, st).len() && (#[trigger] lifecycle_errors(d, account, st)[i]).code
                == ErrorCode::AccountNotOpen) <==> (d.year < st.opened.year || (d.year == st.opened.year && (d.month
            < st.opened.month || (d.month == st.opened.month && d.day < st.opened.day)))),
{
    let errs = lifecycle_errors(d, account, st);
    let closed_now = st.closed matches Some(c) && (d.year > c.year || (d.year == c.year && (d.month > c.month || (
    d.month == c.month && d.day >= c.day))));
    let early = d.year < st.opened.year || (d.year == st.opened.year && (d.month < st.opened.month || (d.month
        == st.opened.month && d.day < st.opened.day)));
    if early {
        assert(errs[0].code == ErrorCode::AccountNotOpen);
    }
    if closed_now {
        let k = if early { 1int } else { 0int };
        assert(errs[k].code == ErrorCode::AccountClosed);
    }
    assert forall|i: int| 0 <= i < errs.len() && (#[trigger] errs[i]).code == ErrorCode::AccountClosed implies closed_now by {
        if early && i == 0 {
        }
    }
    assert forall|i: int| 0 <= i < errs.len() && (#[trigger] errs[i]).code == ErrorCode::AccountNotOpen implies early by {
    }
}

/// Dates that can be written out.
pub open spec fn account_state_wf(st: AccountState) -> bool {
    st.opened.wf() && (st.closed matches Some(c) ==> c.wf())
}

/// Validate that an account is open at transaction time and not closed.
pub fn validate_account_lifecycle(
    txn: &Transaction,
    posting: &Posting,
    account_state: &AccountState,
    errors: &mut Vec<ValidationError>,
)
    requires
        txn.date.wf(),
        account_state_wf(*account_state),
    ensures
        errs(final(errors)@) == errs(old(errors)@) + lifecycle_errors(
            txn.date,
            posting.account@,
            *account_state,
        ),
{
    let ghost e0 = errs(errors@);
    if txn.date.before(&account_state.opened) {
        let mut msg = string_of("Account ");
        push_str(&mut msg, posting.account.as_str());
        push_str(&mut msg, " used on ");
        push_str(&mut msg, crate::date::to_text(txn.date).as_str());
        push_str(&mut msg, " but not opened until ");
        push_str(&mut msg, crate::date::to_text(account_state.opened).as_str());
        push_error(errors, ErrorCode::AccountNotOpen, msg, txn.date);
    }
    let ghost e1 = errs(errors@);
    if let Some(closed) = account_state.closed {
        if !txn.date.before(&closed) {
            let mut msg = string_of("Account ");
            push_str(&mut msg, posting.account.as_str());
            push_str(&mut msg, " used on ");
            push_str(&mut msg, crate::date::to_text(txn.date).as_str());
            push_str(&mut msg, " but was closed on ");
            push_str(&mut msg, crate::date::to_text(closed).as_str());
            push_error(errors, ErrorCode::AccountClosed, msg, txn.date);
        }
    }
    assert(errs(errors@) =~= errs(old(errors)@) + lifecycle_errors(
        txn.date,
        posting.account@,
        *account_state,
    ));
}

/// The errors for the currency of a posting.
pub open spec fn currency_errors(
    require_commodities: bool,
    commodities: Seq<String>,
    account: Seq<char>,
    st: AccountState,
    units: Option<Amount>,
    date: Date,
) -> Seq<ErrorSpec> {
    match units {
        None => Seq::empty(),
        Some(u) => {
            let e1: Seq<ErrorSpec> = if st.currencies@.len() != 0 && !has_str(st.currencies@, u.currency@) {
                seq![err(ErrorCode::CurrencyNotAllowed, "Currency "@ + u.currency@ + " not allowed in account "@ + account, date)]
            } else {
                Seq::empty()
            };
            let e2: Seq<ErrorSpec> = if require_commodities && !has_str(commodities, u.currency@) {
                seq![err(ErrorCode::UndeclaredCurrency, "Currency "@ + u.currency@ + " not declared"@, date)]
            } else {
                Seq::empty()
            };
            e1 + e2
        },
    }
}

/// Validate currency constraints and commodity declarations for a posting.
pub fn validate_posting_currency(
    state: &LedgerState,
    txn: &Transaction,
    posting: &Posting,
    account_state: &AccountState,
    errors: &mut Vec<ValidationError>,
)
    ensures
        errs(final(errors)@) == errs(old(errors)@) + currency_errors(
            state.options.require_commodities,
            state.commodities@,
            posting.account@,
            *account_state,
            amount_of(*posting),
            txn.date,
        ),
{
    let units = match posting.amount() {
        Some(u) => u,
        None => {
            assert(errs(errors@) =~= errs(old(errors)@) + Seq::<ErrorSpec>::empty());
            return;
        },
    };
    if account_state.currencies.len() != 0 && !contains_str(&account_state.currencies, units.currency.as_str()) {
        let mut msg = string_of("Currency ");
        push_str(&mut msg, units.currency.as_str());
        push_str(&mut msg, " not allowed in account ");
        push_str(&mut msg, posting.account.as_str());
        push_error(errors, ErrorCode::CurrencyNotAllowed, msg, txn.date);
    }
    if state.options.require_commodities && !contains_str(&state.commodities, units.currency.as_str()) {
        let mut msg = string_of("Currency ");
        push_str(&mut msg, units.currency.as_str());
        push_str(&mut msg, " not declared");
        push_error(errors, ErrorCode::UndeclaredCurrency, msg, txn.date);
    }
    assert(errs(errors@) =~= errs(old(errors)@) + currency_errors(
        state.options.require_commodities,
        state.commodities@,
        posting.account@,
        *account_state,
        amount_of(*posting),
        txn.date,
    ));
}

/// The errors for one posting's account.
pub open spec fn posting_account_errors(state: LedgerState, txn: Transaction, p: Posting) -> Seq<ErrorSpec> {
    match lookup(state.accounts@, p.account@) {
        Some(st) => lifecycle_errors(txn.date, p.account@, st) + currency_errors(
            state.options.require_commodities,
            state.commodities@,
            p.account@,
            st,
            amount_of(p),
            txn.date,
        ),
        None => seq![err(ErrorCode::AccountNotOpen, "Account "@ + p.account@ + " was never opened"@, txn.date)],
    }
}

/// The errors for the accounts of the first `k` postings.
pub open spec fn postings_account_errors(state: LedgerState, txn: Transaction, k: int) -> Seq<ErrorSpec>
    decreases k,
{
    if k <= 0 {
        Seq::empty()
    } else {
        postings_account_errors(state, txn, k - 1) + posting_account_errors(state, txn, txn.postings@[k - 1])
    }
}

/// Every account state has dates that can be written out.
pub open spec fn accounts_wf(accounts: Seq<(String, AccountState)>) -> bool {
    forall|i: int| 0 <= i < accounts.len() ==> account_state_wf(#[trigger] accounts[i].1)
}

/// Validate account lifecycle and currency constraints for each posting.
pub fn validate_posting_accounts(
    state: &LedgerState,
    txn: &Transaction,
    errors: &mut Vec<ValidationError>,
)
    requires
        txn.date.wf(),
        accounts_wf(state.accounts@),
    ensures
        errs(final(errors)@) == errs(old(errors)@) + postings_account_errors(
            *state,
            *txn,
            txn.postings@.len() as int,
        ),
{
    let n = txn.postings.len();
    let mut i: usize = 0;
    while i < n
        invariant
            n == txn.postings@.len(),
            i <= n,
            txn.date.wf(),
            accounts_wf(state.accounts@),
            errs(errors@) == errs(old(errors)@) + postings_account_errors(*state, *txn, i as int),
        decreases n - i,
    {
        let posting = &txn.postings[i];
        let ghost before = errs(errors@);
        match find_key(&state.accounts, posting.account.as_str()) {
            Some(k) => {
                let account_state = &state.accounts[k].1;
                validate_account_lifecycle(txn, posting, account_state, errors);
                validate_posting_currency(state, txn, posting, account_state, errors);
            },
            None => {
                let mut msg = string_of("Account ");
                push_str(&mut msg, posting.account.as_str());
                push_str(&mut msg, " was never opened");
                push_error(errors, ErrorCode::AccountNotOpen, msg, txn.date);
            },
        }
        assert(errs(errors@) =~= errs(old(errors)@) + postings_account_errors(*state, *txn, i + 1));
        i = i + 1;
    }
}

/// Whether an account has been opened.
pub open spec fn is_open(state: LedgerState, account: Seq<char>) -> bool {
    lookup(state.accounts@, account) is Some
}

/// Validate a Note directive: its account must have been opened.
pub fn validate_note(state: &LedgerState, note: &Note, errors: &mut Vec<ValidationError>)
    ensures
        errs(final(errors)@) == if is_open(*state, note.account@) {
            errs(old(errors)@)
        } else {
            errs(old(errors)@).push(
                err(
                    ErrorCode::AccountNotOpen,
                    "Invalid reference to unknown account '"@ + note.account@ + "'"@,
                    note.date,
                ),
            )
        },
{
    if find_key(&state.accounts, note.account.as_str()).is_none() {
        let mut msg = string_of("Invalid reference to unknown account '");
        push_str(&mut msg, note.account.as_str());
        push_str(&mut msg, "'");
        push_error(errors, ErrorCode::AccountNotOpen, msg, note.date);
    }
}

/// What the file system and the platform's path rules say about a
/// document's path, gathered before the check.
#[derive(Debug, Clone, PartialEq)]
pub struct DocumentLookup {
    /// Whether the path is absolute.
    pub absolute: bool,
    /// For a relative path with no base directory: for each document
    /// directory, in order, whether the path joined to it exists.
    pub in_dirs: Vec<bool>,
    /// Whether the path that is finally checked exists: the path itself, or
    /// joined to the base directory, or (when no document directory holds
    /// it) the path itself again.
    pub checked_exists: bool,
    /// How the finally checked path is displayed.
    pub checked_display: String,
}

/// The index of the first `true`.
pub open spec fn first_true(v: Seq<bool>) -> Option<int>
    decreases v.len(),
{
    if v.len() == 0 {
        None
    } else if v[0] {
        Some(0)
    } else {
        match first_true(v.drop_first()) {
            Some(i) => Some(i + 1),
            None => None,
        }
    }
}

/// Where a document's file is looked for.
#[derive(Debug, Clone, Copy, PartialEq, Eq, Structural)]
pub enum DocumentTarget {
    /// The path as it is.
    AsIs,
    /// The path joined to the base directory.
    InBase,
    /// The path joined to the document directory of this index.
    InDir(usize),
}

/// What to ask the file system next about a document's path.
#[derive(Debug, Clone, Copy, PartialEq, Eq, Structural)]
pub enum DocumentProbe {
    /// Whether the path joined to the document directory of this index exists.
    TryDir(usize),
    /// The path that is finally checked.
    Check(DocumentTarget),
}

/// The next question about a document's path, given whether it is absolute
/// and what the document directories asked so far answered: an absolute path
/// is checked as it is; a relative one joined to the base directory when
/// there is one; else the directories are tried in turn up to the first that
/// holds the file, and when none does the path is checked as it is.
pub open spec fn document_probe_spec(opts: ValidationOptions, absolute: bool, answers: Seq<bool>) -> DocumentProbe {
    if absolute {
        DocumentProbe::Check(DocumentTarget::AsIs)
    } else if opts.document_base is Some {
        DocumentProbe::Check(DocumentTarget::InBase)
    } else {
        match first_true(answers) {
            Some(k) => DocumentProbe::Check(DocumentTarget::InDir(k as usize)),
            None => if answers.len() < opts.document_dirs@.len() {
                DocumentProbe::TryDir(answers.len() as usize)
            } else {
                DocumentProbe::Check(DocumentTarget::AsIs)
            },
        }
    }
}

/// Decide the next question about a document's path (see
/// `document_probe_spec`).
pub fn next_document_probe(opts: &ValidationOptions, absolute: bool, answers: &Vec<bool>) -> (res: DocumentProbe)
    ensures
        res == document_probe_spec(*opts, absolute, answers@),
{
    if absolute {
        return DocumentProbe::Check(DocumentTarget::AsIs);
    }
    if opts.document_base.is_some() {
        return DocumentProbe::Check(DocumentTarget::InBase);
    }
    let n = answers.len();
    let mut i: usize = 0;
    assert(answers@.skip(0) =~= answers@);
    while i < n
        invariant
            n == answers@.len(),
            i <= n,
            !absolute,
            opts.document_base is None,
            forall|j: int| 0 <= j < i ==> !answers@[j],
            first_true(answers@) == match first_true(answers@.skip(i as int)) {
                Some(k) => Some(k + i),
                None => None::<int>,
            },
        decreases n - i,
    {
        assert(answers@.skip(i as int)[0] == answers@[i as int]);
        if answers[i] {
            assert(first_true(answers@.skip(i as int)) == Some(0int));
            return DocumentProbe::Check(DocumentTarget::InDir(i));
        }
        assert(answers@.skip(i as int).drop_first() =~= answers@.skip(i + 1));
        i = i + 1;
    }
    assert(answers@.skip(n as int).len() == 0);
    if n < opts.document_dirs.len() {
        DocumentProbe::TryDir(n)
    } else {
        DocumentProbe::Check(DocumentTarget::AsIs)
    }
}

/// A relative document path is looked up in the document directories.
pub open spec fn searches_dirs(opts: ValidationOptions, look: DocumentLookup) -> bool {
    !look.absolute && opts.document_base is None && opts.document_dirs@.len() > 0
}

/// The paths searched for a relative document: each directory, a `/`, and
/// the path.
pub open spec fn searched_paths(dirs: Seq<String>, path: Seq<char>) -> Seq<Seq<char>> {
    dirs.map_values(|d: String| d@ + "/"@ + path)
}

/// The error for a document file that is not found.
pub open spec fn document_missing(opts: ValidationOptions, doc: Document, look: DocumentLookup) -> ErrorSpec {
    ErrorSpec {
        code: ErrorCode::DocumentNotFound,
        message: "Document file not found: "@ + doc.path@,
        date: doc.date,
        context: Some(
            if searches_dirs(opts, look) {
                "searched: "@ + join_seq(searched_paths(opts.document_dirs@, doc.path@), ", "@)
            } else {
                "resolved path: "@ + look.checked_display@
            },
        ),
    }
}

/// The errors of a document directive: its account must have been opened,
/// and, when documents are checked, its file must exist.
pub open spec fn document_errors(state: LedgerState, doc: Document, look: DocumentLookup) -> Seq<ErrorSpec> {
    let account = if is_open(state, doc.account@) {
        Seq::empty()
    } else {
        seq![err(ErrorCode::AccountNotOpen, "Invalid reference to unknown account '"@ + doc.account@ + "'"@, doc.date)]
    };
    let found = if searches_dirs(state.options, look) {
        first_true(look.in_dirs@) is Some || look.checked_exists
    } else {
        look.checked_exists
    };
    if state.options.check_documents && !found {
        account.push(document_missing(state.options, doc, look))
    } else {
        account
    }
}

/// The first `true` of a list.
fn find_true(v: &Vec<bool>) -> (res: Option<usize>)
    ensures
        match res {
            Some(i) => first_true(v@) == Some(i as int),
            None => first_true(v@) is None,
        },
{
    let n = v.len();
    let mut i: usize = 0;
    assert(v@.skip(0) =~= v@);
    while i < n
        invariant
            n == v@.len(),
            i <= n,
            first_true(v@) == (match first_true(v@.skip(i as int)) {
                Some(k) => Some(k + i),
                None => None::<int>,
            }),
        decreases n - i,
    {
        assert(v@.skip(i as int).drop_first() =~= v@.skip(i + 1));
        if v[i] {
            return Some(i);
        }
        i = i + 1;
    }
    None
}

/// Validate a Document directive: its account must have been opened, and,
/// when documents are checked, its file must exist (`lookup` holds what the
/// file system says).
pub fn validate_document(
    state: &LedgerState,
    doc: &Document,
    lookup: &DocumentLookup,
    errors: &mut Vec<ValidationError>,
)
    ensures
        errs(final(errors)@) == errs(old(errors)@) + document_errors(*state, *doc, *lookup),
{
    if find_key(&state.accounts, doc.account.as_str()).is_none() {
        let mut msg = string_of("Invalid reference to unknown account '");
        push_str(&mut msg, doc.account.as_str());
        push_str(&mut msg, "'");
        push_error(errors, ErrorCode::AccountNotOpen, msg, doc.date);
    }
    let ghost after_account = errs(errors@);
    assert(after_account =~= errs(old(errors)@) + (if is_open(*state, doc.account@) {
        Seq::<ErrorSpec>::empty()
    } else {
        seq![err(ErrorCode::AccountNotOpen, "Invalid reference to unknown account '"@ + doc.account@ + "'"@, doc.date)]
    }));
    if !state.options.check_documents {
        return;
    }
    let searches = !lookup.absolute && state.options.document_base.is_none() && state.options.document_dirs.len() > 0;
    let found = if searches {
        find_true(&lookup.in_dirs).is_some() || lookup.checked_exists
    } else {
        lookup.checked_exists
    };
    if found {
        return;
    }
    let mut message = string_of("Document file not found: ");
    push_str(&mut message, doc.path.as_str());
    let context = if searches {
        let dirs = &state.options.document_dirs;
        let mut paths: Vec<String> = Vec::new();
        let n = dirs.len();
        let mut i: usize = 0;
        while i < n
            invariant
                n == dirs@.len(),
                i <= n,
                views(paths@) == searched_paths(dirs@, doc.path@).subrange(0, i as int),
            decreases n - i,
        {
            let mut p = dirs[i].clone();
            push_str(&mut p, "/");
            push_str(&mut p, doc.path.as_str());
            let ghost before = views(paths@);
            let ghost pv = p@;
            assert(pv == searched_paths(dirs@, doc.path@)[i as int]);
            paths.push(p);
            assert(views(paths@) =~= before.push(pv));
            assert(searched_paths(dirs@, doc.path@).subrange(0, i + 1) =~= searched_paths(dirs@, doc.path@).subrange(0, i as int).push(pv));
            i = i + 1;
        }
        assert(searched_paths(dirs@, doc.path@).subrange(0, n as int) =~= searched_paths(dirs@, doc.path@));
        let mut c = string_of("searched: ");
        push_str(&mut c, join_strings(paths.as_slice(), ", ").as_str());
        c
    } else {
        let mut c = string_of("resolved path: ");
        push_str(&mut c, lookup.checked_display.as_str());
        c
    };
    let e = ValidationError { code: ErrorCode::DocumentNotFound, message, date: doc.date, context: Some(context) };
    let ghost es = e.spec();
    assert(es == document_missing(state.options, *doc, *lookup));
    errors.push(e);
    assert(errs(errors@) =~= after_account.push(es));
}

/// Pending pads by account, by their plain parts.
pub open spec fn pads_view(entries: Seq<(String, Vec<PendingPad>)>) -> Seq<(Seq<char>, Seq<PendingPad>)> {
    entries.map_values(|e: (String, Vec<PendingPad>)| (e.0@, e.1@))
}

/// The pending pads after a pad for `account` is added to them.
pub open spec fn pads_with(
    entries: Seq<(String, Vec<PendingPad>)>,
    account: Seq<char>,
    pad: PendingPad,
) -> Seq<(Seq<char>, Seq<PendingPad>)> {
    let v = pads_view(entries);
    match lookup_index(entries, account) {
        Some(i) => v.update(i, (v[i].0, v[i].1.push(pad))),
        None => v.push((account, seq![pad])),
    }
}

/// Validate a Pad directive: both accounts must be opened; the pad then waits
/// for the next balance assertion of its account.
pub fn validate_pad(state: &mut LedgerState, pad: &Pad, errors: &mut Vec<ValidationError>)
    ensures
        final(state).accounts == old(state).accounts,
        final(state).commodities == old(state).commodities,
        final(state).inventories == old(state).inventories,
        final(state).options == old(state).options,
        !is_open(*old(state), pad.account@) ==> {
            &&& errs(final(errors)@) == errs(old(errors)@).push(
                err(
                    ErrorCode::AccountNotOpen,
                    "Pad target account "@ + pad.account@ + " was never opened"@,
                    pad.date,
                ),
            )
            &&& final(state).pending_pads == old(state).pending_pads
        },
        is_open(*old(state), pad.account@) && !is_open(*old(state), pad.source_account@) ==> {
            &&& errs(final(errors)@) == errs(old(errors)@).push(
                err(
                    ErrorCode::AccountNotOpen,
                    "Pad source account "@ + pad.source_account@ + " was never opened"@,
                    pad.date,
                ),
            )
            &&& final(state).pending_pads == old(state).pending_pads
        },
        is_open(*old(state), pad.account@) && is_open(*old(state), pad.source_account@) ==> {
            &&& errs(final(errors)@) == errs(old(errors)@)
            &&& pads_view(final(state).pending_pads@) == pads_with(
                old(state).pending_pads@,
                pad.account@,
                PendingPad { source_account: pad.source_account, date: pad.date, used: false },
            )
        },
{
    if find_key(&state.accounts, pad.account.as_str()).is_none() {
        let mut msg = string_of("Pad target account ");
        push_str(&mut msg, pad.account.as_str());
        push_str(&mut msg, " was never opened");
        push_error(errors, ErrorCode::AccountNotOpen, msg, pad.date);
        return;
    }
    if find_key(&state.accounts, pad.source_account.as_str()).is_none() {
        let mut msg = string_of("Pad source account ");
        push_str(&mut msg, pad.source_account.as_str());
        push_str(&mut msg, " was never opened");
        push_error(errors, ErrorCode::AccountNotOpen, msg, pad.date);
        return;
    }
    let pending = PendingPad { source_account: pad.source_account.clone(), date: pad.date, used: false };
    let ghost old_pads = state.pending_pads@;
    match find_key(&state.pending_pads, pad.account.as_str()) {
        Some(k) => {
            let (acct, mut pads) = state.pending_pads.remove(k);
            pads.push(pending);
            state.pending_pads.insert(k, (acct, pads));
            assert(pads_view(state.pending_pads@) =~= pads_with(
                old_pads,
                pad.account@,
                PendingPad { source_account: pad.source_account, date: pad.date, used: false },
            ));
        },
        None => {
            let mut pads: Vec<PendingPad> = Vec::new();
            pads.push(pending);
            state.pending_pads.push((pad.account.clone(), pads));
            assert(pads_view(state.pending_pads@) =~= pads_with(
                old_pads,
                pad.account@,
                PendingPad { source_account: pad.source_account, date: pad.date, used: false },
            ));
        },
    }
}

/// Whether `a` starts with `prefix`.
pub open spec fn starts_with(a: Seq<char>, prefix: Seq<char>) -> bool {
    prefix.len() <= a.len() && a.subrange(0, prefix.len() as int) == prefix
}

/// Whether `a` starts with `prefix`.
pub fn str_starts_with(a: &str, prefix: &str) -> (res: bool)
    ensures
        res == starts_with(a@, prefix@),
{
    let n = a.unicode_len();
    let m = prefix.unicode_len();
    if m > n {
        return false;
    }
    let mut i: usize = 0;
    while i < m
        invariant
            n == a@.len(),
            m == prefix@.len(),
            m <= n,
            i <= m,
            forall|j: int| 0 <= j < i ==> a@[j] == prefix@[j],
        decreases m - i,
    {
        if a.get_char(i) != prefix.get_char(i) {
            assert(a@.subrange(0, m as int)[i as int] != prefix@[i as int]);
            return false;
        }
        i = i + 1;
    }
    assert(a@.subrange(0, m as int) =~= prefix@);
    true
}

/// Whether an inventory account counts towards a balance assertion on
/// `account`: the account itself or one of its sub-accounts.
pub open spec fn counts_for(a: Seq<char>, account: Seq<char>) -> bool {
    a == account || starts_with(a, account + seq![':'])
}

/// The units of a currency summed over the inventories that count for an
/// account, added in the order of the inventories; `None` on overflow.
pub open spec fn balance_total(
    invs: Seq<(String, Vec<Position>)>,
    account: Seq<char>,
    currency: Seq<char>,
) -> Option<Dec>
    decreases invs.len(),
{
    if invs.len() == 0 {
        Some(Dec { mantissa: 0, scale: 0 })
    } else {
        match balance_total(invs.drop_last(), account, currency) {
            Some(s) => if counts_for(invs.last().0@, account) {
                match units_of(invs.last().1@, currency) {
                    Some(u) => decimal_checked_add(s, u),
                    None => None,
                }
            } else {
                Some(s)
            },
            None => None,
        }
    }
}

/// A sub-account's inventory counts toward an account's balance exactly as
/// an inventory of the account itself does.
pub proof fn law_subaccount_counts_as_account(
    invs: Seq<(String, Vec<Position>)>,
    sub: String,
    own: String,
    ps: Vec<Position>,
    account: Seq<char>,
    currency: Seq<char>,
)
    requires
        sub@.len() > account.len(),
        sub@.subrange(0, account.len() as int) == account,
        sub@[account.len() as int] == ':',
        own@ == account,
    ensures
        balance_total(invs.push((sub, ps)), account, currency) == balance_total(invs.push((own, ps)), account, currency),
{
    let sp = account + seq![':'];
    assert(sub@.subrange(0, sp.len() as int) =~= sp);
    assert(invs.push((sub, ps)).drop_last() =~= invs);
    assert(invs.push((own, ps)).drop_last() =~= invs);
}

/// An account's own inventory adds its units of the currency to the total.
pub proof fn law_own_inventory_counts(ps: Vec<Position>, own: String, account: Seq<char>, currency: Seq<char>)
    requires
        own@ == account,
    ensures
        balance_total(seq![(own, ps)], account, currency) == match units_of(ps@, currency) {
            Some(u) => decimal_checked_add(Dec { mantissa: 0, scale: 0 }, u),
            None => None,
        },
{
    let one = seq![(own, ps)];
    assert(one.drop_last() =~= Seq::<(String, Vec<Position>)>::empty());
    assert(one.last() == (own, ps));
    assert(balance_total(one.drop_last(), account, currency) == Some(Dec { mantissa: 0, scale: 0 }));
    assert(counts_for(one.last().0@, account));
}

/// The inventory of an account that is neither the account nor one of its
/// sub-accounts leaves the total as it was.
pub proof fn law_other_account_ignored(
    invs: Seq<(String, Vec<Position>)>,
    other: String,
    ps: Vec<Position>,
    account: Seq<char>,
    currency: Seq<char>,
)
    requires
        other@ != account,
        !(other@.len() > account.len() && other@.subrange(0, account.len() as int) == account
            && other@[account.len() as int] == ':'),
    ensures
        balance_total(invs.push((other, ps)), account, currency) == balance_total(invs, account, currency),
{
    let sp = account + seq![':'];
    assert(invs.push((other, ps)).drop_last() =~= invs);
    if starts_with(other@, sp) {
        assert(other@.subrange(0, sp.len() as int).subrange(0, account.len() as int) =~= other@.subrange(
            0,
            account.len() as int,
        ));
        assert(sp.subrange(0, account.len() as int) =~= account);
        assert(other@.subrange(0, sp.len() as int)[account.len() as int] == other@[account.len() as int]);
    }
}

/// Every inventory holds well-formed numbers.
pub open spec fn inventories_wf(invs: Seq<(String, Vec<Position>)>) -> bool {
    forall|i: int| 0 <= i < invs.len() ==> positions_wf((#[trigger] invs[i]).1@)
}

/// Sum the units of a currency over the inventories that count for an account.
pub fn compute_balance_total(
    invs: &Vec<(String, Vec<Position>)>,
    account: &str,
    currency: &str,
) -> (res: Option<Dec>)
    requires
        inventories_wf(invs@),
    ensures
        res == balance_total(invs@, account@, currency@),
        res matches Some(d) ==> d.wf(),
{
    let mut prefix = string_of(account);
    crate::text::push_char(&mut prefix, ':');
    let n = invs.len();
    let mut sum = Dec::zero();
    let mut i: usize = 0;
    while i < n
        invariant
            n == invs@.len(),
            i <= n,
            inventories_wf(invs@),
            prefix@ == account@ + seq![':'],
            sum.wf(),
            Some(sum) == balance_total(invs@.subrange(0, i as int), account@, currency@),
        decreases n - i,
    {
        let ghost pre = invs@.subrange(0, i + 1);
        assert(pre.drop_last() =~= invs@.subrange(0, i as int));
        assert(pre.last() == invs@[i as int]);
        let key = invs[i].0.as_str();
        if str_eq(key, account) || str_starts_with(key, prefix.as_str()) {
            assert(positions_wf(invs@[i as int].1@));
            let u = inventory_units(&invs[i].1, currency);
            let next = match u {
                Some(u) => checked_add(sum, u),
                None => None,
            };
            match next {
                Some(s) => {
                    sum = s;
                },
                None => {
                    proof {
                        lemma_balance_total_none_stays(invs@, account@, currency@, i + 1);
                    }
                    return None;
                },
            }
        }
        i = i + 1;
    }
    assert(invs@.subrange(0, n as int) =~= invs@);
    Some(sum)
}

/// Once the running total overflows it stays overflowed.
pub proof fn lemma_balance_total_none_stays(
    invs: Seq<(String, Vec<Position>)>,
    account: Seq<char>,
    currency: Seq<char>,
    k: int,
)
    requires
        0 <= k <= invs.len(),
        balance_total(invs.subrange(0, k), account, currency) is None,
    ensures
        balance_total(invs, account, currency) is None,
    decreases invs.len() - k,
{
    if k < invs.len() {
        assert(invs.subrange(0, k + 1).drop_last() =~= invs.subrange(0, k));
        lemma_balance_total_none_stays(invs, account, currency, k + 1);
    } else {
        assert(invs.subrange(0, k) =~= invs);
    }
}

/// Inventories by their plain parts.
pub open spec fn invs_view(v: Seq<(String, Vec<Position>)>) -> Seq<(Seq<char>, Seq<Position>)> {
    v.map_values(|e: (String, Vec<Position>)| (e.0@, e.1@))
}

/// The position of the first entry with the given key, over plain parts.
pub open spec fn vindex<T>(v: Seq<(Seq<char>, T)>, key: Seq<char>) -> Option<int>
    decreases v.len(),
{
    if v.len() == 0 {
        None
    } else if v[0].0 == key {
        Some(0)
    } else {
        match vindex(v.drop_first(), key) {
            Some(i) => Some(i + 1),
            None => None,
        }
    }
}

pub(crate) proof fn lemma_vindex_invs(v: Seq<(String, Vec<Position>)>, key: Seq<char>)
    ensures
        vindex(invs_view(v), key) == lookup_index(v, key),
    decreases v.len(),
{
    if v.len() > 0 {
        assert(invs_view(v).drop_first() =~= invs_view(v.drop_first()));
        lemma_vindex_invs(v.drop_first(), key);
    }
}

pub(crate) proof fn lemma_vindex_bounds<T>(v: Seq<(Seq<char>, T)>, key: Seq<char>)
    ensures
        vindex(v, key) matches Some(i) ==> 0 <= i < v.len() && v[i].0 == key,
    decreases v.len(),
{
    if v.len() > 0 {
        lemma_vindex_bounds(v.drop_first(), key);
    }
}

pub(crate) proof fn lemma_vindex_update<T>(v: Seq<(Seq<char>, T)>, key: Seq<char>, j: int, x: T)
    requires
        0 <= j < v.len(),
    ensures
        vindex(v.update(j, (v[j].0, x)), key) == vindex(v, key),
    decreases v.len(),
{
    if v.len() > 0 && j > 0 {
        assert(v.update(j, (v[j].0, x)).drop_first() =~= v.drop_first().update(j - 1, (v[j].0, x)));
        lemma_vindex_update(v.drop_first(), key, j - 1, x);
    } else if v.len() > 0 {
        assert(v.update(j, (v[j].0, x)).drop_first() =~= v.drop_first());
        assert(v.update(j, (v[j].0, x))[0].0 == v[0].0);
    }
}

/// The inventories after a position is added to the inventory of `key`
/// (unchanged when there is no such inventory).
pub open spec fn add_to(
    v: Seq<(Seq<char>, Seq<Position>)>,
    key: Seq<char>,
    p: Position,
) -> Seq<(Seq<char>, Seq<Position>)> {
    match vindex(v, key) {
        Some(i) => v.update(i, (v[i].0, v[i].1.push(p))),
        None => v,
    }
}

/// A position of plain units in a currency.
pub open spec fn simple_position(number: Dec, currency: String) -> Position {
    Position { units: Amount { number, currency }, cost: None }
}

/// Add a position to the inventory of an account, if it has one.
pub fn add_position(invs: &mut Vec<(String, Vec<Position>)>, key: &str, p: Position)
    ensures
        invs_view(final(invs)@) == add_to(invs_view(old(invs)@), key@, p),
        inventories_wf(old(invs)@) && p.units.number.wf() ==> inventories_wf(final(invs)@),
{
    proof {
        lemma_vindex_invs(invs@, key@);
    }
    match find_key(invs, key) {
        Some(k) => {
            let ghost before = invs@;
            let (acct, mut ps) = invs.remove(k);
            ps.push(p);
            invs.insert(k, (acct, ps));
            assert(invs_view(invs@) =~= add_to(invs_view(before), key@, p));
            assert(inventories_wf(before) && p.units.number.wf() ==> inventories_wf(invs@)) by {
                if inventories_wf(before) && p.units.number.wf() {
                    assert forall|i: int| 0 <= i < invs@.len() implies positions_wf(
                        (#[trigger] invs@[i]).1@,
                    ) by {
                        if i != k {
                            assert(invs@[i] == before[i]);
                        } else {
                            assert(positions_wf(before[i].1@));
                        }
                    }
                }
            }
        },
        None => {},
    }
}

/// Whether one of the pads has been used.
pub open spec fn any_used(pads: Seq<PendingPad>) -> bool {
    exists|i: int| 0 <= i < pads.len() && pads[i].used
}

/// The pad dates of a multiple-pad warning.
pub open spec fn pad_dates_text(pads: Seq<PendingPad>) -> Seq<char> {
    join_seq(pads.map_values(|p: PendingPad| chrono_date_display(p.date)), ", "@)
}

/// The warning for more than one unused pad before a balance assertion.
pub open spec fn multi_pad_errors(bal: Balance, pads: Seq<PendingPad>) -> Seq<ErrorSpec> {
    if pads.len() > 1 && !any_used(pads) {
        seq![
            ErrorSpec {
                code: ErrorCode::MultiplePadForBalance,
                message: "Multiple pad directives for "@ + bal.account@ + " "@ + bal.amount.currency@
                    + " before balance assertion"@,
                date: bal.date,
                context: Some("pad dates: "@ + pad_dates_text(pads)),
            },
        ]
    } else {
        Seq::empty()
    }
}

/// The decimal that has the opposite sign.
pub open spec fn negated(d: Dec) -> Dec {
    Dec { mantissa: (-d.mantissa) as i128, scale: d.scale }
}

/// The absolute value of a decimal.
pub open spec fn absolute(d: Dec) -> Dec {
    Dec { mantissa: (if d.mantissa < 0 { -d.mantissa } else { d.mantissa as int }) as i128, scale: d.scale }
}

/// The amount a pad adds to its account so that a balance assertion holds.
pub open spec fn pad_difference(state: LedgerState, bal: Balance) -> Dec {
    decimal_checked_sub(
        bal.amount.number,
        balance_total(state.inventories@, bal.account@, bal.amount.currency@)->Some_0,
    )->Some_0
}

/// The tolerance of a balance assertion, and whether it was given explicitly.
pub open spec fn balance_tolerance(bal: Balance) -> (Dec, bool) {
    match bal.tolerance {
        Some(t) => (t, true),
        None => (inferred_tolerance_spec(bal.amount), false),
    }
}

/// The message of a failed balance assertion.
pub open spec fn balance_failure_msg(bal: Balance, actual: Dec, difference: Dec) -> Seq<char> {
    let (tolerance, explicit) = balance_tolerance(bal);
    if explicit {
        "Balance exceeds explicit tolerance for "@ + bal.account@ + ": expected "@ + decimal_display(
            bal.amount.number,
        ) + " "@ + bal.amount.currency@ + " ~ "@ + decimal_display(tolerance) + ", got "@
            + decimal_display(actual) + " "@ + bal.amount.currency@ + " (difference: "@
            + decimal_display(difference) + ")"@
    } else {
        "Balance assertion failed for "@ + bal.account@ + ": expected "@ + decimal_display(
            bal.amount.number,
        ) + " "@ + bal.amount.currency@ + ", got "@ + decimal_display(actual) + " "@
            + bal.amount.currency@
    }
}

/// The errors of a balance assertion that no pad applies to.
pub open spec fn unpadded_balance_errors(state: LedgerState, bal: Balance) -> Seq<ErrorSpec> {
    let actual = balance_total(state.inventories@, bal.account@, bal.amount.currency@)->Some_0;
    if actual.mantissa != 0 || lookup(state.inventories@, bal.account@) is Some {
        let difference = absolute(decimal_checked_sub(actual, bal.amount.number)->Some_0);
        let (tolerance, explicit) = balance_tolerance(bal);
        if difference.order_with(tolerance) == Order::Greater {
            seq![
                ErrorSpec {
                    code: if explicit {
                        ErrorCode::BalanceToleranceExceeded
                    } else {
                        ErrorCode::BalanceAssertionFailed
                    },
                    message: balance_failure_msg(bal, actual, difference),
                    date: bal.date,
                    context: Some(
                        "difference: "@ + decimal_display(difference) + ", tolerance: "@
                            + decimal_display(tolerance),
                    ),
                },
            ]
        } else {
            Seq::empty()
        }
    } else {
        Seq::empty()
    }
}

/// The numbers and dates a balance assertion reads can be handled: numbers
/// well formed and pad dates valid.
pub open spec fn balance_inputs_wf(state: LedgerState, bal: Balance) -> bool {
    &&& inventories_wf(state.inventories@)
    &&& bal.amount.number.wf()
    &&& (bal.tolerance matches Some(t) ==> t.wf())
    &&& forall|i: int| 0 <= i < state.pending_pads@.len() ==> forall|j: int|
        0 <= j < (#[trigger] state.pending_pads@[i]).1@.len() ==> (
        #[trigger] state.pending_pads@[i].1@[j]).date.wf()
}

/// The decimal arithmetic of a balance assertion does not overflow (the
/// inputs on which the sums and differences would panic are left out).
pub open spec fn balance_arith_ok(state: LedgerState, bal: Balance) -> bool {
    let total = balance_total(state.inventories@, bal.account@, bal.amount.currency@);
    match lookup(state.pending_pads@, bal.account@) {
        Some(pads) => pads@.len() > 0 ==> total is Some && decimal_checked_sub(
            bal.amount.number,
            total->Some_0,
        ) is Some,
        None => total is Some && ((total->Some_0.mantissa != 0 || lookup(
            state.inventories@,
            bal.account@,
        ) is Some) ==> decimal_checked_sub(total->Some_0, bal.amount.number) is Some),
    }
}

/// The amount a pad adds, when a pad applies.
pub open spec fn pad_applies(state: LedgerState, bal: Balance) -> bool {
    match lookup(state.pending_pads@, bal.account@) {
        Some(pads) => pads@.len() > 0 && pad_difference(state, bal).mantissa != 0,
        None => false,
    }
}

/// The inventories after a balance assertion.
pub open spec fn balance_outcome_inventories(state: LedgerState, bal: Balance) -> Seq<(Seq<char>, Seq<Position>)> {
    if is_open(state, bal.account@) && pad_applies(state, bal) {
        let pads = lookup(state.pending_pads@, bal.account@)->Some_0@;
        let diff = pad_difference(state, bal);
        add_to(
            add_to(invs_view(state.inventories@), bal.account@, simple_position(diff, bal.amount.currency)),
            pads.last().source_account@,
            simple_position(negated(diff), bal.amount.currency),
        )
    } else {
        invs_view(state.inventories@)
    }
}

/// The pending pads after a balance assertion: the most recent pad of the
/// account is marked used when it added something.
pub open spec fn balance_outcome_pads(state: LedgerState, bal: Balance) -> Seq<(Seq<char>, Seq<PendingPad>)> {
    let pv = pads_view(state.pending_pads@);
    if is_open(state, bal.account@) && pad_applies(state, bal) {
        let k = lookup_index(state.pending_pads@, bal.account@)->Some_0;
        let pads = pv[k].1;
        let last = pads.last();
        pv.update(k, (pv[k].0, pads.update(pads.len() - 1, PendingPad { source_account: last.source_account, date: last.date, used: true })))
    } else {
        pv
    }
}

/// The errors of a balance assertion.
pub open spec fn balance_errors(state: LedgerState, bal: Balance) -> Seq<ErrorSpec> {
    if !is_open(state, bal.account@) {
        seq![err(ErrorCode::AccountNotOpen, "Account "@ + bal.account@ + " was never opened"@, bal.date)]
    } else {
        match lookup(state.pending_pads@, bal.account@) {
            Some(pads) => multi_pad_errors(bal, pads@),
            None => unpadded_balance_errors(state, bal),
        }
    }
}

/// The dates of some pads, joined by `, `.
fn pad_dates(pads: &Vec<PendingPad>) -> (res: String)
    requires
        forall|j: int| 0 <= j < pads@.len() ==> (#[trigger] pads@[j]).date.wf(),
    ensures
        res@ == pad_dates_text(pads@),
{
    let ghost texts = pads@.map_values(|p: PendingPad| chrono_date_display(p.date));
    let mut res = String::new();
    let n = pads.len();
    let mut i: usize = 0;
    while i < n
        invariant
            n == pads@.len(),
            i <= n,
            forall|j: int| 0 <= j < pads@.len() ==> (#[trigger] pads@[j]).date.wf(),
            texts == pads@.map_values(|p: PendingPad| chrono_date_display(p.date)),
            res@ == join_seq(texts.subrange(0, i as int), ", "@),
        decreases n - i,
    {
        let ghost l = texts.subrange(0, i + 1);
        assert(l.drop_last() =~= texts.subrange(0, i as int));
        if i > 0 {
            push_str(&mut res, ", ");
        } else {
            assert(l.len() == 1);
        }
        let t = crate::date::to_text(pads[i].date);
        push_str(&mut res, t.as_str());
        i = i + 1;
    }
    assert(texts.subrange(0, n as int) =~= texts);
    res
}

/// Validate a Balance directive.
///
/// The account must be opened. When pads wait for the account, the most
/// recent one adds the difference between the expected amount and the units
/// of the account and its sub-accounts (and takes it from its source account),
/// and no balance error is reported; more than one pad with none used yet is
/// warned about. Otherwise the units must match the expected amount within
/// the explicit or inferred tolerance.
pub fn validate_balance(state: &mut LedgerState, bal: &Balance, errors: &mut Vec<ValidationError>)
    requires
        balance_inputs_wf(*old(state), *bal),
        balance_arith_ok(*old(state), *bal),
    ensures
        final(state).accounts == old(state).accounts,
        final(state).commodities == old(state).commodities,
        final(state).options == old(state).options,
        errs(final(errors)@) == errs(old(errors)@) + balance_errors(*old(state), *bal),
        invs_view(final(state).inventories@) == balance_outcome_inventories(*old(state), *bal),
        pads_view(final(state).pending_pads@) == balance_outcome_pads(*old(state), *bal),
        inventories_wf(final(state).inventories@),
{
    let ghost st0 = *state;
    let ghost e0 = errs(errors@);
    if find_key(&state.accounts, bal.account.as_str()).is_none() {
        let mut msg = string_of("Account ");
        push_str(&mut msg, bal.account.as_str());
        push_str(&mut msg, " was never opened");
        push_error(errors, ErrorCode::AccountNotOpen, msg, bal.date);
        return;
    }
    if let Some(k) = find_key(&state.pending_pads, bal.account.as_str()) {
        let npads = state.pending_pads[k].1.len();
        // more than one pad, none used yet
        let mut any_used_pad = false;
        let mut j: usize = 0;
        while j < npads
            invariant
                k < state.pending_pads@.len(),
                npads == state.pending_pads@[k as int].1@.len(),
                j <= npads,
                any_used_pad == exists|t: int| 0 <= t < j && state.pending_pads@[k as int].1@[t].used,
            decreases npads - j,
        {
            if state.pending_pads[k].1[j].used {
                any_used_pad = true;
            }
            j = j + 1;
        }
        if npads > 1 && !any_used_pad {
            let mut msg = string_of("Multiple pad directives for ");
            push_str(&mut msg, bal.account.as_str());
            push_str(&mut msg, " ");
            push_str(&mut msg, bal.amount.currency.as_str());
            push_str(&mut msg, " before balance assertion");
            let mut ctx = string_of("pad dates: ");
            assert(forall|j: int| 0 <= j < state.pending_pads@[k as int].1@.len() ==> (#[trigger] state.pending_pads@[k as int].1@[j]).date.wf());
            let dates = pad_dates(&state.pending_pads[k].1);
            push_str(&mut ctx, dates.as_str());
            let e = ValidationError { code: ErrorCode::MultiplePadForBalance, message: msg, date: bal.date, context: Some(ctx) };
            errors.push(e);
        }
        assert(errs(errors@) =~= e0 + balance_errors(st0, *bal));
        if npads > 0 {
            let total = compute_balance_total(&state.inventories, bal.account.as_str(), bal.amount.currency.as_str());
            let actual = total.unwrap();
            let difference = checked_sub(bal.amount.number, actual).unwrap();
            if !difference.is_zero() {
                let last = npads - 1;
                let source = state.pending_pads[k].1[last].source_account.clone();
                proof {
                    lemma_vindex_invs(state.inventories@, bal.account@);
                }
                add_position(
                    &mut state.inventories,
                    bal.account.as_str(),
                    Position { units: Amount { number: difference, currency: bal.amount.currency.clone() }, cost: None },
                );
                add_position(
                    &mut state.inventories,
                    source.as_str(),
                    Position { units: Amount { number: difference.neg(), currency: bal.amount.currency.clone() }, cost: None },
                );
                let ghost pads_before = state.pending_pads@;
                assert(pads_before == st0.pending_pads@);
                assert(pad_difference(st0, *bal) == difference);
                assert(pad_applies(st0, *bal));
                let (acct, mut pads) = state.pending_pads.remove(k);
                let ghost old_pads = pads@;
                let p = pads.remove(last);
                pads.push(PendingPad { source_account: p.source_account, date: p.date, used: true });
                assert(pads@ =~= old_pads.update(last as int, PendingPad { source_account: old_pads.last().source_account, date: old_pads.last().date, used: true }));
                state.pending_pads.insert(k, (acct, pads));
                assert(state.pending_pads@ =~= pads_before.update(k as int, (acct, pads)));
                assert(pads_view(state.pending_pads@) =~= balance_outcome_pads(st0, *bal));
            } else {
                assert(pads_view(state.pending_pads@) =~= balance_outcome_pads(st0, *bal));
            }
        }
        return;
    }
    let total = compute_balance_total(&state.inventories, bal.account.as_str(), bal.amount.currency.as_str());
    let actual = total.unwrap();
    if !actual.is_zero() || find_key(&state.inventories, bal.account.as_str()).is_some() {
        let expected = bal.amount.number;
        let difference = checked_sub(actual, expected).unwrap().abs();
        let (tolerance, is_explicit) = match bal.tolerance {
            Some(t) => (t, true),
            None => (bal.amount.inferred_tolerance(), false),
        };
        if tolerance.lt(&difference) {
            let mut msg = if is_explicit {
                string_of("Balance exceeds explicit tolerance for ")
            } else {
                string_of("Balance assertion failed for ")
            };
            push_str(&mut msg, bal.account.as_str());
            push_str(&mut msg, ": expected ");
            push_str(&mut msg, dec_text(expected).as_str());
            push_str(&mut msg, " ");
            push_str(&mut msg, bal.amount.currency.as_str());
            if is_explicit {
                push_str(&mut msg, " ~ ");
                push_str(&mut msg, dec_text(tolerance).as_str());
            }
            push_str(&mut msg, ", got ");
            push_str(&mut msg, dec_text(actual).as_str());
            push_str(&mut msg, " ");
            push_str(&mut msg, bal.amount.currency.as_str());
            if is_explicit {
                push_str(&mut msg, " (difference: ");
                push_str(&mut msg, dec_text(difference).as_str());
                push_str(&mut msg, ")");
            }
            let mut ctx = string_of("difference: ");
            push_str(&mut ctx, dec_text(difference).as_str());
            push_str(&mut ctx, ", tolerance: ");
            push_str(&mut ctx, dec_text(tolerance).as_str());
            let code = if is_explicit {
                ErrorCode::BalanceToleranceExceeded
            } else {
                ErrorCode::BalanceAssertionFailed
            };
            let e = ValidationError { code, message: msg, date: bal.date, context: Some(ctx) };
            errors.push(e);
        }
    }
    assert(errs(errors@) =~= e0 + balance_errors(st0, *bal));
}

/// Validate a Balance directive when its decimal arithmetic does not
/// overflow; otherwise leave everything unchanged and return `false`.
pub fn try_validate_balance(state: &mut LedgerState, bal: &Balance, errors: &mut Vec<ValidationError>) -> (res: bool)
    requires
        balance_inputs_wf(*old(state), *bal),
    ensures
        res == balance_arith_ok(*old(state), *bal),
        res ==> {
            &&& errs(final(errors)@) == errs(old(errors)@) + balance_errors(*old(state), *bal)
            &&& invs_view(final(state).inventories@) == balance_outcome_inventories(*old(state), *bal)
            &&& pads_view(final(state).pending_pads@) == balance_outcome_pads(*old(state), *bal)
        },
        !res ==> final(errors)@ == old(errors)@ && final(state).inventories == old(state).inventories
            && final(state).pending_pads == old(state).pending_pads,
        final(state).accounts == old(state).accounts,
        final(state).commodities == old(state).commodities,
        final(state).options == old(state).options,
{
    let total = compute_balance_total(&state.inventories, bal.account.as_str(), bal.amount.currency.as_str());
    let ok = match find_key(&state.pending_pads, bal.account.as_str()) {
        Some(k) => {
            if state.pending_pads[k].1.len() > 0 {
                match total {
                    Some(t) => checked_sub(bal.amount.number, t).is_some(),
                    None => false,
                }
            } else {
                true
            }
        },
        None => {
            match total {
                Some(t) => {
                    if !t.is_zero() || find_key(&state.inventories, bal.account.as_str()).is_some() {
                        checked_sub(t, bal.amount.number).is_some()
                    } else {
                        true
                    }
                },
                None => false,
            }
        },
    };
    if !ok {
        return false;
    }
    validate_balance(state, bal, errors);
    true
}

/// The smallest unit of a decimal's precision: `10^-scale`.
pub open spec fn quantum_spec(d: Dec) -> Dec {
    if d.scale == 0 {
        Dec { mantissa: 1, scale: 0 }
    } else {
        Dec { mantissa: 1, scale: d.scale }
    }
}

/// Calculate the quantum (smallest unit) of a decimal number based on its precision.
/// For example: 10.436 has quantum 0.001, 100.00 has quantum 0.01.
pub fn decimal_quantum(value: Dec) -> (res: Dec)
    requires
        value.wf(),
    ensures
        res == quantum_spec(value),
        res.wf(),
{
    if value.scale == 0 {
        Dec::one()
    } else {
        Dec::new(1, value.scale)
    }
}

/// The larger of a stored tolerance and a new one; the new one when they are
/// numerically equal (as `Ord::max` picks its second argument).
pub open spec fn max_keep_new(old: Dec, new: Dec) -> Dec {
    if old.order_with(new) == Order::Greater {
        old
    } else {
        new
    }
}

/// Per-currency tolerances after one more tolerance for `currency`.
pub open spec fn tol_upsert(v: Seq<(Seq<char>, Dec)>, currency: Seq<char>, t: Dec) -> Seq<(Seq<char>, Dec)> {
    match vindex(v, currency) {
        Some(i) => v.update(i, (v[i].0, max_keep_new(v[i].1, t))),
        None => v.push((currency, t)),
    }
}

/// Tolerances from the quantum of each posting's units, over the postings in
/// order; `None` when a product overflows.
pub open spec fn base_tolerances(ps: Seq<Posting>, mult: Dec) -> Option<Seq<(Seq<char>, Dec)>>
    decreases ps.len(),
{
    if ps.len() == 0 {
        Some(Seq::empty())
    } else {
        match base_tolerances(ps.drop_last(), mult) {
            None => None,
            Some(v) => match amount_of(ps.last()) {
                None => Some(v),
                Some(u) => match decimal_checked_mul(quantum_spec(u.number), mult) {
                    None => None,
                    Some(t) => Some(tol_upsert(v, u.currency@, t)),
                },
            },
        }
    }
}

/// The cost-inferred tolerance of one posting, if it has one: its units'
/// quantum times its per-unit cost times the multiplier. `Some(None)` when the
/// posting has none, `None` when a product overflows.
pub open spec fn cost_tolerance(p: Posting, mult: Dec) -> Option<Option<(Seq<char>, Dec)>> {
    match (amount_of(p), p.cost) {
        (Some(u), Some(c)) => match (c.number_per, c.currency) {
            (Some(per), Some(cur)) => match decimal_checked_mul(quantum_spec(u.number), per) {
                None => None,
                Some(x) => match decimal_checked_mul(x, mult) {
                    None => None,
                    Some(t) => Some(Some((cur@, t))),
                },
            },
            _ => Some(None),
        },
        _ => Some(None),
    }
}

/// Cost-inferred tolerances over the postings in order, starting from `start`.
pub open spec fn cost_tolerances(ps: Seq<Posting>, mult: Dec, start: Seq<(Seq<char>, Dec)>) -> Option<Seq<(Seq<char>, Dec)>>
    decreases ps.len(),
{
    if ps.len() == 0 {
        Some(start)
    } else {
        match cost_tolerances(ps.drop_last(), mult, start) {
            None => None,
            Some(v) => match cost_tolerance(ps.last(), mult) {
                None => None,
                Some(None) => Some(v),
                Some(Some((cur, t))) => Some(tol_upsert(v, cur, t)),
            },
        }
    }
}

/// The per-currency tolerances of a transaction; `None` when a product overflows.
pub open spec fn tolerances_spec(txn: Transaction, options: ValidationOptions) -> Option<Seq<(Seq<char>, Dec)>> {
    match base_tolerances(txn.postings@, options.tolerance_multiplier) {
        None => None,
        Some(v) => if options.infer_tolerance_from_cost {
            cost_tolerances(txn.postings@, options.tolerance_multiplier, v)
        } else {
            Some(v)
        },
    }
}

/// Tolerances by their plain parts.
pub open spec fn tols_view(v: Seq<(String, Dec)>) -> Seq<(Seq<char>, Dec)> {
    v.map_values(|e: (String, Dec)| (e.0@, e.1))
}

/// The numbers of a transaction's postings are well formed.
pub open spec fn postings_wf(ps: Seq<Posting>) -> bool {
    forall|i: int| 0 <= i < ps.len() ==> {
        &&& (amount_of(#[trigger] ps[i]) matches Some(u) ==> u.number.wf())
        &&& (ps[i].cost matches Some(c) ==> (c.number_per matches Some(n) ==> n.wf()) && (
        c.number_total matches Some(n) ==> n.wf()))
    }
}

proof fn lemma_vindex_tols(v: Seq<(String, Dec)>, key: Seq<char>)
    ensures
        vindex(tols_view(v), key) == lookup_index(v, key),
    decreases v.len(),
{
    if v.len() > 0 {
        assert(tols_view(v).drop_first() =~= tols_view(v.drop_first()));
        lemma_vindex_tols(v.drop_first(), key);
    }
}

/// Record one more tolerance for a currency, keeping the larger one.
fn upsert_tolerance(v: &mut Vec<(String, Dec)>, currency: &String, t: Dec)
    requires
        forall|i: int| 0 <= i < old(v)@.len() ==> (#[trigger] old(v)@[i]).1.wf(),
        t.wf(),
    ensures
        tols_view(final(v)@) == tol_upsert(tols_view(old(v)@), currency@, t),
        forall|i: int| 0 <= i < final(v)@.len() ==> (#[trigger] final(v)@[i]).1.wf(),
{
    proof {
        lemma_vindex_tols(v@, currency@);
    }
    let ghost before = v@;
    match find_key(v, currency.as_str()) {
        Some(k) => {
            let (c, old_t) = v.remove(k);
            let newt = if old_t.compare(&t) == Order::Greater { old_t } else { t };
            v.insert(k, (c, newt));
            assert(tols_view(v@) =~= tol_upsert(tols_view(before), currency@, t));
        },
        None => {
            v.push((currency.clone(), t));
            assert(tols_view(v@) =~= tol_upsert(tols_view(before), currency@, t));
        },
    }
}

/// Calculate per-currency tolerances for a transaction, or `None` when a
/// product overflows.
///
/// Each posting's units give `quantum * multiplier` for their currency; when
/// `infer_tolerance_from_cost` is on, each posting with a per-unit cost and a
/// cost currency also gives `units_quantum * cost_per_unit * multiplier` for
/// the cost currency. The tolerance of a currency is the largest one given.
pub fn try_calculate_tolerances(txn: &Transaction, options: &ValidationOptions) -> (res: Option<Vec<(String, Dec)>>)
    requires
        postings_wf(txn.postings@),
        options.tolerance_multiplier.wf(),
    ensures
        match (res, tolerances_spec(*txn, *options)) {
            (Some(v), Some(s)) => tols_view(v@) == s,
            (None, None) => true,
            _ => false,
        },
        res matches Some(v) ==> forall|i: int| 0 <= i < v@.len() ==> (#[trigger] v@[i]).1.wf(),
{
    let mult = options.tolerance_multiplier;
    let mut tolerances: Vec<(String, Dec)> = Vec::new();
    let n = txn.postings.len();
    let mut i: usize = 0;
    while i < n
        invariant
            n == txn.postings@.len(),
            i <= n,
            postings_wf(txn.postings@),
            mult == options.tolerance_multiplier,
            mult.wf(),
            forall|j: int| 0 <= j < tolerances@.len() ==> (#[trigger] tolerances@[j]).1.wf(),
            base_tolerances(txn.postings@.subrange(0, i as int), mult) == Some(tols_view(tolerances@)),
        decreases n - i,
    {
        let ghost pre = txn.postings@.subrange(0, i + 1);
        assert(pre.drop_last() =~= txn.postings@.subrange(0, i as int));
        let p = &txn.postings[i];
        if let Some(units) = p.amount() {
            let q = decimal_quantum(units.number);
            match checked_mul(q, mult) {
                Some(t) => {
                    upsert_tolerance(&mut tolerances, &units.currency, t);
                },
                None => {
                    proof {
                        lemma_base_none_stays(txn.postings@, mult, i + 1);
                    }
                    return None;
                },
            }
        }
        i = i + 1;
    }
    assert(txn.postings@.subrange(0, n as int) =~= txn.postings@);
    if !options.infer_tolerance_from_cost {
        return Some(tolerances);
    }
    let ghost start = tols_view(tolerances@);
    let mut i: usize = 0;
    while i < n
        invariant
            n == txn.postings@.len(),
            i <= n,
            postings_wf(txn.postings@),
            mult == options.tolerance_multiplier,
            mult.wf(),
            forall|j: int| 0 <= j < tolerances@.len() ==> (#[trigger] tolerances@[j]).1.wf(),
            cost_tolerances(txn.postings@.subrange(0, i as int), mult, start) == Some(tols_view(tolerances@)),
            base_tolerances(txn.postings@, mult) == Some(start),
            options.infer_tolerance_from_cost,
        decreases n - i,
    {
        let ghost pre = txn.postings@.subrange(0, i + 1);
        assert(pre.drop_last() =~= txn.postings@.subrange(0, i as int));
        let p = &txn.postings[i];
        if let (Some(units), Some(cost_spec)) = (p.amount(), &p.cost) {
            if let (Some(per), Some(cur)) = (cost_spec.number_per, &cost_spec.currency) {
                let q = decimal_quantum(units.number);
                let prod = match checked_mul(q, per) {
                    Some(x) => checked_mul(x, mult),
                    None => None,
                };
                match prod {
                    Some(t) => {
                        upsert_tolerance(&mut tolerances, cur, t);
                    },
                    None => {
                        proof {
                            lemma_cost_none_stays(txn.postings@, mult, start, i + 1);
                        }
                        return None;
                    },
                }
            }
        }
        i = i + 1;
    }
    assert(txn.postings@.subrange(0, n as int) =~= txn.postings@);
    Some(tolerances)
}

proof fn lemma_base_none_stays(ps: Seq<Posting>, mult: Dec, k: int)
    requires
        0 <= k <= ps.len(),
        base_tolerances(ps.subrange(0, k), mult) is None,
    ensures
        base_tolerances(ps, mult) is None,
    decreases ps.len() - k,
{
    if k < ps.len() {
        assert(ps.subrange(0, k + 1).drop_last() =~= ps.subrange(0, k));
        lemma_base_none_stays(ps, mult, k + 1);
    } else {
        assert(ps.subrange(0, k) =~= ps);
    }
}

proof fn lemma_cost_none_stays(ps: Seq<Posting>, mult: Dec, start: Seq<(Seq<char>, Dec)>, k: int)
    requires
        0 <= k <= ps.len(),
        cost_tolerances(ps.subrange(0, k), mult, start) is None,
    ensures
        cost_tolerances(ps, mult, start) is None,
    decreases ps.len() - k,
{
    if k < ps.len() {
        assert(ps.subrange(0, k + 1).drop_last() =~= ps.subrange(0, k));
        lemma_cost_none_stays(ps, mult, start, k + 1);
    } else {
        assert(ps.subrange(0, k) =~= ps);
    }
}

/// Calculate per-currency tolerances for a transaction (the products are
/// required not to overflow, where the multiplication would panic).
pub fn calculate_tolerances(txn: &Transaction, options: &ValidationOptions) -> (res: Vec<(String, Dec)>)
    requires
        postings_wf(txn.postings@),
        options.tolerance_multiplier.wf(),
        tolerances_spec(*txn, *options) is Some,
    ensures
        Some(tols_view(res@)) == tolerances_spec(*txn, *options),
        forall|i: int| 0 <= i < res@.len() ==> (#[trigger] res@[i]).1.wf(),
{
    try_calculate_tolerances(txn, options).unwrap()
}

/// Whether a posting has a cost spec with neither a per-unit nor a total cost.
pub open spec fn empty_cost(p: Posting) -> bool {
    match p.cost {
        Some(c) => c.number_per is None && c.number_total is None,
        None => false,
    }
}

/// Whether some posting has an empty cost spec.
pub open spec fn has_empty_cost_spec(ps: Seq<Posting>) -> bool {
    exists|i: int| 0 <= i < ps.len() && empty_cost(#[trigger] ps[i])
}

/// The tolerance stored for a currency, or the default of 0.005.
pub open spec fn tolerance_for(tols: Seq<(Seq<char>, Dec)>, currency: Seq<char>) -> Dec {
    match vindex(tols, currency) {
        Some(i) => tols[i].1,
        None => Dec { mantissa: 5, scale: 3 },
    }
}

/// The errors for residuals beyond their currency's tolerance, in order.
pub open spec fn residual_errors(
    tols: Seq<(Seq<char>, Dec)>,
    residuals: Seq<(String, Dec)>,
    date: Date,
) -> Seq<ErrorSpec>
    decreases residuals.len(),
{
    if residuals.len() == 0 {
        Seq::empty()
    } else {
        let (cur, r) = residuals.last();
        residual_errors(tols, residuals.drop_last(), date) + if absolute(r).order_with(
            tolerance_for(tols, cur@),
        ) == Order::Greater {
            seq![
                err(
                    ErrorCode::TransactionUnbalanced,
                    "Transaction does not balance: residual "@ + decimal_display(r) + " "@ + cur@,
                    date,
                ),
            ]
        } else {
            Seq::<ErrorSpec>::empty()
        }
    }
}

/// One more residual adds an unbalanced error exactly when its magnitude is
/// greater than its currency's tolerance (compared as numbers), and nothing
/// otherwise; the earlier errors stay as they were.
pub proof fn law_residual_beyond_tolerance(
    tols: Seq<(Seq<char>, Dec)>,
    residuals: Seq<(String, Dec)>,
    date: Date,
    cur: String,
    r: Dec,
)
    requires
        r.wf(),
    ensures
        ({
            let t = tolerance_for(tols, cur@);
            let mag: int = if r.mantissa < 0 { -r.mantissa } else { r.mantissa as int };
            let before = residual_errors(tols, residuals, date);
            let after = residual_errors(tols, residuals.push((cur, r)), date);
            &&& after.len() == before.len() + (if mag * crate::dec::pow10(t.scale as nat) > t.mantissa * crate::dec::pow10(r.scale as nat) {
                1int
            } else {
                0int
            })
            &&& after.subrange(0, before.len() as int) == before
            &&& after.len() > before.len() ==> after.last().code == ErrorCode::TransactionUnbalanced
        }),
{
    assert(residuals.push((cur, r)).drop_last() =~= residuals);
    let before = residual_errors(tols, residuals, date);
    let after = residual_errors(tols, residuals.push((cur, r)), date);
    assert(after.subrange(0, before.len() as int) =~= before);
}

/// A residual and its negation are judged alike: whether a transaction
/// balances does not depend on the sign of its residual.
pub proof fn law_residual_sign_irrelevant(
    tols: Seq<(Seq<char>, Dec)>,
    residuals: Seq<(String, Dec)>,
    date: Date,
    cur: String,
    r: Dec,
)
    requires
        r.wf(),
    ensures
        residual_errors(tols, residuals.push((cur, r)), date).len() == residual_errors(
            tols,
            residuals.push((cur, Dec { mantissa: (-r.mantissa) as i128, scale: r.scale })),
            date,
        ).len(),
{
    law_residual_beyond_tolerance(tols, residuals, date, cur, r);
    law_residual_beyond_tolerance(tols, residuals, date, cur, Dec { mantissa: (-r.mantissa) as i128, scale: r.scale });
}

/// The errors of the balance check of a transaction, given its residuals.
pub open spec fn transaction_balance_errors(
    txn: Transaction,
    options: ValidationOptions,
    residuals: Seq<(String, Dec)>,
) -> Seq<ErrorSpec> {
    if has_empty_cost_spec(txn.postings@) {
        Seq::empty()
    } else {
        residual_errors(tolerances_spec(txn, options)->Some_0, residuals, txn.date)
    }
}

/// The tolerances can be computed for a transaction whose balance is checked.
pub open spec fn balance_check_ok(txn: Transaction, options: ValidationOptions) -> bool {
    !has_empty_cost_spec(txn.postings@) ==> tolerances_spec(txn, options) is Some
}

/// All residual numbers are well formed.
pub open spec fn residuals_wf(residuals: Seq<(String, Dec)>) -> bool {
    forall|i: int| 0 <= i < residuals.len() ==> (#[trigger] residuals[i]).1.wf()
}

/// Validate that the transaction balances within tolerance, given the residual
/// of each currency (the sum of the postings' weights).
///
/// A posting with an empty cost spec skips the check (lot matching checks it).
pub fn validate_transaction_balance(
    txn: &Transaction,
    options: &ValidationOptions,
    residuals: &Vec<(String, Dec)>,
    errors: &mut Vec<ValidationError>,
)
    requires
        postings_wf(txn.postings@),
        options.tolerance_multiplier.wf(),
        residuals_wf(residuals@),
        balance_check_ok(*txn, *options),
    ensures
        errs(final(errors)@) == errs(old(errors)@) + transaction_balance_errors(*txn, *options, residuals@),
{
    let n = txn.postings.len();
    let mut i: usize = 0;
    while i < n
        invariant
            n == txn.postings@.len(),
            i <= n,
            forall|j: int| 0 <= j < i ==> !empty_cost(#[trigger] txn.postings@[j]),
        decreases n - i,
    {
        if let Some(cost) = &txn.postings[i].cost {
            if cost.number_per.is_none() && cost.number_total.is_none() {
                assert(has_empty_cost_spec(txn.postings@));
                assert(errs(errors@) =~= errs(old(errors)@) + Seq::<ErrorSpec>::empty());
                return;
            }
        }
        i = i + 1;
    }
    let tolerances = calculate_tolerances(txn, options);
    let ghost tv = tols_view(tolerances@);
    let m = residuals.len();
    let mut k: usize = 0;
    while k < m
        invariant
            m == residuals@.len(),
            k <= m,
            residuals_wf(residuals@),
            tv == tols_view(tolerances@),
            forall|j: int| 0 <= j < tolerances@.len() ==> (#[trigger] tolerances@[j]).1.wf(),
            errs(errors@) == errs(old(errors)@) + residual_errors(tv, residuals@.subrange(0, k as int), txn.date),
        decreases m - k,
    {
        let ghost pre = residuals@.subrange(0, k + 1);
        assert(pre.drop_last() =~= residuals@.subrange(0, k as int));
        let currency = &residuals[k].0;
        let residual = residuals[k].1;
        proof {
            lemma_vindex_tols(tolerances@, currency@);
        }
        let tolerance = match find_key(&tolerances, currency.as_str()) {
            Some(t) => tolerances[t].1,
            None => Dec::new(5, 3),
        };
        if tolerance.lt(&residual.abs()) {
            let mut msg = string_of("Transaction does not balance: residual ");
            push_str(&mut msg, dec_text(residual).as_str());
            push_str(&mut msg, " ");
            push_str(&mut msg, currency.as_str());
            push_error(errors, ErrorCode::TransactionUnbalanced, msg, txn.date);
        }
        assert(errs(errors@) =~= errs(old(errors)@) + residual_errors(tv, residuals@.subrange(0, k + 1), txn.date));
        k = k + 1;
    }
    assert(residuals@.subrange(0, m as int) =~= residuals@);
}

/// The errors of validating a transaction.
pub open spec fn transaction_errors(
    state: LedgerState,
    txn: Transaction,
    residuals: Seq<(String, Dec)>,
) -> Seq<ErrorSpec> {
    if txn.postings@.len() == 0 {
        Seq::empty()
    } else {
        (if txn.postings@.len() == 1 {
            seq![err(ErrorCode::SinglePosting, "Transaction has only one posting"@, txn.date)]
        } else {
            Seq::<ErrorSpec>::empty()
        }) + postings_account_errors(state, txn, txn.postings@.len() as int)
            + transaction_balance_errors(txn, state.options, residuals)
    }
}

/// Validate a Transaction directive: its structure, the accounts and
/// currencies of its postings, and its balance given its residuals.
pub fn validate_transaction(
    state: &LedgerState,
    txn: &Transaction,
    residuals: &Vec<(String, Dec)>,
    errors: &mut Vec<ValidationError>,
)
    requires
        txn.date.wf(),
        accounts_wf(state.accounts@),
        postings_wf(txn.postings@),
        state.options.tolerance_multiplier.wf(),
        residuals_wf(residuals@),
        balance_check_ok(*txn, state.options),
    ensures
        errs(final(errors)@) == errs(old(errors)@) + transaction_errors(*state, *txn, residuals@),
{
    let ghost e0 = errs(errors@);
    if !validate_transaction_structure(txn, errors) {
        assert(errs(errors@) =~= e0 + transaction_errors(*state, *txn, residuals@));
        return;
    }
    let ghost e1 = errs(errors@);
    validate_posting_accounts(state, txn, errors);
    validate_transaction_balance(txn, &state.options, residuals, errors);
    assert(errs(errors@) =~= e0 + transaction_errors(*state, *txn, residuals@));
}

/// Validate a Transaction directive when its tolerances can be computed;
/// otherwise add nothing and return `false`.
pub fn try_validate_transaction(
    state: &LedgerState,
    txn: &Transaction,
    residuals: &Vec<(String, Dec)>,
    errors: &mut Vec<ValidationError>,
) -> (res: bool)
    requires
        txn.date.wf(),
        accounts_wf(state.accounts@),
        postings_wf(txn.postings@),
        state.options.tolerance_multiplier.wf(),
        residuals_wf(residuals@),
    ensures
        res == (tolerances_spec(*txn, state.options) is Some),
        res ==> errs(final(errors)@) == errs(old(errors)@) + transaction_errors(*state, *txn, residuals@),
        !res ==> final(errors)@ == old(errors)@,
{
    if try_calculate_tolerances(txn, &state.options).is_none() {
        return false;
    }
    validate_transaction(state, txn, residuals, errors);
    true
}

} // verus!
