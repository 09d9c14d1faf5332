# rustledger

A verified core of a Beancount ledger toolkit, written in Verus. Each
public function states what it returns in its `ensures` clause, over spec
functions and the plain views of the data, and Verus proves the code
against it.

## Layout

- `src/` — the verified library.
  - `dec.rs`, `date.rs`, `interval.rs`, `text.rs`: decimals (through
    `rust_decimal`), calendar dates (through `chrono`), intervals and text
    helpers.
  - `account.rs`: account names: parent, leaf, root, depth and the naming
    rules.
  - `ledger.rs`: the directives: amounts, postings, transactions, balances,
    `open`/`close` and the rest, with their metadata.
  - `validate.rs`: the validation checks of transactions, balances, pads,
    notes and documents.
  - `value.rs`, `funcs.rs`, `datefuncs.rs`, `strfuncs.rs`, `castfuncs.rs`,
    `posfuncs.rs`, `calls.rs`: BQL values, operators and functions on
    evaluated arguments.
  - `columns.rs`: the columns of a posting row and query results.
  - `aggregates.rs`, `grouping.rs`, `windows.rs`, `order.rs`: aggregates,
    `GROUP BY`, window functions, `ORDER BY` and `PIVOT BY` columns.
  - `accounts.rs`, `meta.rs`: account dates, metadata lookups and
    metadata as objects.
  - `fromfilter.rs`, `journal.rs`: the transaction-level `FROM` filters
    and `JOURNAL` with running balances.
  - `tables.rs`: `CREATE TABLE` and `INSERT INTO`.
  - `print.rs`: `PRINT`, the directives written back in Beancount form.
  - `symbols.rs`, `options.rs`, `cache.rs`: editor document symbols,
    ledger options, the framing of cached ledgers and the fingerprint of
    source texts (through `sha2`).
- `tests/` — tests of the library on concrete values.
- `app/` — the parts that touch the file system or need serde: document
  lookups on disk and serde copies of the editor types.
