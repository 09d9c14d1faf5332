use rustledger::cache::{hash_sources, prepend_header, strip_header};
use rustledger::columns::{evaluate_column, PostingContext, QueryResult, SourceLocation, Table};
use rustledger::date::Date;
use rustledger::dec::Dec;
use rustledger::ledger::{
    MetaValue, Amount, Balance, Close, Commodity, Custom, Directive, Document, Event, IncompleteAmount, Note, Open, Pad, Posting,
    Price, Query, Transaction,
};
use rustledger::symbols::{directive_to_symbol, get_document_symbols, EditorRange, PlacedDirective, SymbolKind};
use rustledger::validate::{
    next_document_probe, DocumentProbe, DocumentTarget, validate_document, validate_note, AccountState, BookingMethod, DocumentLookup, ErrorCode, LedgerState,
    ValidationError, ValidationOptions,
};
use rustledger::value::{make_group_key, value_to_string, QueryError, Value};

fn date(year: i32, month: u32, day: u32) -> Date {
    Date { year, month, day }
}

fn amount(n: i128, scale: u32, cur: &str) -> Amount {
    Amount { number: Dec { mantissa: n, scale }, currency: cur.to_string() }
}

fn posting(account: &str, units: Option<IncompleteAmount>) -> Posting {
    Posting { account: account.to_string(), units, cost: None, price: None, flag: None, meta: vec![] }
}

fn coffee() -> Transaction {
    Transaction {
        date: date(2024, 1, 15),
        flag: '*',
        payee: Some("Coffee Shop".to_string()),
        narration: "Morning coffee".to_string(),
        tags: vec!["trip".to_string()],
        links: vec![],
        meta: vec![],
        postings: vec![
            posting("Assets:Bank", Some(IncompleteAmount::Complete(amount(-500, 2, "USD")))),
            posting("Expenses:Food", None),
        ],
    }
}

#[test]
fn test_bad_magic_returns_error() {
    let mut bytes = prepend_header(&[]);
    bytes[0] = b'X';
    assert!(strip_header(&bytes).unwrap_err().contains("magic"));
}

#[test]
fn test_too_short_returns_error() {
    assert!(strip_header(b"short").unwrap_err().contains("too short"));
}

#[test]
fn test_version_mismatch_returns_error() {
    let mut bytes = prepend_header(&[]);
    bytes[8..12].copy_from_slice(&99u32.to_le_bytes());
    assert!(strip_header(&bytes).unwrap_err().contains("version mismatch"));
}

#[test]
fn framed_payload_comes_back_unchanged() {
    let payload = [1u8, 2, 3, 0, 255];
    let framed = prepend_header(&payload);
    assert_eq!(framed.len(), 12 + payload.len());
    assert_eq!(&framed[0..8], b"WLEDGER\0");
    assert_eq!(strip_header(&framed).unwrap(), &payload[..]);
}

#[test]
fn test_hash_sources_deterministic() {
    let h1 = hash_sources(&["hello", "world"]);
    let h2 = hash_sources(&["hello", "world"]);
    assert_eq!(h1, h2);
    assert_eq!(h1.len(), 64);
}

#[test]
fn test_hash_sources_distinguishes_concat() {
    let h1 = hash_sources(&["ab", "c"]);
    let h2 = hash_sources(&["a", "bc"]);
    assert_ne!(h1, h2);
}

#[test]
fn test_hash_sources_changes_with_content() {
    let h1 = hash_sources(&["source v1"]);
    let h2 = hash_sources(&["source v2"]);
    assert_ne!(h1, h2);
}

#[test]
fn hash_of_no_sources_is_the_digest_of_nothing() {
    assert_eq!(hash_sources(&[]), "e3b0c44298fc1c149afbf4c8996fb92427ae41e4649b934ca495991b7852b855");
}

#[test]
fn test_query_result_methods() {
    let mut result = QueryResult::new(vec!["col1".to_string(), "col2".to_string()]);
    assert!(result.is_empty());
    assert_eq!(result.len(), 0);
    result.add_row(vec![Value::Integer(1), Value::String("a".to_string())]);
    assert!(!result.is_empty());
    assert_eq!(result.len(), 1);
    result.add_row(vec![Value::Integer(2), Value::String("b".to_string())]);
    assert_eq!(result.len(), 2);
}

#[test]
fn table_rows_are_kept_in_order() {
    let mut table = Table::new(vec!["a".to_string()]);
    table.add_row(vec![Value::Integer(1)]);
    table.add_row(vec![Value::Integer(2)]);
    assert_eq!(table.rows, vec![vec![Value::Integer(1)], vec![Value::Integer(2)]]);
    assert_eq!(table.columns, vec!["a".to_string()]);
}

fn column(name: &str, txn: &Transaction, index: usize, locations: &Option<Vec<SourceLocation>>) -> Result<Value, QueryError> {
    let ctx = PostingContext { transaction: txn, posting_index: index, balance: None, directive_index: Some(0) };
    evaluate_column(name, &ctx, locations)
}

#[test]
fn test_source_location_columns_return_null_without_sources() {
    let txn = coffee();
    assert_eq!(column("filename", &txn, 0, &None).unwrap(), Value::Null);
    assert_eq!(column("lineno", &txn, 0, &None).unwrap(), Value::Null);
    assert_eq!(column("location", &txn, 0, &None).unwrap(), Value::Null);
}

#[test]
fn test_source_location_columns_with_sources() {
    let txn = coffee();
    let locations = Some(vec![SourceLocation { filename: "test.beancount".to_string(), lineno: 1 }]);
    assert_eq!(column("filename", &txn, 0, &locations).unwrap(), Value::String("test.beancount".to_string()));
    assert_eq!(column("lineno", &txn, 0, &locations).unwrap(), Value::Integer(1));
    assert_eq!(column("location", &txn, 0, &locations).unwrap(), Value::String("test.beancount:1".to_string()));
}

#[test]
fn test_error_unknown_column() {
    let txn = coffee();
    let result = column("nonexistent_column", &txn, 0, &None);
    assert!(result.is_err());
    assert!(matches!(result, Err(QueryError::UnknownColumn(c)) if c == "nonexistent_column"));
}

#[test]
fn posting_columns_read_the_posting_and_its_transaction() {
    let txn = coffee();
    assert_eq!(column("account", &txn, 0, &None).unwrap(), Value::String("Assets:Bank".to_string()));
    assert_eq!(column("payee", &txn, 0, &None).unwrap(), Value::String("Coffee Shop".to_string()));
    assert_eq!(
        column("description", &txn, 0, &None).unwrap(),
        Value::String("Coffee Shop Morning coffee".to_string())
    );
    assert_eq!(column("flag", &txn, 0, &None).unwrap(), Value::String("*".to_string()));
    assert_eq!(column("tags", &txn, 0, &None).unwrap(), Value::StringSet(vec!["trip".to_string()]));
    assert_eq!(column("year", &txn, 0, &None).unwrap(), Value::Integer(2024));
    assert_eq!(column("number", &txn, 0, &None).unwrap(), Value::Number(Dec { mantissa: -500, scale: 2 }));
    assert_eq!(column("number", &txn, 1, &None).unwrap(), Value::Null);
    assert_eq!(column("weight", &txn, 0, &None).unwrap(), Value::Amount(amount(-500, 2, "USD")));
    assert_eq!(column("cost", &txn, 0, &None).unwrap(), Value::Null);
    assert_eq!(column("has_cost", &txn, 0, &None).unwrap(), Value::Boolean(false));
    assert_eq!(
        column("other_accounts", &txn, 0, &None).unwrap(),
        Value::StringSet(vec!["Expenses:Food".to_string()])
    );
    assert_eq!(
        column("accounts", &txn, 1, &None).unwrap(),
        Value::StringSet(vec!["Assets:Bank".to_string(), "Expenses:Food".to_string()])
    );
}

fn range(line: u32) -> EditorRange {
    EditorRange { start_line: line, start_character: 0, end_line: line, end_character: 30 }
}

#[test]
fn test_get_document_symbols() {
    let placed = vec![
        PlacedDirective {
            directive: Directive::Open(Open {
                date: date(2024, 1, 1),
                account: "Assets:Bank".to_string(),
                currencies: vec!["USD".to_string()],
                meta: vec![],
            }),
            range: range(0),
        },
        PlacedDirective { directive: Directive::Transaction(coffee()), range: range(2) },
    ];
    let symbols = get_document_symbols(&placed);
    assert_eq!(symbols.len(), 2);
    assert!(symbols[0].name.contains("open"));
    assert_eq!(symbols[0].kind, SymbolKind::Account);
    assert!(symbols[1].name.contains("Coffee"));
    assert_eq!(symbols[1].kind, SymbolKind::Transaction);
    assert!(symbols[1].children.is_some());
    assert_eq!(symbols[1].children.as_ref().unwrap().len(), 2);
}

#[test]
fn test_document_symbols_all_directive_types() {
    let d = date(2024, 1, 1);
    let directives = vec![
        Directive::Open(Open { date: d, account: "Assets:Bank".to_string(), currencies: vec!["USD".to_string()], meta: vec![] }),
        Directive::Close(Close { date: d, account: "Assets:OldBank".to_string() }),
        Directive::Commodity(Commodity { date: d, currency: "BTC".to_string() }),
        Directive::Balance(Balance {
            date: d,
            account: "Assets:Bank".to_string(),
            amount: amount(10000, 2, "USD"),
            tolerance: None,
        }),
        Directive::Pad(Pad { date: d, account: "Assets:Bank".to_string(), source_account: "Equity:Opening".to_string() }),
        Directive::Event(Event { date: d, event_type: "location".to_string(), value: "New York".to_string() }),
        Directive::Note(Note { date: d, account: "Assets:Bank".to_string(), comment: "Test note".to_string() }),
        Directive::Document(Document { date: d, account: "Assets:Bank".to_string(), path: "/path/to/doc.pdf".to_string() }),
        Directive::Price(Price { date: d, currency: "BTC".to_string(), amount: amount(5000000, 2, "USD") }),
        Directive::Query(Query { date: d, name: "test_query".to_string(), query: "SELECT *".to_string() }),
        Directive::Custom(Custom { date: d, custom_type: "budget".to_string() }),
        Directive::Transaction(coffee()),
    ];
    let placed: Vec<PlacedDirective> =
        directives.into_iter().enumerate().map(|(i, directive)| PlacedDirective { directive, range: range(i as u32) }).collect();
    let symbols = get_document_symbols(&placed);
    assert!(symbols.len() >= 12);
    let kinds: Vec<_> = symbols.iter().map(|s| &s.kind).collect();
    assert!(kinds.contains(&&SymbolKind::Account));
    assert!(kinds.contains(&&SymbolKind::Commodity));
    assert!(kinds.contains(&&SymbolKind::Balance));
    assert!(kinds.contains(&&SymbolKind::Pad));
    assert!(kinds.contains(&&SymbolKind::Event));
    assert!(kinds.contains(&&SymbolKind::Note));
    assert!(kinds.contains(&&SymbolKind::Document));
    assert!(kinds.contains(&&SymbolKind::Price));
    assert!(kinds.contains(&&SymbolKind::Query));
    assert!(kinds.contains(&&SymbolKind::Custom));
    assert!(kinds.contains(&&SymbolKind::Transaction));
}

#[test]
fn symbol_texts_of_each_directive() {
    let d = date(2024, 1, 1);
    let sym = |dir: Directive| directive_to_symbol(&dir, range(3)).unwrap();
    let s = sym(Directive::Balance(Balance { date: d, account: "Assets:Bank".to_string(), amount: amount(10000, 2, "USD"), tolerance: None }));
    assert_eq!(s.name, "balance Assets:Bank");
    assert_eq!(s.detail.as_deref(), Some("100.00 USD"));
    let s = sym(Directive::Event(Event { date: d, event_type: "location".to_string(), value: "New York".to_string() }));
    assert_eq!(s.name, "event \"location\"");
    let s = sym(Directive::Close(Close { date: d, account: "Assets:Old".to_string() }));
    assert_eq!(s.deprecated, Some(true));
    let s = sym(Directive::Open(Open { date: d, account: "Assets:Bank".to_string(), currencies: vec!["USD".to_string(), "EUR".to_string()], meta: vec![] }));
    assert_eq!(s.detail.as_deref(), Some("USD, EUR"));
    let s = sym(Directive::Transaction(coffee()));
    assert_eq!(s.name, "2024-01-15 Coffee Shop");
    assert_eq!(s.detail.as_deref(), Some("Morning coffee"));
    let children = s.children.unwrap();
    assert_eq!(children[0].name, "Assets:Bank");
    assert_eq!(children[0].detail.as_deref(), Some("-5.00 USD"));
    assert_eq!(children[0].range, EditorRange { start_line: 4, start_character: 2, end_line: 4, end_character: 50 });
    assert_eq!(children[1].detail, None);
    assert_eq!(children[1].range.start_line, 5);
    let mut bare = coffee();
    bare.payee = None;
    bare.narration = String::new();
    bare.postings = vec![posting("Assets:Bank", Some(IncompleteAmount::NumberOnly(Dec { mantissa: 5, scale: 0 })))];
    let s = sym(Directive::Transaction(bare));
    assert_eq!(s.name, "2024-01-15 Transaction");
    assert_eq!(s.detail, None);
    assert_eq!(s.children.unwrap()[0].detail.as_deref(), Some("5"));
}

fn state(check_documents: bool, dirs: Vec<String>) -> LedgerState {
    LedgerState {
        accounts: vec![(
            "Assets:Bank".to_string(),
            AccountState { opened: date(2024, 1, 1), closed: None, currencies: vec![], booking: BookingMethod::Strict },
        )],
        commodities: vec![],
        inventories: vec![],
        pending_pads: vec![],
        options: ValidationOptions {
            require_commodities: false,
            check_documents,
            tolerance_multiplier: Dec { mantissa: 5, scale: 1 },
            infer_tolerance_from_cost: false,
            document_base: None,
            document_dirs: dirs,
        },
    }
}

#[test]
fn note_on_an_unknown_account_is_reported() {
    let st = state(false, vec![]);
    let mut errors: Vec<ValidationError> = Vec::new();
    validate_note(&st, &Note { date: date(2024, 2, 1), account: "Assets:Cash".to_string(), comment: "x".to_string() }, &mut errors);
    assert_eq!(errors.len(), 1);
    assert_eq!(errors[0].code, ErrorCode::AccountNotOpen);
    assert_eq!(errors[0].message, "Invalid reference to unknown account 'Assets:Cash'");
    let mut errors: Vec<ValidationError> = Vec::new();
    validate_note(&st, &Note { date: date(2024, 2, 1), account: "Assets:Bank".to_string(), comment: "x".to_string() }, &mut errors);
    assert!(errors.is_empty());
}

#[test]
fn missing_document_lists_the_searched_paths() {
    let st = state(true, vec!["docs".to_string(), "archive".to_string()]);
    let doc = Document { date: date(2024, 2, 1), account: "Assets:Bank".to_string(), path: "a.pdf".to_string() };
    let lookup = DocumentLookup {
        absolute: false,
        in_dirs: vec![false, false],
        checked_exists: false,
        checked_display: "a.pdf".to_string(),
    };
    let mut errors: Vec<ValidationError> = Vec::new();
    validate_document(&st, &doc, &lookup, &mut errors);
    assert_eq!(errors.len(), 1);
    assert_eq!(errors[0].code, ErrorCode::DocumentNotFound);
    assert_eq!(errors[0].message, "Document file not found: a.pdf");
    assert_eq!(errors[0].context.as_deref(), Some("searched: docs/a.pdf, archive/a.pdf"));
    let found = DocumentLookup { in_dirs: vec![false, true], ..lookup.clone() };
    let mut errors: Vec<ValidationError> = Vec::new();
    validate_document(&st, &doc, &found, &mut errors);
    assert!(errors.is_empty());
}

#[test]
fn missing_absolute_document_shows_the_resolved_path() {
    let st = state(true, vec!["docs".to_string()]);
    let doc = Document { date: date(2024, 2, 1), account: "Assets:Other".to_string(), path: "/x/a.pdf".to_string() };
    let lookup = DocumentLookup { absolute: true, in_dirs: vec![], checked_exists: false, checked_display: "/x/a.pdf".to_string() };
    let mut errors: Vec<ValidationError> = Vec::new();
    validate_document(&st, &doc, &lookup, &mut errors);
    assert_eq!(errors.len(), 2);
    assert_eq!(errors[0].code, ErrorCode::AccountNotOpen);
    assert_eq!(errors[1].context.as_deref(), Some("resolved path: /x/a.pdf"));
    let unchecked = state(false, vec![]);
    let mut errors: Vec<ValidationError> = Vec::new();
    validate_document(&unchecked, &doc, &lookup, &mut errors);
    assert_eq!(errors.len(), 1);
}

#[test]
fn meta_column_gives_the_posting_metadata() {
    let mut txn = coffee();
    txn.postings[0].meta = vec![("receipt".to_string(), MetaValue::String("r-17".to_string()))];
    assert_eq!(
        column("meta", &txn, 0, &None).unwrap(),
        Value::Metadata(vec![("receipt".to_string(), MetaValue::String("r-17".to_string()))])
    );
    assert_eq!(column("meta", &txn, 1, &None).unwrap(), Value::Metadata(vec![]));
}

#[test]
fn entry_column_gives_the_transaction_as_an_object() {
    let mut txn = coffee();
    txn.meta = vec![
        ("zone".to_string(), MetaValue::String("eu".to_string())),
        ("amount".to_string(), MetaValue::Number(Dec { mantissa: 15, scale: 1 })),
        ("zone".to_string(), MetaValue::String("us".to_string())),
        ("checked".to_string(), MetaValue::Bool(true)),
    ];
    let expected = Value::Object(vec![
        ("date".to_string(), Value::Date(date(2024, 1, 15))),
        ("flag".to_string(), Value::String("*".to_string())),
        ("links".to_string(), Value::StringSet(vec![])),
        (
            "meta".to_string(),
            Value::Object(vec![
                ("amount".to_string(), Value::Number(Dec { mantissa: 15, scale: 1 })),
                ("checked".to_string(), Value::Boolean(true)),
                ("zone".to_string(), Value::String("eu".to_string())),
            ]),
        ),
        ("narration".to_string(), Value::String("Morning coffee".to_string())),
        ("payee".to_string(), Value::String("Coffee Shop".to_string())),
        ("tags".to_string(), Value::StringSet(vec!["trip".to_string()])),
    ]);
    assert_eq!(column("entry", &txn, 0, &None).unwrap(), expected);

    txn.payee = None;
    match column("entry", &txn, 1, &None).unwrap() {
        Value::Object(fields) => {
            let keys: Vec<&str> = fields.iter().map(|(k, _)| k.as_str()).collect();
            assert_eq!(keys, vec!["date", "flag", "links", "meta", "narration", "tags"]);
        },
        other => panic!("unexpected {other:?}"),
    }
}

#[test]
fn objects_and_metadata_as_text() {
    let obj = Value::Object(vec![
        ("a".to_string(), Value::Integer(1)),
        ("b".to_string(), Value::Object(vec![("c".to_string(), Value::String("x".to_string()))])),
    ]);
    assert_eq!(value_to_string(&obj), "{a: 1, b: {c: x}}");
    assert_eq!(make_group_key(&[obj]), "Oa:1;b:{c: x};");
    let meta = Value::Metadata(vec![
        ("k".to_string(), MetaValue::Bool(true)),
        ("n".to_string(), MetaValue::Number(Dec { mantissa: 25, scale: 1 })),
    ]);
    assert_eq!(value_to_string(&meta), "{k: true, n: 2.5}");
    assert_eq!(make_group_key(&[meta]), "M{k: true, n: 2.5}");
}

#[test]
fn document_paths_are_tried_in_order() {
    let opts = |base: Option<&str>, dirs: Vec<&str>| ValidationOptions {
        require_commodities: false,
        check_documents: true,
        tolerance_multiplier: Dec { mantissa: 5, scale: 1 },
        infer_tolerance_from_cost: false,
        document_base: base.map(|b| b.to_string()),
        document_dirs: dirs.into_iter().map(|d| d.to_string()).collect(),
    };
    let two = opts(None, vec!["docs", "archive"]);
    assert_eq!(next_document_probe(&two, true, &vec![]), DocumentProbe::Check(DocumentTarget::AsIs));
    assert_eq!(next_document_probe(&opts(Some("/base"), vec!["docs"]), false, &vec![]), DocumentProbe::Check(DocumentTarget::InBase));
    assert_eq!(next_document_probe(&two, false, &vec![]), DocumentProbe::TryDir(0));
    assert_eq!(next_document_probe(&two, false, &vec![false]), DocumentProbe::TryDir(1));
    assert_eq!(next_document_probe(&two, false, &vec![false, true]), DocumentProbe::Check(DocumentTarget::InDir(1)));
    assert_eq!(next_document_probe(&two, false, &vec![false, false]), DocumentProbe::Check(DocumentTarget::AsIs));
    assert_eq!(next_document_probe(&opts(None, vec![]), false, &vec![]), DocumentProbe::Check(DocumentTarget::AsIs));
}
