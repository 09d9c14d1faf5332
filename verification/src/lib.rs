//! Verified core of a Beancount ledger toolkit: BQL value semantics,
//! account-name rules, ledger validation checks and cache framing.

mod text;
pub mod dec;
pub mod date;
pub mod interval;
pub mod account;
pub mod cache;
pub mod ledger;
pub mod validate;
pub mod value;
pub mod funcs;
pub mod columns;
pub mod symbols;
pub mod posfuncs;
pub mod datefuncs;
pub mod strfuncs;
pub mod castfuncs;
pub mod calls;
pub mod aggregates;
pub mod options;
pub mod windows;
pub mod print;
pub mod order;
pub mod accounts;
pub mod tables;
pub mod grouping;
pub mod meta;
pub mod fromfilter;
pub mod journal;
