//! BQL functions on amounts, positions and inventories, evaluated on
//! already-evaluated argument values.

use vstd::prelude::*;
use crate::account::{join_seq, join_strings, split_colon, split_account, views, lemma_split_colon_nonempty};
use crate::dec::{Dec, decimal_checked_add, decimal_checked_mul, decimal_display, checked_add, checked_mul};
use crate::ledger::{Amount, Position, units_of, inventory_units};
use crate::text::{str_eq, push_str};
use crate::validate::{absolute, negated};
use crate::value::{Value, QueryError, QueryErrorSpec, ValueView, rview, value_wf, type_error, int_dec};
use crate::funcs::{call_arity_error, require_args, copy_position};
use crate::columns::copy_amount;

verus! {

/// The `NUMBER` function.
pub open spec fn number_spec(v: Value) -> Result<ValueView, QueryErrorSpec> {
    match v {
        Value::Amount(a) => Ok(ValueView::Number(a.number)),
        Value::Position(p) => Ok(ValueView::Number(p.units.number)),
        Value::Number(n) => Ok(ValueView::Number(n)),
        Value::Integer(i) => Ok(ValueView::Number(int_dec(i))),
        _ => Err(QueryErrorSpec::Type("NUMBER expects an amount or position"@)),
    }
}

/// The `CURRENCY` function.
pub open spec fn currency_spec(v: Value) -> Result<ValueView, QueryErrorSpec> {
    match v {
        Value::Amount(a) => Ok(ValueView::String(a.currency@)),
        Value::Position(p) => Ok(ValueView::String(p.units.currency@)),
        _ => Err(QueryErrorSpec::Type("CURRENCY expects an amount or position"@)),
    }
}

/// The text `UNITS` gives for a position of an inventory: its number and
/// its currency.
pub open spec fn units_text(p: Position) -> Seq<char> {
    decimal_display(p.units.number) + " "@ + p.units.currency@
}

/// The texts of the positions of an inventory, in order.
pub open spec fn units_texts(ps: Seq<Position>) -> Seq<Seq<char>>
    decreases ps.len(),
{
    if ps.len() == 0 {
        Seq::empty()
    } else {
        units_texts(ps.drop_last()).push(units_text(ps.last()))
    }
}

/// The `UNITS` function.
pub open spec fn units_spec(v: Value) -> Result<ValueView, QueryErrorSpec> {
    match v {
        Value::Position(p) => Ok(ValueView::Amount(p.units.number, p.units.currency@)),
        Value::Amount(a) => Ok(ValueView::Amount(a.number, a.currency@)),
        Value::Inventory(ps) => Ok(ValueView::String(join_seq(units_texts(ps@), ", "@))),
        _ => Err(QueryErrorSpec::Type("UNITS expects a position or inventory"@)),
    }
}

/// The total cost of the positions held at cost (the absolute units times
/// the cost per unit, added in order from zero) and the currency of the
/// first of them; `None` when a product or a sum overflows.
pub open spec fn inventory_cost(ps: Seq<Position>) -> Option<(Dec, Option<Seq<char>>)>
    decreases ps.len(),
{
    if ps.len() == 0 {
        Some((Dec { mantissa: 0, scale: 0 }, None))
    } else {
        match inventory_cost(ps.drop_last()) {
            None => None,
            Some((total, cur)) => match ps.last().cost {
                None => Some((total, cur)),
                Some(c) => match decimal_checked_mul(absolute(ps.last().units.number), c.number) {
                    None => None,
                    Some(x) => match decimal_checked_add(total, x) {
                        None => None,
                        Some(t) => Some((t, if cur is None { Some(c.currency@) } else { cur })),
                    },
                },
            },
        }
    }
}

/// The `COST` function.
pub open spec fn cost_spec(v: Value) -> Result<ValueView, QueryErrorSpec> {
    match v {
        Value::Position(p) => match p.cost {
            Some(c) => Ok(ValueView::Amount(decimal_checked_mul(absolute(p.units.number), c.number)->Some_0, c.currency@)),
            None => Ok(ValueView::Null),
        },
        Value::Amount(a) => Ok(ValueView::Amount(a.number, a.currency@)),
        Value::Inventory(ps) => match inventory_cost(ps@) {
            Some((t, Some(cur))) => Ok(ValueView::Amount(t, cur)),
            _ => Ok(ValueView::Null),
        },
        _ => Err(QueryErrorSpec::Type("COST expects a position or inventory"@)),
    }
}

/// The `WEIGHT` function.
pub open spec fn weight_spec(v: Value) -> Result<ValueView, QueryErrorSpec> {
    match v {
        Value::Position(p) => match p.cost {
            Some(c) => Ok(ValueView::Amount(decimal_checked_mul(p.units.number, c.number)->Some_0, c.currency@)),
            None => Ok(ValueView::Amount(p.units.number, p.units.currency@)),
        },
        Value::Amount(a) => Ok(ValueView::Amount(a.number, a.currency@)),
        _ => Err(QueryErrorSpec::Type("WEIGHT expects a position or amount"@)),
    }
}

/// The `GETITEM` (or `GET`) function: the units of a currency in an
/// inventory, NULL when they add up to zero.
pub open spec fn getitem_spec(args: Seq<Value>) -> Result<ValueView, QueryErrorSpec> {
    if args.len() != 2 {
        Err(call_arity_error("GETITEM"@, 2))
    } else {
        match (args[0], args[1]) {
            (Value::Inventory(ps), Value::String(cur)) => {
                let total = units_of(ps@, cur@)->Some_0;
                if total.mantissa == 0 {
                    Ok(ValueView::Null)
                } else {
                    Ok(ValueView::Amount(total, cur@))
                }
            },
            _ => Err(QueryErrorSpec::Type("GETITEM expects (inventory, string)"@)),
        }
    }
}

/// The arithmetic of a position function does not overflow (the decimal
/// operations panic when it does).
pub open spec fn position_arith_ok(name: Seq<char>, args: Seq<Value>) -> bool {
    args.len() >= 1 ==> {
        &&& (name == "COST"@ ==> match args[0] {
            Value::Position(p) => p.cost matches Some(c) ==> decimal_checked_mul(absolute(p.units.number), c.number) is Some,
            Value::Inventory(ps) => inventory_cost(ps@) is Some,
            _ => true,
        })
        &&& (name == "WEIGHT"@ ==> match args[0] {
            Value::Position(p) => p.cost matches Some(c) ==> decimal_checked_mul(p.units.number, c.number) is Some,
            _ => true,
        })
        &&& ((name == "GETITEM"@ || name == "GET"@) ==> (args.len() == 2 ==> match (args[0], args[1]) {
            (Value::Inventory(ps), Value::String(cur)) => units_of(ps@, cur@) is Some,
            _ => true,
        }))
    }
}

/// The position functions, by name; `GET` is `GETITEM`.
pub open spec fn position_function_spec(name: Seq<char>, args: Seq<Value>) -> Result<ValueView, QueryErrorSpec> {
    if name == "GETITEM"@ || name == "GET"@ {
        getitem_spec(args)
    } else if args.len() != 1 {
        Err(call_arity_error(name, 1))
    } else if name == "NUMBER"@ {
        number_spec(args[0])
    } else if name == "CURRENCY"@ {
        currency_spec(args[0])
    } else if name == "UNITS"@ {
        units_spec(args[0])
    } else if name == "COST"@ {
        cost_spec(args[0])
    } else {
        weight_spec(args[0])
    }
}

/// Evaluate the position functions `NUMBER`, `CURRENCY`, `GETITEM`/`GET`,
/// `UNITS`, `COST` and `WEIGHT` on evaluated arguments.
pub fn eval_position_function(name: &str, args: &[Value]) -> (res: Result<Value, QueryError>)
    requires
        name@ == "NUMBER"@ || name@ == "CURRENCY"@ || name@ == "GETITEM"@ || name@ == "GET"@ || name@
            == "UNITS"@ || name@ == "COST"@ || name@ == "WEIGHT"@,
        forall|i: int| 0 <= i < args@.len() ==> value_wf(#[trigger] args@[i]),
        position_arith_ok(name@, args@),
    ensures
        rview(res) == position_function_spec(name@, args@),
{
    if str_eq(name, "GETITEM") || str_eq(name, "GET") {
        return eval_getitem(args);
    }
    match require_args(name, args, 1) {
        Ok(()) => {},
        Err(e) => {
            return Err(e);
        },
    }
    assert(value_wf(args@[0]));
    if str_eq(name, "NUMBER") {
        match &args[0] {
            Value::Amount(a) => Ok(Value::Number(a.number)),
            Value::Position(p) => Ok(Value::Number(p.units.number)),
            Value::Number(n) => Ok(Value::Number(*n)),
            Value::Integer(i) => Ok(Value::Number(Dec { mantissa: *i as i128, scale: 0 })),
            _ => Err(type_error("NUMBER expects an amount or position")),
        }
    } else if str_eq(name, "CURRENCY") {
        match &args[0] {
            Value::Amount(a) => Ok(Value::String(a.currency.clone())),
            Value::Position(p) => Ok(Value::String(p.units.currency.clone())),
            _ => Err(type_error("CURRENCY expects an amount or position")),
        }
    } else if str_eq(name, "UNITS") {
        eval_units(&args[0])
    } else if str_eq(name, "COST") {
        eval_cost(&args[0])
    } else {
        eval_weight(&args[0])
    }
}

/// Evaluate `GETITEM` on evaluated arguments.
pub fn eval_getitem(args: &[Value]) -> (res: Result<Value, QueryError>)
    requires
        forall|i: int| 0 <= i < args@.len() ==> value_wf(#[trigger] args@[i]),
        args@.len() == 2 ==> match (args@[0], args@[1]) {
            (Value::Inventory(ps), Value::String(cur)) => units_of(ps@, cur@) is Some,
            _ => true,
        },
    ensures
        rview(res) == getitem_spec(args@),
{
    match require_args("GETITEM", args, 2) {
        Ok(()) => {},
        Err(e) => {
            return Err(e);
        },
    }
    match (&args[0], &args[1]) {
        (Value::Inventory(ps), Value::String(cur)) => {
            assert(value_wf(args@[0]));
            let total = inventory_units(ps, cur.as_str()).unwrap();
            if total.is_zero() {
                Ok(Value::Null)
            } else {
                Ok(Value::Amount(Amount { number: total, currency: cur.clone() }))
            }
        },
        _ => Err(type_error("GETITEM expects (inventory, string)")),
    }
}

/// Evaluate `UNITS` on an evaluated argument.
pub fn eval_units(v: &Value) -> (res: Result<Value, QueryError>)
    requires
        value_wf(*v),
    ensures
        rview(res) == units_spec(*v),
{
    match v {
        Value::Position(p) => Ok(Value::Amount(copy_amount(&p.units))),
        Value::Amount(a) => Ok(Value::Amount(copy_amount(a))),
        Value::Inventory(ps) => {
            let mut texts: Vec<String> = Vec::new();
            let n = ps.len();
            let mut i: usize = 0;
            while i < n
                invariant
                    n == ps@.len(),
                    i <= n,
                    forall|j: int| 0 <= j < ps@.len() ==> (#[trigger] ps@[j]).units.number.wf(),
                    views(texts@) == units_texts(ps@.subrange(0, i as int)),
                decreases n - i,
            {
                assert(ps@.subrange(0, i + 1).drop_last() =~= ps@.subrange(0, i as int));
                let p = &ps[i];
                let mut t = crate::dec::to_text(p.units.number);
                push_str(&mut t, " ");
                push_str(&mut t, p.units.currency.as_str());
                let ghost before = views(texts@);
                texts.push(t);
                assert(views(texts@) =~= before.push(units_text(ps@[i as int])));
                i = i + 1;
            }
            assert(ps@.subrange(0, n as int) =~= ps@);
            Ok(Value::String(join_strings(texts.as_slice(), ", ")))
        },
        _ => Err(type_error("UNITS expects a position or inventory")),
    }
}

/// Evaluate `COST` on an evaluated argument.
pub fn eval_cost(v: &Value) -> (res: Result<Value, QueryError>)
    requires
        value_wf(*v),
        match *v {
            Value::Position(p) => p.cost matches Some(c) ==> decimal_checked_mul(absolute(p.units.number), c.number) is Some,
            Value::Inventory(ps) => inventory_cost(ps@) is Some,
            _ => true,
        },
    ensures
        rview(res) == cost_spec(*v),
{
    match v {
        Value::Position(p) => match &p.cost {
            Some(c) => {
                let total = checked_mul(p.units.number.abs(), c.number).unwrap();
                Ok(Value::Amount(Amount { number: total, currency: c.currency.clone() }))
            },
            None => Ok(Value::Null),
        },
        Value::Amount(a) => Ok(Value::Amount(copy_amount(a))),
        Value::Inventory(ps) => {
            let mut total = Dec::zero();
            let mut currency: Option<String> = None;
            let n = ps.len();
            let mut i: usize = 0;
            while i < n
                invariant
                    n == ps@.len(),
                    i <= n,
                    inventory_cost(ps@) is Some,
                    forall|j: int| 0 <= j < ps@.len() ==> (#[trigger] ps@[j]).units.number.wf()
                        && (ps@[j].cost matches Some(c) ==> c.number.wf()),
                    total.wf(),
                    inventory_cost(ps@.subrange(0, i as int)) == Some(
                        (total, match currency {
                            Some(c) => Some(c@),
                            None => None::<Seq<char>>,
                        }),
                    ),
                decreases n - i,
            {
                assert(ps@.subrange(0, i + 1).drop_last() =~= ps@.subrange(0, i as int));
                proof {
                    lemma_inventory_cost_prefix(ps@, i as int + 1);
                }
                let p = &ps[i];
                if let Some(c) = &p.cost {
                    let x = checked_mul(p.units.number.abs(), c.number).unwrap();
                    total = checked_add(total, x).unwrap();
                    if currency.is_none() {
                        currency = Some(c.currency.clone());
                    }
                }
                i = i + 1;
            }
            assert(ps@.subrange(0, n as int) =~= ps@);
            match currency {
                Some(cur) => Ok(Value::Amount(Amount { number: total, currency: cur })),
                None => Ok(Value::Null),
            }
        },
        _ => Err(type_error("COST expects a position or inventory")),
    }
}

/// When the total cost of some positions is defined, so is that of each
/// prefix.
proof fn lemma_inventory_cost_prefix(ps: Seq<Position>, k: int)
    requires
        0 <= k <= ps.len(),
        inventory_cost(ps) is Some,
    ensures
        inventory_cost(ps.subrange(0, k)) is Some,
    decreases ps.len() - k,
{
    if k < ps.len() {
        lemma_inventory_cost_prefix(ps, k + 1);
        assert(ps.subrange(0, k + 1).drop_last() =~= ps.subrange(0, k));
    } else {
        assert(ps.subrange(0, k) =~= ps);
    }
}

/// Evaluate `WEIGHT` on an evaluated argument.
pub fn eval_weight(v: &Value) -> (res: Result<Value, QueryError>)
    requires
        value_wf(*v),
        v matches Value::Position(p) ==> (p.cost matches Some(c) ==> decimal_checked_mul(p.units.number, c.number) is Some),
    ensures
        rview(res) == weight_spec(*v),
{
    match v {
        Value::Position(p) => match &p.cost {
            Some(c) => {
                let total = checked_mul(p.units.number, c.number).unwrap();
                Ok(Value::Amount(Amount { number: total, currency: c.currency.clone() }))
            },
            None => Ok(Value::Amount(copy_amount(&p.units))),
        },
        Value::Amount(a) => Ok(Value::Amount(copy_amount(a))),
        _ => Err(type_error("WEIGHT expects a position or amount")),
    }
}

/// The positions of an inventory in one currency, in order.
pub open spec fn positions_in(ps: Seq<Position>, cur: Seq<char>) -> Seq<Position>
    decreases ps.len(),
{
    if ps.len() == 0 {
        Seq::empty()
    } else if ps.last().units.currency@ == cur {
        positions_in(ps.drop_last(), cur).push(ps.last())
    } else {
        positions_in(ps.drop_last(), cur)
    }
}

/// An account whose balance is credit-normal: its first component is
/// `Liabilities`, `Equity` or `Income`.
pub open spec fn credit_normal(account: Seq<char>) -> bool {
    let first = split_colon(account)[0];
    first == "Liabilities"@ || first == "Equity"@ || first == "Income"@
}

/// The inventory functions `EMPTY`, `FILTER_CURRENCY` and `POSSIGN`.
pub open spec fn inventory_function_spec(name: Seq<char>, args: Seq<Value>) -> Result<ValueView, QueryErrorSpec> {
    if name == "EMPTY"@ {
        if args.len() != 1 {
            Err(call_arity_error(name, 1))
        } else {
            match args[0] {
                Value::Inventory(ps) => Ok(ValueView::Boolean(ps@.len() == 0)),
                Value::Null => Ok(ValueView::Boolean(true)),
                _ => Err(QueryErrorSpec::Type("EMPTY expects an inventory"@)),
            }
        }
    } else if args.len() != 2 {
        Err(call_arity_error(name, 2))
    } else if name == "FILTER_CURRENCY"@ {
        match (args[0], args[1]) {
            (Value::Inventory(ps), Value::String(cur)) => Ok(ValueView::Inventory(positions_in(ps@, cur@))),
            (Value::Null, _) => Ok(ValueView::Null),
            _ => Err(QueryErrorSpec::Type("FILTER_CURRENCY expects (inventory, string)"@)),
        }
    } else {
        match args[1] {
            Value::String(account) => {
                let credit = credit_normal(account@);
                match args[0] {
                    Value::Amount(a) => Ok(
                        ValueView::Amount(if credit { negated(a.number) } else { a.number }, a.currency@),
                    ),
                    Value::Number(n) => Ok(ValueView::Number(if credit { negated(n) } else { n })),
                    Value::Null => Ok(ValueView::Null),
                    _ => Err(QueryErrorSpec::Type("POSSIGN expects (amount, account_string)"@)),
                }
            },
            _ => Err(QueryErrorSpec::Type("POSSIGN expects (amount, account_string)"@)),
        }
    }
}

/// Evaluate the inventory functions `EMPTY`, `FILTER_CURRENCY` and
/// `POSSIGN` on evaluated arguments. An inventory is empty when it holds no
/// position.
pub fn eval_inventory_function(name: &str, args: &[Value]) -> (res: Result<Value, QueryError>)
    requires
        name@ == "EMPTY"@ || name@ == "FILTER_CURRENCY"@ || name@ == "POSSIGN"@,
        forall|i: int| 0 <= i < args@.len() ==> value_wf(#[trigger] args@[i]),
    ensures
        rview(res) == inventory_function_spec(name@, args@),
{
    if str_eq(name, "EMPTY") {
        match require_args(name, args, 1) {
            Ok(()) => {},
            Err(e) => {
                return Err(e);
            },
        }
        return match &args[0] {
            Value::Inventory(ps) => Ok(Value::Boolean(ps.len() == 0)),
            Value::Null => Ok(Value::Boolean(true)),
            _ => Err(type_error("EMPTY expects an inventory")),
        };
    }
    match require_args(name, args, 2) {
        Ok(()) => {},
        Err(e) => {
            return Err(e);
        },
    }
    if str_eq(name, "FILTER_CURRENCY") {
        return match (&args[0], &args[1]) {
            (Value::Inventory(ps), Value::String(cur)) => {
                let mut out: Vec<Position> = Vec::new();
                let n = ps.len();
                let mut i: usize = 0;
                while i < n
                    invariant
                        n == ps@.len(),
                        i <= n,
                        out@ == positions_in(ps@.subrange(0, i as int), cur@),
                    decreases n - i,
                {
                    assert(ps@.subrange(0, i + 1).drop_last() =~= ps@.subrange(0, i as int));
                    if str_eq(ps[i].units.currency.as_str(), cur.as_str()) {
                        out.push(copy_position(&ps[i]));
                    }
                    i = i + 1;
                }
                assert(ps@.subrange(0, n as int) =~= ps@);
                Ok(Value::Inventory(out))
            },
            (Value::Null, _) => Ok(Value::Null),
            _ => Err(type_error("FILTER_CURRENCY expects (inventory, string)")),
        };
    }
    let account = match &args[1] {
        Value::String(s) => s,
        _ => {
            return Err(type_error("POSSIGN expects (amount, account_string)"));
        },
    };
    let parts = split_account(account.as_str());
    proof {
        lemma_split_colon_nonempty(account@);
    }
    let first = parts[0].as_str();
    let credit = str_eq(first, "Liabilities") || str_eq(first, "Equity") || str_eq(first, "Income");
    assert(value_wf(args@[0]));
    match &args[0] {
        Value::Amount(a) => {
            let number = if credit { a.number.neg() } else { a.number };
            Ok(Value::Amount(Amount { number, currency: a.currency.clone() }))
        },
        Value::Number(n) => Ok(Value::Number(if credit { n.neg() } else { *n })),
        Value::Null => Ok(Value::Null),
        _ => Err(type_error("POSSIGN expects (amount, account_string)")),
    }
}

/// The `ONLY` function: the units of the one position of an inventory in a
/// currency; NULL when there is none or more than one.
pub open spec fn only_spec(args: Seq<Value>) -> Result<ValueView, QueryErrorSpec> {
    if args.len() != 2 {
        Err(call_arity_error("ONLY"@, 2))
    } else {
        match args[0] {
            Value::String(key) => match args[1] {
                Value::Inventory(ps) => {
                    let m = positions_in(ps@, key@);
                    if m.len() == 1 {
                        Ok(ValueView::Amount(m[0].units.number, m[0].units.currency@))
                    } else {
                        Ok(ValueView::Null)
                    }
                },
                Value::Position(p) => if p.units.currency@ == key@ {
                    Ok(ValueView::Amount(p.units.number, p.units.currency@))
                } else {
                    Ok(ValueView::Null)
                },
                Value::Amount(a) => if a.currency@ == key@ {
                    Ok(ValueView::Amount(a.number, a.currency@))
                } else {
                    Ok(ValueView::Null)
                },
                Value::Null => Ok(ValueView::Null),
                _ => Err(QueryErrorSpec::Type("ONLY: second argument must be an inventory, position, or amount"@)),
            },
            _ => Err(QueryErrorSpec::Type("ONLY: first argument must be a currency string"@)),
        }
    }
}

/// Evaluate `ONLY` on evaluated arguments.
pub fn eval_only(args: &[Value]) -> (res: Result<Value, QueryError>)
    ensures
        rview(res) == only_spec(args@),
{
    match require_args("ONLY", args, 2) {
        Ok(()) => {},
        Err(e) => {
            return Err(e);
        },
    }
    let key = match &args[0] {
        Value::String(s) => s,
        _ => {
            return Err(type_error("ONLY: first argument must be a currency string"));
        },
    };
    match &args[1] {
        Value::Inventory(ps) => {
            let mut found: Option<usize> = None;
            let mut count: usize = 0;
            let n = ps.len();
            let mut i: usize = 0;
            while i < n
                invariant
                    n == ps@.len(),
                    i <= n,
                    count <= i,
                    count == positions_in(ps@.subrange(0, i as int), key@).len(),
                    count >= 1 ==> (found matches Some(f) && f < n && ps@[f as int] == positions_in(
                        ps@.subrange(0, i as int),
                        key@,
                    )[0]),
                decreases n - i,
            {
                assert(ps@.subrange(0, i + 1).drop_last() =~= ps@.subrange(0, i as int));
                if str_eq(ps[i].units.currency.as_str(), key.as_str()) {
                    if count == 0 {
                        found = Some(i);
                    }
                    count = count + 1;
                }
                i = i + 1;
            }
            assert(ps@.subrange(0, n as int) =~= ps@);
            if count == 1 {
                let f = found.unwrap();
                Ok(Value::Amount(copy_amount(&ps[f].units)))
            } else {
                Ok(Value::Null)
            }
        },
        Value::Position(p) => if str_eq(p.units.currency.as_str(), key.as_str()) {
            Ok(Value::Amount(copy_amount(&p.units)))
        } else {
            Ok(Value::Null)
        },
        Value::Amount(a) => if str_eq(a.currency.as_str(), key.as_str()) {
            Ok(Value::Amount(copy_amount(a)))
        } else {
            Ok(Value::Null)
        },
        Value::Null => Ok(Value::Null),
        _ => Err(type_error("ONLY: second argument must be an inventory, position, or amount")),
    }
}

/// `FILTER_CURRENCY` keeps exactly the positions in the currency: every
/// position it keeps is in the currency, and it keeps none (so `EMPTY` is
/// true of it) exactly when no position is.
pub proof fn law_filter_currency(ps: Seq<Position>, cur: Seq<char>)
    ensures
        forall|i: int| 0 <= i < positions_in(ps, cur).len() ==> (#[trigger] positions_in(ps, cur)[i]).units.currency@ == cur,
        positions_in(ps, cur).len() == 0 <==> forall|j: int| 0 <= j < ps.len() ==> (#[trigger] ps[j]).units.currency@ != cur,
    decreases ps.len(),
{
    if ps.len() > 0 {
        law_filter_currency(ps.drop_last(), cur);
        let prev = positions_in(ps.drop_last(), cur);
        if ps.last().units.currency@ == cur {
            assert forall|i: int| 0 <= i < prev.push(ps.last()).len() implies (#[trigger] prev.push(ps.last())[i]).units.currency@
                == cur by {
                if i < prev.len() {
                    assert(prev.push(ps.last())[i] == prev[i]);
                }
            }
        } else {
            assert forall|j: int| 0 <= j < ps.len() && (forall|k: int| 0 <= k < ps.drop_last().len() ==> (#[trigger] ps.drop_last()[k]).units.currency@ != cur) implies (#[trigger] ps[j]).units.currency@ != cur by {
                if j < ps.len() - 1 {
                    assert(ps[j] == ps.drop_last()[j]);
                }
            }
            assert((forall|j: int| 0 <= j < ps.len() ==> (#[trigger] ps[j]).units.currency@ != cur) ==> (forall|k: int| 0 <= k < ps.drop_last().len() ==> (#[trigger] ps.drop_last()[k]).units.currency@ != cur)) by {
                assert forall|k: int| 0 <= k < ps.drop_last().len() && (forall|j: int| 0 <= j < ps.len() ==> (#[trigger] ps[j]).units.currency@ != cur) implies (#[trigger] ps.drop_last()[k]).units.currency@ != cur by {
                    assert(ps.drop_last()[k] == ps[k]);
                }
            }
        }
    }
}

/// Once the total cost of a prefix overflows, so does that of the whole.
proof fn lemma_inventory_cost_none_stays(ps: Seq<Position>, k: int)
    requires
        0 <= k <= ps.len(),
        inventory_cost(ps.subrange(0, k)) is None,
    ensures
        inventory_cost(ps) is None,
    decreases ps.len() - k,
{
    if k < ps.len() {
        assert(ps.subrange(0, k + 1).drop_last() =~= ps.subrange(0, k));
        lemma_inventory_cost_none_stays(ps, k + 1);
    } else {
        assert(ps.subrange(0, k) =~= ps);
    }
}

/// Whether the total cost of some positions can be computed without
/// overflow.
pub fn inventory_cost_checked(ps: &Vec<Position>) -> (res: bool)
    requires
        forall|j: int| 0 <= j < ps@.len() ==> (#[trigger] ps@[j]).units.number.wf() && (ps@[j].cost matches Some(
            c,
        ) ==> c.number.wf()),
    ensures
        res == (inventory_cost(ps@) is Some),
{
    let mut total = Dec::zero();
    let mut first = true;
    let n = ps.len();
    let mut i: usize = 0;
    assert(ps@.subrange(0, 0) =~= Seq::<Position>::empty());
    while i < n
        invariant
            n == ps@.len(),
            i <= n,
            forall|j: int| 0 <= j < ps@.len() ==> (#[trigger] ps@[j]).units.number.wf() && (ps@[j].cost matches Some(
                c,
            ) ==> c.number.wf()),
            total.wf(),
            inventory_cost(ps@.subrange(0, i as int)) matches Some((t, cur)) && t == total && (cur is None <==> first),
        decreases n - i,
    {
        assert(ps@.subrange(0, i + 1).drop_last() =~= ps@.subrange(0, i as int));
        let p = &ps[i];
        if let Some(c) = &p.cost {
            let a = p.units.number.abs();
            assert(a == absolute(p.units.number));
            match checked_mul(a, c.number) {
                Some(x) => match checked_add(total, x) {
                    Some(t) => {
                        total = t;
                        first = false;
                    },
                    None => {
                        proof {
                            lemma_inventory_cost_none_stays(ps@, i + 1);
                        }
                        return false;
                    },
                },
                None => {
                    proof {
                        lemma_inventory_cost_none_stays(ps@, i + 1);
                    }
                    return false;
                },
            }
        }
        i = i + 1;
    }
    assert(ps@.subrange(0, n as int) =~= ps@);
    true
}

/// Whether the arithmetic of a position function on these arguments does
/// not overflow.
pub fn position_arith_checked(name: &str, args: &[Value]) -> (res: bool)
    requires
        forall|i: int| 0 <= i < args@.len() ==> value_wf(#[trigger] args@[i]),
    ensures
        res == position_arith_ok(name@, args@),
{
    if args.len() == 0 {
        return true;
    }
    assert(value_wf(args@[0]));
    proof {
        reveal_strlit("COST");
        reveal_strlit("WEIGHT");
        reveal_strlit("GETITEM");
        reveal_strlit("GET");
    }
    if str_eq(name, "COST") {
        let ok = match &args[0] {
            Value::Position(p) => match &p.cost {
                Some(c) => {
                    let a = p.units.number.abs();
                    assert(a == absolute(p.units.number));
                    checked_mul(a, c.number).is_some()
                },
                None => true,
            },
            Value::Inventory(ps) => inventory_cost_checked(ps),
            _ => true,
        };
        assert(name@.len() == 4 && ("WEIGHT"@).len() == 6 && ("GETITEM"@).len() == 7);
        return ok;
    }
    if str_eq(name, "WEIGHT") {
        let ok = match &args[0] {
            Value::Position(p) => match &p.cost {
                Some(c) => checked_mul(p.units.number, c.number).is_some(),
                None => true,
            },
            _ => true,
        };
        assert(name@.len() == 6 && ("COST"@).len() == 4 && ("GETITEM"@).len() == 7 && ("GET"@).len() == 3);
        return ok;
    }
    if (str_eq(name, "GETITEM") || str_eq(name, "GET")) && args.len() == 2 {
        let ok = match (&args[0], &args[1]) {
            (Value::Inventory(ps), Value::String(cur)) => inventory_units(ps, cur.as_str()).is_some(),
            _ => true,
        };
        return ok;
    }
    true
}

} // verus!
