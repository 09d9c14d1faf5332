//! BQL string functions, evaluated on already-evaluated argument values.

use vstd::prelude::*;
use vstd::utf8::encode_utf8;
use crate::text::{str_eq, string_of, push_str, std_to_uppercase, to_uppercase};
use crate::validate::{starts_with, str_starts_with};
use crate::value::{Value, QueryError, QueryErrorSpec, ValueView, rview, value_wf, type_error};
use crate::funcs::{
    call_arity_error, require_args, to_lowercase, std_to_lowercase, trim, std_trim, whole_usize, decimal_to_usize,
    substr_spec, substr_cuts_ok, eval_substr, joinstr_spec, eval_joinstr, maxwidth_spec, eval_maxwidth,
};

verus! {

/// What a regular expression's first match in a text is (`Ok(None)`: no
/// match), or the text of the error when the pattern does not compile.
pub uninterp spec fn regex_find_spec(pattern: Seq<char>, text: Seq<char>) -> Result<Option<Seq<char>>, Seq<char>>;

/// What capture group `n` of a regular expression's first match in a text is
/// (`Ok(None)`: no match, or the group did not take part), or the text of the
/// error when the pattern does not compile.
pub uninterp spec fn regex_group_spec(pattern: Seq<char>, text: Seq<char>, n: usize) -> Result<Option<Seq<char>>, Seq<char>>;

/// What a text becomes when every match of a regular expression is replaced
/// (the replacement may refer to groups), or the text of the error when the
/// pattern does not compile.
pub uninterp spec fn regex_replace_spec(pattern: Seq<char>, text: Seq<char>, replacement: Seq<char>) -> Result<Seq<char>, Seq<char>>;

/// Calls `regex::Regex::new` and then `Regex::find`; the outcome is named
/// `regex_find_spec`.
#[verifier::external_body]
fn regex_find(pattern: &str, text: &str) -> (res: Result<Option<String>, String>)
    ensures
        match res {
            Ok(Some(m)) => regex_find_spec(pattern@, text@) == Ok::<Option<Seq<char>>, Seq<char>>(Some(m@)),
            Ok(None) => regex_find_spec(pattern@, text@) == Ok::<Option<Seq<char>>, Seq<char>>(None),
            Err(e) => regex_find_spec(pattern@, text@) == Err::<Option<Seq<char>>, Seq<char>>(e@),
        },
{
    match regex::Regex::new(pattern) {
        Ok(re) => Ok(re.find(text).map(|m| m.as_str().to_string())),
        Err(e) => Err(e.to_string()),
    }
}

/// Calls `regex::Regex::new` and then `Regex::captures` and `Captures::get`;
/// the outcome is named `regex_group_spec`.
#[verifier::external_body]
fn regex_group(pattern: &str, text: &str, n: usize) -> (res: Result<Option<String>, String>)
    ensures
        match res {
            Ok(Some(m)) => regex_group_spec(pattern@, text@, n) == Ok::<Option<Seq<char>>, Seq<char>>(Some(m@)),
            Ok(None) => regex_group_spec(pattern@, text@, n) == Ok::<Option<Seq<char>>, Seq<char>>(None),
            Err(e) => regex_group_spec(pattern@, text@, n) == Err::<Option<Seq<char>>, Seq<char>>(e@),
        },
{
    match regex::Regex::new(pattern) {
        Ok(re) => Ok(re.captures(text).and_then(|caps| caps.get(n).map(|m| m.as_str().to_string()))),
        Err(e) => Err(e.to_string()),
    }
}

/// Calls `regex::Regex::new` and then `Regex::replace_all`; the outcome is
/// named `regex_replace_spec`.
#[verifier::external_body]
fn regex_replace_all(pattern: &str, text: &str, replacement: &str) -> (res: Result<String, String>)
    ensures
        match res {
            Ok(t) => regex_replace_spec(pattern@, text@, replacement@) == Ok::<Seq<char>, Seq<char>>(t@),
            Err(e) => regex_replace_spec(pattern@, text@, replacement@) == Err::<Seq<char>, Seq<char>>(e@),
        },
{
    match regex::Regex::new(pattern) {
        Ok(re) => Ok(re.replace_all(text, replacement).to_string()),
        Err(e) => Err(e.to_string()),
    }
}

/// The leftmost place at or after `from` where `d` occurs in `s`.
pub open spec fn find_from(s: Seq<char>, d: Seq<char>, from: int) -> Option<int>
    decreases s.len() + 1 - from,
{
    if from + d.len() > s.len() || from < 0 {
        None
    } else if s.subrange(from, from + d.len()) == d {
        Some(from)
    } else {
        find_from(s, d, from + 1)
    }
}

/// The pieces of `s` between the non-overlapping occurrences of a non-empty
/// `d`, found from the left, starting at `from`.
pub open spec fn split_from(s: Seq<char>, d: Seq<char>, from: int) -> Seq<Seq<char>>
    decreases s.len() - from, 1int,
    when 0 <= from <= s.len() && d.len() > 0
{
    match find_from(s, d, from) {
        None => seq![s.subrange(from, s.len() as int)],
        Some(i) => if i >= from && i + d.len() <= s.len() {
            seq![s.subrange(from, i)] + split_from(s, d, i + d.len())
        } else {
            seq![s.subrange(from, s.len() as int)]
        },
    }
}

/// The pieces that `str::split` gives for a text and a string delimiter: for
/// an empty delimiter, which matches at every character boundary, an empty
/// piece, each character, and an empty piece.
pub open spec fn split_str(s: Seq<char>, d: Seq<char>) -> Seq<Seq<char>> {
    if d.len() == 0 {
        seq![Seq::<char>::empty()] + s.map_values(|c: char| seq![c]) + seq![Seq::<char>::empty()]
    } else {
        split_from(s, d, 0)
    }
}

/// Calls `str::split` of std with a string delimiter and collects the
/// pieces. std documents that the pieces are the text between the matches,
/// found from the left without overlap, and that the empty string matches at
/// every character boundary.
#[verifier::external_body]
fn split_by(s: &str, d: &str) -> (res: Vec<String>)
    ensures
        res@.len() == split_str(s@, d@).len(),
        forall|i: int| 0 <= i < res@.len() ==> (#[trigger] res@[i])@ == split_str(s@, d@)[i],
{
    s.split(d).map(|p| p.to_string()).collect()
}

/// Whether `a` ends with `suffix`.
pub open spec fn ends_with(a: Seq<char>, suffix: Seq<char>) -> bool {
    suffix.len() <= a.len() && a.subrange(a.len() - suffix.len(), a.len() as int) == suffix
}

/// Whether `a` ends with `suffix`.
fn str_ends_with(a: &str, suffix: &str) -> (res: bool)
    ensures
        res == ends_with(a@, suffix@),
{
    let n = a.unicode_len();
    let m = suffix.unicode_len();
    if m > n {
        return false;
    }
    let mut i: usize = 0;
    while i < m
        invariant
            n == a@.len(),
            m == suffix@.len(),
            m <= n,
            i <= m,
            forall|j: int| 0 <= j < i ==> a@[n - m + j] == suffix@[j],
        decreases m - i,
    {
        if a.get_char(n - m + i) != suffix.get_char(i) {
            assert(a@.subrange(n - m, n as int)[i as int] != suffix@[i as int]);
            return false;
        }
        i = i + 1;
    }
    assert(a@.subrange(n - m, n as int) =~= suffix@);
    true
}

/// The index argument of `GREPN` and `SPLITCOMP`: an integer (cast to
/// `usize`) or a non-negative decimal whose whole part fits.
pub open spec fn index_arg(name: Seq<char>, v: Value) -> Result<usize, QueryErrorSpec> {
    match v {
        Value::Integer(i) => Ok(i as usize),
        Value::Number(n) => match whole_usize(n) {
            Some(k) => Ok(k),
            None => Err(QueryErrorSpec::Type(name + ": third argument must be a non-negative integer"@)),
        },
        _ => Err(QueryErrorSpec::Type(name + ": third argument must be an integer"@)),
    }
}

/// Evaluate the index argument of `GREPN` and `SPLITCOMP`.
fn eval_index_arg(name: &str, v: &Value) -> (res: Result<usize, QueryError>)
    requires
        value_wf(*v),
    ensures
        match res {
            Ok(k) => index_arg(name@, *v) == Ok::<usize, QueryErrorSpec>(k),
            Err(e) => index_arg(name@, *v) == Err::<usize, QueryErrorSpec>(e.spec()),
        },
{
    match v {
        Value::Integer(i) => Ok(*i as usize),
        Value::Number(n) => match decimal_to_usize(*n) {
            Some(k) => Ok(k),
            None => {
                let mut msg = string_of(name);
                push_str(&mut msg, ": third argument must be a non-negative integer");
                Err(QueryError::Type(msg))
            },
        },
        _ => {
            let mut msg = string_of(name);
            push_str(&mut msg, ": third argument must be an integer");
            Err(QueryError::Type(msg))
        },
    }
}

/// The error for a pattern that does not compile.
pub open spec fn regex_error(name: Seq<char>, pattern: Seq<char>, e: Seq<char>) -> QueryErrorSpec {
    QueryErrorSpec::Type(name + ": invalid regex '"@ + pattern + "': "@ + e)
}

/// The error for a pattern that does not compile.
fn regex_error_of(name: &str, pattern: &str, e: &str) -> (res: QueryError)
    ensures
        res.spec() == regex_error(name@, pattern@, e@),
{
    let mut msg = string_of(name);
    push_str(&mut msg, ": invalid regex '");
    push_str(&mut msg, pattern);
    push_str(&mut msg, "': ");
    push_str(&mut msg, e);
    QueryError::Type(msg)
}

/// The `GREP` function: the first match of a pattern in a string.
pub open spec fn grep_spec(args: Seq<Value>) -> Result<ValueView, QueryErrorSpec> {
    if args.len() != 2 {
        Err(call_arity_error("GREP"@, 2))
    } else {
        match args[0] {
            Value::String(p) => match args[1] {
                Value::String(s) => match regex_find_spec(p@, s@) {
                    Ok(Some(m)) => Ok(ValueView::String(m)),
                    Ok(None) => Ok(ValueView::Null),
                    Err(e) => Err(regex_error("GREP"@, p@, e)),
                },
                _ => Err(QueryErrorSpec::Type("GREP: second argument must be a string"@)),
            },
            _ => Err(QueryErrorSpec::Type("GREP: first argument must be a pattern string"@)),
        }
    }
}

/// Evaluate `GREP` on evaluated arguments.
pub fn eval_grep(args: &[Value]) -> (res: Result<Value, QueryError>)
    ensures
        rview(res) == grep_spec(args@),
{
    match require_args("GREP", args, 2) {
        Ok(()) => {},
        Err(e) => {
            return Err(e);
        },
    }
    let pattern = match &args[0] {
        Value::String(s) => s,
        _ => {
            return Err(type_error("GREP: first argument must be a pattern string"));
        },
    };
    let string = match &args[1] {
        Value::String(s) => s,
        _ => {
            return Err(type_error("GREP: second argument must be a string"));
        },
    };
    match regex_find(pattern.as_str(), string.as_str()) {
        Ok(Some(m)) => Ok(Value::String(m)),
        Ok(None) => Ok(Value::Null),
        Err(e) => Err(regex_error_of("GREP", pattern.as_str(), e.as_str())),
    }
}

/// The `GREPN` function: capture group `n` of the first match of a pattern
/// in a string.
pub open spec fn grepn_spec(args: Seq<Value>) -> Result<ValueView, QueryErrorSpec> {
    if args.len() != 3 {
        Err(call_arity_error("GREPN"@, 3))
    } else {
        match args[0] {
            Value::String(p) => match args[1] {
                Value::String(s) => match index_arg("GREPN"@, args[2]) {
                    Ok(n) => match regex_group_spec(p@, s@, n) {
                        Ok(Some(m)) => Ok(ValueView::String(m)),
                        Ok(None) => Ok(ValueView::Null),
                        Err(e) => Err(regex_error("GREPN"@, p@, e)),
                    },
                    Err(e) => Err(e),
                },
                _ => Err(QueryErrorSpec::Type("GREPN: second argument must be a string"@)),
            },
            _ => Err(QueryErrorSpec::Type("GREPN: first argument must be a pattern string"@)),
        }
    }
}

/// Evaluate `GREPN` on evaluated arguments.
pub fn eval_grepn(args: &[Value]) -> (res: Result<Value, QueryError>)
    requires
        forall|i: int| 0 <= i < args@.len() ==> value_wf(#[trigger] args@[i]),
    ensures
        rview(res) == grepn_spec(args@),
{
    match require_args("GREPN", args, 3) {
        Ok(()) => {},
        Err(e) => {
            return Err(e);
        },
    }
    let pattern = match &args[0] {
        Value::String(s) => s,
        _ => {
            return Err(type_error("GREPN: first argument must be a pattern string"));
        },
    };
    let string = match &args[1] {
        Value::String(s) => s,
        _ => {
            return Err(type_error("GREPN: second argument must be a string"));
        },
    };
    assert(value_wf(args@[2]));
    let n = match eval_index_arg("GREPN", &args[2]) {
        Ok(k) => k,
        Err(e) => {
            return Err(e);
        },
    };
    match regex_group(pattern.as_str(), string.as_str(), n) {
        Ok(Some(m)) => Ok(Value::String(m)),
        Ok(None) => Ok(Value::Null),
        Err(e) => Err(regex_error_of("GREPN", pattern.as_str(), e.as_str())),
    }
}

/// The `SUBST` function: every match of a pattern in a string replaced.
pub open spec fn subst_spec(args: Seq<Value>) -> Result<ValueView, QueryErrorSpec> {
    if args.len() != 3 {
        Err(call_arity_error("SUBST"@, 3))
    } else {
        match args[0] {
            Value::String(p) => match args[1] {
                Value::String(r) => match args[2] {
                    Value::String(s) => match regex_replace_spec(p@, s@, r@) {
                        Ok(t) => Ok(ValueView::String(t)),
                        Err(e) => Err(regex_error("SUBST"@, p@, e)),
                    },
                    _ => Err(QueryErrorSpec::Type("SUBST: third argument must be a string"@)),
                },
                _ => Err(QueryErrorSpec::Type("SUBST: second argument must be a replacement string"@)),
            },
            _ => Err(QueryErrorSpec::Type("SUBST: first argument must be a pattern string"@)),
        }
    }
}

/// Evaluate `SUBST` on evaluated arguments.
pub fn eval_subst(args: &[Value]) -> (res: Result<Value, QueryError>)
    ensures
        rview(res) == subst_spec(args@),
{
    match require_args("SUBST", args, 3) {
        Ok(()) => {},
        Err(e) => {
            return Err(e);
        },
    }
    let pattern = match &args[0] {
        Value::String(s) => s,
        _ => {
            return Err(type_error("SUBST: first argument must be a pattern string"));
        },
    };
    let replacement = match &args[1] {
        Value::String(s) => s,
        _ => {
            return Err(type_error("SUBST: second argument must be a replacement string"));
        },
    };
    let string = match &args[2] {
        Value::String(s) => s,
        _ => {
            return Err(type_error("SUBST: third argument must be a string"));
        },
    };
    match regex_replace_all(pattern.as_str(), string.as_str(), replacement.as_str()) {
        Ok(t) => Ok(Value::String(t)),
        Err(e) => Err(regex_error_of("SUBST", pattern.as_str(), e.as_str())),
    }
}

/// The `SPLITCOMP` function: piece `n` of a string split at a delimiter.
pub open spec fn splitcomp_spec(args: Seq<Value>) -> Result<ValueView, QueryErrorSpec> {
    if args.len() != 3 {
        Err(call_arity_error("SPLITCOMP"@, 3))
    } else {
        match args[0] {
            Value::String(s) => match args[1] {
                Value::String(d) => match index_arg("SPLITCOMP"@, args[2]) {
                    Ok(n) => {
                        let parts = split_str(s@, d@);
                        if n < parts.len() {
                            Ok(ValueView::String(parts[n as int]))
                        } else {
                            Ok(ValueView::Null)
                        }
                    },
                    Err(e) => Err(e),
                },
                _ => Err(QueryErrorSpec::Type("SPLITCOMP: second argument must be a delimiter string"@)),
            },
            _ => Err(QueryErrorSpec::Type("SPLITCOMP: first argument must be a string"@)),
        }
    }
}

/// Evaluate `SPLITCOMP` on evaluated arguments.
pub fn eval_splitcomp(args: &[Value]) -> (res: Result<Value, QueryError>)
    requires
        forall|i: int| 0 <= i < args@.len() ==> value_wf(#[trigger] args@[i]),
    ensures
        rview(res) == splitcomp_spec(args@),
{
    match require_args("SPLITCOMP", args, 3) {
        Ok(()) => {},
        Err(e) => {
            return Err(e);
        },
    }
    let string = match &args[0] {
        Value::String(s) => s,
        _ => {
            return Err(type_error("SPLITCOMP: first argument must be a string"));
        },
    };
    let delimiter = match &args[1] {
        Value::String(s) => s,
        _ => {
            return Err(type_error("SPLITCOMP: second argument must be a delimiter string"));
        },
    };
    assert(value_wf(args@[2]));
    let n = match eval_index_arg("SPLITCOMP", &args[2]) {
        Ok(k) => k,
        Err(e) => {
            return Err(e);
        },
    };
    let parts = split_by(string.as_str(), delimiter.as_str());
    if n < parts.len() {
        Ok(Value::String(parts[n].clone()))
    } else {
        Ok(Value::Null)
    }
}

/// The string functions of one argument and `STARTSWITH` and `ENDSWITH`
/// (`LENGTH` counts the UTF-8 bytes of a string, or the items of a set).
pub open spec fn simple_string_spec(name: Seq<char>, args: Seq<Value>) -> Result<ValueView, QueryErrorSpec> {
    if name == "STARTSWITH"@ || name == "ENDSWITH"@ {
        if args.len() != 2 {
            Err(call_arity_error(name, 2))
        } else {
            match (args[0], args[1]) {
                (Value::String(s), Value::String(p)) => Ok(
                    ValueView::Boolean(if name == "STARTSWITH"@ { starts_with(s@, p@) } else { ends_with(s@, p@) }),
                ),
                _ => Err(
                    QueryErrorSpec::Type(
                        if name == "STARTSWITH"@ {
                            "STARTSWITH expects two strings"@
                        } else {
                            "ENDSWITH expects two strings"@
                        },
                    ),
                ),
            }
        }
    } else if args.len() != 1 {
        Err(call_arity_error(name, 1))
    } else if name == "LENGTH"@ {
        match args[0] {
            Value::String(s) => Ok(ValueView::Integer((encode_utf8(s@).len() as usize) as i64)),
            Value::StringSet(ss) => Ok(ValueView::Integer((ss@.len() as usize) as i64)),
            _ => Err(QueryErrorSpec::Type("LENGTH expects a string or set"@)),
        }
    } else {
        match args[0] {
            Value::String(s) => Ok(
                ValueView::String(
                    if name == "UPPER"@ {
                        std_to_uppercase(s@)
                    } else if name == "LOWER"@ {
                        std_to_lowercase(s@)
                    } else {
                        std_trim(s@)
                    },
                ),
            ),
            _ => Err(QueryErrorSpec::Type(name + " expects a string"@)),
        }
    }
}

/// The string functions, by name (`SUBSTRING` is `SUBSTR`).
pub open spec fn string_function_spec(name: Seq<char>, args: Seq<Value>) -> Result<ValueView, QueryErrorSpec> {
    if name == "SUBSTR"@ || name == "SUBSTRING"@ {
        substr_spec(args)
    } else if name == "GREP"@ {
        grep_spec(args)
    } else if name == "GREPN"@ {
        grepn_spec(args)
    } else if name == "SUBST"@ {
        subst_spec(args)
    } else if name == "SPLITCOMP"@ {
        splitcomp_spec(args)
    } else if name == "JOINSTR"@ {
        joinstr_spec(args)
    } else if name == "MAXWIDTH"@ {
        maxwidth_spec(args)
    } else {
        simple_string_spec(name, args)
    }
}

/// Evaluate the string functions `LENGTH`, `UPPER`, `LOWER`, `TRIM`,
/// `SUBSTR`/`SUBSTRING`, `STARTSWITH`, `ENDSWITH`, `GREP`, `GREPN`, `SUBST`,
/// `SPLITCOMP`, `JOINSTR` and `MAXWIDTH` on evaluated arguments.
pub fn eval_string_function(name: &str, args: &[Value]) -> (res: Result<Value, QueryError>)
    requires
        name@ == "LENGTH"@ || name@ == "UPPER"@ || name@ == "LOWER"@ || name@ == "TRIM"@ || name@ == "SUBSTR"@
            || name@ == "SUBSTRING"@ || name@ == "STARTSWITH"@ || name@ == "ENDSWITH"@ || name@ == "GREP"@
            || name@ == "GREPN"@ || name@ == "SUBST"@ || name@ == "SPLITCOMP"@ || name@ == "JOINSTR"@ || name@
            == "MAXWIDTH"@,
        forall|i: int| 0 <= i < args@.len() ==> value_wf(#[trigger] args@[i]),
        (name@ == "SUBSTR"@ || name@ == "SUBSTRING"@) ==> substr_cuts_ok(args@),
    ensures
        rview(res) == string_function_spec(name@, args@),
{
    if str_eq(name, "SUBSTR") || str_eq(name, "SUBSTRING") {
        return eval_substr(args);
    } else if str_eq(name, "GREP") {
        return eval_grep(args);
    } else if str_eq(name, "GREPN") {
        return eval_grepn(args);
    } else if str_eq(name, "SUBST") {
        return eval_subst(args);
    } else if str_eq(name, "SPLITCOMP") {
        return eval_splitcomp(args);
    } else if str_eq(name, "JOINSTR") {
        return eval_joinstr(args);
    } else if str_eq(name, "MAXWIDTH") {
        return eval_maxwidth(args);
    }
    if str_eq(name, "STARTSWITH") || str_eq(name, "ENDSWITH") {
        match require_args(name, args, 2) {
            Ok(()) => {},
            Err(e) => {
                return Err(e);
            },
        }
        let starts = str_eq(name, "STARTSWITH");
        return match (&args[0], &args[1]) {
            (Value::String(s), Value::String(p)) => Ok(
                Value::Boolean(
                    if starts {
                        str_starts_with(s.as_str(), p.as_str())
                    } else {
                        str_ends_with(s.as_str(), p.as_str())
                    },
                ),
            ),
            _ => Err(
                type_error(
                    if starts {
                        "STARTSWITH expects two strings"
                    } else {
                        "ENDSWITH expects two strings"
                    },
                ),
            ),
        };
    }
    match require_args(name, args, 1) {
        Ok(()) => {},
        Err(e) => {
            return Err(e);
        },
    }
    if str_eq(name, "LENGTH") {
        return match &args[0] {
            Value::String(s) => Ok(Value::Integer(s.as_str().len() as i64)),
            Value::StringSet(ss) => Ok(Value::Integer(ss.len() as i64)),
            _ => Err(type_error("LENGTH expects a string or set")),
        };
    }
    match &args[0] {
        Value::String(s) => Ok(
            Value::String(
                if str_eq(name, "UPPER") {
                    to_uppercase(s.as_str())
                } else if str_eq(name, "LOWER") {
                    to_lowercase(s.as_str())
                } else {
                    trim(s.as_str())
                },
            ),
        ),
        _ => {
            let mut msg = string_of(name);
            push_str(&mut msg, " expects a string");
            Err(QueryError::Type(msg))
        },
    }
}

} // verus!
