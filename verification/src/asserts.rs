//! Captures and asserts: queries on a response, and the predicates they are held to.

use crate::ast::{
    Assert, Capture, Predicate, PredicateFunc, PredicateFuncValue, PredicateValue, Query,
    QueryValue, SourceInfo, SpecAssert, SpecCapture, SpecPredicate, SpecPredicateFunc,
    SpecPredicateFuncValue, SpecPredicateValue, SpecQuery, SpecQueryValue, SpecTemplate,
    SpecWhitespace, Template, Whitespace, lemma_views_push, views,
};
use crate::error::{Error, Outcome, ParseError, ParseResult, SpecError, SpecParseError};
use crate::json::{json_string, spec_json_string};
use crate::keyvalue::{key, recovered, spec_key};
use crate::primitives::{
    line_terminator, literal, natural, one_or_more_spaces, optional_line_terminators,
    spaces_end, spec_line_terminator, spec_literal, spec_natural, spec_one_or_more_spaces,
    spec_optional_line_terminators, starts_with, try_literal, zero_or_more_spaces,
};
use crate::reader::{blank, fail, follows, follows_all, span, Reader};
use crate::text::{is_space, string_from};
use vstd::prelude::*;

verus! {

/// A string in double quotes; anything else is an unrecoverable error.
pub open spec fn spec_quoted(s: Seq<char>, c: int) -> Outcome<SpecTemplate> {
    if 0 <= c < s.len() && s[c] == '"' {
        spec_json_string(s, c)
    } else {
        (Err(fail(s, c, false, SpecParseError::Expecting { value: "\""@ })), c)
    }
}

/// Blanks, then a string in double quotes.
pub open spec fn spec_quoted_arg(s: Seq<char>, c: int) -> Outcome<(SpecWhitespace, SpecTemplate)> {
    match spec_one_or_more_spaces(s, c) {
        (Err(e), c1) => (Err(e), c1),
        (Ok(w), c1) => match spec_quoted(s, c1) {
            (Err(e), c2) => (Err(e), c2),
            (Ok(t), c2) => (Ok((w, t)), c2),
        },
    }
}

/// What a query reads: a keyword, and for some of them a string in quotes. When no
/// keyword is there, the error is recoverable.
pub open spec fn spec_query_value(s: Seq<char>, c: int) -> Outcome<SpecQueryValue> {
    if starts_with(s, c, "status"@) {
        (Ok(SpecQueryValue::Status), c + "status"@.len())
    } else if starts_with(s, c, "url"@) {
        (Ok(SpecQueryValue::Url), c + "url"@.len())
    } else if starts_with(s, c, "body"@) {
        (Ok(SpecQueryValue::Body), c + "body"@.len())
    } else if starts_with(s, c, "header"@) {
        match spec_quoted_arg(s, c + "header"@.len()) {
            (Ok((space0, name)), c1) => (Ok(SpecQueryValue::Header { space0, name }), c1),
            (Err(e), c1) => (Err(e), c1),
        }
    } else if starts_with(s, c, "cookie"@) {
        match spec_quoted_arg(s, c + "cookie"@.len()) {
            (Ok((space0, expr)), c1) => (Ok(SpecQueryValue::Cookie { space0, expr }), c1),
            (Err(e), c1) => (Err(e), c1),
        }
    } else if starts_with(s, c, "xpath"@) {
        match spec_quoted_arg(s, c + "xpath"@.len()) {
            (Ok((space0, expr)), c1) => (Ok(SpecQueryValue::Xpath { space0, expr }), c1),
            (Err(e), c1) => (Err(e), c1),
        }
    } else if starts_with(s, c, "jsonpath"@) {
        match spec_quoted_arg(s, c + "jsonpath"@.len()) {
            (Ok((space0, expr)), c1) => (Ok(SpecQueryValue::Jsonpath { space0, expr }), c1),
            (Err(e), c1) => (Err(e), c1),
        }
    } else if starts_with(s, c, "regex"@) {
        match spec_quoted_arg(s, c + "regex"@.len()) {
            (Ok((space0, expr)), c1) => (Ok(SpecQueryValue::Regex { space0, expr }), c1),
            (Err(e), c1) => (Err(e), c1),
        }
    } else if starts_with(s, c, "variable"@) {
        match spec_quoted_arg(s, c + "variable"@.len()) {
            (Ok((space0, name)), c1) => (Ok(SpecQueryValue::Variable { space0, name }), c1),
            (Err(e), c1) => (Err(e), c1),
        }
    } else {
        (Err(fail(s, c, true, SpecParseError::Expecting { value: "query"@ })), c)
    }
}

pub open spec fn spec_query(s: Seq<char>, c: int) -> Outcome<SpecQuery> {
    match spec_query_value(s, c) {
        (Ok(value), c1) => (Ok(SpecQuery { source_info: span(s, c, c1), value }), c1),
        (Err(e), c1) => (Err(e), c1),
    }
}

/// An integer: an optional `-` and a natural number, within the range of `i64`.
pub open spec fn spec_integer(s: Seq<char>, c: int) -> Outcome<i64> {
    let negative = 0 <= c < s.len() && s[c] == '-';
    let c1 = if negative { c + 1 } else { c };
    match spec_natural(s, c1) {
        (Err(_), c2) => (Err(fail(s, c, false, SpecParseError::Expecting { value: "integer"@ })), c2),
        (Ok(n), c2) => if negative && n <= 0x8000_0000_0000_0000u64 {
            (Ok((-(n as int)) as i64), c2)
        } else if !negative && n <= 0x7fff_ffff_ffff_ffffu64 {
            (Ok(n as i64), c2)
        } else {
            (Err(fail(s, c, false, SpecParseError::Expecting { value: "integer"@ })), c2)
        },
    }
}

/// A value to compare with: `null`, `true`, `false`, a string in quotes or an integer.
pub open spec fn spec_predicate_value(s: Seq<char>, c: int) -> Outcome<SpecPredicateValue> {
    if starts_with(s, c, "null"@) {
        (Ok(SpecPredicateValue::Null), c + "null"@.len())
    } else if starts_with(s, c, "true"@) {
        (Ok(SpecPredicateValue::Bool(true)), c + "true"@.len())
    } else if starts_with(s, c, "false"@) {
        (Ok(SpecPredicateValue::Bool(false)), c + "false"@.len())
    } else if 0 <= c < s.len() && s[c] == '"' {
        match spec_json_string(s, c) {
            (Ok(t), c1) => (Ok(SpecPredicateValue::String(t)), c1),
            (Err(e), c1) => (Err(e), c1),
        }
    } else if 0 <= c < s.len() && (s[c] == '-' || crate::text::is_digit(s[c])) {
        match spec_integer(s, c) {
            (Ok(n), c1) => (Ok(SpecPredicateValue::Integer(n)), c1),
            (Err(e), c1) => (Err(e), c1),
        }
    } else {
        (Err(fail(s, c, false, SpecParseError::PredicateValue)), c)
    }
}

/// Blanks, then a value to compare with.
pub open spec fn spec_value_arg(s: Seq<char>, c: int) -> Outcome<(SpecWhitespace, SpecPredicateValue)> {
    match spec_one_or_more_spaces(s, c) {
        (Err(e), c1) => (Err(e), c1),
        (Ok(w), c1) => match spec_predicate_value(s, c1) {
            (Err(e), c2) => (Err(e), c2),
            (Ok(v), c2) => (Ok((w, v)), c2),
        },
    }
}

/// Blanks, then an integer.
pub open spec fn spec_integer_arg(s: Seq<char>, c: int) -> Outcome<(SpecWhitespace, i64)> {
    match spec_one_or_more_spaces(s, c) {
        (Err(e), c1) => (Err(e), c1),
        (Ok(w), c1) => match spec_integer(s, c1) {
            (Err(e), c2) => (Err(e), c2),
            (Ok(v), c2) => (Ok((w, v)), c2),
        },
    }
}

/// Blanks, then a count: a natural number.
pub open spec fn spec_count_arg(s: Seq<char>, c: int) -> Outcome<(SpecWhitespace, u64)> {
    match spec_one_or_more_spaces(s, c) {
        (Err(e), c1) => (Err(e), c1),
        (Ok(w), c1) => match spec_natural(s, c1) {
            (Err(_), c2) => (Err(fail(s, c1, false, SpecParseError::Expecting { value: "natural"@ })), c2),
            (Ok(v), c2) => (Ok((w, v)), c2),
        },
    }
}

/// What a predicate checks: its name (or symbol) and what it compares with. The first
/// name, in the order below, that the text starts with is taken; none is an
/// unrecoverable error.
pub open spec fn spec_predicate_func_value(s: Seq<char>, c: int) -> Outcome<SpecPredicateFuncValue> {
    if starts_with(s, c, "=="@) || starts_with(s, c, "equals"@) {
        let k = if starts_with(s, c, "=="@) { c + "=="@.len() } else { c + "equals"@.len() };
        match spec_value_arg(s, k) {
            (Ok((space0, value)), c1) => (Ok(SpecPredicateFuncValue::Equal { space0, value }), c1),
            (Err(e), c1) => (Err(e), c1),
        }
    } else if starts_with(s, c, "!="@) || starts_with(s, c, "notEquals"@) {
        let k = if starts_with(s, c, "!="@) { c + "!="@.len() } else { c + "notEquals"@.len() };
        match spec_value_arg(s, k) {
            (Ok((space0, value)), c1) => (Ok(SpecPredicateFuncValue::NotEqual { space0, value }), c1),
            (Err(e), c1) => (Err(e), c1),
        }
    } else if starts_with(s, c, ">="@) || starts_with(s, c, "greaterThanOrEquals"@) {
        let k = if starts_with(s, c, ">="@) { c + ">="@.len() } else { c + "greaterThanOrEquals"@.len() };
        match spec_integer_arg(s, k) {
            (Ok((space0, value)), c1) => (Ok(SpecPredicateFuncValue::GreaterThanOrEqual { space0, value }), c1),
            (Err(e), c1) => (Err(e), c1),
        }
    } else if starts_with(s, c, ">"@) || starts_with(s, c, "greaterThan"@) {
        let k = if starts_with(s, c, ">"@) { c + ">"@.len() } else { c + "greaterThan"@.len() };
        match spec_integer_arg(s, k) {
            (Ok((space0, value)), c1) => (Ok(SpecPredicateFuncValue::GreaterThan { space0, value }), c1),
            (Err(e), c1) => (Err(e), c1),
        }
    } else if starts_with(s, c, "<="@) || starts_with(s, c, "lessThanOrEquals"@) {
        let k = if starts_with(s, c, "<="@) { c + "<="@.len() } else { c + "lessThanOrEquals"@.len() };
        match spec_integer_arg(s, k) {
            (Ok((space0, value)), c1) => (Ok(SpecPredicateFuncValue::LessThanOrEqual { space0, value }), c1),
            (Err(e), c1) => (Err(e), c1),
        }
    } else if starts_with(s, c, "<"@) || starts_with(s, c, "lessThan"@) {
        let k = if starts_with(s, c, "<"@) { c + "<"@.len() } else { c + "lessThan"@.len() };
        match spec_integer_arg(s, k) {
            (Ok((space0, value)), c1) => (Ok(SpecPredicateFuncValue::LessThan { space0, value }), c1),
            (Err(e), c1) => (Err(e), c1),
        }
    } else if starts_with(s, c, "startsWith"@) {
        match spec_quoted_arg(s, c + "startsWith"@.len()) {
            (Ok((space0, value)), c1) => (Ok(SpecPredicateFuncValue::StartWith { space0, value }), c1),
            (Err(e), c1) => (Err(e), c1),
        }
    } else if starts_with(s, c, "contains"@) {
        match spec_quoted_arg(s, c + "contains"@.len()) {
            (Ok((space0, value)), c1) => (Ok(SpecPredicateFuncValue::Contain { space0, value }), c1),
            (Err(e), c1) => (Err(e), c1),
        }
    } else if starts_with(s, c, "matches"@) {
        match spec_quoted_arg(s, c + "matches"@.len()) {
            (Ok((space0, value)), c1) => (Ok(SpecPredicateFuncValue::Match { space0, value }), c1),
            (Err(e), c1) => (Err(e), c1),
        }
    } else if starts_with(s, c, "countEquals"@) {
        match spec_count_arg(s, c + "countEquals"@.len()) {
            (Ok((space0, value)), c1) => (Ok(SpecPredicateFuncValue::CountEqual { space0, value }), c1),
            (Err(e), c1) => (Err(e), c1),
        }
    } else if starts_with(s, c, "exists"@) {
        (Ok(SpecPredicateFuncValue::Exist), c + "exists"@.len())
    } else {
        (Err(fail(s, c, false, SpecParseError::Predicate)), c)
    }
}

pub open spec fn spec_predicate_func(s: Seq<char>, c: int) -> Outcome<SpecPredicateFunc> {
    match spec_predicate_func_value(s, c) {
        (Ok(value), c1) => (Ok(SpecPredicateFunc { source_info: span(s, c, c1), value }), c1),
        (Err(e), c1) => (Err(e), c1),
    }
}

/// A predicate: `not` and blanks if it is negated, then what it checks.
pub open spec fn spec_predicate(s: Seq<char>, c: int) -> Outcome<SpecPredicate> {
    if starts_with(s, c, "not"@) && c + "not"@.len() < s.len() && is_space(s[c + "not"@.len()]) {
        match spec_one_or_more_spaces(s, c + "not"@.len()) {
            (Err(e), c1) => (Err(e), c1),
            (Ok(space0), c1) => match spec_predicate_func(s, c1) {
                (Err(e), c2) => (Err(e), c2),
                (Ok(predicate_func), c2) => (Ok(SpecPredicate { not: true, space0, predicate_func }), c2),
            },
        }
    } else {
        match spec_predicate_func(s, c) {
            (Err(e), c2) => (Err(e), c2),
            (Ok(predicate_func), c2) => (Ok(SpecPredicate { not: false, space0: blank(s, c, c), predicate_func }), c2),
        }
    }
}

/// `name: query` on a line, after lines of blanks and comments. Until the `:` is read,
/// errors are recoverable.
pub open spec fn spec_capture(s: Seq<char>, c: int) -> Outcome<SpecCapture> {
    match spec_optional_line_terminators(s, c) {
        (Err(e), c1) => (Err(e), c1),
        (Ok(line_terminators), c1) => {
            let c2 = spaces_end(s, c1);
            match recovered(spec_key(s, c2)) {
                (Err(e), c3) => (Err(e), c3),
                (Ok(name), c3) => {
                    let c4 = spaces_end(s, c3);
                    match recovered(spec_literal(":"@, s, c4)) {
                        (Err(e), c5) => (Err(e), c5),
                        (Ok(_), c5) => {
                            let c6 = spaces_end(s, c5);
                            match spec_query(s, c6) {
                                (Err(e), c7) => (Err(e), c7),
                                (Ok(query), c7) => match spec_line_terminator(s, c7) {
                                    (Err(e), c8) => (Err(e), c8),
                                    (Ok(line_terminator0), c8) => (
                                        Ok(SpecCapture {
                                            line_terminators,
                                            space0: blank(s, c1, c2),
                                            name,
                                            space1: blank(s, c3, c4),
                                            space2: blank(s, c5, c6),
                                            query,
                                            line_terminator0,
                                        }),
                                        c8,
                                    ),
                                },
                            }
                        },
                    }
                },
            }
        },
    }
}

/// `query predicate` on a line, after lines of blanks and comments. A line that does
/// not start with a query is a recoverable error.
pub open spec fn spec_assert(s: Seq<char>, c: int) -> Outcome<SpecAssert> {
    match spec_optional_line_terminators(s, c) {
        (Err(e), c1) => (Err(e), c1),
        (Ok(line_terminators), c1) => {
            let c2 = spaces_end(s, c1);
            match spec_query(s, c2) {
                (Err(e), c3) => (Err(e), c3),
                (Ok(query), c3) => match spec_one_or_more_spaces(s, c3) {
                    (Err(e), c4) => (Err(e), c4),
                    (Ok(space1), c4) => match spec_predicate(s, c4) {
                        (Err(e), c5) => (Err(e), c5),
                        (Ok(predicate), c5) => match spec_line_terminator(s, c5) {
                            (Err(e), c6) => (Err(e), c6),
                            (Ok(line_terminator0), c6) => (
                                Ok(SpecAssert {
                                    line_terminators,
                                    space0: blank(s, c1, c2),
                                    query,
                                    space1,
                                    predicate,
                                    line_terminator0,
                                }),
                                c6,
                            ),
                        },
                    },
                },
            }
        },
    }
}

/// Captures, as many as there are.
pub open spec fn spec_captures_from(s: Seq<char>, c: int, acc: Seq<SpecCapture>) -> Outcome<Seq<SpecCapture>>
    decreases s.len() - c,
{
    if c < 0 || c >= s.len() {
        (Ok(acc), c)
    } else {
        match spec_capture(s, c) {
            (Ok(x), c1) => if c < c1 <= s.len() {
                spec_captures_from(s, c1, acc.push(x))
            } else {
                (Ok(acc.push(x)), c1)
            },
            (Err(e), c1) => if e.recoverable {
                (Ok(acc), c)
            } else {
                (Err(e), c1)
            },
        }
    }
}

/// Asserts, as many as there are.
pub open spec fn spec_asserts_from(s: Seq<char>, c: int, acc: Seq<SpecAssert>) -> Outcome<Seq<SpecAssert>>
    decreases s.len() - c,
{
    if c < 0 || c >= s.len() {
        (Ok(acc), c)
    } else {
        match spec_assert(s, c) {
            (Ok(x), c1) => if c < c1 <= s.len() {
                spec_asserts_from(s, c1, acc.push(x))
            } else {
                (Ok(acc.push(x)), c1)
            },
            (Err(e), c1) => if e.recoverable {
                (Ok(acc), c)
            } else {
                (Err(e), c1)
            },
        }
    }
}

pub fn quoted(reader: &mut Reader) -> (res: ParseResult<Template>)
    requires
        old(reader).wf(),
    ensures
        follows(*old(reader), *final(reader), res, spec_quoted(old(reader).text(), old(reader).at())),
{
    match reader.peek() {
        Some(ch) => {
            if ch == '"' {
                return json_string(reader);
            }
        },
        None => {},
    }
    Err(Error { pos: reader.state.pos, recoverable: false, inner: ParseError::Expecting { value: string_from("\"") } })
}

pub fn quoted_arg(reader: &mut Reader) -> (res: ParseResult<(Whitespace, Template)>)
    requires
        old(reader).wf(),
    ensures
        follows(*old(reader), *final(reader), res, spec_quoted_arg(old(reader).text(), old(reader).at())),
{
    let space0 = one_or_more_spaces(reader)?;
    let t = quoted(reader)?;
    Ok((space0, t))
}

pub fn query(reader: &mut Reader) -> (res: ParseResult<Query>)
    requires
        old(reader).wf(),
    ensures
        follows(*old(reader), *final(reader), res, spec_query(old(reader).text(), old(reader).at())),
        res is Ok ==> old(reader).at() < final(reader).at(),
{
    proof {
        reveal_strlit("status");
        reveal_strlit("url");
        reveal_strlit("body");
        reveal_strlit("header");
        reveal_strlit("cookie");
        reveal_strlit("xpath");
        reveal_strlit("jsonpath");
        reveal_strlit("regex");
        reveal_strlit("variable");
    }
    let start = reader.state;
    let value = if try_literal("status", reader).is_ok() {
        QueryValue::Status {}
    } else if try_literal("url", reader).is_ok() {
        QueryValue::Url {}
    } else if try_literal("body", reader).is_ok() {
        QueryValue::Body {}
    } else if try_literal("header", reader).is_ok() {
        let (space0, name) = quoted_arg(reader)?;
        QueryValue::Header { space0, name }
    } else if try_literal("cookie", reader).is_ok() {
        let (space0, expr) = quoted_arg(reader)?;
        QueryValue::Cookie { space0, expr }
    } else if try_literal("xpath", reader).is_ok() {
        let (space0, expr) = quoted_arg(reader)?;
        QueryValue::Xpath { space0, expr }
    } else if try_literal("jsonpath", reader).is_ok() {
        let (space0, expr) = quoted_arg(reader)?;
        QueryValue::Jsonpath { space0, expr }
    } else if try_literal("regex", reader).is_ok() {
        let (space0, expr) = quoted_arg(reader)?;
        QueryValue::Regex { space0, expr }
    } else if try_literal("variable", reader).is_ok() {
        let (space0, name) = quoted_arg(reader)?;
        QueryValue::Variable { space0, name }
    } else {
        return Err(Error { pos: start.pos, recoverable: true, inner: ParseError::Expecting { value: string_from("query") } });
    };
    Ok(Query { source_info: SourceInfo { start: start.pos, end: reader.state.pos }, value })
}

pub fn integer(reader: &mut Reader) -> (res: ParseResult<i64>)
    requires
        old(reader).wf(),
    ensures
        follows(*old(reader), *final(reader), res, spec_integer(old(reader).text(), old(reader).at())),
{
    let start = reader.state;
    let mut negative = false;
    match reader.peek() {
        Some(ch) => {
            if ch == '-' {
                negative = true;
                reader.read();
            }
        },
        None => {},
    }
    let n = match natural(reader) {
        Ok(n) => n,
        Err(_) => {
            return Err(Error { pos: start.pos, recoverable: false, inner: ParseError::Expecting { value: string_from("integer") } });
        },
    };
    if negative && n <= 0x8000_0000_0000_0000u64 {
        if n == 0x8000_0000_0000_0000u64 {
            Ok(i64::MIN)
        } else {
            Ok(-(n as i64))
        }
    } else if !negative && n <= 0x7fff_ffff_ffff_ffffu64 {
        Ok(n as i64)
    } else {
        Err(Error { pos: start.pos, recoverable: false, inner: ParseError::Expecting { value: string_from("integer") } })
    }
}

pub fn predicate_value(reader: &mut Reader) -> (res: ParseResult<PredicateValue>)
    requires
        old(reader).wf(),
    ensures
        follows(*old(reader), *final(reader), res, spec_predicate_value(old(reader).text(), old(reader).at())),
{
    if try_literal("null", reader).is_ok() {
        return Ok(PredicateValue::Null {});
    }
    if try_literal("true", reader).is_ok() {
        return Ok(PredicateValue::Bool(true));
    }
    if try_literal("false", reader).is_ok() {
        return Ok(PredicateValue::Bool(false));
    }
    match reader.peek() {
        Some(ch) => {
            if ch == '"' {
                let t = json_string(reader)?;
                return Ok(PredicateValue::String(t));
            }
            if ch == '-' || (ch >= '0' && ch <= '9') {
                let n = integer(reader)?;
                return Ok(PredicateValue::Integer(n));
            }
        },
        None => {},
    }
    Err(Error { pos: reader.state.pos, recoverable: false, inner: ParseError::PredicateValue {} })
}

pub fn value_arg(reader: &mut Reader) -> (res: ParseResult<(Whitespace, PredicateValue)>)
    requires
        old(reader).wf(),
    ensures
        follows(*old(reader), *final(reader), res, spec_value_arg(old(reader).text(), old(reader).at())),
{
    let space0 = one_or_more_spaces(reader)?;
    let v = predicate_value(reader)?;
    Ok((space0, v))
}

pub fn integer_arg(reader: &mut Reader) -> (res: ParseResult<(Whitespace, i64)>)
    requires
        old(reader).wf(),
    ensures
        follows(*old(reader), *final(reader), res, spec_integer_arg(old(reader).text(), old(reader).at())),
{
    let space0 = one_or_more_spaces(reader)?;
    let v = integer(reader)?;
    Ok((space0, v))
}

pub fn count_arg(reader: &mut Reader) -> (res: ParseResult<(Whitespace, u64)>)
    requires
        old(reader).wf(),
    ensures
        follows(*old(reader), *final(reader), res, spec_count_arg(old(reader).text(), old(reader).at())),
{
    let space0 = one_or_more_spaces(reader)?;
    let start = reader.state;
    match natural(reader) {
        Ok(v) => Ok((space0, v)),
        Err(_) => Err(Error { pos: start.pos, recoverable: false, inner: ParseError::Expecting { value: string_from("natural") } }),
    }
}

pub fn predicate_func(reader: &mut Reader) -> (res: ParseResult<PredicateFunc>)
    requires
        old(reader).wf(),
    ensures
        follows(*old(reader), *final(reader), res, spec_predicate_func(old(reader).text(), old(reader).at())),
{
    let start = reader.state;
    let value = if try_literal("==", reader).is_ok() || try_literal("equals", reader).is_ok() {
        let (space0, value) = value_arg(reader)?;
        PredicateFuncValue::Equal { space0, value }
    } else if try_literal("!=", reader).is_ok() || try_literal("notEquals", reader).is_ok() {
        let (space0, value) = value_arg(reader)?;
        PredicateFuncValue::NotEqual { space0, value }
    } else if try_literal(">=", reader).is_ok() || try_literal("greaterThanOrEquals", reader).is_ok() {
        let (space0, value) = integer_arg(reader)?;
        PredicateFuncValue::GreaterThanOrEqual { space0, value }
    } else if try_literal(">", reader).is_ok() || try_literal("greaterThan", reader).is_ok() {
        let (space0, value) = integer_arg(reader)?;
        PredicateFuncValue::GreaterThan { space0, value }
    } else if try_literal("<=", reader).is_ok() || try_literal("lessThanOrEquals", reader).is_ok() {
        let (space0, value) = integer_arg(reader)?;
        PredicateFuncValue::LessThanOrEqual { space0, value }
    } else if try_literal("<", reader).is_ok() || try_literal("lessThan", reader).is_ok() {
        let (space0, value) = integer_arg(reader)?;
        PredicateFuncValue::LessThan { space0, value }
    } else if try_literal("startsWith", reader).is_ok() {
        let (space0, value) = quoted_arg(reader)?;
        PredicateFuncValue::StartWith { space0, value }
    } else if try_literal("contains", reader).is_ok() {
        let (space0, value) = quoted_arg(reader)?;
        PredicateFuncValue::Contain { space0, value }
    } else if try_literal("matches", reader).is_ok() {
        let (space0, value) = quoted_arg(reader)?;
        PredicateFuncValue::Match { space0, value }
    } else if try_literal("countEquals", reader).is_ok() {
        let (space0, value) = count_arg(reader)?;
        PredicateFuncValue::CountEqual { space0, value }
    } else if try_literal("exists", reader).is_ok() {
        PredicateFuncValue::Exist {}
    } else {
        return Err(Error { pos: start.pos, recoverable: false, inner: ParseError::Predicate {} });
    };
    Ok(PredicateFunc { source_info: SourceInfo { start: start.pos, end: reader.state.pos }, value })
}

pub fn predicate(reader: &mut Reader) -> (res: ParseResult<Predicate>)
    requires
        old(reader).wf(),
    ensures
        follows(*old(reader), *final(reader), res, spec_predicate(old(reader).text(), old(reader).at())),
{
    let start = reader.state;
    proof {
        reveal_strlit("not");
    }
    if try_literal("not", reader).is_ok() {
        match reader.peek() {
            Some(ch) => {
                if ch == ' ' || ch == '\t' {
                    let space0 = one_or_more_spaces(reader)?;
                    let predicate_func = predicate_func(reader)?;
                    return Ok(Predicate { not: true, space0, predicate_func });
                }
            },
            None => {},
        }
        reader.restore(start);
    }
    let space0 = Whitespace { value: String::new(), source_info: SourceInfo { start: start.pos, end: start.pos } };
    proof {
        assert(reader.text().subrange(start.cursor as int, start.cursor as int) =~= Seq::<char>::empty());
    }
    let predicate_func = predicate_func(reader)?;
    Ok(Predicate { not: false, space0, predicate_func })
}

fn recover(e: Error) -> (r: Error)
    ensures
        r@ == (SpecError { pos: e@.pos, recoverable: true, inner: e@.inner }),
{
    Error { pos: e.pos, recoverable: true, inner: e.inner }
}

pub fn capture(reader: &mut Reader) -> (res: ParseResult<Capture>)
    requires
        old(reader).wf(),
    ensures
        follows(*old(reader), *final(reader), res, spec_capture(old(reader).text(), old(reader).at())),
        res is Ok ==> old(reader).at() < final(reader).at(),
{
    let line_terminators = optional_line_terminators(reader)?;
    let space0 = zero_or_more_spaces(reader)?;
    let name = match key(reader) {
        Ok(k) => k,
        Err(e) => return Err(recover(e)),
    };
    let space1 = zero_or_more_spaces(reader)?;
    match literal(":", reader) {
        Ok(_) => {},
        Err(e) => return Err(recover(e)),
    }
    let space2 = zero_or_more_spaces(reader)?;
    let query = query(reader)?;
    let line_terminator0 = line_terminator(reader)?;
    Ok(Capture { line_terminators, space0, name, space1, space2, query, line_terminator0 })
}

pub fn assert_line(reader: &mut Reader) -> (res: ParseResult<Assert>)
    requires
        old(reader).wf(),
    ensures
        follows(*old(reader), *final(reader), res, spec_assert(old(reader).text(), old(reader).at())),
        res is Ok ==> old(reader).at() < final(reader).at(),
{
    let line_terminators = optional_line_terminators(reader)?;
    let space0 = zero_or_more_spaces(reader)?;
    let query = query(reader)?;
    let space1 = one_or_more_spaces(reader)?;
    let predicate = predicate(reader)?;
    let line_terminator0 = line_terminator(reader)?;
    Ok(Assert { line_terminators, space0, query, space1, predicate, line_terminator0 })
}

pub fn captures(reader: &mut Reader) -> (res: ParseResult<Vec<Capture>>)
    requires
        old(reader).wf(),
    ensures
        follows_all(*old(reader), *final(reader), res, spec_captures_from(old(reader).text(), old(reader).at(), Seq::empty())),
{
    let ghost s = reader.text();
    let ghost c = reader.at();
    let mut v: Vec<Capture> = Vec::new();
    proof {
        assert(views(v@) =~= Seq::<SpecCapture>::empty());
    }
    loop
        invariant
            reader.wf(),
            reader.text() == s,
            s == old(reader).text(),
            c == old(reader).at(),
            0 <= c <= reader.at() <= s.len(),
            spec_captures_from(s, c, Seq::empty()) == spec_captures_from(s, reader.at(), views(v@)),
        ensures
            reader.wf(),
            reader.text() == s,
            c <= reader.at(),
            spec_captures_from(s, c, Seq::empty()) == (Ok::<Seq<SpecCapture>, SpecError>(views(v@)), reader.at()),
        decreases s.len() - reader.at(),
    {
        if reader.is_eof() {
            break;
        }
        let save = reader.state;
        match capture(reader) {
            Ok(x) => {
                proof {
                    lemma_views_push(v@, x);
                }
                v.push(x);
            },
            Err(e) => {
                if e.recoverable {
                    reader.restore(save);
                    break;
                } else {
                    return Err(e);
                }
            },
        }
    }
    Ok(v)
}

pub fn asserts(reader: &mut Reader) -> (res: ParseResult<Vec<Assert>>)
    requires
        old(reader).wf(),
    ensures
        follows_all(*old(reader), *final(reader), res, spec_asserts_from(old(reader).text(), old(reader).at(), Seq::empty())),
{
    let ghost s = reader.text();
    let ghost c = reader.at();
    let mut v: Vec<Assert> = Vec::new();
    proof {
        assert(views(v@) =~= Seq::<SpecAssert>::empty());
    }
    loop
        invariant
            reader.wf(),
            reader.text() == s,
            s == old(reader).text(),
            c == old(reader).at(),
            0 <= c <= reader.at() <= s.len(),
            spec_asserts_from(s, c, Seq::empty()) == spec_asserts_from(s, reader.at(), views(v@)),
        ensures
            reader.wf(),
            reader.text() == s,
            c <= reader.at(),
            spec_asserts_from(s, c, Seq::empty()) == (Ok::<Seq<SpecAssert>, SpecError>(views(v@)), reader.at()),
        decreases s.len() - reader.at(),
    {
        if reader.is_eof() {
            break;
        }
        let save = reader.state;
        match assert_line(reader) {
            Ok(x) => {
                proof {
                    lemma_views_push(v@, x);
                }
                v.push(x);
            },
            Err(e) => {
                if e.recoverable {
                    reader.restore(save);
                    break;
                } else {
                    return Err(e);
                }
            },
        }
    }
    Ok(v)
}

} // verus!
