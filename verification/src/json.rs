//! JSON values, kept with the blanks around their parts.

use crate::ast::{
    JsonListElement, JsonObjectElement, JsonValue, SourceInfo, SpecJsonListElement,
    SpecJsonObjectElement, SpecJsonValue, SpecTemplate, SpecTemplateElement, Template,
    TemplateElement, json_list_view, json_object_view, lemma_json_list_view_push,
    lemma_json_object_view_push,
};
use crate::error::{Error, Outcome, ParseError, ParseResult, SpecError, SpecParseError};
use crate::primitives::{digits_end, lemma_run_end, run_end, starts_with, try_literal};
use crate::reader::{fail, follows, span, Reader};
use crate::text::{is_digit, push_char, string_from, string_of};
use vstd::prelude::*;

verus! {

/// A blank between JSON tokens.
pub open spec fn is_json_space(ch: char) -> bool {
    ch == ' ' || ch == '\t' || ch == '\n' || ch == '\r'
}

/// The end of the JSON blanks that start at `c`.
pub open spec fn json_ws_end(s: Seq<char>, c: int) -> int {
    run_end(s, c, |ch: char| is_json_space(ch))
}

/// The character an escape `\x` stands for, for the escapes JSON strings may hold
/// (but `\u`).
pub open spec fn unescape(ch: char) -> Option<char> {
    if ch == '"' {
        Some('"')
    } else if ch == '\\' {
        Some('\\')
    } else if ch == '/' {
        Some('/')
    } else if ch == 'b' {
        Some('\u{8}')
    } else if ch == 'f' {
        Some('\u{c}')
    } else if ch == 'n' {
        Some('\n')
    } else if ch == 'r' {
        Some('\r')
    } else if ch == 't' {
        Some('\t')
    } else {
        None
    }
}

/// The value of the JSON string whose characters start at `i`, `acc` holding the value
/// so far; ends at the closing quote, whose index is the cursor.
pub open spec fn json_chars_from(s: Seq<char>, i: int, acc: Seq<char>) -> Outcome<Seq<char>>
    decreases s.len() - i,
{
    if i < 0 || i >= s.len() {
        (Err(fail(s, i, false, SpecParseError::Expecting { value: "\""@ })), i)
    } else if s[i] == '"' {
        (Ok(acc), i)
    } else if s[i] == '\\' {
        if i + 1 < s.len() && unescape(s[i + 1]) is Some {
            json_chars_from(s, i + 2, acc.push(unescape(s[i + 1])->0))
        } else {
            (
                Err(fail(s, i, false, SpecParseError::Expecting { value: "escape char"@ })),
                if i + 1 < s.len() { i + 2 } else { i + 1 },
            )
        }
    } else {
        json_chars_from(s, i + 1, acc.push(s[i]))
    }
}

/// A JSON string at `c` (which holds `"`), as a template in quotes holding its text.
pub open spec fn spec_json_string(s: Seq<char>, c: int) -> Outcome<SpecTemplate> {
    match json_chars_from(s, c + 1, Seq::empty()) {
        (Ok(value), e) => (
            Ok(SpecTemplate {
                quotes: true,
                elements: if e == c + 1 {
                    Seq::empty()
                } else {
                    seq![SpecTemplateElement::String { value, encoded: s.subrange(c + 1, e) }]
                },
                source_info: span(s, c + 1, e),
            }),
            e + 1,
        ),
        (Err(er), e) => (Err(er), e),
    }
}

/// Whether a JSON number starts at `c`: a digit, after an optional `-`.
pub open spec fn number_starts(s: Seq<char>, c: int) -> bool {
    let c1 = if 0 <= c < s.len() && s[c] == '-' { c + 1 } else { c };
    0 <= c1 < s.len() && is_digit(s[c1])
}

/// A JSON number at `c` (where one starts), as written: `-`, an integer without
/// leading zeros, an optional fraction, an optional exponent.
pub open spec fn spec_json_number(s: Seq<char>, c: int) -> Outcome<Seq<char>> {
    let c1 = if c < s.len() && s[c] == '-' { c + 1 } else { c };
    let c2 = if c1 < s.len() && s[c1] == '0' { c1 + 1 } else { digits_end(s, c1) };
    let c3 = if c2 < s.len() && s[c2] == '.' { digits_end(s, c2 + 1) } else { c2 };
    if c2 < s.len() && s[c2] == '.' && c3 == c2 + 1 {
        (Err(fail(s, c3, false, SpecParseError::Expecting { value: "digits"@ })), c3)
    } else if c3 < s.len() && (s[c3] == 'e' || s[c3] == 'E') {
        let c4 = if c3 + 1 < s.len() && (s[c3 + 1] == '+' || s[c3 + 1] == '-') { c3 + 2 } else { c3 + 1 };
        let c5 = digits_end(s, c4);
        if c5 == c4 {
            (Err(fail(s, c5, false, SpecParseError::Expecting { value: "digits"@ })), c5)
        } else {
            (Ok(s.subrange(c, c5)), c5)
        }
    } else {
        (Ok(s.subrange(c, c3)), c3)
    }
}

/// The end of an object member's name that starts at `i`: the next `"`, or the end of the text.
pub open spec fn name_end(s: Seq<char>, i: int) -> int
    decreases s.len() - i,
{
    if i < 0 || i >= s.len() || s[i] == '"' {
        i
    } else {
        name_end(s, i + 1)
    }
}

/// A JSON value: the first of `null`, `true`, `false`, a string, a number, a list, an
/// object that the text at `c` starts. When none does, the error is recoverable.
pub open spec fn spec_json_value(s: Seq<char>, c: int) -> Outcome<SpecJsonValue>
    decreases s.len() - c, 2int,
{
    if c < 0 || c > s.len() {
        (Err(fail(s, c, true, SpecParseError::Expecting { value: "{"@ })), c)
    } else if starts_with(s, c, "null"@) {
        (Ok(SpecJsonValue::Null), c + "null"@.len())
    } else if starts_with(s, c, "true"@) {
        (Ok(SpecJsonValue::Boolean(true)), c + "true"@.len())
    } else if starts_with(s, c, "false"@) {
        (Ok(SpecJsonValue::Boolean(false)), c + "false"@.len())
    } else if c < s.len() && s[c] == '"' {
        match spec_json_string(s, c) {
            (Ok(t), c1) => (Ok(SpecJsonValue::String(t)), c1),
            (Err(e), c1) => (Err(e), c1),
        }
    } else if number_starts(s, c) {
        match spec_json_number(s, c) {
            (Ok(n), c1) => (Ok(SpecJsonValue::Number(n)), c1),
            (Err(e), c1) => (Err(e), c1),
        }
    } else if c < s.len() && s[c] == '[' {
        spec_json_list(s, c)
    } else if c < s.len() && s[c] == '{' {
        spec_json_object(s, c)
    } else {
        (Err(fail(s, c, true, SpecParseError::Expecting { value: "{"@ })), c)
    }
}

/// A JSON list at `c` (which holds `[`).
pub open spec fn spec_json_list(s: Seq<char>, c: int) -> Outcome<SpecJsonValue>
    decreases s.len() - c, 1int,
{
    let c1 = json_ws_end(s, c + 1);
    if !(0 <= c < c1 <= s.len()) {
        (Err(fail(s, c, false, SpecParseError::Json)), c)
    } else if c1 < s.len() && s[c1] == ']' {
        (Ok(SpecJsonValue::List { space0: s.subrange(c + 1, c1), elements: Seq::empty() }), c1 + 1)
    } else {
        match spec_json_list_items(s, c1, Seq::empty()) {
            (Ok(elements), c2) => (Ok(SpecJsonValue::List { space0: s.subrange(c + 1, c1), elements }), c2),
            (Err(e), c2) => (Err(e), c2),
        }
    }
}

/// The elements of a JSON list from `c`, `acc` holding those before, up to the closing `]`.
pub open spec fn spec_json_list_items(s: Seq<char>, c: int, acc: Seq<SpecJsonListElement>) -> Outcome<Seq<SpecJsonListElement>>
    decreases s.len() - c, 3int,
{
    let c1 = json_ws_end(s, c);
    if !(0 <= c <= c1 <= s.len()) {
        (Err(fail(s, c, false, SpecParseError::Json)), c)
    } else {
        match spec_json_value(s, c1) {
            (Err(_), c2) => (Err(fail(s, c1, false, SpecParseError::Json)), c2),
            (Ok(value), c2) => {
                let c3 = json_ws_end(s, c2);
                if !(c1 < c2 <= c3 <= s.len()) {
                    (Err(fail(s, c, false, SpecParseError::Json)), c)
                } else {
                    let acc2 = acc.push(
                        SpecJsonListElement { space0: s.subrange(c, c1), value, space1: s.subrange(c2, c3) },
                    );
                    if c3 < s.len() && s[c3] == ']' {
                        (Ok(acc2), c3 + 1)
                    } else if c3 < s.len() && s[c3] == ',' {
                        spec_json_list_items(s, c3 + 1, acc2)
                    } else {
                        (
                            Err(fail(s, c3, false, SpecParseError::Expecting { value: "]"@ })),
                            if c3 < s.len() { c3 + 1 } else { c3 },
                        )
                    }
                }
            },
        }
    }
}

/// A JSON object at `c` (which holds `{`).
pub open spec fn spec_json_object(s: Seq<char>, c: int) -> Outcome<SpecJsonValue>
    decreases s.len() - c, 1int,
{
    let c1 = json_ws_end(s, c + 1);
    if !(0 <= c < c1 <= s.len()) {
        (Err(fail(s, c, false, SpecParseError::Json)), c)
    } else if c1 < s.len() && s[c1] == '}' {
        (Ok(SpecJsonValue::Object { space0: s.subrange(c + 1, c1), elements: Seq::empty() }), c1 + 1)
    } else {
        match spec_json_object_items(s, c1, Seq::empty()) {
            (Ok(elements), c2) => (Ok(SpecJsonValue::Object { space0: s.subrange(c + 1, c1), elements }), c2),
            (Err(e), c2) => (Err(e), c2),
        }
    }
}

/// An unrecoverable error for a missing `x` at `i`, after reading the character there.
pub open spec fn missing(s: Seq<char>, i: int, x: Seq<char>) -> Outcome<Seq<SpecJsonObjectElement>> {
    (Err(fail(s, i, false, SpecParseError::Expecting { value: x })), if i < s.len() { i + 1 } else { i })
}

/// The members of a JSON object from `c`, `acc` holding those before, up to the closing `}`.
pub open spec fn spec_json_object_items(s: Seq<char>, c: int, acc: Seq<SpecJsonObjectElement>) -> Outcome<Seq<SpecJsonObjectElement>>
    decreases s.len() - c, 3int,
{
    let c1 = json_ws_end(s, c);
    if !(0 <= c <= c1 <= s.len()) {
        (Err(fail(s, c, false, SpecParseError::Json)), c)
    } else if !(c1 < s.len() && s[c1] == '"') {
        missing(s, c1, "\""@)
    } else {
        let n1 = name_end(s, c1 + 1);
        if !(c1 < n1 <= s.len()) {
            (Err(fail(s, c, false, SpecParseError::Json)), c)
        } else if n1 >= s.len() {
            (Err(fail(s, n1, false, SpecParseError::Expecting { value: "\""@ })), n1)
        } else {
            let c3 = json_ws_end(s, n1 + 1);
            if !(n1 + 1 <= c3 <= s.len()) {
                (Err(fail(s, c, false, SpecParseError::Json)), c)
            } else if !(c3 < s.len() && s[c3] == ':') {
                missing(s, c3, ":"@)
            } else {
                let c5 = json_ws_end(s, c3 + 1);
                if !(c3 + 1 <= c5 <= s.len()) {
                    (Err(fail(s, c, false, SpecParseError::Json)), c)
                } else {
                    match spec_json_value(s, c5) {
                        (Err(_), c6) => (Err(fail(s, c5, false, SpecParseError::Json)), c6),
                        (Ok(value), c6) => {
                            let c7 = json_ws_end(s, c6);
                            if !(c5 < c6 <= c7 <= s.len()) {
                                (Err(fail(s, c, false, SpecParseError::Json)), c)
                            } else {
                                let acc2 = acc.push(
                                    SpecJsonObjectElement {
                                        space0: s.subrange(c, c1),
                                        name: s.subrange(c1 + 1, n1),
                                        space1: s.subrange(n1 + 1, c3),
                                        space2: s.subrange(c3 + 1, c5),
                                        value,
                                        space3: s.subrange(c6, c7),
                                    },
                                );
                                if c7 < s.len() && s[c7] == '}' {
                                    (Ok(acc2), c7 + 1)
                                } else if c7 < s.len() && s[c7] == ',' {
                                    spec_json_object_items(s, c7 + 1, acc2)
                                } else {
                                    missing(s, c7, "}"@)
                                }
                            }
                        },
                    }
                }
            }
        }
    }
}

/// Skips JSON blanks, and gives them back.
fn json_spaces(reader: &mut Reader) -> (r: String)
    requires
        old(reader).wf(),
    ensures
        final(reader).wf(),
        final(reader).text() == old(reader).text(),
        final(reader).at() == json_ws_end(old(reader).text(), old(reader).at()),
        old(reader).at() <= final(reader).at() <= old(reader).text().len(),
        r@ == old(reader).text().subrange(old(reader).at(), final(reader).at()),
{
    let ghost s = reader.text();
    let ghost c = reader.at();
    let from = reader.state.cursor;
    proof {
        lemma_run_end(s, c, |ch: char| is_json_space(ch));
    }
    loop
        invariant
            reader.wf(),
            reader.text() == s,
            0 <= c <= reader.at() <= s.len(),
            from == c,
            json_ws_end(s, c) == json_ws_end(s, reader.at()),
        ensures
            reader.wf(),
            reader.text() == s,
            reader.at() == json_ws_end(s, c),
        decreases s.len() - reader.at(),
    {
        match reader.peek() {
            Some(ch) => {
                if ch == ' ' || ch == '\t' || ch == '\n' || ch == '\r' {
                    reader.read();
                } else {
                    break;
                }
            },
            None => break,
        }
    }
    string_of(&reader.buffer, from, reader.state.cursor)
}

fn unescape_char(ch: char) -> (r: Option<char>)
    ensures
        r == unescape(ch),
{
    if ch == '"' {
        Some('"')
    } else if ch == '\\' {
        Some('\\')
    } else if ch == '/' {
        Some('/')
    } else if ch == 'b' {
        Some('\u{8}')
    } else if ch == 'f' {
        Some('\u{c}')
    } else if ch == 'n' {
        Some('\n')
    } else if ch == 'r' {
        Some('\r')
    } else if ch == 't' {
        Some('\t')
    } else {
        None
    }
}

pub fn json_string(reader: &mut Reader) -> (res: ParseResult<Template>)
    requires
        old(reader).wf(),
        old(reader).at() < old(reader).text().len(),
        old(reader).text()[old(reader).at()] == '"',
    ensures
        follows(*old(reader), *final(reader), res, spec_json_string(old(reader).text(), old(reader).at())),
        res is Ok ==> old(reader).at() < final(reader).at(),
{
    let ghost s = reader.text();
    let ghost c = reader.at();
    reader.read();
    let from = reader.state;
    let mut value = String::new();
    loop
        invariant
            reader.wf(),
            reader.text() == s,
            s == old(reader).text(),
            c == old(reader).at(),
            0 <= c < c + 1 <= reader.at() <= s.len(),
            from.cursor == c + 1,
            from.pos == crate::reader::pos_at(s, c + 1),
            json_chars_from(s, c + 1, Seq::empty()) == json_chars_from(s, reader.at(), value@),
        ensures
            reader.wf(),
            reader.text() == s,
            c + 1 <= reader.at() < s.len(),
            s[reader.at()] == '"',
            json_chars_from(s, c + 1, Seq::empty()) == (Ok::<Seq<char>, SpecError>(value@), reader.at()),
        decreases s.len() - reader.at(),
    {
        let here = reader.state;
        match reader.peek() {
            None => {
                return Err(Error { pos: here.pos, recoverable: false, inner: ParseError::Expecting { value: string_from("\"") } });
            },
            Some(ch) => {
                if ch == '"' {
                    break;
                }
                reader.read();
                if ch == '\\' {
                    match reader.read() {
                        None => {
                            return Err(Error { pos: here.pos, recoverable: false, inner: ParseError::Expecting { value: string_from("escape char") } });
                        },
                        Some(x) => match unescape_char(x) {
                            Some(u) => push_char(&mut value, u),
                            None => {
                                return Err(Error { pos: here.pos, recoverable: false, inner: ParseError::Expecting { value: string_from("escape char") } });
                            },
                        },
                    }
                } else {
                    push_char(&mut value, ch);
                }
            },
        }
    }
    let end = reader.state;
    reader.read();
    let mut elements: Vec<TemplateElement> = Vec::new();
    if end.cursor > from.cursor {
        let encoded = string_of(&reader.buffer, from.cursor, end.cursor);
        elements.push(TemplateElement::String { value, encoded });
        proof {
            assert(crate::ast::views(elements@) =~= seq![SpecTemplateElement::String { value: value@, encoded: encoded@ }]);
        }
    } else {
        proof {
            assert(crate::ast::views(elements@) =~= Seq::<SpecTemplateElement>::empty());
        }
    }
    Ok(Template { quotes: true, elements, source_info: SourceInfo { start: from.pos, end: end.pos } })
}

fn json_number(reader: &mut Reader) -> (res: ParseResult<String>)
    requires
        old(reader).wf(),
        number_starts(old(reader).text(), old(reader).at()),
    ensures
        follows(*old(reader), *final(reader), res, spec_json_number(old(reader).text(), old(reader).at())),
        res is Ok ==> old(reader).at() < final(reader).at(),
{
    let ghost s = reader.text();
    let ghost c = reader.at();
    let start = reader.state.cursor;
    let n = reader.buffer.len();
    if reader.buffer[start] == '-' {
        reader.read();
    }
    if reader.state.cursor < n && reader.buffer[reader.state.cursor] == '0' {
        reader.read();
    } else {
        skip_digits(reader);
    }
    if reader.state.cursor < n && reader.buffer[reader.state.cursor] == '.' {
        reader.read();
        let f = reader.state.cursor;
        skip_digits(reader);
        if reader.state.cursor == f {
            return Err(Error { pos: reader.state.pos, recoverable: false, inner: ParseError::Expecting { value: string_from("digits") } });
        }
    }
    if reader.state.cursor < n && (reader.buffer[reader.state.cursor] == 'e' || reader.buffer[reader.state.cursor] == 'E') {
        reader.read();
        if reader.state.cursor < n && (reader.buffer[reader.state.cursor] == '+' || reader.buffer[reader.state.cursor] == '-') {
            reader.read();
        }
        let f = reader.state.cursor;
        skip_digits(reader);
        if reader.state.cursor == f {
            return Err(Error { pos: reader.state.pos, recoverable: false, inner: ParseError::Expecting { value: string_from("digits") } });
        }
    }
    Ok(string_of(&reader.buffer, start, reader.state.cursor))
}

/// Skips decimal digits.
fn skip_digits(reader: &mut Reader)
    requires
        old(reader).wf(),
    ensures
        final(reader).wf(),
        final(reader).text() == old(reader).text(),
        final(reader).at() == digits_end(old(reader).text(), old(reader).at()),
        old(reader).at() <= final(reader).at() <= old(reader).text().len(),
        old(reader).at() < old(reader).text().len() && is_digit(old(reader).text()[old(reader).at()])
            ==> old(reader).at() < final(reader).at(),
{
    let ghost s = reader.text();
    let ghost c = reader.at();
    proof {
        lemma_run_end(s, c, |ch: char| is_digit(ch));
        if c < s.len() && is_digit(s[c]) {
            lemma_run_end(s, c + 1, |ch: char| is_digit(ch));
        }
    }
    loop
        invariant
            reader.wf(),
            reader.text() == s,
            0 <= c <= reader.at() <= s.len(),
            digits_end(s, c) == digits_end(s, reader.at()),
        ensures
            reader.wf(),
            reader.text() == s,
            reader.at() == digits_end(s, c),
        decreases s.len() - reader.at(),
    {
        match reader.peek() {
            Some(ch) => {
                if ch >= '0' && ch <= '9' {
                    reader.read();
                } else {
                    break;
                }
            },
            None => break,
        }
    }
}

/// A JSON value.
pub fn parse(reader: &mut Reader) -> (res: ParseResult<JsonValue>)
    requires
        old(reader).wf(),
    ensures
        follows(*old(reader), *final(reader), res, spec_json_value(old(reader).text(), old(reader).at())),
        res is Ok ==> old(reader).at() < final(reader).at(),
    decreases old(reader).text().len() - old(reader).at(), 2int,
{
    let ghost s = reader.text();
    let ghost c = reader.at();
    let start = reader.state;
    proof {
        reveal_strlit("null");
        reveal_strlit("true");
        reveal_strlit("false");
    }
    if try_literal("null", reader).is_ok() {
        return Ok(JsonValue::Null);
    }
    if try_literal("true", reader).is_ok() {
        return Ok(JsonValue::Boolean(true));
    }
    if try_literal("false", reader).is_ok() {
        return Ok(JsonValue::Boolean(false));
    }
    let n = reader.buffer.len();
    let i = reader.state.cursor;
    if i < n && reader.buffer[i] == '"' {
        let t = json_string(reader)?;
        return Ok(JsonValue::String(t));
    }
    let j = if i < n && reader.buffer[i] == '-' { i + 1 } else { i };
    if j < n && reader.buffer[j] >= '0' && reader.buffer[j] <= '9' {
        let number = json_number(reader)?;
        return Ok(JsonValue::Number(number));
    }
    if i < n && reader.buffer[i] == '[' {
        return list_value(reader);
    }
    if i < n && reader.buffer[i] == '{' {
        return object_value(reader);
    }
    Err(Error { pos: start.pos, recoverable: true, inner: ParseError::Expecting { value: string_from("{") } })
}

fn list_value(reader: &mut Reader) -> (res: ParseResult<JsonValue>)
    requires
        old(reader).wf(),
        old(reader).at() < old(reader).text().len(),
        old(reader).text()[old(reader).at()] == '[',
    ensures
        follows(*old(reader), *final(reader), res, spec_json_list(old(reader).text(), old(reader).at())),
        res is Ok ==> old(reader).at() < final(reader).at(),
    decreases old(reader).text().len() - old(reader).at(), 1int,
{
    let ghost s = reader.text();
    let ghost c = reader.at();
    reader.read();
    let space0 = json_spaces(reader);
    let ghost c1 = reader.at();
    let mut elements: Vec<JsonListElement> = Vec::new();
    match reader.peek() {
        Some(ch) => {
            if ch == ']' {
                reader.read();
                proof {
                    assert(json_list_view(elements@) == Seq::<SpecJsonListElement>::empty());
                }
                return Ok(JsonValue::List { space0, elements });
            }
        },
        None => {},
    }
    proof {
        assert(json_list_view(elements@) == Seq::<SpecJsonListElement>::empty());
    }
    loop
        invariant
            reader.wf(),
            reader.text() == s,
            s == old(reader).text(),
            c == old(reader).at(),
            0 <= c < c1 <= reader.at() <= s.len(),
            c1 == json_ws_end(s, c + 1),
            space0@ == s.subrange(c + 1, c1),
            !(c1 < s.len() && s[c1] == ']'),
            spec_json_list_items(s, c1, Seq::empty()) == spec_json_list_items(s, reader.at(), json_list_view(elements@)),
        decreases s.len() - reader.at(),
    {
        let ghost e0 = reader.at();
        let item_space0 = json_spaces(reader);
        let value_pos = reader.state.pos;
        let value = match parse(reader) {
            Ok(v) => v,
            Err(_) => {
                return Err(Error { pos: value_pos, recoverable: false, inner: ParseError::Json {} });
            },
        };
        let item_space1 = json_spaces(reader);
        let element = JsonListElement { space0: item_space0, value, space1: item_space1 };
        proof {
            lemma_json_list_view_push(elements@, element);
        }
        elements.push(element);
        let here = reader.state;
        match reader.read() {
            Some(ch) => {
                if ch == ']' {
                    return Ok(JsonValue::List { space0, elements });
                }
                if ch != ',' {
                    return Err(Error { pos: here.pos, recoverable: false, inner: ParseError::Expecting { value: string_from("]") } });
                }
            },
            None => {
                return Err(Error { pos: here.pos, recoverable: false, inner: ParseError::Expecting { value: string_from("]") } });
            },
        }
    }
}

fn object_value(reader: &mut Reader) -> (res: ParseResult<JsonValue>)
    requires
        old(reader).wf(),
        old(reader).at() < old(reader).text().len(),
        old(reader).text()[old(reader).at()] == '{',
    ensures
        follows(*old(reader), *final(reader), res, spec_json_object(old(reader).text(), old(reader).at())),
        res is Ok ==> old(reader).at() < final(reader).at(),
    decreases old(reader).text().len() - old(reader).at(), 1int,
{
    let ghost s = reader.text();
    let ghost c = reader.at();
    reader.read();
    let space0 = json_spaces(reader);
    let ghost c1 = reader.at();
    let mut elements: Vec<JsonObjectElement> = Vec::new();
    match reader.peek() {
        Some(ch) => {
            if ch == '}' {
                reader.read();
                proof {
                    assert(json_object_view(elements@) == Seq::<SpecJsonObjectElement>::empty());
                }
                return Ok(JsonValue::Object { space0, elements });
            }
        },
        None => {},
    }
    proof {
        assert(json_object_view(elements@) == Seq::<SpecJsonObjectElement>::empty());
    }
    loop
        invariant
            reader.wf(),
            reader.text() == s,
            s == old(reader).text(),
            c == old(reader).at(),
            0 <= c < c1 <= reader.at() <= s.len(),
            c1 == json_ws_end(s, c + 1),
            space0@ == s.subrange(c + 1, c1),
            !(c1 < s.len() && s[c1] == '}'),
            spec_json_object_items(s, c1, Seq::empty()) == spec_json_object_items(s, reader.at(), json_object_view(elements@)),
        decreases s.len() - reader.at(),
    {
        let item_space0 = json_spaces(reader);
        let here = reader.state;
        match reader.read() {
            Some(ch) => {
                if ch != '"' {
                    return Err(Error { pos: here.pos, recoverable: false, inner: ParseError::Expecting { value: string_from("\"") } });
                }
            },
            None => {
                return Err(Error { pos: here.pos, recoverable: false, inner: ParseError::Expecting { value: string_from("\"") } });
            },
        }
        let name_from = reader.state.cursor;
        let ghost n0 = reader.at();
        proof {
            lemma_name_end(s, n0);
        }
        loop
            invariant
                reader.wf(),
                reader.text() == s,
                n0 == name_from,
                n0 <= reader.at() <= s.len(),
                name_end(s, n0) == name_end(s, reader.at()),
            ensures
                reader.wf(),
                reader.text() == s,
                n0 <= reader.at(),
                reader.at() == name_end(s, n0),
            decreases s.len() - reader.at(),
        {
            match reader.peek() {
                Some(ch) => {
                    if ch == '"' {
                        break;
                    }
                    reader.read();
                },
                None => break,
            }
        }
        let name = string_of(&reader.buffer, name_from, reader.state.cursor);
        let here = reader.state;
        match reader.read() {
            Some(_) => {},
            None => {
                return Err(Error { pos: here.pos, recoverable: false, inner: ParseError::Expecting { value: string_from("\"") } });
            },
        }
        let item_space1 = json_spaces(reader);
        let here = reader.state;
        match reader.read() {
            Some(ch) => {
                if ch != ':' {
                    return Err(Error { pos: here.pos, recoverable: false, inner: ParseError::Expecting { value: string_from(":") } });
                }
            },
            None => {
                return Err(Error { pos: here.pos, recoverable: false, inner: ParseError::Expecting { value: string_from(":") } });
            },
        }
        let item_space2 = json_spaces(reader);
        let value_pos = reader.state.pos;
        let value = match parse(reader) {
            Ok(v) => v,
            Err(_) => {
                return Err(Error { pos: value_pos, recoverable: false, inner: ParseError::Json {} });
            },
        };
        let item_space3 = json_spaces(reader);
        let element = JsonObjectElement {
            space0: item_space0,
            name,
            space1: item_space1,
            space2: item_space2,
            value,
            space3: item_space3,
        };
        proof {
            lemma_json_object_view_push(elements@, element);
        }
        elements.push(element);
        let here = reader.state;
        match reader.read() {
            Some(ch) => {
                if ch == '}' {
                    return Ok(JsonValue::Object { space0, elements });
                }
                if ch != ',' {
                    return Err(Error { pos: here.pos, recoverable: false, inner: ParseError::Expecting { value: string_from("}") } });
                }
            },
            None => {
                return Err(Error { pos: here.pos, recoverable: false, inner: ParseError::Expecting { value: string_from("}") } });
            },
        }
    }
}

pub proof fn lemma_name_end(s: Seq<char>, i: int)
    requires
        0 <= i <= s.len(),
    ensures
        i <= name_end(s, i) <= s.len(),
        name_end(s, i) < s.len() ==> s[name_end(s, i)] == '"',
    decreases s.len() - i,
{
    if i < s.len() && s[i] != '"' {
        lemma_name_end(s, i + 1);
    }
}

} // verus!
