//! Templates written up to the end of a line, and `key: value` lines.

use crate::ast::{
    EncodedString, KeyValue, SourceInfo, SpecEncodedString, SpecKeyValue, SpecTemplate,
    SpecTemplateElement, Template, TemplateElement, lemma_views_push, views,
};
use crate::error::{Error, Outcome, ParseError, ParseResult, SpecError, SpecParseError};
use crate::expr;
use crate::expr::{lemma_expr_forward, spec_expr};
use crate::primitives::{
    lemma_line_terminator_forward, lemma_literal_forward, lemma_run_end, line_terminator,
    literal, newline_at, optional_line_terminators, run_end, spaces_end, spec_line_terminator,
    spec_line_terminators_from, spec_literal, spec_optional_line_terminators,
    zero_or_more_spaces,
};
use crate::parsers::with_text;
use crate::reader::{blank, fail, follows, follows_all, span, Reader};
use crate::text::{is_alphanumeric, is_space, spec_is_alphanumeric, string_of};
use vstd::prelude::*;

verus! {

/// The same outcome, with its error made recoverable.
pub open spec fn recovered<T>(o: Outcome<T>) -> Outcome<T> {
    match o {
        (Err(e), c) => (Err(SpecError { pos: e.pos, recoverable: true, inner: e.inner }), c),
        _ => o,
    }
}

/// The elements of the template written in `s[c..e]`: text, and expressions `{{ name }}`.
/// `acc` holds the elements before `b`, and `s[b..c]` is text. An expression that is not
/// closed ends the parse; an expression that would reach past `e` is read as text.
pub open spec fn template_from(s: Seq<char>, e: int, b: int, c: int, acc: Seq<SpecTemplateElement>) -> Outcome<Seq<SpecTemplateElement>>
    decreases e - c,
{
    if c < 0 || c >= e {
        (Ok(with_text(s, b, c, acc)), c)
    } else {
        match spec_expr(s, c) {
            (Ok(x), c1) => if c < c1 <= e {
                template_from(s, e, c1, c1, with_text(s, b, c, acc).push(SpecTemplateElement::Expression(x)))
            } else {
                template_from(s, e, b, c + 1, acc)
            },
            (Err(er), c1) => if !er.recoverable {
                (Err(er), c1)
            } else {
                template_from(s, e, b, c + 1, acc)
            },
        }
    }
}

pub proof fn lemma_template_from_forward(s: Seq<char>, e: int, b: int, c: int, acc: Seq<SpecTemplateElement>)
    requires
        0 <= c <= e <= s.len(),
    ensures
        c <= template_from(s, e, b, c, acc).1 <= s.len(),
        template_from(s, e, b, c, acc).0 is Ok ==> template_from(s, e, b, c, acc).1 == e,
    decreases e - c,
{
    if c < e {
        lemma_expr_forward(s, c);
        match spec_expr(s, c) {
            (Ok(x), c1) => if c < c1 <= e {
                lemma_template_from_forward(s, e, c1, c1, with_text(s, b, c, acc).push(SpecTemplateElement::Expression(x)));
            } else {
                lemma_template_from_forward(s, e, b, c + 1, acc);
            },
            (Err(er), c1) => if er.recoverable {
                lemma_template_from_forward(s, e, b, c + 1, acc);
            },
        }
    }
}

/// Where a value stops: at `#`, at a newline or at the end of the text.
pub open spec fn line_end(s: Seq<char>, i: int) -> int
    decreases s.len() - i,
{
    if i < 0 || i >= s.len() || s[i] == '#' || newline_at(s, i) {
        i
    } else {
        line_end(s, i + 1)
    }
}

pub proof fn lemma_line_end(s: Seq<char>, i: int)
    requires
        0 <= i <= s.len(),
    ensures
        i <= line_end(s, i) <= s.len(),
    decreases s.len() - i,
{
    if i < s.len() && s[i] != '#' && !newline_at(s, i) {
        lemma_line_end(s, i + 1);
    }
}

/// `e`, moved back over the blanks before it, but not before `c`.
pub open spec fn trim_end(s: Seq<char>, c: int, e: int) -> int
    decreases e - c,
{
    if e > c && is_space(s[e - 1]) {
        trim_end(s, c, e - 1)
    } else {
        e
    }
}

pub proof fn lemma_trim_end(s: Seq<char>, c: int, e: int)
    requires
        c <= e,
    ensures
        c <= trim_end(s, c, e) <= e,
    decreases e - c,
{
    if e > c && is_space(s[e - 1]) {
        lemma_trim_end(s, c, e - 1);
    }
}

/// A template up to the end of the line, without the blanks that end it.
pub open spec fn spec_unquoted_template(s: Seq<char>, c: int) -> Outcome<SpecTemplate> {
    let e = trim_end(s, c, line_end(s, c));
    match template_from(s, e, c, c, Seq::empty()) {
        (Ok(elements), c1) => (Ok(SpecTemplate { quotes: false, elements, source_info: span(s, c, c1) }), c1),
        (Err(er), c1) => (Err(er), c1),
    }
}

/// A character that may stand in a key.
pub open spec fn is_key_char(ch: char) -> bool {
    ||| spec_is_alphanumeric(ch)
    ||| ch == '_' || ch == '-' || ch == '.' || ch == '[' || ch == ']' || ch == '@' || ch == '$'
}

/// The end of the key that starts at `c`.
pub open spec fn key_end(s: Seq<char>, c: int) -> int {
    run_end(s, c, |ch: char| is_key_char(ch))
}

/// A key: one or more key characters.
pub open spec fn spec_key(s: Seq<char>, c: int) -> Outcome<SpecEncodedString> {
    let e = key_end(s, c);
    if e == c {
        (Err(fail(s, c, false, SpecParseError::Expecting { value: "key string"@ })), c)
    } else {
        (
            Ok(SpecEncodedString {
                value: s.subrange(c, e),
                encoded: s.subrange(c, e),
                quotes: false,
                source_info: span(s, c, e),
            }),
            e,
        )
    }
}

/// `key: value` on a line, after lines of blanks and comments. Until the `:` is read,
/// errors are recoverable.
pub open spec fn spec_key_value(s: Seq<char>, c: int) -> Outcome<SpecKeyValue> {
    match spec_optional_line_terminators(s, c) {
        (Err(e), c1) => (Err(e), c1),
        (Ok(line_terminators), c1) => {
            let c2 = spaces_end(s, c1);
            match recovered(spec_key(s, c2)) {
                (Err(e), c3) => (Err(e), c3),
                (Ok(key), c3) => {
                    let c4 = spaces_end(s, c3);
                    match recovered(spec_literal(":"@, s, c4)) {
                        (Err(e), c5) => (Err(e), c5),
                        (Ok(_), c5) => {
                            let c6 = spaces_end(s, c5);
                            match spec_unquoted_template(s, c6) {
                                (Err(e), c7) => (Err(e), c7),
                                (Ok(value), c7) => match spec_line_terminator(s, c7) {
                                    (Err(e), c8) => (Err(e), c8),
                                    (Ok(line_terminator0), c8) => (
                                        Ok(SpecKeyValue {
                                            line_terminators,
                                            space0: blank(s, c1, c2),
                                            key,
                                            space1: blank(s, c3, c4),
                                            space2: blank(s, c5, c6),
                                            value,
                                            line_terminator0,
                                        }),
                                        c8,
                                    ),
                                },
                            }
                        },
                    }
                },
            }
        },
    }
}

pub proof fn lemma_line_terminators_forward(s: Seq<char>, c: int, acc: Seq<crate::ast::SpecLineTerminator>)
    requires
        0 <= c <= s.len(),
    ensures
        c <= spec_line_terminators_from(s, c, acc).1 <= s.len(),
        spec_line_terminators_from(s, c, acc).0 is Ok,
    decreases s.len() - c,
{
    if c < s.len() {
        lemma_line_terminator_forward(s, c);
        match spec_line_terminator(s, c) {
            (Ok(lt), c1) => if c < c1 <= s.len() {
                lemma_line_terminators_forward(s, c1, acc.push(lt));
            },
            _ => {},
        }
    }
}

pub proof fn lemma_key_value_forward(s: Seq<char>, c: int)
    requires
        0 <= c <= s.len(),
    ensures
        c <= spec_key_value(s, c).1 <= s.len(),
        spec_key_value(s, c).0 is Ok ==> c < spec_key_value(s, c).1,
{
    reveal_strlit(":");
    lemma_line_terminators_forward(s, c, Seq::empty());
    let c1 = spec_optional_line_terminators(s, c).1;
    lemma_run_end(s, c1, |ch: char| is_space(ch));
    let c2 = spaces_end(s, c1);
    lemma_run_end(s, c2, |ch: char| is_key_char(ch));
    let c3 = spec_key(s, c2).1;
    lemma_run_end(s, c3, |ch: char| is_space(ch));
    let c4 = spaces_end(s, c3);
    lemma_literal_forward(":"@, s, c4);
    let c5 = spec_literal(":"@, s, c4).1;
    lemma_run_end(s, c5, |ch: char| is_space(ch));
    let c6 = spaces_end(s, c5);
    lemma_line_end(s, c6);
    lemma_trim_end(s, c6, line_end(s, c6));
    lemma_template_from_forward(s, trim_end(s, c6, line_end(s, c6)), c6, c6, Seq::empty());
    let c7 = spec_unquoted_template(s, c6).1;
    lemma_line_terminator_forward(s, c7);
}

/// `key: value` lines, as many as there are; stops before a line that is not one
/// (a recoverable error), and fails on an unrecoverable error.
pub open spec fn spec_key_values_from(s: Seq<char>, c: int, acc: Seq<SpecKeyValue>) -> Outcome<Seq<SpecKeyValue>>
    decreases s.len() - c,
{
    if c < 0 || c >= s.len() {
        (Ok(acc), c)
    } else {
        match spec_key_value(s, c) {
            (Ok(kv), c1) => if c < c1 <= s.len() {
                spec_key_values_from(s, c1, acc.push(kv))
            } else {
                (Ok(acc.push(kv)), c1)
            },
            (Err(e), c1) => if e.recoverable {
                (Ok(acc), c)
            } else {
                (Err(e), c1)
            },
        }
    }
}

pub open spec fn spec_key_values(s: Seq<char>, c: int) -> Outcome<Seq<SpecKeyValue>> {
    spec_key_values_from(s, c, Seq::empty())
}

/// The elements of the template in the text from the cursor to `e`.
pub fn template_elements(reader: &mut Reader, e: usize) -> (res: ParseResult<Vec<TemplateElement>>)
    requires
        old(reader).wf(),
        old(reader).at() <= e <= old(reader).text().len(),
    ensures
        follows_all(*old(reader), *final(reader), res,
            template_from(old(reader).text(), e as int, old(reader).at(), old(reader).at(), Seq::empty())),
{
    let ghost s = reader.text();
    let ghost c0 = reader.at();
    let mut elements: Vec<TemplateElement> = Vec::new();
    let mut from: usize = reader.state.cursor;
    proof {
        assert(views(elements@) =~= Seq::<SpecTemplateElement>::empty());
    }
    while reader.state.cursor < e
        invariant
            reader.wf(),
            reader.text() == s,
            s == old(reader).text(),
            c0 == old(reader).at(),
            0 <= c0 <= from <= reader.at() <= e <= s.len(),
            template_from(s, e as int, c0, c0, Seq::empty()) == template_from(s, e as int, from as int, reader.at(), views(elements@)),
        decreases e - reader.at(),
    {
        let save = reader.state;
        proof {
            lemma_expr_forward(s, reader.at());
        }
        match expr::parse(reader) {
            Ok(value) => {
                if reader.state.cursor <= e {
                    if from < save.cursor {
                        let text = string_of(&reader.buffer, from, save.cursor);
                        let element = TemplateElement::String { value: text.clone(), encoded: text };
                        proof {
                            lemma_views_push(elements@, element);
                        }
                        elements.push(element);
                    }
                    let element = TemplateElement::Expression(value);
                    proof {
                        lemma_views_push(elements@, element);
                    }
                    elements.push(element);
                    from = reader.state.cursor;
                } else {
                    reader.restore(save);
                    reader.read();
                }
            },
            Err(er) => {
                if !er.recoverable {
                    return Err(er);
                }
                reader.restore(save);
                reader.read();
            },
        }
    }
    if from < reader.state.cursor {
        let text = string_of(&reader.buffer, from, reader.state.cursor);
        let element = TemplateElement::String { value: text.clone(), encoded: text };
        proof {
            lemma_views_push(elements@, element);
        }
        elements.push(element);
    }
    Ok(elements)
}

pub fn unquoted_template(reader: &mut Reader) -> (res: ParseResult<Template>)
    requires
        old(reader).wf(),
    ensures
        follows(*old(reader), *final(reader), res, spec_unquoted_template(old(reader).text(), old(reader).at())),
{
    let ghost s = reader.text();
    let start = reader.state;
    let n = reader.buffer.len();
    let mut stop = start.cursor;
    proof {
        lemma_line_end(s, start.cursor as int);
    }
    while stop < n && reader.buffer[stop] != '#' && reader.buffer[stop] != '\n'
        && !(reader.buffer[stop] == '\r' && stop + 1 < n && reader.buffer[stop + 1] == '\n')
        invariant
            reader.wf(),
            reader.text() == s,
            n == s.len(),
            start.cursor <= stop <= n,
            line_end(s, start.cursor as int) == line_end(s, stop as int),
        decreases n - stop,
    {
        stop += 1;
    }
    let mut end = stop;
    while end > start.cursor && (reader.buffer[end - 1] == ' ' || reader.buffer[end - 1] == '\t')
        invariant
            reader.wf(),
            reader.text() == s,
            n == s.len(),
            start.cursor <= end <= stop <= n,
            trim_end(s, start.cursor as int, stop as int) == trim_end(s, start.cursor as int, end as int),
        decreases end,
    {
        end -= 1;
    }
    let elements = template_elements(reader, end)?;
    proof {
        lemma_template_from_forward(s, end as int, start.cursor as int, start.cursor as int, Seq::empty());
    }
    Ok(Template { quotes: false, elements, source_info: SourceInfo { start: start.pos, end: reader.state.pos } })
}

pub fn key(reader: &mut Reader) -> (res: ParseResult<EncodedString>)
    requires
        old(reader).wf(),
    ensures
        follows(*old(reader), *final(reader), res, spec_key(old(reader).text(), old(reader).at())),
{
    let ghost s = reader.text();
    let ghost c = reader.at();
    let start = reader.state;
    proof {
        lemma_run_end(s, c, |ch: char| is_key_char(ch));
    }
    loop
        invariant
            reader.wf(),
            reader.text() == s,
            0 <= c <= reader.at() <= s.len(),
            key_end(s, c) == key_end(s, reader.at()),
        ensures
            reader.wf(),
            reader.text() == s,
            reader.at() == key_end(s, c),
        decreases s.len() - reader.at(),
    {
        match reader.peek() {
            Some(ch) => {
                if is_alphanumeric(ch) || ch == '_' || ch == '-' || ch == '.' || ch == '[' || ch == ']'
                    || ch == '@' || ch == '$' {
                    reader.read();
                } else {
                    break;
                }
            },
            None => break,
        }
    }
    if reader.state.cursor == start.cursor {
        return Err(Error {
            pos: start.pos,
            recoverable: false,
            inner: ParseError::Expecting { value: crate::text::string_from("key string") },
        });
    }
    let value = string_of(&reader.buffer, start.cursor, reader.state.cursor);
    let encoded = value.clone();
    Ok(EncodedString {
        value,
        encoded,
        quotes: false,
        source_info: SourceInfo { start: start.pos, end: reader.state.pos },
    })
}

/// The same error, made recoverable.
fn recover(e: Error) -> (r: Error)
    ensures
        r@ == (SpecError { pos: e@.pos, recoverable: true, inner: e@.inner }),
{
    Error { pos: e.pos, recoverable: true, inner: e.inner }
}

pub fn key_value(reader: &mut Reader) -> (res: ParseResult<KeyValue>)
    requires
        old(reader).wf(),
    ensures
        follows(*old(reader), *final(reader), res, spec_key_value(old(reader).text(), old(reader).at())),
{
    let line_terminators = optional_line_terminators(reader)?;
    let space0 = zero_or_more_spaces(reader)?;
    let key = match key(reader) {
        Ok(k) => k,
        Err(e) => return Err(recover(e)),
    };
    let space1 = zero_or_more_spaces(reader)?;
    match literal(":", reader) {
        Ok(_) => {},
        Err(e) => return Err(recover(e)),
    }
    let space2 = zero_or_more_spaces(reader)?;
    let value = unquoted_template(reader)?;
    let line_terminator0 = line_terminator(reader)?;
    Ok(KeyValue { line_terminators, space0, key, space1, space2, value, line_terminator0 })
}

pub fn zero_or_more_key_values(reader: &mut Reader) -> (res: ParseResult<Vec<KeyValue>>)
    requires
        old(reader).wf(),
    ensures
        follows_all(*old(reader), *final(reader), res, spec_key_values(old(reader).text(), old(reader).at())),
{
    let ghost s = reader.text();
    let ghost c = reader.at();
    let mut v: Vec<KeyValue> = Vec::new();
    proof {
        assert(views(v@) =~= Seq::<SpecKeyValue>::empty());
    }
    loop
        invariant
            reader.wf(),
            reader.text() == s,
            s == old(reader).text(),
            c == old(reader).at(),
            0 <= c <= reader.at() <= s.len(),
            spec_key_values(s, c) == spec_key_values_from(s, reader.at(), views(v@)),
        ensures
            reader.wf(),
            reader.text() == s,
            spec_key_values(s, c) == (Ok::<Seq<SpecKeyValue>, SpecError>(views(v@)), reader.at()),
        decreases s.len() - reader.at(),
    {
        if reader.is_eof() {
            break;
        }
        let save = reader.state;
        proof {
            lemma_key_value_forward(s, reader.at());
        }
        match key_value(reader) {
            Ok(kv) => {
                proof {
                    lemma_views_push(v@, kv);
                }
                v.push(kv);
            },
            Err(e) => {
                if e.recoverable {
                    reader.restore(save);
                    break;
                } else {
                    return Err(e);
                }
            },
        }
    }
    Ok(v)
}

} // verus!
