//! Sections: `[Name]` and the lines it holds.

use crate::ast::{
    Section, SectionValue, SourceInfo, SpecSection, SpecSectionValue, lemma_views_push, views,
};
use crate::error::{Error, Outcome, ParseError, ParseResult, SpecError, SpecParseError};
use crate::asserts::{asserts, captures, spec_asserts_from, spec_captures_from};
use crate::keyvalue::{key_value, spec_key_value, spec_key_values, zero_or_more_key_values};
use crate::primitives::{
    lemma_run_end, line_terminator, optional_line_terminators, run_end, spaces_end,
    spec_line_terminator, spec_optional_line_terminators, spec_try_literal, try_literal,
    zero_or_more_spaces,
};
use crate::reader::{blank, fail, follows, follows_all, span, Reader};
use crate::text::{is_alphanumeric, spec_is_alphanumeric, str_is, string_of};
use crate::ast::Pos;
use vstd::prelude::*;

verus! {

/// The end of the section name that starts at `c`.
pub open spec fn name_end(s: Seq<char>, c: int) -> int {
    run_end(s, c, |ch: char| spec_is_alphanumeric(ch))
}

/// `[`, a name of letters and digits, `]`. Every error is recoverable: a line that
/// does not hold a section name may hold something else (a JSON list, say).
pub open spec fn spec_section_name(s: Seq<char>, c: int) -> Outcome<Seq<char>> {
    if !(0 <= c < s.len() && s[c] == '[') {
        (Err(fail(s, c, true, SpecParseError::Expecting { value: "["@ })), c)
    } else {
        let e = name_end(s, c + 1);
        if e == c + 1 {
            (Err(fail(s, c, true, SpecParseError::Expecting { value: "a valid section name"@ })), e)
        } else {
            match spec_try_literal("]"@, s, e) {
                (Ok(_), c1) => (Ok(s.subrange(c + 1, e)), c1),
                (Err(er), c1) => (Err(er), c1),
            }
        }
    }
}

/// What a request section named `name` holds, read from `c`; an unknown name is an
/// unrecoverable error at the name.
pub open spec fn spec_request_section_value(s: Seq<char>, name: Seq<char>, name_at: int, c: int) -> Outcome<SpecSectionValue> {
    if name == "QueryStringParams"@ {
        match spec_key_values(s, c) {
            (Ok(v), c1) => (Ok(SpecSectionValue::QueryParams(v)), c1),
            (Err(e), c1) => (Err(e), c1),
        }
    } else if name == "BasicAuth"@ {
        match spec_key_value(s, c) {
            (Ok(v), c1) => (Ok(SpecSectionValue::BasicAuth(v)), c1),
            (Err(e), c1) => (Err(e), c1),
        }
    } else if name == "FormParams"@ {
        match spec_key_values(s, c) {
            (Ok(v), c1) => (Ok(SpecSectionValue::FormParams(v)), c1),
            (Err(e), c1) => (Err(e), c1),
        }
    } else if name == "MultipartFormData"@ {
        match spec_key_values(s, c) {
            (Ok(v), c1) => (Ok(SpecSectionValue::MultipartFormData(v)), c1),
            (Err(e), c1) => (Err(e), c1),
        }
    } else if name == "Cookies"@ {
        match spec_key_values(s, c) {
            (Ok(v), c1) => (Ok(SpecSectionValue::Cookies(v)), c1),
            (Err(e), c1) => (Err(e), c1),
        }
    } else {
        (Err(fail(s, name_at, false, SpecParseError::RequestSectionName { name })), c)
    }
}

/// A section of a request: lines of blanks and comments, `[Name]` at the start of a
/// line, the end of that line, and what the section holds.
pub open spec fn spec_request_section(s: Seq<char>, c: int) -> Outcome<SpecSection> {
    match spec_optional_line_terminators(s, c) {
        (Err(e), c1) => (Err(e), c1),
        (Ok(line_terminators), c1) => {
            let c2 = spaces_end(s, c1);
            match spec_section_name(s, c2) {
                (Err(e), c3) => (Err(e), c3),
                (Ok(name), c3) => match spec_line_terminator(s, c3) {
                    (Err(e), c4) => (Err(e), c4),
                    (Ok(line_terminator0), c4) => match spec_request_section_value(s, name, c2 + 1, c4) {
                        (Err(e), c5) => (Err(e), c5),
                        (Ok(value), c5) => (
                            Ok(SpecSection {
                                line_terminators,
                                space0: blank(s, c1, c2),
                                line_terminator0,
                                value,
                                source_info: span(s, c2, c3),
                            }),
                            c5,
                        ),
                    },
                },
            }
        },
    }
}

/// Request sections, as many as there are.
pub open spec fn spec_request_sections_from(s: Seq<char>, c: int, acc: Seq<SpecSection>) -> Outcome<Seq<SpecSection>>
    decreases s.len() - c,
{
    if c < 0 || c >= s.len() {
        (Ok(acc), c)
    } else {
        match spec_request_section(s, c) {
            (Ok(x), c1) => if c < c1 <= s.len() {
                spec_request_sections_from(s, c1, acc.push(x))
            } else {
                (Ok(acc.push(x)), c1)
            },
            (Err(e), c1) => if e.recoverable {
                (Ok(acc), c)
            } else {
                (Err(e), c1)
            },
        }
    }
}

pub open spec fn spec_request_sections(s: Seq<char>, c: int) -> Outcome<Seq<SpecSection>> {
    spec_request_sections_from(s, c, Seq::empty())
}

/// What a response section named `name` holds, read from `c`; an unknown name is an
/// unrecoverable error at the name.
pub open spec fn spec_response_section_value(s: Seq<char>, name: Seq<char>, name_at: int, c: int) -> Outcome<SpecSectionValue> {
    if name == "Captures"@ {
        match spec_captures_from(s, c, Seq::empty()) {
            (Ok(v), c1) => (Ok(SpecSectionValue::Captures(v)), c1),
            (Err(e), c1) => (Err(e), c1),
        }
    } else if name == "Asserts"@ {
        match spec_asserts_from(s, c, Seq::empty()) {
            (Ok(v), c1) => (Ok(SpecSectionValue::Asserts(v)), c1),
            (Err(e), c1) => (Err(e), c1),
        }
    } else {
        (Err(fail(s, name_at, false, SpecParseError::ResponseSectionName { name })), c)
    }
}

/// A section of a response: lines of blanks and comments, `[Name]` at the start of a
/// line, the end of that line, and what the section holds.
pub open spec fn spec_response_section(s: Seq<char>, c: int) -> Outcome<SpecSection> {
    match spec_optional_line_terminators(s, c) {
        (Err(e), c1) => (Err(e), c1),
        (Ok(line_terminators), c1) => {
            let c2 = spaces_end(s, c1);
            match spec_section_name(s, c2) {
                (Err(e), c3) => (Err(e), c3),
                (Ok(name), c3) => match spec_line_terminator(s, c3) {
                    (Err(e), c4) => (Err(e), c4),
                    (Ok(line_terminator0), c4) => match spec_response_section_value(s, name, c2 + 1, c4) {
                        (Err(e), c5) => (Err(e), c5),
                        (Ok(value), c5) => (
                            Ok(SpecSection {
                                line_terminators,
                                space0: blank(s, c1, c2),
                                line_terminator0,
                                value,
                                source_info: span(s, c2, c3),
                            }),
                            c5,
                        ),
                    },
                },
            }
        },
    }
}

/// Response sections, as many as there are.
pub open spec fn spec_response_sections_from(s: Seq<char>, c: int, acc: Seq<SpecSection>) -> Outcome<Seq<SpecSection>>
    decreases s.len() - c,
{
    if c < 0 || c >= s.len() {
        (Ok(acc), c)
    } else {
        match spec_response_section(s, c) {
            (Ok(x), c1) => if c < c1 <= s.len() {
                spec_response_sections_from(s, c1, acc.push(x))
            } else {
                (Ok(acc.push(x)), c1)
            },
            (Err(e), c1) => if e.recoverable {
                (Ok(acc), c)
            } else {
                (Err(e), c1)
            },
        }
    }
}

pub open spec fn spec_response_sections(s: Seq<char>, c: int) -> Outcome<Seq<SpecSection>> {
    spec_response_sections_from(s, c, Seq::empty())
}

pub fn section_name(reader: &mut Reader) -> (res: ParseResult<String>)
    requires
        old(reader).wf(),
    ensures
        follows(*old(reader), *final(reader), res, spec_section_name(old(reader).text(), old(reader).at())),
        res is Ok ==> old(reader).at() < final(reader).at(),
{
    let ghost s = reader.text();
    let ghost c = reader.at();
    let start = reader.state;
    match reader.peek() {
        Some(ch) => {
            if ch != '[' {
                return Err(Error { pos: start.pos, recoverable: true, inner: ParseError::Expecting { value: crate::text::string_from("[") } });
            }
        },
        None => {
            return Err(Error { pos: start.pos, recoverable: true, inner: ParseError::Expecting { value: crate::text::string_from("[") } });
        },
    }
    reader.read();
    proof {
        lemma_run_end(s, c + 1, |ch: char| spec_is_alphanumeric(ch));
    }
    loop
        invariant
            reader.wf(),
            reader.text() == s,
            0 <= c < c + 1 <= reader.at() <= s.len(),
            name_end(s, c + 1) == name_end(s, reader.at()),
        ensures
            reader.wf(),
            reader.text() == s,
            c + 1 <= reader.at(),
            reader.at() == name_end(s, c + 1),
        decreases s.len() - reader.at(),
    {
        match reader.peek() {
            Some(ch) => {
                if is_alphanumeric(ch) {
                    reader.read();
                } else {
                    break;
                }
            },
            None => break,
        }
    }
    if reader.state.cursor == start.cursor + 1 {
        return Err(Error {
            pos: start.pos,
            recoverable: true,
            inner: ParseError::Expecting { value: crate::text::string_from("a valid section name") },
        });
    }
    let name = string_of(&reader.buffer, start.cursor + 1, reader.state.cursor);
    try_literal("]", reader)?;
    Ok(name)
}

pub fn request_section(reader: &mut Reader) -> (res: ParseResult<Section>)
    requires
        old(reader).wf(),
    ensures
        follows(*old(reader), *final(reader), res, spec_request_section(old(reader).text(), old(reader).at())),
        res is Ok ==> old(reader).at() < final(reader).at(),
{
    let line_terminators = optional_line_terminators(reader)?;
    let space0 = zero_or_more_spaces(reader)?;
    let start = reader.state;
    let name = section_name(reader)?;
    let source_info = SourceInfo { start: start.pos, end: reader.state.pos };
    let line_terminator0 = line_terminator(reader)?;
    let ghost s = reader.text();
    proof {
        crate::reader::lemma_pos_bounds(s, start.cursor + 1);
    }
    let name_pos = Pos { line: start.pos.line, column: start.pos.column + 1 };
    let value = if str_is(name.as_str(), "QueryStringParams") {
        SectionValue::QueryParams(zero_or_more_key_values(reader)?)
    } else if str_is(name.as_str(), "BasicAuth") {
        SectionValue::BasicAuth(key_value(reader)?)
    } else if str_is(name.as_str(), "FormParams") {
        SectionValue::FormParams(zero_or_more_key_values(reader)?)
    } else if str_is(name.as_str(), "MultipartFormData") {
        SectionValue::MultipartFormData(zero_or_more_key_values(reader)?)
    } else if str_is(name.as_str(), "Cookies") {
        SectionValue::Cookies(zero_or_more_key_values(reader)?)
    } else {
        return Err(Error { pos: name_pos, recoverable: false, inner: ParseError::RequestSectionName { name } });
    };
    Ok(Section { line_terminators, space0, line_terminator0, value, source_info })
}

pub fn request_sections(reader: &mut Reader) -> (res: ParseResult<Vec<Section>>)
    requires
        old(reader).wf(),
    ensures
        follows_all(*old(reader), *final(reader), res, spec_request_sections(old(reader).text(), old(reader).at())),
{
    let ghost s = reader.text();
    let ghost c = reader.at();
    let mut v: Vec<Section> = Vec::new();
    proof {
        assert(views(v@) =~= Seq::<SpecSection>::empty());
    }
    loop
        invariant
            reader.wf(),
            reader.text() == s,
            s == old(reader).text(),
            c == old(reader).at(),
            0 <= c <= reader.at() <= s.len(),
            spec_request_sections(s, c) == spec_request_sections_from(s, reader.at(), views(v@)),
        ensures
            reader.wf(),
            reader.text() == s,
            c <= reader.at(),
            spec_request_sections(s, c) == (Ok::<Seq<SpecSection>, SpecError>(views(v@)), reader.at()),
        decreases s.len() - reader.at(),
    {
        if reader.is_eof() {
            break;
        }
        let save = reader.state;
        match request_section(reader) {
            Ok(x) => {
                proof {
                    lemma_views_push(v@, x);
                }
                v.push(x);
            },
            Err(e) => {
                if e.recoverable {
                    reader.restore(save);
                    break;
                } else {
                    return Err(e);
                }
            },
        }
    }
    Ok(v)
}

#[verifier::rlimit(40)]
pub fn response_section(reader: &mut Reader) -> (res: ParseResult<Section>)
    requires
        old(reader).wf(),
    ensures
        follows(*old(reader), *final(reader), res, spec_response_section(old(reader).text(), old(reader).at())),
        res is Ok ==> old(reader).at() < final(reader).at(),
{
    let line_terminators = optional_line_terminators(reader)?;
    let space0 = zero_or_more_spaces(reader)?;
    let start = reader.state;
    let name = section_name(reader)?;
    let source_info = SourceInfo { start: start.pos, end: reader.state.pos };
    let line_terminator0 = line_terminator(reader)?;
    let ghost s = reader.text();
    proof {
        crate::reader::lemma_pos_bounds(s, start.cursor + 1);
    }
    let name_pos = Pos { line: start.pos.line, column: start.pos.column + 1 };
    let value = if str_is(name.as_str(), "Captures") {
        SectionValue::Captures(captures(reader)?)
    } else if str_is(name.as_str(), "Asserts") {
        SectionValue::Asserts(asserts(reader)?)
    } else {
        return Err(Error { pos: name_pos, recoverable: false, inner: ParseError::ResponseSectionName { name } });
    };
    Ok(Section { line_terminators, space0, line_terminator0, value, source_info })
}

pub fn response_sections(reader: &mut Reader) -> (res: ParseResult<Vec<Section>>)
    requires
        old(reader).wf(),
    ensures
        follows_all(*old(reader), *final(reader), res, spec_response_sections(old(reader).text(), old(reader).at())),
{
    let ghost s = reader.text();
    let ghost c = reader.at();
    let mut v: Vec<Section> = Vec::new();
    proof {
        assert(views(v@) =~= Seq::<SpecSection>::empty());
    }
    loop
        invariant
            reader.wf(),
            reader.text() == s,
            s == old(reader).text(),
            c == old(reader).at(),
            0 <= c <= reader.at() <= s.len(),
            spec_response_sections(s, c) == spec_response_sections_from(s, reader.at(), views(v@)),
        ensures
            reader.wf(),
            reader.text() == s,
            c <= reader.at(),
            spec_response_sections(s, c) == (Ok::<Seq<SpecSection>, SpecError>(views(v@)), reader.at()),
        decreases s.len() - reader.at(),
    {
        if reader.is_eof() {
            break;
        }
        let save = reader.state;
        match response_section(reader) {
            Ok(x) => {
                proof {
                    lemma_views_push(v@, x);
                }
                v.push(x);
            },
            Err(e) => {
                if e.recoverable {
                    reader.restore(save);
                    break;
                } else {
                    return Err(e);
                }
            },
        }
    }
    Ok(v)
}

} // verus!
