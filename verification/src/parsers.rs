//! Hurl files, entries, requests and responses, and the lines they start with.

use crate::ast::{
    Body, Entry, HurlFile, Method, Request, Response, Section, SourceInfo, SpecBody, SpecEntry,
    SpecHurlFile, SpecRequest, SpecResponse, SpecSection, SpecTemplate, SpecTemplateElement,
    Status, StatusValue, Template, TemplateElement, Version, VersionValue, lemma_views_push,
    spec_section_name, views,
};
use crate::bytes::{bytes, spec_bytes};
use crate::error::{Error, Outcome, ParseError, ParseResult, SpecError, SpecParseError};
use crate::expr;
use crate::expr::{lemma_expr_forward, spec_expr};
use crate::keyvalue::{spec_key_values, zero_or_more_key_values};
use crate::primitives::{
    eof, line_terminator, natural, one_or_more_spaces, optional_line_terminators, spaces_end,
    spec_eof, spec_line_terminator, spec_natural, spec_one_or_more_spaces,
    spec_optional_line_terminators, starts_with, try_literal, zero_or_more_spaces,
};
use crate::reader::{blank, fail, follows, span, Reader};
use crate::sections::{
    request_sections, response_sections, spec_request_sections, spec_response_sections,
};
use crate::text::{is_alphanumeric, push_char, spec_is_alphanumeric};
use vstd::prelude::*;

verus! {

/// The method written at `c`: the first of the methods, in the order below, whose
/// name the text starts with. When none is, the error is recoverable only at the end
/// of the text.
pub open spec fn spec_method(s: Seq<char>, c: int) -> Outcome<Method> {
    if starts_with(s, c, "GET"@) {
        (Ok(Method::Get), c + "GET"@.len())
    } else if starts_with(s, c, "HEAD"@) {
        (Ok(Method::Head), c + "HEAD"@.len())
    } else if starts_with(s, c, "POST"@) {
        (Ok(Method::Post), c + "POST"@.len())
    } else if starts_with(s, c, "PUT"@) {
        (Ok(Method::Put), c + "PUT"@.len())
    } else if starts_with(s, c, "DELETE"@) {
        (Ok(Method::Delete), c + "DELETE"@.len())
    } else if starts_with(s, c, "CONNECT"@) {
        (Ok(Method::Connect), c + "CONNECT"@.len())
    } else if starts_with(s, c, "OPTIONS"@) {
        (Ok(Method::Options), c + "OPTIONS"@.len())
    } else if starts_with(s, c, "TRACE"@) {
        (Ok(Method::Trace), c + "TRACE"@.len())
    } else if starts_with(s, c, "PATCH"@) {
        (Ok(Method::Patch), c + "PATCH"@.len())
    } else {
        (Err(fail(s, c, c >= s.len(), SpecParseError::Method)), c)
    }
}

/// `HTTP/` then `1.0`, `1.1`, `2` or `*`. A missing `HTTP/` is recoverable; a
/// version that is not one of these is not.
pub open spec fn spec_version(s: Seq<char>, c: int) -> Outcome<Version> {
    if !starts_with(s, c, "HTTP/"@) {
        (Err(fail(s, c, true, SpecParseError::Expecting { value: "HTTP/"@ })), c)
    } else {
        let c1 = c + "HTTP/"@.len();
        if starts_with(s, c1, "1.0"@) {
            let e = c1 + "1.0"@.len();
            (Ok(Version { value: VersionValue::Version1, source_info: span(s, c1, e) }), e)
        } else if starts_with(s, c1, "1.1"@) {
            let e = c1 + "1.1"@.len();
            (Ok(Version { value: VersionValue::Version11, source_info: span(s, c1, e) }), e)
        } else if starts_with(s, c1, "2"@) {
            let e = c1 + "2"@.len();
            (Ok(Version { value: VersionValue::Version2, source_info: span(s, c1, e) }), e)
        } else if starts_with(s, c1, "*"@) {
            let e = c1 + "*"@.len();
            (Ok(Version { value: VersionValue::VersionAny, source_info: span(s, c1, e) }), e)
        } else {
            (Err(fail(s, c1, false, SpecParseError::Version)), c1)
        }
    }
}

/// `*`, or a natural number. Anything else is an unrecoverable error.
pub open spec fn spec_status(s: Seq<char>, c: int) -> Outcome<Status> {
    if starts_with(s, c, "*"@) {
        (Ok(Status { value: StatusValue::Any, source_info: span(s, c, c + "*"@.len()) }), c + "*"@.len())
    } else {
        match spec_natural(s, c) {
            (Ok(n), c1) => (Ok(Status { value: StatusValue::Specific(n), source_info: span(s, c, c1) }), c1),
            (Err(_), c1) => (Err(fail(s, c, false, SpecParseError::Status)), c1),
        }
    }
}

/// A character that may stand in a url as it is.
pub open spec fn is_url_char(ch: char) -> bool {
    ||| spec_is_alphanumeric(ch)
    ||| ch == ':' || ch == '/' || ch == '.' || ch == '-' || ch == '?' || ch == '='
    ||| ch == '&' || ch == '_' || ch == '%' || ch == '*' || ch == ',' || ch == '@'
}

fn url_char(ch: char) -> (b: bool)
    ensures
        b == is_url_char(ch),
{
    is_alphanumeric(ch) || ch == ':' || ch == '/' || ch == '.' || ch == '-' || ch == '?' || ch == '='
        || ch == '&' || ch == '_' || ch == '%' || ch == '*' || ch == ',' || ch == '@'
}

/// `acc`, followed by the text `s[b..c]` as an element when it is not empty.
pub open spec fn with_text(s: Seq<char>, b: int, c: int, acc: Seq<SpecTemplateElement>) -> Seq<SpecTemplateElement> {
    if b < c {
        acc.push(SpecTemplateElement::String { value: s.subrange(b, c), encoded: s.subrange(b, c) })
    } else {
        acc
    }
}

/// The url that ends at `c`, from `c0`, with the elements `elements`; a url with no
/// element is an error, and the cursor goes back to `c0`.
pub open spec fn url_end(s: Seq<char>, c0: int, c: int, elements: Seq<SpecTemplateElement>) -> Outcome<SpecTemplate> {
    if elements.len() == 0 {
        (Err(fail(s, c0, false, SpecParseError::Url)), c0)
    } else {
        (Ok(SpecTemplate { quotes: false, elements, source_info: span(s, c0, c) }), c)
    }
}

/// The rest of a url from `c`: `acc` holds the elements so far, and `s[b..c]` the text
/// read since the last expression. The url ends where a line could end, before a
/// character that may not stand in a url, or at an unrecoverable error in an
/// expression.
pub open spec fn url_from(s: Seq<char>, c0: int, b: int, c: int, acc: Seq<SpecTemplateElement>) -> Outcome<SpecTemplate>
    decreases s.len() - c,
{
    if c < 0 || c > s.len() || spec_line_terminator(s, c).0 is Ok {
        url_end(s, c0, c, with_text(s, b, c, acc))
    } else {
        match spec_expr(s, c) {
            (Ok(e), c1) => if c < c1 <= s.len() {
                url_from(s, c0, c1, c1, with_text(s, b, c, acc).push(SpecTemplateElement::Expression(e)))
            } else {
                url_end(s, c0, c, with_text(s, b, c, acc))
            },
            (Err(e), c1) => if !e.recoverable {
                (Err(e), c1)
            } else if c < s.len() && is_url_char(s[c]) {
                url_from(s, c0, b, c + 1, acc)
            } else {
                url_end(s, c0, c, with_text(s, b, c, acc))
            },
        }
    }
}

/// A url: text and expressions, up to the end of the line.
pub open spec fn spec_url(s: Seq<char>, c: int) -> Outcome<SpecTemplate> {
    if c >= s.len() {
        (Err(fail(s, c, false, SpecParseError::Url)), c)
    } else {
        url_from(s, c, c, c, Seq::empty())
    }
}

pub fn method(reader: &mut Reader) -> (res: ParseResult<Method>)
    requires
        old(reader).wf(),
    ensures
        follows(*old(reader), *final(reader), res, spec_method(old(reader).text(), old(reader).at())),
        res is Ok ==> old(reader).at() < final(reader).at(),
{
    proof {
        reveal_strlit("GET");
        reveal_strlit("HEAD");
        reveal_strlit("POST");
        reveal_strlit("PUT");
        reveal_strlit("DELETE");
        reveal_strlit("CONNECT");
        reveal_strlit("OPTIONS");
        reveal_strlit("TRACE");
        reveal_strlit("PATCH");
    }
    let start = reader.state;
    if try_literal("GET", reader).is_ok() {
        return Ok(Method::Get);
    }
    if try_literal("HEAD", reader).is_ok() {
        return Ok(Method::Head);
    }
    if try_literal("POST", reader).is_ok() {
        return Ok(Method::Post);
    }
    if try_literal("PUT", reader).is_ok() {
        return Ok(Method::Put);
    }
    if try_literal("DELETE", reader).is_ok() {
        return Ok(Method::Delete);
    }
    if try_literal("CONNECT", reader).is_ok() {
        return Ok(Method::Connect);
    }
    if try_literal("OPTIONS", reader).is_ok() {
        return Ok(Method::Options);
    }
    if try_literal("TRACE", reader).is_ok() {
        return Ok(Method::Trace);
    }
    if try_literal("PATCH", reader).is_ok() {
        return Ok(Method::Patch);
    }
    Err(Error { pos: start.pos, recoverable: reader.is_eof(), inner: ParseError::Method {} })
}

pub fn version(reader: &mut Reader) -> (res: ParseResult<Version>)
    requires
        old(reader).wf(),
    ensures
        follows(*old(reader), *final(reader), res, spec_version(old(reader).text(), old(reader).at())),
{
    try_literal("HTTP/", reader)?;
    let start = reader.state;
    if try_literal("1.0", reader).is_ok() {
        return Ok(Version { value: VersionValue::Version1, source_info: SourceInfo { start: start.pos, end: reader.state.pos } });
    }
    if try_literal("1.1", reader).is_ok() {
        return Ok(Version { value: VersionValue::Version11, source_info: SourceInfo { start: start.pos, end: reader.state.pos } });
    }
    if try_literal("2", reader).is_ok() {
        return Ok(Version { value: VersionValue::Version2, source_info: SourceInfo { start: start.pos, end: reader.state.pos } });
    }
    if try_literal("*", reader).is_ok() {
        return Ok(Version { value: VersionValue::VersionAny, source_info: SourceInfo { start: start.pos, end: reader.state.pos } });
    }
    Err(Error { pos: start.pos, recoverable: false, inner: ParseError::Version {} })
}

pub fn status(reader: &mut Reader) -> (res: ParseResult<Status>)
    requires
        old(reader).wf(),
    ensures
        follows(*old(reader), *final(reader), res, spec_status(old(reader).text(), old(reader).at())),
{
    let start = reader.state.pos;
    let value = match try_literal("*", reader) {
        Ok(_) => StatusValue::Any,
        Err(_) => match natural(reader) {
            Ok(value) => StatusValue::Specific(value),
            Err(_) => {
                return Err(Error { pos: start, recoverable: false, inner: ParseError::Status {} });
            },
        },
    };
    let end = reader.state.pos;
    Ok(Status { value, source_info: SourceInfo { start, end } })
}

pub fn url(reader: &mut Reader) -> (res: ParseResult<Template>)
    requires
        old(reader).wf(),
    ensures
        follows(*old(reader), *final(reader), res, spec_url(old(reader).text(), old(reader).at())),
{
    let ghost s = reader.text();
    let ghost c0 = reader.at();
    let start = reader.state;
    let mut elements: Vec<TemplateElement> = Vec::new();
    let mut buffer = String::new();
    let mut from: usize = start.cursor;
    if reader.is_eof() {
        return Err(Error { pos: start.pos, recoverable: false, inner: ParseError::Url {} });
    }
    proof {
        assert(views(elements@) =~= Seq::<SpecTemplateElement>::empty());
        assert(s.subrange(c0, c0) =~= Seq::<char>::empty());
    }
    loop
        invariant
            reader.wf(),
            reader.text() == s,
            s == old(reader).text(),
            c0 == old(reader).at(),
            start == old(reader).state,
            0 <= c0 <= from <= reader.at() <= s.len(),
            buffer@ == s.subrange(from as int, reader.at()),
            spec_url(s, c0) == url_from(s, c0, from as int, reader.at(), views(elements@)),
        ensures
            reader.wf(),
            reader.text() == s,
            0 <= c0 <= from <= reader.at() <= s.len(),
            buffer@ == s.subrange(from as int, reader.at()),
            spec_url(s, c0) == url_end(s, c0, reader.at(), with_text(s, from as int, reader.at(), views(elements@))),
        decreases s.len() - reader.at(),
    {
        let save = reader.state;
        match line_terminator(reader) {
            Ok(_) => {
                reader.restore(save);
                break;
            },
            Err(_) => {
                reader.restore(save);
            },
        }
        proof {
            lemma_expr_forward(s, reader.at());
        }
        match expr::parse(reader) {
            Ok(value) => {
                if from < save.cursor {
                    let text = buffer.clone();
                    let element = TemplateElement::String { value: text.clone(), encoded: text };
                    proof {
                        lemma_views_push(elements@, element);
                    }
                    elements.push(element);
                    buffer = String::new();
                }
                let element = TemplateElement::Expression(value);
                proof {
                    lemma_views_push(elements@, element);
                    assert(s.subrange(reader.at(), reader.at()) =~= Seq::<char>::empty());
                }
                elements.push(element);
                buffer = String::new();
                from = reader.state.cursor;
            },
            Err(e) => {
                if !e.recoverable {
                    return Err(e);
                }
                reader.restore(save);
                match reader.read() {
                    None => break,
                    Some(ch) => {
                        if url_char(ch) {
                            push_char(&mut buffer, ch);
                            proof {
                                assert(s.subrange(from as int, reader.at()) =~= s.subrange(from as int, reader.at() - 1).push(ch));
                            }
                        } else {
                            reader.restore(save);
                            break;
                        }
                    },
                }
            },
        }
    }
    if from < reader.state.cursor {
        let text = buffer.clone();
        let element = TemplateElement::String { value: text.clone(), encoded: text };
        proof {
            lemma_views_push(elements@, element);
        }
        elements.push(element);
    }
    if elements.len() == 0 {
        reader.restore(start);
        return Err(Error { pos: start.pos, recoverable: false, inner: ParseError::Url {} });
    }
    Ok(Template {
        quotes: false,
        elements,
        source_info: SourceInfo { start: start.pos, end: reader.state.pos },
    })
}

/// A body: lines of blanks and comments, blanks, the content, and the end of its line.
pub open spec fn spec_body(s: Seq<char>, c: int) -> Outcome<SpecBody> {
    match spec_optional_line_terminators(s, c) {
        (Err(e), c1) => (Err(e), c1),
        (Ok(line_terminators), c1) => {
            let c2 = spaces_end(s, c1);
            match spec_bytes(s, c2) {
                (Err(e), c3) => (Err(e), c3),
                (Ok(value), c3) => match spec_line_terminator(s, c3) {
                    (Err(e), c4) => (Err(e), c4),
                    (Ok(line_terminator0), c4) => (
                        Ok(SpecBody { line_terminators, space0: blank(s, c1, c2), value, line_terminator0 }),
                        c4,
                    ),
                },
            }
        },
    }
}

/// An optional part: what `o` read, or nothing, without moving, when `o` failed with a
/// recoverable error.
pub open spec fn optional<T>(o: Outcome<T>, c: int) -> Outcome<Option<T>> {
    match o {
        (Ok(v), c1) => (Ok(Some(v)), c1),
        (Err(e), c1) => if e.recoverable {
            (Ok(None), c)
        } else {
            (Err(e), c1)
        },
    }
}

/// Whether section `i` has the name of an earlier section.
pub open spec fn repeats_name(sections: Seq<SpecSection>, i: int) -> bool {
    exists|j: int| 0 <= j < i && spec_section_name(sections[j].value) == spec_section_name(sections[i].value)
}

/// The first section, from `i` on, that has the name of an earlier section.
pub open spec fn first_repeat(sections: Seq<SpecSection>, i: int) -> Option<int>
    decreases sections.len() - i,
{
    if i < 0 || i >= sections.len() {
        None
    } else if repeats_name(sections, i) {
        Some(i)
    } else {
        first_repeat(sections, i + 1)
    }
}

/// A request: lines of blanks and comments, blanks, the method, blanks, the url and the
/// end of the line; then headers, sections and an optional body. Two sections with
/// one name are an error at the second.
pub open spec fn spec_request(s: Seq<char>, c: int) -> Outcome<SpecRequest> {
    match spec_optional_line_terminators(s, c) {
        (Err(e), c1) => (Err(e), c1),
        (Ok(line_terminators), c1) => {
            let c2 = spaces_end(s, c1);
            match spec_method(s, c2) {
                (Err(e), c3) => (Err(e), c3),
                (Ok(method), c3) => match spec_one_or_more_spaces(s, c3) {
                    (Err(e), c4) => (Err(e), c4),
                    (Ok(space1), c4) => match spec_url(s, c4) {
                        (Err(e), c5) => (Err(e), c5),
                        (Ok(url), c5) => match spec_line_terminator(s, c5) {
                            (Err(e), c6) => (Err(e), c6),
                            (Ok(line_terminator0), c6) => match spec_key_values(s, c6) {
                                (Err(e), c7) => (Err(e), c7),
                                (Ok(headers), c7) => match spec_request_sections(s, c7) {
                                    (Err(e), c8) => (Err(e), c8),
                                    (Ok(sections), c8) => match optional(spec_body(s, c8), c8) {
                                        (Err(e), c9) => (Err(e), c9),
                                        (Ok(body), c9) => match first_repeat(sections, 0) {
                                            Some(i) => (
                                                Err(SpecError {
                                                    pos: sections[i].source_info.start,
                                                    recoverable: false,
                                                    inner: SpecParseError::DuplicateSection,
                                                }),
                                                c9,
                                            ),
                                            None => (
                                                Ok(SpecRequest {
                                                    line_terminators,
                                                    space0: blank(s, c1, c2),
                                                    method,
                                                    space1,
                                                    url,
                                                    line_terminator0,
                                                    headers,
                                                    sections,
                                                    body,
                                                    source_info: span(s, c, c9),
                                                }),
                                                c9,
                                            ),
                                        },
                                    },
                                },
                            },
                        },
                    },
                },
            }
        },
    }
}

/// A response: lines of blanks and comments, blanks, the version, blanks, the status
/// and the end of the line; then headers, sections and an optional body.
pub open spec fn spec_response(s: Seq<char>, c: int) -> Outcome<SpecResponse> {
    match spec_optional_line_terminators(s, c) {
        (Err(e), c1) => (Err(e), c1),
        (Ok(line_terminators), c1) => {
            let c2 = spaces_end(s, c1);
            match spec_version(s, c2) {
                (Err(e), c3) => (Err(e), c3),
                (Ok(version), c3) => match spec_one_or_more_spaces(s, c3) {
                    (Err(e), c4) => (Err(e), c4),
                    (Ok(space1), c4) => match spec_status(s, c4) {
                        (Err(e), c5) => (Err(e), c5),
                        (Ok(status), c5) => match spec_line_terminator(s, c5) {
                            (Err(e), c6) => (Err(e), c6),
                            (Ok(line_terminator0), c6) => match spec_key_values(s, c6) {
                                (Err(e), c7) => (Err(e), c7),
                                (Ok(headers), c7) => match spec_response_sections(s, c7) {
                                    (Err(e), c8) => (Err(e), c8),
                                    (Ok(sections), c8) => match optional(spec_body(s, c8), c8) {
                                        (Err(e), c9) => (Err(e), c9),
                                        (Ok(body), c9) => (
                                            Ok(SpecResponse {
                                                line_terminators,
                                                space0: blank(s, c1, c2),
                                                version,
                                                space1,
                                                status,
                                                line_terminator0,
                                                headers,
                                                sections,
                                                body,
                                                source_info: span(s, c, c9),
                                            }),
                                            c9,
                                        ),
                                    },
                                },
                            },
                        },
                    },
                },
            }
        },
    }
}

/// An entry: a request, and the response it expects when one follows.
pub open spec fn spec_entry(s: Seq<char>, c: int) -> Outcome<SpecEntry> {
    match spec_request(s, c) {
        (Err(e), c1) => (Err(e), c1),
        (Ok(request), c1) => match optional(spec_response(s, c1), c1) {
            (Err(e), c2) => (Err(e), c2),
            (Ok(response), c2) => (Ok(SpecEntry { request, response }), c2),
        },
    }
}

/// Entries, as many as there are, `acc` holding those before `c`.
pub open spec fn spec_entries_from(s: Seq<char>, c: int, acc: Seq<SpecEntry>) -> Outcome<Seq<SpecEntry>>
    decreases s.len() - c,
{
    if c < 0 || c >= s.len() {
        (Ok(acc), c)
    } else {
        match spec_entry(s, c) {
            (Ok(x), c1) => if c < c1 <= s.len() {
                spec_entries_from(s, c1, acc.push(x))
            } else {
                (Ok(acc.push(x)), c1)
            },
            (Err(e), c1) => if e.recoverable {
                (Ok(acc), c)
            } else {
                (Err(e), c1)
            },
        }
    }
}

/// A Hurl file: entries, lines of blanks and comments, and the end of the text.
pub open spec fn spec_hurl_file(s: Seq<char>, c: int) -> Outcome<SpecHurlFile> {
    match spec_entries_from(s, c, Seq::empty()) {
        (Err(e), c1) => (Err(e), c1),
        (Ok(entries), c1) => match spec_optional_line_terminators(s, c1) {
            (Err(e), c2) => (Err(e), c2),
            (Ok(line_terminators), c2) => match spec_eof(s, c2) {
                (Err(e), c3) => (Err(e), c3),
                (Ok(_), c3) => (Ok(SpecHurlFile { entries, line_terminators }), c3),
            },
        },
    }
}

proof fn lemma_section_names_differ()
    ensures
        "QueryStringParams"@ != "BasicAuth"@,
        "QueryStringParams"@ != "FormParams"@,
        "QueryStringParams"@ != "MultipartFormData"@,
        "QueryStringParams"@ != "Cookies"@,
        "BasicAuth"@ != "FormParams"@,
        "BasicAuth"@ != "MultipartFormData"@,
        "BasicAuth"@ != "Cookies"@,
        "FormParams"@ != "MultipartFormData"@,
        "FormParams"@ != "Cookies"@,
        "MultipartFormData"@ != "Cookies"@,
        "Captures"@ != "QueryStringParams"@,
        "Captures"@ != "BasicAuth"@,
        "Captures"@ != "FormParams"@,
        "Captures"@ != "MultipartFormData"@,
        "Captures"@ != "Cookies"@,
        "Asserts"@ != "QueryStringParams"@,
        "Asserts"@ != "BasicAuth"@,
        "Asserts"@ != "FormParams"@,
        "Asserts"@ != "MultipartFormData"@,
        "Asserts"@ != "Cookies"@,
        "Asserts"@ != "Captures"@,
{
    reveal_strlit("QueryStringParams");
    reveal_strlit("BasicAuth");
    reveal_strlit("FormParams");
    reveal_strlit("MultipartFormData");
    reveal_strlit("Cookies");
    reveal_strlit("Captures");
    reveal_strlit("Asserts");
    assert("Captures"@[1] == 'a');
    assert("Cookies"@[1] == 'o');
    assert("QueryStringParams"@[0] == 'Q');
    assert("BasicAuth"@[0] == 'B');
    assert("FormParams"@[0] == 'F');
    assert("MultipartFormData"@[0] == 'M');
    assert("Cookies"@[0] == 'C');
}

/// The first section that repeats the name of an earlier one, if any.
fn find_repeat(sections: &Vec<Section>) -> (r: Option<usize>)
    ensures
        match r {
            Some(i) => first_repeat(views(sections@), 0) == Some(i as int) && i < sections.len(),
            None => first_repeat(views(sections@), 0) is None,
        },
{
    let ghost v = views(sections@);
    proof {
        lemma_section_names_differ();
    }
    let mut i: usize = 0;
    while i < sections.len()
        invariant
            v == views(sections@),
            i <= sections.len(),
            first_repeat(v, 0) == first_repeat(v, i as int),
        decreases sections.len() - i,
    {
        let k = sections[i].value.kind();
        let mut j: usize = 0;
        while j < i
            invariant
                v == views(sections@),
                i < sections.len(),
                j <= i,
                first_repeat(v, 0) == first_repeat(v, i as int),
                k == crate::ast::spec_section_kind(v[i as int].value),
                forall|m: int| 0 <= m < j ==> spec_section_name(#[trigger] v[m].value) != spec_section_name(v[i as int].value),
            decreases i - j,
        {
            proof {
                lemma_section_names_differ();
            }
            if sections[j].value.kind() == k {
                proof {
                    assert(spec_section_name(v[j as int].value) == spec_section_name(v[i as int].value));
                    assert(repeats_name(v, i as int));
                }
                return Some(i);
            }
            j += 1;
        }
        proof {
            assert(!repeats_name(v, i as int));
        }
        i += 1;
    }
    None
}

pub fn request(reader: &mut Reader) -> (res: ParseResult<Request>)
    requires
        old(reader).wf(),
    ensures
        follows(*old(reader), *final(reader), res, spec_request(old(reader).text(), old(reader).at())),
        res is Ok ==> old(reader).at() < final(reader).at(),
{
    let start = reader.state;
    let line_terminators = optional_line_terminators(reader)?;
    let space0 = zero_or_more_spaces(reader)?;
    let m = method(reader)?;
    let space1 = one_or_more_spaces(reader)?;
    let u = url(reader)?;
    let line_terminator0 = line_terminator(reader)?;
    let headers = zero_or_more_key_values(reader)?;
    let sections = request_sections(reader)?;
    let save = reader.state;
    let b = match body(reader) {
        Ok(b) => Some(b),
        Err(e) => {
            if e.recoverable {
                reader.restore(save);
                None
            } else {
                return Err(e);
            }
        },
    };
    let source_info = SourceInfo { start: start.pos, end: reader.state.pos };
    match find_repeat(&sections) {
        Some(i) => {
            return Err(Error { pos: sections[i].source_info.start, recoverable: false, inner: ParseError::DuplicateSection });
        },
        None => {},
    }
    Ok(Request {
        line_terminators,
        space0,
        method: m,
        space1,
        url: u,
        line_terminator0,
        headers,
        sections,
        body: b,
        source_info,
    })
}

pub fn response(reader: &mut Reader) -> (res: ParseResult<Response>)
    requires
        old(reader).wf(),
    ensures
        follows(*old(reader), *final(reader), res, spec_response(old(reader).text(), old(reader).at())),
{
    let start = reader.state;
    let line_terminators = optional_line_terminators(reader)?;
    let space0 = zero_or_more_spaces(reader)?;
    let version = version(reader)?;
    let space1 = one_or_more_spaces(reader)?;
    let status = status(reader)?;
    let line_terminator0 = line_terminator(reader)?;
    let headers = zero_or_more_key_values(reader)?;
    let sections = response_sections(reader)?;
    let save = reader.state;
    let b = match body(reader) {
        Ok(b) => Some(b),
        Err(e) => {
            if e.recoverable {
                reader.restore(save);
                None
            } else {
                return Err(e);
            }
        },
    };
    Ok(Response {
        line_terminators,
        space0,
        version,
        space1,
        status,
        line_terminator0,
        headers,
        sections,
        body: b,
        source_info: SourceInfo { start: start.pos, end: reader.state.pos },
    })
}

pub fn entry(reader: &mut Reader) -> (res: ParseResult<Entry>)
    requires
        old(reader).wf(),
    ensures
        follows(*old(reader), *final(reader), res, spec_entry(old(reader).text(), old(reader).at())),
        res is Ok ==> old(reader).at() < final(reader).at(),
{
    let req = request(reader)?;
    let save = reader.state;
    let resp = match response(reader) {
        Ok(r) => Some(r),
        Err(e) => {
            if e.recoverable {
                reader.restore(save);
                None
            } else {
                return Err(e);
            }
        },
    };
    Ok(Entry { request: req, response: resp })
}

pub fn hurl_file(reader: &mut Reader) -> (res: ParseResult<HurlFile>)
    requires
        old(reader).wf(),
    ensures
        follows(*old(reader), *final(reader), res, spec_hurl_file(old(reader).text(), old(reader).at())),
        res is Ok ==> final(reader).at() == final(reader).text().len(),
{
    let ghost s = reader.text();
    let ghost c = reader.at();
    let mut entries: Vec<Entry> = Vec::new();
    proof {
        assert(views(entries@) =~= Seq::<SpecEntry>::empty());
    }
    loop
        invariant
            reader.wf(),
            reader.text() == s,
            s == old(reader).text(),
            c == old(reader).at(),
            0 <= c <= reader.at() <= s.len(),
            spec_entries_from(s, c, Seq::empty()) == spec_entries_from(s, reader.at(), views(entries@)),
        ensures
            reader.wf(),
            reader.text() == s,
            c <= reader.at(),
            spec_entries_from(s, c, Seq::empty()) == (Ok::<Seq<SpecEntry>, SpecError>(views(entries@)), reader.at()),
        decreases s.len() - reader.at(),
    {
        if reader.is_eof() {
            break;
        }
        let save = reader.state;
        match entry(reader) {
            Ok(e) => {
                proof {
                    lemma_views_push(entries@, e);
                }
                entries.push(e);
            },
            Err(e) => {
                if e.recoverable {
                    reader.restore(save);
                    break;
                } else {
                    return Err(e);
                }
            },
        }
    }
    let line_terminators = optional_line_terminators(reader)?;
    eof(reader)?;
    Ok(HurlFile { entries, line_terminators })
}

pub fn body(reader: &mut Reader) -> (res: ParseResult<Body>)
    requires
        old(reader).wf(),
    ensures
        follows(*old(reader), *final(reader), res, spec_body(old(reader).text(), old(reader).at())),
{
    let line_terminators = optional_line_terminators(reader)?;
    let space0 = zero_or_more_spaces(reader)?;
    let value = bytes(reader)?;
    let line_terminator0 = line_terminator(reader)?;
    Ok(Body { line_terminators, space0, value, line_terminator0 })
}

} // verus!
