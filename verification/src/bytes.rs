//! The content of a body: a multiline string between backquotes, JSON, base64 text,
//! or the name of a file.

use crate::ast::{
    Bytes, Filename, SourceInfo, SpecBytes, SpecFilename, SpecTemplate, Template, Whitespace,
};
use crate::base64;
use crate::base64::{base64_end, decode, sextets, text_end};
use crate::error::{Error, Outcome, ParseError, ParseResult, SpecParseError};
use crate::json;
use crate::json::spec_json_value;
use crate::keyvalue::{lemma_template_from_forward, template_elements, template_from};
use crate::primitives::{
    lemma_run_end, literal, newline, run_end, spaces_end, spec_literal, spec_newline, spec_try_literal,
    starts_with, try_literal, zero_or_more_spaces,
};
use crate::reader::{blank, fail, follows, span, Reader};
use crate::text::{is_alphanumeric, spec_is_alphanumeric, string_of};
use vstd::prelude::*;

verus! {

/// The first index from `i` where ```` ``` ```` stands, or the end of the text.
pub open spec fn raw_end(s: Seq<char>, i: int) -> int
    decreases s.len() - i,
{
    if i < 0 || i >= s.len() || starts_with(s, i, "```"@) {
        i
    } else {
        raw_end(s, i + 1)
    }
}

pub proof fn lemma_raw_end(s: Seq<char>, i: int)
    requires
        0 <= i <= s.len(),
    ensures
        i <= raw_end(s, i) <= s.len(),
    decreases s.len() - i,
{
    if i < s.len() && !starts_with(s, i, "```"@) {
        lemma_raw_end(s, i + 1);
    }
}

/// ```` ``` ````, an optional newline, a template up to the next ```` ``` ````, and that
/// ```` ``` ````. A missing opening is recoverable; a missing closing is not.
pub open spec fn spec_raw_string(s: Seq<char>, c: int) -> Outcome<SpecBytes> {
    if !starts_with(s, c, "```"@) {
        (Err(fail(s, c, true, crate::error::SpecParseError::Expecting { value: "```"@ })), c)
    } else {
        let c1 = c + "```"@.len();
        let newline0 = match spec_newline(s, c1) {
            (Ok(nl), _) => nl,
            (Err(_), _) => blank(s, c1, c1),
        };
        let b = match spec_newline(s, c1) {
            (Ok(_), c2) => c2,
            (Err(_), _) => c1,
        };
        match template_from(s, raw_end(s, b), b, b, Seq::empty()) {
            (Err(er), c3) => (Err(er), c3),
            (Ok(elements), c3) => match crate::primitives::spec_literal("```"@, s, c3) {
                (Err(er), c4) => (Err(er), c4),
                (Ok(_), c4) => (
                    Ok(SpecBytes::RawString {
                        newline0,
                        value: SpecTemplate { quotes: false, elements, source_info: span(s, b, c3) },
                    }),
                    c4,
                ),
            },
        }
    }
}

/// `o`, or `other` when `o` failed with a recoverable error.
pub open spec fn or_else<T>(o: Outcome<T>, other: Outcome<T>) -> Outcome<T> {
    match o {
        (Err(e), _) => if e.recoverable {
            other
        } else {
            o
        },
        _ => o,
    }
}

/// A JSON value, as the content of a body.
pub open spec fn spec_json_bytes(s: Seq<char>, c: int) -> Outcome<SpecBytes> {
    match spec_json_value(s, c) {
        (Ok(v), c1) => (Ok(SpecBytes::Json { value: v }), c1),
        (Err(e), c1) => (Err(e), c1),
    }
}

/// `base64,`, blanks, base64 text, blanks and `;`. A missing `base64,` is recoverable;
/// a missing `;` is not. The value is the bytes the digits stand for; `encoded` is the
/// base64 text as written.
pub open spec fn spec_base64_bytes(s: Seq<char>, c: int) -> Outcome<SpecBytes> {
    match spec_try_literal("base64,"@, s, c) {
        (Err(e), c1) => (Err(e), c1),
        (Ok(_), c1) => {
            let c2 = spaces_end(s, c1);
            let c3 = base64_end(s, c2);
            let c4 = spaces_end(s, c3);
            match spec_literal(";"@, s, c4) {
                (Err(e), c5) => (Err(e), c5),
                (Ok(_), c5) => (
                    Ok(SpecBytes::Base64 {
                        space0: blank(s, c1, c2),
                        value: decode(sextets(s, c2, text_end(s, c2))),
                        encoded: s.subrange(c2, c3),
                        space1: blank(s, c3, c4),
                    }),
                    c5,
                ),
            }
        },
    }
}

/// A character that a file name may hold.
pub open spec fn is_filename_char(ch: char) -> bool {
    spec_is_alphanumeric(ch) || ch == '.' || ch == '/' || ch == '_' || ch == '-'
}

/// A file name: letters, digits, `.`, `/`, `_` and `-`; an empty one is an
/// unrecoverable error.
pub open spec fn spec_filename(s: Seq<char>, c: int) -> Outcome<SpecFilename> {
    let e = run_end(s, c, |ch: char| is_filename_char(ch));
    if e == c {
        (Err(fail(s, c, false, SpecParseError::Filename)), c)
    } else {
        (Ok(SpecFilename { value: s.subrange(c, e), source_info: span(s, c, e) }), e)
    }
}

/// `file,`, blanks, a file name, blanks and `;`. A missing `file,` is recoverable.
pub open spec fn spec_file_bytes(s: Seq<char>, c: int) -> Outcome<SpecBytes> {
    match spec_try_literal("file,"@, s, c) {
        (Err(e), c1) => (Err(e), c1),
        (Ok(_), c1) => {
            let c2 = spaces_end(s, c1);
            match spec_filename(s, c2) {
                (Err(e), c3) => (Err(e), c3),
                (Ok(filename), c3) => {
                    let c4 = spaces_end(s, c3);
                    match spec_literal(";"@, s, c4) {
                        (Err(e), c5) => (Err(e), c5),
                        (Ok(_), c5) => (
                            Ok(SpecBytes::File { space0: blank(s, c1, c2), filename, space1: blank(s, c3, c4) }),
                            c5,
                        ),
                    }
                },
            }
        },
    }
}

/// The content of a body: the first of a multiline string, JSON, base64 text and a
/// file that does not fail with a recoverable error; the error of the last otherwise.
pub open spec fn spec_bytes(s: Seq<char>, c: int) -> Outcome<SpecBytes> {
    or_else(
        spec_raw_string(s, c),
        or_else(spec_json_bytes(s, c), or_else(spec_base64_bytes(s, c), spec_file_bytes(s, c))),
    )
}

pub fn raw_string(reader: &mut Reader) -> (res: ParseResult<Bytes>)
    requires
        old(reader).wf(),
    ensures
        follows(*old(reader), *final(reader), res, spec_raw_string(old(reader).text(), old(reader).at())),
{
    let ghost s = reader.text();
    let ghost c = reader.at();
    proof {
        reveal_strlit("```");
    }
    try_literal("```", reader)?;
    let save = reader.state;
    let newline0 = match newline(reader) {
        Ok(nl) => nl,
        Err(_) => {
            reader.restore(save);
            proof {
                assert(s.subrange(save.cursor as int, save.cursor as int) =~= Seq::<char>::empty());
            }
            Whitespace { value: String::new(), source_info: SourceInfo { start: save.pos, end: save.pos } }
        },
    };
    let start = reader.state;
    let n = reader.buffer.len();
    let mut e = start.cursor;
    proof {
        lemma_raw_end(s, e as int);
    }
    while e < n && !(e + 2 < n && reader.buffer[e] == '`' && reader.buffer[e + 1] == '`' && reader.buffer[e + 2] == '`')
        invariant
            reader.wf(),
            reader.text() == s,
            n == s.len(),
            start.cursor <= e <= n,
            raw_end(s, start.cursor as int) == raw_end(s, e as int),
        decreases n - e,
    {
        proof {
            reveal_strlit("```");
            if starts_with(s, e as int, "```"@) {
                assert(s.subrange(e as int, e + 3)[0] == s[e as int]);
                assert(s.subrange(e as int, e + 3)[1] == s[e + 1]);
                assert(s.subrange(e as int, e + 3)[2] == s[e + 2]);
            }
        }
        e += 1;
    }
    proof {
        if e < n {
            assert(s.subrange(e as int, e + 3) =~= "```"@);
        }
    }
    let elements = template_elements(reader, e)?;
    proof {
        lemma_template_from_forward(s, e as int, start.cursor as int, start.cursor as int, Seq::empty());
    }
    let end = reader.state;
    literal("```", reader)?;
    Ok(Bytes::RawString {
        newline0,
        value: Template { quotes: false, elements, source_info: SourceInfo { start: start.pos, end: end.pos } },
    })
}

pub fn json_bytes(reader: &mut Reader) -> (res: ParseResult<Bytes>)
    requires
        old(reader).wf(),
    ensures
        follows(*old(reader), *final(reader), res, spec_json_bytes(old(reader).text(), old(reader).at())),
{
    match json::parse(reader) {
        Ok(value) => Ok(Bytes::Json { value }),
        Err(e) => Err(e),
    }
}

pub fn base64_bytes(reader: &mut Reader) -> (res: ParseResult<Bytes>)
    requires
        old(reader).wf(),
    ensures
        follows(*old(reader), *final(reader), res, spec_base64_bytes(old(reader).text(), old(reader).at())),
{
    proof {
        reveal_strlit("base64,");
    }
    try_literal("base64,", reader)?;
    let space0 = zero_or_more_spaces(reader)?;
    let save = reader.state;
    proof {
        let s = reader.text();
        let c2 = reader.at();
        lemma_run_end(s, c2, |ch: char| base64::is_base64_char(ch));
        lemma_run_end(s, text_end(s, c2), |ch: char| ch == '=');
    }
    let value = base64::parse(reader);
    let encoded = string_of(&reader.buffer, save.cursor, reader.state.cursor);
    let space1 = zero_or_more_spaces(reader)?;
    literal(";", reader)?;
    Ok(Bytes::Base64 { space0, value, encoded, space1 })
}

fn filename_char(ch: char) -> (b: bool)
    ensures
        b == is_filename_char(ch),
{
    is_alphanumeric(ch) || ch == '.' || ch == '/' || ch == '_' || ch == '-'
}

pub fn filename(reader: &mut Reader) -> (res: ParseResult<Filename>)
    requires
        old(reader).wf(),
    ensures
        follows(*old(reader), *final(reader), res, spec_filename(old(reader).text(), old(reader).at())),
{
    let ghost s = reader.text();
    let ghost c = reader.at();
    let ghost e = run_end(s, c, |ch: char| is_filename_char(ch));
    let start = reader.state;
    proof {
        lemma_run_end(s, c, |ch: char| is_filename_char(ch));
    }
    loop
        invariant
            reader.wf(),
            reader.text() == s,
            c <= reader.at() <= e <= s.len(),
            forall|k: int| c <= k < e ==> is_filename_char(#[trigger] s[k]),
            e < s.len() ==> !is_filename_char(s[e]),
        ensures
            reader.wf(),
            reader.text() == s,
            reader.at() == e,
        decreases s.len() - reader.at(),
    {
        let go = match reader.peek() {
            Some(ch) => filename_char(ch),
            None => false,
        };
        if !go {
            proof {
                if reader.at() < e {
                    assert(is_filename_char(s[reader.at()]));
                }
            }
            break;
        }
        reader.read();
    }
    if reader.state.cursor == start.cursor {
        return Err(Error { pos: start.pos, recoverable: false, inner: ParseError::Filename {} });
    }
    let value = string_of(&reader.buffer, start.cursor, reader.state.cursor);
    Ok(Filename { value, source_info: SourceInfo { start: start.pos, end: reader.state.pos } })
}

pub fn file_bytes(reader: &mut Reader) -> (res: ParseResult<Bytes>)
    requires
        old(reader).wf(),
    ensures
        follows(*old(reader), *final(reader), res, spec_file_bytes(old(reader).text(), old(reader).at())),
{
    proof {
        reveal_strlit("file,");
    }
    try_literal("file,", reader)?;
    let space0 = zero_or_more_spaces(reader)?;
    let filename = filename(reader)?;
    let space1 = zero_or_more_spaces(reader)?;
    literal(";", reader)?;
    Ok(Bytes::File { space0, filename, space1 })
}

pub fn bytes(reader: &mut Reader) -> (res: ParseResult<Bytes>)
    requires
        old(reader).wf(),
    ensures
        follows(*old(reader), *final(reader), res, spec_bytes(old(reader).text(), old(reader).at())),
{
    let start = reader.state;
    match raw_string(reader) {
        Err(e) => {
            if !e.recoverable {
                return Err(e);
            }
        },
        Ok(b) => {
            return Ok(b);
        },
    }
    reader.restore(start);
    match json_bytes(reader) {
        Err(e) => {
            if !e.recoverable {
                return Err(e);
            }
        },
        Ok(b) => {
            return Ok(b);
        },
    }
    reader.restore(start);
    match base64_bytes(reader) {
        Err(e) => {
            if !e.recoverable {
                return Err(e);
            }
        },
        Ok(b) => {
            return Ok(b);
        },
    }
    reader.restore(start);
    file_bytes(reader)
}

} // verus!
