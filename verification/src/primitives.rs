//! Tokens: literals, blanks, newlines, comments, line ends, natural numbers.

use crate::ast::{
    Comment, LineTerminator, SourceInfo, SpecLineTerminator, Whitespace, lemma_views_push, views,
};
use crate::error::{Error, Outcome, ParseError, ParseResult, SpecError, SpecParseError};
use crate::reader::{blank, fail, follows, follows_all, pos_at, Reader};
use crate::text::{is_digit, is_space, string_from, string_of};
use vstd::prelude::*;

verus! {

/// The first `k >= from` at which `s[c + k]` and `lit[k]` differ, or the length of `lit`.
pub open spec fn mismatch(s: Seq<char>, c: int, lit: Seq<char>, from: int) -> int
    decreases lit.len() - from,
{
    if from >= lit.len() {
        lit.len() as int
    } else if s[c + from] != lit[from] {
        from
    } else {
        mismatch(s, c, lit, from + 1)
    }
}

/// `lit` read at `c`. On a mismatch the cursor stands after the first character that
/// differs; when too few characters are left it does not move. The error is never
/// recoverable.
pub open spec fn spec_literal(lit: Seq<char>, s: Seq<char>, c: int) -> Outcome<()> {
    let err = fail(s, c, false, SpecParseError::Expecting { value: lit });
    if s.len() - c < lit.len() {
        (Err(err), c)
    } else if s.subrange(c, c + lit.len()) == lit {
        (Ok(()), c + lit.len())
    } else {
        (Err(err), c + mismatch(s, c, lit, 0) + 1)
    }
}

/// `lit` read at `c`; when it is not there the cursor does not move and the error
/// is recoverable.
pub open spec fn spec_try_literal(lit: Seq<char>, s: Seq<char>, c: int) -> Outcome<()> {
    if s.len() - c >= lit.len() && s.subrange(c, c + lit.len()) == lit {
        (Ok(()), c + lit.len())
    } else {
        (Err(fail(s, c, true, SpecParseError::Expecting { value: lit })), c)
    }
}

proof fn lemma_mismatch_skip(s: Seq<char>, c: int, lit: Seq<char>, i: int)
    requires
        0 <= i <= lit.len(),
        forall|k: int| 0 <= k < i ==> s[c + k] == lit[k],
    ensures
        mismatch(s, c, lit, 0) == mismatch(s, c, lit, i),
    decreases i,
{
    if i > 0 {
        lemma_mismatch_skip(s, c, lit, i - 1);
    }
}

pub fn literal(lit: &str, reader: &mut Reader) -> (res: ParseResult<()>)
    requires
        old(reader).wf(),
    ensures
        follows(*old(reader), *final(reader), res, spec_literal(lit@, old(reader).text(), old(reader).at())),
{
    let ghost s = reader.text();
    let ghost c = reader.at();
    let start = reader.state;
    let n = lit.unicode_len();
    if reader.buffer.len() - reader.state.cursor < n {
        return Err(Error { pos: start.pos, recoverable: false, inner: ParseError::Expecting { value: string_from(lit) } });
    }
    let mut i: usize = 0;
    while i < n
        invariant
            reader.wf(),
            reader.text() == s,
            s == old(reader).text(),
            c == old(reader).at(),
            s.len() - c >= n,
            n == lit@.len(),
            0 <= c,
            start.pos == pos_at(s, c),
            i <= n,
            reader.at() == c + i,
            forall|k: int| 0 <= k < i ==> s[c + k] == lit@[k],
        decreases n - i,
    {
        let expected = lit.get_char(i);
        let got = reader.read();
        match got {
            None => {
                return Err(Error { pos: start.pos, recoverable: false, inner: ParseError::Expecting { value: string_from(lit) } });
            },
            Some(x) => {
                if x != expected {
                    proof {
                        lemma_mismatch_skip(s, c, lit@, i as int);
                        assert(mismatch(s, c, lit@, i as int) == i);
                        assert(s.subrange(c, c + lit@.len())[i as int] != lit@[i as int]);
                    }
                    return Err(Error { pos: start.pos, recoverable: false, inner: ParseError::Expecting { value: string_from(lit) } });
                }
            },
        }
        i += 1;
    }
    assert(s.subrange(c, c + lit@.len()) == lit@);
    Ok(())
}

pub proof fn lemma_literal_forward(lit: Seq<char>, s: Seq<char>, c: int)
    requires
        0 <= c <= s.len(),
    ensures
        c <= spec_literal(lit, s, c).1 <= s.len(),
        spec_literal(lit, s, c).0 is Ok ==> spec_literal(lit, s, c).1 == c + lit.len(),
{
    if s.len() - c >= lit.len() && s.subrange(c, c + lit.len()) != lit {
        lemma_mismatch_bound(s, c, lit, 0);
        if mismatch(s, c, lit, 0) == lit.len() {
            assert(s.subrange(c, c + lit.len()) =~= lit);
        }
    }
}

proof fn lemma_mismatch_bound(s: Seq<char>, c: int, lit: Seq<char>, k: int)
    requires
        0 <= k <= lit.len(),
    ensures
        k <= mismatch(s, c, lit, k) <= lit.len(),
        mismatch(s, c, lit, k) == lit.len() ==> forall|j: int| k <= j < lit.len() ==> s[c + j] == lit[j],
    decreases lit.len() - k,
{
    if k < lit.len() && s[c + k] == lit[k] {
        lemma_mismatch_bound(s, c, lit, k + 1);
    }
}

pub fn try_literal(lit: &str, reader: &mut Reader) -> (res: ParseResult<()>)
    requires
        old(reader).wf(),
    ensures
        follows(*old(reader), *final(reader), res, spec_try_literal(lit@, old(reader).text(), old(reader).at())),
{
    let save = reader.state;
    match literal(lit, reader) {
        Ok(_) => Ok(()),
        Err(_) => {
            reader.restore(save);
            Err(Error { pos: reader.state.pos, recoverable: true, inner: ParseError::Expecting { value: string_from(lit) } })
        },
    }
}


/// The end of the run of characters satisfying `p` that starts at `c`.
pub open spec fn run_end(s: Seq<char>, c: int, p: spec_fn(char) -> bool) -> int
    decreases s.len() - c,
{
    if 0 <= c < s.len() && p(s[c]) {
        run_end(s, c + 1, p)
    } else {
        c
    }
}

pub proof fn lemma_run_end(s: Seq<char>, c: int, p: spec_fn(char) -> bool)
    requires
        0 <= c <= s.len(),
    ensures
        c <= run_end(s, c, p) <= s.len(),
        forall|k: int| c <= k < run_end(s, c, p) ==> p(#[trigger] s[k]),
        run_end(s, c, p) < s.len() ==> !p(s[run_end(s, c, p)]),
    decreases s.len() - c,
{
    if c < s.len() && p(s[c]) {
        lemma_run_end(s, c + 1, p);
    }
}

/// The end of the blanks that start at `c`.
pub open spec fn spaces_end(s: Seq<char>, c: int) -> int {
    run_end(s, c, |ch: char| is_space(ch))
}

/// The end of the digits that start at `c`.
pub open spec fn digits_end(s: Seq<char>, c: int) -> int {
    run_end(s, c, |ch: char| is_digit(ch))
}

/// Whether a newline (`\n`, or `\r\n`) starts at `i`.
pub open spec fn newline_at(s: Seq<char>, i: int) -> bool {
    ||| 0 <= i < s.len() && s[i] == '\n'
    ||| 0 <= i && i + 1 < s.len() && s[i] == '\r' && s[i + 1] == '\n'
}

/// The end of a comment's text: the first newline from `i`, or the end of the text.
pub open spec fn comment_end(s: Seq<char>, i: int) -> int
    decreases s.len() - i,
{
    if i < 0 || i >= s.len() || newline_at(s, i) {
        i
    } else {
        comment_end(s, i + 1)
    }
}

pub proof fn lemma_comment_end(s: Seq<char>, i: int)
    requires
        0 <= i <= s.len(),
    ensures
        i <= comment_end(s, i) <= s.len(),
        comment_end(s, i) < s.len() ==> newline_at(s, comment_end(s, i)),
    decreases s.len() - i,
{
    if i < s.len() && !newline_at(s, i) {
        lemma_comment_end(s, i + 1);
    }
}

/// Blanks, possibly none.
pub open spec fn spec_zero_or_more_spaces(s: Seq<char>, c: int) -> Outcome<crate::ast::SpecWhitespace> {
    (Ok(blank(s, c, spaces_end(s, c))), spaces_end(s, c))
}

/// At least one blank; otherwise an unrecoverable error, after reading the character
/// that is not a blank.
pub open spec fn spec_one_or_more_spaces(s: Seq<char>, c: int) -> Outcome<crate::ast::SpecWhitespace> {
    if c < s.len() && is_space(s[c]) {
        spec_zero_or_more_spaces(s, c)
    } else {
        (Err(fail(s, c, false, SpecParseError::Space)), if c < s.len() { c + 1 } else { c })
    }
}

/// A newline, `\r\n` or `\n`.
pub open spec fn spec_newline(s: Seq<char>, c: int) -> Outcome<crate::ast::SpecWhitespace> {
    if c + 1 < s.len() && s[c] == '\r' && s[c + 1] == '\n' {
        (Ok(blank(s, c, c + 2)), c + 2)
    } else if c < s.len() && s[c] == '\n' {
        (Ok(blank(s, c, c + 1)), c + 1)
    } else {
        (
            Err(fail(s, c, false, SpecParseError::Expecting { value: "newline"@ })),
            if c < s.len() { c + 1 } else { c },
        )
    }
}

/// A comment: `#` and the rest of the line.
pub open spec fn spec_comment(s: Seq<char>, c: int) -> Outcome<Seq<char>> {
    if c < s.len() && s[c] == '#' {
        (Ok(s.subrange(c + 1, comment_end(s, c + 1))), comment_end(s, c + 1))
    } else {
        (Err(fail(s, c, true, SpecParseError::Expecting { value: "#"@ })), c)
    }
}

/// The end of a line: blanks, an optional comment, and a newline or the end of the text.
pub open spec fn spec_line_terminator(s: Seq<char>, c: int) -> Outcome<SpecLineTerminator> {
    let c1 = spaces_end(s, c);
    let comment = if c1 < s.len() && s[c1] == '#' {
        Some(s.subrange(c1 + 1, comment_end(s, c1 + 1)))
    } else {
        None::<Seq<char>>
    };
    let c2 = if c1 < s.len() && s[c1] == '#' { comment_end(s, c1 + 1) } else { c1 };
    if c2 >= s.len() {
        (Ok(SpecLineTerminator { space0: blank(s, c, c1), comment, newline: blank(s, c2, c2) }), c2)
    } else {
        match spec_newline(s, c2) {
            (Ok(nl), c3) => (Ok(SpecLineTerminator { space0: blank(s, c, c1), comment, newline: nl }), c3),
            (Err(_), c3) => (
                Err(fail(s, c2, false, SpecParseError::Expecting { value: "line_terminator"@ })),
                c3,
            ),
        }
    }
}

pub proof fn lemma_line_terminator_forward(s: Seq<char>, c: int)
    requires
        0 <= c <= s.len(),
    ensures
        spec_line_terminator(s, c).0 is Ok && c < s.len() ==> c < spec_line_terminator(s, c).1 <= s.len(),
        c <= spec_line_terminator(s, c).1 <= s.len(),
{
    lemma_run_end(s, c, |ch: char| is_space(ch));
    let c1 = spaces_end(s, c);
    if c1 < s.len() && s[c1] == '#' {
        lemma_comment_end(s, c1 + 1);
    }
}

/// Lines holding nothing but blanks and comments, as many as there are.
pub open spec fn spec_line_terminators_from(s: Seq<char>, c: int, acc: Seq<SpecLineTerminator>) -> Outcome<Seq<SpecLineTerminator>>
    decreases s.len() - c,
{
    if c < 0 || c >= s.len() {
        (Ok(acc), c)
    } else {
        match spec_line_terminator(s, c) {
            (Ok(lt), c1) => if c < c1 <= s.len() {
                spec_line_terminators_from(s, c1, acc.push(lt))
            } else {
                (Ok(acc.push(lt)), c1)
            },
            (Err(_), _) => (Ok(acc), c),
        }
    }
}

pub open spec fn spec_optional_line_terminators(s: Seq<char>, c: int) -> Outcome<Seq<SpecLineTerminator>> {
    spec_line_terminators_from(s, c, Seq::empty())
}

pub fn zero_or_more_spaces(reader: &mut Reader) -> (res: ParseResult<Whitespace>)
    requires
        old(reader).wf(),
    ensures
        follows(*old(reader), *final(reader), res, spec_zero_or_more_spaces(old(reader).text(), old(reader).at())),
{
    let ghost s = reader.text();
    let ghost c = reader.at();
    let start = reader.state;
    proof {
        lemma_run_end(s, c, |ch: char| is_space(ch));
    }
    loop
        invariant
            reader.wf(),
            reader.text() == s,
            0 <= c <= reader.at() <= s.len(),
            spaces_end(s, c) == spaces_end(s, reader.at()),
        ensures
            reader.wf(),
            reader.text() == s,
            reader.at() == spaces_end(s, c),
        decreases s.len() - reader.at(),
    {
        match reader.peek() {
            Some(ch) => {
                if ch == ' ' || ch == '\t' {
                    reader.read();
                } else {
                    break;
                }
            },
            None => break,
        }
    }
    let value = string_of(&reader.buffer, start.cursor, reader.state.cursor);
    Ok(Whitespace { value, source_info: SourceInfo { start: start.pos, end: reader.state.pos } })
}

pub fn one_or_more_spaces(reader: &mut Reader) -> (res: ParseResult<Whitespace>)
    requires
        old(reader).wf(),
    ensures
        follows(*old(reader), *final(reader), res, spec_one_or_more_spaces(old(reader).text(), old(reader).at())),
{
    let start = reader.state;
    match reader.peek() {
        Some(ch) => {
            if ch == ' ' || ch == '\t' {
                return zero_or_more_spaces(reader);
            }
            reader.read();
        },
        None => {},
    }
    Err(Error { pos: start.pos, recoverable: false, inner: ParseError::Space {} })
}

pub fn newline(reader: &mut Reader) -> (res: ParseResult<Whitespace>)
    requires
        old(reader).wf(),
    ensures
        follows(*old(reader), *final(reader), res, spec_newline(old(reader).text(), old(reader).at())),
{
    let start = reader.state;
    let n = reader.buffer.len();
    let i = reader.state.cursor;
    if i + 1 < n && reader.buffer[i] == '\r' && reader.buffer[i + 1] == '\n' {
        reader.read();
        reader.read();
        let value = string_of(&reader.buffer, i, i + 2);
        return Ok(Whitespace { value, source_info: SourceInfo { start: start.pos, end: reader.state.pos } });
    }
    match reader.read() {
        Some(ch) => {
            if ch == '\n' {
                let value = string_of(&reader.buffer, i, i + 1);
                return Ok(Whitespace { value, source_info: SourceInfo { start: start.pos, end: reader.state.pos } });
            }
        },
        None => {},
    }
    Err(Error { pos: start.pos, recoverable: false, inner: ParseError::Expecting { value: string_from("newline") } })
}

pub fn comment(reader: &mut Reader) -> (res: ParseResult<Comment>)
    requires
        old(reader).wf(),
    ensures
        follows(*old(reader), *final(reader), res, spec_comment(old(reader).text(), old(reader).at())),
{
    let ghost s = reader.text();
    let ghost c = reader.at();
    proof {
        reveal_strlit("#");
        if c < s.len() {
            assert(s.subrange(c, c + 1)[0] == s[c]);
            if s[c] == '#' {
                assert(s.subrange(c, c + 1) == "#"@);
            }
        }
    }
    try_literal("#", reader)?;
    let from = reader.state.cursor;
    proof {
        lemma_comment_end(s, c + 1);
    }
    loop
        invariant
            reader.wf(),
            reader.text() == s,
            0 <= c + 1 <= reader.at() <= s.len(),
            from == c + 1,
            comment_end(s, c + 1) == comment_end(s, reader.at()),
        ensures
            reader.wf(),
            reader.text() == s,
            reader.at() == comment_end(s, c + 1),
        decreases s.len() - reader.at(),
    {
        let i = reader.state.cursor;
        if i >= reader.buffer.len() {
            break;
        }
        if reader.buffer[i] == '\n' || (i + 1 < reader.buffer.len() && reader.buffer[i] == '\r' && reader.buffer[i + 1] == '\n') {
            break;
        }
        reader.read();
    }
    let value = string_of(&reader.buffer, from, reader.state.cursor);
    Ok(Comment { value })
}

pub fn line_terminator(reader: &mut Reader) -> (res: ParseResult<LineTerminator>)
    requires
        old(reader).wf(),
    ensures
        follows(*old(reader), *final(reader), res, spec_line_terminator(old(reader).text(), old(reader).at())),
{
    let ghost s = reader.text();
    let ghost c = reader.at();
    let space0 = zero_or_more_spaces(reader)?;
    let comment = match reader.peek() {
        Some(ch) => if ch == '#' {
            Some(comment(reader)?)
        } else {
            None
        },
        None => None,
    };
    if reader.is_eof() {
        let newline = Whitespace {
            value: String::new(),
            source_info: SourceInfo { start: reader.state.pos, end: reader.state.pos },
        };
        proof {
            assert(s.subrange(reader.at(), reader.at()) == Seq::<char>::empty());
        }
        return Ok(LineTerminator { space0, comment, newline });
    }
    match newline(reader) {
        Ok(newline) => Ok(LineTerminator { space0, comment, newline }),
        Err(e) => Err(Error { pos: e.pos, recoverable: false, inner: ParseError::Expecting { value: string_from("line_terminator") } }),
    }
}

pub fn optional_line_terminators(reader: &mut Reader) -> (res: ParseResult<Vec<LineTerminator>>)
    requires
        old(reader).wf(),
    ensures
        follows_all(*old(reader), *final(reader), res, spec_optional_line_terminators(old(reader).text(), old(reader).at())),
{
    let ghost s = reader.text();
    let ghost c = reader.at();
    let mut v: Vec<LineTerminator> = Vec::new();
    proof {
        assert(views(v@) == Seq::<SpecLineTerminator>::empty());
    }
    loop
        invariant
            reader.wf(),
            reader.text() == s,
            0 <= c <= reader.at() <= s.len(),
            spec_optional_line_terminators(s, c) == spec_line_terminators_from(s, reader.at(), views(v@)),
        ensures
            reader.wf(),
            reader.text() == s,
            spec_optional_line_terminators(s, c) == (Ok::<Seq<SpecLineTerminator>, SpecError>(views(v@)), reader.at()),
        decreases s.len() - reader.at(),
    {
        if reader.is_eof() {
            break;
        }
        let save = reader.state;
        proof {
            lemma_line_terminator_forward(s, reader.at());
        }
        match line_terminator(reader) {
            Ok(lt) => {
                proof {
                    lemma_views_push(v@, lt);
                }
                v.push(lt);
            },
            Err(_) => {
                reader.restore(save);
                break;
            },
        }
    }
    Ok(v)
}


/// Whether the text at `c` starts with `lit`.
pub open spec fn starts_with(s: Seq<char>, c: int, lit: Seq<char>) -> bool {
    s.len() - c >= lit.len() && s.subrange(c, c + lit.len()) == lit
}

/// The value of a decimal digit.
pub open spec fn digit_value(ch: char) -> int {
    ch as int - '0' as int
}

/// The number the digits `s[a..b]` write.
pub open spec fn digits_value(s: Seq<char>, a: int, b: int) -> int
    decreases b - a,
{
    if b <= a {
        0
    } else {
        digits_value(s, a, b - 1) * 10 + digit_value(s[b - 1])
    }
}

/// A natural number: one digit, or several not starting with `0`. What is not a digit
/// gives a recoverable error (after the character is read); a leading `0` followed by
/// digits, or a number past `u64::MAX`, an unrecoverable one.
pub open spec fn spec_natural(s: Seq<char>, c: int) -> Outcome<u64> {
    let err = SpecParseError::Expecting { value: "natural"@ };
    if c >= s.len() {
        (Err(fail(s, c, true, err)), c)
    } else if !is_digit(s[c]) {
        (Err(fail(s, c, true, err)), c + 1)
    } else {
        let e = digits_end(s, c + 1);
        if s[c] == '0' && e > c + 1 {
            (Err(fail(s, c + 1, false, err)), e)
        } else if digits_value(s, c, e) > u64::MAX {
            (Err(fail(s, c, false, err)), e)
        } else {
            (Ok(digits_value(s, c, e) as u64), e)
        }
    }
}

/// The end of the text.
pub open spec fn spec_eof(s: Seq<char>, c: int) -> Outcome<()> {
    if c >= s.len() {
        (Ok(()), c)
    } else {
        (Err(fail(s, c, false, SpecParseError::Expecting { value: "eof"@ })), c)
    }
}

proof fn lemma_digits_value_grows(s: Seq<char>, a: int, b: int)
    requires
        a < b,
        forall|k: int| a <= k < b ==> is_digit(#[trigger] s[k]),
    ensures
        digits_value(s, a, b) >= digits_value(s, a, b - 1) >= 0,
{
    lemma_digits_value_nonneg(s, a, b - 1);
}

pub proof fn lemma_digits_value_nonneg(s: Seq<char>, a: int, b: int)
    requires
        forall|k: int| a <= k < b ==> is_digit(#[trigger] s[k]),
    ensures
        digits_value(s, a, b) >= 0,
    decreases b - a,
{
    if a < b {
        lemma_digits_value_nonneg(s, a, b - 1);
    }
}

pub fn natural(reader: &mut Reader) -> (res: ParseResult<u64>)
    requires
        old(reader).wf(),
    ensures
        follows(*old(reader), *final(reader), res, spec_natural(old(reader).text(), old(reader).at())),
{
    let ghost s = reader.text();
    let ghost c = reader.at();
    let start = reader.state;
    let first = match reader.read() {
        None => {
            return Err(Error { pos: start.pos, recoverable: true, inner: ParseError::Expecting { value: string_from("natural") } });
        },
        Some(ch) => ch,
    };
    if !(first >= '0' && first <= '9') {
        return Err(Error { pos: start.pos, recoverable: true, inner: ParseError::Expecting { value: string_from("natural") } });
    }
    let save = reader.state;
    let mut value: u64 = (first as u32 - '0' as u32) as u64;
    let mut overflow = false;
    proof {
        lemma_run_end(s, c + 1, |ch: char| is_digit(ch));
        assert(digits_value(s, c, c) == 0);
    }
    loop
        invariant
            reader.wf(),
            reader.text() == s,
            0 <= c < s.len(),
            is_digit(s[c]),
            first == s[c],
            save.cursor == c + 1,
            save.pos == pos_at(s, c + 1),
            c + 1 <= reader.at() <= s.len(),
            digits_end(s, c + 1) == digits_end(s, reader.at()),
            forall|k: int| c <= k < reader.at() ==> is_digit(#[trigger] s[k]),
            !overflow ==> value == digits_value(s, c, reader.at()),
            overflow ==> digits_value(s, c, reader.at()) > u64::MAX,
        ensures
            reader.wf(),
            reader.text() == s,
            reader.at() == digits_end(s, c + 1),
            !overflow ==> value == digits_value(s, c, reader.at()),
            overflow ==> digits_value(s, c, reader.at()) > u64::MAX,
        decreases s.len() - reader.at(),
    {
        let ch = match reader.peek() {
            Some(ch) => ch,
            None => break,
        };
        if !(ch >= '0' && ch <= '9') {
            break;
        }
        reader.read();
        proof {
            lemma_digits_value_grows(s, c, reader.at());
        }
        if !overflow {
            let d = (ch as u32 - '0' as u32) as u64;
            match value.checked_mul(10) {
                Some(v) => match v.checked_add(d) {
                    Some(w) => {
                        value = w;
                    },
                    None => {
                        overflow = true;
                    },
                },
                None => {
                    overflow = true;
                },
            }
        }
    }
    if first == '0' && reader.state.cursor > save.cursor {
        return Err(Error { pos: save.pos, recoverable: false, inner: ParseError::Expecting { value: string_from("natural") } });
    }
    if overflow {
        return Err(Error { pos: start.pos, recoverable: false, inner: ParseError::Expecting { value: string_from("natural") } });
    }
    Ok(value)
}

pub fn eof(reader: &mut Reader) -> (res: ParseResult<()>)
    requires
        old(reader).wf(),
    ensures
        follows(*old(reader), *final(reader), res, spec_eof(old(reader).text(), old(reader).at())),
{
    if reader.is_eof() {
        Ok(())
    } else {
        Err(Error { pos: reader.state.pos, recoverable: false, inner: ParseError::Expecting { value: string_from("eof") } })
    }
}

} // verus!
