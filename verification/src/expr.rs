//! Expressions `{{ name }}` in templates.

use crate::ast::{Expr, SourceInfo, SpecExpr, SpecVariable, Variable};
use crate::error::{Error, Outcome, ParseError, ParseResult, SpecParseError};
use crate::primitives::{
    lemma_literal_forward, lemma_run_end, literal, run_end, spaces_end, spec_literal, spec_try_literal, try_literal,
    zero_or_more_spaces,
};
use crate::reader::{blank, fail, follows, span, Reader};
use crate::text::{is_alphanumeric, is_space, spec_is_alphanumeric, string_of};
use vstd::prelude::*;

verus! {

/// A character that may stand in a variable name.
pub open spec fn is_variable_char(ch: char) -> bool {
    spec_is_alphanumeric(ch) || ch == '_' || ch == '-'
}

/// The end of the variable name that starts at `c`.
pub open spec fn variable_end(s: Seq<char>, c: int) -> int {
    run_end(s, c, |ch: char| is_variable_char(ch))
}

/// A variable name: one or more letters, digits, `_` or `-`.
pub open spec fn spec_variable_name(s: Seq<char>, c: int) -> Outcome<SpecVariable> {
    let e = variable_end(s, c);
    if e == c {
        (Err(fail(s, c, false, SpecParseError::TemplateVariable)), c)
    } else {
        (Ok(SpecVariable { name: s.subrange(c, e), source_info: span(s, c, e) }), e)
    }
}

/// `{{`, blanks, a variable name, blanks, `}}`. Only a missing `{{` is recoverable.
pub open spec fn spec_expr(s: Seq<char>, c: int) -> Outcome<SpecExpr> {
    match spec_try_literal("{{"@, s, c) {
        (Err(e), c1) => (Err(e), c1),
        (Ok(_), c1) => {
            let c2 = spaces_end(s, c1);
            match spec_variable_name(s, c2) {
                (Err(e), c3) => (Err(e), c3),
                (Ok(variable), c3) => {
                    let c4 = spaces_end(s, c3);
                    match spec_literal("}}"@, s, c4) {
                        (Err(e), c5) => (Err(e), c5),
                        (Ok(_), c5) => (
                            Ok(SpecExpr { space0: blank(s, c1, c2), variable, space1: blank(s, c3, c4) }),
                            c5,
                        ),
                    }
                },
            }
        },
    }
}

pub proof fn lemma_expr_forward(s: Seq<char>, c: int)
    requires
        0 <= c <= s.len(),
    ensures
        c <= spec_expr(s, c).1 <= s.len(),
        spec_expr(s, c).0 is Ok ==> c < spec_expr(s, c).1,
{
    reveal_strlit("{{");
    reveal_strlit("}}");
    let c1 = spec_try_literal("{{"@, s, c).1;
    if spec_try_literal("{{"@, s, c).0 is Ok {
        lemma_run_end(s, c1, |ch: char| is_space(ch));
        let c2 = spaces_end(s, c1);
        lemma_run_end(s, c2, |ch: char| is_variable_char(ch));
        let c3 = spec_variable_name(s, c2).1;
        lemma_run_end(s, c3, |ch: char| is_space(ch));
        let c4 = spaces_end(s, c3);
        lemma_literal_forward("}}"@, s, c4);
    }
}

pub fn variable_name(reader: &mut Reader) -> (res: ParseResult<Variable>)
    requires
        old(reader).wf(),
    ensures
        follows(*old(reader), *final(reader), res, spec_variable_name(old(reader).text(), old(reader).at())),
{
    let ghost s = reader.text();
    let ghost c = reader.at();
    let start = reader.state;
    proof {
        lemma_run_end(s, c, |ch: char| is_variable_char(ch));
    }
    loop
        invariant
            reader.wf(),
            reader.text() == s,
            0 <= c <= reader.at() <= s.len(),
            variable_end(s, c) == variable_end(s, reader.at()),
        ensures
            reader.wf(),
            reader.text() == s,
            reader.at() == variable_end(s, c),
        decreases s.len() - reader.at(),
    {
        match reader.peek() {
            Some(ch) => {
                if is_alphanumeric(ch) || ch == '_' || ch == '-' {
                    reader.read();
                } else {
                    break;
                }
            },
            None => break,
        }
    }
    if reader.state.cursor == start.cursor {
        return Err(Error { pos: start.pos, recoverable: false, inner: ParseError::TemplateVariable {} });
    }
    let name = string_of(&reader.buffer, start.cursor, reader.state.cursor);
    Ok(Variable { name, source_info: SourceInfo { start: start.pos, end: reader.state.pos } })
}

pub fn parse(reader: &mut Reader) -> (res: ParseResult<Expr>)
    requires
        old(reader).wf(),
    ensures
        follows(*old(reader), *final(reader), res, spec_expr(old(reader).text(), old(reader).at())),
{
    try_literal("{{", reader)?;
    let space0 = zero_or_more_spaces(reader)?;
    let variable = variable_name(reader)?;
    let space1 = zero_or_more_spaces(reader)?;
    literal("}}", reader)?;
    Ok(Expr { space0, variable, space1 })
}

} // verus!
