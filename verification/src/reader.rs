//! The reader: the text being parsed, as characters, and how far parsing has got.

use crate::ast::Pos;
use vstd::std_specs::iter::IteratorSpec;
use vstd::prelude::*;

verus! {

/// The line of the character at index `i` of `s`: one more than the newlines before it.
pub open spec fn line_at(s: Seq<char>, i: int) -> int
    decreases i,
{
    if i <= 0 {
        1
    } else if s[i - 1] == '\n' {
        line_at(s, i - 1) + 1
    } else {
        line_at(s, i - 1)
    }
}

/// The column of the character at index `i` of `s`: one more than the characters
/// between it and the newline before it.
pub open spec fn column_at(s: Seq<char>, i: int) -> int
    decreases i,
{
    if i <= 0 {
        1
    } else if s[i - 1] == '\n' {
        1
    } else {
        column_at(s, i - 1) + 1
    }
}

/// The position of index `i` of `s`.
pub open spec fn pos_at(s: Seq<char>, i: int) -> Pos {
    Pos { line: line_at(s, i) as usize, column: column_at(s, i) as usize }
}

pub proof fn lemma_pos_bounds(s: Seq<char>, i: int)
    requires
        0 <= i,
    ensures
        1 <= line_at(s, i) <= i + 1,
        1 <= column_at(s, i) <= i + 1,
    decreases i,
{
    if i > 0 {
        lemma_pos_bounds(s, i - 1);
    }
}

/// Where parsing stands: the index of the next character, and its position.
#[derive(Clone, Copy, Debug, PartialEq, Eq, Structural)]
pub struct ReaderState {
    pub cursor: usize,
    pub pos: Pos,
}

/// The text being parsed and the state of parsing.
#[derive(Clone, Debug, PartialEq, Eq)]
pub struct Reader {
    pub buffer: Vec<char>,
    pub state: ReaderState,
}

impl Reader {
    /// The cursor stands in the text, and the position is the one of the cursor.
    pub open spec fn wf(&self) -> bool {
        &&& self.buffer.len() < usize::MAX
        &&& self.state.cursor <= self.buffer.len()
        &&& self.state.pos == pos_at(self.buffer@, self.state.cursor as int)
    }

    /// The text, as characters.
    pub open spec fn text(&self) -> Seq<char> {
        self.buffer@
    }

    /// The index of the next character.
    pub open spec fn at(&self) -> int {
        self.state.cursor as int
    }

    /// A reader at the start of `s`.
    pub fn init(s: &str) -> (r: Reader)
        requires
            s@.len() < usize::MAX,
        ensures
            r.wf(),
            r.text() == s@,
            r.at() == 0,
    {
        let mut buffer: Vec<char> = Vec::new();
        let mut chars = s.chars();
        proof {
            broadcast use vstd::string::axiom_spec_iter, vstd::string::next_postcondition;
            assert(buffer@ + chars.remaining() =~= s@);
        }
        loop
            invariant
                buffer@ + chars.remaining() == s@,
                chars.obeys_prophetic_iter_laws(),
            ensures
                buffer@ == s@,
            decreases s@.len() - buffer@.len(),
        {
            proof {
                broadcast use vstd::string::next_postcondition;
            }
            let ghost before = chars.remaining();
            match chars.next() {
                Some(ch) => {
                    proof {
                        assert(buffer@.push(ch) + chars.remaining() =~= buffer@ + before);
                    }
                    buffer.push(ch);
                },
                None => {
                    proof {
                        assert(buffer@ =~= s@);
                    }
                    break;
                },
            }
        }
        assert(buffer@ == s@);
        Reader { buffer, state: ReaderState { cursor: 0, pos: Pos { line: 1, column: 1 } } }
    }

    /// Whether every character has been read.
    pub fn is_eof(&self) -> (b: bool)
        requires
            self.wf(),
        ensures
            b == (self.at() >= self.text().len()),
    {
        self.state.cursor >= self.buffer.len()
    }

    /// The next character, if any, without reading it.
    pub fn peek(&self) -> (r: Option<char>)
        requires
            self.wf(),
        ensures
            r == (if self.at() < self.text().len() {
                Some(self.text()[self.at()])
            } else {
                None
            }),
    {
        if self.state.cursor < self.buffer.len() {
            Some(self.buffer[self.state.cursor])
        } else {
            None
        }
    }

    /// Reads the next character, if any, moving the cursor and the position past it.
    pub fn read(&mut self) -> (r: Option<char>)
        requires
            old(self).wf(),
        ensures
            final(self).wf(),
            final(self).text() == old(self).text(),
            old(self).at() < old(self).text().len() ==> r == Some(old(self).text()[old(self).at()])
                && final(self).at() == old(self).at() + 1,
            old(self).at() >= old(self).text().len() ==> r is None && final(self).state == old(self).state,
    {
        if self.state.cursor >= self.buffer.len() {
            return None;
        }
        let c = self.buffer[self.state.cursor];
        proof {
            lemma_pos_bounds(self.buffer@, self.state.cursor as int);
            lemma_pos_bounds(self.buffer@, self.state.cursor + 1);
        }
        self.state.cursor = self.state.cursor + 1;
        if c == '\n' {
            self.state.pos = Pos { line: self.state.pos.line + 1, column: 1 };
        } else {
            self.state.pos = Pos { line: self.state.pos.line, column: self.state.pos.column + 1 };
        }
        Some(c)
    }

    /// Moves back (or forward) to a state read earlier from the same text.
    pub fn restore(&mut self, state: ReaderState)
        requires
            state.cursor <= old(self).text().len(),
            state.pos == pos_at(old(self).text(), state.cursor as int),
            old(self).text().len() < usize::MAX,
        ensures
            final(self).wf(),
            final(self).text() == old(self).text(),
            final(self).state == state,
    {
        self.state = state;
    }
}

} // verus!

verus! {

use crate::ast::{SourceInfo, SpecWhitespace};
use crate::error::{Outcome, ParseResult, SpecError, SpecParseError};

/// The stretch of `s` from index `a` to index `b`.
pub open spec fn span(s: Seq<char>, a: int, b: int) -> SourceInfo {
    SourceInfo { start: pos_at(s, a), end: pos_at(s, b) }
}

/// The blanks `s[a..b]`.
pub open spec fn blank(s: Seq<char>, a: int, b: int) -> SpecWhitespace {
    SpecWhitespace { value: s.subrange(a, b), source_info: span(s, a, b) }
}

/// An error at index `i` of `s`.
pub open spec fn fail(s: Seq<char>, i: int, recoverable: bool, inner: SpecParseError) -> SpecError {
    SpecError { pos: pos_at(s, i), recoverable, inner }
}

/// A parser that started on `before` and left `after` with `res` did what the outcome
/// `o` says: same text, the cursor where `o` puts it (never before where it started),
/// and the value or error of `o`.
pub open spec fn follows<T: View>(before: Reader, after: Reader, res: ParseResult<T>, o: Outcome<T::V>) -> bool {
    &&& after.wf()
    &&& after.text() == before.text()
    &&& before.at() <= after.at() == o.1
    &&& match (res, o.0) {
        (Ok(x), Ok(v)) => x@ == v,
        (Err(x), Err(e)) => x@ == e,
        _ => false,
    }
}

} // verus!

verus! {

use crate::ast::views;

/// `follows`, for a parser that gives back a sequence of nodes.
pub open spec fn follows_all<T: View>(
    before: Reader,
    after: Reader,
    res: ParseResult<Vec<T>>,
    o: Outcome<Seq<T::V>>,
) -> bool {
    &&& after.wf()
    &&& after.text() == before.text()
    &&& before.at() <= after.at() == o.1
    &&& match (res, o.0) {
        (Ok(x), Ok(v)) => views(x@) == v,
        (Err(x), Err(e)) => x@ == e,
        _ => false,
    }
}

} // verus!
