//! Parse errors: where parsing stopped, whether another choice may be tried, and why.

use crate::ast::Pos;
use vstd::prelude::*;

verus! {

/// Why parsing failed.
#[derive(Clone, Debug, PartialEq, Eq)]
pub enum ParseError {
    Expecting { value: String },
    Method {},
    Version {},
    Status {},
    Space {},
    TemplateVariable {},
    Url {},
    Json {},
    Filename {},
    DuplicateSection,
    RequestSectionName { name: String },
    ResponseSectionName { name: String },
    Predicate {},
    PredicateValue {},
}

pub enum SpecParseError {
    Expecting { value: Seq<char> },
    Method,
    Version,
    Status,
    Space,
    TemplateVariable,
    Url,
    Json,
    Filename,
    DuplicateSection,
    RequestSectionName { name: Seq<char> },
    ResponseSectionName { name: Seq<char> },
    Predicate,
    PredicateValue,
}

impl View for ParseError {
    type V = SpecParseError;

    open spec fn view(&self) -> SpecParseError {
        match self {
            ParseError::Expecting { value } => SpecParseError::Expecting { value: value@ },
            ParseError::Method {} => SpecParseError::Method,
            ParseError::Version {} => SpecParseError::Version,
            ParseError::Status {} => SpecParseError::Status,
            ParseError::Space {} => SpecParseError::Space,
            ParseError::TemplateVariable {} => SpecParseError::TemplateVariable,
            ParseError::Url {} => SpecParseError::Url,
            ParseError::Json {} => SpecParseError::Json,
            ParseError::Filename {} => SpecParseError::Filename,
            ParseError::DuplicateSection => SpecParseError::DuplicateSection,
            ParseError::RequestSectionName { name } => SpecParseError::RequestSectionName { name: name@ },
            ParseError::ResponseSectionName { name } => SpecParseError::ResponseSectionName { name: name@ },
            ParseError::Predicate {} => SpecParseError::Predicate,
            ParseError::PredicateValue {} => SpecParseError::PredicateValue,
        }
    }
}

/// A parse error. A recoverable error lets the caller try another choice from
/// where it stood; an unrecoverable one ends the parse.
#[derive(Clone, Debug, PartialEq, Eq)]
pub struct Error {
    pub pos: Pos,
    pub recoverable: bool,
    pub inner: ParseError,
}

pub struct SpecError {
    pub pos: Pos,
    pub recoverable: bool,
    pub inner: SpecParseError,
}

impl View for Error {
    type V = SpecError;

    open spec fn view(&self) -> SpecError {
        SpecError { pos: self.pos, recoverable: self.recoverable, inner: self.inner@ }
    }
}

/// What a parser gives back: a value or an error.
pub type ParseResult<T> = Result<T, Error>;

/// What a parser does, as a function of the text and the cursor: the value or the
/// error, and where the cursor ends.
pub type Outcome<T> = (Result<T, SpecError>, int);

} // verus!
