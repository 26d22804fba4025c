//! The syntax tree of a Hurl file, and its mathematical model.

use vstd::prelude::*;

verus! {

/// A place in the text: lines and columns both count from 1.
#[derive(Clone, Copy, Debug, PartialEq, Eq, Structural)]
pub struct Pos {
    pub line: usize,
    pub column: usize,
}

/// The stretch of text a node was read from, `start` included, `end` excluded.
#[derive(Clone, Copy, Debug, PartialEq, Eq, Structural)]
pub struct SourceInfo {
    pub start: Pos,
    pub end: Pos,
}

impl SourceInfo {
    pub fn init(start_line: usize, start_column: usize, end_line: usize, end_column: usize) -> (r: SourceInfo)
        ensures
            r == (SourceInfo {
                start: Pos { line: start_line, column: start_column },
                end: Pos { line: end_line, column: end_column },
            }),
    {
        SourceInfo {
            start: Pos { line: start_line, column: start_column },
            end: Pos { line: end_line, column: end_column },
        }
    }
}

} // verus!

verus! {

/// The model of a sequence of nodes: the sequence of their models.
pub open spec fn views<T: View>(s: Seq<T>) -> Seq<T::V> {
    s.map_values(|x: T| x@)
}

/// The model of an optional node.
pub open spec fn opt_view<T: View>(o: Option<T>) -> Option<T::V> {
    match o {
        Some(x) => Some(x@),
        None => None,
    }
}

pub proof fn lemma_views_push<T: View>(s: Seq<T>, x: T)
    ensures
        views(s.push(x)) == views(s).push(x@),
{
    assert(views(s.push(x)) =~= views(s).push(x@));
}

/// Blanks (spaces and tabs, or a newline), kept as they were written.
#[derive(Clone, Debug, PartialEq, Eq)]
pub struct Whitespace {
    pub value: String,
    pub source_info: SourceInfo,
}

pub struct SpecWhitespace {
    pub value: Seq<char>,
    pub source_info: SourceInfo,
}

impl View for Whitespace {
    type V = SpecWhitespace;

    open spec fn view(&self) -> SpecWhitespace {
        SpecWhitespace { value: self.value@, source_info: self.source_info }
    }
}

/// A comment: the text after `#` up to the end of the line.
#[derive(Clone, Debug, PartialEq, Eq)]
pub struct Comment {
    pub value: String,
}

impl View for Comment {
    type V = Seq<char>;

    open spec fn view(&self) -> Seq<char> {
        self.value@
    }
}

/// The end of a line: blanks, an optional comment, and the newline (empty at the end of the text).
#[derive(Clone, Debug, PartialEq, Eq)]
pub struct LineTerminator {
    pub space0: Whitespace,
    pub comment: Option<Comment>,
    pub newline: Whitespace,
}

pub struct SpecLineTerminator {
    pub space0: SpecWhitespace,
    pub comment: Option<Seq<char>>,
    pub newline: SpecWhitespace,
}

impl View for LineTerminator {
    type V = SpecLineTerminator;

    open spec fn view(&self) -> SpecLineTerminator {
        SpecLineTerminator {
            space0: self.space0@,
            comment: opt_view(self.comment),
            newline: self.newline@,
        }
    }
}

/// The HTTP methods a request may use.
#[derive(Clone, Copy, Debug, PartialEq, Eq, Structural)]
pub enum Method {
    Get,
    Head,
    Post,
    Put,
    Delete,
    Connect,
    Options,
    Trace,
    Patch,
}

impl View for Method {
    type V = Method;

    open spec fn view(&self) -> Method {
        *self
    }
}

/// The HTTP version a response states.
#[derive(Clone, Copy, Debug, PartialEq, Eq, Structural)]
pub enum VersionValue {
    Version1,
    Version11,
    Version2,
    VersionAny,
}

#[derive(Clone, Copy, Debug, PartialEq, Eq, Structural)]
pub struct Version {
    pub value: VersionValue,
    pub source_info: SourceInfo,
}

impl View for Version {
    type V = Version;

    open spec fn view(&self) -> Version {
        *self
    }
}

/// The status a response expects: any, or a given code.
#[derive(Clone, Copy, Debug, PartialEq, Eq, Structural)]
pub enum StatusValue {
    Any,
    Specific(u64),
}

#[derive(Clone, Copy, Debug, PartialEq, Eq, Structural)]
pub struct Status {
    pub value: StatusValue,
    pub source_info: SourceInfo,
}

impl View for Status {
    type V = Status;

    open spec fn view(&self) -> Status {
        *self
    }
}

/// The name of a variable, as in `{{name}}`.
#[derive(Clone, Debug, PartialEq, Eq)]
pub struct Variable {
    pub name: String,
    pub source_info: SourceInfo,
}

pub struct SpecVariable {
    pub name: Seq<char>,
    pub source_info: SourceInfo,
}

impl View for Variable {
    type V = SpecVariable;

    open spec fn view(&self) -> SpecVariable {
        SpecVariable { name: self.name@, source_info: self.source_info }
    }
}

/// An expression `{{ name }}` with the blanks around the name.
#[derive(Clone, Debug, PartialEq, Eq)]
pub struct Expr {
    pub space0: Whitespace,
    pub variable: Variable,
    pub space1: Whitespace,
}

pub struct SpecExpr {
    pub space0: SpecWhitespace,
    pub variable: SpecVariable,
    pub space1: SpecWhitespace,
}

impl View for Expr {
    type V = SpecExpr;

    open spec fn view(&self) -> SpecExpr {
        SpecExpr { space0: self.space0@, variable: self.variable@, space1: self.space1@ }
    }
}

/// A piece of a template: text (its value and how it was written), or an expression.
#[derive(Clone, Debug, PartialEq, Eq)]
pub enum TemplateElement {
    String { value: String, encoded: String },
    Expression(Expr),
}

pub enum SpecTemplateElement {
    String { value: Seq<char>, encoded: Seq<char> },
    Expression(SpecExpr),
}

impl View for TemplateElement {
    type V = SpecTemplateElement;

    open spec fn view(&self) -> SpecTemplateElement {
        match self {
            TemplateElement::String { value, encoded } => SpecTemplateElement::String {
                value: value@,
                encoded: encoded@,
            },
            TemplateElement::Expression(e) => SpecTemplateElement::Expression(e@),
        }
    }
}

/// Text in which expressions may stand.
#[derive(Clone, Debug, PartialEq, Eq)]
pub struct Template {
    pub quotes: bool,
    pub elements: Vec<TemplateElement>,
    pub source_info: SourceInfo,
}

pub struct SpecTemplate {
    pub quotes: bool,
    pub elements: Seq<SpecTemplateElement>,
    pub source_info: SourceInfo,
}

impl View for Template {
    type V = SpecTemplate;

    open spec fn view(&self) -> SpecTemplate {
        SpecTemplate { quotes: self.quotes, elements: views(self.elements@), source_info: self.source_info }
    }
}

/// A string with its value and how it was written.
#[derive(Clone, Debug, PartialEq, Eq)]
pub struct EncodedString {
    pub value: String,
    pub encoded: String,
    pub quotes: bool,
    pub source_info: SourceInfo,
}

pub struct SpecEncodedString {
    pub value: Seq<char>,
    pub encoded: Seq<char>,
    pub quotes: bool,
    pub source_info: SourceInfo,
}

impl View for EncodedString {
    type V = SpecEncodedString;

    open spec fn view(&self) -> SpecEncodedString {
        SpecEncodedString {
            value: self.value@,
            encoded: self.encoded@,
            quotes: self.quotes,
            source_info: self.source_info,
        }
    }
}

/// A line `key: value`, as headers, query parameters and the like are written.
#[derive(Clone, Debug, PartialEq, Eq)]
pub struct KeyValue {
    pub line_terminators: Vec<LineTerminator>,
    pub space0: Whitespace,
    pub key: EncodedString,
    pub space1: Whitespace,
    pub space2: Whitespace,
    pub value: Template,
    pub line_terminator0: LineTerminator,
}

pub struct SpecKeyValue {
    pub line_terminators: Seq<SpecLineTerminator>,
    pub space0: SpecWhitespace,
    pub key: SpecEncodedString,
    pub space1: SpecWhitespace,
    pub space2: SpecWhitespace,
    pub value: SpecTemplate,
    pub line_terminator0: SpecLineTerminator,
}

impl View for KeyValue {
    type V = SpecKeyValue;

    open spec fn view(&self) -> SpecKeyValue {
        SpecKeyValue {
            line_terminators: views(self.line_terminators@),
            space0: self.space0@,
            key: self.key@,
            space1: self.space1@,
            space2: self.space2@,
            value: self.value@,
            line_terminator0: self.line_terminator0@,
        }
    }
}

} // verus!

verus! {

/// A JSON value; numbers are kept as written, strings as templates.
#[derive(Debug, PartialEq, Eq)]
pub enum JsonValue {
    Number(String),
    String(Template),
    Boolean(bool),
    List { space0: String, elements: Vec<JsonListElement> },
    Object { space0: String, elements: Vec<JsonObjectElement> },
    Null,
}

/// An element of a JSON list, with the blanks before and after it.
#[derive(Debug, PartialEq, Eq)]
pub struct JsonListElement {
    pub space0: String,
    pub value: JsonValue,
    pub space1: String,
}

/// A member `"name": value` of a JSON object, with the blanks around its parts.
#[derive(Debug, PartialEq, Eq)]
pub struct JsonObjectElement {
    pub space0: String,
    pub name: String,
    pub space1: String,
    pub space2: String,
    pub value: JsonValue,
    pub space3: String,
}

pub enum SpecJsonValue {
    Number(Seq<char>),
    String(SpecTemplate),
    Boolean(bool),
    List { space0: Seq<char>, elements: Seq<SpecJsonListElement> },
    Object { space0: Seq<char>, elements: Seq<SpecJsonObjectElement> },
    Null,
}

pub struct SpecJsonListElement {
    pub space0: Seq<char>,
    pub value: SpecJsonValue,
    pub space1: Seq<char>,
}

pub struct SpecJsonObjectElement {
    pub space0: Seq<char>,
    pub name: Seq<char>,
    pub space1: Seq<char>,
    pub space2: Seq<char>,
    pub value: SpecJsonValue,
    pub space3: Seq<char>,
}

pub open spec fn json_value_view(v: JsonValue) -> SpecJsonValue
    decreases v,
{
    match v {
        JsonValue::Number(n) => SpecJsonValue::Number(n@),
        JsonValue::String(t) => SpecJsonValue::String(t@),
        JsonValue::Boolean(b) => SpecJsonValue::Boolean(b),
        JsonValue::List { space0, elements } => SpecJsonValue::List {
            space0: space0@,
            elements: json_list_view(elements@),
        },
        JsonValue::Object { space0, elements } => SpecJsonValue::Object {
            space0: space0@,
            elements: json_object_view(elements@),
        },
        JsonValue::Null => SpecJsonValue::Null,
    }
}

pub open spec fn json_list_view(s: Seq<JsonListElement>) -> Seq<SpecJsonListElement>
    decreases s,
{
    if s.len() == 0 {
        Seq::empty()
    } else {
        let e = s[s.len() - 1];
        json_list_view(s.drop_last()).push(
            SpecJsonListElement { space0: e.space0@, value: json_value_view(e.value), space1: e.space1@ },
        )
    }
}

pub open spec fn json_object_view(s: Seq<JsonObjectElement>) -> Seq<SpecJsonObjectElement>
    decreases s,
{
    if s.len() == 0 {
        Seq::empty()
    } else {
        let e = s[s.len() - 1];
        json_object_view(s.drop_last()).push(
            SpecJsonObjectElement {
                space0: e.space0@,
                name: e.name@,
                space1: e.space1@,
                space2: e.space2@,
                value: json_value_view(e.value),
                space3: e.space3@,
            },
        )
    }
}

impl View for JsonValue {
    type V = SpecJsonValue;

    open spec fn view(&self) -> SpecJsonValue {
        json_value_view(*self)
    }
}

impl View for JsonListElement {
    type V = SpecJsonListElement;

    open spec fn view(&self) -> SpecJsonListElement {
        SpecJsonListElement { space0: self.space0@, value: self.value@, space1: self.space1@ }
    }
}

impl View for JsonObjectElement {
    type V = SpecJsonObjectElement;

    open spec fn view(&self) -> SpecJsonObjectElement {
        SpecJsonObjectElement {
            space0: self.space0@,
            name: self.name@,
            space1: self.space1@,
            space2: self.space2@,
            value: self.value@,
            space3: self.space3@,
        }
    }
}

pub proof fn lemma_json_list_view_push(s: Seq<JsonListElement>, e: JsonListElement)
    ensures
        json_list_view(s.push(e)) == json_list_view(s).push(e@),
{
    assert(s.push(e).drop_last() == s);
}

pub proof fn lemma_json_object_view_push(s: Seq<JsonObjectElement>, e: JsonObjectElement)
    ensures
        json_object_view(s.push(e)) == json_object_view(s).push(e@),
{
    assert(s.push(e).drop_last() == s);
}

} // verus!

verus! {

/// What a capture or an assert reads from the response.
#[derive(Clone, Debug, PartialEq, Eq)]
pub enum QueryValue {
    Status {},
    Url {},
    Body {},
    Header { space0: Whitespace, name: Template },
    Cookie { space0: Whitespace, expr: Template },
    Xpath { space0: Whitespace, expr: Template },
    Jsonpath { space0: Whitespace, expr: Template },
    Regex { space0: Whitespace, expr: Template },
    Variable { space0: Whitespace, name: Template },
}

pub enum SpecQueryValue {
    Status,
    Url,
    Body,
    Header { space0: SpecWhitespace, name: SpecTemplate },
    Cookie { space0: SpecWhitespace, expr: SpecTemplate },
    Xpath { space0: SpecWhitespace, expr: SpecTemplate },
    Jsonpath { space0: SpecWhitespace, expr: SpecTemplate },
    Regex { space0: SpecWhitespace, expr: SpecTemplate },
    Variable { space0: SpecWhitespace, name: SpecTemplate },
}

impl View for QueryValue {
    type V = SpecQueryValue;

    open spec fn view(&self) -> SpecQueryValue {
        match self {
            QueryValue::Status {} => SpecQueryValue::Status,
            QueryValue::Url {} => SpecQueryValue::Url,
            QueryValue::Body {} => SpecQueryValue::Body,
            QueryValue::Header { space0, name } => SpecQueryValue::Header { space0: space0@, name: name@ },
            QueryValue::Cookie { space0, expr } => SpecQueryValue::Cookie { space0: space0@, expr: expr@ },
            QueryValue::Xpath { space0, expr } => SpecQueryValue::Xpath { space0: space0@, expr: expr@ },
            QueryValue::Jsonpath { space0, expr } => SpecQueryValue::Jsonpath { space0: space0@, expr: expr@ },
            QueryValue::Regex { space0, expr } => SpecQueryValue::Regex { space0: space0@, expr: expr@ },
            QueryValue::Variable { space0, name } => SpecQueryValue::Variable { space0: space0@, name: name@ },
        }
    }
}

#[derive(Clone, Debug, PartialEq, Eq)]
pub struct Query {
    pub source_info: SourceInfo,
    pub value: QueryValue,
}

pub struct SpecQuery {
    pub source_info: SourceInfo,
    pub value: SpecQueryValue,
}

impl View for Query {
    type V = SpecQuery;

    open spec fn view(&self) -> SpecQuery {
        SpecQuery { source_info: self.source_info, value: self.value@ }
    }
}

/// A line `name: query` of a `[Captures]` section.
#[derive(Clone, Debug, PartialEq, Eq)]
pub struct Capture {
    pub line_terminators: Vec<LineTerminator>,
    pub space0: Whitespace,
    pub name: EncodedString,
    pub space1: Whitespace,
    pub space2: Whitespace,
    pub query: Query,
    pub line_terminator0: LineTerminator,
}

pub struct SpecCapture {
    pub line_terminators: Seq<SpecLineTerminator>,
    pub space0: SpecWhitespace,
    pub name: SpecEncodedString,
    pub space1: SpecWhitespace,
    pub space2: SpecWhitespace,
    pub query: SpecQuery,
    pub line_terminator0: SpecLineTerminator,
}

impl View for Capture {
    type V = SpecCapture;

    open spec fn view(&self) -> SpecCapture {
        SpecCapture {
            line_terminators: views(self.line_terminators@),
            space0: self.space0@,
            name: self.name@,
            space1: self.space1@,
            space2: self.space2@,
            query: self.query@,
            line_terminator0: self.line_terminator0@,
        }
    }
}

/// A value a predicate compares with.
#[derive(Clone, Debug, PartialEq, Eq)]
pub enum PredicateValue {
    Null {},
    Bool(bool),
    Integer(i64),
    String(Template),
}

pub enum SpecPredicateValue {
    Null,
    Bool(bool),
    Integer(i64),
    String(SpecTemplate),
}

impl View for PredicateValue {
    type V = SpecPredicateValue;

    open spec fn view(&self) -> SpecPredicateValue {
        match self {
            PredicateValue::Null {} => SpecPredicateValue::Null,
            PredicateValue::Bool(b) => SpecPredicateValue::Bool(*b),
            PredicateValue::Integer(n) => SpecPredicateValue::Integer(*n),
            PredicateValue::String(t) => SpecPredicateValue::String(t@),
        }
    }
}

/// What an assert checks of the value its query reads.
#[derive(Clone, Debug, PartialEq, Eq)]
pub enum PredicateFuncValue {
    Equal { space0: Whitespace, value: PredicateValue },
    NotEqual { space0: Whitespace, value: PredicateValue },
    GreaterThan { space0: Whitespace, value: i64 },
    GreaterThanOrEqual { space0: Whitespace, value: i64 },
    LessThan { space0: Whitespace, value: i64 },
    LessThanOrEqual { space0: Whitespace, value: i64 },
    StartWith { space0: Whitespace, value: Template },
    Contain { space0: Whitespace, value: Template },
    Match { space0: Whitespace, value: Template },
    CountEqual { space0: Whitespace, value: u64 },
    Exist {},
}

pub enum SpecPredicateFuncValue {
    Equal { space0: SpecWhitespace, value: SpecPredicateValue },
    NotEqual { space0: SpecWhitespace, value: SpecPredicateValue },
    GreaterThan { space0: SpecWhitespace, value: i64 },
    GreaterThanOrEqual { space0: SpecWhitespace, value: i64 },
    LessThan { space0: SpecWhitespace, value: i64 },
    LessThanOrEqual { space0: SpecWhitespace, value: i64 },
    StartWith { space0: SpecWhitespace, value: SpecTemplate },
    Contain { space0: SpecWhitespace, value: SpecTemplate },
    Match { space0: SpecWhitespace, value: SpecTemplate },
    CountEqual { space0: SpecWhitespace, value: u64 },
    Exist,
}

impl View for PredicateFuncValue {
    type V = SpecPredicateFuncValue;

    open spec fn view(&self) -> SpecPredicateFuncValue {
        match self {
            PredicateFuncValue::Equal { space0, value } => SpecPredicateFuncValue::Equal { space0: space0@, value: value@ },
            PredicateFuncValue::NotEqual { space0, value } => SpecPredicateFuncValue::NotEqual { space0: space0@, value: value@ },
            PredicateFuncValue::GreaterThan { space0, value } => SpecPredicateFuncValue::GreaterThan { space0: space0@, value: *value },
            PredicateFuncValue::GreaterThanOrEqual { space0, value } => SpecPredicateFuncValue::GreaterThanOrEqual { space0: space0@, value: *value },
            PredicateFuncValue::LessThan { space0, value } => SpecPredicateFuncValue::LessThan { space0: space0@, value: *value },
            PredicateFuncValue::LessThanOrEqual { space0, value } => SpecPredicateFuncValue::LessThanOrEqual { space0: space0@, value: *value },
            PredicateFuncValue::StartWith { space0, value } => SpecPredicateFuncValue::StartWith { space0: space0@, value: value@ },
            PredicateFuncValue::Contain { space0, value } => SpecPredicateFuncValue::Contain { space0: space0@, value: value@ },
            PredicateFuncValue::Match { space0, value } => SpecPredicateFuncValue::Match { space0: space0@, value: value@ },
            PredicateFuncValue::CountEqual { space0, value } => SpecPredicateFuncValue::CountEqual { space0: space0@, value: *value },
            PredicateFuncValue::Exist {} => SpecPredicateFuncValue::Exist,
        }
    }
}

#[derive(Clone, Debug, PartialEq, Eq)]
pub struct PredicateFunc {
    pub source_info: SourceInfo,
    pub value: PredicateFuncValue,
}

pub struct SpecPredicateFunc {
    pub source_info: SourceInfo,
    pub value: SpecPredicateFuncValue,
}

impl View for PredicateFunc {
    type V = SpecPredicateFunc;

    open spec fn view(&self) -> SpecPredicateFunc {
        SpecPredicateFunc { source_info: self.source_info, value: self.value@ }
    }
}

/// A predicate, possibly negated with `not`.
#[derive(Clone, Debug, PartialEq, Eq)]
pub struct Predicate {
    pub not: bool,
    pub space0: Whitespace,
    pub predicate_func: PredicateFunc,
}

pub struct SpecPredicate {
    pub not: bool,
    pub space0: SpecWhitespace,
    pub predicate_func: SpecPredicateFunc,
}

impl View for Predicate {
    type V = SpecPredicate;

    open spec fn view(&self) -> SpecPredicate {
        SpecPredicate { not: self.not, space0: self.space0@, predicate_func: self.predicate_func@ }
    }
}

/// A line `query predicate` of an `[Asserts]` section.
#[derive(Clone, Debug, PartialEq, Eq)]
pub struct Assert {
    pub line_terminators: Vec<LineTerminator>,
    pub space0: Whitespace,
    pub query: Query,
    pub space1: Whitespace,
    pub predicate: Predicate,
    pub line_terminator0: LineTerminator,
}

pub struct SpecAssert {
    pub line_terminators: Seq<SpecLineTerminator>,
    pub space0: SpecWhitespace,
    pub query: SpecQuery,
    pub space1: SpecWhitespace,
    pub predicate: SpecPredicate,
    pub line_terminator0: SpecLineTerminator,
}

impl View for Assert {
    type V = SpecAssert;

    open spec fn view(&self) -> SpecAssert {
        SpecAssert {
            line_terminators: views(self.line_terminators@),
            space0: self.space0@,
            query: self.query@,
            space1: self.space1@,
            predicate: self.predicate@,
            line_terminator0: self.line_terminator0@,
        }
    }
}

/// What a section holds, by kind of section.
#[derive(Clone, Debug, PartialEq, Eq)]
pub enum SectionValue {
    QueryParams(Vec<KeyValue>),
    BasicAuth(KeyValue),
    FormParams(Vec<KeyValue>),
    MultipartFormData(Vec<KeyValue>),
    Cookies(Vec<KeyValue>),
    Captures(Vec<Capture>),
    Asserts(Vec<Assert>),
}

pub enum SpecSectionValue {
    QueryParams(Seq<SpecKeyValue>),
    BasicAuth(SpecKeyValue),
    FormParams(Seq<SpecKeyValue>),
    MultipartFormData(Seq<SpecKeyValue>),
    Cookies(Seq<SpecKeyValue>),
    Captures(Seq<SpecCapture>),
    Asserts(Seq<SpecAssert>),
}

impl View for SectionValue {
    type V = SpecSectionValue;

    open spec fn view(&self) -> SpecSectionValue {
        match self {
            SectionValue::QueryParams(v) => SpecSectionValue::QueryParams(views(v@)),
            SectionValue::BasicAuth(kv) => SpecSectionValue::BasicAuth(kv@),
            SectionValue::FormParams(v) => SpecSectionValue::FormParams(views(v@)),
            SectionValue::MultipartFormData(v) => SpecSectionValue::MultipartFormData(views(v@)),
            SectionValue::Cookies(v) => SpecSectionValue::Cookies(views(v@)),
            SectionValue::Captures(v) => SpecSectionValue::Captures(views(v@)),
            SectionValue::Asserts(v) => SpecSectionValue::Asserts(views(v@)),
        }
    }
}

/// The name written between brackets for each kind of section.
pub open spec fn spec_section_name(v: SpecSectionValue) -> Seq<char> {
    match v {
        SpecSectionValue::QueryParams(_) => "QueryStringParams"@,
        SpecSectionValue::BasicAuth(_) => "BasicAuth"@,
        SpecSectionValue::FormParams(_) => "FormParams"@,
        SpecSectionValue::MultipartFormData(_) => "MultipartFormData"@,
        SpecSectionValue::Cookies(_) => "Cookies"@,
        SpecSectionValue::Captures(_) => "Captures"@,
        SpecSectionValue::Asserts(_) => "Asserts"@,
    }
}

/// A number for each kind of section; two sections have the same name exactly when
/// they have the same kind.
pub open spec fn spec_section_kind(v: SpecSectionValue) -> int {
    match v {
        SpecSectionValue::QueryParams(_) => 0,
        SpecSectionValue::BasicAuth(_) => 1,
        SpecSectionValue::FormParams(_) => 2,
        SpecSectionValue::MultipartFormData(_) => 3,
        SpecSectionValue::Cookies(_) => 4,
        SpecSectionValue::Captures(_) => 5,
        SpecSectionValue::Asserts(_) => 6,
    }
}

/// A section `[Name]` and its lines.
#[derive(Clone, Debug, PartialEq, Eq)]
pub struct Section {
    pub line_terminators: Vec<LineTerminator>,
    pub space0: Whitespace,
    pub line_terminator0: LineTerminator,
    pub value: SectionValue,
    pub source_info: SourceInfo,
}

pub struct SpecSection {
    pub line_terminators: Seq<SpecLineTerminator>,
    pub space0: SpecWhitespace,
    pub line_terminator0: SpecLineTerminator,
    pub value: SpecSectionValue,
    pub source_info: SourceInfo,
}

impl View for Section {
    type V = SpecSection;

    open spec fn view(&self) -> SpecSection {
        SpecSection {
            line_terminators: views(self.line_terminators@),
            space0: self.space0@,
            line_terminator0: self.line_terminator0@,
            value: self.value@,
            source_info: self.source_info,
        }
    }
}

impl SectionValue {
    pub fn kind(&self) -> (k: u8)
        ensures
            k == spec_section_kind(self@),
    {
        match self {
            SectionValue::QueryParams(_) => 0,
            SectionValue::BasicAuth(_) => 1,
            SectionValue::FormParams(_) => 2,
            SectionValue::MultipartFormData(_) => 3,
            SectionValue::Cookies(_) => 4,
            SectionValue::Captures(_) => 5,
            SectionValue::Asserts(_) => 6,
        }
    }
}

impl Section {
    /// The name written between the brackets.
    pub fn name(&self) -> (r: &'static str)
        ensures
            r@ == spec_section_name(self.value@),
    {
        match self.value {
            SectionValue::QueryParams(_) => "QueryStringParams",
            SectionValue::BasicAuth(_) => "BasicAuth",
            SectionValue::FormParams(_) => "FormParams",
            SectionValue::MultipartFormData(_) => "MultipartFormData",
            SectionValue::Cookies(_) => "Cookies",
            SectionValue::Captures(_) => "Captures",
            SectionValue::Asserts(_) => "Asserts",
        }
    }
}

/// The name of a file, as written.
#[derive(Clone, Debug, PartialEq, Eq)]
pub struct Filename {
    pub value: String,
    pub source_info: SourceInfo,
}

pub struct SpecFilename {
    pub value: Seq<char>,
    pub source_info: SourceInfo,
}

impl View for Filename {
    type V = SpecFilename;

    open spec fn view(&self) -> SpecFilename {
        SpecFilename { value: self.value@, source_info: self.source_info }
    }
}

/// The content of a body.
#[derive(Debug, PartialEq, Eq)]
pub enum Bytes {
    Json { value: JsonValue },
    RawString { newline0: Whitespace, value: Template },
    Base64 { space0: Whitespace, value: Vec<u8>, encoded: String, space1: Whitespace },
    File { space0: Whitespace, filename: Filename, space1: Whitespace },
}

pub enum SpecBytes {
    Json { value: SpecJsonValue },
    RawString { newline0: SpecWhitespace, value: SpecTemplate },
    Base64 { space0: SpecWhitespace, value: Seq<u8>, encoded: Seq<char>, space1: SpecWhitespace },
    File { space0: SpecWhitespace, filename: SpecFilename, space1: SpecWhitespace },
}

impl View for Bytes {
    type V = SpecBytes;

    open spec fn view(&self) -> SpecBytes {
        match self {
            Bytes::Json { value } => SpecBytes::Json { value: value@ },
            Bytes::RawString { newline0, value } => SpecBytes::RawString {
                newline0: newline0@,
                value: value@,
            },
            Bytes::Base64 { space0, value, encoded, space1 } => SpecBytes::Base64 {
                space0: space0@,
                value: value@,
                encoded: encoded@,
                space1: space1@,
            },
            Bytes::File { space0, filename, space1 } => SpecBytes::File {
                space0: space0@,
                filename: filename@,
                space1: space1@,
            },
        }
    }
}

/// The body of a request or a response, on lines of its own.
#[derive(Debug, PartialEq, Eq)]
pub struct Body {
    pub line_terminators: Vec<LineTerminator>,
    pub space0: Whitespace,
    pub value: Bytes,
    pub line_terminator0: LineTerminator,
}

pub struct SpecBody {
    pub line_terminators: Seq<SpecLineTerminator>,
    pub space0: SpecWhitespace,
    pub value: SpecBytes,
    pub line_terminator0: SpecLineTerminator,
}

impl View for Body {
    type V = SpecBody;

    open spec fn view(&self) -> SpecBody {
        SpecBody {
            line_terminators: views(self.line_terminators@),
            space0: self.space0@,
            value: self.value@,
            line_terminator0: self.line_terminator0@,
        }
    }
}

/// A request: its method and url, then headers, sections and body.
#[derive(Debug, PartialEq, Eq)]
pub struct Request {
    pub line_terminators: Vec<LineTerminator>,
    pub space0: Whitespace,
    pub method: Method,
    pub space1: Whitespace,
    pub url: Template,
    pub line_terminator0: LineTerminator,
    pub headers: Vec<KeyValue>,
    pub sections: Vec<Section>,
    pub body: Option<Body>,
    pub source_info: SourceInfo,
}

pub struct SpecRequest {
    pub line_terminators: Seq<SpecLineTerminator>,
    pub space0: SpecWhitespace,
    pub method: Method,
    pub space1: SpecWhitespace,
    pub url: SpecTemplate,
    pub line_terminator0: SpecLineTerminator,
    pub headers: Seq<SpecKeyValue>,
    pub sections: Seq<SpecSection>,
    pub body: Option<SpecBody>,
    pub source_info: SourceInfo,
}

impl View for Request {
    type V = SpecRequest;

    open spec fn view(&self) -> SpecRequest {
        SpecRequest {
            line_terminators: views(self.line_terminators@),
            space0: self.space0@,
            method: self.method,
            space1: self.space1@,
            url: self.url@,
            line_terminator0: self.line_terminator0@,
            headers: views(self.headers@),
            sections: views(self.sections@),
            body: opt_view(self.body),
            source_info: self.source_info,
        }
    }
}

/// The response a request expects: version and status, then headers, sections and body.
#[derive(Debug, PartialEq, Eq)]
pub struct Response {
    pub line_terminators: Vec<LineTerminator>,
    pub space0: Whitespace,
    pub version: Version,
    pub space1: Whitespace,
    pub status: Status,
    pub line_terminator0: LineTerminator,
    pub headers: Vec<KeyValue>,
    pub sections: Vec<Section>,
    pub body: Option<Body>,
    pub source_info: SourceInfo,
}

pub struct SpecResponse {
    pub line_terminators: Seq<SpecLineTerminator>,
    pub space0: SpecWhitespace,
    pub version: Version,
    pub space1: SpecWhitespace,
    pub status: Status,
    pub line_terminator0: SpecLineTerminator,
    pub headers: Seq<SpecKeyValue>,
    pub sections: Seq<SpecSection>,
    pub body: Option<SpecBody>,
    pub source_info: SourceInfo,
}

impl View for Response {
    type V = SpecResponse;

    open spec fn view(&self) -> SpecResponse {
        SpecResponse {
            line_terminators: views(self.line_terminators@),
            space0: self.space0@,
            version: self.version,
            space1: self.space1@,
            status: self.status,
            line_terminator0: self.line_terminator0@,
            headers: views(self.headers@),
            sections: views(self.sections@),
            body: opt_view(self.body),
            source_info: self.source_info,
        }
    }
}

/// A request and the response it expects, if one is written.
#[derive(Debug, PartialEq, Eq)]
pub struct Entry {
    pub request: Request,
    pub response: Option<Response>,
}

pub struct SpecEntry {
    pub request: SpecRequest,
    pub response: Option<SpecResponse>,
}

impl View for Entry {
    type V = SpecEntry;

    open spec fn view(&self) -> SpecEntry {
        SpecEntry { request: self.request@, response: opt_view(self.response) }
    }
}

/// A whole Hurl file: its entries, and the lines after the last one.
#[derive(Debug, PartialEq, Eq)]
pub struct HurlFile {
    pub entries: Vec<Entry>,
    pub line_terminators: Vec<LineTerminator>,
}

pub struct SpecHurlFile {
    pub entries: Seq<SpecEntry>,
    pub line_terminators: Seq<SpecLineTerminator>,
}

impl View for HurlFile {
    type V = SpecHurlFile;

    open spec fn view(&self) -> SpecHurlFile {
        SpecHurlFile { entries: views(self.entries@), line_terminators: views(self.line_terminators@) }
    }
}

} // verus!
