//! What holds of the parsers on every input.

use crate::ast::{Method, SpecBytes, SpecEntry, SpecJsonValue, SpecExpr, SpecKeyValue, SpecTemplateElement, Status, StatusValue, spec_section_name};
use crate::base64::{decode, digit_value, first_byte, second_byte, third_byte};
use crate::error::SpecError;
use crate::reader::span;
use crate::parsers::{
    first_repeat, is_url_char, repeats_name, spec_body, spec_entries_from, spec_entry, spec_hurl_file, spec_method, spec_request,
    spec_response, spec_status, spec_url, spec_version, url_from, with_text,
};
use crate::primitives::{
    comment_end, digits_end, digits_value, lemma_comment_end, lemma_run_end, newline_at, spaces_end,
    spec_comment, spec_one_or_more_spaces, spec_optional_line_terminators, spec_zero_or_more_spaces,
    starts_with,
};
use crate::keyvalue::{
    is_key_char, key_end, lemma_line_end, lemma_trim_end, line_end, spec_unquoted_template, template_from,
    trim_end, lemma_key_value_forward, lemma_line_terminators_forward, spec_key_value, spec_key_values,
    spec_key_values_from,
};
use crate::sections::{spec_request_sections, spec_response_sections};
use crate::bytes::{lemma_raw_end, raw_end, spec_bytes, spec_raw_string};
use crate::json::{number_starts, spec_json_value};
use crate::expr::{is_variable_char, spec_expr, variable_end};
use crate::text::{is_digit, is_space};
use vstd::prelude::*;

verus! {

/// The name a method is written with.
pub open spec fn method_name(m: Method) -> Seq<char> {
    match m {
        Method::Get => "GET"@,
        Method::Head => "HEAD"@,
        Method::Post => "POST"@,
        Method::Put => "PUT"@,
        Method::Delete => "DELETE"@,
        Method::Connect => "CONNECT"@,
        Method::Options => "OPTIONS"@,
        Method::Trace => "TRACE"@,
        Method::Patch => "PATCH"@,
    }
}

/// A method is read exactly when the text at the cursor starts with its name; the
/// cursor then moves past the name. When no name is there, the cursor does not move,
/// and the error is recoverable only at the end of the text.
pub proof fn law_method_read_iff_named(s: Seq<char>, c: int, m: Method)
    requires
        0 <= c <= s.len(),
    ensures
        starts_with(s, c, method_name(m)) <==> spec_method(s, c) == (Ok::<Method, crate::error::SpecError>(m), c + method_name(m).len()),
        spec_method(s, c).0 is Err ==> spec_method(s, c).1 == c
            && spec_method(s, c).0->Err_0.recoverable == (c == s.len()),
{
    reveal_strlit("GET");
    reveal_strlit("HEAD");
    reveal_strlit("POST");
    reveal_strlit("PUT");
    reveal_strlit("DELETE");
    reveal_strlit("CONNECT");
    reveal_strlit("OPTIONS");
    reveal_strlit("TRACE");
    reveal_strlit("PATCH");
    if starts_with(s, c, method_name(m)) {
        let n = method_name(m).len();
        assert(s.subrange(c, c + n)[0] == s[c]);
        if n > 1 {
            assert(s.subrange(c, c + n)[1] == s[c + 1]);
        }
        if starts_with(s, c, "POST"@) {
            assert(s.subrange(c, c + 4)[1] == s[c + 1]);
        }
        if starts_with(s, c, "PUT"@) {
            assert(s.subrange(c, c + 3)[1] == s[c + 1]);
        }
        if starts_with(s, c, "PATCH"@) {
            assert(s.subrange(c, c + 5)[1] == s[c + 1]);
        }
        if starts_with(s, c, "GET"@) {
            assert(s.subrange(c, c + 3)[0] == s[c]);
        }
        if starts_with(s, c, "HEAD"@) {
            assert(s.subrange(c, c + 4)[0] == s[c]);
        }
        if starts_with(s, c, "DELETE"@) {
            assert(s.subrange(c, c + 6)[0] == s[c]);
        }
        if starts_with(s, c, "CONNECT"@) {
            assert(s.subrange(c, c + 7)[0] == s[c]);
        }
        if starts_with(s, c, "OPTIONS"@) {
            assert(s.subrange(c, c + 7)[0] == s[c]);
        }
        if starts_with(s, c, "TRACE"@) {
            assert(s.subrange(c, c + 5)[0] == s[c]);
        }
    }
}

/// The text a version is written with, after `HTTP/`.
pub open spec fn version_name(v: crate::ast::VersionValue) -> Seq<char> {
    match v {
        crate::ast::VersionValue::Version1 => "1.0"@,
        crate::ast::VersionValue::Version11 => "1.1"@,
        crate::ast::VersionValue::Version2 => "2"@,
        crate::ast::VersionValue::VersionAny => "*"@,
    }
}

/// A version is read exactly when the text holds `HTTP/` and then its name; its
/// source starts after `HTTP/` and ends after the name. Without `HTTP/` the cursor
/// does not move and the error is recoverable; after it, an unknown version is not.
pub proof fn law_version_read_iff_named(s: Seq<char>, c: int, v: crate::ast::VersionValue)
    requires
        0 <= c <= s.len(),
    ensures
        (starts_with(s, c, "HTTP/"@) && starts_with(s, c + 5, version_name(v))) <==> (spec_version(s, c).0 matches Ok(x) && x.value == v),
        spec_version(s, c).0 matches Ok(x) ==> x.source_info == crate::reader::span(s, c + 5, spec_version(s, c).1)
            && spec_version(s, c).1 == c + 5 + version_name(x.value).len(),
        spec_version(s, c).0 matches Err(e) ==> (e.recoverable <==> !starts_with(s, c, "HTTP/"@))
            && (e.recoverable ==> spec_version(s, c).1 == c),
{
    reveal_strlit("HTTP/");
    reveal_strlit("1.0");
    reveal_strlit("1.1");
    reveal_strlit("2");
    reveal_strlit("*");
    let c1 = c + 5;
    if starts_with(s, c, "HTTP/"@) && c1 + 3 <= s.len() {
        assert(s.subrange(c1, c1 + 3)[0] == s[c1]);
        assert(s.subrange(c1, c1 + 3)[1] == s[c1 + 1]);
        assert(s.subrange(c1, c1 + 3)[2] == s[c1 + 2]);
    }
    if starts_with(s, c, "HTTP/"@) && c1 + 1 <= s.len() {
        assert(s.subrange(c1, c1 + 1)[0] == s[c1]);
    }
}

/// A status is `*`, or the decimal digits of its code: at least one, with no leading
/// `0` unless the code is 0 itself.
pub proof fn law_status_digits(s: Seq<char>, c: int)
    requires
        0 <= c <= s.len(),
    ensures
        spec_status(s, c).0 matches Ok(st) ==> match st.value {
            StatusValue::Any => c < s.len() && s[c] == '*' && spec_status(s, c).1 == c + 1,
            StatusValue::Specific(n) => {
                let c1 = spec_status(s, c).1;
                &&& c < c1 <= s.len()
                &&& forall|k: int| c <= k < c1 ==> is_digit(#[trigger] s[k])
                &&& c1 < s.len() ==> !is_digit(s[c1])
                &&& n == digits_value(s, c, c1)
                &&& s[c] == '0' ==> c1 == c + 1
            },
        },
{
    reveal_strlit("*");
    if starts_with(s, c, "*"@) {
        assert(s.subrange(c, c + 1)[0] == s[c]);
    } else if c < s.len() && is_digit(s[c]) {
        lemma_run_end(s, c + 1, |ch: char| is_digit(ch));
        let e = digits_end(s, c + 1);
        assert forall|k: int| c <= k < e implies is_digit(#[trigger] s[k]) by {
            if k > c {
                assert(is_digit(s[k]));
            }
        }
        crate::primitives::lemma_digits_value_nonneg(s, c, e);
    }
}

/// Blanks are read as far as they go, and hold nothing but spaces and tabs;
/// `one_or_more_spaces` reads at least one.
pub proof fn law_spaces_are_blank(s: Seq<char>, c: int)
    requires
        0 <= c <= s.len(),
    ensures
        spec_zero_or_more_spaces(s, c).0 matches Ok(w) ==> {
            &&& forall|k: int| 0 <= k < w.value.len() ==> is_space(#[trigger] w.value[k])
            &&& spec_zero_or_more_spaces(s, c).1 < s.len() ==> !is_space(s[spec_zero_or_more_spaces(s, c).1])
        },
        spec_one_or_more_spaces(s, c).0 matches Ok(w) ==> w.value.len() > 0,
{
    lemma_run_end(s, c, |ch: char| is_space(ch));
    let e = spaces_end(s, c);
    assert forall|k: int| 0 <= k < e - c implies is_space(#[trigger] s.subrange(c, e)[k]) by {
        assert(s.subrange(c, e)[k] == s[c + k]);
    }
    if c < s.len() && is_space(s[c]) {
        lemma_run_end(s, c + 1, |ch: char| is_space(ch));
    }
}

/// A comment holds no newline.
pub proof fn law_comment_has_no_newline(s: Seq<char>, c: int)
    requires
        0 <= c <= s.len(),
    ensures
        spec_comment(s, c).0 matches Ok(v) ==> forall|k: int| 0 <= k < v.len() ==> v[k] != '\n',
{
    if c < s.len() && s[c] == '#' {
        lemma_comment_end_no_newline(s, c + 1);
        lemma_comment_end(s, c + 1);
        let e = comment_end(s, c + 1);
        assert forall|k: int| 0 <= k < e - (c + 1) implies #[trigger] s.subrange(c + 1, e)[k] != '\n' by {
            assert(s.subrange(c + 1, e)[k] == s[c + 1 + k]);
        }
    }
}

proof fn lemma_comment_end_no_newline(s: Seq<char>, i: int)
    requires
        0 <= i <= s.len(),
    ensures
        forall|k: int| i <= k < comment_end(s, i) ==> s[k] != '\n',
    decreases s.len() - i,
{
    if i < s.len() && !newline_at(s, i) {
        lemma_comment_end_no_newline(s, i + 1);
    }
}

/// Lines of blanks and comments never make a parse fail: at worst there are none.
pub proof fn law_optional_line_terminators_never_fail(s: Seq<char>, c: int)
    requires
        0 <= c <= s.len(),
    ensures
        spec_optional_line_terminators(s, c).0 is Ok,
        c <= spec_optional_line_terminators(s, c).1 <= s.len(),
{
    lemma_line_terminators_forward(s, c, Seq::empty());
}

/// The text parts of a url: not empty, made of url characters only, each as written.
pub open spec fn url_texts_ok(elements: Seq<SpecTemplateElement>) -> bool {
    forall|i: int| 0 <= i < elements.len() ==> (#[trigger] elements[i] matches SpecTemplateElement::String { value, encoded } ==> {
        &&& value.len() > 0
        &&& encoded == value
        &&& forall|k: int| 0 <= k < value.len() ==> is_url_char(#[trigger] value[k])
    })
}

proof fn lemma_with_text_ok(s: Seq<char>, b: int, c: int, acc: Seq<SpecTemplateElement>)
    requires
        0 <= b <= c <= s.len(),
        url_texts_ok(acc),
        forall|k: int| b <= k < c ==> is_url_char(#[trigger] s[k]),
    ensures
        url_texts_ok(with_text(s, b, c, acc)),
{
    if b < c {
        let v = s.subrange(b, c);
        assert forall|k: int| 0 <= k < v.len() implies is_url_char(#[trigger] v[k]) by {
            assert(v[k] == s[b + k]);
        }
        let r = with_text(s, b, c, acc);
        assert forall|i: int| 0 <= i < r.len() implies (#[trigger] r[i] matches SpecTemplateElement::String { value, encoded } ==> {
            &&& value.len() > 0
            &&& encoded == value
            &&& forall|k: int| 0 <= k < value.len() ==> is_url_char(#[trigger] value[k])
        }) by {
            if i < acc.len() {
                assert(r[i] == acc[i]);
            }
        }
    }
}

proof fn lemma_url_from_ok(s: Seq<char>, c0: int, b: int, c: int, acc: Seq<SpecTemplateElement>)
    requires
        0 <= b <= c <= s.len(),
        url_texts_ok(acc),
        forall|k: int| b <= k < c ==> is_url_char(#[trigger] s[k]),
    ensures
        url_from(s, c0, b, c, acc).0 matches Ok(t) ==> t.elements.len() > 0 && url_texts_ok(t.elements) && !t.quotes,
    decreases s.len() - c,
{
    lemma_with_text_ok(s, b, c, acc);
    if !(spec_line_terminator_ok(s, c)) {
        match crate::expr::spec_expr(s, c) {
            (Ok(e), c1) => if c < c1 <= s.len() {
                let acc2 = with_text(s, b, c, acc).push(SpecTemplateElement::Expression(e));
                assert forall|i: int| 0 <= i < acc2.len() implies (#[trigger] acc2[i] matches SpecTemplateElement::String { value, encoded } ==> {
                    &&& value.len() > 0
                    &&& encoded == value
                    &&& forall|k: int| 0 <= k < value.len() ==> is_url_char(#[trigger] value[k])
                }) by {
                    if i < acc2.len() - 1 {
                        assert(acc2[i] == with_text(s, b, c, acc)[i]);
                    }
                }
                lemma_url_from_ok(s, c0, c1, c1, acc2);
            },
            (Err(e), c1) => if e.recoverable && c < s.len() && is_url_char(s[c]) {
                lemma_url_from_ok(s, c0, b, c + 1, acc);
            },
        }
    }
}

spec fn spec_line_terminator_ok(s: Seq<char>, c: int) -> bool {
    crate::primitives::spec_line_terminator(s, c).0 is Ok
}

/// A url is never empty, and its text parts hold url characters only, as written.
pub proof fn law_url_texts(s: Seq<char>, c: int)
    requires
        0 <= c <= s.len(),
    ensures
        spec_url(s, c).0 matches Ok(t) ==> t.elements.len() > 0 && url_texts_ok(t.elements) && !t.quotes,
{
    if c < s.len() {
        assert(url_texts_ok(Seq::<SpecTemplateElement>::empty()));
        lemma_url_from_ok(s, c, c, c, Seq::empty());
    }
}

proof fn lemma_first_repeat_none(sections: Seq<crate::ast::SpecSection>, k: int)
    requires
        0 <= k,
        first_repeat(sections, k) is None,
    ensures
        forall|i: int| k <= i < sections.len() ==> !repeats_name(sections, i),
    decreases sections.len() - k,
{
    if k < sections.len() {
        lemma_first_repeat_none(sections, k + 1);
    }
}

/// No two sections of a request have one name.
pub proof fn law_request_section_names_distinct(s: Seq<char>, c: int)
    requires
        spec_request(s, c).0 is Ok,
    ensures
        forall|i: int, j: int|
            0 <= i < j < spec_request(s, c).0->Ok_0.sections.len() ==> spec_section_name(
                #[trigger] spec_request(s, c).0->Ok_0.sections[i].value,
            ) != spec_section_name(#[trigger] spec_request(s, c).0->Ok_0.sections[j].value),
{
    let sections = spec_request(s, c).0->Ok_0.sections;
    assert(first_repeat(sections, 0) is None);
    lemma_first_repeat_none(sections, 0);
    assert forall|i: int, j: int| 0 <= i < j < sections.len() implies spec_section_name(#[trigger] sections[i].value)
        != spec_section_name(#[trigger] sections[j].value) by {
        assert(!repeats_name(sections, j));
    }
}

/// A Hurl file is read to the end of the text, or not at all.
pub proof fn law_hurl_file_reads_all(s: Seq<char>, c: int)
    ensures
        spec_hurl_file(s, c).0 is Ok ==> spec_hurl_file(s, c).1 >= s.len(),
{
}

/// Base64 digits stand for three bytes for every four, then one byte for two left
/// over, two for three, and none for one.
pub proof fn law_base64_length(d: Seq<u8>)
    ensures
        decode(d).len() == d.len() / 4 * 3 + (if d.len() % 4 == 2 {
            1int
        } else if d.len() % 4 == 3 {
            2int
        } else {
            0int
        }),
    decreases d.len(),
{
    if d.len() >= 4 {
        law_base64_length(d.subrange(4, d.len() as int));
    }
}

/// A status written as `*` is any status; one written as decimal digits (one digit,
/// or several not starting with `0`) whose number fits in a `u64` is that number,
/// whatever the number is. Either way the status ends where its characters end.
pub proof fn law_status_read(s: Seq<char>, c: int)
    requires
        0 <= c < s.len(),
    ensures
        s[c] == '*' ==> spec_status(s, c) == (
            Ok::<Status, SpecError>(Status { value: StatusValue::Any, source_info: span(s, c, c + 1) }),
            c + 1,
        ),
        ({
            let e = digits_end(s, c + 1);
            is_digit(s[c]) && (s[c] != '0' || e == c + 1) && digits_value(s, c, e) <= u64::MAX
                ==> spec_status(s, c) == (
                Ok::<Status, SpecError>(Status {
                    value: StatusValue::Specific(digits_value(s, c, e) as u64),
                    source_info: span(s, c, e),
                }),
                e,
            )
        }),
{
    reveal_strlit("*");
    assert(s.subrange(c, c + 1)[0] == s[c]);
    if s[c] == '*' {
        assert(s.subrange(c, c + 1) =~= "*"@);
    }
}

/// Keeps what was read before: a run of key-value lines read after `acc` starts with `acc`.
proof fn lemma_key_values_keep(s: Seq<char>, c: int, acc: Seq<SpecKeyValue>)
    ensures
        spec_key_values_from(s, c, acc).0 matches Ok(v) ==> v.len() >= acc.len() && v.subrange(0, acc.len() as int) == acc,
    decreases s.len() - c,
{
    if 0 <= c < s.len() {
        match spec_key_value(s, c) {
            (Ok(kv), c1) => {
                if c < c1 <= s.len() {
                    lemma_key_values_keep(s, c1, acc.push(kv));
                    if spec_key_values_from(s, c, acc).0 is Ok {
                        let v = spec_key_values_from(s, c, acc).0->Ok_0;
                        assert(v.subrange(0, acc.len() as int) =~= v.subrange(0, acc.len() + 1int).subrange(0, acc.len() as int));
                        assert(acc.push(kv).subrange(0, acc.len() as int) =~= acc);
                    }
                } else {
                    assert(acc.push(kv).subrange(0, acc.len() as int) =~= acc);
                }
            },
            _ => {
                assert(acc.subrange(0, acc.len() as int) =~= acc);
            },
        }
    } else {
        assert(acc.subrange(0, acc.len() as int) =~= acc);
    }
}

/// The key-value lines read at `c`: when one stands there, they start with it (unless a
/// later line is an error); when none does, there are none and the cursor stays.
pub proof fn law_key_values_take_the_first(s: Seq<char>, c: int)
    requires
        0 <= c <= s.len(),
    ensures
        spec_key_value(s, c).0 matches Ok(kv) ==> (spec_key_values(s, c).0 matches Ok(v) ==> v.len() > 0 && v[0] == kv),
        spec_key_value(s, c).0 matches Err(e) ==> e.recoverable ==> spec_key_values(s, c) == (Ok::<Seq<SpecKeyValue>, SpecError>(Seq::empty()), c),
{
    lemma_key_value_forward(s, c);
    if spec_key_value(s, c).0 is Ok {
        let kv = spec_key_value(s, c).0->Ok_0;
        let c1 = spec_key_value(s, c).1;
        lemma_key_values_keep(s, c1, Seq::empty().push(kv));
        if spec_key_values(s, c).0 is Ok {
            let v = spec_key_values(s, c).0->Ok_0;
            assert(v.subrange(0, 1)[0] == v[0]);
        }
    }
}

/// Where the status line of a response ends, when it is read from `c`.
pub open spec fn response_line_end(s: Seq<char>, c: int) -> int {
    let c1 = spec_optional_line_terminators(s, c).1;
    let c3 = spec_version(s, spaces_end(s, c1)).1;
    let c5 = spec_status(s, spec_one_or_more_spaces(s, c3).1).1;
    crate::primitives::spec_line_terminator(s, c5).1
}

/// Where the request line of a request ends, when it is read from `c`.
pub open spec fn request_line_end(s: Seq<char>, c: int) -> int {
    let c1 = spec_optional_line_terminators(s, c).1;
    let c3 = spec_method(s, spaces_end(s, c1)).1;
    let c5 = spec_url(s, spec_one_or_more_spaces(s, c3).1).1;
    crate::primitives::spec_line_terminator(s, c5).1
}

/// What a response holds after its status line: the key-value lines that follow it are
/// its headers (at least one when one follows), then come its sections, and its body is
/// the body read after them, whenever one can be read there.
pub proof fn law_response_parts(s: Seq<char>, c: int)
    requires
        0 <= c <= s.len(),
    ensures
        spec_response(s, c).0 matches Ok(r) ==> {
            let c1 = spec_optional_line_terminators(s, c).1;
            let c3 = spec_version(s, spaces_end(s, c1)).1;
            let c6 = response_line_end(s, c);
            let c7 = spec_key_values(s, c6).1;
            let c8 = spec_response_sections(s, c7).1;
            &&& spec_optional_line_terminators(s, c).0 matches Ok(lts) && lts == r.line_terminators
            &&& spec_version(s, spaces_end(s, c1)).0 matches Ok(v) && v == r.version
            &&& spec_status(s, spec_one_or_more_spaces(s, c3).1).0 matches Ok(st) && st == r.status
            &&& r.source_info == span(s, c, spec_response(s, c).1)
            &&& 0 <= c6 <= s.len()
            &&& spec_key_values(s, c6).0 == Ok::<Seq<SpecKeyValue>, SpecError>(r.headers)
            &&& (spec_key_value(s, c6).0 matches Ok(kv) ==> r.headers.len() > 0 && r.headers[0] == kv)
            &&& spec_response_sections(s, c7).0 matches Ok(sections) && sections == r.sections
            &&& (spec_body(s, c8).0 matches Ok(b) ==> r.body == Some(b) && spec_response(s, c).1 == spec_body(s, c8).1)
            &&& (spec_body(s, c8).0 is Err ==> r.body is None && spec_response(s, c).1 == c8)
        },
{
    if spec_response(s, c).0 is Ok {
        lemma_line_terminators_forward(s, c, Seq::empty());
        let c1 = spec_optional_line_terminators(s, c).1;
        lemma_run_end(s, c1, |ch: char| is_space(ch));
        let c2 = spaces_end(s, c1);
        reveal_strlit("HTTP/");
        let c3 = spec_version(s, c2).1;
        assert(c2 <= c3 <= s.len()) by {
            reveal_strlit("1.0");
            reveal_strlit("1.1");
            reveal_strlit("2");
            reveal_strlit("*");
        }
        lemma_run_end(s, c3, |ch: char| is_space(ch));
        let c4 = spec_one_or_more_spaces(s, c3).1;
        reveal_strlit("*");
        if c4 < s.len() && is_digit(s[c4]) {
            lemma_run_end(s, c4 + 1, |ch: char| is_digit(ch));
        }
        let c5 = spec_status(s, c4).1;
        assert(c4 <= c5 <= s.len());
        crate::primitives::lemma_line_terminator_forward(s, c5);
        law_key_values_take_the_first(s, response_line_end(s, c));
    }
}

/// What a request holds after its request line: the key-value lines that follow it
/// are its headers, then come its sections, and its body is the body read after them,
/// whenever one can be read there, whatever headers and sections came before.
pub proof fn law_request_parts(s: Seq<char>, c: int)
    ensures
        spec_request(s, c).0 matches Ok(r) ==> {
            let c1 = spec_optional_line_terminators(s, c).1;
            let c3 = spec_method(s, spaces_end(s, c1)).1;
            let c6 = request_line_end(s, c);
            let c7 = spec_key_values(s, c6).1;
            let c8 = spec_request_sections(s, c7).1;
            &&& spec_optional_line_terminators(s, c).0 matches Ok(lts) && lts == r.line_terminators
            &&& spec_method(s, spaces_end(s, c1)).0 == Ok::<Method, SpecError>(r.method)
            &&& spec_url(s, spec_one_or_more_spaces(s, c3).1).0 matches Ok(u) && u == r.url
            &&& r.source_info == span(s, c, spec_request(s, c).1)
            &&& spec_key_values(s, c6).0 == Ok::<Seq<SpecKeyValue>, SpecError>(r.headers)
            &&& spec_request_sections(s, c7).0 matches Ok(sections) && sections == r.sections
            &&& (spec_body(s, c8).0 matches Ok(b) ==> r.body == Some(b) && spec_request(s, c).1 == spec_body(s, c8).1)
            &&& (spec_body(s, c8).0 is Err ==> r.body is None && spec_request(s, c).1 == c8)
        },
{
}

/// An entry is a request and, when a response can be read right after it (blank lines
/// and comments first included), that response; when none can, the entry ends with
/// the request.
pub proof fn law_entry_takes_the_response(s: Seq<char>, c: int)
    ensures
        spec_request(s, c).0 matches Ok(rq) ==> {
            let c1 = spec_request(s, c).1;
            &&& (spec_response(s, c1).0 matches Ok(rs) ==> spec_entry(s, c) == (
                Ok::<SpecEntry, SpecError>(SpecEntry { request: rq, response: Some(rs) }),
                spec_response(s, c1).1,
            ))
            &&& (spec_response(s, c1).0 matches Err(e) ==> e.recoverable ==> spec_entry(s, c) == (
                Ok::<SpecEntry, SpecError>(SpecEntry { request: rq, response: None }),
                c1,
            ))
            &&& (spec_response(s, c1).0 matches Err(e) ==> !e.recoverable ==> spec_entry(s, c) == (
                Err::<SpecEntry, SpecError>(e),
                spec_response(s, c1).1,
            ))
        },
        spec_request(s, c).0 matches Err(e) ==> spec_entry(s, c).0 == Err::<SpecEntry, SpecError>(e),
{
}

/// The base64 alphabet: the 64 characters below stand, in order, for 0 to 63, and no
/// other character is a digit.
pub proof fn law_base64_alphabet(ch: char)
    ensures
        forall|i: int| 0 <= i < 64 ==> digit_value(
            #[trigger] "ABCDEFGHIJKLMNOPQRSTUVWXYZabcdefghijklmnopqrstuvwxyz0123456789+/"@[i],
        ) == Some(i as u8),
        digit_value(ch) matches Some(v) ==> v < 64 && "ABCDEFGHIJKLMNOPQRSTUVWXYZabcdefghijklmnopqrstuvwxyz0123456789+/"@[v as int] == ch,
{
    reveal_strlit("ABCDEFGHIJKLMNOPQRSTUVWXYZabcdefghijklmnopqrstuvwxyz0123456789+/");
}

/// Four digits stand for three bytes that hold, high bits first, the six bits of
/// each digit in turn.
pub proof fn law_base64_group_bits(d: Seq<u8>)
    requires
        d.len() == 4,
        forall|i: int| 0 <= i < 4 ==> d[i] < 64,
    ensures
        decode(d).len() == 3,
        decode(d)[0] as int * 65536 + decode(d)[1] as int * 256 + decode(d)[2] as int
            == d[0] as int * 262144 + d[1] as int * 4096 + d[2] as int * 64 + d[3] as int,
{
    let (a, b, c, e) = (d[0], d[1], d[2], d[3]);
    assert(d.subrange(4, 4) =~= Seq::<u8>::empty());
    assert(decode(d.subrange(4, 4)) =~= Seq::<u8>::empty());
    assert(decode(d) =~= seq![first_byte(a, b), second_byte(b, c), third_byte(c, e)]);
    assert(first_byte(a, b) as int == a * 4 + b / 16);
    assert(second_byte(b, c) as int == (b % 16) * 16 + c / 4);
    assert(third_byte(c, e) as int == (c % 4) * 64 + e);
    assert((a * 4 + b / 16) * 65536 + ((b % 16) * 16 + c / 4) * 256 + (c % 4) * 64 + e
        == a * 262144 + b * 4096 + c * 64 + e) by (nonlinear_arith)
        requires
            a < 64,
            b < 64,
            c < 64,
            e < 64,
    {
        assert(b == 16 * (b / 16) + b % 16);
        assert(c == 4 * (c / 4) + c % 4);
    }
}

/// The text an expression is written with.
pub open spec fn expr_text(x: SpecExpr) -> Seq<char> {
    "{{"@ + x.space0.value + x.variable.name + x.space1.value + "}}"@
}

/// The text a template's elements are written with, one after the other.
pub open spec fn elements_text(elements: Seq<SpecTemplateElement>) -> Seq<char>
    decreases elements.len(),
{
    if elements.len() == 0 {
        Seq::empty()
    } else {
        elements_text(elements.drop_last()) + match elements.last() {
            SpecTemplateElement::String { value, .. } => value,
            SpecTemplateElement::Expression(x) => expr_text(x),
        }
    }
}

/// An expression that is read is the text it was read from.
pub proof fn law_expr_text(s: Seq<char>, c: int)
    requires
        0 <= c <= s.len(),
    ensures
        spec_expr(s, c).0 matches Ok(x) ==> c < spec_expr(s, c).1 <= s.len() && expr_text(x) == s.subrange(c, spec_expr(s, c).1),
{
    reveal_strlit("{{");
    reveal_strlit("}}");
    if spec_expr(s, c).0 is Ok {
        let c1 = c + 2;
        lemma_run_end(s, c1, |ch: char| is_space(ch));
        let c2 = spaces_end(s, c1);
        lemma_run_end(s, c2, |ch: char| is_variable_char(ch));
        let c3 = variable_end(s, c2);
        lemma_run_end(s, c3, |ch: char| is_space(ch));
        let c4 = spaces_end(s, c3);
        let c5 = c4 + 2;
        assert(s.subrange(c, c5) =~= s.subrange(c, c1) + s.subrange(c1, c2) + s.subrange(c2, c3)
            + s.subrange(c3, c4) + s.subrange(c4, c5));
    }
}

proof fn lemma_url_from_text(s: Seq<char>, c0: int, b: int, c: int, acc: Seq<SpecTemplateElement>)
    requires
        0 <= c0 <= b <= c <= s.len(),
        elements_text(acc) == s.subrange(c0, b),
    ensures
        url_from(s, c0, b, c, acc).0 matches Ok(t) ==> {
            let e = url_from(s, c0, b, c, acc).1;
            c0 <= e <= s.len() && elements_text(t.elements) == s.subrange(c0, e)
        },
    decreases s.len() - c,
{
    let w = with_text(s, b, c, acc);
    if b < c {
        assert(w.drop_last() =~= acc);
        assert(s.subrange(c0, c) =~= s.subrange(c0, b) + s.subrange(b, c));
    }
    assert(elements_text(w) == s.subrange(c0, c));
    if c < s.len() && !(crate::primitives::spec_line_terminator(s, c).0 is Ok) {
        law_expr_text(s, c);
        match spec_expr(s, c) {
            (Ok(x), c1) => {
                if c < c1 <= s.len() {
                    let acc2 = w.push(SpecTemplateElement::Expression(x));
                    assert(acc2.drop_last() =~= w);
                    assert(s.subrange(c0, c1) =~= s.subrange(c0, c) + s.subrange(c, c1));
                    lemma_url_from_text(s, c0, c1, c1, acc2);
                }
            },
            (Err(e), _) => {
                if e.recoverable && is_url_char(s[c]) {
                    lemma_url_from_text(s, c0, b, c + 1, acc);
                }
            },
        }
    }
}

/// A url that is read is the text it was read from: its text parts and expressions,
/// written one after the other, give back the text from the cursor to where the url
/// ends.
pub proof fn law_url_is_its_text(s: Seq<char>, c: int)
    requires
        0 <= c <= s.len(),
    ensures
        spec_url(s, c).0 matches Ok(t) ==> c <= spec_url(s, c).1 <= s.len()
            && elements_text(t.elements) == s.subrange(c, spec_url(s, c).1),
{
    if c < s.len() {
        assert(elements_text(Seq::empty()) == s.subrange(c, c));
        lemma_url_from_text(s, c, c, c, Seq::empty());
    }
}

/// Keeps what was read before: entries read after `acc` start with `acc`.
proof fn lemma_entries_keep(s: Seq<char>, c: int, acc: Seq<SpecEntry>)
    ensures
        spec_entries_from(s, c, acc).0 matches Ok(v) ==> v.len() >= acc.len() && v.subrange(0, acc.len() as int) == acc,
    decreases s.len() - c,
{
    assert(acc.subrange(0, acc.len() as int) =~= acc);
    if 0 <= c < s.len() {
        match spec_entry(s, c) {
            (Ok(x), c1) => {
                assert(acc.push(x).subrange(0, acc.len() as int) =~= acc);
                if c < c1 <= s.len() {
                    lemma_entries_keep(s, c1, acc.push(x));
                    if spec_entries_from(s, c, acc).0 is Ok {
                        let v = spec_entries_from(s, c, acc).0->Ok_0;
                        assert(v.subrange(0, acc.len() as int) =~= v.subrange(0, acc.len() + 1int).subrange(0, acc.len() as int));
                    }
                }
            },
            _ => {},
        }
    }
}

/// The entries of a Hurl file are the entries read from its start: when an entry can
/// be read there, it is the first; when none can (the error is recoverable), the file
/// has no entry.
pub proof fn law_hurl_file_entries(s: Seq<char>, c: int)
    requires
        0 <= c < s.len(),
    ensures
        spec_hurl_file(s, c).0 matches Ok(f) ==> {
            &&& spec_entry(s, c).0 matches Ok(x) ==> f.entries.len() > 0 && f.entries[0] == x
            &&& spec_entry(s, c).0 matches Err(e) ==> f.entries.len() == 0
        },
{
    if spec_entry(s, c).0 is Ok {
        let x = spec_entry(s, c).0->Ok_0;
        let c1 = spec_entry(s, c).1;
        lemma_entries_keep(s, c1, Seq::empty().push(x));
        if spec_entries_from(s, c, Seq::empty()).0 is Ok {
            let v = spec_entries_from(s, c, Seq::empty()).0->Ok_0;
            assert(v.subrange(0, 1)[0] == v[0]);
        }
    }
}

/// A body is read as its lines of blanks and comments, its blanks, its content and
/// the end of its line, each read where the one before ended.
pub proof fn law_body_parts(s: Seq<char>, c: int)
    ensures
        spec_body(s, c).0 matches Ok(b) ==> {
            let c1 = spec_optional_line_terminators(s, c).1;
            let c2 = spaces_end(s, c1);
            let c3 = spec_bytes(s, c2).1;
            &&& spec_optional_line_terminators(s, c).0 matches Ok(lts) && lts == b.line_terminators
            &&& b.space0.value == s.subrange(c1, c2)
            &&& spec_bytes(s, c2).0 matches Ok(v) && v == b.value
            &&& crate::primitives::spec_line_terminator(s, c3).0 matches Ok(lt) && lt == b.line_terminator0
            &&& spec_body(s, c).1 == crate::primitives::spec_line_terminator(s, c3).1
        },
{
}

proof fn lemma_template_from_text(s: Seq<char>, e: int, c0: int, b: int, c: int, acc: Seq<SpecTemplateElement>)
    requires
        0 <= c0 <= b <= c <= e <= s.len(),
        elements_text(acc) == s.subrange(c0, b),
    ensures
        template_from(s, e, b, c, acc).0 matches Ok(els) ==> template_from(s, e, b, c, acc).1 == e
            && elements_text(els) == s.subrange(c0, e),
    decreases e - c,
{
    let w = with_text(s, b, c, acc);
    if b < c {
        assert(w.drop_last() =~= acc);
        assert(s.subrange(c0, c) =~= s.subrange(c0, b) + s.subrange(b, c));
    }
    assert(elements_text(w) == s.subrange(c0, c));
    if c < e {
        law_expr_text(s, c);
        match spec_expr(s, c) {
            (Ok(x), c1) => {
                if c < c1 <= e {
                    let acc2 = w.push(SpecTemplateElement::Expression(x));
                    assert(acc2.drop_last() =~= w);
                    assert(s.subrange(c0, c1) =~= s.subrange(c0, c) + s.subrange(c, c1));
                    lemma_template_from_text(s, e, c0, c1, c1, acc2);
                } else {
                    lemma_template_from_text(s, e, c0, b, c + 1, acc);
                }
            },
            (Err(er), _) => {
                if er.recoverable {
                    lemma_template_from_text(s, e, c0, b, c + 1, acc);
                }
            },
        }
    }
}

/// A value written to the end of its line is the text of that line, up to a comment
/// or the newline, without the blanks that end it: its text parts and expressions,
/// written one after the other, give that text back.
pub proof fn law_unquoted_template_text(s: Seq<char>, c: int)
    requires
        0 <= c <= s.len(),
    ensures
        spec_unquoted_template(s, c).0 matches Ok(t) ==> {
            let e = trim_end(s, c, line_end(s, c));
            &&& spec_unquoted_template(s, c).1 == e
            &&& elements_text(t.elements) == s.subrange(c, e)
            &&& t.source_info == span(s, c, e)
        },
{
    lemma_line_end(s, c);
    lemma_trim_end(s, c, line_end(s, c));
    assert(elements_text(Seq::empty()) == s.subrange(c, c));
    lemma_template_from_text(s, trim_end(s, c, line_end(s, c)), c, c, c, Seq::empty());
}

/// A `key: value` line holds its key as written, and as value the rest of its line
/// (up to a comment or the newline, without the blanks that end it).
pub proof fn law_key_value_text(s: Seq<char>, c: int)
    requires
        0 <= c <= s.len(),
    ensures
        spec_key_value(s, c).0 matches Ok(kv) ==> {
            let c2 = spaces_end(s, spec_optional_line_terminators(s, c).1);
            let c3 = key_end(s, c2);
            let c6 = spaces_end(s, spaces_end(s, c3) + 1);
            let e = trim_end(s, c6, line_end(s, c6));
            &&& kv.key.value == s.subrange(c2, c3)
            &&& c2 < c3
            &&& elements_text(kv.value.elements) == s.subrange(c6, e)
        },
{
    reveal_strlit(":");
    if spec_key_value(s, c).0 is Ok {
        lemma_line_terminators_forward(s, c, Seq::empty());
        let c1 = spec_optional_line_terminators(s, c).1;
        lemma_run_end(s, c1, |ch: char| is_space(ch));
        let c2 = spaces_end(s, c1);
        lemma_run_end(s, c2, |ch: char| is_key_char(ch));
        let c3 = key_end(s, c2);
        lemma_run_end(s, c3, |ch: char| is_space(ch));
        let c4 = spaces_end(s, c3);
        lemma_run_end(s, c4 + 1, |ch: char| is_space(ch));
        law_unquoted_template_text(s, spaces_end(s, c4 + 1));
    }
}

/// A multiline string holds the text between its opening backquotes (and the newline
/// that may follow them) and the first closing backquotes after it, which end it.
pub proof fn law_raw_string_text(s: Seq<char>, c: int)
    requires
        0 <= c <= s.len(),
    ensures
        spec_raw_string(s, c).0 matches Ok(SpecBytes::RawString { value, .. }) ==> {
            let c1 = c + 3;
            let b = match crate::primitives::spec_newline(s, c1) {
                (Ok(_), c2) => c2,
                (Err(_), _) => c1,
            };
            let e = raw_end(s, b);
            &&& s.subrange(c, c1) == "```"@
            &&& elements_text(value.elements) == s.subrange(b, e)
            &&& e + 3 <= s.len() && s.subrange(e, e + 3) == "```"@
            &&& spec_raw_string(s, c).1 == e + 3
        },
{
    reveal_strlit("```");
    if spec_raw_string(s, c).0 is Ok {
        let c1 = c + 3;
        let b = match crate::primitives::spec_newline(s, c1) {
            (Ok(_), c2) => c2,
            (Err(_), _) => c1,
        };
        lemma_raw_end(s, b);
        assert(elements_text(Seq::empty()) == s.subrange(b, b));
        lemma_template_from_text(s, raw_end(s, b), b, b, b, Seq::empty());
    }
}

/// A JSON number is kept as the text it was read from: that text starts with a digit
/// or `-`, and holds only digits, signs, `.`, `e` and `E`.
pub proof fn law_json_number_text(s: Seq<char>, c: int)
    requires
        0 <= c <= s.len(),
    ensures
        spec_json_value(s, c).0 matches Ok(SpecJsonValue::Number(n)) ==> {
            let e = spec_json_value(s, c).1;
            &&& c < e <= s.len()
            &&& n == s.subrange(c, e)
            &&& (is_digit(n[0]) || n[0] == '-')
            &&& forall|k: int| 0 <= k < n.len() ==> (is_digit(#[trigger] n[k]) || n[k] == '-' || n[k] == '+'
                || n[k] == '.' || n[k] == 'e' || n[k] == 'E')
        },
{
    reveal_strlit("null");
    reveal_strlit("true");
    reveal_strlit("false");
    if number_starts(s, c) && !starts_with(s, c, "null"@) && !starts_with(s, c, "true"@)
        && !starts_with(s, c, "false"@) && !(c < s.len() && s[c] == '"') {
        let c1 = if c < s.len() && s[c] == '-' { c + 1 } else { c };
        lemma_run_end(s, c1, |ch: char| is_digit(ch));
        let c2 = if c1 < s.len() && s[c1] == '0' { c1 + 1 } else { digits_end(s, c1) };
        if c2 < s.len() && s[c2] == '.' {
            lemma_run_end(s, c2 + 1, |ch: char| is_digit(ch));
        }
        let c3 = if c2 < s.len() && s[c2] == '.' { digits_end(s, c2 + 1) } else { c2 };
        if c3 < s.len() && (s[c3] == 'e' || s[c3] == 'E') {
            let c4 = if c3 + 1 < s.len() && (s[c3 + 1] == '+' || s[c3 + 1] == '-') { c3 + 2 } else { c3 + 1 };
            lemma_run_end(s, c4, |ch: char| is_digit(ch));
        }
        if spec_json_value(s, c).0 is Ok {
            let e = spec_json_value(s, c).1;
            let n = s.subrange(c, e);
            assert forall|k: int| 0 <= k < n.len() implies (is_digit(#[trigger] n[k]) || n[k] == '-' || n[k] == '+'
                || n[k] == '.' || n[k] == 'e' || n[k] == 'E') by {
                assert(n[k] == s[c + k]);
            }
        }
    }
}

} // verus!
