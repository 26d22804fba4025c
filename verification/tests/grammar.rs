use hurl_core::asserts::{assert_line, capture, integer, predicate, query};
use hurl_core::ast::{
    Bytes, JsonValue, Method, Pos, PredicateFuncValue, PredicateValue, QueryValue, SectionValue,
    SourceInfo, StatusValue, TemplateElement, VersionValue,
};
use hurl_core::base64;
use hurl_core::error::ParseError;
use hurl_core::expr;
use hurl_core::json;
use hurl_core::keyvalue::{key_value, unquoted_template};
use hurl_core::parsers::{body, entry, hurl_file, method, request, response, status, url, version};
use hurl_core::primitives::{
    comment, eof, line_terminator, literal, natural, newline, one_or_more_spaces,
    optional_line_terminators, try_literal, zero_or_more_spaces,
};
use hurl_core::reader::Reader;

fn text(t: &hurl_core::ast::Template) -> String {
    let mut s = String::new();
    for e in &t.elements {
        match e {
            TemplateElement::String { value, .. } => s.push_str(value),
            TemplateElement::Expression(x) => {
                s.push_str("{{");
                s.push_str(&x.variable.name);
                s.push_str("}}");
            }
        }
    }
    s
}

#[test]
fn every_method_is_read_by_its_name() {
    let cases = [
        ("GET", Method::Get),
        ("HEAD", Method::Head),
        ("POST", Method::Post),
        ("PUT", Method::Put),
        ("DELETE", Method::Delete),
        ("CONNECT", Method::Connect),
        ("OPTIONS", Method::Options),
        ("TRACE", Method::Trace),
        ("PATCH", Method::Patch),
    ];
    for (name, m) in cases {
        let mut reader = Reader::init(&format!("{} /", name));
        assert_eq!(method(&mut reader), Ok(m));
        assert_eq!(reader.state.cursor, name.len());
    }
}

#[test]
fn unknown_method_is_recoverable_only_at_the_end() {
    let mut reader = Reader::init("get");
    let e = method(&mut reader).err().unwrap();
    assert_eq!(e.inner, ParseError::Method {});
    assert!(!e.recoverable);
    assert_eq!(reader.state.cursor, 0);

    let mut reader = Reader::init("");
    let e = method(&mut reader).err().unwrap();
    assert!(e.recoverable);
}

#[test]
fn every_version_is_read_by_its_name() {
    let cases = [
        ("HTTP/1.0", VersionValue::Version1, 9),
        ("HTTP/1.1", VersionValue::Version11, 9),
        ("HTTP/2", VersionValue::Version2, 7),
        ("HTTP/*", VersionValue::VersionAny, 7),
    ];
    for (t, v, end_column) in cases {
        let mut reader = Reader::init(t);
        let version = version(&mut reader).unwrap();
        assert_eq!(version.value, v);
        assert_eq!(version.source_info, SourceInfo::init(1, 6, 1, end_column));
    }
}

#[test]
fn missing_http_prefix_is_recoverable() {
    let mut reader = Reader::init("HTTQ/1.1");
    let e = version(&mut reader).err().unwrap();
    assert!(e.recoverable);
    assert_eq!(reader.state.cursor, 0);
    assert_eq!(e.inner, ParseError::Expecting { value: "HTTP/".to_string() });
}

#[test]
fn status_codes() {
    let mut reader = Reader::init("0");
    assert_eq!(status(&mut reader).unwrap().value, StatusValue::Specific(0));

    let mut reader = Reader::init("404 ");
    let s = status(&mut reader).unwrap();
    assert_eq!(s.value, StatusValue::Specific(404));
    assert_eq!(s.source_info, SourceInfo::init(1, 1, 1, 4));
    assert_eq!(reader.state.cursor, 3);

    let mut reader = Reader::init("*");
    let s = status(&mut reader).unwrap();
    assert_eq!(s.source_info, SourceInfo::init(1, 1, 1, 2));

    // a leading zero
    let mut reader = Reader::init("01");
    let e = status(&mut reader).err().unwrap();
    assert_eq!(e.inner, ParseError::Status {});
    assert!(!e.recoverable);

    // past u64::MAX
    let mut reader = Reader::init("99999999999999999999");
    assert_eq!(status(&mut reader).err().unwrap().inner, ParseError::Status {});

    let mut reader = Reader::init("18446744073709551615");
    assert_eq!(status(&mut reader).unwrap().value, StatusValue::Specific(u64::MAX));
}

#[test]
fn natural_numbers() {
    let mut reader = Reader::init("123x");
    assert_eq!(natural(&mut reader), Ok(123));
    assert_eq!(reader.state.cursor, 3);

    let mut reader = Reader::init("x");
    let e = natural(&mut reader).err().unwrap();
    assert!(e.recoverable);
    assert_eq!(e.inner, ParseError::Expecting { value: "natural".to_string() });

    let mut reader = Reader::init("007");
    let e = natural(&mut reader).err().unwrap();
    assert!(!e.recoverable);
    assert_eq!(e.pos, Pos { line: 1, column: 2 });
}

#[test]
fn literals() {
    let mut reader = Reader::init("abd");
    let e = literal("abc", &mut reader).err().unwrap();
    assert!(!e.recoverable);
    assert_eq!(e.pos, Pos { line: 1, column: 1 });
    assert_eq!(reader.state.cursor, 3);

    let mut reader = Reader::init("ab");
    assert!(literal("abc", &mut reader).is_err());
    assert_eq!(reader.state.cursor, 0);

    let mut reader = Reader::init("abd");
    let e = try_literal("abc", &mut reader).err().unwrap();
    assert!(e.recoverable);
    assert_eq!(reader.state.cursor, 0);

    let mut reader = Reader::init("abc!");
    assert!(try_literal("abc", &mut reader).is_ok());
    assert_eq!(reader.state.cursor, 3);
}

#[test]
fn blanks() {
    let mut reader = Reader::init(" \t x");
    let w = zero_or_more_spaces(&mut reader).unwrap();
    assert_eq!(w.value, " \t ");
    assert_eq!(w.source_info, SourceInfo::init(1, 1, 1, 4));

    let mut reader = Reader::init("x");
    let w = zero_or_more_spaces(&mut reader).unwrap();
    assert_eq!(w.value, "");
    assert_eq!(reader.state.cursor, 0);

    let mut reader = Reader::init("x");
    let e = one_or_more_spaces(&mut reader).err().unwrap();
    assert_eq!(e.inner, ParseError::Space {});
    assert!(!e.recoverable);
}

#[test]
fn newlines_and_positions() {
    let mut reader = Reader::init("\r\nx");
    let nl = newline(&mut reader).unwrap();
    assert_eq!(nl.value, "\r\n");
    assert_eq!(nl.source_info, SourceInfo::init(1, 1, 2, 1));
    assert_eq!(reader.state.pos, Pos { line: 2, column: 1 });

    let mut reader = Reader::init("x");
    let e = newline(&mut reader).err().unwrap();
    assert_eq!(e.inner, ParseError::Expecting { value: "newline".to_string() });
}

#[test]
fn comments_hold_no_newline() {
    let mut reader = Reader::init("# a comment\nGET");
    let c = comment(&mut reader).unwrap();
    assert_eq!(c.value, " a comment");
    assert_eq!(reader.state.cursor, 11);

    let mut reader = Reader::init("  # x\r\n");
    let lt = line_terminator(&mut reader).unwrap();
    assert_eq!(lt.space0.value, "  ");
    assert_eq!(lt.comment.unwrap().value, " x");
    assert_eq!(lt.newline.value, "\r\n");
}

#[test]
fn line_terminator_needs_a_newline() {
    let mut reader = Reader::init("  x");
    let e = line_terminator(&mut reader).err().unwrap();
    assert_eq!(e.inner, ParseError::Expecting { value: "line_terminator".to_string() });
    assert_eq!(e.pos, Pos { line: 1, column: 3 });
    assert!(!e.recoverable);
}

#[test]
fn optional_line_terminators_never_fail() {
    let mut reader = Reader::init("\n# c\n  \nGET");
    let lts = optional_line_terminators(&mut reader).unwrap();
    assert_eq!(lts.len(), 3);
    assert_eq!(reader.state.cursor, 8);

    let mut reader = Reader::init("GET");
    assert_eq!(optional_line_terminators(&mut reader).unwrap().len(), 0);
    assert_eq!(reader.state.cursor, 0);
}

#[test]
fn eof_at_the_end_only() {
    let mut reader = Reader::init("x");
    assert!(eof(&mut reader).is_err());
    reader.read();
    assert!(eof(&mut reader).is_ok());
}

#[test]
fn hurl_file_reads_all_of_the_text() {
    let mut reader = Reader::init("GET http://a.fr\n\n# end\n");
    let f = hurl_file(&mut reader).unwrap();
    assert_eq!(f.entries.len(), 1);
    assert_eq!(f.line_terminators.len(), 2);
    assert_eq!(reader.state.cursor, reader.buffer.len());

    let mut reader = Reader::init("");
    let f = hurl_file(&mut reader).unwrap();
    assert_eq!(f.entries.len(), 0);

    let mut reader = Reader::init("GET http://a.fr\nxxx");
    let e = hurl_file(&mut reader).err().unwrap();
    assert_eq!(e.inner, ParseError::Method {});
    assert_eq!(e.pos, Pos { line: 2, column: 1 });
}

#[test]
fn several_entries_with_responses() {
    let mut reader = Reader::init(
        "GET http://a.fr\nHTTP/1.0 200\n\nPOST http://b.fr\nHTTP/2 *\n",
    );
    let f = hurl_file(&mut reader).unwrap();
    assert_eq!(f.entries.len(), 2);
    assert_eq!(f.entries[0].response.as_ref().unwrap().status.value, StatusValue::Specific(200));
    assert_eq!(f.entries[1].request.method, Method::Post);
    assert_eq!(f.entries[1].request.line_terminators.len(), 1);
    assert_eq!(f.entries[1].response.as_ref().unwrap().version.value, VersionValue::Version2);
    assert_eq!(f.entries[1].response.as_ref().unwrap().status.value, StatusValue::Any);
}

#[test]
fn entry_without_response() {
    let mut reader = Reader::init("GET http://a.fr\n");
    let e = entry(&mut reader).unwrap();
    assert!(e.response.is_none());
}

#[test]
fn request_needs_a_blank_after_the_method() {
    let mut reader = Reader::init("GEThttp://a.fr");
    let e = request(&mut reader).err().unwrap();
    assert_eq!(e.inner, ParseError::Space {});
    assert_eq!(e.pos, Pos { line: 1, column: 4 });
}

#[test]
fn url_characters() {
    let mut reader = Reader::init("http://café.fr/a?b=c&d=e_f%20,@* x");
    let t = url(&mut reader).unwrap();
    assert_eq!(text(&t), "http://café.fr/a?b=c&d=e_f%20,@*");
    assert!(!t.quotes);

    // a character that may not stand in a url ends it
    let mut reader = Reader::init("http://a.fr<b");
    let t = url(&mut reader).unwrap();
    assert_eq!(text(&t), "http://a.fr");
    assert_eq!(reader.state.cursor, 11);

    let mut reader = Reader::init("");
    assert_eq!(url(&mut reader).err().unwrap().inner, ParseError::Url {});

    let mut reader = Reader::init("<");
    let e = url(&mut reader).err().unwrap();
    assert_eq!(e.inner, ParseError::Url {});
    assert_eq!(reader.state.cursor, 0);
}

#[test]
fn url_ending_with_an_expression() {
    let mut reader = Reader::init("{{ base }}/path{{x}}");
    let t = url(&mut reader).unwrap();
    assert_eq!(t.elements.len(), 3);
    assert_eq!(text(&t), "{{base}}/path{{x}}");
    match &t.elements[0] {
        TemplateElement::Expression(e) => {
            assert_eq!(e.space0.value, " ");
            assert_eq!(e.space1.value, " ");
        }
        _ => panic!("expected an expression"),
    }
}

#[test]
fn expression_errors() {
    let mut reader = Reader::init("{{}}");
    let e = expr::parse(&mut reader).err().unwrap();
    assert_eq!(e.inner, ParseError::TemplateVariable {});
    assert!(!e.recoverable);

    let mut reader = Reader::init("{x}");
    let e = expr::parse(&mut reader).err().unwrap();
    assert!(e.recoverable);
    assert_eq!(reader.state.cursor, 0);
}

#[test]
fn headers_trim_trailing_blanks() {
    let mut reader = Reader::init("Content-Type :  text/{{kind}}  # c\nx");
    let kv = key_value(&mut reader).unwrap();
    assert_eq!(kv.key.value, "Content-Type");
    assert_eq!(kv.space1.value, " ");
    assert_eq!(kv.space2.value, "  ");
    assert_eq!(text(&kv.value), "text/{{kind}}");
    assert_eq!(kv.value.source_info, SourceInfo::init(1, 17, 1, 30));
    assert_eq!(kv.line_terminator0.comment.unwrap().value, " c");
    assert_eq!(reader.state.cursor, 35);
}

#[test]
fn empty_header_value() {
    let mut reader = Reader::init("x:\n");
    let kv = key_value(&mut reader).unwrap();
    assert_eq!(kv.value.elements.len(), 0);
}

#[test]
fn key_value_without_colon_is_recoverable() {
    let mut reader = Reader::init("abc def");
    let e = key_value(&mut reader).err().unwrap();
    assert!(e.recoverable);

    let mut reader = Reader::init("%");
    let e = key_value(&mut reader).err().unwrap();
    assert!(e.recoverable);
    assert_eq!(e.inner, ParseError::Expecting { value: "key string".to_string() });
}

#[test]
fn unclosed_expression_in_a_value() {
    let mut reader = Reader::init("{{x");
    let e = unquoted_template(&mut reader).err().unwrap();
    assert_eq!(e.inner, ParseError::Expecting { value: "}}".to_string() });
}

#[test]
fn request_with_headers_and_sections() {
    let mut reader = Reader::init(
        "GET http://a.fr\nAccept: */*\n[QueryStringParams]\nq: 1\np: 2\n[BasicAuth]\nbob: secret\n[Cookies]\nid: 3\n",
    );
    let r = request(&mut reader).unwrap();
    assert_eq!(r.headers.len(), 1);
    assert_eq!(r.sections.len(), 3);
    assert_eq!(r.sections[0].name(), "QueryStringParams");
    match &r.sections[0].value {
        SectionValue::QueryParams(v) => {
            assert_eq!(v.len(), 2);
            assert_eq!(v[1].key.value, "p");
        }
        _ => panic!("expected query parameters"),
    }
    match &r.sections[1].value {
        SectionValue::BasicAuth(kv) => assert_eq!(kv.key.value, "bob"),
        _ => panic!("expected basic auth"),
    }
    assert_eq!(r.sections[2].name(), "Cookies");
    assert_eq!(r.sections[0].source_info, SourceInfo::init(3, 1, 3, 20));
}

#[test]
fn form_and_multipart_sections() {
    let mut reader = Reader::init("POST http://a.fr\n[FormParams]\na: 1\n[MultipartFormData]\nb: 2\n");
    let r = request(&mut reader).unwrap();
    assert_eq!(r.sections[0].name(), "FormParams");
    assert_eq!(r.sections[1].name(), "MultipartFormData");
}

#[test]
fn duplicate_section_is_an_error_at_the_second_one() {
    let mut reader = Reader::init("GET http://a.fr\n[Cookies]\na: 1\n  [Cookies]\nb: 2\n");
    let e = request(&mut reader).err().unwrap();
    assert_eq!(e.inner, ParseError::DuplicateSection);
    assert_eq!(e.pos, Pos { line: 4, column: 3 });
    assert!(!e.recoverable);
}

#[test]
fn unknown_request_section() {
    let mut reader = Reader::init("GET http://a.fr\n[Foo]\n");
    let e = request(&mut reader).err().unwrap();
    assert_eq!(e.inner, ParseError::RequestSectionName { name: "Foo".to_string() });
    assert_eq!(e.pos, Pos { line: 2, column: 2 });
}

#[test]
fn unknown_response_section() {
    let mut reader = Reader::init("HTTP/1.1 200\n[Foo]\n");
    let e = response(&mut reader).err().unwrap();
    assert_eq!(e.inner, ParseError::ResponseSectionName { name: "Foo".to_string() });
}

#[test]
fn response_with_captures_and_asserts() {
    let mut reader = Reader::init(
        "HTTP/1.1 200\n[Captures]\ntoken: header \"X-Token\"\nid: jsonpath \"$.id\"\n[Asserts]\nstatus == 200\nbody contains \"ok\"\nheader \"A\" not exists\njsonpath \"$.n\" countEquals 3\n",
    );
    let r = response(&mut reader).unwrap();
    assert_eq!(r.sections.len(), 2);
    match &r.sections[0].value {
        SectionValue::Captures(v) => {
            assert_eq!(v.len(), 2);
            assert_eq!(v[0].name.value, "token");
            match &v[0].query.value {
                QueryValue::Header { name, .. } => assert_eq!(text(name), "X-Token"),
                _ => panic!("expected a header query"),
            }
        }
        _ => panic!("expected captures"),
    }
    match &r.sections[1].value {
        SectionValue::Asserts(v) => {
            assert_eq!(v.len(), 4);
            assert_eq!(v[0].query.value, QueryValue::Status {});
            match &v[0].predicate.predicate_func.value {
                PredicateFuncValue::Equal { value, .. } => assert_eq!(*value, PredicateValue::Integer(200)),
                _ => panic!("expected ==")
            }
            assert!(v[2].predicate.not);
            assert_eq!(v[2].predicate.predicate_func.value, PredicateFuncValue::Exist {});
            match &v[3].predicate.predicate_func.value {
                PredicateFuncValue::CountEqual { value, .. } => assert_eq!(*value, 3),
                _ => panic!("expected countEquals"),
            }
        }
        _ => panic!("expected asserts"),
    }
    assert_eq!(reader.state.cursor, reader.buffer.len());
}

#[test]
fn queries() {
    for (t, ok) in [
        ("status", true),
        ("url", true),
        ("body", true),
        ("cookie \"id\"", true),
        ("xpath \"//a\"", true),
        ("regex \"a+\"", true),
        ("variable \"v\"", true),
        ("header", false),
    ] {
        let mut reader = Reader::init(t);
        assert_eq!(query(&mut reader).is_ok(), ok, "{}", t);
    }
    let mut reader = Reader::init("nothing");
    let e = query(&mut reader).err().unwrap();
    assert!(e.recoverable);
}

#[test]
fn predicates() {
    for (t, expected) in [
        ("equals null", PredicateValue::Null {}),
        ("== true", PredicateValue::Bool(true)),
        ("!= false", PredicateValue::Bool(false)),
        ("notEquals -12", PredicateValue::Integer(-12)),
    ] {
        let mut reader = Reader::init(t);
        let p = predicate(&mut reader).unwrap();
        match p.predicate_func.value {
            PredicateFuncValue::Equal { value, .. } | PredicateFuncValue::NotEqual { value, .. } => {
                assert_eq!(value, expected)
            }
            _ => panic!("{}", t),
        }
    }
    let mut reader = Reader::init(">= 3");
    assert!(matches!(
        predicate(&mut reader).unwrap().predicate_func.value,
        PredicateFuncValue::GreaterThanOrEqual { value: 3, .. }
    ));
    let mut reader = Reader::init("greaterThan 3");
    assert!(matches!(
        predicate(&mut reader).unwrap().predicate_func.value,
        PredicateFuncValue::GreaterThan { value: 3, .. }
    ));
    let mut reader = Reader::init("lessThanOrEquals -9223372036854775808");
    assert!(matches!(
        predicate(&mut reader).unwrap().predicate_func.value,
        PredicateFuncValue::LessThanOrEqual { value: i64::MIN, .. }
    ));
    let mut reader = Reader::init("< 1");
    assert!(matches!(
        predicate(&mut reader).unwrap().predicate_func.value,
        PredicateFuncValue::LessThan { value: 1, .. }
    ));
    let mut reader = Reader::init("startsWith \"a\"");
    assert!(matches!(predicate(&mut reader).unwrap().predicate_func.value, PredicateFuncValue::StartWith { .. }));
    let mut reader = Reader::init("matches \"a\"");
    assert!(matches!(predicate(&mut reader).unwrap().predicate_func.value, PredicateFuncValue::Match { .. }));

    let mut reader = Reader::init("isFoo");
    assert_eq!(predicate(&mut reader).err().unwrap().inner, ParseError::Predicate {});
    let mut reader = Reader::init("== foo");
    assert_eq!(predicate(&mut reader).err().unwrap().inner, ParseError::PredicateValue {});
}

#[test]
fn integers() {
    let mut reader = Reader::init("9223372036854775807");
    assert_eq!(integer(&mut reader), Ok(i64::MAX));
    let mut reader = Reader::init("9223372036854775808");
    assert!(integer(&mut reader).is_err());
    let mut reader = Reader::init("-9223372036854775809");
    assert!(integer(&mut reader).is_err());
}

#[test]
fn capture_and_assert_lines() {
    let mut reader = Reader::init("n: body\n");
    assert_eq!(capture(&mut reader).unwrap().query.value, QueryValue::Body {});
    let mut reader = Reader::init("url startsWith \"https\"\n");
    assert_eq!(assert_line(&mut reader).unwrap().query.value, QueryValue::Url {});
}

#[test]
fn json_values() {
    let mut reader = Reader::init("{ \"a\" : [true, false, null], \"b\": -1.5e+3 , \"c\": \"x\\ny\\\"\" }");
    let v = json::parse(&mut reader).unwrap();
    match v {
        JsonValue::Object { space0, elements } => {
            assert_eq!(space0, " ");
            assert_eq!(elements.len(), 3);
            assert_eq!(elements[0].name, "a");
            assert_eq!(elements[0].space1, " ");
            assert_eq!(elements[0].space2, " ");
            match &elements[0].value {
                JsonValue::List { elements, .. } => {
                    assert_eq!(elements.len(), 3);
                    assert_eq!(elements[1].space0, " ");
                    assert_eq!(elements[2].value, JsonValue::Null);
                }
                _ => panic!("expected a list"),
            }
            assert_eq!(elements[1].value, JsonValue::Number("-1.5e+3".to_string()));
            assert_eq!(elements[1].space3, " ");
            match &elements[2].value {
                JsonValue::String(t) => match &t.elements[0] {
                    TemplateElement::String { value, encoded } => {
                        assert_eq!(value, "x\ny\"");
                        assert_eq!(encoded, "x\\ny\\\"");
                    }
                    _ => panic!("expected text"),
                },
                _ => panic!("expected a string"),
            }
        }
        _ => panic!("expected an object"),
    }
}

#[test]
fn json_errors() {
    let mut reader = Reader::init("[1,x]");
    let e = json::parse(&mut reader).err().unwrap();
    assert_eq!(e.inner, ParseError::Json {});
    assert_eq!(e.pos, Pos { line: 1, column: 4 });

    let mut reader = Reader::init("[1 2]");
    let e = json::parse(&mut reader).err().unwrap();
    assert_eq!(e.inner, ParseError::Expecting { value: "]".to_string() });

    let mut reader = Reader::init("1.");
    let e = json::parse(&mut reader).err().unwrap();
    assert_eq!(e.inner, ParseError::Expecting { value: "digits".to_string() });

    let mut reader = Reader::init("\"\\q\"");
    let e = json::parse(&mut reader).err().unwrap();
    assert_eq!(e.inner, ParseError::Expecting { value: "escape char".to_string() });

    let mut reader = Reader::init("x");
    let e = json::parse(&mut reader).err().unwrap();
    assert!(e.recoverable);
    assert_eq!(reader.state.cursor, 0);

    let mut reader = Reader::init("{\"a\" 1}");
    let e = json::parse(&mut reader).err().unwrap();
    assert_eq!(e.inner, ParseError::Expecting { value: ":".to_string() });
}

#[test]
fn raw_string_with_an_expression() {
    let mut reader = Reader::init("```{{name}}!```");
    let b = body(&mut reader).unwrap();
    match b.value {
        Bytes::RawString { newline0, value } => {
            assert_eq!(newline0.value, "");
            assert_eq!(value.elements.len(), 2);
            assert_eq!(text(&value), "{{name}}!");
        }
        _ => panic!("expected a raw string"),
    }
}

#[test]
fn unclosed_raw_string() {
    let mut reader = Reader::init("```\nabc");
    let e = body(&mut reader).err().unwrap();
    assert_eq!(e.inner, ParseError::Expecting { value: "```".to_string() });
    assert!(!e.recoverable);
}

#[test]
fn base64_digits_decode_to_bytes() {
    let mut reader = Reader::init("SGVsbG8gV29ybGQh;");
    assert_eq!(base64::parse(&mut reader), b"Hello World!".to_vec());
    assert_eq!(reader.state.cursor, 16);

    let mut reader = Reader::init("SGk=;");
    assert_eq!(base64::parse(&mut reader), b"Hi".to_vec());
    assert_eq!(reader.state.cursor, 4);

    let mut reader = Reader::init("QUJD\nREVG ==x");
    assert_eq!(base64::parse(&mut reader), b"ABCDEF".to_vec());
    assert_eq!(reader.state.cursor, 12);

    let mut reader = Reader::init("QUJDR;");
    assert_eq!(base64::parse(&mut reader), b"ABC".to_vec());
    assert_eq!(reader.state.cursor, 5);

    let mut reader = Reader::init("/+9A");
    assert_eq!(base64::parse(&mut reader), vec![0xff, 0xef, 0x40]);

    let mut reader = Reader::init(";");
    assert_eq!(base64::parse(&mut reader), Vec::<u8>::new());
    assert_eq!(reader.state.cursor, 0);
}

#[test]
fn base64_body() {
    let mut reader = Reader::init("base64, SGk= ;");
    let b = body(&mut reader).unwrap();
    match b.value {
        Bytes::Base64 { space0, value, encoded, space1 } => {
            assert_eq!(space0.value, " ");
            assert_eq!(value, b"Hi".to_vec());
            assert_eq!(encoded, "SGk=");
            assert_eq!(space1.value, " ");
            assert_eq!(space1.source_info, SourceInfo::init(1, 13, 1, 14));
        }
        _ => panic!("expected base64"),
    }
    assert_eq!(reader.state.cursor, 14);

    let mut reader = Reader::init("base64,SGk ;");
    match body(&mut reader).unwrap().value {
        Bytes::Base64 { encoded, space1, .. } => {
            assert_eq!(encoded, "SGk ");
            assert_eq!(space1.value, "");
        }
        _ => panic!("expected base64"),
    }

    let mut reader = Reader::init("base64,SGk");
    let e = body(&mut reader).err().unwrap();
    assert_eq!(e.inner, ParseError::Expecting { value: ";".to_string() });
    assert!(!e.recoverable);
}

#[test]
fn file_body() {
    let mut reader = Reader::init("file, data/in_put-1.bin;\n");
    let b = body(&mut reader).unwrap();
    match b.value {
        Bytes::File { space0, filename, space1 } => {
            assert_eq!(space0.value, " ");
            assert_eq!(filename.value, "data/in_put-1.bin");
            assert_eq!(filename.source_info, SourceInfo::init(1, 7, 1, 24));
            assert_eq!(space1.value, "");
        }
        _ => panic!("expected a file"),
    }
    assert_eq!(reader.state.cursor, 25);

    let mut reader = Reader::init("file, ;");
    let e = body(&mut reader).err().unwrap();
    assert_eq!(e.inner, ParseError::Filename {});
    assert_eq!(e.pos, Pos { line: 1, column: 7 });
    assert!(!e.recoverable);
}

#[test]
fn request_with_a_base64_body() {
    let mut reader = Reader::init("POST http://localhost:8000/data\nbase64,AQID;\n");
    let r = request(&mut reader).unwrap();
    match r.body.unwrap().value {
        Bytes::Base64 { value, .. } => assert_eq!(value, vec![1, 2, 3]),
        _ => panic!("expected base64"),
    }
    assert_eq!(reader.state.cursor, 45);
}

#[test]
fn unknown_body_is_left_to_what_follows() {
    let mut reader = Reader::init("<a/>");
    let e = body(&mut reader).err().unwrap();
    assert!(e.recoverable);
}
