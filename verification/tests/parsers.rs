use hurl_core::ast::{
    Body, Bytes, Comment, JsonListElement, JsonValue, LineTerminator, Method, Pos, Request,
    SourceInfo, StatusValue, Template, TemplateElement, VersionValue, Whitespace, Expr, Variable,
};
use hurl_core::error::ParseError;
use hurl_core::parsers::{body, entry, hurl_file, method, request, response, status, url, version};
use hurl_core::reader::Reader;

#[test]
fn test_hurl_file() {
    let mut reader = Reader::init("GET http://google.fr");
    let hurl_file = hurl_file(&mut reader).unwrap();
    assert_eq!(hurl_file.entries.len(), 1);
}

#[test]
fn test_entry() {
    let mut reader = Reader::init("GET http://google.fr");
    //println!("{:?}", entry(&mut reader));
    let e = entry(&mut reader).unwrap();
    assert_eq!(e.request.method, Method::Get);
    assert_eq!(reader.state.cursor, 20);
}

#[test]
fn test_several_entry() {
    let mut reader = Reader::init("GET http://google.fr\nGET http://google.fr");

    let e = entry(&mut reader).unwrap();
    //println!("{:?}", e);
    assert_eq!(e.request.method, Method::Get);
    assert_eq!(reader.state.cursor, 21);
    assert_eq!(reader.state.pos.line, 2);

    let e = entry(&mut reader).unwrap();
    assert_eq!(e.request.method, Method::Get);
    assert_eq!(reader.state.cursor, 41);
    assert_eq!(reader.state.pos.line, 2);

    let mut reader =
        Reader::init("GET http://google.fr # comment1\nGET http://google.fr # comment2");

    let e = entry(&mut reader).unwrap();
    assert_eq!(e.request.method, Method::Get);
    assert_eq!(reader.state.cursor, 32);
    assert_eq!(reader.state.pos.line, 2);

    let e = entry(&mut reader).unwrap();
    assert_eq!(e.request.method, Method::Get);
    assert_eq!(reader.state.cursor, 63);
    assert_eq!(reader.state.pos.line, 2);
}

#[test]
fn test_entry_with_response() {
    let mut reader = Reader::init("GET http://google.fr\nHTTP/1.1 200");
    let e = entry(&mut reader).unwrap();
    assert_eq!(e.request.method, Method::Get);
    assert_eq!(e.response.unwrap().status.value, StatusValue::Specific(200));
}

#[test]
fn test_request() {
    let mut reader = Reader::init("GET http://google.fr");
    let default_request = Request {
        line_terminators: vec![],
        space0: Whitespace {
            value: "".to_string(),
            source_info: SourceInfo::init(1, 1, 1, 1),
        },
        method: Method::Get,
        space1: Whitespace {
            value: " ".to_string(),
            source_info: SourceInfo::init(1, 4, 1, 5),
        },
        url: Template {
            elements: vec![TemplateElement::String {
                value: String::from("http://google.fr"),
                encoded: String::from("http://google.fr"),
            }],
            quotes: false,
            source_info: SourceInfo::init(1, 5, 1, 21),
        },
        line_terminator0: LineTerminator {
            space0: Whitespace {
                value: "".to_string(),
                source_info: SourceInfo::init(1, 21, 1, 21),
            },
            comment: None,
            newline: Whitespace {
                value: "".to_string(),
                source_info: SourceInfo::init(1, 21, 1, 21),
            },
        },
        headers: vec![],
        sections: vec![],
        body: None,
        source_info: SourceInfo::init(1, 1, 1, 21),
    };
    assert_eq!(request(&mut reader), Ok(default_request));

    let mut reader = Reader::init("GET  http://google.fr # comment");
    let default_request = Request {
        line_terminators: vec![],
        space0: Whitespace {
            value: "".to_string(),
            source_info: SourceInfo::init(1, 1, 1, 1),
        },
        method: Method::Get,
        space1: Whitespace {
            value: "  ".to_string(),
            source_info: SourceInfo::init(1, 4, 1, 6),
        },
        url: Template {
            elements: vec![TemplateElement::String {
                value: String::from("http://google.fr"),
                encoded: String::from("http://google.fr"),
            }],
            quotes: false,
            source_info: SourceInfo::init(1, 6, 1, 22),
        },
        line_terminator0: LineTerminator {
            space0: Whitespace {
                value: " ".to_string(),
                source_info: SourceInfo::init(1, 22, 1, 23),
            },
            comment: Some(Comment {
                value: " comment".to_string(),
            }),
            newline: Whitespace {
                value: "".to_string(),
                source_info: SourceInfo::init(1, 32, 1, 32),
            },
        },
        headers: vec![],
        sections: vec![],
        body: None,
        source_info: SourceInfo::init(1, 1, 1, 32),
    };
    assert_eq!(request(&mut reader), Ok(default_request));

    let mut reader = Reader::init("GET http://google.fr\nGET http://google.fr");
    let r = request(&mut reader);
    assert_eq!(r.unwrap().method, Method::Get);
    assert_eq!(reader.state.cursor, 21);
    let r = request(&mut reader).unwrap();
    assert_eq!(r.method, Method::Get);
}

#[test]
fn test_request_multilines() {
    // GET http://google.fr
    // ```
    // Hello World!
    // ```
    let mut reader = Reader::init("GET http://google.fr\n```\nHello World!\n```");
    let req = request(&mut reader).unwrap();
    assert_eq!(
        req.body.unwrap(),
        Body {
            line_terminators: vec![],
            space0: Whitespace {
                value: String::from(""),
                source_info: SourceInfo::init(2, 1, 2, 1),
            },
            value: Bytes::RawString {
                newline0: Whitespace {
                    value: "\n".to_string(),
                    source_info: SourceInfo::init(2, 4, 3, 1),
                },
                value: Template {
                    elements: vec![TemplateElement::String {
                        value: String::from("Hello World!\n"),
                        encoded: String::from("Hello World!\n"),
                    }],
                    quotes: false,
                    source_info: SourceInfo::init(3, 1, 4, 1),
                },
            },
            line_terminator0: LineTerminator {
                space0: Whitespace {
                    value: "".to_string(),
                    source_info: SourceInfo::init(4, 4, 4, 4),
                },
                comment: None,
                newline: Whitespace {
                    value: "".to_string(),
                    source_info: SourceInfo::init(4, 4, 4, 4),
                },
            },
        }
    );
}

#[test]
fn test_request_post_json() {
    let mut reader = Reader::init("POST http://localhost:8000/post-json-array\n[1,2,3]");
    let r = request(&mut reader).unwrap();
    assert_eq!(r.method, Method::Post);
    assert_eq!(
        r.body.unwrap().value,
        Bytes::Json {
            value: JsonValue::List {
                space0: "".to_string(),
                elements: vec![
                    JsonListElement {
                        space0: "".to_string(),
                        value: JsonValue::Number("1".to_string()),
                        space1: "".to_string(),
                    },
                    JsonListElement {
                        space0: "".to_string(),
                        value: JsonValue::Number("2".to_string()),
                        space1: "".to_string(),
                    },
                    JsonListElement {
                        space0: "".to_string(),
                        value: JsonValue::Number("3".to_string()),
                        space1: "".to_string(),
                    },
                ],
            }
        }
    );

    let mut reader = Reader::init("POST http://localhost:8000/post-json-string\n\"Hello\"");
    let r = request(&mut reader).unwrap();
    assert_eq!(r.method, Method::Post);
    assert_eq!(
        r.body.unwrap().value,
        Bytes::Json {
            value: JsonValue::String(Template {
                quotes: true,
                elements: vec![TemplateElement::String {
                    value: "Hello".to_string(),
                    encoded: "Hello".to_string(),
                }],
                source_info: SourceInfo::init(2, 2, 2, 7),
            })
        }
    );

    let mut reader = Reader::init("POST http://localhost:8000/post-json-number\n100");
    let r = request(&mut reader).unwrap();
    assert_eq!(r.method, Method::Post);
    assert_eq!(
        r.body.unwrap().value,
        Bytes::Json {
            value: JsonValue::Number("100".to_string())
        }
    );
}

#[test]
fn test_request_error() {
    let mut reader = Reader::init("xxx");
    let error = request(&mut reader).err().unwrap();
    assert_eq!(error.pos, Pos { line: 1, column: 1 });
}

#[test]
fn test_response() {
    let mut reader = Reader::init("HTTP/1.1 200");
    //println!("{:?}", response(&mut reader));
    let r = response(&mut reader).unwrap();

    assert_eq!(r.version.value, VersionValue::Version11);
    assert_eq!(r.status.value, StatusValue::Specific(200));
}

#[test]
fn test_method() {
    let mut reader = Reader::init("xxx ");
    let error = method(&mut reader).err().unwrap();
    assert_eq!(error.pos, Pos { line: 1, column: 1 });
    assert_eq!(reader.state.cursor, 0);

    let mut reader = Reader::init("");
    let error = method(&mut reader).err().unwrap();
    assert_eq!(error.pos, Pos { line: 1, column: 1 });
    assert_eq!(reader.state.cursor, 0);

    let mut reader = Reader::init("GET ");
    assert_eq!(Ok(Method::Get), method(&mut reader));
    assert_eq!(reader.state.cursor, 3);
}

#[test]
fn test_url() {
    let mut reader = Reader::init("http://google.fr # ");
    assert_eq!(
        url(&mut reader).unwrap(),
        Template {
            elements: vec![TemplateElement::String {
                value: String::from("http://google.fr"),
                encoded: String::from("http://google.fr"),
            }],
            quotes: false,
            source_info: SourceInfo::init(1, 1, 1, 17),
        }
    );
    assert_eq!(reader.state.cursor, 16);
}

#[test]
fn test_url2() {
    let mut reader = Reader::init("http://localhost:8000/cookies/set-session-cookie2-valueA");
    assert_eq!(
        url(&mut reader).unwrap(),
        Template {
            elements: vec![TemplateElement::String {
                value: String::from("http://localhost:8000/cookies/set-session-cookie2-valueA"),
                encoded: String::from(
                    "http://localhost:8000/cookies/set-session-cookie2-valueA"
                ),
            }],
            quotes: false,
            source_info: SourceInfo::init(1, 1, 1, 57),
        }
    );
    assert_eq!(reader.state.cursor, 56);
}

#[test]
fn test_url_with_expression() {
    let mut reader = Reader::init("http://{{host}}.fr ");
    assert_eq!(
        url(&mut reader).unwrap(),
        Template {
            elements: vec![
                TemplateElement::String {
                    value: String::from("http://"),
                    encoded: String::from("http://"),
                },
                TemplateElement::Expression(Expr {
                    space0: Whitespace {
                        value: String::from(""),
                        source_info: SourceInfo::init(1, 10, 1, 10),
                    },
                    variable: Variable {
                        name: String::from("host"),
                        source_info: SourceInfo::init(1, 10, 1, 14),
                    },
                    space1: Whitespace {
                        value: String::from(""),
                        source_info: SourceInfo::init(1, 14, 1, 14),
                    },
                }),
                TemplateElement::String {
                    value: String::from(".fr"),
                    encoded: String::from(".fr"),
                },
            ],
            //encoded: None,
            quotes: false,
            source_info: SourceInfo::init(1, 1, 1, 19),
        }
    );
    assert_eq!(reader.state.cursor, 18);
}

#[test]
fn test_url_error_variable() {
    let mut reader = Reader::init("http://{{host>}}.fr");
    let error = url(&mut reader).err().unwrap();
    assert_eq!(
        error.pos,
        Pos {
            line: 1,
            column: 14,
        }
    );
    assert_eq!(
        error.inner,
        ParseError::Expecting {
            value: String::from("}}")
        }
    );
    assert_eq!(error.recoverable, false);
    assert_eq!(reader.state.cursor, 14);
}

#[test]
fn test_url_error_missing_delimiter() {
    let mut reader = Reader::init("http://{{host");
    let error = url(&mut reader).err().unwrap();
    assert_eq!(
        error.pos,
        Pos {
            line: 1,
            column: 14,
        }
    );
    assert_eq!(
        error.inner,
        ParseError::Expecting {
            value: String::from("}}")
        }
    );
    assert_eq!(error.recoverable, false);
}

#[test]
fn test_url_error_empty() {
    let mut reader = Reader::init(" # eol");
    let error = url(&mut reader).err().unwrap();
    assert_eq!(error.pos, Pos { line: 1, column: 1 });
    assert_eq!(error.inner, ParseError::Url {});
}

#[test]
fn test_version() {
    let mut reader = Reader::init("HTTP/1.1 200");
    assert_eq!(version(&mut reader).unwrap().value, VersionValue::Version11);

    let mut reader = Reader::init("HTTP/1. 200");
    let error = version(&mut reader).err().unwrap();
    assert_eq!(error.pos, Pos { line: 1, column: 6 });
}

#[test]
fn test_status() {
    let mut reader = Reader::init("*");
    let s = status(&mut reader).unwrap();
    assert_eq!(s.value, StatusValue::Any);

    let mut reader = Reader::init("200");
    let s = status(&mut reader).unwrap();
    assert_eq!(s.value, StatusValue::Specific(200));

    let mut reader = Reader::init("xxx");
    let result = status(&mut reader);
    assert!(result.is_err());
    // assert!(result.err().unwrap().pos, Pos { line: 1, column: 1 });
}

#[test]
fn test_body_json() {
    let mut reader = Reader::init("[1,2,3] ");
    let b = body(&mut reader).unwrap();
    assert_eq!(b.line_terminators.len(), 0);
    assert_eq!(
        b.value,
        Bytes::Json {
            value: JsonValue::List {
                space0: "".to_string(),
                elements: vec![
                    JsonListElement {
                        space0: "".to_string(),
                        value: JsonValue::Number("1".to_string()),
                        space1: "".to_string(),
                    },
                    JsonListElement {
                        space0: "".to_string(),
                        value: JsonValue::Number("2".to_string()),
                        space1: "".to_string(),
                    },
                    JsonListElement {
                        space0: "".to_string(),
                        value: JsonValue::Number("3".to_string()),
                        space1: "".to_string(),
                    },
                ],
            }
        }
    );
    assert_eq!(reader.state.cursor, 8);

    let mut reader = Reader::init("{}");
    let b = body(&mut reader).unwrap();
    assert_eq!(b.line_terminators.len(), 0);
    assert_eq!(
        b.value,
        Bytes::Json {
            value: JsonValue::Object {
                space0: "".to_string(),
                elements: vec![],
            }
        }
    );
    assert_eq!(reader.state.cursor, 2);

    let mut reader = Reader::init("# comment\n {} # comment\nxxx");
    let b = body(&mut reader).unwrap();
    assert_eq!(b.line_terminators.len(), 1);
    assert_eq!(
        b.value,
        Bytes::Json {
            value: JsonValue::Object {
                space0: "".to_string(),
                elements: vec![],
            }
        }
    );
    assert_eq!(reader.state.cursor, 24);

    let mut reader = Reader::init("{x");
    let error = body(&mut reader).err().unwrap();
    assert_eq!(error.pos, Pos { line: 1, column: 2 });
    assert_eq!(error.recoverable, false);
}
