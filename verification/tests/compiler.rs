//! Lexing, parsing, classification and round-trip behavior.

use dbus_client::ast::{InterfaceImpl, Member, SimpleType, Type};
use dbus_client::parse::{parse_object, ParseError};
use dbus_client::ser::{object_tokens, serialize_object};
use dbus_client::token::{lex, TokenKind};
use dbus_client::validate::{classify_string, StrClass, ValidateErrKind};
use dbus_client::{compile, CompileError};

fn b(s: &str) -> Vec<u8> {
    s.as_bytes().to_vec()
}

#[test]
fn lex_idents_strings_and_punctuation() {
    let toks = lex(&b("Foo (\"a.b\") -> :: : ; @")).unwrap();
    let kinds: Vec<&TokenKind> = toks.iter().map(|t| &t.kind).collect();
    assert_eq!(kinds.len(), 9);
    assert_eq!(*kinds[0], TokenKind::Ident(b("Foo")));
    assert_eq!(*kinds[1], TokenKind::LParen);
    assert_eq!(*kinds[2], TokenKind::StrLit(b("a.b")));
    assert_eq!(*kinds[3], TokenKind::RParen);
    assert_eq!(*kinds[4], TokenKind::Arrow);
    assert_eq!(*kinds[5], TokenKind::PathSep);
    assert_eq!(*kinds[6], TokenKind::Colon);
    assert_eq!(*kinds[7], TokenKind::Semi);
    assert_eq!(*kinds[8], TokenKind::At);
}

#[test]
fn lex_comments_and_doc_comments() {
    let toks = lex(&b("// dropped\n/// kept doc\nName //// also dropped\n;")).unwrap();
    assert_eq!(toks.len(), 3);
    assert_eq!(toks[0].kind, TokenKind::DocComment(b(" kept doc")));
    assert_eq!(toks[1].kind, TokenKind::Ident(b("Name")));
    assert_eq!(toks[2].kind, TokenKind::Semi);
}

#[test]
fn lex_rejects_unterminated_string() {
    assert!(lex(&b("Foo \"unclosed")).is_err());
    assert!(lex(&b("Foo \"broken\nacross\"")).is_err());
}

#[test]
fn lex_rejects_stray_bytes() {
    assert!(lex(&b("Foo $")).is_err());
    assert!(lex(&b("Foo - Bar")).is_err());
    assert!(lex(&b("/ alone")).is_err());
}

#[test]
fn parse_minimal_object() {
    let toks = lex(&b("Foo")).unwrap();
    let o = parse_object(&toks).unwrap();
    assert_eq!(o.name, b("Foo"));
    assert_eq!(o.dest, None);
    assert_eq!(o.path, None);
    assert!(!o.session && !o.system);
    assert!(o.interfaces.is_empty());
}

#[test]
fn parse_full_property_list() {
    let toks = lex(&b("Foo(\"a.b.c\", \"/a/b\", session, system)")).unwrap();
    let o = parse_object(&toks).unwrap();
    assert_eq!(o.dest, Some(b("a.b.c")));
    assert_eq!(o.path, Some(b("/a/b")));
    assert!(o.session && o.system);
}

#[test]
fn parse_accepts_trailing_comma_in_property_list() {
    let toks = lex(&b("Foo(\"a.b\",)")).unwrap();
    let o = parse_object(&toks).unwrap();
    assert_eq!(o.dest, Some(b("a.b")));
}

#[test]
fn parse_members_and_types() {
    let src = "Dev \"org.example.Dev\" { \
         mut Level: i; \
         Tag: s; \
         Find(pattern: s, limit: u) -> a (i, s); \
         Raw(data: a y); \
         Table: a { s v }; \
         Fd: h; \
         Custom: ::std::path::PathBuf; \
         Plain: MyType; \
         Ref: @Other; \
     } Extra;";
    let toks = lex(&b(src)).unwrap();
    let o = parse_object(&toks).unwrap();
    assert_eq!(o.interfaces.len(), 2);
    let intf = match &o.interfaces[0] {
        InterfaceImpl::Anonymous(i) => i,
        _ => panic!("expected an anonymous interface"),
    };
    assert_eq!(intf.name, b("org.example.Dev"));
    assert_eq!(intf.members.len(), 9);
    match &intf.members[0] {
        Member::Property(p) => {
            assert!(p.mutable);
            assert_eq!(p.name, b("Level"));
            assert_eq!(p.ty, Type::Simple(SimpleType::I32));
        },
        _ => panic!("expected a property"),
    }
    match &intf.members[1] {
        Member::Property(p) => assert!(!p.mutable),
        _ => panic!("expected a property"),
    }
    match &intf.members[2] {
        Member::Method(m) => {
            assert_eq!(m.args.len(), 2);
            assert_eq!(m.args[0].name, b("pattern"));
            match &m.output {
                Type::Array(inner) => match inner.as_ref() {
                    Type::Struct(parts) => assert_eq!(parts.len(), 2),
                    _ => panic!("expected a struct element"),
                },
                _ => panic!("expected an array output"),
            }
        },
        _ => panic!("expected a method"),
    }
    match &intf.members[3] {
        Member::Method(m) => assert_eq!(m.output, Type::Empty),
        _ => panic!("expected a method"),
    }
    match &intf.members[4] {
        Member::Property(p) => match &p.ty {
            Type::Dict(k, v) => {
                assert_eq!(*k, SimpleType::String);
                assert_eq!(**v, Type::Variant);
            },
            _ => panic!("expected a map type"),
        },
        _ => panic!("expected a property"),
    }
    match &intf.members[6] {
        Member::Property(p) => match &p.ty {
            Type::Host(h) => {
                assert!(h.leading_colons);
                assert_eq!(h.segments.len(), 3);
                assert_eq!(h.segments[2], b("PathBuf"));
            },
            _ => panic!("expected a host type"),
        },
        _ => panic!("expected a property"),
    }
    match &o.interfaces[1] {
        InterfaceImpl::Named(n) => assert_eq!(*n, b("Extra")),
        _ => panic!("expected a named reference"),
    }
}

#[test]
fn parse_zero_argument_method_keeps_empty_tuple() {
    let toks = lex(&b("Foo \"a.b\" { Ping(); }")).unwrap();
    let o = parse_object(&toks).unwrap();
    let intf = match &o.interfaces[0] {
        InterfaceImpl::Anonymous(i) => i,
        _ => panic!("expected an anonymous interface"),
    };
    match &intf.members[0] {
        Member::Method(m) => {
            assert!(m.args.is_empty());
            assert_eq!(m.output, Type::Empty);
        },
        _ => panic!("expected a method"),
    }
}

#[test]
fn parse_rejects_syntax_errors() {
    for src in [
        "Foo \"a.b\" { Level i; }",        // neither `:` nor `(` after the name
        "Foo \"a.b\" { mut Level: i }",    // missing `;`
        "Foo \"a.b\" { Ping() -> ; }",     // missing return type
        "Foo \"a.b\" {",                   // unterminated block
        "Foo(\"a.b\"",                     // unterminated property list
        "Foo(mut)",                        // not a property entry
        "Foo \"a.b\" { T: a { x v }; }",   // map key is not a scalar code
        "Foo Extra",                       // named reference without `;`
        "(\"a.b\")",                       // no object name
    ] {
        let toks = lex(&b(src)).unwrap();
        match parse_object(&toks) {
            Err(ParseError::Syntax { .. }) => {},
            other => panic!("{src:?} gave {other:?}"),
        }
    }
}

#[test]
fn classification_follows_the_shapes() {
    // destination shapes
    assert_eq!(classify_string(&b("a.b.c"), 0).unwrap(), StrClass::Destination);
    assert_eq!(classify_string(&b("_x-1.B2"), 0).unwrap(), StrClass::Destination);
    // path shapes
    assert_eq!(classify_string(&b("/a"), 0).unwrap(), StrClass::PathString);
    assert_eq!(classify_string(&b("/a/b_9"), 0).unwrap(), StrClass::PathString);
    // neither shape
    assert_eq!(classify_string(&b(""), 0).unwrap_err().kind, ValidateErrKind::BadDestination);
    assert_eq!(classify_string(&b("a"), 0).unwrap_err().kind, ValidateErrKind::BadDestination);
    assert_eq!(classify_string(&b("a..b"), 0).unwrap_err().kind, ValidateErrKind::BadDestination);
    assert_eq!(classify_string(&b("a.b."), 0).unwrap_err().kind, ValidateErrKind::BadDestination);
    assert_eq!(classify_string(&b("9a.b"), 0).unwrap_err().kind, ValidateErrKind::BadDestination);
    assert_eq!(classify_string(&b("/"), 0).unwrap_err().kind, ValidateErrKind::BadPath);
    assert_eq!(classify_string(&b("//a"), 0).unwrap_err().kind, ValidateErrKind::BadPath);
    assert_eq!(classify_string(&b("/a/"), 0).unwrap_err().kind, ValidateErrKind::BadPath);
    assert_eq!(classify_string(&b("/a-b"), 0).unwrap_err().kind, ValidateErrKind::BadPath);
}

#[test]
fn classification_of_relative_path_as_destination_fails() {
    // missing the leading slash, so it is classified as a destination,
    // and the destination shape refuses `/`
    let e = classify_string(&b("not/absolute"), 7).unwrap_err();
    assert_eq!(e.kind, ValidateErrKind::BadDestination);
    assert_eq!(e.pos, 7);
    // a segment starting with a digit fails the destination shape too
    let e = classify_string(&b("not.4bsolute"), 0).unwrap_err();
    assert_eq!(e.kind, ValidateErrKind::BadDestination);
}

#[test]
fn duplicate_markers_always_fail() {
    let cases = [
        ("Foo(\"a.b\", \"c.d\")", ValidateErrKind::DuplicateDestination),
        ("Foo(\"/a\", \"/b\")", ValidateErrKind::DuplicatePath),
        ("Foo(session, session)", ValidateErrKind::DuplicateSession),
        ("Foo(system, system)", ValidateErrKind::DuplicateSystem),
        // order does not matter
        ("Foo(session, \"a.b\", session)", ValidateErrKind::DuplicateSession),
        ("Foo(\"/a\", system, \"a.b\", \"/b\")", ValidateErrKind::DuplicatePath),
    ];
    for (src, kind) in cases {
        match compile(&b(src)) {
            Err(CompileError::Invalid(e)) => assert_eq!(e.kind, kind, "{src:?}"),
            other => panic!("{src:?} gave {other:?}"),
        }
    }
}

#[test]
fn duplicate_error_names_both_occurrences() {
    let toks = lex(&b("Foo(session, session)")).unwrap();
    match parse_object(&toks) {
        Err(ParseError::Invalid(e)) => {
            assert_eq!(e.kind, ValidateErrKind::DuplicateSession);
            assert_eq!(e.pos, 13);
            assert_eq!(e.prev_pos, Some(4));
        },
        other => panic!("expected a duplicate, got {other:?}"),
    }
}

#[test]
fn reserialization_is_idempotent() {
    let srcs = [
        "Foo",
        "Foo()",
        "Foo(\"a.b.c\", \"/a/b\", session, system)",
        "Foo(system)",
        "/// doc line\nFoo(\"a.b\") Extra; \"a.b\" { \
             /// the level\n mut Level: i; \
             Ping(); \
             Find(q: s, n: u) -> a (i, s); \
             Refs: a @Other; \
             Tbl: a { s v }; \
         }",
    ];
    for src in srcs {
        let toks = lex(&b(src)).unwrap();
        let o = parse_object(&toks).unwrap();
        // token level: parse(tokens(o)) == o
        let toks2 = object_tokens(&o);
        let o2 = parse_object(&toks2).unwrap();
        assert_eq!(o, o2, "{src:?}");
        // text level: compile(render(tokens(o))) parses to o again
        let text = serialize_object(&o);
        let toks3 = lex(&text).unwrap();
        let o3 = parse_object(&toks3).unwrap();
        assert_eq!(o, o3, "{src:?}");
    }
}

#[test]
fn compile_tells_failure_stages_apart() {
    match compile(&b("Foo \"a.b\" { X: $ }")) {
        Err(CompileError::Lex(e)) => assert_eq!(e.pos, 15),
        other => panic!("expected a lexical error, got {other:?}"),
    }
    match compile(&b("")) {
        Err(CompileError::Parse(_)) => {},
        other => panic!("expected a syntax error, got {other:?}"),
    }
    match compile(&b("Foo \"a.b\" { mut }")) {
        Err(CompileError::Parse(_)) => {},
        other => panic!("expected a syntax error, got {other:?}"),
    }
    match compile(&b("Foo(\"not/absolute\")")) {
        Err(CompileError::Invalid(e)) => assert_eq!(e.kind, ValidateErrKind::BadDestination),
        other => panic!("expected a validation error, got {other:?}"),
    }
}

#[test]
fn serialized_text_is_readable() {
    let toks = lex(&b("Foo(\"a.b\") \"a.b\" { mut Level: i; }")).unwrap();
    let o = parse_object(&toks).unwrap();
    let text = String::from_utf8(serialize_object(&o)).unwrap();
    assert_eq!(text, "Foo ( \"a.b\" ) \"a.b\" { mut Level : i ; } ");
}
