//! Emission of typed bindings and the transformer protocol.

use dbus_client::ast::{SimpleType, Type};
use dbus_client::emit::{ApiItem, Constructor, EmitError, Transform};
use dbus_client::transform::{apply_transform, BoundObject, TransformedValue, WireValue};
use dbus_client::{compile, CompileError};

fn b(s: &str) -> Vec<u8> {
    s.as_bytes().to_vec()
}

#[test]
fn full_scenario_binding() {
    let src = "Foo(\"a.b.c\", \"/a/b\", system) \"a.b.c\" { \
         mut Level: i; Ping(); GetX() -> s; }";
    let binding = compile(&b(src)).unwrap();
    assert_eq!(binding.name, b("Foo"));
    assert_eq!(binding.destination, Some(b("a.b.c")));
    assert_eq!(binding.path, Some(b("/a/b")));
    assert!(binding.system && !binding.session);
    // the constructor gated on the `system` marker is available
    assert!(binding.has_constructor(Constructor::System));
    assert!(!binding.has_constructor(Constructor::Session));
    assert!(binding.has_constructor(Constructor::Connect));

    assert_eq!(binding.items.len(), 4);
    // a mutable property emits its setter, then its getter
    match &binding.items[0] {
        ApiItem::Setter(s) => {
            assert_eq!(s.fn_name, b("set_Level"));
            assert_eq!(s.interface, b("a.b.c"));
            assert_eq!(s.property, b("Level"));
            assert_eq!(s.ty, Type::Simple(SimpleType::I32));
        },
        other => panic!("expected a setter, got {other:?}"),
    }
    match &binding.items[1] {
        ApiItem::Getter(g) => {
            assert_eq!(g.fn_name, b("get_Level"));
            assert_eq!(g.property, b("Level"));
            assert_eq!(g.ty, Type::Simple(SimpleType::I32));
            assert_eq!(g.transform, None);
        },
        other => panic!("expected a getter, got {other:?}"),
    }
    // a zero-argument method with no return: empty tuple in, no value out
    match &binding.items[2] {
        ApiItem::Method(w) => {
            assert_eq!(w.fn_name, b("Ping"));
            assert_eq!(w.member, b("Ping"));
            assert!(w.args.is_empty());
            assert_eq!(w.output, Type::Empty);
            assert!(!w.unwrap_single);
            assert_eq!(w.transform, None);
        },
        other => panic!("expected a method wrapper, got {other:?}"),
    }
    // a plain-valued method unwraps its one-element response tuple
    match &binding.items[3] {
        ApiItem::Method(w) => {
            assert_eq!(w.fn_name, b("GetX"));
            assert_eq!(w.output, Type::Simple(SimpleType::String));
            assert!(w.unwrap_single);
            assert_eq!(w.transform, None);
        },
        other => panic!("expected a method wrapper, got {other:?}"),
    }
}

#[test]
fn struct_output_keeps_response_tuple() {
    let binding = compile(&b("Foo \"a.b\" { Pair(x: i, y: i); }")).unwrap();
    match &binding.items[0] {
        ApiItem::Method(w) => {
            assert_eq!(w.args.len(), 2);
            assert!(!w.unwrap_single);
        },
        other => panic!("expected a method wrapper, got {other:?}"),
    }
}

#[test]
fn named_reference_emits_empty_implementation() {
    let binding = compile(&b("Foo Props;")).unwrap();
    assert_eq!(binding.items.len(), 1);
    assert_eq!(binding.items[0], ApiItem::NamedInterface(b("Props")));
}

#[test]
fn constructor_gating_follows_declared_properties() {
    let only_dest = compile(&b("Foo(\"a.b\")")).unwrap();
    assert!(only_dest.has_constructor(Constructor::WithPath));
    assert!(!only_dest.has_constructor(Constructor::WithDestination));
    assert!(!only_dest.has_constructor(Constructor::Connect));
    assert!(!only_dest.has_constructor(Constructor::Session));

    let only_path = compile(&b("Foo(\"/a\")")).unwrap();
    assert!(only_path.has_constructor(Constructor::WithDestination));
    assert!(!only_path.has_constructor(Constructor::WithPath));

    // `session` alone does not enable the session constructor: it also
    // needs the declared destination and path
    let sess_only = compile(&b("Foo(session)")).unwrap();
    assert!(!sess_only.has_constructor(Constructor::Session));
    let sess_full = compile(&b("Foo(\"a.b\", \"/a\", session)")).unwrap();
    assert!(sess_full.has_constructor(Constructor::Session));
    assert!(!sess_full.has_constructor(Constructor::System));
}

#[test]
fn object_reference_getter_builds_sub_object() {
    let binding = compile(&b("Foo(\"a.b\") \"a.b\" { Dev: @Device; }")).unwrap();
    let g = match &binding.items[0] {
        ApiItem::Getter(g) => g,
        other => panic!("expected a getter, got {other:?}"),
    };
    let tr = g.transform.as_ref().unwrap();
    let parent = BoundObject::new(b("a.b"), b("/root"), 250);
    let out = apply_transform(&parent, tr, &WireValue::ObjPath(b("/dev/0"))).unwrap();
    match out {
        TransformedValue::Object(o) => {
            // same destination and timeout as the caller, only the path differs
            assert_eq!(o.destination, b("a.b"));
            assert_eq!(o.timeout_ms, 250);
            assert_eq!(o.path, b("/dev/0"));
        },
        other => panic!("expected a constructed handle, got {other:?}"),
    }
    // a non-path value is refused
    assert!(apply_transform(&parent, tr, &WireValue::Int32(3)).is_none());
}

#[test]
fn object_array_getter_transforms_each_element_in_order() {
    let binding = compile(&b("Foo(\"a.b\") \"a.b\" { Devs: a @Device; }")).unwrap();
    let g = match &binding.items[0] {
        ApiItem::Getter(g) => g,
        other => panic!("expected a getter, got {other:?}"),
    };
    let tr = g.transform.as_ref().unwrap();
    assert!(matches!(tr, Transform::MapElements(inner)
        if matches!(inner.as_ref(), Transform::SubObject(_))));
    let parent = BoundObject::new(b("a.b"), b("/root"), 99);
    let raw = WireValue::Array(vec![
        WireValue::ObjPath(b("/d/1")),
        WireValue::ObjPath(b("/d/2")),
        WireValue::ObjPath(b("/d/3")),
    ]);
    let out = apply_transform(&parent, tr, &raw).unwrap();
    match out {
        TransformedValue::Array(items) => {
            assert_eq!(items.len(), 3);
            for (k, expected) in ["/d/1", "/d/2", "/d/3"].iter().enumerate() {
                match &items[k] {
                    TransformedValue::Object(o) => {
                        assert_eq!(o.destination, b("a.b"));
                        assert_eq!(o.timeout_ms, 99);
                        assert_eq!(o.path, b(expected));
                    },
                    other => panic!("expected a handle, got {other:?}"),
                }
            }
        },
        other => panic!("expected an array, got {other:?}"),
    }
    // one element of the wrong shape fails the whole application
    let bad = WireValue::Array(vec![WireValue::ObjPath(b("/d/1")), WireValue::Boolean(true)]);
    assert!(apply_transform(&parent, tr, &bad).is_none());
}

#[test]
fn struct_and_map_results_fail_emission() {
    match compile(&b("Foo \"a.b\" { P: (i, s); }")) {
        Err(CompileError::Emit(EmitError::UnsupportedStructResult)) => {},
        other => panic!("expected a struct refusal, got {other:?}"),
    }
    match compile(&b("Foo \"a.b\" { P: a { s v }; }")) {
        Err(CompileError::Emit(EmitError::UnsupportedDictResult)) => {},
        other => panic!("expected a map refusal, got {other:?}"),
    }
    // nested under an array as well
    match compile(&b("Foo \"a.b\" { M() -> a (i); }")) {
        Err(CompileError::Emit(EmitError::UnsupportedStructResult)) => {},
        other => panic!("expected a struct refusal, got {other:?}"),
    }
}

#[test]
fn transformer_is_identity_for_plain_types() {
    assert_eq!(Type::Simple(SimpleType::U32).transformer(), Ok(None));
    assert_eq!(Type::Variant.transformer(), Ok(None));
    assert_eq!(
        Type::Array(Box::new(Type::Simple(SimpleType::U8))).transformer(),
        Ok(None),
    );
    assert_eq!(
        Type::Struct(vec![Type::Simple(SimpleType::U8)]).transformer(),
        Err(EmitError::UnsupportedStructResult),
    );
}
