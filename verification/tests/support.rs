//! Derived marshaling implementations and the runtime support types.

use dbus_client::derives::{
    derive_append, derive_arg, derive_get, AppendImpl, ArgImpl, DeriveData, DeriveError,
    DeriveInputDef, FieldDef, GetImpl, VariantDef,
};
use dbus_client::runtime::{DictValue, MaybeOwned};
use dbus_client::transform::BoundObject;

fn b(s: &str) -> Vec<u8> {
    s.as_bytes().to_vec()
}

fn named_struct(has_generics: bool, value_signature: Option<&str>) -> DeriveInputDef {
    DeriveInputDef {
        name: b("Config"),
        has_generics,
        value_signature: value_signature.map(b),
        data: DeriveData::NamedStruct(vec![
            FieldDef { name: b("host") },
            FieldDef { name: b("port") },
        ]),
    }
}

fn plain_enum(has_generics: bool, with_discriminant: bool) -> DeriveInputDef {
    DeriveInputDef {
        name: b("Mode"),
        has_generics,
        value_signature: None,
        data: DeriveData::Enum(vec![
            VariantDef { name: b("Fast"), has_discriminant: false },
            VariantDef { name: b("Slow"), has_discriminant: with_discriminant },
        ]),
    }
}

#[test]
fn append_derive_for_named_struct_uses_dictionary() {
    let im = derive_append(&named_struct(false, None)).unwrap();
    assert_eq!(
        im,
        AppendImpl::Dict {
            // without a named signature, values are appended as variants
            value_signature: b("v"),
            field_names: vec![b("host"), b("port")],
        },
    );
    let im = derive_append(&named_struct(false, Some("s"))).unwrap();
    assert_eq!(
        im,
        AppendImpl::Dict { value_signature: b("s"), field_names: vec![b("host"), b("port")] },
    );
}

#[test]
fn append_derive_for_enum_uses_variant_names() {
    let im = derive_append(&plain_enum(false, false)).unwrap();
    assert_eq!(im, AppendImpl::AsVariantName { variant_names: vec![b("Fast"), b("Slow")] });
}

#[test]
fn derives_refuse_unsupported_shapes() {
    assert_eq!(derive_append(&plain_enum(false, true)), Err(DeriveError::Discriminants));
    assert_eq!(derive_append(&named_struct(true, None)), Err(DeriveError::Generics));
    assert_eq!(derive_append(&plain_enum(true, false)), Err(DeriveError::Generics));
    let union_input = DeriveInputDef {
        name: b("U"),
        has_generics: false,
        value_signature: None,
        data: DeriveData::Union,
    };
    assert_eq!(derive_append(&union_input), Err(DeriveError::Unions));
    let tuple_input = DeriveInputDef {
        name: b("T"),
        has_generics: false,
        value_signature: None,
        data: DeriveData::OtherStruct,
    };
    assert_eq!(derive_append(&tuple_input), Err(DeriveError::UnnamedFields));
    // a discriminant is reported even when generics are also present
    assert_eq!(derive_append(&plain_enum(true, true)), Err(DeriveError::Discriminants));
}

#[test]
fn arg_derive_is_enum_only() {
    assert_eq!(derive_arg(&plain_enum(false, false)).unwrap(), ArgImpl { name: b("Mode") });
    assert_eq!(derive_arg(&named_struct(false, None)), Err(DeriveError::NonEnum));
    assert_eq!(derive_arg(&plain_enum(true, false)), Err(DeriveError::Generics));
}

#[test]
fn get_derive_maps_strings_back_to_variants() {
    assert_eq!(
        derive_get(&plain_enum(false, false)).unwrap(),
        GetImpl { name: b("Mode"), variant_names: vec![b("Fast"), b("Slow")] },
    );
    assert_eq!(derive_get(&plain_enum(false, true)), Err(DeriveError::Discriminants));
    assert_eq!(derive_get(&named_struct(false, None)), Err(DeriveError::NonEnum));
}

#[test]
fn maybe_owned_holds_either_way() {
    let owned: MaybeOwned<u32> = MaybeOwned::owned(7);
    assert_eq!(*owned.as_ref(), 7);
    let value: u32 = 9;
    let borrowed = MaybeOwned::borrowed(&value);
    assert_eq!(*borrowed.as_ref(), 9);
}

#[test]
fn dict_value_wraps_a_value() {
    let d = DictValue::new(42u16);
    assert_eq!(d.0, 42);
}

#[test]
fn sub_object_keeps_destination_and_timeout() {
    let parent = BoundObject::new(b("org.example"), b("/root"), 1000);
    let child = parent.sub_object(b("/root/child"));
    assert_eq!(child.destination, b("org.example"));
    assert_eq!(child.timeout_ms, 1000);
    assert_eq!(child.path, b("/root/child"));
}
