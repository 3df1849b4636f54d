//! Marshaling implementations derived for host-defined types.
//!
//! A host type named in the declaration language can derive three
//! wire-protocol implementations: appending (marshaling), the wire type
//! tag, and reading (unmarshaling).  The deriving host machinery hands
//! over the declaration reduced to plain values — name, whether it has
//! generic parameters, its fields or variants — and receives back a
//! description of the implementation to render, or a refusal.
//!
//! Only two shapes are supported: a struct with named fields is
//! appended as a string-keyed dictionary of variants, one entry per
//! field under the field's name; a fieldless enum travels as a string
//! holding the variant's name.  Explicit discriminants, generic
//! parameters, unions and tuple fields are refused outright rather than
//! silently emitting incorrect behavior.

use vstd::prelude::*;

use crate::ast::{clone_bytes, kw_variant};

verus! {

broadcast use vstd::std_specs::vec::group_vec_axioms, vstd::seq::group_seq_axioms;

// ---------------------------------------------------------------------------
// The reduced declaration
// ---------------------------------------------------------------------------
/// A named field of a struct declaration.
#[derive(PartialEq, Eq, Debug)]
pub struct FieldDef {
    pub name: Vec<u8>,
}

/// Image of [`FieldDef`].
pub struct FieldDefV {
    pub name: Seq<u8>,
}

impl DeepView for FieldDef {
    type V = FieldDefV;

    open spec fn deep_view(&self) -> FieldDefV {
        FieldDefV { name: self.name@ }
    }
}

/// A variant of an enum declaration.
#[derive(PartialEq, Eq, Debug)]
pub struct VariantDef {
    pub name: Vec<u8>,
    /// Does the variant carry an explicit discriminant?
    pub has_discriminant: bool,
}

/// Image of [`VariantDef`].
pub struct VariantDefV {
    pub name: Seq<u8>,
    pub has_discriminant: bool,
}

impl DeepView for VariantDef {
    type V = VariantDefV;

    open spec fn deep_view(&self) -> VariantDefV {
        VariantDefV { name: self.name@, has_discriminant: self.has_discriminant }
    }
}

/// The body of the deriving declaration.
#[derive(PartialEq, Eq, Debug)]
pub enum DeriveData {
    /// A struct whose fields all have names.
    NamedStruct(Vec<FieldDef>),
    /// A struct with unnamed fields.
    OtherStruct,
    /// An enum.
    Enum(Vec<VariantDef>),
    /// A union.
    Union,
}

/// Image of [`DeriveData`].
pub enum DeriveDataV {
    NamedStruct(Seq<FieldDefV>),
    OtherStruct,
    Enum(Seq<VariantDefV>),
    Union,
}

impl DeepView for DeriveData {
    type V = DeriveDataV;

    open spec fn deep_view(&self) -> DeriveDataV {
        match self {
            DeriveData::NamedStruct(fs) => DeriveDataV::NamedStruct(fs.deep_view()),
            DeriveData::OtherStruct => DeriveDataV::OtherStruct,
            DeriveData::Enum(vs) => DeriveDataV::Enum(vs.deep_view()),
            DeriveData::Union => DeriveDataV::Union,
        }
    }
}

/// A deriving declaration reduced to plain values.
#[derive(PartialEq, Eq, Debug)]
pub struct DeriveInputDef {
    pub name: Vec<u8>,
    /// Does the declaration carry generic parameters?
    pub has_generics: bool,
    /// The signature named by a `value_signature` attribute, if any.
    pub value_signature: Option<Vec<u8>>,
    pub data: DeriveData,
}

/// Image of [`DeriveInputDef`].
pub struct DeriveInputDefV {
    pub name: Seq<u8>,
    pub has_generics: bool,
    pub value_signature: Option<Seq<u8>>,
    pub data: DeriveDataV,
}

impl DeepView for DeriveInputDef {
    type V = DeriveInputDefV;

    open spec fn deep_view(&self) -> DeriveInputDefV {
        DeriveInputDefV {
            name: self.name@,
            has_generics: self.has_generics,
            value_signature: self.value_signature.deep_view(),
            data: self.data.deep_view(),
        }
    }
}

/// Why a derive is refused.
#[derive(Clone, Copy, PartialEq, Eq, Structural, Debug)]
pub enum DeriveError {
    /// Explicit enum discriminants are not supported.
    Discriminants,
    /// Generic parameters are not supported.
    Generics,
    /// Unions are not supported.
    Unions,
    /// Structs with unnamed fields are not supported.
    UnnamedFields,
    /// Only enums can derive this implementation.
    NonEnum,
}

// ---------------------------------------------------------------------------
// The derived implementations
// ---------------------------------------------------------------------------
/// The derived appending implementation.
#[derive(PartialEq, Eq, Debug)]
pub enum AppendImpl {
    /// Append as a string-keyed dictionary: each field's value wrapped
    /// as a variant under the field's name, the dictionary's value
    /// signature as given (the variant signature when none was named).
    Dict { value_signature: Vec<u8>, field_names: Vec<Vec<u8>> },
    /// Append the matched variant's name as a string.
    AsVariantName { variant_names: Vec<Vec<u8>> },
}

/// Image of [`AppendImpl`].
pub enum AppendImplV {
    Dict { value_signature: Seq<u8>, field_names: Seq<Seq<u8>> },
    AsVariantName { variant_names: Seq<Seq<u8>> },
}

impl DeepView for AppendImpl {
    type V = AppendImplV;

    open spec fn deep_view(&self) -> AppendImplV {
        match self {
            AppendImpl::Dict { value_signature, field_names } => AppendImplV::Dict {
                value_signature: value_signature@,
                field_names: field_names.deep_view(),
            },
            AppendImpl::AsVariantName { variant_names } => AppendImplV::AsVariantName {
                variant_names: variant_names.deep_view(),
            },
        }
    }
}

/// The derived wire-type implementation: the type travels as a string,
/// with signature `s`.
#[derive(PartialEq, Eq, Debug)]
pub struct ArgImpl {
    pub name: Vec<u8>,
}

/// Image of [`ArgImpl`].
pub struct ArgImplV {
    pub name: Seq<u8>,
}

impl DeepView for ArgImpl {
    type V = ArgImplV;

    open spec fn deep_view(&self) -> ArgImplV {
        ArgImplV { name: self.name@ }
    }
}

/// The derived reading implementation: read a string and map it back
/// to the variant of that name; an unknown string reads as nothing.
#[derive(PartialEq, Eq, Debug)]
pub struct GetImpl {
    pub name: Vec<u8>,
    pub variant_names: Vec<Vec<u8>>,
}

/// Image of [`GetImpl`].
pub struct GetImplV {
    pub name: Seq<u8>,
    pub variant_names: Seq<Seq<u8>>,
}

impl DeepView for GetImpl {
    type V = GetImplV;

    open spec fn deep_view(&self) -> GetImplV {
        GetImplV { name: self.name@, variant_names: self.variant_names.deep_view() }
    }
}

// ---------------------------------------------------------------------------
// The derive rules
// ---------------------------------------------------------------------------
/// Does any variant carry an explicit discriminant?
pub open spec fn sp_any_discriminant(vs: Seq<VariantDefV>) -> bool {
    exists|k: int| 0 <= k < vs.len() && (#[trigger] vs[k]).has_discriminant
}

/// The names of a field list, in order.
pub open spec fn sp_field_names(fs: Seq<FieldDefV>) -> Seq<Seq<u8>> {
    fs.map_values(|f: FieldDefV| f.name)
}

/// The names of a variant list, in order.
pub open spec fn sp_variant_names(vs: Seq<VariantDefV>) -> Seq<Seq<u8>> {
    vs.map_values(|v: VariantDefV| v.name)
}

/// The appending derive: a named struct becomes a dictionary append
/// with the attribute's value signature (the variant signature when
/// none was named), a discriminant-free enum appends its variant's
/// name; anything else is refused, and generic parameters always are.
pub open spec fn sp_derive_append(d: DeriveInputDefV) -> Result<AppendImplV, DeriveError> {
    match d.data {
        DeriveDataV::NamedStruct(fs) => {
            if d.has_generics {
                Err(DeriveError::Generics)
            } else {
                Ok(
                    AppendImplV::Dict {
                        value_signature: match d.value_signature {
                            Some(sig) => sig,
                            None => kw_variant(),
                        },
                        field_names: sp_field_names(fs),
                    },
                )
            }
        },
        DeriveDataV::OtherStruct => Err(DeriveError::UnnamedFields),
        DeriveDataV::Enum(vs) => {
            if sp_any_discriminant(vs) {
                Err(DeriveError::Discriminants)
            } else if d.has_generics {
                Err(DeriveError::Generics)
            } else {
                Ok(AppendImplV::AsVariantName { variant_names: sp_variant_names(vs) })
            }
        },
        DeriveDataV::Union => Err(DeriveError::Unions),
    }
}

/// The wire-type derive: only enums, which travel as strings.
pub open spec fn sp_derive_arg(d: DeriveInputDefV) -> Result<ArgImplV, DeriveError> {
    match d.data {
        DeriveDataV::Enum(_) => {
            if d.has_generics {
                Err(DeriveError::Generics)
            } else {
                Ok(ArgImplV { name: d.name })
            }
        },
        _ => Err(DeriveError::NonEnum),
    }
}

/// The reading derive: only discriminant-free enums, read back from
/// the variant's name.
pub open spec fn sp_derive_get(d: DeriveInputDefV) -> Result<GetImplV, DeriveError> {
    match d.data {
        DeriveDataV::Enum(vs) => {
            if sp_any_discriminant(vs) {
                Err(DeriveError::Discriminants)
            } else if d.has_generics {
                Err(DeriveError::Generics)
            } else {
                Ok(GetImplV { name: d.name, variant_names: sp_variant_names(vs) })
            }
        },
        _ => Err(DeriveError::NonEnum),
    }
}

/// Collect the field names.
fn field_names(fs: &Vec<FieldDef>) -> (r: Vec<Vec<u8>>)
    ensures
        r.deep_view() == sp_field_names(fs.deep_view()),
{
    let mut out: Vec<Vec<u8>> = Vec::new();
    let mut k: usize = 0;
    while k < fs.len()
        invariant
            k <= fs@.len(),
            out.deep_view() == sp_field_names(fs.deep_view()).take(k as int),
        decreases fs@.len() - k,
    {
        let ghost pre = out.deep_view();
        out.push(clone_bytes(&fs[k].name));
        proof {
            assert(out.deep_view() =~~= pre + seq![fs.deep_view()[k as int].name]);
            assert(out.deep_view() =~~= sp_field_names(fs.deep_view()).take(k + 1));
        }
        k = k + 1;
    }
    proof {
        assert(sp_field_names(fs.deep_view()).take(fs@.len() as int) =~= sp_field_names(
            fs.deep_view(),
        ));
    }
    out
}

/// Collect the variant names.
fn variant_names(vs: &Vec<VariantDef>) -> (r: Vec<Vec<u8>>)
    ensures
        r.deep_view() == sp_variant_names(vs.deep_view()),
{
    let mut out: Vec<Vec<u8>> = Vec::new();
    let mut k: usize = 0;
    while k < vs.len()
        invariant
            k <= vs@.len(),
            out.deep_view() == sp_variant_names(vs.deep_view()).take(k as int),
        decreases vs@.len() - k,
    {
        let ghost pre = out.deep_view();
        out.push(clone_bytes(&vs[k].name));
        proof {
            assert(out.deep_view() =~~= pre + seq![vs.deep_view()[k as int].name]);
            assert(out.deep_view() =~~= sp_variant_names(vs.deep_view()).take(k + 1));
        }
        k = k + 1;
    }
    proof {
        assert(sp_variant_names(vs.deep_view()).take(vs@.len() as int) =~= sp_variant_names(
            vs.deep_view(),
        ));
    }
    out
}

/// Does any variant carry an explicit discriminant?
fn any_discriminant(vs: &Vec<VariantDef>) -> (r: bool)
    ensures
        r == sp_any_discriminant(vs.deep_view()),
{
    let mut k: usize = 0;
    while k < vs.len()
        invariant
            k <= vs@.len(),
            forall|q: int| 0 <= q < k ==> !(#[trigger] vs.deep_view()[q]).has_discriminant,
        decreases vs@.len() - k,
    {
        if vs[k].has_discriminant {
            proof {
                assert(vs.deep_view()[k as int].has_discriminant);
            }
            return true;
        }
        k = k + 1;
    }
    false
}

/// Derive the appending implementation; see [`sp_derive_append`].
pub fn derive_append(d: &DeriveInputDef) -> (r: Result<AppendImpl, DeriveError>)
    ensures
        match r {
            Ok(im) => sp_derive_append(d.deep_view()) == Ok::<AppendImplV, DeriveError>(
                im.deep_view(),
            ),
            Err(e) => sp_derive_append(d.deep_view()) == Err::<AppendImplV, DeriveError>(e),
        },
{
    match &d.data {
        DeriveData::NamedStruct(fs) => {
            if d.has_generics {
                Err(DeriveError::Generics)
            } else {
                let value_signature = match &d.value_signature {
                    Some(sig) => {
                        proof {
                            assert(d.deep_view().value_signature == Some(sig@));
                        }
                        clone_bytes(sig)
                    },
                    None => {
                        let mut v: Vec<u8> = Vec::new();
                        v.push('v' as u8);
                        proof {
                            assert(d.deep_view().value_signature is None);
                            assert(v@ =~= kw_variant());
                        }
                        v
                    },
                };
                let r = AppendImpl::Dict { value_signature, field_names: field_names(fs) };
                proof {
                    assert(sp_derive_append(d.deep_view()) == Ok::<AppendImplV, DeriveError>(
                        r.deep_view(),
                    ));
                }
                Ok(r)
            }
        },
        DeriveData::OtherStruct => Err(DeriveError::UnnamedFields),
        DeriveData::Enum(vs) => {
            if any_discriminant(vs) {
                Err(DeriveError::Discriminants)
            } else if d.has_generics {
                Err(DeriveError::Generics)
            } else {
                Ok(AppendImpl::AsVariantName { variant_names: variant_names(vs) })
            }
        },
        DeriveData::Union => Err(DeriveError::Unions),
    }
}

/// Derive the wire-type implementation; see [`sp_derive_arg`].
pub fn derive_arg(d: &DeriveInputDef) -> (r: Result<ArgImpl, DeriveError>)
    ensures
        match r {
            Ok(im) => sp_derive_arg(d.deep_view()) == Ok::<ArgImplV, DeriveError>(im.deep_view()),
            Err(e) => sp_derive_arg(d.deep_view()) == Err::<ArgImplV, DeriveError>(e),
        },
{
    match &d.data {
        DeriveData::Enum(_) => {
            if d.has_generics {
                Err(DeriveError::Generics)
            } else {
                Ok(ArgImpl { name: clone_bytes(&d.name) })
            }
        },
        _ => Err(DeriveError::NonEnum),
    }
}

/// Derive the reading implementation; see [`sp_derive_get`].
pub fn derive_get(d: &DeriveInputDef) -> (r: Result<GetImpl, DeriveError>)
    ensures
        match r {
            Ok(im) => sp_derive_get(d.deep_view()) == Ok::<GetImplV, DeriveError>(im.deep_view()),
            Err(e) => sp_derive_get(d.deep_view()) == Err::<GetImplV, DeriveError>(e),
        },
{
    match &d.data {
        DeriveData::Enum(vs) => {
            if any_discriminant(vs) {
                Err(DeriveError::Discriminants)
            } else if d.has_generics {
                Err(DeriveError::Generics)
            } else {
                Ok(GetImpl { name: clone_bytes(&d.name), variant_names: variant_names(vs) })
            }
        },
        _ => Err(DeriveError::NonEnum),
    }
}

} // verus!
