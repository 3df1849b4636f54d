//! Abstract syntax of the declaration language.
//!
//! A declaration describes one remote bus object: its name, optional
//! destination and path strings, optional `session`/`system` capability
//! markers, and a list of interface implementations, each carrying
//! properties and methods over the signature-code type grammar.
//!
//! Every executable node has a mathematical image (`...V`) over `Seq`,
//! reached through `DeepView`; contracts speak only about those images.

use vstd::prelude::*;

verus! {

broadcast use vstd::std_specs::vec::group_vec_axioms, vstd::seq::group_seq_axioms;

// ---------------------------------------------------------------------------
// Byte-string helpers
// ---------------------------------------------------------------------------
/// The bytes of the `mut` marker.
pub open spec fn kw_mut() -> Seq<u8> {
    seq![('m' as u8), ('u' as u8), ('t' as u8)]
}

/// The bytes of the `session` marker.
pub open spec fn kw_session() -> Seq<u8> {
    seq![('s' as u8), ('e' as u8), ('s' as u8), ('s' as u8), ('i' as u8), ('o' as u8), ('n' as u8)]
}

/// The bytes of the `system` marker.
pub open spec fn kw_system() -> Seq<u8> {
    seq![('s' as u8), ('y' as u8), ('s' as u8), ('t' as u8), ('e' as u8), ('m' as u8)]
}

/// The bytes of the array marker `a`.
pub open spec fn kw_array() -> Seq<u8> {
    seq![('a' as u8)]
}

/// The bytes of the variant marker `v`.
pub open spec fn kw_variant() -> Seq<u8> {
    seq![('v' as u8)]
}

/// A byte vector's deep image is its view.
pub broadcast proof fn lemma_bytes_deep_view(v: Vec<u8>)
    ensures
        #[trigger] v.deep_view() == v@,
{
    assert(v.deep_view() =~= v@);
}

/// Copy a byte vector.
pub fn clone_bytes(v: &Vec<u8>) -> (r: Vec<u8>)
    ensures
        r@ == v@,
{
    let r = v.clone();
    proof {
        assert(r@ =~= v@);
    }
    r
}

/// Copy a list of byte vectors.
pub fn clone_bytes_list(v: &Vec<Vec<u8>>) -> (r: Vec<Vec<u8>>)
    ensures
        r.deep_view() == v.deep_view(),
{
    let mut out: Vec<Vec<u8>> = Vec::new();
    let mut k: usize = 0;
    while k < v.len()
        invariant
            k <= v@.len(),
            out.deep_view() == v.deep_view().take(k as int),
        decreases v@.len() - k,
    {
        let ghost pre = out.deep_view();
        out.push(clone_bytes(&v[k]));
        proof {
            assert(out.deep_view() =~~= pre + seq![v.deep_view()[k as int]]);
            assert(out.deep_view() =~~= v.deep_view().take(k + 1));
        }
        k = k + 1;
    }
    proof {
        assert(v.deep_view().take(v@.len() as int) =~= v.deep_view());
    }
    out
}

/// Does `s` hold the bytes of `mut`?
pub fn is_mut_kw(s: &Vec<u8>) -> (r: bool)
    ensures
        r == (s@ == kw_mut()),
{
    let r = s.len() == 3 && s[0] == ('m' as u8) && s[1] == ('u' as u8) && s[2] == ('t' as u8);
    proof {
        if r {
            assert(s@ =~= kw_mut());
        }
    }
    r
}

/// Does `s` hold the bytes of `session`?
pub fn is_session_kw(s: &Vec<u8>) -> (r: bool)
    ensures
        r == (s@ == kw_session()),
{
    let r = s.len() == 7 && s[0] == ('s' as u8) && s[1] == ('e' as u8) && s[2] == ('s' as u8)
        && s[3] == ('s' as u8) && s[4] == ('i' as u8) && s[5] == ('o' as u8) && s[6] == ('n'
        as u8);
    proof {
        if r {
            assert(s@ =~= kw_session());
        }
    }
    r
}

/// Does `s` hold the bytes of `system`?
pub fn is_system_kw(s: &Vec<u8>) -> (r: bool)
    ensures
        r == (s@ == kw_system()),
{
    let r = s.len() == 6 && s[0] == ('s' as u8) && s[1] == ('y' as u8) && s[2] == ('s' as u8)
        && s[3] == ('t' as u8) && s[4] == ('e' as u8) && s[5] == ('m' as u8);
    proof {
        if r {
            assert(s@ =~= kw_system());
        }
    }
    r
}

// ---------------------------------------------------------------------------
// Scalar signature codes
// ---------------------------------------------------------------------------
/// The one-letter scalar wire types.
#[derive(Clone, Copy, PartialEq, Eq, Structural, Debug)]
pub enum SimpleType {
    U8,
    Bool,
    I16,
    U16,
    I32,
    U32,
    F64,
    File,
    String,
    Path,
    Signature,
}

/// The signature code letter of a scalar type.
pub open spec fn code_of_simple(t: SimpleType) -> u8 {
    match t {
        SimpleType::U8 => ('y' as u8),
        SimpleType::Bool => ('b' as u8),
        SimpleType::I16 => ('n' as u8),
        SimpleType::U16 => ('q' as u8),
        SimpleType::I32 => ('i' as u8),
        SimpleType::U32 => ('u' as u8),
        SimpleType::F64 => ('d' as u8),
        SimpleType::File => ('h' as u8),
        SimpleType::String => ('s' as u8),
        SimpleType::Path => ('o' as u8),
        SimpleType::Signature => ('g' as u8),
    }
}

/// Is `c` one of the eleven scalar code letters?
pub open spec fn is_scalar_code(c: u8) -> bool {
    ||| c == ('y' as u8)
    ||| c == ('b' as u8)
    ||| c == ('n' as u8)
    ||| c == ('q' as u8)
    ||| c == ('i' as u8)
    ||| c == ('u' as u8)
    ||| c == ('d' as u8)
    ||| c == ('h' as u8)
    ||| c == ('s' as u8)
    ||| c == ('o' as u8)
    ||| c == ('g' as u8)
}

/// The scalar type of a code letter.
pub open spec fn simple_of_code(c: u8) -> SimpleType
    recommends
        is_scalar_code(c),
{
    if c == ('y' as u8) {
        SimpleType::U8
    } else if c == ('b' as u8) {
        SimpleType::Bool
    } else if c == ('n' as u8) {
        SimpleType::I16
    } else if c == ('q' as u8) {
        SimpleType::U16
    } else if c == ('i' as u8) {
        SimpleType::I32
    } else if c == ('u' as u8) {
        SimpleType::U32
    } else if c == ('d' as u8) {
        SimpleType::F64
    } else if c == ('h' as u8) {
        SimpleType::File
    } else if c == ('s' as u8) {
        SimpleType::String
    } else if c == ('o' as u8) {
        SimpleType::Path
    } else {
        SimpleType::Signature
    }
}

/// A one-letter identifier that the type grammar claims for itself:
/// a scalar code, the array marker `a` or the variant marker `v`.
pub open spec fn is_type_code_ident(s: Seq<u8>) -> bool {
    s.len() == 1 && (is_scalar_code(s[0]) || s[0] == ('a' as u8) || s[0] == ('v' as u8))
}

// ---------------------------------------------------------------------------
// Types
// ---------------------------------------------------------------------------
/// A dot-free, `::`-separated name of a host-language item.
#[derive(PartialEq, Eq, Debug)]
pub struct HostPath {
    pub leading_colons: bool,
    pub segments: Vec<Vec<u8>>,
}

/// Image of [`HostPath`].
pub struct HostPathV {
    pub leading_colons: bool,
    pub segments: Seq<Seq<u8>>,
}

impl DeepView for HostPath {
    type V = HostPathV;

    open spec fn deep_view(&self) -> HostPathV {
        HostPathV { leading_colons: self.leading_colons, segments: self.segments.deep_view() }
    }
}

/// A declared value type: the recursive signature-code grammar.
///
/// `Empty` never appears in source text; it stands for the absent return
/// type of a method.
#[derive(PartialEq, Eq, Debug)]
pub enum Type {
    /// `v`: a dynamically typed boxed value.
    Variant,
    /// A freestanding name of an externally defined host type.
    Host(HostPath),
    /// `@ Name`: a typed handle to another declared object, carried on the
    /// wire as its path.
    Object(HostPath),
    /// A one-letter scalar code.
    Simple(SimpleType),
    /// `(T, T, ...)`: an ordered heterogeneous tuple.
    Struct(Vec<Type>),
    /// `a T`: a homogeneous sequence.
    Array(Box<Type>),
    /// `a { K V }`: a map with scalar keys.
    Dict(SimpleType, Box<Type>),
    /// No value.
    Empty,
}

/// Image of [`Type`].
pub enum TypeV {
    Variant,
    Host(HostPathV),
    Object(HostPathV),
    Simple(SimpleType),
    Struct(Seq<TypeV>),
    Array(Box<TypeV>),
    Dict(SimpleType, Box<TypeV>),
    Empty,
}

/// The mathematical image of a type.
pub open spec fn view_type(t: Type) -> TypeV
    decreases t,
    via view_type_dec
{
    match t {
        Type::Variant => TypeV::Variant,
        Type::Host(p) => TypeV::Host(p.deep_view()),
        Type::Object(p) => TypeV::Object(p.deep_view()),
        Type::Simple(s) => TypeV::Simple(s),
        Type::Struct(ts) => TypeV::Struct(
            Seq::new(
                ts@.len(),
                |i: int|
                    if 0 <= i < ts@.len() {
                        view_type(ts@[i])
                    } else {
                        TypeV::Empty
                    },
            ),
        ),
        Type::Array(t1) => TypeV::Array(Box::new(view_type(*t1))),
        Type::Dict(k, v) => TypeV::Dict(k, Box::new(view_type(*v))),
        Type::Empty => TypeV::Empty,
    }
}

#[via_fn]
proof fn view_type_dec(t: Type) {
    broadcast use vstd::std_specs::vec::group_vec_axioms, vstd::seq::group_seq_axioms;

    match t {
        Type::Struct(ts) => {
            assert forall|i: int| 0 <= i < ts@.len() implies decreases_to!(t => ts@[i]) by {
                assert(decreases_to!(t => ts));
                assert(decreases_to!(ts => ts@));
                assert(decreases_to!(ts@ => ts@[i]));
            }
        },
        _ => {},
    }
}

impl DeepView for Type {
    type V = TypeV;

    open spec fn deep_view(&self) -> TypeV {
        view_type(*self)
    }
}

/// The image of a struct type is the structwise image of its parts.
pub proof fn lemma_struct_view(ts: Vec<Type>)
    ensures
        view_type(Type::Struct(ts)) == TypeV::Struct(ts.deep_view()),
{
    let inner = view_type(Type::Struct(ts))->Struct_0;
    assert(inner =~= ts.deep_view());
}

// ---------------------------------------------------------------------------
// Members
// ---------------------------------------------------------------------------
/// A named argument of a method.
#[derive(PartialEq, Eq, Debug)]
pub struct Arg {
    pub name: Vec<u8>,
    pub ty: Type,
}

/// Image of [`Arg`].
pub struct ArgV {
    pub name: Seq<u8>,
    pub ty: TypeV,
}

impl DeepView for Arg {
    type V = ArgV;

    open spec fn deep_view(&self) -> ArgV {
        ArgV { name: self.name@, ty: self.ty.deep_view() }
    }
}

/// A remote property: `[mut] name : Type ;`.
#[derive(PartialEq, Eq, Debug)]
pub struct Property {
    pub attrs: Vec<Vec<u8>>,
    pub mutable: bool,
    pub name: Vec<u8>,
    pub ty: Type,
}

/// Image of [`Property`].
pub struct PropertyV {
    pub attrs: Seq<Seq<u8>>,
    pub mutable: bool,
    pub name: Seq<u8>,
    pub ty: TypeV,
}

impl DeepView for Property {
    type V = PropertyV;

    open spec fn deep_view(&self) -> PropertyV {
        PropertyV {
            attrs: self.attrs.deep_view(),
            mutable: self.mutable,
            name: self.name@,
            ty: self.ty.deep_view(),
        }
    }
}

/// A remote method: `name ( arg : Type , ... ) [-> Type] ;`.
#[derive(PartialEq, Eq, Debug)]
pub struct Method {
    pub attrs: Vec<Vec<u8>>,
    pub name: Vec<u8>,
    pub args: Vec<Arg>,
    pub output: Type,
}

/// Image of [`Method`].
pub struct MethodV {
    pub attrs: Seq<Seq<u8>>,
    pub name: Seq<u8>,
    pub args: Seq<ArgV>,
    pub output: TypeV,
}

impl DeepView for Method {
    type V = MethodV;

    open spec fn deep_view(&self) -> MethodV {
        MethodV {
            attrs: self.attrs.deep_view(),
            name: self.name@,
            args: self.args.deep_view(),
            output: self.output.deep_view(),
        }
    }
}

/// A member of an anonymous interface.
#[derive(PartialEq, Eq, Debug)]
pub enum Member {
    Property(Property),
    Method(Method),
}

/// Image of [`Member`].
pub enum MemberV {
    Property(PropertyV),
    Method(MethodV),
}

impl DeepView for Member {
    type V = MemberV;

    open spec fn deep_view(&self) -> MemberV {
        match self {
            Member::Property(p) => MemberV::Property(p.deep_view()),
            Member::Method(m) => MemberV::Method(m.deep_view()),
        }
    }
}

// ---------------------------------------------------------------------------
// Interfaces and objects
// ---------------------------------------------------------------------------
/// An anonymous interface: a wire name and its members.
#[derive(PartialEq, Eq, Debug)]
pub struct Interface {
    pub name: Vec<u8>,
    pub members: Vec<Member>,
}

/// Image of [`Interface`].
pub struct InterfaceV {
    pub name: Seq<u8>,
    pub members: Seq<MemberV>,
}

impl DeepView for Interface {
    type V = InterfaceV;

    open spec fn deep_view(&self) -> InterfaceV {
        InterfaceV { name: self.name@, members: self.members.deep_view() }
    }
}

/// One interface implementation of an object declaration.
#[derive(PartialEq, Eq, Debug)]
pub enum InterfaceImpl {
    /// `"wire.name" { members }`
    Anonymous(Interface),
    /// `Name ;` — a reference to an interface defined elsewhere.
    Named(Vec<u8>),
}

/// Image of [`InterfaceImpl`].
pub enum InterfaceImplV {
    Anonymous(InterfaceV),
    Named(Seq<u8>),
}

impl DeepView for InterfaceImpl {
    type V = InterfaceImplV;

    open spec fn deep_view(&self) -> InterfaceImplV {
        match self {
            InterfaceImpl::Anonymous(i) => InterfaceImplV::Anonymous(i.deep_view()),
            InterfaceImpl::Named(n) => InterfaceImplV::Named(n@),
        }
    }
}

/// A validated object declaration: the top-level unit of the language.
#[derive(PartialEq, Eq, Debug)]
pub struct Object {
    pub attrs: Vec<Vec<u8>>,
    pub name: Vec<u8>,
    pub dest: Option<Vec<u8>>,
    pub path: Option<Vec<u8>>,
    pub session: bool,
    pub system: bool,
    pub interfaces: Vec<InterfaceImpl>,
}

/// Image of [`Object`].
pub struct ObjectV {
    pub attrs: Seq<Seq<u8>>,
    pub name: Seq<u8>,
    pub dest: Option<Seq<u8>>,
    pub path: Option<Seq<u8>>,
    pub session: bool,
    pub system: bool,
    pub interfaces: Seq<InterfaceImplV>,
}

impl DeepView for Object {
    type V = ObjectV;

    open spec fn deep_view(&self) -> ObjectV {
        ObjectV {
            attrs: self.attrs.deep_view(),
            name: self.name@,
            dest: self.dest.deep_view(),
            path: self.path.deep_view(),
            session: self.session,
            system: self.system,
            interfaces: self.interfaces.deep_view(),
        }
    }
}

// ---------------------------------------------------------------------------
// Well-formedness: exactly the shapes the parser can produce.
// ---------------------------------------------------------------------------
/// A host path has at least one segment.
pub open spec fn wf_host_path(p: HostPathV) -> bool {
    p.segments.len() >= 1
}

/// A host path standing bare in type position: without leading colons its
/// first segment may not be a one-letter code identifier, which the type
/// grammar would read as a scalar, array or variant instead.
pub open spec fn wf_bare_host_path(p: HostPathV) -> bool {
    wf_host_path(p) && (p.leading_colons || !is_type_code_ident(p.segments[0]))
}

/// Types the parser can produce in type position (`Empty` never is).
pub open spec fn wf_type(t: TypeV) -> bool
    decreases t,
    via wf_type_dec
{
    match t {
        TypeV::Variant => true,
        TypeV::Host(p) => wf_bare_host_path(p),
        TypeV::Object(p) => wf_host_path(p),
        TypeV::Simple(_) => true,
        TypeV::Struct(ts) => forall|k: int| 0 <= k < ts.len() ==> wf_type(#[trigger] ts[k]),
        TypeV::Array(t1) => wf_type(*t1),
        TypeV::Dict(_, v) => wf_type(*v),
        TypeV::Empty => false,
    }
}

#[via_fn]
proof fn wf_type_dec(t: TypeV) {
    broadcast use vstd::seq::group_seq_axioms;

    match t {
        TypeV::Struct(ts) => {
            assert forall|k: int| 0 <= k < ts.len() implies decreases_to!(t => ts[k]) by {
                assert(decreases_to!(t => ts));
                assert(decreases_to!(ts => ts[k]));
            }
        },
        _ => {},
    }
}

/// Copy a host path.
pub fn clone_host_path(p: &HostPath) -> (r: HostPath)
    ensures
        r.deep_view() == p.deep_view(),
{
    HostPath { leading_colons: p.leading_colons, segments: clone_bytes_list(&p.segments) }
}

/// Copy a type.
pub fn clone_type(t: &Type) -> (r: Type)
    ensures
        r.deep_view() == t.deep_view(),
    decreases t,
{
    match t {
        Type::Variant => Type::Variant,
        Type::Host(p) => Type::Host(clone_host_path(p)),
        Type::Object(p) => Type::Object(clone_host_path(p)),
        Type::Simple(st) => Type::Simple(*st),
        Type::Struct(ts) => {
            let mut out: Vec<Type> = Vec::new();
            let mut k: usize = 0;
            while k < ts.len()
                invariant
                    *t == Type::Struct(*ts),
                    k <= ts@.len(),
                    out.deep_view() == ts.deep_view().take(k as int),
                decreases ts@.len() - k,
            {
                proof {
                    let tt: Type = *t;
                    let tsv: Vec<Type> = *ts;
                    assert(tt == Type::Struct(tsv));
                    assert(decreases_to!(tt => tt->Struct_0));
                    assert(decreases_to!(tt => tsv));
                    assert(decreases_to!(tsv => tsv@));
                    assert(decreases_to!(tsv@ => tsv@[k as int]));
                    assert(decreases_to!(tt => ts@[k as int]));
                }
                let ghost pre = out.deep_view();
                out.push(clone_type(&ts[k]));
                proof {
                    assert(out.deep_view() =~= pre + seq![ts.deep_view()[k as int]]);
                    assert(out.deep_view() =~= ts.deep_view().take(k + 1));
                }
                k = k + 1;
            }
            proof {
                assert(ts.deep_view().take(ts@.len() as int) =~= ts.deep_view());
                lemma_struct_view(out);
            }
            let r = Type::Struct(out);
            proof {
                assert(view_type(*t) == TypeV::Struct(ts.deep_view())) by {
                    let inner = view_type(*t)->Struct_0;
                    assert(inner =~= ts.deep_view());
                }
            }
            r
        },
        Type::Array(t1) => Type::Array(Box::new(clone_type(t1))),
        Type::Dict(kc, v) => Type::Dict(*kc, Box::new(clone_type(v))),
        Type::Empty => Type::Empty,
    }
}

/// Copy an argument.
pub fn clone_arg(a: &Arg) -> (r: Arg)
    ensures
        r.deep_view() == a.deep_view(),
{
    Arg { name: clone_bytes(&a.name), ty: clone_type(&a.ty) }
}

/// Copy an argument list.
pub fn clone_args(v: &Vec<Arg>) -> (r: Vec<Arg>)
    ensures
        r.deep_view() == v.deep_view(),
{
    let mut out: Vec<Arg> = Vec::new();
    let mut k: usize = 0;
    while k < v.len()
        invariant
            k <= v@.len(),
            out.deep_view() == v.deep_view().take(k as int),
        decreases v@.len() - k,
    {
        let ghost pre = out.deep_view();
        out.push(clone_arg(&v[k]));
        proof {
            assert(out.deep_view() =~= pre + seq![v.deep_view()[k as int]]);
            assert(out.deep_view() =~= v.deep_view().take(k + 1));
        }
        k = k + 1;
    }
    proof {
        assert(v.deep_view().take(v@.len() as int) =~= v.deep_view());
    }
    out
}

pub open spec fn wf_property(p: PropertyV) -> bool {
    &&& (p.mutable || p.name != kw_mut())
    &&& wf_type(p.ty)
}

pub open spec fn wf_method(m: MethodV) -> bool {
    &&& m.name != kw_mut()
    &&& forall|k: int| 0 <= k < m.args.len() ==> wf_type(#[trigger] m.args[k].ty)
    &&& (m.output == TypeV::Empty || wf_type(m.output))
}

pub open spec fn wf_member(m: MemberV) -> bool {
    match m {
        MemberV::Property(p) => wf_property(p),
        MemberV::Method(mm) => wf_method(mm),
    }
}

pub open spec fn wf_interface(i: InterfaceV) -> bool {
    forall|k: int| 0 <= k < i.members.len() ==> wf_member(#[trigger] i.members[k])
}

pub open spec fn wf_interface_impl(i: InterfaceImplV) -> bool {
    match i {
        InterfaceImplV::Anonymous(intf) => wf_interface(intf),
        InterfaceImplV::Named(_) => true,
    }
}

} // verus!
