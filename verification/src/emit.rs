//! Type-directed emission: from a validated object declaration to a
//! typed binding description.
//!
//! Every binding implicitly carries the standard pieces the host runtime
//! gives each object — a struct holding a connection handle, destination,
//! path and call timeout, a debug view of destination/path/timeout, the
//! generic property-access protocol, and marshaling of the object as its
//! path.  What varies is described here: constant destination/path
//! bindings, capability markers, and one API item per member.
//!
//! A getter or method wrapper ends in a *transformer*: a recursive
//! post-processing step over the declared type.  An object reference
//! wraps the returned path into a constructed instance that inherits the
//! caller's connection, destination and timeout; an array maps its
//! element transformer over the returned sequence; struct and map
//! results are not supported by the transformer pipeline and fail
//! emission rather than silently compiling incorrect behavior.

use vstd::prelude::*;

use crate::ast::{
    clone_args, clone_bytes, clone_bytes_list, clone_host_path, clone_type, Arg, ArgV, HostPath,
    HostPathV, InterfaceImpl, InterfaceImplV, Member, MemberV, Method, MethodV, Object, ObjectV,
    Property, PropertyV, Type, TypeV,
};

verus! {

broadcast use vstd::std_specs::vec::group_vec_axioms, vstd::seq::group_seq_axioms;

// ---------------------------------------------------------------------------
// Transformers
// ---------------------------------------------------------------------------
/// The post-processing step applied to a raw decoded value.
#[derive(PartialEq, Eq, Debug)]
pub enum Transform {
    /// Wrap a returned path into a constructed instance of the referenced
    /// object type, inheriting the caller's connection, destination and
    /// timeout.
    SubObject(HostPath),
    /// Apply the inner transform to every element of a returned sequence,
    /// in order.
    MapElements(Box<Transform>),
}

/// Image of [`Transform`].
pub enum TransformV {
    SubObject(HostPathV),
    MapElements(Box<TransformV>),
}

impl DeepView for Transform {
    type V = TransformV;

    open spec fn deep_view(&self) -> TransformV
        decreases self,
    {
        match self {
            Transform::SubObject(p) => TransformV::SubObject(p.deep_view()),
            Transform::MapElements(t) => TransformV::MapElements(Box::new((**t).deep_view())),
        }
    }
}

/// Why emission rejected a declaration.
#[derive(Clone, Copy, PartialEq, Eq, Structural, Debug)]
pub enum EmitError {
    /// A struct-typed property or return runs through the transformer
    /// pipeline, which does not support it.
    UnsupportedStructResult,
    /// A map-typed property or return runs through the transformer
    /// pipeline, which does not support it.
    UnsupportedDictResult,
}

/// The transformer of a declared type: none for plain values, a wrapping
/// step for object references, elementwise application for arrays, and a
/// refusal for struct and map results.
pub open spec fn sp_transformer(t: TypeV) -> Result<Option<TransformV>, EmitError>
    decreases t,
{
    match t {
        TypeV::Object(p) => Ok(Some(TransformV::SubObject(p))),
        TypeV::Struct(_) => Err(EmitError::UnsupportedStructResult),
        TypeV::Dict(_, _) => Err(EmitError::UnsupportedDictResult),
        TypeV::Array(t1) => match sp_transformer(*t1) {
            Ok(Some(tr)) => Ok(Some(TransformV::MapElements(Box::new(tr)))),
            Ok(None) => Ok(None),
            Err(e) => Err(e),
        },
        _ => Ok(None),
    }
}

impl Type {
    /// The transformer of this type; see [`sp_transformer`].
    pub fn transformer(&self) -> (r: Result<Option<Transform>, EmitError>)
        ensures
            match r {
                Ok(None) => sp_transformer(self.deep_view()) == Ok::<Option<TransformV>, EmitError>(
                    None,
                ),
                Ok(Some(tr)) => sp_transformer(self.deep_view()) == Ok::<
                    Option<TransformV>,
                    EmitError,
                >(Some(tr.deep_view())),
                Err(e) => sp_transformer(self.deep_view()) == Err::<
                    Option<TransformV>,
                    EmitError,
                >(e),
            },
        decreases self,
    {
        match self {
            Type::Object(p) => Ok(Some(Transform::SubObject(clone_host_path(p)))),
            Type::Struct(_) => Err(EmitError::UnsupportedStructResult),
            Type::Dict(_, _) => Err(EmitError::UnsupportedDictResult),
            Type::Array(t1) => {
                match (**t1).transformer() {
                    Ok(Some(tr)) => Ok(Some(Transform::MapElements(Box::new(tr)))),
                    Ok(None) => Ok(None),
                    Err(e) => Err(e),
                }
            },
            _ => Ok(None),
        }
    }
}

// ---------------------------------------------------------------------------
// The binding description
// ---------------------------------------------------------------------------
/// A property getter: a generic "get property" call scoped to the
/// declaring interface and property name, then the type's transformer.
#[derive(PartialEq, Eq, Debug)]
pub struct Getter {
    pub attrs: Vec<Vec<u8>>,
    pub fn_name: Vec<u8>,
    pub interface: Vec<u8>,
    pub property: Vec<u8>,
    pub ty: Type,
    pub transform: Option<Transform>,
}

/// Image of [`Getter`].
pub struct GetterV {
    pub attrs: Seq<Seq<u8>>,
    pub fn_name: Seq<u8>,
    pub interface: Seq<u8>,
    pub property: Seq<u8>,
    pub ty: TypeV,
    pub transform: Option<TransformV>,
}

impl DeepView for Getter {
    type V = GetterV;

    open spec fn deep_view(&self) -> GetterV {
        GetterV {
            attrs: self.attrs.deep_view(),
            fn_name: self.fn_name@,
            interface: self.interface@,
            property: self.property@,
            ty: self.ty.deep_view(),
            transform: self.transform.deep_view(),
        }
    }
}

/// A property setter: a generic "set property" call passing the value
/// wrapped as a dynamically typed one.
#[derive(PartialEq, Eq, Debug)]
pub struct Setter {
    pub attrs: Vec<Vec<u8>>,
    pub fn_name: Vec<u8>,
    pub interface: Vec<u8>,
    pub property: Vec<u8>,
    pub ty: Type,
}

/// Image of [`Setter`].
pub struct SetterV {
    pub attrs: Seq<Seq<u8>>,
    pub fn_name: Seq<u8>,
    pub interface: Seq<u8>,
    pub property: Seq<u8>,
    pub ty: TypeV,
}

impl DeepView for Setter {
    type V = SetterV;

    open spec fn deep_view(&self) -> SetterV {
        SetterV {
            attrs: self.attrs.deep_view(),
            fn_name: self.fn_name@,
            interface: self.interface@,
            property: self.property@,
            ty: self.ty.deep_view(),
        }
    }
}

/// A method wrapper: a generic remote call scoped to the declaring
/// interface and method name, the arguments passed as a positional
/// tuple.  When `unwrap_single` is set the one-element response tuple is
/// unwrapped to its bare value before the transformer runs.
#[derive(PartialEq, Eq, Debug)]
pub struct MethodWrapper {
    pub attrs: Vec<Vec<u8>>,
    pub fn_name: Vec<u8>,
    pub interface: Vec<u8>,
    pub member: Vec<u8>,
    pub args: Vec<Arg>,
    pub output: Type,
    pub unwrap_single: bool,
    pub transform: Option<Transform>,
}

/// Image of [`MethodWrapper`].
pub struct MethodWrapperV {
    pub attrs: Seq<Seq<u8>>,
    pub fn_name: Seq<u8>,
    pub interface: Seq<u8>,
    pub member: Seq<u8>,
    pub args: Seq<ArgV>,
    pub output: TypeV,
    pub unwrap_single: bool,
    pub transform: Option<TransformV>,
}

impl DeepView for MethodWrapper {
    type V = MethodWrapperV;

    open spec fn deep_view(&self) -> MethodWrapperV {
        MethodWrapperV {
            attrs: self.attrs.deep_view(),
            fn_name: self.fn_name@,
            interface: self.interface@,
            member: self.member@,
            args: self.args.deep_view(),
            output: self.output.deep_view(),
            unwrap_single: self.unwrap_single,
            transform: self.transform.deep_view(),
        }
    }
}

/// One emitted API item.
#[derive(PartialEq, Eq, Debug)]
pub enum ApiItem {
    /// An empty implementation of an interface defined elsewhere.
    NamedInterface(Vec<u8>),
    Getter(Getter),
    Setter(Setter),
    Method(MethodWrapper),
}

/// Image of [`ApiItem`].
pub enum ApiItemV {
    NamedInterface(Seq<u8>),
    Getter(GetterV),
    Setter(SetterV),
    Method(MethodWrapperV),
}

impl DeepView for ApiItem {
    type V = ApiItemV;

    open spec fn deep_view(&self) -> ApiItemV {
        match self {
            ApiItem::NamedInterface(n) => ApiItemV::NamedInterface(n@),
            ApiItem::Getter(g) => ApiItemV::Getter(g.deep_view()),
            ApiItem::Setter(s) => ApiItemV::Setter(s.deep_view()),
            ApiItem::Method(m) => ApiItemV::Method(m.deep_view()),
        }
    }
}

/// The typed binding emitted for one object declaration.
#[derive(PartialEq, Eq, Debug)]
pub struct Binding {
    pub attrs: Vec<Vec<u8>>,
    pub name: Vec<u8>,
    /// The constant destination binding, where one was declared.
    pub destination: Option<Vec<u8>>,
    /// The constant path binding, where one was declared.
    pub path: Option<Vec<u8>>,
    /// The commonly-on-the-session-bus capability marker.
    pub session: bool,
    /// The commonly-on-the-system-bus capability marker.
    pub system: bool,
    pub items: Vec<ApiItem>,
}

/// Image of [`Binding`].
pub struct BindingV {
    pub attrs: Seq<Seq<u8>>,
    pub name: Seq<u8>,
    pub destination: Option<Seq<u8>>,
    pub path: Option<Seq<u8>>,
    pub session: bool,
    pub system: bool,
    pub items: Seq<ApiItemV>,
}

impl DeepView for Binding {
    type V = BindingV;

    open spec fn deep_view(&self) -> BindingV {
        BindingV {
            attrs: self.attrs.deep_view(),
            name: self.name@,
            destination: self.destination.deep_view(),
            path: self.path.deep_view(),
            session: self.session,
            system: self.system,
            items: self.items.deep_view(),
        }
    }
}

// ---------------------------------------------------------------------------
// Emission
// ---------------------------------------------------------------------------
/// The name of a property's getter: `get_` before the property name.
pub open spec fn sp_getter_name(n: Seq<u8>) -> Seq<u8> {
    seq![('g' as u8), ('e' as u8), ('t' as u8), ('_' as u8)] + n
}

/// The name of a property's setter: `set_` before the property name.
pub open spec fn sp_setter_name(n: Seq<u8>) -> Seq<u8> {
    seq![('s' as u8), ('e' as u8), ('t' as u8), ('_' as u8)] + n
}

/// The items emitted for one property: a getter, preceded by a setter
/// when the property is mutable.
pub open spec fn sp_emit_property(iface: Seq<u8>, p: PropertyV) -> Result<Seq<ApiItemV>, EmitError> {
    match sp_transformer(p.ty) {
        Err(e) => Err(e),
        Ok(tr) => {
            let getter = ApiItemV::Getter(
                GetterV {
                    attrs: p.attrs,
                    fn_name: sp_getter_name(p.name),
                    interface: iface,
                    property: p.name,
                    ty: p.ty,
                    transform: tr,
                },
            );
            if p.mutable {
                let setter = ApiItemV::Setter(
                    SetterV {
                        attrs: p.attrs,
                        fn_name: sp_setter_name(p.name),
                        interface: iface,
                        property: p.name,
                        ty: p.ty,
                    },
                );
                Ok(seq![setter, getter])
            } else {
                Ok(seq![getter])
            }
        },
    }
}

/// The item emitted for one method.  The response tuple is unwrapped to
/// its bare value unless the declared output is a struct or absent.
pub open spec fn sp_emit_method(iface: Seq<u8>, m: MethodV) -> Result<Seq<ApiItemV>, EmitError> {
    match sp_transformer(m.output) {
        Err(e) => Err(e),
        Ok(tr) => Ok(
            seq![
                ApiItemV::Method(
                    MethodWrapperV {
                        attrs: m.attrs,
                        fn_name: m.name,
                        interface: iface,
                        member: m.name,
                        args: m.args,
                        output: m.output,
                        unwrap_single: !(m.output is Struct || m.output is Empty),
                        transform: tr,
                    },
                ),
            ],
        ),
    }
}

/// The items emitted for one member.
pub open spec fn sp_emit_member(iface: Seq<u8>, m: MemberV) -> Result<Seq<ApiItemV>, EmitError> {
    match m {
        MemberV::Property(p) => sp_emit_property(iface, p),
        MemberV::Method(mm) => sp_emit_method(iface, mm),
    }
}

/// The items of the members from position `k` on, in order.
pub open spec fn sp_emit_members(iface: Seq<u8>, ms: Seq<MemberV>, k: int) -> Result<
    Seq<ApiItemV>,
    EmitError,
>
    decreases ms.len() - k,
{
    if !(0 <= k && k < ms.len()) {
        Ok(Seq::empty())
    } else {
        match sp_emit_member(iface, ms[k]) {
            Err(e) => Err(e),
            Ok(items) => match sp_emit_members(iface, ms, k + 1) {
                Err(e) => Err(e),
                Ok(rest) => Ok(items + rest),
            },
        }
    }
}

/// The items of one interface implementation: an empty named
/// implementation, or the items of all members of an anonymous one.
pub open spec fn sp_emit_iface_impl(f: InterfaceImplV) -> Result<Seq<ApiItemV>, EmitError> {
    match f {
        InterfaceImplV::Named(n) => Ok(seq![ApiItemV::NamedInterface(n)]),
        InterfaceImplV::Anonymous(i) => sp_emit_members(i.name, i.members, 0),
    }
}

/// The items of the interface implementations from position `k` on.
pub open spec fn sp_emit_impls(fs: Seq<InterfaceImplV>, k: int) -> Result<Seq<ApiItemV>, EmitError>
    decreases fs.len() - k,
{
    if !(0 <= k && k < fs.len()) {
        Ok(Seq::empty())
    } else {
        match sp_emit_iface_impl(fs[k]) {
            Err(e) => Err(e),
            Ok(items) => match sp_emit_impls(fs, k + 1) {
                Err(e) => Err(e),
                Ok(rest) => Ok(items + rest),
            },
        }
    }
}

/// The binding of a whole declaration: a declaration either compiles
/// fully or not at all.
pub open spec fn sp_emit_object(o: ObjectV) -> Result<BindingV, EmitError> {
    match sp_emit_impls(o.interfaces, 0) {
        Err(e) => Err(e),
        Ok(items) => Ok(
            BindingV {
                attrs: o.attrs,
                name: o.name,
                destination: o.dest,
                path: o.path,
                session: o.session,
                system: o.system,
                items,
            },
        ),
    }
}

/// Build `get_<name>`.
fn getter_name(n: &Vec<u8>) -> (r: Vec<u8>)
    ensures
        r@ == sp_getter_name(n@),
{
    let mut out: Vec<u8> = Vec::new();
    out.push('g' as u8);
    out.push('e' as u8);
    out.push('t' as u8);
    out.push('_' as u8);
    proof {
        assert(out@ =~= seq![('g' as u8), ('e' as u8), ('t' as u8), ('_' as u8)]);
    }
    append_bytes(&mut out, n);
    out
}

/// Build `set_<name>`.
fn setter_name(n: &Vec<u8>) -> (r: Vec<u8>)
    ensures
        r@ == sp_setter_name(n@),
{
    let mut out: Vec<u8> = Vec::new();
    out.push('s' as u8);
    out.push('e' as u8);
    out.push('t' as u8);
    out.push('_' as u8);
    proof {
        assert(out@ =~= seq![('s' as u8), ('e' as u8), ('t' as u8), ('_' as u8)]);
    }
    append_bytes(&mut out, n);
    out
}

/// Append `n` to `out`.
fn append_bytes(out: &mut Vec<u8>, n: &Vec<u8>)
    ensures
        final(out)@ == old(out)@ + n@,
{
    let mut k: usize = 0;
    while k < n.len()
        invariant
            k <= n@.len(),
            out@ == old(out)@ + n@.take(k as int),
        decreases n@.len() - k,
    {
        out.push(n[k]);
        proof {
            assert(out@ =~= old(out)@ + n@.take(k + 1));
        }
        k = k + 1;
    }
    proof {
        assert(n@.take(n@.len() as int) =~= n@);
    }
}

/// Emit the items of one member.
fn emit_member(iface: &Vec<u8>, m: &Member) -> (r: Result<Vec<ApiItem>, EmitError>)
    ensures
        match r {
            Ok(items) => sp_emit_member(iface@, m.deep_view()) == Ok::<Seq<ApiItemV>, EmitError>(
                items.deep_view(),
            ),
            Err(e) => sp_emit_member(iface@, m.deep_view()) == Err::<Seq<ApiItemV>, EmitError>(e),
        },
{
    match m {
        Member::Property(p) => {
            let tr = match p.ty.transformer() {
                Ok(tr) => tr,
                Err(e) => {
                    return Err(e);
                },
            };
            let mut items: Vec<ApiItem> = Vec::new();
            if p.mutable {
                items.push(
                    ApiItem::Setter(
                        Setter {
                            attrs: clone_bytes_list(&p.attrs),
                            fn_name: setter_name(&p.name),
                            interface: clone_bytes(iface),
                            property: clone_bytes(&p.name),
                            ty: clone_type(&p.ty),
                        },
                    ),
                );
            }
            items.push(
                ApiItem::Getter(
                    Getter {
                        attrs: clone_bytes_list(&p.attrs),
                        fn_name: getter_name(&p.name),
                        interface: clone_bytes(iface),
                        property: clone_bytes(&p.name),
                        ty: clone_type(&p.ty),
                        transform: tr,
                    },
                ),
            );
            proof {
                if p.mutable {
                    assert(items.deep_view() =~= sp_emit_property(
                        iface@,
                        p.deep_view(),
                    ).unwrap());
                } else {
                    assert(items.deep_view() =~= sp_emit_property(
                        iface@,
                        p.deep_view(),
                    ).unwrap());
                }
            }
            Ok(items)
        },
        Member::Method(mm) => {
            let tr = match mm.output.transformer() {
                Ok(tr) => tr,
                Err(e) => {
                    return Err(e);
                },
            };
            let is_struct = matches!(&mm.output, Type::Struct(_));
            let is_empty = matches!(&mm.output, Type::Empty);
            let mut items: Vec<ApiItem> = Vec::new();
            items.push(
                ApiItem::Method(
                    MethodWrapper {
                        attrs: clone_bytes_list(&mm.attrs),
                        fn_name: clone_bytes(&mm.name),
                        interface: clone_bytes(iface),
                        member: clone_bytes(&mm.name),
                        args: clone_args(&mm.args),
                        output: clone_type(&mm.output),
                        unwrap_single: !(is_struct || is_empty),
                        transform: tr,
                    },
                ),
            );
            proof {
                assert(items.deep_view() =~= sp_emit_method(iface@, mm.deep_view()).unwrap());
            }
            Ok(items)
        },
    }
}

/// Emit the items of one interface implementation.
fn emit_iface_impl(f: &InterfaceImpl) -> (r: Result<Vec<ApiItem>, EmitError>)
    ensures
        match r {
            Ok(items) => sp_emit_iface_impl(f.deep_view()) == Ok::<Seq<ApiItemV>, EmitError>(
                items.deep_view(),
            ),
            Err(e) => sp_emit_iface_impl(f.deep_view()) == Err::<Seq<ApiItemV>, EmitError>(e),
        },
{
    match f {
        InterfaceImpl::Named(n) => {
            let mut items: Vec<ApiItem> = Vec::new();
            items.push(ApiItem::NamedInterface(clone_bytes(n)));
            proof {
                assert(items.deep_view() =~= seq![ApiItemV::NamedInterface(n@)]);
            }
            Ok(items)
        },
        InterfaceImpl::Anonymous(intf) => {
            let ghost iv = intf.deep_view();
            let mut acc: Vec<ApiItem> = Vec::new();
            let mut k: usize = 0;
            proof {
                if let Ok(rest) = sp_emit_members(iv.name, iv.members, 0) {
                    assert(acc.deep_view() + rest =~= rest);
                }
            }
            while k < intf.members.len()
                invariant
                    *f == InterfaceImpl::Anonymous(*intf),
                    iv == intf.deep_view(),
                    k <= intf.members@.len(),
                    iv.members.len() == intf.members@.len(),
                    sp_emit_members(iv.name, iv.members, 0) == (match sp_emit_members(
                        iv.name,
                        iv.members,
                        k as int,
                    ) {
                        Err(e) => Err::<Seq<ApiItemV>, EmitError>(e),
                        Ok(rest) => Ok(acc.deep_view() + rest),
                    }),
                decreases intf.members@.len() - k,
            {
                proof {
                    assert(iv.members[k as int] == intf.members@[k as int].deep_view());
                }
                match emit_member(&intf.name, &intf.members[k]) {
                    Err(e) => {
                        return Err(e);
                    },
                    Ok(mut items) => {
                        let ghost pre = acc.deep_view();
                        let ghost itemsv = items.deep_view();
                        acc.append(&mut items);
                        proof {
                            assert(acc.deep_view() =~= pre + itemsv);
                            if let Ok(rest) = sp_emit_members(iv.name, iv.members, k + 1) {
                                assert((pre + itemsv) + rest =~= pre + (itemsv + rest));
                            }
                        }
                    },
                }
                k = k + 1;
            }
            Ok(acc)
        },
    }
}

/// Emit the binding of a whole declaration.
pub fn emit_object(o: &Object) -> (r: Result<Binding, EmitError>)
    ensures
        match r {
            Ok(b) => sp_emit_object(o.deep_view()) == Ok::<BindingV, EmitError>(b.deep_view()),
            Err(e) => sp_emit_object(o.deep_view()) == Err::<BindingV, EmitError>(e),
        },
{
    let ghost ov = o.deep_view();
    let mut acc: Vec<ApiItem> = Vec::new();
    let mut k: usize = 0;
    proof {
        if let Ok(rest) = sp_emit_impls(ov.interfaces, 0) {
            assert(acc.deep_view() + rest =~= rest);
        }
    }
    while k < o.interfaces.len()
        invariant
            ov == o.deep_view(),
            k <= o.interfaces@.len(),
            ov.interfaces.len() == o.interfaces@.len(),
            sp_emit_impls(ov.interfaces, 0) == (match sp_emit_impls(ov.interfaces, k as int) {
                Err(e) => Err::<Seq<ApiItemV>, EmitError>(e),
                Ok(rest) => Ok(acc.deep_view() + rest),
            }),
        decreases o.interfaces@.len() - k,
    {
        proof {
            assert(ov.interfaces[k as int] == o.interfaces@[k as int].deep_view());
        }
        match emit_iface_impl(&o.interfaces[k]) {
            Err(e) => {
                return Err(e);
            },
            Ok(mut items) => {
                let ghost pre = acc.deep_view();
                let ghost itemsv = items.deep_view();
                acc.append(&mut items);
                proof {
                    assert(acc.deep_view() =~= pre + itemsv);
                    if let Ok(rest) = sp_emit_impls(ov.interfaces, k + 1) {
                        assert((pre + itemsv) + rest =~= pre + (itemsv + rest));
                    }
                }
            },
        }
        k = k + 1;
    }
    let dest = match &o.dest {
        Some(d) => Some(clone_bytes(d)),
        None => None,
    };
    let path = match &o.path {
        Some(p) => Some(clone_bytes(p)),
        None => None,
    };
    Ok(
        Binding {
            attrs: clone_bytes_list(&o.attrs),
            name: clone_bytes(&o.name),
            destination: dest,
            path,
            session: o.session,
            system: o.system,
            items: acc,
        },
    )
}

// ---------------------------------------------------------------------------
// Laws of emission
// ---------------------------------------------------------------------------
/// A method declared with zero arguments and no return type is emitted
/// as a wrapper that passes an empty positional tuple and yields no
/// value on success: no response unwrapping and no transformer.
pub proof fn lemma_nullary_method_wrapper(iface: Seq<u8>, m: MethodV)
    requires
        m.args.len() == 0,
        m.output == TypeV::Empty,
    ensures
        sp_emit_method(iface, m) matches Ok(items) && items.len() == 1 && (items[0] matches
            ApiItemV::Method(w) && w.args.len() == 0 && w.output == TypeV::Empty
            && !w.unwrap_single && w.transform is None),
{
}

// ---------------------------------------------------------------------------
// Constructors of the emitted binding
// ---------------------------------------------------------------------------
/// The standard constructors a binding exposes, each gated by which of
/// destination, path and the capability markers were declared.
#[derive(Clone, Copy, PartialEq, Eq, Structural, Debug)]
pub enum Constructor {
    /// Declared destination and declared path.
    Connect,
    /// A caller-supplied destination with the declared path.
    WithDestination,
    /// The declared destination with a caller-supplied path.
    WithPath,
    /// `connect` on the session bus; needs the `session` marker.
    Session,
    /// `connect` on the system bus; needs the `system` marker.
    System,
}

/// Which constructors the binding exposes.
pub open spec fn sp_constructor_available(b: BindingV, c: Constructor) -> bool {
    match c {
        Constructor::Connect => b.destination is Some && b.path is Some,
        Constructor::WithDestination => b.path is Some,
        Constructor::WithPath => b.destination is Some,
        Constructor::Session => b.session && b.destination is Some && b.path is Some,
        Constructor::System => b.system && b.destination is Some && b.path is Some,
    }
}

impl Binding {
    /// Does this binding expose constructor `c`?
    pub fn has_constructor(&self, c: Constructor) -> (r: bool)
        ensures
            r == sp_constructor_available(self.deep_view(), c),
    {
        match c {
            Constructor::Connect => self.destination.is_some() && self.path.is_some(),
            Constructor::WithDestination => self.path.is_some(),
            Constructor::WithPath => self.destination.is_some(),
            Constructor::Session => self.session && self.destination.is_some()
                && self.path.is_some(),
            Constructor::System => self.system && self.destination.is_some()
                && self.path.is_some(),
        }
    }
}

} // verus!
