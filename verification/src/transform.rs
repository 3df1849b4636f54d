//! Applying a transformer to a decoded value.
//!
//! Every emitted binding carries, besides its connection handle, a
//! destination, an object path and a call timeout; [`BoundObject`] is
//! that state.  A getter or method wrapper whose declared type carries a
//! transformer applies it to the raw decoded value: an object reference
//! turns a returned path into a constructed instance inheriting the
//! caller's destination and timeout, and an array transformer maps its
//! element transformer over the returned sequence, elementwise and in
//! order.  Values are modeled by [`WireValue`]: the shapes the
//! transformer distinguishes — paths and arrays — and representative
//! plain values, which it returns unchanged.

use vstd::prelude::*;

use crate::ast::clone_bytes;
use crate::ast::{HostPathV, PropertyV};
use crate::emit::{sp_emit_property, sp_transformer, ApiItemV, EmitError, Transform, TransformV};

verus! {

broadcast use vstd::std_specs::vec::group_vec_axioms, vstd::seq::group_seq_axioms;

// ---------------------------------------------------------------------------
// The bound-object state
// ---------------------------------------------------------------------------
/// The per-object state of an emitted binding, besides its connection.
#[derive(PartialEq, Eq, Debug)]
pub struct BoundObject {
    pub destination: Vec<u8>,
    pub path: Vec<u8>,
    pub timeout_ms: u64,
}

/// Image of [`BoundObject`].
pub struct BoundObjectV {
    pub destination: Seq<u8>,
    pub path: Seq<u8>,
    pub timeout_ms: u64,
}

impl DeepView for BoundObject {
    type V = BoundObjectV;

    open spec fn deep_view(&self) -> BoundObjectV {
        BoundObjectV {
            destination: self.destination@,
            path: self.path@,
            timeout_ms: self.timeout_ms,
        }
    }
}

impl BoundObject {
    /// Bind an object at a destination and path.
    pub fn new(destination: Vec<u8>, path: Vec<u8>, timeout_ms: u64) -> (r: BoundObject)
        ensures
            r.destination@ == destination@,
            r.path@ == path@,
            r.timeout_ms == timeout_ms,
    {
        BoundObject { destination, path, timeout_ms }
    }

    /// The typed handle of a sub-object: same destination and timeout as
    /// its parent — sub-objects may not change destination — and the
    /// given path.
    pub fn sub_object(&self, path: Vec<u8>) -> (r: BoundObject)
        ensures
            r.destination@ == self.destination@,
            r.path@ == path@,
            r.timeout_ms == self.timeout_ms,
    {
        BoundObject {
            destination: clone_bytes(&self.destination),
            path,
            timeout_ms: self.timeout_ms,
        }
    }
}

// ---------------------------------------------------------------------------
// Decoded values
// ---------------------------------------------------------------------------
/// A decoded value as the transformer sees it: the two shapes it
/// distinguishes, and representative plain values it passes through.
#[derive(PartialEq, Eq, Debug)]
pub enum WireValue {
    ObjPath(Vec<u8>),
    Array(Vec<WireValue>),
    Str(Vec<u8>),
    Int32(i32),
    Boolean(bool),
}

/// Image of [`WireValue`].
pub enum WireValueV {
    ObjPath(Seq<u8>),
    Array(Seq<WireValueV>),
    Str(Seq<u8>),
    Int32(i32),
    Boolean(bool),
}

/// The mathematical image of a decoded value.
pub open spec fn view_wire_value(v: WireValue) -> WireValueV
    decreases v,
    via view_wire_value_dec
{
    match v {
        WireValue::ObjPath(p) => WireValueV::ObjPath(p@),
        WireValue::Array(vs) => WireValueV::Array(
            Seq::new(
                vs@.len(),
                |k: int|
                    if 0 <= k < vs@.len() {
                        view_wire_value(vs@[k])
                    } else {
                        WireValueV::Boolean(false)
                    },
            ),
        ),
        WireValue::Str(s) => WireValueV::Str(s@),
        WireValue::Int32(n) => WireValueV::Int32(n),
        WireValue::Boolean(b) => WireValueV::Boolean(b),
    }
}

#[via_fn]
proof fn view_wire_value_dec(v: WireValue) {
    broadcast use vstd::std_specs::vec::group_vec_axioms, vstd::seq::group_seq_axioms;

    match v {
        WireValue::Array(vs) => {
            assert forall|k: int| 0 <= k < vs@.len() implies decreases_to!(v => vs@[k]) by {
                assert(decreases_to!(v => vs));
                assert(decreases_to!(vs => vs@));
                assert(decreases_to!(vs@ => vs@[k]));
            }
        },
        _ => {},
    }
}

impl DeepView for WireValue {
    type V = WireValueV;

    open spec fn deep_view(&self) -> WireValueV {
        view_wire_value(*self)
    }
}

/// A transformed value: a raw value left alone, a constructed typed
/// handle, or a sequence of transformed elements.
#[derive(PartialEq, Eq, Debug)]
pub enum TransformedValue {
    Raw(WireValue),
    Object(BoundObject),
    Array(Vec<TransformedValue>),
}

/// Image of [`TransformedValue`].
pub enum TransformedV {
    Raw(WireValueV),
    Object(BoundObjectV),
    Array(Seq<TransformedV>),
}

/// The mathematical image of a transformed value.
pub open spec fn view_transformed(v: TransformedValue) -> TransformedV
    decreases v,
    via view_transformed_dec
{
    match v {
        TransformedValue::Raw(w) => TransformedV::Raw(w.deep_view()),
        TransformedValue::Object(o) => TransformedV::Object(o.deep_view()),
        TransformedValue::Array(vs) => TransformedV::Array(
            Seq::new(
                vs@.len(),
                |k: int|
                    if 0 <= k < vs@.len() {
                        view_transformed(vs@[k])
                    } else {
                        TransformedV::Raw(WireValueV::Boolean(false))
                    },
            ),
        ),
    }
}

#[via_fn]
proof fn view_transformed_dec(v: TransformedValue) {
    broadcast use vstd::std_specs::vec::group_vec_axioms, vstd::seq::group_seq_axioms;

    match v {
        TransformedValue::Array(vs) => {
            assert forall|k: int| 0 <= k < vs@.len() implies decreases_to!(v => vs@[k]) by {
                assert(decreases_to!(v => vs));
                assert(decreases_to!(vs => vs@));
                assert(decreases_to!(vs@ => vs@[k]));
            }
        },
        _ => {},
    }
}

impl DeepView for TransformedValue {
    type V = TransformedV;

    open spec fn deep_view(&self) -> TransformedV {
        view_transformed(*self)
    }
}

// ---------------------------------------------------------------------------
// Application
// ---------------------------------------------------------------------------
/// Apply a transformer to a decoded value on behalf of `parent`: an
/// object-reference step wants a path and constructs a handle keeping
/// the parent's destination and timeout; an elementwise step wants an
/// array and transforms each element independently, preserving order.
/// `None` on a value of the wrong shape.
pub open spec fn sp_apply_transform(parent: BoundObjectV, tr: TransformV, v: WireValueV) -> Option<
    TransformedV,
>
    decreases tr, 0int,
{
    match tr {
        TransformV::SubObject(_) => match v {
            WireValueV::ObjPath(p) => Some(
                TransformedV::Object(
                    BoundObjectV {
                        destination: parent.destination,
                        path: p,
                        timeout_ms: parent.timeout_ms,
                    },
                ),
            ),
            _ => None,
        },
        TransformV::MapElements(inner) => match v {
            WireValueV::Array(vs) => match sp_apply_all(parent, *inner, vs, 0) {
                None => None,
                Some(out) => Some(TransformedV::Array(out)),
            },
            _ => None,
        },
    }
}

/// Apply `tr` to every element of `vs` from position `k` on.
pub open spec fn sp_apply_all(
    parent: BoundObjectV,
    tr: TransformV,
    vs: Seq<WireValueV>,
    k: int,
) -> Option<Seq<TransformedV>>
    decreases tr, vs.len() - k + 1,
{
    if !(0 <= k && k < vs.len()) {
        Some(Seq::empty())
    } else {
        match sp_apply_transform(parent, tr, vs[k]) {
            None => None,
            Some(t) => match sp_apply_all(parent, tr, vs, k + 1) {
                None => None,
                Some(rest) => Some(seq![t] + rest),
            },
        }
    }
}

// ---------------------------------------------------------------------------
// Laws of the transformer protocol
// ---------------------------------------------------------------------------
/// The getter of an object-reference property wraps the returned path
/// into a constructed instance of the referenced type that shares the
/// caller's destination and timeout and differs only in path.
pub proof fn lemma_object_reference_getter(
    iface: Seq<u8>,
    p: PropertyV,
    parent: BoundObjectV,
    raw: Seq<u8>,
)
    requires
        p.ty is Object,
    ensures
        sp_emit_property(iface, p) matches Ok(items) && items.len() >= 1 && (items[items.len()
            - 1] matches ApiItemV::Getter(g) && g.transform == Some(
            TransformV::SubObject(p.ty->Object_0),
        ) && sp_apply_transform(parent, g.transform.unwrap(), WireValueV::ObjPath(raw)) == Some(
            TransformedV::Object(
                BoundObjectV {
                    destination: parent.destination,
                    path: raw,
                    timeout_ms: parent.timeout_ms,
                },
            ),
        )),
{
}

/// Applying an object-reference transform elementwise: every element
/// must be a path, each is wrapped independently, and order and length
/// are preserved.
pub proof fn lemma_apply_subobject_all(
    parent: BoundObjectV,
    hp: HostPathV,
    vs: Seq<WireValueV>,
    k: int,
)
    requires
        0 <= k <= vs.len(),
        forall|q: int| k <= q < vs.len() ==> (#[trigger] vs[q]) is ObjPath,
    ensures
        sp_apply_all(parent, TransformV::SubObject(hp), vs, k) matches Some(out) && out.len()
            == vs.len() - k && (forall|j: int|
            0 <= j < vs.len() - k ==> #[trigger] out[j] == TransformedV::Object(
                BoundObjectV {
                    destination: parent.destination,
                    path: vs[k + j]->ObjPath_0,
                    timeout_ms: parent.timeout_ms,
                },
            )),
    decreases vs.len() - k,
{
    let tr = TransformV::SubObject(hp);
    if k < vs.len() {
        assert(vs[k] is ObjPath);
        lemma_apply_subobject_all(parent, hp, vs, k + 1);
        assert(sp_apply_transform(parent, tr, vs[k]) is Some);
        assert(sp_apply_all(parent, tr, vs, k + 1) is Some);
        assert(sp_apply_all(parent, tr, vs, k) is Some);
        let t = TransformedV::Object(
            BoundObjectV {
                destination: parent.destination,
                path: vs[k]->ObjPath_0,
                timeout_ms: parent.timeout_ms,
            },
        );
        let rest = sp_apply_all(parent, tr, vs, k + 1).unwrap();
        let out = sp_apply_all(parent, tr, vs, k).unwrap();
        assert(out == seq![t] + rest);
        assert forall|j: int| 0 <= j < vs.len() - k implies #[trigger] out[j]
            == TransformedV::Object(
            BoundObjectV {
                destination: parent.destination,
                path: vs[k + j]->ObjPath_0,
                timeout_ms: parent.timeout_ms,
            },
        ) by {
            if j > 0 {
                assert(out[j] == rest[j - 1]);
            }
        }
    }
}

/// The getter of an array-of-object-references property applies the
/// reference transform to every element of the returned sequence
/// independently, preserving order: element `j` of the result is the
/// handle built from path `j`, with the caller's destination and
/// timeout.
pub proof fn lemma_object_array_getter(
    iface: Seq<u8>,
    p: PropertyV,
    parent: BoundObjectV,
    vs: Seq<WireValueV>,
)
    requires
        p.ty is Array,
        (*p.ty->Array_0) is Object,
        forall|q: int| 0 <= q < vs.len() ==> (#[trigger] vs[q]) is ObjPath,
    ensures
        sp_emit_property(iface, p) matches Ok(items) && items.len() >= 1 && (items[items.len()
            - 1] matches ApiItemV::Getter(g) && g.transform == Some(
            TransformV::MapElements(Box::new(TransformV::SubObject((*p.ty->Array_0)->Object_0))),
        ) && (sp_apply_transform(parent, g.transform.unwrap(), WireValueV::Array(vs)) matches Some(
            out,
        ) && out matches TransformedV::Array(ts) && ts.len() == vs.len() && (forall|j: int|
            0 <= j < vs.len() ==> #[trigger] ts[j] == TransformedV::Object(
                BoundObjectV {
                    destination: parent.destination,
                    path: vs[j]->ObjPath_0,
                    timeout_ms: parent.timeout_ms,
                },
            )))),
{
    let inner = *p.ty->Array_0;
    let hp = inner->Object_0;
    let sub = TransformV::SubObject(hp);
    let tr = TransformV::MapElements(Box::new(sub));
    assert(sp_transformer(inner) == Ok::<Option<TransformV>, EmitError>(Some(sub)));
    assert(sp_transformer(p.ty) == Ok::<Option<TransformV>, EmitError>(Some(tr)));
    lemma_apply_subobject_all(parent, hp, vs, 0);
    assert(sp_apply_all(parent, sub, vs, 0) is Some);
    assert(sp_apply_transform(parent, tr, WireValueV::Array(vs)) is Some);
}

/// Apply a transformer to a decoded value; see [`sp_apply_transform`].
pub fn apply_transform(parent: &BoundObject, tr: &Transform, v: &WireValue) -> (r: Option<
    TransformedValue,
>)
    ensures
        match r {
            Some(t) => sp_apply_transform(parent.deep_view(), tr.deep_view(), v.deep_view())
                == Some(t.deep_view()),
            None => sp_apply_transform(parent.deep_view(), tr.deep_view(), v.deep_view())
                is None,
        },
    decreases tr,
{
    match tr {
        Transform::SubObject(_) => match v {
            WireValue::ObjPath(p) => Some(
                TransformedValue::Object(parent.sub_object(clone_bytes(p))),
            ),
            _ => None,
        },
        Transform::MapElements(inner) => match v {
            WireValue::Array(vs) => {
                let ghost trv = tr.deep_view();
                let ghost innerv = (**inner).deep_view();
                let ghost vsv = v.deep_view()->Array_0;
                proof {
                    assert(vsv =~= Seq::new(
                        vs@.len(),
                        |k: int|
                            if 0 <= k < vs@.len() {
                                view_wire_value(vs@[k])
                            } else {
                                WireValueV::Boolean(false)
                            },
                    ));
                }
                let mut out: Vec<TransformedValue> = Vec::new();
                let mut k: usize = 0;
                proof {
                    if let Some(rest) = sp_apply_all(parent.deep_view(), innerv, vsv, 0) {
                        assert(out.deep_view() + rest =~= rest);
                    }
                }
                while k < vs.len()
                    invariant
                        *tr == Transform::MapElements(*inner),
                        *v == WireValue::Array(*vs),
                        innerv == (**inner).deep_view(),
                        vsv == v.deep_view()->Array_0,
                        vsv.len() == vs@.len(),
                        k <= vs@.len(),
                        forall|q: int|
                            0 <= q < vs@.len() ==> vsv[q] == view_wire_value(#[trigger] vs@[q]),
                        sp_apply_all(parent.deep_view(), innerv, vsv, 0) == (match sp_apply_all(
                            parent.deep_view(),
                            innerv,
                            vsv,
                            k as int,
                        ) {
                            None => None::<Seq<TransformedV>>,
                            Some(rest) => Some(out.deep_view() + rest),
                        }),
                    decreases vs@.len() - k,
                {
                    proof {
                        let tt: Transform = *tr;
                        assert(decreases_to!(tt => tt->MapElements_0));
                    }
                    match apply_transform(parent, inner, &vs[k]) {
                        None => {
                            return None;
                        },
                        Some(t) => {
                            let ghost pre = out.deep_view();
                            let ghost tv = t.deep_view();
                            out.push(t);
                            proof {
                                assert(out.deep_view() =~= pre + seq![tv]);
                                if let Some(rest) = sp_apply_all(
                                    parent.deep_view(),
                                    innerv,
                                    vsv,
                                    k + 1,
                                ) {
                                    assert((pre + seq![tv]) + rest =~= pre + (seq![tv] + rest));
                                }
                            }
                        },
                    }
                    k = k + 1;
                }
                let r = TransformedValue::Array(out);
                proof {
                    let outv = view_transformed(r)->Array_0;
                    assert(outv =~= out.deep_view());
                }
                Some(r)
            },
            _ => None,
        },
    }
}

} // verus!
