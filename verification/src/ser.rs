//! Re-serialization: from an abstract syntax tree back to tokens and
//! text.
//!
//! The token sequence is canonical: the property list is written in the
//! order destination, path, `session`, `system`, without a trailing
//! comma, and is omitted when empty.  Rendering to text puts one space
//! after every token; a doc comment closes with its line break.

use vstd::prelude::*;

use crate::ast::{
    clone_bytes, code_of_simple, kw_array, kw_mut, kw_session, kw_system, kw_variant,
    wf_interface_impl, wf_member, wf_type, Arg, ArgV, HostPath, HostPathV, InterfaceImpl,
    InterfaceImplV, InterfaceV, Member, MemberV, Object, ObjectV, SimpleType, Type, TypeV,
};
use crate::token::{Token, TokenKind, TokenKindV};
use crate::validate::RawPropV;

verus! {

broadcast use vstd::std_specs::vec::group_vec_axioms, vstd::seq::group_seq_axioms, crate::ast::lemma_bytes_deep_view;

// ---------------------------------------------------------------------------
// Tokens of each node
// ---------------------------------------------------------------------------
/// `:: ident` for each segment from `k` on.
pub open spec fn sp_tokens_seg_rest(segs: Seq<Seq<u8>>, k: int) -> Seq<TokenKindV>
    decreases segs.len() - k,
{
    if !(0 <= k && k < segs.len()) {
        Seq::empty()
    } else {
        seq![TokenKindV::PathSep, TokenKindV::Ident(segs[k])] + sp_tokens_seg_rest(segs, k + 1)
    }
}

/// The tokens of a host path.
pub open spec fn sp_tokens_host_path(p: HostPathV) -> Seq<TokenKindV> {
    let lead: Seq<TokenKindV> = if p.leading_colons {
        seq![TokenKindV::PathSep]
    } else {
        Seq::empty()
    };
    lead + seq![TokenKindV::Ident(p.segments[0])] + sp_tokens_seg_rest(p.segments, 1)
}

/// The tokens of a type.
pub open spec fn sp_tokens_type(t: TypeV) -> Seq<TokenKindV>
    decreases t, 0int,
{
    match t {
        TypeV::Variant => seq![TokenKindV::Ident(kw_variant())],
        TypeV::Simple(st) => seq![TokenKindV::Ident(seq![code_of_simple(st)])],
        TypeV::Host(p) => sp_tokens_host_path(p),
        TypeV::Object(p) => seq![TokenKindV::At] + sp_tokens_host_path(p),
        TypeV::Struct(ts) => seq![TokenKindV::LParen] + sp_tokens_type_list(ts, 0) + seq![
            TokenKindV::RParen,
        ],
        TypeV::Array(t1) => seq![TokenKindV::Ident(kw_array())] + sp_tokens_type(*t1),
        TypeV::Dict(k, v) => seq![
            TokenKindV::Ident(kw_array()),
            TokenKindV::LBrace,
            TokenKindV::Ident(seq![code_of_simple(k)]),
        ] + sp_tokens_type(*v) + seq![TokenKindV::RBrace],
        TypeV::Empty => Seq::empty(),
    }
}

/// The comma-separated tokens of the types from `k` on.
pub open spec fn sp_tokens_type_list(ts: Seq<TypeV>, k: int) -> Seq<TokenKindV>
    decreases ts, ts.len() - k,
{
    if !(0 <= k && k < ts.len()) {
        Seq::empty()
    } else if k == ts.len() - 1 {
        sp_tokens_type(ts[k])
    } else {
        sp_tokens_type(ts[k]) + seq![TokenKindV::Comma] + sp_tokens_type_list(ts, k + 1)
    }
}

/// The doc-comment tokens of an attribute list from `k` on.
pub open spec fn sp_tokens_docs(attrs: Seq<Seq<u8>>, k: int) -> Seq<TokenKindV>
    decreases attrs.len() - k,
{
    if !(0 <= k && k < attrs.len()) {
        Seq::empty()
    } else {
        seq![TokenKindV::DocComment(attrs[k])] + sp_tokens_docs(attrs, k + 1)
    }
}

/// The tokens of one argument.
pub open spec fn sp_tokens_arg(a: ArgV) -> Seq<TokenKindV> {
    seq![TokenKindV::Ident(a.name), TokenKindV::Colon] + sp_tokens_type(a.ty)
}

/// The comma-separated tokens of the arguments from `k` on.
pub open spec fn sp_tokens_args(args: Seq<ArgV>, k: int) -> Seq<TokenKindV>
    decreases args.len() - k,
{
    if !(0 <= k && k < args.len()) {
        Seq::empty()
    } else if k == args.len() - 1 {
        sp_tokens_arg(args[k])
    } else {
        sp_tokens_arg(args[k]) + seq![TokenKindV::Comma] + sp_tokens_args(args, k + 1)
    }
}

/// The tokens of one member.
pub open spec fn sp_tokens_member(m: MemberV) -> Seq<TokenKindV> {
    match m {
        MemberV::Property(p) => sp_tokens_docs(p.attrs, 0) + (if p.mutable {
            seq![TokenKindV::Ident(kw_mut())]
        } else {
            Seq::empty()
        }) + seq![TokenKindV::Ident(p.name), TokenKindV::Colon] + sp_tokens_type(p.ty) + seq![
            TokenKindV::Semi,
        ],
        MemberV::Method(mm) => sp_tokens_docs(mm.attrs, 0) + seq![
            TokenKindV::Ident(mm.name),
            TokenKindV::LParen,
        ] + sp_tokens_args(mm.args, 0) + seq![TokenKindV::RParen] + (if mm.output == TypeV::Empty {
            Seq::empty()
        } else {
            seq![TokenKindV::Arrow] + sp_tokens_type(mm.output)
        }) + seq![TokenKindV::Semi],
    }
}

/// The tokens of the members from `k` on.
pub open spec fn sp_tokens_members(ms: Seq<MemberV>, k: int) -> Seq<TokenKindV>
    decreases ms.len() - k,
{
    if !(0 <= k && k < ms.len()) {
        Seq::empty()
    } else {
        sp_tokens_member(ms[k]) + sp_tokens_members(ms, k + 1)
    }
}

/// The tokens of one anonymous interface.
pub open spec fn sp_tokens_interface(i: InterfaceV) -> Seq<TokenKindV> {
    seq![TokenKindV::StrLit(i.name), TokenKindV::LBrace] + sp_tokens_members(i.members, 0) + seq![
        TokenKindV::RBrace,
    ]
}

/// The tokens of one interface implementation.
pub open spec fn sp_tokens_iface_impl(f: InterfaceImplV) -> Seq<TokenKindV> {
    match f {
        InterfaceImplV::Named(n) => seq![TokenKindV::Ident(n), TokenKindV::Semi],
        InterfaceImplV::Anonymous(i) => sp_tokens_interface(i),
    }
}

/// The tokens of the interface implementations from `k` on.
pub open spec fn sp_tokens_impls(fs: Seq<InterfaceImplV>, k: int) -> Seq<TokenKindV>
    decreases fs.len() - k,
{
    if !(0 <= k && k < fs.len()) {
        Seq::empty()
    } else {
        sp_tokens_iface_impl(fs[k]) + sp_tokens_impls(fs, k + 1)
    }
}

/// The raw property entries of an object, in canonical order:
/// destination, path, `session`, `system`.
pub open spec fn sp_raw_of(o: ObjectV) -> Seq<RawPropV> {
    (match o.dest {
        Some(d) => seq![RawPropV::Str(d)],
        None => Seq::empty(),
    }) + (match o.path {
        Some(p) => seq![RawPropV::Str(p)],
        None => Seq::empty(),
    }) + (if o.session {
        seq![RawPropV::Session]
    } else {
        Seq::empty()
    }) + (if o.system {
        seq![RawPropV::System]
    } else {
        Seq::empty()
    })
}

/// The token of one raw property entry.
pub open spec fn sp_token_of_raw(r: RawPropV) -> TokenKindV {
    match r {
        RawPropV::Str(s) => TokenKindV::StrLit(s),
        RawPropV::Session => TokenKindV::Ident(kw_session()),
        RawPropV::System => TokenKindV::Ident(kw_system()),
    }
}

/// The property entries of an object as tokens, one per entry.
pub open spec fn sp_prop_entries(o: ObjectV) -> Seq<TokenKindV> {
    sp_raw_of(o).map_values(|r: RawPropV| sp_token_of_raw(r))
}

/// Join one-token entries with commas, no trailing comma.
pub open spec fn sp_join_commas(es: Seq<TokenKindV>, k: int) -> Seq<TokenKindV>
    decreases es.len() - k,
{
    if !(0 <= k && k < es.len()) {
        Seq::empty()
    } else if k == es.len() - 1 {
        seq![es[k]]
    } else {
        seq![es[k], TokenKindV::Comma] + sp_join_commas(es, k + 1)
    }
}

/// The property-list tokens of an object; omitted when nothing was
/// declared.
pub open spec fn sp_tokens_props(o: ObjectV) -> Seq<TokenKindV> {
    let es = sp_prop_entries(o);
    if es.len() == 0 {
        Seq::empty()
    } else {
        seq![TokenKindV::LParen] + sp_join_commas(es, 0) + seq![TokenKindV::RParen]
    }
}

/// The tokens of a whole object declaration.
pub open spec fn sp_tokens_object(o: ObjectV) -> Seq<TokenKindV> {
    sp_tokens_docs(o.attrs, 0) + seq![TokenKindV::Ident(o.name)] + sp_tokens_props(o)
        + sp_tokens_impls(o.interfaces, 0)
}

// ---------------------------------------------------------------------------
// Executable serialization to tokens
// ---------------------------------------------------------------------------
/// Append one token.
fn push_tok(out: &mut Vec<Token>, kind: TokenKind)
    ensures
        final(out).deep_view() == old(out).deep_view() + seq![kind.deep_view()],
{
    let ghost kv = kind.deep_view();
    let ghost pre = out.deep_view();
    out.push(Token { kind, pos: 0 });
    proof {
        assert(out.deep_view() =~= pre + seq![kv]);
    }
}

/// A one-byte vector.
fn single_byte(c: u8) -> (r: Vec<u8>)
    ensures
        r@ == seq![c],
{
    let mut v: Vec<u8> = Vec::new();
    v.push(c);
    proof {
        assert(v@ =~= seq![c]);
    }
    v
}

/// The code letter of a scalar type.
fn code_of_simple_x(st: SimpleType) -> (r: u8)
    ensures
        r == code_of_simple(st),
{
    match st {
        SimpleType::U8 => 'y' as u8,
        SimpleType::Bool => 'b' as u8,
        SimpleType::I16 => 'n' as u8,
        SimpleType::U16 => 'q' as u8,
        SimpleType::I32 => 'i' as u8,
        SimpleType::U32 => 'u' as u8,
        SimpleType::F64 => 'd' as u8,
        SimpleType::File => 'h' as u8,
        SimpleType::String => 's' as u8,
        SimpleType::Path => 'o' as u8,
        SimpleType::Signature => 'g' as u8,
    }
}

/// Append the tokens of a host path.
fn tokens_host_path(out: &mut Vec<Token>, p: &HostPath)
    requires
        p.segments@.len() >= 1,
    ensures
        final(out).deep_view() == old(out).deep_view() + sp_tokens_host_path(p.deep_view()),
{
    let ghost base = out.deep_view();
    let ghost pv = p.deep_view();
    let ghost segsv = pv.segments;
    if p.leading_colons {
        push_tok(out, TokenKind::PathSep);
    }
    push_tok(out, TokenKind::Ident(clone_bytes(&p.segments[0])));
    proof {
        let lead: Seq<TokenKindV> = if pv.leading_colons {
            seq![TokenKindV::PathSep]
        } else {
            Seq::empty()
        };
        assert(out.deep_view() + sp_tokens_seg_rest(segsv, 1) =~= base + sp_tokens_host_path(pv));
    }
    let mut k: usize = 1;
    while k < p.segments.len()
        invariant
            1 <= k <= p.segments@.len(),
            segsv == p.deep_view().segments,
            segsv.len() == p.segments@.len(),
            out.deep_view() + sp_tokens_seg_rest(segsv, k as int) == base + sp_tokens_host_path(
                p.deep_view(),
            ),
        decreases p.segments@.len() - k,
    {
        let ghost pre = out.deep_view();
        push_tok(out, TokenKind::PathSep);
        push_tok(out, TokenKind::Ident(clone_bytes(&p.segments[k])));
        proof {
            assert(out.deep_view() =~= pre + seq![
                TokenKindV::PathSep,
                TokenKindV::Ident(segsv[k as int]),
            ]);
            assert(out.deep_view() + sp_tokens_seg_rest(segsv, k + 1) =~= pre
                + sp_tokens_seg_rest(segsv, k as int));
        }
        k = k + 1;
    }
    proof {
        assert(sp_tokens_seg_rest(segsv, segsv.len() as int) =~= Seq::<TokenKindV>::empty());
        assert(out.deep_view() + Seq::<TokenKindV>::empty() =~= out.deep_view());
    }
}

/// Append the tokens of a type.
fn tokens_type(out: &mut Vec<Token>, t: &Type)
    requires
        wf_type(t.deep_view()),
    ensures
        final(out).deep_view() == old(out).deep_view() + sp_tokens_type(t.deep_view()),
    decreases t,
{
    let ghost base = out.deep_view();
    let ghost tv = t.deep_view();
    match t {
        Type::Variant => {
            push_tok(out, TokenKind::Ident(single_byte('v' as u8)));
            proof {
                assert(out.deep_view() =~= base + sp_tokens_type(tv));
            }
        },
        Type::Simple(st) => {
            push_tok(out, TokenKind::Ident(single_byte(code_of_simple_x(*st))));
            proof {
                assert(out.deep_view() =~= base + sp_tokens_type(tv));
            }
        },
        Type::Host(p) => {
            tokens_host_path(out, p);
        },
        Type::Object(p) => {
            push_tok(out, TokenKind::At);
            tokens_host_path(out, p);
            proof {
                assert((base + seq![TokenKindV::At]) + sp_tokens_host_path(p.deep_view()) =~= base
                    + sp_tokens_type(tv));
            }
        },
        Type::Struct(ts) => {
            let ghost tsv = tv->Struct_0;
            proof {
                assert(tsv =~= Seq::new(
                    ts@.len(),
                    |q: int|
                        if 0 <= q < ts@.len() {
                            crate::ast::view_type(ts@[q])
                        } else {
                            TypeV::Empty
                        },
                ));
            }
            push_tok(out, TokenKind::LParen);
            let mut k: usize = 0;
            proof {
                assert(out.deep_view() + (sp_tokens_type_list(tsv, 0) + seq![
                    TokenKindV::RParen,
                ]) =~= base + sp_tokens_type(tv));
            }
            while k < ts.len()
                invariant
                    *t == Type::Struct(*ts),
                    k <= ts@.len(),
                    tv == t.deep_view(),
                    tsv == tv->Struct_0,
                    tsv.len() == ts@.len(),
                    forall|q: int|
                        0 <= q < ts@.len() ==> tsv[q] == crate::ast::view_type(
                            #[trigger] ts@[q],
                        ),
                    wf_type(tv),
                    out.deep_view() + (sp_tokens_type_list(tsv, k as int) + seq![
                        TokenKindV::RParen,
                    ]) == base + sp_tokens_type(tv),
                decreases ts@.len() - k,
            {
                proof {
                    let tt: Type = *t;
                    assert(decreases_to!(tt => tt->Struct_0));
                    let tsvec: Vec<Type> = *ts;
                    assert(decreases_to!(tsvec => tsvec@));
                    assert(decreases_to!(tsvec@ => tsvec@[k as int]));
                    assert(wf_type(tsv[k as int]));
                }
                let ghost pre = out.deep_view();
                tokens_type(out, &ts[k]);
                if k + 1 < ts.len() {
                    push_tok(out, TokenKind::Comma);
                    proof {
                        assert(out.deep_view() =~= pre + (sp_tokens_type(tsv[k as int]) + seq![
                            TokenKindV::Comma,
                        ]));
                        assert(sp_tokens_type_list(tsv, k as int) =~= sp_tokens_type(
                            tsv[k as int],
                        ) + seq![TokenKindV::Comma] + sp_tokens_type_list(tsv, k + 1));
                        assert(out.deep_view() + (sp_tokens_type_list(tsv, k + 1) + seq![
                            TokenKindV::RParen,
                        ]) =~= pre + (sp_tokens_type_list(tsv, k as int) + seq![
                            TokenKindV::RParen,
                        ]));
                    }
                } else {
                    proof {
                        assert(sp_tokens_type_list(tsv, k as int) =~= sp_tokens_type(
                            tsv[k as int],
                        ));
                        assert(out.deep_view() + (sp_tokens_type_list(tsv, k + 1) + seq![
                            TokenKindV::RParen,
                        ]) =~= pre + (sp_tokens_type_list(tsv, k as int) + seq![
                            TokenKindV::RParen,
                        ]));
                    }
                }
                k = k + 1;
            }
            push_tok(out, TokenKind::RParen);
            proof {
                assert(sp_tokens_type_list(tsv, ts@.len() as int) =~= Seq::<TokenKindV>::empty());
                assert(out.deep_view() =~= base + sp_tokens_type(tv));
            }
        },
        Type::Array(t1) => {
            push_tok(out, TokenKind::Ident(single_byte('a' as u8)));
            tokens_type(out, t1);
            proof {
                assert((base + seq![TokenKindV::Ident(kw_array())]) + sp_tokens_type(
                    (*t1).deep_view(),
                ) =~= base + sp_tokens_type(tv));
            }
        },
        Type::Dict(kc, v) => {
            push_tok(out, TokenKind::Ident(single_byte('a' as u8)));
            push_tok(out, TokenKind::LBrace);
            push_tok(out, TokenKind::Ident(single_byte(code_of_simple_x(*kc))));
            let ghost mid = out.deep_view();
            proof {
                assert(mid =~= base + seq![
                    TokenKindV::Ident(kw_array()),
                    TokenKindV::LBrace,
                    TokenKindV::Ident(seq![code_of_simple(*kc)]),
                ]);
            }
            tokens_type(out, v);
            push_tok(out, TokenKind::RBrace);
            proof {
                assert(out.deep_view() =~= base + sp_tokens_type(tv));
            }
        },
        Type::Empty => {
            proof {
                assert(false);
            }
        },
    }
}

/// Append the doc-comment tokens of an attribute list.
fn tokens_docs_x(out: &mut Vec<Token>, attrs: &Vec<Vec<u8>>)
    ensures
        final(out).deep_view() == old(out).deep_view() + sp_tokens_docs(attrs.deep_view(), 0),
{
    let ghost base = out.deep_view();
    let ghost av = attrs.deep_view();
    let mut k: usize = 0;
    while k < attrs.len()
        invariant
            k <= attrs@.len(),
            av == attrs.deep_view(),
            av.len() == attrs@.len(),
            out.deep_view() + sp_tokens_docs(av, k as int) == base + sp_tokens_docs(av, 0),
        decreases attrs@.len() - k,
    {
        let ghost pre = out.deep_view();
        push_tok(out, TokenKind::DocComment(clone_bytes(&attrs[k])));
        proof {
            assert(out.deep_view() + sp_tokens_docs(av, k + 1) =~= pre + sp_tokens_docs(
                av,
                k as int,
            ));
        }
        k = k + 1;
    }
    proof {
        assert(sp_tokens_docs(av, av.len() as int) =~= Seq::<TokenKindV>::empty());
        assert(out.deep_view() + Seq::<TokenKindV>::empty() =~= out.deep_view());
    }
}

/// The bytes of `mut`.
fn mut_kw_bytes() -> (r: Vec<u8>)
    ensures
        r@ == kw_mut(),
{
    let mut v: Vec<u8> = Vec::new();
    v.push('m' as u8);
    v.push('u' as u8);
    v.push('t' as u8);
    proof {
        assert(v@ =~= kw_mut());
    }
    v
}

/// The bytes of `session`.
fn session_kw_bytes() -> (r: Vec<u8>)
    ensures
        r@ == kw_session(),
{
    let mut v: Vec<u8> = Vec::new();
    v.push('s' as u8);
    v.push('e' as u8);
    v.push('s' as u8);
    v.push('s' as u8);
    v.push('i' as u8);
    v.push('o' as u8);
    v.push('n' as u8);
    proof {
        assert(v@ =~= kw_session());
    }
    v
}

/// The bytes of `system`.
fn system_kw_bytes() -> (r: Vec<u8>)
    ensures
        r@ == kw_system(),
{
    let mut v: Vec<u8> = Vec::new();
    v.push('s' as u8);
    v.push('y' as u8);
    v.push('s' as u8);
    v.push('t' as u8);
    v.push('e' as u8);
    v.push('m' as u8);
    proof {
        assert(v@ =~= kw_system());
    }
    v
}

/// Append the tokens of one argument.
fn tokens_arg_x(out: &mut Vec<Token>, a: &Arg)
    requires
        wf_type(a.ty.deep_view()),
    ensures
        final(out).deep_view() == old(out).deep_view() + sp_tokens_arg(a.deep_view()),
{
    let ghost base = out.deep_view();
    push_tok(out, TokenKind::Ident(clone_bytes(&a.name)));
    push_tok(out, TokenKind::Colon);
    tokens_type(out, &a.ty);
    proof {
        assert(out.deep_view() =~= base + sp_tokens_arg(a.deep_view()));
    }
}

/// Append the tokens of one member.
fn tokens_member_x(out: &mut Vec<Token>, m: &Member)
    requires
        wf_member(m.deep_view()),
    ensures
        final(out).deep_view() == old(out).deep_view() + sp_tokens_member(m.deep_view()),
{
    let ghost base = out.deep_view();
    let ghost mv = m.deep_view();
    match m {
        Member::Property(p) => {
            tokens_docs_x(out, &p.attrs);
            if p.mutable {
                push_tok(out, TokenKind::Ident(mut_kw_bytes()));
            }
            push_tok(out, TokenKind::Ident(clone_bytes(&p.name)));
            push_tok(out, TokenKind::Colon);
            tokens_type(out, &p.ty);
            push_tok(out, TokenKind::Semi);
            proof {
                assert(out.deep_view() =~= base + sp_tokens_member(mv));
            }
        },
        Member::Method(mm) => {
            tokens_docs_x(out, &mm.attrs);
            push_tok(out, TokenKind::Ident(clone_bytes(&mm.name)));
            push_tok(out, TokenKind::LParen);
            let ghost mid = out.deep_view();
            let ghost argsv = mm.args.deep_view();
            let mut k: usize = 0;
            while k < mm.args.len()
                invariant
                    k <= mm.args@.len(),
                    argsv == mm.args.deep_view(),
                    argsv.len() == mm.args@.len(),
                    forall|q: int|
                        0 <= q < argsv.len() ==> wf_type((#[trigger] argsv[q]).ty),
                    out.deep_view() + sp_tokens_args(argsv, k as int) == mid + sp_tokens_args(
                        argsv,
                        0,
                    ),
                decreases mm.args@.len() - k,
            {
                let ghost pre = out.deep_view();
                proof {
                    assert(argsv[k as int] == mm.args@[k as int].deep_view());
                }
                tokens_arg_x(out, &mm.args[k]);
                if k + 1 < mm.args.len() {
                    push_tok(out, TokenKind::Comma);
                    proof {
                        assert(out.deep_view() + sp_tokens_args(argsv, k + 1) =~= pre
                            + sp_tokens_args(argsv, k as int));
                    }
                } else {
                    proof {
                        assert(sp_tokens_args(argsv, k as int) =~= sp_tokens_arg(
                            argsv[k as int],
                        ));
                        assert(out.deep_view() + sp_tokens_args(argsv, k + 1) =~= pre
                            + sp_tokens_args(argsv, k as int));
                    }
                }
                k = k + 1;
            }
            proof {
                assert(sp_tokens_args(argsv, argsv.len() as int) =~= Seq::<TokenKindV>::empty());
                assert(out.deep_view() + Seq::<TokenKindV>::empty() =~= out.deep_view());
            }
            push_tok(out, TokenKind::RParen);
            match &mm.output {
                Type::Empty => {},
                _ => {
                    push_tok(out, TokenKind::Arrow);
                    tokens_type(out, &mm.output);
                },
            }
            push_tok(out, TokenKind::Semi);
            proof {
                if mv->Method_0.output == TypeV::Empty {
                    assert(out.deep_view() =~= base + sp_tokens_member(mv));
                } else {
                    assert(out.deep_view() =~= base + sp_tokens_member(mv));
                }
            }
        },
    }
}

/// Append the tokens of one interface implementation.
fn tokens_iface_impl_x(out: &mut Vec<Token>, f: &InterfaceImpl)
    requires
        wf_interface_impl(f.deep_view()),
    ensures
        final(out).deep_view() == old(out).deep_view() + sp_tokens_iface_impl(f.deep_view()),
{
    let ghost base = out.deep_view();
    let ghost fv = f.deep_view();
    match f {
        InterfaceImpl::Named(n) => {
            push_tok(out, TokenKind::Ident(clone_bytes(n)));
            push_tok(out, TokenKind::Semi);
            proof {
                assert(out.deep_view() =~= base + sp_tokens_iface_impl(fv));
            }
        },
        InterfaceImpl::Anonymous(intf) => {
            push_tok(out, TokenKind::StrLit(clone_bytes(&intf.name)));
            push_tok(out, TokenKind::LBrace);
            let ghost mid = out.deep_view();
            let ghost msv = intf.members.deep_view();
            proof {
                assert forall|q: int| 0 <= q < msv.len() implies wf_member(#[trigger] msv[q]) by {
                    assert(wf_member(fv->Anonymous_0.members[q]));
                }
            }
            let mut k: usize = 0;
            while k < intf.members.len()
                invariant
                    k <= intf.members@.len(),
                    msv == intf.members.deep_view(),
                    msv.len() == intf.members@.len(),
                    forall|q: int| 0 <= q < msv.len() ==> wf_member(#[trigger] msv[q]),
                    out.deep_view() + sp_tokens_members(msv, k as int) == mid + sp_tokens_members(
                        msv,
                        0,
                    ),
                decreases intf.members@.len() - k,
            {
                let ghost pre = out.deep_view();
                proof {
                    assert(msv[k as int] == intf.members@[k as int].deep_view());
                }
                tokens_member_x(out, &intf.members[k]);
                proof {
                    assert(out.deep_view() + sp_tokens_members(msv, k + 1) =~= pre
                        + sp_tokens_members(msv, k as int));
                }
                k = k + 1;
            }
            proof {
                assert(sp_tokens_members(msv, msv.len() as int) =~= Seq::<TokenKindV>::empty());
                assert(out.deep_view() + Seq::<TokenKindV>::empty() =~= out.deep_view());
            }
            push_tok(out, TokenKind::RBrace);
            proof {
                assert(out.deep_view() =~= base + sp_tokens_iface_impl(fv));
            }
        },
    }
}

/// Render a declaration back into its canonical token sequence.
pub fn object_tokens(o: &Object) -> (r: Vec<Token>)
    requires
        crate::validate::wf_object(o.deep_view()),
    ensures
        r.deep_view() == sp_tokens_object(o.deep_view()),
{
    let ghost ov = o.deep_view();
    let mut out: Vec<Token> = Vec::new();
    proof {
        assert(out.deep_view() =~= Seq::<TokenKindV>::empty());
    }
    tokens_docs_x(&mut out, &o.attrs);
    push_tok(&mut out, TokenKind::Ident(clone_bytes(&o.name)));
    let ghost after_name = out.deep_view();
    let has_props = o.dest.is_some() || o.path.is_some() || o.session || o.system;
    if has_props {
        push_tok(&mut out, TokenKind::LParen);
        let mut first = true;
        match &o.dest {
            Some(d) => {
                push_tok(&mut out, TokenKind::StrLit(clone_bytes(d)));
                first = false;
            },
            None => {},
        }
        match &o.path {
            Some(p) => {
                if !first {
                    push_tok(&mut out, TokenKind::Comma);
                }
                push_tok(&mut out, TokenKind::StrLit(clone_bytes(p)));
                first = false;
            },
            None => {},
        }
        if o.session {
            if !first {
                push_tok(&mut out, TokenKind::Comma);
            }
            push_tok(&mut out, TokenKind::Ident(session_kw_bytes()));
            first = false;
        }
        if o.system {
            if !first {
                push_tok(&mut out, TokenKind::Comma);
            }
            push_tok(&mut out, TokenKind::Ident(system_kw_bytes()));
        }
        push_tok(&mut out, TokenKind::RParen);
        proof {
            reveal_with_fuel(sp_join_commas, 6);
            assert(sp_prop_entries(ov).len() == sp_raw_of(ov).len());
            assert(out.deep_view() =~= after_name + sp_tokens_props(ov));
        }
    } else {
        proof {
            assert(sp_raw_of(ov) =~= Seq::<RawPropV>::empty());
            assert(sp_prop_entries(ov).len() == 0);
            assert(sp_tokens_props(ov) =~= Seq::<TokenKindV>::empty());
            assert(out.deep_view() =~= after_name + sp_tokens_props(ov));
        }
    }
    let ghost after_props = out.deep_view();
    let ghost fsv = o.interfaces.deep_view();
    proof {
        assert forall|q: int| 0 <= q < fsv.len() implies wf_interface_impl(#[trigger] fsv[q]) by {
            assert(wf_interface_impl(ov.interfaces[q]));
        }
    }
    let mut k: usize = 0;
    while k < o.interfaces.len()
        invariant
            k <= o.interfaces@.len(),
            fsv == o.interfaces.deep_view(),
            fsv.len() == o.interfaces@.len(),
            forall|q: int| 0 <= q < fsv.len() ==> wf_interface_impl(#[trigger] fsv[q]),
            out.deep_view() + sp_tokens_impls(fsv, k as int) == after_props + sp_tokens_impls(
                fsv,
                0,
            ),
        decreases o.interfaces@.len() - k,
    {
        let ghost pre = out.deep_view();
        proof {
            assert(fsv[k as int] == o.interfaces@[k as int].deep_view());
        }
        tokens_iface_impl_x(&mut out, &o.interfaces[k]);
        proof {
            assert(out.deep_view() + sp_tokens_impls(fsv, k + 1) =~= pre + sp_tokens_impls(
                fsv,
                k as int,
            ));
        }
        k = k + 1;
    }
    proof {
        assert(sp_tokens_impls(fsv, fsv.len() as int) =~= Seq::<TokenKindV>::empty());
        assert(out.deep_view() + Seq::<TokenKindV>::empty() =~= out.deep_view());
        assert(out.deep_view() =~= sp_tokens_object(ov));
    }
    out
}

// ---------------------------------------------------------------------------
// Rendering tokens to text
// ---------------------------------------------------------------------------
/// The bytes of one token: a string literal between quotes, a doc
/// comment after `///` up to its line break, punctuation as itself.
pub open spec fn sp_render_token(t: TokenKindV) -> Seq<u8> {
    match t {
        TokenKindV::Ident(s) => s,
        TokenKindV::StrLit(s) => seq![('"' as u8)] + s + seq![('"' as u8)],
        TokenKindV::DocComment(d) => seq![('/' as u8), ('/' as u8), ('/' as u8)] + d + seq![
            ('\n' as u8),
        ],
        TokenKindV::LParen => seq![('(' as u8)],
        TokenKindV::RParen => seq![(')' as u8)],
        TokenKindV::LBrace => seq![('{' as u8)],
        TokenKindV::RBrace => seq![('}' as u8)],
        TokenKindV::Comma => seq![(',' as u8)],
        TokenKindV::Semi => seq![(';' as u8)],
        TokenKindV::Colon => seq![(':' as u8)],
        TokenKindV::PathSep => seq![(':' as u8), (':' as u8)],
        TokenKindV::Arrow => seq![('-' as u8), ('>' as u8)],
        TokenKindV::At => seq![('@' as u8)],
    }
}

/// The text of the tokens from `k` on, one space after each token.
pub open spec fn sp_render(toks: Seq<TokenKindV>, k: int) -> Seq<u8>
    decreases toks.len() - k,
{
    if !(0 <= k && k < toks.len()) {
        Seq::empty()
    } else {
        sp_render_token(toks[k]) + seq![(' ' as u8)] + sp_render(toks, k + 1)
    }
}

/// Append a byte sequence.
fn push_bytes(out: &mut Vec<u8>, v: &Vec<u8>)
    ensures
        final(out)@ == old(out)@ + v@,
{
    let mut k: usize = 0;
    while k < v.len()
        invariant
            k <= v@.len(),
            out@ == old(out)@ + v@.take(k as int),
        decreases v@.len() - k,
    {
        out.push(v[k]);
        proof {
            assert(out@ =~= old(out)@ + v@.take(k + 1));
        }
        k = k + 1;
    }
    proof {
        assert(v@.take(v@.len() as int) =~= v@);
    }
}

/// Render a token sequence into text.
pub fn render(toks: &Vec<Token>) -> (r: Vec<u8>)
    ensures
        r@ == sp_render(toks.deep_view(), 0),
{
    let ghost tv = toks.deep_view();
    let mut out: Vec<u8> = Vec::new();
    let mut k: usize = 0;
    while k < toks.len()
        invariant
            k <= toks@.len(),
            tv == toks.deep_view(),
            tv.len() == toks@.len(),
            out@ + sp_render(tv, k as int) == sp_render(tv, 0),
        decreases toks@.len() - k,
    {
        let ghost pre = out@;
        proof {
            assert(tv[k as int] == toks@[k as int].deep_view());
        }
        match &toks[k].kind {
            TokenKind::Ident(s) => {
                push_bytes(&mut out, s);
            },
            TokenKind::StrLit(s) => {
                out.push('"' as u8);
                push_bytes(&mut out, s);
                out.push('"' as u8);
            },
            TokenKind::DocComment(d) => {
                out.push('/' as u8);
                out.push('/' as u8);
                out.push('/' as u8);
                push_bytes(&mut out, d);
                out.push('\n' as u8);
            },
            TokenKind::LParen => {
                out.push('(' as u8);
            },
            TokenKind::RParen => {
                out.push(')' as u8);
            },
            TokenKind::LBrace => {
                out.push('{' as u8);
            },
            TokenKind::RBrace => {
                out.push('}' as u8);
            },
            TokenKind::Comma => {
                out.push(',' as u8);
            },
            TokenKind::Semi => {
                out.push(';' as u8);
            },
            TokenKind::Colon => {
                out.push(':' as u8);
            },
            TokenKind::PathSep => {
                out.push(':' as u8);
                out.push(':' as u8);
            },
            TokenKind::Arrow => {
                out.push('-' as u8);
                out.push('>' as u8);
            },
            TokenKind::At => {
                out.push('@' as u8);
            },
        }
        out.push(' ' as u8);
        proof {
            assert(out@ =~= pre + (sp_render_token(tv[k as int]) + seq![(' ' as u8)]));
            assert(out@ + sp_render(tv, k + 1) =~= pre + sp_render(tv, k as int));
        }
        k = k + 1;
    }
    proof {
        assert(sp_render(tv, tv.len() as int) =~= Seq::<u8>::empty());
        assert(out@ + Seq::<u8>::empty() =~= out@);
    }
    out
}

/// Re-serialize a declaration into source text: its canonical tokens,
/// rendered with one space after each token.
pub fn serialize_object(o: &Object) -> (r: Vec<u8>)
    requires
        crate::validate::wf_object(o.deep_view()),
    ensures
        r@ == sp_render(sp_tokens_object(o.deep_view()), 0),
{
    let toks = object_tokens(o);
    render(&toks)
}

} // verus!
