//! Re-parsing a re-serialized declaration gives the declaration back.
//!
//! [`crate::ser`] renders an abstract syntax tree into tokens;
//! [`crate::parse`] reads tokens back.  The lemmas here show, rule by
//! rule, that parsing a rendered tree inside any surrounding token
//! sequence yields exactly that tree, and [`lemma_parse_reserialization`]
//! concludes: for every well-formed declaration, parsing its
//! re-serialization yields it unchanged — parsing followed by
//! re-serialization is idempotent.

use vstd::prelude::*;

use crate::ast::{
    code_of_simple, is_scalar_code, is_type_code_ident, kw_array, kw_mut, kw_session, kw_system,
    kw_variant, simple_of_code, wf_bare_host_path, wf_host_path, wf_interface, wf_interface_impl,
    wf_member, wf_method, wf_property, wf_type, ArgV, HostPathV, InterfaceImplV, InterfaceV,
    MemberV, MethodV, ObjectV, PropertyV, SimpleType, TypeV,
};
use crate::parse::{
    sp_parse_arg, sp_parse_args_list1, sp_parse_docs, sp_parse_host_path, sp_parse_iface_impl,
    sp_parse_impls, sp_parse_interface, sp_parse_member, sp_parse_members, sp_parse_object,
    sp_parse_path_rest, sp_parse_props_list1, sp_parse_raw_object, sp_parse_type,
    sp_parse_type_list1, sp_prop_entry, ParseResultV, RawObjectV,
};
use crate::ser::{
    sp_join_commas, sp_prop_entries, sp_raw_of, sp_token_of_raw, sp_tokens_arg, sp_tokens_args,
    sp_tokens_docs, sp_tokens_host_path, sp_tokens_iface_impl, sp_tokens_impls,
    sp_tokens_interface, sp_tokens_member, sp_tokens_members, sp_tokens_object, sp_tokens_props,
    sp_tokens_seg_rest, sp_tokens_type, sp_tokens_type_list,
};
use crate::token::{is_ident_char, is_ident_start, TokenKindV};
use crate::validate::{sp_classify, sp_no_props, sp_validate, sp_validate_from, valid_destination,
    valid_path, wf_object, ObjectPropsV, RawPropV, StrClass, ValidateErrKind};

verus! {

broadcast use vstd::std_specs::vec::group_vec_axioms, vstd::seq::group_seq_axioms;

// ---------------------------------------------------------------------------
// Windows into the token sequence
// ---------------------------------------------------------------------------
/// `t` stands in `s` at position `i`.
pub open spec fn window(s: Seq<TokenKindV>, i: int, t: Seq<TokenKindV>) -> bool {
    &&& 0 <= i
    &&& i + t.len() <= s.len()
    &&& s.subrange(i, i + t.len()) == t
}

/// A window holding a concatenation splits into two windows.
proof fn lemma_split(s: Seq<TokenKindV>, i: int, a: Seq<TokenKindV>, b: Seq<TokenKindV>)
    requires
        window(s, i, a + b),
    ensures
        window(s, i, a),
        window(s, i + a.len(), b),
{
    let ab = a + b;
    assert forall|q: int| 0 <= q < a.len() implies s.subrange(i, i + a.len())[q] == a[q] by {
        assert(ab[q] == a[q]);
        assert(s.subrange(i, i + ab.len() as int)[q] == s[i + q]);
    }
    assert(s.subrange(i, i + a.len()) =~= a);
    assert forall|q: int| 0 <= q < b.len() implies s.subrange(
        i + a.len(),
        i + a.len() + b.len(),
    )[q] == b[q] by {
        assert(ab[a.len() + q] == b[q]);
        assert(s.subrange(i, i + ab.len() as int)[a.len() + q] == s[i + a.len() + q]);
    }
    assert(s.subrange(i + a.len(), i + a.len() + b.len()) =~= b);
}

/// The token a one-token window holds.
proof fn lemma_single(s: Seq<TokenKindV>, i: int, t: TokenKindV)
    requires
        window(s, i, seq![t]),
    ensures
        0 <= i < s.len() && s[i] == t,
{
    assert(s.subrange(i, i + 1)[0] == s[i]);
}

/// Two adjacent windows hold their concatenation.
proof fn lemma_join(s: Seq<TokenKindV>, i: int, a: Seq<TokenKindV>, b: Seq<TokenKindV>)
    requires
        window(s, i, a),
        window(s, i + a.len(), b),
    ensures
        window(s, i, a + b),
{
    assert forall|q: int| 0 <= q < a.len() + b.len() implies s.subrange(
        i,
        i + a.len() + b.len(),
    )[q] == (a + b)[q] by {
        if q < a.len() {
            assert(s.subrange(i, i + a.len() as int)[q] == s[i + q]);
        } else {
            assert(s.subrange(i + a.len(), i + a.len() + b.len())[q - a.len()] == s[i + q]);
        }
    }
    assert(s.subrange(i, i + a.len() + b.len()) =~= a + b);
}

/// What may follow a type: the tokens that close or continue every
/// context a type stands in, or the end of the sequence.
pub open spec fn type_follow(s: Seq<TokenKindV>, j: int) -> bool {
    ||| j == s.len()
    ||| (0 <= j < s.len() && (s[j] is Semi || s[j] is Comma || s[j] is RParen || s[j] is RBrace))
}

/// A rendered type is nonempty and starts with an identifier, `(`, `@`
/// or `::` — never with a brace, a closing token or a separator.
proof fn lemma_type_first(t: TypeV)
    requires
        wf_type(t),
    ensures
        sp_tokens_type(t).len() >= 1,
        sp_tokens_type(t)[0] is Ident || sp_tokens_type(t)[0] is LParen || sp_tokens_type(t)[0]
            is At || sp_tokens_type(t)[0] is PathSep,
{
    match t {
        TypeV::Host(p) => {
            if p.leading_colons {
                assert(sp_tokens_type(t)[0] is PathSep);
            } else {
                assert(sp_tokens_type(t)[0] == TokenKindV::Ident(p.segments[0]));
            }
        },
        TypeV::Object(_) => {
            assert(sp_tokens_type(t)[0] is At);
        },
        _ => {},
    }
}

/// The scalar codes round-trip and collide with no marker letter.
proof fn lemma_simple_code(st: SimpleType)
    ensures
        is_scalar_code(code_of_simple(st)),
        simple_of_code(code_of_simple(st)) == st,
        code_of_simple(st) != ('v' as u8),
        code_of_simple(st) != ('a' as u8),
{
}

// ---------------------------------------------------------------------------
// Round trips, rule by rule
// ---------------------------------------------------------------------------
/// Doc comments re-parse to the attribute list.
proof fn lemma_rt_docs(s: Seq<TokenKindV>, i: int, attrs: Seq<Seq<u8>>, k: int)
    requires
        0 <= k <= attrs.len(),
        window(s, i, sp_tokens_docs(attrs, k)),
        i + sp_tokens_docs(attrs, k).len() == s.len() || !(s[i + sp_tokens_docs(
            attrs,
            k,
        ).len()] is DocComment),
    ensures
        sp_parse_docs(s, i) == (attrs.skip(k), i + sp_tokens_docs(attrs, k).len()),
    decreases attrs.len() - k,
{
    let t = sp_tokens_docs(attrs, k);
    if k == attrs.len() {
        assert(attrs.skip(k) =~= Seq::<Seq<u8>>::empty());
    } else {
        let head: Seq<TokenKindV> = seq![TokenKindV::DocComment(attrs[k])];
        let rest = sp_tokens_docs(attrs, k + 1);
        lemma_split(s, i, head, rest);
        lemma_single(s, i, TokenKindV::DocComment(attrs[k]));
        lemma_rt_docs(s, i + 1, attrs, k + 1);
        assert(seq![attrs[k]] + attrs.skip(k + 1) =~= attrs.skip(k));
    }
}

/// `:: ident` pairs re-parse to the remaining segments.
proof fn lemma_rt_seg_rest(s: Seq<TokenKindV>, i: int, segs: Seq<Seq<u8>>, k: int)
    requires
        0 <= k <= segs.len(),
        window(s, i, sp_tokens_seg_rest(segs, k)),
        type_follow(s, i + sp_tokens_seg_rest(segs, k).len()),
    ensures
        sp_parse_path_rest(s, i) == (segs.skip(k), i + sp_tokens_seg_rest(segs, k).len()),
    decreases segs.len() - k,
{
    let t = sp_tokens_seg_rest(segs, k);
    if k == segs.len() {
        assert(segs.skip(k) =~= Seq::<Seq<u8>>::empty());
    } else {
        let head: Seq<TokenKindV> = seq![TokenKindV::PathSep, TokenKindV::Ident(segs[k])];
        let rest = sp_tokens_seg_rest(segs, k + 1);
        lemma_split(s, i, head, rest);
        assert(s.subrange(i, i + 2)[0] == s[i]);
        assert(s.subrange(i, i + 2)[1] == s[i + 1]);
        lemma_rt_seg_rest(s, i + 2, segs, k + 1);
        assert(seq![segs[k]] + segs.skip(k + 1) =~= segs.skip(k));
    }
}

/// A host path re-parses to itself.
proof fn lemma_rt_host_path(s: Seq<TokenKindV>, i: int, p: HostPathV)
    requires
        wf_host_path(p),
        window(s, i, sp_tokens_host_path(p)),
        type_follow(s, i + sp_tokens_host_path(p).len()),
    ensures
        sp_parse_host_path(s, i) == Some((p, i + sp_tokens_host_path(p).len())),
{
    let t = sp_tokens_host_path(p);
    let first: Seq<TokenKindV> = seq![TokenKindV::Ident(p.segments[0])];
    let rest = sp_tokens_seg_rest(p.segments, 1);
    if p.leading_colons {
        let lead: Seq<TokenKindV> = seq![TokenKindV::PathSep];
        assert(t == (lead + first) + rest);
        assert((lead + first) =~= seq![TokenKindV::PathSep, TokenKindV::Ident(p.segments[0])]);
        lemma_split(s, i, lead + first, rest);
        assert(s.subrange(i, i + 2)[0] == s[i]);
        assert(s.subrange(i, i + 2)[1] == s[i + 1]);
        lemma_rt_seg_rest(s, i + 2, p.segments, 1);
        assert(seq![p.segments[0]] + p.segments.skip(1) =~= p.segments);
    } else {
        assert(t == (Seq::<TokenKindV>::empty() + first) + rest);
        assert((Seq::<TokenKindV>::empty() + first) =~= first);
        assert(t == first + rest);
        lemma_split(s, i, first, rest);
        lemma_single(s, i, TokenKindV::Ident(p.segments[0]));
        lemma_rt_seg_rest(s, i + 1, p.segments, 1);
        assert(seq![p.segments[0]] + p.segments.skip(1) =~= p.segments);
    }
}

/// A type re-parses to itself.
proof fn lemma_rt_type(s: Seq<TokenKindV>, i: int, t: TypeV)
    requires
        wf_type(t),
        window(s, i, sp_tokens_type(t)),
        type_follow(s, i + sp_tokens_type(t).len()),
    ensures
        sp_parse_type(s, i) == Some((t, i + sp_tokens_type(t).len())),
    decreases t, 0int,
{
    let tk = sp_tokens_type(t);
    match t {
        TypeV::Variant => {
            lemma_single(s, i, TokenKindV::Ident(kw_variant()));
        },
        TypeV::Simple(st) => {
            lemma_single(s, i, TokenKindV::Ident(seq![code_of_simple(st)]));
            lemma_simple_code(st);
            assert(seq![code_of_simple(st)] != kw_variant());
            assert(seq![code_of_simple(st)] != kw_array());
        },
        TypeV::Host(p) => {
            lemma_rt_host_path(s, i, p);
            if !p.leading_colons {
                let w = p.segments[0];
                assert(s.subrange(i, i + tk.len() as int)[0] == s[i]);
                assert(s[i] == TokenKindV::Ident(w));
                assert(!is_type_code_ident(w));
                if w == kw_variant() {
                    assert(is_type_code_ident(kw_variant()));
                }
                if w == kw_array() {
                    assert(is_type_code_ident(kw_array()));
                }
                if w.len() == 1 && is_scalar_code(w[0]) {
                    assert(is_type_code_ident(w));
                }
            } else {
                assert(s.subrange(i, i + tk.len() as int)[0] == s[i]);
                assert(s[i] is PathSep);
            }
        },
        TypeV::Object(p) => {
            let at: Seq<TokenKindV> = seq![TokenKindV::At];
            lemma_split(s, i, at, sp_tokens_host_path(p));
            lemma_single(s, i, TokenKindV::At);
            lemma_rt_host_path(s, i + 1, p);
        },
        TypeV::Struct(ts) => {
            let lp: Seq<TokenKindV> = seq![TokenKindV::LParen];
            let rp: Seq<TokenKindV> = seq![TokenKindV::RParen];
            let lst = sp_tokens_type_list(ts, 0);
            assert(tk == (lp + lst) + rp);
            assert((lp + lst) + rp =~= lp + (lst + rp));
            assert(tk == lp + (lst + rp));
            lemma_split(s, i, lp, lst + rp);
            lemma_single(s, i, TokenKindV::LParen);
            if ts.len() == 0 {
                assert(lst =~= Seq::<TokenKindV>::empty());
                assert(lst + rp =~= rp);
                lemma_single(s, i + 1, TokenKindV::RParen);
                assert(ts =~= Seq::<TypeV>::empty());
            } else {
                lemma_rt_type_list(s, i + 1, ts, 0);
                // the first element's first token is not `)`
                let h = sp_tokens_type(ts[0]);
                lemma_type_first(ts[0]);
                assert(lst[0] == h[0]) by {
                    if ts.len() == 1 {
                    } else {
                        assert((h + seq![TokenKindV::Comma] + sp_tokens_type_list(ts, 1))[0]
                            == h[0]);
                    }
                }
                assert(s.subrange(i + 1, i + 1 + (lst + rp).len() as int)[0] == s[i + 1]);
                assert((lst + rp)[0] == lst[0]);
                assert(!(s[i + 1] is RParen));
                assert(ts.skip(0) =~= ts);
            }
        },
        TypeV::Array(t1) => {
            let a: Seq<TokenKindV> = seq![TokenKindV::Ident(kw_array())];
            lemma_split(s, i, a, sp_tokens_type(*t1));
            lemma_single(s, i, TokenKindV::Ident(kw_array()));
            lemma_rt_type(s, i + 1, *t1);
            lemma_type_first(*t1);
            assert(s.subrange(i + 1, i + 1 + sp_tokens_type(*t1).len() as int)[0] == s[i + 1]);
            assert(!(s[i + 1] is LBrace));
            assert(kw_array() != kw_variant());
        },
        TypeV::Dict(kc, v) => {
            let head: Seq<TokenKindV> = seq![
                TokenKindV::Ident(kw_array()),
                TokenKindV::LBrace,
                TokenKindV::Ident(seq![code_of_simple(kc)]),
            ];
            let vt = sp_tokens_type(*v);
            let rb: Seq<TokenKindV> = seq![TokenKindV::RBrace];
            assert(tk == (head + vt) + rb);
            assert((head + vt) + rb =~= head + (vt + rb));
            assert(tk == head + (vt + rb));
            lemma_split(s, i, head, vt + rb);
            assert(s.subrange(i, i + 3)[0] == s[i]);
            assert(s.subrange(i, i + 3)[1] == s[i + 1]);
            assert(s.subrange(i, i + 3)[2] == s[i + 2]);
            lemma_split(s, i + 3, vt, rb);
            lemma_single(s, i + 3 + vt.len(), TokenKindV::RBrace);
            lemma_rt_type(s, i + 3, *v);
            lemma_simple_code(kc);
            assert(kw_array() != kw_variant());
        },
        TypeV::Empty => {
            assert(false);
        },
    }
}

/// A nonempty comma-separated type list with its closing `)` re-parses
/// to the remaining elements.
proof fn lemma_rt_type_list(s: Seq<TokenKindV>, i: int, ts: Seq<TypeV>, k: int)
    requires
        0 <= k < ts.len(),
        forall|q: int| 0 <= q < ts.len() ==> wf_type(#[trigger] ts[q]),
        window(s, i, sp_tokens_type_list(ts, k) + seq![TokenKindV::RParen]),
    ensures
        sp_parse_type_list1(s, i) == Some(
            (ts.skip(k), i + sp_tokens_type_list(ts, k).len() + 1),
        ),
    decreases ts, ts.len() - k,
{
    let rp: Seq<TokenKindV> = seq![TokenKindV::RParen];
    let h = sp_tokens_type(ts[k]);
    if k == ts.len() - 1 {
        lemma_split(s, i, h, rp);
        lemma_single(s, i + h.len(), TokenKindV::RParen);
        lemma_rt_type(s, i, ts[k]);
        assert(seq![ts[k]] =~= ts.skip(k));
    } else {
        let cm: Seq<TokenKindV> = seq![TokenKindV::Comma];
        let rest = sp_tokens_type_list(ts, k + 1);
        assert(sp_tokens_type_list(ts, k) == (h + cm) + rest);
        assert(((h + cm) + rest) + rp =~= h + (cm + (rest + rp)));
        assert(sp_tokens_type_list(ts, k) + rp == h + (cm + (rest + rp)));
        lemma_split(s, i, h, cm + (rest + rp));
        lemma_split(s, i + h.len(), cm, rest + rp);
        lemma_single(s, i + h.len(), TokenKindV::Comma);
        lemma_rt_type(s, i, ts[k]);
        lemma_rt_type_list(s, i + h.len() + 1, ts, k + 1);
        assert(seq![ts[k]] + ts.skip(k + 1) =~= ts.skip(k));
    }
}

/// An argument re-parses to itself.
proof fn lemma_rt_arg(s: Seq<TokenKindV>, i: int, a: ArgV)
    requires
        wf_type(a.ty),
        window(s, i, sp_tokens_arg(a)),
        type_follow(s, i + sp_tokens_arg(a).len()),
    ensures
        sp_parse_arg(s, i) == Some((a, i + sp_tokens_arg(a).len())),
{
    let head: Seq<TokenKindV> = seq![TokenKindV::Ident(a.name), TokenKindV::Colon];
    lemma_split(s, i, head, sp_tokens_type(a.ty));
    assert(s.subrange(i, i + 2)[0] == s[i]);
    assert(s.subrange(i, i + 2)[1] == s[i + 1]);
    lemma_rt_type(s, i + 2, a.ty);
}

/// A nonempty comma-separated argument list with its closing `)`
/// re-parses to the remaining elements.
proof fn lemma_rt_args(s: Seq<TokenKindV>, i: int, args: Seq<ArgV>, k: int)
    requires
        0 <= k < args.len(),
        forall|q: int| 0 <= q < args.len() ==> wf_type((#[trigger] args[q]).ty),
        window(s, i, sp_tokens_args(args, k) + seq![TokenKindV::RParen]),
    ensures
        sp_parse_args_list1(s, i) == Some((args.skip(k), i + sp_tokens_args(args, k).len() + 1)),
    decreases args.len() - k,
{
    let rp: Seq<TokenKindV> = seq![TokenKindV::RParen];
    let h = sp_tokens_arg(args[k]);
    if k == args.len() - 1 {
        lemma_split(s, i, h, rp);
        lemma_single(s, i + h.len(), TokenKindV::RParen);
        lemma_rt_arg(s, i, args[k]);
        assert(seq![args[k]] =~= args.skip(k));
    } else {
        let cm: Seq<TokenKindV> = seq![TokenKindV::Comma];
        let rest = sp_tokens_args(args, k + 1);
        assert(sp_tokens_args(args, k) == (h + cm) + rest);
        assert(((h + cm) + rest) + rp =~= h + (cm + (rest + rp)));
        assert(sp_tokens_args(args, k) + rp == h + (cm + (rest + rp)));
        lemma_split(s, i, h, cm + (rest + rp));
        lemma_split(s, i + h.len(), cm, rest + rp);
        lemma_single(s, i + h.len(), TokenKindV::Comma);
        lemma_rt_arg(s, i, args[k]);
        lemma_rt_args(s, i + h.len() + 1, args, k + 1);
        assert(seq![args[k]] + args.skip(k + 1) =~= args.skip(k));
    }
}

/// A rendered member is nonempty and starts with a doc comment or an
/// identifier — never with `}`.
proof fn lemma_member_first(m: MemberV)
    ensures
        sp_tokens_member(m).len() >= 1,
        sp_tokens_member(m)[0] is DocComment || sp_tokens_member(m)[0] is Ident,
{
    match m {
        MemberV::Property(p) => {
            let d = sp_tokens_docs(p.attrs, 0);
            let mt: Seq<TokenKindV> = if p.mutable {
                seq![TokenKindV::Ident(kw_mut())]
            } else {
                Seq::empty()
            };
            let head: Seq<TokenKindV> = seq![TokenKindV::Ident(p.name), TokenKindV::Colon];
            if p.attrs.len() > 0 {
                assert(d[0] == TokenKindV::DocComment(p.attrs[0]));
                assert(sp_tokens_member(m)[0] == d[0]);
            } else {
                assert(d =~= Seq::<TokenKindV>::empty());
                if p.mutable {
                    assert(sp_tokens_member(m)[0] == mt[0]);
                } else {
                    assert(sp_tokens_member(m)[0] == head[0]);
                }
            }
        },
        MemberV::Method(mm) => {
            let d = sp_tokens_docs(mm.attrs, 0);
            let head: Seq<TokenKindV> = seq![TokenKindV::Ident(mm.name), TokenKindV::LParen];
            if mm.attrs.len() > 0 {
                assert(d[0] == TokenKindV::DocComment(mm.attrs[0]));
                assert(sp_tokens_member(m)[0] == d[0]);
            } else {
                assert(d =~= Seq::<TokenKindV>::empty());
                assert(sp_tokens_member(m)[0] == head[0]);
            }
        },
    }
}

/// A member re-parses to itself.
proof fn lemma_rt_member(s: Seq<TokenKindV>, i: int, m: MemberV)
    requires
        wf_member(m),
        window(s, i, sp_tokens_member(m)),
    ensures
        sp_parse_member(s, i) == Some((m, i + sp_tokens_member(m).len())),
{
    match m {
        MemberV::Property(p) => {
            lemma_rt_property(s, i, p);
        },
        MemberV::Method(mm) => {
            lemma_rt_method(s, i, mm);
        },
    }
}

/// A property re-parses to itself.
#[verifier::rlimit(50)]
proof fn lemma_rt_property(s: Seq<TokenKindV>, i: int, p: PropertyV)
    requires
        wf_property(p),
        window(s, i, sp_tokens_member(MemberV::Property(p))),
    ensures
        sp_parse_member(s, i) == Some(
            (MemberV::Property(p), i + sp_tokens_member(MemberV::Property(p)).len()),
        ),
{
    let m = MemberV::Property(p);
    let tk = sp_tokens_member(m);
    match m {
        MemberV::Property(p) => {
            let d = sp_tokens_docs(p.attrs, 0);
            let mt: Seq<TokenKindV> = if p.mutable {
                seq![TokenKindV::Ident(kw_mut())]
            } else {
                Seq::empty()
            };
            let head: Seq<TokenKindV> = seq![TokenKindV::Ident(p.name), TokenKindV::Colon];
            let ty = sp_tokens_type(p.ty);
            let sm: Seq<TokenKindV> = seq![TokenKindV::Semi];
            assert(tk == (((d + mt) + head) + ty) + sm);
            assert((((d + mt) + head) + ty) + sm =~= d + (mt + (head + (ty + sm))));
            assert(tk == d + (mt + (head + (ty + sm))));
            lemma_split(s, i, d, mt + (head + (ty + sm)));
            lemma_split(s, i + d.len(), mt, head + (ty + sm));
            lemma_split(s, i + d.len() + mt.len(), head, ty + sm);
            lemma_split(s, i + d.len() + mt.len() + 2, ty, sm);
            let np = i + d.len() + mt.len();
            assert(s.subrange(np, np + 2)[0] == s[np]);
            assert(s.subrange(np, np + 2)[1] == s[np + 1]);
            lemma_single(s, np + 2 + ty.len(), TokenKindV::Semi);
            if p.mutable {
                lemma_single(s, i + d.len(), TokenKindV::Ident(kw_mut()));
            }
            lemma_rt_docs(s, i, p.attrs, 0);
            assert(p.attrs.skip(0) =~= p.attrs);
            lemma_rt_type(s, np + 2, p.ty);
        },
        MemberV::Method(_) => {
            assert(false);
        },
    }
}

/// A method re-parses to itself.
#[verifier::rlimit(50)]
proof fn lemma_rt_method(s: Seq<TokenKindV>, i: int, mm0: MethodV)
    requires
        wf_method(mm0),
        window(s, i, sp_tokens_member(MemberV::Method(mm0))),
    ensures
        sp_parse_member(s, i) == Some(
            (MemberV::Method(mm0), i + sp_tokens_member(MemberV::Method(mm0)).len()),
        ),
{
    let m = MemberV::Method(mm0);
    let tk = sp_tokens_member(m);
    match m {
        MemberV::Property(_) => {
            assert(false);
        },
        MemberV::Method(mm) => {
            let d = sp_tokens_docs(mm.attrs, 0);
            let head: Seq<TokenKindV> = seq![TokenKindV::Ident(mm.name), TokenKindV::LParen];
            let ar = sp_tokens_args(mm.args, 0);
            let rp: Seq<TokenKindV> = seq![TokenKindV::RParen];
            let ret: Seq<TokenKindV> = if mm.output == TypeV::Empty {
                Seq::empty()
            } else {
                seq![TokenKindV::Arrow] + sp_tokens_type(mm.output)
            };
            let sm: Seq<TokenKindV> = seq![TokenKindV::Semi];
            assert(tk == ((((d + head) + ar) + rp) + ret) + sm);
            assert(((((d + head) + ar) + rp) + ret) + sm =~= d + (head + (ar + (rp + (ret
                + sm)))));
            assert(tk == d + (head + (ar + (rp + (ret + sm)))));
            lemma_split(s, i, d, head + (ar + (rp + (ret + sm))));
            lemma_split(s, i + d.len(), head, ar + (rp + (ret + sm)));
            lemma_split(s, i + d.len() + 2, ar, rp + (ret + sm));
            lemma_split(s, i + d.len() + 2 + ar.len(), rp, ret + sm);
            let np = i + d.len();
            assert(s.subrange(np, np + 2)[0] == s[np]);
            assert(s.subrange(np, np + 2)[1] == s[np + 1]);
            lemma_single(s, np + 2 + ar.len(), TokenKindV::RParen);
            lemma_rt_docs(s, i, mm.attrs, 0);
            assert(mm.attrs.skip(0) =~= mm.attrs);
            // name is not `mut`
            assert(s[np] == TokenKindV::Ident(mm.name));
            let j = np + 2 + ar.len() + 1;
            lemma_split(s, j, ret, sm);
            lemma_single(s, j + ret.len(), TokenKindV::Semi);
            if mm.args.len() == 0 {
                assert(ar =~= Seq::<TokenKindV>::empty());
                assert(mm.args =~= Seq::<ArgV>::empty());
            } else {
                lemma_join(s, np + 2, ar, rp);
                lemma_rt_args(s, np + 2, mm.args, 0);
                assert(mm.args.skip(0) =~= mm.args);
                let a0 = sp_tokens_arg(mm.args[0]);
                assert(ar[0] == a0[0]) by {
                    if mm.args.len() > 1 {
                        assert(((a0 + seq![TokenKindV::Comma]) + sp_tokens_args(mm.args, 1))[0]
                            == a0[0]);
                    }
                }
                assert(s[np + 2] == ar[0]);
                assert(s[np + 2] is Ident);
            }
            if mm.output == TypeV::Empty {
                assert(ret =~= Seq::<TokenKindV>::empty());
            } else {
                let arr: Seq<TokenKindV> = seq![TokenKindV::Arrow];
                lemma_split(s, j, arr, sp_tokens_type(mm.output));
                lemma_single(s, j, TokenKindV::Arrow);
                lemma_rt_type(s, j + 1, mm.output);
            }
        },
    }
}

/// Members with their closing `}` re-parse to the remaining members.
proof fn lemma_rt_members(s: Seq<TokenKindV>, i: int, ms: Seq<MemberV>, k: int)
    requires
        0 <= k <= ms.len(),
        forall|q: int| 0 <= q < ms.len() ==> wf_member(#[trigger] ms[q]),
        window(s, i, sp_tokens_members(ms, k) + seq![TokenKindV::RBrace]),
    ensures
        sp_parse_members(s, i) == Some((ms.skip(k), i + sp_tokens_members(ms, k).len() + 1)),
    decreases ms.len() - k,
{
    let rb: Seq<TokenKindV> = seq![TokenKindV::RBrace];
    if k == ms.len() {
        assert(sp_tokens_members(ms, k) =~= Seq::<TokenKindV>::empty());
        assert(sp_tokens_members(ms, k) + rb =~= rb);
        lemma_single(s, i, TokenKindV::RBrace);
        assert(ms.skip(k) =~= Seq::<MemberV>::empty());
    } else {
        let h = sp_tokens_member(ms[k]);
        let rest = sp_tokens_members(ms, k + 1);
        assert(sp_tokens_members(ms, k) + rb =~= h + (rest + rb));
        lemma_split(s, i, h, rest + rb);
        lemma_member_first(ms[k]);
        assert(s.subrange(i, i + h.len() as int)[0] == s[i]);
        assert(!(s[i] is RBrace));
        lemma_rt_member(s, i, ms[k]);
        lemma_rt_members(s, i + h.len(), ms, k + 1);
        assert(seq![ms[k]] + ms.skip(k + 1) =~= ms.skip(k));
    }
}

/// An anonymous interface re-parses to itself.
proof fn lemma_rt_interface(s: Seq<TokenKindV>, i: int, intf: InterfaceV)
    requires
        wf_interface(intf),
        window(s, i, sp_tokens_interface(intf)),
    ensures
        sp_parse_interface(s, i) == Some((intf, i + sp_tokens_interface(intf).len())),
{
    let head: Seq<TokenKindV> = seq![TokenKindV::StrLit(intf.name), TokenKindV::LBrace];
    let ms = sp_tokens_members(intf.members, 0);
    let rb: Seq<TokenKindV> = seq![TokenKindV::RBrace];
    assert(sp_tokens_interface(intf) == (head + ms) + rb);
    assert((head + ms) + rb =~= head + (ms + rb));
    assert(sp_tokens_interface(intf) == head + (ms + rb));
    lemma_split(s, i, head, ms + rb);
    assert(s.subrange(i, i + 2)[0] == s[i]);
    assert(s.subrange(i, i + 2)[1] == s[i + 1]);
    lemma_rt_members(s, i + 2, intf.members, 0);
    assert(intf.members.skip(0) =~= intf.members);
}

/// An interface implementation re-parses to itself.
proof fn lemma_rt_iface_impl(s: Seq<TokenKindV>, i: int, f: InterfaceImplV)
    requires
        wf_interface_impl(f),
        window(s, i, sp_tokens_iface_impl(f)),
    ensures
        sp_parse_iface_impl(s, i) == Some((f, i + sp_tokens_iface_impl(f).len())),
{
    match f {
        InterfaceImplV::Named(n) => {
            assert(s.subrange(i, i + 2)[0] == s[i]);
            assert(s.subrange(i, i + 2)[1] == s[i + 1]);
        },
        InterfaceImplV::Anonymous(intf) => {
            lemma_rt_interface(s, i, intf);
            let head: Seq<TokenKindV> = seq![TokenKindV::StrLit(intf.name), TokenKindV::LBrace];
            assert(sp_tokens_iface_impl(f)[0] == head[0]) by {
                let ms = sp_tokens_members(intf.members, 0);
                let rb: Seq<TokenKindV> = seq![TokenKindV::RBrace];
                assert(((head + ms) + rb)[0] == head[0]);
            }
            assert(s.subrange(i, i + sp_tokens_iface_impl(f).len() as int)[0] == s[i]);
            assert(s[i] is StrLit);
        },
    }
}

/// Interface implementations running to the end of the sequence
/// re-parse to the remaining implementations.
proof fn lemma_rt_impls(s: Seq<TokenKindV>, i: int, fs: Seq<InterfaceImplV>, k: int)
    requires
        0 <= k <= fs.len(),
        forall|q: int| 0 <= q < fs.len() ==> wf_interface_impl(#[trigger] fs[q]),
        window(s, i, sp_tokens_impls(fs, k)),
        i + sp_tokens_impls(fs, k).len() == s.len(),
    ensures
        sp_parse_impls(s, i) == Some((fs.skip(k), s.len() as int)),
    decreases fs.len() - k,
{
    if k == fs.len() {
        assert(fs.skip(k) =~= Seq::<InterfaceImplV>::empty());
    } else {
        let h = sp_tokens_iface_impl(fs[k]);
        let rest = sp_tokens_impls(fs, k + 1);
        lemma_split(s, i, h, rest);
        assert(h.len() >= 1) by {
            match fs[k] {
                InterfaceImplV::Named(_) => {},
                InterfaceImplV::Anonymous(intf) => {},
            }
        }
        lemma_rt_iface_impl(s, i, fs[k]);
        lemma_rt_impls(s, i + h.len(), fs, k + 1);
        assert(seq![fs[k]] + fs.skip(k + 1) =~= fs.skip(k));
    }
}

// ---------------------------------------------------------------------------
// The property list
// ---------------------------------------------------------------------------
/// The token of a raw entry reads back as that entry.
proof fn lemma_prop_entry_token(r: RawPropV)
    ensures
        sp_prop_entry(sp_token_of_raw(r)) == Some(r),
        !(sp_token_of_raw(r) is RParen),
{
    assert(kw_session().len() == 7);
    assert(kw_system().len() == 6);
}

/// A nonempty comma-joined entry list with its closing `)` re-parses
/// to the remaining raw entries.
proof fn lemma_rt_props_list(s: Seq<TokenKindV>, i: int, rs: Seq<RawPropV>, k: int)
    requires
        0 <= k < rs.len(),
        window(
            s,
            i,
            sp_join_commas(rs.map_values(|r: RawPropV| sp_token_of_raw(r)), k) + seq![
                TokenKindV::RParen,
            ],
        ),
    ensures
        sp_parse_props_list1(s, i) == Some(
            (
                rs.skip(k),
                i + sp_join_commas(rs.map_values(|r: RawPropV| sp_token_of_raw(r)), k).len() + 1,
            ),
        ),
    decreases rs.len() - k,
{
    let es = rs.map_values(|r: RawPropV| sp_token_of_raw(r));
    let rp: Seq<TokenKindV> = seq![TokenKindV::RParen];
    lemma_prop_entry_token(rs[k]);
    assert(es[k] == sp_token_of_raw(rs[k]));
    if k == rs.len() - 1 {
        assert(sp_join_commas(es, k) == seq![es[k]]);
        assert(seq![es[k]] + rp =~= seq![es[k], TokenKindV::RParen]);
        assert(s.subrange(i, i + 2)[0] == s[i]);
        assert(s.subrange(i, i + 2)[1] == s[i + 1]);
        assert(seq![rs[k]] =~= rs.skip(k));
    } else {
        let head: Seq<TokenKindV> = seq![es[k], TokenKindV::Comma];
        let rest = sp_join_commas(es, k + 1);
        assert(sp_join_commas(es, k) == head + rest);
        assert((head + rest) + rp =~= head + (rest + rp));
        assert(sp_join_commas(es, k) + rp == head + (rest + rp));
        lemma_split(s, i, head, rest + rp);
        assert(s.subrange(i, i + 2)[0] == s[i]);
        assert(s.subrange(i, i + 2)[1] == s[i + 1]);
        lemma_prop_entry_token(rs[k + 1]);
        assert(rest[0] == es[k + 1]) by {
            if k + 1 < rs.len() - 1 {
                assert((seq![es[k + 1], TokenKindV::Comma] + sp_join_commas(es, k + 2))[0] == es[k
                    + 1]);
            }
        }
        assert(s.subrange(i + 2, i + 2 + (rest + rp).len() as int)[0] == s[i + 2]);
        assert((rest + rp)[0] == rest[0]);
        assert(!(s[i + 2] is RParen));
        lemma_rt_props_list(s, i + 2, rs, k + 1);
        assert(seq![rs[k]] + rs.skip(k + 1) =~= rs.skip(k));
    }
}

// ---------------------------------------------------------------------------
// Validating the canonical property list
// ---------------------------------------------------------------------------
/// One for a present optional entry, zero for an absent one.
spec fn opt_len(x: Option<Seq<u8>>) -> int {
    if x is Some {
        1
    } else {
        0
    }
}

/// One for a set marker, zero for a clear one.
spec fn bool_len(b: bool) -> int {
    if b {
        1
    } else {
        0
    }
}

/// Folding a trailing `system` marker.
proof fn lemma_val_system(props: Seq<RawPropV>, i: int, acc: ObjectPropsV, system: bool)
    requires
        0 <= i <= props.len(),
        props.len() == i + bool_len(system),
        system ==> props[i] == RawPropV::System && !acc.system,
    ensures
        sp_validate_from(props, i, acc) == Ok::<ObjectPropsV, ValidateErrKind>(
            ObjectPropsV {
                dest: acc.dest,
                path: acc.path,
                session: acc.session,
                system: acc.system || system,
            },
        ),
{
    reveal_with_fuel(sp_validate_from, 3);
}

/// Folding a trailing `session` marker, then `system`.
proof fn lemma_val_session(
    props: Seq<RawPropV>,
    i: int,
    acc: ObjectPropsV,
    session: bool,
    system: bool,
)
    requires
        0 <= i <= props.len(),
        props.len() == i + bool_len(session) + bool_len(system),
        session ==> props[i] == RawPropV::Session && !acc.session,
        system ==> props[i + bool_len(session)] == RawPropV::System && !acc.system,
    ensures
        sp_validate_from(props, i, acc) == Ok::<ObjectPropsV, ValidateErrKind>(
            ObjectPropsV {
                dest: acc.dest,
                path: acc.path,
                session: acc.session || session,
                system: acc.system || system,
            },
        ),
{
    if session {
        lemma_val_system(
            props,
            i + 1,
            ObjectPropsV { dest: acc.dest, path: acc.path, session: true, system: acc.system },
            system,
        );
    } else {
        lemma_val_system(props, i, acc, system);
    }
}

/// Folding a path literal, then the markers.
proof fn lemma_val_path(
    props: Seq<RawPropV>,
    i: int,
    acc: ObjectPropsV,
    path: Option<Seq<u8>>,
    session: bool,
    system: bool,
)
    requires
        0 <= i <= props.len(),
        props.len() == i + opt_len(path) + bool_len(session) + bool_len(system),
        path matches Some(p) ==> valid_path(p) && props[i] == RawPropV::Str(p) && acc.path
            is None,
        session ==> props[i + opt_len(path)] == RawPropV::Session && !acc.session,
        system ==> props[i + opt_len(path) + bool_len(session)] == RawPropV::System
            && !acc.system,
    ensures
        sp_validate_from(props, i, acc) == Ok::<ObjectPropsV, ValidateErrKind>(
            ObjectPropsV {
                dest: acc.dest,
                path: (match path {
                    Some(p) => Some(p),
                    None => acc.path,
                }),
                session: acc.session || session,
                system: acc.system || system,
            },
        ),
{
    match path {
        Some(p) => {
            crate::validate::lemma_classification_total(p);
            assert(sp_classify(p) == Ok::<StrClass, ValidateErrKind>(StrClass::PathString));
            lemma_val_session(
                props,
                i + 1,
                ObjectPropsV {
                    dest: acc.dest,
                    path: Some(p),
                    session: acc.session,
                    system: acc.system,
                },
                session,
                system,
            );
        },
        None => {
            lemma_val_session(props, i, acc, session, system);
        },
    }
}

/// Folding a destination literal, then the rest.
proof fn lemma_val_dest(
    props: Seq<RawPropV>,
    i: int,
    acc: ObjectPropsV,
    dest: Option<Seq<u8>>,
    path: Option<Seq<u8>>,
    session: bool,
    system: bool,
)
    requires
        0 <= i <= props.len(),
        props.len() == i + opt_len(dest) + opt_len(path) + bool_len(session) + bool_len(system),
        dest matches Some(d) ==> valid_destination(d) && props[i] == RawPropV::Str(d) && acc.dest
            is None,
        path matches Some(p) ==> valid_path(p) && props[i + opt_len(dest)] == RawPropV::Str(p)
            && acc.path is None,
        session ==> props[i + opt_len(dest) + opt_len(path)] == RawPropV::Session && !acc.session,
        system ==> props[i + opt_len(dest) + opt_len(path) + bool_len(session)]
            == RawPropV::System && !acc.system,
    ensures
        sp_validate_from(props, i, acc) == Ok::<ObjectPropsV, ValidateErrKind>(
            ObjectPropsV {
                dest: (match dest {
                    Some(d) => Some(d),
                    None => acc.dest,
                }),
                path: (match path {
                    Some(p) => Some(p),
                    None => acc.path,
                }),
                session: acc.session || session,
                system: acc.system || system,
            },
        ),
{
    match dest {
        Some(d) => {
            crate::validate::lemma_classification_total(d);
            assert(sp_classify(d) == Ok::<StrClass, ValidateErrKind>(StrClass::Destination));
            lemma_val_path(
                props,
                i + 1,
                ObjectPropsV {
                    dest: Some(d),
                    path: acc.path,
                    session: acc.session,
                    system: acc.system,
                },
                path,
                session,
                system,
            );
        },
        None => {
            lemma_val_path(props, i, acc, path, session, system);
        },
    }
}

/// The canonical property list of a well-formed declaration validates
/// back to exactly its property set.
proof fn lemma_validate_canonical(o: ObjectV)
    requires
        wf_object(o),
    ensures
        sp_validate(sp_raw_of(o)) == Ok::<ObjectPropsV, ValidateErrKind>(
            ObjectPropsV { dest: o.dest, path: o.path, session: o.session, system: o.system },
        ),
{
    let rs = sp_raw_of(o);
    let a: Seq<RawPropV> = match o.dest {
        Some(d) => seq![RawPropV::Str(d)],
        None => Seq::empty(),
    };
    let b: Seq<RawPropV> = match o.path {
        Some(p) => seq![RawPropV::Str(p)],
        None => Seq::empty(),
    };
    let c: Seq<RawPropV> = if o.session {
        seq![RawPropV::Session]
    } else {
        Seq::empty()
    };
    let dd: Seq<RawPropV> = if o.system {
        seq![RawPropV::System]
    } else {
        Seq::empty()
    };
    assert(rs == ((a + b) + c) + dd);
    let d1 = opt_len(o.dest);
    let p1 = opt_len(o.path);
    let s1 = bool_len(o.session);
    if o.dest is Some {
        assert(rs[0] == a[0]) by {
            assert(((a + b) + c)[0] == (a + b)[0]);
            assert((a + b)[0] == a[0]);
        }
    }
    if o.path is Some {
        assert(rs[d1] == b[0]) by {
            assert(((a + b) + c)[d1] == (a + b)[d1]);
            assert((a + b)[d1] == b[d1 - a.len()]);
        }
    }
    if o.session {
        assert(rs[d1 + p1] == c[0]) by {
            assert(((a + b) + c)[d1 + p1] == c[d1 + p1 - (a + b).len()]);
        }
    }
    if o.system {
        assert(rs[d1 + p1 + s1] == dd[0]);
    }
    lemma_val_dest(rs, 0, sp_no_props(), o.dest, o.path, o.session, o.system);
}

// ---------------------------------------------------------------------------
// The whole declaration
// ---------------------------------------------------------------------------
/// A re-serialized declaration re-parses to its raw form.
/// With nothing declared, no property list is rendered, and what
/// follows the name never opens one.
proof fn lemma_props_absent(s: Seq<TokenKindV>, d: int, o: ObjectV)
    requires
        sp_prop_entries(o).len() == 0,
        0 <= d,
        window(s, d + 1, sp_tokens_impls(o.interfaces, 0)),
        d + 1 + sp_tokens_impls(o.interfaces, 0).len() == s.len(),
    ensures
        sp_raw_of(o) == Seq::<RawPropV>::empty(),
        sp_tokens_props(o) == Seq::<TokenKindV>::empty(),
        d + 1 < s.len() ==> !(s[d + 1] is LParen),
{
    let it = sp_tokens_impls(o.interfaces, 0);
    assert(sp_raw_of(o).len() == sp_prop_entries(o).len());
    assert(sp_raw_of(o) =~= Seq::<RawPropV>::empty());
    assert(sp_tokens_props(o) =~= Seq::<TokenKindV>::empty());
    if d + 1 < s.len() {
        assert(o.interfaces.len() > 0) by {
            if o.interfaces.len() == 0 {
                assert(it =~= Seq::<TokenKindV>::empty());
            }
        }
        let h = sp_tokens_iface_impl(o.interfaces[0]);
        assert(it == h + sp_tokens_impls(o.interfaces, 1));
        assert(it[0] == h[0]);
        assert(s.subrange(d + 1, d + 1 + it.len() as int)[0] == s[d + 1]);
        match o.interfaces[0] {
            InterfaceImplV::Named(n) => {
                assert(h[0] == TokenKindV::Ident(n));
            },
            InterfaceImplV::Anonymous(intf) => {
                let head: Seq<TokenKindV> = seq![
                    TokenKindV::StrLit(intf.name),
                    TokenKindV::LBrace,
                ];
                let ms = sp_tokens_members(intf.members, 0);
                let rb: Seq<TokenKindV> = seq![TokenKindV::RBrace];
                assert(((head + ms) + rb)[0] == head[0]);
            },
        }
        assert(!(s[d + 1] is LParen));
    }
}

/// With something declared, the rendered property list re-parses to
/// the canonical raw entries.
proof fn lemma_props_present(s: Seq<TokenKindV>, d: int, o: ObjectV)
    requires
        sp_prop_entries(o).len() > 0,
        0 <= d,
        window(s, d + 1, sp_tokens_props(o)),
    ensures
        d + 1 < s.len() && s[d + 1] is LParen,
        d + 2 < s.len() && !(s[d + 2] is RParen),
        sp_parse_props_list1(s, d + 2) == Some(
            (sp_raw_of(o), d + 1 + sp_tokens_props(o).len()),
        ),
{
    let rs = sp_raw_of(o);
    let es = sp_prop_entries(o);
    let pt = sp_tokens_props(o);
    let lp: Seq<TokenKindV> = seq![TokenKindV::LParen];
    let jc = sp_join_commas(es, 0);
    let rp: Seq<TokenKindV> = seq![TokenKindV::RParen];
    assert(es.len() == rs.len());
    assert(pt == (lp + jc) + rp);
    assert((lp + jc) + rp =~= lp + (jc + rp));
    assert(pt == lp + (jc + rp));
    lemma_split(s, d + 1, lp, jc + rp);
    lemma_single(s, d + 1, TokenKindV::LParen);
    assert(es =~= rs.map_values(|r: RawPropV| sp_token_of_raw(r)));
    lemma_rt_props_list(s, d + 2, rs, 0);
    assert(rs.skip(0) =~= rs);
    // the first entry is never a `)`
    lemma_prop_entry_token(rs[0]);
    assert(jc[0] == es[0]) by {
        if rs.len() > 1 {
            assert((seq![es[0], TokenKindV::Comma] + sp_join_commas(es, 1))[0] == es[0]);
        }
    }
    assert(s.subrange(d + 2, d + 2 + (jc + rp).len() as int)[0] == s[d + 2]);
    assert((jc + rp)[0] == jc[0]);
    assert(!(s[d + 2] is RParen));
}

/// A re-serialized declaration re-parses to its raw form.
#[verifier::spinoff_prover]
#[verifier::rlimit(100)]
proof fn lemma_rt_raw_object(o: ObjectV)
    requires
        wf_object(o),
    ensures
        sp_parse_raw_object(sp_tokens_object(o)) == Some(
            RawObjectV {
                attrs: o.attrs,
                name: o.name,
                props: sp_raw_of(o),
                interfaces: o.interfaces,
            },
        ),
{
    let s = sp_tokens_object(o);
    let dt = sp_tokens_docs(o.attrs, 0);
    let nm: Seq<TokenKindV> = seq![TokenKindV::Ident(o.name)];
    let pt = sp_tokens_props(o);
    let it = sp_tokens_impls(o.interfaces, 0);
    assert(s == ((dt + nm) + pt) + it);
    assert(((dt + nm) + pt) + it =~= dt + (nm + (pt + it)));
    assert(s == dt + (nm + (pt + it)));
    assert(window(s, 0, s)) by {
        assert(s.subrange(0, s.len() as int) =~= s);
    }
    lemma_split(s, 0, dt, nm + (pt + it));
    lemma_split(s, dt.len() as int, nm, pt + it);
    lemma_split(s, dt.len() as int + 1, pt, it);
    lemma_single(s, dt.len() as int, TokenKindV::Ident(o.name));
    lemma_rt_docs(s, 0, o.attrs, 0);
    assert(o.attrs.skip(0) =~= o.attrs);
    let d = dt.len() as int;
    let j = d + 1 + pt.len();
    if sp_prop_entries(o).len() == 0 {
        lemma_props_absent(s, d, o);
    } else {
        lemma_props_present(s, d, o);
    }
    lemma_rt_impls(s, j, o.interfaces, 0);
    assert(o.interfaces.skip(0) =~= o.interfaces);
}

/// Parsing a re-serialized well-formed declaration yields it unchanged:
/// parsing followed by re-serialization of the structural shape is
/// idempotent.
pub proof fn lemma_parse_reserialization(o: ObjectV)
    requires
        wf_object(o),
    ensures
        sp_parse_object(sp_tokens_object(o)) == ParseResultV::Object(o),
{
    lemma_rt_raw_object(o);
    lemma_validate_canonical(o);
}

// ---------------------------------------------------------------------------
// Every parsed declaration is well-formed
// ---------------------------------------------------------------------------
/// A parsed host path has at least one segment.
proof fn lemma_parse_host_path_wf(s: Seq<TokenKindV>, i: int)
    ensures
        sp_parse_host_path(s, i) matches Some((p, _j)) ==> wf_host_path(p),
{
}

/// A parsed type is well-formed.
proof fn lemma_parse_type_wf(s: Seq<TokenKindV>, i: int)
    ensures
        sp_parse_type(s, i) matches Some((t, _j)) ==> wf_type(t),
    decreases s.len() - i, 0int,
{
    if 0 <= i && i < s.len() {
        match s[i] {
            TokenKindV::LParen => {
                if !(i + 1 < s.len() && s[i + 1] is RParen) {
                    lemma_parse_type_list_wf(s, i + 1);
                }
            },
            TokenKindV::At => {
                lemma_parse_host_path_wf(s, i + 1);
            },
            TokenKindV::PathSep => {
                lemma_parse_host_path_wf(s, i);
            },
            TokenKindV::Ident(w) => {
                if w == kw_variant() {
                } else if w == kw_array() {
                    if i + 1 < s.len() && s[i + 1] is LBrace {
                        if i + 2 < s.len() && (s[i + 2] matches TokenKindV::Ident(kc) && kc.len()
                            == 1 && is_scalar_code(kc[0])) {
                            lemma_parse_type_wf(s, i + 3);
                        }
                    } else {
                        lemma_parse_type_wf(s, i + 1);
                    }
                } else if w.len() == 1 && is_scalar_code(w[0]) {
                } else {
                    lemma_parse_host_path_wf(s, i);
                    if let Some((p, _j)) = sp_parse_host_path(s, i) {
                        assert(p.segments[0] == w);
                        if is_type_code_ident(w) {
                            if w[0] == ('a' as u8) {
                                assert(w =~= kw_array());
                            } else if w[0] == ('v' as u8) {
                                assert(w =~= kw_variant());
                            }
                        }
                        assert(wf_bare_host_path(p));
                    }
                }
            },
            _ => {},
        }
    }
}

/// The types of a parsed type list are well-formed.
proof fn lemma_parse_type_list_wf(s: Seq<TokenKindV>, i: int)
    ensures
        sp_parse_type_list1(s, i) matches Some((ts, _j)) ==> forall|q: int|
            0 <= q < ts.len() ==> wf_type(#[trigger] ts[q]),
    decreases s.len() - i, 1int,
{
    lemma_parse_type_wf(s, i);
    if let Some((t, j)) = sp_parse_type(s, i) {
        if i < j && j < s.len() {
            if s[j] is Comma {
                lemma_parse_type_list_wf(s, j + 1);
                if let Some((rest, _k)) = sp_parse_type_list1(s, j + 1) {
                    assert forall|q: int| 0 <= q < rest.len() + 1 implies wf_type(
                        #[trigger] (seq![t] + rest)[q],
                    ) by {
                        if q > 0 {
                            assert((seq![t] + rest)[q] == rest[q - 1]);
                        }
                    }
                }
            }
        }
    }
}

/// The arguments of a parsed argument list have well-formed types.
proof fn lemma_parse_args_wf(s: Seq<TokenKindV>, i: int)
    ensures
        sp_parse_args_list1(s, i) matches Some((args, _j)) ==> forall|q: int|
            0 <= q < args.len() ==> wf_type((#[trigger] args[q]).ty),
    decreases s.len() - i,
{
    if 0 <= i && i + 1 < s.len() && s[i] is Ident && s[i + 1] is Colon {
        lemma_parse_type_wf(s, i + 2);
    }
    if let Some((a, j)) = sp_parse_arg(s, i) {
        if i < j && j < s.len() {
            if s[j] is Comma {
                lemma_parse_args_wf(s, j + 1);
                if let Some((rest, _k)) = sp_parse_args_list1(s, j + 1) {
                    assert forall|q: int| 0 <= q < rest.len() + 1 implies wf_type(
                        (#[trigger] (seq![a] + rest)[q]).ty,
                    ) by {
                        if q > 0 {
                            assert((seq![a] + rest)[q] == rest[q - 1]);
                        }
                    }
                }
            }
        }
    }
}

/// A parsed member is well-formed.
proof fn lemma_parse_member_wf(s: Seq<TokenKindV>, i: int)
    ensures
        sp_parse_member(s, i) matches Some((m, _j)) ==> wf_member(m),
{
    let (attrs, d0) = sp_parse_docs(s, i);
    let d = if i <= d0 && d0 <= s.len() {
        d0
    } else {
        i
    };
    let mutable = d < s.len() && s[d] == TokenKindV::Ident(kw_mut());
    let m = if mutable {
        d + 1
    } else {
        d
    };
    if m < s.len() && s[m] is Ident {
        let n = m + 1;
        if mutable || (n < s.len() && s[n] is Colon) {
            if n < s.len() && s[n] is Colon {
                lemma_parse_type_wf(s, n + 1);
            }
        } else if n < s.len() && s[n] is LParen {
            if !(n + 1 < s.len() && s[n + 1] is RParen) {
                lemma_parse_args_wf(s, n + 1);
            }
            let argres = if n + 1 < s.len() && s[n + 1] is RParen {
                Some((Seq::<ArgV>::empty(), n + 2))
            } else {
                sp_parse_args_list1(s, n + 1)
            };
            if let Some((args, j0)) = argres {
                let j = if n + 1 < j0 && j0 <= s.len() {
                    j0
                } else {
                    n + 2
                };
                if j < s.len() && s[j] is Arrow {
                    lemma_parse_type_wf(s, j + 1);
                }
            }
        }
    }
}

/// The members of a parsed member list are well-formed.
proof fn lemma_parse_members_wf(s: Seq<TokenKindV>, i: int)
    ensures
        sp_parse_members(s, i) matches Some((ms, _j)) ==> forall|q: int|
            0 <= q < ms.len() ==> wf_member(#[trigger] ms[q]),
    decreases s.len() - i,
{
    if 0 <= i && i < s.len() && s[i] is RBrace {
    } else {
        lemma_parse_member_wf(s, i);
        if let Some((m, j0)) = sp_parse_member(s, i) {
            let j = if i < j0 && j0 <= s.len() {
                j0
            } else {
                i + 1
            };
            lemma_parse_members_wf(s, j);
            if let Some((rest, _k)) = sp_parse_members(s, j) {
                assert forall|q: int| 0 <= q < rest.len() + 1 implies wf_member(
                    #[trigger] (seq![m] + rest)[q],
                ) by {
                    if q > 0 {
                        assert((seq![m] + rest)[q] == rest[q - 1]);
                    }
                }
            }
        }
    }
}

/// A parsed interface implementation is well-formed.
proof fn lemma_parse_iface_impl_wf(s: Seq<TokenKindV>, i: int)
    ensures
        sp_parse_iface_impl(s, i) matches Some((f, _j)) ==> wf_interface_impl(f),
{
    if 0 <= i && i + 1 < s.len() && s[i] is StrLit && s[i + 1] is LBrace {
        lemma_parse_members_wf(s, i + 2);
    }
}

/// The implementations of a parsed list are well-formed.
proof fn lemma_parse_impls_wf(s: Seq<TokenKindV>, i: int)
    ensures
        sp_parse_impls(s, i) matches Some((fs, _j)) ==> forall|q: int|
            0 <= q < fs.len() ==> wf_interface_impl(#[trigger] fs[q]),
    decreases s.len() - i,
{
    if 0 <= i && i < s.len() {
        lemma_parse_iface_impl_wf(s, i);
        if let Some((f, j0)) = sp_parse_iface_impl(s, i) {
            let j = if i < j0 && j0 <= s.len() {
                j0
            } else {
                i + 1
            };
            lemma_parse_impls_wf(s, j);
            if let Some((rest, _k)) = sp_parse_impls(s, j) {
                assert forall|q: int| 0 <= q < rest.len() + 1 implies wf_interface_impl(
                    #[trigger] (seq![f] + rest)[q],
                ) by {
                    if q > 0 {
                        assert((seq![f] + rest)[q] == rest[q - 1]);
                    }
                }
            }
        }
    }
}

/// A validated property set holds strings of the validated shapes.
proof fn lemma_validate_shapes(props: Seq<RawPropV>, i: int, acc: ObjectPropsV)
    requires
        acc.dest matches Some(d) ==> valid_destination(d),
        acc.path matches Some(p) ==> valid_path(p),
    ensures
        sp_validate_from(props, i, acc) matches Ok(r) ==> (r.dest matches Some(d)
            ==> valid_destination(d)) && (r.path matches Some(p) ==> valid_path(p)),
    decreases props.len() - i,
{
    if 0 <= i && i < props.len() {
        match props[i] {
            RawPropV::Session => {
                if !acc.session {
                    lemma_validate_shapes(
                        props,
                        i + 1,
                        ObjectPropsV {
                            dest: acc.dest,
                            path: acc.path,
                            session: true,
                            system: acc.system,
                        },
                    );
                }
            },
            RawPropV::System => {
                if !acc.system {
                    lemma_validate_shapes(
                        props,
                        i + 1,
                        ObjectPropsV {
                            dest: acc.dest,
                            path: acc.path,
                            session: acc.session,
                            system: true,
                        },
                    );
                }
            },
            RawPropV::Str(str) => {
                match sp_classify(str) {
                    Err(_) => {},
                    Ok(StrClass::Destination) => {
                        if acc.dest is None {
                            lemma_validate_shapes(
                                props,
                                i + 1,
                                ObjectPropsV {
                                    dest: Some(str),
                                    path: acc.path,
                                    session: acc.session,
                                    system: acc.system,
                                },
                            );
                        }
                    },
                    Ok(StrClass::PathString) => {
                        if acc.path is None {
                            lemma_validate_shapes(
                                props,
                                i + 1,
                                ObjectPropsV {
                                    dest: acc.dest,
                                    path: Some(str),
                                    session: acc.session,
                                    system: acc.system,
                                },
                            );
                        }
                    },
                }
            },
        }
    }
}

/// Every declaration the parser accepts is well-formed.
pub proof fn lemma_parse_object_wf(s: Seq<TokenKindV>)
    ensures
        sp_parse_object(s) matches ParseResultV::Object(o) ==> wf_object(o),
{
    if let Some(r) = sp_parse_raw_object(s) {
        let (attrs, d0) = sp_parse_docs(s, 0);
        let d = if 0 <= d0 && d0 <= s.len() {
            d0
        } else {
            0
        };
        if d < s.len() && s[d] is Ident {
            let prop_res: Option<(Seq<RawPropV>, int)> = if d + 1 < s.len() && s[d + 1]
                is LParen {
                if d + 2 < s.len() && s[d + 2] is RParen {
                    Some((Seq::empty(), d + 3))
                } else {
                    sp_parse_props_list1(s, d + 2)
                }
            } else {
                Some((Seq::empty(), d + 1))
            };
            if let Some((props, j0)) = prop_res {
                let j = if d < j0 && j0 <= s.len() {
                    j0
                } else {
                    d + 1
                };
                lemma_parse_impls_wf(s, j);
            }
        }
        lemma_validate_shapes(r.props, 0, sp_no_props());
    }
}

/// Parsing followed by re-serialization is idempotent: whatever
/// declaration a token sequence parses to, the re-serialization of that
/// declaration parses to it again.
pub proof fn lemma_parse_then_reserialize(s: Seq<TokenKindV>)
    ensures
        sp_parse_object(s) matches ParseResultV::Object(o) ==> sp_parse_object(
            sp_tokens_object(o),
        ) == ParseResultV::Object(o),
{
    lemma_parse_object_wf(s);
    if let ParseResultV::Object(o) = sp_parse_object(s) {
        lemma_parse_reserialization(o);
    }
}

// ---------------------------------------------------------------------------
// Rendered text lexes back to the same tokens
// ---------------------------------------------------------------------------
/// A token whose rendering the lexer reads back unchanged: an
/// identifier is identifier-shaped, a string literal holds no quote and
/// no line break, a doc comment holds no line break and does not begin
/// with a slash.  The lexer only ever produces such tokens.
pub open spec fn renderable_token(t: TokenKindV) -> bool {
    match t {
        TokenKindV::Ident(s) => s.len() >= 1 && is_ident_start(s[0]) && (forall|i: int|
            0 <= i < s.len() ==> is_ident_char(#[trigger] s[i])),
        TokenKindV::StrLit(s) => forall|i: int|
            0 <= i < s.len() ==> #[trigger] s[i] != ('"' as u8) && s[i] != ('\n' as u8),
        TokenKindV::DocComment(d) => (forall|i: int|
            0 <= i < d.len() ==> #[trigger] d[i] != ('\n' as u8)) && (d.len() == 0 || d[0] != ('/'
            as u8)),
        _ => true,
    }
}

/// Every token of the sequence is renderable.
pub open spec fn renderable(toks: Seq<TokenKindV>) -> bool {
    forall|k: int| 0 <= k < toks.len() ==> renderable_token(#[trigger] toks[k])
}

/// `t` stands in the byte sequence `s` at position `i`.
pub open spec fn window_b(s: Seq<u8>, i: int, t: Seq<u8>) -> bool {
    &&& 0 <= i
    &&& i + t.len() <= s.len()
    &&& s.subrange(i, i + t.len()) == t
}

/// A byte window holding a concatenation splits into two windows.
proof fn lemma_split_b(s: Seq<u8>, i: int, a: Seq<u8>, b: Seq<u8>)
    requires
        window_b(s, i, a + b),
    ensures
        window_b(s, i, a),
        window_b(s, i + a.len(), b),
{
    let ab = a + b;
    assert forall|q: int| 0 <= q < a.len() implies s.subrange(i, i + a.len())[q] == a[q] by {
        assert(ab[q] == a[q]);
        assert(s.subrange(i, i + ab.len() as int)[q] == s[i + q]);
    }
    assert(s.subrange(i, i + a.len()) =~= a);
    assert forall|q: int| 0 <= q < b.len() implies s.subrange(
        i + a.len(),
        i + a.len() + b.len(),
    )[q] == b[q] by {
        assert(ab[a.len() + q] == b[q]);
        assert(s.subrange(i, i + ab.len() as int)[a.len() + q] == s[i + a.len() + q]);
    }
    assert(s.subrange(i + a.len(), i + a.len() + b.len()) =~= b);
}

/// An identifier scan stops exactly at the first non-identifier byte.
proof fn lemma_ident_end_scan(s: Seq<u8>, i: int, j: int)
    requires
        0 <= i <= j <= s.len(),
        forall|q: int| i <= q < j ==> is_ident_char(#[trigger] s[q]),
        j == s.len() || !is_ident_char(s[j]),
    ensures
        crate::token::ident_end(s, i) == j,
    decreases j - i,
{
    if i < j {
        lemma_ident_end_scan(s, i + 1, j);
    }
}

/// A string scan stops exactly at the closing quote.
proof fn lemma_str_end_scan(s: Seq<u8>, i: int, j: int)
    requires
        0 <= i <= j <= s.len(),
        forall|q: int|
            i <= q < j ==> #[trigger] s[q] != ('"' as u8) && s[q] != ('\n' as u8),
        j == s.len() || s[j] == ('"' as u8) || s[j] == ('\n' as u8),
    ensures
        crate::token::str_end(s, i) == j,
    decreases j - i,
{
    if i < j {
        lemma_str_end_scan(s, i + 1, j);
    }
}

/// A line scan stops exactly at the first line break.
proof fn lemma_line_end_scan(s: Seq<u8>, i: int, j: int)
    requires
        0 <= i <= j <= s.len(),
        forall|q: int| i <= q < j ==> #[trigger] s[q] != ('\n' as u8),
        j == s.len() || s[j] == ('\n' as u8),
    ensures
        crate::token::line_end(s, i) == j,
    decreases j - i,
{
    if i < j {
        lemma_line_end_scan(s, i + 1, j);
    }
}

/// Lexing the rendering of renderable tokens from `k` on, inside the
/// full text `s`, reads back exactly those tokens.
proof fn lemma_rt_render(s: Seq<u8>, i: int, toks: Seq<TokenKindV>, k: int)
    requires
        renderable(toks),
        0 <= k <= toks.len(),
        0 <= i <= s.len(),
        s.subrange(i, s.len() as int) == crate::ser::sp_render(toks, k),
    ensures
        crate::token::sp_lex_from(s, i) == Some(toks.skip(k)),
    decreases toks.len() - k,
{
    let rend = crate::ser::sp_render(toks, k);
    if k == toks.len() {
        assert(rend =~= Seq::<u8>::empty());
        assert(i == s.len());
        assert(toks.skip(k) =~= Seq::<TokenKindV>::empty());
    } else {
        let t = toks[k];
        let tb = crate::ser::sp_render_token(t);
        let sp: Seq<u8> = seq![(' ' as u8)];
        let rest = crate::ser::sp_render(toks, k + 1);
        assert(rend == (tb + sp) + rest);
        assert((tb + sp) + rest =~= tb + (sp + rest));
        assert(window_b(s, i, rend)) by {
            assert(rend.len() == s.len() - i);
            assert(s.subrange(i, i + rend.len() as int) == rend);
        }
        lemma_split_b(s, i, tb, sp + rest);
        lemma_split_b(s, i + tb.len(), sp, rest);
        let j = i + tb.len();
        assert(s.subrange(j, j + 1)[0] == s[j]);
        assert(s[j] == (' ' as u8));
        assert(s.subrange(j + 1, s.len() as int) =~= rest) by {
            assert(s.subrange(j + 1, j + 1 + rest.len() as int) == rest);
            assert(j + 1 + rest.len() == s.len());
        }
        lemma_rt_render(s, j + 1, toks, k + 1);
        assert(crate::token::sp_lex_from(s, j + 1) == Some(toks.skip(k + 1)));
        // one step of whitespace after the token
        assert(!crate::token::is_doc_comment(s, j));
        assert(!crate::token::is_line_comment(s, j));
        assert(crate::token::sp_lex_from(s, j) == Some(toks.skip(k + 1)));
        assert(renderable_token(t));
        let n = tb.len();
        assert forall|q: int| 0 <= q < n implies s[i + q] == #[trigger] tb[q] by {
            assert(s.subrange(i, i + n as int)[q] == s[i + q]);
        }
        match t {
            TokenKindV::Ident(w) => {
                assert(s[i] == tb[0]);
                assert(tb[0] == w[0]);
                assert forall|q: int| i + 1 <= q < j implies is_ident_char(#[trigger] s[q]) by {
                    assert(s[q] == tb[q - i]);
                    assert(tb[q - i] == w[q - i]);
                }
                lemma_ident_end_scan(s, i + 1, j);
                assert(s.subrange(i, j) =~= w);
                assert(!crate::token::is_ws(s[i]));
                assert(!crate::token::is_doc_comment(s, i));
                assert(!crate::token::is_line_comment(s, i));
                assert(crate::token::sp_token_at(s, i) == Some((t, j)));
            },
            TokenKindV::StrLit(w) => {
                assert(s[i] == tb[0]);
                assert(tb[0] == ('"' as u8)) by {
                    assert(((seq![('"' as u8)] + w) + seq![('"' as u8)])[0] == ('"' as u8));
                }
                assert(s[j - 1] == tb[n - 1]);
                assert(tb[n - 1] == ('"' as u8));
                assert forall|q: int|
                    i + 1 <= q < j - 1 implies #[trigger] s[q] != ('"' as u8) && s[q] != ('\n'
                    as u8) by {
                    assert(s[q] == tb[q - i]);
                    assert(tb[q - i] == w[q - i - 1]);
                }
                lemma_str_end_scan(s, i + 1, j - 1);
                assert(s.subrange(i + 1, j - 1) =~= w) by {
                    assert forall|q: int| 0 <= q < w.len() implies s.subrange(i + 1, j - 1)[q]
                        == w[q] by {
                        assert(s[i + 1 + q] == tb[1 + q]);
                        assert(tb[1 + q] == w[q]);
                    }
                }
                assert(crate::token::sp_token_at(s, i) == Some((t, j)));
            },
            TokenKindV::DocComment(d) => {
                assert(s[i] == tb[0]);
                assert(s[i + 1] == tb[1]);
                assert(s[i + 2] == tb[2]);
                assert(tb[0] == ('/' as u8) && tb[1] == ('/' as u8) && tb[2] == ('/' as u8));
                assert(s[j - 1] == tb[n - 1]);
                assert(tb[n - 1] == ('\n' as u8));
                assert forall|q: int|
                    i + 3 <= q < j - 1 implies #[trigger] s[q] != ('\n' as u8) by {
                    assert(s[q] == tb[q - i]);
                    assert(tb[q - i] == d[q - i - 3]);
                }
                assert(crate::token::is_doc_comment(s, i)) by {
                    if d.len() == 0 {
                        assert(s[i + 3] == tb[3]);
                        assert(tb[3] == ('\n' as u8));
                    } else {
                        assert(s[i + 3] == tb[3]);
                        assert(tb[3] == d[0]);
                    }
                }
                lemma_line_end_scan(s, i + 3, j - 1);
                assert(s.subrange(i + 3, j - 1) =~= d) by {
                    assert forall|q: int| 0 <= q < d.len() implies s.subrange(i + 3, j - 1)[q]
                        == d[q] by {
                        assert(s[i + 3 + q] == tb[3 + q]);
                        assert(tb[3 + q] == d[q]);
                    }
                }
                // the line break before the space is skipped as well
                assert(crate::token::sp_lex_from(s, j - 1) == Some(toks.skip(k + 1)));
                assert(crate::token::sp_lex_from(s, i) == Some(
                    seq![t] + toks.skip(k + 1),
                ));
            },
            TokenKindV::PathSep => {
                assert(s[i] == tb[0] && s[i + 1] == tb[1]);
                assert(crate::token::sp_token_at(s, i) == Some((t, j)));
            },
            TokenKindV::Arrow => {
                assert(s[i] == tb[0] && s[i + 1] == tb[1]);
                assert(crate::token::sp_token_at(s, i) == Some((t, j)));
            },
            TokenKindV::Colon => {
                assert(s[i] == tb[0]);
                assert(s[i + 1] == (' ' as u8));
                assert(crate::token::sp_token_at(s, i) == Some((t, j)));
            },
            _ => {
                assert(s[i] == tb[0]);
                assert(crate::token::sp_token_at(s, i) == Some((t, j)));
            },
        }
        assert(seq![t] + toks.skip(k + 1) =~= toks.skip(k));
    }
}

/// Rendering a renderable token sequence and lexing the text reads the
/// same tokens back.
pub proof fn lemma_lex_rendered(toks: Seq<TokenKindV>)
    requires
        renderable(toks),
    ensures
        crate::token::sp_lex(crate::ser::sp_render(toks, 0)) == Some(toks),
{
    let s = crate::ser::sp_render(toks, 0);
    assert(s.subrange(0, s.len() as int) =~= s);
    lemma_rt_render(s, 0, toks, 0);
    assert(toks.skip(0) =~= toks);
}

/// Every token the lexer produces is renderable.
pub proof fn lemma_lex_output_renderable(s: Seq<u8>, i: int)
    ensures
        crate::token::sp_lex_from(s, i) matches Some(toks) ==> renderable(toks),
    decreases s.len() - i,
{
    if 0 <= i && i < s.len() {
        if crate::token::is_ws(s[i]) {
            lemma_lex_output_renderable(s, i + 1);
        } else if crate::token::is_doc_comment(s, i) {
            let j = crate::token::line_end(s, i + 3);
            let j1 = if i < j && j <= s.len() {
                j
            } else {
                i + 1
            };
            lemma_lex_output_renderable(s, j1);
            lemma_scan_bounds(s);
            if let Some(rest) = crate::token::sp_lex_from(s, j1) {
                let d = s.subrange(i + 3, j);
                assert(renderable_token(TokenKindV::DocComment(d))) by {
                    lemma_line_end_chars(s, i + 3, j);
                    assert(forall|q: int| 0 <= q < d.len() ==> d[q] == #[trigger] s[i + 3 + q]);
                    if d.len() > 0 {
                        assert(d[0] == s[i + 3]);
                    }
                }
                let out = seq![TokenKindV::DocComment(d)] + rest;
                assert forall|q: int| 0 <= q < out.len() implies renderable_token(
                    #[trigger] out[q],
                ) by {
                    if q > 0 {
                        assert(out[q] == rest[q - 1]);
                    }
                }
            }
        } else if crate::token::is_line_comment(s, i) {
            let j = crate::token::line_end(s, i + 2);
            let j1 = if i < j && j <= s.len() {
                j
            } else {
                i + 1
            };
            lemma_lex_output_renderable(s, j1);
        } else {
            if let Some((t, j)) = crate::token::sp_token_at(s, i) {
                let j1 = if i < j && j <= s.len() {
                    j
                } else {
                    i + 1
                };
                lemma_lex_output_renderable(s, j1);
                if let Some(rest) = crate::token::sp_lex_from(s, j1) {
                    assert(renderable_token(t)) by {
                        lemma_token_at_renderable(s, i);
                    }
                    let out = seq![t] + rest;
                    assert forall|q: int| 0 <= q < out.len() implies renderable_token(
                        #[trigger] out[q],
                    ) by {
                        if q > 0 {
                            assert(out[q] == rest[q - 1]);
                        }
                    }
                }
            }
        }
    }
}

/// The bytes a scan passed over satisfy what it scanned for.
proof fn lemma_ident_end_chars(s: Seq<u8>, i: int, j: int)
    requires
        0 <= i,
        j == crate::token::ident_end(s, i),
    ensures
        i <= j,
        j <= s.len() || j == i,
        forall|q: int| i <= q < j ==> is_ident_char(#[trigger] s[q]),
    decreases s.len() - i,
{
    if 0 <= i && i < s.len() && is_ident_char(s[i]) {
        lemma_ident_end_chars(s, i + 1, j);
    }
}

/// The bytes a string scan passed over are quote- and break-free.
proof fn lemma_str_end_chars(s: Seq<u8>, i: int, j: int)
    requires
        0 <= i,
        j == crate::token::str_end(s, i),
    ensures
        i <= j,
        forall|q: int|
            i <= q < j ==> #[trigger] s[q] != ('"' as u8) && s[q] != ('\n' as u8),
    decreases s.len() - i,
{
    if 0 <= i && i < s.len() && s[i] != ('"' as u8) && s[i] != ('\n' as u8) {
        lemma_str_end_chars(s, i + 1, j);
    }
}

/// The bytes a line scan passed over hold no line break.
proof fn lemma_line_end_chars(s: Seq<u8>, i: int, j: int)
    requires
        0 <= i,
        j == crate::token::line_end(s, i),
    ensures
        i <= j,
        forall|q: int| i <= q < j ==> #[trigger] s[q] != ('\n' as u8),
    decreases s.len() - i,
{
    if 0 <= i && i < s.len() && s[i] != ('\n' as u8) {
        lemma_line_end_chars(s, i + 1, j);
    }
}

/// Scans never pass the end of the text.
proof fn lemma_scan_bounds(s: Seq<u8>)
    ensures
        forall|i: int|
            0 <= i <= s.len() ==> i <= #[trigger] crate::token::line_end(s, i) <= s.len(),
{
    assert forall|i: int| 0 <= i <= s.len() implies i <= #[trigger] crate::token::line_end(s, i)
        <= s.len() by {
        lemma_line_end_bound(s, i);
    }
}

/// One line scan stays within the text.
proof fn lemma_line_end_bound(s: Seq<u8>, i: int)
    requires
        0 <= i <= s.len(),
    ensures
        i <= crate::token::line_end(s, i) <= s.len(),
    decreases s.len() - i,
{
    if i < s.len() && s[i] != ('\n' as u8) {
        lemma_line_end_bound(s, i + 1);
    }
}

// ---------------------------------------------------------------------------
// Serialized declarations render back renderable tokens
// ---------------------------------------------------------------------------
/// A name as the lexer shapes identifiers.
pub open spec fn rnd_ident(s: Seq<u8>) -> bool {
    renderable_token(TokenKindV::Ident(s))
}

/// A string literal's content as the lexer shapes it.
pub open spec fn rnd_str(s: Seq<u8>) -> bool {
    renderable_token(TokenKindV::StrLit(s))
}

/// A doc comment's text as the lexer shapes it.
pub open spec fn rnd_doc(d: Seq<u8>) -> bool {
    renderable_token(TokenKindV::DocComment(d))
}

pub open spec fn rnd_attrs(attrs: Seq<Seq<u8>>) -> bool {
    forall|k: int| 0 <= k < attrs.len() ==> rnd_doc(#[trigger] attrs[k])
}

pub open spec fn rnd_host_path(p: HostPathV) -> bool {
    forall|k: int| 0 <= k < p.segments.len() ==> rnd_ident(#[trigger] p.segments[k])
}

/// Types whose rendering re-lexes: every name in them is
/// identifier-shaped.
pub open spec fn rnd_type(t: TypeV) -> bool
    decreases t,
    via rnd_type_dec
{
    match t {
        TypeV::Variant => true,
        TypeV::Host(p) => rnd_host_path(p),
        TypeV::Object(p) => rnd_host_path(p),
        TypeV::Simple(_) => true,
        TypeV::Struct(ts) => forall|k: int| 0 <= k < ts.len() ==> rnd_type(#[trigger] ts[k]),
        TypeV::Array(t1) => rnd_type(*t1),
        TypeV::Dict(_, v) => rnd_type(*v),
        TypeV::Empty => true,
    }
}

#[via_fn]
proof fn rnd_type_dec(t: TypeV) {
    broadcast use vstd::seq::group_seq_axioms;

    match t {
        TypeV::Struct(ts) => {
            assert forall|k: int| 0 <= k < ts.len() implies decreases_to!(t => ts[k]) by {
                assert(decreases_to!(t => ts));
                assert(decreases_to!(ts => ts[k]));
            }
        },
        _ => {},
    }
}

pub open spec fn rnd_member(m: MemberV) -> bool {
    match m {
        MemberV::Property(p) => rnd_attrs(p.attrs) && rnd_ident(p.name) && rnd_type(p.ty),
        MemberV::Method(mm) => {
            &&& rnd_attrs(mm.attrs)
            &&& rnd_ident(mm.name)
            &&& forall|k: int|
                0 <= k < mm.args.len() ==> rnd_ident((#[trigger] mm.args[k]).name) && rnd_type(
                    mm.args[k].ty,
                )
            &&& rnd_type(mm.output)
        },
    }
}

pub open spec fn rnd_interface_impl(f: InterfaceImplV) -> bool {
    match f {
        InterfaceImplV::Named(n) => rnd_ident(n),
        InterfaceImplV::Anonymous(i) => rnd_str(i.name) && (forall|k: int|
            0 <= k < i.members.len() ==> rnd_member(#[trigger] i.members[k])),
    }
}

/// Declarations whose rendering re-lexes: every name in them is
/// identifier-shaped, every string quote- and break-free, every doc
/// comment break-free and not starting with a slash.
pub open spec fn rnd_object(o: ObjectV) -> bool {
    &&& rnd_attrs(o.attrs)
    &&& rnd_ident(o.name)
    &&& (o.dest matches Some(d) ==> rnd_str(d))
    &&& (o.path matches Some(p) ==> rnd_str(p))
    &&& forall|k: int| 0 <= k < o.interfaces.len() ==> rnd_interface_impl(
        #[trigger] o.interfaces[k],
    )
}

/// Renderable token sequences concatenate.
proof fn lemma_rnd_concat(a: Seq<TokenKindV>, b: Seq<TokenKindV>)
    requires
        renderable(a),
        renderable(b),
    ensures
        renderable(a + b),
{
    assert forall|k: int| 0 <= k < a.len() + b.len() implies renderable_token(
        #[trigger] (a + b)[k],
    ) by {
        if k < a.len() {
            assert((a + b)[k] == a[k]);
        } else {
            assert((a + b)[k] == b[k - a.len()]);
        }
    }
}

/// The grammar's fixed words are identifier-shaped.
proof fn lemma_rnd_keywords()
    ensures
        rnd_ident(kw_mut()),
        rnd_ident(kw_session()),
        rnd_ident(kw_system()),
        rnd_ident(kw_array()),
        rnd_ident(kw_variant()),
        forall|st: SimpleType| rnd_ident(seq![#[trigger] code_of_simple(st)]),
{
    assert forall|st: SimpleType| rnd_ident(seq![#[trigger] code_of_simple(st)]) by {
        assert(is_ident_start(code_of_simple(st)));
    }
}

proof fn lemma_rnd_tokens_host_path(p: HostPathV)
    requires
        rnd_host_path(p),
        p.segments.len() >= 1,
    ensures
        renderable(sp_tokens_host_path(p)),
{
    lemma_rnd_seg_rest(p.segments, 1);
    let lead: Seq<TokenKindV> = if p.leading_colons {
        seq![TokenKindV::PathSep]
    } else {
        Seq::empty()
    };
    assert(renderable(lead));
    assert(renderable(seq![TokenKindV::Ident(p.segments[0])]));
    lemma_rnd_concat(lead, seq![TokenKindV::Ident(p.segments[0])]);
    lemma_rnd_concat(lead + seq![TokenKindV::Ident(p.segments[0])], sp_tokens_seg_rest(
        p.segments,
        1,
    ));
}

proof fn lemma_rnd_seg_rest(segs: Seq<Seq<u8>>, k: int)
    requires
        forall|q: int| 0 <= q < segs.len() ==> rnd_ident(#[trigger] segs[q]),
    ensures
        renderable(sp_tokens_seg_rest(segs, k)),
    decreases segs.len() - k,
{
    if 0 <= k && k < segs.len() {
        lemma_rnd_seg_rest(segs, k + 1);
        lemma_rnd_concat(
            seq![TokenKindV::PathSep, TokenKindV::Ident(segs[k])],
            sp_tokens_seg_rest(segs, k + 1),
        );
    }
}

proof fn lemma_rnd_tokens_type(t: TypeV)
    requires
        wf_type(t),
        rnd_type(t),
    ensures
        renderable(sp_tokens_type(t)),
    decreases t, 0int,
{
    lemma_rnd_keywords();
    match t {
        TypeV::Host(p) => {
            lemma_rnd_tokens_host_path(p);
        },
        TypeV::Object(p) => {
            lemma_rnd_tokens_host_path(p);
            lemma_rnd_concat(seq![TokenKindV::At], sp_tokens_host_path(p));
        },
        TypeV::Struct(ts) => {
            lemma_rnd_tokens_type_list(ts, 0);
            lemma_rnd_concat(seq![TokenKindV::LParen], sp_tokens_type_list(ts, 0));
            lemma_rnd_concat(
                seq![TokenKindV::LParen] + sp_tokens_type_list(ts, 0),
                seq![TokenKindV::RParen],
            );
        },
        TypeV::Array(t1) => {
            lemma_rnd_tokens_type(*t1);
            lemma_rnd_concat(seq![TokenKindV::Ident(kw_array())], sp_tokens_type(*t1));
        },
        TypeV::Dict(kc, v) => {
            lemma_rnd_tokens_type(*v);
            let head: Seq<TokenKindV> = seq![
                TokenKindV::Ident(kw_array()),
                TokenKindV::LBrace,
                TokenKindV::Ident(seq![code_of_simple(kc)]),
            ];
            assert(renderable(head));
            lemma_rnd_concat(head, sp_tokens_type(*v));
            lemma_rnd_concat(head + sp_tokens_type(*v), seq![TokenKindV::RBrace]);
        },
        _ => {},
    }
}

proof fn lemma_rnd_tokens_type_list(ts: Seq<TypeV>, k: int)
    requires
        forall|q: int| 0 <= q < ts.len() ==> wf_type(#[trigger] ts[q]) && rnd_type(ts[q]),
    ensures
        renderable(sp_tokens_type_list(ts, k)),
    decreases ts, ts.len() - k,
{
    if 0 <= k && k < ts.len() {
        lemma_rnd_tokens_type(ts[k]);
        if k < ts.len() - 1 {
            lemma_rnd_tokens_type_list(ts, k + 1);
            lemma_rnd_concat(sp_tokens_type(ts[k]), seq![TokenKindV::Comma]);
            lemma_rnd_concat(
                sp_tokens_type(ts[k]) + seq![TokenKindV::Comma],
                sp_tokens_type_list(ts, k + 1),
            );
        }
    }
}

proof fn lemma_rnd_tokens_docs(attrs: Seq<Seq<u8>>, k: int)
    requires
        rnd_attrs(attrs),
    ensures
        renderable(sp_tokens_docs(attrs, k)),
    decreases attrs.len() - k,
{
    if 0 <= k && k < attrs.len() {
        lemma_rnd_tokens_docs(attrs, k + 1);
        lemma_rnd_concat(seq![TokenKindV::DocComment(attrs[k])], sp_tokens_docs(attrs, k + 1));
    }
}

proof fn lemma_rnd_tokens_args(args: Seq<ArgV>, k: int)
    requires
        forall|q: int|
            0 <= q < args.len() ==> rnd_ident((#[trigger] args[q]).name) && wf_type(args[q].ty)
                && rnd_type(args[q].ty),
    ensures
        renderable(sp_tokens_args(args, k)),
    decreases args.len() - k,
{
    if 0 <= k && k < args.len() {
        lemma_rnd_tokens_type(args[k].ty);
        lemma_rnd_concat(
            seq![TokenKindV::Ident(args[k].name), TokenKindV::Colon],
            sp_tokens_type(args[k].ty),
        );
        if k < args.len() - 1 {
            lemma_rnd_tokens_args(args, k + 1);
            lemma_rnd_concat(sp_tokens_arg(args[k]), seq![TokenKindV::Comma]);
            lemma_rnd_concat(
                sp_tokens_arg(args[k]) + seq![TokenKindV::Comma],
                sp_tokens_args(args, k + 1),
            );
        }
    }
}

proof fn lemma_rnd_tokens_member(m: MemberV)
    requires
        wf_member(m),
        rnd_member(m),
    ensures
        renderable(sp_tokens_member(m)),
{
    lemma_rnd_keywords();
    match m {
        MemberV::Property(p) => {
            lemma_rnd_tokens_docs(p.attrs, 0);
            lemma_rnd_tokens_type(p.ty);
            let d = sp_tokens_docs(p.attrs, 0);
            let mt: Seq<TokenKindV> = if p.mutable {
                seq![TokenKindV::Ident(kw_mut())]
            } else {
                Seq::empty()
            };
            let head: Seq<TokenKindV> = seq![TokenKindV::Ident(p.name), TokenKindV::Colon];
            lemma_rnd_concat(d, mt);
            lemma_rnd_concat(d + mt, head);
            lemma_rnd_concat((d + mt) + head, sp_tokens_type(p.ty));
            lemma_rnd_concat(((d + mt) + head) + sp_tokens_type(p.ty), seq![TokenKindV::Semi]);
        },
        MemberV::Method(mm) => {
            lemma_rnd_tokens_docs(mm.attrs, 0);
            lemma_rnd_tokens_args(mm.args, 0);
            let d = sp_tokens_docs(mm.attrs, 0);
            let head: Seq<TokenKindV> = seq![TokenKindV::Ident(mm.name), TokenKindV::LParen];
            let ar = sp_tokens_args(mm.args, 0);
            let ret: Seq<TokenKindV> = if mm.output == TypeV::Empty {
                Seq::empty()
            } else {
                seq![TokenKindV::Arrow] + sp_tokens_type(mm.output)
            };
            if mm.output != TypeV::Empty {
                lemma_rnd_tokens_type(mm.output);
                lemma_rnd_concat(seq![TokenKindV::Arrow], sp_tokens_type(mm.output));
            }
            lemma_rnd_concat(d, head);
            lemma_rnd_concat(d + head, ar);
            lemma_rnd_concat((d + head) + ar, seq![TokenKindV::RParen]);
            lemma_rnd_concat(((d + head) + ar) + seq![TokenKindV::RParen], ret);
            lemma_rnd_concat((((d + head) + ar) + seq![TokenKindV::RParen]) + ret, seq![
                TokenKindV::Semi,
            ]);
        },
    }
}

proof fn lemma_rnd_tokens_members(ms: Seq<MemberV>, k: int)
    requires
        forall|q: int| 0 <= q < ms.len() ==> wf_member(#[trigger] ms[q]) && rnd_member(ms[q]),
    ensures
        renderable(sp_tokens_members(ms, k)),
    decreases ms.len() - k,
{
    if 0 <= k && k < ms.len() {
        lemma_rnd_tokens_member(ms[k]);
        lemma_rnd_tokens_members(ms, k + 1);
        lemma_rnd_concat(sp_tokens_member(ms[k]), sp_tokens_members(ms, k + 1));
    }
}

proof fn lemma_rnd_tokens_iface_impl(f: InterfaceImplV)
    requires
        wf_interface_impl(f),
        rnd_interface_impl(f),
    ensures
        renderable(sp_tokens_iface_impl(f)),
{
    match f {
        InterfaceImplV::Named(_) => {},
        InterfaceImplV::Anonymous(intf) => {
            lemma_rnd_tokens_members(intf.members, 0);
            let head: Seq<TokenKindV> = seq![TokenKindV::StrLit(intf.name), TokenKindV::LBrace];
            lemma_rnd_concat(head, sp_tokens_members(intf.members, 0));
            lemma_rnd_concat(head + sp_tokens_members(intf.members, 0), seq![
                TokenKindV::RBrace,
            ]);
        },
    }
}

proof fn lemma_rnd_tokens_impls(fs: Seq<InterfaceImplV>, k: int)
    requires
        forall|q: int|
            0 <= q < fs.len() ==> wf_interface_impl(#[trigger] fs[q]) && rnd_interface_impl(
                fs[q],
            ),
    ensures
        renderable(sp_tokens_impls(fs, k)),
    decreases fs.len() - k,
{
    if 0 <= k && k < fs.len() {
        lemma_rnd_tokens_iface_impl(fs[k]);
        lemma_rnd_tokens_impls(fs, k + 1);
        lemma_rnd_concat(sp_tokens_iface_impl(fs[k]), sp_tokens_impls(fs, k + 1));
    }
}

proof fn lemma_rnd_tokens_props(o: ObjectV)
    requires
        rnd_object(o),
    ensures
        renderable(sp_tokens_props(o)),
{
    lemma_rnd_keywords();
    let es = sp_prop_entries(o);
    let rs = sp_raw_of(o);
    assert forall|q: int| 0 <= q < es.len() implies renderable_token(#[trigger] es[q]) by {
        assert(es[q] == sp_token_of_raw(rs[q]));
        match rs[q] {
            RawPropV::Str(st) => {
                assert(rnd_str(st)) by {
                    lemma_raw_entry_shapes(o, q);
                }
            },
            _ => {},
        }
    }
    if es.len() > 0 {
        lemma_rnd_join(es, 0);
        lemma_rnd_concat(seq![TokenKindV::LParen], sp_join_commas(es, 0));
        lemma_rnd_concat(seq![TokenKindV::LParen] + sp_join_commas(es, 0), seq![
            TokenKindV::RParen,
        ]);
    }
}

/// Each string entry of the canonical list is one of the declared
/// strings.
proof fn lemma_raw_entry_shapes(o: ObjectV, q: int)
    requires
        rnd_object(o),
        0 <= q < sp_raw_of(o).len(),
    ensures
        sp_raw_of(o)[q] matches RawPropV::Str(st) ==> rnd_str(st),
{
    let a: Seq<RawPropV> = match o.dest {
        Some(d) => seq![RawPropV::Str(d)],
        None => Seq::empty(),
    };
    let b: Seq<RawPropV> = match o.path {
        Some(p) => seq![RawPropV::Str(p)],
        None => Seq::empty(),
    };
    let c: Seq<RawPropV> = if o.session {
        seq![RawPropV::Session]
    } else {
        Seq::empty()
    };
    let dd: Seq<RawPropV> = if o.system {
        seq![RawPropV::System]
    } else {
        Seq::empty()
    };
    assert(sp_raw_of(o) == ((a + b) + c) + dd);
}

proof fn lemma_rnd_join(es: Seq<TokenKindV>, k: int)
    requires
        forall|q: int| 0 <= q < es.len() ==> renderable_token(#[trigger] es[q]),
    ensures
        renderable(sp_join_commas(es, k)),
    decreases es.len() - k,
{
    if 0 <= k && k < es.len() {
        if k < es.len() - 1 {
            lemma_rnd_join(es, k + 1);
            lemma_rnd_concat(seq![es[k], TokenKindV::Comma], sp_join_commas(es, k + 1));
        }
    }
}

/// A declaration with renderable names serializes to renderable tokens.
pub proof fn lemma_tokens_renderable(o: ObjectV)
    requires
        wf_object(o),
        rnd_object(o),
    ensures
        renderable(sp_tokens_object(o)),
{
    lemma_rnd_tokens_docs(o.attrs, 0);
    lemma_rnd_tokens_props(o);
    lemma_rnd_tokens_impls(o.interfaces, 0);
    let dt = sp_tokens_docs(o.attrs, 0);
    let nm: Seq<TokenKindV> = seq![TokenKindV::Ident(o.name)];
    lemma_rnd_concat(dt, nm);
    lemma_rnd_concat(dt + nm, sp_tokens_props(o));
    lemma_rnd_concat((dt + nm) + sp_tokens_props(o), sp_tokens_impls(o.interfaces, 0));
}

// ---------------------------------------------------------------------------
// Parsed declarations carry renderable names
// ---------------------------------------------------------------------------
proof fn lemma_parse_docs_rnd(s: Seq<TokenKindV>, i: int)
    requires
        renderable(s),
    ensures
        rnd_attrs(sp_parse_docs(s, i).0),
    decreases s.len() - i,
{
    if 0 <= i && i < s.len() {
        match s[i] {
            TokenKindV::DocComment(d) => {
                lemma_parse_docs_rnd(s, i + 1);
                let (rest, _j) = sp_parse_docs(s, i + 1);
                let out = seq![d] + rest;
                assert forall|q: int| 0 <= q < out.len() implies rnd_doc(#[trigger] out[q]) by {
                    if q == 0 {
                        assert(renderable_token(s[i]));
                    } else {
                        assert(out[q] == rest[q - 1]);
                    }
                }
            },
            _ => {},
        }
    }
}

proof fn lemma_parse_path_rest_rnd(s: Seq<TokenKindV>, i: int)
    requires
        renderable(s),
    ensures
        forall|q: int|
            0 <= q < sp_parse_path_rest(s, i).0.len() ==> rnd_ident(
                #[trigger] sp_parse_path_rest(s, i).0[q],
            ),
    decreases s.len() - i,
{
    if 0 <= i && i + 1 < s.len() && s[i] is PathSep && s[i + 1] is Ident {
        lemma_parse_path_rest_rnd(s, i + 2);
        let seg = s[i + 1]->Ident_0;
        let (rest, _j) = sp_parse_path_rest(s, i + 2);
        let out = seq![seg] + rest;
        assert forall|q: int| 0 <= q < out.len() implies rnd_ident(#[trigger] out[q]) by {
            if q == 0 {
                assert(renderable_token(s[i + 1]));
            } else {
                assert(out[q] == rest[q - 1]);
            }
        }
    }
}

proof fn lemma_parse_host_path_rnd(s: Seq<TokenKindV>, i: int)
    requires
        renderable(s),
    ensures
        sp_parse_host_path(s, i) matches Some((p, _j)) ==> rnd_host_path(p),
{
    if 0 <= i && i < s.len() {
        match s[i] {
            TokenKindV::PathSep => {
                if i + 1 < s.len() && s[i + 1] is Ident {
                    lemma_parse_path_rest_rnd(s, i + 2);
                    assert(renderable_token(s[i + 1]));
                    if let Some((p, _j)) = sp_parse_host_path(s, i) {
                        assert forall|q: int| 0 <= q < p.segments.len() implies rnd_ident(
                            #[trigger] p.segments[q],
                        ) by {
                            if q > 0 {
                                assert(p.segments[q] == sp_parse_path_rest(s, i + 2).0[q - 1]);
                            }
                        }
                    }
                }
            },
            TokenKindV::Ident(_) => {
                lemma_parse_path_rest_rnd(s, i + 1);
                assert(renderable_token(s[i]));
                if let Some((p, _j)) = sp_parse_host_path(s, i) {
                    assert forall|q: int| 0 <= q < p.segments.len() implies rnd_ident(
                        #[trigger] p.segments[q],
                    ) by {
                        if q > 0 {
                            assert(p.segments[q] == sp_parse_path_rest(s, i + 1).0[q - 1]);
                        }
                    }
                }
            },
            _ => {},
        }
    }
}

proof fn lemma_parse_type_rnd(s: Seq<TokenKindV>, i: int)
    requires
        renderable(s),
    ensures
        sp_parse_type(s, i) matches Some((t, _j)) ==> rnd_type(t),
    decreases s.len() - i, 0int,
{
    if 0 <= i && i < s.len() {
        match s[i] {
            TokenKindV::LParen => {
                if !(i + 1 < s.len() && s[i + 1] is RParen) {
                    lemma_parse_type_list_rnd(s, i + 1);
                }
            },
            TokenKindV::At => {
                lemma_parse_host_path_rnd(s, i + 1);
            },
            TokenKindV::PathSep => {
                lemma_parse_host_path_rnd(s, i);
            },
            TokenKindV::Ident(w) => {
                if w == kw_variant() {
                } else if w == kw_array() {
                    if i + 1 < s.len() && s[i + 1] is LBrace {
                        if i + 2 < s.len() && (s[i + 2] matches TokenKindV::Ident(kc) && kc.len()
                            == 1 && is_scalar_code(kc[0])) {
                            lemma_parse_type_rnd(s, i + 3);
                        }
                    } else {
                        lemma_parse_type_rnd(s, i + 1);
                    }
                } else if w.len() == 1 && is_scalar_code(w[0]) {
                } else {
                    lemma_parse_host_path_rnd(s, i);
                }
            },
            _ => {},
        }
    }
}

proof fn lemma_parse_type_list_rnd(s: Seq<TokenKindV>, i: int)
    requires
        renderable(s),
    ensures
        sp_parse_type_list1(s, i) matches Some((ts, _j)) ==> forall|q: int|
            0 <= q < ts.len() ==> rnd_type(#[trigger] ts[q]),
    decreases s.len() - i, 1int,
{
    lemma_parse_type_rnd(s, i);
    if let Some((t, j)) = sp_parse_type(s, i) {
        if i < j && j < s.len() {
            if s[j] is Comma {
                lemma_parse_type_list_rnd(s, j + 1);
                if let Some((rest, _k)) = sp_parse_type_list1(s, j + 1) {
                    assert forall|q: int| 0 <= q < rest.len() + 1 implies rnd_type(
                        #[trigger] (seq![t] + rest)[q],
                    ) by {
                        if q > 0 {
                            assert((seq![t] + rest)[q] == rest[q - 1]);
                        }
                    }
                }
            }
        }
    }
}

proof fn lemma_parse_args_rnd(s: Seq<TokenKindV>, i: int)
    requires
        renderable(s),
    ensures
        sp_parse_args_list1(s, i) matches Some((args, _j)) ==> forall|q: int|
            0 <= q < args.len() ==> rnd_ident((#[trigger] args[q]).name) && rnd_type(args[q].ty),
    decreases s.len() - i,
{
    if 0 <= i && i + 1 < s.len() && s[i] is Ident && s[i + 1] is Colon {
        lemma_parse_type_rnd(s, i + 2);
        assert(renderable_token(s[i]));
    }
    if let Some((a, j)) = sp_parse_arg(s, i) {
        if i < j && j < s.len() {
            if s[j] is Comma {
                lemma_parse_args_rnd(s, j + 1);
                if let Some((rest, _k)) = sp_parse_args_list1(s, j + 1) {
                    assert forall|q: int|
                        0 <= q < rest.len() + 1 implies rnd_ident(
                        (#[trigger] (seq![a] + rest)[q]).name,
                    ) && rnd_type((seq![a] + rest)[q].ty) by {
                        if q > 0 {
                            assert((seq![a] + rest)[q] == rest[q - 1]);
                        }
                    }
                }
            }
        }
    }
}

proof fn lemma_parse_member_rnd(s: Seq<TokenKindV>, i: int)
    requires
        0 <= i,
        renderable(s),
    ensures
        sp_parse_member(s, i) matches Some((m, _j)) ==> rnd_member(m),
{
    lemma_parse_docs_rnd(s, i);
    let (attrs, d0) = sp_parse_docs(s, i);
    let d = if i <= d0 && d0 <= s.len() {
        d0
    } else {
        i
    };
    let mutable = d < s.len() && s[d] == TokenKindV::Ident(kw_mut());
    let m = if mutable {
        d + 1
    } else {
        d
    };
    if m < s.len() && s[m] is Ident {
        assert(renderable_token(s[m]));
        let n = m + 1;
        if mutable || (n < s.len() && s[n] is Colon) {
            if n < s.len() && s[n] is Colon {
                lemma_parse_type_rnd(s, n + 1);
            }
        } else if n < s.len() && s[n] is LParen {
            if !(n + 1 < s.len() && s[n + 1] is RParen) {
                lemma_parse_args_rnd(s, n + 1);
            }
            let argres = if n + 1 < s.len() && s[n + 1] is RParen {
                Some((Seq::<ArgV>::empty(), n + 2))
            } else {
                sp_parse_args_list1(s, n + 1)
            };
            if let Some((_args, j0)) = argres {
                let j = if n + 1 < j0 && j0 <= s.len() {
                    j0
                } else {
                    n + 2
                };
                if j < s.len() && s[j] is Arrow {
                    lemma_parse_type_rnd(s, j + 1);
                }
            }
        }
    }
}

proof fn lemma_parse_members_rnd(s: Seq<TokenKindV>, i: int)
    requires
        0 <= i,
        renderable(s),
    ensures
        sp_parse_members(s, i) matches Some((ms, _j)) ==> forall|q: int|
            0 <= q < ms.len() ==> rnd_member(#[trigger] ms[q]),
    decreases s.len() - i,
{
    if 0 <= i && i < s.len() && s[i] is RBrace {
    } else {
        lemma_parse_member_rnd(s, i);
        if let Some((m, j0)) = sp_parse_member(s, i) {
            let j = if i < j0 && j0 <= s.len() {
                j0
            } else {
                i + 1
            };
            lemma_parse_members_rnd(s, j);
            if let Some((rest, _k)) = sp_parse_members(s, j) {
                assert forall|q: int| 0 <= q < rest.len() + 1 implies rnd_member(
                    #[trigger] (seq![m] + rest)[q],
                ) by {
                    if q > 0 {
                        assert((seq![m] + rest)[q] == rest[q - 1]);
                    }
                }
            }
        }
    }
}

proof fn lemma_parse_iface_impl_rnd(s: Seq<TokenKindV>, i: int)
    requires
        renderable(s),
    ensures
        sp_parse_iface_impl(s, i) matches Some((f, _j)) ==> rnd_interface_impl(f),
{
    if 0 <= i && i < s.len() && s[i] is Ident {
        assert(renderable_token(s[i]));
    } else if 0 <= i && i + 1 < s.len() && s[i] is StrLit && s[i + 1] is LBrace {
        assert(renderable_token(s[i]));
        lemma_parse_members_rnd(s, i + 2);
    }
}

proof fn lemma_parse_impls_rnd(s: Seq<TokenKindV>, i: int)
    requires
        renderable(s),
    ensures
        sp_parse_impls(s, i) matches Some((fs, _j)) ==> forall|q: int|
            0 <= q < fs.len() ==> rnd_interface_impl(#[trigger] fs[q]),
    decreases s.len() - i,
{
    if 0 <= i && i < s.len() {
        lemma_parse_iface_impl_rnd(s, i);
        if let Some((f, j0)) = sp_parse_iface_impl(s, i) {
            let j = if i < j0 && j0 <= s.len() {
                j0
            } else {
                i + 1
            };
            lemma_parse_impls_rnd(s, j);
            if let Some((rest, _k)) = sp_parse_impls(s, j) {
                assert forall|q: int| 0 <= q < rest.len() + 1 implies rnd_interface_impl(
                    #[trigger] (seq![f] + rest)[q],
                ) by {
                    if q > 0 {
                        assert((seq![f] + rest)[q] == rest[q - 1]);
                    }
                }
            }
        }
    }
}

/// The declared strings of a validated property set come from the raw
/// entries.
proof fn lemma_validate_strings_rnd(props: Seq<RawPropV>, i: int, acc: ObjectPropsV)
    requires
        acc.dest matches Some(d) ==> rnd_str(d),
        acc.path matches Some(p) ==> rnd_str(p),
        forall|q: int|
            0 <= q < props.len() ==> ((#[trigger] props[q]) matches RawPropV::Str(st)
                ==> rnd_str(st)),
    ensures
        sp_validate_from(props, i, acc) matches Ok(r) ==> (r.dest matches Some(d) ==> rnd_str(d))
            && (r.path matches Some(p) ==> rnd_str(p)),
    decreases props.len() - i,
{
    if 0 <= i && i < props.len() {
        match props[i] {
            RawPropV::Session => {
                if !acc.session {
                    lemma_validate_strings_rnd(
                        props,
                        i + 1,
                        ObjectPropsV {
                            dest: acc.dest,
                            path: acc.path,
                            session: true,
                            system: acc.system,
                        },
                    );
                }
            },
            RawPropV::System => {
                if !acc.system {
                    lemma_validate_strings_rnd(
                        props,
                        i + 1,
                        ObjectPropsV {
                            dest: acc.dest,
                            path: acc.path,
                            session: acc.session,
                            system: true,
                        },
                    );
                }
            },
            RawPropV::Str(st) => {
                assert(props[i] matches RawPropV::Str(x) ==> rnd_str(x));
                match sp_classify(st) {
                    Err(_) => {},
                    Ok(StrClass::Destination) => {
                        if acc.dest is None {
                            lemma_validate_strings_rnd(
                                props,
                                i + 1,
                                ObjectPropsV {
                                    dest: Some(st),
                                    path: acc.path,
                                    session: acc.session,
                                    system: acc.system,
                                },
                            );
                        }
                    },
                    Ok(StrClass::PathString) => {
                        if acc.path is None {
                            lemma_validate_strings_rnd(
                                props,
                                i + 1,
                                ObjectPropsV {
                                    dest: acc.dest,
                                    path: Some(st),
                                    session: acc.session,
                                    system: acc.system,
                                },
                            );
                        }
                    },
                }
            },
        }
    }
}

proof fn lemma_parse_props_strings_rnd(s: Seq<TokenKindV>, i: int)
    requires
        renderable(s),
    ensures
        sp_parse_props_list1(s, i) matches Some((ps, _j)) ==> forall|q: int|
            0 <= q < ps.len() ==> ((#[trigger] ps[q]) matches RawPropV::Str(st) ==> rnd_str(st)),
    decreases s.len() - i,
{
    if 0 <= i && i < s.len() {
        if let Some(e) = sp_prop_entry(s[i]) {
            assert(e matches RawPropV::Str(st) ==> rnd_str(st)) by {
                assert(renderable_token(s[i]));
            }
            if i + 1 < s.len() && s[i + 1] is Comma {
                if i + 2 < s.len() && s[i + 2] is RParen {
                } else {
                    lemma_parse_props_strings_rnd(s, i + 2);
                    if let Some((rest, _j)) = sp_parse_props_list1(s, i + 2) {
                        assert forall|q: int|
                            0 <= q < rest.len() + 1 implies ((#[trigger] (seq![e] + rest)[q])
                            matches RawPropV::Str(st) ==> rnd_str(st)) by {
                            if q > 0 {
                                assert((seq![e] + rest)[q] == rest[q - 1]);
                            }
                        }
                    }
                }
            }
        }
    }
}

/// Every declaration parsed from renderable tokens has renderable
/// names.
pub proof fn lemma_parse_object_rnd(s: Seq<TokenKindV>)
    requires
        renderable(s),
    ensures
        sp_parse_object(s) matches ParseResultV::Object(o) ==> rnd_object(o),
{
    if let Some(r) = sp_parse_raw_object(s) {
        lemma_parse_docs_rnd(s, 0);
        let (attrs, d0) = sp_parse_docs(s, 0);
        let d = if 0 <= d0 && d0 <= s.len() {
            d0
        } else {
            0
        };
        if d < s.len() && s[d] is Ident {
            assert(renderable_token(s[d]));
            let prop_res: Option<(Seq<RawPropV>, int)> = if d + 1 < s.len() && s[d + 1]
                is LParen {
                if d + 2 < s.len() && s[d + 2] is RParen {
                    Some((Seq::empty(), d + 3))
                } else {
                    sp_parse_props_list1(s, d + 2)
                }
            } else {
                Some((Seq::empty(), d + 1))
            };
            if !(d + 1 < s.len() && s[d + 1] is LParen) || !(d + 2 < s.len() && s[d + 2]
                is RParen) {
                lemma_parse_props_strings_rnd(s, d + 2);
            }
            if let Some((props, j0)) = prop_res {
                let j = if d < j0 && j0 <= s.len() {
                    j0
                } else {
                    d + 1
                };
                lemma_parse_impls_rnd(s, j);
            }
        }
        lemma_validate_strings_rnd(
            r.props,
            0,
            ObjectPropsV { dest: None, path: None, session: false, system: false },
        );
    }
}

/// The source-text round trip: whatever declaration a text compiles
/// to, re-serializing it gives a text whose tokens lex back unchanged
/// and parse to the same declaration — so compiling the
/// re-serialization reproduces it exactly.
pub proof fn lemma_source_roundtrip(src: Seq<u8>)
    ensures
        crate::token::sp_lex(src) matches Some(toks) ==> (sp_parse_object(toks)
            matches ParseResultV::Object(o) ==> {
            let toks2 = sp_tokens_object(o);
            &&& crate::token::sp_lex(crate::ser::sp_render(toks2, 0)) == Some(toks2)
            &&& sp_parse_object(toks2) == ParseResultV::Object(o)
        }),
{
    if let Some(toks) = crate::token::sp_lex(src) {
        lemma_lex_output_renderable(src, 0);
        lemma_parse_then_reserialize(toks);
        if let ParseResultV::Object(o) = sp_parse_object(toks) {
            lemma_parse_object_wf(toks);
            lemma_parse_object_rnd(toks);
            lemma_tokens_renderable(o);
            lemma_lex_rendered(sp_tokens_object(o));
        }
    }
}

/// Any token read out of the text is renderable.
proof fn lemma_token_at_renderable(s: Seq<u8>, i: int)
    requires
        0 <= i < s.len(),
    ensures
        crate::token::sp_token_at(s, i) matches Some((t, _j)) ==> renderable_token(t),
{
    let c = s[i];
    if is_ident_start(c) {
        let j = crate::token::ident_end(s, i + 1);
        lemma_ident_end_chars(s, i + 1, j);
        if let Some((t, _j)) = crate::token::sp_token_at(s, i) {
            let w = s.subrange(i, j);
            assert(w.len() >= 1);
            assert(w[0] == s[i]);
            assert(forall|q: int| 0 <= q < w.len() ==> w[q] == #[trigger] s[i + q]);
        }
    } else if c == ('"' as u8) {
        let j = crate::token::str_end(s, i + 1);
        lemma_str_end_chars(s, i + 1, j);
        if j < s.len() && s[j] == ('"' as u8) {
            let w = s.subrange(i + 1, j);
            assert(forall|q: int| 0 <= q < w.len() ==> w[q] == #[trigger] s[i + 1 + q]);
        }
    }
}

} // verus!
