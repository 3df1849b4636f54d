//! Recursive-descent parser over the token stream.
//!
//! The grammar, with `attr*` standing for leading doc comments:
//!
//! ```text
//! object     := attr* ident proplist? iface_impl*
//! proplist   := '(' (prop (',' prop)* ','?)? ')'
//! prop       := STRING | 'session' | 'system'
//! iface_impl := ident ';'                        // named reference
//!             | STRING '{' member* '}'           // anonymous
//! member     := attr* 'mut'? ident
//!                 ( ':' type ';'                                    // property
//!                 | '(' (arg (',' arg)*)? ')' ('->' type)? ';' )    // method
//! arg        := ident ':' type
//! type       := '(' (type (',' type)*)? ')'      // struct
//!             | 'a' '{' scalar type '}'          // map
//!             | 'a' type                         // array
//!             | 'v'                              // variant
//!             | '@' path                         // object reference
//!             | scalar                           // y b n q i u d h s o g
//!             | path                             // host-defined type
//! path       := '::'? ident ('::' ident)*
//! ```
//!
//! A member is a property exactly when `mut` is present or a `:` follows
//! its name; a `{` directly after the array marker opens a map.  A parse
//! is all-or-nothing: the first violation fails the whole declaration.
//!
//! Every `sp_parse_*` function is the mathematical parser for one rule:
//! it takes the token sequence and a start index and returns the parsed
//! value with the index just past it, or `None`.  Each executable parser
//! returns exactly what its mathematical counterpart describes, plus the
//! offset of the offending token on failure.

use vstd::prelude::*;

use crate::ast::{
    clone_bytes, is_mut_kw, is_scalar_code, is_session_kw, is_system_kw, kw_array, kw_mut, kw_session,
    kw_system, kw_variant, lemma_struct_view, simple_of_code, Arg,
    ArgV, HostPath, HostPathV, Interface, InterfaceImpl, InterfaceImplV, InterfaceV, Member,
    MemberV, Method, MethodV, Object, ObjectV, Property, PropertyV, SimpleType, Type, TypeV,
};
use crate::token::{Token, TokenKind, TokenKindV};
use crate::validate::{
    sp_validate, validate_props, RawProp, RawPropKind, RawPropV, ValidateErrKind, ValidateError,
};

verus! {

broadcast use vstd::std_specs::vec::group_vec_axioms, vstd::seq::group_seq_axioms;

// ---------------------------------------------------------------------------
// Mathematical parsers
// ---------------------------------------------------------------------------
/// Zero or more doc comments; never fails.
pub open spec fn sp_parse_docs(s: Seq<TokenKindV>, i: int) -> (Seq<Seq<u8>>, int)
    decreases s.len() - i,
{
    if 0 <= i && i < s.len() {
        match s[i] {
            TokenKindV::DocComment(d) => {
                let (rest, j) = sp_parse_docs(s, i + 1);
                (seq![d] + rest, j)
            },
            _ => (Seq::empty(), i),
        }
    } else {
        (Seq::empty(), i)
    }
}

/// Zero or more `:: ident` pairs; never fails.
pub open spec fn sp_parse_path_rest(s: Seq<TokenKindV>, i: int) -> (Seq<Seq<u8>>, int)
    decreases s.len() - i,
{
    if 0 <= i && i + 1 < s.len() && s[i] is PathSep && s[i + 1] is Ident {
        let seg = s[i + 1]->Ident_0;
        let (rest, j) = sp_parse_path_rest(s, i + 2);
        (seq![seg] + rest, j)
    } else {
        (Seq::empty(), i)
    }
}

/// `'::'? ident ('::' ident)*`.
pub open spec fn sp_parse_host_path(s: Seq<TokenKindV>, i: int) -> Option<(HostPathV, int)> {
    if 0 <= i && i < s.len() {
        match s[i] {
            TokenKindV::PathSep => {
                if i + 1 < s.len() && s[i + 1] is Ident {
                    let seg = s[i + 1]->Ident_0;
                    let (rest, j) = sp_parse_path_rest(s, i + 2);
                    Some((HostPathV { leading_colons: true, segments: seq![seg] + rest }, j))
                } else {
                    None
                }
            },
            TokenKindV::Ident(seg) => {
                let (rest, j) = sp_parse_path_rest(s, i + 1);
                Some((HostPathV { leading_colons: false, segments: seq![seg] + rest }, j))
            },
            _ => None,
        }
    } else {
        None
    }
}

/// One type of the signature-code grammar.
pub open spec fn sp_parse_type(s: Seq<TokenKindV>, i: int) -> Option<(TypeV, int)>
    decreases s.len() - i, 0int,
{
    if !(0 <= i && i < s.len()) {
        None
    } else {
        match s[i] {
            TokenKindV::LParen => {
                if i + 1 < s.len() && s[i + 1] is RParen {
                    Some((TypeV::Struct(Seq::empty()), i + 2))
                } else {
                    match sp_parse_type_list1(s, i + 1) {
                        None => None,
                        Some((ts, j)) => Some((TypeV::Struct(ts), j)),
                    }
                }
            },
            TokenKindV::At => {
                match sp_parse_host_path(s, i + 1) {
                    None => None,
                    Some((p, j)) => Some((TypeV::Object(p), j)),
                }
            },
            TokenKindV::PathSep => {
                match sp_parse_host_path(s, i) {
                    None => None,
                    Some((p, j)) => Some((TypeV::Host(p), j)),
                }
            },
            TokenKindV::Ident(w) => {
                if w == kw_variant() {
                    Some((TypeV::Variant, i + 1))
                } else if w == kw_array() {
                    if i + 1 < s.len() && s[i + 1] is LBrace {
                        // a { K V }: a map with a scalar key
                        if i + 2 < s.len() && (s[i + 2] matches TokenKindV::Ident(kc) && kc.len()
                            == 1 && is_scalar_code(kc[0])) {
                            let kc = s[i + 2]->Ident_0;
                            match sp_parse_type(s, i + 3) {
                                None => None,
                                Some((vt, j)) => {
                                    if j < s.len() && s[j] is RBrace {
                                        Some(
                                            (
                                                TypeV::Dict(simple_of_code(kc[0]), Box::new(vt)),
                                                j + 1,
                                            ),
                                        )
                                    } else {
                                        None
                                    }
                                },
                            }
                        } else {
                            None
                        }
                    } else {
                        // a T: an array
                        match sp_parse_type(s, i + 1) {
                            None => None,
                            Some((t, j)) => Some((TypeV::Array(Box::new(t)), j)),
                        }
                    }
                } else if w.len() == 1 && is_scalar_code(w[0]) {
                    Some((TypeV::Simple(simple_of_code(w[0])), i + 1))
                } else {
                    match sp_parse_host_path(s, i) {
                        None => None,
                        Some((p, j)) => Some((TypeV::Host(p), j)),
                    }
                }
            },
            _ => None,
        }
    }
}

/// One or more comma-separated types, then the closing `)` (consumed).
pub open spec fn sp_parse_type_list1(s: Seq<TokenKindV>, i: int) -> Option<(Seq<TypeV>, int)>
    decreases s.len() - i, 1int,
{
    match sp_parse_type(s, i) {
        None => None,
        Some((t, j)) => {
            if i < j && j < s.len() {
                if s[j] is Comma {
                    match sp_parse_type_list1(s, j + 1) {
                        None => None,
                        Some((rest, k)) => Some((seq![t] + rest, k)),
                    }
                } else if s[j] is RParen {
                    Some((seq![t], j + 1))
                } else {
                    None
                }
            } else {
                None
            }
        },
    }
}

/// `ident ':' type`.
pub open spec fn sp_parse_arg(s: Seq<TokenKindV>, i: int) -> Option<(ArgV, int)> {
    if 0 <= i && i + 1 < s.len() && s[i] is Ident && s[i + 1] is Colon {
        let name = s[i]->Ident_0;
        match sp_parse_type(s, i + 2) {
            None => None,
            Some((t, j)) => Some((ArgV { name, ty: t }, j)),
        }
    } else {
        None
    }
}

/// One or more comma-separated arguments, then the closing `)` (consumed).
pub open spec fn sp_parse_args_list1(s: Seq<TokenKindV>, i: int) -> Option<(Seq<ArgV>, int)>
    decreases s.len() - i,
{
    match sp_parse_arg(s, i) {
        None => None,
        Some((a, j)) => {
            if i < j && j < s.len() {
                if s[j] is Comma {
                    match sp_parse_args_list1(s, j + 1) {
                        None => None,
                        Some((rest, k)) => Some((seq![a] + rest, k)),
                    }
                } else if s[j] is RParen {
                    Some((seq![a], j + 1))
                } else {
                    None
                }
            } else {
                None
            }
        },
    }
}

/// One member: a property or a method.
pub open spec fn sp_parse_member(s: Seq<TokenKindV>, i: int) -> Option<(MemberV, int)> {
    let (attrs, d0) = sp_parse_docs(s, i);
    let d = if i <= d0 && d0 <= s.len() {
        d0
    } else {
        i
    };
    let mutable = d < s.len() && s[d] == TokenKindV::Ident(kw_mut());
    let m = if mutable {
        d + 1
    } else {
        d
    };
    if m < s.len() && s[m] is Ident {
        let name = s[m]->Ident_0;
        let n = m + 1;
        if mutable || (n < s.len() && s[n] is Colon) {
            // property: [mut] name : type ;
            if n < s.len() && s[n] is Colon {
                match sp_parse_type(s, n + 1) {
                    None => None,
                    Some((t, j)) => {
                        if j < s.len() && s[j] is Semi {
                            Some(
                                (
                                    MemberV::Property(
                                        PropertyV { attrs, mutable, name, ty: t },
                                    ),
                                    j + 1,
                                ),
                            )
                        } else {
                            None
                        }
                    },
                }
            } else {
                None
            }
        } else if n < s.len() && s[n] is LParen {
            // method: name ( args ) [-> type] ;
            let argres = if n + 1 < s.len() && s[n + 1] is RParen {
                Some((Seq::<ArgV>::empty(), n + 2))
            } else {
                sp_parse_args_list1(s, n + 1)
            };
            match argres {
                None => None,
                Some((args, j0)) => {
                    let j = if n + 1 < j0 && j0 <= s.len() {
                        j0
                    } else {
                        n + 2
                    };
                    if j < s.len() && s[j] is Arrow {
                        match sp_parse_type(s, j + 1) {
                            None => None,
                            Some((t, k)) => {
                                if k < s.len() && s[k] is Semi {
                                    Some(
                                        (
                                            MemberV::Method(
                                                MethodV { attrs, name, args, output: t },
                                            ),
                                            k + 1,
                                        ),
                                    )
                                } else {
                                    None
                                }
                            },
                        }
                    } else if j < s.len() && s[j] is Semi {
                        Some(
                            (
                                MemberV::Method(
                                    MethodV { attrs, name, args, output: TypeV::Empty },
                                ),
                                j + 1,
                            ),
                        )
                    } else {
                        None
                    }
                },
            }
        } else {
            None
        }
    } else {
        None
    }
}

/// Zero or more members, then the closing `}` (consumed).
pub open spec fn sp_parse_members(s: Seq<TokenKindV>, i: int) -> Option<(Seq<MemberV>, int)>
    decreases s.len() - i,
{
    if 0 <= i && i < s.len() && s[i] is RBrace {
        Some((Seq::empty(), i + 1))
    } else {
        match sp_parse_member(s, i) {
            None => None,
            Some((m, j0)) => {
                let j = if i < j0 && j0 <= s.len() {
                    j0
                } else {
                    i + 1
                };
                match sp_parse_members(s, j) {
                    None => None,
                    Some((rest, k)) => Some((seq![m] + rest, k)),
                }
            },
        }
    }
}

/// `STRING '{' member* '}'`.
pub open spec fn sp_parse_interface(s: Seq<TokenKindV>, i: int) -> Option<(InterfaceV, int)> {
    if 0 <= i && i + 1 < s.len() && s[i] is StrLit && s[i + 1] is LBrace {
        let name = s[i]->StrLit_0;
        match sp_parse_members(s, i + 2) {
            None => None,
            Some((members, j)) => Some((InterfaceV { name, members }, j)),
        }
    } else {
        None
    }
}

/// One interface implementation: a named reference or an anonymous block.
pub open spec fn sp_parse_iface_impl(s: Seq<TokenKindV>, i: int) -> Option<(InterfaceImplV, int)> {
    if 0 <= i && i < s.len() && s[i] is Ident {
        if i + 1 < s.len() && s[i + 1] is Semi {
            Some((InterfaceImplV::Named(s[i]->Ident_0), i + 2))
        } else {
            None
        }
    } else {
        match sp_parse_interface(s, i) {
            None => None,
            Some((intf, j)) => Some((InterfaceImplV::Anonymous(intf), j)),
        }
    }
}

/// Interface implementations until the input is exhausted.
pub open spec fn sp_parse_impls(s: Seq<TokenKindV>, i: int) -> Option<(Seq<InterfaceImplV>, int)>
    decreases s.len() - i,
{
    if !(0 <= i && i < s.len()) {
        Some((Seq::empty(), i))
    } else {
        match sp_parse_iface_impl(s, i) {
            None => None,
            Some((f, j0)) => {
                let j = if i < j0 && j0 <= s.len() {
                    j0
                } else {
                    i + 1
                };
                match sp_parse_impls(s, j) {
                    None => None,
                    Some((rest, k)) => Some((seq![f] + rest, k)),
                }
            },
        }
    }
}

/// One raw entry of a property list.
pub open spec fn sp_prop_entry(t: TokenKindV) -> Option<RawPropV> {
    match t {
        TokenKindV::Ident(w) => {
            if w == kw_session() {
                Some(RawPropV::Session)
            } else if w == kw_system() {
                Some(RawPropV::System)
            } else {
                None
            }
        },
        TokenKindV::StrLit(x) => Some(RawPropV::Str(x)),
        _ => None,
    }
}

/// One or more comma-separated property entries, a trailing comma
/// allowed, then the closing `)` (consumed).
pub open spec fn sp_parse_props_list1(s: Seq<TokenKindV>, i: int) -> Option<(Seq<RawPropV>, int)>
    decreases s.len() - i,
{
    if 0 <= i && i < s.len() {
        match sp_prop_entry(s[i]) {
            None => None,
            Some(e) => {
                if i + 1 < s.len() && s[i + 1] is Comma {
                    if i + 2 < s.len() && s[i + 2] is RParen {
                        Some((seq![e], i + 3))
                    } else {
                        match sp_parse_props_list1(s, i + 2) {
                            None => None,
                            Some((rest, j)) => Some((seq![e] + rest, j)),
                        }
                    }
                } else if i + 1 < s.len() && s[i + 1] is RParen {
                    Some((seq![e], i + 2))
                } else {
                    None
                }
            },
        }
    } else {
        None
    }
}

/// An object declaration before validation: its raw property list in
/// source order.
pub struct RawObjectV {
    pub attrs: Seq<Seq<u8>>,
    pub name: Seq<u8>,
    pub props: Seq<RawPropV>,
    pub interfaces: Seq<InterfaceImplV>,
}

/// The whole token sequence as one raw object declaration.
pub open spec fn sp_parse_raw_object(s: Seq<TokenKindV>) -> Option<RawObjectV> {
    let (attrs, d0) = sp_parse_docs(s, 0);
    let d = if 0 <= d0 && d0 <= s.len() {
        d0
    } else {
        0
    };
    if d < s.len() && s[d] is Ident {
        let name = s[d]->Ident_0;
        let prop_res: Option<(Seq<RawPropV>, int)> = if d + 1 < s.len() && s[d + 1] is LParen {
            if d + 2 < s.len() && s[d + 2] is RParen {
                Some((Seq::empty(), d + 3))
            } else {
                sp_parse_props_list1(s, d + 2)
            }
        } else {
            Some((Seq::empty(), d + 1))
        };
        match prop_res {
            None => None,
            Some((props, j0)) => {
                let j = if d < j0 && j0 <= s.len() {
                    j0
                } else {
                    d + 1
                };
                match sp_parse_impls(s, j) {
                    None => None,
                    Some((interfaces, k)) => {
                        if k == s.len() {
                            Some(RawObjectV { attrs, name, props, interfaces })
                        } else {
                            None
                        }
                    },
                }
            },
        }
    } else {
        None
    }
}

/// Outcome of parsing and validating one declaration.
pub enum ParseResultV {
    /// Parsed and validated.
    Object(ObjectV),
    /// Parsed, but the property list is rejected.
    Invalid(ValidateErrKind),
    /// Not a declaration of the grammar.
    Syntax,
}

/// Parse the whole token sequence and validate its property list.
pub open spec fn sp_parse_object(s: Seq<TokenKindV>) -> ParseResultV {
    match sp_parse_raw_object(s) {
        None => ParseResultV::Syntax,
        Some(r) => match sp_validate(r.props) {
            Err(k) => ParseResultV::Invalid(k),
            Ok(p) => ParseResultV::Object(
                ObjectV {
                    attrs: r.attrs,
                    name: r.name,
                    dest: p.dest,
                    path: p.path,
                    session: p.session,
                    system: p.system,
                    interfaces: r.interfaces,
                },
            ),
        },
    }
}

// ---------------------------------------------------------------------------
// Executable parsers
// ---------------------------------------------------------------------------
/// Why a token sequence is rejected.
#[derive(PartialEq, Eq, Debug)]
pub enum ParseError {
    /// The tokens do not form a declaration; `pos` is the byte offset of
    /// the offending token.
    Syntax { pos: usize },
    /// The declaration parses but its property list is rejected.
    Invalid(ValidateError),
}

/// The byte offset to blame when the token at `i` is unexpected.
fn err_pos(toks: &Vec<Token>, i: usize) -> usize {
    if i < toks.len() {
        toks[i].pos
    } else if toks.len() > 0 {
        toks[toks.len() - 1].pos
    } else {
        0
    }
}

/// The scalar type of a one-letter code identifier, if it is one.
fn scalar_of_ident(w: &Vec<u8>) -> (r: Option<SimpleType>)
    ensures
        match r {
            Some(st) => w@.len() == 1 && is_scalar_code(w@[0]) && st == simple_of_code(w@[0]),
            None => !(w@.len() == 1 && is_scalar_code(w@[0])),
        },
{
    if w.len() != 1 {
        return None;
    }
    let c = w[0];
    if c == ('y' as u8) {
        Some(SimpleType::U8)
    } else if c == ('b' as u8) {
        Some(SimpleType::Bool)
    } else if c == ('n' as u8) {
        Some(SimpleType::I16)
    } else if c == ('q' as u8) {
        Some(SimpleType::U16)
    } else if c == ('i' as u8) {
        Some(SimpleType::I32)
    } else if c == ('u' as u8) {
        Some(SimpleType::U32)
    } else if c == ('d' as u8) {
        Some(SimpleType::F64)
    } else if c == ('h' as u8) {
        Some(SimpleType::File)
    } else if c == ('s' as u8) {
        Some(SimpleType::String)
    } else if c == ('o' as u8) {
        Some(SimpleType::Path)
    } else if c == ('g' as u8) {
        Some(SimpleType::Signature)
    } else {
        None
    }
}

/// Is `w` the single letter `c`?
fn is_single_letter(w: &Vec<u8>, c: u8) -> (r: bool)
    ensures
        r == (w@ =~= seq![c]),
{
    let r = w.len() == 1 && w[0] == c;
    proof {
        if r {
            assert(w@ =~= seq![c]);
        }
    }
    r
}

/// Collect leading doc comments.
fn parse_docs(toks: &Vec<Token>, i: usize) -> (r: (Vec<Vec<u8>>, usize))
    requires
        i <= toks@.len(),
    ensures
        sp_parse_docs(toks.deep_view(), i as int) == (r.0.deep_view(), r.1 as int),
        i <= r.1 <= toks@.len(),
{
    let ghost s = toks.deep_view();
    let mut acc: Vec<Vec<u8>> = Vec::new();
    let mut cur = i;
    loop
        invariant
            i <= cur <= toks@.len(),
            s == toks.deep_view(),
            s.len() == toks@.len(),
            sp_parse_docs(s, i as int) == {
                let (rest, j) = sp_parse_docs(s, cur as int);
                (acc.deep_view() + rest, j)
            },
        decreases toks@.len() - cur,
    {
        if cur < toks.len() {
            match &toks[cur].kind {
                TokenKind::DocComment(d) => {
                    let ghost pre = acc.deep_view();
                    let ghost dv = d@;
                    proof {
                        assert(s[cur as int] == TokenKindV::DocComment(dv));
                    }
                    acc.push(clone_bytes(d));
                    proof {
                        assert(acc.deep_view() =~~= pre + seq![dv]);
                        let (rest, _j) = sp_parse_docs(s, cur + 1);
                        assert((pre + seq![dv]) + rest =~= pre + (seq![dv] + rest));
                    }
                    cur = cur + 1;
                },
                _ => {
                    proof {
                        let (rest, _j) = sp_parse_docs(s, cur as int);
                        assert(acc.deep_view() + rest =~= acc.deep_view());
                    }
                    return (acc, cur);
                },
            }
        } else {
            proof {
                let (rest, _j) = sp_parse_docs(s, cur as int);
                assert(acc.deep_view() + rest =~= acc.deep_view());
            }
            return (acc, cur);
        }
    }
}

/// Collect `:: ident` pairs.
fn parse_path_rest(toks: &Vec<Token>, i: usize) -> (r: (Vec<Vec<u8>>, usize))
    requires
        i <= toks@.len(),
    ensures
        sp_parse_path_rest(toks.deep_view(), i as int) == (r.0.deep_view(), r.1 as int),
        i <= r.1 <= toks@.len(),
{
    let ghost s = toks.deep_view();
    let mut acc: Vec<Vec<u8>> = Vec::new();
    let mut cur = i;
    loop
        invariant
            i <= cur <= toks@.len(),
            s == toks.deep_view(),
            s.len() == toks@.len(),
            sp_parse_path_rest(s, i as int) == {
                let (rest, j) = sp_parse_path_rest(s, cur as int);
                (acc.deep_view() + rest, j)
            },
        decreases toks@.len() - cur,
    {
        let mut step = false;
        if cur < toks.len() && cur + 1 < toks.len() {
            if matches!(&toks[cur].kind, TokenKind::PathSep) {
                match &toks[cur + 1].kind {
                    TokenKind::Ident(seg) => {
                        let ghost pre = acc.deep_view();
                        let ghost sv = seg@;
                        proof {
                            assert(s[cur as int] is PathSep);
                            assert(s[cur + 1] == TokenKindV::Ident(sv));
                        }
                        acc.push(clone_bytes(seg));
                        proof {
                            assert(acc.deep_view() =~~= pre + seq![sv]);
                            let (rest, _j) = sp_parse_path_rest(s, cur + 2);
                            assert((pre + seq![sv]) + rest =~= pre + (seq![sv] + rest));
                        }
                        cur = cur + 2;
                        step = true;
                    },
                    _ => {},
                }
            }
        }
        if !step {
            proof {
                let (rest, _j) = sp_parse_path_rest(s, cur as int);
                assert(acc.deep_view() + rest =~= acc.deep_view());
            }
            return (acc, cur);
        }
    }
}

/// Parse `'::'? ident ('::' ident)*`.
fn parse_host_path(toks: &Vec<Token>, i: usize) -> (r: Result<(HostPath, usize), usize>)
    requires
        i <= toks@.len(),
    ensures
        match r {
            Ok((p, j)) => sp_parse_host_path(toks.deep_view(), i as int) == Some(
                (p.deep_view(), j as int),
            ) && i < j <= toks@.len(),
            Err(_) => sp_parse_host_path(toks.deep_view(), i as int) is None,
        },
{
    let ghost s = toks.deep_view();
    if i >= toks.len() {
        return Err(err_pos(toks, i));
    }
    match &toks[i].kind {
        TokenKind::PathSep => {
            if i + 1 < toks.len() {
                match &toks[i + 1].kind {
                    TokenKind::Ident(seg) => {
                        let ghost sv = seg@;
                        proof {
                            assert(s[i as int] is PathSep);
                            assert(s[i + 1] == TokenKindV::Ident(sv));
                        }
                        let first = clone_bytes(seg);
                        let (rest, j) = parse_path_rest(toks, i + 2);
                        let mut segments: Vec<Vec<u8>> = Vec::new();
                        segments.push(first);
                        proof {
                            assert(segments.deep_view() =~~= seq![sv] + rest.deep_view().take(0));
                        }
                        let mut k: usize = 0;
                        while k < rest.len()
                            invariant
                                k <= rest@.len(),
                                segments.deep_view() == seq![sv] + rest.deep_view().take(k as int),
                            decreases rest@.len() - k,
                        {
                            let ghost pre = segments.deep_view();
                            segments.push(clone_bytes(&rest[k]));
                            proof {
                                assert(segments.deep_view() =~~= pre + seq![rest.deep_view()[k as int]]);
                                assert(segments.deep_view() =~~= seq![sv] + rest.deep_view().take(
                                    k + 1,
                                ));
                            }
                            k = k + 1;
                        }
                        proof {
                            assert(rest.deep_view().take(rest@.len() as int) =~= rest.deep_view());
                            assert(segments.deep_view() == seq![sv] + rest.deep_view());
                        }
                        Ok((HostPath { leading_colons: true, segments }, j))
                    },
                    _ => Err(err_pos(toks, i + 1)),
                }
            } else {
                Err(err_pos(toks, i + 1))
            }
        },
        TokenKind::Ident(seg) => {
            let ghost sv = seg@;
            proof {
                assert(s[i as int] == TokenKindV::Ident(sv));
            }
            let first = clone_bytes(seg);
            let (rest, j) = parse_path_rest(toks, i + 1);
            let mut segments: Vec<Vec<u8>> = Vec::new();
            segments.push(first);
            proof {
                assert(segments.deep_view() =~~= seq![sv] + rest.deep_view().take(0));
            }
            let mut k: usize = 0;
            while k < rest.len()
                invariant
                    k <= rest@.len(),
                    segments.deep_view() == seq![sv] + rest.deep_view().take(k as int),
                decreases rest@.len() - k,
            {
                let ghost pre = segments.deep_view();
                segments.push(clone_bytes(&rest[k]));
                proof {
                    assert(segments.deep_view() =~~= pre + seq![rest.deep_view()[k as int]]);
                    assert(segments.deep_view() =~~= seq![sv] + rest.deep_view().take(k + 1));
                }
                k = k + 1;
            }
            proof {
                assert(rest.deep_view().take(rest@.len() as int) =~= rest.deep_view());
                assert(segments.deep_view() == seq![sv] + rest.deep_view());
            }
            Ok((HostPath { leading_colons: false, segments }, j))
        },
        _ => Err(err_pos(toks, i)),
    }
}

/// Parse one type.
fn parse_type(toks: &Vec<Token>, i: usize) -> (r: Result<(Type, usize), usize>)
    requires
        i <= toks@.len(),
    ensures
        match r {
            Ok((t, j)) => sp_parse_type(toks.deep_view(), i as int) == Some(
                (t.deep_view(), j as int),
            ) && i < j <= toks@.len(),
            Err(_) => sp_parse_type(toks.deep_view(), i as int) is None,
        },
    decreases toks@.len() - i, 0int,
{
    let ghost s = toks.deep_view();
    if i >= toks.len() {
        return Err(err_pos(toks, i));
    }
    match &toks[i].kind {
        TokenKind::LParen => {
            proof {
                assert(s[i as int] is LParen);
            }
            if i + 1 < toks.len() && matches!(&toks[i + 1].kind, TokenKind::RParen) {
                let ts: Vec<Type> = Vec::new();
                proof {
                    assert(s[i + 1] is RParen);
                    lemma_struct_view(ts);
                    assert(ts.deep_view() =~= Seq::<TypeV>::empty());
                }
                Ok((Type::Struct(ts), i + 2))
            } else {
                match parse_type_list1(toks, i + 1) {
                    Ok((ts, j)) => {
                        proof {
                            lemma_struct_view(ts);
                        }
                        Ok((Type::Struct(ts), j))
                    },
                    Err(p) => Err(p),
                }
            }
        },
        TokenKind::At => {
            proof {
                assert(s[i as int] is At);
            }
            match parse_host_path(toks, i + 1) {
                Ok((p, j)) => Ok((Type::Object(p), j)),
                Err(p) => Err(p),
            }
        },
        TokenKind::PathSep => {
            proof {
                assert(s[i as int] is PathSep);
            }
            match parse_host_path(toks, i) {
                Ok((p, j)) => Ok((Type::Host(p), j)),
                Err(p) => Err(p),
            }
        },
        TokenKind::Ident(w) => {
            proof {
                assert(s[i as int] == TokenKindV::Ident(w@));
            }
            if is_single_letter(w, 'v' as u8) {
                proof {
                    assert(w@ == kw_variant());
                }
                Ok((Type::Variant, i + 1))
            } else if is_single_letter(w, 'a' as u8) {
                proof {
                    assert(w@ == kw_array());
                }
                if i + 1 < toks.len() && matches!(&toks[i + 1].kind, TokenKind::LBrace) {
                    proof {
                        assert(s[i + 1] is LBrace);
                    }
                    if i + 2 < toks.len() {
                        let key_opt: Option<SimpleType> = match &toks[i + 2].kind {
                            TokenKind::Ident(kc) => scalar_of_ident(kc),
                            _ => None,
                        };
                        match key_opt {
                            Some(key) => {
                                match parse_type(toks, i + 3) {
                                    Ok((vt, j)) => {
                                        if j < toks.len() && matches!(
                                            &toks[j].kind,
                                            TokenKind::RBrace,
                                        ) {
                                            proof {
                                                assert(s[j as int] is RBrace);
                                            }
                                            Ok((Type::Dict(key, Box::new(vt)), j + 1))
                                        } else {
                                            Err(err_pos(toks, j))
                                        }
                                    },
                                    Err(p) => Err(p),
                                }
                            },
                            None => Err(err_pos(toks, i + 2)),
                        }
                    } else {
                        Err(err_pos(toks, i))
                    }
                } else {
                    match parse_type(toks, i + 1) {
                        Ok((t, j)) => Ok((Type::Array(Box::new(t)), j)),
                        Err(p) => Err(p),
                    }
                }
            } else {
                match scalar_of_ident(w) {
                    Some(st) => Ok((Type::Simple(st), i + 1)),
                    None => {
                        match parse_host_path(toks, i) {
                            Ok((p, j)) => Ok((Type::Host(p), j)),
                            Err(p) => Err(p),
                        }
                    },
                }
            }
        },
        _ => Err(err_pos(toks, i)),
    }
}

/// Parse one or more comma-separated types and the closing `)`.
fn parse_type_list1(toks: &Vec<Token>, i: usize) -> (r: Result<(Vec<Type>, usize), usize>)
    requires
        i <= toks@.len(),
    ensures
        match r {
            Ok((ts, j)) => sp_parse_type_list1(toks.deep_view(), i as int) == Some(
                (ts.deep_view(), j as int),
            ) && i < j <= toks@.len(),
            Err(_) => sp_parse_type_list1(toks.deep_view(), i as int) is None,
        },
    decreases toks@.len() - i, 1int,
{
    let ghost s = toks.deep_view();
    let mut acc: Vec<Type> = Vec::new();
    let mut cur = i;
    proof {
        if let Some((rest, _k)) = sp_parse_type_list1(s, i as int) {
            assert(acc.deep_view() + rest =~= rest);
        }
    }
    loop
        invariant
            i <= cur <= toks@.len(),
            s == toks.deep_view(),
            s.len() == toks@.len(),
            sp_parse_type_list1(s, i as int) == (match sp_parse_type_list1(s, cur as int) {
                None => None::<(Seq<TypeV>, int)>,
                Some((rest, k)) => Some((acc.deep_view() + rest, k)),
            }),
        decreases toks@.len() - cur,
    {
        let res = parse_type(toks, cur);
        match res {
            Err(p) => {
                return Err(p);
            },
            Ok((t, j)) => {
                let ghost tv = t.deep_view();
                if j < toks.len() && matches!(&toks[j].kind, TokenKind::Comma) {
                    proof {
                        assert(s[j as int] is Comma);
                    }
                    let ghost pre = acc.deep_view();
                    acc.push(t);
                    proof {
                        assert(acc.deep_view() =~= pre + seq![tv]);
                        if let Some((rest, _k)) = sp_parse_type_list1(s, j + 1) {
                            assert((pre + seq![tv]) + rest =~= pre + (seq![tv] + rest));
                        }
                    }
                    cur = j + 1;
                } else if j < toks.len() && matches!(&toks[j].kind, TokenKind::RParen) {
                    proof {
                        assert(s[j as int] is RParen);
                    }
                    let ghost pre = acc.deep_view();
                    acc.push(t);
                    proof {
                        assert(acc.deep_view() =~= pre + seq![tv]);
                    }
                    return Ok((acc, j + 1));
                } else {
                    return Err(err_pos(toks, j));
                }
            },
        }
    }
}

/// Parse `ident ':' type`.
fn parse_arg(toks: &Vec<Token>, i: usize) -> (r: Result<(Arg, usize), usize>)
    requires
        i <= toks@.len(),
    ensures
        match r {
            Ok((a, j)) => sp_parse_arg(toks.deep_view(), i as int) == Some(
                (a.deep_view(), j as int),
            ) && i < j <= toks@.len(),
            Err(_) => sp_parse_arg(toks.deep_view(), i as int) is None,
        },
{
    let ghost s = toks.deep_view();
    if i < toks.len() && i + 1 < toks.len() {
        match &toks[i].kind {
            TokenKind::Ident(nm) => {
                if matches!(&toks[i + 1].kind, TokenKind::Colon) {
                    proof {
                        assert(s[i as int] == TokenKindV::Ident(nm@));
                        assert(s[i + 1] is Colon);
                    }
                    let name = clone_bytes(nm);
                    match parse_type(toks, i + 2) {
                        Ok((t, j)) => Ok((Arg { name, ty: t }, j)),
                        Err(p) => Err(p),
                    }
                } else {
                    Err(err_pos(toks, i + 1))
                }
            },
            _ => Err(err_pos(toks, i)),
        }
    } else {
        Err(err_pos(toks, i))
    }
}

/// Parse one or more comma-separated arguments and the closing `)`.
fn parse_args_list1(toks: &Vec<Token>, i: usize) -> (r: Result<(Vec<Arg>, usize), usize>)
    requires
        i <= toks@.len(),
    ensures
        match r {
            Ok((a, j)) => sp_parse_args_list1(toks.deep_view(), i as int) == Some(
                (a.deep_view(), j as int),
            ) && i < j <= toks@.len(),
            Err(_) => sp_parse_args_list1(toks.deep_view(), i as int) is None,
        },
{
    let ghost s = toks.deep_view();
    let mut acc: Vec<Arg> = Vec::new();
    let mut cur = i;
    proof {
        if let Some((rest, _k)) = sp_parse_args_list1(s, i as int) {
            assert(acc.deep_view() + rest =~= rest);
        }
    }
    loop
        invariant
            i <= cur <= toks@.len(),
            s == toks.deep_view(),
            s.len() == toks@.len(),
            sp_parse_args_list1(s, i as int) == (match sp_parse_args_list1(s, cur as int) {
                None => None::<(Seq<ArgV>, int)>,
                Some((rest, k)) => Some((acc.deep_view() + rest, k)),
            }),
        decreases toks@.len() - cur,
    {
        let res = parse_arg(toks, cur);
        match res {
            Err(p) => {
                return Err(p);
            },
            Ok((a, j)) => {
                let ghost av = a.deep_view();
                if j < toks.len() && matches!(&toks[j].kind, TokenKind::Comma) {
                    proof {
                        assert(s[j as int] is Comma);
                    }
                    let ghost pre = acc.deep_view();
                    acc.push(a);
                    proof {
                        assert(acc.deep_view() =~= pre + seq![av]);
                        if let Some((rest, _k)) = sp_parse_args_list1(s, j + 1) {
                            assert((pre + seq![av]) + rest =~= pre + (seq![av] + rest));
                        }
                    }
                    cur = j + 1;
                } else if j < toks.len() && matches!(&toks[j].kind, TokenKind::RParen) {
                    proof {
                        assert(s[j as int] is RParen);
                    }
                    let ghost pre = acc.deep_view();
                    acc.push(a);
                    proof {
                        assert(acc.deep_view() =~= pre + seq![av]);
                    }
                    return Ok((acc, j + 1));
                } else {
                    return Err(err_pos(toks, j));
                }
            },
        }
    }
}

/// Parse one member.
fn parse_member(toks: &Vec<Token>, i: usize) -> (r: Result<(Member, usize), usize>)
    requires
        i <= toks@.len(),
    ensures
        match r {
            Ok((m, j)) => sp_parse_member(toks.deep_view(), i as int) == Some(
                (m.deep_view(), j as int),
            ) && i < j <= toks@.len(),
            Err(_) => sp_parse_member(toks.deep_view(), i as int) is None,
        },
{
    let ghost s = toks.deep_view();
    let (attrs, d) = parse_docs(toks, i);
    let mut mutable = false;
    if d < toks.len() {
        match &toks[d].kind {
            TokenKind::Ident(w) => {
                if is_mut_kw(w) {
                    mutable = true;
                }
            },
            _ => {},
        }
    }
    proof {
        assert(mutable == (d < s.len() && s[d as int] == TokenKindV::Ident(kw_mut())));
    }
    let m = if mutable {
        d + 1
    } else {
        d
    };
    if m >= toks.len() {
        return Err(err_pos(toks, m));
    }
    match &toks[m].kind {
        TokenKind::Ident(nm) => {
            proof {
                assert(s[m as int] == TokenKindV::Ident(nm@));
            }
            let name = clone_bytes(nm);
            let n = m + 1;
            let has_colon = n < toks.len() && matches!(&toks[n].kind, TokenKind::Colon);
            if mutable || has_colon {
                if has_colon {
                    proof {
                        assert(s[n as int] is Colon);
                    }
                    match parse_type(toks, n + 1) {
                        Ok((t, j)) => {
                            if j < toks.len() && matches!(&toks[j].kind, TokenKind::Semi) {
                                proof {
                                    assert(s[j as int] is Semi);
                                }
                                Ok(
                                    (
                                        Member::Property(
                                            Property { attrs, mutable, name, ty: t },
                                        ),
                                        j + 1,
                                    ),
                                )
                            } else {
                                Err(err_pos(toks, j))
                            }
                        },
                        Err(p) => Err(p),
                    }
                } else {
                    Err(err_pos(toks, n))
                }
            } else if n < toks.len() && matches!(&toks[n].kind, TokenKind::LParen) {
                proof {
                    assert(s[n as int] is LParen);
                }
                let argres: Result<(Vec<Arg>, usize), usize> = if n + 1 < toks.len() && matches!(
                    &toks[n + 1].kind,
                    TokenKind::RParen,
                ) {
                    let args0: Vec<Arg> = Vec::new();
                    proof {
                        assert(s[n + 1] is RParen);
                        assert(args0.deep_view() =~= Seq::<ArgV>::empty());
                    }
                    Ok((args0, n + 2))
                } else {
                    parse_args_list1(toks, n + 1)
                };
                match argres {
                    Err(p) => Err(p),
                    Ok((args, j)) => {
                        if j < toks.len() && matches!(&toks[j].kind, TokenKind::Arrow) {
                            proof {
                                assert(s[j as int] is Arrow);
                            }
                            match parse_type(toks, j + 1) {
                                Ok((t, k)) => {
                                    if k < toks.len() && matches!(&toks[k].kind, TokenKind::Semi) {
                                        proof {
                                            assert(s[k as int] is Semi);
                                        }
                                        Ok(
                                            (
                                                Member::Method(
                                                    Method { attrs, name, args, output: t },
                                                ),
                                                k + 1,
                                            ),
                                        )
                                    } else {
                                        Err(err_pos(toks, k))
                                    }
                                },
                                Err(p) => Err(p),
                            }
                        } else if j < toks.len() && matches!(&toks[j].kind, TokenKind::Semi) {
                            proof {
                                assert(s[j as int] is Semi);
                            }
                            Ok(
                                (
                                    Member::Method(
                                        Method { attrs, name, args, output: Type::Empty },
                                    ),
                                    j + 1,
                                ),
                            )
                        } else {
                            Err(err_pos(toks, j))
                        }
                    },
                }
            } else {
                Err(err_pos(toks, n))
            }
        },
        _ => Err(err_pos(toks, m)),
    }
}

/// Parse members up to and including the closing `}`.
fn parse_members(toks: &Vec<Token>, i: usize) -> (r: Result<(Vec<Member>, usize), usize>)
    requires
        i <= toks@.len(),
    ensures
        match r {
            Ok((ms, j)) => sp_parse_members(toks.deep_view(), i as int) == Some(
                (ms.deep_view(), j as int),
            ) && i < j <= toks@.len(),
            Err(_) => sp_parse_members(toks.deep_view(), i as int) is None,
        },
{
    let ghost s = toks.deep_view();
    let mut acc: Vec<Member> = Vec::new();
    let mut cur = i;
    proof {
        if let Some((rest, _k)) = sp_parse_members(s, i as int) {
            assert(acc.deep_view() + rest =~= rest);
        }
    }
    loop
        invariant
            i <= cur <= toks@.len(),
            s == toks.deep_view(),
            s.len() == toks@.len(),
            sp_parse_members(s, i as int) == (match sp_parse_members(s, cur as int) {
                None => None::<(Seq<MemberV>, int)>,
                Some((rest, k)) => Some((acc.deep_view() + rest, k)),
            }),
        decreases toks@.len() - cur,
    {
        if cur < toks.len() && matches!(&toks[cur].kind, TokenKind::RBrace) {
            proof {
                assert(s[cur as int] is RBrace);
                assert(acc.deep_view() + Seq::<MemberV>::empty() =~= acc.deep_view());
            }
            return Ok((acc, cur + 1));
        }
        match parse_member(toks, cur) {
            Err(p) => {
                return Err(p);
            },
            Ok((m, j)) => {
                let ghost mv = m.deep_view();
                let ghost pre = acc.deep_view();
                acc.push(m);
                proof {
                    assert(acc.deep_view() =~= pre + seq![mv]);
                    if let Some((rest, _k)) = sp_parse_members(s, j as int) {
                        assert((pre + seq![mv]) + rest =~= pre + (seq![mv] + rest));
                    }
                }
                cur = j;
            },
        }
    }
}

/// Parse `STRING '{' member* '}'`.
fn parse_interface(toks: &Vec<Token>, i: usize) -> (r: Result<(Interface, usize), usize>)
    requires
        i <= toks@.len(),
    ensures
        match r {
            Ok((intf, j)) => sp_parse_interface(toks.deep_view(), i as int) == Some(
                (intf.deep_view(), j as int),
            ) && i < j <= toks@.len(),
            Err(_) => sp_parse_interface(toks.deep_view(), i as int) is None,
        },
{
    let ghost s = toks.deep_view();
    if i < toks.len() && i + 1 < toks.len() {
        match &toks[i].kind {
            TokenKind::StrLit(nm) => {
                if matches!(&toks[i + 1].kind, TokenKind::LBrace) {
                    proof {
                        assert(s[i as int] == TokenKindV::StrLit(nm@));
                        assert(s[i + 1] is LBrace);
                    }
                    let name = clone_bytes(nm);
                    match parse_members(toks, i + 2) {
                        Ok((members, j)) => Ok((Interface { name, members }, j)),
                        Err(p) => Err(p),
                    }
                } else {
                    Err(err_pos(toks, i + 1))
                }
            },
            _ => Err(err_pos(toks, i)),
        }
    } else {
        Err(err_pos(toks, i))
    }
}

/// Parse one interface implementation.
fn parse_iface_impl(toks: &Vec<Token>, i: usize) -> (r: Result<(InterfaceImpl, usize), usize>)
    requires
        i <= toks@.len(),
    ensures
        match r {
            Ok((f, j)) => sp_parse_iface_impl(toks.deep_view(), i as int) == Some(
                (f.deep_view(), j as int),
            ) && i < j <= toks@.len(),
            Err(_) => sp_parse_iface_impl(toks.deep_view(), i as int) is None,
        },
{
    let ghost s = toks.deep_view();
    if i < toks.len() {
        match &toks[i].kind {
            TokenKind::Ident(nm) => {
                proof {
                    assert(s[i as int] == TokenKindV::Ident(nm@));
                }
                if i + 1 < toks.len() && matches!(&toks[i + 1].kind, TokenKind::Semi) {
                    proof {
                        assert(s[i + 1] is Semi);
                    }
                    Ok((InterfaceImpl::Named(clone_bytes(nm)), i + 2))
                } else {
                    Err(err_pos(toks, i + 1))
                }
            },
            _ => {
                match parse_interface(toks, i) {
                    Ok((intf, j)) => Ok((InterfaceImpl::Anonymous(intf), j)),
                    Err(p) => Err(p),
                }
            },
        }
    } else {
        match parse_interface(toks, i) {
            Ok((intf, j)) => Ok((InterfaceImpl::Anonymous(intf), j)),
            Err(p) => Err(p),
        }
    }
}

/// Parse interface implementations until the input is exhausted.
fn parse_impls(toks: &Vec<Token>, i: usize) -> (r: Result<(Vec<InterfaceImpl>, usize), usize>)
    requires
        i <= toks@.len(),
    ensures
        match r {
            Ok((fs, j)) => sp_parse_impls(toks.deep_view(), i as int) == Some(
                (fs.deep_view(), j as int),
            ) && i <= j && j == toks@.len(),
            Err(_) => sp_parse_impls(toks.deep_view(), i as int) is None,
        },
{
    let ghost s = toks.deep_view();
    let mut acc: Vec<InterfaceImpl> = Vec::new();
    let mut cur = i;
    proof {
        if let Some((rest, _k)) = sp_parse_impls(s, i as int) {
            assert(acc.deep_view() + rest =~= rest);
        }
    }
    loop
        invariant
            i <= cur <= toks@.len(),
            s == toks.deep_view(),
            s.len() == toks@.len(),
            sp_parse_impls(s, i as int) == (match sp_parse_impls(s, cur as int) {
                None => None::<(Seq<InterfaceImplV>, int)>,
                Some((rest, k)) => Some((acc.deep_view() + rest, k)),
            }),
        decreases toks@.len() - cur,
    {
        if cur >= toks.len() {
            proof {
                assert(acc.deep_view() + Seq::<InterfaceImplV>::empty() =~= acc.deep_view());
            }
            return Ok((acc, cur));
        }
        match parse_iface_impl(toks, cur) {
            Err(p) => {
                return Err(p);
            },
            Ok((f, j)) => {
                let ghost fv = f.deep_view();
                let ghost pre = acc.deep_view();
                acc.push(f);
                proof {
                    assert(acc.deep_view() =~= pre + seq![fv]);
                    if let Some((rest, _k)) = sp_parse_impls(s, j as int) {
                        assert((pre + seq![fv]) + rest =~= pre + (seq![fv] + rest));
                    }
                }
                cur = j;
            },
        }
    }
}

/// Parse one or more comma-separated property entries and the closing `)`.
fn parse_props_list1(toks: &Vec<Token>, i: usize) -> (r: Result<(Vec<RawProp>, usize), usize>)
    requires
        i <= toks@.len(),
    ensures
        match r {
            Ok((ps, j)) => sp_parse_props_list1(toks.deep_view(), i as int) == Some(
                (ps.deep_view(), j as int),
            ) && i < j <= toks@.len(),
            Err(_) => sp_parse_props_list1(toks.deep_view(), i as int) is None,
        },
{
    let ghost s = toks.deep_view();
    let mut acc: Vec<RawProp> = Vec::new();
    let mut cur = i;
    proof {
        if let Some((rest, _k)) = sp_parse_props_list1(s, i as int) {
            assert(acc.deep_view() + rest =~= rest);
        }
    }
    loop
        invariant
            i <= cur <= toks@.len(),
            s == toks.deep_view(),
            s.len() == toks@.len(),
            sp_parse_props_list1(s, i as int) == (match sp_parse_props_list1(s, cur as int) {
                None => None::<(Seq<RawPropV>, int)>,
                Some((rest, k)) => Some((acc.deep_view() + rest, k)),
            }),
        decreases toks@.len() - cur,
    {
        if cur >= toks.len() {
            return Err(err_pos(toks, cur));
        }
        let entry_opt: Option<RawPropKind> = match &toks[cur].kind {
            TokenKind::Ident(w) => {
                if is_session_kw(w) {
                    Some(RawPropKind::Session)
                } else if is_system_kw(w) {
                    Some(RawPropKind::System)
                } else {
                    None
                }
            },
            TokenKind::StrLit(x) => Some(RawPropKind::Str(clone_bytes(x))),
            _ => None,
        };
        match entry_opt {
            None => {
                proof {
                    assert(sp_prop_entry(s[cur as int]) is None);
                }
                return Err(err_pos(toks, cur));
            },
            Some(kind) => {
                let e = RawProp { kind, pos: toks[cur].pos };
                let ghost ev = e.deep_view();
                proof {
                    assert(sp_prop_entry(s[cur as int]) == Some(ev));
                }
                if cur + 1 < toks.len() && matches!(&toks[cur + 1].kind, TokenKind::Comma) {
                    proof {
                        assert(s[cur + 1] is Comma);
                    }
                    if cur + 2 < toks.len() && matches!(&toks[cur + 2].kind, TokenKind::RParen) {
                        proof {
                            assert(s[cur + 2] is RParen);
                        }
                        let ghost pre = acc.deep_view();
                        acc.push(e);
                        proof {
                            assert(acc.deep_view() =~= pre + seq![ev]);
                        }
                        return Ok((acc, cur + 3));
                    } else {
                        let ghost pre = acc.deep_view();
                        acc.push(e);
                        proof {
                            assert(acc.deep_view() =~= pre + seq![ev]);
                            if let Some((rest, _k)) = sp_parse_props_list1(s, cur + 2) {
                                assert((pre + seq![ev]) + rest =~= pre + (seq![ev] + rest));
                            }
                        }
                        cur = cur + 2;
                    }
                } else if cur + 1 < toks.len() && matches!(&toks[cur + 1].kind, TokenKind::RParen) {
                    proof {
                        assert(s[cur + 1] is RParen);
                    }
                    let ghost pre = acc.deep_view();
                    acc.push(e);
                    proof {
                        assert(acc.deep_view() =~= pre + seq![ev]);
                    }
                    return Ok((acc, cur + 2));
                } else {
                    return Err(err_pos(toks, cur + 1));
                }
            },
        }
    }
}

/// Parse and validate one object declaration from the whole token
/// sequence.
///
/// Succeeds exactly when the tokens form a declaration of the grammar
/// whose property list validates; a syntax error and a validation error
/// are told apart, and the latter carries both offending positions.
pub fn parse_object(toks: &Vec<Token>) -> (r: Result<Object, ParseError>)
    ensures
        match r {
            Ok(o) => sp_parse_object(toks.deep_view()) == ParseResultV::Object(o.deep_view()),
            Err(e) => match e {
                ParseError::Syntax { .. } => sp_parse_object(toks.deep_view())
                    == ParseResultV::Syntax,
                ParseError::Invalid(ve) => sp_parse_object(toks.deep_view())
                    == ParseResultV::Invalid(ve.kind),
            },
        },
{
    let ghost s = toks.deep_view();
    let (attrs, d) = parse_docs(toks, 0);
    if d >= toks.len() {
        return Err(ParseError::Syntax { pos: err_pos(toks, d) });
    }
    match &toks[d].kind {
        TokenKind::Ident(nm) => {
            proof {
                assert(s[d as int] == TokenKindV::Ident(nm@));
            }
            let name = clone_bytes(nm);
            let props_res: Result<(Vec<RawProp>, usize), usize> = if d + 1 < toks.len()
                && matches!(&toks[d + 1].kind, TokenKind::LParen) {
                proof {
                    assert(s[d + 1] is LParen);
                }
                if d + 2 < toks.len() && matches!(&toks[d + 2].kind, TokenKind::RParen) {
                    let ps0: Vec<RawProp> = Vec::new();
                    proof {
                        assert(s[d + 2] is RParen);
                        assert(ps0.deep_view() =~= Seq::<RawPropV>::empty());
                    }
                    Ok((ps0, d + 3))
                } else {
                    parse_props_list1(toks, d + 2)
                }
            } else {
                let ps0: Vec<RawProp> = Vec::new();
                proof {
                    assert(ps0.deep_view() =~= Seq::<RawPropV>::empty());
                }
                Ok((ps0, d + 1))
            };
            match props_res {
                Err(p) => Err(ParseError::Syntax { pos: p }),
                Ok((props, j)) => {
                    match parse_impls(toks, j) {
                        Err(p) => Err(ParseError::Syntax { pos: p }),
                        Ok((interfaces, _k)) => {
                            match validate_props(&props) {
                                Err(ve) => Err(ParseError::Invalid(ve)),
                                Ok(op) => {
                                    let o = Object {
                                        attrs,
                                        name,
                                        dest: op.dest,
                                        path: op.path,
                                        session: op.session,
                                        system: op.system,
                                        interfaces,
                                    };
                                    Ok(o)
                                },
                            }
                        },
                    }
                },
            }
        },
        _ => Err(ParseError::Syntax { pos: err_pos(toks, d) }),
    }
}

} // verus!
