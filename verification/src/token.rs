//! Lexical analysis for the declaration language.
//!
//! The source text is a sequence of ASCII bytes.  It is broken into
//! identifiers, string literals (no escape sequences: a literal runs to the
//! next `"` and may not contain a line break), doc comments (`/// ...`, one
//! token per line), plain comments (`// ...`, discarded) and punctuation.
//! Every token records the byte offset at which it starts; offsets only
//! feed diagnostics and carry no specification.
//!
//! `sp_lex_from` is the mathematical lexer; `lex` is the executable one and
//! returns exactly what `sp_lex_from` describes.

use vstd::prelude::*;

verus! {

broadcast use vstd::std_specs::vec::group_vec_axioms, vstd::seq::group_seq_axioms;

/// What a token is, with its payload where it has one.
#[derive(PartialEq, Eq, Debug)]
pub enum TokenKind {
    Ident(Vec<u8>),
    StrLit(Vec<u8>),
    DocComment(Vec<u8>),
    LParen,
    RParen,
    LBrace,
    RBrace,
    Comma,
    Semi,
    Colon,
    PathSep,
    Arrow,
    At,
}

/// A token together with the byte offset of its first character.
#[derive(PartialEq, Eq, Debug)]
pub struct Token {
    pub kind: TokenKind,
    pub pos: usize,
}

/// Mathematical image of a token; the offset is diagnostic only and drops out.
pub enum TokenKindV {
    Ident(Seq<u8>),
    StrLit(Seq<u8>),
    DocComment(Seq<u8>),
    LParen,
    RParen,
    LBrace,
    RBrace,
    Comma,
    Semi,
    Colon,
    PathSep,
    Arrow,
    At,
}

impl DeepView for TokenKind {
    type V = TokenKindV;

    open spec fn deep_view(&self) -> TokenKindV {
        match self {
            TokenKind::Ident(s) => TokenKindV::Ident(s@),
            TokenKind::StrLit(s) => TokenKindV::StrLit(s@),
            TokenKind::DocComment(s) => TokenKindV::DocComment(s@),
            TokenKind::LParen => TokenKindV::LParen,
            TokenKind::RParen => TokenKindV::RParen,
            TokenKind::LBrace => TokenKindV::LBrace,
            TokenKind::RBrace => TokenKindV::RBrace,
            TokenKind::Comma => TokenKindV::Comma,
            TokenKind::Semi => TokenKindV::Semi,
            TokenKind::Colon => TokenKindV::Colon,
            TokenKind::PathSep => TokenKindV::PathSep,
            TokenKind::Arrow => TokenKindV::Arrow,
            TokenKind::At => TokenKindV::At,
        }
    }
}

impl DeepView for Token {
    type V = TokenKindV;

    open spec fn deep_view(&self) -> TokenKindV {
        self.kind.deep_view()
    }
}

/// The byte that failed to start a token, and where.
#[derive(PartialEq, Eq, Debug)]
pub struct LexError {
    pub pos: usize,
}

pub open spec fn is_ws(c: u8) -> bool {
    c == (' ' as u8) || c == ('\t' as u8) || c == ('\n' as u8) || c == ('\r' as u8)
}

pub open spec fn is_digit(c: u8) -> bool {
    ('0' as u8) <= c && c <= ('9' as u8)
}

pub open spec fn is_letter(c: u8) -> bool {
    (('a' as u8) <= c && c <= ('z' as u8)) || (('A' as u8) <= c && c <= ('Z' as u8))
}

pub open spec fn is_ident_start(c: u8) -> bool {
    is_letter(c) || c == ('_' as u8)
}

pub open spec fn is_ident_char(c: u8) -> bool {
    is_ident_start(c) || is_digit(c)
}

/// First index at or after `i` that does not continue an identifier.
pub open spec fn ident_end(s: Seq<u8>, i: int) -> int
    decreases s.len() - i,
{
    if 0 <= i && i < s.len() && is_ident_char(s[i]) {
        ident_end(s, i + 1)
    } else {
        i
    }
}

/// First index at or after `i` holding a line break, or the end of the text.
pub open spec fn line_end(s: Seq<u8>, i: int) -> int
    decreases s.len() - i,
{
    if 0 <= i && i < s.len() && s[i] != ('\n' as u8) {
        line_end(s, i + 1)
    } else {
        i
    }
}

/// First index at or after `i` that closes a string literal: a `"`, a line
/// break (which is an error) or the end of the text (also an error).
pub open spec fn str_end(s: Seq<u8>, i: int) -> int
    decreases s.len() - i,
{
    if 0 <= i && i < s.len() && s[i] != ('"' as u8) && s[i] != ('\n' as u8) {
        str_end(s, i + 1)
    } else {
        i
    }
}

/// A `//` that does not open a doc comment.
pub open spec fn is_line_comment(s: Seq<u8>, i: int) -> bool {
    &&& 0 <= i
    &&& i + 1 < s.len()
    &&& s[i] == ('/' as u8)
    &&& s[i + 1] == ('/' as u8)
    &&& !is_doc_comment(s, i)
}

/// Exactly three slashes open a doc comment; four or more are a plain one.
pub open spec fn is_doc_comment(s: Seq<u8>, i: int) -> bool {
    &&& 0 <= i
    &&& i + 2 < s.len()
    &&& s[i] == ('/' as u8)
    &&& s[i + 1] == ('/' as u8)
    &&& s[i + 2] == ('/' as u8)
    &&& (i + 3 == s.len() || s[i + 3] != ('/' as u8))
}

/// The token starting at `i`, with the index just past it; `None` on a byte
/// that starts no token.  Callers rule out whitespace and comments first.
pub open spec fn sp_token_at(s: Seq<u8>, i: int) -> Option<(TokenKindV, int)>
    recommends
        0 <= i < s.len(),
{
    let c = s[i];
    if is_ident_start(c) {
        let j = ident_end(s, i + 1);
        Some((TokenKindV::Ident(s.subrange(i, j)), j))
    } else if c == ('"' as u8) {
        let j = str_end(s, i + 1);
        if j < s.len() && s[j] == ('"' as u8) {
            Some((TokenKindV::StrLit(s.subrange(i + 1, j)), j + 1))
        } else {
            None
        }
    } else if c == ('(' as u8) {
        Some((TokenKindV::LParen, i + 1))
    } else if c == (')' as u8) {
        Some((TokenKindV::RParen, i + 1))
    } else if c == ('{' as u8) {
        Some((TokenKindV::LBrace, i + 1))
    } else if c == ('}' as u8) {
        Some((TokenKindV::RBrace, i + 1))
    } else if c == (',' as u8) {
        Some((TokenKindV::Comma, i + 1))
    } else if c == (';' as u8) {
        Some((TokenKindV::Semi, i + 1))
    } else if c == ('@' as u8) {
        Some((TokenKindV::At, i + 1))
    } else if c == (':' as u8) {
        if i + 1 < s.len() && s[i + 1] == (':' as u8) {
            Some((TokenKindV::PathSep, i + 2))
        } else {
            Some((TokenKindV::Colon, i + 1))
        }
    } else if c == ('-' as u8) {
        if i + 1 < s.len() && s[i + 1] == ('>' as u8) {
            Some((TokenKindV::Arrow, i + 2))
        } else {
            None
        }
    } else {
        None
    }
}

/// The tokens of `s` from position `i` on, or `None` where some byte starts
/// no token or a string literal does not close on its line.
pub open spec fn sp_lex_from(s: Seq<u8>, i: int) -> Option<Seq<TokenKindV>>
    decreases s.len() - i,
{
    if !(0 <= i && i < s.len()) {
        Some(Seq::empty())
    } else if is_ws(s[i]) {
        sp_lex_from(s, i + 1)
    } else if is_doc_comment(s, i) {
        let j = line_end(s, i + 3);
        let j1 = if i < j && j <= s.len() { j } else { i + 1 };
        match sp_lex_from(s, j1) {
            None => None,
            Some(rest) => Some(seq![TokenKindV::DocComment(s.subrange(i + 3, j))] + rest),
        }
    } else if is_line_comment(s, i) {
        let j = line_end(s, i + 2);
        let j1 = if i < j && j <= s.len() { j } else { i + 1 };
        sp_lex_from(s, j1)
    } else {
        match sp_token_at(s, i) {
            None => None,
            Some((t, j)) => {
                let j1 = if i < j && j <= s.len() { j } else { i + 1 };
                match sp_lex_from(s, j1) {
                    None => None,
                    Some(rest) => Some(seq![t] + rest),
                }
            },
        }
    }
}

/// The token sequence of the whole text.
pub open spec fn sp_lex(s: Seq<u8>) -> Option<Seq<TokenKindV>> {
    sp_lex_from(s, 0)
}

fn is_ws_x(c: u8) -> (r: bool)
    ensures
        r == is_ws(c),
{
    c == (' ' as u8) || c == ('\t' as u8) || c == ('\n' as u8) || c == ('\r' as u8)
}

fn is_ident_start_x(c: u8) -> (r: bool)
    ensures
        r == is_ident_start(c),
{
    (('a' as u8) <= c && c <= ('z' as u8)) || (('A' as u8) <= c && c <= ('Z' as u8)) || c == ('_'
        as u8)
}

fn is_ident_char_x(c: u8) -> (r: bool)
    ensures
        r == is_ident_char(c),
{
    is_ident_start_x(c) || (('0' as u8) <= c && c <= ('9' as u8))
}

fn scan_ident_end(src: &Vec<u8>, i: usize) -> (j: usize)
    requires
        i <= src@.len(),
    ensures
        j == ident_end(src@, i as int),
        i <= j <= src@.len(),
{
    let mut j = i;
    while j < src.len() && is_ident_char_x(src[j])
        invariant
            i <= j <= src@.len(),
            ident_end(src@, i as int) == ident_end(src@, j as int),
        decreases src@.len() - j,
    {
        j = j + 1;
    }
    j
}

fn scan_line_end(src: &Vec<u8>, i: usize) -> (j: usize)
    requires
        i <= src@.len(),
    ensures
        j == line_end(src@, i as int),
        i <= j <= src@.len(),
{
    let mut j = i;
    while j < src.len() && src[j] != ('\n' as u8)
        invariant
            i <= j <= src@.len(),
            line_end(src@, i as int) == line_end(src@, j as int),
        decreases src@.len() - j,
    {
        j = j + 1;
    }
    j
}

fn scan_str_end(src: &Vec<u8>, i: usize) -> (j: usize)
    requires
        i <= src@.len(),
    ensures
        j == str_end(src@, i as int),
        i <= j <= src@.len(),
{
    let mut j = i;
    while j < src.len() && src[j] != ('"' as u8) && src[j] != ('\n' as u8)
        invariant
            i <= j <= src@.len(),
            str_end(src@, i as int) == str_end(src@, j as int),
        decreases src@.len() - j,
    {
        j = j + 1;
    }
    j
}

/// Copy `src[from .. to]` into a fresh vector.
fn copy_range(src: &Vec<u8>, from: usize, to: usize) -> (out: Vec<u8>)
    requires
        from <= to <= src@.len(),
    ensures
        out@ == src@.subrange(from as int, to as int),
{
    let mut out: Vec<u8> = Vec::new();
    let mut j = from;
    while j < to
        invariant
            from <= j <= to <= src@.len(),
            out@ == src@.subrange(from as int, j as int),
        decreases to - j,
    {
        out.push(src[j]);
        assert(out@ =~= src@.subrange(from as int, (j + 1) as int));
        j = j + 1;
    }
    out
}

/// Break the source text into tokens.
///
/// Succeeds exactly when the mathematical lexer does, and then returns
/// exactly its tokens.
pub fn lex(src: &Vec<u8>) -> (r: Result<Vec<Token>, LexError>)
    ensures
        match r {
            Ok(toks) => sp_lex(src@) == Some(toks.deep_view()),
            Err(_) => sp_lex(src@) is None,
        },
{
    let mut toks: Vec<Token> = Vec::new();
    let mut i: usize = 0;
    while i < src.len()
        invariant
            i <= src@.len(),
            sp_lex(src@) == (match sp_lex_from(src@, i as int) {
                None => None::<Seq<TokenKindV>>,
                Some(rest) => Some(toks.deep_view() + rest),
            }),
        decreases src@.len() - i,
    {
        let c = src[i];
        if is_ws_x(c) {
            i = i + 1;
        } else if c == ('/' as u8) {
            if i + 1 < src.len() && src[i + 1] == ('/' as u8) {
                if i + 2 < src.len() && src[i + 2] == ('/' as u8) && (i + 3 == src.len() || src[i
                    + 3] != ('/' as u8)) {
                    // doc comment
                    let j = scan_line_end(src, i + 3);
                    let text = copy_range(src, i + 3, j);
                    let ghost pre = toks.deep_view();
                    toks.push(Token { kind: TokenKind::DocComment(text), pos: i });
                    proof {
                        let tk = TokenKindV::DocComment(src@.subrange(i + 3, j as int));
                        assert(toks.deep_view() =~= pre + seq![tk]);
                        if let Some(rest) = sp_lex_from(src@, j as int) {
                            assert((pre + seq![tk]) + rest =~= pre + (seq![tk] + rest));
                        }
                    }
                    i = j;
                } else {
                    // plain comment
                    let j = scan_line_end(src, i + 2);
                    i = j;
                }
            } else {
                return Err(LexError { pos: i });
            }
        } else {
            let ghost s = src@;
            let ghost ii = i as int;
            let kind: TokenKind;
            let start = i;
            if is_ident_start_x(c) {
                let j = scan_ident_end(src, i + 1);
                kind = TokenKind::Ident(copy_range(src, i, j));
                i = j;
            } else if c == ('"' as u8) {
                let j = scan_str_end(src, i + 1);
                if j < src.len() && src[j] == ('"' as u8) {
                    kind = TokenKind::StrLit(copy_range(src, i + 1, j));
                    i = j + 1;
                } else {
                    return Err(LexError { pos: i });
                }
            } else if c == ('(' as u8) {
                kind = TokenKind::LParen;
                i = i + 1;
            } else if c == (')' as u8) {
                kind = TokenKind::RParen;
                i = i + 1;
            } else if c == ('{' as u8) {
                kind = TokenKind::LBrace;
                i = i + 1;
            } else if c == ('}' as u8) {
                kind = TokenKind::RBrace;
                i = i + 1;
            } else if c == (',' as u8) {
                kind = TokenKind::Comma;
                i = i + 1;
            } else if c == (';' as u8) {
                kind = TokenKind::Semi;
                i = i + 1;
            } else if c == ('@' as u8) {
                kind = TokenKind::At;
                i = i + 1;
            } else if c == (':' as u8) {
                if i + 1 < src.len() && src[i + 1] == (':' as u8) {
                    kind = TokenKind::PathSep;
                    i = i + 2;
                } else {
                    kind = TokenKind::Colon;
                    i = i + 1;
                }
            } else if c == ('-' as u8) {
                if i + 1 < src.len() && src[i + 1] == ('>' as u8) {
                    kind = TokenKind::Arrow;
                    i = i + 2;
                } else {
                    return Err(LexError { pos: i });
                }
            } else {
                return Err(LexError { pos: i });
            }
            let ghost pre = toks.deep_view();
            let ghost tk = kind.deep_view();
            toks.push(Token { kind, pos: start });
            proof {
                assert(sp_token_at(s, ii) == Some((tk, i as int)));
                assert(toks.deep_view() =~= pre + seq![tk]);
                if let Some(rest) = sp_lex_from(s, i as int) {
                    assert((pre + seq![tk]) + rest =~= pre + (seq![tk] + rest));
                }
            }
        }
    }
    Ok(toks)
}

} // verus!
