//! A compiler for a compact declaration language describing remote bus
//! objects: their interfaces, properties, methods and typed arguments.
//!
//! The pipeline is a pure transform: source bytes are tokenized
//! ([`token`]), parsed into an abstract syntax tree ([`parse`], [`ast`]),
//! the object's property list is classified and checked for duplicates
//! ([`validate`]), and the validated declaration is turned into a typed
//! binding description ([`emit`]) whose getters and method wrappers
//! carry the recursive result transformers of [`transform`].  The
//! support types every emitted binding leans on live in [`runtime`];
//! [`ser`] renders a declaration back into tokens and text,
//! [`roundtrip`] proves that re-parsing a re-serialized declaration
//! gives it back unchanged, and [`derives`] describes the marshaling
//! implementations derived for host-defined types.

pub mod ast;
pub mod derives;
pub mod emit;
pub mod parse;
pub mod roundtrip;
pub mod ser;
pub mod runtime;
pub mod token;
pub mod transform;
pub mod validate;

use vstd::prelude::*;

use crate::emit::{sp_emit_object, BindingV, EmitError};
use crate::parse::{sp_parse_object, ParseError, ParseResultV};
use crate::token::{sp_lex, LexError};
use crate::validate::ValidateErrKind;

verus! {

/// Why a compilation failed.
#[derive(PartialEq, Eq, Debug)]
pub enum CompileError {
    /// A byte starts no token, or a string literal does not close.
    Lex(LexError),
    /// The tokens do not form a declaration of the grammar.
    Parse(ParseError),
    /// The declaration is rejected by the validator.
    Invalid(validate::ValidateError),
    /// The declaration asks for an unsupported emission.
    Emit(EmitError),
}

/// Outcome of compiling one declaration.
pub enum CompileResultV {
    /// The emitted binding.
    Binding(BindingV),
    /// Lexically malformed.
    LexFail,
    /// Syntactically malformed.
    SyntaxFail,
    /// The property list is rejected.
    InvalidProps(ValidateErrKind),
    /// Emission is unsupported for this declaration.
    EmitFail(EmitError),
}

/// Compile one declaration: tokenize, parse, validate, emit.
pub open spec fn sp_compile(src: Seq<u8>) -> CompileResultV {
    match sp_lex(src) {
        None => CompileResultV::LexFail,
        Some(toks) => match sp_parse_object(toks) {
            ParseResultV::Syntax => CompileResultV::SyntaxFail,
            ParseResultV::Invalid(k) => CompileResultV::InvalidProps(k),
            ParseResultV::Object(o) => match sp_emit_object(o) {
                Err(e) => CompileResultV::EmitFail(e),
                Ok(b) => CompileResultV::Binding(b),
            },
        },
    }
}

/// Compile one object declaration from source text to its typed
/// binding description.  A declaration either compiles fully or not at
/// all, and each stage's failure is told apart.
pub fn compile(src: &Vec<u8>) -> (r: Result<emit::Binding, CompileError>)
    ensures
        match r {
            Ok(b) => sp_compile(src@) == CompileResultV::Binding(b.deep_view()),
            Err(e) => match e {
                CompileError::Lex(_) => sp_compile(src@) == CompileResultV::LexFail,
                CompileError::Parse(_) => sp_compile(src@) == CompileResultV::SyntaxFail,
                CompileError::Invalid(ve) => sp_compile(src@) == CompileResultV::InvalidProps(
                    ve.kind,
                ),
                CompileError::Emit(ee) => sp_compile(src@) == CompileResultV::EmitFail(ee),
            },
        },
{
    let toks = match token::lex(src) {
        Ok(toks) => toks,
        Err(e) => {
            return Err(CompileError::Lex(e));
        },
    };
    let obj = match parse::parse_object(&toks) {
        Ok(o) => o,
        Err(ParseError::Invalid(ve)) => {
            return Err(CompileError::Invalid(ve));
        },
        Err(e) => {
            return Err(CompileError::Parse(e));
        },
    };
    match emit::emit_object(&obj) {
        Ok(b) => Ok(b),
        Err(e) => Err(CompileError::Emit(e)),
    }
}

/// Whatever declaration a source text compiles through, compiling the
/// rendering of its re-serialization leads to the same declaration and
/// so to the same emission outcome: the pipeline loses nothing on a
/// round trip through text.
pub proof fn lemma_recompile_reserialization(src: Seq<u8>)
    ensures
        sp_lex(src) matches Some(toks) ==> (sp_parse_object(toks)
            matches ParseResultV::Object(o) ==> sp_compile(
            ser::sp_render(ser::sp_tokens_object(o), 0),
        ) == (match sp_emit_object(o) {
            Ok(b) => CompileResultV::Binding(b),
            Err(e) => CompileResultV::EmitFail(e),
        })),
{
    roundtrip::lemma_source_roundtrip(src);
}

} // verus!
