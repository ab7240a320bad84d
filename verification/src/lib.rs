//! Front end and C++ lowering for Gem, a small class-oriented language.
//!
//! The pipeline runs leaves first: [`lexer`] turns text into tokens,
//! [`parser`] turns tokens into a syntax tree, [`checker`] validates the
//! declared types of variables, and [`emitter`] lowers the tree to a C++
//! translation unit. [`Gemstone`](gemstone::Gemstone) ties the phases
//! together and keeps the tables of declared classes and variables.
use vstd::prelude::*;
use crate::emitter::compile_program;
use crate::grammar::{parse_tokens, ParseError, ParseErrorView};
use crate::lexer::{lex_tokens, tokenize, LexError};
use crate::lowering::{program_text, EmitError};
use crate::parser::parse_program;

pub mod ast;
pub mod checker;
pub mod emitter;
pub mod gemstone;
pub mod grammar;
pub mod laws;
pub mod lex_laws;
pub mod lexer;
pub mod lowering;
pub mod parse_laws;
pub mod parser;
pub mod scope;
pub mod shift_laws;
pub mod table;
pub mod text;
pub mod token;
pub mod typing;

verus! {

/// Why a source text has no translation unit: the error of the phase
/// that stopped.
#[derive(Debug, PartialEq)]
pub enum CompileError {
    Lex(LexError),
    Parse(ParseError),
    Emit(EmitError),
}

/// The mathematical value of a [`CompileError`].
pub enum CompileErrorView {
    Lex(LexError),
    Parse(ParseErrorView),
    Emit(EmitError),
}

impl View for CompileError {
    type V = CompileErrorView;

    open spec fn view(&self) -> CompileErrorView {
        match self {
            CompileError::Lex(e) => CompileErrorView::Lex(*e),
            CompileError::Parse(e) => CompileErrorView::Parse(e@),
            CompileError::Emit(e) => CompileErrorView::Emit(*e),
        }
    }
}

/// The C++ translation unit of a source text: the text of the trees of
/// its tokens, or the error of the first phase that fails.
pub open spec fn lowered(source: Seq<char>) -> Result<Seq<char>, CompileErrorView> {
    match lex_tokens(source) {
        Err(e) => Err(CompileErrorView::Lex(e)),
        Ok(tokens) => match parse_tokens(tokens) {
            Err(e) => Err(CompileErrorView::Parse(e)),
            Ok(exprs) => match program_text(exprs) {
                Err(e) => Err(CompileErrorView::Emit(e)),
                Ok(text) => Ok(text),
            },
        },
    }
}

/// What [`lower_source`] returned, taken by its view.
pub open spec fn lowered_view(r: Result<String, CompileError>) -> Result<
    Seq<char>,
    CompileErrorView,
> {
    match r {
        Ok(text) => Ok(text@),
        Err(e) => Err(e@),
    }
}

/// Runs the whole pipeline on `source`: lexes it, parses the tokens and
/// lowers the trees.
pub fn lower_source(source: &str) -> (r: Result<String, CompileError>)
    ensures
        lowered_view(r) == lowered(source@),
{
    let tokens = match tokenize(source) {
        Ok(tokens) => tokens,
        Err(e) => {
            return Err(CompileError::Lex(e));
        },
    };
    let exprs = match parse_program(&tokens) {
        Ok(exprs) => exprs,
        Err(e) => {
            return Err(CompileError::Parse(e));
        },
    };
    match compile_program(&exprs) {
        Ok(text) => Ok(text),
        Err(e) => Err(CompileError::Emit(e)),
    }
}

} // verus!
