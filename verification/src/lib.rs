//! A small ahead-of-time compiler from a C-like imperative language to
//! x86-64 assembly text: a lexer, a recursive-descent parser and a single-pass
//! code generator over a compile-time context.

pub mod ast;
pub mod codegen;
pub mod context;
pub mod grammar;
pub mod iter;
pub mod parser;
pub mod spacing;
pub mod text;
pub mod tokenize;
pub mod type_registry;

use crate::codegen::x86::{emit_program, Codegen, Emitter};
use crate::codegen::{CodegenError, CodegenErrorView};
use crate::context::{Context, ContextView};
use crate::grammar::{parse_program, ParseErrorView};
use crate::parser::{ParseError, Parser};
use crate::tokenize::{lex_all, Location, Token, TokenView, Tokenize, TokenizerError};
use crate::type_registry::{registry_of, TypeRegistry};
use vstd::prelude::*;
use vstd::string::StrSliceExecFns;

verus! {

/// Why a source was not compiled.
#[derive(Clone, Debug, PartialEq, Eq)]
pub enum CompileError {
    IdentifierNotDeclared(String),
    FunctionNotDeclared(String),
    ChangedImmutableVariable(String),
    UnexpectedToken(Token),
    UnrecognizedCharacter(char),
    /// The source ends where the grammar asks for a token.
    UnexpectedEnd,
    /// `break` or `continue` stood outside every loop.
    OutsideLoop,
    /// `return` stood where no function's frame is active.
    OutsideFunction,
    /// A value was to be taken from a scope that holds none.
    EmptyStack,
    /// The source, the symbolic stack or a label counter would leave its
    /// machine range.
    LimitExceeded,
}

/// The mathematical value of a [`CompileError`].
pub enum CompileErrorView {
    IdentifierNotDeclared(Seq<char>),
    FunctionNotDeclared(Seq<char>),
    ChangedImmutableVariable(Seq<char>),
    UnexpectedToken(TokenView),
    UnrecognizedCharacter(char),
    UnexpectedEnd,
    OutsideLoop,
    OutsideFunction,
    EmptyStack,
    LimitExceeded,
}

impl View for CompileError {
    type V = CompileErrorView;

    open spec fn view(&self) -> CompileErrorView {
        match self {
            CompileError::IdentifierNotDeclared(name) => CompileErrorView::IdentifierNotDeclared(
                name@,
            ),
            CompileError::FunctionNotDeclared(name) => CompileErrorView::FunctionNotDeclared(
                name@,
            ),
            CompileError::ChangedImmutableVariable(name) => {
                CompileErrorView::ChangedImmutableVariable(name@)
            },
            CompileError::UnexpectedToken(token) => CompileErrorView::UnexpectedToken(token@),
            CompileError::UnrecognizedCharacter(c) => CompileErrorView::UnrecognizedCharacter(*c),
            CompileError::UnexpectedEnd => CompileErrorView::UnexpectedEnd,
            CompileError::OutsideLoop => CompileErrorView::OutsideLoop,
            CompileError::OutsideFunction => CompileErrorView::OutsideFunction,
            CompileError::EmptyStack => CompileErrorView::EmptyStack,
            CompileError::LimitExceeded => CompileErrorView::LimitExceeded,
        }
    }
}

/// The compile error that a codegen error is.
pub open spec fn of_codegen(error: CodegenErrorView) -> CompileErrorView {
    match error {
        CodegenErrorView::IdentifierNotDeclared(name) => CompileErrorView::IdentifierNotDeclared(
            name,
        ),
        CodegenErrorView::ChangedImmutableVariable(name) => {
            CompileErrorView::ChangedImmutableVariable(name)
        },
        CodegenErrorView::FunctionNotDeclared(name) => CompileErrorView::FunctionNotDeclared(
            name,
        ),
        CodegenErrorView::OutsideLoop => CompileErrorView::OutsideLoop,
        CodegenErrorView::OutsideFunction => CompileErrorView::OutsideFunction,
        CodegenErrorView::EmptyStack => CompileErrorView::EmptyStack,
        CodegenErrorView::LimitExceeded => CompileErrorView::LimitExceeded,
    }
}

/// The compile error that a tokenizer error is.
pub open spec fn of_tokenizer(error: TokenizerError) -> CompileErrorView {
    match error {
        TokenizerError::UnrecognizedCharacter(c) => CompileErrorView::UnrecognizedCharacter(c),
    }
}

/// The compile error that a parse error is.
pub open spec fn of_parser(error: ParseErrorView) -> CompileErrorView {
    match error {
        ParseErrorView::UnexpectedToken(token) => CompileErrorView::UnexpectedToken(token),
        ParseErrorView::TokenizerError(error) => of_tokenizer(error),
        ParseErrorView::UnexpectedEnd => CompileErrorView::UnexpectedEnd,
    }
}

impl vstd::std_specs::convert::FromSpecImpl<CodegenError> for CompileError {
    open spec fn obeys_from_spec() -> bool {
        true
    }

    open spec fn from_spec(error: CodegenError) -> CompileError {
        match error {
            CodegenError::IdentifierNotDeclared(name) => CompileError::IdentifierNotDeclared(name),
            CodegenError::ChangedImmutableVariable(name) => {
                CompileError::ChangedImmutableVariable(name)
            },
            CodegenError::FunctionNotDeclared(name) => CompileError::FunctionNotDeclared(name),
            CodegenError::OutsideLoop => CompileError::OutsideLoop,
            CodegenError::OutsideFunction => CompileError::OutsideFunction,
            CodegenError::EmptyStack => CompileError::EmptyStack,
            CodegenError::LimitExceeded => CompileError::LimitExceeded,
        }
    }
}

impl From<CodegenError> for CompileError {
    fn from(error: CodegenError) -> (wrapped: Self)
        ensures
            wrapped@ == of_codegen(error@),
    {
        match error {
            CodegenError::IdentifierNotDeclared(name) => CompileError::IdentifierNotDeclared(name),
            CodegenError::ChangedImmutableVariable(name) => {
                CompileError::ChangedImmutableVariable(name)
            },
            CodegenError::FunctionNotDeclared(name) => CompileError::FunctionNotDeclared(name),
            CodegenError::OutsideLoop => CompileError::OutsideLoop,
            CodegenError::OutsideFunction => CompileError::OutsideFunction,
            CodegenError::EmptyStack => CompileError::EmptyStack,
            CodegenError::LimitExceeded => CompileError::LimitExceeded,
        }
    }
}

impl vstd::std_specs::convert::FromSpecImpl<TokenizerError> for CompileError {
    open spec fn obeys_from_spec() -> bool {
        true
    }

    open spec fn from_spec(error: TokenizerError) -> CompileError {
        match error {
            TokenizerError::UnrecognizedCharacter(c) => CompileError::UnrecognizedCharacter(c),
        }
    }
}

impl From<TokenizerError> for CompileError {
    fn from(error: TokenizerError) -> (wrapped: Self)
        ensures
            wrapped@ == of_tokenizer(error),
    {
        match error {
            TokenizerError::UnrecognizedCharacter(c) => CompileError::UnrecognizedCharacter(c),
        }
    }
}

impl vstd::std_specs::convert::FromSpecImpl<ParseError> for CompileError {
    open spec fn obeys_from_spec() -> bool {
        true
    }

    open spec fn from_spec(error: ParseError) -> CompileError {
        match error {
            ParseError::UnexpectedToken(token) => CompileError::UnexpectedToken(token),
            ParseError::TokenizerError(error) => match error {
                TokenizerError::UnrecognizedCharacter(c) => CompileError::UnrecognizedCharacter(c),
            },
            ParseError::UnexpectedEnd => CompileError::UnexpectedEnd,
        }
    }
}

impl From<ParseError> for CompileError {
    fn from(error: ParseError) -> (wrapped: Self)
        ensures
            wrapped@ == of_parser(error@),
    {
        match error {
            ParseError::UnexpectedToken(token) => CompileError::UnexpectedToken(token),
            ParseError::TokenizerError(error) => CompileError::from(error),
            ParseError::UnexpectedEnd => CompileError::UnexpectedEnd,
        }
    }
}

/// What compiling `source` comes to: the assembly text of the program that
/// `source` spells, generated over the registry of its functions from a
/// fresh context, or the first error on the way.
pub open spec fn compiled(source: Seq<char>) -> Result<Seq<char>, CompileErrorView> {
    if source.len() >= u64::MAX {
        Err(CompileErrorView::LimitExceeded)
    } else {
        match parse_program(lex_all(source, Location::start())) {
            Err(error) => Err(of_parser(error)),
            Ok(items) => {
                let emitted = emit_program(
                    items,
                    Emitter::start(ContextView::initial(registry_of(items))),
                );
                match emitted.error {
                    Some(error) => Err(of_codegen(error)),
                    None => Ok(emitted.text),
                }
            },
        }
    }
}

/// Compiles `source` to assembly text: lexes and parses it, collects the
/// signatures of its functions, and generates the code.
pub fn compile_source(source: &str) -> (assembly: Result<String, CompileError>)
    ensures
        match assembly {
            Ok(text) => compiled(source@) == Ok::<Seq<char>, CompileErrorView>(text@),
            Err(error) => compiled(source@) == Err::<Seq<char>, CompileErrorView>(error@),
        },
{
    let length = source.unicode_len();
    if length as u64 == u64::MAX {
        return Err(CompileError::LimitExceeded);
    }
    let tokens = source.tokenize();
    let mut parser = Parser::new(tokens);
    let tree = match parser.parse() {
        Ok(tree) => tree,
        Err(error) => {
            return Err(CompileError::from(error));
        },
    };
    let registry = TypeRegistry::from_program(&tree);
    let mut context = Context::new(registry);
    match tree.codegen_x86(&mut context) {
        Ok(text) => Ok(text),
        Err(error) => Err(CompileError::from(error)),
    }
}

} // verus!
