//! Code generation: the tree turned into assembly text.

use vstd::prelude::*;

pub mod balance;
pub mod x86;

verus! {

/// Why code generation stopped.
#[derive(Clone, Debug, PartialEq, Eq)]
pub enum CodegenError {
    /// A name was used that no active scope declares.
    IdentifierNotDeclared(String),
    /// A binding that was not declared `mut` was assigned to.
    ChangedImmutableVariable(String),
    /// A function was called or entered that the registry does not hold.
    FunctionNotDeclared(String),
    /// `break` or `continue` stood outside every loop.
    OutsideLoop,
    /// `return` stood where no function's frame is active.
    OutsideFunction,
    /// A value was to be taken from a scope that holds none.
    EmptyStack,
    /// The symbolic stack or a label counter would leave its machine range.
    LimitExceeded,
}

/// The mathematical value of a [`CodegenError`].
pub enum CodegenErrorView {
    IdentifierNotDeclared(Seq<char>),
    ChangedImmutableVariable(Seq<char>),
    FunctionNotDeclared(Seq<char>),
    OutsideLoop,
    OutsideFunction,
    EmptyStack,
    LimitExceeded,
}

impl View for CodegenError {
    type V = CodegenErrorView;

    open spec fn view(&self) -> CodegenErrorView {
        match self {
            CodegenError::IdentifierNotDeclared(name) => CodegenErrorView::IdentifierNotDeclared(
                name@,
            ),
            CodegenError::ChangedImmutableVariable(name) => {
                CodegenErrorView::ChangedImmutableVariable(name@)
            },
            CodegenError::FunctionNotDeclared(name) => CodegenErrorView::FunctionNotDeclared(
                name@,
            ),
            CodegenError::OutsideLoop => CodegenErrorView::OutsideLoop,
            CodegenError::OutsideFunction => CodegenErrorView::OutsideFunction,
            CodegenError::EmptyStack => CodegenErrorView::EmptyStack,
            CodegenError::LimitExceeded => CodegenErrorView::LimitExceeded,
        }
    }
}

} // verus!
