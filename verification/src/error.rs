//! The errors of decoding.

use vstd::prelude::*;
use crate::context::ScriptContextError;
use crate::context::ScriptContextErrorView;
use crate::lex::Token;
use crate::lex::TokenView;
use crate::types::Base;
use crate::types::ErrorKind;

verus! {

/// Why a token stream does not decode to a tree.
#[derive(Clone, PartialEq, Eq, Debug)]
pub enum Error {
    /// A token that no production expects at its place; holds the token.
    Unexpected(Token),
    /// The stream ended inside a production.
    UnexpectedStart,
    /// A `CHECKMULTISIG` over more keys than the opcode takes; holds the count.
    CmsTooManyKeys(u32),
    /// The root of the tree is not of base type `B`; holds its base type.
    NonTopLevel(Base),
    /// The tree is none of the few forms that are standard as a bare script.
    NonStandardBareScript,
    /// A fragment has no type.
    TypeCheck(ErrorKind),
    /// The context refuses a fragment.
    ContextError(ScriptContextError),
    /// The stacks of the decoder do not hold what a reduction needs.
    Inconsistent,
}

/// An [`Error`] with its texts as sequences of characters.
pub enum ErrorView {
    Unexpected(TokenView),
    UnexpectedStart,
    CmsTooManyKeys(u32),
    NonTopLevel(Base),
    NonStandardBareScript,
    TypeCheck(ErrorKind),
    ContextError(ScriptContextErrorView),
    Inconsistent,
}

impl View for Error {
    type V = ErrorView;

    open spec fn view(&self) -> ErrorView {
        match self {
            Error::Unexpected(t) => ErrorView::Unexpected(t@),
            Error::UnexpectedStart => ErrorView::UnexpectedStart,
            Error::CmsTooManyKeys(n) => ErrorView::CmsTooManyKeys(*n),
            Error::NonTopLevel(b) => ErrorView::NonTopLevel(*b),
            Error::NonStandardBareScript => ErrorView::NonStandardBareScript,
            Error::TypeCheck(e) => ErrorView::TypeCheck(*e),
            Error::ContextError(e) => ErrorView::ContextError(e@),
            Error::Inconsistent => ErrorView::Inconsistent,
        }
    }
}

} // verus!
