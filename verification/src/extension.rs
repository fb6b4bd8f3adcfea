//! Leaf fragments that a user of the library defines.

use vstd::prelude::*;
use crate::context::outcome;
use crate::context::ScriptContextError;
use crate::context::ScriptContextErrorView;
use crate::extra_props::ExtData;
use crate::lex::views;
use crate::lex::Token;
use crate::lex::TokenView;
use crate::lex::TokenIter;
use crate::types::Correctness;
use crate::types::Malleability;
use vstd::string::*;

verus! {

/// A leaf fragment beyond the fixed set. An implementation says how the
/// fragment is typed, what it costs, which tokens encode it and whether the
/// segwit context accepts it.
pub trait Extension<Pk>: Sized {
    /// The correctness type of the fragment.
    spec fn corr(&self) -> Correctness;

    /// The malleability type of the fragment.
    spec fn mall(&self) -> Malleability;

    /// The cost annotations of the fragment.
    spec fn extra(&self) -> ExtData;

    /// The tokens that encode the fragment, in script order.
    spec fn script_tokens(&self) -> Seq<TokenView>;

    /// What the segwit context says of the fragment.
    spec fn segwit_outcome(&self) -> Result<(), ScriptContextErrorView>;

    /// The fragment at the end of `tokens` and the tokens before it, if there is one.
    spec fn decode(tokens: Seq<TokenView>) -> Option<(Self, Seq<TokenView>)>;

    /// A decoded fragment is encoded by the tokens that were taken, and takes at least one.
    proof fn lemma_decode(tokens: Seq<TokenView>)
        ensures
            Self::decode(tokens) matches Some((e, rest)) ==> rest + e.script_tokens() == tokens
                && e.script_tokens().len() > 0,
    ;

    /// A fragment at the end of a stream is found whatever stands before
    /// the stream; and where none is found there, a fragment at the end of
    /// a longer stream reaches into what stands before.
    proof fn lemma_decode_local(before: Seq<TokenView>, tokens: Seq<TokenView>)
        ensures
            match Self::decode(tokens) {
                Some((e, rest)) => Self::decode(before + tokens) == Some((e, before + rest)),
                None => (Self::decode(before + tokens) matches Some((e, rest)) ==> rest.len()
                    < before.len()),
            },
    ;

    /// The correctness type of the fragment.
    fn corr_prop(&self) -> (r: Correctness)
        ensures
            r == self.corr(),
    ;

    /// The malleability type of the fragment.
    fn mall_prop(&self) -> (r: Malleability)
        ensures
            r == self.mall(),
    ;

    /// The cost annotations of the fragment.
    fn extra_prop(&self) -> (r: ExtData)
        ensures
            r == self.extra(),
    ;

    /// The tokens that encode the fragment, in script order.
    fn tokens(&self) -> (r: Vec<Token>)
        ensures
            views(r@) == self.script_tokens(),
    ;

    /// Whether the segwit context accepts the fragment.
    fn segwit_ctx_checks(&self) -> (r: Result<(), ScriptContextError>)
        ensures
            outcome(r) == self.segwit_outcome(),
    ;

    /// Reads a fragment from the end of `tokens`. Takes the tokens of the
    /// fragment on success and leaves the stream as it was on failure.
    fn from_token_iter(tokens: &mut TokenIter) -> (r: Result<Self, ()>)
        ensures
            match Self::decode(old(tokens)@) {
                Some((e, rest)) => r == Ok::<Self, ()>(e) && final(tokens)@ == rest,
                None => r is Err && final(tokens)@ == old(tokens)@,
            },
    ;
}

/// The extension that defines no fragment.
#[derive(Clone, Copy, Debug, PartialEq, Eq, Structural, PartialOrd, Ord, Hash)]
pub struct NoExt;

impl<Pk> Extension<Pk> for NoExt {
    open spec fn corr(&self) -> Correctness {
        Correctness::from_false_spec()
    }

    open spec fn mall(&self) -> Malleability {
        Malleability::from_false_spec()
    }

    open spec fn extra(&self) -> ExtData {
        crate::extra_props::Costs::from_false().narrow()
    }

    open spec fn script_tokens(&self) -> Seq<TokenView> {
        seq![TokenView::Num(0)]
    }

    open spec fn segwit_outcome(&self) -> Result<(), ScriptContextErrorView> {
        Err(ScriptContextErrorView::ExtensionError("No extension is defined"@))
    }

    open spec fn decode(tokens: Seq<TokenView>) -> Option<(Self, Seq<TokenView>)> {
        None
    }

    proof fn lemma_decode(tokens: Seq<TokenView>) {
    }

    proof fn lemma_decode_local(before: Seq<TokenView>, tokens: Seq<TokenView>) {
    }

    fn corr_prop(&self) -> (r: Correctness) {
        Correctness::from_false()
    }

    fn mall_prop(&self) -> (r: Malleability) {
        Malleability::from_false()
    }

    fn extra_prop(&self) -> (r: ExtData) {
        let e = ExtData::from_false();
        proof {
            e.lemma_view_checked();
        }
        e
    }

    fn tokens(&self) -> (r: Vec<Token>) {
        let r = vec![Token::Num(0)];
        proof {
            assert(views(r@) =~= seq![TokenView::Num(0)]);
        }
        r
    }

    fn segwit_ctx_checks(&self) -> (r: Result<(), ScriptContextError>) {
        Err(ScriptContextError::ExtensionError(String::from_str("No extension is defined")))
    }

    fn from_token_iter(tokens: &mut TokenIter) -> (r: Result<Self, ()>) {
        Err(())
    }
}

} // verus!
