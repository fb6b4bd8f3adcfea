//! The decoder as a machine on sequences: what each step does to the tokens
//! that are left, to the stack of expectations and to the stack of finished
//! trees. The executable decoder is held to this description step by step.

use vstd::prelude::*;
use crate::context::ContextKind;
use crate::decode::NonTerm;
use crate::error::ErrorView;
use crate::extension::Extension;
use crate::extra_props::ExtData;
use crate::key::MiniscriptKey;
use crate::key::PublicKey;
use crate::lex::TokenView;
use crate::miniscript::MiniscriptView;
use crate::miniscript::TerminalView;
use crate::types::Type;

verus! {

/// A finished tree as the decoder holds it.
pub type Tree<Ext> = MiniscriptView<PublicKey, Ext>;

/// A fragment as the decoder builds it.
pub type Node<Ext> = TerminalView<PublicKey, Ext>;

/// The state of the decoder. The last token is the next to be read; the
/// last expectation is the next to be met; the last tree was finished last.
pub struct Machine<Ext> {
    pub tokens: Seq<TokenView>,
    pub non_term: Seq<NonTerm>,
    pub term: Seq<Tree<Ext>>,
}

/// What reading one expression does: the tokens that are left, the
/// expectations to add, first to last, and the leaf to reduce, if any.
pub struct Shift<Ext> {
    pub rest: Seq<TokenView>,
    pub push: Seq<NonTerm>,
    pub leaf: Option<Node<Ext>>,
}

/// The outcome of one step.
pub enum Step<Ext> {
    /// Decoding goes on in the given state.
    Next(Machine<Ext>),
    /// No expectation is left.
    Done,
    /// Decoding fails.
    Fail(ErrorView),
}

/// Reads the tokens of `pat` from position `i` on off the end of `tokens`,
/// one after the other, and gives the tokens before them. The first token
/// that differs is the error.
pub open spec fn expect(tokens: Seq<TokenView>, pat: Seq<TokenView>, i: int) -> Result<
    Seq<TokenView>,
    ErrorView,
>
    decreases pat.len() - i,
{
    if i < 0 || i >= pat.len() {
        Ok(tokens)
    } else if tokens.len() == 0 {
        Err(ErrorView::UnexpectedStart)
    } else if tokens.last() == pat[i] {
        expect(tokens.drop_last(), pat, i + 1)
    } else {
        Err(ErrorView::Unexpected(tokens.last()))
    }
}

/// The size check that opens a hash commitment, as it is read from the end.
pub open spec fn size_check() -> Seq<TokenView> {
    seq![TokenView::Verify, TokenView::Equal, TokenView::Num(32), TokenView::Size]
}

/// Whether the next token continues a sequence of `and_v`: any token but
/// those that open a branch or an alt-stack wrapper.
pub open spec fn and_v_follows(tokens: Seq<TokenView>) -> bool {
    tokens.len() > 0 && !(tokens.last() is If || tokens.last() is NotIf || tokens.last() is Else
        || tokens.last() is ToAltStack)
}

/// Reads `n` keys off the end of `tokens` and gives them in script order
/// with the tokens before them.
pub open spec fn take_keys(tokens: Seq<TokenView>, n: nat) -> Result<
    (Seq<PublicKey>, Seq<TokenView>),
    ErrorView,
>
    decreases n,
{
    if n == 0 {
        Ok((Seq::empty(), tokens))
    } else if tokens.len() == 0 {
        Err(ErrorView::UnexpectedStart)
    } else {
        match tokens.last() {
            TokenView::Pubkey(pk) => match take_keys(tokens.drop_last(), (n - 1) as nat) {
                Ok((keys, rest)) => Ok((keys.push(pk), rest)),
                Err(e) => Err(e),
            },
            other => Err(ErrorView::Unexpected(other)),
        }
    }
}

/// The shift that reduces the leaf `node`, below a `VERIFY` if `verify`.
pub open spec fn leaf_shift<Ext>(rest: Seq<TokenView>, node: Node<Ext>, verify: bool) -> Shift<Ext> {
    Shift {
        rest,
        push: if verify {
            seq![NonTerm::Verify]
        } else {
            Seq::empty()
        },
        leaf: Some(node),
    }
}

/// The shift that adds expectations and reduces nothing.
pub open spec fn push_shift<Ext>(rest: Seq<TokenView>, push: Seq<NonTerm>) -> Shift<Ext> {
    Shift { rest, push, leaf: None }
}

/// After `<hash> EQUAL` over 20 bytes: a key hash, or one of the two
/// commitments to a 20-byte digest.
pub open spec fn shift_hash20<Ext>(tokens: Seq<TokenView>, hash: [u8; 20], verify: bool) -> Result<
    Shift<Ext>,
    ErrorView,
> {
    if tokens.len() == 0 {
        Err(ErrorView::UnexpectedStart)
    } else {
        let t = tokens.drop_last();
        match tokens.last() {
            TokenView::Hash160 => if verify {
                if t.len() == 0 {
                    Err(ErrorView::UnexpectedStart)
                } else {
                    match t.last() {
                        TokenView::Dup => Ok(leaf_shift(t.drop_last(), TerminalView::PkH(hash), false)),
                        TokenView::Verify => match expect(t.drop_last(), size_check(), 1) {
                            Ok(rest) => Ok(leaf_shift(rest, TerminalView::Hash160(hash), true)),
                            Err(e) => Err(e),
                        },
                        other => Err(ErrorView::Unexpected(other)),
                    }
                }
            } else {
                match expect(t, size_check(), 0) {
                    Ok(rest) => Ok(leaf_shift(rest, TerminalView::Hash160(hash), false)),
                    Err(e) => Err(e),
                }
            },
            TokenView::Ripemd160 => match expect(t, size_check(), 0) {
                Ok(rest) => Ok(leaf_shift(rest, TerminalView::Ripemd160(hash), verify)),
                Err(e) => Err(e),
            },
            other => Err(ErrorView::Unexpected(other)),
        }
    }
}

/// After `<hash> EQUAL` over 32 bytes: one of the two commitments to a
/// 32-byte digest.
pub open spec fn shift_hash32<Ext>(tokens: Seq<TokenView>, hash: [u8; 32], verify: bool) -> Result<
    Shift<Ext>,
    ErrorView,
> {
    if tokens.len() == 0 {
        Err(ErrorView::UnexpectedStart)
    } else {
        let t = tokens.drop_last();
        match tokens.last() {
            TokenView::Sha256 => match expect(t, size_check(), 0) {
                Ok(rest) => Ok(leaf_shift(rest, TerminalView::Sha256(hash), verify)),
                Err(e) => Err(e),
            },
            TokenView::Hash256 => match expect(t, size_check(), 0) {
                Ok(rest) => Ok(leaf_shift(rest, TerminalView::Hash256(hash), verify)),
                Err(e) => Err(e),
            },
            other => Err(ErrorView::Unexpected(other)),
        }
    }
}

/// What precedes the prefix in a commitment to the outputs, as it is read from the end.
pub open spec fn outputs_head() -> Seq<TokenView> {
    seq![TokenView::Sub, TokenView::Num(4), TokenView::Depth, TokenView::Hash256, TokenView::Cat, TokenView::Swap]
}

/// The six `CAT` that open a commitment to the outputs.
pub open spec fn outputs_tail() -> Seq<TokenView> {
    seq![TokenView::Cat, TokenView::Cat, TokenView::Cat, TokenView::Cat, TokenView::Cat, TokenView::Cat]
}

/// What precedes the constant in a comparison of the version, as it is read from the end.
pub open spec fn version_head() -> Seq<TokenView> {
    seq![TokenView::Sub, TokenView::Num(12), TokenView::Depth]
}

/// After `PICK EQUAL`: a commitment to the outputs.
pub open spec fn shift_outputs<Ext>(tokens: Seq<TokenView>, verify: bool) -> Result<
    Shift<Ext>,
    ErrorView,
> {
    match expect(tokens, outputs_head(), 0) {
        Err(e) => Err(e),
        Ok(t) => if t.len() == 0 {
            Err(ErrorView::UnexpectedStart)
        } else {
            match t.last() {
                TokenView::Push(bytes) => match expect(t.drop_last(), outputs_tail(), 0) {
                    Ok(rest) => Ok(leaf_shift(rest, TerminalView::OutputsPref(bytes), verify)),
                    Err(e) => Err(e),
                },
                other => Err(ErrorView::Unexpected(other)),
            }
        },
    }
}

/// After `EQUAL`: a hash commitment, a key hash, a comparison of a
/// transaction item, or the count of a threshold. With `verify`, the
/// `EQUAL` was an `EQUALVERIFY`.
#[verifier::opaque]
pub open spec fn shift_equal<Ext>(tokens: Seq<TokenView>, verify: bool) -> Result<
    Shift<Ext>,
    ErrorView,
> {
    if tokens.len() == 0 {
        Err(ErrorView::UnexpectedStart)
    } else {
        let t = tokens.drop_last();
        match tokens.last() {
            TokenView::Hash20(hash) => shift_hash20(t, hash, verify),
            TokenView::Hash32(hash) => shift_hash32(t, hash, verify),
            TokenView::PickPush4(ver) => match expect(t, version_head(), 0) {
                Ok(rest) => Ok(leaf_shift(rest, TerminalView::Version(ver), verify)),
                Err(e) => Err(e),
            },
            TokenView::Pick => shift_outputs(t, verify),
            TokenView::Num(k) => Ok(
                push_shift(
                    t,
                    if verify {
                        seq![NonTerm::Verify, NonTerm::ThreshW { k: k as usize, n: 0 }]
                    } else {
                        seq![NonTerm::ThreshW { k: k as usize, n: 0 }]
                    },
                ),
            ),
            other => Err(ErrorView::Unexpected(other)),
        }
    }
}

/// After `CHECKMULTISIG`: the number of keys, the keys, and the threshold.
/// More keys than the opcode takes are an error of their own.
pub open spec fn shift_multi<Ext>(tokens: Seq<TokenView>) -> Result<Shift<Ext>, ErrorView> {
    if tokens.len() == 0 {
        Err(ErrorView::UnexpectedStart)
    } else {
        match tokens.last() {
            TokenView::Num(n) => if n > 20 {
                Err(ErrorView::CmsTooManyKeys(n))
            } else {
                match take_keys(tokens.drop_last(), n as nat) {
                    Err(e) => Err(e),
                    Ok((keys, t)) => if t.len() == 0 {
                        Err(ErrorView::UnexpectedStart)
                    } else {
                        match t.last() {
                            TokenView::Num(k) => Ok(
                                leaf_shift(
                                    t.drop_last(),
                                    TerminalView::Multi(k as usize, keys),
                                    false,
                                ),
                            ),
                            other => Err(ErrorView::Unexpected(other)),
                        }
                    },
                }
            },
            other => Err(ErrorView::Unexpected(other)),
        }
    }
}

/// After a timelock opcode: the number.
pub open spec fn shift_time<Ext>(tokens: Seq<TokenView>, relative: bool) -> Result<
    Shift<Ext>,
    ErrorView,
> {
    if tokens.len() == 0 {
        Err(ErrorView::UnexpectedStart)
    } else {
        match tokens.last() {
            TokenView::Num(n) => Ok(
                leaf_shift(
                    tokens.drop_last(),
                    if relative {
                        TerminalView::Older(n)
                    } else {
                        TerminalView::After(n)
                    },
                    false,
                ),
            ),
            other => Err(ErrorView::Unexpected(other)),
        }
    }
}

/// Reads one expression off the end of `tokens`: a whole leaf, or the last
/// tokens of a wrapper or combinator, whose parts then stand as expectations.
#[verifier::opaque]
pub open spec fn shift_expression<Ext>(tokens: Seq<TokenView>) -> Result<Shift<Ext>, ErrorView> {
    if tokens.len() == 0 {
        Err(ErrorView::UnexpectedStart)
    } else {
        let t = tokens.drop_last();
        match tokens.last() {
            TokenView::Pubkey(pk) => Ok(leaf_shift(t, TerminalView::PkK(pk), false)),
            TokenView::CheckSig => Ok(push_shift(t, seq![NonTerm::Check, NonTerm::Expression])),
            TokenView::Verify => if t.len() == 0 {
                Err(ErrorView::UnexpectedStart)
            } else if t.last() is Equal {
                shift_equal(t.drop_last(), true)
            } else {
                Ok(push_shift(t, seq![NonTerm::Verify, NonTerm::Expression]))
            },
            TokenView::ZeroNotEqual => Ok(
                push_shift(t, seq![NonTerm::ZeroNotEqual, NonTerm::Expression]),
            ),
            TokenView::CheckSequenceVerify => shift_time(t, true),
            TokenView::CheckLockTimeVerify => shift_time(t, false),
            TokenView::Equal => shift_equal(t, false),
            TokenView::FromAltStack => Ok(
                push_shift(
                    t,
                    seq![
                        NonTerm::Alt,
                        NonTerm::MaybeAndV,
                        NonTerm::MaybeSwap,
                        NonTerm::Expression,
                    ],
                ),
            ),
            TokenView::Num(n) => if n == 0 {
                Ok(leaf_shift(t, TerminalView::False, false))
            } else if n == 1 {
                Ok(leaf_shift(t, TerminalView::True, false))
            } else {
                Err(ErrorView::Unexpected(tokens.last()))
            },
            TokenView::EndIf => Ok(
                push_shift(
                    t,
                    seq![
                        NonTerm::EndIf,
                        NonTerm::MaybeAndV,
                        NonTerm::MaybeSwap,
                        NonTerm::Expression,
                    ],
                ),
            ),
            TokenView::BoolAnd => Ok(
                push_shift(
                    t,
                    seq![
                        NonTerm::AndB,
                        NonTerm::Expression,
                        NonTerm::MaybeSwap,
                        NonTerm::Expression,
                    ],
                ),
            ),
            TokenView::BoolOr => Ok(
                push_shift(
                    t,
                    seq![
                        NonTerm::OrB,
                        NonTerm::Expression,
                        NonTerm::MaybeSwap,
                        NonTerm::Expression,
                    ],
                ),
            ),
            TokenView::CheckMultiSig => shift_multi(t),
            other => Err(ErrorView::Unexpected(other)),
        }
    }
}

/// The typed tree of the fragment `node`, whose children are typed trees:
/// its type and its cost annotations are inferred, and the context is asked
/// for its global rules if `validate`.
#[verifier::opaque]
pub open spec fn reduce<Pk: MiniscriptKey, Ext: Extension<Pk>>(
    kind: ContextKind,
    node: TerminalView<Pk, Ext>,
    validate: bool,
) -> Result<MiniscriptView<Pk, Ext>, ErrorView> {
    match Type::infer(node, node.child_types()) {
        Err(e) => Err(ErrorView::TypeCheck(e)),
        Ok(ty) => match ExtData::infer(kind.sig_type(), node, node.child_exts()) {
            Err(e) => Err(ErrorView::TypeCheck(e)),
            Ok(ext) => {
                let tree = MiniscriptView { node, ty, ext };
                if validate {
                    match kind.global_validity(tree) {
                        Err(e) => Err(ErrorView::ContextError(e)),
                        Ok(()) => Ok(tree),
                    }
                } else {
                    Ok(tree)
                }
            },
        },
    }
}

/// The wrapper that an expectation builds around the tree `x`.
pub open spec fn wrap1<Pk, Ext>(tag: NonTerm, x: MiniscriptView<Pk, Ext>) -> TerminalView<Pk, Ext> {
    match tag {
        NonTerm::Alt => TerminalView::Alt(Box::new(x)),
        NonTerm::Check => TerminalView::Check(Box::new(x)),
        NonTerm::DupIf => TerminalView::DupIf(Box::new(x)),
        NonTerm::Verify => TerminalView::Verify(Box::new(x)),
        NonTerm::NonZero => TerminalView::NonZero(Box::new(x)),
        NonTerm::ZeroNotEqual => TerminalView::ZeroNotEqual(Box::new(x)),
        _ => TerminalView::Swap(Box::new(x)),
    }
}

/// The combinator that an expectation builds over the trees `l` and `r`.
pub open spec fn wrap2<Pk, Ext>(
    tag: NonTerm,
    l: MiniscriptView<Pk, Ext>,
    r: MiniscriptView<Pk, Ext>,
) -> TerminalView<Pk, Ext> {
    match tag {
        NonTerm::AndV => TerminalView::AndV(Box::new(l), Box::new(r)),
        NonTerm::AndB => TerminalView::AndB(Box::new(l), Box::new(r)),
        NonTerm::OrB => TerminalView::OrB(Box::new(l), Box::new(r)),
        NonTerm::OrC => TerminalView::OrC(Box::new(l), Box::new(r)),
        NonTerm::OrD => TerminalView::OrD(Box::new(l), Box::new(r)),
        _ => TerminalView::OrI(Box::new(l), Box::new(r)),
    }
}

/// The step that goes on with the trees `term`, or fails.
pub open spec fn with_term<Ext>(
    tokens: Seq<TokenView>,
    non_term: Seq<NonTerm>,
    term: Result<Seq<Tree<Ext>>, ErrorView>,
) -> Step<Ext> {
    match term {
        Ok(term) => Step::Next(Machine { tokens, non_term, term }),
        Err(e) => Step::Fail(e),
    }
}

/// Reduces `node` and puts the tree on `term`.
pub open spec fn reduce0<Pk: MiniscriptKey, Ext: Extension<Pk>>(
    kind: ContextKind,
    term: Seq<MiniscriptView<Pk, Ext>>,
    node: TerminalView<Pk, Ext>,
) -> Result<Seq<MiniscriptView<Pk, Ext>>, ErrorView> {
    match reduce(kind, node, true) {
        Ok(tree) => Ok(term.push(tree)),
        Err(e) => Err(e),
    }
}

/// Takes the last tree off `term`, wraps it and puts the wrapper on.
pub open spec fn reduce1<Pk: MiniscriptKey, Ext: Extension<Pk>>(
    kind: ContextKind,
    term: Seq<MiniscriptView<Pk, Ext>>,
    tag: NonTerm,
) -> Result<Seq<MiniscriptView<Pk, Ext>>, ErrorView> {
    if term.len() < 1 {
        Err(ErrorView::Inconsistent)
    } else {
        reduce0(kind, term.drop_last(), wrap1(tag, term.last()))
    }
}

/// Takes the last two trees off `term`, the last as the left child, and
/// puts the combinator over them on.
pub open spec fn reduce2<Pk: MiniscriptKey, Ext: Extension<Pk>>(
    kind: ContextKind,
    term: Seq<MiniscriptView<Pk, Ext>>,
    tag: NonTerm,
) -> Result<Seq<MiniscriptView<Pk, Ext>>, ErrorView> {
    if term.len() < 2 {
        Err(ErrorView::Inconsistent)
    } else {
        reduce0(
            kind,
            term.subrange(0, term.len() - 2),
            wrap2(tag, term[term.len() - 1], term[term.len() - 2]),
        )
    }
}

/// Takes the last three trees off `term`, the last as the condition and
/// the first as the branch that runs when it holds, and puts the `andor`
/// over them on.
pub open spec fn reduce3<Pk: MiniscriptKey, Ext: Extension<Pk>>(
    kind: ContextKind,
    term: Seq<MiniscriptView<Pk, Ext>>,
) -> Result<Seq<MiniscriptView<Pk, Ext>>, ErrorView> {
    if term.len() < 3 {
        Err(ErrorView::Inconsistent)
    } else {
        let n = term.len();
        match reduce(
            kind,
            TerminalView::AndOr(
                Box::new(term[n - 1]),
                Box::new(term[n - 3]),
                Box::new(term[n - 2]),
            ),
            true,
        ) {
            Ok(tree) => Ok(term.subrange(0, n - 3).push(tree)),
            Err(e) => Err(e),
        }
    }
}

/// The last `n` trees of `term`, the last first.
pub open spec fn top_first<Pk, Ext>(term: Seq<MiniscriptView<Pk, Ext>>, n: nat) -> Seq<
    MiniscriptView<Pk, Ext>,
> {
    Seq::new(n, |i: int| term[term.len() - 1 - i])
}

/// Takes the last `n` trees off `term`, which are the children of a
/// threshold from the left, and puts the threshold of `k` over them on.
pub open spec fn reduce_thresh<Pk: MiniscriptKey, Ext: Extension<Pk>>(
    kind: ContextKind,
    term: Seq<MiniscriptView<Pk, Ext>>,
    k: usize,
    n: usize,
) -> Result<Seq<MiniscriptView<Pk, Ext>>, ErrorView> {
    if term.len() < n {
        Err(ErrorView::Inconsistent)
    } else {
        reduce0(
            kind,
            term.subrange(0, term.len() - n),
            TerminalView::Thresh(k, top_first(term, n as nat)),
        )
    }
}

/// Meets the expectation of one expression.
pub open spec fn step_expression<Ext: Extension<PublicKey>>(
    kind: ContextKind,
    tokens: Seq<TokenView>,
    non_term: Seq<NonTerm>,
    term: Seq<Tree<Ext>>,
) -> Step<Ext> {
    match shift_expression::<Ext>(tokens) {
        Err(e) => Step::Fail(e),
        Ok(shift) => match shift.leaf {
            None => Step::Next(
                Machine { tokens: shift.rest, non_term: non_term + shift.push, term },
            ),
            Some(node) => with_term(
                shift.rest,
                non_term + shift.push,
                reduce0(kind, term, node),
            ),
        },
    }
}

/// Meets the expectation of a threshold that has read `n` children so far:
/// an `ADD` announces one more child and then another look; anything else
/// announces the first child.
pub open spec fn step_thresh<Ext>(
    tokens: Seq<TokenView>,
    non_term: Seq<NonTerm>,
    term: Seq<Tree<Ext>>,
    k: usize,
    n: usize,
) -> Step<Ext> {
    if tokens.len() == 0 {
        Step::Fail(ErrorView::UnexpectedStart)
    } else if n == usize::MAX {
        Step::Fail(ErrorView::TypeCheck(crate::types::ErrorKind::CostOverflow))
    } else if tokens.last() is Add {
        Step::Next(
            Machine {
                tokens: tokens.drop_last(),
                non_term: non_term + seq![
                    NonTerm::ThreshW { k, n: (n + 1) as usize },
                    NonTerm::MaybeSwap,
                    NonTerm::Expression,
                ],
                term,
            },
        )
    } else {
        Step::Next(
            Machine {
                tokens,
                non_term: non_term + seq![
                    NonTerm::ThreshE { k, n: (n + 1) as usize },
                    NonTerm::MaybeSwap,
                    NonTerm::Expression,
                ],
                term,
            },
        )
    }
}

/// Meets the expectation that `ENDIF` left: what opened the branch decides
/// which fragment it closes.
pub open spec fn step_end_if<Ext>(
    tokens: Seq<TokenView>,
    non_term: Seq<NonTerm>,
    term: Seq<Tree<Ext>>,
) -> Step<Ext> {
    if tokens.len() == 0 {
        Step::Fail(ErrorView::UnexpectedStart)
    } else {
        let t = tokens.drop_last();
        match tokens.last() {
            TokenView::Else => Step::Next(
                Machine {
                    tokens: t,
                    non_term: non_term + seq![
                        NonTerm::EndIfElse,
                        NonTerm::MaybeAndV,
                        NonTerm::MaybeSwap,
                        NonTerm::Expression,
                    ],
                    term,
                },
            ),
            TokenView::If => if t.len() == 0 {
                Step::Fail(ErrorView::UnexpectedStart)
            } else {
                match t.last() {
                    TokenView::Dup => Step::Next(
                        Machine {
                            tokens: t.drop_last(),
                            non_term: non_term.push(NonTerm::DupIf),
                            term,
                        },
                    ),
                    TokenView::ZeroNotEqual => match expect(t.drop_last(), seq![TokenView::Size], 0) {
                        Ok(rest) => Step::Next(
                            Machine {
                                tokens: rest,
                                non_term: non_term.push(NonTerm::NonZero),
                                term,
                            },
                        ),
                        Err(e) => Step::Fail(e),
                    },
                    other => Step::Fail(ErrorView::Unexpected(other)),
                }
            },
            TokenView::NotIf => Step::Next(
                Machine { tokens: t, non_term: non_term.push(NonTerm::EndIfNotIf), term },
            ),
            other => Step::Fail(ErrorView::Unexpected(other)),
        }
    }
}

/// One step of the decoder. An extension is asked first wherever an
/// expression is expected; otherwise the last expectation is met.
pub open spec fn step<Ext: Extension<PublicKey>>(kind: ContextKind, m: Machine<Ext>) -> Step<Ext> {
    if m.non_term.len() == 0 {
        Step::Done
    } else {
        let top = m.non_term.last();
        let rest = m.non_term.drop_last();
        if top is Expression && Ext::decode(m.tokens) is Some {
            let (e, tokens) = Ext::decode(m.tokens)->0;
            with_term(tokens, rest, reduce0(kind, m.term, TerminalView::Ext(e)))
        } else {
            match top {
                NonTerm::Expression => step_expression(kind, m.tokens, rest, m.term),
                NonTerm::MaybeAndV => if and_v_follows(m.tokens) {
                    Step::Next(
                        Machine {
                            tokens: m.tokens,
                            non_term: rest + seq![NonTerm::AndV, NonTerm::Expression],
                            term: m.term,
                        },
                    )
                } else {
                    Step::Next(Machine { tokens: m.tokens, non_term: rest, term: m.term })
                },
                NonTerm::MaybeSwap => if m.tokens.len() > 0 && m.tokens.last() is Swap {
                    with_term(
                        m.tokens.drop_last(),
                        rest.push(NonTerm::MaybeSwap),
                        reduce1(kind, m.term, NonTerm::MaybeSwap),
                    )
                } else {
                    Step::Next(Machine { tokens: m.tokens, non_term: rest, term: m.term })
                },
                NonTerm::Alt => match expect(m.tokens, seq![TokenView::ToAltStack], 0) {
                    Ok(tokens) => with_term(tokens, rest, reduce1(kind, m.term, NonTerm::Alt)),
                    Err(e) => Step::Fail(e),
                },
                NonTerm::Check
                | NonTerm::DupIf
                | NonTerm::Verify
                | NonTerm::NonZero
                | NonTerm::ZeroNotEqual => with_term(m.tokens, rest, reduce1(kind, m.term, top)),
                NonTerm::AndV => if and_v_follows(m.tokens) {
                    Step::Next(
                        Machine {
                            tokens: m.tokens,
                            non_term: rest + seq![NonTerm::AndV, NonTerm::MaybeAndV],
                            term: m.term,
                        },
                    )
                } else {
                    with_term(m.tokens, rest, reduce2(kind, m.term, NonTerm::AndV))
                },
                NonTerm::AndB | NonTerm::OrB | NonTerm::OrC | NonTerm::OrD => with_term(
                    m.tokens,
                    rest,
                    reduce2(kind, m.term, top),
                ),
                NonTerm::Tern => with_term(m.tokens, rest, reduce3(kind, m.term)),
                NonTerm::ThreshW { k, n } => step_thresh(m.tokens, rest, m.term, k, n),
                NonTerm::ThreshE { k, n } => with_term(
                    m.tokens,
                    rest,
                    reduce_thresh(kind, m.term, k, n),
                ),
                NonTerm::EndIf => step_end_if(m.tokens, rest, m.term),
                NonTerm::EndIfNotIf => if m.tokens.len() == 0 {
                    Step::Fail(ErrorView::UnexpectedStart)
                } else if m.tokens.last() is IfDup {
                    Step::Next(
                        Machine {
                            tokens: m.tokens.drop_last(),
                            non_term: rest + seq![NonTerm::OrD, NonTerm::Expression],
                            term: m.term,
                        },
                    )
                } else {
                    Step::Next(
                        Machine {
                            tokens: m.tokens,
                            non_term: rest + seq![NonTerm::OrC, NonTerm::Expression],
                            term: m.term,
                        },
                    )
                },
                NonTerm::EndIfElse => if m.tokens.len() == 0 {
                    Step::Fail(ErrorView::UnexpectedStart)
                } else {
                    match m.tokens.last() {
                        TokenView::If => with_term(
                            m.tokens.drop_last(),
                            rest,
                            reduce2(kind, m.term, NonTerm::EndIfElse),
                        ),
                        TokenView::NotIf => Step::Next(
                            Machine {
                                tokens: m.tokens.drop_last(),
                                non_term: rest + seq![NonTerm::Tern, NonTerm::Expression],
                                term: m.term,
                            },
                        ),
                        other => Step::Fail(ErrorView::Unexpected(other)),
                    }
                },
            }
        }
    }
}

/// How far the last expectation is from reading a token, given whether the
/// next token continues a sequence of `and_v`.
pub open spec fn weight(top: NonTerm, and_v: bool) -> nat {
    match top {
        NonTerm::Expression => 0,
        NonTerm::MaybeAndV => if and_v {
            2
        } else {
            3
        },
        _ => if and_v {
            4
        } else {
            3
        },
    }
}

/// A bound on the steps that the decoder makes before it reads a token.
pub open spec fn potential(non_term: Seq<NonTerm>, and_v: bool) -> nat {
    if non_term.len() == 0 {
        0
    } else {
        (non_term.len() - 1 + weight(non_term.last(), and_v)) as nat
    }
}

/// The state in which decoding starts: a swap and a sequence of `and_v`
/// may precede the one expression that is expected.
pub open spec fn start<Ext>(tokens: Seq<TokenView>) -> Machine<Ext> {
    Machine {
        tokens,
        non_term: seq![NonTerm::MaybeAndV, NonTerm::MaybeSwap, NonTerm::Expression],
        term: Seq::empty(),
    }
}

/// Reading a pattern never leaves more tokens, and leaves fewer where the
/// pattern is not exhausted.
pub proof fn lemma_expect_shorter(tokens: Seq<TokenView>, pat: Seq<TokenView>, i: int)
    ensures
        expect(tokens, pat, i) matches Ok(rest) ==> rest.len() <= tokens.len() && (0 <= i
            < pat.len() ==> rest.len() < tokens.len()),
    decreases pat.len() - i,
{
    if 0 <= i < pat.len() && tokens.len() > 0 && tokens.last() == pat[i] {
        lemma_expect_shorter(tokens.drop_last(), pat, i + 1);
    }
}

/// Reading keys never leaves more tokens.
pub proof fn lemma_take_keys_shorter(tokens: Seq<TokenView>, n: nat)
    ensures
        take_keys(tokens, n) matches Ok(r) ==> r.1.len() <= tokens.len(),
    decreases n,
{
    if n > 0 && tokens.len() > 0 {
        lemma_take_keys_shorter(tokens.drop_last(), (n - 1) as nat);
    }
}

/// What follows an `EQUAL` never leaves more tokens.
pub proof fn lemma_shift_equal_shorter<Ext>(tokens: Seq<TokenView>, verify: bool)
    ensures
        shift_equal::<Ext>(tokens, verify) matches Ok(s) ==> s.rest.len() <= tokens.len(),
{
    reveal(shift_equal);
    if tokens.len() > 0 {
        let t = tokens.drop_last();
        lemma_expect_shorter(t, version_head(), 0);
        lemma_expect_shorter(t, outputs_head(), 0);
        lemma_expect_shorter(t.drop_last(), size_check(), 0);
        if t.len() > 0 {
            lemma_expect_shorter(t.drop_last().drop_last(), size_check(), 1);
        }
        match expect(t, outputs_head(), 0) {
            Ok(u) => {
                if u.len() > 0 {
                    lemma_expect_shorter(u.drop_last(), outputs_tail(), 0);
                }
            },
            Err(_) => {},
        }
    }
}

/// Reading an expression leaves fewer tokens.
pub proof fn lemma_shift_shorter<Ext>(tokens: Seq<TokenView>)
    ensures
        shift_expression::<Ext>(tokens) matches Ok(s) ==> s.rest.len() < tokens.len(),
{
    reveal(shift_expression);
    if tokens.len() > 0 {
        let t = tokens.drop_last();
        lemma_shift_equal_shorter::<Ext>(t, false);
        if t.len() > 0 {
            lemma_shift_equal_shorter::<Ext>(t.drop_last(), true);
            match t.last() {
                TokenView::Num(n) => {
                    lemma_take_keys_shorter(t.drop_last(), n as nat);
                },
                _ => {},
            }
        }
    }
}

/// Each step that goes on either reads a token for good or comes closer to
/// the next read.
pub proof fn lemma_step_decreases<Ext: Extension<PublicKey>>(kind: ContextKind, m: Machine<Ext>)
    ensures
        step(kind, m) matches Step::Next(m2) ==> m2.tokens.len() < m.tokens.len() || (m2.tokens
            == m.tokens && potential(m2.non_term, and_v_follows(m2.tokens)) < potential(
            m.non_term,
            and_v_follows(m.tokens),
        )),
{
    if m.non_term.len() > 0 {
        let top = m.non_term.last();
        let rest = m.non_term.drop_last();
        if top is Expression && Ext::decode(m.tokens) is Some {
            Ext::lemma_decode(m.tokens);
        } else {
            lemma_shift_shorter::<Ext>(m.tokens);
            lemma_expect_shorter(m.tokens, seq![TokenView::ToAltStack], 0);
            if m.tokens.len() > 0 && m.tokens.drop_last().len() > 0 {
                lemma_expect_shorter(m.tokens.drop_last().drop_last(), seq![TokenView::Size], 0);
            }
        }
    }
}

/// Runs the decoder from the state `m` until no expectation is left or a
/// step fails, and gives the tree that is left with the tokens that were not
/// read. More or fewer trees than one at the end are an inconsistency.
pub open spec fn run<Ext: Extension<PublicKey>>(kind: ContextKind, m: Machine<Ext>) -> (
    Result<Tree<Ext>, ErrorView>,
    Seq<TokenView>,
)
    decreases m.tokens.len(), potential(m.non_term, and_v_follows(m.tokens)),
{
    match step(kind, m) {
        Step::Done => if m.term.len() == 1 {
            (Ok(m.term[0]), m.tokens)
        } else {
            (Err(ErrorView::Inconsistent), m.tokens)
        },
        Step::Fail(e) => (Err(e), m.tokens),
        Step::Next(m2) => {
            proof {
                lemma_step_decreases(kind, m);
            }
            run(kind, m2)
        },
    }
}

/// What the token stream `tokens` decodes to in the context `kind`: the
/// tree that the tokens at its end encode, held to the rules on a root, and
/// the tokens before them; or the error that ends decoding.
pub open spec fn decode<Ext: Extension<PublicKey>>(kind: ContextKind, tokens: Seq<TokenView>) -> (
    Result<Tree<Ext>, ErrorView>,
    Seq<TokenView>,
) {
    let (tree, rest) = run(kind, start::<Ext>(tokens));
    match tree {
        Err(e) => (Err(e), rest),
        Ok(tree) => match kind.top_level(tree) {
            Err(e) => (Err(e), rest),
            Ok(()) => (Ok(tree), rest),
        },
    }
}

} // verus!
