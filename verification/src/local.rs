//! Why decoding looks at nothing but what it reads: the tokens of a
//! decoded tree decode to the same tree wherever they stand.

use vstd::prelude::*;
use crate::context::ContextKind;
use crate::decode::NonTerm;
use crate::error::ErrorView;
use crate::extension::Extension;
use crate::key::PublicKey;
use crate::lex::TokenView;
use crate::machine::and_v_follows;
use crate::machine::decode;
use crate::machine::expect;
use crate::machine::lemma_expect_shorter;
use crate::machine::lemma_take_keys_shorter;
use crate::machine::outputs_head;
use crate::machine::outputs_tail;
use crate::machine::shift_equal;
use crate::machine::shift_hash20;
use crate::machine::shift_hash32;
use crate::machine::shift_multi;
use crate::machine::shift_outputs;
use crate::machine::size_check;
use crate::machine::take_keys;
use crate::machine::version_head;
use crate::machine::Shift;
use crate::machine::lemma_shift_shorter;
use crate::machine::lemma_step_decreases;
use crate::machine::potential;
use crate::machine::run;
use crate::machine::shift_expression;
use crate::machine::start;
use crate::machine::step;
use crate::machine::Machine;
use crate::machine::Step;
use crate::machine::Tree;
use crate::sound::lemma_decode_sound;
use crate::sound::lemma_expect_one;
use crate::sound::lemma_shift_expression;

verus! {

/// Whether the expectation reads at least one token before it is met.
pub open spec fn reads(x: NonTerm) -> nat {
    match x {
        NonTerm::Expression
        | NonTerm::ThreshW { .. }
        | NonTerm::Alt
        | NonTerm::EndIf
        | NonTerm::EndIfNotIf
        | NonTerm::EndIfElse => 1,
        _ => 0,
    }
}

/// A lower bound on the tokens that the expectations read before they are met.
pub open spec fn need(non_term: Seq<NonTerm>) -> nat
    decreases non_term.len(),
{
    if non_term.len() == 0 {
        0
    } else {
        need(non_term.drop_last()) + reads(non_term.last())
    }
}

/// Whether `a` is the beginning of `b`.
pub open spec fn begins(a: Seq<TokenView>, b: Seq<TokenView>) -> bool {
    a.len() <= b.len() && a == b.subrange(0, a.len() as int)
}

/// One more expectation needs what it reads.
pub proof fn lemma_need_push(non_term: Seq<NonTerm>, x: NonTerm)
    ensures
        need(non_term.push(x)) == need(non_term) + reads(x),
{
    assert(non_term.push(x).drop_last() =~= non_term);
}

/// Expectations that are added need what they read.
pub proof fn lemma_need_add(a: Seq<NonTerm>, b: Seq<NonTerm>)
    ensures
        need(a + b) == need(a) + need(b),
    decreases b.len(),
{
    if b.len() == 0 {
        assert(a + b =~= a);
    } else {
        lemma_need_add(a, b.drop_last());
        assert((a + b).drop_last() =~= a + b.drop_last());
    }
}

/// What two, three and four expectations need.
pub proof fn lemma_need_some(a: NonTerm, b: NonTerm, c: NonTerm, d: NonTerm)
    ensures
        need(seq![a]) == reads(a),
        need(seq![a, b]) == reads(a) + reads(b),
        need(seq![a, b, c]) == reads(a) + reads(b) + reads(c),
        need(seq![a, b, c, d]) == reads(a) + reads(b) + reads(c) + reads(d),
{
    let none = Seq::<NonTerm>::empty();
    lemma_need_push(none, a);
    lemma_need_push(none.push(a), b);
    lemma_need_push(none.push(a).push(b), c);
    lemma_need_push(none.push(a).push(b).push(c), d);
    assert(seq![a] =~= none.push(a));
    assert(seq![a, b] =~= none.push(a).push(b));
    assert(seq![a, b, c] =~= none.push(a).push(b).push(c));
    assert(seq![a, b, c, d] =~= none.push(a).push(b).push(c).push(d));
}

/// Whether the step `s` from the state `m` reads from the end of the
/// stream and reads at least what the expectations that it meets needed.
pub open spec fn pays<Ext>(m: Machine<Ext>, s: Step<Ext>) -> bool {
    s matches Step::Next(m2) ==> begins(m2.tokens, m.tokens) && need(m.non_term)
        + m2.tokens.len() <= need(m2.non_term) + m.tokens.len()
}

/// A stream begins with itself and with itself less its last token.
pub proof fn lemma_begins(tokens: Seq<TokenView>)
    ensures
        begins(tokens, tokens),
        tokens.len() > 0 ==> begins(tokens.drop_last(), tokens),
        tokens.len() > 1 ==> begins(tokens.drop_last().drop_last(), tokens),
        tokens.len() > 2 ==> begins(tokens.drop_last().drop_last().drop_last(), tokens),
{
    assert(tokens =~= tokens.subrange(0, tokens.len() as int));
    if tokens.len() > 0 {
        assert(tokens.drop_last() =~= tokens.subrange(0, tokens.len() - 1));
    }
    if tokens.len() > 1 {
        assert(tokens.drop_last().drop_last() =~= tokens.subrange(0, tokens.len() - 2));
    }
    if tokens.len() > 2 {
        assert(tokens.drop_last().drop_last().drop_last() =~= tokens.subrange(
            0,
            tokens.len() - 3,
        ));
    }
}

/// A stream begins with what stands before its end.
pub proof fn lemma_begins_front(front: Seq<TokenView>, back: Seq<TokenView>)
    ensures
        begins(front, front + back),
{
    assert(front =~= (front + back).subrange(0, front.len() as int));
}

/// Reading an expression pays for it.
pub proof fn lemma_pays_expression<Ext: Extension<PublicKey>>(kind: ContextKind, m: Machine<Ext>)
    requires
        m.non_term.len() > 0,
        m.non_term.last() is Expression,
    ensures
        pays(m, step(kind, m)),
{
    let rest = m.non_term.drop_last();
    if Ext::decode(m.tokens) is Some {
        Ext::lemma_decode(m.tokens);
        let (e, tokens) = Ext::decode(m.tokens)->0;
        lemma_begins_front(tokens, e.script_tokens());
    } else {
        lemma_shift_expression::<Ext>(m.tokens);
        lemma_shift_shorter::<Ext>(m.tokens);
        match shift_expression::<Ext>(m.tokens) {
            Ok(s) => {
                assert(m.tokens + Seq::<TokenView>::empty() =~= m.tokens);
                lemma_begins_front(s.rest, crate::sound::shift_text(s));
                lemma_need_add(rest, s.push);
            },
            Err(_) => {},
        }
    }
}

/// The steps that read one token at most pay for it.
pub proof fn lemma_pays_one<Ext: Extension<PublicKey>>(kind: ContextKind, m: Machine<Ext>)
    requires
        m.non_term.len() > 0,
        !(m.non_term.last() is Expression),
        !(m.non_term.last() is EndIf),
    ensures
        pays(m, step(kind, m)),
{
    let top = m.non_term.last();
    let rest = m.non_term.drop_last();
    lemma_begins(m.tokens);
    lemma_expect_one(m.tokens, TokenView::ToAltStack);
    lemma_need_push(rest, NonTerm::MaybeSwap);
    lemma_need_add(rest, seq![NonTerm::AndV, NonTerm::Expression]);
    lemma_need_add(rest, seq![NonTerm::AndV, NonTerm::MaybeAndV]);
    lemma_need_add(rest, seq![NonTerm::OrD, NonTerm::Expression]);
    lemma_need_add(rest, seq![NonTerm::OrC, NonTerm::Expression]);
    lemma_need_add(rest, seq![NonTerm::Tern, NonTerm::Expression]);
    lemma_need_some(NonTerm::AndV, NonTerm::Expression, NonTerm::Expression, NonTerm::Expression);
    lemma_need_some(NonTerm::AndV, NonTerm::MaybeAndV, NonTerm::Expression, NonTerm::Expression);
    lemma_need_some(NonTerm::OrD, NonTerm::Expression, NonTerm::Expression, NonTerm::Expression);
    lemma_need_some(NonTerm::OrC, NonTerm::Expression, NonTerm::Expression, NonTerm::Expression);
    lemma_need_some(NonTerm::Tern, NonTerm::Expression, NonTerm::Expression, NonTerm::Expression);
    match top {
        NonTerm::ThreshW { k, n } => {
            if n < usize::MAX {
                let more = (n + 1) as usize;
                let w = NonTerm::ThreshW { k, n: more };
                let e = NonTerm::ThreshE { k, n: more };
                lemma_need_add(rest, seq![w, NonTerm::MaybeSwap, NonTerm::Expression]);
                lemma_need_add(rest, seq![e, NonTerm::MaybeSwap, NonTerm::Expression]);
                lemma_need_some(w, NonTerm::MaybeSwap, NonTerm::Expression, NonTerm::Expression);
                lemma_need_some(e, NonTerm::MaybeSwap, NonTerm::Expression, NonTerm::Expression);
            }
        },
        _ => {},
    }
}

/// What opened a branch pays for what it reads.
pub proof fn lemma_pays_end_if<Ext: Extension<PublicKey>>(kind: ContextKind, m: Machine<Ext>)
    requires
        m.non_term.len() > 0,
        m.non_term.last() is EndIf,
    ensures
        pays(m, step(kind, m)),
{
    let rest = m.non_term.drop_last();
    lemma_begins(m.tokens);
    lemma_need_push(rest, NonTerm::DupIf);
    lemma_need_push(rest, NonTerm::NonZero);
    lemma_need_push(rest, NonTerm::EndIfNotIf);
    let push = seq![
        NonTerm::EndIfElse,
        NonTerm::MaybeAndV,
        NonTerm::MaybeSwap,
        NonTerm::Expression,
    ];
    lemma_need_add(rest, push);
    lemma_need_some(
        NonTerm::EndIfElse,
        NonTerm::MaybeAndV,
        NonTerm::MaybeSwap,
        NonTerm::Expression,
    );
    if m.tokens.len() > 1 {
        lemma_expect_one(m.tokens.drop_last().drop_last(), TokenView::Size);
    }
}

/// Every step pays for what it reads.
pub proof fn lemma_pays<Ext: Extension<PublicKey>>(kind: ContextKind, m: Machine<Ext>)
    ensures
        pays(m, step(kind, m)),
{
    if m.non_term.len() > 0 {
        if m.non_term.last() is Expression {
            lemma_pays_expression(kind, m);
        } else if m.non_term.last() is EndIf {
            lemma_pays_end_if(kind, m);
        } else {
            lemma_pays_one(kind, m);
        }
    }
}

/// A run that ends in a tree leaves a beginning of the stream, and reads
/// at least what the expectations need.
pub proof fn lemma_run_need<Ext: Extension<PublicKey>>(kind: ContextKind, m: Machine<Ext>)
    ensures
        run(kind, m).0 is Ok ==> begins(run(kind, m).1, m.tokens) && run(kind, m).1.len() + need(
            m.non_term,
        ) <= m.tokens.len(),
    decreases m.tokens.len(), potential(m.non_term, and_v_follows(m.tokens)),
{
    lemma_pays(kind, m);
    lemma_begins(m.tokens);
    match step(kind, m) {
        Step::Next(m2) => {
            lemma_step_decreases(kind, m);
            lemma_run_need(kind, m2);
            if run(kind, m).0 is Ok {
                let left = run(kind, m).1;
                assert(left =~= m.tokens.subrange(0, left.len() as int));
            }
        },
        _ => {},
    }
}

/// The stream without its first `p` tokens.
pub open spec fn cut(tokens: Seq<TokenView>, p: int) -> Seq<TokenView> {
    tokens.subrange(p, tokens.len() as int)
}

/// The shift that leaves the tokens of `s` without their first `p`.
pub open spec fn relocate<Ext>(s: Shift<Ext>, p: int) -> Shift<Ext> {
    Shift { rest: cut(s.rest, p), push: s.push, leaf: s.leaf }
}

/// The end of a stream is the end of what is left of it without a beginning.
pub proof fn lemma_cut(tokens: Seq<TokenView>, p: int)
    requires
        0 <= p < tokens.len(),
    ensures
        cut(tokens, p).len() > 0,
        cut(tokens, p).last() == tokens.last(),
        cut(tokens, p).drop_last() == cut(tokens.drop_last(), p),
{
    assert(cut(tokens, p).drop_last() =~= cut(tokens.drop_last(), p));
}

/// A pattern is read off a stream as it is read off the stream without a
/// beginning that the read does not reach.
pub proof fn lemma_expect_local(tokens: Seq<TokenView>, p: int, pat: Seq<TokenView>, i: int)
    requires
        0 <= p <= tokens.len(),
        expect(tokens, pat, i) matches Ok(rest) && rest.len() >= p,
    ensures
        expect(cut(tokens, p), pat, i) == Ok::<Seq<TokenView>, ErrorView>(
            cut(expect(tokens, pat, i)->Ok_0, p),
        ),
    decreases pat.len() - i,
{
    if 0 <= i < pat.len() {
        lemma_expect_shorter(tokens.drop_last(), pat, i + 1);
        lemma_cut(tokens, p);
        lemma_expect_local(tokens.drop_last(), p, pat, i + 1);
    }
}

/// Keys are read off a stream as they are read off the stream without a
/// beginning that the read does not reach.
pub proof fn lemma_take_keys_local(tokens: Seq<TokenView>, p: int, n: nat)
    requires
        0 <= p <= tokens.len(),
        take_keys(tokens, n) matches Ok(r) && r.1.len() >= p,
    ensures
        take_keys(cut(tokens, p), n) == Ok::<(Seq<PublicKey>, Seq<TokenView>), ErrorView>(
            (take_keys(tokens, n)->Ok_0.0, cut(take_keys(tokens, n)->Ok_0.1, p)),
        ),
    decreases n,
{
    if n > 0 {
        lemma_take_keys_shorter(tokens.drop_last(), (n - 1) as nat);
        lemma_cut(tokens, p);
        lemma_take_keys_local(tokens.drop_last(), p, (n - 1) as nat);
    }
}

/// Whether the shift `far` off a stream is the shift `near` off the stream
/// without its first `p` tokens, wherever `far` does not reach them and
/// leaves a token to each expectation that reads one at once.
pub open spec fn same_shift<Ext>(
    far: Result<Shift<Ext>, ErrorView>,
    near: Result<Shift<Ext>, ErrorView>,
    p: int,
) -> bool {
    far matches Ok(s) ==> (s.rest.len() >= p + (if need(s.push) > 0 {
        1int
    } else {
        0int
    }) ==> near == Ok::<Shift<Ext>, ErrorView>(relocate(s, p)))
}

/// After `<hash> EQUAL` over 20 bytes.
pub proof fn lemma_hash20_local<Ext>(tokens: Seq<TokenView>, p: int, hash: [u8; 20], verify: bool)
    requires
        0 <= p <= tokens.len(),
    ensures
        same_shift(
            shift_hash20::<Ext>(tokens, hash, verify),
            shift_hash20::<Ext>(cut(tokens, p), hash, verify),
            p,
        ),
{
    match shift_hash20::<Ext>(tokens, hash, verify) {
        Ok(s) => {
            if s.rest.len() >= p {
                let t = tokens.drop_last();
                lemma_expect_shorter(t, size_check(), 0);
                if t.len() > 0 {
                    lemma_expect_shorter(t.drop_last(), size_check(), 1);
                }
                lemma_cut(tokens, p);
                if tokens.last() is Hash160 && verify {
                    lemma_cut(t, p);
                    if t.last() is Verify {
                        lemma_expect_local(t.drop_last(), p, size_check(), 1);
                    }
                } else {
                    lemma_expect_local(t, p, size_check(), 0);
                }
            }
        },
        Err(_) => {},
    }
}

/// After `<hash> EQUAL` over 32 bytes.
pub proof fn lemma_hash32_local<Ext>(tokens: Seq<TokenView>, p: int, hash: [u8; 32], verify: bool)
    requires
        0 <= p <= tokens.len(),
    ensures
        same_shift(
            shift_hash32::<Ext>(tokens, hash, verify),
            shift_hash32::<Ext>(cut(tokens, p), hash, verify),
            p,
        ),
{
    match shift_hash32::<Ext>(tokens, hash, verify) {
        Ok(s) => {
            if s.rest.len() >= p {
                let t = tokens.drop_last();
                lemma_expect_shorter(t, size_check(), 0);
                lemma_cut(tokens, p);
                lemma_expect_local(t, p, size_check(), 0);
            }
        },
        Err(_) => {},
    }
}

/// After `PICK EQUAL`.
pub proof fn lemma_outputs_local<Ext>(tokens: Seq<TokenView>, p: int, verify: bool)
    requires
        0 <= p <= tokens.len(),
    ensures
        same_shift(
            shift_outputs::<Ext>(tokens, verify),
            shift_outputs::<Ext>(cut(tokens, p), verify),
            p,
        ),
{
    match shift_outputs::<Ext>(tokens, verify) {
        Ok(s) => {
            if s.rest.len() >= p {
                lemma_expect_shorter(tokens, outputs_head(), 0);
                let t = expect(tokens, outputs_head(), 0)->Ok_0;
                lemma_expect_shorter(t.drop_last(), outputs_tail(), 0);
                lemma_expect_local(tokens, p, outputs_head(), 0);
                lemma_cut(t, p);
                lemma_expect_local(t.drop_last(), p, outputs_tail(), 0);
            }
        },
        Err(_) => {},
    }
}

/// After `EQUAL`, or after `EQUALVERIFY`.
pub proof fn lemma_equal_local<Ext>(tokens: Seq<TokenView>, p: int, verify: bool)
    requires
        0 <= p <= tokens.len(),
    ensures
        same_shift(
            shift_equal::<Ext>(tokens, verify),
            shift_equal::<Ext>(cut(tokens, p), verify),
            p,
        ),
{
    reveal(shift_equal);
    match shift_equal::<Ext>(tokens, verify) {
        Ok(s) => {
            if s.rest.len() >= p {
                let t = tokens.drop_last();
                crate::machine::lemma_shift_equal_shorter::<Ext>(tokens, verify);
                lemma_expect_shorter(t, version_head(), 0);
                match tokens.last() {
                    TokenView::Hash20(hash) => {
                        lemma_hash20_shorter::<Ext>(t, hash, verify);
                        lemma_cut(tokens, p);
                        lemma_hash20_local::<Ext>(t, p, hash, verify);
                    },
                    TokenView::Hash32(hash) => {
                        lemma_hash32_shorter::<Ext>(t, hash, verify);
                        lemma_cut(tokens, p);
                        lemma_hash32_local::<Ext>(t, p, hash, verify);
                    },
                    TokenView::PickPush4(_) => {
                        lemma_cut(tokens, p);
                        lemma_expect_local(t, p, version_head(), 0);
                    },
                    TokenView::Pick => {
                        lemma_outputs_shorter::<Ext>(t, verify);
                        lemma_cut(tokens, p);
                        lemma_outputs_local::<Ext>(t, p, verify);
                    },
                    _ => {
                        lemma_cut(tokens, p);
                    },
                }
            }
        },
        Err(_) => {},
    }
}

/// What follows `<hash> EQUAL` over 20 bytes leaves fewer tokens.
pub proof fn lemma_hash20_shorter<Ext>(tokens: Seq<TokenView>, hash: [u8; 20], verify: bool)
    ensures
        shift_hash20::<Ext>(tokens, hash, verify) matches Ok(s) ==> s.rest.len() < tokens.len(),
{
    if tokens.len() > 0 {
        let t = tokens.drop_last();
        lemma_expect_shorter(t, size_check(), 0);
        if t.len() > 0 {
            lemma_expect_shorter(t.drop_last(), size_check(), 1);
        }
    }
}

/// What follows `<hash> EQUAL` over 32 bytes leaves fewer tokens.
pub proof fn lemma_hash32_shorter<Ext>(tokens: Seq<TokenView>, hash: [u8; 32], verify: bool)
    ensures
        shift_hash32::<Ext>(tokens, hash, verify) matches Ok(s) ==> s.rest.len() < tokens.len(),
{
    if tokens.len() > 0 {
        lemma_expect_shorter(tokens.drop_last(), size_check(), 0);
    }
}

/// What follows `PICK EQUAL` leaves fewer tokens.
pub proof fn lemma_outputs_shorter<Ext>(tokens: Seq<TokenView>, verify: bool)
    ensures
        shift_outputs::<Ext>(tokens, verify) matches Ok(s) ==> s.rest.len() < tokens.len(),
{
    lemma_expect_shorter(tokens, outputs_head(), 0);
    match expect(tokens, outputs_head(), 0) {
        Ok(t) => {
            if t.len() > 0 {
                lemma_expect_shorter(t.drop_last(), outputs_tail(), 0);
            }
        },
        Err(_) => {},
    }
}

/// After `CHECKMULTISIG`.
pub proof fn lemma_multi_local<Ext>(tokens: Seq<TokenView>, p: int)
    requires
        0 <= p <= tokens.len(),
    ensures
        same_shift(shift_multi::<Ext>(tokens), shift_multi::<Ext>(cut(tokens, p)), p),
{
    match shift_multi::<Ext>(tokens) {
        Ok(s) => {
            if s.rest.len() >= p {
                let t = tokens.drop_last();
                let n = tokens.last()->Num_0;
                lemma_take_keys_shorter(t, n as nat);
                let u = take_keys(t, n as nat)->Ok_0.1;
                lemma_cut(tokens, p);
                lemma_take_keys_local(t, p, n as nat);
                lemma_cut(u, p);
            }
        },
        Err(_) => {},
    }
}

/// An expression is read off a stream as it is read off the stream
/// without a beginning that the read does not reach.
pub proof fn lemma_shift_local<Ext>(tokens: Seq<TokenView>, p: int)
    requires
        0 <= p <= tokens.len(),
    ensures
        same_shift(
            shift_expression::<Ext>(tokens),
            shift_expression::<Ext>(cut(tokens, p)),
            p,
        ),
{
    reveal(shift_expression);
    match shift_expression::<Ext>(tokens) {
        Ok(s) => {
            let reading: int = if need(s.push) > 0 {
                1
            } else {
                0
            };
            if s.rest.len() >= p + reading {
                let t = tokens.drop_last();
                lemma_shift_shorter::<Ext>(tokens);
                lemma_cut(tokens, p);
                lemma_need_some(
                    NonTerm::Verify,
                    NonTerm::Expression,
                    NonTerm::Expression,
                    NonTerm::Expression,
                );
                match tokens.last() {
                    TokenView::Verify => {
                        if t.last() is Equal {
                            crate::machine::lemma_shift_equal_shorter::<Ext>(t.drop_last(), true);
                            lemma_cut(t, p);
                            lemma_equal_local::<Ext>(t.drop_last(), p, true);
                        } else {
                            assert(s.rest == t);
                            assert(s.push =~= seq![NonTerm::Verify, NonTerm::Expression]);
                            lemma_cut(t, p);
                        }
                    },
                    TokenView::Equal => {
                        lemma_equal_local::<Ext>(t, p, false);
                    },
                    TokenView::CheckSequenceVerify | TokenView::CheckLockTimeVerify => {
                        lemma_cut(t, p);
                    },
                    TokenView::CheckMultiSig => {
                        lemma_multi_local::<Ext>(t, p);
                    },
                    _ => {},
                }
            }
        },
        Err(_) => {},
    }
}

/// The state `m` over the stream without its first `p` tokens.
pub open spec fn shorten<Ext>(m: Machine<Ext>, p: int) -> Machine<Ext> {
    Machine { tokens: cut(m.tokens, p), non_term: m.non_term, term: m.term }
}

/// Whether a run from `m` ends in a tree and leaves exactly the first `p` tokens.
pub open spec fn leaves<Ext: Extension<PublicKey>>(kind: ContextKind, m: Machine<Ext>, p: int) -> bool {
    run(kind, m).0 is Ok && run(kind, m).1.len() == p
}

/// Whether the step `far` from a state is the step `near` from the state
/// over the stream without its first `p` tokens.
pub open spec fn same_step<Ext>(far: Step<Ext>, near: Step<Ext>, p: int) -> bool {
    match far {
        Step::Next(m2) => 0 <= p <= m2.tokens.len() && near == Step::Next(shorten(m2, p)),
        Step::Done => near is Done,
        Step::Fail(_) => false,
    }
}

/// A run goes on as its next state does.
pub proof fn lemma_run_next<Ext: Extension<PublicKey>>(kind: ContextKind, m: Machine<Ext>)
    ensures
        step(kind, m) matches Step::Next(m2) ==> run(kind, m) == run(kind, m2),
        step(kind, m) matches Step::Fail(_) ==> run(kind, m).0 is Err,
{
}

/// What a run that ends in a tree and leaves `p` tokens knows of its next state.
pub proof fn lemma_leaves<Ext: Extension<PublicKey>>(kind: ContextKind, m: Machine<Ext>, p: int)
    requires
        leaves(kind, m, p),
    ensures
        0 <= p,
        p + need(m.non_term) <= m.tokens.len(),
        !(step(kind, m) is Fail),
        step(kind, m) matches Step::Next(m2) ==> leaves(kind, m2, p) && p + need(m2.non_term)
            <= m2.tokens.len(),
{
    lemma_run_next(kind, m);
    lemma_run_need(kind, m);
    match step(kind, m) {
        Step::Next(m2) => {
            lemma_run_need(kind, m2);
        },
        _ => {},
    }
}

/// The steps that read no token are the same over a shorter stream.
pub proof fn lemma_local_reduce<Ext: Extension<PublicKey>>(
    kind: ContextKind,
    m: Machine<Ext>,
    p: int,
)
    requires
        leaves(kind, m, p),
        m.non_term.len() > 0,
        reads(m.non_term.last()) == 0,
        !(m.non_term.last() is MaybeSwap),
        !(m.non_term.last() is MaybeAndV),
        !(m.non_term.last() is AndV),
    ensures
        same_step(step(kind, m), step(kind, shorten(m, p)), p),
{
    lemma_leaves(kind, m, p);
}

/// The steps that look at the next token without need of one are the same
/// over a shorter stream.
pub proof fn lemma_local_maybe<Ext: Extension<PublicKey>>(
    kind: ContextKind,
    m: Machine<Ext>,
    p: int,
)
    requires
        leaves(kind, m, p),
        m.non_term.len() > 0,
        m.non_term.last() is MaybeSwap || m.non_term.last() is MaybeAndV
            || m.non_term.last() is AndV,
    ensures
        same_step(step(kind, m), step(kind, shorten(m, p)), p),
{
    lemma_leaves(kind, m, p);
    let rest = m.non_term.drop_last();
    if p < m.tokens.len() {
        lemma_cut(m.tokens, p);
    } else {
        assert(cut(m.tokens, p) =~= Seq::<TokenView>::empty());
        lemma_need_add(rest, seq![NonTerm::AndV, NonTerm::Expression]);
        lemma_need_some(
            NonTerm::AndV,
            NonTerm::Expression,
            NonTerm::Expression,
            NonTerm::Expression,
        );
        if m.non_term.last() is AndV && and_v_follows(m.tokens) {
            let m2 = step(kind, m)->Next_0;
            let again = rest + seq![NonTerm::AndV, NonTerm::MaybeAndV];
            assert(again.drop_last() =~= rest.push(NonTerm::AndV));
            lemma_leaves(kind, m2, p);
            let m3 = step(kind, m2)->Next_0;
            lemma_need_add(rest.push(NonTerm::AndV), seq![NonTerm::AndV, NonTerm::Expression]);
        }
    }
}

/// The steps that read one token are the same over a shorter stream.
pub proof fn lemma_local_one<Ext: Extension<PublicKey>>(kind: ContextKind, m: Machine<Ext>, p: int)
    requires
        leaves(kind, m, p),
        m.non_term.len() > 0,
        m.non_term.last() is Alt || m.non_term.last() is ThreshW || m.non_term.last() is EndIfNotIf
            || m.non_term.last() is EndIfElse,
    ensures
        same_step(step(kind, m), step(kind, shorten(m, p)), p),
{
    lemma_leaves(kind, m, p);
    lemma_cut(m.tokens, p);
    lemma_expect_one(m.tokens, TokenView::ToAltStack);
    lemma_expect_one(cut(m.tokens, p), TokenView::ToAltStack);
}

/// What opened a branch is the same over a shorter stream.
pub proof fn lemma_local_end_if<Ext: Extension<PublicKey>>(
    kind: ContextKind,
    m: Machine<Ext>,
    p: int,
)
    requires
        leaves(kind, m, p),
        m.non_term.len() > 0,
        m.non_term.last() is EndIf,
    ensures
        same_step(step(kind, m), step(kind, shorten(m, p)), p),
{
    lemma_leaves(kind, m, p);
    lemma_cut(m.tokens, p);
    let t1 = m.tokens.drop_last();
    if m.tokens.last() is If {
        let t2 = t1.drop_last();
        lemma_expect_one(t2, TokenView::Size);
        lemma_cut(t1, p);
        if t1.last() is ZeroNotEqual {
            lemma_cut(t2, p);
            lemma_expect_one(cut(t2, p), TokenView::Size);
        }
    }
}

/// Reading an expression is the same over a shorter stream.
pub proof fn lemma_local_expression<Ext: Extension<PublicKey>>(
    kind: ContextKind,
    m: Machine<Ext>,
    p: int,
)
    requires
        leaves(kind, m, p),
        m.non_term.len() > 0,
        m.non_term.last() is Expression,
    ensures
        same_step(step(kind, m), step(kind, shorten(m, p)), p),
{
    lemma_leaves(kind, m, p);
    let rest = m.non_term.drop_last();
    let before = m.tokens.subrange(0, p);
    let near = cut(m.tokens, p);
    assert(before + near =~= m.tokens);
    Ext::lemma_decode_local(before, near);
    match Ext::decode(near) {
        Some((e, left)) => {
            assert(cut(before + left, p) =~= left);
        },
        None => {
            if Ext::decode(m.tokens) is None {
                lemma_shift_local::<Ext>(m.tokens, p);
                let s = shift_expression::<Ext>(m.tokens)->Ok_0;
                lemma_need_add(rest, s.push);
            }
        },
    }
}

/// Every step of a run that ends in a tree is the same over the stream
/// without the tokens that the run leaves.
pub proof fn lemma_local_step<Ext: Extension<PublicKey>>(
    kind: ContextKind,
    m: Machine<Ext>,
    p: int,
)
    requires
        leaves(kind, m, p),
    ensures
        same_step(step(kind, m), step(kind, shorten(m, p)), p),
{
    lemma_leaves(kind, m, p);
    if m.non_term.len() > 0 {
        match m.non_term.last() {
            NonTerm::Expression => lemma_local_expression(kind, m, p),
            NonTerm::MaybeSwap | NonTerm::MaybeAndV | NonTerm::AndV => lemma_local_maybe(
                kind,
                m,
                p,
            ),
            NonTerm::Alt
            | NonTerm::ThreshW { .. }
            | NonTerm::EndIfNotIf
            | NonTerm::EndIfElse => lemma_local_one(kind, m, p),
            NonTerm::EndIf => lemma_local_end_if(kind, m, p),
            _ => lemma_local_reduce(kind, m, p),
        }
    }
}

/// A run that ends in a tree ends in the same tree over the stream
/// without the tokens that it leaves, and then leaves none.
pub proof fn lemma_run_local<Ext: Extension<PublicKey>>(kind: ContextKind, m: Machine<Ext>, p: int)
    requires
        leaves(kind, m, p),
    ensures
        run(kind, shorten(m, p)) == (run(kind, m).0, Seq::<TokenView>::empty()),
    decreases m.tokens.len(), potential(m.non_term, and_v_follows(m.tokens)),
{
    lemma_local_step(kind, m, p);
    lemma_leaves(kind, m, p);
    lemma_run_next(kind, m);
    lemma_run_next(kind, shorten(m, p));
    match step(kind, m) {
        Step::Next(m2) => {
            lemma_step_decreases(kind, m);
            lemma_run_local(kind, m2, p);
        },
        Step::Done => {
            assert(cut(m.tokens, p) =~= Seq::<TokenView>::empty());
        },
        Step::Fail(_) => {},
    }
}

/// Decoding round-trips: the tokens that encode a decoded tree decode to
/// the same tree, and are read to the last.
pub proof fn lemma_round_trip<Ext: Extension<PublicKey>>(kind: ContextKind, tokens: Seq<TokenView>)
    ensures
        decode::<Ext>(kind, tokens).0 matches Ok(tree) ==> decode::<Ext>(
            kind,
            tree.script_tokens(),
        ) == (Ok::<Tree<Ext>, ErrorView>(tree), Seq::<TokenView>::empty()),
{
    match decode::<Ext>(kind, tokens).0 {
        Ok(tree) => {
            lemma_decode_sound::<Ext>(kind, tokens);
            let m = start::<Ext>(tokens);
            let left = decode::<Ext>(kind, tokens).1;
            let p = left.len() as int;
            assert(cut(tokens, p) =~= tree.script_tokens());
            assert(shorten(m, p) == start::<Ext>(tree.script_tokens()));
            lemma_run_local(kind, m, p);
        },
        Err(_) => {},
    }
}

} // verus!
