//! Why decoding is sound: the tree that comes out is encoded by exactly the
//! tokens that were read.

use vstd::prelude::*;
use crate::context::ContextKind;
use crate::decode::NonTerm;
use crate::error::ErrorView;
use crate::extension::Extension;
use crate::key::PublicKey;
use crate::lex::TokenView;
use crate::machine::decode;
use crate::machine::expect;
use crate::machine::reduce;
use crate::machine::reduce0;
use crate::machine::reduce1;
use crate::machine::reduce2;
use crate::machine::reduce3;
use crate::machine::reduce_thresh;
use crate::machine::run;
use crate::machine::start;
use crate::machine::step;
use crate::machine::top_first;
use crate::machine::wrap1;
use crate::machine::wrap2;
use crate::machine::leaf_shift;
use crate::machine::outputs_head;
use crate::machine::outputs_tail;
use crate::machine::push_shift;
use crate::machine::shift_equal;
use crate::machine::shift_expression;
use crate::machine::shift_hash20;
use crate::machine::shift_hash32;
use crate::machine::shift_multi;
use crate::machine::shift_outputs;
use crate::machine::shift_time;
use crate::machine::size_check;
use crate::machine::take_keys;
use crate::machine::version_head;
use crate::machine::Shift;
use crate::machine::Machine;
use crate::machine::Node;
use crate::machine::Step;
use crate::machine::Tree;
use crate::miniscript::key_tokens;
use crate::miniscript::MiniscriptView;
use crate::miniscript::TerminalView;

verus! {

/// `head` before the tokens `tail`, where there are any.
pub open spec fn after(head: Seq<TokenView>, tail: Option<Seq<TokenView>>) -> Option<Seq<TokenView>> {
    match tail {
        Some(t) => Some(head + t),
        None => None,
    }
}

/// The tokens that a wrapper puts before its child.
pub open spec fn wrap_head(tag: NonTerm) -> Seq<TokenView> {
    match tag {
        NonTerm::Alt => seq![TokenView::ToAltStack],
        NonTerm::DupIf => seq![TokenView::Dup, TokenView::If],
        NonTerm::NonZero => seq![TokenView::Size, TokenView::ZeroNotEqual, TokenView::If],
        NonTerm::MaybeSwap => seq![TokenView::Swap],
        NonTerm::EndIfNotIf => seq![TokenView::NotIf],
        _ => Seq::empty(),
    }
}

/// The tokens that a wrapper puts after its child.
pub open spec fn wrap_tail(tag: NonTerm) -> Seq<TokenView> {
    match tag {
        NonTerm::Alt => seq![TokenView::FromAltStack],
        NonTerm::Check => seq![TokenView::CheckSig],
        NonTerm::Verify => seq![TokenView::Verify],
        NonTerm::ZeroNotEqual => seq![TokenView::ZeroNotEqual],
        NonTerm::DupIf | NonTerm::NonZero | NonTerm::EndIf | NonTerm::EndIfNotIf => seq![
            TokenView::EndIf,
        ],
        _ => Seq::empty(),
    }
}

/// The tokens that a combinator puts after its left child, where `b` are
/// the tokens of the right one.
pub open spec fn pair_tail(tag: NonTerm, b: Seq<TokenView>) -> Seq<TokenView> {
    match tag {
        NonTerm::AndB => b + seq![TokenView::BoolAnd],
        NonTerm::OrB => b + seq![TokenView::BoolOr],
        NonTerm::OrC => seq![TokenView::NotIf] + b + seq![TokenView::EndIf],
        NonTerm::OrD => seq![TokenView::IfDup, TokenView::NotIf] + b + seq![TokenView::EndIf],
        NonTerm::EndIfElse => seq![TokenView::Else] + b + seq![TokenView::EndIf],
        _ => b,
    }
}

/// The tokens that an `andor` puts after its condition, where `b` are the
/// tokens of the branch that runs when the condition fails and `c` those
/// of the other.
pub open spec fn tern_tail(b: Seq<TokenView>, c: Seq<TokenView>) -> Seq<TokenView> {
    seq![TokenView::NotIf] + b + seq![TokenView::Else] + c + seq![TokenView::EndIf]
}

/// The tokens of the last `count` trees, the last first, each followed by `ADD`.
pub open spec fn thresh_more<Ext: Extension<PublicKey>>(terms: Seq<Tree<Ext>>, count: nat) -> Seq<
    TokenView,
>
    decreases count,
{
    if count == 0 || terms.len() == 0 {
        Seq::empty()
    } else {
        terms.last().script_tokens() + seq![TokenView::Add] + thresh_more(
            terms.drop_last(),
            (count - 1) as nat,
        )
    }
}

/// The tokens that close a threshold of `k`.
pub open spec fn thresh_end(k: usize) -> Seq<TokenView> {
    seq![TokenView::Num(k as u32), TokenView::Equal]
}

/// The tokens already read that stand to the right of a tree which is
/// about to be handed to the expectations `non_term`, over the finished
/// trees `terms`. Absent where the stacks do not fit each other.
pub open spec fn right_of<Ext: Extension<PublicKey>>(
    non_term: Seq<NonTerm>,
    terms: Seq<Tree<Ext>>,
) -> Option<Seq<TokenView>>
    decreases non_term.len(), 1int,
{
    if non_term.len() == 0 {
        if terms.len() == 0 {
            Some(Seq::empty())
        } else {
            None
        }
    } else {
        receive(non_term.last(), non_term.drop_last(), terms)
    }
}

/// The tokens already read that stand to the right of a tree which is
/// about to be handed to the expectation `top` above the expectations `rest`.
pub open spec fn receive<Ext: Extension<PublicKey>>(
    top: NonTerm,
    rest: Seq<NonTerm>,
    terms: Seq<Tree<Ext>>,
) -> Option<Seq<TokenView>>
    decreases rest.len() + 1, 0int,
{
    let n = terms.len() as int;
    match top {
        NonTerm::MaybeSwap
        | NonTerm::MaybeAndV
        | NonTerm::Alt
        | NonTerm::Check
        | NonTerm::Verify
        | NonTerm::ZeroNotEqual
        | NonTerm::EndIf => after(wrap_tail(top), right_of(rest, terms)),
        NonTerm::AndV
        | NonTerm::AndB
        | NonTerm::OrB
        | NonTerm::OrC
        | NonTerm::OrD
        | NonTerm::EndIfElse => if n >= 1 {
            after(pair_tail(top, terms.last().script_tokens()), right_of(rest, terms.drop_last()))
        } else {
            None
        },
        NonTerm::Tern => if n >= 2 {
            after(
                tern_tail(terms[n - 1].script_tokens(), terms[n - 2].script_tokens()),
                right_of(rest, terms.subrange(0, n - 2)),
            )
        } else {
            None
        },
        NonTerm::ThreshW { k, n: count } => if count >= 1 && n >= count - 1 {
            after(
                seq![TokenView::Add] + (thresh_more(terms, (count - 1) as nat) + thresh_end(k)),
                right_of(rest, terms.subrange(0, n - (count - 1))),
            )
        } else {
            None
        },
        NonTerm::ThreshE { k, n: count } => if count >= 1 && n >= count - 1 {
            after(
                thresh_more(terms, (count - 1) as nat) + thresh_end(k),
                right_of(rest, terms.subrange(0, n - (count - 1))),
            )
        } else {
            None
        },
        NonTerm::Expression => if rest.len() >= 1 && (rest.last() is AndB || rest.last() is OrB) {
            after(pair_tail(rest.last(), Seq::empty()), right_of(rest.drop_last(), terms))
        } else {
            None
        },
        NonTerm::DupIf | NonTerm::NonZero | NonTerm::EndIfNotIf => None,
    }
}

/// Whether an expectation on top holds tokens that stand before the tree on top.
pub open spec fn opened(non_term: Seq<NonTerm>) -> bool {
    non_term.len() > 0 && (non_term.last() is DupIf || non_term.last() is NonZero
        || non_term.last() is EndIfNotIf)
}

/// Whether the expectation on top is a threshold that has read no child yet.
pub open spec fn fresh_thresh(non_term: Seq<NonTerm>) -> bool {
    non_term.len() > 0 && non_term.last() is ThreshW && non_term.last()->ThreshW_n == 0
}

/// The tokens that the decoder has read to reach the state `m`, in script
/// order. Absent where the stacks do not fit each other.
pub open spec fn consumed<Ext: Extension<PublicKey>>(m: Machine<Ext>) -> Option<Seq<TokenView>> {
    let nt = m.non_term;
    if nt.len() > 0 && nt.last() is Expression {
        right_of(nt.drop_last(), m.term)
    } else if fresh_thresh(nt) {
        after(thresh_end(nt.last()->ThreshW_k), right_of(nt.drop_last(), m.term))
    } else if m.term.len() == 0 {
        None
    } else if opened(nt) {
        after(
            wrap_head(nt.last()) + (m.term.last().script_tokens() + wrap_tail(nt.last())),
            right_of(nt.drop_last(), m.term.drop_last()),
        )
    } else {
        after(m.term.last().script_tokens(), right_of(nt, m.term.drop_last()))
    }
}

/// The tokens of the stream: those still to be read and those read.
pub open spec fn whole<Ext: Extension<PublicKey>>(m: Machine<Ext>) -> Option<Seq<TokenView>> {
    after(m.tokens, consumed(m))
}

/// What an expectation that was just added hands its tree to.
pub proof fn lemma_unfold<Ext: Extension<PublicKey>>(
    rest: Seq<NonTerm>,
    top: NonTerm,
    terms: Seq<Tree<Ext>>,
)
    ensures
        right_of(rest.push(top), terms) == receive(top, rest, terms),
{
    assert(rest.push(top).drop_last() =~= rest);
}

/// Concatenation may be bracketed either way.
pub proof fn lemma_assoc(a: Seq<TokenView>, b: Seq<TokenView>, c: Seq<TokenView>)
    ensures
        (a + b) + c == a + (b + c),
{
    assert((a + b) + c =~= a + (b + c));
}

/// A tree that is finished where one was expected stands at the left end of what was read.
pub proof fn lemma_put<Ext: Extension<PublicKey>>(
    tokens: Seq<TokenView>,
    non_term: Seq<NonTerm>,
    below: Seq<Tree<Ext>>,
    tree: Tree<Ext>,
)
    requires
        right_of(non_term, below) is Some,
    ensures
        consumed(Machine { tokens, non_term, term: below.push(tree) }) == after(
            tree.script_tokens(),
            right_of(non_term, below),
        ),
{
    let terms = below.push(tree);
    assert(terms.drop_last() =~= below);
    if non_term.len() > 0 && non_term.last() is Expression {
        let rest = non_term.drop_last();
        assert(rest.len() >= 1);
        let lower = rest.drop_last();
        assert(right_of(rest, terms) == receive(rest.last(), lower, terms));
        let x = right_of(lower, below)->0;
        let a = tree.script_tokens();
        assert(pair_tail(rest.last(), a) == a + pair_tail(rest.last(), Seq::empty())) by {
            assert(a + Seq::<TokenView>::empty() =~= a);
            lemma_assoc(a, Seq::empty(), seq![TokenView::BoolAnd]);
            lemma_assoc(a, Seq::empty(), seq![TokenView::BoolOr]);
            assert(Seq::<TokenView>::empty() + seq![TokenView::BoolAnd] =~= seq![TokenView::BoolAnd]);
            assert(Seq::<TokenView>::empty() + seq![TokenView::BoolOr] =~= seq![TokenView::BoolOr]);
        }
        lemma_assoc(a, pair_tail(rest.last(), Seq::empty()), x);
    }
}

/// A typed tree holds the fragment that it was built from.
pub proof fn lemma_reduce_node<Ext: Extension<PublicKey>>(
    kind: ContextKind,
    node: Node<Ext>,
    validate: bool,
)
    ensures
        reduce(kind, node, validate) matches Ok(tree) ==> tree.node == node,
{
    reveal(reduce);
}

/// A reduction fails for the type or for the context, never for the stacks.
pub proof fn lemma_reduce_error<Ext: Extension<PublicKey>>(
    kind: ContextKind,
    node: Node<Ext>,
    validate: bool,
)
    ensures
        reduce(kind, node, validate) matches Err(e) ==> e is TypeCheck || e is ContextError,
{
    reveal(reduce);
}

/// Whether the step `s` from the state `m` keeps the stream whole: what is
/// left to read and what was read are together what they were before.
pub open spec fn keeps<Ext: Extension<PublicKey>>(m: Machine<Ext>, s: Step<Ext>) -> bool {
    match s {
        Step::Next(m2) => whole(m2) is Some && whole(m2) == whole(m),
        Step::Done => m.term.len() == 1,
        Step::Fail(e) => !(e is Inconsistent),
    }
}

/// The state after the fragment `node` was reduced over the trees `below`
/// and handed to the expectations `non_term`.
pub proof fn lemma_reduced<Ext: Extension<PublicKey>>(
    kind: ContextKind,
    tokens: Seq<TokenView>,
    non_term: Seq<NonTerm>,
    below: Seq<Tree<Ext>>,
    node: Node<Ext>,
    validate: bool,
)
    requires
        right_of(non_term, below) is Some,
    ensures
        match reduce(kind, node, validate) {
            Ok(tree) => tree.node == node && consumed(
                Machine { tokens, non_term, term: below.push(tree) },
            ) == after(tree.script_tokens(), right_of(non_term, below)),
            Err(e) => !(e is Inconsistent),
        },
{
    lemma_reduce_node(kind, node, validate);
    lemma_reduce_error(kind, node, validate);
    match reduce(kind, node, validate) {
        Ok(tree) => {
            lemma_put(tokens, non_term, below, tree);
        },
        Err(_) => {},
    }
}

/// The tokens of a wrapper: what it puts before its child, the child, and
/// what it puts after.
pub proof fn lemma_text_wrap<Ext: Extension<PublicKey>>(tag: NonTerm, t: Tree<Ext>, tree: Tree<Ext>)
    requires
        tree.node == wrap1(tag, t),
        tag is Alt || tag is Check || tag is DupIf || tag is Verify || tag is NonZero
            || tag is ZeroNotEqual || tag is MaybeSwap,
    ensures
        tree.script_tokens() == wrap_head(tag) + (t.script_tokens() + wrap_tail(tag)),
{
    reveal_with_fuel(MiniscriptView::script_tokens, 1);
    let a = t.script_tokens();
    assert(tree.script_tokens() =~= wrap_head(tag) + (a + wrap_tail(tag)));
}

/// The tokens of a combinator over two trees.
pub proof fn lemma_text_pair<Ext: Extension<PublicKey>>(
    tag: NonTerm,
    l: Tree<Ext>,
    r: Tree<Ext>,
    tree: Tree<Ext>,
)
    requires
        tree.node == wrap2(tag, l, r),
        tag is AndV || tag is AndB || tag is OrB || tag is OrC || tag is OrD || tag is EndIfElse,
    ensures
        tree.script_tokens() == (if tag is EndIfElse {
            seq![TokenView::If]
        } else {
            Seq::empty()
        }) + (l.script_tokens() + pair_tail(tag, r.script_tokens())),
{
    reveal_with_fuel(MiniscriptView::script_tokens, 1);
    let a = l.script_tokens();
    let b = r.script_tokens();
    assert(tree.script_tokens() =~= (if tag is EndIfElse {
        seq![TokenView::If]
    } else {
        Seq::empty()
    }) + (a + pair_tail(tag, b)));
}

/// The wrappers that need no token keep the stream whole.
pub proof fn lemma_step_wrap<Ext: Extension<PublicKey>>(kind: ContextKind, m: Machine<Ext>)
    requires
        m.non_term.len() > 0,
        m.non_term.last() is Check || m.non_term.last() is DupIf || m.non_term.last() is Verify
            || m.non_term.last() is NonZero || m.non_term.last() is ZeroNotEqual,
        consumed(m) is Some,
    ensures
        keeps(m, step(kind, m)),
{
    let top = m.non_term.last();
    let rest = m.non_term.drop_last();
    let t = m.term.last();
    let below = m.term.drop_last();
    let node = wrap1(top, t);
    assert(step(kind, m) == crate::machine::with_term(
        m.tokens,
        rest,
        reduce1(kind, m.term, top),
    ));
    lemma_reduced(kind, m.tokens, rest, below, node, true);
    match reduce(kind, node, true) {
        Ok(tree) => {
            let x = right_of(rest, below)->0;
            let a = t.script_tokens();
            lemma_text_wrap(top, t, tree);
            if !(top is DupIf || top is NonZero) {
                assert(wrap_head(top) + (a + wrap_tail(top)) =~= a + wrap_tail(top));
                lemma_assoc(a, wrap_tail(top), x);
            }
        },
        Err(_) => {},
    }
}

/// What reading one token off a stream gives.
pub proof fn lemma_expect_one(tokens: Seq<TokenView>, want: TokenView)
    ensures
        expect(tokens, seq![want], 0) == (if tokens.len() == 0 {
            Err::<Seq<TokenView>, ErrorView>(ErrorView::UnexpectedStart)
        } else if tokens.last() == want {
            Ok(tokens.drop_last())
        } else {
            Err(ErrorView::Unexpected(tokens.last()))
        }),
{
    reveal_with_fuel(expect, 3);
}

/// A stream is its last token after the tokens before it.
pub proof fn lemma_last(tokens: Seq<TokenView>)
    requires
        tokens.len() > 0,
    ensures
        tokens == tokens.drop_last() + seq![tokens.last()],
{
    assert(tokens =~= tokens.drop_last() + seq![tokens.last()]);
}

/// The alt-stack wrapper keeps the stream whole.
pub proof fn lemma_step_alt<Ext: Extension<PublicKey>>(kind: ContextKind, m: Machine<Ext>)
    requires
        m.non_term.len() > 0,
        m.non_term.last() is Alt,
        consumed(m) is Some,
    ensures
        keeps(m, step(kind, m)),
{
    let top = m.non_term.last();
    let rest = m.non_term.drop_last();
    let t = m.term.last();
    let below = m.term.drop_last();
    let a = t.script_tokens();
    let x = right_of(rest, below)->0;
    lemma_expect_one(m.tokens, TokenView::ToAltStack);
    if m.tokens.len() > 0 && m.tokens.last() == TokenView::ToAltStack {
        let tokens = m.tokens.drop_last();
        let node = wrap1(top, t);
        assert(step(kind, m) == crate::machine::with_term(
            tokens,
            rest,
            reduce1(kind, m.term, top),
        ));
        lemma_reduced(kind, tokens, rest, below, node, true);
        match reduce(kind, node, true) {
            Ok(tree) => {
                lemma_text_wrap(top, t, tree);
                lemma_last(m.tokens);
                let open = seq![TokenView::ToAltStack];
                let close = wrap_tail(top);
                lemma_assoc(a, close, x);
                lemma_assoc(open, a + close, x);
                lemma_assoc(tokens, open, (a + close) + x);
            },
            Err(_) => {},
        }
    }
}

/// The swap, and its absence, keep the stream whole.
pub proof fn lemma_step_swap<Ext: Extension<PublicKey>>(kind: ContextKind, m: Machine<Ext>)
    requires
        m.non_term.len() > 0,
        m.non_term.last() is MaybeSwap,
        consumed(m) is Some,
    ensures
        keeps(m, step(kind, m)),
{
    let top = m.non_term.last();
    let rest = m.non_term.drop_last();
    let t = m.term.last();
    let below = m.term.drop_last();
    let a = t.script_tokens();
    let x = right_of(rest, below)->0;
    assert(wrap_tail(top) + x =~= x);
    if m.tokens.len() > 0 && m.tokens.last() is Swap {
        let tokens = m.tokens.drop_last();
        let node = wrap1(top, t);
        let again = rest.push(NonTerm::MaybeSwap);
        assert(step(kind, m) == crate::machine::with_term(
            tokens,
            again,
            reduce1(kind, m.term, top),
        ));
        lemma_unfold(rest, NonTerm::MaybeSwap, below);
        lemma_reduced(kind, tokens, again, below, node, true);
        match reduce(kind, node, true) {
            Ok(tree) => {
                lemma_text_wrap(top, t, tree);
                lemma_last(m.tokens);
                let open = seq![TokenView::Swap];
                assert(a + wrap_tail(top) =~= a);
                lemma_assoc(open, a, x);
                lemma_assoc(tokens, open, a + x);
            },
            Err(_) => {},
        }
    } else {
        let m2 = Machine { tokens: m.tokens, non_term: rest, term: m.term };
        assert(step(kind, m) == Step::Next(m2));
        assert(m.term =~= below.push(t));
        lemma_put(m.tokens, rest, below, t);
    }
}

/// The combinators over two trees keep the stream whole.
pub proof fn lemma_step_pair<Ext: Extension<PublicKey>>(kind: ContextKind, m: Machine<Ext>)
    requires
        m.non_term.len() > 0,
        m.non_term.last() is AndB || m.non_term.last() is OrB || m.non_term.last() is OrC
            || m.non_term.last() is OrD || (m.non_term.last() is AndV
            && !crate::machine::and_v_follows(m.tokens)),
        consumed(m) is Some,
    ensures
        keeps(m, step(kind, m)),
{
    let top = m.non_term.last();
    let rest = m.non_term.drop_last();
    let l = m.term.last();
    let below = m.term.drop_last();
    let r = below.last();
    let lower = below.drop_last();
    assert(lower =~= m.term.subrange(0, m.term.len() - 2));
    let node = wrap2(top, l, r);
    assert(step(kind, m) == crate::machine::with_term(
        m.tokens,
        rest,
        reduce2(kind, m.term, top),
    ));
    lemma_reduced(kind, m.tokens, rest, lower, node, true);
    match reduce(kind, node, true) {
        Ok(tree) => {
            let x = right_of(rest, lower)->0;
            let a = l.script_tokens();
            let b = pair_tail(top, r.script_tokens());
            lemma_text_pair(top, l, r, tree);
            assert(Seq::<TokenView>::empty() + (a + b) =~= a + b);
            lemma_assoc(a, b, x);
        },
        Err(_) => {},
    }
}

/// A further `and_v`, and its absence, keep the stream whole.
pub proof fn lemma_step_and_v<Ext: Extension<PublicKey>>(kind: ContextKind, m: Machine<Ext>)
    requires
        m.non_term.len() > 0,
        m.non_term.last() is MaybeAndV || (m.non_term.last() is AndV
            && crate::machine::and_v_follows(m.tokens)),
        consumed(m) is Some,
    ensures
        keeps(m, step(kind, m)),
{
    let top = m.non_term.last();
    let rest = m.non_term.drop_last();
    let t = m.term.last();
    let below = m.term.drop_last();
    if top is AndV {
        let non_term = rest + seq![NonTerm::AndV, NonTerm::MaybeAndV];
        let m2 = Machine { tokens: m.tokens, non_term, term: m.term };
        assert(step(kind, m) == Step::Next(m2));
        assert(non_term =~= rest.push(NonTerm::AndV).push(NonTerm::MaybeAndV));
        lemma_unfold(rest.push(NonTerm::AndV), NonTerm::MaybeAndV, below);
        lemma_unfold(rest, NonTerm::AndV, below);
        assert(wrap_tail(NonTerm::MaybeAndV) + right_of(rest.push(NonTerm::AndV), below)->0
            =~= right_of(rest.push(NonTerm::AndV), below)->0);
    } else {
        let x = right_of(rest, below)->0;
        assert(wrap_tail(top) + x =~= x);
        if crate::machine::and_v_follows(m.tokens) {
            let non_term = rest + seq![NonTerm::AndV, NonTerm::Expression];
            let m2 = Machine { tokens: m.tokens, non_term, term: m.term };
            assert(step(kind, m) == Step::Next(m2));
            assert(non_term =~= rest.push(NonTerm::AndV).push(NonTerm::Expression));
            assert(non_term.drop_last() =~= rest.push(NonTerm::AndV));
            lemma_unfold(rest, NonTerm::AndV, m.term);
        } else {
            let m2 = Machine { tokens: m.tokens, non_term: rest, term: m.term };
            assert(step(kind, m) == Step::Next(m2));
            assert(m.term =~= below.push(t));
            lemma_put(m.tokens, rest, below, t);
        }
    }
}

/// The tokens of an `andor`.
pub proof fn lemma_text_tern<Ext: Extension<PublicKey>>(
    a: Tree<Ext>,
    b: Tree<Ext>,
    c: Tree<Ext>,
    tree: Tree<Ext>,
)
    requires
        tree.node == TerminalView::<PublicKey, Ext>::AndOr(
            Box::new(a),
            Box::new(b),
            Box::new(c),
        ),
    ensures
        tree.script_tokens() == a.script_tokens() + tern_tail(
            c.script_tokens(),
            b.script_tokens(),
        ),
{
    reveal_with_fuel(MiniscriptView::script_tokens, 1);
    assert(tree.script_tokens() =~= a.script_tokens() + tern_tail(
        c.script_tokens(),
        b.script_tokens(),
    ));
}

/// The `andor` keeps the stream whole.
pub proof fn lemma_step_tern<Ext: Extension<PublicKey>>(kind: ContextKind, m: Machine<Ext>)
    requires
        m.non_term.len() > 0,
        m.non_term.last() is Tern,
        consumed(m) is Some,
    ensures
        keeps(m, step(kind, m)),
{
    let rest = m.non_term.drop_last();
    let n = m.term.len() as int;
    let below = m.term.drop_last();
    assert(n >= 3);
    let a = m.term[n - 1];
    let b = m.term[n - 2];
    let c = m.term[n - 3];
    let lower = m.term.subrange(0, n - 3);
    assert(lower =~= below.subrange(0, below.len() - 2));
    let node = TerminalView::<PublicKey, Ext>::AndOr(Box::new(a), Box::new(c), Box::new(b));
    assert(step(kind, m) == crate::machine::with_term(m.tokens, rest, reduce3(kind, m.term)));
    lemma_reduced(kind, m.tokens, rest, lower, node, true);
    match reduce(kind, node, true) {
        Ok(tree) => {
            let x = right_of(rest, lower)->0;
            lemma_text_tern(a, c, b, tree);
            lemma_assoc(
                a.script_tokens(),
                tern_tail(b.script_tokens(), c.script_tokens()),
                x,
            );
        },
        Err(_) => {},
    }
}

/// The tokens of the last `count` trees end with those of the lowest of them.
pub proof fn lemma_thresh_more_last<Ext: Extension<PublicKey>>(terms: Seq<Tree<Ext>>, count: nat)
    requires
        1 <= count <= terms.len(),
    ensures
        thresh_more(terms, count) == thresh_more(terms, (count - 1) as nat) + (terms[terms.len()
            - count].script_tokens() + seq![TokenView::Add]),
    decreases count,
{
    let first = terms.last().script_tokens() + seq![TokenView::Add];
    let last = terms[terms.len() - count].script_tokens() + seq![TokenView::Add];
    if count == 1 {
        assert(thresh_more(terms.drop_last(), 0) =~= Seq::<TokenView>::empty());
        assert(thresh_more(terms, 0) =~= Seq::<TokenView>::empty());
        assert(thresh_more(terms, 1) =~= Seq::<TokenView>::empty() + last);
    } else {
        let below = terms.drop_last();
        lemma_thresh_more_last(below, (count - 1) as nat);
        assert(below[below.len() - (count - 1)] == terms[terms.len() - count]);
        let mid = thresh_more(below, (count - 2) as nat);
        assert(thresh_more(terms, count) == first + thresh_more(below, (count - 1) as nat));
        assert(thresh_more(terms, (count - 1) as nat) == first + mid);
        lemma_assoc(first, mid, last);
    }
}

/// The tokens of the first `j` children of a threshold whose children are
/// the last trees of `terms`, the last first.
pub proof fn lemma_thresh_tokens<Ext: Extension<PublicKey>>(terms: Seq<Tree<Ext>>, n: nat, j: nat)
    requires
        1 <= j <= n <= terms.len(),
    ensures
        MiniscriptView::thresh_tokens(top_first(terms, n), j as int)
            == terms.last().script_tokens() + thresh_more(terms.drop_last(), (j - 1) as nat),
    decreases j,
{
    let subs = top_first(terms, n);
    let below = terms.drop_last();
    let a = terms.last().script_tokens();
    assert(subs.len() == n);
    assert(subs[0] == terms.last());
    if j == 1 {
        assert(MiniscriptView::thresh_tokens(subs, 1) == subs[0].script_tokens()) by {
            reveal_with_fuel(MiniscriptView::thresh_tokens, 2);
            reveal_with_fuel(MiniscriptView::script_tokens, 1);
        }
        assert(thresh_more(below, 0) =~= Seq::<TokenView>::empty());
        assert(a + Seq::<TokenView>::empty() =~= a);
    } else {
        lemma_thresh_tokens(terms, n, (j - 1) as nat);
        lemma_thresh_more_last(below, (j - 1) as nat);
        assert(subs[j - 1] == below[below.len() - (j - 1)]);
        let mid = thresh_more(below, (j - 2) as nat);
        let last = subs[j - 1].script_tokens();
        assert(MiniscriptView::thresh_tokens(subs, j as int) == MiniscriptView::thresh_tokens(
            subs,
            j - 1,
        ) + last + seq![TokenView::Add]) by {
            reveal_with_fuel(MiniscriptView::thresh_tokens, 2);
            reveal_with_fuel(MiniscriptView::script_tokens, 1);
        }
        assert((a + mid) + last + seq![TokenView::Add] =~= a + (mid + (last + seq![TokenView::Add])));
    }
}

/// The tokens of a threshold over the last `n` trees of `terms`.
pub proof fn lemma_text_thresh<Ext: Extension<PublicKey>>(
    terms: Seq<Tree<Ext>>,
    k: usize,
    n: nat,
    tree: Tree<Ext>,
)
    requires
        1 <= n <= terms.len(),
        tree.node == TerminalView::<PublicKey, Ext>::Thresh(k, top_first(terms, n)),
    ensures
        tree.script_tokens() == terms.last().script_tokens() + (thresh_more(
            terms.drop_last(),
            (n - 1) as nat,
        ) + thresh_end(k)),
{
    let subs = top_first(terms, n);
    assert(subs.len() == n);
    assert(tree.script_tokens() == MiniscriptView::thresh_tokens(subs, n as int) + thresh_end(k))
        by {
        reveal_with_fuel(MiniscriptView::script_tokens, 2);
        reveal_with_fuel(MiniscriptView::thresh_tokens, 1);
    }
    lemma_thresh_tokens(terms, n, n);
    lemma_assoc(
        terms.last().script_tokens(),
        thresh_more(terms.drop_last(), (n - 1) as nat),
        thresh_end(k),
    );
}

/// The end of a threshold keeps the stream whole.
pub proof fn lemma_step_thresh_end<Ext: Extension<PublicKey>>(kind: ContextKind, m: Machine<Ext>)
    requires
        m.non_term.len() > 0,
        m.non_term.last() is ThreshE,
        consumed(m) is Some,
    ensures
        keeps(m, step(kind, m)),
{
    let top = m.non_term.last();
    let k = top->ThreshE_k;
    let n = top->ThreshE_n;
    let rest = m.non_term.drop_last();
    let below = m.term.drop_last();
    let lower = m.term.subrange(0, m.term.len() - n);
    assert(lower =~= below.subrange(0, below.len() - (n - 1)));
    let node = TerminalView::<PublicKey, Ext>::Thresh(k, top_first(m.term, n as nat));
    assert(step(kind, m) == crate::machine::with_term(
        m.tokens,
        rest,
        reduce_thresh(kind, m.term, k, n),
    ));
    lemma_reduced(kind, m.tokens, rest, lower, node, true);
    match reduce(kind, node, true) {
        Ok(tree) => {
            let x = right_of(rest, lower)->0;
            lemma_text_thresh(m.term, k, n as nat, tree);
            lemma_assoc(
                m.term.last().script_tokens(),
                thresh_more(below, (n - 1) as nat) + thresh_end(k),
                x,
            );
        },
        Err(_) => {},
    }
}

/// The state after a threshold that has read `n` children took the
/// expectation `next` of one more.
pub proof fn lemma_thresh_next<Ext: Extension<PublicKey>>(
    rest: Seq<NonTerm>,
    next: NonTerm,
    tokens: Seq<TokenView>,
    term: Seq<Tree<Ext>>,
)
    ensures
        consumed(
            Machine {
                tokens,
                non_term: rest + seq![next, NonTerm::MaybeSwap, NonTerm::Expression],
                term,
            },
        ) == receive(next, rest, term),
{
    let non_term = rest + seq![next, NonTerm::MaybeSwap, NonTerm::Expression];
    assert(non_term.drop_last() =~= rest.push(next).push(NonTerm::MaybeSwap));
    lemma_unfold(rest.push(next), NonTerm::MaybeSwap, term);
    lemma_unfold(rest, next, term);
    match receive(next, rest, term) {
        Some(x) => {
            assert(wrap_tail(NonTerm::MaybeSwap) + x =~= x);
        },
        None => {},
    }
}

/// How the tokens around a threshold may be bracketed.
pub proof fn lemma_thresh_algebra(
    tokens: Seq<TokenView>,
    a: Seq<TokenView>,
    mid: Seq<TokenView>,
    end: Seq<TokenView>,
    x: Seq<TokenView>,
)
    ensures
        ((a + seq![TokenView::Add] + mid) + end) + x == a + ((seq![TokenView::Add] + (mid + end)) + x),
        tokens + ((seq![TokenView::Add] + ((a + seq![TokenView::Add] + mid) + end)) + x) == (tokens
            + seq![TokenView::Add]) + (a + ((seq![TokenView::Add] + (mid + end)) + x)),
        tokens + ((seq![TokenView::Add] + (Seq::<TokenView>::empty() + end)) + x) == (tokens
            + seq![TokenView::Add]) + (end + x),
        (Seq::<TokenView>::empty() + end) + x == end + x,
{
    let add = seq![TokenView::Add];
    assert(((a + add + mid) + end) + x =~= a + ((add + (mid + end)) + x));
    assert(tokens + ((add + ((a + add + mid) + end)) + x) =~= (tokens + add) + (a + ((add + (mid
        + end)) + x)));
    assert(tokens + ((add + (Seq::<TokenView>::empty() + end)) + x) =~= (tokens + add) + (end + x));
    assert((Seq::<TokenView>::empty() + end) + x =~= end + x);
}

/// One more child of a threshold, and the turn to its first child, keep the stream whole.
pub proof fn lemma_step_thresh<Ext: Extension<PublicKey>>(kind: ContextKind, m: Machine<Ext>)
    requires
        m.non_term.len() > 0,
        m.non_term.last() is ThreshW,
        consumed(m) is Some,
    ensures
        keeps(m, step(kind, m)),
{
    let top = m.non_term.last();
    let k = top->ThreshW_k;
    let n = top->ThreshW_n;
    let rest = m.non_term.drop_last();
    assert(step(kind, m) == crate::machine::step_thresh(m.tokens, rest, m.term, k, n));
    if m.tokens.len() > 0 && n < usize::MAX {
        let more = (n + 1) as usize;
        let next = if m.tokens.last() is Add {
            NonTerm::ThreshW { k, n: more }
        } else {
            NonTerm::ThreshE { k, n: more }
        };
        let tokens = if m.tokens.last() is Add {
            m.tokens.drop_last()
        } else {
            m.tokens
        };
        lemma_thresh_next(rest, next, tokens, m.term);
        let end = thresh_end(k);
        let lower = m.term.subrange(0, m.term.len() - n);
        if m.tokens.last() is Add {
            lemma_last(m.tokens);
        }
        if n == 0 {
            assert(lower =~= m.term);
            let x = right_of(rest, m.term)->0;
            assert(thresh_more(m.term, 0) =~= Seq::<TokenView>::empty());
            lemma_thresh_algebra(tokens, Seq::empty(), Seq::empty(), end, x);
        } else {
            let below = m.term.drop_last();
            assert(lower =~= below.subrange(0, below.len() - (n - 1)));
            let x = right_of(rest, lower)->0;
            let a = m.term.last().script_tokens();
            let mid = thresh_more(below, (n - 1) as nat);
            assert(thresh_more(m.term, n as nat) == a + seq![TokenView::Add] + mid);
            lemma_thresh_algebra(tokens, a, mid, end, x);
        }
    }
}

/// How the tokens around a branch may be bracketed.
pub proof fn lemma_branch_algebra(t: Seq<TokenView>, a: Seq<TokenView>, b: Seq<TokenView>, x: Seq<TokenView>)
    ensures
        t + (pair_tail(NonTerm::EndIfElse, a) + x) == (t + seq![TokenView::Else]) + (a + (wrap_tail(
            NonTerm::EndIf,
        ) + x)),
        t + ((wrap_head(NonTerm::DupIf) + (a + wrap_tail(NonTerm::DupIf))) + x) == ((t
            + seq![TokenView::Dup]) + seq![TokenView::If]) + (a + (wrap_tail(NonTerm::EndIf) + x)),
        t + ((wrap_head(NonTerm::NonZero) + (a + wrap_tail(NonTerm::NonZero))) + x) == (((t
            + seq![TokenView::Size]) + seq![TokenView::ZeroNotEqual]) + seq![TokenView::If]) + (a + (
        wrap_tail(NonTerm::EndIf) + x)),
        t + ((wrap_head(NonTerm::EndIfNotIf) + (a + wrap_tail(NonTerm::EndIfNotIf))) + x) == (t
            + seq![TokenView::NotIf]) + (a + (wrap_tail(NonTerm::EndIf) + x)),
        t + (pair_tail(NonTerm::OrD, a) + x) == (t + seq![TokenView::IfDup]) + ((wrap_head(
            NonTerm::EndIfNotIf,
        ) + (a + wrap_tail(NonTerm::EndIfNotIf))) + x),
        pair_tail(NonTerm::OrC, a) + x == (wrap_head(NonTerm::EndIfNotIf) + (a + wrap_tail(
            NonTerm::EndIfNotIf,
        ))) + x,
        t + ((seq![TokenView::If] + (a + pair_tail(NonTerm::EndIfElse, b))) + x) == (t
            + seq![TokenView::If]) + (a + (pair_tail(NonTerm::EndIfElse, b) + x)),
        t + (tern_tail(a, b) + x) == (t + seq![TokenView::NotIf]) + (a + (pair_tail(
            NonTerm::EndIfElse,
            b,
        ) + x)),
{
    let end = seq![TokenView::EndIf];
    assert(t + ((seq![TokenView::Else] + a + end) + x) =~= (t + seq![TokenView::Else]) + (a + (end + x)));
    assert(t + ((seq![TokenView::Dup, TokenView::If] + (a + end)) + x) =~= ((t + seq![TokenView::Dup])
        + seq![TokenView::If]) + (a + (end + x)));
    assert(t + ((seq![TokenView::Size, TokenView::ZeroNotEqual, TokenView::If] + (a + end)) + x) =~= (((t
        + seq![TokenView::Size]) + seq![TokenView::ZeroNotEqual]) + seq![TokenView::If]) + (a + (end + x)));
    assert(t + ((seq![TokenView::NotIf] + (a + end)) + x) =~= (t + seq![TokenView::NotIf]) + (a + (end
        + x)));
    assert(t + ((seq![TokenView::IfDup, TokenView::NotIf] + a + end) + x) =~= (t + seq![TokenView::IfDup])
        + ((seq![TokenView::NotIf] + (a + end)) + x));
    assert((seq![TokenView::NotIf] + a + end) + x =~= (seq![TokenView::NotIf] + (a + end)) + x);
    let inner = seq![TokenView::Else] + b + end;
    assert(t + ((seq![TokenView::If] + (a + inner)) + x) =~= (t + seq![TokenView::If]) + (a + (inner
        + x)));
    assert(t + ((seq![TokenView::NotIf] + a + seq![TokenView::Else] + b + end) + x) =~= (t
        + seq![TokenView::NotIf]) + (a + (inner + x)));
}

/// The state after `ELSE` was read.
pub proof fn lemma_else_next<Ext: Extension<PublicKey>>(
    rest: Seq<NonTerm>,
    tokens: Seq<TokenView>,
    term: Seq<Tree<Ext>>,
)
    ensures
        consumed(
            Machine {
                tokens,
                non_term: rest + seq![
                    NonTerm::EndIfElse,
                    NonTerm::MaybeAndV,
                    NonTerm::MaybeSwap,
                    NonTerm::Expression,
                ],
                term,
            },
        ) == receive(NonTerm::EndIfElse, rest, term),
{
    let non_term = rest + seq![
        NonTerm::EndIfElse,
        NonTerm::MaybeAndV,
        NonTerm::MaybeSwap,
        NonTerm::Expression,
    ];
    let r1 = rest.push(NonTerm::EndIfElse);
    let r2 = r1.push(NonTerm::MaybeAndV);
    assert(non_term.drop_last() =~= r2.push(NonTerm::MaybeSwap));
    lemma_unfold(r2, NonTerm::MaybeSwap, term);
    lemma_unfold(r1, NonTerm::MaybeAndV, term);
    lemma_unfold(rest, NonTerm::EndIfElse, term);
    match receive(NonTerm::EndIfElse, rest, term) {
        Some(x) => {
            assert(wrap_tail(NonTerm::MaybeSwap) + (wrap_tail(NonTerm::MaybeAndV) + x) =~= x);
            assert(wrap_tail(NonTerm::MaybeAndV) + x =~= x);
        },
        None => {},
    }
}

/// The state after the expectation `next` of a combinator and of its left child was added.
pub proof fn lemma_left_next<Ext: Extension<PublicKey>>(
    rest: Seq<NonTerm>,
    next: NonTerm,
    tokens: Seq<TokenView>,
    term: Seq<Tree<Ext>>,
)
    ensures
        consumed(Machine { tokens, non_term: rest + seq![next, NonTerm::Expression], term })
            == receive(next, rest, term),
{
    let non_term = rest + seq![next, NonTerm::Expression];
    assert(non_term.drop_last() =~= rest.push(next));
    lemma_unfold(rest, next, term);
}

/// The state after a wrapper that holds tokens before its child was recognized.
pub proof fn lemma_opened_next<Ext: Extension<PublicKey>>(
    rest: Seq<NonTerm>,
    next: NonTerm,
    tokens: Seq<TokenView>,
    term: Seq<Tree<Ext>>,
)
    requires
        next is DupIf || next is NonZero || next is EndIfNotIf,
        term.len() > 0,
    ensures
        consumed(Machine { tokens, non_term: rest.push(next), term }) == after(
            wrap_head(next) + (term.last().script_tokens() + wrap_tail(next)),
            right_of(rest, term.drop_last()),
        ),
{
    assert(rest.push(next).drop_last() =~= rest);
}

/// What opened a branch keeps the stream whole.
pub proof fn lemma_step_end_if<Ext: Extension<PublicKey>>(kind: ContextKind, m: Machine<Ext>)
    requires
        m.non_term.len() > 0,
        m.non_term.last() is EndIf,
        consumed(m) is Some,
    ensures
        keeps(m, step(kind, m)),
{
    let rest = m.non_term.drop_last();
    let t = m.term.last();
    let below = m.term.drop_last();
    let a = t.script_tokens();
    let x = right_of(rest, below)->0;
    assert(step(kind, m) == crate::machine::step_end_if(m.tokens, rest, m.term));
    if m.tokens.len() > 0 {
        let t1 = m.tokens.drop_last();
        lemma_last(m.tokens);
        match m.tokens.last() {
            TokenView::Else => {
                lemma_else_next(rest, t1, m.term);
                lemma_branch_algebra(t1, a, a, x);
            },
            TokenView::If => {
                if t1.len() > 0 {
                    let t2 = t1.drop_last();
                    lemma_last(t1);
                    match t1.last() {
                        TokenView::Dup => {
                            lemma_opened_next(rest, NonTerm::DupIf, t2, m.term);
                            lemma_branch_algebra(t2, a, a, x);
                        },
                        TokenView::ZeroNotEqual => {
                            lemma_expect_one(t2, TokenView::Size);
                            if t2.len() > 0 && t2.last() == TokenView::Size {
                                let t3 = t2.drop_last();
                                lemma_last(t2);
                                lemma_opened_next(rest, NonTerm::NonZero, t3, m.term);
                                lemma_branch_algebra(t3, a, a, x);
                            }
                        },
                        _ => {},
                    }
                }
            },
            TokenView::NotIf => {
                lemma_opened_next(rest, NonTerm::EndIfNotIf, t1, m.term);
                lemma_branch_algebra(t1, a, a, x);
            },
            _ => {},
        }
    }
}

/// What precedes a `NOTIF` keeps the stream whole.
pub proof fn lemma_step_not_if<Ext: Extension<PublicKey>>(kind: ContextKind, m: Machine<Ext>)
    requires
        m.non_term.len() > 0,
        m.non_term.last() is EndIfNotIf,
        consumed(m) is Some,
    ensures
        keeps(m, step(kind, m)),
{
    let rest = m.non_term.drop_last();
    let t = m.term.last();
    let below = m.term.drop_last();
    let a = t.script_tokens();
    let x = right_of(rest, below)->0;
    if m.tokens.len() > 0 {
        lemma_last(m.tokens);
        let next = if m.tokens.last() is IfDup {
            NonTerm::OrD
        } else {
            NonTerm::OrC
        };
        let tokens = if m.tokens.last() is IfDup {
            m.tokens.drop_last()
        } else {
            m.tokens
        };
        let non_term = rest + seq![next, NonTerm::Expression];
        let m2 = Machine { tokens, non_term, term: m.term };
        assert(step(kind, m) == Step::Next(m2));
        lemma_left_next(rest, next, tokens, m.term);
        lemma_branch_algebra(tokens, a, a, x);
    }
}

/// What opened the first branch of two keeps the stream whole.
pub proof fn lemma_step_else<Ext: Extension<PublicKey>>(kind: ContextKind, m: Machine<Ext>)
    requires
        m.non_term.len() > 0,
        m.non_term.last() is EndIfElse,
        consumed(m) is Some,
    ensures
        keeps(m, step(kind, m)),
{
    let top = m.non_term.last();
    let rest = m.non_term.drop_last();
    let l = m.term.last();
    let below = m.term.drop_last();
    let r = below.last();
    let lower = below.drop_last();
    assert(lower =~= m.term.subrange(0, m.term.len() - 2));
    let a = l.script_tokens();
    let b = r.script_tokens();
    let x = right_of(rest, lower)->0;
    if m.tokens.len() > 0 {
        let tokens = m.tokens.drop_last();
        lemma_last(m.tokens);
        lemma_branch_algebra(tokens, a, b, x);
        match m.tokens.last() {
            TokenView::If => {
                let node = wrap2(top, l, r);
                assert(step(kind, m) == crate::machine::with_term(
                    tokens,
                    rest,
                    reduce2(kind, m.term, top),
                ));
                lemma_reduced(kind, tokens, rest, lower, node, true);
                match reduce(kind, node, true) {
                    Ok(tree) => {
                        lemma_text_pair(top, l, r, tree);
                    },
                    Err(_) => {},
                }
            },
            TokenView::NotIf => {
                let non_term = rest + seq![NonTerm::Tern, NonTerm::Expression];
                let m2 = Machine { tokens, non_term, term: m.term };
                assert(step(kind, m) == Step::Next(m2));
                lemma_left_next(rest, NonTerm::Tern, tokens, m.term);
            },
            _ => {},
        }
    }
}

/// The tokens of `pat` from position `i` on in script order, where `pat`
/// lists them in the order in which they are read.
pub open spec fn read_back(pat: Seq<TokenView>, i: int) -> Seq<TokenView>
    decreases pat.len() - i,
{
    if i < 0 || i >= pat.len() {
        Seq::empty()
    } else {
        read_back(pat, i + 1).push(pat[i])
    }
}

/// A stream off which a pattern was read ended with the pattern.
pub proof fn lemma_expect_text(tokens: Seq<TokenView>, pat: Seq<TokenView>, i: int)
    ensures
        expect(tokens, pat, i) matches Ok(rest) ==> tokens == rest + read_back(pat, i),
    decreases pat.len() - i,
{
    if 0 <= i < pat.len() {
        if tokens.len() > 0 && tokens.last() == pat[i] {
            lemma_expect_text(tokens.drop_last(), pat, i + 1);
            match expect(tokens, pat, i) {
                Ok(rest) => {
                    lemma_last(tokens);
                    let back = read_back(pat, i + 1);
                    assert(read_back(pat, i) =~= back + seq![pat[i]]);
                    lemma_assoc(rest, back, seq![pat[i]]);
                },
                Err(_) => {},
            }
        }
    } else {
        assert(tokens =~= tokens + read_back(pat, i));
    }
}

/// The patterns of the decoder in script order.
pub proof fn lemma_patterns()
    ensures
        read_back(size_check(), 0) == seq![
            TokenView::Size,
            TokenView::Num(32),
            TokenView::Equal,
            TokenView::Verify,
        ],
        read_back(size_check(), 1) == seq![TokenView::Size, TokenView::Num(32), TokenView::Equal],
        read_back(version_head(), 0) == seq![TokenView::Depth, TokenView::Num(12), TokenView::Sub],
        read_back(outputs_head(), 0) == seq![
            TokenView::Swap,
            TokenView::Cat,
            TokenView::Hash256,
            TokenView::Depth,
            TokenView::Num(4),
            TokenView::Sub,
        ],
        read_back(outputs_tail(), 0) == seq![
            TokenView::Cat,
            TokenView::Cat,
            TokenView::Cat,
            TokenView::Cat,
            TokenView::Cat,
            TokenView::Cat,
        ],
{
    reveal_with_fuel(read_back, 8);
    assert(read_back(size_check(), 0) =~= seq![
        TokenView::Size,
        TokenView::Num(32),
        TokenView::Equal,
        TokenView::Verify,
    ]);
    assert(read_back(size_check(), 1) =~= seq![TokenView::Size, TokenView::Num(32), TokenView::Equal]);
    assert(read_back(version_head(), 0) =~= seq![TokenView::Depth, TokenView::Num(12), TokenView::Sub]);
    assert(read_back(outputs_head(), 0) =~= seq![
        TokenView::Swap,
        TokenView::Cat,
        TokenView::Hash256,
        TokenView::Depth,
        TokenView::Num(4),
        TokenView::Sub,
    ]);
    assert(read_back(outputs_tail(), 0) =~= seq![
        TokenView::Cat,
        TokenView::Cat,
        TokenView::Cat,
        TokenView::Cat,
        TokenView::Cat,
        TokenView::Cat,
    ]);
}

/// The tokens that encode a tree whose root is the fragment `node`.
pub open spec fn node_text<Ext: Extension<PublicKey>>(node: Node<Ext>) -> Seq<TokenView> {
    MiniscriptView { node, ty: arbitrary(), ext: arbitrary() }.script_tokens()
}

/// The tokens of a tree depend on its fragments alone.
pub proof fn lemma_node_text<Ext: Extension<PublicKey>>(tree: Tree<Ext>)
    ensures
        tree.script_tokens() == node_text(tree.node),
{
    reveal_with_fuel(MiniscriptView::script_tokens, 1);
}

/// The tokens of the leaves that are one or two tokens long.
pub proof fn lemma_short_texts<Ext: Extension<PublicKey>>(pk: PublicKey, n: u32, e: Ext)
    ensures
        node_text::<Ext>(TerminalView::True) == seq![TokenView::Num(1)],
        node_text::<Ext>(TerminalView::False) == seq![TokenView::Num(0)],
        node_text::<Ext>(TerminalView::PkK(pk)) == seq![TokenView::Pubkey(pk)],
        node_text::<Ext>(TerminalView::After(n)) == seq![TokenView::Num(n), TokenView::CheckLockTimeVerify],
        node_text::<Ext>(TerminalView::Older(n)) == seq![TokenView::Num(n), TokenView::CheckSequenceVerify],
        node_text::<Ext>(TerminalView::Ext(e)) == e.script_tokens(),
{
    reveal_with_fuel(MiniscriptView::script_tokens, 1);
}

/// The tokens of a key hash.
pub proof fn lemma_pkh_text<Ext: Extension<PublicKey>>(h20: [u8; 20])
    ensures
        node_text::<Ext>(TerminalView::PkH(h20)) == seq![
            TokenView::Dup,
            TokenView::Hash160,
            TokenView::Hash20(h20),
            TokenView::Equal,
            TokenView::Verify,
        ],
{
    reveal_with_fuel(MiniscriptView::script_tokens, 1);
}

/// The size check that opens each hash commitment, in script order.
pub open spec fn size_text() -> Seq<TokenView> {
    seq![TokenView::Size, TokenView::Num(32), TokenView::Equal, TokenView::Verify]
}

/// The tokens of the commitments to a 32-byte digest.
pub proof fn lemma_hash32_texts<Ext: Extension<PublicKey>>(h32: [u8; 32])
    ensures
        node_text::<Ext>(TerminalView::Sha256(h32)) == size_text() + seq![
            TokenView::Sha256,
            TokenView::Hash32(h32),
            TokenView::Equal,
        ],
        node_text::<Ext>(TerminalView::Hash256(h32)) == size_text() + seq![
            TokenView::Hash256,
            TokenView::Hash32(h32),
            TokenView::Equal,
        ],
{
    reveal_with_fuel(MiniscriptView::script_tokens, 1);
    assert(node_text::<Ext>(TerminalView::Sha256(h32)) =~= size_text() + seq![
        TokenView::Sha256,
        TokenView::Hash32(h32),
        TokenView::Equal,
    ]);
    assert(node_text::<Ext>(TerminalView::Hash256(h32)) =~= size_text() + seq![
        TokenView::Hash256,
        TokenView::Hash32(h32),
        TokenView::Equal,
    ]);
}

/// The tokens of the commitments to a 20-byte digest.
pub proof fn lemma_hash20_texts<Ext: Extension<PublicKey>>(h20: [u8; 20])
    ensures
        node_text::<Ext>(TerminalView::Ripemd160(h20)) == size_text() + seq![
            TokenView::Ripemd160,
            TokenView::Hash20(h20),
            TokenView::Equal,
        ],
        node_text::<Ext>(TerminalView::Hash160(h20)) == size_text() + seq![
            TokenView::Hash160,
            TokenView::Hash20(h20),
            TokenView::Equal,
        ],
{
    reveal_with_fuel(MiniscriptView::script_tokens, 1);
    assert(node_text::<Ext>(TerminalView::Ripemd160(h20)) =~= size_text() + seq![
        TokenView::Ripemd160,
        TokenView::Hash20(h20),
        TokenView::Equal,
    ]);
    assert(node_text::<Ext>(TerminalView::Hash160(h20)) =~= size_text() + seq![
        TokenView::Hash160,
        TokenView::Hash20(h20),
        TokenView::Equal,
    ]);
}

/// The tokens of a comparison of the version.
pub proof fn lemma_version_text<Ext: Extension<PublicKey>>(n: u32)
    ensures
        node_text::<Ext>(TerminalView::Version(n)) == seq![
            TokenView::Depth,
            TokenView::Num(12),
            TokenView::Sub,
        ] + seq![TokenView::PickPush4(n), TokenView::Equal],
{
    reveal_with_fuel(MiniscriptView::script_tokens, 1);
    assert(node_text::<Ext>(TerminalView::Version(n)) =~= seq![
        TokenView::Depth,
        TokenView::Num(12),
        TokenView::Sub,
    ] + seq![TokenView::PickPush4(n), TokenView::Equal]);
}

/// The tokens of a commitment to the outputs.
pub proof fn lemma_outputs_text<Ext: Extension<PublicKey>>(bytes: Seq<u8>)
    ensures
        node_text::<Ext>(TerminalView::OutputsPref(bytes)) == seq![
            TokenView::Cat,
            TokenView::Cat,
            TokenView::Cat,
            TokenView::Cat,
            TokenView::Cat,
            TokenView::Cat,
        ] + seq![TokenView::Push(bytes)] + seq![
            TokenView::Swap,
            TokenView::Cat,
            TokenView::Hash256,
            TokenView::Depth,
            TokenView::Num(4),
            TokenView::Sub,
        ] + seq![TokenView::Pick, TokenView::Equal],
{
    reveal_with_fuel(MiniscriptView::script_tokens, 1);
    assert(node_text::<Ext>(TerminalView::OutputsPref(bytes)) =~= seq![
        TokenView::Cat,
        TokenView::Cat,
        TokenView::Cat,
        TokenView::Cat,
        TokenView::Cat,
        TokenView::Cat,
    ] + seq![TokenView::Push(bytes)] + seq![
        TokenView::Swap,
        TokenView::Cat,
        TokenView::Hash256,
        TokenView::Depth,
        TokenView::Num(4),
        TokenView::Sub,
    ] + seq![TokenView::Pick, TokenView::Equal]);
}

/// The tokens of a multisig.
pub proof fn lemma_multi_text<Ext: Extension<PublicKey>>(k: u32, keys: Seq<PublicKey>)
    requires
        keys.len() <= 20,
    ensures
        node_text::<Ext>(TerminalView::Multi(k as usize, keys)) == seq![TokenView::Num(k)]
            + key_tokens(keys) + seq![TokenView::Num(keys.len() as u32), TokenView::CheckMultiSig],
{
    reveal_with_fuel(MiniscriptView::script_tokens, 1);
}

/// The tokens that the expectations which a shift adds stand for.
pub open spec fn push_text(push: Seq<NonTerm>) -> Seq<TokenView> {
    if push.len() == 0 {
        Seq::empty()
    } else {
        match push[0] {
            NonTerm::Check | NonTerm::ZeroNotEqual | NonTerm::Alt | NonTerm::EndIf => wrap_tail(
                push[0],
            ),
            NonTerm::Verify => if push.len() == 2 && push[1] is ThreshW {
                thresh_end(push[1]->ThreshW_k) + seq![TokenView::Verify]
            } else {
                seq![TokenView::Verify]
            },
            NonTerm::AndB | NonTerm::OrB => pair_tail(push[0], Seq::empty()),
            NonTerm::ThreshW { k, n } => thresh_end(k),
            _ => Seq::empty(),
        }
    }
}

/// The tokens that a shift took off the stream.
pub open spec fn shift_text<Ext: Extension<PublicKey>>(s: Shift<Ext>) -> Seq<TokenView> {
    match s.leaf {
        Some(node) => node_text(node) + push_text(s.push),
        None => push_text(s.push),
    }
}

/// The forms that a shift takes.
pub open spec fn shift_ok<Ext>(s: Shift<Ext>) -> bool {
    match s.leaf {
        Some(_) => s.push =~= Seq::<NonTerm>::empty() || s.push =~= seq![NonTerm::Verify],
        None => {
            ||| s.push =~= seq![NonTerm::Check, NonTerm::Expression]
            ||| s.push =~= seq![NonTerm::ZeroNotEqual, NonTerm::Expression]
            ||| s.push =~= seq![NonTerm::Verify, NonTerm::Expression]
            ||| s.push =~= seq![
                NonTerm::Alt,
                NonTerm::MaybeAndV,
                NonTerm::MaybeSwap,
                NonTerm::Expression,
            ]
            ||| s.push =~= seq![
                NonTerm::EndIf,
                NonTerm::MaybeAndV,
                NonTerm::MaybeSwap,
                NonTerm::Expression,
            ]
            ||| s.push =~= seq![
                NonTerm::AndB,
                NonTerm::Expression,
                NonTerm::MaybeSwap,
                NonTerm::Expression,
            ]
            ||| s.push =~= seq![
                NonTerm::OrB,
                NonTerm::Expression,
                NonTerm::MaybeSwap,
                NonTerm::Expression,
            ]
            ||| (s.push.len() == 1 && s.push[0] is ThreshW && s.push[0]->ThreshW_n == 0)
            ||| (s.push.len() == 2 && s.push[0] is Verify && s.push[1] is ThreshW
                && s.push[1]->ThreshW_n == 0)
        },
    }
}

/// Whether the shift `r` off the stream `tokens`, which stood before the
/// tokens `done`, took what it stands for.
pub open spec fn took<Ext: Extension<PublicKey>>(
    tokens: Seq<TokenView>,
    done: Seq<TokenView>,
    r: Result<Shift<Ext>, ErrorView>,
) -> bool {
    r matches Ok(s) ==> shift_ok(s) && tokens + done == s.rest + shift_text(s)
}

/// A leaf that was read whole.
pub proof fn lemma_leaf_took<Ext: Extension<PublicKey>>(
    tokens: Seq<TokenView>,
    done: Seq<TokenView>,
    rest: Seq<TokenView>,
    node: Node<Ext>,
    verify: bool,
    text: Seq<TokenView>,
)
    requires
        node_text(node) == text,
        tokens + done =~= rest + text + (if verify {
            seq![TokenView::Verify]
        } else {
            Seq::empty()
        }),
    ensures
        took(tokens, done, Ok(leaf_shift(rest, node, verify))),
{
    let s = leaf_shift(rest, node, verify);
    assert(tokens + done =~= s.rest + shift_text(s));
}

/// After `<hash> EQUAL` over 20 bytes.
pub proof fn lemma_shift_hash20<Ext: Extension<PublicKey>>(
    tokens: Seq<TokenView>,
    hash: [u8; 20],
    verify: bool,
)
    ensures
        took(
            tokens,
            if verify {
                seq![TokenView::Hash20(hash), TokenView::Equal, TokenView::Verify]
            } else {
                seq![TokenView::Hash20(hash), TokenView::Equal]
            },
            shift_hash20::<Ext>(tokens, hash, verify),
        ),
{
    let done = if verify {
        seq![TokenView::Hash20(hash), TokenView::Equal, TokenView::Verify]
    } else {
        seq![TokenView::Hash20(hash), TokenView::Equal]
    };
    lemma_patterns();
    lemma_pkh_text::<Ext>(hash);
    lemma_hash20_texts::<Ext>(hash);
    if tokens.len() > 0 {
        let t = tokens.drop_last();
        lemma_last(tokens);
        lemma_expect_text(t, size_check(), 0);
        match tokens.last() {
            TokenView::Hash160 => {
                if verify {
                    if t.len() > 0 {
                        lemma_last(t);
                        lemma_expect_text(t.drop_last(), size_check(), 1);
                        match t.last() {
                            TokenView::Dup => {
                                lemma_leaf_took::<Ext>(
                                    tokens,
                                    done,
                                    t.drop_last(),
                                    TerminalView::PkH(hash),
                                    false,
                                    node_text::<Ext>(TerminalView::PkH(hash)),
                                );
                            },
                            TokenView::Verify => {
                                match expect(t.drop_last(), size_check(), 1) {
                                    Ok(rest) => {
                                        lemma_leaf_took::<Ext>(
                                            tokens,
                                            done,
                                            rest,
                                            TerminalView::Hash160(hash),
                                            true,
                                            node_text::<Ext>(TerminalView::Hash160(hash)),
                                        );
                                    },
                                    Err(_) => {},
                                }
                            },
                            _ => {},
                        }
                    }
                } else {
                    match expect(t, size_check(), 0) {
                        Ok(rest) => {
                            lemma_leaf_took::<Ext>(
                                tokens,
                                done,
                                rest,
                                TerminalView::Hash160(hash),
                                false,
                                node_text::<Ext>(TerminalView::Hash160(hash)),
                            );
                        },
                        Err(_) => {},
                    }
                }
            },
            TokenView::Ripemd160 => {
                match expect(t, size_check(), 0) {
                    Ok(rest) => {
                        lemma_leaf_took::<Ext>(
                            tokens,
                            done,
                            rest,
                            TerminalView::Ripemd160(hash),
                            verify,
                            node_text::<Ext>(TerminalView::Ripemd160(hash)),
                        );
                    },
                    Err(_) => {},
                }
            },
            _ => {},
        }
    }
}

/// After `<hash> EQUAL` over 32 bytes.
pub proof fn lemma_shift_hash32<Ext: Extension<PublicKey>>(
    tokens: Seq<TokenView>,
    hash: [u8; 32],
    verify: bool,
)
    ensures
        took(
            tokens,
            if verify {
                seq![TokenView::Hash32(hash), TokenView::Equal, TokenView::Verify]
            } else {
                seq![TokenView::Hash32(hash), TokenView::Equal]
            },
            shift_hash32::<Ext>(tokens, hash, verify),
        ),
{
    let done = if verify {
        seq![TokenView::Hash32(hash), TokenView::Equal, TokenView::Verify]
    } else {
        seq![TokenView::Hash32(hash), TokenView::Equal]
    };
    lemma_patterns();
    lemma_hash32_texts::<Ext>(hash);
    if tokens.len() > 0 {
        let t = tokens.drop_last();
        lemma_last(tokens);
        lemma_expect_text(t, size_check(), 0);
        match expect(t, size_check(), 0) {
            Ok(rest) => {
                match tokens.last() {
                    TokenView::Sha256 => {
                        lemma_leaf_took::<Ext>(
                            tokens,
                            done,
                            rest,
                            TerminalView::Sha256(hash),
                            verify,
                            node_text::<Ext>(TerminalView::Sha256(hash)),
                        );
                    },
                    TokenView::Hash256 => {
                        lemma_leaf_took::<Ext>(
                            tokens,
                            done,
                            rest,
                            TerminalView::Hash256(hash),
                            verify,
                            node_text::<Ext>(TerminalView::Hash256(hash)),
                        );
                    },
                    _ => {},
                }
            },
            Err(_) => {},
        }
    }
}

/// After `PICK EQUAL`.
pub proof fn lemma_shift_outputs<Ext: Extension<PublicKey>>(tokens: Seq<TokenView>, verify: bool)
    ensures
        took(
            tokens,
            if verify {
                seq![TokenView::Pick, TokenView::Equal, TokenView::Verify]
            } else {
                seq![TokenView::Pick, TokenView::Equal]
            },
            shift_outputs::<Ext>(tokens, verify),
        ),
{
    let done = if verify {
        seq![TokenView::Pick, TokenView::Equal, TokenView::Verify]
    } else {
        seq![TokenView::Pick, TokenView::Equal]
    };
    lemma_patterns();
    lemma_expect_text(tokens, outputs_head(), 0);
    match expect(tokens, outputs_head(), 0) {
        Ok(t) => {
            if t.len() > 0 {
                lemma_last(t);
                lemma_expect_text(t.drop_last(), outputs_tail(), 0);
                match t.last() {
                    TokenView::Push(bytes) => {
                        lemma_outputs_text::<Ext>(bytes);
                        match expect(t.drop_last(), outputs_tail(), 0) {
                            Ok(rest) => {
                                lemma_leaf_took::<Ext>(
                                    tokens,
                                    done,
                                    rest,
                                    TerminalView::OutputsPref(bytes),
                                    verify,
                                    node_text::<Ext>(TerminalView::OutputsPref(bytes)),
                                );
                            },
                            Err(_) => {},
                        }
                    },
                    _ => {},
                }
            }
        },
        Err(_) => {},
    }
}

/// A stream off which keys were read ended with the pushes of the keys.
pub proof fn lemma_take_keys_text(tokens: Seq<TokenView>, n: nat)
    ensures
        take_keys(tokens, n) matches Ok(r) ==> r.0.len() == n && tokens == r.1 + key_tokens(r.0),
    decreases n,
{
    if n == 0 {
        assert(tokens =~= tokens + key_tokens(Seq::<PublicKey>::empty()));
    } else if tokens.len() > 0 {
        lemma_take_keys_text(tokens.drop_last(), (n - 1) as nat);
        match take_keys(tokens, n) {
            Ok((keys, rest)) => {
                lemma_last(tokens);
                let front = keys.drop_last();
                assert(take_keys(tokens.drop_last(), (n - 1) as nat)->Ok_0.0 =~= front);
                assert(key_tokens(keys) =~= key_tokens(front) + seq![tokens.last()]);
                lemma_assoc(rest, key_tokens(front), seq![tokens.last()]);
            },
            Err(_) => {},
        }
    }
}

/// After `CHECKMULTISIG`.
pub proof fn lemma_shift_multi<Ext: Extension<PublicKey>>(tokens: Seq<TokenView>)
    ensures
        took(tokens, seq![TokenView::CheckMultiSig], shift_multi::<Ext>(tokens)),
{
    let done = seq![TokenView::CheckMultiSig];
    if tokens.len() > 0 {
        lemma_last(tokens);
        match tokens.last() {
            TokenView::Num(n) => {
                if n <= 20 {
                    lemma_take_keys_text(tokens.drop_last(), n as nat);
                    match take_keys(tokens.drop_last(), n as nat) {
                        Ok((keys, t)) => {
                            if t.len() > 0 {
                                lemma_last(t);
                                match t.last() {
                                    TokenView::Num(k) => {
                                        lemma_multi_text::<Ext>(k, keys);
                                        lemma_leaf_took::<Ext>(
                                            tokens,
                                            done,
                                            t.drop_last(),
                                            TerminalView::Multi(k as usize, keys),
                                            false,
                                            node_text::<Ext>(
                                                TerminalView::Multi(k as usize, keys),
                                            ),
                                        );
                                    },
                                    _ => {},
                                }
                            }
                        },
                        Err(_) => {},
                    }
                }
            },
            _ => {},
        }
    }
}

/// After a timelock opcode.
pub proof fn lemma_shift_time<Ext: Extension<PublicKey>>(tokens: Seq<TokenView>, relative: bool)
    ensures
        took(
            tokens,
            if relative {
                seq![TokenView::CheckSequenceVerify]
            } else {
                seq![TokenView::CheckLockTimeVerify]
            },
            shift_time::<Ext>(tokens, relative),
        ),
{
    if tokens.len() > 0 {
        lemma_last(tokens);
        match tokens.last() {
            TokenView::Num(n) => {
                lemma_short_texts::<Ext>(arbitrary(), n, arbitrary());
                let node: Node<Ext> = if relative {
                    TerminalView::Older(n)
                } else {
                    TerminalView::After(n)
                };
                lemma_leaf_took::<Ext>(
                    tokens,
                    if relative {
                        seq![TokenView::CheckSequenceVerify]
                    } else {
                        seq![TokenView::CheckLockTimeVerify]
                    },
                    tokens.drop_last(),
                    node,
                    false,
                    node_text::<Ext>(node),
                );
            },
            _ => {},
        }
    }
}

/// A shift that adds expectations took the tokens that they stand for.
pub proof fn lemma_push_took<Ext: Extension<PublicKey>>(
    tokens: Seq<TokenView>,
    done: Seq<TokenView>,
    rest: Seq<TokenView>,
    push: Seq<NonTerm>,
)
    requires
        shift_ok(push_shift::<Ext>(rest, push)),
        tokens + done =~= rest + push_text(push),
    ensures
        took(tokens, done, Ok(push_shift::<Ext>(rest, push))),
{
}

/// After `EQUAL`, or after `EQUALVERIFY`.
pub proof fn lemma_shift_equal<Ext: Extension<PublicKey>>(tokens: Seq<TokenView>, verify: bool)
    ensures
        took(
            tokens,
            if verify {
                seq![TokenView::Equal, TokenView::Verify]
            } else {
                seq![TokenView::Equal]
            },
            shift_equal::<Ext>(tokens, verify),
        ),
{
    reveal(shift_equal);
    let done = if verify {
        seq![TokenView::Equal, TokenView::Verify]
    } else {
        seq![TokenView::Equal]
    };
    if tokens.len() > 0 {
        let t = tokens.drop_last();
        lemma_last(tokens);
        match tokens.last() {
            TokenView::Hash20(hash) => {
                lemma_shift_hash20::<Ext>(t, hash, verify);
                let inner = if verify {
                    seq![TokenView::Hash20(hash), TokenView::Equal, TokenView::Verify]
                } else {
                    seq![TokenView::Hash20(hash), TokenView::Equal]
                };
                assert(tokens + done =~= t + inner);
            },
            TokenView::Hash32(hash) => {
                lemma_shift_hash32::<Ext>(t, hash, verify);
                let inner = if verify {
                    seq![TokenView::Hash32(hash), TokenView::Equal, TokenView::Verify]
                } else {
                    seq![TokenView::Hash32(hash), TokenView::Equal]
                };
                assert(tokens + done =~= t + inner);
            },
            TokenView::PickPush4(ver) => {
                lemma_patterns();
                lemma_version_text::<Ext>(ver);
                lemma_expect_text(t, version_head(), 0);
                match expect(t, version_head(), 0) {
                    Ok(rest) => {
                        lemma_leaf_took::<Ext>(
                            tokens,
                            done,
                            rest,
                            TerminalView::Version(ver),
                            verify,
                            node_text::<Ext>(TerminalView::Version(ver)),
                        );
                    },
                    Err(_) => {},
                }
            },
            TokenView::Pick => {
                lemma_shift_outputs::<Ext>(t, verify);
                let inner = if verify {
                    seq![TokenView::Pick, TokenView::Equal, TokenView::Verify]
                } else {
                    seq![TokenView::Pick, TokenView::Equal]
                };
                assert(tokens + done =~= t + inner);
            },
            TokenView::Num(k) => {
                let thresh = NonTerm::ThreshW { k: k as usize, n: 0 };
                let push = if verify {
                    seq![NonTerm::Verify, thresh]
                } else {
                    seq![thresh]
                };
                lemma_push_took::<Ext>(tokens, done, t, push);
            },
            _ => {},
        }
    }
}

/// An expression that was read took the tokens that its shift stands for.
pub proof fn lemma_shift_expression<Ext: Extension<PublicKey>>(tokens: Seq<TokenView>)
    ensures
        took(tokens, Seq::empty(), shift_expression::<Ext>(tokens)),
{
    reveal(shift_expression);
    let none = Seq::<TokenView>::empty();
    assert(tokens + none =~= tokens);
    if tokens.len() > 0 {
        let t = tokens.drop_last();
        lemma_last(tokens);
        match tokens.last() {
            TokenView::Pubkey(pk) => {
                lemma_short_texts::<Ext>(pk, 0, arbitrary());
                lemma_leaf_took::<Ext>(
                    tokens,
                    none,
                    t,
                    TerminalView::PkK(pk),
                    false,
                    node_text::<Ext>(TerminalView::PkK(pk)),
                );
            },
            TokenView::CheckSig => {
                lemma_push_took::<Ext>(tokens, none, t, seq![NonTerm::Check, NonTerm::Expression]);
            },
            TokenView::Verify => {
                if t.len() > 0 {
                    if t.last() is Equal {
                        lemma_last(t);
                        lemma_shift_equal::<Ext>(t.drop_last(), true);
                        assert(tokens =~= t.drop_last() + seq![TokenView::Equal, TokenView::Verify]);
                    } else {
                        lemma_push_took::<Ext>(
                            tokens,
                            none,
                            t,
                            seq![NonTerm::Verify, NonTerm::Expression],
                        );
                    }
                }
            },
            TokenView::ZeroNotEqual => {
                lemma_push_took::<Ext>(
                    tokens,
                    none,
                    t,
                    seq![NonTerm::ZeroNotEqual, NonTerm::Expression],
                );
            },
            TokenView::CheckSequenceVerify => {
                lemma_shift_time::<Ext>(t, true);
            },
            TokenView::CheckLockTimeVerify => {
                lemma_shift_time::<Ext>(t, false);
            },
            TokenView::Equal => {
                lemma_shift_equal::<Ext>(t, false);
            },
            TokenView::FromAltStack => {
                lemma_push_took::<Ext>(
                    tokens,
                    none,
                    t,
                    seq![
                        NonTerm::Alt,
                        NonTerm::MaybeAndV,
                        NonTerm::MaybeSwap,
                        NonTerm::Expression,
                    ],
                );
            },
            TokenView::Num(n) => {
                lemma_short_texts::<Ext>(arbitrary(), 0, arbitrary());
                if n == 0 {
                    lemma_leaf_took::<Ext>(
                        tokens,
                        none,
                        t,
                        TerminalView::False,
                        false,
                        node_text::<Ext>(TerminalView::False),
                    );
                } else if n == 1 {
                    lemma_leaf_took::<Ext>(
                        tokens,
                        none,
                        t,
                        TerminalView::True,
                        false,
                        node_text::<Ext>(TerminalView::True),
                    );
                }
            },
            TokenView::EndIf => {
                lemma_push_took::<Ext>(
                    tokens,
                    none,
                    t,
                    seq![
                        NonTerm::EndIf,
                        NonTerm::MaybeAndV,
                        NonTerm::MaybeSwap,
                        NonTerm::Expression,
                    ],
                );
            },
            TokenView::BoolAnd => {
                let push = seq![
                    NonTerm::AndB,
                    NonTerm::Expression,
                    NonTerm::MaybeSwap,
                    NonTerm::Expression,
                ];
                assert(push_text(push) =~= seq![TokenView::BoolAnd]);
                lemma_push_took::<Ext>(tokens, none, t, push);
            },
            TokenView::BoolOr => {
                let push = seq![
                    NonTerm::OrB,
                    NonTerm::Expression,
                    NonTerm::MaybeSwap,
                    NonTerm::Expression,
                ];
                assert(push_text(push) =~= seq![TokenView::BoolOr]);
                lemma_push_took::<Ext>(tokens, none, t, push);
            },
            TokenView::CheckMultiSig => {
                lemma_shift_multi::<Ext>(t);
            },
            _ => {},
        }
    }
}

/// The state after the expectations `push` of a shift were added, where
/// the shift reduced no leaf.
pub proof fn lemma_pushed<Ext: Extension<PublicKey>>(
    rest: Seq<NonTerm>,
    push: Seq<NonTerm>,
    tokens: Seq<TokenView>,
    term: Seq<Tree<Ext>>,
)
    requires
        shift_ok(push_shift::<Ext>(tokens, push)),
        right_of(rest, term) is Some,
    ensures
        consumed(Machine { tokens, non_term: rest + push, term }) == after(
            push_text(push),
            right_of(rest, term),
        ),
{
    let x = right_of(rest, term)->0;
    let non_term = rest + push;
    if push.len() == 1 {
        assert(non_term =~= rest.push(push[0]));
        assert(non_term.drop_last() =~= rest);
    } else if push.len() == 2 && push[1] is ThreshW {
        assert(non_term =~= rest.push(NonTerm::Verify).push(push[1]));
        assert(non_term.drop_last() =~= rest.push(NonTerm::Verify));
        lemma_unfold(rest, NonTerm::Verify, term);
        lemma_assoc(thresh_end(push[1]->ThreshW_k), seq![TokenView::Verify], x);
    } else if push.len() == 2 {
        assert(push =~= seq![push[0], NonTerm::Expression]);
        lemma_left_next(rest, push[0], tokens, term);
    } else if push[0] is Alt || push[0] is EndIf {
        let r1 = rest.push(push[0]);
        let r2 = r1.push(NonTerm::MaybeAndV);
        assert(non_term.drop_last() =~= r2.push(NonTerm::MaybeSwap));
        lemma_unfold(r2, NonTerm::MaybeSwap, term);
        lemma_unfold(r1, NonTerm::MaybeAndV, term);
        lemma_unfold(rest, push[0], term);
        let y = wrap_tail(push[0]) + x;
        assert(wrap_tail(NonTerm::MaybeSwap) + (wrap_tail(NonTerm::MaybeAndV) + y) =~= y);
        assert(wrap_tail(NonTerm::MaybeAndV) + y =~= y);
    } else {
        let r1 = rest.push(push[0]);
        let r2 = r1.push(NonTerm::Expression);
        assert(non_term.drop_last() =~= r2.push(NonTerm::MaybeSwap));
        lemma_unfold(r2, NonTerm::MaybeSwap, term);
        lemma_unfold(r1, NonTerm::Expression, term);
        assert(r1.drop_last() =~= rest);
        let y = pair_tail(push[0], Seq::empty()) + x;
        assert(wrap_tail(NonTerm::MaybeSwap) + y =~= y);
    }
}

/// Reading an expression keeps the stream whole.
pub proof fn lemma_step_expression<Ext: Extension<PublicKey>>(kind: ContextKind, m: Machine<Ext>)
    requires
        m.non_term.len() > 0,
        m.non_term.last() is Expression,
        consumed(m) is Some,
    ensures
        keeps(m, step(kind, m)),
{
    let rest = m.non_term.drop_last();
    let x = right_of(rest, m.term)->0;
    if Ext::decode(m.tokens) is Some {
        let (e, tokens) = Ext::decode(m.tokens)->0;
        Ext::lemma_decode(m.tokens);
        let node: Node<Ext> = TerminalView::Ext(e);
        assert(step(kind, m) == crate::machine::with_term(
            tokens,
            rest,
            reduce0(kind, m.term, node),
        ));
        lemma_reduced(kind, tokens, rest, m.term, node, true);
        match reduce(kind, node, true) {
            Ok(tree) => {
                lemma_node_text(tree);
                lemma_short_texts::<Ext>(arbitrary(), 0, e);
                lemma_assoc(tokens, e.script_tokens(), x);
            },
            Err(_) => {},
        }
    } else {
        assert(step(kind, m) == crate::machine::step_expression(
            kind,
            m.tokens,
            rest,
            m.term,
        ));
        lemma_shift_expression::<Ext>(m.tokens);
        match shift_expression::<Ext>(m.tokens) {
            Ok(s) => {
                assert(m.tokens + Seq::<TokenView>::empty() =~= m.tokens);
                let non_term = rest + s.push;
                match s.leaf {
                    Some(node) => {
                        let tail = push_text(s.push);
                        if s.push.len() == 0 {
                            assert(non_term =~= rest);
                            assert(tail + x =~= x);
                        } else {
                            assert(non_term =~= rest.push(NonTerm::Verify));
                            lemma_unfold(rest, NonTerm::Verify, m.term);
                        }
                        lemma_reduced(kind, s.rest, non_term, m.term, node, true);
                        match reduce(kind, node, true) {
                            Ok(tree) => {
                                lemma_node_text(tree);
                                let text = node_text(node);
                                lemma_assoc(text, tail, x);
                                lemma_assoc(s.rest, text + tail, x);
                            },
                            Err(_) => {},
                        }
                    },
                    None => {
                        lemma_pushed(rest, s.push, s.rest, m.term);
                        lemma_assoc(s.rest, push_text(s.push), x);
                    },
                }
            },
            Err(_) => {
                lemma_shift_error::<Ext>(m.tokens);
            },
        }
    }
}

/// What follows an `EQUAL` fails for the tokens, never for the stacks.
pub proof fn lemma_equal_error<Ext: Extension<PublicKey>>(tokens: Seq<TokenView>, verify: bool)
    ensures
        shift_equal::<Ext>(tokens, verify) matches Err(e) ==> !(e is Inconsistent),
{
    reveal(shift_equal);
    if tokens.len() > 0 {
        let t = tokens.drop_last();
        lemma_expect_error(t, version_head(), 0);
        lemma_expect_error(t, outputs_head(), 0);
        match expect(t, outputs_head(), 0) {
            Ok(v) => {
                if v.len() > 0 {
                    lemma_expect_error(v.drop_last(), outputs_tail(), 0);
                }
            },
            Err(_) => {},
        }
        if t.len() > 0 {
            let u = t.drop_last();
            lemma_expect_error(u, size_check(), 0);
            if u.len() > 0 {
                lemma_expect_error(u.drop_last(), size_check(), 1);
            }
        }
    }
}

/// What follows a `CHECKMULTISIG` fails for the tokens, never for the stacks.
pub proof fn lemma_multi_error<Ext: Extension<PublicKey>>(tokens: Seq<TokenView>)
    ensures
        shift_multi::<Ext>(tokens) matches Err(e) ==> !(e is Inconsistent),
{
    if tokens.len() > 0 {
        match tokens.last() {
            TokenView::Num(n) => {
                lemma_take_keys_error(tokens.drop_last(), n as nat);
            },
            _ => {},
        }
    }
}

/// Reading an expression fails for the tokens, never for the stacks.
pub proof fn lemma_shift_error<Ext: Extension<PublicKey>>(tokens: Seq<TokenView>)
    ensures
        shift_expression::<Ext>(tokens) matches Err(e) ==> !(e is Inconsistent),
{
    reveal(shift_expression);
    if tokens.len() > 0 {
        let t = tokens.drop_last();
        lemma_equal_error::<Ext>(t, false);
        lemma_multi_error::<Ext>(t);
        if t.len() > 0 {
            lemma_equal_error::<Ext>(t.drop_last(), true);
        }
    }
}

/// Reading a pattern fails for the tokens, never for the stacks.
pub proof fn lemma_expect_error(tokens: Seq<TokenView>, pat: Seq<TokenView>, i: int)
    ensures
        expect(tokens, pat, i) matches Err(e) ==> !(e is Inconsistent),
    decreases pat.len() - i,
{
    if 0 <= i < pat.len() && tokens.len() > 0 && tokens.last() == pat[i] {
        lemma_expect_error(tokens.drop_last(), pat, i + 1);
    }
}

/// Reading keys fails for the tokens, never for the stacks.
pub proof fn lemma_take_keys_error(tokens: Seq<TokenView>, n: nat)
    ensures
        take_keys(tokens, n) matches Err(e) ==> !(e is Inconsistent),
    decreases n,
{
    if n > 0 && tokens.len() > 0 {
        lemma_take_keys_error(tokens.drop_last(), (n - 1) as nat);
    }
}

/// Every step from a state whose stacks fit each other keeps the stream
/// whole, and none fails for the stacks.
pub proof fn lemma_step_keeps<Ext: Extension<PublicKey>>(kind: ContextKind, m: Machine<Ext>)
    requires
        consumed(m) is Some,
    ensures
        keeps(m, step(kind, m)),
{
    if m.non_term.len() == 0 {
        assert(m.term.drop_last().len() == 0);
    } else {
        match m.non_term.last() {
            NonTerm::Expression => lemma_step_expression(kind, m),
            NonTerm::MaybeSwap => lemma_step_swap(kind, m),
            NonTerm::MaybeAndV => lemma_step_and_v(kind, m),
            NonTerm::Alt => lemma_step_alt(kind, m),
            NonTerm::Check
            | NonTerm::DupIf
            | NonTerm::Verify
            | NonTerm::NonZero
            | NonTerm::ZeroNotEqual => lemma_step_wrap(kind, m),
            NonTerm::AndV => {
                if crate::machine::and_v_follows(m.tokens) {
                    lemma_step_and_v(kind, m);
                } else {
                    lemma_step_pair(kind, m);
                }
            },
            NonTerm::AndB | NonTerm::OrB | NonTerm::OrC | NonTerm::OrD => lemma_step_pair(kind, m),
            NonTerm::Tern => lemma_step_tern(kind, m),
            NonTerm::ThreshW { .. } => lemma_step_thresh(kind, m),
            NonTerm::ThreshE { .. } => lemma_step_thresh_end(kind, m),
            NonTerm::EndIf => lemma_step_end_if(kind, m),
            NonTerm::EndIfNotIf => lemma_step_not_if(kind, m),
            NonTerm::EndIfElse => lemma_step_else(kind, m),
        }
    }
}

/// A run from a state whose stacks fit each other ends in a tree that the
/// tokens which were read encode, or in an error that is not one of the stacks.
pub proof fn lemma_run_sound<Ext: Extension<PublicKey>>(kind: ContextKind, m: Machine<Ext>)
    requires
        consumed(m) is Some,
    ensures
        match run(kind, m).0 {
            Ok(tree) => Some(run(kind, m).1 + tree.script_tokens()) == whole(m),
            Err(e) => !(e is Inconsistent),
        },
    decreases m.tokens.len(), crate::machine::potential(
        m.non_term,
        crate::machine::and_v_follows(m.tokens),
    ),
{
    lemma_step_keeps(kind, m);
    match step(kind, m) {
        Step::Next(m2) => {
            crate::machine::lemma_step_decreases(kind, m);
            lemma_run_sound(kind, m2);
        },
        Step::Done => {
            let t = m.term[0].script_tokens();
            assert(m.term.last() == m.term[0]);
            assert(m.term.drop_last() =~= Seq::<Tree<Ext>>::empty());
            assert(t + Seq::<TokenView>::empty() =~= t);
        },
        Step::Fail(_) => {},
    }
}

/// Decoding is sound: the tree that comes out is encoded by exactly the
/// tokens that were read, which are the end of the stream; and decoding
/// never fails for its own stacks.
pub proof fn lemma_decode_sound<Ext: Extension<PublicKey>>(kind: ContextKind, tokens: Seq<TokenView>)
    ensures
        match decode::<Ext>(kind, tokens).0 {
            Ok(tree) => decode::<Ext>(kind, tokens).1 + tree.script_tokens() == tokens,
            Err(e) => !(e is Inconsistent),
        },
{
    let m = start::<Ext>(tokens);
    let rest = m.non_term.drop_last();
    assert(rest =~= seq![NonTerm::MaybeAndV, NonTerm::MaybeSwap]);
    let none = Seq::<NonTerm>::empty();
    assert(rest =~= none.push(NonTerm::MaybeAndV).push(NonTerm::MaybeSwap));
    lemma_unfold(none.push(NonTerm::MaybeAndV), NonTerm::MaybeSwap, m.term);
    lemma_unfold(none, NonTerm::MaybeAndV, m.term);
    let empty = Seq::<TokenView>::empty();
    assert(wrap_tail(NonTerm::MaybeSwap) + (wrap_tail(NonTerm::MaybeAndV) + empty) =~= empty);
    assert(wrap_tail(NonTerm::MaybeAndV) + empty =~= empty);
    assert(consumed(m) == Some(empty));
    assert(tokens + empty =~= tokens);
    lemma_run_sound(kind, m);
}

} // verus!
