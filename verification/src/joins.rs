//! The joins of a threshold: one `ADD` after each child but the first, no
//! more and no fewer.

use vstd::prelude::*;
use crate::context::ContextKind;
use crate::decode::NonTerm;
use crate::error::ErrorView;
use crate::extension::Extension;
use crate::key::PublicKey;
use crate::lex::TokenView;
use crate::machine::and_v_follows;
use crate::machine::decode;
use crate::machine::potential;
use crate::machine::reduce;
use crate::machine::reduce0;
use crate::machine::reduce1;
use crate::machine::reduce2;
use crate::machine::reduce3;
use crate::machine::reduce_thresh;
use crate::machine::top_first;
use crate::machine::run;
use crate::machine::shift_equal;
use crate::machine::shift_expression;
use crate::machine::start;
use crate::machine::step;
use crate::machine::lemma_step_decreases;
use crate::machine::wrap1;
use crate::machine::wrap2;
use crate::machine::Machine;
use crate::machine::Node;
use crate::machine::Step;
use crate::machine::Tree;
use crate::miniscript::MiniscriptView;
use crate::sound::consumed;
use crate::sound::keeps;
use crate::sound::lemma_step_keeps;
use crate::sound::lemma_unfold;
use crate::sound::wrap_tail;
use crate::miniscript::TerminalView;
use crate::types::Correctness;
use crate::types::Type;

verus! {

/// The state `m` with the expectations `base` below its own.
pub open spec fn over<Ext>(base: Seq<NonTerm>, m: Machine<Ext>) -> Machine<Ext> {
    Machine { tokens: m.tokens, non_term: base + m.non_term, term: m.term }
}

/// The step `s` with the expectations `base` below those of the state that it leads to.
pub open spec fn step_over<Ext>(base: Seq<NonTerm>, s: Step<Ext>) -> Step<Ext> {
    match s {
        Step::Next(m) => Step::Next(over(base, m)),
        other => other,
    }
}

/// Runs the decoder from the state `m` until its expectations are met,
/// and gives the state then, or the error that ends decoding before.
pub open spec fn settle<Ext: Extension<PublicKey>>(kind: ContextKind, m: Machine<Ext>) -> Result<
    Machine<Ext>,
    ErrorView,
>
    decreases m.tokens.len(), potential(m.non_term, and_v_follows(m.tokens)),
{
    match step(kind, m) {
        Step::Done => Ok(m),
        Step::Fail(e) => Err(e),
        Step::Next(m2) => {
            proof {
                lemma_step_decreases(kind, m);
            }
            settle(kind, m2)
        },
    }
}

/// The state in which the decoder reads one child of a threshold off the
/// end of `tokens`, above the trees `term`.
pub open spec fn child<Ext>(tokens: Seq<TokenView>, term: Seq<Tree<Ext>>) -> Machine<Ext> {
    Machine { tokens, non_term: seq![NonTerm::MaybeSwap, NonTerm::Expression], term }
}

/// A step looks at the last expectation alone: what lies below it stays.
pub proof fn lemma_step_over<Ext: Extension<PublicKey>>(
    kind: ContextKind,
    base: Seq<NonTerm>,
    m: Machine<Ext>,
)
    requires
        m.non_term.len() > 0,
    ensures
        step(kind, over(base, m)) == step_over(base, step(kind, m)),
{
    let far = over(base, m);
    let rest = m.non_term.drop_last();
    assert(far.non_term.last() == m.non_term.last());
    assert(far.non_term.drop_last() =~= base + rest);
    assert forall|push: Seq<NonTerm>| #[trigger] ((base + rest) + push) == base + (rest + push) by {
        assert((base + rest) + push =~= base + (rest + push));
    }
}

/// A run meets the expectations on top first, and goes on with those below
/// from the state that this leaves.
pub proof fn lemma_run_over<Ext: Extension<PublicKey>>(
    kind: ContextKind,
    base: Seq<NonTerm>,
    m: Machine<Ext>,
)
    ensures
        run(kind, over(base, m)).0 == match settle(kind, m) {
            Err(e) => Err::<Tree<Ext>, ErrorView>(e),
            Ok(met) => run(
                kind,
                Machine { tokens: met.tokens, non_term: base, term: met.term },
            ).0,
        },
    decreases m.tokens.len(), potential(m.non_term, and_v_follows(m.tokens)),
{
    if m.non_term.len() == 0 {
        assert(base + m.non_term =~= base);
    } else {
        lemma_step_over(kind, base, m);
        match step(kind, m) {
            Step::Next(m2) => {
                lemma_step_decreases(kind, m);
                lemma_step_decreases(kind, over(base, m));
                lemma_run_over(kind, base, m2);
            },
            _ => {},
        }
    }
}

/// No expression ends in a join: where one is expected before an `ADD`,
/// decoding fails on that token, unless the extension reads a fragment of
/// its own there.
pub proof fn lemma_no_expression_ends_in_join<Ext: Extension<PublicKey>>(
    kind: ContextKind,
    m: Machine<Ext>,
)
    requires
        m.non_term.len() > 0,
        m.non_term.last() is Expression,
        m.tokens.len() > 0,
        m.tokens.last() is Add,
        Ext::decode(m.tokens) is None,
    ensures
        step(kind, m) == Step::<Ext>::Fail(ErrorView::Unexpected(TokenView::Add)),
        run(kind, m).0 == Err::<MiniscriptView<PublicKey, Ext>, ErrorView>(
            ErrorView::Unexpected(TokenView::Add),
        ),
{
    reveal(shift_expression);
}

/// Two joins never stand side by side: a threshold that has read a join
/// and finds another right before it fails to decode, whatever stands
/// before the two and however many children were read.
pub proof fn lemma_joins_never_adjacent<Ext: Extension<PublicKey>>(
    kind: ContextKind,
    m: Machine<Ext>,
)
    requires
        m.non_term.len() > 0,
        m.non_term.last() is ThreshW,
        m.tokens.len() >= 2,
        m.tokens[m.tokens.len() - 1] is Add,
        m.tokens[m.tokens.len() - 2] is Add,
        Ext::decode(m.tokens.drop_last()) is None,
    ensures
        run(kind, m).0 is Err,
        m.non_term.last()->ThreshW_n < usize::MAX ==> run(kind, m).0 == Err::<
            MiniscriptView<PublicKey, Ext>,
            ErrorView,
        >(ErrorView::Unexpected(TokenView::Add)),
{
    match step(kind, m) {
        Step::Next(m2) => {
            lemma_step_decreases(kind, m);
            lemma_no_expression_ends_in_join(kind, m2);
        },
        _ => {},
    }
}

/// A join too many before the count of a threshold: a stream that ends in
/// `ADD ADD <k> EQUAL` fails to decode in every context, whatever stands
/// before, unless the extension reads a fragment of its own there.
pub proof fn lemma_join_doubled<Ext: Extension<PublicKey>>(
    kind: ContextKind,
    front: Seq<TokenView>,
    k: u32,
)
    requires
        Ext::decode(
            front + seq![TokenView::Add, TokenView::Add, TokenView::Num(k), TokenView::Equal],
        ) is None,
        Ext::decode(front + seq![TokenView::Add]) is None,
    ensures
        decode::<Ext>(
            kind,
            front + seq![TokenView::Add, TokenView::Add, TokenView::Num(k), TokenView::Equal],
        ).0 == Err::<MiniscriptView<PublicKey, Ext>, ErrorView>(
            ErrorView::Unexpected(TokenView::Add),
        ),
{
    let tokens = front + seq![
        TokenView::Add,
        TokenView::Add,
        TokenView::Num(k),
        TokenView::Equal,
    ];
    let m = start::<Ext>(tokens);
    reveal(shift_expression);
    reveal(shift_equal);
    let joined = front + seq![TokenView::Add, TokenView::Add];
    assert(tokens.drop_last().drop_last() =~= joined);
    assert(joined.drop_last() =~= front + seq![TokenView::Add]);
    match step(kind, m) {
        Step::Next(m1) => {
            lemma_step_decreases(kind, m);
            assert(m1.tokens == joined);
            assert(m1.non_term.last() is ThreshW);
            assert(m1.non_term.last()->ThreshW_n == 0);
            lemma_joins_never_adjacent(kind, m1);
        },
        _ => {
            assert(false);
        },
    }
}

/// Each join announces one more child: a threshold that has read `n`
/// children and finds an `ADD` reads one child before it, and goes on as a
/// threshold that has read `n + 1`.
pub proof fn lemma_join_read<Ext: Extension<PublicKey>>(kind: ContextKind, m: Machine<Ext>)
    requires
        m.non_term.len() > 0,
        m.non_term.last() is ThreshW,
        m.non_term.last()->ThreshW_n < usize::MAX,
        m.tokens.len() > 0,
        m.tokens.last() is Add,
    ensures
        run(kind, m).0 == match settle(kind, child(m.tokens.drop_last(), m.term)) {
            Err(e) => Err::<Tree<Ext>, ErrorView>(e),
            Ok(met) => run(
                kind,
                Machine {
                    tokens: met.tokens,
                    non_term: m.non_term.drop_last().push(
                        NonTerm::ThreshW {
                            k: m.non_term.last()->ThreshW_k,
                            n: (m.non_term.last()->ThreshW_n + 1) as usize,
                        },
                    ),
                    term: met.term,
                },
            ).0,
        },
{
    let k = m.non_term.last()->ThreshW_k;
    let n = m.non_term.last()->ThreshW_n;
    let base = m.non_term.drop_last().push(NonTerm::ThreshW { k, n: (n + 1) as usize });
    let reading = child(m.tokens.drop_last(), m.term);
    lemma_step_decreases(kind, m);
    match step(kind, m) {
        Step::Next(m2) => {
            assert(m2.non_term =~= base + reading.non_term);
            assert(m2 == over(base, reading));
            lemma_run_over(kind, base, reading);
        },
        _ => {
            assert(false);
        },
    }
}

/// Where no join stands, the threshold closes: a threshold that has read
/// `n` children and finds another token than `ADD` reads its first child
/// there, and is built over the `n + 1` trees on top.
pub proof fn lemma_threshold_closes<Ext: Extension<PublicKey>>(kind: ContextKind, m: Machine<Ext>)
    requires
        m.non_term.len() > 0,
        m.non_term.last() is ThreshW,
        m.non_term.last()->ThreshW_n < usize::MAX,
        m.tokens.len() > 0,
        !(m.tokens.last() is Add),
    ensures
        run(kind, m).0 == match settle(kind, child(m.tokens, m.term)) {
            Err(e) => Err::<Tree<Ext>, ErrorView>(e),
            Ok(met) => match reduce_thresh(
                kind,
                met.term,
                m.non_term.last()->ThreshW_k,
                (m.non_term.last()->ThreshW_n + 1) as usize,
            ) {
                Err(e) => Err(e),
                Ok(term) => run(
                    kind,
                    Machine { tokens: met.tokens, non_term: m.non_term.drop_last(), term },
                ).0,
            },
        },
{
    let k = m.non_term.last()->ThreshW_k;
    let n = m.non_term.last()->ThreshW_n;
    let rest = m.non_term.drop_last();
    let base = rest.push(NonTerm::ThreshE { k, n: (n + 1) as usize });
    let reading = child(m.tokens, m.term);
    lemma_step_decreases(kind, m);
    match step(kind, m) {
        Step::Next(m2) => {
            assert(m2.non_term =~= base + reading.non_term);
            assert(m2 == over(base, reading));
            lemma_run_over(kind, base, reading);
            match settle(kind, reading) {
                Ok(met) => {
                    let closing = Machine { tokens: met.tokens, non_term: base, term: met.term };
                    assert(base.drop_last() =~= rest);
                    lemma_step_decreases(kind, closing);
                },
                Err(_) => {},
            }
        },
        _ => {
            assert(false);
        },
    }
}

/// A wrong child makes the children of a threshold wrong.
pub proof fn lemma_child_error(subs: Seq<Type>, n: int, i: int)
    requires
        0 <= i < n <= subs.len(),
        Correctness::threshold_child_error(i, subs[i].corr) is Some,
    ensures
        Type::threshold_first_error(subs, n) is Some,
    decreases n,
{
    if i < n - 1 {
        lemma_child_error(subs, n - 1, i);
    }
}

/// A threshold is built only over a first child of base `B` and other
/// children of base `W`.
pub proof fn lemma_threshold_bases<Ext: Extension<PublicKey>>(
    kind: ContextKind,
    term: Seq<Tree<Ext>>,
    k: usize,
    n: usize,
    i: int,
)
    requires
        0 <= i < n,
        reduce_thresh(kind, term, k, n) is Ok,
    ensures
        n <= term.len(),
        i == 0 ==> term[term.len() - 1].ty.corr.base is B,
        i > 0 ==> term[term.len() - 1 - i].ty.corr.base is W,
{
    reveal(reduce);
    let subs = top_first(term, n as nat);
    let node = TerminalView::<PublicKey, Ext>::Thresh(k, subs);
    let tys = node.child_types();
    assert(tys.len() == n);
    assert(tys[i] == term[term.len() - 1 - i].ty);
    if Correctness::threshold_child_error(i, tys[i].corr) is Some {
        lemma_child_error(tys, n as int, i);
    }
}

/// A join too few before the count of a threshold: where the child that
/// stands right before `<k> EQUAL` is not of base `B`, as no child but the
/// first is, the stream fails to decode in every context, unless the
/// extension reads a fragment of its own there.
pub proof fn lemma_join_missing<Ext: Extension<PublicKey>>(
    kind: ContextKind,
    front: Seq<TokenView>,
    k: u32,
)
    requires
        front.len() > 0,
        !(front.last() is Add),
        Ext::decode(front + seq![TokenView::Num(k), TokenView::Equal]) is None,
        settle(kind, child::<Ext>(front, Seq::empty())) matches Ok(met) ==> met.term.len() > 0
            ==> !(met.term.last().ty.corr.base is B),
    ensures
        decode::<Ext>(kind, front + seq![TokenView::Num(k), TokenView::Equal]).0 is Err,
{
    let tokens = front + seq![TokenView::Num(k), TokenView::Equal];
    let m = start::<Ext>(tokens);
    reveal(shift_expression);
    reveal(shift_equal);
    assert(tokens.drop_last().drop_last() =~= front);
    match step(kind, m) {
        Step::Next(m1) => {
            lemma_step_decreases(kind, m);
            assert(m1.tokens == front);
            assert(m1.term == Seq::<Tree<Ext>>::empty());
            assert(m1.non_term.last() == NonTerm::ThreshW { k: k as usize, n: 0 });
            lemma_threshold_closes(kind, m1);
            match settle(kind, child::<Ext>(front, Seq::empty())) {
                Ok(met) => {
                    if reduce_thresh(kind, met.term, k as usize, 1) is Ok {
                        lemma_threshold_bases(kind, met.term, k as usize, 1, 0);
                    }
                },
                Err(_) => {},
            }
        },
        _ => {
            assert(false);
        },
    }
}

/// The state `m` with the trees `below` under its own.
pub open spec fn above<Ext>(below: Seq<Tree<Ext>>, m: Machine<Ext>) -> Machine<Ext> {
    Machine { tokens: m.tokens, non_term: m.non_term, term: below + m.term }
}

/// The step `s` with the trees `below` under those of the state that it leads to.
pub open spec fn step_above<Ext>(below: Seq<Tree<Ext>>, s: Step<Ext>) -> Step<Ext> {
    match s {
        Step::Next(m) => Step::Next(above(below, m)),
        other => other,
    }
}

/// The trees that a reduction leaves, with the trees `below` under them.
pub open spec fn term_above<Ext>(
    below: Seq<Tree<Ext>>,
    r: Result<Seq<Tree<Ext>>, ErrorView>,
) -> Result<Seq<Tree<Ext>>, ErrorView> {
    match r {
        Ok(term) => Ok(below + term),
        Err(e) => Err(e),
    }
}

/// A fragment is put on top of whatever lies below.
pub proof fn lemma_reduce0_above<Ext: Extension<PublicKey>>(
    kind: ContextKind,
    below: Seq<Tree<Ext>>,
    term: Seq<Tree<Ext>>,
    node: Node<Ext>,
)
    ensures
        reduce0(kind, below + term, node) == term_above(below, reduce0(kind, term, node)),
{
    match reduce(kind, node, true) {
        Ok(tree) => {
            assert((below + term).push(tree) =~= below + term.push(tree));
        },
        Err(_) => {},
    }
}

/// A reduction that finds its trees leaves what lies below them.
pub proof fn lemma_reduce_above<Ext: Extension<PublicKey>>(
    kind: ContextKind,
    below: Seq<Tree<Ext>>,
    term: Seq<Tree<Ext>>,
    tag: NonTerm,
)
    ensures
        term.len() >= 1 ==> reduce1(kind, below + term, tag) == term_above(
            below,
            reduce1(kind, term, tag),
        ),
        term.len() >= 2 ==> reduce2(kind, below + term, tag) == term_above(
            below,
            reduce2(kind, term, tag),
        ),
        term.len() >= 3 ==> reduce3(kind, below + term) == term_above(below, reduce3(kind, term)),
{
    let far = below + term;
    let n = term.len() as int;
    let f = far.len() as int;
    if n >= 1 {
        assert(far.drop_last() =~= below + term.drop_last());
        lemma_reduce0_above(kind, below, term.drop_last(), wrap1(tag, term.last()));
    }
    if n >= 2 {
        assert(far.subrange(0, f - 2) =~= below + term.subrange(0, n - 2));
        lemma_reduce0_above(
            kind,
            below,
            term.subrange(0, n - 2),
            wrap2(tag, term[n - 1], term[n - 2]),
        );
    }
    if n >= 3 {
        assert(far.subrange(0, f - 3) =~= below + term.subrange(0, n - 3));
        assert(far[f - 1] == term[n - 1] && far[f - 2] == term[n - 2] && far[f - 3] == term[n
            - 3]);
        lemma_reduce0_above(
            kind,
            below,
            term.subrange(0, n - 3),
            TerminalView::AndOr(
                Box::new(term[n - 1]),
                Box::new(term[n - 3]),
                Box::new(term[n - 2]),
            ),
        );
    }
}

/// A threshold that finds its children leaves what lies below them.
pub proof fn lemma_thresh_above<Ext: Extension<PublicKey>>(
    kind: ContextKind,
    below: Seq<Tree<Ext>>,
    term: Seq<Tree<Ext>>,
    k: usize,
    n: usize,
)
    requires
        n <= term.len(),
    ensures
        reduce_thresh(kind, below + term, k, n) == term_above(
            below,
            reduce_thresh(kind, term, k, n),
        ),
{
    let far = below + term;
    assert(top_first(far, n as nat) =~= top_first(term, n as nat));
    assert(far.subrange(0, far.len() - n) =~= below + term.subrange(0, term.len() - n));
    lemma_reduce0_above(
        kind,
        below,
        term.subrange(0, term.len() - n),
        TerminalView::Thresh(k, top_first(term, n as nat)),
    );
}

/// A step that finds the trees it takes leaves what lies below them.
pub proof fn lemma_step_above<Ext: Extension<PublicKey>>(
    kind: ContextKind,
    below: Seq<Tree<Ext>>,
    m: Machine<Ext>,
)
    requires
        step(kind, m) != Step::<Ext>::Fail(ErrorView::Inconsistent),
    ensures
        step(kind, above(below, m)) == step_above(below, step(kind, m)),
{
    if m.non_term.len() > 0 {
        let top = m.non_term.last();
        lemma_reduce_above(kind, below, m.term, top);
        match top {
            NonTerm::ThreshE { k, n } => {
                if n <= m.term.len() {
                    lemma_thresh_above(kind, below, m.term, k, n);
                }
            },
            NonTerm::Expression => {
                if Ext::decode(m.tokens) is Some {
                    let (e, _) = Ext::decode(m.tokens)->0;
                    lemma_reduce0_above(kind, below, m.term, TerminalView::Ext(e));
                } else {
                    match shift_expression::<Ext>(m.tokens) {
                        Ok(s) => {
                            if s.leaf is Some {
                                lemma_reduce0_above(kind, below, m.term, s.leaf->0);
                            }
                        },
                        Err(_) => {},
                    }
                }
            },
            _ => {},
        }
    }
}

/// Meeting expectations whose stacks fit each other leaves what lies
/// below their trees, reads from the end of the stream, and ends with one
/// tree.
pub proof fn lemma_settle_above<Ext: Extension<PublicKey>>(
    kind: ContextKind,
    below: Seq<Tree<Ext>>,
    m: Machine<Ext>,
)
    requires
        consumed(m) is Some,
    ensures
        match settle(kind, m) {
            Ok(met) => settle(kind, above(below, m)) == Ok::<Machine<Ext>, ErrorView>(
                above(below, met),
            ) && met.term.len() == 1 && met.tokens.len() <= m.tokens.len(),
            Err(e) => settle(kind, above(below, m)) == Err::<Machine<Ext>, ErrorView>(e),
        },
    decreases m.tokens.len(), potential(m.non_term, and_v_follows(m.tokens)),
{
    lemma_step_keeps(kind, m);
    lemma_step_above(kind, below, m);
    match step(kind, m) {
        Step::Next(m2) => {
            lemma_step_decreases(kind, m);
            lemma_settle_above(kind, below, m2);
        },
        _ => {},
    }
}

/// Reading a child of a threshold puts one tree on those that were there.
pub proof fn lemma_child_read<Ext: Extension<PublicKey>>(
    kind: ContextKind,
    tokens: Seq<TokenView>,
    term: Seq<Tree<Ext>>,
)
    ensures
        match settle(kind, child::<Ext>(tokens, Seq::empty())) {
            Ok(met) => met.term.len() == 1 && met.tokens.len() <= tokens.len() && settle(
                kind,
                child(tokens, term),
            ) == Ok::<Machine<Ext>, ErrorView>(
                Machine {
                    tokens: met.tokens,
                    non_term: met.non_term,
                    term: term.push(met.term[0]),
                },
            ),
            Err(e) => settle(kind, child(tokens, term)) == Err::<Machine<Ext>, ErrorView>(e),
        },
{
    let none = Seq::<Tree<Ext>>::empty();
    let m = child::<Ext>(tokens, none);
    let rest = m.non_term.drop_last();
    let bottom = Seq::<NonTerm>::empty();
    assert(rest =~= bottom.push(NonTerm::MaybeSwap));
    lemma_unfold(bottom, NonTerm::MaybeSwap, m.term);
    assert(consumed(m) is Some);
    lemma_settle_above(kind, term, m);
    assert(above(term, m) == child(tokens, term)) by {
        assert(term + none =~= term);
    }
    match settle(kind, m) {
        Ok(met) => {
            assert(term + met.term =~= term.push(met.term[0]));
        },
        Err(_) => {},
    }
}

/// The children that a threshold has read before its joins are of base
/// `W` wherever decoding succeeds: none of them is the first child.
pub proof fn lemma_joined_children<Ext: Extension<PublicKey>>(
    kind: ContextKind,
    m: Machine<Ext>,
    i: int,
)
    requires
        m.non_term.len() > 0,
        m.non_term.last() is ThreshW,
        0 <= i < m.non_term.last()->ThreshW_n <= m.term.len(),
        run(kind, m).0 is Ok,
    ensures
        m.term[m.term.len() - 1 - i].ty.corr.base is W,
    decreases m.tokens.len(),
{
    let k = m.non_term.last()->ThreshW_k;
    let n = m.non_term.last()->ThreshW_n;
    let more = (n + 1) as usize;
    lemma_step_decreases(kind, m);
    if m.tokens.len() > 0 && n < usize::MAX {
        if m.tokens.last() is Add {
            lemma_join_read(kind, m);
            lemma_child_read(kind, m.tokens.drop_last(), m.term);
            match settle(kind, child(m.tokens.drop_last(), m.term)) {
                Ok(met) => {
                    let next = Machine {
                        tokens: met.tokens,
                        non_term: m.non_term.drop_last().push(NonTerm::ThreshW { k, n: more }),
                        term: met.term,
                    };
                    lemma_joined_children(kind, next, i + 1);
                },
                Err(_) => {},
            }
        } else {
            lemma_threshold_closes(kind, m);
            lemma_child_read(kind, m.tokens, m.term);
            match settle(kind, child(m.tokens, m.term)) {
                Ok(met) => {
                    lemma_threshold_bases(kind, met.term, k, more, i + 1);
                },
                Err(_) => {},
            }
        }
    }
}

/// A join too few, wherever it is missed: where decoding succeeds from a
/// threshold that finds an `ADD`, it fails from the same state without
/// that token. What stands before is then read as the first child, which
/// it cannot be.
pub proof fn lemma_join_removed_at<Ext: Extension<PublicKey>>(kind: ContextKind, m: Machine<Ext>)
    requires
        m.non_term.len() > 0,
        m.non_term.last() is ThreshW,
        m.non_term.last()->ThreshW_n <= m.term.len(),
        m.tokens.len() >= 2,
        m.tokens[m.tokens.len() - 1] is Add,
        !(m.tokens[m.tokens.len() - 2] is Add),
        run(kind, m).0 is Ok,
    ensures
        run(
            kind,
            Machine { tokens: m.tokens.drop_last(), non_term: m.non_term, term: m.term },
        ).0 is Err,
{
    let k = m.non_term.last()->ThreshW_k;
    let n = m.non_term.last()->ThreshW_n;
    let more = (n + 1) as usize;
    let front = m.tokens.drop_last();
    let without = Machine { tokens: front, non_term: m.non_term, term: m.term };
    lemma_step_decreases(kind, m);
    assert(n < usize::MAX);
    lemma_join_read(kind, m);
    lemma_threshold_closes(kind, without);
    lemma_child_read(kind, front, m.term);
    match settle(kind, child(front, m.term)) {
        Ok(met) => {
            let next = Machine {
                tokens: met.tokens,
                non_term: m.non_term.drop_last().push(NonTerm::ThreshW { k, n: more }),
                term: met.term,
            };
            lemma_joined_children(kind, next, 0);
            if reduce_thresh(kind, met.term, k, more) is Ok {
                lemma_threshold_bases(kind, met.term, k, more, 0);
            }
        },
        Err(_) => {},
    }
}

/// A join too few before the count: a stream that decodes with an `ADD`
/// before the count of a threshold fails to decode without it, in the same
/// context, unless the extension reads a fragment of its own there.
pub proof fn lemma_join_removed<Ext: Extension<PublicKey>>(
    kind: ContextKind,
    front: Seq<TokenView>,
    k: u32,
)
    requires
        front.len() > 0,
        !(front.last() is Add),
        Ext::decode(front + seq![TokenView::Add, TokenView::Num(k), TokenView::Equal]) is None,
        Ext::decode(front + seq![TokenView::Num(k), TokenView::Equal]) is None,
        decode::<Ext>(
            kind,
            front + seq![TokenView::Add, TokenView::Num(k), TokenView::Equal],
        ).0 is Ok,
    ensures
        decode::<Ext>(kind, front + seq![TokenView::Num(k), TokenView::Equal]).0 is Err,
{
    let with = front + seq![TokenView::Add, TokenView::Num(k), TokenView::Equal];
    let without = front + seq![TokenView::Num(k), TokenView::Equal];
    reveal(shift_expression);
    reveal(shift_equal);
    let joined = front + seq![TokenView::Add];
    assert(with.drop_last().drop_last() =~= joined);
    assert(without.drop_last().drop_last() =~= front);
    assert(joined.drop_last() =~= front);
    lemma_step_decreases(kind, start::<Ext>(with));
    lemma_step_decreases(kind, start::<Ext>(without));
    match (step(kind, start::<Ext>(with)), step(kind, start::<Ext>(without))) {
        (Step::Next(m1), Step::Next(m2)) => {
            assert(m1.tokens == joined);
            assert(m2 == Machine { tokens: front, non_term: m1.non_term, term: m1.term });
            lemma_join_removed_at(kind, m1);
        },
        _ => {
            assert(false);
        },
    }
}

} // verus!
