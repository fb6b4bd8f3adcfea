//! Why every fragment of a decoded tree is typed and legal in its context.

use vstd::prelude::*;
use crate::context::ContextKind;
use crate::decode::NonTerm;
use crate::extension::Extension;
use crate::extra_props::ExtData;
use crate::key::MiniscriptKey;
use crate::key::PublicKey;
use crate::lex::TokenView;
use crate::machine::and_v_follows;
use crate::machine::decode;
use crate::machine::lemma_step_decreases;
use crate::machine::potential;
use crate::machine::reduce;
use crate::machine::reduce0;
use crate::machine::reduce1;
use crate::machine::reduce2;
use crate::machine::reduce3;
use crate::machine::reduce_thresh;
use crate::machine::with_term;
use crate::machine::wrap1;
use crate::machine::wrap2;
use crate::machine::run;
use crate::machine::start;
use crate::machine::step;
use crate::machine::top_first;
use crate::machine::Machine;
use crate::machine::Step;
use crate::machine::Tree;
use crate::miniscript::MiniscriptView;
use crate::miniscript::TerminalView;
use crate::types::Type;

verus! {

/// Whether the root of the tree carries the type and the cost annotations
/// that inference gives it from those of its children, and the context
/// accepts it by its global rules.
#[verifier::opaque]
pub open spec fn sound_root<Pk: MiniscriptKey, Ext: Extension<Pk>>(
    kind: ContextKind,
    tree: MiniscriptView<Pk, Ext>,
) -> bool {
    &&& Type::infer(tree.node, tree.node.child_types()) == Ok::<Type, crate::types::ErrorKind>(
        tree.ty,
    )
    &&& ExtData::infer(kind.sig_type(), tree.node, tree.node.child_exts()) == Ok::<
        ExtData,
        crate::types::ErrorKind,
    >(tree.ext)
    &&& kind.global_validity(tree) is Ok
}

/// Whether every fragment of the tree carries the type and the cost
/// annotations that inference gives it, and the context accepts each by
/// its global rules.
pub open spec fn well_typed<Pk: MiniscriptKey, Ext: Extension<Pk>>(
    kind: ContextKind,
    tree: MiniscriptView<Pk, Ext>,
) -> bool
    decreases tree,
{
    sound_root(kind, tree) && match tree.node {
        TerminalView::Alt(x)
        | TerminalView::Swap(x)
        | TerminalView::Check(x)
        | TerminalView::DupIf(x)
        | TerminalView::Verify(x)
        | TerminalView::NonZero(x)
        | TerminalView::ZeroNotEqual(x) => well_typed(kind, *x),
        TerminalView::AndV(a, b)
        | TerminalView::AndB(a, b)
        | TerminalView::OrB(a, b)
        | TerminalView::OrD(a, b)
        | TerminalView::OrC(a, b)
        | TerminalView::OrI(a, b) => well_typed(kind, *a) && well_typed(kind, *b),
        TerminalView::AndOr(a, b, c) => well_typed(kind, *a) && well_typed(kind, *b)
            && well_typed(kind, *c),
        TerminalView::Thresh(_, subs) => forall|i: int|
            0 <= i < subs.len() ==> well_typed(kind, #[trigger] subs[i]),
        _ => true,
    }
}

/// Whether every tree of the stack is well typed.
pub open spec fn all_typed<Ext: Extension<PublicKey>>(kind: ContextKind, term: Seq<Tree<Ext>>) -> bool {
    forall|i: int| 0 <= i < term.len() ==> well_typed(kind, #[trigger] term[i])
}

/// Whether every child of the fragment is well typed.
pub open spec fn children_typed<Ext: Extension<PublicKey>>(
    kind: ContextKind,
    node: TerminalView<PublicKey, Ext>,
) -> bool {
    forall|i: int|
        0 <= i < node.children().len() ==> well_typed(kind, #[trigger] node.children()[i])
}

/// A fragment over well-typed children that was typed and validated is a
/// well-typed tree.
pub proof fn lemma_reduce_typed<Ext: Extension<PublicKey>>(
    kind: ContextKind,
    node: TerminalView<PublicKey, Ext>,
)
    requires
        children_typed(kind, node),
    ensures
        reduce(kind, node, true) matches Ok(tree) ==> well_typed(kind, tree),
{
    match reduce(kind, node, true) {
        Ok(tree) => {
            assert(tree.node == node && sound_root(kind, tree)) by {
                reveal(reduce);
                reveal(sound_root);
            }
            match node {
                TerminalView::Alt(x)
                | TerminalView::Swap(x)
                | TerminalView::Check(x)
                | TerminalView::DupIf(x)
                | TerminalView::Verify(x)
                | TerminalView::NonZero(x)
                | TerminalView::ZeroNotEqual(x) => {
                    assert(node.children()[0] == *x);
                },
                TerminalView::AndV(a, b)
                | TerminalView::AndB(a, b)
                | TerminalView::OrB(a, b)
                | TerminalView::OrD(a, b)
                | TerminalView::OrC(a, b)
                | TerminalView::OrI(a, b) => {
                    assert(node.children()[0] == *a);
                    assert(node.children()[1] == *b);
                },
                TerminalView::AndOr(a, b, c) => {
                    assert(node.children()[0] == *a);
                    assert(node.children()[1] == *b);
                    assert(node.children()[2] == *c);
                },
                TerminalView::Thresh(_, subs) => {
                    assert(node.children() == subs);
                },
                _ => {},
            }
        },
        Err(_) => {},
    }
}

/// A reduction onto a stack of well-typed trees leaves one.
pub proof fn lemma_reduce0_typed<Ext: Extension<PublicKey>>(
    kind: ContextKind,
    term: Seq<Tree<Ext>>,
    node: TerminalView<PublicKey, Ext>,
)
    requires
        all_typed(kind, term),
        children_typed(kind, node),
    ensures
        reduce0(kind, term, node) matches Ok(after) ==> all_typed(kind, after),
{
    lemma_reduce_typed(kind, node);
}

/// A wrapper over the top of a stack of well-typed trees leaves one.
pub proof fn lemma_reduce1_typed<Ext: Extension<PublicKey>>(
    kind: ContextKind,
    term: Seq<Tree<Ext>>,
    tag: NonTerm,
)
    requires
        all_typed(kind, term),
    ensures
        reduce1(kind, term, tag) matches Ok(after) ==> all_typed(kind, after),
{
    if term.len() >= 1 {
        let node = wrap1(tag, term.last());
        assert(node.children() =~= seq![term.last()]);
        lemma_reduce0_typed(kind, term.drop_last(), node);
    }
}

/// A combinator over the top of a stack of well-typed trees leaves one.
pub proof fn lemma_reduce2_typed<Ext: Extension<PublicKey>>(
    kind: ContextKind,
    term: Seq<Tree<Ext>>,
    tag: NonTerm,
)
    requires
        all_typed(kind, term),
    ensures
        reduce2(kind, term, tag) matches Ok(after) ==> all_typed(kind, after),
{
    if term.len() >= 2 {
        let n = term.len() as int;
        let node = wrap2(tag, term[n - 1], term[n - 2]);
        assert(node.children() =~= seq![term[n - 1], term[n - 2]]);
        lemma_reduce0_typed(kind, term.subrange(0, n - 2), node);
    }
}

/// An `andor` over the top of a stack of well-typed trees leaves one.
pub proof fn lemma_reduce3_typed<Ext: Extension<PublicKey>>(
    kind: ContextKind,
    term: Seq<Tree<Ext>>,
)
    requires
        all_typed(kind, term),
    ensures
        reduce3(kind, term) matches Ok(after) ==> all_typed(kind, after),
{
    if term.len() >= 3 {
        let n = term.len() as int;
        let node = TerminalView::<PublicKey, Ext>::AndOr(
            Box::new(term[n - 1]),
            Box::new(term[n - 3]),
            Box::new(term[n - 2]),
        );
        assert(node.children() =~= seq![term[n - 1], term[n - 3], term[n - 2]]);
        lemma_reduce0_typed(kind, term.subrange(0, n - 3), node);
    }
}

/// A threshold over the top of a stack of well-typed trees leaves one.
pub proof fn lemma_thresh_typed<Ext: Extension<PublicKey>>(
    kind: ContextKind,
    term: Seq<Tree<Ext>>,
    k: usize,
    n: usize,
)
    requires
        all_typed(kind, term),
    ensures
        reduce_thresh(kind, term, k, n) matches Ok(after) ==> all_typed(kind, after),
{
    if term.len() >= n {
        let node = TerminalView::<PublicKey, Ext>::Thresh(k, top_first(term, n as nat));
        assert(node.children() == top_first(term, n as nat));
        lemma_reduce0_typed(kind, term.subrange(0, term.len() - n), node);
    }
}

/// The leaf that a shift reduces has no children.
pub proof fn lemma_leaf_has_no_children<Ext: Extension<PublicKey>>(tokens: Seq<TokenView>)
    ensures
        crate::machine::shift_expression::<Ext>(tokens) matches Ok(s) ==> (s.leaf matches Some(
            node,
        ) ==> node.children().len() == 0),
{
    reveal(crate::machine::shift_expression);
    reveal(crate::machine::shift_equal);
}

/// Whether the step `s` leaves a stack of well-typed trees.
pub open spec fn stays_typed<Ext: Extension<PublicKey>>(kind: ContextKind, s: Step<Ext>) -> bool {
    s matches Step::Next(m2) ==> all_typed(kind, m2.term)
}

/// Reading an expression leaves a stack of well-typed trees as one.
pub proof fn lemma_typed_expression<Ext: Extension<PublicKey>>(kind: ContextKind, m: Machine<Ext>)
    requires
        all_typed(kind, m.term),
        m.non_term.len() > 0,
        m.non_term.last() is Expression,
    ensures
        stays_typed(kind, step(kind, m)),
{
    let rest = m.non_term.drop_last();
    if Ext::decode(m.tokens) is Some {
        let (e, tokens) = Ext::decode(m.tokens)->0;
        let node = TerminalView::<PublicKey, Ext>::Ext(e);
        assert(step(kind, m) == with_term(tokens, rest, reduce0(kind, m.term, node)));
        lemma_reduce0_typed(kind, m.term, node);
    } else {
        assert(step(kind, m) == crate::machine::step_expression(
            kind,
            m.tokens,
            rest,
            m.term,
        ));
        lemma_leaf_has_no_children::<Ext>(m.tokens);
        match crate::machine::shift_expression::<Ext>(m.tokens) {
            Ok(s) => {
                match s.leaf {
                    Some(node) => {
                        lemma_reduce0_typed(kind, m.term, node);
                    },
                    None => {},
                }
            },
            Err(_) => {},
        }
    }
}

/// The reductions leave a stack of well-typed trees as one.
pub proof fn lemma_typed_reductions<Ext: Extension<PublicKey>>(kind: ContextKind, m: Machine<Ext>)
    requires
        all_typed(kind, m.term),
        m.non_term.len() > 0,
        !(m.non_term.last() is Expression),
        !(m.non_term.last() is EndIf),
        !(m.non_term.last() is ThreshW),
    ensures
        stays_typed(kind, step(kind, m)),
{
    let top = m.non_term.last();
    lemma_reduce1_typed(kind, m.term, top);
    lemma_reduce2_typed(kind, m.term, top);
    lemma_reduce3_typed(kind, m.term);
    match top {
        NonTerm::ThreshE { k, n } => {
            lemma_thresh_typed(kind, m.term, k, n);
        },
        _ => {},
    }
}

/// A step leaves a stack of well-typed trees as one.
pub proof fn lemma_step_typed<Ext: Extension<PublicKey>>(kind: ContextKind, m: Machine<Ext>)
    requires
        all_typed(kind, m.term),
    ensures
        stays_typed(kind, step(kind, m)),
{
    if m.non_term.len() > 0 {
        match m.non_term.last() {
            NonTerm::Expression => lemma_typed_expression(kind, m),
            NonTerm::EndIf => {
                assert(step(kind, m) == crate::machine::step_end_if(
                    m.tokens,
                    m.non_term.drop_last(),
                    m.term,
                ));
            },
            NonTerm::ThreshW { k, n } => {
                assert(step(kind, m) == crate::machine::step_thresh(
                    m.tokens,
                    m.non_term.drop_last(),
                    m.term,
                    k,
                    n,
                ));
            },
            _ => lemma_typed_reductions(kind, m),
        }
    }
}

/// A run from a stack of well-typed trees ends in a well-typed tree.
pub proof fn lemma_run_typed<Ext: Extension<PublicKey>>(kind: ContextKind, m: Machine<Ext>)
    requires
        all_typed(kind, m.term),
    ensures
        run(kind, m).0 matches Ok(tree) ==> well_typed(kind, tree),
    decreases m.tokens.len(), potential(m.non_term, and_v_follows(m.tokens)),
{
    lemma_step_typed(kind, m);
    match step(kind, m) {
        Step::Next(m2) => {
            lemma_step_decreases(kind, m);
            lemma_run_typed(kind, m2);
        },
        _ => {},
    }
}

/// Every fragment of a decoded tree carries the type and the cost
/// annotations that inference gives it from those of its children, and
/// the context accepts each of them by its global rules.
pub proof fn lemma_decode_typed<Ext: Extension<PublicKey>>(kind: ContextKind, tokens: Seq<TokenView>)
    ensures
        decode::<Ext>(kind, tokens).0 matches Ok(tree) ==> well_typed(kind, tree),
{
    lemma_run_typed(kind, start::<Ext>(tokens));
}

} // verus!
