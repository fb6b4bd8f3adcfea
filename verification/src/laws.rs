//! Laws that relate the rules of the contexts, the costs and the decoder.

use vstd::prelude::*;
use crate::context::ContextKind;
use crate::context::ScriptContextErrorView;
use crate::context::SigType;
use crate::error::ErrorView;
use crate::extension::Extension;
use crate::extra_props::Costs;
use crate::extra_props::ExtData;
use crate::extra_props::Measure;
use crate::key::MiniscriptKey;
use crate::key::PublicKey;
use crate::lex::TokenView;
use crate::limits::MAX_PUBKEYS_PER_MULTISIG;
use crate::machine::decode;
use crate::machine::shift_expression;
use crate::machine::start;
use crate::machine::step;
use crate::machine::Step;
use crate::miniscript::MiniscriptView;
use crate::miniscript::TerminalView;
use crate::sound::lemma_decode_sound;

verus! {

/// A bare uncompressed key is refused by the segwit and the tapscript
/// contexts and accepted by the legacy and the bare contexts, each for its
/// own reason, wherever the size of the script is within the limit.
pub proof fn lemma_uncompressed_key<Pk: MiniscriptKey, Ext: Extension<Pk>>(
    kind: ContextKind,
    ms: MiniscriptView<Pk, Ext>,
    pk: Pk,
)
    requires
        ms.node == TerminalView::<Pk, Ext>::PkK(pk),
        pk.uncompressed(),
        !pk.x_only(),
        ms.ext.pk_cost <= kind.max_script_size(),
    ensures
        kind is Segwitv0 ==> kind.global_consensus(ms) == Err::<(), ScriptContextErrorView>(
            ScriptContextErrorView::CompressedOnly(pk.text()),
        ),
        kind is Tap ==> kind.global_consensus(ms) == Err::<(), ScriptContextErrorView>(
            ScriptContextErrorView::UncompressedKeysNotAllowed,
        ),
        kind is Legacy || kind is BareCtx || kind is NoChecks ==> kind.global_consensus(ms) is Ok,
{
}

/// A bare x-only key is accepted by the tapscript context alone, wherever
/// the size of the script is within the limit.
pub proof fn lemma_x_only_key<Pk: MiniscriptKey, Ext: Extension<Pk>>(
    kind: ContextKind,
    ms: MiniscriptView<Pk, Ext>,
    pk: Pk,
)
    requires
        ms.node == TerminalView::<Pk, Ext>::PkK(pk),
        pk.x_only(),
        !pk.uncompressed(),
        ms.ext.pk_cost <= kind.max_script_size(),
    ensures
        kind is Tap || kind is NoChecks ==> kind.global_consensus(ms) is Ok,
        kind is Legacy || kind is Segwitv0 || kind is BareCtx ==> kind.global_consensus(ms)
            == Err::<(), ScriptContextErrorView>(
            ScriptContextErrorView::XOnlyKeysNotAllowed(pk.text(), kind.name()),
        ),
{
}

/// Where no key of a list has a fault, the list has none.
pub proof fn lemma_no_key_fault<Pk: MiniscriptKey>(kind: ContextKind, keys: Seq<Pk>, n: int)
    requires
        0 <= n <= keys.len(),
        forall|i: int| 0 <= i < keys.len() ==> kind.key_fault(#[trigger] keys[i]) is None,
    ensures
        kind.first_key_fault(keys, n) is None,
    decreases n,
{
    if n > 0 {
        lemma_no_key_fault(kind, keys, n - 1);
    }
}

/// A multisig is refused by the tapscript context whatever its keys. The
/// other three contexts accept it over keys that they accept, up to the
/// number of keys that the opcode takes, and refuse it over more.
pub proof fn lemma_multi<Pk: MiniscriptKey, Ext: Extension<Pk>>(
    kind: ContextKind,
    ms: MiniscriptView<Pk, Ext>,
    k: usize,
    keys: Seq<Pk>,
)
    requires
        ms.node == TerminalView::<Pk, Ext>::Multi(k, keys),
        ms.ext.pk_cost <= kind.max_script_size(),
        forall|i: int| 0 <= i < keys.len() ==> kind.key_fault(#[trigger] keys[i]) is None,
    ensures
        kind is Tap ==> kind.global_consensus(ms) == Err::<(), ScriptContextErrorView>(
            ScriptContextErrorView::TaprootMultiDisabled,
        ),
        (kind is Legacy || kind is Segwitv0 || kind is BareCtx) && keys.len()
            <= MAX_PUBKEYS_PER_MULTISIG ==> kind.global_consensus(ms) is Ok,
        (kind is Legacy || kind is Segwitv0 || kind is BareCtx) && keys.len()
            > MAX_PUBKEYS_PER_MULTISIG ==> kind.global_consensus(ms) == Err::<
            (),
            ScriptContextErrorView,
        >(ScriptContextErrorView::CheckMultiSigLimitExceeded),
{
    lemma_no_key_fault(kind, keys, keys.len() as int);
}

/// The tiers of rules stay apart: the rules together accept a fragment
/// exactly where each tier does, a refusal by consensus is never hidden by
/// policy, and the context without rules accepts everything.
pub proof fn lemma_tiers<Pk: MiniscriptKey, Ext: Extension<Pk>>(
    kind: ContextKind,
    ms: MiniscriptView<Pk, Ext>,
)
    ensures
        kind.global_validity(ms) is Ok <==> kind.global_consensus(ms) is Ok && kind.global_policy(
            ms,
        ) is Ok,
        kind.global_consensus(ms) is Err ==> kind.global_validity(ms) == kind.global_consensus(ms)
            && kind.local_validity(ms) == kind.global_consensus(ms),
        kind.local_validity(ms) is Ok <==> kind.global_consensus(ms) is Ok && kind.global_policy(
            ms,
        ) is Ok && kind.local_consensus(ms) is Ok && kind.local_policy(ms) is Ok,
        kind is NoChecks ==> kind.local_validity(ms) is Ok,
{
}

/// A `CHECKMULTISIG` that announces more keys than the opcode takes fails
/// to decode in every context, with the announced number as the error,
/// unless the extension reads a fragment of its own there.
pub proof fn lemma_too_many_keys<Ext: Extension<PublicKey>>(
    kind: ContextKind,
    tokens: Seq<TokenView>,
    n: u32,
)
    requires
        tokens.len() >= 2,
        tokens[tokens.len() - 1] == TokenView::CheckMultiSig,
        tokens[tokens.len() - 2] == TokenView::Num(n),
        n > 20,
        Ext::decode(tokens) is None,
    ensures
        decode::<Ext>(kind, tokens).0 == Err::<MiniscriptView<PublicKey, Ext>, ErrorView>(
            ErrorView::CmsTooManyKeys(n),
        ),
{
    reveal(shift_expression);
    let m = start::<Ext>(tokens);
    assert(shift_expression::<Ext>(tokens) == Err::<crate::machine::Shift<Ext>, ErrorView>(
        ErrorView::CmsTooManyKeys(n),
    ));
    assert(step(kind, m) == Step::<Ext>::Fail(ErrorView::CmsTooManyKeys(n)));
}

/// Script bytes and opcodes add up: a fragment with children holds at
/// least as many of each as its children together.
pub proof fn lemma_cost_monotone<Pk, Ext: Extension<Pk>>(
    sig: SigType,
    node: TerminalView<Pk, Ext>,
    exts: Seq<ExtData>,
)
    requires
        exts.len() == node.children().len(),
        exts.len() > 0,
    ensures
        ExtData::infer(sig, node, exts) matches Ok(e) ==> e.pk_cost >= Costs::total_pk_cost(
            exts,
            exts.len() as int,
        ) && e.ops.count >= Costs::total_ops_count(exts, exts.len() as int),
{
    reveal_with_fuel(Costs::total_pk_cost, 4);
    reveal_with_fuel(Costs::total_ops_count, 4);
    Costs::lemma_totals_nonnegative(exts, exts.len() as int);
}

/// A satisfaction of a conjunction satisfies both children: its largest
/// size and its most opcodes are those of the children together.
pub proof fn lemma_conjunction_costs<Pk, Ext: Extension<Pk>>(
    sig: SigType,
    node: TerminalView<Pk, Ext>,
    l: ExtData,
    r: ExtData,
)
    requires
        node is AndV || node is AndB,
        node.children().len() == 2,
    ensures
        ExtData::infer(sig, node, seq![l, r]) matches Ok(e) ==> e.max_sat_size == (match (
            l.max_sat_size,
            r.max_sat_size,
        ) {
            (Some((lw, ls)), Some((rw, rs))) => Some(((lw + rw) as usize, (ls + rs) as usize)),
            _ => None,
        }) && e.ops.sat == (match (l.ops.sat, r.ops.sat) {
            (Some(a), Some(b)) => Some((a + b) as usize),
            _ => None,
        }),
{
}

/// A fragment that runs its child on every path, or both children on
/// every satisfying path, cannot be satisfied where a child cannot.
pub proof fn lemma_unsatisfiable_propagates<Pk, Ext: Extension<Pk>>(
    sig: SigType,
    node: TerminalView<Pk, Ext>,
    exts: Seq<ExtData>,
    i: int,
)
    requires
        exts.len() == node.children().len(),
        0 <= i < exts.len(),
        exts[i].max_sat_size is None,
        node is Alt || node is Swap || node is Check || node is DupIf || node is Verify
            || node is NonZero || node is ZeroNotEqual || node is AndV || node is AndB,
    ensures
        ExtData::infer(sig, node, exts) matches Ok(e) ==> e.max_sat_size is None,
{
}

/// No way satisfies more children than there are.
pub proof fn lemma_thresh_best_above(subs: Seq<ExtData>, m: Measure, i: int, j: int)
    requires
        0 <= i < j,
    ensures
        Costs::thresh_best(subs, m, i, j) is None,
    decreases i,
{
    if i > 0 {
        lemma_thresh_best_above(subs, m, i - 1, j - 1);
        lemma_thresh_best_above(subs, m, i - 1, j);
    }
}

/// A threshold that needs all of its children cannot be satisfied where
/// one of them cannot.
pub proof fn lemma_thresh_all(subs: Seq<ExtData>, m: Measure, n: int, i: int)
    requires
        0 <= i < n <= subs.len(),
        subs[i]@.sat_of(m) is None,
    ensures
        Costs::thresh_best(subs, m, n, n) is None,
    decreases n,
{
    lemma_thresh_best_above(subs, m, n - 1, n);
    if i < n - 1 {
        lemma_thresh_all(subs, m, n - 1, i);
    }
}

/// The tokens of a threshold are the tokens of its children, joined, then
/// the count and `EQUAL`; and the tokens of the first child stand alone.
pub proof fn lemma_threshold_layout<Ext: Extension<PublicKey>>(
    tree: MiniscriptView<PublicKey, Ext>,
    k: usize,
    subs: Seq<MiniscriptView<PublicKey, Ext>>,
)
    requires
        tree.node == TerminalView::<PublicKey, Ext>::Thresh(k, subs),
    ensures
        tree.script_tokens() == MiniscriptView::thresh_tokens(subs, subs.len() as int) + seq![
            TokenView::Num(k as u32),
            TokenView::Equal,
        ],
        subs.len() >= 1 ==> MiniscriptView::thresh_tokens(subs, 1) == subs[0].script_tokens(),
{
    reveal_with_fuel(MiniscriptView::script_tokens, 1);
    reveal_with_fuel(MiniscriptView::thresh_tokens, 2);
}

/// Each child of a threshold but the first stands after the children
/// before it and has one `ADD` after it: between `n` children stand
/// exactly `n - 1` joins, in the order of the children.
pub proof fn lemma_threshold_join<Ext: Extension<PublicKey>>(
    subs: Seq<MiniscriptView<PublicKey, Ext>>,
    i: int,
)
    requires
        1 <= i < subs.len(),
    ensures
        MiniscriptView::thresh_tokens(subs, i + 1) == MiniscriptView::thresh_tokens(subs, i)
            + subs[i].script_tokens() + seq![TokenView::Add],
{
    reveal_with_fuel(MiniscriptView::script_tokens, 1);
    reveal_with_fuel(MiniscriptView::thresh_tokens, 2);
}

/// A threshold that was decoded stood in the stream as its layout says:
/// its children from left to right, a join after each but the first.
pub proof fn lemma_threshold_decoded<Ext: Extension<PublicKey>>(
    kind: ContextKind,
    tokens: Seq<TokenView>,
)
    ensures
        decode::<Ext>(kind, tokens).0 matches Ok(tree) ==> (tree.node matches TerminalView::Thresh(
            k,
            subs,
        ) ==> tokens == decode::<Ext>(kind, tokens).1 + (MiniscriptView::thresh_tokens(
            subs,
            subs.len() as int,
        ) + seq![TokenView::Num(k as u32), TokenView::Equal])),
{
    lemma_decode_sound::<Ext>(kind, tokens);
    match decode::<Ext>(kind, tokens).0 {
        Ok(tree) => {
            match tree.node {
                TerminalView::Thresh(k, subs) => {
                    assert(tree.script_tokens() == MiniscriptView::thresh_tokens(
                        subs,
                        subs.len() as int,
                    ) + seq![TokenView::Num(k as u32), TokenView::Equal]) by {
                        reveal_with_fuel(MiniscriptView::script_tokens, 1);
                        reveal_with_fuel(MiniscriptView::thresh_tokens, 1);
                    }
                },
                _ => {},
            }
        },
        Err(_) => {},
    }
}

/// A threshold in a well-typed tree, and so in every decoded tree, asks
/// for at least one and at most all of its children.
pub proof fn lemma_threshold_count<Ext: Extension<PublicKey>>(
    kind: ContextKind,
    tree: MiniscriptView<PublicKey, Ext>,
    k: usize,
    subs: Seq<MiniscriptView<PublicKey, Ext>>,
)
    requires
        crate::typing::well_typed(kind, tree),
        tree.node == TerminalView::<PublicKey, Ext>::Thresh(k, subs),
    ensures
        1 <= k <= subs.len(),
{
    reveal(crate::typing::sound_root);
    assert(tree.node.child_types().len() == subs.len());
}

} // verus!
