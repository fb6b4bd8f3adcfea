//! The script contexts and what each of them accepts.

use vstd::prelude::*;
use crate::error::Error;
use crate::error::ErrorView;
use crate::extension::Extension;
use crate::key::MiniscriptKey;
use crate::limits::MAX_OPS_PER_SCRIPT;
use crate::limits::MAX_PUBKEYS_PER_MULTISIG;
use crate::limits::MAX_SCRIPTSIG_SIZE;
use crate::limits::MAX_SCRIPT_ELEMENT_SIZE;
use crate::limits::MAX_SCRIPT_SIZE;
use crate::limits::MAX_STACK_SIZE;
use crate::limits::MAX_STANDARD_P2WSH_SCRIPT_SIZE;
use crate::limits::MAX_STANDARD_P2WSH_STACK_ITEMS;
use crate::miniscript::Miniscript;
use crate::miniscript::MiniscriptView;
use crate::miniscript::Terminal;
use crate::miniscript::TerminalView;
use crate::private::Sealed;
use crate::text::decimal;
use crate::text::decimal_text;
use crate::types::Base;
use crate::util::lemma_scriptsig_covers;
use crate::util::script_len;
use crate::util::scriptsig_bytes;
use crate::util::witness_to_scriptsig;
use vstd::string::*;

verus! {

/// Why a context refuses a fragment or a witness.
#[derive(Clone, PartialEq, Eq, Debug)]
pub enum ScriptContextError {
    /// A key hash leaves the size of the key open, which the context does not allow.
    MalleablePkH,
    /// `or_i` is malleable where a non-minimal `IF` argument is accepted.
    MalleableOrI,
    /// `d:` is malleable where a non-minimal `IF` argument is accepted.
    MalleableDupIf,
    /// An uncompressed key where only compressed ones are allowed; holds the key.
    CompressedOnly(String),
    /// An x-only key outside tapscript; holds the key and the name of the context.
    XOnlyKeysNotAllowed(String, &'static str),
    /// An uncompressed key in tapscript.
    UncompressedKeysNotAllowed,
    /// Some satisfaction has more witness elements than the limit.
    MaxWitnessItemssExceeded { actual: usize, limit: usize },
    /// Some satisfaction runs more opcodes than the limit.
    MaxOpCountExceeded,
    /// The script is larger than a witness script may be.
    MaxWitnessScriptSizeExceeded,
    /// The script is larger than a redeem script may be.
    MaxRedeemScriptSizeExceeded,
    /// Some satisfaction needs a larger script signature than is relayed.
    MaxScriptSigSizeExceeded,
    /// The fragment cannot be satisfied in this context.
    ImpossibleSatisfaction,
    /// A covenant prefix or suffix is larger than a stack element may be.
    CovElementSizeExceeded,
    /// `multi` in tapscript.
    TaprootMultiDisabled,
    /// Some satisfaction may hold more stack elements than the limit while it runs.
    StackSizeLimitExceeded { actual: usize, limit: usize },
    /// `multi` over more keys than `CHECKMULTISIG` takes.
    CheckMultiSigLimitExceeded,
    /// `multi_a` outside tapscript.
    MultiANotAllowed,
    /// An extension fragment that the context refuses; holds the reason.
    ExtensionError(String),
}

/// A [`ScriptContextError`] with its texts as sequences of characters.
pub enum ScriptContextErrorView {
    MalleablePkH,
    MalleableOrI,
    MalleableDupIf,
    CompressedOnly(Seq<char>),
    XOnlyKeysNotAllowed(Seq<char>, Seq<char>),
    UncompressedKeysNotAllowed,
    MaxWitnessItemssExceeded { actual: usize, limit: usize },
    MaxOpCountExceeded,
    MaxWitnessScriptSizeExceeded,
    MaxRedeemScriptSizeExceeded,
    MaxScriptSigSizeExceeded,
    ImpossibleSatisfaction,
    CovElementSizeExceeded,
    TaprootMultiDisabled,
    StackSizeLimitExceeded { actual: usize, limit: usize },
    CheckMultiSigLimitExceeded,
    MultiANotAllowed,
    ExtensionError(Seq<char>),
}

impl View for ScriptContextError {
    type V = ScriptContextErrorView;

    open spec fn view(&self) -> ScriptContextErrorView {
        match self {
            ScriptContextError::MalleablePkH => ScriptContextErrorView::MalleablePkH,
            ScriptContextError::MalleableOrI => ScriptContextErrorView::MalleableOrI,
            ScriptContextError::MalleableDupIf => ScriptContextErrorView::MalleableDupIf,
            ScriptContextError::CompressedOnly(pk) => ScriptContextErrorView::CompressedOnly(pk@),
            ScriptContextError::XOnlyKeysNotAllowed(pk, ctx) =>
                ScriptContextErrorView::XOnlyKeysNotAllowed(pk@, ctx@),
            ScriptContextError::UncompressedKeysNotAllowed =>
                ScriptContextErrorView::UncompressedKeysNotAllowed,
            ScriptContextError::MaxWitnessItemssExceeded { actual, limit } =>
                ScriptContextErrorView::MaxWitnessItemssExceeded {
                    actual: *actual,
                    limit: *limit,
                },
            ScriptContextError::MaxOpCountExceeded => ScriptContextErrorView::MaxOpCountExceeded,
            ScriptContextError::MaxWitnessScriptSizeExceeded =>
                ScriptContextErrorView::MaxWitnessScriptSizeExceeded,
            ScriptContextError::MaxRedeemScriptSizeExceeded =>
                ScriptContextErrorView::MaxRedeemScriptSizeExceeded,
            ScriptContextError::MaxScriptSigSizeExceeded =>
                ScriptContextErrorView::MaxScriptSigSizeExceeded,
            ScriptContextError::ImpossibleSatisfaction =>
                ScriptContextErrorView::ImpossibleSatisfaction,
            ScriptContextError::CovElementSizeExceeded =>
                ScriptContextErrorView::CovElementSizeExceeded,
            ScriptContextError::TaprootMultiDisabled =>
                ScriptContextErrorView::TaprootMultiDisabled,
            ScriptContextError::StackSizeLimitExceeded { actual, limit } =>
                ScriptContextErrorView::StackSizeLimitExceeded { actual: *actual, limit: *limit },
            ScriptContextError::CheckMultiSigLimitExceeded =>
                ScriptContextErrorView::CheckMultiSigLimitExceeded,
            ScriptContextError::MultiANotAllowed => ScriptContextErrorView::MultiANotAllowed,
            ScriptContextError::ExtensionError(s) => ScriptContextErrorView::ExtensionError(s@),
        }
    }
}

impl ScriptContextErrorView {
    /// The error as a sentence.
    pub open spec fn message(self) -> Seq<char> {
        match self {
            ScriptContextErrorView::MalleablePkH => "PkH is malleable under Legacy rules"@,
            ScriptContextErrorView::MalleableOrI => "OrI is malleable under Legacy rules"@,
            ScriptContextErrorView::MalleableDupIf => "DupIf is malleable under Legacy rules"@,
            ScriptContextErrorView::CompressedOnly(pk) =>
                "Only Compressed pubkeys are allowed in segwit context. Found "@ + pk,
            ScriptContextErrorView::XOnlyKeysNotAllowed(pk, ctx) => "x-only key "@ + pk
                + " not allowed in "@ + ctx,
            ScriptContextErrorView::UncompressedKeysNotAllowed =>
                "uncompressed keys cannot be used in Taproot descriptors."@,
            ScriptContextErrorView::MaxWitnessItemssExceeded { actual, limit } =>
                "At least one spending path in the Miniscript fragment has "@ + decimal_text(
                    actual as nat,
                ) + " more witness items than limit "@ + decimal_text(limit as nat) + "."@,
            ScriptContextErrorView::MaxOpCountExceeded =>
                "At least one satisfaction path in the Miniscript fragment contains more than MAX_OPS_PER_SCRIPT opcodes."@,
            ScriptContextErrorView::MaxWitnessScriptSizeExceeded =>
                "The Miniscript corresponding Script would be larger than MAX_STANDARD_P2WSH_SCRIPT_SIZE bytes."@,
            ScriptContextErrorView::MaxRedeemScriptSizeExceeded =>
                "The Miniscript corresponding Script would be larger than MAX_SCRIPT_ELEMENT_SIZE bytes."@,
            ScriptContextErrorView::MaxScriptSigSizeExceeded =>
                "At least one satisfaction in Miniscript would be larger than MAX_SCRIPTSIG_SIZE scriptsig"@,
            ScriptContextErrorView::ImpossibleSatisfaction =>
                "Impossible to satisfy Miniscript under the current context"@,
            ScriptContextErrorView::CovElementSizeExceeded =>
                "Prefix/Suffix len in sighash covenents exceeds 520 bytes"@,
            ScriptContextErrorView::TaprootMultiDisabled =>
                "Invalid use of Multi node in taproot context"@,
            ScriptContextErrorView::StackSizeLimitExceeded { actual, limit } => "Stack limit "@
                + decimal_text(actual as nat) + " can exceed the allowed limit "@ + decimal_text(
                limit as nat,
            ) + " in at least one script path during script execution"@,
            ScriptContextErrorView::CheckMultiSigLimitExceeded =>
                "CHECkMULTISIG ('multi()' descriptor) only supports up to 20 pubkeys"@,
            ScriptContextErrorView::MultiANotAllowed =>
                "Multi a(CHECKSIGADD) only allowed post tapscript"@,
            ScriptContextErrorView::ExtensionError(s) => "Extension Error: "@ + s,
        }
    }
}

impl ScriptContextError {
    /// The error as a sentence.
    pub fn to_string(&self) -> (r: String)
        ensures
            r@ == self@.message(),
    {
        match self {
            ScriptContextError::MalleablePkH => String::from_str(
                "PkH is malleable under Legacy rules",
            ),
            ScriptContextError::MalleableOrI => String::from_str(
                "OrI is malleable under Legacy rules",
            ),
            ScriptContextError::MalleableDupIf => String::from_str(
                "DupIf is malleable under Legacy rules",
            ),
            ScriptContextError::CompressedOnly(pk) => {
                let mut s = String::from_str(
                    "Only Compressed pubkeys are allowed in segwit context. Found ",
                );
                s.append(pk.as_str());
                s
            },
            ScriptContextError::XOnlyKeysNotAllowed(pk, ctx) => {
                let mut s = String::from_str("x-only key ");
                s.append(pk.as_str());
                s.append(" not allowed in ");
                s.append(ctx);
                s
            },
            ScriptContextError::UncompressedKeysNotAllowed => String::from_str(
                "uncompressed keys cannot be used in Taproot descriptors.",
            ),
            ScriptContextError::MaxWitnessItemssExceeded { actual, limit } => {
                let mut s = String::from_str(
                    "At least one spending path in the Miniscript fragment has ",
                );
                s.append(decimal(*actual).as_str());
                s.append(" more witness items than limit ");
                s.append(decimal(*limit).as_str());
                s.append(".");
                s
            },
            ScriptContextError::MaxOpCountExceeded => String::from_str(
                "At least one satisfaction path in the Miniscript fragment contains more than MAX_OPS_PER_SCRIPT opcodes.",
            ),
            ScriptContextError::MaxWitnessScriptSizeExceeded => String::from_str(
                "The Miniscript corresponding Script would be larger than MAX_STANDARD_P2WSH_SCRIPT_SIZE bytes.",
            ),
            ScriptContextError::MaxRedeemScriptSizeExceeded => String::from_str(
                "The Miniscript corresponding Script would be larger than MAX_SCRIPT_ELEMENT_SIZE bytes.",
            ),
            ScriptContextError::MaxScriptSigSizeExceeded => String::from_str(
                "At least one satisfaction in Miniscript would be larger than MAX_SCRIPTSIG_SIZE scriptsig",
            ),
            ScriptContextError::ImpossibleSatisfaction => String::from_str(
                "Impossible to satisfy Miniscript under the current context",
            ),
            ScriptContextError::CovElementSizeExceeded => String::from_str(
                "Prefix/Suffix len in sighash covenents exceeds 520 bytes",
            ),
            ScriptContextError::TaprootMultiDisabled => String::from_str(
                "Invalid use of Multi node in taproot context",
            ),
            ScriptContextError::StackSizeLimitExceeded { actual, limit } => {
                let mut s = String::from_str("Stack limit ");
                s.append(decimal(*actual).as_str());
                s.append(" can exceed the allowed limit ");
                s.append(decimal(*limit).as_str());
                s.append(" in at least one script path during script execution");
                s
            },
            ScriptContextError::CheckMultiSigLimitExceeded => String::from_str(
                "CHECkMULTISIG ('multi()' descriptor) only supports up to 20 pubkeys",
            ),
            ScriptContextError::MultiANotAllowed => String::from_str(
                "Multi a(CHECKSIGADD) only allowed post tapscript",
            ),
            ScriptContextError::ExtensionError(e) => {
                let mut s = String::from_str("Extension Error: ");
                s.append(e.as_str());
                s
            },
        }
    }
}

/// The outcome of a context check with the error as its view.
pub open spec fn outcome(r: Result<(), ScriptContextError>) -> Result<(), ScriptContextErrorView> {
    match r {
        Ok(()) => Ok(()),
        Err(e) => Err(e@),
    }
}

/// The signature scheme of a context.
#[derive(Debug, Clone, Copy, Hash, PartialEq, Eq, Structural, PartialOrd, Ord)]
pub enum SigType {
    /// ECDSA signatures.
    Ecdsa,
    /// Schnorr signatures.
    Schnorr,
}

/// The script contexts, as values that rules can speak of.
#[derive(Debug, Clone, Copy, Hash, PartialEq, Eq, Structural, PartialOrd, Ord)]
pub enum ContextKind {
    /// A script behind a script hash.
    Legacy,
    /// A version 0 witness script.
    Segwitv0,
    /// A tapscript leaf.
    Tap,
    /// A script that stands in an output as it is.
    BareCtx,
    /// No rules at all.
    NoChecks,
}

/// The outcome that refuses with `fault`, if there is one.
pub open spec fn refuse(fault: Option<ScriptContextErrorView>) -> Result<
    (),
    ScriptContextErrorView,
> {
    match fault {
        Some(e) => Err(e),
        None => Ok(()),
    }
}

/// Consensus ceiling on the weight of a block, and so on the size of a tapscript.
pub const MAX_TAPSCRIPT_SIZE: usize = 4_000_000;

impl ContextKind {
    /// The name of the context in messages.
    pub open spec fn name(self) -> Seq<char> {
        match self {
            ContextKind::Legacy => "Legacy/p2sh"@,
            ContextKind::Segwitv0 => "Segwitv0"@,
            ContextKind::Tap => "TapscriptCtx"@,
            ContextKind::BareCtx => "BareCtx"@,
            ContextKind::NoChecks => "NochecksEcdsa"@,
        }
    }

    /// The signature scheme of the context.
    pub open spec fn sig_type(self) -> SigType {
        if self is Tap {
            SigType::Schnorr
        } else {
            SigType::Ecdsa
        }
    }

    /// Whether the context answers questions of cost. The context without
    /// rules does not.
    pub open spec fn has_costs(self) -> bool {
        !(self is NoChecks)
    }

    /// Bytes that the push of `pk` takes in a script of the context.
    pub open spec fn pk_len<Pk: MiniscriptKey>(self, pk: Pk) -> usize {
        match self {
            ContextKind::Legacy => if pk.uncompressed() {
                66
            } else {
                34
            },
            ContextKind::BareCtx => if pk.uncompressed() {
                65
            } else {
                33
            },
            ContextKind::Tap => 33,
            _ => 34,
        }
    }

    /// Most bytes of a satisfaction as the context carries it: as a script
    /// signature in the two contexts without a witness, as a witness in the others.
    pub open spec fn max_satisfaction_size<Pk, Ext>(self, ms: MiniscriptView<Pk, Ext>) -> Option<
        usize,
    > {
        match ms.ext.max_sat_size {
            Some((witness, script_sig)) => Some(
                if self is Legacy || self is BareCtx {
                    script_sig
                } else {
                    witness
                },
            ),
            None => None,
        }
    }

    /// Whether the context takes the fragment for malleable by its shape alone.
    pub open spec fn terminal_non_malleable<Pk, Ext>(self, frag: TerminalView<Pk, Ext>) -> Result<
        (),
        ScriptContextErrorView,
    > {
        if self is Legacy {
            match frag {
                TerminalView::PkH(_) => Err(ScriptContextErrorView::MalleablePkH),
                TerminalView::OrI(_, _) => Err(ScriptContextErrorView::MalleableOrI),
                TerminalView::DupIf(_) => Err(ScriptContextErrorView::MalleableDupIf),
                _ => Ok(()),
            }
        } else {
            Ok(())
        }
    }

    /// What the context says of a witness: the legacy context bounds the size
    /// of the script signature that carries it, the two witness contexts
    /// bound the number of its elements.
    pub open spec fn witness_outcome(self, witness: Seq<Vec<u8>>) -> Result<
        (),
        ScriptContextErrorView,
    > {
        match self {
            ContextKind::Legacy => if scriptsig_bytes(witness, witness.len() as int).len()
                > MAX_SCRIPTSIG_SIZE {
                Err(ScriptContextErrorView::MaxScriptSigSizeExceeded)
            } else {
                Ok(())
            },
            ContextKind::Segwitv0 => if witness.len() > MAX_STANDARD_P2WSH_STACK_ITEMS {
                Err(
                    ScriptContextErrorView::MaxWitnessItemssExceeded {
                        actual: witness.len() as usize,
                        limit: MAX_STANDARD_P2WSH_STACK_ITEMS,
                    },
                )
            } else {
                Ok(())
            },
            ContextKind::Tap => if witness.len() > MAX_STACK_SIZE {
                Err(
                    ScriptContextErrorView::MaxWitnessItemssExceeded {
                        actual: witness.len() as usize,
                        limit: MAX_STACK_SIZE,
                    },
                )
            } else {
                Ok(())
            },
            _ => Ok(()),
        }
    }

    /// Largest script that consensus accepts in the context.
    pub open spec fn max_script_size(self) -> usize {
        match self {
            ContextKind::Legacy => MAX_SCRIPT_ELEMENT_SIZE,
            ContextKind::Tap => MAX_TAPSCRIPT_SIZE,
            _ => MAX_SCRIPT_SIZE,
        }
    }

    /// What is wrong with the key in the context, if anything: segwit takes
    /// compressed keys only, tapscript no uncompressed ones, and x-only keys
    /// belong to tapscript alone.
    pub open spec fn key_fault<Pk: MiniscriptKey>(self, pk: Pk) -> Option<ScriptContextErrorView> {
        match self {
            ContextKind::Segwitv0 => if pk.uncompressed() {
                Some(ScriptContextErrorView::CompressedOnly(pk.text()))
            } else if pk.x_only() {
                Some(ScriptContextErrorView::XOnlyKeysNotAllowed(pk.text(), self.name()))
            } else {
                None
            },
            ContextKind::Legacy | ContextKind::BareCtx => if pk.x_only() {
                Some(ScriptContextErrorView::XOnlyKeysNotAllowed(pk.text(), self.name()))
            } else {
                None
            },
            ContextKind::Tap => if pk.uncompressed() {
                Some(ScriptContextErrorView::UncompressedKeysNotAllowed)
            } else {
                None
            },
            ContextKind::NoChecks => None,
        }
    }

    /// The fault of the first wrong key among the first `n`, if any is wrong.
    pub open spec fn first_key_fault<Pk: MiniscriptKey>(self, keys: Seq<Pk>, n: int) -> Option<
        ScriptContextErrorView,
    >
        decreases n,
    {
        if n <= 0 {
            None
        } else {
            match self.first_key_fault(keys, n - 1) {
                Some(e) => Some(e),
                None => self.key_fault(keys[n - 1]),
            }
        }
    }

    /// The consensus rules that do not depend on how the fragment is
    /// satisfied: the size of the script, the keys, and the fragments that
    /// the context does not know.
    pub open spec fn global_consensus<Pk: MiniscriptKey, Ext: Extension<Pk>>(
        self,
        ms: MiniscriptView<Pk, Ext>,
    ) -> Result<(), ScriptContextErrorView> {
        if self is NoChecks {
            Ok(())
        } else if ms.ext.pk_cost > self.max_script_size() {
            if self is Legacy {
                Err(ScriptContextErrorView::MaxRedeemScriptSizeExceeded)
            } else {
                Err(ScriptContextErrorView::MaxWitnessScriptSizeExceeded)
            }
        } else {
            match ms.node {
                TerminalView::PkK(pk) => refuse(self.key_fault(pk)),
                TerminalView::Multi(_, keys) => if self is Tap {
                    Err(ScriptContextErrorView::TaprootMultiDisabled)
                } else if keys.len() > MAX_PUBKEYS_PER_MULTISIG {
                    Err(ScriptContextErrorView::CheckMultiSigLimitExceeded)
                } else {
                    refuse(self.first_key_fault(keys, keys.len() as int))
                },
                TerminalView::MultiA(_, _) => if self is Tap {
                    Ok(())
                } else {
                    Err(ScriptContextErrorView::MultiANotAllowed)
                },
                TerminalView::Ext(e) => match self {
                    ContextKind::Legacy => Err(
                        ScriptContextErrorView::ExtensionError("No Extensions in Legacy context"@),
                    ),
                    ContextKind::BareCtx => Err(
                        ScriptContextErrorView::ExtensionError("No Extensions in Bare context"@),
                    ),
                    ContextKind::Segwitv0 => e.segwit_outcome(),
                    _ => Ok(()),
                },
                _ => Ok(()),
            }
        }
    }

    /// The relay rules that do not depend on how the fragment is satisfied.
    pub open spec fn global_policy<Pk, Ext>(self, ms: MiniscriptView<Pk, Ext>) -> Result<
        (),
        ScriptContextErrorView,
    > {
        if self is Segwitv0 && ms.ext.pk_cost > MAX_STANDARD_P2WSH_SCRIPT_SIZE {
            Err(ScriptContextErrorView::MaxWitnessScriptSizeExceeded)
        } else {
            Ok(())
        }
    }

    /// The consensus rules on the costliest satisfaction: the opcodes that
    /// run, or in tapscript the elements on the stack.
    pub open spec fn local_consensus<Pk, Ext>(self, ms: MiniscriptView<Pk, Ext>) -> Result<
        (),
        ScriptContextErrorView,
    > {
        match self {
            ContextKind::NoChecks => Ok(()),
            ContextKind::Tap => match (
                ms.ext.exec_stack_elem_count_sat,
                ms.ext.stack_elem_count_sat,
            ) {
                (Some(s), Some(h)) => if s + h > MAX_STACK_SIZE {
                    Err(
                        ScriptContextErrorView::StackSizeLimitExceeded {
                            actual: if s + h > usize::MAX {
                                usize::MAX
                            } else {
                                (s + h) as usize
                            },
                            limit: MAX_STACK_SIZE,
                        },
                    )
                } else {
                    Ok(())
                },
                _ => Ok(()),
            },
            _ => match ms.ext.ops.op_count_spec() {
                Some(n) => if n > MAX_OPS_PER_SCRIPT {
                    Err(ScriptContextErrorView::MaxOpCountExceeded)
                } else {
                    Ok(())
                },
                None => Err(ScriptContextErrorView::MaxOpCountExceeded),
            },
        }
    }

    /// The relay rules on the costliest satisfaction: the size of the script
    /// signature in the legacy context, the number of witness elements, the
    /// script among them, in segwit.
    pub open spec fn local_policy<Pk, Ext>(self, ms: MiniscriptView<Pk, Ext>) -> Result<
        (),
        ScriptContextErrorView,
    > {
        match self {
            ContextKind::Legacy => match self.max_satisfaction_size(ms) {
                None => Err(ScriptContextErrorView::ImpossibleSatisfaction),
                Some(size) => if size > MAX_SCRIPTSIG_SIZE {
                    Err(ScriptContextErrorView::MaxScriptSigSizeExceeded)
                } else {
                    Ok(())
                },
            },
            ContextKind::Segwitv0 => match ms.ext.stack_elem_count_sat {
                None => Err(ScriptContextErrorView::ImpossibleSatisfaction),
                Some(n) => if n + 1 > MAX_STANDARD_P2WSH_STACK_ITEMS {
                    Err(
                        ScriptContextErrorView::MaxWitnessItemssExceeded {
                            actual: if n == usize::MAX {
                                usize::MAX
                            } else {
                                (n + 1) as usize
                            },
                            limit: MAX_STANDARD_P2WSH_STACK_ITEMS,
                        },
                    )
                } else {
                    Ok(())
                },
            },
            _ => Ok(()),
        }
    }

    /// Both tiers of the rules that do not depend on the satisfaction, consensus first.
    pub open spec fn global_validity<Pk: MiniscriptKey, Ext: Extension<Pk>>(
        self,
        ms: MiniscriptView<Pk, Ext>,
    ) -> Result<(), ScriptContextErrorView> {
        match self.global_consensus(ms) {
            Err(e) => Err(e),
            Ok(()) => self.global_policy(ms),
        }
    }

    /// All four sets of rules: global before local, consensus before policy.
    pub open spec fn local_validity<Pk: MiniscriptKey, Ext: Extension<Pk>>(
        self,
        ms: MiniscriptView<Pk, Ext>,
    ) -> Result<(), ScriptContextErrorView> {
        match self.global_validity(ms) {
            Err(e) => Err(e),
            Ok(()) => match self.local_consensus(ms) {
                Err(e) => Err(e),
                Ok(()) => self.local_policy(ms),
            },
        }
    }

    /// The rule on the root that is the same in every context: its base type is `B`.
    pub open spec fn top_level_type<Pk, Ext>(ms: MiniscriptView<Pk, Ext>) -> Result<(), ErrorView> {
        if ms.ty.corr.base is B {
            Ok(())
        } else {
            Err(ErrorView::NonTopLevel(ms.ty.corr.base))
        }
    }

    /// The rules on the root that the context adds: a bare script is a checked
    /// key, a checked key hash, or a multisig over at most three keys.
    pub open spec fn other_top_level<Pk, Ext>(self, ms: MiniscriptView<Pk, Ext>) -> Result<
        (),
        ErrorView,
    > {
        if self is BareCtx {
            match ms.node {
                TerminalView::Check(inner) => match inner.node {
                    TerminalView::PkH(_) => Ok(()),
                    TerminalView::PkK(_) => Ok(()),
                    _ => Err(ErrorView::NonStandardBareScript),
                },
                TerminalView::Multi(_, keys) => if keys.len() <= 3 {
                    Ok(())
                } else {
                    Err(ErrorView::NonStandardBareScript)
                },
                _ => Err(ErrorView::NonStandardBareScript),
            }
        } else {
            Ok(())
        }
    }

    /// All rules on the root, the rule on its type first.
    pub open spec fn top_level<Pk, Ext>(self, ms: MiniscriptView<Pk, Ext>) -> Result<
        (),
        ErrorView,
    > {
        match Self::top_level_type(ms) {
            Err(e) => Err(e),
            Ok(()) => self.other_top_level(ms),
        }
    }

    /// The name of the context in messages.
    pub fn name_str(self) -> (r: &'static str)
        ensures
            r@ == self.name(),
    {
        match self {
            ContextKind::Legacy => "Legacy/p2sh",
            ContextKind::Segwitv0 => "Segwitv0",
            ContextKind::Tap => "TapscriptCtx",
            ContextKind::BareCtx => "BareCtx",
            ContextKind::NoChecks => "NochecksEcdsa",
        }
    }

    /// Holds one key against the rules of the context.
    pub fn check_key<Pk: MiniscriptKey>(self, pk: &Pk) -> (r: Result<(), ScriptContextError>)
        ensures
            outcome(r) == refuse(self.key_fault(*pk)),
    {
        match self {
            ContextKind::Segwitv0 => {
                if pk.is_uncompressed() {
                    Err(ScriptContextError::CompressedOnly(pk.to_string()))
                } else if pk.is_x_only_key() {
                    Err(ScriptContextError::XOnlyKeysNotAllowed(pk.to_string(), self.name_str()))
                } else {
                    Ok(())
                }
            },
            ContextKind::Legacy | ContextKind::BareCtx => {
                if pk.is_x_only_key() {
                    Err(ScriptContextError::XOnlyKeysNotAllowed(pk.to_string(), self.name_str()))
                } else {
                    Ok(())
                }
            },
            ContextKind::Tap => {
                if pk.is_uncompressed() {
                    Err(ScriptContextError::UncompressedKeysNotAllowed)
                } else {
                    Ok(())
                }
            },
            ContextKind::NoChecks => Ok(()),
        }
    }

    /// Holds the keys of a key list against the rules of the context, in
    /// order, and stops at the first that breaks one.
    pub fn check_keys<Pk: MiniscriptKey>(self, keys: &Vec<Pk>) -> (r: Result<
        (),
        ScriptContextError,
    >)
        ensures
            outcome(r) == refuse(self.first_key_fault(keys@, keys@.len() as int)),
    {
        let mut i: usize = 0;
        while i < keys.len()
            invariant
                i <= keys@.len(),
                self.first_key_fault(keys@, i as int) is None,
            decreases keys@.len() - i,
        {
            match self.check_key(&keys[i]) {
                Ok(()) => {},
                Err(e) => {
                    proof {
                        assert(self.first_key_fault(keys@, i as int + 1) == Some(e@));
                        self.lemma_first_key_fault_stays(keys@, i as int + 1, keys@.len() as int);
                    }
                    return Err(e);
                },
            }
            i += 1;
        }
        Ok(())
    }

    /// Once a key among the first `i` is wrong, the first fault over more keys is the same.
    proof fn lemma_first_key_fault_stays<Pk: MiniscriptKey>(self, keys: Seq<Pk>, i: int, n: int)
        requires
            0 <= i <= n,
            self.first_key_fault(keys, i) is Some,
        ensures
            self.first_key_fault(keys, n) == self.first_key_fault(keys, i),
        decreases n - i,
    {
        if i < n {
            self.lemma_first_key_fault_stays(keys, i, n - 1);
        }
    }
}

/// `bitcoin::blockdata::constants::MAX_BLOCK_WEIGHT`, the consensus ceiling
/// on the weight of a block, which is four million.
#[verifier::external_body]
fn max_block_weight() -> (r: usize)
    ensures
        r == MAX_TAPSCRIPT_SIZE,
{
    bitcoin::blockdata::constants::MAX_BLOCK_WEIGHT as usize
}

/// Holds the opcodes that the costliest satisfaction runs against the limit.
fn check_op_count<Pk, Ctx, Ext>(ms: &Miniscript<Pk, Ctx, Ext>) -> (r: Result<
    (),
    ScriptContextError,
>)
    ensures
        outcome(r) == ContextKind::Legacy.local_consensus(ms@),
        outcome(r) == ContextKind::Segwitv0.local_consensus(ms@),
        outcome(r) == ContextKind::BareCtx.local_consensus(ms@),
{
    match ms.ext.ops.op_count() {
        None => Err(ScriptContextError::MaxOpCountExceeded),
        Some(op_count) => {
            if op_count > MAX_OPS_PER_SCRIPT {
                Err(ScriptContextError::MaxOpCountExceeded)
            } else {
                Ok(())
            }
        },
    }
}

/// A script context: the rules that say which fragments, keys and sizes
/// are legal where the script will run.
pub trait ScriptContext: Sized + Sealed {
    /// The context as a value.
    spec fn kind() -> ContextKind;

    /// Whether the context takes the fragment for malleable by its shape
    /// alone. The children are not looked at.
    fn check_terminal_non_malleable<Pk: MiniscriptKey, Ext: Extension<Pk>>(
        frag: &Terminal<Pk, Self, Ext>,
    ) -> (r: Result<(), ScriptContextError>)
        ensures
            outcome(r) == Self::kind().terminal_non_malleable(frag@),
    ;

    /// Holds a witness against the limits of the context.
    fn check_witness<Pk: MiniscriptKey, Ext: Extension<Pk>>(witness: &[Vec<u8>]) -> (r: Result<
        (),
        ScriptContextError,
    >)
        ensures
            outcome(r) == Self::kind().witness_outcome(witness@),
    ;

    /// Most bytes of a satisfaction as the context carries it.
    fn max_satisfaction_size<Pk: MiniscriptKey, Ext: Extension<Pk>>(
        ms: &Miniscript<Pk, Self, Ext>,
    ) -> (r: Option<usize>)
        requires
            Self::kind().has_costs(),
        ensures
            r == Self::kind().max_satisfaction_size(ms@),
    ;

    /// The consensus rules that do not depend on how the fragment is
    /// satisfied. The children are not looked at.
    fn check_global_consensus_validity<Pk: MiniscriptKey, Ext: Extension<Pk>>(
        ms: &Miniscript<Pk, Self, Ext>,
    ) -> (r: Result<(), ScriptContextError>)
        ensures
            outcome(r) == Self::kind().global_consensus(ms@),
    ;

    /// The relay rules that do not depend on how the fragment is satisfied.
    fn check_global_policy_validity<Pk: MiniscriptKey, Ext: Extension<Pk>>(
        ms: &Miniscript<Pk, Self, Ext>,
    ) -> (r: Result<(), ScriptContextError>)
        ensures
            outcome(r) == Self::kind().global_policy(ms@),
    ;

    /// The consensus rules on the costliest satisfaction.
    fn check_local_consensus_validity<Pk: MiniscriptKey, Ext: Extension<Pk>>(
        ms: &Miniscript<Pk, Self, Ext>,
    ) -> (r: Result<(), ScriptContextError>)
        ensures
            outcome(r) == Self::kind().local_consensus(ms@),
    ;

    /// The relay rules on the costliest satisfaction.
    fn check_local_policy_validity<Pk: MiniscriptKey, Ext: Extension<Pk>>(
        ms: &Miniscript<Pk, Self, Ext>,
    ) -> (r: Result<(), ScriptContextError>)
        ensures
            outcome(r) == Self::kind().local_policy(ms@),
    ;

    /// Both tiers of the rules that do not depend on the satisfaction.
    fn check_global_validity<Pk: MiniscriptKey, Ext: Extension<Pk>>(
        ms: &Miniscript<Pk, Self, Ext>,
    ) -> (r: Result<(), ScriptContextError>)
        ensures
            outcome(r) == Self::kind().global_validity(ms@),
    {
        Self::check_global_consensus_validity(ms)?;
        Self::check_global_policy_validity(ms)?;
        Ok(())
    }

    /// All four sets of rules.
    fn check_local_validity<Pk: MiniscriptKey, Ext: Extension<Pk>>(
        ms: &Miniscript<Pk, Self, Ext>,
    ) -> (r: Result<(), ScriptContextError>)
        ensures
            outcome(r) == Self::kind().local_validity(ms@),
    {
        Self::check_global_consensus_validity(ms)?;
        Self::check_global_policy_validity(ms)?;
        Self::check_local_consensus_validity(ms)?;
        Self::check_local_policy_validity(ms)?;
        Ok(())
    }

    /// Whether the root is of base type `B`.
    fn top_level_type_check<Pk: MiniscriptKey, Ext: Extension<Pk>>(
        ms: &Miniscript<Pk, Self, Ext>,
    ) -> (r: Result<(), Error>)
        ensures
            error_outcome(r) == ContextKind::top_level_type(ms@),
    {
        match ms.ty.corr.base {
            Base::B => Ok(()),
            b => Err(Error::NonTopLevel(b)),
        }
    }

    /// The rules on the root that the context adds.
    fn other_top_level_checks<Pk: MiniscriptKey, Ext: Extension<Pk>>(
        ms: &Miniscript<Pk, Self, Ext>,
    ) -> (r: Result<(), Error>)
        ensures
            error_outcome(r) == Self::kind().other_top_level(ms@),
    ;

    /// All rules on the root. The other rules were applied to each fragment
    /// when it was built; these hold of the root alone.
    fn top_level_checks<Pk: MiniscriptKey, Ext: Extension<Pk>>(
        ms: &Miniscript<Pk, Self, Ext>,
    ) -> (r: Result<(), Error>)
        ensures
            error_outcome(r) == Self::kind().top_level(ms@),
    {
        Self::top_level_type_check(ms)?;
        Self::other_top_level_checks(ms)
    }

    /// The signature scheme of the context.
    fn sig_type() -> (r: SigType)
        ensures
            r == Self::kind().sig_type(),
    ;

    /// Bytes that the push of `pk` takes in a script of the context: the
    /// length byte and the key.
    fn pk_len<Pk: MiniscriptKey>(pk: &Pk) -> (r: usize)
        requires
            Self::kind().has_costs(),
        ensures
            r == Self::kind().pk_len(*pk),
    ;

    /// The name of the context in messages.
    fn name_str() -> (r: &'static str)
        ensures
            r@ == Self::kind().name(),
    ;
}

/// The outcome of a check on the root with the error as its view.
pub open spec fn error_outcome(r: Result<(), Error>) -> Result<(), ErrorView> {
    match r {
        Ok(()) => Ok(()),
        Err(e) => Err(e@),
    }
}

/// The context of a script behind a script hash. For a script that stands
/// in an output as it is, see [`BareCtx`].
#[derive(Debug, Clone, Copy, Eq, PartialEq, Ord, PartialOrd, Hash)]
pub enum Legacy {
    Legacy,
}

impl ScriptContext for Legacy {
    open spec fn kind() -> ContextKind {
        ContextKind::Legacy
    }

    fn check_terminal_non_malleable<Pk: MiniscriptKey, Ext: Extension<Pk>>(
        frag: &Terminal<Pk, Self, Ext>,
    ) -> (r: Result<(), ScriptContextError>) {
        match frag {
            Terminal::PkH(_) => Err(ScriptContextError::MalleablePkH),
            Terminal::OrI(_, _) => Err(ScriptContextError::MalleableOrI),
            Terminal::DupIf(_) => Err(ScriptContextError::MalleableDupIf),
            _ => Ok(()),
        }
    }

    fn check_witness<Pk: MiniscriptKey, Ext: Extension<Pk>>(witness: &[Vec<u8>]) -> (r: Result<
        (),
        ScriptContextError,
    >) {
        let mut i: usize = 0;
        while i < witness.len()
            invariant
                i <= witness@.len(),
                forall|j: int| 0 <= j < i ==> (#[trigger] witness@[j])@.len() <= MAX_SCRIPTSIG_SIZE,
            decreases witness@.len() - i,
        {
            if witness[i].len() > MAX_SCRIPTSIG_SIZE {
                proof {
                    lemma_scriptsig_covers(witness@, witness@.len() as int, i as int);
                }
                return Err(ScriptContextError::MaxScriptSigSizeExceeded);
            }
            i += 1;
        }
        let script = witness_to_scriptsig(witness);
        if script_len(&script) > MAX_SCRIPTSIG_SIZE {
            return Err(ScriptContextError::MaxScriptSigSizeExceeded);
        }
        Ok(())
    }

    fn check_global_consensus_validity<Pk: MiniscriptKey, Ext: Extension<Pk>>(
        ms: &Miniscript<Pk, Self, Ext>,
    ) -> (r: Result<(), ScriptContextError>) {
        if ms.ext.pk_cost > MAX_SCRIPT_ELEMENT_SIZE {
            return Err(ScriptContextError::MaxRedeemScriptSizeExceeded);
        }
        match &ms.node {
            Terminal::PkK(key) => {
                ContextKind::Legacy.check_key(key)?;
            },
            Terminal::Multi(_k, pks) => {
                if pks.len() > MAX_PUBKEYS_PER_MULTISIG {
                    return Err(ScriptContextError::CheckMultiSigLimitExceeded);
                }
                ContextKind::Legacy.check_keys(pks)?;
            },
            Terminal::MultiA(_, _) => {
                return Err(ScriptContextError::MultiANotAllowed);
            },
            _ => {},
        }
        if let Terminal::Ext(_e) = &ms.node {
            return Err(
                ScriptContextError::ExtensionError(
                    String::from_str("No Extensions in Legacy context"),
                ),
            );
        }
        Ok(())
    }

    fn check_global_policy_validity<Pk: MiniscriptKey, Ext: Extension<Pk>>(
        ms: &Miniscript<Pk, Self, Ext>,
    ) -> (r: Result<(), ScriptContextError>) {
        Ok(())
    }

    fn check_local_consensus_validity<Pk: MiniscriptKey, Ext: Extension<Pk>>(
        ms: &Miniscript<Pk, Self, Ext>,
    ) -> (r: Result<(), ScriptContextError>) {
        check_op_count(ms)
    }

    fn check_local_policy_validity<Pk: MiniscriptKey, Ext: Extension<Pk>>(
        ms: &Miniscript<Pk, Self, Ext>,
    ) -> (r: Result<(), ScriptContextError>) {
        // At most 520 bytes of script cannot fill the 1000 element stack
        // limit, so only the size of the script signature is held to a limit.
        match Self::max_satisfaction_size(ms) {
            None => Err(ScriptContextError::ImpossibleSatisfaction),
            Some(size) => {
                if size > MAX_SCRIPTSIG_SIZE {
                    Err(ScriptContextError::MaxScriptSigSizeExceeded)
                } else {
                    Ok(())
                }
            },
        }
    }

    fn max_satisfaction_size<Pk: MiniscriptKey, Ext: Extension<Pk>>(
        ms: &Miniscript<Pk, Self, Ext>,
    ) -> (r: Option<usize>) {
        match ms.ext.max_sat_size {
            Some(x) => Some(x.1),
            None => None,
        }
    }

    fn other_top_level_checks<Pk: MiniscriptKey, Ext: Extension<Pk>>(
        ms: &Miniscript<Pk, Self, Ext>,
    ) -> (r: Result<(), Error>) {
        Ok(())
    }

    fn pk_len<Pk: MiniscriptKey>(pk: &Pk) -> (r: usize) {
        if pk.is_uncompressed() {
            66
        } else {
            34
        }
    }

    fn name_str() -> (r: &'static str) {
        "Legacy/p2sh"
    }

    fn sig_type() -> (r: SigType) {
        SigType::Ecdsa
    }
}

/// The context of a version 0 witness script.
#[derive(Debug, Clone, Copy, Eq, PartialEq, Ord, PartialOrd, Hash)]
pub enum Segwitv0 {
    Segwitv0,
}

impl ScriptContext for Segwitv0 {
    open spec fn kind() -> ContextKind {
        ContextKind::Segwitv0
    }

    fn check_terminal_non_malleable<Pk: MiniscriptKey, Ext: Extension<Pk>>(
        frag: &Terminal<Pk, Self, Ext>,
    ) -> (r: Result<(), ScriptContextError>) {
        Ok(())
    }

    fn check_witness<Pk: MiniscriptKey, Ext: Extension<Pk>>(witness: &[Vec<u8>]) -> (r: Result<
        (),
        ScriptContextError,
    >) {
        if witness.len() > MAX_STANDARD_P2WSH_STACK_ITEMS {
            return Err(
                ScriptContextError::MaxWitnessItemssExceeded {
                    actual: witness.len(),
                    limit: MAX_STANDARD_P2WSH_STACK_ITEMS,
                },
            );
        }
        Ok(())
    }

    fn check_global_consensus_validity<Pk: MiniscriptKey, Ext: Extension<Pk>>(
        ms: &Miniscript<Pk, Self, Ext>,
    ) -> (r: Result<(), ScriptContextError>) {
        if ms.ext.pk_cost > MAX_SCRIPT_SIZE {
            return Err(ScriptContextError::MaxWitnessScriptSizeExceeded);
        }
        match &ms.node {
            Terminal::PkK(pk) => ContextKind::Segwitv0.check_key(pk),
            Terminal::Multi(_k, pks) => {
                if pks.len() > MAX_PUBKEYS_PER_MULTISIG {
                    return Err(ScriptContextError::CheckMultiSigLimitExceeded);
                }
                ContextKind::Segwitv0.check_keys(pks)
            },
            Terminal::Ext(e) => {
                e.segwit_ctx_checks()?;
                Ok(())
            },
            Terminal::MultiA(_, _) => Err(ScriptContextError::MultiANotAllowed),
            _ => Ok(()),
        }
    }

    fn check_local_consensus_validity<Pk: MiniscriptKey, Ext: Extension<Pk>>(
        ms: &Miniscript<Pk, Self, Ext>,
    ) -> (r: Result<(), ScriptContextError>) {
        check_op_count(ms)
    }

    fn check_global_policy_validity<Pk: MiniscriptKey, Ext: Extension<Pk>>(
        ms: &Miniscript<Pk, Self, Ext>,
    ) -> (r: Result<(), ScriptContextError>) {
        if ms.ext.pk_cost > MAX_STANDARD_P2WSH_SCRIPT_SIZE {
            return Err(ScriptContextError::MaxWitnessScriptSizeExceeded);
        }
        Ok(())
    }

    fn check_local_policy_validity<Pk: MiniscriptKey, Ext: Extension<Pk>>(
        ms: &Miniscript<Pk, Self, Ext>,
    ) -> (r: Result<(), ScriptContextError>) {
        // The witness of every other version 0 program is far below the
        // limit, so the script is counted whatever program carries it.
        match ms.ext.stack_elem_count_sat {
            None => Err(ScriptContextError::ImpossibleSatisfaction),
            Some(n) => {
                let max_witness_items = n.saturating_add(1);
                if max_witness_items > MAX_STANDARD_P2WSH_STACK_ITEMS {
                    Err(
                        ScriptContextError::MaxWitnessItemssExceeded {
                            actual: max_witness_items,
                            limit: MAX_STANDARD_P2WSH_STACK_ITEMS,
                        },
                    )
                } else {
                    Ok(())
                }
            },
        }
    }

    fn max_satisfaction_size<Pk: MiniscriptKey, Ext: Extension<Pk>>(
        ms: &Miniscript<Pk, Self, Ext>,
    ) -> (r: Option<usize>) {
        match ms.ext.max_sat_size {
            Some(x) => Some(x.0),
            None => None,
        }
    }

    fn other_top_level_checks<Pk: MiniscriptKey, Ext: Extension<Pk>>(
        ms: &Miniscript<Pk, Self, Ext>,
    ) -> (r: Result<(), Error>) {
        Ok(())
    }

    fn pk_len<Pk: MiniscriptKey>(_pk: &Pk) -> (r: usize) {
        34
    }

    fn name_str() -> (r: &'static str) {
        "Segwitv0"
    }

    fn sig_type() -> (r: SigType) {
        SigType::Ecdsa
    }
}

/// The context of a tapscript leaf.
#[derive(Debug, Clone, Copy, Eq, PartialEq, Ord, PartialOrd, Hash)]
pub enum Tap {
    Tap,
}

impl ScriptContext for Tap {
    open spec fn kind() -> ContextKind {
        ContextKind::Tap
    }

    fn check_terminal_non_malleable<Pk: MiniscriptKey, Ext: Extension<Pk>>(
        frag: &Terminal<Pk, Self, Ext>,
    ) -> (r: Result<(), ScriptContextError>) {
        // Some fragments are invalid in tapscript, but none is malleable.
        Ok(())
    }

    fn check_witness<Pk: MiniscriptKey, Ext: Extension<Pk>>(witness: &[Vec<u8>]) -> (r: Result<
        (),
        ScriptContextError,
    >) {
        if witness.len() > MAX_STACK_SIZE {
            return Err(
                ScriptContextError::MaxWitnessItemssExceeded {
                    actual: witness.len(),
                    limit: MAX_STACK_SIZE,
                },
            );
        }
        Ok(())
    }

    fn check_global_consensus_validity<Pk: MiniscriptKey, Ext: Extension<Pk>>(
        ms: &Miniscript<Pk, Self, Ext>,
    ) -> (r: Result<(), ScriptContextError>) {
        // Consensus sets no size for a tapscript but that of the block.
        if ms.ext.pk_cost > max_block_weight() {
            return Err(ScriptContextError::MaxWitnessScriptSizeExceeded);
        }
        match &ms.node {
            Terminal::PkK(pk) => ContextKind::Tap.check_key(pk),
            Terminal::Multi(_, _) => Err(ScriptContextError::TaprootMultiDisabled),
            _ => Ok(()),
        }
    }

    fn check_local_consensus_validity<Pk: MiniscriptKey, Ext: Extension<Pk>>(
        ms: &Miniscript<Pk, Self, Ext>,
    ) -> (r: Result<(), ScriptContextError>) {
        // Each signature that a satisfaction holds pays for its own check,
        // so the budget of signature checks cannot run out; the stack can.
        match (ms.ext.exec_stack_elem_count_sat, ms.ext.stack_elem_count_sat) {
            (Some(s), Some(h)) => {
                let total = s.saturating_add(h);
                if total > MAX_STACK_SIZE {
                    Err(
                        ScriptContextError::StackSizeLimitExceeded {
                            actual: total,
                            limit: MAX_STACK_SIZE,
                        },
                    )
                } else {
                    Ok(())
                }
            },
            _ => Ok(()),
        }
    }

    fn check_global_policy_validity<Pk: MiniscriptKey, Ext: Extension<Pk>>(
        ms: &Miniscript<Pk, Self, Ext>,
    ) -> (r: Result<(), ScriptContextError>) {
        Ok(())
    }

    fn check_local_policy_validity<Pk: MiniscriptKey, Ext: Extension<Pk>>(
        ms: &Miniscript<Pk, Self, Ext>,
    ) -> (r: Result<(), ScriptContextError>) {
        Ok(())
    }

    fn max_satisfaction_size<Pk: MiniscriptKey, Ext: Extension<Pk>>(
        ms: &Miniscript<Pk, Self, Ext>,
    ) -> (r: Option<usize>) {
        match ms.ext.max_sat_size {
            Some(x) => Some(x.0),
            None => None,
        }
    }

    fn other_top_level_checks<Pk: MiniscriptKey, Ext: Extension<Pk>>(
        ms: &Miniscript<Pk, Self, Ext>,
    ) -> (r: Result<(), Error>) {
        Ok(())
    }

    fn sig_type() -> (r: SigType) {
        SigType::Schnorr
    }

    fn pk_len<Pk: MiniscriptKey>(_pk: &Pk) -> (r: usize) {
        33
    }

    fn name_str() -> (r: &'static str) {
        "TapscriptCtx"
    }
}

/// The context of a script that stands in an output as it is. Relay rules
/// leave very few such scripts standard.
#[derive(Debug, Clone, Copy, Eq, PartialEq, Ord, PartialOrd, Hash)]
pub enum BareCtx {
    BareCtx,
}

impl ScriptContext for BareCtx {
    open spec fn kind() -> ContextKind {
        ContextKind::BareCtx
    }

    fn check_terminal_non_malleable<Pk: MiniscriptKey, Ext: Extension<Pk>>(
        frag: &Terminal<Pk, Self, Ext>,
    ) -> (r: Result<(), ScriptContextError>) {
        Ok(())
    }

    fn check_witness<Pk: MiniscriptKey, Ext: Extension<Pk>>(witness: &[Vec<u8>]) -> (r: Result<
        (),
        ScriptContextError,
    >) {
        Ok(())
    }

    fn check_global_consensus_validity<Pk: MiniscriptKey, Ext: Extension<Pk>>(
        ms: &Miniscript<Pk, Self, Ext>,
    ) -> (r: Result<(), ScriptContextError>) {
        if ms.ext.pk_cost > MAX_SCRIPT_SIZE {
            return Err(ScriptContextError::MaxWitnessScriptSizeExceeded);
        }
        if let Terminal::Ext(_e) = &ms.node {
            return Err(
                ScriptContextError::ExtensionError(
                    String::from_str("No Extensions in Bare context"),
                ),
            );
        }
        match &ms.node {
            Terminal::PkK(key) => ContextKind::BareCtx.check_key(key),
            Terminal::Multi(_k, pks) => {
                if pks.len() > MAX_PUBKEYS_PER_MULTISIG {
                    return Err(ScriptContextError::CheckMultiSigLimitExceeded);
                }
                ContextKind::BareCtx.check_keys(pks)
            },
            Terminal::MultiA(_, _) => Err(ScriptContextError::MultiANotAllowed),
            _ => Ok(()),
        }
    }

    fn check_global_policy_validity<Pk: MiniscriptKey, Ext: Extension<Pk>>(
        ms: &Miniscript<Pk, Self, Ext>,
    ) -> (r: Result<(), ScriptContextError>) {
        Ok(())
    }

    fn check_local_consensus_validity<Pk: MiniscriptKey, Ext: Extension<Pk>>(
        ms: &Miniscript<Pk, Self, Ext>,
    ) -> (r: Result<(), ScriptContextError>) {
        check_op_count(ms)
    }

    fn check_local_policy_validity<Pk: MiniscriptKey, Ext: Extension<Pk>>(
        ms: &Miniscript<Pk, Self, Ext>,
    ) -> (r: Result<(), ScriptContextError>) {
        Ok(())
    }

    fn other_top_level_checks<Pk: MiniscriptKey, Ext: Extension<Pk>>(
        ms: &Miniscript<Pk, Self, Ext>,
    ) -> (r: Result<(), Error>) {
        match &ms.node {
            Terminal::Check(inner) => {
                proof {
                    assert(ms@.node == TerminalView::Check(Box::new(inner@)));
                    assert(inner@.node == inner.node@);
                }
                match &inner.node {
                    Terminal::PkH(_pkh) => Ok(()),
                    Terminal::PkK(_pk) => Ok(()),
                    _ => Err(Error::NonStandardBareScript),
                }
            },
            Terminal::Multi(_k, subs) => {
                if subs.len() <= 3 {
                    Ok(())
                } else {
                    Err(Error::NonStandardBareScript)
                }
            },
            _ => Err(Error::NonStandardBareScript),
        }
    }

    fn max_satisfaction_size<Pk: MiniscriptKey, Ext: Extension<Pk>>(
        ms: &Miniscript<Pk, Self, Ext>,
    ) -> (r: Option<usize>) {
        match ms.ext.max_sat_size {
            Some(x) => Some(x.1),
            None => None,
        }
    }

    fn pk_len<Pk: MiniscriptKey>(pk: &Pk) -> (r: usize) {
        if pk.is_uncompressed() {
            65
        } else {
            33
        }
    }

    fn name_str() -> (r: &'static str) {
        "BareCtx"
    }

    fn sig_type() -> (r: SigType) {
        SigType::Ecdsa
    }
}

/// The context without rules, for reading scripts as they are found. It
/// answers no question of cost.
#[derive(Debug, Clone, Copy, Eq, PartialEq, Ord, PartialOrd, Hash)]
pub enum NoChecks {
    NoChecks,
}

impl ScriptContext for NoChecks {
    open spec fn kind() -> ContextKind {
        ContextKind::NoChecks
    }

    fn check_terminal_non_malleable<Pk: MiniscriptKey, Ext: Extension<Pk>>(
        frag: &Terminal<Pk, Self, Ext>,
    ) -> (r: Result<(), ScriptContextError>) {
        Ok(())
    }

    fn check_global_policy_validity<Pk: MiniscriptKey, Ext: Extension<Pk>>(
        ms: &Miniscript<Pk, Self, Ext>,
    ) -> (r: Result<(), ScriptContextError>) {
        Ok(())
    }

    fn check_global_consensus_validity<Pk: MiniscriptKey, Ext: Extension<Pk>>(
        ms: &Miniscript<Pk, Self, Ext>,
    ) -> (r: Result<(), ScriptContextError>) {
        Ok(())
    }

    fn check_local_policy_validity<Pk: MiniscriptKey, Ext: Extension<Pk>>(
        ms: &Miniscript<Pk, Self, Ext>,
    ) -> (r: Result<(), ScriptContextError>) {
        Ok(())
    }

    fn check_local_consensus_validity<Pk: MiniscriptKey, Ext: Extension<Pk>>(
        ms: &Miniscript<Pk, Self, Ext>,
    ) -> (r: Result<(), ScriptContextError>) {
        Ok(())
    }

    fn max_satisfaction_size<Pk: MiniscriptKey, Ext: Extension<Pk>>(
        ms: &Miniscript<Pk, Self, Ext>,
    ) -> (r: Option<usize>) {
        vstd::pervasive::unreached()
    }

    fn pk_len<Pk: MiniscriptKey>(_pk: &Pk) -> (r: usize) {
        vstd::pervasive::unreached()
    }

    fn name_str() -> (r: &'static str) {
        "NochecksEcdsa"
    }

    fn check_witness<Pk: MiniscriptKey, Ext: Extension<Pk>>(witness: &[Vec<u8>]) -> (r: Result<
        (),
        ScriptContextError,
    >) {
        Ok(())
    }

    fn other_top_level_checks<Pk: MiniscriptKey, Ext: Extension<Pk>>(
        ms: &Miniscript<Pk, Self, Ext>,
    ) -> (r: Result<(), Error>) {
        Ok(())
    }

    fn sig_type() -> (r: SigType) {
        SigType::Ecdsa
    }
}

} // verus!
