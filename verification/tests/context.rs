use elements_miniscript::context::BareCtx;
use elements_miniscript::context::Legacy;
use elements_miniscript::context::NoChecks;
use elements_miniscript::context::ScriptContext;
use elements_miniscript::context::ScriptContextError;
use elements_miniscript::context::Segwitv0;
use elements_miniscript::context::SigType;
use elements_miniscript::context::Tap;
use elements_miniscript::error::Error;
use elements_miniscript::extension::NoExt;
use elements_miniscript::key::MiniscriptKey;
use elements_miniscript::key::PublicKey;
use elements_miniscript::key::XOnlyPublicKey;
use elements_miniscript::miniscript::Miniscript;
use elements_miniscript::miniscript::Terminal;
use elements_miniscript::types::Base;
use elements_miniscript::util::witness_to_scriptsig;
use std::sync::Arc;

fn key(fill: u8) -> PublicKey {
    let mut bytes = [fill; 33];
    bytes[0] = 2;
    PublicKey::from_slice(&bytes).expect("a well-shaped key")
}

fn uncompressed_key(fill: u8) -> PublicKey {
    let mut bytes = [fill; 65];
    bytes[0] = 4;
    PublicKey::from_slice(&bytes).expect("a well-shaped key")
}

fn typed<Pk: MiniscriptKey, Ctx: ScriptContext>(
    node: Terminal<Pk, Ctx, NoExt>,
) -> Miniscript<Pk, Ctx, NoExt> {
    match Miniscript::from_ast(node) {
        Ok(ms) => ms,
        Err(_) => panic!("the fragment has no type"),
    }
}

fn with_cost<Ctx: ScriptContext>(pk_cost: usize) -> Miniscript<PublicKey, Ctx, NoExt> {
    let mut ms = typed::<PublicKey, Ctx>(Terminal::True);
    ms.ext.pk_cost = pk_cost;
    ms
}

fn keys(n: u8) -> Vec<PublicKey> {
    (1..=n).map(key).collect()
}

#[test]
fn legacy_takes_three_fragments_for_malleable() {
    let h = [1u8; 20];
    let pkh: Terminal<PublicKey, Legacy, NoExt> = Terminal::PkH(h);
    assert_eq!(
        Legacy::check_terminal_non_malleable(&pkh),
        Err(ScriptContextError::MalleablePkH)
    );
    let a = Arc::new(typed(Terminal::Check(Arc::new(typed(Terminal::PkK(key(1)))))));
    let or_i: Terminal<PublicKey, Legacy, NoExt> = Terminal::OrI(a.clone(), a.clone());
    assert_eq!(
        Legacy::check_terminal_non_malleable(&or_i),
        Err(ScriptContextError::MalleableOrI)
    );
    let dup_if: Terminal<PublicKey, Legacy, NoExt> = Terminal::DupIf(a.clone());
    assert_eq!(
        Legacy::check_terminal_non_malleable(&dup_if),
        Err(ScriptContextError::MalleableDupIf)
    );
    let or_d: Terminal<PublicKey, Legacy, NoExt> = Terminal::OrD(a.clone(), a);
    assert_eq!(Legacy::check_terminal_non_malleable(&or_d), Ok(()));
}

#[test]
fn other_contexts_take_no_fragment_for_malleable() {
    let h = [1u8; 20];
    assert_eq!(
        Segwitv0::check_terminal_non_malleable::<PublicKey, NoExt>(&Terminal::PkH(h)),
        Ok(())
    );
    assert_eq!(Tap::check_terminal_non_malleable::<PublicKey, NoExt>(&Terminal::PkH(h)), Ok(()));
    assert_eq!(
        BareCtx::check_terminal_non_malleable::<PublicKey, NoExt>(&Terminal::PkH(h)),
        Ok(())
    );
    assert_eq!(
        NoChecks::check_terminal_non_malleable::<PublicKey, NoExt>(&Terminal::PkH(h)),
        Ok(())
    );
}

#[test]
fn witness_element_ceilings() {
    let hundred = vec![vec![1u8]; 100];
    let more = vec![vec![1u8]; 101];
    assert_eq!(Segwitv0::check_witness::<PublicKey, NoExt>(&hundred), Ok(()));
    assert_eq!(
        Segwitv0::check_witness::<PublicKey, NoExt>(&more),
        Err(ScriptContextError::MaxWitnessItemssExceeded { actual: 101, limit: 100 })
    );
    let thousand = vec![vec![]; 1000];
    let more = vec![vec![]; 1001];
    assert_eq!(Tap::check_witness::<PublicKey, NoExt>(&thousand), Ok(()));
    assert_eq!(
        Tap::check_witness::<PublicKey, NoExt>(&more),
        Err(ScriptContextError::MaxWitnessItemssExceeded { actual: 1001, limit: 1000 })
    );
    assert_eq!(BareCtx::check_witness::<PublicKey, NoExt>(&more), Ok(()));
    assert_eq!(NoChecks::check_witness::<PublicKey, NoExt>(&more), Ok(()));
}

#[test]
fn legacy_witness_is_held_to_the_script_signature_size() {
    let signatures = vec![vec![0x30u8; 73]; 22];
    assert_eq!(witness_to_scriptsig(&signatures).len(), 22 * 74);
    assert_eq!(Legacy::check_witness::<PublicKey, NoExt>(&signatures), Ok(()));
    let signatures = vec![vec![0x30u8; 73]; 23];
    assert_eq!(
        Legacy::check_witness::<PublicKey, NoExt>(&signatures),
        Err(ScriptContextError::MaxScriptSigSizeExceeded)
    );
    let ones = vec![vec![1u8]; 1650];
    assert_eq!(Legacy::check_witness::<PublicKey, NoExt>(&ones), Ok(()));
    let ones = vec![vec![1u8]; 1651];
    assert_eq!(
        Legacy::check_witness::<PublicKey, NoExt>(&ones),
        Err(ScriptContextError::MaxScriptSigSizeExceeded)
    );
    let large = vec![vec![0u8; 1651]];
    assert_eq!(
        Legacy::check_witness::<PublicKey, NoExt>(&large),
        Err(ScriptContextError::MaxScriptSigSizeExceeded)
    );
    let fits = vec![vec![7u8; 1647]];
    assert_eq!(witness_to_scriptsig(&fits).len(), 1650);
    assert_eq!(Legacy::check_witness::<PublicKey, NoExt>(&fits), Ok(()));
}

#[test]
fn script_signature_pushes_numbers_and_data() {
    let witness = vec![vec![], vec![1], vec![0x81], vec![17], vec![1, 2, 3, 4, 5], vec![9; 76]];
    let script = witness_to_scriptsig(&witness);
    let mut expected = vec![0x00, 0x51, 0x4f, 0x01, 0x11, 0x05, 1, 2, 3, 4, 5, 0x4c, 76];
    expected.extend(vec![9u8; 76]);
    assert_eq!(script.as_bytes(), &expected[..]);
    assert_eq!(script.len(), expected.len());
}

#[test]
fn script_size_ceilings() {
    assert_eq!(Legacy::check_global_consensus_validity(&with_cost::<Legacy>(520)), Ok(()));
    assert_eq!(
        Legacy::check_global_consensus_validity(&with_cost::<Legacy>(521)),
        Err(ScriptContextError::MaxRedeemScriptSizeExceeded)
    );
    assert_eq!(Segwitv0::check_global_consensus_validity(&with_cost::<Segwitv0>(10000)), Ok(()));
    assert_eq!(
        Segwitv0::check_global_consensus_validity(&with_cost::<Segwitv0>(10001)),
        Err(ScriptContextError::MaxWitnessScriptSizeExceeded)
    );
    assert_eq!(BareCtx::check_global_consensus_validity(&with_cost::<BareCtx>(10000)), Ok(()));
    assert_eq!(
        BareCtx::check_global_consensus_validity(&with_cost::<BareCtx>(10001)),
        Err(ScriptContextError::MaxWitnessScriptSizeExceeded)
    );
    assert_eq!(Tap::check_global_consensus_validity(&with_cost::<Tap>(4_000_000)), Ok(()));
    assert_eq!(
        Tap::check_global_consensus_validity(&with_cost::<Tap>(4_000_001)),
        Err(ScriptContextError::MaxWitnessScriptSizeExceeded)
    );
    assert_eq!(
        NoChecks::check_global_consensus_validity(&with_cost::<NoChecks>(usize::MAX)),
        Ok(())
    );
}

#[test]
fn relay_rules_are_a_tier_of_their_own() {
    let ms = with_cost::<Segwitv0>(3601);
    assert_eq!(Segwitv0::check_global_consensus_validity(&ms), Ok(()));
    assert_eq!(
        Segwitv0::check_global_policy_validity(&ms),
        Err(ScriptContextError::MaxWitnessScriptSizeExceeded)
    );
    assert_eq!(
        Segwitv0::check_global_validity(&ms),
        Err(ScriptContextError::MaxWitnessScriptSizeExceeded)
    );
    assert_eq!(Segwitv0::check_global_policy_validity(&with_cost::<Segwitv0>(3600)), Ok(()));
    assert_eq!(Legacy::check_global_policy_validity(&with_cost::<Legacy>(100_000)), Ok(()));
    assert_eq!(Tap::check_global_policy_validity(&with_cost::<Tap>(100_000)), Ok(()));
    assert_eq!(BareCtx::check_global_policy_validity(&with_cost::<BareCtx>(100_000)), Ok(()));
}

#[test]
fn uncompressed_keys_by_context() {
    let k = uncompressed_key(5);
    let hex = format!("04{}", "05".repeat(64));
    assert_eq!(
        Segwitv0::check_global_consensus_validity(&typed(Terminal::PkK(k))),
        Err(ScriptContextError::CompressedOnly(hex))
    );
    assert_eq!(
        Tap::check_global_consensus_validity(&typed(Terminal::PkK(k))),
        Err(ScriptContextError::UncompressedKeysNotAllowed)
    );
    assert_eq!(Legacy::check_global_consensus_validity(&typed(Terminal::PkK(k))), Ok(()));
    assert_eq!(BareCtx::check_global_consensus_validity(&typed(Terminal::PkK(k))), Ok(()));
    assert_eq!(NoChecks::check_global_consensus_validity(&typed(Terminal::PkK(k))), Ok(()));
}

#[test]
fn x_only_keys_belong_to_tapscript() {
    let k = XOnlyPublicKey { bytes: [0xcd; 32] };
    let hex = "cd".repeat(32);
    assert_eq!(Tap::check_global_consensus_validity(&typed(Terminal::PkK(k))), Ok(()));
    assert_eq!(
        Legacy::check_global_consensus_validity(&typed(Terminal::PkK(k))),
        Err(ScriptContextError::XOnlyKeysNotAllowed(hex.clone(), "Legacy/p2sh"))
    );
    assert_eq!(
        Segwitv0::check_global_consensus_validity(&typed(Terminal::PkK(k))),
        Err(ScriptContextError::XOnlyKeysNotAllowed(hex.clone(), "Segwitv0"))
    );
    assert_eq!(
        BareCtx::check_global_consensus_validity(&typed(Terminal::PkK(k))),
        Err(ScriptContextError::XOnlyKeysNotAllowed(hex.clone(), "BareCtx"))
    );
    let list = vec![k, XOnlyPublicKey { bytes: [1; 32] }];
    assert_eq!(
        Segwitv0::check_global_consensus_validity(&typed(Terminal::Multi(1, list))),
        Err(ScriptContextError::XOnlyKeysNotAllowed(hex, "Segwitv0"))
    );
}

#[test]
fn key_lists_are_held_to_the_rules_in_order() {
    let first = uncompressed_key(8);
    let second = uncompressed_key(9);
    let list = vec![key(1), first, second];
    let hex = format!("04{}", "08".repeat(64));
    assert_eq!(
        Segwitv0::check_global_consensus_validity(&typed(Terminal::Multi(2, list.clone()))),
        Err(ScriptContextError::CompressedOnly(hex))
    );
    assert_eq!(
        Legacy::check_global_consensus_validity(&typed(Terminal::Multi(2, list.clone()))),
        Ok(())
    );
    assert_eq!(
        BareCtx::check_global_consensus_validity(&typed(Terminal::Multi(2, list))),
        Ok(())
    );
}

#[test]
fn multisig_key_count_ceiling() {
    assert_eq!(
        Segwitv0::check_global_consensus_validity(&typed(Terminal::Multi(1, keys(20)))),
        Ok(())
    );
    assert_eq!(
        Segwitv0::check_global_consensus_validity(&typed(Terminal::Multi(1, keys(21)))),
        Err(ScriptContextError::CheckMultiSigLimitExceeded)
    );
    assert_eq!(
        BareCtx::check_global_consensus_validity(&typed(Terminal::Multi(1, keys(21)))),
        Err(ScriptContextError::CheckMultiSigLimitExceeded)
    );
    let mut ms = typed::<PublicKey, Legacy>(Terminal::Multi(1, keys(21)));
    assert_eq!(
        Legacy::check_global_consensus_validity(&ms),
        Err(ScriptContextError::MaxRedeemScriptSizeExceeded)
    );
    ms.ext.pk_cost = 520;
    assert_eq!(
        Legacy::check_global_consensus_validity(&ms),
        Err(ScriptContextError::CheckMultiSigLimitExceeded)
    );
    assert_eq!(
        Tap::check_global_consensus_validity(&typed(Terminal::Multi(1, keys(2)))),
        Err(ScriptContextError::TaprootMultiDisabled)
    );
}

#[test]
fn multi_a_belongs_to_tapscript() {
    assert_eq!(
        Legacy::check_global_consensus_validity(&typed(Terminal::MultiA(1, keys(2)))),
        Err(ScriptContextError::MultiANotAllowed)
    );
    assert_eq!(
        Segwitv0::check_global_consensus_validity(&typed(Terminal::MultiA(1, keys(2)))),
        Err(ScriptContextError::MultiANotAllowed)
    );
    assert_eq!(
        BareCtx::check_global_consensus_validity(&typed(Terminal::MultiA(1, keys(2)))),
        Err(ScriptContextError::MultiANotAllowed)
    );
    assert_eq!(Tap::check_global_consensus_validity(&typed(Terminal::MultiA(1, keys(2)))), Ok(()));
}

#[test]
fn extension_fragments_by_context() {
    assert_eq!(
        Legacy::check_global_consensus_validity(&typed::<PublicKey, Legacy>(Terminal::Ext(NoExt))),
        Err(ScriptContextError::ExtensionError("No Extensions in Legacy context".to_string()))
    );
    assert_eq!(
        BareCtx::check_global_consensus_validity(&typed::<PublicKey, BareCtx>(Terminal::Ext(
            NoExt
        ))),
        Err(ScriptContextError::ExtensionError("No Extensions in Bare context".to_string()))
    );
    assert_eq!(
        Segwitv0::check_global_consensus_validity(&typed::<PublicKey, Segwitv0>(Terminal::Ext(
            NoExt
        ))),
        Err(ScriptContextError::ExtensionError("No extension is defined".to_string()))
    );
    assert_eq!(
        Tap::check_global_consensus_validity(&typed::<PublicKey, Tap>(Terminal::Ext(NoExt))),
        Ok(())
    );
}

#[test]
fn opcode_count_ceiling() {
    let mut ms = typed::<PublicKey, Segwitv0>(Terminal::True);
    ms.ext.ops.count = 200;
    ms.ext.ops.sat = Some(1);
    assert_eq!(Segwitv0::check_local_consensus_validity(&ms), Ok(()));
    ms.ext.ops.sat = Some(2);
    assert_eq!(
        Segwitv0::check_local_consensus_validity(&ms),
        Err(ScriptContextError::MaxOpCountExceeded)
    );
    ms.ext.ops.sat = None;
    assert_eq!(
        Segwitv0::check_local_consensus_validity(&ms),
        Err(ScriptContextError::MaxOpCountExceeded)
    );
    let mut ms = typed::<PublicKey, Legacy>(Terminal::True);
    ms.ext.ops.count = 202;
    assert_eq!(
        Legacy::check_local_consensus_validity(&ms),
        Err(ScriptContextError::MaxOpCountExceeded)
    );
    let mut ms = typed::<PublicKey, BareCtx>(Terminal::True);
    ms.ext.ops.count = 202;
    assert_eq!(
        BareCtx::check_local_consensus_validity(&ms),
        Err(ScriptContextError::MaxOpCountExceeded)
    );
    let mut ms = typed::<PublicKey, NoChecks>(Terminal::True);
    ms.ext.ops.count = 202;
    assert_eq!(NoChecks::check_local_consensus_validity(&ms), Ok(()));
}

#[test]
fn tapscript_stack_ceiling() {
    let mut ms = typed::<PublicKey, Tap>(Terminal::True);
    ms.ext.ops.count = 5000;
    ms.ext.exec_stack_elem_count_sat = Some(600);
    ms.ext.stack_elem_count_sat = Some(400);
    assert_eq!(Tap::check_local_consensus_validity(&ms), Ok(()));
    ms.ext.stack_elem_count_sat = Some(401);
    assert_eq!(
        Tap::check_local_consensus_validity(&ms),
        Err(ScriptContextError::StackSizeLimitExceeded { actual: 1001, limit: 1000 })
    );
    ms.ext.exec_stack_elem_count_sat = Some(usize::MAX);
    assert_eq!(
        Tap::check_local_consensus_validity(&ms),
        Err(ScriptContextError::StackSizeLimitExceeded { actual: usize::MAX, limit: 1000 })
    );
    ms.ext.exec_stack_elem_count_sat = None;
    assert_eq!(Tap::check_local_consensus_validity(&ms), Ok(()));
}

#[test]
fn satisfaction_size_rules() {
    let mut ms = typed::<PublicKey, Legacy>(Terminal::True);
    ms.ext.max_sat_size = Some((5000, 1650));
    assert_eq!(Legacy::check_local_policy_validity(&ms), Ok(()));
    ms.ext.max_sat_size = Some((0, 1651));
    assert_eq!(
        Legacy::check_local_policy_validity(&ms),
        Err(ScriptContextError::MaxScriptSigSizeExceeded)
    );
    ms.ext.max_sat_size = None;
    assert_eq!(
        Legacy::check_local_policy_validity(&ms),
        Err(ScriptContextError::ImpossibleSatisfaction)
    );

    let mut ms = typed::<PublicKey, Segwitv0>(Terminal::True);
    ms.ext.stack_elem_count_sat = Some(99);
    assert_eq!(Segwitv0::check_local_policy_validity(&ms), Ok(()));
    ms.ext.stack_elem_count_sat = Some(100);
    assert_eq!(
        Segwitv0::check_local_policy_validity(&ms),
        Err(ScriptContextError::MaxWitnessItemssExceeded { actual: 101, limit: 100 })
    );
    ms.ext.stack_elem_count_sat = None;
    assert_eq!(
        Segwitv0::check_local_policy_validity(&ms),
        Err(ScriptContextError::ImpossibleSatisfaction)
    );
    assert_eq!(
        Segwitv0::check_local_validity(&typed::<PublicKey, Segwitv0>(Terminal::False)),
        Err(ScriptContextError::MaxOpCountExceeded)
    );

    let mut ms = typed::<PublicKey, Tap>(Terminal::True);
    ms.ext.max_sat_size = None;
    ms.ext.stack_elem_count_sat = None;
    assert_eq!(Tap::check_local_policy_validity(&ms), Ok(()));
    let mut ms = typed::<PublicKey, BareCtx>(Terminal::True);
    ms.ext.max_sat_size = None;
    assert_eq!(BareCtx::check_local_policy_validity(&ms), Ok(()));
}

#[test]
fn all_four_sets_of_rules_in_order() {
    let mut ms = typed::<PublicKey, Segwitv0>(Terminal::True);
    assert_eq!(Segwitv0::check_local_validity(&ms), Ok(()));
    ms.ext.stack_elem_count_sat = Some(100);
    ms.ext.ops.count = 202;
    assert_eq!(
        Segwitv0::check_local_validity(&ms),
        Err(ScriptContextError::MaxOpCountExceeded)
    );
    ms.ext.pk_cost = 3601;
    assert_eq!(
        Segwitv0::check_local_validity(&ms),
        Err(ScriptContextError::MaxWitnessScriptSizeExceeded)
    );
}

#[test]
fn satisfaction_size_by_context() {
    let mut ms = typed::<PublicKey, Legacy>(Terminal::True);
    ms.ext.max_sat_size = Some((10, 20));
    assert_eq!(Legacy::max_satisfaction_size(&ms), Some(20));
    let mut ms = typed::<PublicKey, BareCtx>(Terminal::True);
    ms.ext.max_sat_size = Some((10, 20));
    assert_eq!(BareCtx::max_satisfaction_size(&ms), Some(20));
    let mut ms = typed::<PublicKey, Segwitv0>(Terminal::True);
    ms.ext.max_sat_size = Some((10, 20));
    assert_eq!(Segwitv0::max_satisfaction_size(&ms), Some(10));
    let mut ms = typed::<PublicKey, Tap>(Terminal::True);
    ms.ext.max_sat_size = Some((10, 20));
    assert_eq!(Tap::max_satisfaction_size(&ms), Some(10));
    ms.ext.max_sat_size = None;
    assert_eq!(Tap::max_satisfaction_size(&ms), None);
}

#[test]
fn facts_of_each_context() {
    assert_eq!(Legacy::sig_type(), SigType::Ecdsa);
    assert_eq!(Segwitv0::sig_type(), SigType::Ecdsa);
    assert_eq!(BareCtx::sig_type(), SigType::Ecdsa);
    assert_eq!(NoChecks::sig_type(), SigType::Ecdsa);
    assert_eq!(Tap::sig_type(), SigType::Schnorr);
    assert_eq!(Legacy::name_str(), "Legacy/p2sh");
    assert_eq!(Segwitv0::name_str(), "Segwitv0");
    assert_eq!(Tap::name_str(), "TapscriptCtx");
    assert_eq!(BareCtx::name_str(), "BareCtx");
    assert_eq!(NoChecks::name_str(), "NochecksEcdsa");
    assert_eq!(Legacy::pk_len(&key(1)), 34);
    assert_eq!(Legacy::pk_len(&uncompressed_key(1)), 66);
    assert_eq!(BareCtx::pk_len(&key(1)), 33);
    assert_eq!(BareCtx::pk_len(&uncompressed_key(1)), 65);
    assert_eq!(Segwitv0::pk_len(&uncompressed_key(1)), 34);
    assert_eq!(Tap::pk_len(&key(1)), 33);
}

#[test]
fn rules_on_the_root() {
    let k = Arc::new(typed::<PublicKey, Segwitv0>(Terminal::PkK(key(1))));
    assert_eq!(Segwitv0::top_level_type_check(&*k), Err(Error::NonTopLevel(Base::K)));
    assert_eq!(Segwitv0::top_level_checks(&*k), Err(Error::NonTopLevel(Base::K)));
    let checked = typed::<PublicKey, Segwitv0>(Terminal::Check(k));
    assert_eq!(Segwitv0::top_level_type_check(&checked), Ok(()));
    assert_eq!(Segwitv0::other_top_level_checks(&checked), Ok(()));
    assert_eq!(Segwitv0::top_level_checks(&checked), Ok(()));
}

#[test]
fn bare_scripts_are_few() {
    let k = Arc::new(typed::<PublicKey, BareCtx>(Terminal::PkK(key(1))));
    let h = Arc::new(typed::<PublicKey, BareCtx>(Terminal::PkH([3; 20])));
    let checked_key = typed::<PublicKey, BareCtx>(Terminal::Check(k.clone()));
    assert_eq!(BareCtx::top_level_checks(&checked_key), Ok(()));
    assert_eq!(BareCtx::top_level_checks(&typed(Terminal::Check(h))), Ok(()));
    assert_eq!(BareCtx::top_level_checks(&typed(Terminal::Multi(2, keys(3)))), Ok(()));
    assert_eq!(
        BareCtx::top_level_checks(&typed(Terminal::Multi(2, keys(4)))),
        Err(Error::NonStandardBareScript)
    );
    assert_eq!(
        BareCtx::top_level_checks(&typed::<PublicKey, BareCtx>(Terminal::True)),
        Err(Error::NonStandardBareScript)
    );
    let wrapped = typed::<PublicKey, BareCtx>(Terminal::ZeroNotEqual(Arc::new(checked_key)));
    assert_eq!(BareCtx::other_top_level_checks(&wrapped), Err(Error::NonStandardBareScript));
    assert_eq!(BareCtx::top_level_checks(&*k), Err(Error::NonTopLevel(Base::K)));
    assert_eq!(
        Legacy::top_level_checks(&typed::<PublicKey, Legacy>(Terminal::True)),
        Ok(())
    );
}

#[test]
fn errors_as_sentences() {
    assert_eq!(
        ScriptContextError::MalleablePkH.to_string(),
        "PkH is malleable under Legacy rules"
    );
    assert_eq!(
        ScriptContextError::MalleableOrI.to_string(),
        "OrI is malleable under Legacy rules"
    );
    assert_eq!(
        ScriptContextError::MalleableDupIf.to_string(),
        "DupIf is malleable under Legacy rules"
    );
    assert_eq!(
        ScriptContextError::CompressedOnly("04ab".to_string()).to_string(),
        "Only Compressed pubkeys are allowed in segwit context. Found 04ab"
    );
    assert_eq!(
        ScriptContextError::XOnlyKeysNotAllowed("cd".to_string(), "Segwitv0").to_string(),
        "x-only key cd not allowed in Segwitv0"
    );
    assert_eq!(
        ScriptContextError::UncompressedKeysNotAllowed.to_string(),
        "uncompressed keys cannot be used in Taproot descriptors."
    );
    assert_eq!(
        ScriptContextError::MaxWitnessItemssExceeded { actual: 101, limit: 100 }.to_string(),
        "At least one spending path in the Miniscript fragment has 101 more witness items than limit 100."
    );
    assert_eq!(
        ScriptContextError::MaxOpCountExceeded.to_string(),
        "At least one satisfaction path in the Miniscript fragment contains more than MAX_OPS_PER_SCRIPT opcodes."
    );
    assert_eq!(
        ScriptContextError::MaxWitnessScriptSizeExceeded.to_string(),
        "The Miniscript corresponding Script would be larger than MAX_STANDARD_P2WSH_SCRIPT_SIZE bytes."
    );
    assert_eq!(
        ScriptContextError::MaxRedeemScriptSizeExceeded.to_string(),
        "The Miniscript corresponding Script would be larger than MAX_SCRIPT_ELEMENT_SIZE bytes."
    );
    assert_eq!(
        ScriptContextError::MaxScriptSigSizeExceeded.to_string(),
        "At least one satisfaction in Miniscript would be larger than MAX_SCRIPTSIG_SIZE scriptsig"
    );
    assert_eq!(
        ScriptContextError::ImpossibleSatisfaction.to_string(),
        "Impossible to satisfy Miniscript under the current context"
    );
    assert_eq!(
        ScriptContextError::CovElementSizeExceeded.to_string(),
        "Prefix/Suffix len in sighash covenents exceeds 520 bytes"
    );
    assert_eq!(
        ScriptContextError::TaprootMultiDisabled.to_string(),
        "Invalid use of Multi node in taproot context"
    );
    assert_eq!(
        ScriptContextError::StackSizeLimitExceeded { actual: 1001, limit: 1000 }.to_string(),
        "Stack limit 1001 can exceed the allowed limit 1000 in at least one script path during script execution"
    );
    assert_eq!(
        ScriptContextError::CheckMultiSigLimitExceeded.to_string(),
        "CHECkMULTISIG ('multi()' descriptor) only supports up to 20 pubkeys"
    );
    assert_eq!(
        ScriptContextError::MultiANotAllowed.to_string(),
        "Multi a(CHECKSIGADD) only allowed post tapscript"
    );
    assert_eq!(
        ScriptContextError::ExtensionError("none".to_string()).to_string(),
        "Extension Error: none"
    );
}
