use elements_miniscript::context::Segwitv0;
use elements_miniscript::context::SigType;
use elements_miniscript::context::Tap;
use elements_miniscript::decode::return_none;
use elements_miniscript::error::Error;
use elements_miniscript::extension::NoExt;
use elements_miniscript::extra_props::ExtData;
use elements_miniscript::extra_props::OpLimits;
use elements_miniscript::key::to_hex;
use elements_miniscript::key::PublicKey;
use elements_miniscript::limits::script_num_size;
use elements_miniscript::miniscript::Miniscript;
use elements_miniscript::miniscript::Terminal;
use elements_miniscript::text::decimal;
use elements_miniscript::types::Base;
use elements_miniscript::types::Correctness;
use elements_miniscript::types::Dissat;
use elements_miniscript::types::ErrorKind;
use elements_miniscript::types::Input;
use elements_miniscript::types::Malleability;
use elements_miniscript::types::Type;
use std::sync::Arc;

type Node = Terminal<PublicKey, Segwitv0, NoExt>;
type Ms = Miniscript<PublicKey, Segwitv0, NoExt>;

fn key(fill: u8) -> PublicKey {
    let mut bytes = [fill; 33];
    bytes[0] = 3;
    PublicKey::from_slice(&bytes).expect("a well-shaped key")
}

fn typed(node: Node) -> Arc<Ms> {
    Arc::new(Miniscript::from_ast(node).expect("a typed fragment"))
}

fn fault(node: Node) -> ErrorKind {
    match Miniscript::from_ast(node) {
        Ok(ms) => panic!("typed as {:?}", ms.ty),
        Err(Error::TypeCheck(e)) => e,
        Err(other) => panic!("failed with {:?}", other),
    }
}

fn pk_k() -> Arc<Ms> {
    typed(Terminal::PkK(key(1)))
}

fn pk() -> Arc<Ms> {
    typed(Terminal::Check(pk_k()))
}

fn verified() -> Arc<Ms> {
    typed(Terminal::Verify(pk()))
}

fn swapped() -> Arc<Ms> {
    typed(Terminal::Swap(pk()))
}

fn costs(pk_cost: usize, sat: Option<usize>, dissat: Option<usize>) -> ExtData {
    ExtData {
        pk_cost,
        has_free_verify: false,
        ops: OpLimits { count: 1, sat, nsat: dissat },
        stack_elem_count_sat: sat,
        stack_elem_count_dissat: dissat,
        max_sat_size: sat.map(|s| (s, s + 1)),
        max_dissat_size: dissat.map(|d| (d, d + 1)),
        exec_stack_elem_count_sat: sat,
        exec_stack_elem_count_dissat: dissat,
    }
}

#[test]
fn script_number_sizes() {
    assert_eq!(script_num_size(0), 1);
    assert_eq!(script_num_size(16), 1);
    assert_eq!(script_num_size(17), 2);
    assert_eq!(script_num_size(0x7f), 2);
    assert_eq!(script_num_size(0x80), 3);
    assert_eq!(script_num_size(0x7fff), 3);
    assert_eq!(script_num_size(0x8000), 4);
    assert_eq!(script_num_size(0x7f_ffff), 4);
    assert_eq!(script_num_size(0x80_0000), 5);
    assert_eq!(script_num_size(0x7fff_ffff), 5);
    assert_eq!(script_num_size(0x8000_0000), 6);
}

#[test]
fn numbers_and_bytes_as_text() {
    assert_eq!(decimal(0), "0");
    assert_eq!(decimal(9), "9");
    assert_eq!(decimal(10), "10");
    assert_eq!(decimal(1650), "1650");
    assert_eq!(decimal(usize::MAX), usize::MAX.to_string());
    assert_eq!(to_hex(&[]), "");
    assert_eq!(to_hex(&[0x00, 0x0a, 0xab, 0xff]), "000aabff");
}

#[test]
fn keys_from_bytes() {
    assert!(PublicKey::from_slice(&[2; 33]).is_some());
    assert!(PublicKey::from_slice(&[3; 33]).is_some());
    assert!(PublicKey::from_slice(&[4; 33]).is_none());
    assert!(PublicKey::from_slice(&[2; 32]).is_none());
    assert!(PublicKey::from_slice(&[2; 65]).is_none());
    assert!(PublicKey::from_slice(&[]).is_none());
    let mut bytes = [9u8; 65];
    bytes[0] = 4;
    assert_eq!(PublicKey::from_slice(&bytes), Some(PublicKey::Uncompressed(bytes)));
    assert_eq!(PublicKey::from_slice(&[2; 33]), Some(PublicKey::Compressed([2; 33])));
}

#[test]
fn leaf_types() {
    let t = typed(Terminal::True).ty;
    assert_eq!(
        t.corr,
        Correctness { base: Base::B, input: Input::Zero, dissatisfiable: false, unit: true }
    );
    assert_eq!(t.mall, Malleability { dissat: Dissat::Absent, safe: false, non_malleable: true });
    let t = typed(Terminal::False).ty;
    assert_eq!(
        t.corr,
        Correctness { base: Base::B, input: Input::Zero, dissatisfiable: true, unit: true }
    );
    assert_eq!(t.mall, Malleability { dissat: Dissat::Unique, safe: true, non_malleable: true });
    let t = pk_k().ty;
    assert_eq!(
        t.corr,
        Correctness { base: Base::K, input: Input::OneNonZero, dissatisfiable: true, unit: true }
    );
    let t = typed(Terminal::PkH([0; 20])).ty;
    assert_eq!(t.corr.input, Input::AnyNonZero);
    let t = typed(Terminal::Sha256([0; 32])).ty;
    assert_eq!(t.corr.input, Input::OneNonZero);
    assert_eq!(t.mall, Malleability { dissat: Dissat::Unknown, safe: false, non_malleable: true });
    let t = typed(Terminal::Older(5)).ty;
    assert_eq!(
        t.corr,
        Correctness { base: Base::B, input: Input::Zero, dissatisfiable: false, unit: false }
    );
    let t = typed(Terminal::Multi(1, vec![key(1), key(2)])).ty;
    assert_eq!(t.corr.input, Input::AnyNonZero);
    assert_eq!(t.mall, Malleability { dissat: Dissat::Unique, safe: true, non_malleable: true });
}

#[test]
fn wrapper_types() {
    assert_eq!(pk().ty.corr.base, Base::B);
    assert!(pk().ty.corr.unit);
    assert_eq!(verified().ty.corr.base, Base::V);
    assert!(!verified().ty.corr.dissatisfiable);
    assert_eq!(verified().ty.mall.dissat, Dissat::Absent);
    assert_eq!(swapped().ty.corr.base, Base::W);
    assert_eq!(swapped().ty.corr.input, Input::Any);
    assert_eq!(typed(Terminal::Alt(pk())).ty.corr.base, Base::W);
    let guarded = typed(Terminal::DupIf(typed(Terminal::Verify(typed(Terminal::Older(9))))));
    assert_eq!(
        guarded.ty.corr,
        Correctness { base: Base::B, input: Input::OneNonZero, dissatisfiable: true, unit: true }
    );
    assert_eq!(guarded.ty.mall.dissat, Dissat::Unique);
    assert_eq!(typed(Terminal::NonZero(pk())).ty.mall.dissat, Dissat::Unknown);
}

#[test]
fn faults_of_wrappers() {
    assert_eq!(fault(Terminal::Alt(pk_k())), ErrorKind::ChildBase1(Base::K));
    assert_eq!(fault(Terminal::Swap(typed(Terminal::True))), ErrorKind::SwapNonOne);
    assert_eq!(fault(Terminal::Check(pk())), ErrorKind::ChildBase1(Base::B));
    assert_eq!(fault(Terminal::DupIf(verified())), ErrorKind::NonZeroDupIf);
    assert_eq!(fault(Terminal::DupIf(pk())), ErrorKind::ChildBase1(Base::B));
    assert_eq!(fault(Terminal::Verify(verified())), ErrorKind::ChildBase1(Base::V));
    assert_eq!(fault(Terminal::NonZero(typed(Terminal::True))), ErrorKind::NonZeroZero);
    assert_eq!(fault(Terminal::NonZero(pk_k())), ErrorKind::ChildBase1(Base::K));
    assert_eq!(fault(Terminal::ZeroNotEqual(swapped())), ErrorKind::ChildBase1(Base::W));
    assert_eq!(fault(Terminal::After(0)), ErrorKind::InvalidTime);
    assert_eq!(fault(Terminal::Older(0x8000_0001)), ErrorKind::InvalidTime);
}

#[test]
fn faults_of_combinators() {
    assert_eq!(fault(Terminal::AndB(pk(), pk())), ErrorKind::ChildBase2(Base::B, Base::B));
    assert_eq!(fault(Terminal::AndV(pk(), pk())), ErrorKind::ChildBase2(Base::B, Base::B));
    assert_eq!(fault(Terminal::AndV(verified(), swapped())), ErrorKind::ChildBase2(Base::V, Base::W));
    let never = typed(Terminal::True);
    assert_eq!(
        fault(Terminal::OrB(never.clone(), swapped())),
        ErrorKind::LeftNotDissatisfiable
    );
    assert_eq!(
        fault(Terminal::OrB(pk(), typed(Terminal::Alt(never.clone())))),
        ErrorKind::RightNotDissatisfiable
    );
    assert_eq!(fault(Terminal::OrD(never.clone(), pk())), ErrorKind::LeftNotDissatisfiable);
    let older_or = typed(Terminal::OrI(typed(Terminal::False), typed(Terminal::Older(7))));
    assert!(older_or.ty.corr.dissatisfiable);
    assert!(!older_or.ty.corr.unit);
    assert_eq!(fault(Terminal::OrD(older_or.clone(), pk())), ErrorKind::LeftNotUnit);
    assert_eq!(fault(Terminal::OrC(older_or.clone(), verified())), ErrorKind::LeftNotUnit);
    assert_eq!(fault(Terminal::OrC(pk(), pk())), ErrorKind::ChildBase2(Base::B, Base::B));
    assert_eq!(fault(Terminal::OrI(pk(), verified())), ErrorKind::ChildBase2(Base::B, Base::V));
    assert_eq!(
        fault(Terminal::AndOr(pk(), pk(), verified())),
        ErrorKind::ChildBase3(Base::B, Base::B, Base::V)
    );
    assert_eq!(fault(Terminal::AndOr(older_or, pk(), pk())), ErrorKind::LeftNotUnit);
}

#[test]
fn faults_of_thresholds() {
    assert_eq!(fault(Terminal::Thresh(0, vec![pk()])), ErrorKind::ZeroThreshold);
    assert_eq!(fault(Terminal::Thresh(2, vec![pk()])), ErrorKind::OverThreshold(2, 1));
    assert_eq!(fault(Terminal::Multi(0, vec![key(1)])), ErrorKind::ZeroThreshold);
    assert_eq!(fault(Terminal::Multi(3, vec![key(1), key(2)])), ErrorKind::OverThreshold(3, 2));
    assert_eq!(fault(Terminal::MultiA(3, vec![key(1)])), ErrorKind::OverThreshold(3, 1));
    assert_eq!(
        fault(Terminal::Thresh(1, vec![swapped(), swapped()])),
        ErrorKind::ThresholdBase(0, Base::W)
    );
    assert_eq!(
        fault(Terminal::Thresh(1, vec![pk(), pk()])),
        ErrorKind::ThresholdBase(1, Base::B)
    );
    let not_unit = typed(Terminal::OrI(typed(Terminal::False), typed(Terminal::Older(7))));
    assert_eq!(
        fault(Terminal::Thresh(1, vec![not_unit, swapped()])),
        ErrorKind::ThresholdNonUnit(0)
    );
    let never = typed(Terminal::Alt(typed(Terminal::True)));
    assert_eq!(fault(Terminal::Thresh(1, vec![pk(), never])), ErrorKind::ThresholdDissat(1));
}

#[test]
fn threshold_types() {
    let t = typed(Terminal::Thresh(2, vec![pk(), swapped(), swapped()])).ty;
    assert_eq!(
        t.corr,
        Correctness { base: Base::B, input: Input::Any, dissatisfiable: true, unit: true }
    );
    assert_eq!(t.mall, Malleability { dissat: Dissat::Unique, safe: true, non_malleable: true });
    let t = typed(Terminal::Thresh(1, vec![pk(), swapped(), swapped()])).ty;
    assert_eq!(t.mall, Malleability { dissat: Dissat::Unique, safe: true, non_malleable: true });
    let hash = typed(Terminal::Alt(typed(Terminal::Sha256([0; 32]))));
    let t = typed(Terminal::Thresh(2, vec![pk(), hash.clone()])).ty;
    assert_eq!(t.mall, Malleability { dissat: Dissat::Unknown, safe: true, non_malleable: false });
    let t = typed(Terminal::Thresh(1, vec![pk(), hash])).ty;
    assert!(!t.mall.safe);
    let t = typed(Terminal::Thresh(1, vec![pk()])).ty;
    assert_eq!(t.corr.input, Input::One);
}

#[test]
fn costs_of_leaves() {
    let e = typed(Terminal::True).ext;
    assert_eq!(e.pk_cost, 1);
    assert_eq!(e.max_sat_size, Some((0, 0)));
    assert_eq!(e.max_dissat_size, None);
    let e = typed(Terminal::False).ext;
    assert_eq!(e.max_sat_size, None);
    assert_eq!(e.stack_elem_count_dissat, Some(0));
    assert_eq!(ExtData::from_pk_k(SigType::Ecdsa).pk_cost, 34);
    assert_eq!(ExtData::from_pk_k(SigType::Ecdsa).max_sat_size, Some((73, 73)));
    assert_eq!(ExtData::from_pk_k(SigType::Schnorr).pk_cost, 33);
    assert_eq!(ExtData::from_pk_k(SigType::Schnorr).max_sat_size, Some((66, 66)));
    assert_eq!(ExtData::from_pk_h(SigType::Ecdsa).max_sat_size, Some((107, 107)));
    assert_eq!(ExtData::from_pk_h(SigType::Ecdsa).max_dissat_size, Some((35, 35)));
    assert_eq!(ExtData::from_pk_h(SigType::Schnorr).max_sat_size, Some((99, 99)));
    assert_eq!(ExtData::from_pk_h(SigType::Schnorr).max_dissat_size, Some((34, 34)));
    let tap: Miniscript<PublicKey, Tap, NoExt> =
        Miniscript::from_ast(Terminal::PkK(key(1))).expect("a typed fragment");
    assert_eq!(tap.ext.pk_cost, 33);
    let e = ExtData::from_multi_a(2, 3).expect("fits");
    assert_eq!(e.pk_cost, 1 + 34 * 3 + 1);
    assert_eq!(e.max_sat_size, Some((133, 133)));
    assert_eq!(e.ops.count, 3);
    assert_eq!(ExtData::from_outputs_pref(80).expect("fits").pk_cost, 82 + 14);
    assert_eq!(ExtData::from_outputs_pref(600).expect("fits").max_sat_size, Some((7, 7)));
    assert_eq!(ExtData::from_multi(1, usize::MAX), Err(ErrorKind::CostOverflow));
}

#[test]
fn costs_of_wrappers() {
    let base = costs(10, Some(3), Some(2));
    let e = base.cast_alt().expect("fits");
    assert_eq!((e.pk_cost, e.ops.count), (12, 3));
    let e = base.cast_swap().expect("fits");
    assert_eq!((e.pk_cost, e.ops.count), (11, 2));
    let e = base.cast_check().expect("fits");
    assert_eq!((e.pk_cost, e.ops.count, e.has_free_verify), (11, 2, true));
    let e = base.cast_dupif().expect("fits");
    assert_eq!((e.pk_cost, e.ops.count), (13, 4));
    assert_eq!(e.stack_elem_count_sat, Some(4));
    assert_eq!(e.stack_elem_count_dissat, Some(1));
    assert_eq!(e.max_sat_size, Some((5, 5)));
    assert_eq!(e.max_dissat_size, Some((1, 1)));
    assert_eq!(e.ops.nsat, Some(0));
    let e = base.cast_verify().expect("fits");
    assert_eq!((e.pk_cost, e.ops.count), (11, 2));
    assert_eq!(e.max_dissat_size, None);
    let e = base.cast_check().expect("fits").cast_verify().expect("fits");
    assert_eq!((e.pk_cost, e.ops.count), (11, 2));
    let e = base.cast_nonzero().expect("fits");
    assert_eq!((e.pk_cost, e.ops.count), (14, 5));
    assert_eq!(e.max_dissat_size, Some((1, 1)));
    let e = base.cast_zeronotequal().expect("fits");
    assert_eq!((e.pk_cost, e.ops.count), (11, 2));
    assert_eq!(costs(usize::MAX, Some(0), None).cast_alt(), Err(ErrorKind::CostOverflow));
}

#[test]
fn costs_of_combinators() {
    let l = costs(10, Some(3), Some(2));
    let r = costs(20, Some(5), Some(7));
    let e = ExtData::and_b(l, r).expect("fits");
    assert_eq!((e.pk_cost, e.ops.count), (31, 3));
    assert_eq!(e.ops.sat, Some(8));
    assert_eq!(e.ops.nsat, Some(9));
    assert_eq!(e.max_sat_size, Some((8, 10)));
    assert_eq!(e.max_dissat_size, Some((9, 11)));
    assert_eq!(e.exec_stack_elem_count_sat, Some(6));
    let e = ExtData::and_v(l, r).expect("fits");
    assert_eq!((e.pk_cost, e.ops.count), (30, 2));
    assert_eq!(e.max_sat_size, Some((8, 10)));
    assert_eq!(e.max_dissat_size, None);
    let e = ExtData::or_b(l, r).expect("fits");
    assert_eq!((e.pk_cost, e.ops.count), (31, 3));
    assert_eq!(e.ops.sat, Some(10));
    assert_eq!(e.max_sat_size, Some((10, 12)));
    assert_eq!(e.max_dissat_size, Some((9, 11)));
    let e = ExtData::or_d(l, r).expect("fits");
    assert_eq!((e.pk_cost, e.ops.count), (33, 5));
    assert_eq!(e.ops.sat, Some(7));
    assert_eq!(e.max_sat_size, Some((7, 9)));
    let e = ExtData::or_c(l, r).expect("fits");
    assert_eq!((e.pk_cost, e.ops.count), (32, 4));
    assert_eq!(e.max_sat_size, Some((7, 9)));
    assert_eq!(e.max_dissat_size, None);
    let e = ExtData::or_i(l, r).expect("fits");
    assert_eq!((e.pk_cost, e.ops.count), (33, 5));
    assert_eq!(e.ops.sat, Some(5));
    assert_eq!(e.stack_elem_count_sat, Some(6));
    assert_eq!(e.max_sat_size, Some((6, 7)));
    assert_eq!(e.max_dissat_size, Some((8, 9)));
    let c = costs(30, Some(1), Some(4));
    let e = ExtData::and_or(l, r, c).expect("fits");
    assert_eq!((e.pk_cost, e.ops.count), (63, 6));
    assert_eq!(e.ops.sat, Some(8));
    assert_eq!(e.ops.nsat, Some(6));
    assert_eq!(e.max_sat_size, Some((8, 10)));
    assert_eq!(e.max_dissat_size, Some((6, 8)));
}

#[test]
fn unsatisfiable_children() {
    let never = costs(1, None, Some(0));
    let some = costs(1, Some(4), Some(2));
    assert_eq!(ExtData::and_v(never, some).expect("fits").max_sat_size, None);
    assert_eq!(ExtData::and_b(some, never).expect("fits").max_sat_size, None);
    assert_eq!(never.cast_check().expect("fits").max_sat_size, None);
    assert_eq!(ExtData::or_i(never, some).expect("fits").max_sat_size, Some((5, 6)));
    assert_eq!(ExtData::or_d(never, some).expect("fits").max_sat_size, Some((4, 6)));
    assert_eq!(ExtData::threshold(2, &vec![some, never]).expect("fits").max_sat_size, None);
    assert_eq!(
        ExtData::threshold(1, &vec![some, never]).expect("fits").max_sat_size,
        Some((4, 6))
    );
}

#[test]
fn costs_of_thresholds() {
    let subs = vec![costs(10, Some(9), Some(1)), costs(20, Some(5), Some(4)), costs(30, Some(7), Some(0))];
    let e = ExtData::threshold(2, &subs).expect("fits");
    assert_eq!(e.pk_cost, 60 + 3 + 1);
    assert_eq!(e.ops.count, 3 + 3);
    assert_eq!(e.ops.sat, Some(20));
    assert_eq!(e.ops.nsat, Some(5));
    assert_eq!(e.stack_elem_count_sat, Some(20));
    assert_eq!(e.max_sat_size, Some((20, 23)));
    assert_eq!(e.max_dissat_size, Some((5, 8)));
    assert_eq!(e.exec_stack_elem_count_sat, Some(9));
    assert!(e.has_free_verify);
    let e = ExtData::threshold(3, &subs).expect("fits");
    assert_eq!(e.ops.sat, Some(21));
    let e = ExtData::threshold(1, &subs).expect("fits");
    assert_eq!(e.ops.sat, Some(13));
    assert_eq!(e.pk_cost, 64);
    let e = ExtData::threshold(17, &vec![costs(1, Some(0), Some(0)); 17]).expect("fits");
    assert_eq!(e.pk_cost, 17 + 17 + 2);
    let huge = vec![costs(usize::MAX, Some(0), Some(0)), costs(1, Some(0), Some(0))];
    assert_eq!(ExtData::threshold(1, &huge), Err(ErrorKind::CostOverflow));
}

#[test]
fn lookup_may_give_the_type_of_a_child() {
    let node: Node = Terminal::Check(pk_k());
    let own = Type::type_check(&node, return_none::<Type>).expect("typed");
    assert_eq!(own.corr.base, Base::B);
    let other = pk().ty;
    let r = Type::type_check(&node, |_| Some(other));
    assert_eq!(r, Err(ErrorKind::ChildBase1(Base::B)));
    let grown = costs(100, Some(1), Some(1));
    let e = ExtData::type_check(&node, |_| Some(grown)).expect("fits");
    assert_eq!(e.pk_cost, 101);
    let e = ExtData::type_check(&node, return_none::<ExtData>).expect("fits");
    assert_eq!(e.pk_cost, 35);
}
