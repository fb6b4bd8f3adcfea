use elements_miniscript::context::BareCtx;
use elements_miniscript::context::Legacy;
use elements_miniscript::context::NoChecks;
use elements_miniscript::context::ScriptContext;
use elements_miniscript::context::ScriptContextError;
use elements_miniscript::context::Segwitv0;
use elements_miniscript::context::Tap;
use elements_miniscript::decode::parse;
use elements_miniscript::decode::return_none;
use elements_miniscript::error::Error;
use elements_miniscript::extension::NoExt;
use elements_miniscript::key::PublicKey;
use elements_miniscript::lex::Token;
use elements_miniscript::lex::TokenIter;
use elements_miniscript::miniscript::Miniscript;
use elements_miniscript::miniscript::Terminal;
use elements_miniscript::types::Base;
use elements_miniscript::types::ErrorKind;
use std::collections::BTreeSet;
use std::collections::HashSet;
use std::sync::Arc;

type Ms<Ctx> = Miniscript<PublicKey, Ctx, NoExt>;

fn key(prefix: u8, fill: u8) -> PublicKey {
    let mut bytes = [fill; 33];
    bytes[0] = prefix;
    PublicKey::from_slice(&bytes).expect("a well-shaped key")
}

fn uncompressed_key(fill: u8) -> PublicKey {
    let mut bytes = [fill; 65];
    bytes[0] = 4;
    PublicKey::from_slice(&bytes).expect("a well-shaped key")
}

fn checked(k: PublicKey) -> Vec<Token> {
    vec![Token::Pubkey(k), Token::CheckSig]
}

fn leaf<Ctx: ScriptContext>(node: Terminal<PublicKey, Ctx, NoExt>) -> Arc<Ms<Ctx>> {
    Arc::new(Miniscript::from_ast(node).expect("a typed fragment"))
}

fn pk<Ctx: ScriptContext>(k: PublicKey) -> Arc<Ms<Ctx>> {
    leaf(Terminal::Check(leaf(Terminal::PkK(k))))
}

fn decode<Ctx: ScriptContext>(tokens: Vec<Token>) -> Result<Ms<Ctx>, Error> {
    let mut iter = TokenIter::new(tokens);
    let r = parse::<Ctx, NoExt>(&mut iter);
    if r.is_ok() {
        assert_eq!(iter.len(), 0);
    }
    r
}

/// The tokens of a tree, in script order.
fn encode<Ctx>(ms: &Ms<Ctx>) -> Vec<Token> {
    let mut out = Vec::new();
    match &ms.node {
        Terminal::True => out.push(Token::Num(1)),
        Terminal::False => out.push(Token::Num(0)),
        Terminal::PkK(k) => out.push(Token::Pubkey(*k)),
        Terminal::PkH(h) => out.extend(vec![
            Token::Dup,
            Token::Hash160,
            Token::Hash20(*h),
            Token::Equal,
            Token::Verify,
        ]),
        Terminal::After(n) => out.extend(vec![Token::Num(*n), Token::CheckLockTimeVerify]),
        Terminal::Older(n) => out.extend(vec![Token::Num(*n), Token::CheckSequenceVerify]),
        Terminal::Sha256(h) => out.extend(vec![
            Token::Size,
            Token::Num(32),
            Token::Equal,
            Token::Verify,
            Token::Sha256,
            Token::Hash32(*h),
            Token::Equal,
        ]),
        Terminal::Hash256(h) => out.extend(vec![
            Token::Size,
            Token::Num(32),
            Token::Equal,
            Token::Verify,
            Token::Hash256,
            Token::Hash32(*h),
            Token::Equal,
        ]),
        Terminal::Ripemd160(h) => out.extend(vec![
            Token::Size,
            Token::Num(32),
            Token::Equal,
            Token::Verify,
            Token::Ripemd160,
            Token::Hash20(*h),
            Token::Equal,
        ]),
        Terminal::Hash160(h) => out.extend(vec![
            Token::Size,
            Token::Num(32),
            Token::Equal,
            Token::Verify,
            Token::Hash160,
            Token::Hash20(*h),
            Token::Equal,
        ]),
        Terminal::Version(n) => out.extend(vec![
            Token::Depth,
            Token::Num(12),
            Token::Sub,
            Token::PickPush4(*n),
            Token::Equal,
        ]),
        Terminal::OutputsPref(p) => {
            out.extend(vec![Token::Cat; 6]);
            out.push(Token::Push(p.clone()));
            out.extend(vec![
                Token::Swap,
                Token::Cat,
                Token::Hash256,
                Token::Depth,
                Token::Num(4),
                Token::Sub,
                Token::Pick,
                Token::Equal,
            ]);
        }
        Terminal::Alt(x) => {
            out.push(Token::ToAltStack);
            out.extend(encode(x));
            out.push(Token::FromAltStack);
        }
        Terminal::Swap(x) => {
            out.push(Token::Swap);
            out.extend(encode(x));
        }
        Terminal::Check(x) => {
            out.extend(encode(x));
            out.push(Token::CheckSig);
        }
        Terminal::DupIf(x) => {
            out.extend(vec![Token::Dup, Token::If]);
            out.extend(encode(x));
            out.push(Token::EndIf);
        }
        Terminal::Verify(x) => {
            out.extend(encode(x));
            out.push(Token::Verify);
        }
        Terminal::NonZero(x) => {
            out.extend(vec![Token::Size, Token::ZeroNotEqual, Token::If]);
            out.extend(encode(x));
            out.push(Token::EndIf);
        }
        Terminal::ZeroNotEqual(x) => {
            out.extend(encode(x));
            out.push(Token::ZeroNotEqual);
        }
        Terminal::AndV(a, b) => {
            out.extend(encode(a));
            out.extend(encode(b));
        }
        Terminal::AndB(a, b) => {
            out.extend(encode(a));
            out.extend(encode(b));
            out.push(Token::BoolAnd);
        }
        Terminal::AndOr(a, b, c) => {
            out.extend(encode(a));
            out.push(Token::NotIf);
            out.extend(encode(c));
            out.push(Token::Else);
            out.extend(encode(b));
            out.push(Token::EndIf);
        }
        Terminal::OrB(a, b) => {
            out.extend(encode(a));
            out.extend(encode(b));
            out.push(Token::BoolOr);
        }
        Terminal::OrD(a, b) => {
            out.extend(encode(a));
            out.extend(vec![Token::IfDup, Token::NotIf]);
            out.extend(encode(b));
            out.push(Token::EndIf);
        }
        Terminal::OrC(a, b) => {
            out.extend(encode(a));
            out.push(Token::NotIf);
            out.extend(encode(b));
            out.push(Token::EndIf);
        }
        Terminal::OrI(a, b) => {
            out.push(Token::If);
            out.extend(encode(a));
            out.push(Token::Else);
            out.extend(encode(b));
            out.push(Token::EndIf);
        }
        Terminal::Thresh(k, subs) => {
            for (i, sub) in subs.iter().enumerate() {
                out.extend(encode(sub));
                if i > 0 {
                    out.push(Token::Add);
                }
            }
            out.extend(vec![Token::Num(*k as u32), Token::Equal]);
        }
        Terminal::Multi(k, keys) => {
            out.push(Token::Num(*k as u32));
            out.extend(keys.iter().map(|k| Token::Pubkey(*k)));
            out.extend(vec![Token::Num(keys.len() as u32), Token::CheckMultiSig]);
        }
        Terminal::MultiA(_, _) => panic!("the decoder builds no multi_a"),
        Terminal::Ext(_) => panic!("no extension fragment is defined"),
    }
    out
}

fn round_trips<Ctx: ScriptContext + std::fmt::Debug + PartialEq>(tokens: Vec<Token>) {
    let first = decode::<Ctx>(tokens.clone()).expect("decodes");
    assert_eq!(encode(&first), tokens);
    assert_eq!(first.encode(), tokens);
    let second = decode::<Ctx>(first.encode()).expect("decodes again");
    assert_eq!(first, second);
}

fn two_of_three() -> (Vec<PublicKey>, Vec<Token>) {
    let mut second = [0u8; 33];
    second[0] = 2;
    let mut third = [0u8; 33];
    third[0] = 3;
    for i in 0..24 {
        second[1 + i] = (i % 8) as u8 + 1;
        third[1 + i] = (i % 8) as u8 + 1;
    }
    let keys = vec![
        PublicKey::from_slice(&[2; 33]).expect("key 1"),
        PublicKey::from_slice(&second).expect("key 2"),
        PublicKey::from_slice(&third).expect("key 3"),
    ];
    let tokens = vec![
        Token::Num(2),
        Token::Pubkey(keys[0]),
        Token::Pubkey(keys[1]),
        Token::Pubkey(keys[2]),
        Token::Num(3),
        Token::CheckMultiSig,
    ];
    (keys, tokens)
}

fn multisig(k: u32, n: u32) -> Vec<Token> {
    let mut tokens = vec![Token::Num(k)];
    for i in 0..n {
        tokens.push(Token::Pubkey(key(2, i as u8 + 1)));
    }
    tokens.push(Token::Num(n));
    tokens.push(Token::CheckMultiSig);
    tokens
}

fn threshold(k: u32) -> Vec<Token> {
    let mut tokens = checked(key(2, 1));
    for fill in [2u8, 3u8] {
        tokens.push(Token::Swap);
        tokens.extend(checked(key(2, fill)));
        tokens.push(Token::Add);
    }
    tokens.push(Token::Num(k));
    tokens.push(Token::Equal);
    tokens
}

#[test]
fn return_none_overrides_nothing() {
    assert_eq!(return_none::<u8>(0), None);
    assert_eq!(return_none::<u8>(7), None);
}

#[test]
fn decodes_a_checked_key() {
    let k = key(2, 7);
    let ms = decode::<Segwitv0>(checked(k)).expect("decodes");
    assert_eq!(ms, *pk::<Segwitv0>(k));
    assert_eq!(ms.ty.corr.base, Base::B);
}

#[test]
fn empty_stream_is_an_error() {
    assert_eq!(decode::<Segwitv0>(vec![]).err(), Some(Error::UnexpectedStart));
}

#[test]
fn a_token_that_opens_nothing_is_unexpected() {
    assert_eq!(
        decode::<Segwitv0>(vec![Token::Drop]).err(),
        Some(Error::Unexpected(Token::Drop))
    );
    assert_eq!(
        decode::<Segwitv0>(vec![Token::Num(7)]).err(),
        Some(Error::Unexpected(Token::Num(7)))
    );
}

#[test]
fn a_stream_that_ends_inside_a_fragment_is_an_error() {
    assert_eq!(decode::<Segwitv0>(vec![Token::CheckSig]).err(), Some(Error::UnexpectedStart));
    assert_eq!(
        decode::<Segwitv0>(vec![Token::Num(32), Token::Equal, Token::Verify, Token::Sha256])
            .err(),
        Some(Error::Unexpected(Token::Sha256))
    );
}

#[test]
fn tokens_before_the_fragment_are_left() {
    let k = key(3, 9);
    let mut tokens = vec![Token::If];
    tokens.extend(checked(k));
    let mut iter = TokenIter::new(tokens);
    let ms = parse::<Segwitv0, NoExt>(&mut iter).expect("decodes");
    assert_eq!(ms, *pk::<Segwitv0>(k));
    assert_eq!(iter.len(), 1);
    assert_eq!(iter.next(), Some(Token::If));
}

#[test]
fn end_to_end_two_of_three_multisig() {
    let (keys, tokens) = two_of_three();
    let ms = decode::<Segwitv0>(tokens).expect("decodes");
    assert_eq!(ms.node, Terminal::Multi(2, keys));
    assert_eq!(Segwitv0::max_satisfaction_size(&ms), Some(147));
    assert_eq!(ms.ext.max_sat_size, Some((147, 147)));
    assert_eq!(ms.ext.max_dissat_size, Some((3, 3)));
    assert_eq!(ms.ext.pk_cost, 105);
    assert_eq!(ms.ext.stack_elem_count_sat, Some(3));
    assert_eq!(ms.ext.stack_elem_count_dissat, Some(3));
    assert_eq!(ms.ext.ops.op_count(), Some(4));
    assert_eq!(Segwitv0::check_local_validity(&ms), Ok(()));
}

#[test]
fn multisig_at_the_ceiling_decodes() {
    let ms = decode::<Segwitv0>(multisig(20, 20)).expect("decodes");
    match ms.node {
        Terminal::Multi(k, keys) => {
            assert_eq!(k, 20);
            assert_eq!(keys.len(), 20);
            assert_eq!(keys[0], key(2, 1));
            assert_eq!(keys[19], key(2, 20));
        }
        other => panic!("unexpected fragment {:?}", other),
    }
    assert_eq!(ms.ext.pk_cost, 2 + 34 * 20 + 2 + 1);
}

#[test]
fn multisig_over_the_ceiling_is_a_parse_error_in_every_context() {
    assert_eq!(decode::<Legacy>(multisig(2, 21)).err(), Some(Error::CmsTooManyKeys(21)));
    assert_eq!(decode::<Segwitv0>(multisig(2, 21)).err(), Some(Error::CmsTooManyKeys(21)));
    assert_eq!(decode::<Tap>(multisig(2, 21)).err(), Some(Error::CmsTooManyKeys(21)));
    assert_eq!(decode::<BareCtx>(multisig(2, 21)).err(), Some(Error::CmsTooManyKeys(21)));
    assert_eq!(decode::<NoChecks>(multisig(2, 21)).err(), Some(Error::CmsTooManyKeys(21)));
}

#[test]
fn multisig_is_refused_in_tapscript_alone() {
    assert_eq!(
        decode::<Tap>(multisig(2, 3)).err(),
        Some(Error::ContextError(ScriptContextError::TaprootMultiDisabled))
    );
    assert!(decode::<Legacy>(multisig(2, 3)).is_ok());
    assert!(decode::<Segwitv0>(multisig(2, 3)).is_ok());
    assert!(decode::<BareCtx>(multisig(2, 3)).is_ok());
}

#[test]
fn bare_multisig_over_three_keys_is_not_standard() {
    assert_eq!(decode::<BareCtx>(multisig(2, 4)).err(), Some(Error::NonStandardBareScript));
}

#[test]
fn multisig_with_a_missing_key_is_an_error() {
    let mut tokens = multisig(2, 3);
    tokens.remove(1);
    assert_eq!(decode::<Segwitv0>(tokens).err(), Some(Error::Unexpected(Token::Num(2))));
}

#[test]
fn uncompressed_key_is_refused_by_segwit_and_tapscript() {
    let k = uncompressed_key(5);
    let hex = format!("04{}", "05".repeat(64));
    assert_eq!(
        decode::<Segwitv0>(checked(k)).err(),
        Some(Error::ContextError(ScriptContextError::CompressedOnly(hex)))
    );
    assert_eq!(
        decode::<Tap>(checked(k)).err(),
        Some(Error::ContextError(ScriptContextError::UncompressedKeysNotAllowed))
    );
    assert_eq!(decode::<Legacy>(checked(k)).expect("decodes"), *pk::<Legacy>(k));
    assert_eq!(decode::<BareCtx>(checked(k)).expect("decodes"), *pk::<BareCtx>(k));
}

#[test]
fn threshold_keeps_its_children_in_order() {
    let ms = decode::<Segwitv0>(threshold(2)).expect("decodes");
    let subs = vec![
        pk::<Segwitv0>(key(2, 1)),
        leaf(Terminal::Swap(pk(key(2, 2)))),
        leaf(Terminal::Swap(pk(key(2, 3)))),
    ];
    assert_eq!(ms.node, Terminal::Thresh(2, subs));
    assert_eq!(ms.ext.pk_cost, 35 + 36 + 36 + 3 + 1);
    assert_eq!(ms.ext.ops.count, 8);
    assert_eq!(ms.ext.stack_elem_count_sat, Some(3));
    assert_eq!(ms.ext.max_sat_size, Some((147, 147)));
    assert_eq!(ms.ext.max_dissat_size, Some((3, 3)));
}

#[test]
fn threshold_with_a_join_too_few_fails() {
    let mut tokens = threshold(2);
    let last_add = tokens.iter().rposition(|t| *t == Token::Add).expect("a join");
    tokens.remove(last_add);
    assert_eq!(
        decode::<Segwitv0>(tokens).err(),
        Some(Error::TypeCheck(ErrorKind::OverThreshold(2, 1)))
    );
}

#[test]
fn threshold_with_a_join_too_many_fails() {
    let mut tokens = threshold(2);
    tokens.insert(2, Token::Add);
    assert_eq!(decode::<Segwitv0>(tokens).err(), Some(Error::UnexpectedStart));
}

#[test]
fn threshold_with_a_doubled_join_before_the_count_fails() {
    let mut tokens = threshold(2);
    let at = tokens.len() - 2;
    tokens.insert(at, Token::Add);
    assert_eq!(
        decode::<Segwitv0>(tokens).err(),
        Some(Error::Unexpected(Token::Add))
    );
    let tokens = vec![Token::Add, Token::Add, Token::Num(1), Token::Equal];
    assert_eq!(
        decode::<Legacy>(tokens).err(),
        Some(Error::Unexpected(Token::Add))
    );
}

#[test]
fn threshold_whose_last_child_lost_its_join_fails_on_the_base_of_the_child() {
    let mut tokens = threshold(1);
    let last_add = tokens.iter().rposition(|t| *t == Token::Add).expect("a join");
    tokens.remove(last_add);
    assert_eq!(
        decode::<Segwitv0>(tokens).err(),
        Some(Error::TypeCheck(ErrorKind::ThresholdBase(0, Base::W)))
    );
    let mut tokens = vec![Token::ToAltStack];
    tokens.extend(checked(key(2, 7)));
    tokens.extend([Token::FromAltStack, Token::Num(1), Token::Equal]);
    assert_eq!(
        decode::<Segwitv0>(tokens).err(),
        Some(Error::TypeCheck(ErrorKind::ThresholdBase(0, Base::W)))
    );
}

#[test]
fn trees_are_ordered_and_hashed_by_what_they_hold() {
    let a = decode::<Segwitv0>(checked(key(2, 1))).expect("decodes");
    let b = decode::<Segwitv0>(checked(key(2, 2))).expect("decodes");
    assert!(a < b);
    assert!(a.node < b.node);
    assert!(Terminal::<PublicKey, Segwitv0, NoExt>::True < a.node);
    let mut ordered = BTreeSet::new();
    ordered.insert(b.node.clone());
    ordered.insert(a.node.clone());
    ordered.insert(a.node.clone());
    assert_eq!(ordered.into_iter().collect::<Vec<_>>(), vec![a.node.clone(), b.node.clone()]);
    let mut hashed = HashSet::new();
    hashed.insert(a);
    hashed.insert(b);
    hashed.insert(decode::<Segwitv0>(checked(key(2, 1))).expect("decodes"));
    assert_eq!(hashed.len(), 2);
}

#[test]
fn threshold_of_zero_has_no_type() {
    assert_eq!(
        decode::<Segwitv0>(threshold(0)).err(),
        Some(Error::TypeCheck(ErrorKind::ZeroThreshold))
    );
}

#[test]
fn root_must_be_of_base_b() {
    let mut tokens = checked(key(2, 1));
    tokens.push(Token::Verify);
    assert_eq!(decode::<Segwitv0>(tokens).err(), Some(Error::NonTopLevel(Base::V)));
    assert_eq!(
        decode::<Segwitv0>(vec![Token::Pubkey(key(2, 1))]).err(),
        Some(Error::NonTopLevel(Base::K))
    );
}

#[test]
fn sequence_of_verified_key_and_key() {
    let a = key(2, 1);
    let b = key(3, 2);
    let mut tokens = checked(a);
    tokens.push(Token::Verify);
    tokens.extend(checked(b));
    let ms = decode::<Segwitv0>(tokens).expect("decodes");
    let expected = leaf::<Segwitv0>(Terminal::AndV(leaf(Terminal::Verify(pk(a))), pk(b)));
    assert_eq!(ms, *expected);
    assert_eq!(ms.ext.pk_cost, 35 + 35);
}

#[test]
fn conjunction_needs_a_wrapped_right_child() {
    let mut tokens = checked(key(2, 1));
    tokens.extend(checked(key(2, 2)));
    tokens.push(Token::BoolAnd);
    assert_eq!(
        decode::<Segwitv0>(tokens).err(),
        Some(Error::TypeCheck(ErrorKind::ChildBase2(Base::B, Base::B)))
    );
}

#[test]
fn conjunction_over_the_alt_stack() {
    let a = key(2, 1);
    let b = key(2, 2);
    let mut tokens = checked(a);
    tokens.push(Token::ToAltStack);
    tokens.extend(checked(b));
    tokens.push(Token::FromAltStack);
    tokens.push(Token::BoolAnd);
    let ms = decode::<Segwitv0>(tokens).expect("decodes");
    let expected = leaf::<Segwitv0>(Terminal::AndB(pk(a), leaf(Terminal::Alt(pk(b)))));
    assert_eq!(ms, *expected);
    assert_eq!(ms.ext.pk_cost, 35 + 37 + 1);
    assert_eq!(ms.ext.max_sat_size, Some((146, 146)));
}

#[test]
fn disjunction_over_swapped_key() {
    let a = key(2, 1);
    let b = key(2, 2);
    let mut tokens = checked(a);
    tokens.push(Token::Swap);
    tokens.extend(checked(b));
    tokens.push(Token::BoolOr);
    let ms = decode::<Segwitv0>(tokens).expect("decodes");
    let expected = leaf::<Segwitv0>(Terminal::OrB(pk(a), leaf(Terminal::Swap(pk(b)))));
    assert_eq!(ms, *expected);
    assert_eq!(ms.ext.max_sat_size, Some((74, 74)));
}

#[test]
fn cascading_disjunctions() {
    let a = key(2, 1);
    let b = key(2, 2);
    let mut tokens = checked(a);
    tokens.extend(vec![Token::IfDup, Token::NotIf]);
    tokens.extend(checked(b));
    tokens.push(Token::EndIf);
    let ms = decode::<Segwitv0>(tokens).expect("decodes");
    assert_eq!(ms, *leaf::<Segwitv0>(Terminal::OrD(pk(a), pk(b))));
    assert_eq!(ms.ext.pk_cost, 35 + 35 + 3);

    let mut tokens = checked(a);
    tokens.push(Token::NotIf);
    tokens.extend(checked(b));
    tokens.extend(vec![Token::Verify, Token::EndIf, Token::Num(1)]);
    let ms = decode::<Segwitv0>(tokens).expect("decodes");
    let or_c = leaf(Terminal::OrC(pk(a), leaf(Terminal::Verify(pk(b)))));
    assert_eq!(ms, *leaf::<Segwitv0>(Terminal::AndV(or_c, leaf(Terminal::True))));
}

#[test]
fn branches() {
    let a = key(2, 1);
    let b = key(2, 2);
    let c = key(2, 3);
    let mut tokens = vec![Token::If];
    tokens.extend(checked(a));
    tokens.push(Token::Else);
    tokens.extend(checked(b));
    tokens.push(Token::EndIf);
    let ms = decode::<Segwitv0>(tokens).expect("decodes");
    assert_eq!(ms, *leaf::<Segwitv0>(Terminal::OrI(pk(a), pk(b))));
    assert_eq!(ms.ext.max_sat_size, Some((75, 74)));

    let mut tokens = checked(a);
    tokens.push(Token::NotIf);
    tokens.extend(checked(c));
    tokens.push(Token::Else);
    tokens.extend(checked(b));
    tokens.push(Token::EndIf);
    let ms = decode::<Segwitv0>(tokens).expect("decodes");
    assert_eq!(ms, *leaf::<Segwitv0>(Terminal::AndOr(pk(a), pk(b), pk(c))));
    assert_eq!(ms.ext.pk_cost, 35 * 3 + 3);
}

#[test]
fn guarded_wrappers() {
    let tokens = vec![
        Token::Dup,
        Token::If,
        Token::Num(10),
        Token::CheckSequenceVerify,
        Token::Verify,
        Token::EndIf,
    ];
    let ms = decode::<Segwitv0>(tokens).expect("decodes");
    let older = leaf(Terminal::Verify(leaf(Terminal::Older(10))));
    assert_eq!(ms, *leaf::<Segwitv0>(Terminal::DupIf(older)));

    let a = key(2, 1);
    let mut tokens = vec![Token::Size, Token::ZeroNotEqual, Token::If];
    tokens.extend(checked(a));
    tokens.push(Token::EndIf);
    let ms = decode::<Segwitv0>(tokens).expect("decodes");
    assert_eq!(ms, *leaf::<Segwitv0>(Terminal::NonZero(pk(a))));

    let mut tokens = checked(a);
    tokens.push(Token::ZeroNotEqual);
    let ms = decode::<Segwitv0>(tokens).expect("decodes");
    assert_eq!(ms, *leaf::<Segwitv0>(Terminal::ZeroNotEqual(pk(a))));
}

#[test]
fn timelocks() {
    let ms = decode::<Segwitv0>(vec![Token::Num(144), Token::CheckSequenceVerify])
        .expect("decodes");
    assert_eq!(ms.node, Terminal::Older(144));
    let ms = decode::<Segwitv0>(vec![Token::Num(500_000), Token::CheckLockTimeVerify])
        .expect("decodes");
    assert_eq!(ms.node, Terminal::After(500_000));
    assert_eq!(ms.ext.pk_cost, 5);
    assert_eq!(
        decode::<Segwitv0>(vec![Token::Num(0), Token::CheckSequenceVerify]).err(),
        Some(Error::TypeCheck(ErrorKind::InvalidTime))
    );
    assert_eq!(
        decode::<Segwitv0>(vec![Token::Num(0x8000_0000), Token::CheckLockTimeVerify]).err(),
        Some(Error::TypeCheck(ErrorKind::InvalidTime))
    );
}

#[test]
fn hash_commitments() {
    let size = vec![Token::Size, Token::Num(32), Token::Equal, Token::Verify];
    let h32 = [0x11u8; 32];
    let h20 = [0x22u8; 20];
    let cases: Vec<(Token, Token, Terminal<PublicKey, Segwitv0, NoExt>, usize)> = vec![
        (Token::Sha256, Token::Hash32(h32), Terminal::Sha256(h32), 39),
        (Token::Hash256, Token::Hash32(h32), Terminal::Hash256(h32), 39),
        (Token::Ripemd160, Token::Hash20(h20), Terminal::Ripemd160(h20), 27),
        (Token::Hash160, Token::Hash20(h20), Terminal::Hash160(h20), 27),
    ];
    for (op, push, node, cost) in cases {
        let mut tokens = size.clone();
        tokens.extend(vec![op.clone(), push.clone(), Token::Equal]);
        let ms = decode::<Segwitv0>(tokens.clone()).expect("decodes");
        assert_eq!(ms.node, node);
        assert_eq!(ms.ext.pk_cost, cost);

        tokens.push(Token::Verify);
        tokens.extend(checked(key(2, 1)));
        let ms = decode::<Segwitv0>(tokens).expect("decodes");
        let expected = leaf::<Segwitv0>(Terminal::AndV(
            leaf(Terminal::Verify(leaf(node.clone()))),
            pk(key(2, 1)),
        ));
        assert_eq!(ms, *expected);
        assert_eq!(ms.ext.pk_cost, cost + 35);
    }
}

#[test]
fn key_hash() {
    let h = [0x33u8; 20];
    let tokens = vec![
        Token::Dup,
        Token::Hash160,
        Token::Hash20(h),
        Token::Equal,
        Token::Verify,
        Token::CheckSig,
    ];
    let ms = decode::<Segwitv0>(tokens).expect("decodes");
    assert_eq!(ms, *leaf::<Segwitv0>(Terminal::Check(leaf(Terminal::PkH(h)))));
    assert_eq!(ms.ext.pk_cost, 25);
    assert_eq!(ms.ext.max_sat_size, Some((107, 107)));
}

#[test]
fn transaction_items() {
    let tokens = vec![
        Token::Depth,
        Token::Num(12),
        Token::Sub,
        Token::PickPush4(3),
        Token::Equal,
    ];
    let ms = decode::<Segwitv0>(tokens).expect("decodes");
    assert_eq!(ms.node, Terminal::Version(3));
    assert_eq!(ms.ext.pk_cost, 10);

    let prefix = vec![0xabu8; 40];
    let mut tokens = vec![Token::Cat; 6];
    tokens.push(Token::Push(prefix.clone()));
    tokens.extend(vec![
        Token::Swap,
        Token::Cat,
        Token::Hash256,
        Token::Depth,
        Token::Num(4),
        Token::Sub,
        Token::Pick,
        Token::Equal,
    ]);
    let ms = decode::<Segwitv0>(tokens.clone()).expect("decodes");
    assert_eq!(ms.node, Terminal::OutputsPref(prefix));
    assert_eq!(ms.ext.pk_cost, 41 + 14);
    assert_eq!(ms.ext.max_sat_size, Some((487, 487)));

    tokens.remove(0);
    assert_eq!(decode::<Segwitv0>(tokens).err(), Some(Error::UnexpectedStart));
}

#[test]
fn context_without_rules_decodes_what_others_refuse() {
    let k = uncompressed_key(5);
    assert_eq!(decode::<NoChecks>(checked(k)).expect("decodes"), *pk::<NoChecks>(k));
    assert!(decode::<NoChecks>(multisig(2, 3)).is_ok());
}

#[test]
fn decoding_what_was_decoded_gives_the_same_tree() {
    round_trips::<Segwitv0>(checked(key(2, 1)));
    round_trips::<Segwitv0>(threshold(2));
    round_trips::<Segwitv0>(multisig(2, 3));
    round_trips::<Legacy>(multisig(1, 2));
    round_trips::<BareCtx>(multisig(2, 3));
    round_trips::<Tap>(checked(key(3, 4)));

    let a = key(2, 1);
    let b = key(2, 2);
    let mut tokens = checked(a);
    tokens.push(Token::Verify);
    tokens.extend(checked(b));
    tokens.push(Token::Verify);
    tokens.extend(vec![Token::Num(144), Token::CheckSequenceVerify]);
    round_trips::<Segwitv0>(tokens.clone());
    round_trips::<Legacy>(tokens.clone());
    round_trips::<Tap>(tokens);

    let mut tokens = vec![Token::If];
    tokens.extend(checked(a));
    tokens.push(Token::Else);
    tokens.extend(vec![Token::Dup, Token::Hash160, Token::Hash20([9; 20])]);
    tokens.extend(vec![Token::Equal, Token::Verify, Token::CheckSig, Token::EndIf]);
    round_trips::<Segwitv0>(tokens.clone());
    round_trips::<Tap>(tokens);
}

#[test]
fn encoding_writes_each_fragment_in_script_order() {
    let a = key(2, 1);
    let b = key(2, 2);
    let tree = leaf::<Segwitv0>(Terminal::AndOr(
        pk(a),
        leaf(Terminal::NonZero(pk(b))),
        leaf(Terminal::ZeroNotEqual(leaf(Terminal::Sha256([5; 32])))),
    ));
    let tokens = tree.encode();
    assert_eq!(tokens, encode(&tree));
    assert_eq!(tokens.len(), 19);
    assert_eq!(tokens[0], Token::Pubkey(a));
    assert_eq!(tokens[2], Token::NotIf);
    assert_eq!(tokens[3], Token::Size);
    assert_eq!(tokens[8], Token::Hash32([5; 32]));
    assert_eq!(tokens[10], Token::ZeroNotEqual);
    assert_eq!(tokens[11], Token::Else);
    assert_eq!(tokens[14], Token::If);
    assert_eq!(tokens[15], Token::Pubkey(b));
    assert_eq!(tokens[17], Token::EndIf);
    assert_eq!(tokens[18], Token::EndIf);

    let keys = vec![a, b];
    let multi_a = leaf::<elements_miniscript::context::Tap>(Terminal::MultiA(2, keys));
    assert_eq!(
        multi_a.encode(),
        vec![
            Token::Pubkey(a),
            Token::CheckSig,
            Token::Pubkey(b),
            Token::CheckSigAdd,
            Token::Num(2),
            Token::NumEqual,
        ]
    );
    let prefix = leaf::<Segwitv0>(Terminal::OutputsPref(vec![1, 2, 3]));
    assert_eq!(prefix.encode()[6], Token::Push(vec![1, 2, 3]));
    let ext = leaf::<elements_miniscript::context::Tap>(Terminal::Ext(NoExt));
    assert_eq!(ext.encode(), vec![Token::Num(0)]);
}
