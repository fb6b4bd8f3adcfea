use elements_miniscript::context::Segwitv0;
use elements_miniscript::context::Tap;
use elements_miniscript::decode::parse;
use elements_miniscript::error::Error;
use elements_miniscript::extension::Extension;
use elements_miniscript::extension::NoExt;
use elements_miniscript::key::MiniscriptKey;
use elements_miniscript::key::PublicKey;
use elements_miniscript::key::XOnlyPublicKey;
use elements_miniscript::lex::Token;
use elements_miniscript::lex::TokenIter;
use elements_miniscript::miniscript::Miniscript;
use elements_miniscript::miniscript::Terminal;
use elements_miniscript::types::ErrorKind;
use elements_miniscript::util::witness_to_scriptsig;
use std::sync::Arc;

fn key(fill: u8) -> PublicKey {
    let mut bytes = [fill; 33];
    bytes[0] = 2;
    PublicKey::from_slice(&bytes).expect("a well-shaped key")
}

#[test]
fn stream_is_read_from_its_end() {
    let mut tokens = TokenIter::new(vec![Token::Dup, Token::If, Token::EndIf]);
    assert_eq!(tokens.len(), 3);
    assert_eq!(tokens.peek(), Some(&Token::EndIf));
    assert_eq!(tokens.next(), Some(Token::EndIf));
    assert_eq!(tokens.len(), 2);
    assert_eq!(tokens.next(), Some(Token::If));
    tokens.un_next(Token::If);
    assert_eq!(tokens.len(), 2);
    assert_eq!(tokens.peek(), Some(&Token::If));
    assert_eq!(tokens.next(), Some(Token::If));
    assert_eq!(tokens.next(), Some(Token::Dup));
    assert_eq!(tokens.next(), None);
    assert_eq!(tokens.peek(), None);
    assert_eq!(tokens.len(), 0);
}

#[test]
fn keys_as_the_rules_see_them() {
    let k = key(0xab);
    assert!(!k.is_uncompressed());
    assert!(!k.is_x_only_key());
    assert_eq!(k.to_string(), format!("02{}", "ab".repeat(32)));
    let mut bytes = [0x10u8; 65];
    bytes[0] = 4;
    let k = PublicKey::from_slice(&bytes).expect("a well-shaped key");
    assert!(k.is_uncompressed());
    assert!(!k.is_x_only_key());
    assert_eq!(k.to_string(), format!("04{}", "10".repeat(64)));
    let k = XOnlyPublicKey { bytes: [0x0f; 32] };
    assert!(!k.is_uncompressed());
    assert!(k.is_x_only_key());
    assert_eq!(k.to_string(), "0f".repeat(32));
}

#[test]
fn extension_without_fragments_reads_nothing() {
    let mut tokens = TokenIter::new(vec![Token::Num(0)]);
    let r = <NoExt as Extension<PublicKey>>::from_token_iter(&mut tokens);
    assert_eq!(r, Err(()));
    assert_eq!(tokens.len(), 1);
    let mut tokens = TokenIter::new(vec![Token::Num(0)]);
    let ms = parse::<Segwitv0, NoExt>(&mut tokens).expect("decodes");
    assert_eq!(ms.node, Terminal::False);
}

#[test]
fn typed_trees_from_fragments() {
    let k: Miniscript<PublicKey, Tap, NoExt> =
        Miniscript::from_ast(Terminal::PkK(key(1))).expect("a typed fragment");
    assert_eq!(k.ext.pk_cost, 33);
    assert_eq!(k.ext.max_sat_size, Some((66, 66)));
    let checked: Miniscript<PublicKey, Tap, NoExt> =
        Miniscript::from_ast(Terminal::Check(Arc::new(k))).expect("a typed fragment");
    assert_eq!(checked.ext.pk_cost, 34);
    let r: Result<Miniscript<PublicKey, Tap, NoExt>, Error> =
        Miniscript::from_ast(Terminal::Check(Arc::new(checked)));
    assert_eq!(r.err(), Some(Error::TypeCheck(ErrorKind::ChildBase1(
        elements_miniscript::types::Base::B
    ))));
    let uncompressed = {
        let mut bytes = [1u8; 65];
        bytes[0] = 4;
        PublicKey::from_slice(&bytes).expect("a well-shaped key")
    };
    let r: Result<Miniscript<PublicKey, Tap, NoExt>, Error> =
        Miniscript::from_ast(Terminal::PkK(uncompressed));
    assert!(r.is_ok());
}

#[test]
fn empty_witness_gives_the_empty_script_signature() {
    assert_eq!(witness_to_scriptsig(&[]).len(), 0);
    assert_eq!(witness_to_scriptsig(&[vec![2, 0, 0, 0]]).as_bytes(), &[0x52u8][..]);
    assert_eq!(witness_to_scriptsig(&[vec![0xff, 0x7f]]).as_bytes(), &[2u8, 0xff, 0x7f][..]);
}

#[test]
fn short_witness_elements_are_pushed_as_the_numbers_they_stand_for() {
    assert_eq!(witness_to_scriptsig(&[vec![]]).as_bytes(), &[0x00u8][..]);
    assert_eq!(witness_to_scriptsig(&[vec![0x80]]).as_bytes(), &[0x00u8][..]);
    assert_eq!(witness_to_scriptsig(&[vec![0x81]]).as_bytes(), &[0x4fu8][..]);
    assert_eq!(witness_to_scriptsig(&[vec![0x05, 0x80]]).as_bytes(), &[1u8, 0x85][..]);
    assert_eq!(
        witness_to_scriptsig(&[vec![0x00, 0x01, 0x00, 0x80]]).as_bytes(),
        &[2u8, 0x00, 0x81][..]
    );
    assert_eq!(
        witness_to_scriptsig(&[vec![1, 2, 3, 4, 5]]).as_bytes(),
        &[5u8, 1, 2, 3, 4, 5][..]
    );
}
