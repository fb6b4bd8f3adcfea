//! The encoder: from a typed tree to the tokens of its script.

use vstd::prelude::*;
use crate::extension::Extension;
use crate::key::PublicKey;
use crate::lex::views;
use crate::lex::Token;
use crate::lex::TokenView;
use crate::miniscript::key_tokens;
use crate::miniscript::Miniscript;
use crate::miniscript::MiniscriptView;
use crate::miniscript::Terminal;
use crate::miniscript::TerminalView;
use std::sync::Arc;

verus! {

/// Puts one token at the end of `out`.
fn put(out: &mut Vec<Token>, tok: Token)
    ensures
        views(final(out)@) == views(old(out)@).push(tok@),
{
    out.push(tok);
    proof {
        assert(views(out@) =~= views(old(out)@).push(tok@));
    }
}

/// No tokens.
fn none() -> (r: Vec<Token>)
    ensures
        views(r@) == Seq::<TokenView>::empty(),
{
    let r: Vec<Token> = Vec::new();
    proof {
        assert(views(r@) =~= Seq::<TokenView>::empty());
    }
    r
}

/// One token.
fn one(a: Token) -> (r: Vec<Token>)
    ensures
        views(r@) == seq![a@],
{
    let mut r: Vec<Token> = Vec::new();
    put(&mut r, a);
    proof {
        assert(views(r@) =~= seq![a@]);
    }
    r
}

/// Two tokens.
fn two(a: Token, b: Token) -> (r: Vec<Token>)
    ensures
        views(r@) == seq![a@, b@],
{
    let mut r: Vec<Token> = Vec::new();
    put(&mut r, a);
    put(&mut r, b);
    proof {
        assert(views(r@) =~= seq![a@, b@]);
    }
    r
}

/// Three tokens.
fn three(a: Token, b: Token, c: Token) -> (r: Vec<Token>)
    ensures
        views(r@) == seq![a@, b@, c@],
{
    let mut r: Vec<Token> = Vec::new();
    put(&mut r, a);
    put(&mut r, b);
    put(&mut r, c);
    proof {
        assert(views(r@) =~= seq![a@, b@, c@]);
    }
    r
}

/// Puts the tokens `more` at the end of `out`.
fn put_all(out: &mut Vec<Token>, more: Vec<Token>)
    ensures
        views(final(out)@) == views(old(out)@) + views(more@),
{
    let mut more = more;
    let ghost added = views(more@);
    out.append(&mut more);
    proof {
        assert(views(out@) =~= views(old(out)@) + added);
    }
}

/// Puts the size check that opens a hash commitment at the end of `out`.
fn put_size_check(out: &mut Vec<Token>)
    ensures
        views(final(out)@) == views(old(out)@) + seq![
            TokenView::Size,
            TokenView::Num(32),
            TokenView::Equal,
            TokenView::Verify,
        ],
{
    put(out, Token::Size);
    put(out, Token::Num(32));
    put(out, Token::Equal);
    put(out, Token::Verify);
    proof {
        assert(views(out@) =~= views(old(out)@) + seq![
            TokenView::Size,
            TokenView::Num(32),
            TokenView::Equal,
            TokenView::Verify,
        ]);
    }
}

/// Puts `n` times `CAT` at the end of `out`.
fn put_six_cat(out: &mut Vec<Token>)
    ensures
        views(final(out)@) == views(old(out)@) + seq![
            TokenView::Cat,
            TokenView::Cat,
            TokenView::Cat,
            TokenView::Cat,
            TokenView::Cat,
            TokenView::Cat,
        ],
{
    put(out, Token::Cat);
    put(out, Token::Cat);
    put(out, Token::Cat);
    put(out, Token::Cat);
    put(out, Token::Cat);
    put(out, Token::Cat);
    proof {
        assert(views(out@) =~= views(old(out)@) + seq![
            TokenView::Cat,
            TokenView::Cat,
            TokenView::Cat,
            TokenView::Cat,
            TokenView::Cat,
            TokenView::Cat,
        ]);
    }
}

/// Puts the pushes of `keys` at the end of `out`, in order.
fn put_keys(out: &mut Vec<Token>, keys: &Vec<PublicKey>)
    ensures
        views(final(out)@) == views(old(out)@) + key_tokens(keys@),
{
    let mut i: usize = 0;
    while i < keys.len()
        invariant
            i <= keys@.len(),
            views(out@) == views(old(out)@) + key_tokens(keys@).subrange(0, i as int),
        decreases keys@.len() - i,
    {
        let ghost before = views(out@);
        put(out, Token::Pubkey(keys[i]));
        proof {
            assert(key_tokens(keys@).subrange(0, i as int + 1) =~= key_tokens(keys@).subrange(
                0,
                i as int,
            ).push(TokenView::Pubkey(keys@[i as int])));
            assert(views(out@) =~= views(old(out)@) + key_tokens(keys@).subrange(
                0,
                i as int + 1,
            ));
        }
        i += 1;
    }
    proof {
        assert(key_tokens(keys@).subrange(0, keys@.len() as int) =~= key_tokens(keys@));
    }
}

/// A copy of `bytes`.
fn copy_bytes(bytes: &Vec<u8>) -> (r: Vec<u8>)
    ensures
        r@ == bytes@,
{
    let mut r: Vec<u8> = Vec::with_capacity(bytes.len());
    let mut i: usize = 0;
    while i < bytes.len()
        invariant
            i <= bytes@.len(),
            r@ == bytes@.subrange(0, i as int),
        decreases bytes@.len() - i,
    {
        r.push(bytes[i]);
        proof {
            assert(r@ =~= bytes@.subrange(0, i as int + 1));
        }
        i += 1;
    }
    proof {
        assert(bytes@.subrange(0, bytes@.len() as int) =~= bytes@);
    }
    r
}

/// Puts the pushes of `keys` at the end of `out`, each followed by its
/// check: `CHECKSIG` after the first, `CHECKSIGADD` after the others.
fn put_checked_keys(out: &mut Vec<Token>, keys: &Vec<PublicKey>)
    ensures
        views(final(out)@) == views(old(out)@) + Seq::new(
            2 * keys@.len(),
            |j: int|
                if j % 2 == 0 {
                    TokenView::Pubkey(keys@[j / 2])
                } else if j == 1 {
                    TokenView::CheckSig
                } else {
                    TokenView::CheckSigAdd
                },
        ),
{
    let ghost text = Seq::new(
        2 * keys@.len(),
        |j: int|
            if j % 2 == 0 {
                TokenView::Pubkey(keys@[j / 2])
            } else if j == 1 {
                TokenView::CheckSig
            } else {
                TokenView::CheckSigAdd
            },
    );
    let ghost start = views(out@);
    let mut i: usize = 0;
    proof {
        assert(views(out@) =~= start + text.subrange(0, 0));
    }
    while i < keys.len()
        invariant
            i <= keys@.len(),
            text.len() == 2 * keys@.len(),
            forall|j: int|
                0 <= j < text.len() ==> #[trigger] text[j] == (if j % 2 == 0 {
                    TokenView::Pubkey(keys@[j / 2])
                } else if j == 1 {
                    TokenView::CheckSig
                } else {
                    TokenView::CheckSigAdd
                }),
            views(out@) == start + text.subrange(0, 2 * i),
        decreases keys@.len() - i,
    {
        put(out, Token::Pubkey(keys[i]));
        if i == 0 {
            put(out, Token::CheckSig);
        } else {
            put(out, Token::CheckSigAdd);
        }
        proof {
            assert(views(out@) =~= start + text.subrange(0, 2 * (i + 1)));
        }
        i += 1;
    }
    proof {
        assert(text.subrange(0, 2 * keys@.len() as int) =~= text);
    }
}

/// The tokens of a wrapper: those of its child with the opcodes of the
/// wrapper before and after them.
pub proof fn lemma_wrapper_text<Ext: Extension<PublicKey>>(tree: MiniscriptView<PublicKey, Ext>)
    ensures
        match tree.node {
            TerminalView::Alt(x) => tree.script_tokens() == seq![TokenView::ToAltStack]
                + x.script_tokens() + seq![TokenView::FromAltStack],
            TerminalView::Swap(x) => tree.script_tokens() == seq![TokenView::Swap]
                + x.script_tokens(),
            TerminalView::Check(x) => tree.script_tokens() == x.script_tokens()
                + seq![TokenView::CheckSig],
            TerminalView::DupIf(x) => tree.script_tokens() == seq![
                TokenView::Dup,
                TokenView::If,
            ] + x.script_tokens() + seq![TokenView::EndIf],
            TerminalView::Verify(x) => tree.script_tokens() == x.script_tokens()
                + seq![TokenView::Verify],
            TerminalView::NonZero(x) => tree.script_tokens() == seq![
                TokenView::Size,
                TokenView::ZeroNotEqual,
                TokenView::If,
            ] + x.script_tokens() + seq![TokenView::EndIf],
            TerminalView::ZeroNotEqual(x) => tree.script_tokens() == x.script_tokens()
                + seq![TokenView::ZeroNotEqual],
            _ => true,
        },
{
    reveal_with_fuel(MiniscriptView::script_tokens, 1);
}

/// The tokens of a combinator: those of its children, in order, with the
/// opcodes of the combinator between and after them.
pub proof fn lemma_combinator_text<Ext: Extension<PublicKey>>(tree: MiniscriptView<PublicKey, Ext>)
    ensures
        match tree.node {
            TerminalView::AndV(a, b) => tree.script_tokens() == a.script_tokens()
                + b.script_tokens(),
            TerminalView::AndB(a, b) => tree.script_tokens() == a.script_tokens()
                + b.script_tokens() + seq![TokenView::BoolAnd],
            TerminalView::AndOr(a, b, c) => tree.script_tokens() == a.script_tokens()
                + seq![TokenView::NotIf] + c.script_tokens() + seq![TokenView::Else]
                + b.script_tokens() + seq![TokenView::EndIf],
            TerminalView::OrB(a, b) => tree.script_tokens() == a.script_tokens()
                + b.script_tokens() + seq![TokenView::BoolOr],
            TerminalView::OrD(a, b) => tree.script_tokens() == a.script_tokens() + seq![
                TokenView::IfDup,
                TokenView::NotIf,
            ] + b.script_tokens() + seq![TokenView::EndIf],
            TerminalView::OrC(a, b) => tree.script_tokens() == a.script_tokens()
                + seq![TokenView::NotIf] + b.script_tokens() + seq![TokenView::EndIf],
            TerminalView::OrI(a, b) => tree.script_tokens() == seq![TokenView::If]
                + a.script_tokens() + seq![TokenView::Else] + b.script_tokens()
                + seq![TokenView::EndIf],
            _ => true,
        },
{
    reveal_with_fuel(MiniscriptView::script_tokens, 1);
}

/// The tokens of a threshold: those of its children, joined, then the
/// count and `EQUAL`.
pub proof fn lemma_thresh_text<Ext: Extension<PublicKey>>(
    tree: MiniscriptView<PublicKey, Ext>,
    i: int,
)
    ensures
        tree.node matches TerminalView::Thresh(k, subs) ==> {
            &&& tree.script_tokens() == MiniscriptView::thresh_tokens(subs, subs.len() as int)
                + seq![TokenView::Num(k as u32), TokenView::Equal]
            &&& MiniscriptView::thresh_tokens(subs, 0) == Seq::<TokenView>::empty()
            &&& (i == 0 && subs.len() > 0 ==> MiniscriptView::thresh_tokens(subs, 1)
                == subs[0].script_tokens())
            &&& (1 <= i < subs.len() ==> MiniscriptView::thresh_tokens(subs, i + 1)
                == MiniscriptView::thresh_tokens(subs, i) + subs[i].script_tokens()
                + seq![TokenView::Add])
        },
{
    reveal_with_fuel(MiniscriptView::script_tokens, 1);
    reveal_with_fuel(MiniscriptView::thresh_tokens, 2);
}

impl<Ctx, Ext: Extension<PublicKey>> Miniscript<PublicKey, Ctx, Ext> {
    /// The tokens that encode the tree, in script order. Counts are
    /// written as the 32-bit numbers that a script holds.
    pub fn encode(&self) -> (r: Vec<Token>)
        ensures
            views(r@) == self@.script_tokens(),
    {
        let mut out: Vec<Token> = Vec::new();
        self.encode_into(&mut out);
        proof {
            assert(views(out@) =~= self@.script_tokens());
        }
        out
    }

    /// Puts the tokens of a leaf that is a constant, a key or a number at the end of `out`.
    fn put_short_leaf(&self, out: &mut Vec<Token>)
        requires
            self@.node is True || self@.node is False || self@.node is PkK || self@.node is PkH
                || self@.node is After || self@.node is Older || self@.node is Version,
        ensures
            views(final(out)@) == views(old(out)@) + self@.script_tokens(),
    {
        proof {
            reveal_with_fuel(MiniscriptView::script_tokens, 1);
        }
        let ghost start = views(out@);
        match &self.node {
            Terminal::True => {
                put(out, Token::Num(1));
                proof {
                    assert(views(out@) =~= start + self@.script_tokens());
                }
            },
            Terminal::False => {
                put(out, Token::Num(0));
                proof {
                    assert(views(out@) =~= start + self@.script_tokens());
                }
            },
            Terminal::PkK(pk) => {
                put(out, Token::Pubkey(*pk));
                proof {
                    assert(views(out@) =~= start + self@.script_tokens());
                }
            },
            Terminal::PkH(h) => {
                put(out, Token::Dup);
                put(out, Token::Hash160);
                put(out, Token::Hash20(*h));
                put(out, Token::Equal);
                put(out, Token::Verify);
                proof {
                    assert(views(out@) =~= start + self@.script_tokens());
                }
            },
            Terminal::After(n) => {
                put(out, Token::Num(*n));
                put(out, Token::CheckLockTimeVerify);
                proof {
                    assert(views(out@) =~= start + self@.script_tokens());
                }
            },
            Terminal::Older(n) => {
                put(out, Token::Num(*n));
                put(out, Token::CheckSequenceVerify);
                proof {
                    assert(views(out@) =~= start + self@.script_tokens());
                }
            },
            Terminal::Version(n) => {
                put(out, Token::Depth);
                put(out, Token::Num(12));
                put(out, Token::Sub);
                put(out, Token::PickPush4(*n));
                put(out, Token::Equal);
                proof {
                    assert(views(out@) =~= start + self@.script_tokens());
                }
            },
            _ => {},
        }
    }

    /// Puts the tokens of a hash commitment at the end of `out`.
    fn put_hash(&self, out: &mut Vec<Token>)
        requires
            self@.node is Sha256 || self@.node is Hash256 || self@.node is Ripemd160
                || self@.node is Hash160,
        ensures
            views(final(out)@) == views(old(out)@) + self@.script_tokens(),
    {
        proof {
            reveal_with_fuel(MiniscriptView::script_tokens, 1);
        }
        let ghost start = views(out@);
        match &self.node {
            Terminal::Sha256(h) => {
                put_size_check(out);
                put(out, Token::Sha256);
                put(out, Token::Hash32(*h));
                put(out, Token::Equal);
                proof {
                    assert(views(out@) =~= start + self@.script_tokens());
                }
            },
            Terminal::Hash256(h) => {
                put_size_check(out);
                put(out, Token::Hash256);
                put(out, Token::Hash32(*h));
                put(out, Token::Equal);
                proof {
                    assert(views(out@) =~= start + self@.script_tokens());
                }
            },
            Terminal::Ripemd160(h) => {
                put_size_check(out);
                put(out, Token::Ripemd160);
                put(out, Token::Hash20(*h));
                put(out, Token::Equal);
                proof {
                    assert(views(out@) =~= start + self@.script_tokens());
                }
            },
            Terminal::Hash160(h) => {
                put_size_check(out);
                put(out, Token::Hash160);
                put(out, Token::Hash20(*h));
                put(out, Token::Equal);
                proof {
                    assert(views(out@) =~= start + self@.script_tokens());
                }
            },
            _ => {},
        }
    }

    /// Puts the tokens of a commitment to the outputs, of a key list or of
    /// an extension fragment at the end of `out`.
    fn put_long_leaf(&self, out: &mut Vec<Token>)
        requires
            self@.node is OutputsPref || self@.node is Multi || self@.node is MultiA
                || self@.node is Ext,
        ensures
            views(final(out)@) == views(old(out)@) + self@.script_tokens(),
    {
        proof {
            reveal_with_fuel(MiniscriptView::script_tokens, 1);
        }
        let ghost start = views(out@);
        match &self.node {
            Terminal::OutputsPref(p) => {
                put_six_cat(out);
                put(out, Token::Push(copy_bytes(p)));
                put(out, Token::Swap);
                put(out, Token::Cat);
                put(out, Token::Hash256);
                put(out, Token::Depth);
                put(out, Token::Num(4));
                put(out, Token::Sub);
                put(out, Token::Pick);
                put(out, Token::Equal);
                proof {
                    assert(views(out@) =~= start + self@.script_tokens());
                }
            },
            Terminal::Multi(k, keys) => {
                put(out, Token::Num(#[verifier::truncate] (*k as u32)));
                put_keys(out, keys);
                put(out, Token::Num(#[verifier::truncate] (keys.len() as u32)));
                put(out, Token::CheckMultiSig);
                proof {
                    assert(views(out@) =~= start + self@.script_tokens());
                }
            },
            Terminal::MultiA(k, keys) => {
                put_checked_keys(out, keys);
                put(out, Token::Num(#[verifier::truncate] (*k as u32)));
                put(out, Token::NumEqual);
                proof {
                    assert(views(out@) =~= start + self@.script_tokens());
                }
            },
            Terminal::Ext(e) => {
                let mut toks = e.tokens();
                let ghost added = views(toks@);
                out.append(&mut toks);
                proof {
                    assert(views(out@) =~= start + added);
                }
            },
            _ => {},
        }
    }

    /// Puts the tokens `before`, the tokens of the child `child` and the
    /// tokens `after` at the end of `out`.
    fn put_around(
        &self,
        child: &Miniscript<PublicKey, Ctx, Ext>,
        before: Vec<Token>,
        after: Vec<Token>,
        out: &mut Vec<Token>,
    )
        requires
            decreases_to!(self => child),
        ensures
            views(final(out)@) == views(old(out)@) + views(before@) + child@.script_tokens() + views(
                after@,
            ),
        decreases self, 0nat,
    {
        put_all(out, before);
        child.encode_into(out);
        put_all(out, after);
    }

    /// Puts the tokens of a wrapper at the end of `out`.
    #[verifier::rlimit(30)]
    fn put_wrapper(&self, out: &mut Vec<Token>)
        requires
            self@.node is Alt || self@.node is Swap || self@.node is Check || self@.node is DupIf
                || self@.node is Verify || self@.node is NonZero || self@.node is ZeroNotEqual,
        ensures
            views(final(out)@) == views(old(out)@) + self@.script_tokens(),
        decreases self, 1nat,
    {
        proof {
            lemma_wrapper_text(self@);
        }
        let ghost start = views(out@);
        match &self.node {
            Terminal::Alt(x) => {
                self.put_around(x, one(Token::ToAltStack), one(Token::FromAltStack), out);
                proof {
                    assert(views(out@) =~= start + (seq![TokenView::ToAltStack] + x@.script_tokens()
                        + seq![TokenView::FromAltStack]));
                }
            },
            Terminal::Swap(x) => {
                self.put_around(x, one(Token::Swap), none(), out);
                proof {
                    assert(views(out@) =~= start + (seq![TokenView::Swap] + x@.script_tokens()));
                }
            },
            Terminal::Check(x) => {
                self.put_around(x, none(), one(Token::CheckSig), out);
                proof {
                    assert(views(out@) =~= start + (x@.script_tokens() + seq![TokenView::CheckSig]));
                }
            },
            Terminal::DupIf(x) => {
                self.put_around(x, two(Token::Dup, Token::If), one(Token::EndIf), out);
                proof {
                    assert(views(out@) =~= start + (seq![TokenView::Dup, TokenView::If] + x@.script_tokens()
                        + seq![TokenView::EndIf]));
                }
            },
            Terminal::Verify(x) => {
                self.put_around(x, none(), one(Token::Verify), out);
                proof {
                    assert(views(out@) =~= start + (x@.script_tokens() + seq![TokenView::Verify]));
                }
            },
            Terminal::NonZero(x) => {
                self.put_around(
                    x,
                    three(Token::Size, Token::ZeroNotEqual, Token::If),
                    one(Token::EndIf),
                    out,
                );
                proof {
                    assert(views(out@) =~= start + (seq![TokenView::Size, TokenView::ZeroNotEqual, TokenView::If]
                        + x@.script_tokens() + seq![TokenView::EndIf]));
                }
            },
            Terminal::ZeroNotEqual(x) => {
                self.put_around(x, none(), one(Token::ZeroNotEqual), out);
                proof {
                    assert(views(out@) =~= start + (x@.script_tokens() + seq![TokenView::ZeroNotEqual]));
                }
            },
            _ => {},
        }
    }

    /// Puts the tokens of a conjunction at the end of `out`.
    #[verifier::rlimit(30)]
    fn put_conjunction(&self, out: &mut Vec<Token>)
        requires
            self@.node is AndV || self@.node is AndB || self@.node is AndOr,
        ensures
            views(final(out)@) == views(old(out)@) + self@.script_tokens(),
        decreases self, 1nat,
    {
        proof {
            lemma_combinator_text(self@);
        }
        let ghost start = views(out@);
        match &self.node {
            Terminal::AndV(a, b) => {
                self.put_around(a, none(), none(), out);
                self.put_around(b, none(), none(), out);
                proof {
                    assert(views(out@) =~= start + (a@.script_tokens() + b@.script_tokens()));
                }
            },
            Terminal::AndB(a, b) => {
                self.put_around(a, none(), none(), out);
                self.put_around(b, none(), one(Token::BoolAnd), out);
                proof {
                    assert(views(out@) =~= start + (a@.script_tokens() + b@.script_tokens() + seq![TokenView::BoolAnd]));
                }
            },
            Terminal::AndOr(a, b, c) => {
                self.put_around(a, none(), one(Token::NotIf), out);
                self.put_around(c, none(), one(Token::Else), out);
                self.put_around(b, none(), one(Token::EndIf), out);
                proof {
                    assert(views(out@) =~= start + (a@.script_tokens() + seq![TokenView::NotIf] + c@.script_tokens()
                        + seq![TokenView::Else] + b@.script_tokens() + seq![TokenView::EndIf]));
                }
            },
            _ => {},
        }
    }

    /// Puts the tokens of a disjunction at the end of `out`.
    #[verifier::rlimit(30)]
    fn put_disjunction(&self, out: &mut Vec<Token>)
        requires
            self@.node is OrB || self@.node is OrD || self@.node is OrC || self@.node is OrI,
        ensures
            views(final(out)@) == views(old(out)@) + self@.script_tokens(),
        decreases self, 1nat,
    {
        proof {
            lemma_combinator_text(self@);
        }
        let ghost start = views(out@);
        match &self.node {
            Terminal::OrB(a, b) => {
                self.put_around(a, none(), none(), out);
                self.put_around(b, none(), one(Token::BoolOr), out);
                proof {
                    assert(views(out@) =~= start + (a@.script_tokens() + b@.script_tokens() + seq![TokenView::BoolOr]));
                }
            },
            Terminal::OrD(a, b) => {
                self.put_around(a, none(), two(Token::IfDup, Token::NotIf), out);
                self.put_around(b, none(), one(Token::EndIf), out);
                proof {
                    assert(views(out@) =~= start + (a@.script_tokens() + seq![TokenView::IfDup, TokenView::NotIf]
                        + b@.script_tokens() + seq![TokenView::EndIf]));
                }
            },
            Terminal::OrC(a, b) => {
                self.put_around(a, none(), one(Token::NotIf), out);
                self.put_around(b, none(), one(Token::EndIf), out);
                proof {
                    assert(views(out@) =~= start + (a@.script_tokens() + seq![TokenView::NotIf] + b@.script_tokens()
                        + seq![TokenView::EndIf]));
                }
            },
            Terminal::OrI(a, b) => {
                self.put_around(a, one(Token::If), one(Token::Else), out);
                self.put_around(b, none(), one(Token::EndIf), out);
                proof {
                    assert(views(out@) =~= start + (seq![TokenView::If] + a@.script_tokens() + seq![TokenView::Else]
                        + b@.script_tokens() + seq![TokenView::EndIf]));
                }
            },
            _ => {},
        }
    }

    /// Puts the tokens of a threshold at the end of `out`.
    fn put_thresh(&self, out: &mut Vec<Token>)
        requires
            self@.node is Thresh,
        ensures
            views(final(out)@) == views(old(out)@) + self@.script_tokens(),
        decreases self, 1nat,
    {
        let ghost start = views(out@);
        match &self.node {
            Terminal::Thresh(k, subs) => {
                let ghost trees = self@.node->Thresh_1;
                proof {
                    lemma_thresh_text(self@, 0);
                    Terminal::lemma_views(subs@, subs@.len());
                    assert(trees.len() == subs@.len());
                    assert(views(out@) =~= start + MiniscriptView::thresh_tokens(trees, 0));
                }
                let mut i: usize = 0;
                while i < subs.len()
                    invariant
                        i <= subs@.len(),
                        trees.len() == subs@.len(),
                        self.node == Terminal::<PublicKey, Ctx, Ext>::Thresh(*k, *subs),
                        self@.node == TerminalView::<PublicKey, Ext>::Thresh(*k, trees),
                        forall|j: int| 0 <= j < subs@.len() ==> (#[trigger] subs@[j])@ == trees[j],
                        views(out@) == start + MiniscriptView::thresh_tokens(trees, i as int),
                    decreases subs@.len() - i,
                {
                    proof {
                        assert(decreases_to!(self => self.node));
                        assert(decreases_to!(self.node => *subs));
                        assert(decreases_to!(*subs => subs@));
                        assert(decreases_to!(subs@ => subs@[i as int]));
                    }
                    let sub: &Miniscript<PublicKey, Ctx, Ext> = &subs[i];
                    sub.encode_into(out);
                    if i > 0 {
                        put(out, Token::Add);
                    }
                    proof {
                        lemma_thresh_text(self@, i as int);
                        let t = trees[i as int].script_tokens();
                        if i > 0 {
                            assert(views(out@) =~= start + (MiniscriptView::thresh_tokens(
                                trees,
                                i as int,
                            ) + t + seq![TokenView::Add]));
                        } else {
                            assert(views(out@) =~= start + t);
                        }
                    }
                    i += 1;
                }
                put(out, Token::Num(#[verifier::truncate] (*k as u32)));
                put(out, Token::Equal);
                proof {
                    assert(views(out@) =~= start + self@.script_tokens());
                }
            },
            _ => {},
        }
    }

    /// Puts the tokens that encode the tree at the end of `out`.
    pub fn encode_into(&self, out: &mut Vec<Token>)
        ensures
            views(final(out)@) == views(old(out)@) + self@.script_tokens(),
        decreases self, 2nat,
    {
        match &self.node {
            Terminal::True
            | Terminal::False
            | Terminal::PkK(_)
            | Terminal::PkH(_)
            | Terminal::After(_)
            | Terminal::Older(_)
            | Terminal::Version(_) => self.put_short_leaf(out),
            Terminal::Sha256(_)
            | Terminal::Hash256(_)
            | Terminal::Ripemd160(_)
            | Terminal::Hash160(_) => self.put_hash(out),
            Terminal::OutputsPref(_)
            | Terminal::Multi(_, _)
            | Terminal::MultiA(_, _)
            | Terminal::Ext(_) => self.put_long_leaf(out),
            Terminal::Alt(_)
            | Terminal::Swap(_)
            | Terminal::Check(_)
            | Terminal::DupIf(_)
            | Terminal::Verify(_)
            | Terminal::NonZero(_)
            | Terminal::ZeroNotEqual(_) => self.put_wrapper(out),
            Terminal::Thresh(_, _) => self.put_thresh(out),
            Terminal::AndV(_, _) | Terminal::AndB(_, _) | Terminal::AndOr(_, _, _) =>
                self.put_conjunction(out),
            _ => self.put_disjunction(out),
        }
    }
}

} // verus!
