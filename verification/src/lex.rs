//! The token alphabet of a script and the stream the decoder reads it from.

use vstd::prelude::*;
use crate::key::PublicKey;

verus! {

/// One token of a script: an opcode, a small number or a tagged push.
#[derive(Clone, Debug, PartialEq, Eq)]
pub enum Token {
    BoolAnd,
    BoolOr,
    Add,
    Sub,
    Equal,
    NumEqual,
    CheckSig,
    CheckSigAdd,
    CheckMultiSig,
    CheckSequenceVerify,
    CheckLockTimeVerify,
    FromAltStack,
    ToAltStack,
    Cat,
    Pick,
    Depth,
    Drop,
    Dup,
    If,
    IfDup,
    NotIf,
    Else,
    EndIf,
    ZeroNotEqual,
    Size,
    Swap,
    Verify,
    Ripemd160,
    Hash160,
    Sha256,
    Hash256,
    /// A number pushed on the stack.
    Num(u32),
    /// A push of 20 bytes.
    Hash20([u8; 20]),
    /// A push of 32 bytes.
    Hash32([u8; 32]),
    /// A push that parses as a public key.
    Pubkey(PublicKey),
    /// Any other push.
    Push(Vec<u8>),
    /// A push of four bytes that a `PICK` precedes, read as a number.
    PickPush4(u32),
}

/// A token as a mathematical value: a push is the sequence of its bytes.
pub enum TokenView {
    BoolAnd,
    BoolOr,
    Add,
    Sub,
    Equal,
    NumEqual,
    CheckSig,
    CheckSigAdd,
    CheckMultiSig,
    CheckSequenceVerify,
    CheckLockTimeVerify,
    FromAltStack,
    ToAltStack,
    Cat,
    Pick,
    Depth,
    Drop,
    Dup,
    If,
    IfDup,
    NotIf,
    Else,
    EndIf,
    ZeroNotEqual,
    Size,
    Swap,
    Verify,
    Ripemd160,
    Hash160,
    Sha256,
    Hash256,
    Num(u32),
    Hash20([u8; 20]),
    Hash32([u8; 32]),
    Pubkey(PublicKey),
    Push(Seq<u8>),
    PickPush4(u32),
}

impl View for Token {
    type V = TokenView;

    open spec fn view(&self) -> TokenView {
        match self {
            Token::BoolAnd => TokenView::BoolAnd,
            Token::BoolOr => TokenView::BoolOr,
            Token::Add => TokenView::Add,
            Token::Sub => TokenView::Sub,
            Token::Equal => TokenView::Equal,
            Token::NumEqual => TokenView::NumEqual,
            Token::CheckSig => TokenView::CheckSig,
            Token::CheckSigAdd => TokenView::CheckSigAdd,
            Token::CheckMultiSig => TokenView::CheckMultiSig,
            Token::CheckSequenceVerify => TokenView::CheckSequenceVerify,
            Token::CheckLockTimeVerify => TokenView::CheckLockTimeVerify,
            Token::FromAltStack => TokenView::FromAltStack,
            Token::ToAltStack => TokenView::ToAltStack,
            Token::Cat => TokenView::Cat,
            Token::Pick => TokenView::Pick,
            Token::Depth => TokenView::Depth,
            Token::Drop => TokenView::Drop,
            Token::Dup => TokenView::Dup,
            Token::If => TokenView::If,
            Token::IfDup => TokenView::IfDup,
            Token::NotIf => TokenView::NotIf,
            Token::Else => TokenView::Else,
            Token::EndIf => TokenView::EndIf,
            Token::ZeroNotEqual => TokenView::ZeroNotEqual,
            Token::Size => TokenView::Size,
            Token::Swap => TokenView::Swap,
            Token::Verify => TokenView::Verify,
            Token::Ripemd160 => TokenView::Ripemd160,
            Token::Hash160 => TokenView::Hash160,
            Token::Sha256 => TokenView::Sha256,
            Token::Hash256 => TokenView::Hash256,
            Token::Num(n) => TokenView::Num(*n),
            Token::Hash20(h) => TokenView::Hash20(*h),
            Token::Hash32(h) => TokenView::Hash32(*h),
            Token::Pubkey(k) => TokenView::Pubkey(*k),
            Token::Push(b) => TokenView::Push(b@),
            Token::PickPush4(n) => TokenView::PickPush4(*n),
        }
    }
}

/// The tokens of an executable sequence as mathematical values.
pub open spec fn views(tokens: Seq<Token>) -> Seq<TokenView> {
    Seq::new(tokens.len(), |i: int| tokens[i]@)
}

/// A stream of tokens that is read from its end: the last token of the
/// script comes out first. One token can be handed back.
#[derive(Debug)]
pub struct TokenIter {
    tokens: Vec<Token>,
}

impl TokenIter {
    /// The tokens that are still to be read, in script order.
    pub closed spec fn view(&self) -> Seq<TokenView> {
        views(self.tokens@)
    }

    /// A stream over `tokens`, given in script order.
    pub fn new(tokens: Vec<Token>) -> (r: TokenIter)
        ensures
            r@ == views(tokens@),
    {
        TokenIter { tokens }
    }

    /// The next token, without taking it.
    pub fn peek(&self) -> (r: Option<&Token>)
        ensures
            self@.len() == 0 ==> r is None,
            self@.len() > 0 ==> (r matches Some(tok) && tok@ == self@.last()),
    {
        let n = self.tokens.len();
        if n == 0 {
            None
        } else {
            Some(&self.tokens[n - 1])
        }
    }

    /// Hands `tok` back: it is the next token to come out.
    pub fn un_next(&mut self, tok: Token)
        ensures
            final(self)@ == old(self)@.push(tok@),
    {
        self.tokens.push(tok);
        proof {
            assert(self@ =~= old(self)@.push(tok@));
        }
    }

    /// Number of tokens that are still to be read.
    pub fn len(&self) -> (r: usize)
        ensures
            r == self@.len(),
    {
        self.tokens.len()
    }

    /// Takes the next token; `None` when the stream is exhausted.
    pub fn next(&mut self) -> (r: Option<Token>)
        ensures
            old(self)@.len() == 0 ==> r is None && final(self)@ == old(self)@,
            old(self)@.len() > 0 ==> (r matches Some(tok) && tok@ == old(self)@.last()
                && final(self)@ == old(self)@.drop_last()),
    {
        let r = self.tokens.pop();
        proof {
            if old(self)@.len() > 0 {
                assert(self@ =~= old(self)@.drop_last());
            } else {
                assert(self@ =~= old(self)@);
            }
        }
        r
    }
}

impl TokenView {
    /// Whether the token carries no bytes: an opcode or a number.
    pub open spec fn is_plain(self) -> bool {
        !(self is Hash20 || self is Hash32 || self is Pubkey || self is Push)
    }
}

impl Token {
    /// Whether the token is the plain token `other`.
    pub(crate) fn is(&self, other: &Token) -> (r: bool)
        requires
            other@.is_plain(),
        ensures
            r == (self@ == other@),
    {
        match (self, other) {
            (Token::BoolAnd, Token::BoolAnd) => true,
            (Token::BoolOr, Token::BoolOr) => true,
            (Token::Add, Token::Add) => true,
            (Token::Sub, Token::Sub) => true,
            (Token::Equal, Token::Equal) => true,
            (Token::NumEqual, Token::NumEqual) => true,
            (Token::CheckSig, Token::CheckSig) => true,
            (Token::CheckSigAdd, Token::CheckSigAdd) => true,
            (Token::CheckMultiSig, Token::CheckMultiSig) => true,
            (Token::CheckSequenceVerify, Token::CheckSequenceVerify) => true,
            (Token::CheckLockTimeVerify, Token::CheckLockTimeVerify) => true,
            (Token::FromAltStack, Token::FromAltStack) => true,
            (Token::ToAltStack, Token::ToAltStack) => true,
            (Token::Cat, Token::Cat) => true,
            (Token::Pick, Token::Pick) => true,
            (Token::Depth, Token::Depth) => true,
            (Token::Drop, Token::Drop) => true,
            (Token::Dup, Token::Dup) => true,
            (Token::If, Token::If) => true,
            (Token::IfDup, Token::IfDup) => true,
            (Token::NotIf, Token::NotIf) => true,
            (Token::Else, Token::Else) => true,
            (Token::EndIf, Token::EndIf) => true,
            (Token::ZeroNotEqual, Token::ZeroNotEqual) => true,
            (Token::Size, Token::Size) => true,
            (Token::Swap, Token::Swap) => true,
            (Token::Verify, Token::Verify) => true,
            (Token::Ripemd160, Token::Ripemd160) => true,
            (Token::Hash160, Token::Hash160) => true,
            (Token::Sha256, Token::Sha256) => true,
            (Token::Hash256, Token::Hash256) => true,
            (Token::Num(a), Token::Num(b)) => *a == *b,
            (Token::PickPush4(a), Token::PickPush4(b)) => *a == *b,
            _ => false,
        }
    }
}

} // verus!
