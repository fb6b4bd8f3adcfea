//! The fragments of the language and the typed tree that decoding builds.

use vstd::prelude::*;
use crate::extension::Extension;
use crate::extra_props::ExtData;
use crate::key::PublicKey;
use crate::lex::TokenView;
use crate::types::Type;
use std::marker::PhantomData;
use std::sync::Arc;

verus! {

/// One node of a tree: a fragment with its children.
#[derive(Clone, Debug, PartialEq, Eq, PartialOrd, Ord, Hash)]
pub enum Terminal<Pk, Ctx, Ext> {
    /// `1`
    True,
    /// `0`
    False,
    /// `<key>`
    PkK(Pk),
    /// `DUP HASH160 <keyhash> EQUALVERIFY`
    PkH([u8; 20]),
    /// `n CHECKLOCKTIMEVERIFY`
    After(u32),
    /// `n CHECKSEQUENCEVERIFY`
    Older(u32),
    /// `SIZE 32 EQUALVERIFY SHA256 <hash> EQUAL`
    Sha256([u8; 32]),
    /// `SIZE 32 EQUALVERIFY HASH256 <hash> EQUAL`
    Hash256([u8; 32]),
    /// `SIZE 32 EQUALVERIFY RIPEMD160 <hash> EQUAL`
    Ripemd160([u8; 20]),
    /// `SIZE 32 EQUALVERIFY HASH160 <hash> EQUAL`
    Hash160([u8; 20]),
    /// `DEPTH 12 SUB PICK <num> EQUAL`
    Version(u32),
    /// `CAT CAT CAT CAT CAT CAT <prefix> SWAP CAT HASH256 DEPTH 4 SUB PICK EQUAL`
    OutputsPref(Vec<u8>),
    /// `TOALTSTACK [E] FROMALTSTACK`
    Alt(Arc<Miniscript<Pk, Ctx, Ext>>),
    /// `SWAP [E]`
    Swap(Arc<Miniscript<Pk, Ctx, Ext>>),
    /// `[K] CHECKSIG`
    Check(Arc<Miniscript<Pk, Ctx, Ext>>),
    /// `DUP IF [V] ENDIF`
    DupIf(Arc<Miniscript<Pk, Ctx, Ext>>),
    /// `[T] VERIFY`
    Verify(Arc<Miniscript<Pk, Ctx, Ext>>),
    /// `SIZE 0NOTEQUAL IF [F] ENDIF`
    NonZero(Arc<Miniscript<Pk, Ctx, Ext>>),
    /// `[X] 0NOTEQUAL`
    ZeroNotEqual(Arc<Miniscript<Pk, Ctx, Ext>>),
    /// `[V] [T]`
    AndV(Arc<Miniscript<Pk, Ctx, Ext>>, Arc<Miniscript<Pk, Ctx, Ext>>),
    /// `[E] [W] BOOLAND`
    AndB(Arc<Miniscript<Pk, Ctx, Ext>>, Arc<Miniscript<Pk, Ctx, Ext>>),
    /// `[X] NOTIF [Z] ELSE [Y] ENDIF`
    AndOr(
        Arc<Miniscript<Pk, Ctx, Ext>>,
        Arc<Miniscript<Pk, Ctx, Ext>>,
        Arc<Miniscript<Pk, Ctx, Ext>>,
    ),
    /// `[E] [W] BOOLOR`
    OrB(Arc<Miniscript<Pk, Ctx, Ext>>, Arc<Miniscript<Pk, Ctx, Ext>>),
    /// `[E] IFDUP NOTIF [T] ENDIF`
    OrD(Arc<Miniscript<Pk, Ctx, Ext>>, Arc<Miniscript<Pk, Ctx, Ext>>),
    /// `[E] NOTIF [V] ENDIF`
    OrC(Arc<Miniscript<Pk, Ctx, Ext>>, Arc<Miniscript<Pk, Ctx, Ext>>),
    /// `IF [X] ELSE [Y] ENDIF`
    OrI(Arc<Miniscript<Pk, Ctx, Ext>>, Arc<Miniscript<Pk, Ctx, Ext>>),
    /// `[E] ([W] ADD)* k EQUAL`
    Thresh(usize, Vec<Arc<Miniscript<Pk, Ctx, Ext>>>),
    /// `k (<key>)* n CHECKMULTISIG`
    Multi(usize, Vec<Pk>),
    /// `<key> CHECKSIG (<key> CHECKSIGADD)* k NUMEQUAL`
    MultiA(usize, Vec<Pk>),
    /// A leaf that the extension defines.
    Ext(Ext),
}

/// A fragment with its type and its cost annotations.
#[derive(Debug, PartialEq, Eq, PartialOrd, Ord, Hash)]
pub struct Miniscript<Pk, Ctx, Ext> {
    /// The fragment.
    pub node: Terminal<Pk, Ctx, Ext>,
    /// Its type.
    pub ty: Type,
    /// Its cost annotations.
    pub ext: ExtData,
    /// The context that the tree was built for.
    pub phantom: PhantomData<Ctx>,
}

/// A fragment as a mathematical tree: children by value, lists as sequences.
pub enum TerminalView<Pk, Ext> {
    True,
    False,
    PkK(Pk),
    PkH([u8; 20]),
    After(u32),
    Older(u32),
    Sha256([u8; 32]),
    Hash256([u8; 32]),
    Ripemd160([u8; 20]),
    Hash160([u8; 20]),
    Version(u32),
    OutputsPref(Seq<u8>),
    Alt(Box<MiniscriptView<Pk, Ext>>),
    Swap(Box<MiniscriptView<Pk, Ext>>),
    Check(Box<MiniscriptView<Pk, Ext>>),
    DupIf(Box<MiniscriptView<Pk, Ext>>),
    Verify(Box<MiniscriptView<Pk, Ext>>),
    NonZero(Box<MiniscriptView<Pk, Ext>>),
    ZeroNotEqual(Box<MiniscriptView<Pk, Ext>>),
    AndV(Box<MiniscriptView<Pk, Ext>>, Box<MiniscriptView<Pk, Ext>>),
    AndB(Box<MiniscriptView<Pk, Ext>>, Box<MiniscriptView<Pk, Ext>>),
    AndOr(
        Box<MiniscriptView<Pk, Ext>>,
        Box<MiniscriptView<Pk, Ext>>,
        Box<MiniscriptView<Pk, Ext>>,
    ),
    OrB(Box<MiniscriptView<Pk, Ext>>, Box<MiniscriptView<Pk, Ext>>),
    OrD(Box<MiniscriptView<Pk, Ext>>, Box<MiniscriptView<Pk, Ext>>),
    OrC(Box<MiniscriptView<Pk, Ext>>, Box<MiniscriptView<Pk, Ext>>),
    OrI(Box<MiniscriptView<Pk, Ext>>, Box<MiniscriptView<Pk, Ext>>),
    Thresh(usize, Seq<MiniscriptView<Pk, Ext>>),
    Multi(usize, Seq<Pk>),
    MultiA(usize, Seq<Pk>),
    Ext(Ext),
}

/// A typed tree as a mathematical value.
pub struct MiniscriptView<Pk, Ext> {
    pub node: TerminalView<Pk, Ext>,
    pub ty: Type,
    pub ext: ExtData,
}

impl<Pk, Ctx, Ext> Miniscript<Pk, Ctx, Ext> {
    /// The tree as a mathematical value.
    pub open spec fn view(&self) -> MiniscriptView<Pk, Ext>
        decreases self,
    {
        MiniscriptView { node: self.node.view(), ty: self.ty, ext: self.ext }
    }
}

impl<Pk, Ctx, Ext> Terminal<Pk, Ctx, Ext> {
    /// The fragment as a mathematical value.
    pub open spec fn view(&self) -> TerminalView<Pk, Ext>
        decreases self,
    {
        match self {
            Terminal::True => TerminalView::True,
            Terminal::False => TerminalView::False,
            Terminal::PkK(pk) => TerminalView::PkK(*pk),
            Terminal::PkH(h) => TerminalView::PkH(*h),
            Terminal::After(n) => TerminalView::After(*n),
            Terminal::Older(n) => TerminalView::Older(*n),
            Terminal::Sha256(h) => TerminalView::Sha256(*h),
            Terminal::Hash256(h) => TerminalView::Hash256(*h),
            Terminal::Ripemd160(h) => TerminalView::Ripemd160(*h),
            Terminal::Hash160(h) => TerminalView::Hash160(*h),
            Terminal::Version(n) => TerminalView::Version(*n),
            Terminal::OutputsPref(p) => TerminalView::OutputsPref(p@),
            Terminal::Alt(x) => TerminalView::Alt(Box::new(x.view())),
            Terminal::Swap(x) => TerminalView::Swap(Box::new(x.view())),
            Terminal::Check(x) => TerminalView::Check(Box::new(x.view())),
            Terminal::DupIf(x) => TerminalView::DupIf(Box::new(x.view())),
            Terminal::Verify(x) => TerminalView::Verify(Box::new(x.view())),
            Terminal::NonZero(x) => TerminalView::NonZero(Box::new(x.view())),
            Terminal::ZeroNotEqual(x) => TerminalView::ZeroNotEqual(Box::new(x.view())),
            Terminal::AndV(a, b) => TerminalView::AndV(Box::new(a.view()), Box::new(b.view())),
            Terminal::AndB(a, b) => TerminalView::AndB(Box::new(a.view()), Box::new(b.view())),
            Terminal::AndOr(a, b, c) => TerminalView::AndOr(
                Box::new(a.view()),
                Box::new(b.view()),
                Box::new(c.view()),
            ),
            Terminal::OrB(a, b) => TerminalView::OrB(Box::new(a.view()), Box::new(b.view())),
            Terminal::OrD(a, b) => TerminalView::OrD(Box::new(a.view()), Box::new(b.view())),
            Terminal::OrC(a, b) => TerminalView::OrC(Box::new(a.view()), Box::new(b.view())),
            Terminal::OrI(a, b) => TerminalView::OrI(Box::new(a.view()), Box::new(b.view())),
            Terminal::Thresh(k, subs) => TerminalView::Thresh(*k, Self::views(subs@, subs@.len())),
            Terminal::Multi(k, keys) => TerminalView::Multi(*k, keys@),
            Terminal::MultiA(k, keys) => TerminalView::MultiA(*k, keys@),
            Terminal::Ext(e) => TerminalView::Ext(*e),
        }
    }

    /// The first `n` of the trees `subs` as mathematical values.
    pub open spec fn views(subs: Seq<Arc<Miniscript<Pk, Ctx, Ext>>>, n: nat) -> Seq<
        MiniscriptView<Pk, Ext>,
    >
        decreases subs, n,
    {
        if n == 0 || n > subs.len() {
            Seq::empty()
        } else {
            Self::views(subs, (n - 1) as nat).push(subs[n - 1].view())
        }
    }

    /// The views of trees are as many as the trees, and each is the view of its tree.
    pub proof fn lemma_views(subs: Seq<Arc<Miniscript<Pk, Ctx, Ext>>>, n: nat)
        requires
            n <= subs.len(),
        ensures
            Self::views(subs, n).len() == n,
            forall|i: int| 0 <= i < n ==> (#[trigger] Self::views(subs, n)[i]) == subs[i]@,
        decreases n,
    {
        if n > 0 {
            Self::lemma_views(subs, (n - 1) as nat);
        }
    }

    /// Number of children of the fragment.
    pub fn arity(&self) -> (r: usize)
        ensures
            r == self@.children().len(),
    {
        proof {
            if let Terminal::Thresh(_, subs) = self {
                Self::lemma_views(subs@, subs@.len());
            }
        }
        match self {
            Terminal::Alt(_)
            | Terminal::Swap(_)
            | Terminal::Check(_)
            | Terminal::DupIf(_)
            | Terminal::Verify(_)
            | Terminal::NonZero(_)
            | Terminal::ZeroNotEqual(_) => 1,
            Terminal::AndV(_, _)
            | Terminal::AndB(_, _)
            | Terminal::OrB(_, _)
            | Terminal::OrD(_, _)
            | Terminal::OrC(_, _)
            | Terminal::OrI(_, _) => 2,
            Terminal::AndOr(_, _, _) => 3,
            Terminal::Thresh(_, subs) => subs.len(),
            _ => 0,
        }
    }

    /// The child at position `i`, counted from the left.
    pub fn child(&self, i: usize) -> (r: &Miniscript<Pk, Ctx, Ext>)
        requires
            i < self@.children().len(),
        ensures
            r@ == self@.children()[i as int],
    {
        proof {
            if let Terminal::Thresh(_, subs) = self {
                Self::lemma_views(subs@, subs@.len());
            }
        }
        match self {
            Terminal::Alt(x)
            | Terminal::Swap(x)
            | Terminal::Check(x)
            | Terminal::DupIf(x)
            | Terminal::Verify(x)
            | Terminal::NonZero(x)
            | Terminal::ZeroNotEqual(x) => &**x,
            Terminal::AndV(a, b)
            | Terminal::AndB(a, b)
            | Terminal::OrB(a, b)
            | Terminal::OrD(a, b)
            | Terminal::OrC(a, b)
            | Terminal::OrI(a, b) => if i == 0 {
                &**a
            } else {
                &**b
            },
            Terminal::AndOr(a, b, c) => if i == 0 {
                &**a
            } else if i == 1 {
                &**b
            } else {
                &**c
            },
            Terminal::Thresh(_, subs) => &*subs[i],
            _ => {
                proof {
                    assert(false);
                }
                vstd::pervasive::unreached()
            },
        }
    }
}

impl<Pk, Ext> TerminalView<Pk, Ext> {
    /// The children of the fragment, from left to right.
    pub open spec fn children(self) -> Seq<MiniscriptView<Pk, Ext>> {
        match self {
            TerminalView::Alt(x)
            | TerminalView::Swap(x)
            | TerminalView::Check(x)
            | TerminalView::DupIf(x)
            | TerminalView::Verify(x)
            | TerminalView::NonZero(x)
            | TerminalView::ZeroNotEqual(x) => seq![*x],
            TerminalView::AndV(a, b)
            | TerminalView::AndB(a, b)
            | TerminalView::OrB(a, b)
            | TerminalView::OrD(a, b)
            | TerminalView::OrC(a, b)
            | TerminalView::OrI(a, b) => seq![*a, *b],
            TerminalView::AndOr(a, b, c) => seq![*a, *b, *c],
            TerminalView::Thresh(_, subs) => subs,
            _ => Seq::empty(),
        }
    }

    /// The types of the children, from left to right.
    pub open spec fn child_types(self) -> Seq<Type> {
        Seq::new(self.children().len(), |i: int| self.children()[i].ty)
    }

    /// The cost annotations of the children, from left to right.
    pub open spec fn child_exts(self) -> Seq<ExtData> {
        Seq::new(self.children().len(), |i: int| self.children()[i].ext)
    }
}

/// The tokens that push the keys of a key list, in order.
pub open spec fn key_tokens(keys: Seq<PublicKey>) -> Seq<TokenView> {
    Seq::new(keys.len(), |i: int| TokenView::Pubkey(keys[i]))
}

impl<Ext: Extension<PublicKey>> MiniscriptView<PublicKey, Ext> {
    /// The tokens that encode the tree, in script order. A `VERIFY` that the
    /// script merges into the opcode before it stands here as a token of its own.
    #[verifier::opaque]
    pub open spec fn script_tokens(self) -> Seq<TokenView>
        decreases self, 0int,
    {
        match self.node {
            TerminalView::True => seq![TokenView::Num(1)],
            TerminalView::False => seq![TokenView::Num(0)],
            TerminalView::PkK(pk) => seq![TokenView::Pubkey(pk)],
            TerminalView::PkH(h) => seq![
                TokenView::Dup,
                TokenView::Hash160,
                TokenView::Hash20(h),
                TokenView::Equal,
                TokenView::Verify,
            ],
            TerminalView::After(n) => seq![TokenView::Num(n), TokenView::CheckLockTimeVerify],
            TerminalView::Older(n) => seq![TokenView::Num(n), TokenView::CheckSequenceVerify],
            TerminalView::Sha256(h) => seq![
                TokenView::Size,
                TokenView::Num(32),
                TokenView::Equal,
                TokenView::Verify,
                TokenView::Sha256,
                TokenView::Hash32(h),
                TokenView::Equal,
            ],
            TerminalView::Hash256(h) => seq![
                TokenView::Size,
                TokenView::Num(32),
                TokenView::Equal,
                TokenView::Verify,
                TokenView::Hash256,
                TokenView::Hash32(h),
                TokenView::Equal,
            ],
            TerminalView::Ripemd160(h) => seq![
                TokenView::Size,
                TokenView::Num(32),
                TokenView::Equal,
                TokenView::Verify,
                TokenView::Ripemd160,
                TokenView::Hash20(h),
                TokenView::Equal,
            ],
            TerminalView::Hash160(h) => seq![
                TokenView::Size,
                TokenView::Num(32),
                TokenView::Equal,
                TokenView::Verify,
                TokenView::Hash160,
                TokenView::Hash20(h),
                TokenView::Equal,
            ],
            TerminalView::Version(n) => seq![
                TokenView::Depth,
                TokenView::Num(12),
                TokenView::Sub,
                TokenView::PickPush4(n),
                TokenView::Equal,
            ],
            TerminalView::OutputsPref(p) => seq![
                TokenView::Cat,
                TokenView::Cat,
                TokenView::Cat,
                TokenView::Cat,
                TokenView::Cat,
                TokenView::Cat,
                TokenView::Push(p),
                TokenView::Swap,
                TokenView::Cat,
                TokenView::Hash256,
                TokenView::Depth,
                TokenView::Num(4),
                TokenView::Sub,
                TokenView::Pick,
                TokenView::Equal,
            ],
            TerminalView::Alt(x) => seq![TokenView::ToAltStack] + x.script_tokens()
                + seq![TokenView::FromAltStack],
            TerminalView::Swap(x) => seq![TokenView::Swap] + x.script_tokens(),
            TerminalView::Check(x) => x.script_tokens() + seq![TokenView::CheckSig],
            TerminalView::DupIf(x) => seq![TokenView::Dup, TokenView::If] + x.script_tokens()
                + seq![TokenView::EndIf],
            TerminalView::Verify(x) => x.script_tokens() + seq![TokenView::Verify],
            TerminalView::NonZero(x) => seq![TokenView::Size, TokenView::ZeroNotEqual, TokenView::If]
                + x.script_tokens() + seq![TokenView::EndIf],
            TerminalView::ZeroNotEqual(x) => x.script_tokens() + seq![TokenView::ZeroNotEqual],
            TerminalView::AndV(a, b) => a.script_tokens() + b.script_tokens(),
            TerminalView::AndB(a, b) => a.script_tokens() + b.script_tokens()
                + seq![TokenView::BoolAnd],
            TerminalView::AndOr(a, b, c) => a.script_tokens() + seq![TokenView::NotIf]
                + c.script_tokens() + seq![TokenView::Else] + b.script_tokens()
                + seq![TokenView::EndIf],
            TerminalView::OrB(a, b) => a.script_tokens() + b.script_tokens()
                + seq![TokenView::BoolOr],
            TerminalView::OrD(a, b) => a.script_tokens() + seq![TokenView::IfDup, TokenView::NotIf]
                + b.script_tokens() + seq![TokenView::EndIf],
            TerminalView::OrC(a, b) => a.script_tokens() + seq![TokenView::NotIf]
                + b.script_tokens() + seq![TokenView::EndIf],
            TerminalView::OrI(a, b) => seq![TokenView::If] + a.script_tokens() + seq![TokenView::Else]
                + b.script_tokens() + seq![TokenView::EndIf],
            TerminalView::Thresh(k, subs) => Self::thresh_tokens(subs, subs.len() as int)
                + seq![TokenView::Num(k as u32), TokenView::Equal],
            TerminalView::Multi(k, keys) => seq![TokenView::Num(k as u32)] + key_tokens(keys)
                + seq![TokenView::Num(keys.len() as u32), TokenView::CheckMultiSig],
            TerminalView::MultiA(k, keys) => Seq::new(
                2 * keys.len(),
                |i: int|
                    if i % 2 == 0 {
                        TokenView::Pubkey(keys[i / 2])
                    } else if i == 1 {
                        TokenView::CheckSig
                    } else {
                        TokenView::CheckSigAdd
                    },
            ) + seq![TokenView::Num(k as u32), TokenView::NumEqual],
            TerminalView::Ext(e) => e.script_tokens(),
        }
    }

    /// The tokens of the first `n` children of a threshold: the first child,
    /// then each further child followed by `ADD`.
    #[verifier::opaque]
    pub open spec fn thresh_tokens(subs: Seq<Self>, n: int) -> Seq<TokenView>
        decreases subs, n,
    {
        if n <= 0 || n > subs.len() {
            Seq::empty()
        } else if n == 1 {
            subs[0].script_tokens()
        } else {
            Self::thresh_tokens(subs, n - 1) + subs[n - 1].script_tokens() + seq![TokenView::Add]
        }
    }
}

} // verus!
