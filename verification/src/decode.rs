//! The decoder: from a stream of script tokens to a typed tree.

use vstd::prelude::*;
use crate::context::ScriptContext;
use crate::error::Error;
use crate::error::ErrorView;
use crate::extension::Extension;
use crate::extra_props::ExtData;
use crate::key::MiniscriptKey;
use crate::key::PublicKey;
use crate::lex::Token;
use crate::lex::TokenIter;
use crate::lex::TokenView;
use crate::lex::views;
use crate::machine;
use crate::machine::Machine;
use crate::machine::Shift;
use crate::machine::Step;
use crate::miniscript::Miniscript;
use crate::miniscript::MiniscriptView;
use crate::miniscript::Terminal;
use crate::miniscript::TerminalView;
use crate::types::ErrorKind;
use crate::types::Type;
use std::marker::PhantomData;
use std::sync::Arc;

verus! {

/// What the decoder still expects to read, or to build from what it has read.
#[derive(Copy, Clone, Debug, PartialEq, Eq, Structural)]
pub enum NonTerm {
    /// One expression.
    Expression,
    /// A `SWAP` before the expression just read, or nothing.
    MaybeSwap,
    /// An expression before the one just read, in sequence with it, or nothing.
    MaybeAndV,
    /// The `TOALTSTACK` that opens an alt-stack wrapper.
    Alt,
    /// The wrapper of `CHECKSIG` around the expression just read.
    Check,
    /// The wrapper of `DUP IF .. ENDIF` around it.
    DupIf,
    /// The wrapper of `VERIFY` around it.
    Verify,
    /// The wrapper of `SIZE 0NOTEQUAL IF .. ENDIF` around it.
    NonZero,
    /// The wrapper of `0NOTEQUAL` around it.
    ZeroNotEqual,
    /// The sequence of the two expressions just read.
    AndV,
    /// Their `BOOLAND`.
    AndB,
    /// The `andor` of the three expressions just read.
    Tern,
    /// The `BOOLOR` of the two expressions just read.
    OrB,
    /// Their `or_d`.
    OrD,
    /// Their `or_c`.
    OrC,
    /// A threshold of `k` of which `n` children are read and more may come.
    ThreshW { k: usize, n: usize },
    /// A threshold of `k` over `n` children of which the first is being read.
    ThreshE { k: usize, n: usize },
    /// What opened the branch that an `ENDIF` closed.
    EndIf,
    /// What precedes the `NOTIF` that opened it.
    EndIfNotIf,
    /// What opened the branch that an `ELSE` closed.
    EndIfElse,
}

/// The child lookup that leaves every child to answer for itself.
pub fn return_none<T>(_n: usize) -> (r: Option<T>)
    ensures
        r is None,
{
    None
}

/// The outcome of a step of decoding with the error as its view.
pub open spec fn failure<T>(r: Result<T, Error>) -> Option<ErrorView> {
    match r {
        Ok(_) => None,
        Err(e) => Some(e@),
    }
}

impl<Pk: MiniscriptKey, Ctx: ScriptContext, Ext: Extension<Pk>> Miniscript<Pk, Ctx, Ext> {
    /// The typed tree of a fragment whose children are typed trees: the
    /// type and the cost annotations are inferred from those of the
    /// children. The context is not asked for its rules.
    pub fn from_ast(node: Terminal<Pk, Ctx, Ext>) -> (r: Result<Miniscript<Pk, Ctx, Ext>, Error>)
        ensures
            match machine::reduce(Ctx::kind(), node@, false) {
                Ok(tree) => r matches Ok(ms) && ms@ == tree,
                Err(e) => failure(r) == Some(e),
            },
    {
        reveal(machine::reduce);
        let ty = match Type::type_check(&node, return_none::<Type>) {
            Ok(ty) => ty,
            Err(e) => {
                return Err(Error::TypeCheck(e));
            },
        };
        let ext = match ExtData::type_check(&node, return_none::<ExtData>) {
            Ok(ext) => ext,
            Err(e) => {
                return Err(Error::TypeCheck(e));
            },
        };
        Ok(Miniscript { node, ty, ext, phantom: PhantomData })
    }
}

/// What a reduction that fails leaves of the stack: the trees below the
/// `n` that it took, or the whole stack where it held fewer than `n`.
pub open spec fn below<A>(stack: Seq<A>, n: int) -> Seq<A> {
    if stack.len() < n {
        stack
    } else {
        stack.subrange(0, stack.len() - n)
    }
}

/// The stack of finished trees.
#[derive(Debug)]
struct TerminalStack<Pk, Ctx, Ext>(Vec<Miniscript<Pk, Ctx, Ext>>);

impl<Pk: MiniscriptKey, Ctx: ScriptContext, Ext: Extension<Pk>> TerminalStack<Pk, Ctx, Ext> {
    /// The trees on the stack, the last one on top.
    spec fn view(&self) -> Seq<MiniscriptView<Pk, Ext>> {
        Seq::new(self.0@.len(), |i: int| self.0@[i]@)
    }

    /// Takes the tree on top, if there is one.
    fn pop(&mut self) -> (r: Option<Miniscript<Pk, Ctx, Ext>>)
        ensures
            old(self)@.len() == 0 ==> r is None && final(self)@ == old(self)@,
            old(self)@.len() > 0 ==> (r matches Some(t) && t@ == old(self)@.last()
                && final(self)@ == old(self)@.drop_last()),
    {
        let r = self.0.pop();
        proof {
            if old(self)@.len() > 0 {
                assert(self@ =~= old(self)@.drop_last());
            } else {
                assert(self@ =~= old(self)@);
            }
        }
        r
    }

    /// Number of trees on the stack.
    fn len(&self) -> (r: usize)
        ensures
            r == self@.len(),
    {
        self.0.len()
    }

    /// Types the fragment, asks the context for its global rules, and puts
    /// the tree on top. Where either refuses, the stack stays as it was.
    fn reduce0(&mut self, ms: Terminal<Pk, Ctx, Ext>) -> (r: Result<(), Error>)
        ensures
            match machine::reduce0(Ctx::kind(), old(self)@, ms@) {
                Ok(term) => r is Ok && final(self)@ == term,
                Err(e) => failure(r) == Some(e) && final(self)@ == old(self)@,
            },
    {
        reveal(machine::reduce);
        let ms = Miniscript::from_ast(ms)?;
        match Ctx::check_global_validity(&ms) {
            Ok(()) => {},
            Err(e) => {
                return Err(Error::ContextError(e));
            },
        }
        let ghost tree = ms@;
        self.0.push(ms);
        proof {
            assert(self@ =~= old(self)@.push(tree));
        }
        Ok(())
    }

    /// Wraps the tree on top as `tag` says and puts the wrapper in its place.
    /// Where the wrapper is refused, the tree that was taken is gone and the
    /// trees below it are untouched.
    fn reduce1(&mut self, tag: NonTerm) -> (r: Result<(), Error>)
        ensures
            match machine::reduce1(Ctx::kind(), old(self)@, tag) {
                Ok(term) => r is Ok && final(self)@ == term,
                Err(e) => failure(r) == Some(e) && final(self)@ == below(old(self)@, 1),
            },
    {
        let top = match self.pop() {
            Some(top) => top,
            None => {
                return Err(Error::Inconsistent);
            },
        };
        let wrapped_ms = wrap_one(tag, Arc::new(top));
        self.reduce0(wrapped_ms)
    }

    /// Combines the two trees on top as `tag` says, the upper one as the
    /// left child, and puts the combinator in their place. Where the
    /// combinator is refused, the two trees are gone and the rest is untouched.
    fn reduce2(&mut self, tag: NonTerm) -> (r: Result<(), Error>)
        ensures
            match machine::reduce2(Ctx::kind(), old(self)@, tag) {
                Ok(term) => r is Ok && final(self)@ == term,
                Err(e) => failure(r) == Some(e) && final(self)@ == below(old(self)@, 2),
            },
    {
        if self.len() < 2 {
            return Err(Error::Inconsistent);
        }
        let left = match self.pop() {
            Some(t) => t,
            None => {
                return Err(Error::Inconsistent);
            },
        };
        let right = match self.pop() {
            Some(t) => t,
            None => {
                return Err(Error::Inconsistent);
            },
        };
        proof {
            assert(self@ =~= old(self)@.subrange(0, old(self)@.len() - 2));
        }
        let wrapped_ms = wrap_two(tag, Arc::new(left), Arc::new(right));
        self.reduce0(wrapped_ms)
    }

    /// Builds the `andor` of the three trees on top: the upper one is the
    /// condition, the lowest the branch that runs when it holds. Where the
    /// node is refused, the three trees are gone and the rest is untouched.
    #[verifier::rlimit(40)]
    fn reduce3(&mut self) -> (r: Result<(), Error>)
        ensures
            match machine::reduce3(Ctx::kind(), old(self)@) {
                Ok(term) => r is Ok && final(self)@ == term,
                Err(e) => failure(r) == Some(e) && final(self)@ == below(old(self)@, 3),
            },
    {
        if self.len() < 3 {
            return Err(Error::Inconsistent);
        }
        let a = match self.pop() {
            Some(t) => t,
            None => {
                return Err(Error::Inconsistent);
            },
        };
        let b = match self.pop() {
            Some(t) => t,
            None => {
                return Err(Error::Inconsistent);
            },
        };
        let c = match self.pop() {
            Some(t) => t,
            None => {
                return Err(Error::Inconsistent);
            },
        };
        let ghost before = old(self)@;
        let ghost n = before.len() as int;
        proof {
            assert(a@ == before[n - 1]);
            assert(b@ == before[n - 2]);
            assert(c@ == before[n - 3]);
            assert(self@ =~= before.subrange(0, n - 3));
        }
        let wrapped_ms = Terminal::AndOr(Arc::new(a), Arc::new(c), Arc::new(b));
        proof {
            assert(wrapped_ms@ == TerminalView::<Pk, Ext>::AndOr(
                Box::new(before[n - 1]),
                Box::new(before[n - 3]),
                Box::new(before[n - 2]),
            ));
        }
        self.reduce0(wrapped_ms)
    }

    /// Builds the threshold of `k` over the `n` trees on top, the upper one
    /// as the first child. Where the threshold is refused, the `n` trees are
    /// gone and the rest is untouched.
    #[verifier::rlimit(40)]
    fn reduce_thresh(&mut self, k: usize, n: usize) -> (r: Result<(), Error>)
        ensures
            match machine::reduce_thresh(Ctx::kind(), old(self)@, k, n) {
                Ok(term) => r is Ok && final(self)@ == term,
                Err(e) => failure(r) == Some(e) && final(self)@ == below(old(self)@, n as int),
            },
    {
        if self.len() < n {
            return Err(Error::Inconsistent);
        }
        let mut subs: Vec<Arc<Miniscript<Pk, Ctx, Ext>>> = Vec::with_capacity(n);
        let mut i: usize = 0;
        while i < n
            invariant
                i <= n,
                n <= old(self)@.len(),
                subs@.len() == i,
                self@ =~= old(self)@.subrange(0, old(self)@.len() - i),
                forall|j: int|
                    0 <= j < i ==> (#[trigger] subs@[j])@ == old(self)@[old(self)@.len() - 1 - j],
            decreases n - i,
        {
            match self.pop() {
                Some(t) => {
                    subs.push(Arc::new(t));
                },
                None => {
                    return Err(Error::Inconsistent);
                },
            }
            i += 1;
        }
        let ghost held = subs@;
        let node = Terminal::Thresh(k, subs);
        proof {
            assert(node@ == TerminalView::Thresh(
                k,
                machine::top_first(old(self)@, n as nat),
            )) by {
                let want = machine::top_first(old(self)@, n as nat);
                Terminal::lemma_views(held, held.len());
                match node@ {
                    TerminalView::Thresh(_, got) => {
                        assert(got =~= want);
                    },
                    _ => {},
                }
            }
        }
        self.reduce0(node)
    }
}

/// The wrapper that the expectation `tag` builds around `x`.
fn wrap_one<Pk, Ctx, Ext>(tag: NonTerm, x: Arc<Miniscript<Pk, Ctx, Ext>>) -> (r: Terminal<
    Pk,
    Ctx,
    Ext,
>)
    ensures
        r@ == machine::wrap1(tag, x@),
{
    match tag {
        NonTerm::Alt => Terminal::Alt(x),
        NonTerm::Check => Terminal::Check(x),
        NonTerm::DupIf => Terminal::DupIf(x),
        NonTerm::Verify => Terminal::Verify(x),
        NonTerm::NonZero => Terminal::NonZero(x),
        NonTerm::ZeroNotEqual => Terminal::ZeroNotEqual(x),
        _ => Terminal::Swap(x),
    }
}

/// The combinator that the expectation `tag` builds over `l` and `r`.
fn wrap_two<Pk, Ctx, Ext>(
    tag: NonTerm,
    l: Arc<Miniscript<Pk, Ctx, Ext>>,
    r: Arc<Miniscript<Pk, Ctx, Ext>>,
) -> (res: Terminal<Pk, Ctx, Ext>)
    ensures
        res@ == machine::wrap2(tag, l@, r@),
{
    match tag {
        NonTerm::AndV => Terminal::AndV(l, r),
        NonTerm::AndB => Terminal::AndB(l, r),
        NonTerm::OrB => Terminal::OrB(l, r),
        NonTerm::OrC => Terminal::OrC(l, r),
        NonTerm::OrD => Terminal::OrD(l, r),
        _ => Terminal::OrI(l, r),
    }
}

/// What reading one expression asks for: expectations to add, first to
/// last, and a leaf to reduce, if any.
struct Shifted<Ctx, Ext> {
    push: Vec<NonTerm>,
    leaf: Option<Terminal<PublicKey, Ctx, Ext>>,
}

impl<Ctx, Ext> Shifted<Ctx, Ext> {
    /// The shift that leaves the tokens `rest`.
    spec fn view(&self, rest: Seq<TokenView>) -> Shift<Ext> {
        Shift {
            rest,
            push: self.push@,
            leaf: match self.leaf {
                Some(node) => Some(node@),
                None => None,
            },
        }
    }
}

/// Whether `r`, with the tokens `rest` left, is the outcome `want`.
spec fn shifts<Ctx, Ext>(
    r: Result<Shifted<Ctx, Ext>, Error>,
    rest: Seq<TokenView>,
    want: Result<Shift<Ext>, ErrorView>,
) -> bool {
    match want {
        Ok(s) => r matches Ok(x) && x.view(rest) == s,
        Err(e) => failure(r) == Some(e),
    }
}

/// The shift that reduces the leaf `node`, below a `VERIFY` if `verify`.
fn leaf<Ctx, Ext>(node: Terminal<PublicKey, Ctx, Ext>, verify: bool) -> (r: Shifted<Ctx, Ext>)
    ensures
        forall|rest: Seq<TokenView>| #[trigger]
            r.view(rest) == machine::leaf_shift(rest, node@, verify),
{
    let mut push: Vec<NonTerm> = Vec::new();
    if verify {
        push.push(NonTerm::Verify);
    }
    proof {
        if verify {
            assert(push@ =~= seq![NonTerm::Verify]);
        } else {
            assert(push@ =~= Seq::<NonTerm>::empty());
        }
    }
    Shifted { push, leaf: Some(node) }
}

/// The shift that adds the expectations `push` and reduces nothing.
fn expectations<Ctx, Ext>(push: Vec<NonTerm>) -> (r: Shifted<Ctx, Ext>)
    ensures
        forall|rest: Seq<TokenView>| #[trigger]
            r.view(rest) == machine::push_shift::<Ext>(rest, push@),
{
    Shifted { push, leaf: None }
}

/// Takes the next token; the end of the stream is an error.
fn next_token(tokens: &mut TokenIter) -> (r: Result<Token, Error>)
    ensures
        old(tokens)@.len() == 0 ==> failure(r) == Some(ErrorView::UnexpectedStart),
        old(tokens)@.len() > 0 ==> (r matches Ok(tok) && tok@ == old(tokens)@.last()
            && final(tokens)@ == old(tokens)@.drop_last()),
{
    match tokens.next() {
        Some(tok) => Ok(tok),
        None => Err(Error::UnexpectedStart),
    }
}

/// Takes the tokens of `pat` from position `from` on off the stream, one
/// after the other.
fn expect(tokens: &mut TokenIter, pat: &Vec<Token>, from: usize) -> (r: Result<(), Error>)
    requires
        forall|i: int| 0 <= i < pat@.len() ==> (#[trigger] pat@[i])@.is_plain(),
    ensures
        match machine::expect(old(tokens)@, views(pat@), from as int) {
            Ok(rest) => r is Ok && final(tokens)@ == rest,
            Err(e) => failure(r) == Some(e),
        },
{
    let mut i: usize = from;
    while i < pat.len()
        invariant
            forall|j: int| 0 <= j < pat@.len() ==> (#[trigger] pat@[j])@.is_plain(),
            machine::expect(old(tokens)@, views(pat@), from as int) == machine::expect(
                tokens@,
                views(pat@),
                i as int,
            ),
        decreases pat@.len() - i,
    {
        let tok = next_token(tokens)?;
        if !tok.is(&pat[i]) {
            return Err(Error::Unexpected(tok));
        }
        i += 1;
    }
    Ok(())
}

/// The tokens that hold a hash preimage to 32 bytes, last token first.
fn size_check() -> (r: Vec<Token>)
    ensures
        views(r@) == machine::size_check(),
        forall|i: int| 0 <= i < r@.len() ==> (#[trigger] r@[i])@.is_plain(),
{
    let r = vec![Token::Verify, Token::Equal, Token::Num(32), Token::Size];
    proof {
        assert(views(r@) =~= machine::size_check());
    }
    r
}

/// The tokens that open a version prefix check, last token first.
fn version_head() -> (r: Vec<Token>)
    ensures
        views(r@) == machine::version_head(),
        forall|i: int| 0 <= i < r@.len() ==> (#[trigger] r@[i])@.is_plain(),
{
    let r = vec![Token::Sub, Token::Num(12), Token::Depth];
    proof {
        assert(views(r@) =~= machine::version_head());
    }
    r
}

/// The tokens that open an outputs prefix check, last token first.
fn outputs_head() -> (r: Vec<Token>)
    ensures
        views(r@) == machine::outputs_head(),
        forall|i: int| 0 <= i < r@.len() ==> (#[trigger] r@[i])@.is_plain(),
{
    let r = vec![
        Token::Sub,
        Token::Num(4),
        Token::Depth,
        Token::Hash256,
        Token::Cat,
        Token::Swap,
    ];
    proof {
        assert(views(r@) =~= machine::outputs_head());
    }
    r
}

/// The six `CAT`s that close an outputs prefix check.
fn outputs_tail() -> (r: Vec<Token>)
    ensures
        views(r@) == machine::outputs_tail(),
        forall|i: int| 0 <= i < r@.len() ==> (#[trigger] r@[i])@.is_plain(),
{
    let r = vec![Token::Cat, Token::Cat, Token::Cat, Token::Cat, Token::Cat, Token::Cat];
    proof {
        assert(views(r@) =~= machine::outputs_tail());
    }
    r
}

/// After `<hash> EQUAL` over 20 bytes.
fn shift_hash20<Ctx, Ext>(tokens: &mut TokenIter, hash: [u8; 20], verify: bool) -> (r: Result<
    Shifted<Ctx, Ext>,
    Error,
>)
    ensures
        shifts(r, final(tokens)@, machine::shift_hash20::<Ext>(old(tokens)@, hash, verify)),
{
    match next_token(tokens)? {
        Token::Hash160 => {
            if verify {
                match next_token(tokens)? {
                    Token::Dup => Ok(leaf(Terminal::PkH(hash), false)),
                    Token::Verify => {
                        expect(tokens, &size_check(), 1)?;
                        Ok(leaf(Terminal::Hash160(hash), true))
                    },
                    other => Err(Error::Unexpected(other)),
                }
            } else {
                expect(tokens, &size_check(), 0)?;
                Ok(leaf(Terminal::Hash160(hash), false))
            }
        },
        Token::Ripemd160 => {
            expect(tokens, &size_check(), 0)?;
            Ok(leaf(Terminal::Ripemd160(hash), verify))
        },
        other => Err(Error::Unexpected(other)),
    }
}

/// After `<hash> EQUAL` over 32 bytes.
fn shift_hash32<Ctx, Ext>(tokens: &mut TokenIter, hash: [u8; 32], verify: bool) -> (r: Result<
    Shifted<Ctx, Ext>,
    Error,
>)
    ensures
        shifts(r, final(tokens)@, machine::shift_hash32::<Ext>(old(tokens)@, hash, verify)),
{
    match next_token(tokens)? {
        Token::Sha256 => {
            expect(tokens, &size_check(), 0)?;
            Ok(leaf(Terminal::Sha256(hash), verify))
        },
        Token::Hash256 => {
            expect(tokens, &size_check(), 0)?;
            Ok(leaf(Terminal::Hash256(hash), verify))
        },
        other => Err(Error::Unexpected(other)),
    }
}

/// After `PICK EQUAL`.
fn shift_outputs<Ctx, Ext>(tokens: &mut TokenIter, verify: bool) -> (r: Result<
    Shifted<Ctx, Ext>,
    Error,
>)
    ensures
        shifts(r, final(tokens)@, machine::shift_outputs::<Ext>(old(tokens)@, verify)),
{
    expect(tokens, &outputs_head(), 0)?;
    match next_token(tokens)? {
        Token::Push(bytes) => {
            expect(tokens, &outputs_tail(), 0)?;
            Ok(leaf(Terminal::OutputsPref(bytes), verify))
        },
        other => Err(Error::Unexpected(other)),
    }
}

/// After `EQUAL`, or after `EQUALVERIFY` if `verify`.
fn shift_equal<Ctx, Ext>(tokens: &mut TokenIter, verify: bool) -> (r: Result<
    Shifted<Ctx, Ext>,
    Error,
>)
    ensures
        shifts(r, final(tokens)@, machine::shift_equal::<Ext>(old(tokens)@, verify)),
{
    reveal(machine::shift_equal);
    match next_token(tokens)? {
        Token::Hash20(hash) => shift_hash20(tokens, hash, verify),
        Token::Hash32(hash) => shift_hash32(tokens, hash, verify),
        Token::PickPush4(ver) => {
            expect(tokens, &version_head(), 0)?;
            Ok(leaf(Terminal::Version(ver), verify))
        },
        Token::Pick => shift_outputs(tokens, verify),
        Token::Num(k) => {
            let mut push: Vec<NonTerm> = Vec::new();
            if verify {
                push.push(NonTerm::Verify);
            }
            // No expression is expected here: the threshold looks for an
            // `ADD` or for its first child by itself.
            push.push(NonTerm::ThreshW { k: k as usize, n: 0 });
            proof {
                if verify {
                    assert(push@ =~= seq![
                        NonTerm::Verify,
                        NonTerm::ThreshW { k: k as usize, n: 0 },
                    ]);
                } else {
                    assert(push@ =~= seq![NonTerm::ThreshW { k: k as usize, n: 0 }]);
                }
            }
            Ok(expectations(push))
        },
        other => Err(Error::Unexpected(other)),
    }
}

/// Takes `n` keys off the stream and gives them in script order.
fn take_keys(tokens: &mut TokenIter, n: u32) -> (r: Result<Vec<PublicKey>, Error>)
    ensures
        match machine::take_keys(old(tokens)@, n as nat) {
            Ok((keys, rest)) => r matches Ok(v) && v@ == keys && final(tokens)@ == rest,
            Err(e) => failure(r) == Some(e),
        },
{
    let mut keys: Vec<PublicKey> = Vec::with_capacity(n as usize);
    let mut i: u32 = 0;
    while i < n
        invariant
            i <= n,
            keys@.len() == i,
            machine::take_keys(old(tokens)@, n as nat) == (match machine::take_keys(
                tokens@,
                (n - i) as nat,
            ) {
                Ok((front, rest)) => Ok((front + keys@, rest)),
                Err(e) => Err(e),
            }),
        decreases n - i,
    {
        let ghost had = keys@;
        match next_token(tokens)? {
            Token::Pubkey(pk) => {
                keys.insert(0, pk);
                proof {
                    match machine::take_keys(tokens@, (n - i - 1) as nat) {
                        Ok((front, rest)) => {
                            assert(front.push(pk) + had =~= front + keys@);
                        },
                        Err(_) => {},
                    }
                }
            },
            other => {
                return Err(Error::Unexpected(other));
            },
        }
        i += 1;
    }
    proof {
        assert(Seq::<PublicKey>::empty() + keys@ =~= keys@);
    }
    Ok(keys)
}

/// After `CHECKMULTISIG`.
fn shift_multi<Ctx, Ext>(tokens: &mut TokenIter) -> (r: Result<Shifted<Ctx, Ext>, Error>)
    ensures
        shifts(r, final(tokens)@, machine::shift_multi::<Ext>(old(tokens)@)),
{
    match next_token(tokens)? {
        Token::Num(n) => {
            if n > 20 {
                return Err(Error::CmsTooManyKeys(n));
            }
            let keys = take_keys(tokens, n)?;
            match next_token(tokens)? {
                Token::Num(k) => Ok(leaf(Terminal::Multi(k as usize, keys), false)),
                other => Err(Error::Unexpected(other)),
            }
        },
        other => Err(Error::Unexpected(other)),
    }
}

/// After a timelock opcode.
fn shift_time<Ctx, Ext>(tokens: &mut TokenIter, relative: bool) -> (r: Result<
    Shifted<Ctx, Ext>,
    Error,
>)
    ensures
        shifts(r, final(tokens)@, machine::shift_time::<Ext>(old(tokens)@, relative)),
{
    match next_token(tokens)? {
        Token::Num(n) => Ok(
            leaf(
                if relative {
                    Terminal::Older(n)
                } else {
                    Terminal::After(n)
                },
                false,
            ),
        ),
        other => Err(Error::Unexpected(other)),
    }
}

/// A work list of two entries.
fn two(a: NonTerm, b: NonTerm) -> (r: Vec<NonTerm>)
    ensures
        r@ == seq![a, b],
{
    let r = vec![a, b];
    proof {
        assert(r@ =~= seq![a, b]);
    }
    r
}

/// A work list of four entries.
fn four(a: NonTerm, b: NonTerm, c: NonTerm, d: NonTerm) -> (r: Vec<NonTerm>)
    ensures
        r@ == seq![a, b, c, d],
{
    let r = vec![a, b, c, d];
    proof {
        assert(r@ =~= seq![a, b, c, d]);
    }
    r
}

/// Reads one expression off the stream.
#[verifier::rlimit(40)]
fn shift_expression<Ctx, Ext>(tokens: &mut TokenIter) -> (r: Result<Shifted<Ctx, Ext>, Error>)
    ensures
        shifts(r, final(tokens)@, machine::shift_expression::<Ext>(old(tokens)@)),
{
    reveal(machine::shift_expression);
    match next_token(tokens)? {
        Token::Pubkey(pk) => Ok(leaf(Terminal::PkK(pk), false)),
        Token::CheckSig => Ok(expectations(two(NonTerm::Check, NonTerm::Expression))),
        Token::Verify => match next_token(tokens)? {
            Token::Equal => shift_equal(tokens, true),
            x => {
                tokens.un_next(x);
                proof {
                    assert(tokens@ =~= old(tokens)@.drop_last());
                }
                Ok(expectations(two(NonTerm::Verify, NonTerm::Expression)))
            },
        },
        Token::ZeroNotEqual => Ok(
            expectations(two(NonTerm::ZeroNotEqual, NonTerm::Expression)),
        ),
        Token::CheckSequenceVerify => shift_time(tokens, true),
        Token::CheckLockTimeVerify => shift_time(tokens, false),
        Token::Equal => shift_equal(tokens, false),
        Token::FromAltStack => Ok(
            expectations(
                four(
                    NonTerm::Alt,
                    NonTerm::MaybeAndV,
                    NonTerm::MaybeSwap,
                    NonTerm::Expression,
                ),
            ),
        ),
        Token::Num(n) => {
            if n == 0 {
                Ok(leaf(Terminal::False, false))
            } else if n == 1 {
                Ok(leaf(Terminal::True, false))
            } else {
                Err(Error::Unexpected(Token::Num(n)))
            }
        },
        Token::EndIf => Ok(
            expectations(
                four(
                    NonTerm::EndIf,
                    NonTerm::MaybeAndV,
                    NonTerm::MaybeSwap,
                    NonTerm::Expression,
                ),
            ),
        ),
        Token::BoolAnd => Ok(
            expectations(
                four(
                    NonTerm::AndB,
                    NonTerm::Expression,
                    NonTerm::MaybeSwap,
                    NonTerm::Expression,
                ),
            ),
        ),
        Token::BoolOr => Ok(
            expectations(
                four(
                    NonTerm::OrB,
                    NonTerm::Expression,
                    NonTerm::MaybeSwap,
                    NonTerm::Expression,
                ),
            ),
        ),
        Token::CheckMultiSig => shift_multi(tokens),
        other => Err(Error::Unexpected(other)),
    }
}

/// Whether the next token continues a sequence of `and_v`.
fn is_and_v(tokens: &TokenIter) -> (r: bool)
    ensures
        r == machine::and_v_follows(tokens@),
{
    match tokens.peek() {
        None => false,
        Some(tok) => match tok {
            Token::If | Token::NotIf | Token::Else | Token::ToAltStack => false,
            _ => true,
        },
    }
}

/// Whether the next token is a `SWAP`.
fn swap_follows(tokens: &TokenIter) -> (r: bool)
    ensures
        r == (tokens@.len() > 0 && tokens@.last() is Swap),
{
    match tokens.peek() {
        None => false,
        Some(tok) => match tok {
            Token::Swap => true,
            _ => false,
        },
    }
}

/// The state of the decoder as the stacks hold it.
spec fn state<Ctx: ScriptContext, Ext: Extension<PublicKey>>(
    tokens: Seq<TokenView>,
    non_term: Seq<NonTerm>,
    term: &TerminalStack<PublicKey, Ctx, Ext>,
) -> Machine<Ext> {
    Machine { tokens, non_term, term: term@ }
}

/// Whether a step that ended in `r` and left the state `now` is the step `want`.
spec fn steps<Ext>(r: Result<bool, Error>, now: Machine<Ext>, was: Machine<Ext>, want: Step<Ext>) -> bool {
    match want {
        Step::Next(m) => r == Ok::<bool, Error>(true) && now == m,
        Step::Done => r == Ok::<bool, Error>(false) && now == was,
        Step::Fail(e) => failure(r) == Some(e),
    }
}

/// Meets the expectation of one expression.
fn step_expression<Ctx: ScriptContext, Ext: Extension<PublicKey>>(
    tokens: &mut TokenIter,
    non_term: &mut Vec<NonTerm>,
    term: &mut TerminalStack<PublicKey, Ctx, Ext>,
) -> (r: Result<bool, Error>)
    ensures
        steps(
            r,
            state(final(tokens)@, final(non_term)@, final(term)),
            state(old(tokens)@, old(non_term)@, old(term)),
            machine::step_expression(Ctx::kind(), old(tokens)@, old(non_term)@, old(term)@),
        ),
{
    let shifted = shift_expression::<Ctx, Ext>(tokens)?;
    let Shifted { mut push, leaf } = shifted;
    non_term.append(&mut push);
    match leaf {
        Some(node) => {
            term.reduce0(node)?;
        },
        None => {},
    }
    Ok(true)
}

/// Meets the expectation of a threshold that has read `n` children so far.
fn step_thresh<Ctx: ScriptContext, Ext: Extension<PublicKey>>(
    tokens: &mut TokenIter,
    non_term: &mut Vec<NonTerm>,
    term: &TerminalStack<PublicKey, Ctx, Ext>,
    k: usize,
    n: usize,
) -> (r: Result<bool, Error>)
    ensures
        steps(
            r,
            state(final(tokens)@, final(non_term)@, term),
            state(old(tokens)@, old(non_term)@, term),
            machine::step_thresh(old(tokens)@, old(non_term)@, term@, k, n),
        ),
{
    let tok = next_token(tokens)?;
    if n == usize::MAX {
        return Err(Error::TypeCheck(ErrorKind::CostOverflow));
    }
    match tok {
        Token::Add => {
            non_term.push(NonTerm::ThreshW { n: n + 1, k });
        },
        x => {
            tokens.un_next(x);
            proof {
                assert(tokens@ =~= old(tokens)@);
            }
            non_term.push(NonTerm::ThreshE { n: n + 1, k });
        },
    }
    non_term.push(NonTerm::MaybeSwap);
    non_term.push(NonTerm::Expression);
    proof {
        assert(non_term@ =~= old(non_term)@ + seq![
            old(non_term)@.push(non_term@[old(non_term)@.len() as int]).last(),
            NonTerm::MaybeSwap,
            NonTerm::Expression,
        ]);
    }
    Ok(true)
}

/// Meets the expectation that `ENDIF` left.
fn step_end_if<Ctx: ScriptContext, Ext: Extension<PublicKey>>(
    tokens: &mut TokenIter,
    non_term: &mut Vec<NonTerm>,
    term: &TerminalStack<PublicKey, Ctx, Ext>,
) -> (r: Result<bool, Error>)
    ensures
        steps(
            r,
            state(final(tokens)@, final(non_term)@, term),
            state(old(tokens)@, old(non_term)@, term),
            machine::step_end_if(old(tokens)@, old(non_term)@, term@),
        ),
{
    match next_token(tokens)? {
        Token::Else => {
            non_term.push(NonTerm::EndIfElse);
            non_term.push(NonTerm::MaybeAndV);
            non_term.push(NonTerm::MaybeSwap);
            non_term.push(NonTerm::Expression);
            proof {
                assert(non_term@ =~= old(non_term)@ + seq![
                    NonTerm::EndIfElse,
                    NonTerm::MaybeAndV,
                    NonTerm::MaybeSwap,
                    NonTerm::Expression,
                ]);
            }
        },
        Token::If => match next_token(tokens)? {
            Token::Dup => {
                non_term.push(NonTerm::DupIf);
            },
            Token::ZeroNotEqual => {
                let size = vec![Token::Size];
                proof {
                    assert(views(size@) =~= seq![TokenView::Size]);
                }
                expect(tokens, &size, 0)?;
                non_term.push(NonTerm::NonZero);
            },
            other => {
                return Err(Error::Unexpected(other));
            },
        },
        Token::NotIf => {
            non_term.push(NonTerm::EndIfNotIf);
        },
        other => {
            return Err(Error::Unexpected(other));
        },
    }
    Ok(true)
}

/// Makes one step: asks the extension wherever an expression is expected,
/// and otherwise meets the last expectation. Gives `false` when none is left.
#[verifier::rlimit(40)]
fn step<Ctx: ScriptContext, Ext: Extension<PublicKey>>(
    tokens: &mut TokenIter,
    non_term: &mut Vec<NonTerm>,
    term: &mut TerminalStack<PublicKey, Ctx, Ext>,
) -> (r: Result<bool, Error>)
    ensures
        steps(
            r,
            state(final(tokens)@, final(non_term)@, final(term)),
            state(old(tokens)@, old(non_term)@, old(term)),
            machine::step(Ctx::kind(), state(old(tokens)@, old(non_term)@, old(term))),
        ),
{
    let top = match non_term.pop() {
        Some(top) => top,
        None => {
            return Ok(false);
        },
    };
    let ghost rest = non_term@;
    proof {
        assert(rest =~= old(non_term)@.drop_last());
    }
    if let NonTerm::Expression = top {
        match Ext::from_token_iter(tokens) {
            Ok(ext) => {
                term.reduce0(Terminal::Ext(ext))?;
                return Ok(true);
            },
            Err(_) => {},
        }
    }
    match top {
        NonTerm::Expression => step_expression(tokens, non_term, term),
        NonTerm::MaybeAndV => {
            if is_and_v(tokens) {
                non_term.push(NonTerm::AndV);
                non_term.push(NonTerm::Expression);
                proof {
                    assert(non_term@ =~= rest + seq![NonTerm::AndV, NonTerm::Expression]);
                }
            }
            Ok(true)
        },
        NonTerm::MaybeSwap => {
            if swap_follows(tokens) {
                tokens.next();
                term.reduce1(NonTerm::MaybeSwap)?;
                non_term.push(NonTerm::MaybeSwap);
            }
            Ok(true)
        },
        NonTerm::Alt => {
            let open = vec![Token::ToAltStack];
            proof {
                assert(views(open@) =~= seq![TokenView::ToAltStack]);
            }
            expect(tokens, &open, 0)?;
            term.reduce1(NonTerm::Alt)?;
            Ok(true)
        },
        NonTerm::Check
        | NonTerm::DupIf
        | NonTerm::Verify
        | NonTerm::NonZero
        | NonTerm::ZeroNotEqual => {
            term.reduce1(top)?;
            Ok(true)
        },
        NonTerm::AndV => {
            if is_and_v(tokens) {
                non_term.push(NonTerm::AndV);
                non_term.push(NonTerm::MaybeAndV);
                proof {
                    assert(non_term@ =~= rest + seq![NonTerm::AndV, NonTerm::MaybeAndV]);
                }
            } else {
                term.reduce2(NonTerm::AndV)?;
            }
            Ok(true)
        },
        NonTerm::AndB | NonTerm::OrB | NonTerm::OrC | NonTerm::OrD => {
            term.reduce2(top)?;
            Ok(true)
        },
        NonTerm::Tern => {
            term.reduce3()?;
            Ok(true)
        },
        NonTerm::ThreshW { n, k } => step_thresh(tokens, non_term, term, k, n),
        NonTerm::ThreshE { n, k } => {
            term.reduce_thresh(k, n)?;
            Ok(true)
        },
        NonTerm::EndIf => step_end_if(tokens, non_term, term),
        NonTerm::EndIfNotIf => {
            match next_token(tokens)? {
                Token::IfDup => {
                    non_term.push(NonTerm::OrD);
                },
                x => {
                    tokens.un_next(x);
                    proof {
                        assert(tokens@ =~= old(tokens)@);
                    }
                    non_term.push(NonTerm::OrC);
                },
            }
            non_term.push(NonTerm::Expression);
            proof {
                assert(non_term@ =~= rest + seq![non_term@[rest.len() as int], NonTerm::Expression]);
            }
            Ok(true)
        },
        NonTerm::EndIfElse => {
            match next_token(tokens)? {
                Token::If => {
                    term.reduce2(NonTerm::EndIfElse)?;
                },
                Token::NotIf => {
                    non_term.push(NonTerm::Tern);
                    non_term.push(NonTerm::Expression);
                    proof {
                        assert(non_term@ =~= rest + seq![NonTerm::Tern, NonTerm::Expression]);
                    }
                },
                other => {
                    return Err(Error::Unexpected(other));
                },
            }
            Ok(true)
        },
    }
}

/// Decodes the fragment that the tokens at the end of the stream encode.
///
/// The decoder keeps its own two stacks, of expectations and of finished
/// trees, so that its depth is bounded by the length of the stream and not
/// by the nesting of the script. Each fragment is typed and held to the
/// global rules of the context when it is built, and the root is held to
/// the rules on a root. Tokens that stand before the fragment are left in
/// the stream: the tokens that were read are exactly those that encode the
/// tree.
#[verifier::rlimit(40)]
pub fn parse<Ctx: ScriptContext, Ext: Extension<PublicKey>>(tokens: &mut TokenIter) -> (r: Result<
    Miniscript<PublicKey, Ctx, Ext>,
    Error,
>)
    ensures
        match machine::decode::<Ext>(Ctx::kind(), old(tokens)@).0 {
            Ok(tree) => r matches Ok(ms) && ms@ == tree && final(tokens)@ == machine::decode::<Ext>(
                Ctx::kind(),
                old(tokens)@,
            ).1,
            Err(e) => failure(r) == Some(e),
        },
        r matches Ok(ms) ==> old(tokens)@ == final(tokens)@ + ms@.script_tokens(),
        r matches Ok(ms) ==> ms@.ty.corr.base is B && Ctx::kind().top_level(ms@) is Ok,
        r matches Ok(ms) ==> crate::typing::well_typed(Ctx::kind(), ms@),
        !(r matches Err(Error::Inconsistent)),
{
    proof {
        crate::sound::lemma_decode_sound::<Ext>(Ctx::kind(), tokens@);
        crate::typing::lemma_decode_typed::<Ext>(Ctx::kind(), tokens@);
    }
    let mut non_term: Vec<NonTerm> = Vec::with_capacity(tokens.len());
    let mut term: TerminalStack<PublicKey, Ctx, Ext> = TerminalStack(
        Vec::with_capacity(tokens.len()),
    );

    non_term.push(NonTerm::MaybeAndV);
    non_term.push(NonTerm::MaybeSwap);
    non_term.push(NonTerm::Expression);
    proof {
        assert(non_term@ =~= machine::start::<Ext>(tokens@).non_term);
        assert(term@ =~= machine::start::<Ext>(tokens@).term);
    }
    loop
        invariant
            machine::run(Ctx::kind(), state(tokens@, non_term@, &term)) == machine::run(
                Ctx::kind(),
                machine::start::<Ext>(old(tokens)@),
            ),
            machine::decode::<Ext>(Ctx::kind(), old(tokens)@).0 matches Err(e) ==> !(
            e is Inconsistent),
        ensures
            machine::run(Ctx::kind(), state(tokens@, non_term@, &term)) == machine::run(
                Ctx::kind(),
                machine::start::<Ext>(old(tokens)@),
            ),
            machine::step(Ctx::kind(), state(tokens@, non_term@, &term)) is Done,
        decreases tokens@.len(), machine::potential(non_term@, machine::and_v_follows(tokens@)),
    {
        let ghost was = state(tokens@, non_term@, &term);
        proof {
            machine::lemma_step_decreases(Ctx::kind(), was);
        }
        let more = step(tokens, &mut non_term, &mut term)?;
        if !more {
            break ;
        }
    }
    if term.len() != 1 {
        return Err(Error::Inconsistent);
    }
    let top = match term.pop() {
        Some(top) => top,
        None => {
            return Err(Error::Inconsistent);
        },
    };
    Ctx::top_level_checks(&top)?;
    Ok(top)
}

} // verus!
