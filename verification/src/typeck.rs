//! Type inference: the type and the cost annotations of a fragment from its
//! own shape and from those of its children.

use vstd::prelude::*;
use crate::context::ScriptContext;
use crate::context::SigType;
use crate::extension::Extension;
use crate::extra_props::Costs;
use crate::extra_props::ExtData;
use crate::miniscript::Terminal;
use crate::miniscript::TerminalView;
use crate::types::Correctness;
use crate::types::ErrorKind;
use crate::types::Malleability;
use crate::types::Type;

verus! {

/// A type from its two parts, where the correctness part may be an error.
pub open spec fn typed(corr: Result<Correctness, ErrorKind>, mall: Malleability) -> Result<
    Type,
    ErrorKind,
> {
    match corr {
        Ok(c) => Ok(Type { corr: c, mall }),
        Err(e) => Err(e),
    }
}

/// Whether a timelock is zero or has the disable bit set.
pub open spec fn invalid_time(t: u32) -> bool {
    t == 0 || t >= 0x8000_0000
}

/// What is wrong with a threshold of `k` over `n`, if anything.
pub open spec fn threshold_fault(k: usize, n: nat) -> Option<ErrorKind> {
    if k == 0 {
        Some(ErrorKind::ZeroThreshold)
    } else if k > n {
        Some(ErrorKind::OverThreshold(k, n as usize))
    } else {
        None
    }
}

/// What a child lookup answers for the child at position `i`: the value
/// that it returns, or the child's own where it returns none.
pub open spec fn answers<T, C: Fn(usize) -> Option<T>>(child: C, i: int, own: T, got: T) -> bool {
    exists|o: Option<T>|
        call_ensures(child, (i as usize,), o) && got == #[trigger] resolve(o, own)
}

/// The value that a lookup answers with, given what it returned.
pub open spec fn resolve<T>(o: Option<T>, own: T) -> T {
    match o {
        Some(t) => t,
        None => own,
    }
}

/// Whether `got` holds an answer of the lookup for each child.
pub open spec fn looked_up<T, C: Fn(usize) -> Option<T>>(child: C, own: Seq<T>, got: Seq<T>) -> bool {
    got.len() == own.len() && forall|i: int|
        0 <= i < own.len() ==> answers(child, i, own[i], #[trigger] got[i])
}

/// Whether a lookup never returns a value, so that every child answers for itself.
pub open spec fn never_overrides<T, C: Fn(usize) -> Option<T>>(child: C) -> bool {
    forall|n: usize, o: Option<T>| call_ensures(child, (n,), o) ==> o is None
}

impl Type {
    /// The type of a fragment whose children have the types `tys`.
    pub open spec fn infer<Pk, Ext: Extension<Pk>>(
        node: TerminalView<Pk, Ext>,
        tys: Seq<Type>,
    ) -> Result<Type, ErrorKind> {
        match node {
            TerminalView::Alt(_)
            | TerminalView::Swap(_)
            | TerminalView::Check(_)
            | TerminalView::DupIf(_)
            | TerminalView::Verify(_)
            | TerminalView::NonZero(_)
            | TerminalView::ZeroNotEqual(_) => Self::infer_wrapper(node, tys[0]),
            TerminalView::AndV(_, _)
            | TerminalView::AndB(_, _)
            | TerminalView::OrB(_, _)
            | TerminalView::OrD(_, _)
            | TerminalView::OrC(_, _)
            | TerminalView::OrI(_, _) => Self::infer_pair(node, tys[0], tys[1]),
            TerminalView::AndOr(_, _, _) => typed(
                Correctness::and_or_spec(tys[0].corr, tys[1].corr, tys[2].corr),
                Malleability::and_or_spec(tys[0].mall, tys[1].mall, tys[2].mall),
            ),
            TerminalView::Thresh(k, _) => match threshold_fault(k, tys.len()) {
                Some(e) => Err(e),
                None => Type::threshold_spec(k, tys),
            },
            _ => Self::infer_leaf(node),
        }
    }

    /// The type of a fragment without children.
    pub open spec fn infer_leaf<Pk, Ext: Extension<Pk>>(node: TerminalView<Pk, Ext>) -> Result<
        Type,
        ErrorKind,
    > {
        match node {
            TerminalView::True => Ok(
                Type { corr: Correctness::from_true_spec(), mall: Malleability::from_true_spec() },
            ),
            TerminalView::False => Ok(
                Type {
                    corr: Correctness::from_false_spec(),
                    mall: Malleability::from_false_spec(),
                },
            ),
            TerminalView::PkK(_) => Ok(
                Type {
                    corr: Correctness::from_pk_k_spec(),
                    mall: Malleability::from_signed_spec(),
                },
            ),
            TerminalView::PkH(_) => Ok(
                Type {
                    corr: Correctness::from_pk_h_spec(),
                    mall: Malleability::from_signed_spec(),
                },
            ),
            TerminalView::After(t) | TerminalView::Older(t) => if invalid_time(t) {
                Err(ErrorKind::InvalidTime)
            } else {
                Ok(
                    Type {
                        corr: Correctness::from_time_spec(),
                        mall: Malleability::from_time_spec(),
                    },
                )
            },
            TerminalView::Version(_) => Ok(
                Type {
                    corr: Correctness::from_item_eq_spec(),
                    mall: Malleability::from_public_spec(),
                },
            ),
            TerminalView::OutputsPref(_) => Ok(
                Type {
                    corr: Correctness::from_item_pref_spec(),
                    mall: Malleability::from_public_spec(),
                },
            ),
            TerminalView::Multi(k, keys) => match threshold_fault(k, keys.len()) {
                Some(e) => Err(e),
                None => Ok(
                    Type {
                        corr: Correctness::from_multi_spec(),
                        mall: Malleability::from_signed_spec(),
                    },
                ),
            },
            TerminalView::MultiA(k, keys) => match threshold_fault(k, keys.len()) {
                Some(e) => Err(e),
                None => Ok(
                    Type {
                        corr: Correctness::from_multi_a_spec(),
                        mall: Malleability::from_signed_spec(),
                    },
                ),
            },
            TerminalView::Ext(e) => Ok(Type { corr: e.corr(), mall: e.mall() }),
            _ => Ok(
                Type {
                    corr: Correctness::from_hash_spec(),
                    mall: Malleability::from_public_spec(),
                },
            ),
        }
    }

    /// The type of a wrapper around a child of the type `t`.
    pub open spec fn infer_wrapper<Pk, Ext>(node: TerminalView<Pk, Ext>, t: Type) -> Result<
        Type,
        ErrorKind,
    > {
        match node {
            TerminalView::Alt(_) => typed(t.corr.cast_alt_spec(), t.mall),
            TerminalView::Swap(_) => typed(t.corr.cast_swap_spec(), t.mall),
            TerminalView::Check(_) => typed(t.corr.cast_check_spec(), t.mall),
            TerminalView::DupIf(_) => typed(t.corr.cast_dupif_spec(), t.mall.cast_guarded_spec()),
            TerminalView::Verify(_) => typed(t.corr.cast_verify_spec(), t.mall.cast_verify_spec()),
            TerminalView::NonZero(_) => typed(
                t.corr.cast_nonzero_spec(),
                t.mall.cast_guarded_spec(),
            ),
            _ => typed(t.corr.cast_zeronotequal_spec(), t.mall),
        }
    }

    /// The type of a combinator over children of the types `l` and `r`.
    pub open spec fn infer_pair<Pk, Ext>(node: TerminalView<Pk, Ext>, l: Type, r: Type) -> Result<
        Type,
        ErrorKind,
    > {
        match node {
            TerminalView::AndV(_, _) => typed(
                Correctness::and_v_spec(l.corr, r.corr),
                Malleability::and_v_spec(l.mall, r.mall),
            ),
            TerminalView::AndB(_, _) => typed(
                Correctness::and_b_spec(l.corr, r.corr),
                Malleability::and_b_spec(l.mall, r.mall),
            ),
            TerminalView::OrB(_, _) => typed(
                Correctness::or_b_spec(l.corr, r.corr),
                Malleability::or_b_spec(l.mall, r.mall),
            ),
            TerminalView::OrD(_, _) => typed(
                Correctness::or_d_spec(l.corr, r.corr),
                Malleability::or_d_spec(l.mall, r.mall),
            ),
            TerminalView::OrC(_, _) => typed(
                Correctness::or_c_spec(l.corr, r.corr),
                Malleability::or_c_spec(l.mall, r.mall),
            ),
            _ => typed(
                Correctness::or_i_spec(l.corr, r.corr),
                Malleability::or_i_spec(l.mall, r.mall),
            ),
        }
    }

    /// The type of `fragment`, where `child` may give the type to take for
    /// a child in place of the type that the child carries.
    pub fn type_check<Pk, Ctx, Ext: Extension<Pk>, C: Fn(usize) -> Option<Type>>(
        fragment: &Terminal<Pk, Ctx, Ext>,
        child: C,
    ) -> (r: Result<Type, ErrorKind>)
        requires
            forall|n: usize| call_requires(child, (n,)),
        ensures
            exists|tys: Seq<Type>|
                looked_up(child, fragment@.child_types(), tys) && r == Type::infer(fragment@, tys),
            never_overrides(child) ==> r == Type::infer(fragment@, fragment@.child_types()),
    {
        let n = fragment.arity();
        let mut tys: Vec<Type> = Vec::new();
        let mut i: usize = 0;
        while i < n
            invariant
                i <= n,
                n == fragment@.children().len(),
                tys@.len() == i,
                forall|n: usize| call_requires(child, (n,)),
                forall|j: int|
                    0 <= j < i ==> answers(
                        child,
                        j,
                        fragment@.child_types()[j],
                        #[trigger] tys@[j],
                    ),
            decreases n - i,
        {
            let own = fragment.child(i).ty;
            let o = child(i);
            let t = match o {
                Some(t) => t,
                None => own,
            };
            proof {
                assert(t == resolve(o, own));
            }
            tys.push(t);
            i += 1;
        }
        proof {
            assert(looked_up(child, fragment@.child_types(), tys@));
            if never_overrides(child) {
                assert(tys@ =~= fragment@.child_types());
            }
        }
        Self::infer_from(fragment, &tys)
    }

    /// The type of `fragment` from the types `tys` of its children.
    #[verifier::rlimit(40)]
    pub fn infer_from<Pk, Ctx, Ext: Extension<Pk>>(
        fragment: &Terminal<Pk, Ctx, Ext>,
        tys: &Vec<Type>,
    ) -> (r: Result<Type, ErrorKind>)
        requires
            tys@.len() == fragment@.children().len(),
        ensures
            r == Type::infer(fragment@, tys@),
    {
        match fragment {
            Terminal::Alt(_)
            | Terminal::Swap(_)
            | Terminal::Check(_)
            | Terminal::DupIf(_)
            | Terminal::Verify(_)
            | Terminal::NonZero(_)
            | Terminal::ZeroNotEqual(_) => Self::wrapper(fragment, tys[0]),
            Terminal::AndV(_, _)
            | Terminal::AndB(_, _)
            | Terminal::OrB(_, _)
            | Terminal::OrD(_, _)
            | Terminal::OrC(_, _)
            | Terminal::OrI(_, _) => Self::pair(fragment, tys[0], tys[1]),
            Terminal::AndOr(_, _, _) => Ok(
                Type {
                    corr: Correctness::and_or(tys[0].corr, tys[1].corr, tys[2].corr)?,
                    mall: Malleability::and_or(tys[0].mall, tys[1].mall, tys[2].mall),
                },
            ),
            Terminal::Thresh(k, _) => {
                if *k == 0 {
                    return Err(ErrorKind::ZeroThreshold);
                }
                if *k > tys.len() {
                    return Err(ErrorKind::OverThreshold(*k, tys.len()));
                }
                Type::threshold(*k, tys)
            },
            _ => Self::leaf(fragment),
        }
    }

    /// The property of a fragment without children.
    #[verifier::rlimit(40)]
    fn leaf<Pk, Ctx, Ext: Extension<Pk>>(fragment: &Terminal<Pk, Ctx, Ext>) -> (r: Result<
        Type,
        ErrorKind,
    >)
        requires
            fragment@.children().len() == 0,
            !(fragment@ is Thresh),
        ensures
            r == Type::infer_leaf(fragment@),
    {
        match fragment {
            Terminal::True => Ok(
                Type { corr: Correctness::from_true(), mall: Malleability::from_true() },
            ),
            Terminal::False => Ok(
                Type { corr: Correctness::from_false(), mall: Malleability::from_false() },
            ),
            Terminal::PkK(_) => Ok(
                Type { corr: Correctness::from_pk_k(), mall: Malleability::from_signed() },
            ),
            Terminal::PkH(_) => Ok(
                Type { corr: Correctness::from_pk_h(), mall: Malleability::from_signed() },
            ),
            Terminal::After(t) | Terminal::Older(t) => {
                if *t == 0 || *t >= 0x8000_0000 {
                    Err(ErrorKind::InvalidTime)
                } else {
                    Ok(Type { corr: Correctness::from_time(), mall: Malleability::from_time() })
                }
            },
            Terminal::Version(_) => Ok(
                Type { corr: Correctness::from_item_eq(), mall: Malleability::from_public() },
            ),
            Terminal::OutputsPref(_) => Ok(
                Type { corr: Correctness::from_item_pref(), mall: Malleability::from_public() },
            ),
            Terminal::Multi(k, keys) => {
                if *k == 0 {
                    return Err(ErrorKind::ZeroThreshold);
                }
                if *k > keys.len() {
                    return Err(ErrorKind::OverThreshold(*k, keys.len()));
                }
                Ok(Type { corr: Correctness::from_multi(), mall: Malleability::from_signed() })
            },
            Terminal::MultiA(k, keys) => {
                if *k == 0 {
                    return Err(ErrorKind::ZeroThreshold);
                }
                if *k > keys.len() {
                    return Err(ErrorKind::OverThreshold(*k, keys.len()));
                }
                Ok(Type { corr: Correctness::from_multi_a(), mall: Malleability::from_signed() })
            },
            Terminal::Ext(e) => Ok(Type { corr: e.corr_prop(), mall: e.mall_prop() }),
            _ => Ok(Type { corr: Correctness::from_hash(), mall: Malleability::from_public() }),
        }
    }

    /// The property of a fragment with one child, from the child's property.
    #[verifier::rlimit(40)]
    fn wrapper<Pk, Ctx, Ext>(fragment: &Terminal<Pk, Ctx, Ext>, t: Type) -> (r: Result<
        Type,
        ErrorKind,
    >)
        requires
            fragment@.children().len() == 1,
            !(fragment@ is Thresh),
        ensures
            r == Type::infer_wrapper(fragment@, t),
    {
        match fragment {
            Terminal::Alt(_) => Ok(Type { corr: t.corr.cast_alt()?, mall: t.mall }),
            Terminal::Swap(_) => Ok(Type { corr: t.corr.cast_swap()?, mall: t.mall }),
            Terminal::Check(_) => Ok(Type { corr: t.corr.cast_check()?, mall: t.mall }),
            Terminal::DupIf(_) => Ok(
                Type { corr: t.corr.cast_dupif()?, mall: t.mall.cast_guarded() },
            ),
            Terminal::Verify(_) => Ok(
                Type { corr: t.corr.cast_verify()?, mall: t.mall.cast_verify() },
            ),
            Terminal::NonZero(_) => Ok(
                Type { corr: t.corr.cast_nonzero()?, mall: t.mall.cast_guarded() },
            ),
            _ => Ok(Type { corr: t.corr.cast_zeronotequal()?, mall: t.mall }),
        }
    }

    /// The property of a fragment with two children, from the children's properties.
    #[verifier::rlimit(40)]
    fn pair<Pk, Ctx, Ext>(fragment: &Terminal<Pk, Ctx, Ext>, l: Type, r: Type) -> (res: Result<
        Type,
        ErrorKind,
    >)
        requires
            fragment@.children().len() == 2,
            !(fragment@ is Thresh),
        ensures
            res == Type::infer_pair(fragment@, l, r),
    {
        match fragment {
            Terminal::AndV(_, _) => Ok(
                Type {
                    corr: Correctness::and_v(l.corr, r.corr)?,
                    mall: Malleability::and_v(l.mall, r.mall),
                },
            ),
            Terminal::AndB(_, _) => Ok(
                Type {
                    corr: Correctness::and_b(l.corr, r.corr)?,
                    mall: Malleability::and_b(l.mall, r.mall),
                },
            ),
            Terminal::OrB(_, _) => Ok(
                Type {
                    corr: Correctness::or_b(l.corr, r.corr)?,
                    mall: Malleability::or_b(l.mall, r.mall),
                },
            ),
            Terminal::OrD(_, _) => Ok(
                Type {
                    corr: Correctness::or_d(l.corr, r.corr)?,
                    mall: Malleability::or_d(l.mall, r.mall),
                },
            ),
            Terminal::OrC(_, _) => Ok(
                Type {
                    corr: Correctness::or_c(l.corr, r.corr)?,
                    mall: Malleability::or_c(l.mall, r.mall),
                },
            ),
            _ => Ok(
                Type {
                    corr: Correctness::or_i(l.corr, r.corr)?,
                    mall: Malleability::or_i(l.mall, r.mall),
                },
            ),
        }
    }
}

impl ExtData {
    /// The cost annotations of a fragment whose children have the
    /// annotations `exts`, under the signature scheme `sig`.
    pub open spec fn infer<Pk, Ext: Extension<Pk>>(
        sig: SigType,
        node: TerminalView<Pk, Ext>,
        exts: Seq<ExtData>,
    ) -> Result<ExtData, ErrorKind> {
        match node {
            TerminalView::Alt(_)
            | TerminalView::Swap(_)
            | TerminalView::Check(_)
            | TerminalView::DupIf(_)
            | TerminalView::Verify(_)
            | TerminalView::NonZero(_)
            | TerminalView::ZeroNotEqual(_) => Self::infer_wrapper(node, exts[0]),
            TerminalView::AndV(_, _)
            | TerminalView::AndB(_, _)
            | TerminalView::OrB(_, _)
            | TerminalView::OrD(_, _)
            | TerminalView::OrC(_, _)
            | TerminalView::OrI(_, _) => Self::infer_pair(node, exts[0], exts[1]),
            TerminalView::AndOr(_, _, _) => Costs::and_or(exts[0]@, exts[1]@, exts[2]@).checked(),
            TerminalView::Thresh(k, _) => match threshold_fault(k, exts.len()) {
                Some(e) => Err(e),
                None => Costs::threshold(k, exts).checked(),
            },
            _ => Self::infer_leaf(sig, node),
        }
    }

    /// The cost annotations of a fragment without children.
    pub open spec fn infer_leaf<Pk, Ext: Extension<Pk>>(
        sig: SigType,
        node: TerminalView<Pk, Ext>,
    ) -> Result<ExtData, ErrorKind> {
        match node {
            TerminalView::True => Costs::from_true().checked(),
            TerminalView::False => Costs::from_false().checked(),
            TerminalView::PkK(_) => Costs::from_pk_k(sig).checked(),
            TerminalView::PkH(_) => Costs::from_pk_h(sig).checked(),
            TerminalView::After(t) | TerminalView::Older(t) => if invalid_time(t) {
                Err(ErrorKind::InvalidTime)
            } else {
                Costs::from_time(t).checked()
            },
            TerminalView::Sha256(_) | TerminalView::Hash256(_) => Costs::from_hash(32).checked(),
            TerminalView::Version(_) => Costs::from_version().checked(),
            TerminalView::OutputsPref(p) => Costs::from_outputs_pref(p.len() as int).checked(),
            TerminalView::Multi(k, keys) => match threshold_fault(k, keys.len()) {
                Some(e) => Err(e),
                None => Costs::from_multi(k, keys.len() as usize).checked(),
            },
            TerminalView::MultiA(k, keys) => match threshold_fault(k, keys.len()) {
                Some(e) => Err(e),
                None => Costs::from_multi_a(k, keys.len() as usize).checked(),
            },
            TerminalView::Ext(e) => Ok(e.extra()),
            _ => Costs::from_hash(20).checked(),
        }
    }

    /// The cost annotations of a wrapper around a child with the annotations `e`.
    pub open spec fn infer_wrapper<Pk, Ext>(node: TerminalView<Pk, Ext>, e: ExtData) -> Result<
        ExtData,
        ErrorKind,
    > {
        match node {
            TerminalView::Alt(_) => e@.cast_alt().checked(),
            TerminalView::Swap(_) => e@.cast_swap().checked(),
            TerminalView::Check(_) => e@.cast_check().checked(),
            TerminalView::DupIf(_) => e@.cast_dupif().checked(),
            TerminalView::Verify(_) => e@.cast_verify().checked(),
            TerminalView::NonZero(_) => e@.cast_nonzero().checked(),
            _ => e@.cast_zeronotequal().checked(),
        }
    }

    /// The cost annotations of a combinator over children with the
    /// annotations `l` and `r`.
    pub open spec fn infer_pair<Pk, Ext>(
        node: TerminalView<Pk, Ext>,
        l: ExtData,
        r: ExtData,
    ) -> Result<ExtData, ErrorKind> {
        match node {
            TerminalView::AndV(_, _) => Costs::and_v(l@, r@).checked(),
            TerminalView::AndB(_, _) => Costs::and_b(l@, r@).checked(),
            TerminalView::OrB(_, _) => Costs::or_b(l@, r@).checked(),
            TerminalView::OrD(_, _) => Costs::or_d(l@, r@).checked(),
            TerminalView::OrC(_, _) => Costs::or_c(l@, r@).checked(),
            _ => Costs::or_i(l@, r@).checked(),
        }
    }

    /// The cost annotations of `fragment` in the context `Ctx`, where `child`
    /// may give the annotations to take for a child in place of those that
    /// the child carries.
    pub fn type_check<Pk, Ctx: ScriptContext, Ext: Extension<Pk>, C: Fn(usize) -> Option<ExtData>>(
        fragment: &Terminal<Pk, Ctx, Ext>,
        child: C,
    ) -> (r: Result<ExtData, ErrorKind>)
        requires
            forall|n: usize| call_requires(child, (n,)),
        ensures
            exists|exts: Seq<ExtData>|
                looked_up(child, fragment@.child_exts(), exts) && r == ExtData::infer(
                    Ctx::kind().sig_type(),
                    fragment@,
                    exts,
                ),
            never_overrides(child) ==> r == ExtData::infer(
                Ctx::kind().sig_type(),
                fragment@,
                fragment@.child_exts(),
            ),
    {
        let n = fragment.arity();
        let mut exts: Vec<ExtData> = Vec::new();
        let mut i: usize = 0;
        while i < n
            invariant
                i <= n,
                n == fragment@.children().len(),
                exts@.len() == i,
                forall|n: usize| call_requires(child, (n,)),
                forall|j: int|
                    0 <= j < i ==> answers(
                        child,
                        j,
                        fragment@.child_exts()[j],
                        #[trigger] exts@[j],
                    ),
            decreases n - i,
        {
            let own = fragment.child(i).ext;
            let o = child(i);
            let e = match o {
                Some(e) => e,
                None => own,
            };
            proof {
                assert(e == resolve(o, own));
            }
            exts.push(e);
            i += 1;
        }
        proof {
            assert(looked_up(child, fragment@.child_exts(), exts@));
            if never_overrides(child) {
                assert(exts@ =~= fragment@.child_exts());
            }
        }
        Self::infer_from(Ctx::sig_type(), fragment, &exts)
    }

    /// The cost annotations of `fragment` from the annotations `exts` of its
    /// children, under the signature scheme `sig`.
    #[verifier::rlimit(40)]
    pub fn infer_from<Pk, Ctx, Ext: Extension<Pk>>(
        sig: SigType,
        fragment: &Terminal<Pk, Ctx, Ext>,
        exts: &Vec<ExtData>,
    ) -> (r: Result<ExtData, ErrorKind>)
        requires
            exts@.len() == fragment@.children().len(),
        ensures
            r == ExtData::infer(sig, fragment@, exts@),
    {
        match fragment {
            Terminal::Alt(_)
            | Terminal::Swap(_)
            | Terminal::Check(_)
            | Terminal::DupIf(_)
            | Terminal::Verify(_)
            | Terminal::NonZero(_)
            | Terminal::ZeroNotEqual(_) => Self::wrapper(fragment, exts[0]),
            Terminal::AndV(_, _)
            | Terminal::AndB(_, _)
            | Terminal::OrB(_, _)
            | Terminal::OrD(_, _)
            | Terminal::OrC(_, _)
            | Terminal::OrI(_, _) => Self::pair(fragment, exts[0], exts[1]),
            Terminal::AndOr(_, _, _) => ExtData::and_or(exts[0], exts[1], exts[2]),
            Terminal::Thresh(k, _) => {
                if *k == 0 {
                    return Err(ErrorKind::ZeroThreshold);
                }
                if *k > exts.len() {
                    return Err(ErrorKind::OverThreshold(*k, exts.len()));
                }
                ExtData::threshold(*k, exts)
            },
            _ => Self::leaf(sig, fragment),
        }
    }

    /// The property of a fragment without children.
    #[verifier::rlimit(40)]
    fn leaf<Pk, Ctx, Ext: Extension<Pk>>(sig: SigType, fragment: &Terminal<Pk, Ctx, Ext>) -> (r:
        Result<ExtData, ErrorKind>)
        requires
            fragment@.children().len() == 0,
            !(fragment@ is Thresh),
        ensures
            r == ExtData::infer_leaf(sig, fragment@),
    {
        match fragment {
            Terminal::True => Ok(Self::whole(ExtData::from_true())),
            Terminal::False => Ok(Self::whole(ExtData::from_false())),
            Terminal::PkK(_) => Ok(Self::whole(ExtData::from_pk_k(sig))),
            Terminal::PkH(_) => Ok(Self::whole(ExtData::from_pk_h(sig))),
            Terminal::After(t) | Terminal::Older(t) => {
                if *t == 0 || *t >= 0x8000_0000 {
                    Err(ErrorKind::InvalidTime)
                } else {
                    Ok(Self::whole(ExtData::from_time(*t)))
                }
            },
            Terminal::Sha256(_) | Terminal::Hash256(_) => Ok(Self::whole(ExtData::from_hash(32))),
            Terminal::Version(_) => Ok(Self::whole(ExtData::from_version())),
            Terminal::OutputsPref(p) => ExtData::from_outputs_pref(p.len()),
            Terminal::Multi(k, keys) => {
                if *k == 0 {
                    return Err(ErrorKind::ZeroThreshold);
                }
                if *k > keys.len() {
                    return Err(ErrorKind::OverThreshold(*k, keys.len()));
                }
                ExtData::from_multi(*k, keys.len())
            },
            Terminal::MultiA(k, keys) => {
                if *k == 0 {
                    return Err(ErrorKind::ZeroThreshold);
                }
                if *k > keys.len() {
                    return Err(ErrorKind::OverThreshold(*k, keys.len()));
                }
                ExtData::from_multi_a(*k, keys.len())
            },
            Terminal::Ext(e) => Ok(e.extra_prop()),
            _ => Ok(Self::whole(ExtData::from_hash(20))),
        }
    }

    /// The property of a fragment with one child, from the child's property.
    #[verifier::rlimit(40)]
    fn wrapper<Pk, Ctx, Ext>(fragment: &Terminal<Pk, Ctx, Ext>, e: ExtData) -> (r: Result<
        ExtData,
        ErrorKind,
    >)
        requires
            fragment@.children().len() == 1,
            !(fragment@ is Thresh),
        ensures
            r == ExtData::infer_wrapper(fragment@, e),
    {
        match fragment {
            Terminal::Alt(_) => e.cast_alt(),
            Terminal::Swap(_) => e.cast_swap(),
            Terminal::Check(_) => e.cast_check(),
            Terminal::DupIf(_) => e.cast_dupif(),
            Terminal::Verify(_) => e.cast_verify(),
            Terminal::NonZero(_) => e.cast_nonzero(),
            _ => e.cast_zeronotequal(),
        }
    }

    /// The property of a fragment with two children, from the children's properties.
    #[verifier::rlimit(40)]
    fn pair<Pk, Ctx, Ext>(fragment: &Terminal<Pk, Ctx, Ext>, l: ExtData, r: ExtData) -> (res:
        Result<ExtData, ErrorKind>)
        requires
            fragment@.children().len() == 2,
            !(fragment@ is Thresh),
        ensures
            res == ExtData::infer_pair(fragment@, l, r),
    {
        match fragment {
            Terminal::AndV(_, _) => ExtData::and_v(l, r),
            Terminal::AndB(_, _) => ExtData::and_b(l, r),
            Terminal::OrB(_, _) => ExtData::or_b(l, r),
            Terminal::OrD(_, _) => ExtData::or_d(l, r),
            Terminal::OrC(_, _) => ExtData::or_c(l, r),
            _ => ExtData::or_i(l, r),
        }
    }

    /// Annotations that fit the machine word, which are all, as they are.
    fn whole(e: ExtData) -> (r: ExtData)
        ensures
            r == e,
            e@.checked() == Ok::<ExtData, ErrorKind>(e),
    {
        proof {
            e.lemma_view_checked();
        }
        e
    }
}

} // verus!
