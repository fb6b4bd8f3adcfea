//! The correctness and malleability types of a fragment and the rules by
//! which a fragment's type follows from the types of its children.

use vstd::prelude::*;

verus! {

/// What a fragment leaves on the stack.
#[derive(Clone, Copy, Debug, PartialEq, Eq, Structural, PartialOrd, Ord, Hash)]
pub enum Base {
    /// Pushes a nonzero value on success and an exact zero on failure.
    B,
    /// Pushes a public key for which a signature is still to be checked.
    K,
    /// Pushes nothing; cannot fail without aborting.
    V,
    /// Like `B`, but reads its input from one below the top of the stack.
    W,
}

/// How many stack elements a fragment consumes, and whether the top one may be zero.
#[derive(Clone, Copy, Debug, PartialEq, Eq, Structural, PartialOrd, Ord, Hash)]
pub enum Input {
    /// Consumes nothing.
    Zero,
    /// Consumes exactly one element.
    One,
    /// Consumes any number of elements.
    Any,
    /// Consumes exactly one element, which is nonzero in every satisfaction.
    OneNonZero,
    /// Consumes any number of elements, the top one nonzero in every satisfaction.
    AnyNonZero,
}

/// Why a fragment has no type.
#[derive(Clone, Copy, Debug, PartialEq, Eq, Structural, PartialOrd, Ord, Hash)]
pub enum ErrorKind {
    /// A timelock of zero, or one with the disable bit set.
    InvalidTime,
    /// The argument of `d:` consumes stack elements.
    NonZeroDupIf,
    /// A threshold or multisig of zero.
    ZeroThreshold,
    /// A threshold `k` over `n < k` children.
    OverThreshold(usize, usize),
    /// The left child of a disjunction cannot be dissatisfied.
    LeftNotDissatisfiable,
    /// The right child of a disjunction cannot be dissatisfied.
    RightNotDissatisfiable,
    /// The argument of `s:` does not consume exactly one element.
    SwapNonOne,
    /// The argument of `j:` may take a zero on top of the stack.
    NonZeroZero,
    /// The left child of a disjunction may leave something other than one.
    LeftNotUnit,
    /// The only child has the wrong base type.
    ChildBase1(Base),
    /// The two children have a wrong pair of base types.
    ChildBase2(Base, Base),
    /// The three children have a wrong triple of base types.
    ChildBase3(Base, Base, Base),
    /// The child of a threshold at the given position has the wrong base type.
    ThresholdBase(usize, Base),
    /// The child of a threshold at the given position cannot be dissatisfied.
    ThresholdDissat(usize),
    /// The child of a threshold at the given position may leave something other than one.
    ThresholdNonUnit(usize),
    /// A cost of the fragment does not fit the machine word.
    CostOverflow,
}

/// The correctness type: it decides which compositions are sound.
#[derive(Clone, Copy, Debug, PartialEq, Eq, Structural, PartialOrd, Ord, Hash)]
pub struct Correctness {
    /// The base type.
    pub base: Base,
    /// What the fragment consumes.
    pub input: Input,
    /// Whether a dissatisfaction always exists.
    pub dissatisfiable: bool,
    /// Whether a satisfaction leaves exactly one on the stack.
    pub unit: bool,
}

/// How a dissatisfaction of a fragment can be built.
#[derive(Clone, Copy, Debug, PartialEq, Eq, Structural, PartialOrd, Ord, Hash)]
pub enum Dissat {
    /// There is none.
    Absent,
    /// There is exactly one, and it needs no signature.
    Unique,
    /// There may be several, or one that needs a signature.
    Unknown,
}

/// The malleability type: it decides whether third parties can alter a witness.
#[derive(Clone, Copy, Debug, PartialEq, Eq, Structural, PartialOrd, Ord, Hash)]
pub struct Malleability {
    /// How the fragment can be dissatisfied.
    pub dissat: Dissat,
    /// Whether every satisfaction holds a signature.
    pub safe: bool,
    /// Whether some satisfaction exists that third parties cannot alter.
    pub non_malleable: bool,
}

/// The type of a fragment.
#[derive(Clone, Copy, Debug, PartialEq, Eq, Structural, PartialOrd, Ord, Hash)]
pub struct Type {
    /// Correctness part.
    pub corr: Correctness,
    /// Malleability part.
    pub mall: Malleability,
}

/// Input of a conjunction from the inputs of its children.
pub open spec fn and_input(l: Input, r: Input) -> Input {
    match (l, r) {
        (Input::Zero, Input::Zero) => Input::Zero,
        (Input::Zero, Input::One) | (Input::One, Input::Zero) => Input::One,
        (Input::Zero, Input::OneNonZero) | (Input::OneNonZero, Input::Zero) => Input::OneNonZero,
        (Input::OneNonZero, _) | (Input::AnyNonZero, _) | (Input::Zero, Input::AnyNonZero) =>
            Input::AnyNonZero,
        _ => Input::Any,
    }
}

/// Input of a disjunction that runs its right child only after the left one failed.
pub open spec fn cascade_input(l: Input, r: Input) -> Input {
    match (l, r) {
        (Input::Zero, Input::Zero) => Input::Zero,
        (Input::One, Input::Zero) | (Input::OneNonZero, Input::Zero) => Input::One,
        _ => Input::Any,
    }
}

/// Dissatisfaction of a fragment that an `IF` guards.
pub open spec fn guarded_dissat(d: Dissat) -> Dissat {
    if d is Absent {
        Dissat::Unique
    } else {
        Dissat::Unknown
    }
}

impl Correctness {
    /// `1`: a unit that consumes nothing and cannot be dissatisfied.
    pub open spec fn from_true_spec() -> Correctness {
        Correctness { base: Base::B, input: Input::Zero, dissatisfiable: false, unit: true }
    }

    /// `0`: consumes nothing and is dissatisfied by the empty witness.
    pub open spec fn from_false_spec() -> Correctness {
        Correctness { base: Base::B, input: Input::Zero, dissatisfiable: true, unit: true }
    }

    /// A bare key: leaves the key for a check against one nonzero element.
    pub open spec fn from_pk_k_spec() -> Correctness {
        Correctness { base: Base::K, input: Input::OneNonZero, dissatisfiable: true, unit: true }
    }

    /// A key given by its hash: the key is one more element of the witness.
    pub open spec fn from_pk_h_spec() -> Correctness {
        Correctness { base: Base::K, input: Input::AnyNonZero, dissatisfiable: true, unit: true }
    }

    /// `CHECKMULTISIG`: consumes the signatures and the dummy element under them.
    pub open spec fn from_multi_spec() -> Correctness {
        Correctness { base: Base::B, input: Input::AnyNonZero, dissatisfiable: true, unit: true }
    }

    /// A `CHECKSIGADD` chain: consumes one element for each key, empty ones among them.
    pub open spec fn from_multi_a_spec() -> Correctness {
        Correctness { base: Base::B, input: Input::Any, dissatisfiable: true, unit: true }
    }

    /// A hash commitment: consumes the preimage, whose size is checked first.
    pub open spec fn from_hash_spec() -> Correctness {
        Correctness { base: Base::B, input: Input::OneNonZero, dissatisfiable: true, unit: true }
    }

    /// A timelock: consumes nothing and leaves its number, which is not a one.
    pub open spec fn from_time_spec() -> Correctness {
        Correctness { base: Base::B, input: Input::Zero, dissatisfiable: false, unit: false }
    }

    /// A comparison of a transaction item with a constant: consumes nothing from the top
    /// of the stack.
    pub open spec fn from_item_eq_spec() -> Correctness {
        Correctness { base: Base::B, input: Input::Zero, dissatisfiable: true, unit: true }
    }

    /// A commitment by prefix: consumes the elements that complete the prefix.
    pub open spec fn from_item_pref_spec() -> Correctness {
        Correctness { base: Base::B, input: Input::Any, dissatisfiable: true, unit: true }
    }

    /// `a:X`: `X` of base `B` runs on the alt stack and becomes `W`.
    pub open spec fn cast_alt_spec(self) -> Result<Correctness, ErrorKind> {
        if self.base is B {
            Ok(Correctness { base: Base::W, input: Input::Any, ..self })
        } else {
            Err(ErrorKind::ChildBase1(self.base))
        }
    }

    /// `s:X`: `X` of base `B` that consumes exactly one element becomes `W`.
    pub open spec fn cast_swap_spec(self) -> Result<Correctness, ErrorKind> {
        if !(self.base is B) {
            Err(ErrorKind::ChildBase1(self.base))
        } else if !(self.input is One || self.input is OneNonZero) {
            Err(ErrorKind::SwapNonOne)
        } else {
            Ok(Correctness { base: Base::W, input: Input::Any, ..self })
        }
    }

    /// `c:X`: the key that `X` leaves is checked against a signature; the result is a unit
    /// of base `B`.
    pub open spec fn cast_check_spec(self) -> Result<Correctness, ErrorKind> {
        if self.base is K {
            Ok(Correctness { base: Base::B, unit: true, ..self })
        } else {
            Err(ErrorKind::ChildBase1(self.base))
        }
    }

    /// `d:X`: `X` of base `V` that consumes nothing runs if the element on top is nonzero;
    /// the result is a dissatisfiable unit.
    pub open spec fn cast_dupif_spec(self) -> Result<Correctness, ErrorKind> {
        if !(self.base is V) {
            Err(ErrorKind::ChildBase1(self.base))
        } else if !(self.input is Zero) {
            Err(ErrorKind::NonZeroDupIf)
        } else {
            Ok(
                Correctness {
                    base: Base::B,
                    input: Input::OneNonZero,
                    dissatisfiable: true,
                    unit: true,
                },
            )
        }
    }

    /// `v:X`: `X` of base `B` must succeed, and nothing is left.
    pub open spec fn cast_verify_spec(self) -> Result<Correctness, ErrorKind> {
        if self.base is B {
            Ok(Correctness { base: Base::V, dissatisfiable: false, unit: false, ..self })
        } else {
            Err(ErrorKind::ChildBase1(self.base))
        }
    }

    /// `j:X`: `X` of base `B` is skipped on an empty element, which `X` itself never takes.
    pub open spec fn cast_nonzero_spec(self) -> Result<Correctness, ErrorKind> {
        if !(self.input is OneNonZero || self.input is AnyNonZero) {
            Err(ErrorKind::NonZeroZero)
        } else if !(self.base is B) {
            Err(ErrorKind::ChildBase1(self.base))
        } else {
            Ok(Correctness { dissatisfiable: true, ..self })
        }
    }

    /// `n:X`: whatever nonzero value `X` of base `B` leaves becomes a one.
    pub open spec fn cast_zeronotequal_spec(self) -> Result<Correctness, ErrorKind> {
        if self.base is B {
            Ok(Correctness { unit: true, ..self })
        } else {
            Err(ErrorKind::ChildBase1(self.base))
        }
    }

    /// `and_b(X, Y)`: `X` of base `B` and `Y` of base `W` both run; dissatisfiable where
    /// both are.
    pub open spec fn and_b_spec(l: Correctness, r: Correctness) -> Result<Correctness, ErrorKind> {
        if l.base is B && r.base is W {
            Ok(
                Correctness {
                    base: Base::B,
                    input: and_input(l.input, r.input),
                    dissatisfiable: l.dissatisfiable && r.dissatisfiable,
                    unit: true,
                },
            )
        } else {
            Err(ErrorKind::ChildBase2(l.base, r.base))
        }
    }

    /// `and_v(X, Y)`: `X` of base `V`, then `Y`, which gives the base; never dissatisfiable.
    pub open spec fn and_v_spec(l: Correctness, r: Correctness) -> Result<Correctness, ErrorKind> {
        if l.base is V && !(r.base is W) {
            Ok(
                Correctness {
                    base: r.base,
                    input: and_input(l.input, r.input),
                    dissatisfiable: false,
                    unit: r.unit,
                },
            )
        } else {
            Err(ErrorKind::ChildBase2(l.base, r.base))
        }
    }

    /// `or_b(X, Y)`: both run, so both must be dissatisfiable.
    pub open spec fn or_b_spec(l: Correctness, r: Correctness) -> Result<Correctness, ErrorKind> {
        if !l.dissatisfiable {
            Err(ErrorKind::LeftNotDissatisfiable)
        } else if !r.dissatisfiable {
            Err(ErrorKind::RightNotDissatisfiable)
        } else if !(l.base is B && r.base is W) {
            Err(ErrorKind::ChildBase2(l.base, r.base))
        } else {
            Ok(
                Correctness {
                    base: Base::B,
                    input: match (l.input, r.input) {
                        (Input::Zero, Input::Zero) => Input::Zero,
                        (Input::Zero, Input::One)
                        | (Input::One, Input::Zero)
                        | (Input::Zero, Input::OneNonZero)
                        | (Input::OneNonZero, Input::Zero) => Input::One,
                        _ => Input::Any,
                    },
                    dissatisfiable: true,
                    unit: true,
                },
            )
        }
    }

    /// `or_d(X, Y)`: `Y` runs where the dissatisfiable unit `X` left a zero.
    pub open spec fn or_d_spec(l: Correctness, r: Correctness) -> Result<Correctness, ErrorKind> {
        if !l.dissatisfiable {
            Err(ErrorKind::LeftNotDissatisfiable)
        } else if !l.unit {
            Err(ErrorKind::LeftNotUnit)
        } else if !(l.base is B && r.base is B) {
            Err(ErrorKind::ChildBase2(l.base, r.base))
        } else {
            Ok(
                Correctness {
                    base: Base::B,
                    input: cascade_input(l.input, r.input),
                    dissatisfiable: r.dissatisfiable,
                    unit: r.unit,
                },
            )
        }
    }

    /// `or_c(X, Y)`: as `or_d` with `Y` of base `V`; it cannot be dissatisfied.
    pub open spec fn or_c_spec(l: Correctness, r: Correctness) -> Result<Correctness, ErrorKind> {
        if !l.dissatisfiable {
            Err(ErrorKind::LeftNotDissatisfiable)
        } else if !l.unit {
            Err(ErrorKind::LeftNotUnit)
        } else if !(l.base is B && r.base is V) {
            Err(ErrorKind::ChildBase2(l.base, r.base))
        } else {
            Ok(
                Correctness {
                    base: Base::V,
                    input: cascade_input(l.input, r.input),
                    dissatisfiable: false,
                    unit: false,
                },
            )
        }
    }

    /// `or_i(X, Y)`: an element of the witness chooses between two branches of one base.
    pub open spec fn or_i_spec(l: Correctness, r: Correctness) -> Result<Correctness, ErrorKind> {
        if l.base == r.base && !(l.base is W) {
            Ok(
                Correctness {
                    base: l.base,
                    input: if l.input is Zero && r.input is Zero {
                        Input::One
                    } else {
                        Input::Any
                    },
                    dissatisfiable: l.dissatisfiable || r.dissatisfiable,
                    unit: l.unit && r.unit,
                },
            )
        } else {
            Err(ErrorKind::ChildBase2(l.base, r.base))
        }
    }

    /// `andor(X, Y, Z)`: `Y` runs after the dissatisfiable unit `X` succeeded, `Z` after
    /// it failed.
    pub open spec fn and_or_spec(a: Correctness, b: Correctness, c: Correctness) -> Result<
        Correctness,
        ErrorKind,
    > {
        if !a.dissatisfiable {
            Err(ErrorKind::LeftNotDissatisfiable)
        } else if !a.unit {
            Err(ErrorKind::LeftNotUnit)
        } else if !(a.base is B && b.base == c.base && !(b.base is W)) {
            Err(ErrorKind::ChildBase3(a.base, b.base, c.base))
        } else {
            Ok(
                Correctness {
                    base: b.base,
                    input: match (a.input, b.input, c.input) {
                        (Input::Zero, Input::Zero, Input::Zero) => Input::Zero,
                        (Input::Zero, Input::One, Input::One)
                        | (Input::Zero, Input::One, Input::OneNonZero)
                        | (Input::Zero, Input::OneNonZero, Input::One)
                        | (Input::Zero, Input::OneNonZero, Input::OneNonZero) => Input::One,
                        (Input::One, Input::Zero, Input::Zero)
                        | (Input::OneNonZero, Input::Zero, Input::Zero) => Input::One,
                        _ => Input::Any,
                    },
                    dissatisfiable: c.dissatisfiable,
                    unit: b.unit && c.unit,
                },
            )
        }
    }

    /// What is wrong with the child of a threshold at position `i`, if anything.
    pub open spec fn threshold_child_error(i: int, sub: Correctness) -> Option<ErrorKind> {
        if i == 0 && !(sub.base is B) {
            Some(ErrorKind::ThresholdBase(i as usize, sub.base))
        } else if i != 0 && !(sub.base is W) {
            Some(ErrorKind::ThresholdBase(i as usize, sub.base))
        } else if !sub.unit {
            Some(ErrorKind::ThresholdNonUnit(i as usize))
        } else if !sub.dissatisfiable {
            Some(ErrorKind::ThresholdDissat(i as usize))
        } else {
            None
        }
    }

    /// `1`.
    pub fn from_true() -> (r: Correctness)
        ensures
            r == Self::from_true_spec(),
    {
        Correctness { base: Base::B, input: Input::Zero, dissatisfiable: false, unit: true }
    }

    /// `0`.
    pub fn from_false() -> (r: Correctness)
        ensures
            r == Self::from_false_spec(),
    {
        Correctness { base: Base::B, input: Input::Zero, dissatisfiable: true, unit: true }
    }

    /// A bare key.
    pub fn from_pk_k() -> (r: Correctness)
        ensures
            r == Self::from_pk_k_spec(),
    {
        Correctness { base: Base::K, input: Input::OneNonZero, dissatisfiable: true, unit: true }
    }

    /// A key given by its hash.
    pub fn from_pk_h() -> (r: Correctness)
        ensures
            r == Self::from_pk_h_spec(),
    {
        Correctness { base: Base::K, input: Input::AnyNonZero, dissatisfiable: true, unit: true }
    }

    /// A `CHECKMULTISIG` over a list of keys.
    pub fn from_multi() -> (r: Correctness)
        ensures
            r == Self::from_multi_spec(),
    {
        Correctness { base: Base::B, input: Input::AnyNonZero, dissatisfiable: true, unit: true }
    }

    /// A `CHECKSIGADD` chain over a list of keys.
    pub fn from_multi_a() -> (r: Correctness)
        ensures
            r == Self::from_multi_a_spec(),
    {
        Correctness { base: Base::B, input: Input::Any, dissatisfiable: true, unit: true }
    }

    /// A hash preimage commitment.
    pub fn from_hash() -> (r: Correctness)
        ensures
            r == Self::from_hash_spec(),
    {
        Correctness { base: Base::B, input: Input::OneNonZero, dissatisfiable: true, unit: true }
    }

    /// A timelock.
    pub fn from_time() -> (r: Correctness)
        ensures
            r == Self::from_time_spec(),
    {
        Correctness { base: Base::B, input: Input::Zero, dissatisfiable: false, unit: false }
    }

    /// A comparison of a transaction item with a constant.
    pub fn from_item_eq() -> (r: Correctness)
        ensures
            r == Self::from_item_eq_spec(),
    {
        Correctness { base: Base::B, input: Input::Zero, dissatisfiable: true, unit: true }
    }

    /// A comparison of a transaction item with a prefix that the witness completes.
    pub fn from_item_pref() -> (r: Correctness)
        ensures
            r == Self::from_item_pref_spec(),
    {
        Correctness { base: Base::B, input: Input::Any, dissatisfiable: true, unit: true }
    }

    /// `a:X`: `X` must be `B`; the result is `W`.
    pub fn cast_alt(self) -> (r: Result<Correctness, ErrorKind>)
        ensures
            r == self.cast_alt_spec(),
    {
        match self.base {
            Base::B => Ok(
                Correctness {
                    base: Base::W,
                    input: Input::Any,
                    dissatisfiable: self.dissatisfiable,
                    unit: self.unit,
                },
            ),
            x => Err(ErrorKind::ChildBase1(x)),
        }
    }

    /// `s:X`: `X` must be `B` and consume one element; the result is `W`.
    pub fn cast_swap(self) -> (r: Result<Correctness, ErrorKind>)
        ensures
            r == self.cast_swap_spec(),
    {
        match self.base {
            Base::B => match self.input {
                Input::One | Input::OneNonZero => Ok(
                    Correctness {
                        base: Base::W,
                        input: Input::Any,
                        dissatisfiable: self.dissatisfiable,
                        unit: self.unit,
                    },
                ),
                _ => Err(ErrorKind::SwapNonOne),
            },
            x => Err(ErrorKind::ChildBase1(x)),
        }
    }

    /// `c:X`: `X` must be `K`; the result is `B`.
    pub fn cast_check(self) -> (r: Result<Correctness, ErrorKind>)
        ensures
            r == self.cast_check_spec(),
    {
        match self.base {
            Base::K => Ok(
                Correctness {
                    base: Base::B,
                    input: self.input,
                    dissatisfiable: self.dissatisfiable,
                    unit: true,
                },
            ),
            x => Err(ErrorKind::ChildBase1(x)),
        }
    }

    /// `d:X`: `X` must be `V` and consume nothing; the result is `B`.
    pub fn cast_dupif(self) -> (r: Result<Correctness, ErrorKind>)
        ensures
            r == self.cast_dupif_spec(),
    {
        match self.base {
            Base::V => match self.input {
                Input::Zero => Ok(
                    Correctness {
                        base: Base::B,
                        input: Input::OneNonZero,
                        dissatisfiable: true,
                        unit: true,
                    },
                ),
                _ => Err(ErrorKind::NonZeroDupIf),
            },
            x => Err(ErrorKind::ChildBase1(x)),
        }
    }

    /// `v:X`: `X` must be `B`; the result is `V`.
    pub fn cast_verify(self) -> (r: Result<Correctness, ErrorKind>)
        ensures
            r == self.cast_verify_spec(),
    {
        match self.base {
            Base::B => Ok(
                Correctness {
                    base: Base::V,
                    input: self.input,
                    dissatisfiable: false,
                    unit: false,
                },
            ),
            x => Err(ErrorKind::ChildBase1(x)),
        }
    }

    /// `j:X`: `X` must be `B` and never take a zero on top of the stack.
    pub fn cast_nonzero(self) -> (r: Result<Correctness, ErrorKind>)
        ensures
            r == self.cast_nonzero_spec(),
    {
        match self.input {
            Input::OneNonZero | Input::AnyNonZero => match self.base {
                Base::B => Ok(
                    Correctness {
                        base: Base::B,
                        input: self.input,
                        dissatisfiable: true,
                        unit: self.unit,
                    },
                ),
                x => Err(ErrorKind::ChildBase1(x)),
            },
            _ => Err(ErrorKind::NonZeroZero),
        }
    }

    /// `n:X`: `X` must be `B`; the result is a unit.
    pub fn cast_zeronotequal(self) -> (r: Result<Correctness, ErrorKind>)
        ensures
            r == self.cast_zeronotequal_spec(),
    {
        match self.base {
            Base::B => Ok(
                Correctness {
                    base: Base::B,
                    input: self.input,
                    dissatisfiable: self.dissatisfiable,
                    unit: true,
                },
            ),
            x => Err(ErrorKind::ChildBase1(x)),
        }
    }

    /// What a conjunction takes from the stack, given what its children take.
    fn and_input_of(l: Input, r: Input) -> (res: Input)
        ensures
            res == and_input(l, r),
    {
        match (l, r) {
            (Input::Zero, Input::Zero) => Input::Zero,
            (Input::Zero, Input::One) | (Input::One, Input::Zero) => Input::One,
            (Input::Zero, Input::OneNonZero) | (Input::OneNonZero, Input::Zero) =>
                Input::OneNonZero,
            (Input::OneNonZero, _) | (Input::AnyNonZero, _) | (Input::Zero, Input::AnyNonZero) =>
                Input::AnyNonZero,
            _ => Input::Any,
        }
    }

    /// What a cascading disjunction takes from the stack, given what its children take.
    fn cascade_input_of(l: Input, r: Input) -> (res: Input)
        ensures
            res == cascade_input(l, r),
    {
        match (l, r) {
            (Input::Zero, Input::Zero) => Input::Zero,
            (Input::One, Input::Zero) | (Input::OneNonZero, Input::Zero) => Input::One,
            _ => Input::Any,
        }
    }

    /// `and_b(X, Y)`: `X` must be `B` and `Y` must be `W`.
    pub fn and_b(l: Correctness, r: Correctness) -> (res: Result<Correctness, ErrorKind>)
        ensures
            res == Self::and_b_spec(l, r),
    {
        match (l.base, r.base) {
            (Base::B, Base::W) => Ok(
                Correctness {
                    base: Base::B,
                    input: Self::and_input_of(l.input, r.input),
                    dissatisfiable: l.dissatisfiable && r.dissatisfiable,
                    unit: true,
                },
            ),
            (x, y) => Err(ErrorKind::ChildBase2(x, y)),
        }
    }

    /// `and_v(X, Y)`: `X` must be `V`; `Y` gives the base type.
    pub fn and_v(l: Correctness, r: Correctness) -> (res: Result<Correctness, ErrorKind>)
        ensures
            res == Self::and_v_spec(l, r),
    {
        match (l.base, r.base) {
            (Base::V, Base::B) | (Base::V, Base::K) | (Base::V, Base::V) => Ok(
                Correctness {
                    base: r.base,
                    input: Self::and_input_of(l.input, r.input),
                    dissatisfiable: false,
                    unit: r.unit,
                },
            ),
            (x, y) => Err(ErrorKind::ChildBase2(x, y)),
        }
    }

    /// `or_b(X, Y)`: both dissatisfiable, `X` must be `B` and `Y` must be `W`.
    pub fn or_b(l: Correctness, r: Correctness) -> (res: Result<Correctness, ErrorKind>)
        ensures
            res == Self::or_b_spec(l, r),
    {
        if !l.dissatisfiable {
            return Err(ErrorKind::LeftNotDissatisfiable);
        }
        if !r.dissatisfiable {
            return Err(ErrorKind::RightNotDissatisfiable);
        }
        match (l.base, r.base) {
            (Base::B, Base::W) => Ok(
                Correctness {
                    base: Base::B,
                    input: match (l.input, r.input) {
                        (Input::Zero, Input::Zero) => Input::Zero,
                        (Input::Zero, Input::One)
                        | (Input::One, Input::Zero)
                        | (Input::Zero, Input::OneNonZero)
                        | (Input::OneNonZero, Input::Zero) => Input::One,
                        _ => Input::Any,
                    },
                    dissatisfiable: true,
                    unit: true,
                },
            ),
            (x, y) => Err(ErrorKind::ChildBase2(x, y)),
        }
    }

    /// `or_d(X, Y)`: `X` a dissatisfiable unit, both `B`.
    pub fn or_d(l: Correctness, r: Correctness) -> (res: Result<Correctness, ErrorKind>)
        ensures
            res == Self::or_d_spec(l, r),
    {
        if !l.dissatisfiable {
            return Err(ErrorKind::LeftNotDissatisfiable);
        }
        if !l.unit {
            return Err(ErrorKind::LeftNotUnit);
        }
        match (l.base, r.base) {
            (Base::B, Base::B) => Ok(
                Correctness {
                    base: Base::B,
                    input: Self::cascade_input_of(l.input, r.input),
                    dissatisfiable: r.dissatisfiable,
                    unit: r.unit,
                },
            ),
            (x, y) => Err(ErrorKind::ChildBase2(x, y)),
        }
    }

    /// `or_c(X, Y)`: `X` a dissatisfiable unit of base `B`, `Y` of base `V`.
    pub fn or_c(l: Correctness, r: Correctness) -> (res: Result<Correctness, ErrorKind>)
        ensures
            res == Self::or_c_spec(l, r),
    {
        if !l.dissatisfiable {
            return Err(ErrorKind::LeftNotDissatisfiable);
        }
        if !l.unit {
            return Err(ErrorKind::LeftNotUnit);
        }
        match (l.base, r.base) {
            (Base::B, Base::V) => Ok(
                Correctness {
                    base: Base::V,
                    input: Self::cascade_input_of(l.input, r.input),
                    dissatisfiable: false,
                    unit: false,
                },
            ),
            (x, y) => Err(ErrorKind::ChildBase2(x, y)),
        }
    }

    /// `or_i(X, Y)`: both of the same base, which is not `W`.
    pub fn or_i(l: Correctness, r: Correctness) -> (res: Result<Correctness, ErrorKind>)
        ensures
            res == Self::or_i_spec(l, r),
    {
        match (l.base, r.base) {
            (Base::B, Base::B) | (Base::V, Base::V) | (Base::K, Base::K) => Ok(
                Correctness {
                    base: l.base,
                    input: match (l.input, r.input) {
                        (Input::Zero, Input::Zero) => Input::One,
                        _ => Input::Any,
                    },
                    dissatisfiable: l.dissatisfiable || r.dissatisfiable,
                    unit: l.unit && r.unit,
                },
            ),
            (x, y) => Err(ErrorKind::ChildBase2(x, y)),
        }
    }

    /// `andor(X, Y, Z)`: `X` a dissatisfiable unit of base `B`; `Y` and `Z` of one base.
    pub fn and_or(a: Correctness, b: Correctness, c: Correctness) -> (res: Result<
        Correctness,
        ErrorKind,
    >)
        ensures
            res == Self::and_or_spec(a, b, c),
    {
        if !a.dissatisfiable {
            return Err(ErrorKind::LeftNotDissatisfiable);
        }
        if !a.unit {
            return Err(ErrorKind::LeftNotUnit);
        }
        match (a.base, b.base, c.base) {
            (Base::B, Base::B, Base::B) | (Base::B, Base::K, Base::K) | (
                Base::B,
                Base::V,
                Base::V,
            ) => Ok(
                Correctness {
                    base: b.base,
                    input: match (a.input, b.input, c.input) {
                        (Input::Zero, Input::Zero, Input::Zero) => Input::Zero,
                        (Input::Zero, Input::One, Input::One)
                        | (Input::Zero, Input::One, Input::OneNonZero)
                        | (Input::Zero, Input::OneNonZero, Input::One)
                        | (Input::Zero, Input::OneNonZero, Input::OneNonZero) => Input::One,
                        (Input::One, Input::Zero, Input::Zero)
                        | (Input::OneNonZero, Input::Zero, Input::Zero) => Input::One,
                        _ => Input::Any,
                    },
                    dissatisfiable: c.dissatisfiable,
                    unit: b.unit && c.unit,
                },
            ),
            (x, y, z) => Err(ErrorKind::ChildBase3(x, y, z)),
        }
    }
}

impl Malleability {
    /// `1`: cannot be dissatisfied and binds no signature.
    pub open spec fn from_true_spec() -> Malleability {
        Malleability { dissat: Dissat::Absent, safe: false, non_malleable: true }
    }

    /// `0`: the empty witness is its one dissatisfaction; as it is never satisfied, it is safe.
    pub open spec fn from_false_spec() -> Malleability {
        Malleability { dissat: Dissat::Unique, safe: true, non_malleable: true }
    }

    /// A fragment that a signature satisfies: keys and key lists.
    pub open spec fn from_signed_spec() -> Malleability {
        Malleability { dissat: Dissat::Unique, safe: true, non_malleable: true }
    }

    /// A fragment that public data satisfies: hashes and transaction items.
    pub open spec fn from_public_spec() -> Malleability {
        Malleability { dissat: Dissat::Unknown, safe: false, non_malleable: true }
    }

    /// A timelock: cannot be dissatisfied and binds no signature.
    pub open spec fn from_time_spec() -> Malleability {
        Malleability { dissat: Dissat::Absent, safe: false, non_malleable: true }
    }

    /// `d:X` and `j:X`: the guard adds one dissatisfaction, which is the only one where `X`
    /// had none.
    pub open spec fn cast_guarded_spec(self) -> Malleability {
        Malleability { dissat: guarded_dissat(self.dissat), ..self }
    }

    /// `v:X`: no dissatisfaction is left.
    pub open spec fn cast_verify_spec(self) -> Malleability {
        Malleability { dissat: Dissat::Absent, ..self }
    }

    /// `and_b(X, Y)`: safe where one child is. A dissatisfaction dissatisfies both children,
    /// or one of them beside a satisfaction of the other unless that one is safe.
    pub open spec fn and_b_spec(l: Malleability, r: Malleability) -> Malleability {
        Malleability {
            dissat: if l.dissat is Absent && r.dissat is Absent {
                Dissat::Absent
            } else if l.dissat is Absent && l.safe {
                Dissat::Absent
            } else if r.dissat is Absent && r.safe {
                Dissat::Absent
            } else if l.dissat is Unique && r.dissat is Unique {
                if l.safe && r.safe {
                    Dissat::Unique
                } else {
                    Dissat::Unknown
                }
            } else {
                Dissat::Unknown
            },
            safe: l.safe || r.safe,
            non_malleable: l.non_malleable && r.non_malleable,
        }
    }

    /// `and_v(X, Y)`: safe where one child is; dissatisfied only through `Y` beside a
    /// satisfaction of an unsafe `X`.
    pub open spec fn and_v_spec(l: Malleability, r: Malleability) -> Malleability {
        Malleability {
            dissat: if r.dissat is Absent || l.safe {
                Dissat::Absent
            } else {
                Dissat::Unknown
            },
            safe: l.safe || r.safe,
            non_malleable: l.non_malleable && r.non_malleable,
        }
    }

    /// `or_b(X, Y)`: safe where both are; non-malleable where each child is, with one
    /// dissatisfaction each, and one of them is safe.
    pub open spec fn or_b_spec(l: Malleability, r: Malleability) -> Malleability {
        Malleability {
            dissat: Dissat::Unique,
            safe: l.safe && r.safe,
            non_malleable: l.non_malleable && l.dissat is Unique && r.non_malleable
                && r.dissat is Unique && (l.safe || r.safe),
        }
    }

    /// `or_d(X, Y)`: safe where both are; dissatisfied as `Y` is.
    pub open spec fn or_d_spec(l: Malleability, r: Malleability) -> Malleability {
        Malleability {
            dissat: r.dissat,
            safe: l.safe && r.safe,
            non_malleable: l.non_malleable && l.dissat is Unique && r.non_malleable && (l.safe
                || r.safe),
        }
    }

    /// `or_c(X, Y)`: safe where both are; it cannot be dissatisfied.
    pub open spec fn or_c_spec(l: Malleability, r: Malleability) -> Malleability {
        Malleability {
            dissat: Dissat::Absent,
            safe: l.safe && r.safe,
            non_malleable: l.non_malleable && l.dissat is Unique && r.non_malleable && (l.safe
                || r.safe),
        }
    }

    /// `or_i(X, Y)`: safe where both are; the dissatisfaction is unique where exactly one
    /// branch has one.
    pub open spec fn or_i_spec(l: Malleability, r: Malleability) -> Malleability {
        Malleability {
            dissat: if l.dissat is Absent && r.dissat is Absent {
                Dissat::Absent
            } else if (l.dissat is Unique && r.dissat is Absent) || (l.dissat is Absent
                && r.dissat is Unique) {
                Dissat::Unique
            } else {
                Dissat::Unknown
            },
            safe: l.safe && r.safe,
            non_malleable: l.non_malleable && r.non_malleable && (l.safe || r.safe),
        }
    }

    /// `andor(X, Y, Z)`: safe where `Z` is and one of `X` and `Y`; dissatisfied as `Z` is,
    /// unless an unsafe `X` can be satisfied beside a dissatisfaction of `Y`.
    pub open spec fn and_or_spec(a: Malleability, b: Malleability, c: Malleability) -> Malleability {
        Malleability {
            dissat: if (b.dissat is Absent || a.safe) && c.dissat is Unique {
                Dissat::Unique
            } else if (b.dissat is Absent || a.safe) && c.dissat is Absent {
                Dissat::Absent
            } else {
                Dissat::Unknown
            },
            safe: (a.safe || b.safe) && c.safe,
            non_malleable: a.non_malleable && c.non_malleable && a.dissat is Unique
                && b.non_malleable && (a.safe || b.safe || c.safe),
        }
    }

    /// `1`.
    pub fn from_true() -> (r: Malleability)
        ensures
            r == Self::from_true_spec(),
    {
        Malleability { dissat: Dissat::Absent, safe: false, non_malleable: true }
    }

    /// `0`.
    pub fn from_false() -> (r: Malleability)
        ensures
            r == Self::from_false_spec(),
    {
        Malleability { dissat: Dissat::Unique, safe: true, non_malleable: true }
    }

    /// A key or a list of keys.
    pub fn from_signed() -> (r: Malleability)
        ensures
            r == Self::from_signed_spec(),
    {
        Malleability { dissat: Dissat::Unique, safe: true, non_malleable: true }
    }

    /// A hash or a transaction item.
    pub fn from_public() -> (r: Malleability)
        ensures
            r == Self::from_public_spec(),
    {
        Malleability { dissat: Dissat::Unknown, safe: false, non_malleable: true }
    }

    /// A timelock.
    pub fn from_time() -> (r: Malleability)
        ensures
            r == Self::from_time_spec(),
    {
        Malleability { dissat: Dissat::Absent, safe: false, non_malleable: true }
    }

    /// `d:X` and `j:X`: the guard adds one dissatisfaction.
    pub fn cast_guarded(self) -> (r: Malleability)
        ensures
            r == self.cast_guarded_spec(),
    {
        Malleability {
            dissat: match self.dissat {
                Dissat::Absent => Dissat::Unique,
                _ => Dissat::Unknown,
            },
            safe: self.safe,
            non_malleable: self.non_malleable,
        }
    }

    /// `v:X`: no dissatisfaction is left.
    pub fn cast_verify(self) -> (r: Malleability)
        ensures
            r == self.cast_verify_spec(),
    {
        Malleability { dissat: Dissat::Absent, safe: self.safe, non_malleable: self.non_malleable }
    }

    /// `and_b(X, Y)`.
    pub fn and_b(l: Malleability, r: Malleability) -> (res: Malleability)
        ensures
            res == Self::and_b_spec(l, r),
    {
        Malleability {
            dissat: match (l.dissat, r.dissat) {
                (Dissat::Absent, Dissat::Absent) => Dissat::Absent,
                (Dissat::Absent, _) if l.safe => Dissat::Absent,
                (_, Dissat::Absent) if r.safe => Dissat::Absent,
                (Dissat::Unique, Dissat::Unique) => {
                    if l.safe && r.safe {
                        Dissat::Unique
                    } else {
                        Dissat::Unknown
                    }
                },
                _ => Dissat::Unknown,
            },
            safe: l.safe || r.safe,
            non_malleable: l.non_malleable && r.non_malleable,
        }
    }

    /// `and_v(X, Y)`.
    pub fn and_v(l: Malleability, r: Malleability) -> (res: Malleability)
        ensures
            res == Self::and_v_spec(l, r),
    {
        Malleability {
            dissat: match (l.safe, r.dissat) {
                (_, Dissat::Absent) => Dissat::Absent,
                (true, _) => Dissat::Absent,
                _ => Dissat::Unknown,
            },
            safe: l.safe || r.safe,
            non_malleable: l.non_malleable && r.non_malleable,
        }
    }

    /// Whether a dissatisfaction exists and is the only one.
    pub(crate) fn is_unique(d: Dissat) -> (r: bool)
        ensures
            r == (d is Unique),
    {
        match d {
            Dissat::Unique => true,
            _ => false,
        }
    }

    /// `or_b(X, Y)`.
    pub fn or_b(l: Malleability, r: Malleability) -> (res: Malleability)
        ensures
            res == Self::or_b_spec(l, r),
    {
        Malleability {
            dissat: Dissat::Unique,
            safe: l.safe && r.safe,
            non_malleable: l.non_malleable && Self::is_unique(l.dissat) && r.non_malleable
                && Self::is_unique(r.dissat) && (l.safe || r.safe),
        }
    }

    /// `or_d(X, Y)`.
    pub fn or_d(l: Malleability, r: Malleability) -> (res: Malleability)
        ensures
            res == Self::or_d_spec(l, r),
    {
        Malleability {
            dissat: r.dissat,
            safe: l.safe && r.safe,
            non_malleable: l.non_malleable && Self::is_unique(l.dissat) && r.non_malleable && (
            l.safe || r.safe),
        }
    }

    /// `or_c(X, Y)`.
    pub fn or_c(l: Malleability, r: Malleability) -> (res: Malleability)
        ensures
            res == Self::or_c_spec(l, r),
    {
        Malleability {
            dissat: Dissat::Absent,
            safe: l.safe && r.safe,
            non_malleable: l.non_malleable && Self::is_unique(l.dissat) && r.non_malleable && (
            l.safe || r.safe),
        }
    }

    /// `or_i(X, Y)`.
    pub fn or_i(l: Malleability, r: Malleability) -> (res: Malleability)
        ensures
            res == Self::or_i_spec(l, r),
    {
        Malleability {
            dissat: match (l.dissat, r.dissat) {
                (Dissat::Absent, Dissat::Absent) => Dissat::Absent,
                (Dissat::Unique, Dissat::Absent) => Dissat::Unique,
                (Dissat::Absent, Dissat::Unique) => Dissat::Unique,
                _ => Dissat::Unknown,
            },
            safe: l.safe && r.safe,
            non_malleable: l.non_malleable && r.non_malleable && (l.safe || r.safe),
        }
    }

    /// `andor(X, Y, Z)`.
    pub fn and_or(a: Malleability, b: Malleability, c: Malleability) -> (res: Malleability)
        ensures
            res == Self::and_or_spec(a, b, c),
    {
        Malleability {
            dissat: match (a.safe, b.dissat, c.dissat) {
                (_, Dissat::Absent, Dissat::Unique) => Dissat::Unique,
                (true, _, Dissat::Unique) => Dissat::Unique,
                (_, Dissat::Absent, Dissat::Absent) => Dissat::Absent,
                (true, _, Dissat::Absent) => Dissat::Absent,
                _ => Dissat::Unknown,
            },
            safe: (a.safe || b.safe) && c.safe,
            non_malleable: a.non_malleable && c.non_malleable && Self::is_unique(a.dissat)
                && b.non_malleable && (a.safe || b.safe || c.safe),
        }
    }
}

impl Type {
    /// The error of the first wrong child among the first `n`, if any is wrong.
    pub open spec fn threshold_first_error(subs: Seq<Type>, n: int) -> Option<ErrorKind>
        decreases n,
    {
        if n <= 0 {
            None
        } else {
            match Self::threshold_first_error(subs, n - 1) {
                Some(e) => Some(e),
                None => Correctness::threshold_child_error(n - 1, subs[n - 1].corr),
            }
        }
    }

    /// Number of stack elements that the first `n` children consume, where a
    /// child that may consume several counts as two.
    pub open spec fn threshold_args(subs: Seq<Type>, n: int) -> int
        decreases n,
    {
        if n <= 0 {
            0
        } else {
            Self::threshold_args(subs, n - 1) + match subs[n - 1].corr.input {
                Input::Zero => 0int,
                Input::One | Input::OneNonZero => 1int,
                Input::Any | Input::AnyNonZero => 2int,
            }
        }
    }

    /// Number of safe children among the first `n`.
    pub open spec fn safe_count(subs: Seq<Type>, n: int) -> int
        decreases n,
    {
        if n <= 0 {
            0
        } else {
            Self::safe_count(subs, n - 1) + if subs[n - 1].mall.safe {
                1int
            } else {
                0int
            }
        }
    }

    /// Whether each of the first `n` children has exactly one dissatisfaction.
    pub open spec fn all_unique(subs: Seq<Type>, n: int) -> bool {
        forall|i: int| 0 <= i < n ==> (#[trigger] subs[i]).mall.dissat is Unique
    }

    /// Whether each of the first `n` children is non-malleable.
    pub open spec fn all_non_malleable(subs: Seq<Type>, n: int) -> bool {
        forall|i: int| 0 <= i < n ==> (#[trigger] subs[i]).mall.non_malleable
    }

    /// Type of a threshold of `k` over children of the types `subs`: the
    /// first child must be `B`, the others `W`, each a dissatisfiable unit.
    /// It is safe when more than `n - k` children are, and non-malleable when
    /// at least `n - k` are safe and each child is non-malleable with one
    /// dissatisfaction.
    pub open spec fn threshold_spec(k: usize, subs: Seq<Type>) -> Result<Type, ErrorKind> {
        let n = subs.len() as int;
        match Self::threshold_first_error(subs, n) {
            Some(e) => Err(e),
            None => {
                let args = Self::threshold_args(subs, n);
                let safe = Self::safe_count(subs, n);
                let unique = Self::all_unique(subs, n);
                Ok(
                    Type {
                        corr: Correctness {
                            base: Base::B,
                            input: if args == 0 {
                                Input::Zero
                            } else if args == 1 {
                                Input::One
                            } else {
                                Input::Any
                            },
                            dissatisfiable: true,
                            unit: true,
                        },
                        mall: Malleability {
                            dissat: if unique && safe == n {
                                Dissat::Unique
                            } else {
                                Dissat::Unknown
                            },
                            safe: safe > n - k,
                            non_malleable: Self::all_non_malleable(subs, n) && safe >= n - k
                                && unique,
                        },
                    },
                )
            },
        }
    }

    /// Type of a threshold of `k` over children of the types `subs`.
    pub fn threshold(k: usize, subs: &Vec<Type>) -> (r: Result<Type, ErrorKind>)
        requires
            k <= subs.len(),
        ensures
            r == Self::threshold_spec(k, subs@),
    {
        let n = subs.len();
        let mut args: u8 = 0;
        let mut i: usize = 0;
        while i < n
            invariant
                i <= n,
                n == subs.len(),
                Self::threshold_first_error(subs@, i as int) is None,
                args <= 2,
                args as int == if Self::threshold_args(subs@, i as int) >= 2 {
                    2
                } else {
                    Self::threshold_args(subs@, i as int)
                },
                Self::threshold_args(subs@, i as int) >= 0,
            decreases n - i,
        {
            let sub = subs[i].corr;
            let ghost here = Correctness::threshold_child_error(i as int, sub);
            let bad_base = match sub.base {
                Base::B => i != 0,
                Base::W => i == 0,
                _ => true,
            };
            proof {
                assert(Self::threshold_first_error(subs@, i as int + 1) == here);
            }
            if bad_base {
                proof {
                    Self::lemma_first_error_stays(subs@, i as int + 1, n as int);
                }
                return Err(ErrorKind::ThresholdBase(i, sub.base));
            }
            if !sub.unit {
                proof {
                    Self::lemma_first_error_stays(subs@, i as int + 1, n as int);
                }
                return Err(ErrorKind::ThresholdNonUnit(i));
            }
            if !sub.dissatisfiable {
                proof {
                    Self::lemma_first_error_stays(subs@, i as int + 1, n as int);
                }
                return Err(ErrorKind::ThresholdDissat(i));
            }
            let w: u8 = match sub.input {
                Input::Zero => 0,
                Input::One | Input::OneNonZero => 1,
                Input::Any | Input::AnyNonZero => 2,
            };
            args = if args + w >= 2 {
                2
            } else {
                args + w
            };
            i += 1;
        }
        let mut safe: usize = 0;
        let mut unique = true;
        let mut non_malleable = true;
        let mut j: usize = 0;
        while j < n
            invariant
                j <= n,
                n == subs.len(),
                safe as int == Self::safe_count(subs@, j as int),
                safe <= j,
                unique == Self::all_unique(subs@, j as int),
                non_malleable == Self::all_non_malleable(subs@, j as int),
            decreases n - j,
        {
            let m = subs[j].mall;
            if m.safe {
                safe += 1;
            }
            unique = unique && Malleability::is_unique(m.dissat);
            non_malleable = non_malleable && m.non_malleable;
            j += 1;
        }
        Ok(
            Type {
                corr: Correctness {
                    base: Base::B,
                    input: if args == 0 {
                        Input::Zero
                    } else if args == 1 {
                        Input::One
                    } else {
                        Input::Any
                    },
                    dissatisfiable: true,
                    unit: true,
                },
                mall: Malleability {
                    dissat: if unique && safe == n {
                        Dissat::Unique
                    } else {
                        Dissat::Unknown
                    },
                    safe: safe > n - k,
                    non_malleable: non_malleable && safe >= n - k && unique,
                },
            },
        )
    }

    /// Once a child among the first `i` is wrong, the first error over more
    /// children is the same.
    proof fn lemma_first_error_stays(subs: Seq<Type>, i: int, n: int)
        requires
            0 <= i <= n,
            Self::threshold_first_error(subs, i) is Some,
        ensures
            Self::threshold_first_error(subs, n) == Self::threshold_first_error(subs, i),
        decreases n - i,
    {
        if i < n {
            Self::lemma_first_error_stays(subs, i, n - 1);
        }
    }
}

} // verus!
