//! Cost annotations of a fragment: script size, opcode counts and bounds on
//! the witness, each computed from the annotations of the children.

use vstd::prelude::*;
use crate::context::SigType;
use crate::limits::script_num_size;
use crate::limits::script_num_size_spec;
use crate::limits::MAX_SCRIPT_ELEMENT_SIZE;
use crate::types::ErrorKind;

verus! {

/// Opcode counts of a fragment.
#[derive(Clone, Copy, Debug, PartialEq, Eq, Structural, PartialOrd, Ord, Hash)]
pub struct OpLimits {
    /// Opcodes that the script holds, whichever path runs.
    pub count: usize,
    /// Most opcodes that a satisfaction runs beside those; `None` if there is no satisfaction.
    pub sat: Option<usize>,
    /// Most opcodes that a dissatisfaction runs beside those; `None` if there is none.
    pub nsat: Option<usize>,
}

/// The cost annotations of a fragment.
#[derive(Clone, Copy, Debug, PartialEq, Eq, PartialOrd, Ord, Hash)]
pub struct ExtData {
    /// Size of the script in bytes.
    pub pk_cost: usize,
    /// Whether the script ends in an opcode that has a `VERIFY` form.
    pub has_free_verify: bool,
    /// Opcode counts.
    pub ops: OpLimits,
    /// Most witness elements of a satisfaction.
    pub stack_elem_count_sat: Option<usize>,
    /// Most witness elements of a dissatisfaction.
    pub stack_elem_count_dissat: Option<usize>,
    /// Most bytes of a satisfaction, as a witness and as a script signature.
    pub max_sat_size: Option<(usize, usize)>,
    /// Most bytes of a dissatisfaction, as a witness and as a script signature.
    pub max_dissat_size: Option<(usize, usize)>,
    /// Most stack elements while a satisfaction runs.
    pub exec_stack_elem_count_sat: Option<usize>,
    /// Most stack elements while a dissatisfaction runs.
    pub exec_stack_elem_count_dissat: Option<usize>,
}

/// The cost annotations as unbounded numbers.
pub struct Costs {
    pub pk_cost: int,
    pub has_free_verify: bool,
    pub ops_count: int,
    pub ops_sat: Option<int>,
    pub ops_nsat: Option<int>,
    pub stack_sat: Option<int>,
    pub stack_dissat: Option<int>,
    pub max_sat: Option<(int, int)>,
    pub max_dissat: Option<(int, int)>,
    pub exec_sat: Option<int>,
    pub exec_dissat: Option<int>,
}

/// An optional machine number as an optional unbounded number.
pub open spec fn ov(a: Option<usize>) -> Option<int> {
    match a {
        Some(x) => Some(x as int),
        None => None,
    }
}

/// An optional pair of machine numbers as an optional pair of unbounded numbers.
pub open spec fn pv(a: Option<(usize, usize)>) -> Option<(int, int)> {
    match a {
        Some((x, y)) => Some((x as int, y as int)),
        None => None,
    }
}

/// Sum of two optional numbers; absent when either is.
pub open spec fn opt_add(a: Option<int>, b: Option<int>) -> Option<int> {
    match (a, b) {
        (Some(x), Some(y)) => Some(x + y),
        _ => None,
    }
}

/// Larger of two optional numbers; absent when either is.
pub open spec fn opt_max(a: Option<int>, b: Option<int>) -> Option<int> {
    match (a, b) {
        (Some(x), Some(y)) => Some(if x >= y { x } else { y }),
        _ => None,
    }
}

/// Larger of two optional numbers, where an absent one is below every number.
pub open spec fn max_any(a: Option<int>, b: Option<int>) -> Option<int> {
    match (a, b) {
        (Some(x), Some(y)) => Some(if x >= y { x } else { y }),
        (Some(x), None) => Some(x),
        (None, b) => b,
    }
}

/// An optional number increased by `d`.
pub open spec fn opt_inc(a: Option<int>, d: int) -> Option<int> {
    match a {
        Some(x) => Some(x + d),
        None => None,
    }
}

/// Sum of two optional pairs, by component; absent when either is.
pub open spec fn pair_add(a: Option<(int, int)>, b: Option<(int, int)>) -> Option<(int, int)> {
    match (a, b) {
        (Some((x, y)), Some((u, v))) => Some((x + u, y + v)),
        _ => None,
    }
}

/// An optional pair increased by `(d, e)`.
pub open spec fn pair_inc(a: Option<(int, int)>, d: int, e: int) -> Option<(int, int)> {
    match a {
        Some((x, y)) => Some((x + d, y + e)),
        None => None,
    }
}

/// Larger of two optional pairs in lexicographic order, where an absent one
/// is below every pair.
pub open spec fn pair_max_any(a: Option<(int, int)>, b: Option<(int, int)>) -> Option<(int, int)> {
    match (a, b) {
        (Some((x, y)), Some((u, v))) => Some(
            if x > u || (x == u && y >= v) {
                (x, y)
            } else {
                (u, v)
            },
        ),
        (Some(p), None) => Some(p),
        (None, b) => b,
    }
}

/// Whether an optional number fits the machine word.
pub open spec fn opt_fits(a: Option<int>) -> bool {
    a matches Some(x) ==> 0 <= x <= usize::MAX
}

/// Whether both numbers of an optional pair fit the machine word.
pub open spec fn pair_fits(a: Option<(int, int)>) -> bool {
    a matches Some((x, y)) ==> 0 <= x <= usize::MAX && 0 <= y <= usize::MAX
}

/// An optional unbounded number as a machine number.
pub open spec fn on(a: Option<int>) -> Option<usize> {
    match a {
        Some(x) => Some(x as usize),
        None => None,
    }
}

/// An optional pair of unbounded numbers as machine numbers.
pub open spec fn pn(a: Option<(int, int)>) -> Option<(usize, usize)> {
    match a {
        Some((x, y)) => Some((x as usize, y as usize)),
        None => None,
    }
}

/// Bytes that a push of `len` bytes takes in a script.
pub open spec fn push_size(len: int) -> int {
    if len < 0x4c {
        len + 1
    } else if len < 0x100 {
        len + 2
    } else if len < 0x10000 {
        len + 3
    } else {
        len + 5
    }
}

impl Costs {
    /// Whether every number fits the machine word.
    pub open spec fn fits(self) -> bool {
        &&& 0 <= self.pk_cost <= usize::MAX
        &&& 0 <= self.ops_count <= usize::MAX
        &&& opt_fits(self.ops_sat)
        &&& opt_fits(self.ops_nsat)
        &&& opt_fits(self.stack_sat)
        &&& opt_fits(self.stack_dissat)
        &&& pair_fits(self.max_sat)
        &&& pair_fits(self.max_dissat)
        &&& opt_fits(self.exec_sat)
        &&& opt_fits(self.exec_dissat)
    }

    /// The annotations as machine numbers.
    pub open spec fn narrow(self) -> ExtData {
        ExtData {
            pk_cost: self.pk_cost as usize,
            has_free_verify: self.has_free_verify,
            ops: OpLimits {
                count: self.ops_count as usize,
                sat: on(self.ops_sat),
                nsat: on(self.ops_nsat),
            },
            stack_elem_count_sat: on(self.stack_sat),
            stack_elem_count_dissat: on(self.stack_dissat),
            max_sat_size: pn(self.max_sat),
            max_dissat_size: pn(self.max_dissat),
            exec_stack_elem_count_sat: on(self.exec_sat),
            exec_stack_elem_count_dissat: on(self.exec_dissat),
        }
    }

    /// The annotations as machine numbers, or the error when one does not fit.
    pub open spec fn checked(self) -> Result<ExtData, ErrorKind> {
        if self.fits() {
            Ok(self.narrow())
        } else {
            Err(ErrorKind::CostOverflow)
        }
    }

    /// `1`: one byte, satisfied by the empty witness, never dissatisfied.
    pub open spec fn from_true() -> Costs {
        Costs {
            pk_cost: 1,
            has_free_verify: false,
            ops_count: 0,
            ops_sat: Some(0),
            ops_nsat: None,
            stack_sat: Some(0),
            stack_dissat: None,
            max_sat: Some((0, 0)),
            max_dissat: None,
            exec_sat: Some(1),
            exec_dissat: None,
        }
    }

    /// `0`: one byte, dissatisfied by the empty witness, never satisfied.
    pub open spec fn from_false() -> Costs {
        Costs {
            pk_cost: 1,
            has_free_verify: false,
            ops_count: 0,
            ops_sat: None,
            ops_nsat: Some(0),
            stack_sat: None,
            stack_dissat: Some(0),
            max_sat: None,
            max_dissat: Some((0, 0)),
            exec_sat: None,
            exec_dissat: Some(1),
        }
    }

    /// A bare key: the push of the key; a signature satisfies it, an empty
    /// element dissatisfies it.
    pub open spec fn from_pk_k(sig: SigType) -> Costs {
        let s: int = if sig is Ecdsa {
            73
        } else {
            66
        };
        Costs {
            pk_cost: if sig is Ecdsa {
                34
            } else {
                33
            },
            has_free_verify: false,
            ops_count: 0,
            ops_sat: Some(0),
            ops_nsat: Some(0),
            stack_sat: Some(1),
            stack_dissat: Some(1),
            max_sat: Some((s, s)),
            max_dissat: Some((1, 1)),
            exec_sat: Some(1),
            exec_dissat: Some(1),
        }
    }

    /// A key given by its hash: the witness holds the key beside the signature.
    pub open spec fn from_pk_h(sig: SigType) -> Costs {
        let k: int = if sig is Ecdsa {
            34
        } else {
            33
        };
        let s: int = if sig is Ecdsa {
            73
        } else {
            66
        };
        Costs {
            pk_cost: 24,
            has_free_verify: false,
            ops_count: 3,
            ops_sat: Some(0),
            ops_nsat: Some(0),
            stack_sat: Some(2),
            stack_dissat: Some(2),
            max_sat: Some((k + s, k + s)),
            max_dissat: Some((k + 1, k + 1)),
            exec_sat: Some(2),
            exec_dissat: Some(2),
        }
    }

    /// `CHECKMULTISIG` of `k` among `n` keys: `k` signatures and one dummy element.
    pub open spec fn from_multi(k: usize, n: usize) -> Costs {
        Costs {
            pk_cost: script_num_size_spec(k) + 34 * n + script_num_size_spec(n) + 1,
            has_free_verify: true,
            ops_count: 1,
            ops_sat: Some(n as int),
            ops_nsat: Some(n as int),
            stack_sat: Some(k + 1),
            stack_dissat: Some(k + 1),
            max_sat: Some((1 + 73 * k, 1 + 73 * k)),
            max_dissat: Some((1 + k, 1 + k)),
            exec_sat: Some(n as int),
            exec_dissat: Some(n as int),
        }
    }

    /// `CHECKSIGADD` chain of `k` among `n` keys: one element for each key.
    pub open spec fn from_multi_a(k: usize, n: usize) -> Costs {
        Costs {
            pk_cost: script_num_size_spec(k) + 34 * n + 1,
            has_free_verify: true,
            ops_count: n as int,
            ops_sat: Some(0),
            ops_nsat: Some(0),
            stack_sat: Some(n as int),
            stack_dissat: Some(n as int),
            max_sat: Some((n - k + 66 * k, n - k + 66 * k)),
            max_dissat: Some((n as int, n as int)),
            exec_sat: Some(2),
            exec_dissat: Some(2),
        }
    }

    /// A hash preimage commitment over a digest of `digest` bytes.
    pub open spec fn from_hash(digest: int) -> Costs {
        Costs {
            pk_cost: digest + 7,
            has_free_verify: true,
            ops_count: 4,
            ops_sat: Some(0),
            ops_nsat: Some(0),
            stack_sat: Some(1),
            stack_dissat: Some(1),
            max_sat: Some((33, 33)),
            max_dissat: Some((33, 33)),
            exec_sat: Some(2),
            exec_dissat: Some(2),
        }
    }

    /// A timelock: the number and one opcode; the empty witness satisfies it.
    pub open spec fn from_time(t: u32) -> Costs {
        Costs {
            pk_cost: script_num_size_spec(t as usize) + 1,
            has_free_verify: false,
            ops_count: 1,
            ops_sat: Some(0),
            ops_nsat: None,
            stack_sat: Some(0),
            stack_dissat: None,
            max_sat: Some((0, 0)),
            max_dissat: None,
            exec_sat: Some(1),
            exec_dissat: None,
        }
    }

    /// A comparison of the transaction version with a four-byte constant.
    pub open spec fn from_version() -> Costs {
        Costs {
            pk_cost: 10,
            has_free_verify: true,
            ops_count: 4,
            ops_sat: Some(0),
            ops_nsat: Some(0),
            stack_sat: Some(0),
            stack_dissat: Some(0),
            max_sat: Some((0, 0)),
            max_dissat: Some((0, 0)),
            exec_sat: Some(2),
            exec_dissat: Some(2),
        }
    }

    /// A commitment to the outputs by a prefix of `len` bytes: the witness
    /// gives the rest in seven elements that together stay within one stack element.
    pub open spec fn from_outputs_pref(len: int) -> Costs {
        let rest: int = if len >= MAX_SCRIPT_ELEMENT_SIZE {
            0
        } else {
            MAX_SCRIPT_ELEMENT_SIZE - len
        };
        Costs {
            pk_cost: push_size(len) + 14,
            has_free_verify: true,
            ops_count: 13,
            ops_sat: Some(0),
            ops_nsat: Some(0),
            stack_sat: Some(7),
            stack_dissat: Some(7),
            max_sat: Some((rest + 7, rest + 7)),
            max_dissat: Some((rest + 7, rest + 7)),
            exec_sat: Some(8),
            exec_dissat: Some(8),
        }
    }

    /// `a:X`: two opcodes around `X`.
    pub open spec fn cast_alt(self) -> Costs {
        Costs {
            pk_cost: self.pk_cost + 2,
            has_free_verify: false,
            ops_count: self.ops_count + 2,
            ..self
        }
    }

    /// `s:X`: one opcode before `X`.
    pub open spec fn cast_swap(self) -> Costs {
        Costs { pk_cost: self.pk_cost + 1, ops_count: self.ops_count + 1, ..self }
    }

    /// `c:X`: one opcode after `X`.
    pub open spec fn cast_check(self) -> Costs {
        Costs {
            pk_cost: self.pk_cost + 1,
            has_free_verify: true,
            ops_count: self.ops_count + 1,
            ..self
        }
    }

    /// `d:X`: three opcodes; the witness says by one more element whether `X` runs.
    pub open spec fn cast_dupif(self) -> Costs {
        Costs {
            pk_cost: self.pk_cost + 3,
            has_free_verify: false,
            ops_count: self.ops_count + 3,
            ops_sat: self.ops_sat,
            ops_nsat: Some(0),
            stack_sat: opt_inc(self.stack_sat, 1),
            stack_dissat: Some(1),
            max_sat: pair_inc(self.max_sat, 2, 1),
            max_dissat: Some((1, 1)),
            exec_sat: self.exec_sat,
            exec_dissat: Some(1),
        }
    }

    /// `v:X`: one opcode, or none where the last opcode of `X` has a `VERIFY` form.
    pub open spec fn cast_verify(self) -> Costs {
        let c: int = if self.has_free_verify {
            0
        } else {
            1
        };
        Costs {
            pk_cost: self.pk_cost + c,
            has_free_verify: false,
            ops_count: self.ops_count + c,
            ops_sat: self.ops_sat,
            ops_nsat: None,
            stack_sat: self.stack_sat,
            stack_dissat: None,
            max_sat: self.max_sat,
            max_dissat: None,
            exec_sat: self.exec_sat,
            exec_dissat: None,
        }
    }

    /// `j:X`: four opcodes; an empty element dissatisfies it.
    pub open spec fn cast_nonzero(self) -> Costs {
        Costs {
            pk_cost: self.pk_cost + 4,
            has_free_verify: false,
            ops_count: self.ops_count + 4,
            ops_sat: self.ops_sat,
            ops_nsat: Some(0),
            stack_sat: self.stack_sat,
            stack_dissat: Some(1),
            max_sat: self.max_sat,
            max_dissat: Some((1, 1)),
            exec_sat: self.exec_sat,
            exec_dissat: Some(1),
        }
    }

    /// `n:X`: one opcode after `X`.
    pub open spec fn cast_zeronotequal(self) -> Costs {
        Costs {
            pk_cost: self.pk_cost + 1,
            has_free_verify: false,
            ops_count: self.ops_count + 1,
            ..self
        }
    }

    /// `and_b(X, Y)`: both run, whatever the outcome.
    pub open spec fn and_b(l: Costs, r: Costs) -> Costs {
        Costs {
            pk_cost: l.pk_cost + r.pk_cost + 1,
            has_free_verify: false,
            ops_count: l.ops_count + r.ops_count + 1,
            ops_sat: opt_add(l.ops_sat, r.ops_sat),
            ops_nsat: opt_add(l.ops_nsat, r.ops_nsat),
            stack_sat: opt_add(l.stack_sat, r.stack_sat),
            stack_dissat: opt_add(l.stack_dissat, r.stack_dissat),
            max_sat: pair_add(l.max_sat, r.max_sat),
            max_dissat: pair_add(l.max_dissat, r.max_dissat),
            exec_sat: opt_max(l.exec_sat, opt_inc(r.exec_sat, 1)),
            exec_dissat: opt_max(l.exec_dissat, opt_inc(r.exec_dissat, 1)),
        }
    }

    /// `and_v(X, Y)`: both must be satisfied; there is no dissatisfaction.
    pub open spec fn and_v(l: Costs, r: Costs) -> Costs {
        Costs {
            pk_cost: l.pk_cost + r.pk_cost,
            has_free_verify: r.has_free_verify,
            ops_count: l.ops_count + r.ops_count,
            ops_sat: opt_add(l.ops_sat, r.ops_sat),
            ops_nsat: None,
            stack_sat: opt_add(l.stack_sat, r.stack_sat),
            stack_dissat: None,
            max_sat: pair_add(l.max_sat, r.max_sat),
            max_dissat: None,
            exec_sat: opt_max(l.exec_sat, r.exec_sat),
            exec_dissat: None,
        }
    }

    /// `or_b(X, Y)`: both run; a satisfaction satisfies one and dissatisfies the other.
    pub open spec fn or_b(l: Costs, r: Costs) -> Costs {
        Costs {
            pk_cost: l.pk_cost + r.pk_cost + 1,
            has_free_verify: false,
            ops_count: l.ops_count + r.ops_count + 1,
            ops_sat: max_any(opt_add(l.ops_sat, r.ops_nsat), opt_add(l.ops_nsat, r.ops_sat)),
            ops_nsat: opt_add(l.ops_nsat, r.ops_nsat),
            stack_sat: max_any(
                opt_add(l.stack_sat, r.stack_dissat),
                opt_add(l.stack_dissat, r.stack_sat),
            ),
            stack_dissat: opt_add(l.stack_dissat, r.stack_dissat),
            max_sat: pair_max_any(
                pair_add(l.max_sat, r.max_dissat),
                pair_add(l.max_dissat, r.max_sat),
            ),
            max_dissat: pair_add(l.max_dissat, r.max_dissat),
            exec_sat: max_any(
                opt_max(l.exec_sat, opt_inc(r.exec_dissat, 1)),
                opt_max(l.exec_dissat, opt_inc(r.exec_sat, 1)),
            ),
            exec_dissat: opt_max(l.exec_dissat, opt_inc(r.exec_dissat, 1)),
        }
    }

    /// What the two cascading disjunctions share: `Y` runs only after `X` was dissatisfied.
    pub open spec fn cascade(l: Costs, r: Costs, overhead: int) -> Costs {
        Costs {
            pk_cost: l.pk_cost + r.pk_cost + overhead,
            has_free_verify: false,
            ops_count: l.ops_count + r.ops_count + overhead,
            ops_sat: max_any(l.ops_sat, opt_add(l.ops_nsat, r.ops_sat)),
            ops_nsat: opt_add(l.ops_nsat, r.ops_nsat),
            stack_sat: max_any(l.stack_sat, opt_add(l.stack_dissat, r.stack_sat)),
            stack_dissat: opt_add(l.stack_dissat, r.stack_dissat),
            max_sat: pair_max_any(l.max_sat, pair_add(l.max_dissat, r.max_sat)),
            max_dissat: pair_add(l.max_dissat, r.max_dissat),
            exec_sat: max_any(l.exec_sat, opt_max(r.exec_sat, l.exec_dissat)),
            exec_dissat: opt_max(l.exec_dissat, r.exec_dissat),
        }
    }

    /// `or_d(X, Y)`.
    pub open spec fn or_d(l: Costs, r: Costs) -> Costs {
        Self::cascade(l, r, 3)
    }

    /// `or_c(X, Y)`: as `or_d`, one opcode shorter and without a dissatisfaction.
    pub open spec fn or_c(l: Costs, r: Costs) -> Costs {
        Costs {
            ops_nsat: None,
            stack_dissat: None,
            max_dissat: None,
            exec_dissat: None,
            ..Self::cascade(l, r, 2)
        }
    }

    /// `or_i(X, Y)`: one more witness element chooses the branch that runs.
    pub open spec fn or_i(l: Costs, r: Costs) -> Costs {
        Costs {
            pk_cost: l.pk_cost + r.pk_cost + 3,
            has_free_verify: false,
            ops_count: l.ops_count + r.ops_count + 3,
            ops_sat: max_any(l.ops_sat, r.ops_sat),
            ops_nsat: max_any(l.ops_nsat, r.ops_nsat),
            stack_sat: opt_inc(max_any(l.stack_sat, r.stack_sat), 1),
            stack_dissat: opt_inc(max_any(l.stack_dissat, r.stack_dissat), 1),
            max_sat: pair_max_any(pair_inc(l.max_sat, 2, 1), pair_inc(r.max_sat, 1, 1)),
            max_dissat: pair_max_any(pair_inc(l.max_dissat, 2, 1), pair_inc(r.max_dissat, 1, 1)),
            exec_sat: max_any(l.exec_sat, r.exec_sat),
            exec_dissat: max_any(l.exec_dissat, r.exec_dissat),
        }
    }

    /// `andor(X, Y, Z)`: `Y` runs after `X` was satisfied, `Z` after it was not.
    pub open spec fn and_or(a: Costs, b: Costs, c: Costs) -> Costs {
        Costs {
            pk_cost: a.pk_cost + b.pk_cost + c.pk_cost + 3,
            has_free_verify: false,
            ops_count: a.ops_count + b.ops_count + c.ops_count + 3,
            ops_sat: max_any(opt_add(a.ops_sat, b.ops_sat), opt_add(a.ops_nsat, c.ops_sat)),
            ops_nsat: opt_add(a.ops_nsat, c.ops_nsat),
            stack_sat: max_any(
                opt_add(a.stack_sat, b.stack_sat),
                opt_add(a.stack_dissat, c.stack_sat),
            ),
            stack_dissat: opt_add(a.stack_dissat, c.stack_dissat),
            max_sat: pair_max_any(
                pair_add(a.max_sat, b.max_sat),
                pair_add(a.max_dissat, c.max_sat),
            ),
            max_dissat: pair_add(a.max_dissat, c.max_dissat),
            exec_sat: max_any(opt_max(a.exec_sat, b.exec_sat), opt_max(c.exec_sat, a.exec_dissat)),
            exec_dissat: opt_max(a.exec_dissat, c.exec_dissat),
        }
    }
}

impl ExtData {
    /// The annotations as unbounded numbers.
    pub open spec fn view(&self) -> Costs {
        Costs {
            pk_cost: self.pk_cost as int,
            has_free_verify: self.has_free_verify,
            ops_count: self.ops.count as int,
            ops_sat: ov(self.ops.sat),
            ops_nsat: ov(self.ops.nsat),
            stack_sat: ov(self.stack_elem_count_sat),
            stack_dissat: ov(self.stack_elem_count_dissat),
            max_sat: pv(self.max_sat_size),
            max_dissat: pv(self.max_dissat_size),
            exec_sat: ov(self.exec_stack_elem_count_sat),
            exec_dissat: ov(self.exec_stack_elem_count_dissat),
        }
    }
}

impl OpLimits {
    /// Most opcodes that a satisfaction runs.
    pub open spec fn op_count_spec(&self) -> Option<int> {
        opt_inc(ov(self.sat), self.count as int)
    }
}

/// An unbounded number as a machine number, or the error when it does not fit.
pub open spec fn checked_num(x: int) -> Result<usize, ErrorKind> {
    if 0 <= x <= usize::MAX {
        Ok(x as usize)
    } else {
        Err(ErrorKind::CostOverflow)
    }
}

/// An optional unbounded number as a machine number, or the error when it does not fit.
pub open spec fn checked_opt(x: Option<int>) -> Result<Option<usize>, ErrorKind> {
    if opt_fits(x) {
        Ok(on(x))
    } else {
        Err(ErrorKind::CostOverflow)
    }
}

/// An optional pair of unbounded numbers as machine numbers, or the error
/// when one does not fit.
pub open spec fn checked_pair(x: Option<(int, int)>) -> Result<Option<(usize, usize)>, ErrorKind> {
    if pair_fits(x) {
        Ok(pn(x))
    } else {
        Err(ErrorKind::CostOverflow)
    }
}

/// The sum of two numbers, where it fits.
fn sum(a: usize, b: usize) -> (r: Result<usize, ErrorKind>)
    ensures
        r == checked_num(a + b),
{
    match a.checked_add(b) {
        Some(v) => Ok(v),
        None => Err(ErrorKind::CostOverflow),
    }
}

/// The sum of three numbers, where it fits.
fn sum3(a: usize, b: usize, c: usize) -> (r: Result<usize, ErrorKind>)
    ensures
        r == checked_num(a + b + c),
{
    sum(sum(a, b)?, c)
}

/// An optional wide number as an optional unbounded number.
pub open spec fn wv(a: Option<u128>) -> Option<int> {
    match a {
        Some(x) => Some(x as int),
        None => None,
    }
}

/// An optional pair of wide numbers as an optional pair of unbounded numbers.
pub open spec fn wpv(a: Option<(u128, u128)>) -> Option<(int, int)> {
    match a {
        Some((x, y)) => Some((x as int, y as int)),
        None => None,
    }
}

/// Whether an optional number is small enough to take part in a few sums
/// of wide numbers.
pub open spec fn small(a: Option<int>) -> bool {
    a matches Some(x) ==> 0 <= x <= 0x1_0000_0000_0000_0000_0000
}

/// Whether both numbers of an optional pair are small in that sense.
pub open spec fn small_pair(a: Option<(int, int)>) -> bool {
    a matches Some((x, y)) ==> 0 <= x <= 0x1_0000_0000_0000_0000_0000 && 0 <= y
        <= 0x1_0000_0000_0000_0000_0000
}

/// An optional number in 128 bits.
fn wide(a: Option<usize>) -> (r: Option<u128>)
    ensures
        wv(r) == ov(a),
        small(wv(r)),
{
    match a {
        Some(x) => Some(x as u128),
        None => None,
    }
}

/// An optional pair of numbers in 128 bits.
fn wide_pair(a: Option<(usize, usize)>) -> (r: Option<(u128, u128)>)
    ensures
        wpv(r) == pv(a),
        small_pair(wpv(r)),
{
    match a {
        Some((x, y)) => Some((x as u128, y as u128)),
        None => None,
    }
}

/// An optional wide number in a machine word, where it fits.
fn narrow(a: Option<u128>) -> (r: Result<Option<usize>, ErrorKind>)
    ensures
        r == checked_opt(wv(a)),
{
    match a {
        Some(x) => {
            if x > usize::MAX as u128 {
                Err(ErrorKind::CostOverflow)
            } else {
                Ok(Some(x as usize))
            }
        },
        None => Ok(None),
    }
}

/// An optional pair of wide numbers in machine words, where both fit.
fn narrow_pair(a: Option<(u128, u128)>) -> (r: Result<Option<(usize, usize)>, ErrorKind>)
    ensures
        r == checked_pair(wpv(a)),
{
    match a {
        Some((x, y)) => {
            if x > usize::MAX as u128 || y > usize::MAX as u128 {
                Err(ErrorKind::CostOverflow)
            } else {
                Ok(Some((x as usize, y as usize)))
            }
        },
        None => Ok(None),
    }
}

/// The sum of two optional wide numbers, absent where either is.
fn sum_opt(a: Option<u128>, b: Option<u128>) -> (r: Option<u128>)
    requires
        small(wv(a)),
        small(wv(b)),
    ensures
        wv(r) == opt_add(wv(a), wv(b)),
{
    match (a, b) {
        (Some(x), Some(y)) => Some(x + y),
        _ => None,
    }
}

/// An optional wide number raised by `d`.
fn inc_opt(a: Option<u128>, d: u128) -> (r: Option<u128>)
    requires
        small(wv(a)),
        d <= 16,
    ensures
        wv(r) == opt_inc(wv(a), d as int),
{
    match a {
        Some(x) => Some(x + d),
        None => None,
    }
}

/// The larger of two optional wide numbers, absent where either is.
fn larger_opt(a: Option<u128>, b: Option<u128>) -> (r: Option<u128>)
    ensures
        wv(r) == opt_max(wv(a), wv(b)),
{
    match (a, b) {
        (Some(x), Some(y)) => Some(
            if x >= y {
                x
            } else {
                y
            },
        ),
        _ => None,
    }
}

/// The larger of two optional wide numbers, absent only where both are.
fn larger_any(a: Option<u128>, b: Option<u128>) -> (r: Option<u128>)
    ensures
        wv(r) == max_any(wv(a), wv(b)),
{
    match (a, b) {
        (Some(x), Some(y)) => Some(
            if x >= y {
                x
            } else {
                y
            },
        ),
        (Some(x), None) => Some(x),
        (None, b) => b,
    }
}

/// The sum of two optional pairs, field by field, absent where either is.
fn sum_pair(a: Option<(u128, u128)>, b: Option<(u128, u128)>) -> (r: Option<(u128, u128)>)
    requires
        small_pair(wpv(a)),
        small_pair(wpv(b)),
    ensures
        wpv(r) == pair_add(wpv(a), wpv(b)),
{
    match (a, b) {
        (Some((x, y)), Some((u, v))) => Some((x + u, y + v)),
        _ => None,
    }
}

/// An optional pair raised by `d` and `e`.
fn inc_pair(a: Option<(u128, u128)>, d: u128, e: u128) -> (r: Option<(u128, u128)>)
    requires
        small_pair(wpv(a)),
        d <= 16,
        e <= 16,
    ensures
        wpv(r) == pair_inc(wpv(a), d as int, e as int),
{
    match a {
        Some((x, y)) => Some((x + d, y + e)),
        None => None,
    }
}

/// The pair with the larger fields of two optional pairs, absent only where both are.
fn larger_pair(a: Option<(u128, u128)>, b: Option<(u128, u128)>) -> (r: Option<(u128, u128)>)
    ensures
        wpv(r) == pair_max_any(wpv(a), wpv(b)),
{
    match (a, b) {
        (Some((x, y)), Some((u, v))) => Some(
            if x > u || (x == u && y >= v) {
                (x, y)
            } else {
                (u, v)
            },
        ),
        (Some(p), None) => Some(p),
        (None, b) => b,
    }
}

/// Bytes that a push of `len` bytes takes in a script.
fn push_size_of(len: usize) -> (r: Result<usize, ErrorKind>)
    ensures
        r == checked_num(push_size(len as int)),
{
    if len < 0x4c {
        sum(len, 1)
    } else if len < 0x100 {
        sum(len, 2)
    } else if len < 0x10000 {
        sum(len, 3)
    } else {
        sum(len, 5)
    }
}

impl OpLimits {
    /// Most opcodes that a satisfaction runs, the static ones included;
    /// `None` if there is no satisfaction. The sum stops at the largest machine number.
    pub fn op_count(&self) -> (r: Option<usize>)
        ensures
            r == match self.op_count_spec() {
                Some(n) => Some(
                    if n > usize::MAX {
                        usize::MAX
                    } else {
                        n as usize
                    },
                ),
                None => None,
            },
    {
        match self.sat {
            Some(s) => Some(self.count.saturating_add(s)),
            None => None,
        }
    }
}

impl ExtData {
    /// Annotations that fit are their own checked form.
    pub proof fn lemma_view_checked(self)
        ensures
            self@.fits(),
            self@.narrow() == self,
            self@.checked() == Ok::<ExtData, ErrorKind>(self),
    {
    }

    /// `1`.
    pub fn from_true() -> (r: ExtData)
        ensures
            r@ == Costs::from_true(),
    {
        ExtData {
            pk_cost: 1,
            has_free_verify: false,
            ops: OpLimits { count: 0, sat: Some(0), nsat: None },
            stack_elem_count_sat: Some(0),
            stack_elem_count_dissat: None,
            max_sat_size: Some((0, 0)),
            max_dissat_size: None,
            exec_stack_elem_count_sat: Some(1),
            exec_stack_elem_count_dissat: None,
        }
    }

    /// `0`.
    pub fn from_false() -> (r: ExtData)
        ensures
            r@ == Costs::from_false(),
    {
        ExtData {
            pk_cost: 1,
            has_free_verify: false,
            ops: OpLimits { count: 0, sat: None, nsat: Some(0) },
            stack_elem_count_sat: None,
            stack_elem_count_dissat: Some(0),
            max_sat_size: None,
            max_dissat_size: Some((0, 0)),
            exec_stack_elem_count_sat: None,
            exec_stack_elem_count_dissat: Some(1),
        }
    }

    /// A bare key under the signature scheme `sig`.
    pub fn from_pk_k(sig: SigType) -> (r: ExtData)
        ensures
            r@ == Costs::from_pk_k(sig),
    {
        let (key, s): (usize, usize) = match sig {
            SigType::Ecdsa => (34, 73),
            SigType::Schnorr => (33, 66),
        };
        ExtData {
            pk_cost: key,
            has_free_verify: false,
            ops: OpLimits { count: 0, sat: Some(0), nsat: Some(0) },
            stack_elem_count_sat: Some(1),
            stack_elem_count_dissat: Some(1),
            max_sat_size: Some((s, s)),
            max_dissat_size: Some((1, 1)),
            exec_stack_elem_count_sat: Some(1),
            exec_stack_elem_count_dissat: Some(1),
        }
    }

    /// A key given by its hash under the signature scheme `sig`.
    pub fn from_pk_h(sig: SigType) -> (r: ExtData)
        ensures
            r@ == Costs::from_pk_h(sig),
    {
        let (key, s): (usize, usize) = match sig {
            SigType::Ecdsa => (34, 73),
            SigType::Schnorr => (33, 66),
        };
        ExtData {
            pk_cost: 24,
            has_free_verify: false,
            ops: OpLimits { count: 3, sat: Some(0), nsat: Some(0) },
            stack_elem_count_sat: Some(2),
            stack_elem_count_dissat: Some(2),
            max_sat_size: Some((key + s, key + s)),
            max_dissat_size: Some((key + 1, key + 1)),
            exec_stack_elem_count_sat: Some(2),
            exec_stack_elem_count_dissat: Some(2),
        }
    }

    /// `CHECKMULTISIG` of `k` among `n` keys.
    pub fn from_multi(k: usize, n: usize) -> (r: Result<ExtData, ErrorKind>)
        requires
            k <= n,
        ensures
            r == Costs::from_multi(k, n).checked(),
    {
        if n > usize::MAX / 34 || k > usize::MAX / 73 {
            return Err(ErrorKind::CostOverflow);
        }
        let keys: usize = 34 * n;
        let sigs: usize = 73 * k;
        let pk_cost = sum3(keys, script_num_size(k) + script_num_size(n), 1)?;
        let sat = sum(1, sigs)?;
        Ok(
            ExtData {
                pk_cost,
                has_free_verify: true,
                ops: OpLimits { count: 1, sat: Some(n), nsat: Some(n) },
                stack_elem_count_sat: Some(k + 1),
                stack_elem_count_dissat: Some(k + 1),
                max_sat_size: Some((sat, sat)),
                max_dissat_size: Some((1 + k, 1 + k)),
                exec_stack_elem_count_sat: Some(n),
                exec_stack_elem_count_dissat: Some(n),
            },
        )
    }

    /// `CHECKSIGADD` chain of `k` among `n` keys.
    pub fn from_multi_a(k: usize, n: usize) -> (r: Result<ExtData, ErrorKind>)
        requires
            k <= n,
        ensures
            r == Costs::from_multi_a(k, n).checked(),
    {
        if n > usize::MAX / 34 || k > usize::MAX / 66 {
            return Err(ErrorKind::CostOverflow);
        }
        let keys: usize = 34 * n;
        let sigs: usize = 66 * k;
        let pk_cost = sum3(keys, script_num_size(k), 1)?;
        let sat = sum(n - k, sigs)?;
        Ok(
            ExtData {
                pk_cost,
                has_free_verify: true,
                ops: OpLimits { count: n, sat: Some(0), nsat: Some(0) },
                stack_elem_count_sat: Some(n),
                stack_elem_count_dissat: Some(n),
                max_sat_size: Some((sat, sat)),
                max_dissat_size: Some((n, n)),
                exec_stack_elem_count_sat: Some(2),
                exec_stack_elem_count_dissat: Some(2),
            },
        )
    }

    /// A hash preimage commitment over a digest of 20 or of 32 bytes.
    pub fn from_hash(digest: usize) -> (r: ExtData)
        requires
            digest == 20 || digest == 32,
        ensures
            r@ == Costs::from_hash(digest as int),
    {
        ExtData {
            pk_cost: digest + 7,
            has_free_verify: true,
            ops: OpLimits { count: 4, sat: Some(0), nsat: Some(0) },
            stack_elem_count_sat: Some(1),
            stack_elem_count_dissat: Some(1),
            max_sat_size: Some((33, 33)),
            max_dissat_size: Some((33, 33)),
            exec_stack_elem_count_sat: Some(2),
            exec_stack_elem_count_dissat: Some(2),
        }
    }

    /// A timelock of `t`.
    pub fn from_time(t: u32) -> (r: ExtData)
        ensures
            r@ == Costs::from_time(t),
    {
        ExtData {
            pk_cost: script_num_size(t as usize) + 1,
            has_free_verify: false,
            ops: OpLimits { count: 1, sat: Some(0), nsat: None },
            stack_elem_count_sat: Some(0),
            stack_elem_count_dissat: None,
            max_sat_size: Some((0, 0)),
            max_dissat_size: None,
            exec_stack_elem_count_sat: Some(1),
            exec_stack_elem_count_dissat: None,
        }
    }

    /// A comparison of the transaction version with a constant.
    pub fn from_version() -> (r: ExtData)
        ensures
            r@ == Costs::from_version(),
    {
        ExtData {
            pk_cost: 10,
            has_free_verify: true,
            ops: OpLimits { count: 4, sat: Some(0), nsat: Some(0) },
            stack_elem_count_sat: Some(0),
            stack_elem_count_dissat: Some(0),
            max_sat_size: Some((0, 0)),
            max_dissat_size: Some((0, 0)),
            exec_stack_elem_count_sat: Some(2),
            exec_stack_elem_count_dissat: Some(2),
        }
    }

    /// A commitment to the outputs by a prefix of `len` bytes.
    pub fn from_outputs_pref(len: usize) -> (r: Result<ExtData, ErrorKind>)
        ensures
            r == Costs::from_outputs_pref(len as int).checked(),
    {
        let rest: usize = if len >= MAX_SCRIPT_ELEMENT_SIZE {
            0
        } else {
            MAX_SCRIPT_ELEMENT_SIZE - len
        };
        let pk_cost = sum(push_size_of(len)?, 14)?;
        Ok(
            ExtData {
                pk_cost,
                has_free_verify: true,
                ops: OpLimits { count: 13, sat: Some(0), nsat: Some(0) },
                stack_elem_count_sat: Some(7),
                stack_elem_count_dissat: Some(7),
                max_sat_size: Some((rest + 7, rest + 7)),
                max_dissat_size: Some((rest + 7, rest + 7)),
                exec_stack_elem_count_sat: Some(8),
                exec_stack_elem_count_dissat: Some(8),
            },
        )
    }

    /// `a:X`.
    pub fn cast_alt(self) -> (r: Result<ExtData, ErrorKind>)
        ensures
            r == self@.cast_alt().checked(),
    {
        Ok(
            ExtData {
                pk_cost: sum(self.pk_cost, 2)?,
                has_free_verify: false,
                ops: OpLimits {
                    count: sum(self.ops.count, 2)?,
                    sat: self.ops.sat,
                    nsat: self.ops.nsat,
                },
                ..self
            },
        )
    }

    /// `s:X`.
    pub fn cast_swap(self) -> (r: Result<ExtData, ErrorKind>)
        ensures
            r == self@.cast_swap().checked(),
    {
        Ok(
            ExtData {
                pk_cost: sum(self.pk_cost, 1)?,
                ops: OpLimits {
                    count: sum(self.ops.count, 1)?,
                    sat: self.ops.sat,
                    nsat: self.ops.nsat,
                },
                ..self
            },
        )
    }

    /// `c:X`.
    pub fn cast_check(self) -> (r: Result<ExtData, ErrorKind>)
        ensures
            r == self@.cast_check().checked(),
    {
        Ok(
            ExtData {
                pk_cost: sum(self.pk_cost, 1)?,
                has_free_verify: true,
                ops: OpLimits {
                    count: sum(self.ops.count, 1)?,
                    sat: self.ops.sat,
                    nsat: self.ops.nsat,
                },
                ..self
            },
        )
    }

    /// `d:X`.
    pub fn cast_dupif(self) -> (r: Result<ExtData, ErrorKind>)
        ensures
            r == self@.cast_dupif().checked(),
    {
        Ok(
            ExtData {
                pk_cost: sum(self.pk_cost, 3)?,
                has_free_verify: false,
                ops: OpLimits {
                    count: sum(self.ops.count, 3)?,
                    sat: self.ops.sat,
                    nsat: Some(0),
                },
                stack_elem_count_sat: narrow(inc_opt(wide(self.stack_elem_count_sat), 1))?,
                stack_elem_count_dissat: Some(1),
                max_sat_size: narrow_pair(inc_pair(wide_pair(self.max_sat_size), 2, 1))?,
                max_dissat_size: Some((1, 1)),
                exec_stack_elem_count_sat: self.exec_stack_elem_count_sat,
                exec_stack_elem_count_dissat: Some(1),
            },
        )
    }

    /// `v:X`.
    pub fn cast_verify(self) -> (r: Result<ExtData, ErrorKind>)
        ensures
            r == self@.cast_verify().checked(),
    {
        let c: usize = if self.has_free_verify {
            0
        } else {
            1
        };
        Ok(
            ExtData {
                pk_cost: sum(self.pk_cost, c)?,
                has_free_verify: false,
                ops: OpLimits { count: sum(self.ops.count, c)?, sat: self.ops.sat, nsat: None },
                stack_elem_count_sat: self.stack_elem_count_sat,
                stack_elem_count_dissat: None,
                max_sat_size: self.max_sat_size,
                max_dissat_size: None,
                exec_stack_elem_count_sat: self.exec_stack_elem_count_sat,
                exec_stack_elem_count_dissat: None,
            },
        )
    }

    /// `j:X`.
    pub fn cast_nonzero(self) -> (r: Result<ExtData, ErrorKind>)
        ensures
            r == self@.cast_nonzero().checked(),
    {
        Ok(
            ExtData {
                pk_cost: sum(self.pk_cost, 4)?,
                has_free_verify: false,
                ops: OpLimits {
                    count: sum(self.ops.count, 4)?,
                    sat: self.ops.sat,
                    nsat: Some(0),
                },
                stack_elem_count_sat: self.stack_elem_count_sat,
                stack_elem_count_dissat: Some(1),
                max_sat_size: self.max_sat_size,
                max_dissat_size: Some((1, 1)),
                exec_stack_elem_count_sat: self.exec_stack_elem_count_sat,
                exec_stack_elem_count_dissat: Some(1),
            },
        )
    }

    /// `n:X`.
    pub fn cast_zeronotequal(self) -> (r: Result<ExtData, ErrorKind>)
        ensures
            r == self@.cast_zeronotequal().checked(),
    {
        Ok(
            ExtData {
                pk_cost: sum(self.pk_cost, 1)?,
                has_free_verify: false,
                ops: OpLimits {
                    count: sum(self.ops.count, 1)?,
                    sat: self.ops.sat,
                    nsat: self.ops.nsat,
                },
                ..self
            },
        )
    }

    /// `and_b(X, Y)`.
    pub fn and_b(l: ExtData, r: ExtData) -> (res: Result<ExtData, ErrorKind>)
        ensures
            res == Costs::and_b(l@, r@).checked(),
    {
        let pk_cost = sum3(l.pk_cost, r.pk_cost, 1)?;
        let count = sum3(l.ops.count, r.ops.count, 1)?;
        let sat = narrow(sum_opt(wide(l.ops.sat), wide(r.ops.sat)))?;
        let nsat = narrow(sum_opt(wide(l.ops.nsat), wide(r.ops.nsat)))?;
        let stack_sat = narrow(
            sum_opt(wide(l.stack_elem_count_sat), wide(r.stack_elem_count_sat)),
        )?;
        let stack_dissat = narrow(
            sum_opt(wide(l.stack_elem_count_dissat), wide(r.stack_elem_count_dissat)),
        )?;
        let max_sat = narrow_pair(sum_pair(wide_pair(l.max_sat_size), wide_pair(r.max_sat_size)))?;
        let max_dissat = narrow_pair(
            sum_pair(wide_pair(l.max_dissat_size), wide_pair(r.max_dissat_size)),
        )?;
        let exec_sat = narrow(
            larger_opt(
                wide(l.exec_stack_elem_count_sat),
                inc_opt(wide(r.exec_stack_elem_count_sat), 1),
            ),
        )?;
        let exec_dissat = narrow(
            larger_opt(
                wide(l.exec_stack_elem_count_dissat),
                inc_opt(wide(r.exec_stack_elem_count_dissat), 1),
            ),
        )?;
        Ok(
            ExtData {
                pk_cost,
                has_free_verify: false,
                ops: OpLimits { count, sat, nsat },
                stack_elem_count_sat: stack_sat,
                stack_elem_count_dissat: stack_dissat,
                max_sat_size: max_sat,
                max_dissat_size: max_dissat,
                exec_stack_elem_count_sat: exec_sat,
                exec_stack_elem_count_dissat: exec_dissat,
            },
        )
    }

    /// `and_v(X, Y)`.
    pub fn and_v(l: ExtData, r: ExtData) -> (res: Result<ExtData, ErrorKind>)
        ensures
            res == Costs::and_v(l@, r@).checked(),
    {
        let pk_cost = sum(l.pk_cost, r.pk_cost)?;
        let count = sum(l.ops.count, r.ops.count)?;
        let sat = narrow(sum_opt(wide(l.ops.sat), wide(r.ops.sat)))?;
        let stack_sat = narrow(
            sum_opt(wide(l.stack_elem_count_sat), wide(r.stack_elem_count_sat)),
        )?;
        let max_sat = narrow_pair(sum_pair(wide_pair(l.max_sat_size), wide_pair(r.max_sat_size)))?;
        let exec_sat = narrow(
            larger_opt(wide(l.exec_stack_elem_count_sat), wide(r.exec_stack_elem_count_sat)),
        )?;
        Ok(
            ExtData {
                pk_cost,
                has_free_verify: r.has_free_verify,
                ops: OpLimits { count, sat, nsat: None },
                stack_elem_count_sat: stack_sat,
                stack_elem_count_dissat: None,
                max_sat_size: max_sat,
                max_dissat_size: None,
                exec_stack_elem_count_sat: exec_sat,
                exec_stack_elem_count_dissat: None,
            },
        )
    }

    /// `or_b(X, Y)`.
    pub fn or_b(l: ExtData, r: ExtData) -> (res: Result<ExtData, ErrorKind>)
        ensures
            res == Costs::or_b(l@, r@).checked(),
    {
        let pk_cost = sum3(l.pk_cost, r.pk_cost, 1)?;
        let count = sum3(l.ops.count, r.ops.count, 1)?;
        let sat = narrow(
            larger_any(
                sum_opt(wide(l.ops.sat), wide(r.ops.nsat)),
                sum_opt(wide(l.ops.nsat), wide(r.ops.sat)),
            ),
        )?;
        let nsat = narrow(sum_opt(wide(l.ops.nsat), wide(r.ops.nsat)))?;
        let stack_sat = narrow(
            larger_any(
                sum_opt(wide(l.stack_elem_count_sat), wide(r.stack_elem_count_dissat)),
                sum_opt(wide(l.stack_elem_count_dissat), wide(r.stack_elem_count_sat)),
            ),
        )?;
        let stack_dissat = narrow(
            sum_opt(wide(l.stack_elem_count_dissat), wide(r.stack_elem_count_dissat)),
        )?;
        let max_sat = narrow_pair(
            larger_pair(
                sum_pair(wide_pair(l.max_sat_size), wide_pair(r.max_dissat_size)),
                sum_pair(wide_pair(l.max_dissat_size), wide_pair(r.max_sat_size)),
            ),
        )?;
        let max_dissat = narrow_pair(
            sum_pair(wide_pair(l.max_dissat_size), wide_pair(r.max_dissat_size)),
        )?;
        let exec_sat = narrow(
            larger_any(
                larger_opt(
                    wide(l.exec_stack_elem_count_sat),
                    inc_opt(wide(r.exec_stack_elem_count_dissat), 1),
                ),
                larger_opt(
                    wide(l.exec_stack_elem_count_dissat),
                    inc_opt(wide(r.exec_stack_elem_count_sat), 1),
                ),
            ),
        )?;
        let exec_dissat = narrow(
            larger_opt(
                wide(l.exec_stack_elem_count_dissat),
                inc_opt(wide(r.exec_stack_elem_count_dissat), 1),
            ),
        )?;
        Ok(
            ExtData {
                pk_cost,
                has_free_verify: false,
                ops: OpLimits { count, sat, nsat },
                stack_elem_count_sat: stack_sat,
                stack_elem_count_dissat: stack_dissat,
                max_sat_size: max_sat,
                max_dissat_size: max_dissat,
                exec_stack_elem_count_sat: exec_sat,
                exec_stack_elem_count_dissat: exec_dissat,
            },
        )
    }

    /// The costs of a disjunction that runs its right child only where the left one fails.
    fn cascade(l: ExtData, r: ExtData, overhead: usize) -> (res: Result<ExtData, ErrorKind>)
        ensures
            res == Costs::cascade(l@, r@, overhead as int).checked(),
    {
        let pk_cost = sum3(l.pk_cost, r.pk_cost, overhead)?;
        let count = sum3(l.ops.count, r.ops.count, overhead)?;
        let sat = narrow(
            larger_any(wide(l.ops.sat), sum_opt(wide(l.ops.nsat), wide(r.ops.sat))),
        )?;
        let nsat = narrow(sum_opt(wide(l.ops.nsat), wide(r.ops.nsat)))?;
        let stack_sat = narrow(
            larger_any(
                wide(l.stack_elem_count_sat),
                sum_opt(wide(l.stack_elem_count_dissat), wide(r.stack_elem_count_sat)),
            ),
        )?;
        let stack_dissat = narrow(
            sum_opt(wide(l.stack_elem_count_dissat), wide(r.stack_elem_count_dissat)),
        )?;
        let max_sat = narrow_pair(
            larger_pair(
                wide_pair(l.max_sat_size),
                sum_pair(wide_pair(l.max_dissat_size), wide_pair(r.max_sat_size)),
            ),
        )?;
        let max_dissat = narrow_pair(
            sum_pair(wide_pair(l.max_dissat_size), wide_pair(r.max_dissat_size)),
        )?;
        let exec_sat = narrow(
            larger_any(
                wide(l.exec_stack_elem_count_sat),
                larger_opt(
                    wide(r.exec_stack_elem_count_sat),
                    wide(l.exec_stack_elem_count_dissat),
                ),
            ),
        )?;
        let exec_dissat = narrow(
            larger_opt(
                wide(l.exec_stack_elem_count_dissat),
                wide(r.exec_stack_elem_count_dissat),
            ),
        )?;
        Ok(
            ExtData {
                pk_cost,
                has_free_verify: false,
                ops: OpLimits { count, sat, nsat },
                stack_elem_count_sat: stack_sat,
                stack_elem_count_dissat: stack_dissat,
                max_sat_size: max_sat,
                max_dissat_size: max_dissat,
                exec_stack_elem_count_sat: exec_sat,
                exec_stack_elem_count_dissat: exec_dissat,
            },
        )
    }

    /// `or_d(X, Y)`.
    pub fn or_d(l: ExtData, r: ExtData) -> (res: Result<ExtData, ErrorKind>)
        ensures
            res == Costs::or_d(l@, r@).checked(),
    {
        Self::cascade(l, r, 3)
    }

    /// `or_c(X, Y)`.
    pub fn or_c(l: ExtData, r: ExtData) -> (res: Result<ExtData, ErrorKind>)
        ensures
            res == Costs::or_c(l@, r@).checked(),
    {
        let pk_cost = sum3(l.pk_cost, r.pk_cost, 2)?;
        let count = sum3(l.ops.count, r.ops.count, 2)?;
        let sat = narrow(
            larger_any(wide(l.ops.sat), sum_opt(wide(l.ops.nsat), wide(r.ops.sat))),
        )?;
        let stack_sat = narrow(
            larger_any(
                wide(l.stack_elem_count_sat),
                sum_opt(wide(l.stack_elem_count_dissat), wide(r.stack_elem_count_sat)),
            ),
        )?;
        let max_sat = narrow_pair(
            larger_pair(
                wide_pair(l.max_sat_size),
                sum_pair(wide_pair(l.max_dissat_size), wide_pair(r.max_sat_size)),
            ),
        )?;
        let exec_sat = narrow(
            larger_any(
                wide(l.exec_stack_elem_count_sat),
                larger_opt(
                    wide(r.exec_stack_elem_count_sat),
                    wide(l.exec_stack_elem_count_dissat),
                ),
            ),
        )?;
        Ok(
            ExtData {
                pk_cost,
                has_free_verify: false,
                ops: OpLimits { count, sat, nsat: None },
                stack_elem_count_sat: stack_sat,
                stack_elem_count_dissat: None,
                max_sat_size: max_sat,
                max_dissat_size: None,
                exec_stack_elem_count_sat: exec_sat,
                exec_stack_elem_count_dissat: None,
            },
        )
    }

    /// `or_i(X, Y)`.
    pub fn or_i(l: ExtData, r: ExtData) -> (res: Result<ExtData, ErrorKind>)
        ensures
            res == Costs::or_i(l@, r@).checked(),
    {
        let pk_cost = sum3(l.pk_cost, r.pk_cost, 3)?;
        let count = sum3(l.ops.count, r.ops.count, 3)?;
        let sat = narrow(larger_any(wide(l.ops.sat), wide(r.ops.sat)))?;
        let nsat = narrow(larger_any(wide(l.ops.nsat), wide(r.ops.nsat)))?;
        let stack_sat = narrow(
            inc_opt(larger_any(wide(l.stack_elem_count_sat), wide(r.stack_elem_count_sat)), 1),
        )?;
        let stack_dissat = narrow(
            inc_opt(
                larger_any(wide(l.stack_elem_count_dissat), wide(r.stack_elem_count_dissat)),
                1,
            ),
        )?;
        let max_sat = narrow_pair(
            larger_pair(
                inc_pair(wide_pair(l.max_sat_size), 2, 1),
                inc_pair(wide_pair(r.max_sat_size), 1, 1),
            ),
        )?;
        let max_dissat = narrow_pair(
            larger_pair(
                inc_pair(wide_pair(l.max_dissat_size), 2, 1),
                inc_pair(wide_pair(r.max_dissat_size), 1, 1),
            ),
        )?;
        let exec_sat = narrow(
            larger_any(wide(l.exec_stack_elem_count_sat), wide(r.exec_stack_elem_count_sat)),
        )?;
        let exec_dissat = narrow(
            larger_any(
                wide(l.exec_stack_elem_count_dissat),
                wide(r.exec_stack_elem_count_dissat),
            ),
        )?;
        Ok(
            ExtData {
                pk_cost,
                has_free_verify: false,
                ops: OpLimits { count, sat, nsat },
                stack_elem_count_sat: stack_sat,
                stack_elem_count_dissat: stack_dissat,
                max_sat_size: max_sat,
                max_dissat_size: max_dissat,
                exec_stack_elem_count_sat: exec_sat,
                exec_stack_elem_count_dissat: exec_dissat,
            },
        )
    }

    /// `andor(X, Y, Z)`.
    pub fn and_or(a: ExtData, b: ExtData, c: ExtData) -> (res: Result<ExtData, ErrorKind>)
        ensures
            res == Costs::and_or(a@, b@, c@).checked(),
    {
        let pk_cost = sum(sum3(a.pk_cost, b.pk_cost, c.pk_cost)?, 3)?;
        let count = sum(sum3(a.ops.count, b.ops.count, c.ops.count)?, 3)?;
        let sat = narrow(
            larger_any(
                sum_opt(wide(a.ops.sat), wide(b.ops.sat)),
                sum_opt(wide(a.ops.nsat), wide(c.ops.sat)),
            ),
        )?;
        let nsat = narrow(sum_opt(wide(a.ops.nsat), wide(c.ops.nsat)))?;
        let stack_sat = narrow(
            larger_any(
                sum_opt(wide(a.stack_elem_count_sat), wide(b.stack_elem_count_sat)),
                sum_opt(wide(a.stack_elem_count_dissat), wide(c.stack_elem_count_sat)),
            ),
        )?;
        let stack_dissat = narrow(
            sum_opt(wide(a.stack_elem_count_dissat), wide(c.stack_elem_count_dissat)),
        )?;
        let max_sat = narrow_pair(
            larger_pair(
                sum_pair(wide_pair(a.max_sat_size), wide_pair(b.max_sat_size)),
                sum_pair(wide_pair(a.max_dissat_size), wide_pair(c.max_sat_size)),
            ),
        )?;
        let max_dissat = narrow_pair(
            sum_pair(wide_pair(a.max_dissat_size), wide_pair(c.max_dissat_size)),
        )?;
        let exec_sat = narrow(
            larger_any(
                larger_opt(wide(a.exec_stack_elem_count_sat), wide(b.exec_stack_elem_count_sat)),
                larger_opt(
                    wide(c.exec_stack_elem_count_sat),
                    wide(a.exec_stack_elem_count_dissat),
                ),
            ),
        )?;
        let exec_dissat = narrow(
            larger_opt(
                wide(a.exec_stack_elem_count_dissat),
                wide(c.exec_stack_elem_count_dissat),
            ),
        )?;
        Ok(
            ExtData {
                pk_cost,
                has_free_verify: false,
                ops: OpLimits { count, sat, nsat },
                stack_elem_count_sat: stack_sat,
                stack_elem_count_dissat: stack_dissat,
                max_sat_size: max_sat,
                max_dissat_size: max_dissat,
                exec_stack_elem_count_sat: exec_sat,
                exec_stack_elem_count_dissat: exec_dissat,
            },
        )
    }
}

/// A quantity of a witness of which the largest is wanted.
#[derive(Clone, Copy, Debug, PartialEq, Eq, Structural)]
pub enum Measure {
    /// Opcodes that run.
    Ops,
    /// Witness elements.
    Stack,
    /// Bytes as a witness.
    Witness,
    /// Bytes as a script signature.
    ScriptSig,
}

impl Costs {
    /// The measure `m` of the costliest satisfaction.
    pub open spec fn sat_of(self, m: Measure) -> Option<int> {
        match m {
            Measure::Ops => self.ops_sat,
            Measure::Stack => self.stack_sat,
            Measure::Witness => match self.max_sat {
                Some((w, _)) => Some(w),
                None => None,
            },
            Measure::ScriptSig => match self.max_sat {
                Some((_, s)) => Some(s),
                None => None,
            },
        }
    }

    /// The measure `m` of the costliest dissatisfaction.
    pub open spec fn dissat_of(self, m: Measure) -> Option<int> {
        match m {
            Measure::Ops => self.ops_nsat,
            Measure::Stack => self.stack_dissat,
            Measure::Witness => match self.max_dissat {
                Some((w, _)) => Some(w),
                None => None,
            },
            Measure::ScriptSig => match self.max_dissat {
                Some((_, s)) => Some(s),
                None => None,
            },
        }
    }

    /// The largest total of the measure `m` over the ways to satisfy exactly
    /// `j` of the first `i` children and to dissatisfy the others; absent
    /// when there is no such way.
    pub open spec fn thresh_best(subs: Seq<ExtData>, m: Measure, i: int, j: int) -> Option<int>
        decreases i,
    {
        if i <= 0 {
            if j == 0 {
                Some(0)
            } else {
                None
            }
        } else {
            max_any(
                if j > 0 {
                    opt_add(Self::thresh_best(subs, m, i - 1, j - 1), subs[i - 1]@.sat_of(m))
                } else {
                    None
                },
                opt_add(Self::thresh_best(subs, m, i - 1, j), subs[i - 1]@.dissat_of(m)),
            )
        }
    }

    /// Script bytes of the first `i` children together.
    pub open spec fn total_pk_cost(subs: Seq<ExtData>, i: int) -> int
        decreases i,
    {
        if i <= 0 {
            0
        } else {
            Self::total_pk_cost(subs, i - 1) + subs[i - 1].pk_cost
        }
    }

    /// Opcodes that the scripts of the first `i` children hold together.
    pub open spec fn total_ops_count(subs: Seq<ExtData>, i: int) -> int
        decreases i,
    {
        if i <= 0 {
            0
        } else {
            Self::total_ops_count(subs, i - 1) + subs[i - 1].ops.count
        }
    }

    /// Most stack elements while one of the first `i` children runs to the
    /// outcome `sat`; absent when one of them has no such outcome.
    pub open spec fn exec_max(subs: Seq<ExtData>, sat: bool, i: int) -> Option<int>
        decreases i,
    {
        if i <= 0 {
            Some(0)
        } else {
            opt_max(
                Self::exec_max(subs, sat, i - 1),
                if sat {
                    subs[i - 1]@.exec_sat
                } else {
                    subs[i - 1]@.exec_dissat
                },
            )
        }
    }

    /// A threshold of `k` over the children `subs`: an `ADD` after each child
    /// but the first, then `k` and `EQUAL`. A satisfaction satisfies `k`
    /// children and dissatisfies the others; a dissatisfaction dissatisfies all.
    pub open spec fn threshold(k: usize, subs: Seq<ExtData>) -> Costs {
        let n = subs.len() as int;
        Costs {
            pk_cost: Self::total_pk_cost(subs, n) + n + script_num_size_spec(k),
            has_free_verify: true,
            ops_count: Self::total_ops_count(subs, n) + n,
            ops_sat: Self::thresh_best(subs, Measure::Ops, n, k as int),
            ops_nsat: Self::thresh_best(subs, Measure::Ops, n, 0),
            stack_sat: Self::thresh_best(subs, Measure::Stack, n, k as int),
            stack_dissat: Self::thresh_best(subs, Measure::Stack, n, 0),
            max_sat: match (
                Self::thresh_best(subs, Measure::Witness, n, k as int),
                Self::thresh_best(subs, Measure::ScriptSig, n, k as int),
            ) {
                (Some(w), Some(s)) => Some((w, s)),
                _ => None,
            },
            max_dissat: match (
                Self::thresh_best(subs, Measure::Witness, n, 0),
                Self::thresh_best(subs, Measure::ScriptSig, n, 0),
            ) {
                (Some(w), Some(s)) => Some((w, s)),
                _ => None,
            },
            exec_sat: Self::exec_max(subs, true, n),
            exec_dissat: Self::exec_max(subs, false, n),
        }
    }

    /// The totals over the children are not negative.
    pub proof fn lemma_totals_nonnegative(subs: Seq<ExtData>, i: int)
        ensures
            Self::total_pk_cost(subs, i) >= 0,
            Self::total_ops_count(subs, i) >= 0,
        decreases i,
    {
        if i > 0 {
            Self::lemma_totals_nonnegative(subs, i - 1);
        }
    }
}

impl ExtData {
    /// What a satisfaction costs in the measure `m`, in 128 bits.
    fn sat_of(&self, m: Measure) -> (r: Option<u128>)
        ensures
            wv(r) == self@.sat_of(m),
            small(wv(r)),
            r matches Some(v) ==> v <= 0xFFFF_FFFF_FFFF_FFFF,
    {
        match m {
            Measure::Ops => wide(self.ops.sat),
            Measure::Stack => wide(self.stack_elem_count_sat),
            Measure::Witness => match self.max_sat_size {
                Some((w, _)) => Some(w as u128),
                None => None,
            },
            Measure::ScriptSig => match self.max_sat_size {
                Some((_, s)) => Some(s as u128),
                None => None,
            },
        }
    }

    /// What a dissatisfaction costs in the measure `m`, in 128 bits.
    fn dissat_of(&self, m: Measure) -> (r: Option<u128>)
        ensures
            wv(r) == self@.dissat_of(m),
            small(wv(r)),
            r matches Some(v) ==> v <= 0xFFFF_FFFF_FFFF_FFFF,
    {
        match m {
            Measure::Ops => wide(self.ops.nsat),
            Measure::Stack => wide(self.stack_elem_count_dissat),
            Measure::Witness => match self.max_dissat_size {
                Some((w, _)) => Some(w as u128),
                None => None,
            },
            Measure::ScriptSig => match self.max_dissat_size {
                Some((_, s)) => Some(s as u128),
                None => None,
            },
        }
    }

    /// The largest totals of the measure `m` over the ways to satisfy exactly
    /// `k` of the children, and over the way to satisfy none.
    fn thresh_best(subs: &Vec<ExtData>, m: Measure, k: usize) -> (r: (Option<u128>, Option<u128>))
        requires
            k <= subs.len(),
            k < usize::MAX,
        ensures
            wv(r.0) == Costs::thresh_best(subs@, m, subs.len() as int, k as int),
            wv(r.1) == Costs::thresh_best(subs@, m, subs.len() as int, 0),
    {
        let n = subs.len();
        let mut row: Vec<Option<u128>> = Vec::new();
        row.push(Some(0));
        let mut c: usize = 0;
        while c < k
            invariant
                c <= k,
                k < usize::MAX,
                row.len() == c + 1,
                row[0] == Some(0u128),
                forall|j: int| 1 <= j <= c ==> (#[trigger] row[j]) is None,
            decreases k - c,
        {
            row.push(None);
            c += 1;
        }
        let mut i: usize = 0;
        while i < n
            invariant
                i <= n,
                n == subs.len(),
                k <= n,
                row.len() == k + 1,
                forall|j: int|
                    0 <= j <= k ==> wv(#[trigger] row[j]) == Costs::thresh_best(
                        subs@,
                        m,
                        i as int,
                        j,
                    ),
                forall|j: int|
                    0 <= j <= k ==> ((#[trigger] row[j]) matches Some(v) ==> v <= i
                        * 0xFFFF_FFFF_FFFF_FFFF),
            decreases n - i,
        {
            let sat = subs[i].sat_of(m);
            let dissat = subs[i].dissat_of(m);
            let mut j: usize = k + 1;
            while j > 0
                invariant
                    j <= k + 1,
                    i < n,
                    n == subs.len(),
                    row.len() == k + 1,
                    wv(sat) == subs@[i as int]@.sat_of(m),
                    wv(dissat) == subs@[i as int]@.dissat_of(m),
                    sat matches Some(v) ==> v <= 0xFFFF_FFFF_FFFF_FFFF,
                    dissat matches Some(v) ==> v <= 0xFFFF_FFFF_FFFF_FFFF,
                    forall|t: int|
                        0 <= t < j ==> wv(#[trigger] row[t]) == Costs::thresh_best(
                            subs@,
                            m,
                            i as int,
                            t,
                        ),
                    forall|t: int|
                        0 <= t < j ==> ((#[trigger] row[t]) matches Some(v) ==> v <= i
                            * 0xFFFF_FFFF_FFFF_FFFF),
                    forall|t: int|
                        j <= t <= k ==> wv(#[trigger] row[t]) == Costs::thresh_best(
                            subs@,
                            m,
                            i as int + 1,
                            t,
                        ),
                    forall|t: int|
                        j <= t <= k ==> ((#[trigger] row[t]) matches Some(v) ==> v <= (i + 1)
                            * 0xFFFF_FFFF_FFFF_FFFF),
                decreases j,
            {
                j -= 1;
                let with: Option<u128> = if j > 0 {
                    match (row[j - 1], sat) {
                        (Some(x), Some(y)) => Some(x + y),
                        _ => None,
                    }
                } else {
                    None
                };
                let without: Option<u128> = match (row[j], dissat) {
                    (Some(x), Some(y)) => Some(x + y),
                    _ => None,
                };
                let best = larger_any(with, without);
                row.set(j, best);
            }
            i += 1;
        }
        (row[k], row[0])
    }

    /// A threshold of `k` over children with the annotations `subs`.
    pub fn threshold(k: usize, subs: &Vec<ExtData>) -> (r: Result<ExtData, ErrorKind>)
        requires
            k <= subs.len(),
        ensures
            r == Costs::threshold(k, subs@).checked(),
    {
        let n = subs.len();
        proof {
            Costs::lemma_totals_nonnegative(subs@, n as int);
        }
        if k == usize::MAX {
            return Err(ErrorKind::CostOverflow);
        }
        let mut pk: u128 = 0;
        let mut count: u128 = 0;
        let mut exec_sat: Option<usize> = Some(0);
        let mut exec_dissat: Option<usize> = Some(0);
        let mut i: usize = 0;
        while i < n
            invariant
                i <= n,
                n == subs.len(),
                pk as int == Costs::total_pk_cost(subs@, i as int),
                count as int == Costs::total_ops_count(subs@, i as int),
                pk <= i * 0xFFFF_FFFF_FFFF_FFFF,
                count <= i * 0xFFFF_FFFF_FFFF_FFFF,
                ov(exec_sat) == Costs::exec_max(subs@, true, i as int),
                ov(exec_dissat) == Costs::exec_max(subs@, false, i as int),
            decreases n - i,
        {
            let sub = &subs[i];
            pk = pk + sub.pk_cost as u128;
            count = count + sub.ops.count as u128;
            exec_sat = match (exec_sat, sub.exec_stack_elem_count_sat) {
                (Some(x), Some(y)) => Some(
                    if x >= y {
                        x
                    } else {
                        y
                    },
                ),
                _ => None,
            };
            exec_dissat = match (exec_dissat, sub.exec_stack_elem_count_dissat) {
                (Some(x), Some(y)) => Some(
                    if x >= y {
                        x
                    } else {
                        y
                    },
                ),
                _ => None,
            };
            i += 1;
        }
        let pk_all = pk + n as u128 + script_num_size(k) as u128;
        let count_all = count + n as u128;
        if pk_all > usize::MAX as u128 || count_all > usize::MAX as u128 {
            return Err(ErrorKind::CostOverflow);
        }
        let ops = Self::thresh_best(subs, Measure::Ops, k);
        let stack = Self::thresh_best(subs, Measure::Stack, k);
        let witness = Self::thresh_best(subs, Measure::Witness, k);
        let script_sig = Self::thresh_best(subs, Measure::ScriptSig, k);
        let max_sat: Option<(u128, u128)> = match (witness.0, script_sig.0) {
            (Some(w), Some(s)) => Some((w, s)),
            _ => None,
        };
        let max_dissat: Option<(u128, u128)> = match (witness.1, script_sig.1) {
            (Some(w), Some(s)) => Some((w, s)),
            _ => None,
        };
        let ops_sat = narrow(ops.0)?;
        let ops_nsat = narrow(ops.1)?;
        let stack_sat = narrow(stack.0)?;
        let stack_dissat = narrow(stack.1)?;
        let max_sat_size = narrow_pair(max_sat)?;
        let max_dissat_size = narrow_pair(max_dissat)?;
        Ok(
            ExtData {
                pk_cost: pk_all as usize,
                has_free_verify: true,
                ops: OpLimits { count: count_all as usize, sat: ops_sat, nsat: ops_nsat },
                stack_elem_count_sat: stack_sat,
                stack_elem_count_dissat: stack_dissat,
                max_sat_size,
                max_dissat_size,
                exec_stack_elem_count_sat: exec_sat,
                exec_stack_elem_count_dissat: exec_dissat,
            },
        )
    }
}

} // verus!
