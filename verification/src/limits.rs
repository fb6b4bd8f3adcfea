//! Resource ceilings fixed by consensus and by relay policy.

use vstd::prelude::*;

verus! {

/// Maximum number of opcodes that may execute in a script outside tapscript.
pub const MAX_OPS_PER_SCRIPT: usize = 201;

/// Maximum number of keys in a `CHECKMULTISIG`.
pub const MAX_PUBKEYS_PER_MULTISIG: usize = 20;

/// Largest script signature that nodes relay.
pub const MAX_SCRIPTSIG_SIZE: usize = 1650;

/// Largest element that may be pushed on the stack; also the redeem script ceiling.
pub const MAX_SCRIPT_ELEMENT_SIZE: usize = 520;

/// Largest script that consensus accepts outside tapscript.
pub const MAX_SCRIPT_SIZE: usize = 10000;

/// Maximum number of elements on the stack during execution.
pub const MAX_STACK_SIZE: usize = 1000;

/// Largest witness script that nodes relay.
pub const MAX_STANDARD_P2WSH_SCRIPT_SIZE: usize = 3600;

/// Maximum number of witness items that nodes relay for a witness script spend.
pub const MAX_STANDARD_P2WSH_STACK_ITEMS: usize = 100;

/// Bit that switches a relative or absolute timelock off.
pub const SEQUENCE_LOCKTIME_DISABLE_FLAG: u32 = 0x8000_0000;

/// Bytes needed to push the number `n` in a script.
pub open spec fn script_num_size_spec(n: usize) -> usize {
    if n <= 0x10 {
        1
    } else if n < 0x80 {
        2
    } else if n < 0x8000 {
        3
    } else if n < 0x80_0000 {
        4
    } else if n < 0x8000_0000 {
        5
    } else {
        6
    }
}

/// Bytes needed to push the number `n` in a script: one for the dedicated
/// small-number opcodes, otherwise a length byte and the minimal encoding.
pub fn script_num_size(n: usize) -> (r: usize)
    ensures
        r == script_num_size_spec(n),
        1 <= r <= 6,
{
    if n <= 0x10 {
        1
    } else if n < 0x80 {
        2
    } else if n < 0x8000 {
        3
    } else if n < 0x80_0000 {
        4
    } else if n < 0x8000_0000 {
        5
    } else {
        6
    }
}

} // verus!
