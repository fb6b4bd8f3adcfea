//! Numbers as text.

use vstd::prelude::*;
use vstd::string::*;

verus! {

/// The ten decimal digits, in order.
pub const DECIMAL_DIGITS: &'static str = "0123456789";

/// The decimal digit of a number below ten.
pub open spec fn digit_text(d: nat) -> Seq<char> {
    DECIMAL_DIGITS@.subrange(d as int, d as int + 1)
}

/// The decimal digits of `n`, without leading zeros.
pub open spec fn decimal_text(n: nat) -> Seq<char>
    decreases n,
{
    if n < 10 {
        digit_text(n)
    } else {
        decimal_text(n / 10) + digit_text(n % 10)
    }
}

/// Renders `n` in decimal.
pub fn decimal(n: usize) -> (r: String)
    ensures
        r@ == decimal_text(n as nat),
    decreases n,
{
    let digits: &str = DECIMAL_DIGITS;
    proof {
        reveal_strlit("0123456789");
    }
    if n < 10 {
        String::from_str(digits.substring_ascii(n, n + 1))
    } else {
        let mut s = decimal(n / 10);
        let d = n % 10;
        s.append(digits.substring_ascii(d, d + 1));
        s
    }
}

} // verus!
