//! What keeps the set of script contexts closed.

use vstd::prelude::*;
use crate::context::BareCtx;
use crate::context::Legacy;
use crate::context::NoChecks;
use crate::context::Segwitv0;
use crate::context::Tap;

verus! {

/// Implemented by the script contexts of this crate and, as the module is
/// private, by nothing else.
pub trait Sealed {

}

impl Sealed for BareCtx {

}

impl Sealed for Legacy {

}

impl Sealed for Segwitv0 {

}

impl Sealed for Tap {

}

impl Sealed for NoChecks {

}

} // verus!
