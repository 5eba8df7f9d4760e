//! Global constants.
//!
//! Keeping constants in a central module improves maintainability and
//! clarity.

use vstd::prelude::*;

verus! {

/// The modulus used for wrap-around location arithmetic.
pub const MODULUS: usize = 256;

} // verus!
