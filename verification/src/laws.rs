//! Checks of the algebraic laws of field arithmetic.
//!
//! These functions decide, for given inputs, whether an algebraic law holds
//! of the saturating fixed-point operations; each one's contract pins the
//! answer to the corresponding equation on the mathematical model.

use vstd::prelude::*;
use crate::complex::Complex;
use crate::field::{FractalField, spec_field_add, spec_field_scale};

verus! {

/// Whether addition associates on these inputs: `(a + b) + c == a + (b + c)`.
pub fn test_associativity(a: &FractalField, b: &FractalField, c: &FractalField) -> (r: bool)
    ensures
        r == (spec_field_add(spec_field_add(a.edges@, b.edges@), c.edges@)
            == spec_field_add(a.edges@, spec_field_add(b.edges@, c.edges@))),
{
    let left: FractalField = a.add(b).add(c);
    let right: FractalField = a.add(&b.add(c));
    left == right
}

/// Whether scaling distributes over addition on these inputs:
/// `(a + b) * s == a * s + b * s`.
pub fn test_distributivity(a: &FractalField, b: &FractalField, scalar: Complex) -> (r: bool)
    ensures
        r == (spec_field_scale(spec_field_add(a.edges@, b.edges@), scalar)
            == spec_field_add(spec_field_scale(a.edges@, scalar),
                spec_field_scale(b.edges@, scalar))),
{
    let left: FractalField = a.add(b).scale(scalar);
    let right: FractalField = a.scale(scalar).add(&b.scale(scalar));
    left == right
}

} // verus!
