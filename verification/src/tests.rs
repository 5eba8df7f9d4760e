//! Runtime checks of the vector-space behaviour of fields.
//!
//! Each function exercises one law on the canonical fractal; the contract
//! states exactly what the check returns. Note that the pointwise addition
//! truncates to the shorter operand, so the additive-identity check against
//! the empty zero field fails by construction, and its contract says so.

use vstd::prelude::*;
use crate::complex::Complex;
use crate::field::FractalField;
use crate::testkit::canonical_test_fractal;

verus! {

/// Checks the associativity of addition, `(a + b) + c == a + (b + c)`, on
/// the canonical fractal and two scalings of it; this holds here since no
/// component saturates.
pub fn test_add_associativity() -> (r: bool)
    ensures
        r == true,
{
    let a: FractalField = canonical_test_fractal();
    let b: FractalField = a.scale(Complex::new(200, 0));
    let c: FractalField = a.scale(Complex::new(300, 0));
    let left: FractalField = a.add(&b).add(&c);
    let right: FractalField = a.add(&b.add(&c));
    proof {
        assert(left.edges@ =~= right.edges@);
    }
    left == right
}

/// Checks the commutativity of addition, `a + b == b + a`, on the
/// canonical fractal and a scaling of it. The payload sums commute; the
/// geometric fields come from the left operand, which here agree.
pub fn test_add_commutativity() -> (r: bool)
    ensures
        r == true,
{
    let a: FractalField = canonical_test_fractal();
    let b: FractalField = a.scale(Complex::new(200, 0));
    let left: FractalField = a.add(&b);
    let right: FractalField = b.add(&a);
    proof {
        assert(left.edges@ =~= right.edges@);
    }
    left == right
}

/// Checks the additive identity, `a + 0 == a`. The check fails by
/// construction: pointwise addition truncates to the shorter operand, so
/// adding the empty zero field yields the empty field, not `a`.
pub fn test_add_identity() -> (r: bool)
    ensures
        r == false,
{
    let a: FractalField = canonical_test_fractal();
    let zero: FractalField = FractalField::zero();
    let sum: FractalField = a.add(&zero);
    proof {
        assert(sum.edges@.len() == 0);
        assert(a.edges@.len() == 3);
    }
    sum == a
}

/// Checks the additive inverse, `a + (-a) == 0`: the pointwise sums cancel
/// exactly, so the check succeeds.
pub fn test_add_inverse() -> (r: bool)
    ensures
        r == true,
{
    let a: FractalField = canonical_test_fractal();
    let neg: FractalField = a.neg();
    let sum: FractalField = a.add(&neg);
    proof {
        assert(forall|i: int| 0 <= i < sum.edges@.len()
            ==> (#[trigger] sum.edges@[i].data) == (Complex { re: 0, im: 0 }));
    }
    sum.is_zero()
}

} // verus!
