//! The parameter set: the field prime and the ring dimension.

use vstd::prelude::*;

verus! {

/// The prime `q` that field elements are residues of.
pub const FIELD_MODULUS: i32 = 3329;

/// The number `N` of coefficients of a ring element: polynomials are taken
/// modulo `x^N + 1`.
pub const COEFFICIENTS_IN_RING_ELEMENT: usize = 256;

} // verus!
