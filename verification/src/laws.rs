//! Laws that relate the operations of the library to each other.
//!
//! Each law is stated twice where both make sense: over the coefficient
//! sequences, where sums are sums of mathematical integers and nothing can
//! overflow, and over the ring elements themselves with `+` and `-`, for
//! the operands that the operators admit.

use vstd::prelude::*;
use vstd::std_specs::ops::{AddSpec, SubSpec};
use crate::arithmetic::{
    coefficients_congruent, congruent, field_residue, lemma_montgomery_reduce,
    lemma_to_montgomery_domain, montgomery_liftable, montgomery_reducible, ring_difference,
    ring_sum, spec_montgomery_reduce, spec_to_montgomery_domain, zero_coefficients,
    KyberPolynomialRingElement, INVERSE_OF_R_MOD_MODULUS, MONTGOMERY_R, R_SQUARED_MOD_MODULUS,
};
use crate::parameters::FIELD_MODULUS;

verus! {

/// Congruent integers stay congruent when both are multiplied by `factor`.
proof fn lemma_congruent_products(a: int, b: int, factor: int)
    requires
        congruent(a, b),
    ensures
        congruent(a * factor, b * factor),
{
    vstd::arithmetic::div_mod::lemma_mul_mod_noop_left(a, factor, FIELD_MODULUS as int);
    vstd::arithmetic::div_mod::lemma_mul_mod_noop_left(b, factor, FIELD_MODULUS as int);
}

/// Lifting a canonical field element into the Montgomery domain and reducing
/// it again gives a representative of the same element. Both steps are within
/// the range of their functions.
pub proof fn lemma_montgomery_round_trip(a: int)
    requires
        0 <= a < FIELD_MODULUS,
    ensures
        montgomery_liftable(a),
        montgomery_reducible(spec_to_montgomery_domain(a)),
        congruent(spec_montgomery_reduce(spec_to_montgomery_domain(a)), a),
        field_residue(spec_montgomery_reduce(spec_to_montgomery_domain(a))) == a,
{
    let lifted = spec_to_montgomery_domain(a);
    lemma_to_montgomery_domain(a);
    lemma_montgomery_reduce(R_SQUARED_MOD_MODULUS * a);
    lemma_montgomery_reduce(lifted);
    lemma_congruent_products(lifted, a * MONTGOMERY_R, INVERSE_OF_R_MOD_MODULUS as int);
    assert(a * MONTGOMERY_R * INVERSE_OF_R_MOD_MODULUS == 3329 * (3327 * a) + a) by {
        assert(a * MONTGOMERY_R == a * 0x1_0000);
        assert(a * 0x1_0000 * INVERSE_OF_R_MOD_MODULUS == a * 0x1_0000 * 169);
    }
    vstd::arithmetic::div_mod::lemma_mod_multiples_vanish(3327 * a, a, 3329);
}

/// The sum of two representable operands is what `+` denotes.
pub proof fn lemma_sum(a: KyberPolynomialRingElement, b: KyberPolynomialRingElement)
    requires
        a.add_req(b),
    ensures
        (a + b)@ == ring_sum(a@, b@),
{
    KyberPolynomialRingElement::lemma_with_coefficients(ring_sum(a@, b@));
}

/// The difference of two representable operands is what `-` denotes.
pub proof fn lemma_difference(a: KyberPolynomialRingElement, b: KyberPolynomialRingElement)
    requires
        a.sub_req(b),
    ensures
        (a - b)@ == ring_difference(a@, b@),
{
    KyberPolynomialRingElement::lemma_with_coefficients(ring_difference(a@, b@));
}

/// Addition of ring elements is commutative: the operands can be exchanged,
/// and one order is admitted exactly when the other is.
pub proof fn lemma_addition_is_commutative(
    a: KyberPolynomialRingElement,
    b: KyberPolynomialRingElement,
)
    ensures
        ring_sum(a@, b@) == ring_sum(b@, a@),
        coefficients_congruent(ring_sum(a@, b@), ring_sum(b@, a@)),
        a.add_req(b) == b.add_req(a),
        a + b == b + a,
{
    assert(ring_sum(a@, b@) =~= ring_sum(b@, a@));
}

/// Addition of ring elements is associative, coefficient by coefficient and
/// so also modulo the prime. Where the two inner sums are representable, one
/// outer sum is admitted exactly when the other is, and they are the same ring
/// element.
pub proof fn lemma_addition_is_associative(
    a: KyberPolynomialRingElement,
    b: KyberPolynomialRingElement,
    c: KyberPolynomialRingElement,
)
    ensures
        ring_sum(ring_sum(a@, b@), c@) == ring_sum(a@, ring_sum(b@, c@)),
        coefficients_congruent(ring_sum(ring_sum(a@, b@), c@), ring_sum(a@, ring_sum(b@, c@))),
        a.add_req(b) && b.add_req(c) ==> {
            &&& (a + b).add_req(c) == a.add_req(b + c)
            &&& (a + b) + c == a + (b + c)
            &&& coefficients_congruent(((a + b) + c)@, (a + (b + c))@)
        },
{
    assert(ring_sum(ring_sum(a@, b@), c@) =~= ring_sum(a@, ring_sum(b@, c@)));
    if a.add_req(b) && b.add_req(c) {
        lemma_sum(a, b);
        lemma_sum(b, c);
    }
}

/// The zero ring element is the additive identity: adding it, on either
/// side, is always admitted and changes nothing.
pub proof fn lemma_zero_is_additive_identity(a: KyberPolynomialRingElement)
    ensures
        ring_sum(a@, zero_coefficients()) == a@,
        ring_sum(zero_coefficients(), a@) == a@,
        a.add_req(KyberPolynomialRingElement::zero()),
        KyberPolynomialRingElement::zero().add_req(a),
        a + KyberPolynomialRingElement::zero() == a,
        KyberPolynomialRingElement::zero() + a == a,
{
    let zero = KyberPolynomialRingElement::zero();
    KyberPolynomialRingElement::lemma_zero_view();
    assert(ring_sum(a@, zero_coefficients()) =~= a@);
    assert(ring_sum(zero_coefficients(), a@) =~= a@);
    lemma_sum(a, zero);
    lemma_sum(zero, a);
    a.lemma_view_is_injective(a + zero);
    a.lemma_view_is_injective(zero + a);
}

/// Subtraction undoes addition, coefficient by coefficient and so also
/// modulo the prime. Where the sum is representable, the subtraction is
/// admitted and gives the first operand back.
pub proof fn lemma_subtraction_undoes_addition(
    a: KyberPolynomialRingElement,
    b: KyberPolynomialRingElement,
)
    ensures
        ring_difference(ring_sum(a@, b@), b@) == a@,
        coefficients_congruent(ring_difference(ring_sum(a@, b@), b@), a@),
        a.add_req(b) ==> (a + b).sub_req(b) && (a + b) - b == a,
{
    assert(ring_difference(ring_sum(a@, b@), b@) =~= a@);
    if a.add_req(b) {
        lemma_sum(a, b);
        lemma_difference(a + b, b);
        a.lemma_view_is_injective((a + b) - b);
    }
}

} // verus!
