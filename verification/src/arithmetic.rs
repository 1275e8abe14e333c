//! Field reductions modulo `FIELD_MODULUS`, and the polynomial ring element.
//!
//! Two reductions are offered. Barrett reduction brings an integer close to
//! zero without changing its residue. Montgomery reduction divides by the
//! radix `MONTGOMERY_R` modulo the prime, which lets a chain of products be
//! carried in the Montgomery domain and reduced once.
//!
//! A ring element holds `COEFFICIENTS_IN_RING_ELEMENT` field elements. Its
//! sum and difference work coefficient by coefficient and reduce nothing.
//!
//! Every contract is stated over mathematical integers: the spec functions
//! of this module take and return `int` or sequences of `int`, and the
//! executable functions are proved to compute them without overflow.

use vstd::prelude::*;
use vstd::std_specs::iter::IteratorSpec;
use crate::parameters::{COEFFICIENTS_IN_RING_ELEMENT, FIELD_MODULUS};

verus! {

/// An integer that stands for its residue modulo `FIELD_MODULUS`. It need not
/// be the canonical representative in `[0, FIELD_MODULUS)`.
pub type KyberFieldElement = i32;

/// The canonical representative of `value`: the one in `[0, FIELD_MODULUS)`.
pub open spec fn field_residue(value: int) -> int {
    value % (FIELD_MODULUS as int)
}

/// `a` and `b` stand for the same field element.
pub open spec fn congruent(a: int, b: int) -> bool {
    field_residue(a) == field_residue(b)
}

/// The number of bits by which Barrett reduction shifts.
pub const BARRETT_SHIFT: i32 = 26;

/// `2^BARRETT_SHIFT`.
pub const BARRETT_R: i32 = 0x400_0000;

/// `BARRETT_R / FIELD_MODULUS`, rounded to the nearest integer.
pub const BARRETT_MULTIPLIER: i32 = 20159;

/// The largest magnitude that `barrett_reduce` returns.
pub const BARRETT_REDUCED_BOUND: i32 = 1665;

/// The number of bits by which Montgomery reduction shifts.
pub const MONTGOMERY_SHIFT: i64 = 16;

/// The Montgomery radix, `2^MONTGOMERY_SHIFT`.
pub const MONTGOMERY_R: i64 = 0x1_0000;

/// The inverse of `FIELD_MODULUS` modulo `MONTGOMERY_R`, as a negative
/// representative.
pub const INVERSE_OF_MODULUS_MOD_R: i64 = -3327;

/// The inverse of `MONTGOMERY_R` modulo `FIELD_MODULUS`.
pub const INVERSE_OF_R_MOD_MODULUS: i32 = 169;

/// `MONTGOMERY_R * MONTGOMERY_R` modulo `FIELD_MODULUS`.
pub const R_SQUARED_MOD_MODULUS: i32 = 1353;

/// The constants of the two reductions are the ones that belong to
/// `FIELD_MODULUS`: the modulus is odd, the radices are the powers of two
/// that their shifts name, the Barrett multiplier is the radix over the
/// modulus rounded to the nearest integer, and the three Montgomery
/// constants are the inverses and the square that their names say.
pub proof fn lemma_derived_constants()
    ensures
        FIELD_MODULUS % 2 == 1,
        BARRETT_R == 1i32 << BARRETT_SHIFT,
        BARRETT_MULTIPLIER == (2 * BARRETT_R + FIELD_MODULUS) / (2 * FIELD_MODULUS),
        BARRETT_REDUCED_BOUND == (FIELD_MODULUS + 1) / 2,
        MONTGOMERY_R == 1i64 << MONTGOMERY_SHIFT,
        (FIELD_MODULUS * INVERSE_OF_MODULUS_MOD_R) % (MONTGOMERY_R as int) == 1,
        (MONTGOMERY_R * INVERSE_OF_R_MOD_MODULUS) % (FIELD_MODULUS as int) == 1,
        (MONTGOMERY_R * MONTGOMERY_R) % (FIELD_MODULUS as int) == R_SQUARED_MOD_MODULUS,
{
    assert(BARRETT_R == 1i32 << BARRETT_SHIFT) by (bit_vector);
    assert(MONTGOMERY_R == 1i64 << MONTGOMERY_SHIFT) by (bit_vector);
    assert((2 * BARRETT_R + FIELD_MODULUS) / (2 * FIELD_MODULUS) == 134221057int / 6658);
}

/// The approximation of `value / FIELD_MODULUS` that Barrett reduction
/// subtracts: `value * BARRETT_MULTIPLIER / BARRETT_R`, rounded to the nearest
/// integer, halves upwards.
pub open spec fn barrett_quotient(value: int) -> int {
    (value * BARRETT_MULTIPLIER + BARRETT_R / 2) / (BARRETT_R as int)
}

/// What `barrett_reduce` computes.
pub open spec fn spec_barrett_reduce(value: int) -> int {
    value - barrett_quotient(value) * FIELD_MODULUS
}

/// The inputs of `barrett_reduce`: those whose rounded product with the
/// multiplier fits in 32 bits.
pub open spec fn barrett_reducible(value: int) -> bool {
    &&& i32::MIN <= value * BARRETT_MULTIPLIER
    &&& value * BARRETT_MULTIPLIER + BARRETT_R / 2 <= i32::MAX
}

/// Barrett reduction keeps the residue. The inputs that `barrett_reduce`
/// admits are the integers from -106527 to 104862, and on them its result
/// lies within `BARRETT_REDUCED_BOUND` of zero, so strictly within the
/// modulus.
pub proof fn lemma_barrett_reduce(value: int)
    ensures
        congruent(spec_barrett_reduce(value), value),
        barrett_reducible(value) <==> -106527 <= value <= 104862,
        barrett_reducible(value) ==> -BARRETT_REDUCED_BOUND <= spec_barrett_reduce(value)
            <= BARRETT_REDUCED_BOUND,
        barrett_reducible(value) ==> -FIELD_MODULUS < spec_barrett_reduce(value) < FIELD_MODULUS,
{
    vstd::arithmetic::div_mod::lemma_mod_multiples_vanish(
        -barrett_quotient(value),
        value,
        FIELD_MODULUS as int,
    );
}

/// Reduces `value` to a representative of the same residue that lies within
/// `BARRETT_REDUCED_BOUND`, about half the modulus, of zero. The result is
/// not always the canonical representative, and may be negative.
///
/// The caller keeps `value` small enough for the rounded product with
/// `BARRETT_MULTIPLIER` to fit in 32 bits.
pub fn barrett_reduce(value: KyberFieldElement) -> (result: KyberFieldElement)
    requires
        barrett_reducible(value as int),
    ensures
        result == spec_barrett_reduce(value as int),
        congruent(result as int, value as int),
        -BARRETT_REDUCED_BOUND <= result <= BARRETT_REDUCED_BOUND,
        -FIELD_MODULUS < result < FIELD_MODULUS,
{
    proof {
        lemma_barrett_reduce(value as int);
    }
    assert(BARRETT_R >> 1 == BARRETT_R / 2) by (bit_vector);
    let rounded: i32 = (value * BARRETT_MULTIPLIER) + (BARRETT_R >> 1);
    assert(rounded >> BARRETT_SHIFT == rounded / BARRETT_R) by (bit_vector);
    let quotient: i32 = rounded >> BARRETT_SHIFT;

    value - (quotient * FIELD_MODULUS)
}

/// The multiple of the modulus that Montgomery reduction subtracts from
/// `value` to make it divisible by the radix: a number `t` in
/// `[0, MONTGOMERY_R)` with `t * FIELD_MODULUS` congruent to `value` modulo
/// the radix.
pub open spec fn montgomery_factor(value: int) -> int {
    (value * INVERSE_OF_MODULUS_MOD_R) % (MONTGOMERY_R as int)
}

/// What `montgomery_reduce` computes. The division is exact.
pub open spec fn spec_montgomery_reduce(value: int) -> int {
    (value - montgomery_factor(value) * FIELD_MODULUS) / (MONTGOMERY_R as int)
}

/// The inputs of `montgomery_reduce`: those from which the multiple of the
/// modulus can be subtracted in 32 bits.
pub open spec fn montgomery_reducible(value: int) -> bool {
    i32::MIN <= value - montgomery_factor(value) * FIELD_MODULUS
}

/// Montgomery reduction divides exactly, its result is `value` times the
/// inverse of the radix modulo the prime, and it is the one representative
/// of that residue between `value / MONTGOMERY_R - FIELD_MODULUS`, exclusive,
/// and `value / MONTGOMERY_R`, inclusive. Every 32-bit `value` from
/// -1929317633 upwards is an input of `montgomery_reduce`.
pub proof fn lemma_montgomery_reduce(value: int)
    ensures
        0 <= montgomery_factor(value) < MONTGOMERY_R,
        -1929317633 <= value ==> montgomery_reducible(value),
        spec_montgomery_reduce(value) * MONTGOMERY_R == value - montgomery_factor(value)
            * FIELD_MODULUS,
        congruent(spec_montgomery_reduce(value) * MONTGOMERY_R, value),
        congruent(spec_montgomery_reduce(value), value * INVERSE_OF_R_MOD_MODULUS),
        value - MONTGOMERY_R * FIELD_MODULUS < spec_montgomery_reduce(value) * MONTGOMERY_R
            <= value,
{
    let product = value * INVERSE_OF_MODULUS_MOD_R;
    let factor = montgomery_factor(value);
    let carry = product / (MONTGOMERY_R as int);
    let reduced = 169 * value + 3329 * carry;
    assert(product == value * (-3327));
    assert(product == 0x1_0000 * carry + factor);
    assert(value - factor * 3329 == 0x1_0000 * reduced);
    assert(spec_montgomery_reduce(value) == reduced);
    vstd::arithmetic::div_mod::lemma_mod_multiples_vanish(carry, 169 * value, 3329);
    vstd::arithmetic::div_mod::lemma_mod_multiples_vanish(-factor, value, 3329);
}

/// Takes `value` out of the Montgomery domain: returns a representative of
/// `value` divided by `MONTGOMERY_R` modulo the prime, namely the one between
/// `value / MONTGOMERY_R - FIELD_MODULUS`, exclusive, and
/// `value / MONTGOMERY_R`, inclusive.
///
/// The caller keeps `value` far enough above the least 32-bit integer for the
/// subtraction of `montgomery_factor(value) * FIELD_MODULUS` to fit.
pub fn montgomery_reduce(value: KyberFieldElement) -> (result: KyberFieldElement)
    requires
        montgomery_reducible(value as int),
    ensures
        result == spec_montgomery_reduce(value as int),
        result * MONTGOMERY_R == value - montgomery_factor(value as int) * FIELD_MODULUS,
        congruent(result as int, value * INVERSE_OF_R_MOD_MODULUS),
        value - MONTGOMERY_R * FIELD_MODULUS < result * MONTGOMERY_R <= value,
{
    proof {
        lemma_montgomery_reduce(value as int);
    }
    let t: i64 = i64::from(value) * INVERSE_OF_MODULUS_MOD_R;
    assert(t & (MONTGOMERY_R - 1) as i64 == t % MONTGOMERY_R) by (bit_vector);
    let t: i32 = (t & (MONTGOMERY_R - 1)) as i32;
    let difference: i32 = value - (t * FIELD_MODULUS);
    assert(difference >> MONTGOMERY_SHIFT == difference / 0x1_0000i32) by (bit_vector);

    difference >> MONTGOMERY_SHIFT
}

/// What `to_montgomery_domain` computes.
pub open spec fn spec_to_montgomery_domain(value: int) -> int {
    spec_montgomery_reduce(R_SQUARED_MOD_MODULUS * value)
}

/// The inputs of `to_montgomery_domain`: those whose product with
/// `R_SQUARED_MOD_MODULUS` fits in 32 bits and can be reduced.
pub open spec fn montgomery_liftable(value: int) -> bool {
    &&& R_SQUARED_MOD_MODULUS * value <= i32::MAX
    &&& montgomery_reducible(R_SQUARED_MOD_MODULUS * value)
}

/// Lifting multiplies by the radix modulo the prime. Every `value` from
/// -1425955 to 1587201 is an input of `to_montgomery_domain`, and none above.
pub proof fn lemma_to_montgomery_domain(value: int)
    ensures
        congruent(spec_to_montgomery_domain(value), value * MONTGOMERY_R),
        -1425955 <= value <= 1587201 ==> montgomery_liftable(value),
        montgomery_liftable(value) ==> value <= 1587201,
{
    let scaled = R_SQUARED_MOD_MODULUS * value;
    lemma_montgomery_reduce(scaled);
    assert(scaled * 169 == 3329 * (68 * value) + 2285 * value);
    assert(value * 0x1_0000 == 3329 * (19 * value) + 2285 * value);
    vstd::arithmetic::div_mod::lemma_mod_multiples_vanish(68 * value, 2285 * value, 3329);
    vstd::arithmetic::div_mod::lemma_mod_multiples_vanish(19 * value, 2285 * value, 3329);
}

/// Lifts `value` into the Montgomery domain: returns a representative of
/// `value * MONTGOMERY_R` modulo the prime, obtained by reducing
/// `R_SQUARED_MOD_MODULUS * value`.
///
/// The caller keeps `value` small enough for that product to fit in 32 bits
/// and to be an input of `montgomery_reduce`.
pub fn to_montgomery_domain(value: KyberFieldElement) -> (result: KyberFieldElement)
    requires
        montgomery_liftable(value as int),
    ensures
        result == spec_to_montgomery_domain(value as int),
        congruent(result as int, value * MONTGOMERY_R),
        R_SQUARED_MOD_MODULUS * value - MONTGOMERY_R * FIELD_MODULUS < result * MONTGOMERY_R
            <= R_SQUARED_MOD_MODULUS * value,
{
    proof {
        lemma_to_montgomery_domain(value as int);
    }
    montgomery_reduce(R_SQUARED_MOD_MODULUS * value)
}

/// A polynomial of degree below `COEFFICIENTS_IN_RING_ELEMENT` over the
/// field, taken modulo `x^N + 1`: the coefficient of `x^i` stands at index
/// `i`. Arithmetic on ring elements does not reduce the coefficients.
#[derive(Debug, Clone, Copy, PartialEq, Eq)]
pub struct KyberPolynomialRingElement {
    pub(crate) coefficients: [KyberFieldElement; COEFFICIENTS_IN_RING_ELEMENT],
}

/// The coefficients as mathematical integers, the coefficient of `x^i` at
/// index `i`.
impl View for KyberPolynomialRingElement {
    type V = Seq<int>;

    open spec fn view(&self) -> Seq<int> {
        Seq::new(COEFFICIENTS_IN_RING_ELEMENT as nat, |i: int| self[i] as int)
    }
}

/// The coefficients of the zero polynomial.
pub open spec fn zero_coefficients() -> Seq<int> {
    Seq::new(COEFFICIENTS_IN_RING_ELEMENT as nat, |i: int| 0int)
}

/// The machine integers of `coefficients` as mathematical ones.
pub open spec fn as_integers(coefficients: Seq<KyberFieldElement>) -> Seq<int> {
    coefficients.map_values(|c: KyberFieldElement| c as int)
}

/// The sum of two polynomials, coefficient by coefficient, unreduced.
pub open spec fn ring_sum(a: Seq<int>, b: Seq<int>) -> Seq<int> {
    Seq::new(a.len(), |i: int| a[i] + b[i])
}

/// The difference of two polynomials, coefficient by coefficient, unreduced.
pub open spec fn ring_difference(a: Seq<int>, b: Seq<int>) -> Seq<int> {
    Seq::new(a.len(), |i: int| a[i] - b[i])
}

/// Two polynomials whose coefficients stand, index by index, for the same
/// field elements.
pub open spec fn coefficients_congruent(a: Seq<int>, b: Seq<int>) -> bool {
    &&& a.len() == b.len()
    &&& forall|i: int| 0 <= i < a.len() ==> congruent(#[trigger] a[i], b[i])
}

/// Every coefficient fits in a `KyberFieldElement`.
pub open spec fn representable(coefficients: Seq<int>) -> bool {
    forall|i: int|
        0 <= i < coefficients.len() ==> i32::MIN <= #[trigger] coefficients[i] <= i32::MAX
}

impl KyberPolynomialRingElement {
    /// The coefficient of `x^i`, for `i` below `COEFFICIENTS_IN_RING_ELEMENT`.
    pub closed spec fn spec_index(self, i: int) -> KyberFieldElement {
        self.coefficients[i]
    }

    /// The ring element with the given coefficients. There is one where
    /// there are `COEFFICIENTS_IN_RING_ELEMENT` of them and each is
    /// representable, and then only one.
    pub open spec fn with_coefficients(coefficients: Seq<int>) -> Self {
        choose|element: Self| element@ == coefficients
    }

    /// The first `filled` entries of `coefficients` in an array, zero behind
    /// them.
    spec fn array_of(
        coefficients: Seq<int>,
        filled: nat,
    ) -> [KyberFieldElement; COEFFICIENTS_IN_RING_ELEMENT]
        decreases filled,
    {
        if filled == 0 {
            [0i32; COEFFICIENTS_IN_RING_ELEMENT]
        } else {
            vstd::array::spec_array_update(
                Self::array_of(coefficients, (filled - 1) as nat),
                filled - 1,
                coefficients[filled - 1] as KyberFieldElement,
            )
        }
    }

    proof fn lemma_array_of(coefficients: Seq<int>, filled: nat)
        requires
            filled <= COEFFICIENTS_IN_RING_ELEMENT == coefficients.len(),
            representable(coefficients),
        ensures
            forall|i: int|
                0 <= i < filled ==> Self::array_of(coefficients, filled)[i] == coefficients[i],
        decreases filled,
    {
        if filled > 0 {
            Self::lemma_array_of(coefficients, (filled - 1) as nat);
        }
    }

    /// Any `COEFFICIENTS_IN_RING_ELEMENT` representable coefficients are
    /// those of a ring element.
    pub proof fn lemma_with_coefficients(coefficients: Seq<int>)
        requires
            coefficients.len() == COEFFICIENTS_IN_RING_ELEMENT,
            representable(coefficients),
        ensures
            Self::with_coefficients(coefficients)@ == coefficients,
    {
        let element = Self {
            coefficients: Self::array_of(coefficients, COEFFICIENTS_IN_RING_ELEMENT as nat),
        };
        Self::lemma_array_of(coefficients, COEFFICIENTS_IN_RING_ELEMENT as nat);
        assert(element@ =~= coefficients);
    }

    /// `self + other` in specifications: the ring element whose coefficients
    /// are those of the sum. It means something only where the sum is
    /// representable.
    pub open spec fn spec_add(self, other: Self) -> Self {
        Self::with_coefficients(ring_sum(self@, other@))
    }

    /// `self - other` in specifications: the ring element whose coefficients
    /// are those of the difference. It means something only where the
    /// difference is representable.
    pub open spec fn spec_sub(self, other: Self) -> Self {
        Self::with_coefficients(ring_difference(self@, other@))
    }

    /// The ring element that `zero` returns.
    pub closed spec fn spec_zero() -> Self {
        Self { coefficients: [0i32; COEFFICIENTS_IN_RING_ELEMENT] }
    }

    /// Two ring elements with the same coefficients are the same.
    pub proof fn lemma_view_is_injective(self, other: Self)
        ensures
            self@ == other@ <==> self == other,
    {
        if self@ == other@ {
            assert forall|i: int| 0 <= i < COEFFICIENTS_IN_RING_ELEMENT implies self.coefficients[i]
                == other.coefficients[i] by {
                assert(self@[i] == other@[i]);
            }
            assert(self.coefficients =~= other.coefficients);
        }
    }

    /// All coefficients of the zero element are zero.
    pub proof fn lemma_zero_view()
        ensures
            Self::spec_zero()@ == zero_coefficients(),
    {
        assert(Self::spec_zero()@ =~= zero_coefficients());
    }

    /// The additive identity: the ring element whose coefficients are all
    /// zero.
    #[verifier::when_used_as_spec(spec_zero)]
    pub fn zero() -> (result: Self)
        ensures
            result == Self::spec_zero(),
            result@ == zero_coefficients(),
    {
        proof {
            Self::lemma_zero_view();
        }
        Self { coefficients: [0i32; COEFFICIENTS_IN_RING_ELEMENT] }
    }

    /// The ring element with the given coefficients, the coefficient of `x^i`
    /// at index `i`.
    pub fn from_coefficients(
        coefficients: [KyberFieldElement; COEFFICIENTS_IN_RING_ELEMENT],
    ) -> (result: Self)
        ensures
            result@ == as_integers(coefficients@),
    {
        let result = Self { coefficients };
        assert(result@ =~= as_integers(coefficients@));
        result
    }

    /// Access to the coefficient of `x^index` for assignment. It is kept
    /// inside the library: whoever holds a ring element outside it never
    /// sees one change.
    pub(crate) fn index_mut(&mut self, index: usize) -> (slot: &mut KyberFieldElement)
        requires
            index < COEFFICIENTS_IN_RING_ELEMENT,
        ensures
            *slot == old(self)[index as int],
            final(self)[index as int] == *final(slot),
            forall|i: int|
                0 <= i < COEFFICIENTS_IN_RING_ELEMENT && i != index ==> final(self)[i] == old(
                    self,
                )[i],
    {
        &mut self.coefficients[index]
    }
}

impl core::ops::Index<usize> for KyberPolynomialRingElement {
    type Output = KyberFieldElement;

    /// The coefficient of `x^index`.
    fn index(&self, index: usize) -> (output: &KyberFieldElement)
        ensures
            *output == self[index as int],
            *output == self@[index as int],
    {
        &self.coefficients[index]
    }
}

impl vstd::std_specs::core::IndexSpecImpl<usize> for KyberPolynomialRingElement {
    /// Only the indices below `COEFFICIENTS_IN_RING_ELEMENT` may be read.
    open spec fn index_req(&self, index: &usize) -> bool {
        *index < COEFFICIENTS_IN_RING_ELEMENT
    }
}

impl IntoIterator for KyberPolynomialRingElement {
    type Item = KyberFieldElement;

    type IntoIter = std::vec::IntoIter<KyberFieldElement>;

    /// The coefficients in index order, each once. The ring element is
    /// `Copy`, so it can be traversed again.
    fn into_iter(self) -> (iter: std::vec::IntoIter<KyberFieldElement>)
        ensures
            as_integers(iter.remaining()) == self@,
            iter.obeys_prophetic_iter_laws(),
            iter.decrease() is Some,
            iter.initial_value_relation(&iter),
    {
        let mut items: Vec<KyberFieldElement> = Vec::with_capacity(COEFFICIENTS_IN_RING_ELEMENT);
        for i in 0..COEFFICIENTS_IN_RING_ELEMENT
            invariant
                items@.len() == i,
                forall|j: int| 0 <= j < i ==> items@[j] == self[j],
        {
            items.push(self.coefficients[i]);
        }
        assert(as_integers(items@) =~= self@);
        items.into_iter()
    }
}

impl core::ops::Add for KyberPolynomialRingElement {
    type Output = Self;

    /// The sum, coefficient by coefficient. Nothing is reduced: the caller
    /// reduces before sums can leave the range of a `KyberFieldElement`.
    fn add(self, other: Self) -> (result: Self)
        ensures
            result@ == ring_sum(self@, other@),
    {
        let mut result = KyberPolynomialRingElement::zero();
        for i in 0..COEFFICIENTS_IN_RING_ELEMENT
            invariant
                representable(ring_sum(self@, other@)),
                forall|j: int| 0 <= j < i ==> result[j] == self[j] + other[j],
        {
            assert(ring_sum(self@, other@)[i as int] == self[i as int] + other[i as int]);
            *result.index_mut(i) = self.coefficients[i] + other.coefficients[i];
        }
        proof {
            assert(result@ =~= ring_sum(self@, other@));
            result.lemma_view_is_injective(self.spec_add(other));
        }
        result
    }
}

impl vstd::std_specs::ops::AddSpecImpl for KyberPolynomialRingElement {
    open spec fn obeys_add_spec() -> bool {
        true
    }

    /// No coefficient of the sum overflows.
    open spec fn add_req(self, other: Self) -> bool {
        representable(ring_sum(self@, other@))
    }

    /// The ring element whose coefficients are those of the sum.
    open spec fn add_spec(self, other: Self) -> Self {
        self.spec_add(other)
    }
}

impl core::ops::Sub for KyberPolynomialRingElement {
    type Output = Self;

    /// The difference, coefficient by coefficient. Nothing is reduced.
    fn sub(self, other: Self) -> (result: Self)
        ensures
            result@ == ring_difference(self@, other@),
    {
        let mut result = KyberPolynomialRingElement::zero();
        for i in 0..COEFFICIENTS_IN_RING_ELEMENT
            invariant
                representable(ring_difference(self@, other@)),
                forall|j: int| 0 <= j < i ==> result[j] == self[j] - other[j],
        {
            assert(ring_difference(self@, other@)[i as int] == self[i as int] - other[i as int]);
            *result.index_mut(i) = self.coefficients[i] - other.coefficients[i];
        }
        proof {
            assert(result@ =~= ring_difference(self@, other@));
            result.lemma_view_is_injective(self.spec_sub(other));
        }
        result
    }
}

impl vstd::std_specs::ops::SubSpecImpl for KyberPolynomialRingElement {
    open spec fn obeys_sub_spec() -> bool {
        true
    }

    /// No coefficient of the difference overflows.
    open spec fn sub_req(self, other: Self) -> bool {
        representable(ring_difference(self@, other@))
    }

    /// The ring element whose coefficients are those of the difference.
    open spec fn sub_spec(self, other: Self) -> Self {
        self.spec_sub(other)
    }
}

} // verus!
