use kyber_arithmetic::arithmetic::{
    barrett_reduce, montgomery_reduce, to_montgomery_domain, BARRETT_MULTIPLIER, BARRETT_R,
    BARRETT_REDUCED_BOUND, BARRETT_SHIFT, INVERSE_OF_MODULUS_MOD_R, INVERSE_OF_R_MOD_MODULUS,
    MONTGOMERY_R, MONTGOMERY_SHIFT, R_SQUARED_MOD_MODULUS,
};
use kyber_arithmetic::parameters::{COEFFICIENTS_IN_RING_ELEMENT, FIELD_MODULUS};

const BARRETT_INPUT_MIN: i32 = -106527;
const BARRETT_INPUT_MAX: i32 = 104862;

#[test]
fn parameters_have_their_values() {
    assert_eq!(FIELD_MODULUS, 3329);
    assert_eq!(COEFFICIENTS_IN_RING_ELEMENT, 256);
}

#[test]
fn derived_constants_fit_the_modulus() {
    assert_eq!(FIELD_MODULUS % 2, 1);
    assert_eq!(BARRETT_R, 1 << BARRETT_SHIFT);
    assert_eq!(
        i64::from(BARRETT_MULTIPLIER),
        (2 * i64::from(BARRETT_R) + i64::from(FIELD_MODULUS)) / (2 * i64::from(FIELD_MODULUS))
    );
    assert_eq!(MONTGOMERY_R, 1 << MONTGOMERY_SHIFT);
    assert_eq!(
        (i64::from(FIELD_MODULUS) * INVERSE_OF_MODULUS_MOD_R).rem_euclid(MONTGOMERY_R),
        1
    );
    assert_eq!(
        (MONTGOMERY_R * i64::from(INVERSE_OF_R_MOD_MODULUS)) % i64::from(FIELD_MODULUS),
        1
    );
    assert_eq!(
        (MONTGOMERY_R * MONTGOMERY_R) % i64::from(FIELD_MODULUS),
        i64::from(R_SQUARED_MOD_MODULUS)
    );
    assert_eq!(BARRETT_REDUCED_BOUND, (FIELD_MODULUS + 1) / 2);
}

#[test]
fn barrett_reduces_the_modulus_to_zero() {
    assert_eq!(barrett_reduce(3329), 0);
    assert_eq!(barrett_reduce(3329).rem_euclid(FIELD_MODULUS), 0);
}

#[test]
fn barrett_reduces_the_successor_of_the_modulus_to_one() {
    assert_eq!(barrett_reduce(3330), 1);
    assert_eq!(barrett_reduce(3330).rem_euclid(FIELD_MODULUS), 1);
}

#[test]
fn barrett_exact_values() {
    assert_eq!(barrett_reduce(0), 0);
    assert_eq!(barrett_reduce(1), 1);
    assert_eq!(barrett_reduce(-1), -1);
    assert_eq!(barrett_reduce(1664), 1664);
    assert_eq!(barrett_reduce(1665), -1664);
    assert_eq!(barrett_reduce(-1664), -1664);
    assert_eq!(barrett_reduce(-1665), 1664);
    assert_eq!(barrett_reduce(3328), -1);
    assert_eq!(barrett_reduce(-3329), 0);
    assert_eq!(barrett_reduce(6658), 0);
    assert_eq!(barrett_reduce(100000), 130);
    assert_eq!(barrett_reduce(-100000), -130);
}

#[test]
fn barrett_at_the_ends_of_its_input_range() {
    assert_eq!(barrett_reduce(BARRETT_INPUT_MAX), 1663);
    assert_eq!(barrett_reduce(BARRETT_INPUT_MIN), 1);
}

#[test]
fn barrett_result_is_not_always_the_nearest_representative() {
    assert_eq!(barrett_reduce(78230), 1663);
    assert_eq!(barrett_reduce(78231), -BARRETT_REDUCED_BOUND);
    assert_eq!(barrett_reduce(-78231), BARRETT_REDUCED_BOUND);
}

#[test]
fn barrett_keeps_the_residue_on_every_input() {
    for value in BARRETT_INPUT_MIN..=BARRETT_INPUT_MAX {
        let reduced = barrett_reduce(value);
        assert_eq!(
            reduced.rem_euclid(FIELD_MODULUS),
            value.rem_euclid(FIELD_MODULUS),
            "value {}",
            value
        );
    }
}

#[test]
fn barrett_result_is_bounded_on_every_input() {
    let mut least = 0;
    let mut greatest = 0;
    for value in BARRETT_INPUT_MIN..=BARRETT_INPUT_MAX {
        let reduced = barrett_reduce(value);
        assert!(reduced.abs() < FIELD_MODULUS, "value {}", value);
        assert!(reduced.abs() <= BARRETT_REDUCED_BOUND, "value {}", value);
        least = least.min(reduced);
        greatest = greatest.max(reduced);
    }
    assert_eq!(least, -BARRETT_REDUCED_BOUND);
    assert_eq!(greatest, BARRETT_REDUCED_BOUND);
}

#[test]
fn barrett_matches_its_formula() {
    for value in [-106527, -70000, -3330, -1, 0, 5, 3329, 50000, 104862] {
        let product = i64::from(value) * 20159 + (1 << 25);
        let quotient = product.div_euclid(1 << 26);
        assert_eq!(i64::from(barrett_reduce(value)), i64::from(value) - quotient * 3329);
    }
}

#[test]
fn montgomery_exact_values() {
    assert_eq!(montgomery_reduce(0), 0);
    assert_eq!(montgomery_reduce(1), -3160);
    assert_eq!(montgomery_reduce(-1), -169);
    assert_eq!(montgomery_reduce(65536), 1);
    assert_eq!(montgomery_reduce(-65536), -1);
    assert_eq!(montgomery_reduce(2285), -3328);
    assert_eq!(montgomery_reduce(3329), 0);
    assert_eq!(montgomery_reduce(3329 * 65536), 3329);
}

#[test]
fn montgomery_at_the_ends_of_the_integer_range() {
    assert_eq!(montgomery_reduce(i32::MAX), 32599);
    assert_eq!(montgomery_reduce(-1929317633), -32768);
}

#[test]
fn montgomery_divides_by_the_radix_modulo_the_prime() {
    let modulus = i64::from(FIELD_MODULUS);
    for value in (-2_000_000..2_000_000).step_by(97) {
        let reduced = i64::from(montgomery_reduce(value));
        let value = i64::from(value);
        assert_eq!((reduced * MONTGOMERY_R).rem_euclid(modulus), value.rem_euclid(modulus));
        assert_eq!(
            reduced.rem_euclid(modulus),
            (value * i64::from(INVERSE_OF_R_MOD_MODULUS)).rem_euclid(modulus)
        );
        assert!(value - MONTGOMERY_R * modulus < reduced * MONTGOMERY_R);
        assert!(reduced * MONTGOMERY_R <= value);
    }
}

#[test]
fn montgomery_matches_its_formula() {
    for value in [-1929317633, -65537, -1, 0, 1353, 65535, 4_501_431, i32::MAX] {
        let value = i64::from(value);
        let factor = (value * -3327).rem_euclid(65536);
        let difference = value - factor * 3329;
        assert_eq!(difference.rem_euclid(65536), 0);
        assert_eq!(i64::from(montgomery_reduce(value as i32)), difference / 65536);
    }
}

#[test]
fn lifting_exact_values() {
    assert_eq!(to_montgomery_domain(0), 0);
    assert_eq!(to_montgomery_domain(1), -1044);
    assert_eq!(to_montgomery_domain(2), -2088);
    assert_eq!(to_montgomery_domain(1664), -2807);
    assert_eq!(to_montgomery_domain(3328), -2285);
}

#[test]
fn lifting_at_the_ends_of_its_input_range() {
    assert_eq!(to_montgomery_domain(1587201), montgomery_reduce(1353 * 1587201));
    assert_eq!(to_montgomery_domain(-1425955), montgomery_reduce(1353 * -1425955));
}

#[test]
fn lifting_multiplies_by_the_radix_modulo_the_prime() {
    let modulus = i64::from(FIELD_MODULUS);
    for value in -5000..5000 {
        let lifted = i64::from(to_montgomery_domain(value));
        assert_eq!(
            lifted.rem_euclid(modulus),
            (i64::from(value) * MONTGOMERY_R).rem_euclid(modulus)
        );
    }
}

#[test]
fn lifting_one_and_reducing_gives_one() {
    let lifted = to_montgomery_domain(1);
    let back = montgomery_reduce(lifted);
    assert_eq!(back, -3328);
    assert_eq!(back.rem_euclid(3329), 1);
}

#[test]
fn lifting_and_reducing_round_trips_on_every_canonical_element() {
    for a in 0..FIELD_MODULUS {
        let back = montgomery_reduce(to_montgomery_domain(a));
        assert_eq!(back.rem_euclid(FIELD_MODULUS), a);
    }
}

#[test]
fn barrett_after_the_round_trip_restores_the_residue() {
    for a in 0..FIELD_MODULUS {
        let back = barrett_reduce(montgomery_reduce(to_montgomery_domain(a)));
        assert_eq!(back.rem_euclid(FIELD_MODULUS), a);
        assert!(back.abs() <= BARRETT_REDUCED_BOUND);
    }
}
