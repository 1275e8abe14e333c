//! Modular arithmetic for a lattice-based key-encapsulation scheme: Barrett and
//! Montgomery reduction modulo the field prime, and the polynomial ring element
//! built from the reduced integers.

pub mod arithmetic;
pub mod laws;
pub mod parameters;
