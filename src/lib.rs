//! Decoding and checking of pairing test vectors over BLS12-377.
//!
//! A fixture holds scalars of the scalar field, points of G1 and G2 in
//! projective coordinates, and elements of the target group, all as decimal
//! literals nested in sequences. `tower` decodes nested literals into elements
//! of the tower Fp, Fp2, Fp6, Fp12; `fixture` maps a whole fixture onto a named
//! test vector; `identities` checks the scalar relation, the correspondence of
//! points and scalars, and the pairing equation, with field and curve
//! arithmetic done by the arkworks crates.

pub mod decimal;
pub mod fixture;
pub mod identities;
pub mod scalar;
pub mod tower;
