use vstd::prelude::*;

use crate::decimal::{is_literal, literal_value};
use crate::fixture::{
    decode_fixture, decoded_from, parses_ok, schema_ok, FixtureError, G1Point, G2Point, RawFixture,
    TestVector,
};
use crate::scalar::{
    lemma_divide_by_inverse, scalar_from_literal, scalar_inverse, scalar_modulus, scalar_mul,
    scalar_sub, Scalar,
};
use ark_bls12_377::{Bls12_377, Fq, Fq12, Fq2, Fr, G1Projective, G2Projective};
use ark_ec::pairing::Pairing;
use ark_ec::Group;
use ark_ff::{BigInteger, Field, PrimeField};
use std::str::FromStr;
use vstd::arithmetic::div_mod::lemma_sub_mod_noop;

verus! {

/// A named scalar or point of a test vector.
#[derive(Clone, Copy, Debug, PartialEq, Eq, Structural)]
pub enum Operand {
    Vkx,
    Vky,
    Vkz,
    A1,
    B1,
    C1,
    A2,
    B2,
    C2,
}

/// Which identity failed, and on which operand.
#[derive(Clone, Copy, Debug, PartialEq, Eq, Structural)]
pub enum Violation {
    /// `(a·b − vkx·vky)·vkz⁻¹ ≠ c` for the instance whose `c` is named.
    Scalar(Operand),
    /// The named point is not the generator times its scalar.
    Correspondence(Operand),
    /// `e(a1·G1, b1·G2) ≠ e(vkx·G1, vky·G2)·e(c1·G1, vkz·G2)`.
    Pairing,
}

/// Why a fixture does not verify.
#[derive(Debug)]
pub enum VerifyError {
    /// The fixture cannot be read (schema or parse fault).
    Fixture(FixtureError),
    /// vkz is zero in the scalar field.
    NotInvertible,
    /// An algebraic identity does not hold.
    IdentityViolation(Violation),
}

/// A scalar literal as a residue of the scalar field.
pub open spec fn residue(s: String) -> nat {
    literal_value(s@) % scalar_modulus()
}

/// `c·z ≡ a·b − x·y` in the scalar field: for `z ≠ 0` the same as
/// `(a·b − x·y)·z⁻¹ = c`.
pub open spec fn relation(a: nat, b: nat, x: nat, y: nat, z: nat, c: nat) -> bool {
    ((c * z) as int) % (scalar_modulus() as int) == (a * b - x * y) % (scalar_modulus() as int)
}

/// Whether the G1 point with coordinates read from the literals `x`, `y`, `z`
/// equals the generator of G1 times the residue `s`.
pub uninterp spec fn g1_is_multiple(x: Seq<char>, y: Seq<char>, z: Seq<char>, s: nat) -> bool;

/// Whether the G2 point with Fp2 coordinates read from the literal pairs equals
/// the generator of G2 times the residue `s`.
pub uninterp spec fn g2_is_multiple(
    x0: Seq<char>,
    x1: Seq<char>,
    y0: Seq<char>,
    y1: Seq<char>,
    z0: Seq<char>,
    z1: Seq<char>,
    s: nat,
) -> bool;

/// Bytes of a target-group element: its twelve base-field coefficients, in the
/// order of the tower, each as 48 little-endian bytes.
pub open spec fn gt_len() -> nat {
    576
}

/// The bytes of `e(a·G1, b·G2)` for the residues `a` and `b`.
pub uninterp spec fn pairing_of(a: nat, b: nat) -> Seq<u8>;

/// The bytes of the product of two target-group elements given as bytes.
pub uninterp spec fn gt_product(x: Seq<u8>, y: Seq<u8>) -> Seq<u8>;

/// `e(a·G1, b·G2) = e(x·G1, y·G2)·e(c·G1, z·G2)` in the target group.
pub open spec fn pairing_identity(a: nat, b: nat, x: nat, y: nat, c: nat, z: nat) -> bool {
    pairing_of(a, b) == gt_product(pairing_of(x, y), pairing_of(c, z))
}

/// Every literal of the vector is well formed, as decoding leaves it.
pub open spec fn literals_ok(tv: TestVector) -> bool {
    &&& is_literal(tv.fr.vkx@) && is_literal(tv.fr.vky@) && is_literal(tv.fr.vkz@)
    &&& is_literal(tv.fr.a1@) && is_literal(tv.fr.b1@) && is_literal(tv.fr.c1@)
    &&& is_literal(tv.fr.a2@) && is_literal(tv.fr.b2@) && is_literal(tv.fr.c2@)
    &&& g1_literals(tv.g1.a1) && g1_literals(tv.g1.c1) && g1_literals(tv.g1.a2)
    &&& g1_literals(tv.g1.c2) && g1_literals(tv.g1.vkx)
    &&& g2_literals(tv.g2.b1) && g2_literals(tv.g2.b2) && g2_literals(tv.g2.vky)
    &&& g2_literals(tv.g2.vkz)
}

/// The three coordinates of `p` are literals.
pub open spec fn g1_literals(p: G1Point) -> bool {
    is_literal(p.x@) && is_literal(p.y@) && is_literal(p.z@)
}

/// The six base-field coordinates of `p` are literals.
pub open spec fn g2_literals(p: G2Point) -> bool {
    &&& is_literal(p.x.c0@) && is_literal(p.x.c1@)
    &&& is_literal(p.y.c0@) && is_literal(p.y.c1@)
    &&& is_literal(p.z.c0@) && is_literal(p.z.c1@)
}

/// `p` is the generator of G1 times the scalar literal `s`.
pub open spec fn g1_matches(p: G1Point, s: String) -> bool {
    g1_is_multiple(p.x@, p.y@, p.z@, residue(s))
}

/// `p` is the generator of G2 times the scalar literal `s`.
pub open spec fn g2_matches(p: G2Point, s: String) -> bool {
    g2_is_multiple(p.x.c0@, p.x.c1@, p.y.c0@, p.y.c1@, p.z.c0@, p.z.c1@, residue(s))
}

/// The first point that does not match its scalar, in the order a1, a2, c1,
/// c2, b1, b2, vkx, vky, vkz.
pub open spec fn mismatched_point(tv: TestVector) -> Option<Operand> {
    if !g1_matches(tv.g1.a1, tv.fr.a1) {
        Some(Operand::A1)
    } else if !g1_matches(tv.g1.a2, tv.fr.a2) {
        Some(Operand::A2)
    } else if !g1_matches(tv.g1.c1, tv.fr.c1) {
        Some(Operand::C1)
    } else if !g1_matches(tv.g1.c2, tv.fr.c2) {
        Some(Operand::C2)
    } else if !g2_matches(tv.g2.b1, tv.fr.b1) {
        Some(Operand::B1)
    } else if !g2_matches(tv.g2.b2, tv.fr.b2) {
        Some(Operand::B2)
    } else if !g1_matches(tv.g1.vkx, tv.fr.vkx) {
        Some(Operand::Vkx)
    } else if !g2_matches(tv.g2.vky, tv.fr.vky) {
        Some(Operand::Vky)
    } else if !g2_matches(tv.g2.vkz, tv.fr.vkz) {
        Some(Operand::Vkz)
    } else {
        None
    }
}

/// The outcome of the three checks, in order, stopping at the first failure.
pub open spec fn outcome(tv: TestVector) -> Result<(), Violation> {
    let f = tv.fr;
    if !relation(residue(f.a1), residue(f.b1), residue(f.vkx), residue(f.vky), residue(f.vkz), residue(f.c1)) {
        Err(Violation::Scalar(Operand::C1))
    } else if !relation(residue(f.a2), residue(f.b2), residue(f.vkx), residue(f.vky), residue(f.vkz), residue(f.c2)) {
        Err(Violation::Scalar(Operand::C2))
    } else if let Some(op) = mismatched_point(tv) {
        Err(Violation::Correspondence(op))
    } else if !pairing_identity(residue(f.a1), residue(f.b1), residue(f.vkx), residue(f.vky), residue(f.c1), residue(f.vkz)) {
        Err(Violation::Pairing)
    } else {
        Ok(())
    }
}

// The arkworks field and curve types carry bounds on arkworks traits, so they
// cannot stand in a verified signature: each backend operation below takes and
// returns plain values and converts at its edge.

/// Relies on ark-ec and ark_ff for BLS12-377: the coordinates are read by `FromStr`
/// into a `G1Projective` (`new_unchecked`), the scalar by
/// `from_le_bytes_mod_order`, and compared with `generator() * s` by the
/// projective `==`.
#[verifier::external_body]
fn g1_generator_multiple(p: &G1Point, s: &Scalar) -> (r: bool)
    requires
        g1_literals(*p),
        s.wf(),
    ensures
        r == g1_is_multiple(p.x@, p.y@, p.z@, s.value()),
{
    let q = G1Projective::new_unchecked(
        Fq::from_str(&p.x).unwrap(),
        Fq::from_str(&p.y).unwrap(),
        Fq::from_str(&p.z).unwrap(),
    );
    G1Projective::generator() * Fr::from_le_bytes_mod_order(&s.le) == q
}

/// Relies on ark-ec and ark_ff for BLS12-377: the coordinates are read by `FromStr`
/// into `Fq2::new` pairs and a `G2Projective` (`new_unchecked`), the scalar by
/// `from_le_bytes_mod_order`, and compared with `generator() * s` by the
/// projective `==`.
#[verifier::external_body]
fn g2_generator_multiple(p: &G2Point, s: &Scalar) -> (r: bool)
    requires
        g2_literals(*p),
        s.wf(),
    ensures
        r == g2_is_multiple(p.x.c0@, p.x.c1@, p.y.c0@, p.y.c1@, p.z.c0@, p.z.c1@, s.value()),
{
    let q = G2Projective::new_unchecked(
        Fq2::new(Fq::from_str(&p.x.c0).unwrap(), Fq::from_str(&p.x.c1).unwrap()),
        Fq2::new(Fq::from_str(&p.y.c0).unwrap(), Fq::from_str(&p.y.c1).unwrap()),
        Fq2::new(Fq::from_str(&p.z.c0).unwrap(), Fq::from_str(&p.z.c1).unwrap()),
    );
    G2Projective::generator() * Fr::from_le_bytes_mod_order(&s.le) == q
}

/// Relies on ark-ec's `Bls12_377::pairing` of `G1Projective::generator() * a`
/// and `G2Projective::generator() * b` (scalars read by
/// `from_le_bytes_mod_order`); the coefficients of the result, from
/// `to_base_prime_field_elements`, are written by `into_bigint().to_bytes_le()`.
#[verifier::external_body]
fn pairing_bytes(a: &Scalar, b: &Scalar) -> (r: Vec<u8>)
    requires
        a.wf(),
        b.wf(),
    ensures
        r@ == pairing_of(a.value(), b.value()),
        r@.len() == gt_len(),
{
    let p = G1Projective::generator() * Fr::from_le_bytes_mod_order(&a.le);
    let q = G2Projective::generator() * Fr::from_le_bytes_mod_order(&b.le);
    let mut r = Vec::new();
    for c in Bls12_377::pairing(p, q).0.to_base_prime_field_elements() {
        r.extend(c.into_bigint().to_bytes_le());
    }
    r
}

/// Relies on ark_ff's product in `Fq12`: each operand is rebuilt by
/// `from_base_prime_field_elems` from 48-byte coefficients read by
/// `from_le_bytes_mod_order`, and the product is written back as in
/// `pairing_bytes`.
#[verifier::external_body]
fn gt_mul_bytes(x: &Vec<u8>, y: &Vec<u8>) -> (r: Vec<u8>)
    requires
        x@.len() == gt_len(),
        y@.len() == gt_len(),
    ensures
        r@ == gt_product(x@, y@),
        r@.len() == gt_len(),
{
    let fx: Vec<Fq> = x.chunks(48).map(Fq::from_le_bytes_mod_order).collect();
    let fy: Vec<Fq> = y.chunks(48).map(Fq::from_le_bytes_mod_order).collect();
    let p = Fq12::from_base_prime_field_elems(&fx).unwrap()
        * Fq12::from_base_prime_field_elems(&fy).unwrap();
    let mut r = Vec::new();
    for c in p.to_base_prime_field_elements() {
        r.extend(c.into_bigint().to_bytes_le());
    }
    r
}

/// Whether two byte strings are equal.
fn bytes_equal(u: &Vec<u8>, v: &Vec<u8>) -> (r: bool)
    ensures
        r == (u@ == v@),
{
    if u.len() != v.len() {
        return false;
    }
    let mut i: usize = 0;
    while i < u.len()
        invariant
            u@.len() == v@.len(),
            i <= u@.len(),
            forall|j: int| 0 <= j < i ==> u@[j] == v@[j],
        decreases u@.len() - i,
    {
        if u[i] != v[i] {
            return false;
        }
        i = i + 1;
    }
    proof {
        assert(u@ =~= v@);
    }
    true
}

/// Whether `e(a·G1, b·G2) = e(x·G1, y·G2)·e(c·G1, z·G2)`: the product of the
/// two pairings on the right is compared with the pairing on the left,
/// coefficient by coefficient.
fn pairing_check(a: &Scalar, b: &Scalar, x: &Scalar, y: &Scalar, c: &Scalar, z: &Scalar) -> (r: bool)
    requires
        a.wf(),
        b.wf(),
        x.wf(),
        y.wf(),
        c.wf(),
        z.wf(),
    ensures
        r == pairing_identity(a.value(), b.value(), x.value(), y.value(), c.value(), z.value()),
{
    let lhs = pairing_bytes(a, b);
    let rhs = gt_mul_bytes(&pairing_bytes(x, y), &pairing_bytes(c, z));
    bytes_equal(&lhs, &rhs)
}

/// Whether `(a·b − x·y)·w = c` in the scalar field, where `w` is an inverse
/// of `z`.
fn relation_check(a: &Scalar, b: &Scalar, x: &Scalar, y: &Scalar, z: &Scalar, w: &Scalar, c: &Scalar) -> (r: bool)
    requires
        a.wf(),
        b.wf(),
        x.wf(),
        y.wf(),
        z.wf(),
        w.wf(),
        c.wf(),
        (z.value() * w.value()) % scalar_modulus() == 1,
    ensures
        r == relation(a.value(), b.value(), x.value(), y.value(), z.value(), c.value()),
{
    let ab = scalar_mul(a, b);
    let xy = scalar_mul(x, y);
    let d = scalar_sub(&ab, &xy);
    let t = scalar_mul(&d, w);
    proof {
        let m = scalar_modulus() as int;
        lemma_sub_mod_noop((a.value() * b.value()) as int, (x.value() * y.value()) as int, m);
        lemma_divide_by_inverse(d.value() as int, z.value() as int, w.value() as int, c.value() as int, m);
        vstd::arithmetic::div_mod::lemma_small_mod(d.value(), scalar_modulus());
    }
    t.same(c)
}

/// What verifying `tv` returns: `NotInvertible` where vkz is zero, else the
/// first violated identity, else success.
pub open spec fn verdict(tv: TestVector, r: Result<(), VerifyError>) -> bool {
    if residue(tv.fr.vkz) == 0 {
        r matches Err(VerifyError::NotInvertible)
    } else {
        match outcome(tv) {
            Ok(()) => r is Ok,
            Err(v) => r matches Err(VerifyError::IdentityViolation(w)) && w == v,
        }
    }
}

/// Runs the checks on a decoded test vector, in order, stopping at the first
/// failure: vkz must be invertible; the scalar relation must hold for both
/// instances; every point must be the generator times its scalar; the pairing
/// equation must hold for the first instance.
pub fn verify(tv: &TestVector) -> (r: Result<(), VerifyError>)
    requires
        literals_ok(*tv),
    ensures
        verdict(*tv, r),
{
    let f = &tv.fr;
    let vkx = scalar_from_literal(f.vkx.as_str());
    let vky = scalar_from_literal(f.vky.as_str());
    let vkz = scalar_from_literal(f.vkz.as_str());
    let a1 = scalar_from_literal(f.a1.as_str());
    let b1 = scalar_from_literal(f.b1.as_str());
    let c1 = scalar_from_literal(f.c1.as_str());
    let a2 = scalar_from_literal(f.a2.as_str());
    let b2 = scalar_from_literal(f.b2.as_str());
    let c2 = scalar_from_literal(f.c2.as_str());
    if vkz.is_zero() {
        return Err(VerifyError::NotInvertible);
    }
    let w = match scalar_inverse(&vkz) {
        Some(w) => w,
        None => unreached(),
    };
    if !relation_check(&a1, &b1, &vkx, &vky, &vkz, &w, &c1) {
        return Err(VerifyError::IdentityViolation(Violation::Scalar(Operand::C1)));
    }
    if !relation_check(&a2, &b2, &vkx, &vky, &vkz, &w, &c2) {
        return Err(VerifyError::IdentityViolation(Violation::Scalar(Operand::C2)));
    }
    let wrong = if !g1_generator_multiple(&tv.g1.a1, &a1) {
        Some(Operand::A1)
    } else if !g1_generator_multiple(&tv.g1.a2, &a2) {
        Some(Operand::A2)
    } else if !g1_generator_multiple(&tv.g1.c1, &c1) {
        Some(Operand::C1)
    } else if !g1_generator_multiple(&tv.g1.c2, &c2) {
        Some(Operand::C2)
    } else if !g2_generator_multiple(&tv.g2.b1, &b1) {
        Some(Operand::B1)
    } else if !g2_generator_multiple(&tv.g2.b2, &b2) {
        Some(Operand::B2)
    } else if !g1_generator_multiple(&tv.g1.vkx, &vkx) {
        Some(Operand::Vkx)
    } else if !g2_generator_multiple(&tv.g2.vky, &vky) {
        Some(Operand::Vky)
    } else if !g2_generator_multiple(&tv.g2.vkz, &vkz) {
        Some(Operand::Vkz)
    } else {
        None
    };
    if let Some(op) = wrong {
        return Err(VerifyError::IdentityViolation(Violation::Correspondence(op)));
    }
    if !pairing_check(&a1, &b1, &vkx, &vky, &c1, &vkz) {
        return Err(VerifyError::IdentityViolation(Violation::Pairing));
    }
    Ok(())
}

/// Decodes a fixture and verifies it. A fixture that breaks the schema or
/// holds a malformed entry fails with `Fixture` before any arithmetic;
/// otherwise the result is that of `verify` on the decoded vector.
pub fn check_fixture(raw: &RawFixture) -> (r: Result<(), VerifyError>)
    ensures
        !schema_ok(*raw) ==> (r matches Err(VerifyError::Fixture(e)) && e.is_schema()),
        schema_ok(*raw) && !parses_ok(*raw) ==> (r matches Err(VerifyError::Fixture(e))
            && e is Parse),
        schema_ok(*raw) && parses_ok(*raw) ==> exists|tv: TestVector|
            decoded_from(*raw, tv) && #[trigger] verdict(tv, r),
{
    match decode_fixture(raw) {
        Ok(tv) => {
            let r = verify(&tv);
            assert(decoded_from(*raw, tv) && verdict(tv, r));
            r
        },
        Err(e) => Err(VerifyError::Fixture(e)),
    }
}

} // verus!
