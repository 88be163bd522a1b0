use vstd::prelude::*;

use crate::decimal::{is_literal, literal_value};
use ark_bls12_377::Fr;
use ark_ff::{BigInteger, Field, PrimeField};
use std::str::FromStr;
use vstd::arithmetic::div_mod::{
    lemma_mul_mod_noop_left, lemma_mul_mod_noop_right, lemma_small_mod,
};
use vstd::arithmetic::mul::{lemma_mul_is_associative, lemma_mul_is_commutative};

verus! {

/// 2^64, the weight of one limb.
pub open spec fn limb_base() -> nat {
    0x1_0000_0000_0000_0000
}

/// The order of the scalar field of BLS12-377, written in 64-bit limbs.
pub open spec fn scalar_modulus() -> nat {
    ((0x12ab655e9a2ca556 * limb_base() + 0x60b44d1e5c37b001) * limb_base() + 0x59aa76fed0000001)
        * limb_base() + 0x0a11800000000001
}

/// Bytes read as an unsigned little-endian number.
pub open spec fn le_value(b: Seq<u8>) -> nat
    decreases b.len(),
{
    if b.len() == 0 {
        0
    } else {
        b[0] as nat + 256 * le_value(b.subrange(1, b.len() as int))
    }
}

/// Two byte strings of one length that denote the same number are equal.
proof fn lemma_le_value_injective(a: Seq<u8>, b: Seq<u8>)
    requires
        a.len() == b.len(),
        le_value(a) == le_value(b),
    ensures
        a == b,
    decreases a.len(),
{
    if a.len() > 0 {
        let ra = a.subrange(1, a.len() as int);
        let rb = b.subrange(1, b.len() as int);
        let x = a[0] as int;
        let y = b[0] as int;
        let u = le_value(ra) as int;
        let v = le_value(rb) as int;
        assert(x + 256 * u == y + 256 * v);
        assert(x == y && u == v) by (nonlinear_arith)
            requires
                x + 256 * u == y + 256 * v,
                0 <= x < 256,
                0 <= y < 256,
                u >= 0,
                v >= 0,
        ;
        lemma_le_value_injective(ra, rb);
        assert(a =~= seq![a[0]] + ra);
        assert(b =~= seq![b[0]] + rb);
    } else {
        assert(a =~= b);
    }
}

/// Bytes that are all zero denote zero.
proof fn lemma_le_value_zeros(b: Seq<u8>)
    requires
        forall|i: int| 0 <= i < b.len() ==> b[i] == 0,
    ensures
        le_value(b) == 0,
    decreases b.len(),
{
    if b.len() > 0 {
        lemma_le_value_zeros(b.subrange(1, b.len() as int));
    }
}

/// Multiplying by an inverse of `z` gives `c` exactly when `c * z` is
/// congruent to the multiplicand.
pub proof fn lemma_divide_by_inverse(d: int, z: int, w: int, c: int, m: int)
    requires
        m > 0,
        (z * w) % m == 1,
        0 <= c < m,
    ensures
        ((d * w) % m == c) <==> ((c * z) % m == d % m),
{
    lemma_mul_is_associative(d, w, z);
    lemma_mul_is_associative(c, z, w);
    lemma_mul_is_commutative(w, z);
    lemma_mul_mod_noop_left(d * w, z, m);
    lemma_mul_mod_noop_right(d, z * w, m);
    lemma_mul_mod_noop_left(d, w, m);
    lemma_mul_mod_noop_left(c * z, w, m);
    lemma_mul_mod_noop_right(c, z * w, m);
    lemma_small_mod(c as nat, m as nat);
    if (d * w) % m == c {
        assert((c * z) % m == (d * (w * z)) % m);
    }
    if (c * z) % m == d % m {
        assert((d * w) % m == ((c * z) % m * w) % m);
        assert((d * w) % m == (c * (z * w)) % m);
    }
}

/// An element of the scalar field, kept as its canonical residue in
/// little-endian bytes.
#[derive(Debug)]
pub struct Scalar {
    pub le: Vec<u8>,
}

impl Scalar {
    /// The residue that the bytes denote.
    pub open spec fn value(&self) -> nat {
        le_value(self.le@)
    }

    /// Thirty-two bytes holding a residue below the field order.
    pub open spec fn wf(&self) -> bool {
        &&& self.le@.len() == 32
        &&& self.value() < scalar_modulus()
    }

    /// Field equality of two well-formed scalars.
    pub fn same(&self, other: &Scalar) -> (r: bool)
        requires
            self.wf(),
            other.wf(),
        ensures
            r == (self.value() == other.value()),
    {
        let mut i: usize = 0;
        while i < self.le.len()
            invariant
                self.le@.len() == 32,
                other.le@.len() == 32,
                i <= 32,
                forall|j: int| 0 <= j < i ==> self.le@[j] == other.le@[j],
            decreases 32 - i,
        {
            if self.le[i] != other.le[i] {
                proof {
                    if self.value() == other.value() {
                        lemma_le_value_injective(self.le@, other.le@);
                    }
                }
                return false;
            }
            i = i + 1;
        }
        proof {
            assert(self.le@ =~= other.le@);
        }
        true
    }

    /// Whether a well-formed scalar is the zero of the field.
    pub fn is_zero(&self) -> (r: bool)
        requires
            self.wf(),
        ensures
            r == (self.value() == 0),
    {
        let mut i: usize = 0;
        while i < self.le.len()
            invariant
                self.le@.len() == 32,
                i <= 32,
                forall|j: int| 0 <= j < i ==> self.le@[j] == 0,
            decreases 32 - i,
        {
            if self.le[i] != 0 {
                proof {
                    let zeros = Seq::new(32, |j: int| 0u8);
                    lemma_le_value_zeros(zeros);
                    if self.value() == 0 {
                        lemma_le_value_injective(self.le@, zeros);
                        assert(self.le@[i as int] == zeros[i as int]);
                    }
                }
                return false;
            }
            i = i + 1;
        }
        proof {
            lemma_le_value_zeros(self.le@);
        }
        true
    }
}

/// Relies on ark_ff's `FromStr` for the BLS12-377 scalar field: a literal
/// denotes its value reduced modulo the field order; `into_bigint` then gives
/// the canonical residue, which `to_bytes_le` writes as four little-endian limbs.
#[verifier::external_body]
pub(crate) fn scalar_from_literal(s: &str) -> (r: Scalar)
    requires
        is_literal(s@),
    ensures
        r.wf(),
        r.value() == literal_value(s@) % scalar_modulus(),
{
    Scalar { le: Fr::from_str(s).unwrap().into_bigint().to_bytes_le() }
}

/// Relies on ark_ff's multiplication in the BLS12-377 scalar field
/// (`from_le_bytes_mod_order` reads the residue back).
#[verifier::external_body]
pub(crate) fn scalar_mul(a: &Scalar, b: &Scalar) -> (r: Scalar)
    requires
        a.wf(),
        b.wf(),
    ensures
        r.wf(),
        r.value() == (a.value() * b.value()) % scalar_modulus(),
{
    let p = Fr::from_le_bytes_mod_order(&a.le) * Fr::from_le_bytes_mod_order(&b.le);
    Scalar { le: p.into_bigint().to_bytes_le() }
}

/// Relies on ark_ff's subtraction in the BLS12-377 scalar field.
#[verifier::external_body]
pub(crate) fn scalar_sub(a: &Scalar, b: &Scalar) -> (r: Scalar)
    requires
        a.wf(),
        b.wf(),
    ensures
        r.wf(),
        r.value() == (a.value() - b.value()) % (scalar_modulus() as int),
{
    let d = Fr::from_le_bytes_mod_order(&a.le) - Fr::from_le_bytes_mod_order(&b.le);
    Scalar { le: d.into_bigint().to_bytes_le() }
}

/// Relies on ark_ff's `Field::inverse` in the BLS12-377 scalar field: `None`
/// exactly for zero, else the multiplicative inverse.
#[verifier::external_body]
pub(crate) fn scalar_inverse(a: &Scalar) -> (r: Option<Scalar>)
    requires
        a.wf(),
    ensures
        r is None <==> a.value() == 0,
        r matches Some(i) ==> i.wf() && (a.value() * i.value()) % scalar_modulus() == 1,
{
    match Fr::from_le_bytes_mod_order(&a.le).inverse() {
        Some(i) => Some(Scalar { le: i.into_bigint().to_bytes_le() }),
        None => None,
    }
}

} // verus!
