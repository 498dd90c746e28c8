//! Elements of the BN254 scalar field.
//!
//! A [`FieldElement`] stores the canonical little-endian bytes of an integer
//! below the field modulus, and its view is that integer. Reading and
//! writing elements is verified here. Addition, multiplication and squaring
//! are carried out by `halo2curves` on its scalar type `Fr`; the three
//! functions that make those calls are trusted to compute the usual
//! arithmetic modulo [`modulus`], and everything else in the crate is proved
//! from that.

use halo2curves::bn256::Fr;
use vstd::arithmetic::div_mod::{lemma_mul_mod_noop, lemma_mul_mod_noop_left};
use vstd::prelude::*;

verus! {

/// The order of the BN254 scalar field.
pub open spec fn modulus() -> nat {
    21888242871839275222246405745257275088548364400416034343698204186575808495617nat
}

/// Addition in the field.
pub open spec fn fadd(a: nat, b: nat) -> nat {
    (a + b) % modulus()
}

/// Multiplication in the field.
pub open spec fn fmul(a: nat, b: nat) -> nat {
    (a * b) % modulus()
}

/// The fifth power in the field: the S-box.
pub open spec fn pow5(v: nat) -> nat {
    (v * v * v * v * v) % modulus()
}

/// The integer that a little-endian byte string denotes.
pub open spec fn le_value(bytes: Seq<u8>) -> nat
    decreases bytes.len(),
{
    if bytes.len() == 0 {
        0
    } else {
        bytes[0] as nat + 256 * le_value(bytes.skip(1))
    }
}

/// An element of the field, held as 32 canonical little-endian bytes.
#[derive(Clone, Copy, Debug, PartialEq, Eq)]
pub struct FieldElement {
    bytes: [u8; 32],
}

impl View for FieldElement {
    type V = nat;

    closed spec fn view(&self) -> nat {
        le_value(self.bytes@)
    }
}

/// The values of a sequence of elements.
pub open spec fn values(s: Seq<FieldElement>) -> Seq<nat> {
    Seq::new(s.len(), |i: int| s[i]@)
}

/// The values of a sequence of rows of elements.
pub open spec fn matrix_values<const N: usize>(m: Seq<[FieldElement; N]>) -> Seq<Seq<nat>> {
    Seq::new(m.len(), |i: int| values(m[i]@))
}

/// The little-endian bytes of the modulus.
fn modulus_bytes() -> (m: [u8; 32])
    ensures
        le_value(m@) == modulus(),
{
    let m: [u8; 32] = [
        0x01, 0x00, 0x00, 0xf0, 0x93, 0xf5, 0xe1, 0x43,
        0x91, 0x70, 0xb9, 0x79, 0x48, 0xe8, 0x33, 0x28,
        0x5d, 0x58, 0x81, 0x81, 0xb6, 0x45, 0x50, 0xb8,
        0x29, 0xa0, 0x31, 0xe1, 0x72, 0x4e, 0x64, 0x30,
    ];
    proof {
        lemma_unfold_eight(m@, 0);
        lemma_unfold_eight(m@, 8);
        lemma_unfold_eight(m@, 16);
        lemma_unfold_eight(m@, 24);
        assert(m@.skip(32).len() == 0);
        assert(m@.skip(0) =~= m@);
    }
    m
}

impl FieldElement {
    /// Every element is reduced: its value lies below the modulus.
    #[verifier::type_invariant]
    pub open spec fn is_canonical(&self) -> bool {
        self@ < modulus()
    }

    /// The additive identity.
    pub fn zero() -> (r: FieldElement)
        ensures
            r@ == 0,
    {
        let bytes = [0u8; 32];
        proof {
            lemma_zero_bytes(bytes@);
        }
        FieldElement { bytes }
    }

    /// The multiplicative identity.
    pub fn one() -> (r: FieldElement)
        ensures
            r@ == 1,
    {
        let mut bytes = [0u8; 32];
        bytes[0] = 1;
        proof {
            lemma_zero_bytes(bytes@.skip(1));
        }
        FieldElement { bytes }
    }

    /// The element that a 64-bit integer denotes.
    pub fn from_u64(v: u64) -> (r: FieldElement)
        ensures
            r@ == v,
    {
        let mut bytes = [0u8; 32];
        let v1: u64 = v / 256;
        let v2: u64 = v1 / 256;
        let v3: u64 = v2 / 256;
        let v4: u64 = v3 / 256;
        let v5: u64 = v4 / 256;
        let v6: u64 = v5 / 256;
        let v7: u64 = v6 / 256;
        bytes[0] = (v % 256) as u8;
        bytes[1] = (v1 % 256) as u8;
        bytes[2] = (v2 % 256) as u8;
        bytes[3] = (v3 % 256) as u8;
        bytes[4] = (v4 % 256) as u8;
        bytes[5] = (v5 % 256) as u8;
        bytes[6] = (v6 % 256) as u8;
        bytes[7] = (v7 % 256) as u8;
        proof {
            lemma_unfold_eight(bytes@, 0);
            lemma_zero_bytes(bytes@.skip(8));
            assert(bytes@.skip(0) =~= bytes@);
        }
        FieldElement { bytes }
    }

    /// Reads an element from its 32 little-endian bytes. The bytes are
    /// accepted exactly when they denote an integer below the modulus.
    pub fn from_bytes(bytes: [u8; 32]) -> (r: Option<FieldElement>)
        ensures
            r is Some <==> le_value(bytes@) < modulus(),
            r matches Some(x) ==> x@ == le_value(bytes@),
    {
        let m = modulus_bytes();
        let mut i: usize = 32;
        while i > 0
            invariant
                i <= 32,
                le_value(m@) == modulus(),
                le_value(bytes@.skip(i as int)) == le_value(m@.skip(i as int)),
            decreases i,
        {
            i = i - 1;
            proof {
                lemma_unfold(bytes@, i as int);
                lemma_unfold(m@, i as int);
            }
            if bytes[i] < m[i] {
                proof {
                    lemma_suffix_order(bytes@, m@, i as int);
                }
                return Some(FieldElement { bytes });
            }
            if bytes[i] > m[i] {
                proof {
                    lemma_suffix_order(m@, bytes@, i as int);
                }
                return None;
            }
        }
        proof {
            assert(bytes@.skip(0) =~= bytes@);
            assert(m@.skip(0) =~= m@);
        }
        None
    }

    /// The 32 little-endian bytes of the element.
    pub fn to_bytes(&self) -> (r: [u8; 32])
        ensures
            le_value(r@) == self@,
    {
        self.bytes
    }

    /// The fifth power of the element.
    pub fn pow5(&self) -> (r: FieldElement)
        ensures
            r@ == pow5(self@),
    {
        let sq = field_square(self);
        let quad = field_mul(&sq, &sq);
        let r = field_mul(&quad, self);
        proof {
            let v = self@ as int;
            let p = modulus() as int;
            lemma_mul_mod_noop(v * v, v * v, p);
            lemma_mul_mod_noop_left((v * v) * (v * v), v, p);
            assert((v * v) * (v * v) * v == v * v * v * v * v) by (nonlinear_arith);
        }
        r
    }
}

/// Elements with equal values are equal: the value fixes all 32 bytes.
pub proof fn lemma_equal_values(a: FieldElement, b: FieldElement)
    requires
        a@ == b@,
    ensures
        a == b,
{
    lemma_le_value_injective(a.bytes@, b.bytes@);
    assert(a.bytes =~= b.bytes);
}

/// The sum of two elements.
///
/// Trusted: the body calls `Fr::add` of `halo2curves`, between
/// `Fr::from_bytes` on each operand and `Fr::to_bytes` on the result. The
/// contract takes it to add modulo the field order. Both operands are
/// canonical by the invariant of [`FieldElement`], so `from_bytes` accepts
/// them.
#[verifier::external_body]
pub(crate) fn field_add(a: &FieldElement, b: &FieldElement) -> (r: FieldElement)
    ensures
        r@ == fadd(a@, b@),
{
    let x = Fr::from_bytes(&a.bytes).unwrap();
    let y = Fr::from_bytes(&b.bytes).unwrap();
    FieldElement { bytes: x.add(&y).to_bytes() }
}

/// The product of two elements.
///
/// Trusted: the body calls `Fr::mul` of `halo2curves`, between
/// `Fr::from_bytes` on each operand and `Fr::to_bytes` on the result. The
/// contract takes it to multiply modulo the field order. Both operands are
/// canonical by the invariant of [`FieldElement`], so `from_bytes` accepts
/// them.
#[verifier::external_body]
pub(crate) fn field_mul(a: &FieldElement, b: &FieldElement) -> (r: FieldElement)
    ensures
        r@ == fmul(a@, b@),
{
    let x = Fr::from_bytes(&a.bytes).unwrap();
    let y = Fr::from_bytes(&b.bytes).unwrap();
    FieldElement { bytes: x.mul(&y).to_bytes() }
}

/// The square of an element.
///
/// Trusted: the body calls `Fr::square` of `halo2curves`, between
/// `Fr::from_bytes` on the operand and `Fr::to_bytes` on the result. The
/// contract takes it to square modulo the field order. The operand is
/// canonical by the invariant of [`FieldElement`], so `from_bytes` accepts
/// it.
#[verifier::external_body]
pub(crate) fn field_square(a: &FieldElement) -> (r: FieldElement)
    ensures
        r@ == fmul(a@, a@),
{
    let x = Fr::from_bytes(&a.bytes).unwrap();
    FieldElement { bytes: x.square().to_bytes() }
}

/// A byte string of zeros denotes zero.
proof fn lemma_zero_bytes(bytes: Seq<u8>)
    requires
        forall|i: int| 0 <= i < bytes.len() ==> bytes[i] == 0,
    ensures
        le_value(bytes) == 0,
    decreases bytes.len(),
{
    if bytes.len() > 0 {
        lemma_zero_bytes(bytes.skip(1));
    }
}

/// The value of a suffix, in terms of its first byte and the next suffix.
proof fn lemma_unfold(bytes: Seq<u8>, i: int)
    requires
        0 <= i < bytes.len(),
    ensures
        le_value(bytes.skip(i)) == bytes[i] as nat + 256 * le_value(bytes.skip(i + 1)),
{
    assert(bytes.skip(i).skip(1) =~= bytes.skip(i + 1));
}

/// Eight steps of [`lemma_unfold`] at once.
proof fn lemma_unfold_eight(bytes: Seq<u8>, i: int)
    requires
        0 <= i,
        i + 8 <= bytes.len(),
    ensures
        le_value(bytes.skip(i)) == bytes[i] as nat + 0x100 * bytes[i + 1] as nat + 0x1_0000
            * bytes[i + 2] as nat + 0x100_0000 * bytes[i + 3] as nat + 0x1_0000_0000 * bytes[i
            + 4] as nat + 0x100_0000_0000 * bytes[i + 5] as nat + 0x1_0000_0000_0000 * bytes[i
            + 6] as nat + 0x100_0000_0000_0000 * bytes[i + 7] as nat + 0x1_0000_0000_0000_0000
            * le_value(bytes.skip(i + 8)),
{
    lemma_unfold(bytes, i);
    lemma_unfold(bytes, i + 1);
    lemma_unfold(bytes, i + 2);
    lemma_unfold(bytes, i + 3);
    lemma_unfold(bytes, i + 4);
    lemma_unfold(bytes, i + 5);
    lemma_unfold(bytes, i + 6);
    lemma_unfold(bytes, i + 7);
}

/// Byte strings of one length that denote one integer are equal.
proof fn lemma_le_value_injective(x: Seq<u8>, y: Seq<u8>)
    requires
        x.len() == y.len(),
        le_value(x) == le_value(y),
    ensures
        x =~= y,
    decreases x.len(),
{
    if x.len() > 0 {
        let high_x = le_value(x.skip(1));
        let high_y = le_value(y.skip(1));
        assert(x[0] + 256 * high_x == y[0] + 256 * high_y);
        assert(high_x == high_y);
        lemma_le_value_injective(x.skip(1), y.skip(1));
        assert forall|i: int| 0 <= i < x.len() implies x[i] == y[i] by {
            if i > 0 {
                assert(x[i] == x.skip(1)[i - 1]);
                assert(y[i] == y.skip(1)[i - 1]);
            }
        }
    }
}

/// Byte strings of one length are ordered as their suffixes are, once the
/// suffixes differ.
proof fn lemma_suffix_order(a: Seq<u8>, b: Seq<u8>, i: int)
    requires
        a.len() == b.len(),
        0 <= i <= a.len(),
        le_value(a.skip(i)) < le_value(b.skip(i)),
    ensures
        le_value(a) < le_value(b),
    decreases i,
{
    if i == 0 {
        assert(a.skip(0) =~= a);
        assert(b.skip(0) =~= b);
    } else {
        lemma_unfold(a, i - 1);
        lemma_unfold(b, i - 1);
        lemma_suffix_order(a, b, i - 1);
    }
}

} // verus!
