//! Scalars: 256-bit integers that multiply points, and their arithmetic
//! modulo the group order.
use vstd::prelude::*;
use crate::bytes::{
    array_32, group_order, le_nat, le_nat_from, lemma_le_nat_32, lemma_le_nat_from_zeros,
    lemma_y_coordinate, pow2_255,
};
use crate::check_slice_size;
use crate::error::Error;

verus! {

/// A scalar, held as the 32 little-endian bytes of an integer below 2^256.
///
/// The integer is kept as it was given: it may exceed the group order, and
/// nothing reduces it silently.
#[derive(Clone, Copy, Debug, PartialEq, Eq)]
pub struct Scalar {
    pub bytes: [u8; 32],
}

impl View for Scalar {
    type V = nat;

    /// The integer that the bytes spell.
    open spec fn view(&self) -> nat {
        le_nat(self.bytes@)
    }
}

/// The product of two integers modulo the group order.
pub open spec fn times(a: nat, b: nat) -> nat {
    (a * b) % group_order()
}

/// The sum of two integers modulo the group order.
pub open spec fn plus(a: nat, b: nat) -> nat {
    (a + b) % group_order()
}

/// `Scalar::from_bytes_mod_order` of curve25519-dalek: the 256-bit integer
/// that the bytes spell, reduced modulo the group order.
#[verifier::external_body]
fn dalek_from_bytes_mod_order(bytes: &[u8; 32]) -> (s: Scalar)
    ensures
        s@ == le_nat(bytes@) % group_order(),
{
    Scalar { bytes: curve25519_dalek::scalar::Scalar::from_bytes_mod_order(*bytes).to_bytes() }
}

/// `Scalar::from_bytes_mod_order_wide` of curve25519-dalek: the 512-bit
/// integer that the bytes spell, reduced modulo the group order.
#[verifier::external_body]
fn dalek_from_bytes_mod_order_wide(bytes: &[u8; 64]) -> (s: Scalar)
    ensures
        s@ == le_nat(bytes@) % group_order(),
{
    Scalar { bytes: curve25519_dalek::scalar::Scalar::from_bytes_mod_order_wide(bytes).to_bytes() }
}

/// `Scalar::from_canonical_bytes` of curve25519-dalek: the scalar with
/// exactly these bytes if they spell an integer below the group order,
/// nothing otherwise.
#[verifier::external_body]
fn dalek_from_canonical_bytes(bytes: &[u8; 32]) -> (out: Option<Scalar>)
    ensures
        out is Some <==> le_nat(bytes@) < group_order(),
        out matches Some(s) ==> s.bytes@ == bytes@,
{
    match curve25519_dalek::scalar::Scalar::from_canonical_bytes(*bytes) {
        Some(s) => Some(Scalar { bytes: s.to_bytes() }),
        None => None,
    }
}

/// The product of two scalars of curve25519-dalek, both below the group
/// order: their product modulo the group order.
#[verifier::external_body]
fn dalek_scalar_mul(a: &Scalar, b: &Scalar) -> (product: Scalar)
    requires
        a@ < group_order(),
        b@ < group_order(),
    ensures
        product@ == (a@ * b@) % group_order(),
{
    let x = curve25519_dalek::scalar::Scalar::from_bits(a.bytes);
    let y = curve25519_dalek::scalar::Scalar::from_bits(b.bytes);
    Scalar { bytes: (x * y).to_bytes() }
}

/// The sum of two scalars of curve25519-dalek, both below the group order:
/// their sum modulo the group order.
#[verifier::external_body]
fn dalek_scalar_add(a: &Scalar, b: &Scalar) -> (sum: Scalar)
    requires
        a@ < group_order(),
        b@ < group_order(),
    ensures
        sum@ == (a@ + b@) % group_order(),
{
    let x = curve25519_dalek::scalar::Scalar::from_bits(a.bytes);
    let y = curve25519_dalek::scalar::Scalar::from_bits(b.bytes);
    Scalar { bytes: (x + y).to_bytes() }
}

impl Scalar {
    /// Whether the scalar is below the group order.
    pub open spec fn canonical(&self) -> bool {
        self@ < group_order()
    }

    /// The scalar 0.
    pub fn zero() -> (s: Scalar)
        ensures
            s@ == 0,
            s.bytes@ == Seq::new(32, |i: int| 0u8),
    {
        let s = Scalar { bytes: [0u8; 32] };
        proof {
            lemma_le_nat_from_zeros(s.bytes@, 0);
            assert(s.bytes@ =~= Seq::new(32, |i: int| 0u8));
        }
        s
    }

    /// The scalar with the low 255 bits of a 256-bit integer.
    pub fn from_bits(bytes: [u8; 32]) -> (s: Scalar)
        ensures
            s@ == le_nat(bytes@) % pow2_255(),
            s@ < pow2_255(),
            bytes@[31] < 128 ==> s.bytes@ == bytes@,
    {
        let mut low: [u8; 32] = bytes;
        let top: u8 = bytes[31];
        assert(top & 0x7f == top % 128) by (bit_vector);
        low[31] = top & 0x7f;
        proof {
            lemma_y_coordinate(bytes@);
            lemma_le_nat_32(low@);
            if top < 128 {
                assert(low@ =~= bytes@);
            }
        }
        Scalar { bytes: low }
    }

    /// The 256-bit integer that the bytes spell, reduced modulo the group
    /// order.
    pub fn from_bytes_mod_order(bytes: [u8; 32]) -> (s: Scalar)
        ensures
            s@ == le_nat(bytes@) % group_order(),
            s.canonical(),
    {
        dalek_from_bytes_mod_order(&bytes)
    }

    /// The 512-bit integer that the bytes spell, reduced modulo the group
    /// order.
    pub fn from_bytes_mod_order_wide(bytes: &[u8; 64]) -> (s: Scalar)
        ensures
            s@ == le_nat(bytes@) % group_order(),
            s.canonical(),
    {
        dalek_from_bytes_mod_order_wide(bytes)
    }

    /// The scalar with exactly these bytes, if they spell an integer below
    /// the group order.
    pub fn from_canonical_bytes(bytes: [u8; 32]) -> (out: Option<Scalar>)
        ensures
            out is Some <==> le_nat(bytes@) < group_order(),
            out matches Some(s) ==> s.bytes@ == bytes@,
    {
        dalek_from_canonical_bytes(&bytes)
    }

    /// The scalar below the group order that is congruent to this one.
    pub fn reduce(&self) -> (s: Scalar)
        ensures
            s@ == self@ % group_order(),
            s.canonical(),
    {
        dalek_from_bytes_mod_order(&self.bytes)
    }

    /// Whether the scalar is below the group order.
    pub fn is_canonical(&self) -> (ok: bool)
        ensures
            ok == self.canonical(),
    {
        dalek_from_canonical_bytes(&self.bytes).is_some()
    }

    /// The product of two scalars modulo the group order.
    pub fn mul(&self, other: &Scalar) -> (product: Scalar)
        ensures
            product@ == times(self@, other@),
            product.canonical(),
    {
        proof {
            vstd::arithmetic::div_mod::lemma_mul_mod_noop(
                self@ as int,
                other@ as int,
                group_order() as int,
            );
        }
        dalek_scalar_mul(&self.reduce(), &other.reduce())
    }

    /// The sum of two scalars modulo the group order.
    pub fn add(&self, other: &Scalar) -> (sum: Scalar)
        ensures
            sum@ == plus(self@, other@),
            sum.canonical(),
    {
        proof {
            vstd::arithmetic::div_mod::lemma_add_mod_noop(
                self@ as int,
                other@ as int,
                group_order() as int,
            );
        }
        dalek_scalar_add(&self.reduce(), &other.reduce())
    }

    /// The bytes of the scalar.
    pub fn to_bytes(&self) -> (bytes: [u8; 32])
        ensures
            bytes == self.bytes,
    {
        self.bytes
    }
}

/// The scalar 8.
pub fn eight() -> (s: Scalar)
    ensures
        s@ == 8,
{
    let mut bytes: [u8; 32] = [0u8; 32];
    bytes[0] = 8;
    proof {
        lemma_le_nat_from_zeros(bytes@, 1);
        assert(le_nat(bytes@) == 8 + 256 * le_nat_from(bytes@, 1));
        vstd::arithmetic::div_mod::lemma_small_mod(8, group_order());
    }
    Scalar::from_bytes_mod_order(bytes)
}

/// Whether the integer of the scalar is a multiple of 8.
pub fn multiple_of_eight_le(scalar: Scalar) -> (divisible: bool)
    ensures
        divisible == (scalar@ % 8 == 0),
{
    let low: u8 = scalar.bytes[0];
    proof {
        let rest = le_nat_from(scalar.bytes@, 1);
        assert(scalar@ == low as nat + 256 * rest);
        assert((low as nat + 256 * rest) % 8 == (low as nat) % 8);
    }
    low % 8 == 0
}

/// Permissive decoding: any 32 bytes are a scalar, the 256-bit integer that
/// they spell.  Nothing is reduced, so the scalar may exceed the group order.
pub fn deserialize_scalar(scalar: &[u8]) -> (out: Result<Scalar, Error>)
    ensures
        scalar@.len() == 32 ==> (out matches Ok(s) && s.bytes@ == scalar@),
        scalar@.len() != 32 ==> out == Err::<Scalar, Error>(
            Error::InvalidLength { name: "scalar", expected: 32, actual: scalar.len() },
        ),
{
    match check_slice_size(scalar, 32, "scalar") {
        Err(e) => Err(e),
        Ok(checked) => Ok(Scalar { bytes: array_32(checked) }),
    }
}

} // verus!
