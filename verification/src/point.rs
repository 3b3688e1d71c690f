//! Points of the Edwards curve, held by their canonical encodings.
//!
//! The arithmetic of the curve is that of curve25519-dalek.  What it
//! returns is not written out here: each operation has a name, and the
//! contracts of this crate speak of those names.
use vstd::prelude::*;
use curve25519_dalek::constants::ED25519_BASEPOINT_POINT;
use curve25519_dalek::edwards::{CompressedEdwardsY, EdwardsPoint};
use crate::bytes::{array_32, field_prime, le_nat, pow2_255, same_32, sign_bit, y_coordinate};
use crate::check_slice_size;
use crate::error::Error;
use crate::scalar::Scalar;

verus! {

/// The canonical encoding of the point that 32 bytes decompress to, if they
/// decompress to one.
pub uninterp spec fn decompressed(bytes: Seq<u8>) -> Option<Seq<u8>>;

/// The encoding of the sum of two points.
pub uninterp spec fn edwards_add(p: Seq<u8>, q: Seq<u8>) -> Seq<u8>;

/// The encoding of the difference of two points.
pub uninterp spec fn edwards_sub(p: Seq<u8>, q: Seq<u8>) -> Seq<u8>;

/// The encoding of the negative of a point.
pub uninterp spec fn edwards_neg(p: Seq<u8>) -> Seq<u8>;

/// The encoding of the multiple of a point by a scalar below 2^255.
pub uninterp spec fn edwards_mul(scalar: nat, p: Seq<u8>) -> Seq<u8>;

/// The encoding of eight times a point.
pub uninterp spec fn edwards_mul_by_cofactor(p: Seq<u8>) -> Seq<u8>;

/// The encoding of `a A + b B`, where `B` is the base point and both
/// scalars are below 2^255.
pub uninterp spec fn double_scalar_mul_basepoint(a: nat, p: Seq<u8>, b: nat) -> Seq<u8>;

/// The encoding of the multiple of a point by the low 255 bits of a scalar.
pub open spec fn scaled(scalar: nat, p: Seq<u8>) -> Seq<u8> {
    edwards_mul(scalar % pow2_255(), p)
}

/// The encoding of the neutral element, the point (0, 1): 01 00 .. 00.
pub open spec fn identity_encoding() -> Seq<u8> {
    Seq::new(32, |i: int| if i == 0 { 1u8 } else { 0u8 })
}

/// The encoding of the base point, the point with y = 4/5 and even x:
/// 58 66 .. 66.
pub open spec fn basepoint_encoding() -> Seq<u8> {
    Seq::new(32, |i: int| if i == 0 { 0x58u8 } else { 0x66u8 })
}

/// Whether the bytes are the encoding of a point: whether they decompress,
/// and to a point that compresses to these same bytes.
pub open spec fn is_encoding(bytes: Seq<u8>) -> bool {
    decompressed(bytes) == Some(bytes)
}

/// What compressing makes of a point that was decompressed from `bytes`.
/// Decompression reads y from the low 255 bits and reduces it modulo the
/// field prime, takes the root x of even parity and negates it where the
/// sign bit is set.  Compression writes y in its reduced form and the
/// parity of x as the sign bit.  So y comes back reduced; and the sign bit
/// comes back as it was unless x is 0, which has no negative: the sign bit
/// then comes back clear.  On the curve x is 0 exactly where y is 1 or -1.
pub open spec fn reencodes(bytes: Seq<u8>, encoding: Seq<u8>) -> bool {
    let y = y_coordinate(bytes) % field_prime();
    &&& y_coordinate(encoding) == y
    &&& sign_bit(encoding) == (sign_bit(bytes) && y != 1 && y != field_prime() - 1)
}

/// A point of the curve.
///
/// It is held by its canonical encoding, the 32 bytes that compressing it
/// gives: two points are equal exactly when these bytes are.
#[derive(Clone, Copy, Debug, PartialEq, Eq)]
pub struct Point {
    bytes: [u8; 32],
}

impl View for Point {
    type V = Seq<u8>;

    /// The canonical encoding of the point.
    closed spec fn view(&self) -> Seq<u8> {
        self.bytes@
    }
}

// What follows calls curve25519-dalek.  Each function takes encodings,
// decompresses them, lets curve25519-dalek work on the points and
// compresses what comes out; what `compress` returns is the encoding of a
// point, which every `ensures` says.

/// `CompressedEdwardsY::decompress` of curve25519-dalek, and
/// `EdwardsPoint::compress` on what it gives.
#[verifier::external_body]
fn dalek_decompress(bytes: &[u8; 32]) -> (out: Option<[u8; 32]>)
    ensures
        out matches Some(encoding) ==> decompressed(bytes@) == Some(encoding@),
        out matches Some(encoding) ==> is_encoding(encoding@),
        out matches Some(encoding) ==> reencodes(bytes@, encoding@),
        out is None ==> decompressed(bytes@) is None,
{
    match CompressedEdwardsY(*bytes).decompress() {
        Some(p) => Some(p.compress().to_bytes()),
        None => None,
    }
}

/// The constant `ED25519_BASEPOINT_POINT` of curve25519-dalek, compressed.
#[verifier::external_body]
fn dalek_basepoint() -> (b: [u8; 32])
    ensures
        b@ == basepoint_encoding(),
        is_encoding(b@),
{
    ED25519_BASEPOINT_POINT.compress().to_bytes()
}

/// The sum of two points of curve25519-dalek.
#[verifier::external_body]
fn dalek_add(p: &[u8; 32], q: &[u8; 32]) -> (sum: [u8; 32])
    requires
        is_encoding(p@),
        is_encoding(q@),
    ensures
        sum@ == edwards_add(p@, q@),
        is_encoding(sum@),
{
    let x = CompressedEdwardsY(*p).decompress().unwrap();
    let y = CompressedEdwardsY(*q).decompress().unwrap();
    (x + y).compress().to_bytes()
}

/// The difference of two points of curve25519-dalek.
#[verifier::external_body]
fn dalek_sub(p: &[u8; 32], q: &[u8; 32]) -> (difference: [u8; 32])
    requires
        is_encoding(p@),
        is_encoding(q@),
    ensures
        difference@ == edwards_sub(p@, q@),
        is_encoding(difference@),
{
    let x = CompressedEdwardsY(*p).decompress().unwrap();
    let y = CompressedEdwardsY(*q).decompress().unwrap();
    (x - y).compress().to_bytes()
}

/// The negative of a point of curve25519-dalek.
#[verifier::external_body]
fn dalek_neg(p: &[u8; 32]) -> (negative: [u8; 32])
    requires
        is_encoding(p@),
    ensures
        negative@ == edwards_neg(p@),
        is_encoding(negative@),
{
    let x = CompressedEdwardsY(*p).decompress().unwrap();
    (-x).compress().to_bytes()
}

/// The product of a scalar and a point of curve25519-dalek.  The scalar
/// goes in through `Scalar::from_bits`, which keeps a scalar below 2^255
/// as it is.
#[verifier::external_body]
fn dalek_mul(scalar: &[u8; 32], p: &[u8; 32]) -> (multiple: [u8; 32])
    requires
        le_nat(scalar@) < pow2_255(),
        is_encoding(p@),
    ensures
        multiple@ == edwards_mul(le_nat(scalar@), p@),
        is_encoding(multiple@),
{
    let k = curve25519_dalek::scalar::Scalar::from_bits(*scalar);
    let x = CompressedEdwardsY(*p).decompress().unwrap();
    (k * x).compress().to_bytes()
}

/// `EdwardsPoint::mul_by_cofactor` of curve25519-dalek.
#[verifier::external_body]
fn dalek_mul_by_cofactor(p: &[u8; 32]) -> (multiple: [u8; 32])
    requires
        is_encoding(p@),
    ensures
        multiple@ == edwards_mul_by_cofactor(p@),
        is_encoding(multiple@),
{
    let x = CompressedEdwardsY(*p).decompress().unwrap();
    x.mul_by_cofactor().compress().to_bytes()
}

/// `EdwardsPoint::is_small_order` of curve25519-dalek: whether eight times
/// the point is the neutral element.
#[verifier::external_body]
fn dalek_is_small_order(p: &[u8; 32]) -> (small: bool)
    requires
        is_encoding(p@),
    ensures
        small == (edwards_mul_by_cofactor(p@) == identity_encoding()),
{
    CompressedEdwardsY(*p).decompress().unwrap().is_small_order()
}

/// `EdwardsPoint::vartime_double_scalar_mul_basepoint` of curve25519-dalek.
/// The scalars go in through `Scalar::from_bits`, which keeps a scalar
/// below 2^255 as it is.
#[verifier::external_body]
fn dalek_double_scalar_mul_basepoint(a: &[u8; 32], p: &[u8; 32], b: &[u8; 32]) -> (out: [u8; 32])
    requires
        le_nat(a@) < pow2_255(),
        le_nat(b@) < pow2_255(),
        is_encoding(p@),
    ensures
        out@ == double_scalar_mul_basepoint(le_nat(a@), p@, le_nat(b@)),
        is_encoding(out@),
{
    let k = curve25519_dalek::scalar::Scalar::from_bits(*a);
    let l = curve25519_dalek::scalar::Scalar::from_bits(*b);
    let x = CompressedEdwardsY(*p).decompress().unwrap();
    EdwardsPoint::vartime_double_scalar_mul_basepoint(&k, &x, &l).compress().to_bytes()
}

impl Point {
    /// The bytes of a point are its encoding.
    #[verifier::type_invariant]
    closed spec fn well_formed(self) -> bool {
        is_encoding(self.bytes@)
    }

    /// The canonical encoding of the point.
    pub fn compress(&self) -> (bytes: [u8; 32])
        ensures
            bytes@ == self@,
            is_encoding(bytes@),
    {
        proof {
            use_type_invariant(self);
        }
        self.bytes
    }

    /// The point that 32 bytes decompress to, if they decompress to one.
    /// The bytes need not be the canonical encoding of that point.
    pub fn decompress(bytes: &[u8; 32]) -> (out: Option<Point>)
        ensures
            out matches Some(p) ==> decompressed(bytes@) == Some(p@),
            out matches Some(p) ==> p@.len() == 32 && reencodes(bytes@, p@),
            out is None ==> decompressed(bytes@) is None,
    {
        match dalek_decompress(bytes) {
            Some(encoding) => Some(Point { bytes: encoding }),
            None => None,
        }
    }

    /// The base point.
    pub fn basepoint() -> (b: Point)
        ensures
            b@ == basepoint_encoding(),
    {
        Point { bytes: dalek_basepoint() }
    }

    /// The sum of two points.
    pub fn add(&self, other: &Point) -> (sum: Point)
        ensures
            sum@ == edwards_add(self@, other@),
    {
        proof {
            use_type_invariant(self);
            use_type_invariant(other);
        }
        Point { bytes: dalek_add(&self.bytes, &other.bytes) }
    }

    /// The difference of two points.
    pub fn sub(&self, other: &Point) -> (difference: Point)
        ensures
            difference@ == edwards_sub(self@, other@),
    {
        proof {
            use_type_invariant(self);
            use_type_invariant(other);
        }
        Point { bytes: dalek_sub(&self.bytes, &other.bytes) }
    }

    /// The negative of the point.
    pub fn neg(&self) -> (negative: Point)
        ensures
            negative@ == edwards_neg(self@),
    {
        proof {
            use_type_invariant(self);
        }
        Point { bytes: dalek_neg(&self.bytes) }
    }

    /// The multiple of the point by the low 255 bits of a scalar.
    pub fn mul(&self, scalar: &Scalar) -> (multiple: Point)
        ensures
            multiple@ == scaled(scalar@, self@),
    {
        proof {
            use_type_invariant(self);
        }
        let low = Scalar::from_bits(scalar.bytes);
        Point { bytes: dalek_mul(&low.bytes, &self.bytes) }
    }

    /// Eight times the point.
    pub fn mul_by_cofactor(&self) -> (multiple: Point)
        ensures
            multiple@ == edwards_mul_by_cofactor(self@),
    {
        proof {
            use_type_invariant(self);
        }
        Point { bytes: dalek_mul_by_cofactor(&self.bytes) }
    }

    /// `a A + b B` for the base point `B`, on the low 255 bits of each scalar.
    pub fn vartime_double_scalar_mul_basepoint(a: &Scalar, p: &Point, b: &Scalar) -> (out: Point)
        ensures
            out@ == double_scalar_mul_basepoint(a@ % pow2_255(), p@, b@ % pow2_255()),
    {
        proof {
            use_type_invariant(p);
        }
        let a_low = Scalar::from_bits(a.bytes);
        let b_low = Scalar::from_bits(b.bytes);
        Point { bytes: dalek_double_scalar_mul_basepoint(&a_low.bytes, &p.bytes, &b_low.bytes) }
    }

    /// Whether the point is the neutral element.
    pub fn is_identity(&self) -> (neutral: bool)
        ensures
            neutral == (self@ == identity_encoding()),
    {
        let mut one: [u8; 32] = [0u8; 32];
        one[0] = 1;
        assert(one@ =~= identity_encoding());
        same_32(&self.bytes, &one)
    }

    /// Whether the order of the point divides eight.
    pub fn is_small_order(&self) -> (small: bool)
        ensures
            small == (edwards_mul_by_cofactor(self@) == identity_encoding()),
    {
        proof {
            use_type_invariant(self);
        }
        dalek_is_small_order(&self.bytes)
    }
}

/// Decoding without the canonical check: the point that the 32 bytes
/// decompress to.
pub fn deserialize_point(pt: &[u8]) -> (out: Result<Point, Error>)
    ensures
        out matches Ok(p) ==> p@.len() == 32 && reencodes(pt@, p@),
        pt@.len() != 32 ==> out == Err::<Point, Error>(
            Error::InvalidLength { name: "pt", expected: 32, actual: pt.len() },
        ),
        pt@.len() == 32 && decompressed(pt@) is None ==> out == Err::<Point, Error>(
            Error::PointDecompressionFailure,
        ),
        pt@.len() == 32 && decompressed(pt@) is Some ==> (out matches Ok(p) && Some(p@)
            == decompressed(pt@)),
{
    match check_slice_size(pt, 32, "pt") {
        Err(e) => Err(e),
        Ok(checked) => {
            let bytes = array_32(checked);
            match Point::decompress(&bytes) {
                Some(p) => Ok(p),
                None => Err(Error::PointDecompressionFailure),
            }
        },
    }
}

} // verus!
