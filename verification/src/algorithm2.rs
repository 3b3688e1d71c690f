//! The single-signature verification algorithm of Chalkias, Garillot and
//! Nikolaenko ("Taming the many EdDSAs", ePrint 2020/1244): canonical
//! encodings only, no public key of small order, cofactored equation.
use vstd::prelude::*;
use vstd::slice::slice_subrange;
use crate::bytes::{
    array_32, field_prime, group_order, le_nat, le_nat_low31, lemma_le_nat_32,
    lemma_le_nat_injective, lemma_y_coordinate, pow2_248, sign_bit, y_coordinate,
};
use crate::check_slice_size;
use crate::error::Error;
use crate::hashing::hram;
use crate::point::{decompressed, edwards_mul_by_cofactor, identity_encoding, Point, reencodes};
use crate::scalar::Scalar;
use crate::verification::{cofactored_holds, verify_cofactored};

verus! {

/// The neutral element written with the sign bit of x set: 01 00 .. 00 80.
pub open spec fn small_order_pattern_one(bytes: Seq<u8>) -> bool {
    &&& bytes.len() == 32
    &&& bytes[0] == 0x01
    &&& forall|i: int| 1 <= i <= 30 ==> bytes[i] == 0x00
    &&& bytes[31] == 0x80
}

/// The point of order two written with the sign bit of x set: EC FF .. FF.
pub open spec fn small_order_pattern_minus_one(bytes: Seq<u8>) -> bool {
    &&& bytes.len() == 32
    &&& bytes[0] == 0xEC
    &&& forall|i: int| 1 <= i <= 31 ==> bytes[i] == 0xFF
}

/// A point encoding is canonical when it has 32 bytes, its y-coordinate is
/// below the field prime, and it is neither of the two encodings of x = 0
/// that carry a set sign bit.
pub open spec fn canonical_point_encoding(bytes: Seq<u8>) -> bool {
    &&& bytes.len() == 32
    &&& y_coordinate(bytes) < field_prime()
    &&& !small_order_pattern_one(bytes)
    &&& !small_order_pattern_minus_one(bytes)
}

/// Whether the bytes are the canonical encoding of a point, if they are
/// the encoding of a point at all.
pub fn is_canonical_point_encoding(bytes: &[u8]) -> (ok: bool)
    ensures
        ok == canonical_point_encoding(bytes@),
{
    bytes.len() == 32 && is_canonical_y(bytes) && !is_small_order_special_case(bytes)
}

/// Whether the y-coordinate is below the field prime 2^255 - 19, whose
/// little-endian bytes are ED FF .. FF 7F.
pub fn is_canonical_y(bytes: &[u8]) -> (ok: bool)
    requires
        bytes@.len() == 32,
    ensures
        ok == (y_coordinate(bytes@) < field_prime()),
{
    proof {
        lemma_y_coordinate(bytes@);
    }
    if bytes[0] < 237 {
        true
    } else {
        let mut i: usize = 1;
        while i <= 30
            invariant
                1 <= i <= 31,
                bytes@.len() == 32,
                forall|j: int| 1 <= j < i ==> bytes@[j] == 255,
                y_coordinate(bytes@) == le_nat_low31(bytes@) + pow2_248() * ((bytes@[31]
                    % 128) as nat),
            decreases 31 - i,
        {
            if bytes[i] != 255 {
                return true;
            }
            i += 1;
        }
        let top: u8 = bytes[31];
        assert((top | 128) != 255 <==> top % 128 != 127) by (bit_vector);
        (top | 128) != 255
    }
}

/// Whether the bytes are one of the two encodings of x = 0 with the sign bit
/// set.
pub fn is_small_order_special_case(bytes: &[u8]) -> (hit: bool)
    requires
        bytes@.len() == 32,
    ensures
        hit == (small_order_pattern_one(bytes@) || small_order_pattern_minus_one(bytes@)),
{
    is_small_order_case_9(bytes) || is_small_order_case_10(bytes)
}

/// Whether the bytes are 01 00 .. 00 80.
pub fn is_small_order_case_9(bytes: &[u8]) -> (hit: bool)
    requires
        bytes@.len() == 32,
    ensures
        hit == small_order_pattern_one(bytes@),
{
    if bytes[0] != 0x01 {
        false
    } else {
        let mut i: usize = 1;
        while i <= 30
            invariant
                1 <= i <= 31,
                bytes@.len() == 32,
                forall|j: int| 1 <= j < i ==> bytes@[j] == 0x00,
            decreases 31 - i,
        {
            if bytes[i] != 0x00 {
                return false;
            }
            i += 1;
        }
        bytes[31] == 0x80
    }
}

/// Whether the bytes are EC FF .. FF.
pub fn is_small_order_case_10(bytes: &[u8]) -> (hit: bool)
    requires
        bytes@.len() == 32,
    ensures
        hit == small_order_pattern_minus_one(bytes@),
{
    if bytes[0] != 0xEC {
        false
    } else {
        let mut i: usize = 1;
        while i <= 31
            invariant
                1 <= i <= 32,
                bytes@.len() == 32,
                forall|j: int| 1 <= j < i ==> bytes@[j] == 0xFF,
            decreases 32 - i,
        {
            if bytes[i] != 0xFF {
                return false;
            }
            i += 1;
        }
        true
    }
}

/// Encoding a point that was decoded from a canonical encoding gives that
/// encoding back, byte for byte.
pub proof fn lemma_canonical_round_trip(bytes: Seq<u8>, encoding: Seq<u8>)
    requires
        canonical_point_encoding(bytes),
        encoding.len() == 32,
        reencodes(bytes, encoding),
    ensures
        encoding == bytes,
{
    let y = y_coordinate(bytes);
    lemma_y_coordinate(bytes);
    lemma_y_coordinate(encoding);
    vstd::arithmetic::div_mod::lemma_small_mod(y, field_prime());
    // The two encodings of x = 0 with the sign bit set are the two patterns
    // that a canonical encoding is not.
    assert(!(sign_bit(bytes) && (y == 1 || y == field_prime() - 1))) by {
        if sign_bit(bytes) && (y == 1 || y == field_prime() - 1) {
            let pattern = if y == 1 {
                Seq::new(
                    32,
                    |i: int|
                        if i == 0 {
                            0x01u8
                        } else if i == 31 {
                            0x80u8
                        } else {
                            0x00u8
                        },
                )
            } else {
                Seq::new(32, |i: int| if i == 0 { 0xECu8 } else { 0xFFu8 })
            };
            lemma_le_nat_32(pattern);
            assert(le_nat(pattern) == le_nat(bytes));
            lemma_le_nat_injective(pattern, bytes);
        }
    }
    lemma_le_nat_injective(encoding, bytes);
}

/// Strict decoding of a point: the encoding must be canonical and must
/// decompress.  The point that comes back encodes to the very bytes that
/// it was decoded from.
pub fn deserialize_point(pt: &[u8]) -> (out: Result<Point, Error>)
    ensures
        out matches Ok(p) ==> p@ == pt@,
        pt@.len() != 32 ==> out == Err::<Point, Error>(
            Error::InvalidLength { name: "pt", expected: 32, actual: pt.len() },
        ),
        pt@.len() == 32 && !canonical_point_encoding(pt@) ==> out == Err::<Point, Error>(
            Error::NonCanonicalPointEncoding,
        ),
        canonical_point_encoding(pt@) && decompressed(pt@) is None ==> out == Err::<Point, Error>(
            Error::PointDecompressionFailure,
        ),
        canonical_point_encoding(pt@) && decompressed(pt@) is Some ==> (out matches Ok(p) && Some(
            p@,
        ) == decompressed(pt@)),
{
    match check_slice_size(pt, 32, "pt") {
        Err(e) => Err(e),
        Ok(checked) => {
            let bytes = array_32(checked);
            if !is_canonical_point_encoding(bytes.as_slice()) {
                return Err(Error::NonCanonicalPointEncoding);
            }
            match Point::decompress(&bytes) {
                Some(p) => {
                    proof {
                        lemma_canonical_round_trip(bytes@, p@);
                    }
                    Ok(p)
                },
                None => Err(Error::PointDecompressionFailure),
            }
        },
    }
}

/// Strict decoding of the point R of a signature.
#[allow(non_snake_case)]
pub fn deserialize_R(pt: &[u8]) -> (out: Result<Point, Error>)
    ensures
        out matches Ok(p) ==> p@ == pt@,
        pt@.len() != 32 ==> out == Err::<Point, Error>(
            Error::InvalidLength { name: "pt", expected: 32, actual: pt.len() },
        ),
        pt@.len() == 32 && !canonical_point_encoding(pt@) ==> out == Err::<Point, Error>(
            Error::NonCanonicalPointEncoding,
        ),
        canonical_point_encoding(pt@) && decompressed(pt@) is None ==> out == Err::<Point, Error>(
            Error::PointDecompressionFailure,
        ),
        canonical_point_encoding(pt@) && decompressed(pt@) is Some ==> (out matches Ok(p) && Some(
            p@,
        ) == decompressed(pt@)),
{
    deserialize_point(pt)
}

/// Strict decoding of a public key.
pub fn deserialize_pk(pt: &[u8]) -> (out: Result<Point, Error>)
    ensures
        out matches Ok(p) ==> p@ == pt@,
        pt@.len() != 32 ==> out == Err::<Point, Error>(
            Error::InvalidLength { name: "pt", expected: 32, actual: pt.len() },
        ),
        pt@.len() == 32 && !canonical_point_encoding(pt@) ==> out == Err::<Point, Error>(
            Error::NonCanonicalPointEncoding,
        ),
        canonical_point_encoding(pt@) && decompressed(pt@) is None ==> out == Err::<Point, Error>(
            Error::PointDecompressionFailure,
        ),
        canonical_point_encoding(pt@) && decompressed(pt@) is Some ==> (out matches Ok(p) && Some(
            p@,
        ) == decompressed(pt@)),
{
    deserialize_point(pt)
}

/// Strict decoding of a scalar: the 32 bytes must spell an integer below
/// the group order.
pub fn deserialize_s(scalar: &[u8]) -> (out: Result<Scalar, Error>)
    ensures
        scalar@.len() != 32 ==> out == Err::<Scalar, Error>(
            Error::InvalidLength { name: "scalar", expected: 32, actual: scalar.len() },
        ),
        scalar@.len() == 32 && le_nat(scalar@) >= group_order() ==> out == Err::<Scalar, Error>(
            Error::NonCanonicalScalar,
        ),
        scalar@.len() == 32 && le_nat(scalar@) < group_order() ==> (out matches Ok(s) && s.bytes@
            == scalar@),
{
    match check_slice_size(scalar, 32, "scalar") {
        Err(e) => Err(e),
        Ok(checked) => {
            let bytes = array_32(checked);
            match Scalar::from_canonical_bytes(bytes) {
                None => Err(Error::NonCanonicalScalar),
                Some(s) => Ok(s),
            }
        },
    }
}

/// What strict decoding makes of the 64 bytes of a signature: the scalar is
/// looked at first, then the point.
pub open spec fn strict_signature(sig_bytes: Seq<u8>) -> Result<(nat, Seq<u8>), Error> {
    let r_bytes = sig_bytes.subrange(0, 32);
    let s_bytes = sig_bytes.subrange(32, 64);
    if le_nat(s_bytes) >= group_order() {
        Err(Error::NonCanonicalScalar)
    } else if !canonical_point_encoding(r_bytes) {
        Err(Error::NonCanonicalPointEncoding)
    } else {
        match decompressed(r_bytes) {
            None => Err(Error::PointDecompressionFailure),
            Some(r) => Ok((le_nat(s_bytes), r)),
        }
    }
}

/// Strict decoding of a signature, as the scalar and the point.
#[allow(non_snake_case)]
pub fn deserialize_signature(sig_bytes: &[u8]) -> (out: Result<(Scalar, Point), Error>)
    ensures
        sig_bytes@.len() != 64 ==> out == Err::<(Scalar, Point), Error>(
            Error::InvalidLength { name: "sig_bytes", expected: 64, actual: sig_bytes.len() },
        ),
        sig_bytes@.len() == 64 ==> match strict_signature(sig_bytes@) {
            Ok((s, r)) => out matches Ok((scalar, point)) && scalar@ == s && point@ == r
                && scalar.bytes@ == sig_bytes@.subrange(32, 64),
            Err(e) => out == Err::<(Scalar, Point), Error>(e),
        },
{
    match check_slice_size(sig_bytes, 64, "sig_bytes") {
        Err(e) => Err(e),
        Ok(checked) => {
            match deserialize_s(slice_subrange(checked, 32, 64)) {
                Err(e) => Err(e),
                Ok(s) => {
                    match deserialize_R(slice_subrange(checked, 0, 32)) {
                        Err(e) => Err(e),
                        Ok(R) => Ok((s, R)),
                    }
                },
            }
        },
    }
}

/// The verification of a single signature: the public key must not be of
/// small order, and the cofactored equation must hold.
#[allow(non_snake_case)]
pub fn verify_signature(s: &Scalar, R: &Point, msg_bytes: &[u8], pk: &Point) -> (ok: bool)
    ensures
        ok == (edwards_mul_by_cofactor(pk@) != identity_encoding() && cofactored_holds(
            pk@,
            R@,
            s@,
            hram(msg_bytes@, pk@, R@),
        )),
{
    if pk.is_small_order() {
        return false;
    }
    verify_cofactored(msg_bytes, pk, &(*R, *s)).is_ok()
}

} // verus!
