//! The verification equations of Ed25519, in three variants.
//!
//! For a public key `A`, a signature `(R, s)` and a challenge scalar `h`,
//! all three look at what is left of `R` when `h (-A) + s B` is taken from
//! it, `B` being the base point.  They differ in where the cofactor 8
//! comes in.
use vstd::prelude::*;
use vstd::slice::slice_subrange;
use crate::bytes::{group_order, pow2_255};
use crate::check_slice_size;
use crate::error::{Equation, Error};
use crate::hashing::{append, compute_hram, hram};
use crate::point::{
    decompressed, deserialize_point, double_scalar_mul_basepoint, edwards_mul_by_cofactor,
    edwards_neg, edwards_sub, identity_encoding, Point,
};
use crate::scalar::{deserialize_scalar, eight, Scalar};

verus! {

/// The encoding of `R - (h (-A) + s B)`.  The curve arithmetic takes the
/// low 255 bits of each scalar.
pub open spec fn residue(pub_key: Seq<u8>, r: Seq<u8>, s: nat, h: nat) -> Seq<u8> {
    edwards_sub(
        r,
        double_scalar_mul_basepoint(h % pow2_255(), edwards_neg(pub_key), s % pow2_255()),
    )
}

/// The cofactorless equation: `R - (h (-A) + s B)` is the neutral element.
pub open spec fn cofactorless_holds(pub_key: Seq<u8>, r: Seq<u8>, s: nat, h: nat) -> bool {
    residue(pub_key, r, s, h) == identity_encoding()
}

/// The cofactored equation: `8 (R - (h (-A) + s B))` is the neutral element.
pub open spec fn cofactored_holds(pub_key: Seq<u8>, r: Seq<u8>, s: nat, h: nat) -> bool {
    edwards_mul_by_cofactor(residue(pub_key, r, s, h)) == identity_encoding()
}

/// The cofactored equation with the scalars multiplied first:
/// `8 R - ((8 h mod L) (-A) + (8 s mod L) B)` is the neutral element, `L`
/// being the group order.
pub open spec fn pre_reduced_cofactored_holds(
    pub_key: Seq<u8>,
    r: Seq<u8>,
    s: nat,
    h: nat,
) -> bool {
    edwards_sub(
        edwards_mul_by_cofactor(r),
        double_scalar_mul_basepoint(
            (8 * h) % group_order(),
            edwards_neg(pub_key),
            (8 * s) % group_order(),
        ),
    ) == identity_encoding()
}

/// Whether the named equation holds.
pub open spec fn equation_holds(
    equation: Equation,
    pub_key: Seq<u8>,
    r: Seq<u8>,
    s: nat,
    h: nat,
) -> bool {
    match equation {
        Equation::Cofactored => cofactored_holds(pub_key, r, s, h),
        Equation::PreReducedCofactored => pre_reduced_cofactored_holds(pub_key, r, s, h),
        Equation::Cofactorless => cofactorless_holds(pub_key, r, s, h),
    }
}

/// The 64 bytes of a signature from the bytes of R as they are, be they
/// canonical or not, and the scalar.
pub fn signature_bytes(r_bytes: &[u8; 32], s: &Scalar) -> (bytes: Vec<u8>)
    ensures
        bytes@ == r_bytes@ + s.bytes@,
        bytes@.len() == 64,
{
    let mut bytes: Vec<u8> = Vec::new();
    append(&mut bytes, r_bytes.as_slice());
    append(&mut bytes, s.bytes.as_slice());
    bytes
}

/// The 64 bytes of a signature: the encoding of R, then the scalar.
pub fn serialize_signature(r: &Point, s: &Scalar) -> (bytes: Vec<u8>)
    ensures
        bytes@ == r@ + s.bytes@,
        bytes@.len() == 64,
{
    signature_bytes(&r.compress(), s)
}

/// Decoding of a signature without any canonical check: the point that the
/// first 32 bytes decompress to, and the last 32 bytes as a scalar.
pub fn deserialize_signature(sig_bytes: &[u8]) -> (out: Result<(Point, Scalar), Error>)
    ensures
        sig_bytes@.len() != 64 ==> out == Err::<(Point, Scalar), Error>(
            Error::InvalidLength { name: "sig_bytes", expected: 64, actual: sig_bytes.len() },
        ),
        sig_bytes@.len() == 64 && decompressed(sig_bytes@.subrange(0, 32)) is None ==> out
            == Err::<(Point, Scalar), Error>(Error::PointDecompressionFailure),
        sig_bytes@.len() == 64 && decompressed(sig_bytes@.subrange(0, 32)) is Some ==> (out
            matches Ok((r, s)) && Some(r@) == decompressed(sig_bytes@.subrange(0, 32)) && s.bytes@
            == sig_bytes@.subrange(32, 64)),
{
    match check_slice_size(sig_bytes, 64, "sig_bytes") {
        Err(e) => Err(e),
        Ok(checked) => {
            match deserialize_point(slice_subrange(checked, 0, 32)) {
                Err(e) => Err(e),
                Ok(r) => {
                    match deserialize_scalar(slice_subrange(checked, 32, 64)) {
                        Err(e) => Err(e),
                        Ok(s) => Ok((r, s)),
                    }
                },
            }
        },
    }
}

/// The cofactored equation on a given challenge scalar.
pub fn verify_final_cofactored(
    pub_key: &Point,
    unpacked_signature: &(Point, Scalar),
    hash: &Scalar,
) -> (out: Result<(), Error>)
    ensures
        cofactored_holds(pub_key@, unpacked_signature.0@, unpacked_signature.1@, hash@) ==> out
            == Ok::<(), Error>(()),
        !cofactored_holds(pub_key@, unpacked_signature.0@, unpacked_signature.1@, hash@) ==> out
            == Err::<(), Error>(Error::VerificationFailure(Equation::Cofactored)),
{
    let rprime = Point::vartime_double_scalar_mul_basepoint(
        hash,
        &pub_key.neg(),
        &unpacked_signature.1,
    );
    if unpacked_signature.0.sub(&rprime).mul_by_cofactor().is_identity() {
        Ok(())
    } else {
        Err(Error::VerificationFailure(Equation::Cofactored))
    }
}

/// The pre-reduced cofactored equation on a given challenge scalar.
pub fn verify_final_pre_reduced_cofactored(
    pub_key: &Point,
    unpacked_signature: &(Point, Scalar),
    hash: &Scalar,
) -> (out: Result<(), Error>)
    ensures
        pre_reduced_cofactored_holds(
            pub_key@,
            unpacked_signature.0@,
            unpacked_signature.1@,
            hash@,
        ) ==> out == Ok::<(), Error>(()),
        !pre_reduced_cofactored_holds(
            pub_key@,
            unpacked_signature.0@,
            unpacked_signature.1@,
            hash@,
        ) ==> out == Err::<(), Error>(Error::VerificationFailure(Equation::PreReducedCofactored)),
{
    let eight_hash = eight().mul(hash);
    let eight_s = eight().mul(&unpacked_signature.1);
    proof {
        vstd::arithmetic::div_mod::lemma_small_mod(eight_hash@, pow2_255());
        vstd::arithmetic::div_mod::lemma_small_mod(eight_s@, pow2_255());
    }
    let rprime = Point::vartime_double_scalar_mul_basepoint(&eight_hash, &pub_key.neg(), &eight_s);
    if unpacked_signature.0.mul_by_cofactor().sub(&rprime).is_identity() {
        Ok(())
    } else {
        Err(Error::VerificationFailure(Equation::PreReducedCofactored))
    }
}

/// The cofactorless equation on a given challenge scalar.
pub fn verify_final_cofactorless(
    pub_key: &Point,
    unpacked_signature: &(Point, Scalar),
    hash: &Scalar,
) -> (out: Result<(), Error>)
    ensures
        cofactorless_holds(pub_key@, unpacked_signature.0@, unpacked_signature.1@, hash@) ==> out
            == Ok::<(), Error>(()),
        !cofactorless_holds(pub_key@, unpacked_signature.0@, unpacked_signature.1@, hash@) ==> out
            == Err::<(), Error>(Error::VerificationFailure(Equation::Cofactorless)),
{
    let rprime = Point::vartime_double_scalar_mul_basepoint(
        hash,
        &pub_key.neg(),
        &unpacked_signature.1,
    );
    if unpacked_signature.0.sub(&rprime).is_identity() {
        Ok(())
    } else {
        Err(Error::VerificationFailure(Equation::Cofactorless))
    }
}

/// Cofactored verification of a signature over a message, the challenge
/// hashed from the encodings of R and of the public key.
pub fn verify_cofactored(
    message: &[u8],
    pub_key: &Point,
    unpacked_signature: &(Point, Scalar),
) -> (out: Result<(), Error>)
    ensures
        cofactored_holds(
            pub_key@,
            unpacked_signature.0@,
            unpacked_signature.1@,
            hram(message@, pub_key@, unpacked_signature.0@),
        ) ==> out == Ok::<(), Error>(()),
        !cofactored_holds(
            pub_key@,
            unpacked_signature.0@,
            unpacked_signature.1@,
            hram(message@, pub_key@, unpacked_signature.0@),
        ) ==> out == Err::<(), Error>(Error::VerificationFailure(Equation::Cofactored)),
{
    let k = compute_hram(message, pub_key, &unpacked_signature.0);
    verify_final_cofactored(pub_key, unpacked_signature, &k)
}

/// Cofactorless verification of a signature over a message, the challenge
/// hashed from the encodings of R and of the public key.
pub fn verify_cofactorless(
    message: &[u8],
    pub_key: &Point,
    unpacked_signature: &(Point, Scalar),
) -> (out: Result<(), Error>)
    ensures
        cofactorless_holds(
            pub_key@,
            unpacked_signature.0@,
            unpacked_signature.1@,
            hram(message@, pub_key@, unpacked_signature.0@),
        ) ==> out == Ok::<(), Error>(()),
        !cofactorless_holds(
            pub_key@,
            unpacked_signature.0@,
            unpacked_signature.1@,
            hram(message@, pub_key@, unpacked_signature.0@),
        ) ==> out == Err::<(), Error>(Error::VerificationFailure(Equation::Cofactorless)),
{
    let k = compute_hram(message, pub_key, &unpacked_signature.0);
    verify_final_cofactorless(pub_key, unpacked_signature, &k)
}

/// Pre-reduced cofactored verification of a signature over a message, the
/// challenge hashed from the encodings of R and of the public key.
pub fn verify_pre_reduced_cofactored(
    message: &[u8],
    pub_key: &Point,
    unpacked_signature: &(Point, Scalar),
) -> (out: Result<(), Error>)
    ensures
        pre_reduced_cofactored_holds(
            pub_key@,
            unpacked_signature.0@,
            unpacked_signature.1@,
            hram(message@, pub_key@, unpacked_signature.0@),
        ) ==> out == Ok::<(), Error>(()),
        !pre_reduced_cofactored_holds(
            pub_key@,
            unpacked_signature.0@,
            unpacked_signature.1@,
            hram(message@, pub_key@, unpacked_signature.0@),
        ) ==> out == Err::<(), Error>(Error::VerificationFailure(Equation::PreReducedCofactored)),
{
    let k = compute_hram(message, pub_key, &unpacked_signature.0);
    verify_final_pre_reduced_cofactored(pub_key, unpacked_signature, &k)
}

} // verus!
