//! How a vector stands towards the verification equations.
//!
//! A verifier can hash the challenge from the bytes of the key and of R as
//! they came over the wire, or from the encodings of the points it decoded
//! them to.  The two differ only where an encoding is not canonical.
use vstd::prelude::*;
use crate::bytes::{
    group_order, le_bytes_32, le_nat, lemma_le_bytes_32, lemma_small_scalar_has_bytes,
};
use crate::error::Equation;
use crate::hashing::hram;
use crate::point::{basepoint_encoding, decompressed, edwards_add, Point, scaled};
use crate::scalar::Scalar;
use crate::test_vectors::{TestVector, TestVectorView};
use crate::torsion::small_order_encoding;
use crate::verification::{
    cofactored_holds, cofactorless_holds, equation_holds, signature_bytes, verify_final_cofactored,
    verify_final_cofactorless,
};

verus! {

/// The vector with the given message and key, signed by the point with
/// encoding `r` and the scalar `s`.
pub open spec fn vector_view(
    message: Seq<u8>,
    pub_key: Seq<u8>,
    r: Seq<u8>,
    s: nat,
) -> TestVectorView {
    TestVectorView { message, pub_key, signature: r + le_bytes_32(s) }
}

/// The bytes of R in the signature of a vector.
pub open spec fn wire_r(vector: TestVectorView) -> Seq<u8> {
    vector.signature.subrange(0, 32)
}

/// The scalar in the signature of a vector.
pub open spec fn wire_s(vector: TestVectorView) -> nat {
    le_nat(vector.signature.subrange(32, 64))
}

/// Whether the key and the point R of a vector decompress and, with the
/// scalar of the vector, satisfy the equation on the challenge `h`.
pub open spec fn satisfies(vector: TestVectorView, equation: Equation, h: nat) -> bool {
    match (decompressed(vector.pub_key), decompressed(wire_r(vector))) {
        (Some(pub_key), Some(r)) => equation_holds(equation, pub_key, r, wire_s(vector), h),
        _ => false,
    }
}

/// Whether a verifier accepts the vector that decompresses the key and R
/// and hashes their encodings anew.
pub open spec fn accepted_reencoding(vector: TestVectorView, equation: Equation) -> bool {
    match (decompressed(vector.pub_key), decompressed(wire_r(vector))) {
        (Some(pub_key), Some(r)) => equation_holds(
            equation,
            pub_key,
            r,
            wire_s(vector),
            hram(vector.message, pub_key, r),
        ),
        _ => false,
    }
}

/// Whether a verifier accepts the vector that hashes the bytes of the key
/// and of R as they stand in the vector.
pub open spec fn accepted_on_wire_bytes(vector: TestVectorView, equation: Equation) -> bool {
    satisfies(vector, equation, hram(vector.message, vector.pub_key, wire_r(vector)))
}

/// How a point is put together.
pub enum Class {
    /// A point of small order other than the neutral element.
    Small,
    /// A multiple of the base point plus a point of small order.
    Mixed,
    /// A multiple of the base point.
    Large,
}

/// Whether the point with the encoding `p` is a multiple of the base point.
pub open spec fn large_encoding(p: Seq<u8>) -> bool {
    exists|a: nat| p == #[trigger] scaled(a, basepoint_encoding())
}

/// Whether the point with the encoding `p` is the sum of a multiple of the
/// base point and a point of small order.
pub open spec fn mixed_encoding(p: Seq<u8>) -> bool {
    exists|a: nat, t: Seq<u8>|
        small_order_encoding(t) && p == #[trigger] edwards_add(scaled(a, basepoint_encoding()), t)
}

/// Whether the bytes decompress to a point of the class.
pub open spec fn decodes_to(bytes: Seq<u8>, class: Class) -> bool {
    match decompressed(bytes) {
        None => false,
        Some(p) => match class {
            Class::Small => small_order_encoding(p),
            Class::Mixed => mixed_encoding(p),
            Class::Large => large_encoding(p),
        },
    }
}

/// Whether the key and the point R of a vector are of the given classes.
pub open spec fn classes(vector: TestVectorView, key: Class, r: Class) -> bool {
    decodes_to(vector.pub_key, key) && decodes_to(wire_r(vector), r)
}

/// A multiple of the base point is large.
pub proof fn lemma_large(a: nat)
    ensures
        large_encoding(scaled(a, basepoint_encoding())),
{
}

/// A multiple of the base point plus a point of small order is mixed.
pub proof fn lemma_mixed(a: nat, t: Seq<u8>)
    requires
        small_order_encoding(t),
    ensures
        mixed_encoding(edwards_add(scaled(a, basepoint_encoding()), t)),
{
}

/// Whether a signature stands towards the cofactored and the cofactorless
/// equation as expected.
pub open spec fn in_cell(
    pub_key: Seq<u8>,
    r: Seq<u8>,
    s: nat,
    h: nat,
    cofactored: bool,
    cofactorless: bool,
) -> bool {
    cofactored_holds(pub_key, r, s, h) == cofactored && cofactorless_holds(pub_key, r, s, h)
        == cofactorless
}

/// Runs both equations on a signature and compares with what is expected.
pub fn check_cell(
    pub_key: &Point,
    unpacked_signature: &(Point, Scalar),
    hash: &Scalar,
    cofactored: bool,
    cofactorless: bool,
) -> (ok: bool)
    ensures
        ok == in_cell(
            pub_key@,
            unpacked_signature.0@,
            unpacked_signature.1@,
            hash@,
            cofactored,
            cofactorless,
        ),
{
    let with_cofactor = verify_final_cofactored(pub_key, unpacked_signature, hash).is_ok();
    let without_cofactor = verify_final_cofactorless(pub_key, unpacked_signature, hash).is_ok();
    with_cofactor == cofactored && without_cofactor == cofactorless
}

/// Both equations accept the vector.
pub open spec fn passes_both(vector: TestVectorView) -> bool {
    &&& accepted_reencoding(vector, Equation::Cofactored)
    &&& accepted_reencoding(vector, Equation::Cofactorless)
}

/// The cofactored equation accepts the vector, the cofactorless one
/// rejects it.
pub open spec fn passes_cofactored_only(vector: TestVectorView) -> bool {
    &&& accepted_reencoding(vector, Equation::Cofactored)
    &&& !accepted_reencoding(vector, Equation::Cofactorless)
}

/// The first vector passes the cofactored equation only, the second both.
pub open spec fn pair_cells(first: TestVectorView, second: TestVectorView) -> bool {
    passes_cofactored_only(first) && passes_both(second)
}

/// The cofactored equation accepts the vector; the pre-reduced cofactored
/// equation and the cofactorless equation reject it.
pub open spec fn passes_unless_pre_reduced(vector: TestVectorView) -> bool {
    &&& accepted_reencoding(vector, Equation::Cofactored)
    &&& !accepted_reencoding(vector, Equation::PreReducedCofactored)
    &&& !accepted_reencoding(vector, Equation::Cofactorless)
}

/// A verifier that hashes the encodings anew accepts the vector under both
/// equations; one that hashes the bytes on the wire rejects it under both.
pub open spec fn passes_reencoded_alone(vector: TestVectorView) -> bool {
    &&& accepted_reencoding(vector, Equation::Cofactored)
    &&& accepted_reencoding(vector, Equation::Cofactorless)
    &&& !accepted_on_wire_bytes(vector, Equation::Cofactored)
    &&& !accepted_on_wire_bytes(vector, Equation::Cofactorless)
}

/// A verifier that hashes the bytes on the wire accepts the vector under
/// both equations; one that hashes the encodings anew rejects it under
/// both.
pub open spec fn passes_on_wire_bytes_alone(vector: TestVectorView) -> bool {
    &&& accepted_on_wire_bytes(vector, Equation::Cofactored)
    &&& accepted_on_wire_bytes(vector, Equation::Cofactorless)
    &&& !accepted_reencoding(vector, Equation::Cofactored)
    &&& !accepted_reencoding(vector, Equation::Cofactorless)
}

/// The cofactored equation accepts the vector, however the challenge is
/// hashed; the cofactorless equation accepts it only in a verifier that
/// hashes the encodings anew.
pub open spec fn cofactorless_if_reencoded(vector: TestVectorView) -> bool {
    &&& accepted_reencoding(vector, Equation::Cofactored)
    &&& accepted_reencoding(vector, Equation::Cofactorless)
    &&& accepted_on_wire_bytes(vector, Equation::Cofactored)
    &&& !accepted_on_wire_bytes(vector, Equation::Cofactorless)
}

/// The cofactored equation accepts the vector, however the challenge is
/// hashed; the cofactorless equation accepts it only in a verifier that
/// hashes the bytes on the wire.
pub open spec fn cofactorless_if_on_wire_bytes(vector: TestVectorView) -> bool {
    &&& accepted_on_wire_bytes(vector, Equation::Cofactored)
    &&& accepted_on_wire_bytes(vector, Equation::Cofactorless)
    &&& accepted_reencoding(vector, Equation::Cofactored)
    &&& !accepted_reencoding(vector, Equation::Cofactorless)
}

/// The vector with another scalar in its signature.
pub open spec fn with_scalar(vector: TestVectorView, s: nat) -> TestVectorView {
    TestVectorView {
        message: vector.message,
        pub_key: vector.pub_key,
        signature: wire_r(vector) + le_bytes_32(s),
    }
}

/// The signature of the vector is malleable: `reduced` is a scalar below
/// the group order, other than the scalar of the vector and congruent to
/// it, and with either scalar the signature passes both equations.
pub open spec fn malleable_with(vector: TestVectorView, reduced: nat) -> bool {
    &&& reduced < group_order()
    &&& wire_s(vector) != reduced
    &&& wire_s(vector) % group_order() == reduced % group_order()
    &&& accepted_reencoding(vector, Equation::Cofactored)
    &&& accepted_reencoding(vector, Equation::Cofactorless)
    &&& accepted_reencoding(with_scalar(vector, reduced), Equation::Cofactored)
    &&& accepted_reencoding(with_scalar(vector, reduced), Equation::Cofactorless)
}

/// The scalar of the vector is at or above the group order, and below the
/// group order there is another scalar with which the signature passes both
/// equations as well: a second signature by the same R over the same
/// message.
pub open spec fn malleable(vector: TestVectorView) -> bool {
    &&& wire_s(vector) >= group_order()
    &&& exists|reduced: nat| malleable_with(vector, reduced)
}

/// A vector whose signature passes both equations, and passes them with
/// the scalar `reduced` too, is malleable if its scalar is `reduced`
/// plus a positive multiple of the group order.
pub proof fn lemma_stretched(vector: TestVectorView, reduced: nat, stretched: nat, k: nat)
    requires
        reduced < group_order(),
        k >= 1,
        stretched == reduced + k * group_order(),
        wire_s(vector) == stretched,
        vector.signature.len() == 64,
        accepted_reencoding(vector, Equation::Cofactored),
        accepted_reencoding(vector, Equation::Cofactorless),
        match (decompressed(vector.pub_key), decompressed(wire_r(vector))) {
            (Some(pub_key), Some(r)) => in_cell(
                pub_key,
                r,
                reduced,
                hram(vector.message, pub_key, r),
                true,
                true,
            ),
            _ => false,
        },
    ensures
        malleable_with(vector, reduced),
        malleable(vector),
{
    let order = group_order();
    assert(k * order >= order) by (nonlinear_arith)
        requires
            k >= 1,
            order > 0,
    ;
    vstd::arithmetic::div_mod::lemma_mod_multiples_vanish(k as int, reduced as int, order as int);
    assert(order * k == k * order) by (nonlinear_arith);
    let other = with_scalar(vector, reduced);
    assert(le_bytes_32(reduced).len() == 32 && le_nat(le_bytes_32(reduced)) == reduced) by {
        lemma_small_scalar_has_bytes(reduced);
    }
    assert(wire_r(other) =~= wire_r(vector));
    assert(other.signature.subrange(32, 64) =~= le_bytes_32(reduced));
    assert(wire_s(other) == reduced);
    assert(malleable_with(vector, reduced));
}

/// The vector of a message, a public key and a signature.
pub(crate) fn assemble(message: [u8; 32], pub_key: [u8; 32], r: &Point, s: &Scalar) -> (vector:
    TestVector)
    ensures
        vector@ == vector_view(message@, pub_key@, r@, s@),
        wire_r(vector@) == r@,
        wire_s(vector@) == s@,
        vector@.signature.len() == 64,
        decompressed(wire_r(vector@)) == Some(r@),
{
    assemble_raw(message, pub_key, &r.compress(), s)
}

/// The vector of a message, a public key and a signature, the bytes of R
/// taken as they are.
pub(crate) fn assemble_raw(
    message: [u8; 32],
    pub_key: [u8; 32],
    r_bytes: &[u8; 32],
    s: &Scalar,
) -> (vector: TestVector)
    ensures
        vector@ == vector_view(message@, pub_key@, r_bytes@, s@),
        wire_r(vector@) == r_bytes@,
        wire_s(vector@) == s@,
        vector@.signature.len() == 64,
{
    let signature = signature_bytes(r_bytes, s);
    proof {
        lemma_le_bytes_32(s.bytes@);
        assert(signature@.subrange(0, 32) =~= r_bytes@);
        assert(signature@.subrange(32, 64) =~= s.bytes@);
    }
    TestVector { message, pub_key, signature }
}

} // verus!
