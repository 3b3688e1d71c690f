//! Adversarial test vectors for Ed25519 signature verification.
//!
//! Verifiers of Ed25519 disagree on edge cases: whether the verification
//! equation is multiplied by the cofactor, whether encodings of points that
//! are not canonical are accepted and which bytes of them are hashed, and
//! whether a scalar at or above the group order is accepted.  This crate
//! forges twelve signatures that sit on these fault lines, so that a
//! verifier can be told by which of them it accepts.
//!
//! - [`algorithm2`] and [`point`] decode points, with and without the check
//!   for canonical encodings; [`scalar`] decodes scalars, strictly or as
//!   they are.
//! - [`hashing`] computes the challenge of a signature, from the encodings
//!   of the points or from their bytes on the wire.
//! - [`verification`] holds the cofactored, the pre-reduced cofactored and
//!   the cofactorless verification equation.
//! - [`torsion`] lists the points of small order, [`non_reducing_scalar52`]
//!   adds the group order to a scalar without reducing it, and [`rng`]
//!   seeds the generator that makes the forging reproducible.
//! - [`test_vectors`] forges the vectors.  Every vector is run through the
//!   verification equations before it is handed out.
//!
//! The arithmetic of the curve, SHA-512 and the generator come from
//! curve25519-dalek, sha2 and rand.  The contracts in this crate name what
//! those return and say, over these names, what this crate makes of it.
use vstd::prelude::*;

pub mod algorithm2;
pub mod bytes;
pub mod error;
pub mod hashing;
pub mod non_reducing_scalar52;
pub mod point;
pub mod rng;
pub mod scalar;
pub mod test_vectors;
pub mod torsion;
pub mod verification;

pub use crate::error::{Equation, Error};
pub use crate::hashing::{
    compute_hram, compute_hram_with_pk_array, compute_hram_with_r_array, hash_to_scalar,
};
pub use crate::point::{deserialize_point, Point};
pub use crate::rng::new_rng;
pub use crate::scalar::{deserialize_scalar, eight, multiple_of_eight_le, Scalar};
pub use crate::torsion::{EIGHT_TORSION, EIGHT_TORSION_NON_CANONICAL, pick_small_nonzero_point};
pub use crate::verification::{
    deserialize_signature, serialize_signature, verify_cofactored, verify_cofactorless,
    verify_pre_reduced_cofactored,
};

verus! {

/// The slice itself when it has the expected length, else the length error
/// for the field called `arg_name`.
pub fn check_slice_size<'a>(slice: &'a [u8], expected_len: usize, arg_name: &'static str) -> (out:
    Result<&'a [u8], Error>)
    ensures
        slice@.len() == expected_len ==> out == Ok::<&[u8], Error>(slice),
        slice@.len() != expected_len ==> out == Err::<&[u8], Error>(
            Error::InvalidLength { name: arg_name, expected: expected_len, actual: slice.len() },
        ),
{
    if slice.len() != expected_len {
        return Err(
            Error::InvalidLength { name: arg_name, expected: expected_len, actual: slice.len() },
        );
    }
    Ok(slice)
}

} // verus!
