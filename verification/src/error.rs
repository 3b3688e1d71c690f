//! What can go wrong while decoding, verifying or forging.
use vstd::prelude::*;

verus! {

/// The three verification equations.
#[derive(Clone, Copy, Debug, PartialEq, Eq)]
pub enum Equation {
    /// `8 (R - (h (-A) + s B)) = 0`.
    Cofactored,
    /// `8 R - ((8 h) (-A) + (8 s) B) = 0`, the products taken modulo the group order.
    PreReducedCofactored,
    /// `R - (h (-A) + s B) = 0`.
    Cofactorless,
}

/// What a decoder, a verifier or a forging procedure gives up with.
#[derive(Clone, Copy, Debug, PartialEq, Eq)]
pub enum Error {
    /// A byte slice has not the length that its field demands.
    InvalidLength { name: &'static str, expected: usize, actual: usize },
    /// A point encoding is not the canonical one of its point.
    NonCanonicalPointEncoding,
    /// No point of the curve has the encoded y-coordinate.
    PointDecompressionFailure,
    /// A scalar is not below the group order.
    NonCanonicalScalar,
    /// A signature does not satisfy the named equation.
    VerificationFailure(Equation),
    /// The first message drawn already satisfies the identity that the
    /// search is for: the generator was seeded otherwise than intended.
    WrongSeed,
    /// No message within the bound satisfies the identity searched for.
    SearchExhausted,
    /// A forged vector does not behave under the verification equations as
    /// its scenario says.
    InconsistentVector,
}

} // verus!
