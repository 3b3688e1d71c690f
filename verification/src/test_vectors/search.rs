//! What the forging procedures share: the draws from the generator and
//! the bounded search for a message that meets a goal.
use vstd::prelude::*;
use rand::rngs::StdRng;
use crate::bytes::{group_order, le_nat, pow2_255};
use crate::error::Error;
use crate::hashing::hram;
use crate::point::{decompressed, edwards_add, edwards_mul, identity_encoding, Point};
use crate::rng::{
    fill_bytes_32, next_u64, pi_seed, rng_seed, rng_words, stream_at, stream_bytes, stream_u64,
};
use crate::scalar::Scalar;
use crate::test_vectors::{TestVector, TestVectorView};
use crate::test_vectors::outcome::{in_cell, vector_view};
use crate::torsion::{pick_small_nonzero_point, small_nonzero_encoding};

verus! {

/// The number of messages that a search draws before it gives up.
pub const SEARCH_BOUND: u32 = 65536;

/// Whether the point `base + h t` is the neutral element.
pub open spec fn cancels(base: Seq<u8>, h: nat, t: Seq<u8>) -> bool {
    edwards_add(base, edwards_mul(h % pow2_255(), t)) == identity_encoding()
}

/// Whether the point `base + h t` is the neutral element.
pub fn torsion_cancels(base: &Point, h: &Scalar, t: &Point) -> (hit: bool)
    ensures
        hit == cancels(base@, h@, t@),
{
    base.add(&t.mul(h)).is_identity()
}

/// The first message that meets the goal: the message at hand if it does,
/// else the first such among the next `fuel` messages that the generator
/// hands out from `words` words on.  With the message comes the number of
/// words that the generator has handed out by then.
pub open spec fn search(
    goal: spec_fn(Seq<u8>) -> bool,
    message: Seq<u8>,
    words: nat,
    fuel: nat,
) -> Option<(Seq<u8>, nat)>
    decreases fuel,
{
    if goal(message) {
        Some((message, words))
    } else if fuel == 0 {
        None
    } else {
        search(goal, stream_bytes(words), words + 8, (fuel - 1) as nat)
    }
}

/// The integer after `x`, and 0 after the largest.
pub open spec fn successor(x: u64) -> u64 {
    if x == u64::MAX {
        0
    } else {
        (x + 1) as u64
    }
}

/// A point of small order other than the neutral element, chosen by the
/// next integer from the generator.
pub(crate) fn draw_small_point(rng: &mut StdRng) -> (out: Result<Point, Error>)
    requires
        rng_seed(*old(rng)) == pi_seed(),
    ensures
        stream_at(*final(rng), rng_words(*old(rng)) + 2),
        out matches Ok(p) ==> p@ == small_nonzero_encoding(
            successor(stream_u64(rng_words(*old(rng)))) as nat,
        ),
        match decompressed(
            small_nonzero_encoding(successor(stream_u64(rng_words(*old(rng)))) as nat),
        ) {
            Some(encoding) => out matches Ok(p) && p@ == encoding,
            None => out == Err::<Point, Error>(Error::PointDecompressionFailure),
        },
{
    let small_idx: u64 = next_u64(rng);
    let next: u64 = if small_idx == u64::MAX {
        0
    } else {
        small_idx + 1
    };
    pick_small_nonzero_point(next)
}

/// The scalar that the generator gives after `words` words: 32 bytes as an
/// integer, reduced modulo the group order.
pub open spec fn drawn_scalar(words: nat) -> nat {
    le_nat(stream_bytes(words)) % group_order()
}

/// A scalar below the group order from the next 32 bytes of the generator.
pub(crate) fn draw_scalar(rng: &mut StdRng) -> (a: Scalar)
    requires
        rng_seed(*old(rng)) == pi_seed(),
    ensures
        stream_at(*final(rng), rng_words(*old(rng)) + 8),
        a@ == drawn_scalar(rng_words(*old(rng))),
        a.canonical(),
{
    Scalar::from_bytes_mod_order(fill_bytes_32(rng))
}

/// What a procedure returns that forges two vectors for one key.
///
/// The first vector carries the message that the generator hands out after
/// `words` words.  That message must miss the goal, and its signature must
/// pass the cofactored equation and fail the cofactorless one.  The second
/// vector carries the first message from there on that meets the goal; its
/// signature must pass both equations.  `sign` gives the point R and the
/// scalar of the signature over a message.
pub open spec fn pair_spec(
    goal: spec_fn(Seq<u8>) -> bool,
    sign: spec_fn(Seq<u8>) -> (Seq<u8>, nat),
    pub_key: Seq<u8>,
    words: nat,
) -> Result<(TestVectorView, TestVectorView), Error> {
    let first = stream_bytes(words);
    let (r1, s1) = sign(first);
    if goal(first) {
        Err(Error::WrongSeed)
    } else if !in_cell(pub_key, r1, s1, hram(first, pub_key, r1), true, false) {
        Err(Error::InconsistentVector)
    } else {
        match search(goal, first, words + 8, SEARCH_BOUND as nat) {
            None => Err(Error::SearchExhausted),
            Some((second, _)) => {
                let (r2, s2) = sign(second);
                if !in_cell(pub_key, r2, s2, hram(second, pub_key, r2), true, true) {
                    Err(Error::InconsistentVector)
                } else {
                    Ok((vector_view(first, pub_key, r1, s1), vector_view(second, pub_key, r2, s2)))
                }
            },
        }
    }
}

/// Whether a procedure returned what its description says.
pub open spec fn pair_as_specified(
    out: Result<(TestVector, TestVector), Error>,
    specified: Result<(TestVectorView, TestVectorView), Error>,
) -> bool {
    match out {
        Ok((first, second)) => specified == Ok::<(TestVectorView, TestVectorView), Error>(
            (first@, second@),
        ),
        Err(e) => specified == Err::<(TestVectorView, TestVectorView), Error>(e),
    }
}

/// Whether a procedure returned what its description says.
pub open spec fn one_as_specified(
    out: Result<TestVector, Error>,
    specified: Result<TestVectorView, Error>,
) -> bool {
    match out {
        Ok(vector) => specified == Ok::<TestVectorView, Error>(vector@),
        Err(e) => specified == Err::<TestVectorView, Error>(e),
    }
}

/// Whether a procedure returned what its description says.
pub open spec fn two_as_specified(
    out: Result<Vec<TestVector>, Error>,
    specified: Result<(TestVectorView, TestVectorView), Error>,
) -> bool {
    match out {
        Ok(vectors) => vectors@.len() == 2 && specified == Ok::<
            (TestVectorView, TestVectorView),
            Error,
        >((vectors@[0]@, vectors@[1]@)),
        Err(e) => specified == Err::<(TestVectorView, TestVectorView), Error>(e),
    }
}

} // verus!
