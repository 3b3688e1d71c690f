//! The procedures that forge a single vector: one that tells a verifier
//! which multiplies the scalars by eight before the curve arithmetic, and
//! two with a scalar at or above the group order.
use vstd::prelude::*;
use crate::bytes::group_order;
use crate::error::Error;
use crate::hashing::{compute_hram, hash_nonce, hram, nonce_scalar};
use crate::non_reducing_scalar52::{
    add_group_order, lemma_raised, lifts, pow2_253, raise_past_high_bits, raised,
};
use crate::point::{basepoint_encoding, decompressed, edwards_add, Point, scaled};
use crate::rng::{fill_bytes_32, new_rng, stream_at, stream_bytes, stream_u64};
use crate::scalar::{deserialize_scalar, eight, multiple_of_eight_le, plus, times};
use crate::test_vectors::{TestVector, TestVectorView};
use crate::test_vectors::outcome::{
    assemble, check_cell, Class, classes, in_cell, lemma_large, lemma_mixed, lemma_stretched,
    malleable, passes_unless_pre_reduced, vector_view, wire_s,
};
use crate::test_vectors::search::{
    draw_scalar, draw_small_point, drawn_scalar, one_as_specified, search, SEARCH_BOUND, successor,
};
use crate::torsion::{lemma_small_order, small_nonzero_encoding};
use crate::verification::{pre_reduced_cofactored_holds, verify_final_pre_reduced_cofactored};

verus! {

/// The goal of the search: eight times the challenge, reduced modulo the
/// group order, is no multiple of eight.
pub open spec fn pre_reduced_goal(pub_key: Seq<u8>, r: Seq<u8>) -> spec_fn(Seq<u8>) -> bool {
    |message: Seq<u8>| times(8, hram(message, pub_key, r)) % 8 != 0
}

/// What `pre_reduced_scalar` returns.
#[verifier::opaque]
pub open spec fn pre_reduced_scalar_spec() -> Result<TestVectorView, Error> {
    let a = drawn_scalar(0);
    match decompressed(small_nonzero_encoding(successor(stream_u64(16)) as nat)) {
        None => Err(Error::PointDecompressionFailure),
        Some(small) => {
            let pub_key = edwards_add(scaled(a, basepoint_encoding()), small);
            let first = stream_bytes(18);
            let r_scalar = nonce_scalar(Seq::new(32, |i: int| 0u8), first);
            let r = scaled(r_scalar, basepoint_encoding());
            match search(pre_reduced_goal(pub_key, r), first, 26, SEARCH_BOUND as nat) {
                None => Err(Error::SearchExhausted),
                Some((message, _)) => {
                    let h = hram(message, pub_key, r);
                    let s = plus(r_scalar, times(h, a));
                    if in_cell(pub_key, r, s, h, true, false) && !pre_reduced_cofactored_holds(
                        pub_key,
                        r,
                        s,
                        h,
                    ) {
                        Ok(vector_view(message, pub_key, r, s))
                    } else {
                        Err(Error::InconsistentVector)
                    }
                },
            }
        },
    }
}

/// A vector with the key `A = a B + T`, where `T` is of small order, and an
/// ordinary `R = r B`, signed by `s = r + h a` over a message for which
/// `8 h` modulo the group order is no multiple of eight.  The cofactored
/// equation accepts it; the pre-reduced cofactored equation and the
/// cofactorless equation reject it.
pub fn pre_reduced_scalar() -> (out: Result<TestVector, Error>)
    ensures
        one_as_specified(out, pre_reduced_scalar_spec()),
        out matches Ok(vector) ==> {
            &&& passes_unless_pre_reduced(vector@)
            &&& wire_s(vector@) < group_order()
            &&& classes(vector@, Class::Mixed, Class::Large)
        },
{
    proof {
        reveal(pre_reduced_scalar_spec);
    }
    let mut rng = new_rng();
    let a = draw_scalar(&mut rng);
    // The nonce stays zero: what is drawn for it is not used.
    let nonce_bytes: [u8; 32] = [0u8; 32];
    let _ = fill_bytes_32(&mut rng);
    assert(nonce_bytes@ =~= Seq::new(32, |i: int| 0u8));

    let prelim_pub_key = Point::basepoint().mul(&a);
    let small_pt = match draw_small_point(&mut rng) {
        Ok(p) => p,
        Err(e) => { return Err(e); },
    };
    let pub_key = prelim_pub_key.add(&small_pt);

    let first = fill_bytes_32(&mut rng);
    let r_scalar = hash_nonce(nonce_bytes.as_slice(), first.as_slice());
    let r = Point::basepoint().mul(&r_scalar);
    let ghost goal = pre_reduced_goal(pub_key@, r@);

    let mut message = first;
    let mut h = compute_hram(message.as_slice(), &pub_key, &r);
    let mut hit = !multiple_of_eight_le(eight().mul(&h));
    let mut trials: u32 = 0;
    while !hit && trials < SEARCH_BOUND
        invariant
            trials <= SEARCH_BOUND,
            goal == pre_reduced_goal(pub_key@, r@),
            hit == goal(message@),
            h@ == hram(message@, pub_key@, r@),
            h.canonical(),
            stream_at(rng, 26 + 8 * trials as nat),
            search(goal, message@, 26 + 8 * trials as nat, (SEARCH_BOUND - trials) as nat)
                == search(goal, first@, 26, SEARCH_BOUND as nat),
        decreases SEARCH_BOUND - trials,
    {
        message = fill_bytes_32(&mut rng);
        trials += 1;
        h = compute_hram(message.as_slice(), &pub_key, &r);
        hit = !multiple_of_eight_le(eight().mul(&h));
    }
    if !hit {
        return Err(Error::SearchExhausted);
    }
    let s = r_scalar.add(&h.mul(&a));
    let signature = (r, s);
    if !check_cell(&pub_key, &signature, &h, true, false) {
        return Err(Error::InconsistentVector);
    }
    if verify_final_pre_reduced_cofactored(&pub_key, &signature, &h).is_ok() {
        return Err(Error::InconsistentVector);
    }
    let pub_key_bytes = pub_key.compress();
    proof {
        lemma_small_order(successor(stream_u64(16)) as nat);
        lemma_mixed(a@, small_pt@);
        lemma_large(r_scalar@);
    }
    Ok(assemble(message, pub_key_bytes, &r, &s))
}

/// What `large_s` and `really_large_s` return: an ordinary signature over
/// the message that the generator hands out after 16 words, with a secret
/// scalar from the generator and R hashed from the nonce and the message,
/// its scalar `s` then replaced by `stretch(s)`.
pub open spec fn stretched_spec(nonce: Seq<u8>, stretch: spec_fn(nat) -> nat) -> Result<
    TestVectorView,
    Error,
> {
    let a = drawn_scalar(0);
    let pub_key = scaled(a, basepoint_encoding());
    let message = stream_bytes(16);
    let r_scalar = nonce_scalar(nonce, message);
    let r = scaled(r_scalar, basepoint_encoding());
    let h = hram(message, pub_key, r);
    let s = plus(r_scalar, times(h, a));
    if !in_cell(pub_key, r, s, h, true, true) {
        Err(Error::InconsistentVector)
    } else if !in_cell(pub_key, r, stretch(s), h, true, true) {
        Err(Error::InconsistentVector)
    } else {
        Ok(vector_view(message, pub_key, r, stretch(s)))
    }
}

/// The scalar plus the group order.
pub open spec fn one_order_more() -> spec_fn(nat) -> nat {
    |s: nat| s + group_order()
}

/// What `large_s` returns.
#[verifier::opaque]
pub open spec fn large_s_spec() -> Result<TestVectorView, Error> {
    stretched_spec(Seq::new(32, |i: int| 0u8), one_order_more())
}

/// A vector with an ordinary key and an ordinary R, signed by `s + L`
/// where `s` is the scalar of the ordinary signature and `L` the group
/// order.  Both equations accept it, as they accept the ordinary
/// signature: the signature is malleable.
pub fn large_s() -> (out: Result<TestVector, Error>)
    ensures
        one_as_specified(out, large_s_spec()),
        out matches Ok(vector) ==> {
            &&& malleable(vector@)
            &&& group_order() <= wire_s(vector@) < 2 * group_order()
            &&& classes(vector@, Class::Large, Class::Large)
        },
{
    proof {
        reveal(large_s_spec);
    }
    let mut rng = new_rng();
    let a = draw_scalar(&mut rng);
    // The nonce stays zero: what is drawn for it is not used.
    let nonce_bytes: [u8; 32] = [0u8; 32];
    let _ = fill_bytes_32(&mut rng);
    assert(nonce_bytes@ =~= Seq::new(32, |i: int| 0u8));

    let pub_key = Point::basepoint().mul(&a);
    let message = fill_bytes_32(&mut rng);
    let r_scalar = hash_nonce(nonce_bytes.as_slice(), message.as_slice());
    let r = Point::basepoint().mul(&r_scalar);
    let h = compute_hram(message.as_slice(), &pub_key, &r);
    let s = r_scalar.add(&h.mul(&a));
    if !check_cell(&pub_key, &(r, s), &h, true, true) {
        return Err(Error::InconsistentVector);
    }
    let s_prime_bytes = add_group_order(&s.to_bytes());
    // The permissive decoding is the point: it takes the scalar as it is.
    let s_prime = match deserialize_scalar(s_prime_bytes.as_slice()) {
        Ok(scalar) => scalar,
        Err(e) => { return Err(e); },
    };
    if !check_cell(&pub_key, &(r, s_prime), &h, true, true) {
        return Err(Error::InconsistentVector);
    }
    let pub_key_bytes = pub_key.compress();
    let vector = assemble(message, pub_key_bytes, &r, &s_prime);
    proof {
        lemma_stretched(vector@, s@, s_prime@, 1);
        lemma_large(a@);
        lemma_large(r_scalar@);
    }
    Ok(vector)
}

/// The scalar raised to 2^253 or above.
pub open spec fn raised_past_high_bits() -> spec_fn(nat) -> nat {
    |s: nat| raised(s)
}

/// What `really_large_s` returns.
#[verifier::opaque]
pub open spec fn really_large_s_spec() -> Result<TestVectorView, Error> {
    stretched_spec(stream_bytes(8), raised_past_high_bits())
}

/// A vector with an ordinary key and an ordinary R, signed by the first of
/// `s + L`, `s + 2 L`, .. that has one of its three highest bits set,
/// where `s` is the scalar of the ordinary signature and `L` the group
/// order: a check of the range that looks at those bits alone lets none of
/// the smaller ones pass.  Both equations accept the vector, as they
/// accept the ordinary signature: the signature is malleable.
pub fn really_large_s() -> (out: Result<TestVector, Error>)
    ensures
        one_as_specified(out, really_large_s_spec()),
        out matches Ok(vector) ==> {
            &&& malleable(vector@)
            &&& pow2_253() <= wire_s(vector@) < pow2_253() + group_order()
            &&& classes(vector@, Class::Large, Class::Large)
        },
{
    proof {
        reveal(really_large_s_spec);
    }
    let mut rng = new_rng();
    let a = draw_scalar(&mut rng);
    let nonce_bytes = fill_bytes_32(&mut rng);

    let pub_key = Point::basepoint().mul(&a);
    let message = fill_bytes_32(&mut rng);
    let r_scalar = hash_nonce(nonce_bytes.as_slice(), message.as_slice());
    let r = Point::basepoint().mul(&r_scalar);
    let h = compute_hram(message.as_slice(), &pub_key, &r);
    let s = r_scalar.add(&h.mul(&a));
    if !check_cell(&pub_key, &(r, s), &h, true, true) {
        return Err(Error::InconsistentVector);
    }
    // Past the check of the three highest bits that stands in for `s < L`
    // in some verifiers.
    let s_prime_bytes = raise_past_high_bits(&s.to_bytes());
    proof {
        lemma_raised(s@);
    }
    // The permissive decoding is the point: it takes the scalar as it is.
    let s_prime = match deserialize_scalar(s_prime_bytes.as_slice()) {
        Ok(scalar) => scalar,
        Err(e) => { return Err(e); },
    };
    if !check_cell(&pub_key, &(r, s_prime), &h, true, true) {
        return Err(Error::InconsistentVector);
    }
    let pub_key_bytes = pub_key.compress();
    let vector = assemble(message, pub_key_bytes, &r, &s_prime);
    proof {
        lemma_stretched(vector@, s@, s_prime@, lifts(s@));
        lemma_large(a@);
        lemma_large(r_scalar@);
    }
    Ok(vector)
}

} // verus!
