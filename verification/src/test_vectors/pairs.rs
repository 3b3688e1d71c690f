//! The procedures that forge two vectors for one key: a first message on
//! which the part of small order does not cancel, so that only the
//! cofactored equation holds, and a later one on which it cancels.
use vstd::prelude::*;
use crate::bytes::group_order;
use crate::error::Error;
use crate::hashing::{compute_hram, hash_nonce, hram, nonce_scalar};
use crate::point::{basepoint_encoding, decompressed, edwards_add, edwards_neg, Point, scaled};
use crate::rng::{fill_bytes_32, new_rng, stream_at, stream_u64};
use crate::scalar::{plus, Scalar, times};
use crate::test_vectors::{TestVector, TestVectorView};
use crate::test_vectors::outcome::{
    assemble, check_cell, Class, classes, lemma_mixed, pair_cells, wire_s,
};
use crate::test_vectors::search::{
    cancels, draw_scalar, draw_small_point, drawn_scalar, pair_as_specified, pair_spec, search,
    SEARCH_BOUND, successor, torsion_cancels,
};
use crate::torsion::{lemma_small_order, small_nonzero_encoding};

verus! {

/// The goal of the search: R and the multiple of the key by the challenge
/// cancel.
pub open spec fn zero_small_small_goal(pub_key: Seq<u8>, r: Seq<u8>) -> spec_fn(Seq<u8>) -> bool {
    |message: Seq<u8>| cancels(r, hram(message, pub_key, r), pub_key)
}

/// The signature that is the same over every message.
pub open spec fn fixed_sign(r: Seq<u8>, s: nat) -> spec_fn(Seq<u8>) -> (Seq<u8>, nat) {
    |message: Seq<u8>| (r, s)
}

/// What `zero_small_small` returns.
#[verifier::opaque]
pub open spec fn zero_small_small_spec() -> Result<(TestVectorView, TestVectorView), Error> {
    match decompressed(small_nonzero_encoding(successor(stream_u64(0)) as nat)) {
        None => Err(Error::PointDecompressionFailure),
        Some(pub_key) => {
            let r = edwards_neg(pub_key);
            pair_spec(zero_small_small_goal(pub_key, r), fixed_sign(r, 0), pub_key, 2)
        },
    }
}

/// Two vectors with a key of small order, R its negative and the scalar 0.
/// The cofactored equation accepts both; the cofactorless one rejects the
/// first and accepts the second.
pub fn zero_small_small() -> (out: Result<(TestVector, TestVector), Error>)
    ensures
        pair_as_specified(out, zero_small_small_spec()),
        out matches Ok((first, second)) ==> {
            &&& pair_cells(first@, second@)
            &&& wire_s(first@) == 0
            &&& wire_s(second@) == 0
            &&& classes(first@, Class::Small, Class::Small)
            &&& classes(second@, Class::Small, Class::Small)
        },
{
    proof {
        reveal(zero_small_small_spec);
    }
    let mut rng = new_rng();
    let pub_key = match draw_small_point(&mut rng) {
        Ok(p) => p,
        Err(e) => { return Err(e); },
    };
    let r = pub_key.neg();
    let s = Scalar::zero();
    let ghost goal = zero_small_small_goal(pub_key@, r@);

    let first = fill_bytes_32(&mut rng);
    let mut h = compute_hram(first.as_slice(), &pub_key, &r);
    if torsion_cancels(&r, &h, &pub_key) {
        return Err(Error::WrongSeed);
    }
    if !check_cell(&pub_key, &(r, s), &h, true, false) {
        return Err(Error::InconsistentVector);
    }
    let pub_key_bytes = pub_key.compress();
    let tv1 = assemble(first, pub_key_bytes, &r, &s);

    let mut message = first;
    let mut hit = false;
    let mut trials: u32 = 0;
    while !hit && trials < SEARCH_BOUND
        invariant
            trials <= SEARCH_BOUND,
            goal == zero_small_small_goal(pub_key@, r@),
            hit == goal(message@),
            h@ == hram(message@, pub_key@, r@),
            stream_at(rng, 10 + 8 * trials as nat),
            search(goal, message@, 10 + 8 * trials as nat, (SEARCH_BOUND - trials) as nat)
                == search(goal, first@, 10, SEARCH_BOUND as nat),
        decreases SEARCH_BOUND - trials,
    {
        message = fill_bytes_32(&mut rng);
        trials += 1;
        h = compute_hram(message.as_slice(), &pub_key, &r);
        hit = torsion_cancels(&r, &h, &pub_key);
    }
    if !hit {
        return Err(Error::SearchExhausted);
    }
    if !check_cell(&pub_key, &(r, s), &h, true, true) {
        return Err(Error::InconsistentVector);
    }
    let tv2 = assemble(message, pub_key_bytes, &r, &s);
    proof {
        lemma_small_order(successor(stream_u64(0)) as nat);
    }
    Ok((tv1, tv2))
}

/// The goal of the search: the negative of the key and the multiple of
/// the key by the challenge cancel.
pub open spec fn mixed_small_goal(pub_key: Seq<u8>, r: Seq<u8>) -> spec_fn(Seq<u8>) -> bool {
    |message: Seq<u8>| cancels(edwards_neg(pub_key), hram(message, pub_key, r), pub_key)
}

/// What `non_zero_mixed_small` returns.
#[verifier::opaque]
pub open spec fn non_zero_mixed_small_spec() -> Result<(TestVectorView, TestVectorView), Error> {
    let s = drawn_scalar(0);
    let r0 = scaled(s, basepoint_encoding());
    match decompressed(small_nonzero_encoding(successor(stream_u64(8)) as nat)) {
        None => Err(Error::PointDecompressionFailure),
        Some(pub_key) => {
            let r = edwards_add(r0, edwards_neg(pub_key));
            pair_spec(mixed_small_goal(pub_key, r), fixed_sign(r, s), pub_key, 10)
        },
    }
}

/// Two vectors with a key `A` of small order and `R = s B - A` for a
/// scalar `s` from the generator.  The cofactored equation accepts both;
/// the cofactorless one rejects the first and accepts the second.
pub fn non_zero_mixed_small() -> (out: Result<(TestVector, TestVector), Error>)
    ensures
        pair_as_specified(out, non_zero_mixed_small_spec()),
        out matches Ok((first, second)) ==> {
            &&& pair_cells(first@, second@)
            &&& wire_s(first@) < group_order()
            &&& wire_s(second@) < group_order()
            &&& classes(first@, Class::Small, Class::Mixed)
            &&& classes(second@, Class::Small, Class::Mixed)
        },
{
    proof {
        reveal(non_zero_mixed_small_spec);
    }
    let mut rng = new_rng();
    let s = draw_scalar(&mut rng);
    let r0 = Point::basepoint().mul(&s);
    let pub_key = match draw_small_point(&mut rng) {
        Ok(p) => p,
        Err(e) => { return Err(e); },
    };
    let minus_key = pub_key.neg();
    let r = r0.add(&minus_key);
    let ghost goal = mixed_small_goal(pub_key@, r@);

    let first = fill_bytes_32(&mut rng);
    let mut h = compute_hram(first.as_slice(), &pub_key, &r);
    if torsion_cancels(&minus_key, &h, &pub_key) {
        return Err(Error::WrongSeed);
    }
    if !check_cell(&pub_key, &(r, s), &h, true, false) {
        return Err(Error::InconsistentVector);
    }
    let pub_key_bytes = pub_key.compress();
    let tv1 = assemble(first, pub_key_bytes, &r, &s);

    let mut message = first;
    let mut hit = false;
    let mut trials: u32 = 0;
    while !hit && trials < SEARCH_BOUND
        invariant
            trials <= SEARCH_BOUND,
            goal == mixed_small_goal(pub_key@, r@),
            minus_key@ == edwards_neg(pub_key@),
            hit == goal(message@),
            h@ == hram(message@, pub_key@, r@),
            stream_at(rng, 18 + 8 * trials as nat),
            search(goal, message@, 18 + 8 * trials as nat, (SEARCH_BOUND - trials) as nat)
                == search(goal, first@, 18, SEARCH_BOUND as nat),
        decreases SEARCH_BOUND - trials,
    {
        message = fill_bytes_32(&mut rng);
        trials += 1;
        h = compute_hram(message.as_slice(), &pub_key, &r);
        hit = torsion_cancels(&minus_key, &h, &pub_key);
    }
    if !hit {
        return Err(Error::SearchExhausted);
    }
    if !check_cell(&pub_key, &(r, s), &h, true, true) {
        return Err(Error::InconsistentVector);
    }
    let tv2 = assemble(message, pub_key_bytes, &r, &s);
    proof {
        lemma_small_order(successor(stream_u64(8)) as nat);
        lemma_mixed(s@, edwards_neg(pub_key@));
    }
    Ok((tv1, tv2))
}

/// The goal of the search: R and the multiple of its negative by the
/// challenge cancel.
pub open spec fn small_mixed_goal(pub_key: Seq<u8>, r: Seq<u8>) -> spec_fn(Seq<u8>) -> bool {
    |message: Seq<u8>| cancels(r, hram(message, pub_key, r), edwards_neg(r))
}

/// The signature over a message: R, and the challenge times the secret
/// scalar `a`.
pub open spec fn small_mixed_sign(pub_key: Seq<u8>, r: Seq<u8>, a: nat) -> spec_fn(Seq<u8>) -> (
    Seq<u8>,
    nat,
) {
    |message: Seq<u8>| (r, times(hram(message, pub_key, r), a))
}

/// What `non_zero_small_mixed` returns.
#[verifier::opaque]
pub open spec fn non_zero_small_mixed_spec() -> Result<(TestVectorView, TestVectorView), Error> {
    let a = drawn_scalar(0);
    let pub_key_component = scaled(a, basepoint_encoding());
    match decompressed(small_nonzero_encoding(successor(stream_u64(8)) as nat)) {
        None => Err(Error::PointDecompressionFailure),
        Some(r) => {
            let pub_key = edwards_add(pub_key_component, edwards_neg(r));
            pair_spec(small_mixed_goal(pub_key, r), small_mixed_sign(pub_key, r, a), pub_key, 10)
        },
    }
}

/// Two vectors with R of small order and the key `A = a B - R` for a
/// scalar `a` from the generator, signed by `s = h a`.  The cofactored
/// equation accepts both; the cofactorless one rejects the first and
/// accepts the second.
pub fn non_zero_small_mixed() -> (out: Result<(TestVector, TestVector), Error>)
    ensures
        pair_as_specified(out, non_zero_small_mixed_spec()),
        out matches Ok((first, second)) ==> {
            &&& pair_cells(first@, second@)
            &&& wire_s(first@) < group_order()
            &&& wire_s(second@) < group_order()
            &&& classes(first@, Class::Mixed, Class::Small)
            &&& classes(second@, Class::Mixed, Class::Small)
        },
{
    proof {
        reveal(non_zero_small_mixed_spec);
    }
    let mut rng = new_rng();
    let a = draw_scalar(&mut rng);
    let pub_key_component = Point::basepoint().mul(&a);
    let r = match draw_small_point(&mut rng) {
        Ok(p) => p,
        Err(e) => { return Err(e); },
    };
    let minus_r = r.neg();
    let pub_key = pub_key_component.add(&minus_r);
    let ghost goal = small_mixed_goal(pub_key@, r@);

    let first = fill_bytes_32(&mut rng);
    let mut h = compute_hram(first.as_slice(), &pub_key, &r);
    if torsion_cancels(&r, &h, &minus_r) {
        return Err(Error::WrongSeed);
    }
    let s1 = h.mul(&a);
    if !check_cell(&pub_key, &(r, s1), &h, true, false) {
        return Err(Error::InconsistentVector);
    }
    let pub_key_bytes = pub_key.compress();
    let tv1 = assemble(first, pub_key_bytes, &r, &s1);

    let mut message = first;
    let mut hit = false;
    let mut trials: u32 = 0;
    while !hit && trials < SEARCH_BOUND
        invariant
            trials <= SEARCH_BOUND,
            goal == small_mixed_goal(pub_key@, r@),
            minus_r@ == edwards_neg(r@),
            hit == goal(message@),
            h@ == hram(message@, pub_key@, r@),
            h.canonical(),
            stream_at(rng, 18 + 8 * trials as nat),
            search(goal, message@, 18 + 8 * trials as nat, (SEARCH_BOUND - trials) as nat)
                == search(goal, first@, 18, SEARCH_BOUND as nat),
        decreases SEARCH_BOUND - trials,
    {
        message = fill_bytes_32(&mut rng);
        trials += 1;
        h = compute_hram(message.as_slice(), &pub_key, &r);
        hit = torsion_cancels(&r, &h, &minus_r);
    }
    if !hit {
        return Err(Error::SearchExhausted);
    }
    let s2 = h.mul(&a);
    if !check_cell(&pub_key, &(r, s2), &h, true, true) {
        return Err(Error::InconsistentVector);
    }
    let tv2 = assemble(message, pub_key_bytes, &r, &s2);
    proof {
        lemma_small_order(successor(stream_u64(8)) as nat);
        lemma_mixed(a@, edwards_neg(r@));
    }
    Ok((tv1, tv2))
}

/// The point R over a message: an ordinary R, hashed from the all-zero
/// nonce and the message, less the point of small order.
pub open spec fn mixed_mixed_r(small: Seq<u8>, message: Seq<u8>) -> Seq<u8> {
    edwards_add(
        scaled(nonce_scalar(Seq::new(32, |i: int| 0u8), message), basepoint_encoding()),
        edwards_neg(small),
    )
}

/// The goal of the search: the negative of the point of small order and
/// its multiple by the challenge cancel.
pub open spec fn mixed_mixed_goal(pub_key: Seq<u8>, small: Seq<u8>) -> spec_fn(Seq<u8>) -> bool {
    |message: Seq<u8>|
        cancels(
            edwards_neg(small),
            hram(message, pub_key, mixed_mixed_r(small, message)),
            small,
        )
}

/// The signature over a message: R as above, and the scalar behind R plus
/// the challenge times the secret scalar `a`.
pub open spec fn mixed_mixed_sign(pub_key: Seq<u8>, small: Seq<u8>, a: nat) -> spec_fn(
    Seq<u8>,
) -> (Seq<u8>, nat) {
    |message: Seq<u8>|
        {
            let r = mixed_mixed_r(small, message);
            (
                r,
                plus(
                    nonce_scalar(Seq::new(32, |i: int| 0u8), message),
                    times(hram(message, pub_key, r), a),
                ),
            )
        }
}

/// What `non_zero_mixed_mixed` returns.
#[verifier::opaque]
pub open spec fn non_zero_mixed_mixed_spec() -> Result<(TestVectorView, TestVectorView), Error> {
    let a = drawn_scalar(0);
    match decompressed(small_nonzero_encoding(successor(stream_u64(16)) as nat)) {
        None => Err(Error::PointDecompressionFailure),
        Some(small) => {
            let pub_key = edwards_add(scaled(a, basepoint_encoding()), small);
            pair_spec(
                mixed_mixed_goal(pub_key, small),
                mixed_mixed_sign(pub_key, small, a),
                pub_key,
                18,
            )
        },
    }
}

/// Two vectors with the key `A = a B + T` and `R = r B - T`, where `T` is
/// of small order, `a` comes from the generator and `r` is hashed from the
/// message, signed by `s = r + h a`.  The cofactored equation accepts
/// both; the cofactorless one rejects the first and accepts the second.
pub fn non_zero_mixed_mixed() -> (out: Result<(TestVector, TestVector), Error>)
    ensures
        pair_as_specified(out, non_zero_mixed_mixed_spec()),
        out matches Ok((first, second)) ==> {
            &&& pair_cells(first@, second@)
            &&& wire_s(first@) < group_order()
            &&& wire_s(second@) < group_order()
            &&& classes(first@, Class::Mixed, Class::Mixed)
            &&& classes(second@, Class::Mixed, Class::Mixed)
        },
{
    proof {
        reveal(non_zero_mixed_mixed_spec);
    }
    let mut rng = new_rng();
    let a = draw_scalar(&mut rng);
    // The nonce stays zero: what is drawn for it is not used.
    let nonce_bytes: [u8; 32] = [0u8; 32];
    let _ = fill_bytes_32(&mut rng);
    assert(nonce_bytes@ =~= Seq::new(32, |i: int| 0u8));

    let small_pt = match draw_small_point(&mut rng) {
        Ok(p) => p,
        Err(e) => { return Err(e); },
    };
    let minus_small = small_pt.neg();
    let prelim_pub_key = Point::basepoint().mul(&a);

    let first = fill_bytes_32(&mut rng);
    let mut prelim_r = hash_nonce(nonce_bytes.as_slice(), first.as_slice());
    let pub_key = prelim_pub_key.add(&small_pt);
    let mut r = Point::basepoint().mul(&prelim_r).add(&minus_small);
    let ghost goal = mixed_mixed_goal(pub_key@, small_pt@);

    let mut h = compute_hram(first.as_slice(), &pub_key, &r);
    if torsion_cancels(&minus_small, &h, &small_pt) {
        return Err(Error::WrongSeed);
    }
    let s1 = prelim_r.add(&h.mul(&a));
    if !check_cell(&pub_key, &(r, s1), &h, true, false) {
        return Err(Error::InconsistentVector);
    }
    let pub_key_bytes = pub_key.compress();
    proof {
        lemma_small_order(successor(stream_u64(16)) as nat);
        lemma_mixed(a@, small_pt@);
        lemma_mixed(prelim_r@, edwards_neg(small_pt@));
    }
    let tv1 = assemble(first, pub_key_bytes, &r, &s1);

    let mut message = first;
    let mut hit = false;
    let mut trials: u32 = 0;
    while !hit && trials < SEARCH_BOUND
        invariant
            trials <= SEARCH_BOUND,
            goal == mixed_mixed_goal(pub_key@, small_pt@),
            minus_small@ == edwards_neg(small_pt@),
            nonce_bytes@ == Seq::new(32, |i: int| 0u8),
            hit == goal(message@),
            prelim_r@ == nonce_scalar(nonce_bytes@, message@),
            prelim_r.canonical(),
            r@ == mixed_mixed_r(small_pt@, message@),
            h@ == hram(message@, pub_key@, r@),
            h.canonical(),
            stream_at(rng, 26 + 8 * trials as nat),
            search(goal, message@, 26 + 8 * trials as nat, (SEARCH_BOUND - trials) as nat)
                == search(goal, first@, 26, SEARCH_BOUND as nat),
        decreases SEARCH_BOUND - trials,
    {
        message = fill_bytes_32(&mut rng);
        trials += 1;
        prelim_r = hash_nonce(nonce_bytes.as_slice(), message.as_slice());
        r = Point::basepoint().mul(&prelim_r).add(&minus_small);
        h = compute_hram(message.as_slice(), &pub_key, &r);
        hit = torsion_cancels(&minus_small, &h, &small_pt);
    }
    if !hit {
        return Err(Error::SearchExhausted);
    }
    let s2 = prelim_r.add(&h.mul(&a));
    if !check_cell(&pub_key, &(r, s2), &h, true, true) {
        return Err(Error::InconsistentVector);
    }
    let tv2 = assemble(message, pub_key_bytes, &r, &s2);
    proof {
        lemma_mixed(prelim_r@, edwards_neg(small_pt@));
    }
    Ok((tv1, tv2))
}

} // verus!
