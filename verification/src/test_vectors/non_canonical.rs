//! The procedures that forge vectors around an encoding that is not
//! canonical: the point of order two written EC FF .. FF, once as R and
//! once as the public key.
use vstd::prelude::*;
use crate::algorithm2::canonical_point_encoding;
use crate::bytes::group_order;
use crate::error::Error;
use crate::hashing::{compute_hram, compute_hram_with_pk_array, compute_hram_with_r_array, hram};
use crate::point::{
    basepoint_encoding, decompressed, deserialize_point, edwards_add, edwards_neg, Point, scaled,
};
use crate::rng::{fill_bytes_32, new_rng, stream_at, stream_bytes, stream_u64};
use crate::scalar::times;
use crate::test_vectors::{TestVector, TestVectorView};
use crate::test_vectors::outcome::{
    assemble, assemble_raw, check_cell, Class, classes, cofactorless_if_on_wire_bytes,
    cofactorless_if_reencoded, in_cell, lemma_mixed, passes_on_wire_bytes_alone,
    passes_reencoded_alone, vector_view, wire_r, wire_s,
};
use crate::test_vectors::search::{
    cancels, draw_scalar, draw_small_point, drawn_scalar, search, SEARCH_BOUND, successor,
    torsion_cancels, two_as_specified,
};
use crate::torsion::{
    EIGHT_TORSION_NON_CANONICAL, lemma_order_two_non_canonical, lemma_order_two_reencoded,
    lemma_small_order, small_nonzero_encoding,
};

verus! {

/// The encoding EC FF .. FF of the point (0, -1) of order two, with the
/// sign bit of x set though x is 0.
pub open spec fn order_two_non_canonical() -> Seq<u8> {
    EIGHT_TORSION_NON_CANONICAL[2]@
}

/// The goal of the search: R and the multiple of the negative of the point
/// `t` of small order cancel, whether the challenge is hashed from the
/// encoding of R or from its bytes on the wire.
pub open spec fn non_canonical_r_goal(
    pub_key: Seq<u8>,
    r: Seq<u8>,
    r_wire: Seq<u8>,
    t: Seq<u8>,
) -> spec_fn(Seq<u8>) -> bool {
    |message: Seq<u8>|
        cancels(r, hram(message, pub_key, r), edwards_neg(t)) && cancels(
            r,
            hram(message, pub_key, r_wire),
            edwards_neg(t),
        )
}

/// What `non_zero_small_non_canonical_mixed` returns.
#[verifier::opaque]
pub open spec fn non_zero_small_non_canonical_mixed_spec() -> Result<
    (TestVectorView, TestVectorView),
    Error,
> {
    let r_wire = order_two_non_canonical();
    let a = drawn_scalar(0);
    match decompressed(r_wire) {
        None => Err(Error::PointDecompressionFailure),
        Some(r) => match decompressed(small_nonzero_encoding(successor(stream_u64(8)) as nat)) {
            None => Err(Error::PointDecompressionFailure),
            Some(t) => {
                let pub_key = edwards_add(scaled(a, basepoint_encoding()), edwards_neg(t));
                let goal = non_canonical_r_goal(pub_key, r, r_wire, t);
                match search(goal, stream_bytes(10), 18, SEARCH_BOUND as nat) {
                    None => Err(Error::SearchExhausted),
                    Some((message, _)) => {
                        let h_encoded = hram(message, pub_key, r);
                        let h_wire = hram(message, pub_key, r_wire);
                        let s_encoded = times(h_encoded, a);
                        let s_wire = times(h_wire, a);
                        if in_cell(pub_key, r, s_encoded, h_encoded, true, true) && in_cell(
                            pub_key,
                            r,
                            s_encoded,
                            h_wire,
                            false,
                            false,
                        ) && in_cell(pub_key, r, s_wire, h_wire, true, true) && in_cell(
                            pub_key,
                            r,
                            s_wire,
                            h_encoded,
                            false,
                            false,
                        ) {
                            Ok(
                                (
                                    vector_view(message, pub_key, r_wire, s_encoded),
                                    vector_view(message, pub_key, r_wire, s_wire),
                                ),
                            )
                        } else {
                            Err(Error::InconsistentVector)
                        }
                    },
                }
            },
        },
    }
}

/// Two vectors over one message whose R is the point (0, -1) of order two,
/// written EC FF .. FF, with the key `A = a B - T` for a point `T` of
/// small order.  The signatures differ in the challenge behind
/// `s = h a`: the first was hashed from the canonical encoding of R, the
/// second from the bytes EC FF .. FF.  A verifier that hashes the
/// encoding anew accepts the first under both equations and rejects the
/// second; one that hashes the bytes on the wire does the opposite.
pub fn non_zero_small_non_canonical_mixed() -> (out: Result<Vec<TestVector>, Error>)
    ensures
        two_as_specified(out, non_zero_small_non_canonical_mixed_spec()),
        out matches Ok(vectors) ==> {
            &&& vectors@.len() == 2
            &&& vectors@[0]@.message == vectors@[1]@.message
            &&& wire_r(vectors@[0]@) == order_two_non_canonical()
            &&& wire_r(vectors@[1]@) == order_two_non_canonical()
            &&& passes_reencoded_alone(vectors@[0]@)
            &&& passes_on_wire_bytes_alone(vectors@[1]@)
            &&& classes(vectors@[0]@, Class::Mixed, Class::Small)
            &&& classes(vectors@[1]@, Class::Mixed, Class::Small)
            &&& !canonical_point_encoding(wire_r(vectors@[0]@))
            &&& !canonical_point_encoding(wire_r(vectors@[1]@))
            &&& wire_s(vectors@[0]@) < group_order()
            &&& wire_s(vectors@[1]@) < group_order()
        },
{
    proof {
        reveal(non_zero_small_non_canonical_mixed_spec);
    }
    let mut vec: Vec<TestVector> = Vec::new();
    let r_arr: [u8; 32] = EIGHT_TORSION_NON_CANONICAL[2];
    let mut rng = new_rng();
    let a = draw_scalar(&mut rng);
    let pub_key_component = Point::basepoint().mul(&a);
    let r = match deserialize_point(r_arr.as_slice()) {
        Ok(p) => p,
        Err(e) => { return Err(e); },
    };
    let r2 = match draw_small_point(&mut rng) {
        Ok(p) => p,
        Err(e) => { return Err(e); },
    };
    let minus_r2 = r2.neg();
    let pub_key = pub_key_component.add(&minus_r2);
    let ghost goal = non_canonical_r_goal(pub_key@, r@, r_arr@, r2@);

    let first = fill_bytes_32(&mut rng);
    let mut message = first;
    let mut h_encoded = compute_hram(message.as_slice(), &pub_key, &r);
    let mut h_wire = compute_hram_with_r_array(message.as_slice(), &pub_key, r_arr.as_slice());
    let mut hit = torsion_cancels(&r, &h_encoded, &minus_r2) && torsion_cancels(
        &r,
        &h_wire,
        &minus_r2,
    );
    let mut trials: u32 = 0;
    while !hit && trials < SEARCH_BOUND
        invariant
            trials <= SEARCH_BOUND,
            goal == non_canonical_r_goal(pub_key@, r@, r_arr@, r2@),
            minus_r2@ == edwards_neg(r2@),
            hit == goal(message@),
            h_encoded@ == hram(message@, pub_key@, r@),
            h_encoded.canonical(),
            h_wire@ == hram(message@, pub_key@, r_arr@),
            h_wire.canonical(),
            stream_at(rng, 18 + 8 * trials as nat),
            search(goal, message@, 18 + 8 * trials as nat, (SEARCH_BOUND - trials) as nat)
                == search(goal, first@, 18, SEARCH_BOUND as nat),
        decreases SEARCH_BOUND - trials,
    {
        message = fill_bytes_32(&mut rng);
        trials += 1;
        h_encoded = compute_hram(message.as_slice(), &pub_key, &r);
        h_wire = compute_hram_with_r_array(message.as_slice(), &pub_key, r_arr.as_slice());
        hit = torsion_cancels(&r, &h_encoded, &minus_r2) && torsion_cancels(
            &r,
            &h_wire,
            &minus_r2,
        );
    }
    if !hit {
        return Err(Error::SearchExhausted);
    }
    let pub_key_bytes = pub_key.compress();

    let s_encoded = h_encoded.mul(&a);
    let s_wire = h_wire.mul(&a);
    let encoded_alone = check_cell(&pub_key, &(r, s_encoded), &h_encoded, true, true)
        && check_cell(&pub_key, &(r, s_encoded), &h_wire, false, false);
    let wire_alone = check_cell(&pub_key, &(r, s_wire), &h_wire, true, true) && check_cell(
        &pub_key,
        &(r, s_wire),
        &h_encoded,
        false,
        false,
    );
    if !(encoded_alone && wire_alone) {
        return Err(Error::InconsistentVector);
    }
    let tv1 = assemble_raw(message, pub_key_bytes, &r_arr, &s_encoded);
    let tv2 = assemble_raw(message, pub_key_bytes, &r_arr, &s_wire);
    proof {
        lemma_small_order(successor(stream_u64(8)) as nat);
        lemma_mixed(a@, edwards_neg(r2@));
        lemma_order_two_reencoded(r@);
        lemma_small_order(3);
        lemma_order_two_non_canonical();
    }
    vec.push(tv1);
    vec.push(tv2);
    Ok(vec)
}

/// The goal of a search: the negative of the key and its multiple by the
/// challenge cancel when the challenge is hashed from `hashed`, and do not
/// when it is hashed from `other`.
pub open spec fn non_canonical_key_goal(
    pub_key: Seq<u8>,
    r: Seq<u8>,
    hashed: Seq<u8>,
    other: Seq<u8>,
) -> spec_fn(Seq<u8>) -> bool {
    |message: Seq<u8>|
        cancels(edwards_neg(pub_key), hram(message, hashed, r), pub_key) && !cancels(
            edwards_neg(pub_key),
            hram(message, other, r),
            pub_key,
        )
}

/// What `non_zero_mixed_small_non_canonical` returns.
#[verifier::opaque]
pub open spec fn non_zero_mixed_small_non_canonical_spec() -> Result<
    (TestVectorView, TestVectorView),
    Error,
> {
    let key_wire = order_two_non_canonical();
    let s = drawn_scalar(0);
    match decompressed(key_wire) {
        None => Err(Error::PointDecompressionFailure),
        Some(pub_key) => {
            let r = edwards_add(scaled(s, basepoint_encoding()), edwards_neg(pub_key));
            let encoded_goal = non_canonical_key_goal(pub_key, r, pub_key, key_wire);
            let wire_goal = non_canonical_key_goal(pub_key, r, key_wire, pub_key);
            match search(encoded_goal, stream_bytes(8), 16, SEARCH_BOUND as nat) {
                None => Err(Error::SearchExhausted),
                Some((first, words)) => {
                    if !(in_cell(pub_key, r, s, hram(first, pub_key, r), true, true) && in_cell(
                        pub_key,
                        r,
                        s,
                        hram(first, key_wire, r),
                        true,
                        false,
                    )) {
                        Err(Error::InconsistentVector)
                    } else {
                        match search(wire_goal, first, words, SEARCH_BOUND as nat) {
                            None => Err(Error::SearchExhausted),
                            Some((second, _)) => {
                                if !(in_cell(
                                    pub_key,
                                    r,
                                    s,
                                    hram(second, pub_key, r),
                                    true,
                                    false,
                                ) && in_cell(
                                    pub_key,
                                    r,
                                    s,
                                    hram(second, key_wire, r),
                                    true,
                                    true,
                                )) {
                                    Err(Error::InconsistentVector)
                                } else {
                                    Ok(
                                        (
                                            vector_view(first, key_wire, r, s),
                                            vector_view(second, key_wire, r, s),
                                        ),
                                    )
                                }
                            },
                        }
                    }
                },
            }
        },
    }
}

/// Two vectors whose key is the point (0, -1) of order two, written
/// EC FF .. FF, with `R = s B - A` for a scalar `s` from the generator.
/// The cofactored equation accepts both, however the challenge is hashed.
/// The cofactorless equation accepts the first only when the challenge is
/// hashed from the canonical encoding of the key, and the second only when
/// it is hashed from the bytes EC FF .. FF.
pub fn non_zero_mixed_small_non_canonical() -> (out: Result<Vec<TestVector>, Error>)
    ensures
        two_as_specified(out, non_zero_mixed_small_non_canonical_spec()),
        out matches Ok(vectors) ==> {
            &&& vectors@.len() == 2
            &&& vectors@[0]@.pub_key == order_two_non_canonical()
            &&& vectors@[1]@.pub_key == order_two_non_canonical()
            &&& cofactorless_if_reencoded(vectors@[0]@)
            &&& cofactorless_if_on_wire_bytes(vectors@[1]@)
            &&& classes(vectors@[0]@, Class::Small, Class::Mixed)
            &&& classes(vectors@[1]@, Class::Small, Class::Mixed)
            &&& !canonical_point_encoding(vectors@[0]@.pub_key)
            &&& !canonical_point_encoding(vectors@[1]@.pub_key)
            &&& wire_s(vectors@[0]@) < group_order()
            &&& wire_s(vectors@[1]@) < group_order()
        },
{
    proof {
        reveal(non_zero_mixed_small_non_canonical_spec);
    }
    let mut vec: Vec<TestVector> = Vec::new();
    let pub_key_arr: [u8; 32] = EIGHT_TORSION_NON_CANONICAL[2];
    let mut rng = new_rng();
    let s = draw_scalar(&mut rng);
    let r0 = Point::basepoint().mul(&s);
    let pub_key = match deserialize_point(pub_key_arr.as_slice()) {
        Ok(p) => p,
        Err(e) => { return Err(e); },
    };
    let minus_key = pub_key.neg();
    let r = r0.add(&minus_key);
    let signature = (r, s);
    let ghost encoded_goal = non_canonical_key_goal(pub_key@, r@, pub_key@, pub_key_arr@);
    let ghost wire_goal = non_canonical_key_goal(pub_key@, r@, pub_key_arr@, pub_key@);

    // The first message holds when the key is encoded anew.
    let start = fill_bytes_32(&mut rng);
    let mut message = start;
    let mut h_encoded = compute_hram(message.as_slice(), &pub_key, &r);
    let mut h_wire = compute_hram_with_pk_array(message.as_slice(), pub_key_arr.as_slice(), &r);
    let mut hit = torsion_cancels(&minus_key, &h_encoded, &pub_key) && !torsion_cancels(
        &minus_key,
        &h_wire,
        &pub_key,
    );
    let mut trials: u32 = 0;
    while !hit && trials < SEARCH_BOUND
        invariant
            trials <= SEARCH_BOUND,
            encoded_goal == non_canonical_key_goal(pub_key@, r@, pub_key@, pub_key_arr@),
            minus_key@ == edwards_neg(pub_key@),
            hit == encoded_goal(message@),
            h_encoded@ == hram(message@, pub_key@, r@),
            h_wire@ == hram(message@, pub_key_arr@, r@),
            stream_at(rng, 16 + 8 * trials as nat),
            search(
                encoded_goal,
                message@,
                16 + 8 * trials as nat,
                (SEARCH_BOUND - trials) as nat,
            ) == search(encoded_goal, start@, 16, SEARCH_BOUND as nat),
        decreases SEARCH_BOUND - trials,
    {
        message = fill_bytes_32(&mut rng);
        trials += 1;
        h_encoded = compute_hram(message.as_slice(), &pub_key, &r);
        h_wire = compute_hram_with_pk_array(message.as_slice(), pub_key_arr.as_slice(), &r);
        hit = torsion_cancels(&minus_key, &h_encoded, &pub_key) && !torsion_cancels(
            &minus_key,
            &h_wire,
            &pub_key,
        );
    }
    if !hit {
        return Err(Error::SearchExhausted);
    }
    if !(check_cell(&pub_key, &signature, &h_encoded, true, true) && check_cell(
        &pub_key,
        &signature,
        &h_wire,
        true,
        false,
    )) {
        return Err(Error::InconsistentVector);
    }
    let first = message;
    let ghost words: nat = 16 + 8 * trials as nat;
    let tv1 = assemble(first, pub_key_arr, &r, &s);
    vec.push(tv1);

    // The second message holds when the key is hashed as it stands.
    let mut hit = false;
    let mut trials: u32 = 0;
    while !hit && trials < SEARCH_BOUND
        invariant
            trials <= SEARCH_BOUND,
            wire_goal == non_canonical_key_goal(pub_key@, r@, pub_key_arr@, pub_key@),
            minus_key@ == edwards_neg(pub_key@),
            hit == wire_goal(message@),
            h_encoded@ == hram(message@, pub_key@, r@),
            h_wire@ == hram(message@, pub_key_arr@, r@),
            stream_at(rng, words + 8 * trials as nat),
            search(wire_goal, message@, words + 8 * trials as nat, (SEARCH_BOUND - trials) as nat)
                == search(wire_goal, first@, words, SEARCH_BOUND as nat),
        decreases SEARCH_BOUND - trials,
    {
        message = fill_bytes_32(&mut rng);
        trials += 1;
        h_encoded = compute_hram(message.as_slice(), &pub_key, &r);
        h_wire = compute_hram_with_pk_array(message.as_slice(), pub_key_arr.as_slice(), &r);
        hit = torsion_cancels(&minus_key, &h_wire, &pub_key) && !torsion_cancels(
            &minus_key,
            &h_encoded,
            &pub_key,
        );
    }
    if !hit {
        return Err(Error::SearchExhausted);
    }
    if !(check_cell(&pub_key, &signature, &h_encoded, true, false) && check_cell(
        &pub_key,
        &signature,
        &h_wire,
        true,
        true,
    )) {
        return Err(Error::InconsistentVector);
    }
    let tv2 = assemble(message, pub_key_arr, &r, &s);
    vec.push(tv2);
    proof {
        lemma_order_two_reencoded(pub_key@);
        lemma_small_order(3);
        lemma_mixed(s@, edwards_neg(pub_key@));
        lemma_order_two_non_canonical();
    }
    Ok(vec)
}

} // verus!
