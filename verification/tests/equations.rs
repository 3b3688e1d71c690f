use ed25519_speccheck::verification::{
    verify_final_cofactored, verify_final_cofactorless, verify_final_pre_reduced_cofactored,
};
use ed25519_speccheck::{
    compute_hram, deserialize_point, verify_cofactored, verify_cofactorless,
    verify_pre_reduced_cofactored, Equation, Error, Point, Scalar, EIGHT_TORSION,
};

fn small(n: u8) -> Scalar {
    let mut bytes = [0u8; 32];
    bytes[0] = n;
    Scalar { bytes }
}

/// An ordinary signature: A = a B, R = r B, s = r + h a.
fn ordinary(message: &[u8]) -> (Point, (Point, Scalar)) {
    let a = small(11);
    let nonce = small(42);
    let key = Point::basepoint().mul(&a);
    let r = Point::basepoint().mul(&nonce);
    let h = compute_hram(message, &key, &r);
    (key, (r, nonce.add(&h.mul(&a))))
}

#[test]
fn ordinary_signature_passes_every_equation() {
    let message = b"ordinary";
    let (key, signature) = ordinary(message);
    assert_eq!(verify_cofactored(message, &key, &signature), Ok(()));
    assert_eq!(verify_cofactorless(message, &key, &signature), Ok(()));
    assert_eq!(verify_pre_reduced_cofactored(message, &key, &signature), Ok(()));
}

#[test]
fn each_equation_names_itself_when_it_rejects() {
    let message = b"ordinary";
    let (key, signature) = ordinary(message);
    let other = b"another message";
    assert_eq!(
        verify_cofactored(other, &key, &signature),
        Err(Error::VerificationFailure(Equation::Cofactored))
    );
    assert_eq!(
        verify_cofactorless(other, &key, &signature),
        Err(Error::VerificationFailure(Equation::Cofactorless))
    );
    assert_eq!(
        verify_pre_reduced_cofactored(other, &key, &signature),
        Err(Error::VerificationFailure(Equation::PreReducedCofactored))
    );
}

#[test]
fn equations_on_a_given_challenge() {
    let message = b"ordinary";
    let (key, signature) = ordinary(message);
    let h = compute_hram(message, &key, &signature.0);
    assert_eq!(verify_final_cofactored(&key, &signature, &h), Ok(()));
    assert_eq!(verify_final_cofactorless(&key, &signature, &h), Ok(()));
    assert_eq!(verify_final_pre_reduced_cofactored(&key, &signature, &h), Ok(()));
    let wrong = h.add(&small(1));
    assert_eq!(
        verify_final_cofactored(&key, &signature, &wrong),
        Err(Error::VerificationFailure(Equation::Cofactored))
    );
    assert_eq!(
        verify_final_cofactorless(&key, &signature, &wrong),
        Err(Error::VerificationFailure(Equation::Cofactorless))
    );
    assert_eq!(
        verify_final_pre_reduced_cofactored(&key, &signature, &wrong),
        Err(Error::VerificationFailure(Equation::PreReducedCofactored))
    );
}

#[test]
fn torsion_in_r_passes_the_cofactored_equation_only() {
    let message = b"ordinary";
    let (key, (r, s)) = ordinary(message);
    let h = compute_hram(message, &key, &r);
    // R + T for a point T of order eight: the challenge is kept as it was.
    let t = deserialize_point(&EIGHT_TORSION[1]).unwrap();
    let signature = (r.add(&t), s);
    assert_eq!(verify_final_cofactored(&key, &signature, &h), Ok(()));
    assert_eq!(
        verify_final_cofactorless(&key, &signature, &h),
        Err(Error::VerificationFailure(Equation::Cofactorless))
    );
    assert_eq!(verify_final_pre_reduced_cofactored(&key, &signature, &h), Ok(()));
}

#[test]
fn pre_reduction_differs_where_the_key_has_torsion() {
    // A = a B + T with T of order eight, R = r B, s = r + h a: the residue of
    // the equation is h T, which the cofactor clears; multiplied first, it is
    // (8 h mod L) T, which is the neutral element only if 8 h mod L is a
    // multiple of eight.
    let a = small(11);
    let nonce = small(42);
    let t = deserialize_point(&EIGHT_TORSION[1]).unwrap();
    let key = Point::basepoint().mul(&a).add(&t);
    let r = Point::basepoint().mul(&nonce);
    let mut seen = [false; 2];
    for i in 0..64u8 {
        let message = [i; 4];
        let h = compute_hram(&message, &key, &r);
        let signature = (r, nonce.add(&h.mul(&a)));
        assert_eq!(verify_final_cofactored(&key, &signature, &h), Ok(()));
        let multiple = ed25519_speccheck::multiple_of_eight_le(ed25519_speccheck::eight().mul(&h));
        assert_eq!(
            verify_final_pre_reduced_cofactored(&key, &signature, &h).is_ok(),
            multiple,
            "message {}",
            i
        );
        seen[multiple as usize] = true;
    }
    assert_eq!(seen, [true, true]);
}

#[test]
fn scalar_plus_group_order_passes_as_well() {
    let message = b"ordinary";
    let (key, (r, s)) = ordinary(message);
    let raised = ed25519_speccheck::non_reducing_scalar52::Scalar52::add(
        &ed25519_speccheck::non_reducing_scalar52::Scalar52::from_bytes(&s.bytes),
        &ed25519_speccheck::non_reducing_scalar52::Scalar52::group_order(),
    );
    let s_prime = ed25519_speccheck::deserialize_scalar(&raised.to_bytes()).unwrap();
    assert_ne!(s_prime, s);
    assert!(!s_prime.is_canonical());
    assert_eq!(s_prime.reduce(), s);
    assert_eq!(verify_cofactored(message, &key, &(r, s_prime)), Ok(()));
    assert_eq!(verify_cofactorless(message, &key, &(r, s_prime)), Ok(()));
}

#[test]
fn torsion_cancels_where_the_challenge_fits_the_order() {
    let t = deserialize_point(&EIGHT_TORSION[1]).unwrap();
    let minus_t = t.neg();
    // -T + h T is the neutral element exactly for h = 1 modulo 8.
    for h in 0..32u8 {
        assert_eq!(
            ed25519_speccheck::test_vectors::search::torsion_cancels(&minus_t, &small(h), &t),
            h % 8 == 1,
            "challenge {}",
            h
        );
    }
    // For the point of order two every odd challenge will do.
    let t = deserialize_point(&EIGHT_TORSION[4]).unwrap();
    for h in 0..8u8 {
        assert_eq!(
            ed25519_speccheck::test_vectors::search::torsion_cancels(&t.neg(), &small(h), &t),
            h % 2 == 1
        );
    }
}

#[test]
fn cells_are_compared_with_both_equations() {
    let message = b"ordinary";
    let (key, (r, s)) = ordinary(message);
    let h = compute_hram(message, &key, &r);
    let check = ed25519_speccheck::test_vectors::outcome::check_cell;
    assert!(check(&key, &(r, s), &h, true, true));
    assert!(!check(&key, &(r, s), &h, true, false));
    assert!(!check(&key, &(r, s), &h, false, true));
    assert!(!check(&key, &(r, s), &h, false, false));
    // With torsion in R only the cofactored equation holds.
    let t = deserialize_point(&EIGHT_TORSION[3]).unwrap();
    assert!(check(&key, &(r.add(&t), s), &h, true, false));
    assert!(!check(&key, &(r.add(&t), s), &h, true, true));
    // With another scalar neither holds.
    assert!(check(&key, &(r, s.add(&small(1))), &h, false, false));
}
