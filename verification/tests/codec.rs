use ed25519_speccheck::algorithm2::{
    deserialize_R, deserialize_pk, deserialize_point as deserialize_point_strict, deserialize_s,
    deserialize_signature as deserialize_signature_strict, is_canonical_point_encoding,
    is_canonical_y, is_small_order_case_10, is_small_order_case_9, is_small_order_special_case,
    verify_signature,
};
use ed25519_speccheck::{
    check_slice_size, deserialize_point, deserialize_scalar, deserialize_signature,
    serialize_signature, Error, Point, Scalar, EIGHT_TORSION, EIGHT_TORSION_NON_CANONICAL,
};

const GROUP_ORDER: [u8; 32] = [
    237, 211, 245, 92, 26, 99, 18, 88, 214, 156, 247, 162, 222, 249, 222, 20, 0, 0, 0, 0, 0, 0, 0,
    0, 0, 0, 0, 0, 0, 0, 0, 16,
];

const BASEPOINT: [u8; 32] = [
    0x58, 0x66, 0x66, 0x66, 0x66, 0x66, 0x66, 0x66, 0x66, 0x66, 0x66, 0x66, 0x66, 0x66, 0x66, 0x66,
    0x66, 0x66, 0x66, 0x66, 0x66, 0x66, 0x66, 0x66, 0x66, 0x66, 0x66, 0x66, 0x66, 0x66, 0x66, 0x66,
];

/// The field prime 2^255 - 19 plus `k`, for `k` below 19, with the sign bit as given.
fn prime_plus(k: u8, sign: bool) -> [u8; 32] {
    let mut bytes = [0xffu8; 32];
    bytes[0] = 0xed + k;
    bytes[31] = if sign { 0xff } else { 0x7f };
    bytes
}

#[test]
fn canonical_encoding_needs_32_bytes() {
    assert!(!is_canonical_point_encoding(&[]));
    assert!(!is_canonical_point_encoding(&[0u8; 31]));
    assert!(!is_canonical_point_encoding(&[0u8; 33]));
    assert!(is_canonical_point_encoding(&[0u8; 32]));
}

#[test]
fn y_at_or_above_the_prime_is_not_canonical() {
    for k in 0..19u8 {
        assert!(!is_canonical_y(&prime_plus(k, false)), "p + {}", k);
        assert!(!is_canonical_y(&prime_plus(k, true)), "p + {} with sign", k);
        assert!(!is_canonical_point_encoding(&prime_plus(k, false)));
        assert!(!is_canonical_point_encoding(&prime_plus(k, true)));
    }
}

#[test]
fn y_below_the_prime_is_canonical() {
    // p - 1 without the sign bit: the point of order two.
    let mut below = [0xffu8; 32];
    below[0] = 0xec;
    below[31] = 0x7f;
    assert!(is_canonical_y(&below));
    assert!(is_canonical_point_encoding(&below));
    // One byte in the middle below 0xff.
    for i in 1..31 {
        let mut bytes = [0xffu8; 32];
        bytes[i] = 0xfe;
        assert!(is_canonical_y(&bytes), "byte {}", i);
        assert!(is_canonical_point_encoding(&bytes), "byte {}", i);
    }
    // The last byte below 0x7f, with and without the sign bit.
    let mut bytes = [0xffu8; 32];
    bytes[31] = 0x7e;
    assert!(is_canonical_y(&bytes));
    bytes[31] = 0xfe;
    assert!(is_canonical_y(&bytes));
}

#[test]
fn the_two_patterns_are_not_canonical() {
    let one_with_sign = EIGHT_TORSION_NON_CANONICAL[0];
    let minus_one_with_sign = EIGHT_TORSION_NON_CANONICAL[2];
    assert!(is_canonical_y(&one_with_sign));
    assert!(is_canonical_y(&minus_one_with_sign));
    assert!(is_small_order_case_9(&one_with_sign));
    assert!(!is_small_order_case_10(&one_with_sign));
    assert!(is_small_order_case_10(&minus_one_with_sign));
    assert!(!is_small_order_case_9(&minus_one_with_sign));
    assert!(is_small_order_special_case(&one_with_sign));
    assert!(is_small_order_special_case(&minus_one_with_sign));
    assert!(!is_canonical_point_encoding(&one_with_sign));
    assert!(!is_canonical_point_encoding(&minus_one_with_sign));
}

#[test]
fn near_misses_of_the_patterns_are_canonical() {
    for i in 1..32 {
        let mut bytes = EIGHT_TORSION_NON_CANONICAL[0];
        bytes[i] ^= 1;
        assert!(!is_small_order_special_case(&bytes), "byte {}", i);
        assert!(is_canonical_point_encoding(&bytes), "byte {}", i);
    }
    for i in 1..32 {
        let mut bytes = EIGHT_TORSION_NON_CANONICAL[2];
        bytes[i] ^= 1;
        assert!(!is_small_order_special_case(&bytes), "byte {}", i);
        assert!(is_canonical_point_encoding(&bytes), "byte {}", i);
    }
}

#[test]
fn torsion_table_is_canonical_and_the_other_table_is_not() {
    for entry in EIGHT_TORSION.iter() {
        assert!(is_canonical_point_encoding(entry));
    }
    for entry in EIGHT_TORSION_NON_CANONICAL.iter() {
        assert!(!is_canonical_point_encoding(entry));
    }
}

#[test]
fn canonical_points_round_trip() {
    let mut inputs: Vec<[u8; 32]> = EIGHT_TORSION.to_vec();
    inputs.push(BASEPOINT);
    let mut p = Point::basepoint();
    for _ in 0..50 {
        p = p.add(&Point::basepoint());
        inputs.push(p.compress());
        inputs.push(p.neg().compress());
    }
    for bytes in inputs.iter() {
        assert!(is_canonical_point_encoding(bytes));
        let point = deserialize_point_strict(bytes).unwrap();
        assert_eq!(&point.compress(), bytes);
    }
}

#[test]
fn non_canonical_points_decode_to_canonical_ones() {
    let expected: [[u8; 32]; 6] = [
        EIGHT_TORSION[0],
        EIGHT_TORSION[0],
        EIGHT_TORSION[4],
        EIGHT_TORSION[0],
        EIGHT_TORSION[2],
        EIGHT_TORSION[6],
    ];
    for (bytes, canonical) in EIGHT_TORSION_NON_CANONICAL.iter().zip(expected.iter()) {
        let point = deserialize_point(bytes).unwrap();
        assert_eq!(&point.compress(), canonical);
        assert_ne!(&point.compress(), bytes);
        assert_eq!(deserialize_point_strict(bytes), Err(Error::NonCanonicalPointEncoding));
    }
}

#[test]
fn y_above_the_prime_comes_back_reduced() {
    // y = p + 3 is y = 3, which is on the curve; the sign of x is kept.
    for sign in [false, true] {
        let point = deserialize_point(&prime_plus(3, sign)).unwrap();
        let mut expected = [0u8; 32];
        expected[0] = 3;
        expected[31] = if sign { 0x80 } else { 0 };
        assert_eq!(point.compress(), expected);
        assert_eq!(deserialize_point_strict(&expected).unwrap(), point);
    }
    // y = p + 2 is y = 2, which is not.
    assert_eq!(deserialize_point(&prime_plus(2, false)), Err(Error::PointDecompressionFailure));
}

#[test]
fn sign_of_a_zero_x_comes_back_clear() {
    // y = 1 and y = -1 have x = 0, however the sign bit stands.
    let mut one = [0u8; 32];
    one[0] = 1;
    one[31] = 0x80;
    assert_eq!(deserialize_point(&one).unwrap().compress(), EIGHT_TORSION[0]);
    let mut minus_one = [0xffu8; 32];
    minus_one[0] = 0xec;
    assert_eq!(deserialize_point(&minus_one).unwrap().compress(), EIGHT_TORSION[4]);
    // y = 0 has x = sqrt(-1) or its negative: the sign bit tells them apart.
    let mut zero = [0u8; 32];
    assert_eq!(deserialize_point(&zero).unwrap().compress(), zero);
    zero[31] = 0x80;
    assert_eq!(deserialize_point(&zero).unwrap().compress(), zero);
}

#[test]
fn decompression_fails_where_no_point_is() {
    let mut two = [0u8; 32];
    two[0] = 2;
    assert!(is_canonical_point_encoding(&two));
    assert_eq!(deserialize_point(&two), Err(Error::PointDecompressionFailure));
    assert_eq!(deserialize_point_strict(&two), Err(Error::PointDecompressionFailure));
    assert_eq!(deserialize_R(&two), Err(Error::PointDecompressionFailure));
    assert_eq!(deserialize_pk(&two), Err(Error::PointDecompressionFailure));
    assert!(Point::decompress(&two).is_none());
}

#[test]
fn wrong_lengths_are_reported() {
    assert_eq!(
        check_slice_size(&[0u8; 5], 4, "field"),
        Err(Error::InvalidLength { name: "field", expected: 4, actual: 5 })
    );
    let slice = [1u8, 2, 3];
    assert_eq!(check_slice_size(&slice, 3, "field"), Ok(&slice[..]));
    assert_eq!(check_slice_size(&[], 0, "field"), Ok(&[][..]));
    assert_eq!(
        deserialize_point(&[0u8; 31]),
        Err(Error::InvalidLength { name: "pt", expected: 32, actual: 31 })
    );
    assert_eq!(
        deserialize_point_strict(&[0u8; 33]),
        Err(Error::InvalidLength { name: "pt", expected: 32, actual: 33 })
    );
    assert_eq!(
        deserialize_scalar(&[0u8; 64]),
        Err(Error::InvalidLength { name: "scalar", expected: 32, actual: 64 })
    );
    assert_eq!(
        deserialize_s(&[]),
        Err(Error::InvalidLength { name: "scalar", expected: 32, actual: 0 })
    );
    assert_eq!(
        deserialize_signature(&[0u8; 63]),
        Err(Error::InvalidLength { name: "sig_bytes", expected: 64, actual: 63 })
    );
    assert_eq!(
        deserialize_signature_strict(&[0u8; 65]),
        Err(Error::InvalidLength { name: "sig_bytes", expected: 64, actual: 65 })
    );
}

#[test]
fn strict_scalars_are_below_the_group_order() {
    let mut below = GROUP_ORDER;
    below[0] -= 1;
    assert_eq!(deserialize_s(&below), Ok(Scalar { bytes: below }));
    assert_eq!(deserialize_s(&[0u8; 32]), Ok(Scalar::zero()));
    assert_eq!(deserialize_s(&GROUP_ORDER), Err(Error::NonCanonicalScalar));
    let mut above = GROUP_ORDER;
    above[0] += 1;
    assert_eq!(deserialize_s(&above), Err(Error::NonCanonicalScalar));
    assert_eq!(deserialize_s(&[0xffu8; 32]), Err(Error::NonCanonicalScalar));
    let mut high_bit = [0u8; 32];
    high_bit[31] = 0x80;
    assert_eq!(deserialize_s(&high_bit), Err(Error::NonCanonicalScalar));
}

#[test]
fn permissive_scalars_are_taken_as_they_are() {
    for bytes in [[0u8; 32], GROUP_ORDER, [0xffu8; 32], [0x80u8; 32]] {
        let scalar = deserialize_scalar(&bytes).unwrap();
        assert_eq!(scalar.bytes, bytes);
        assert_eq!(scalar.to_bytes(), bytes);
    }
    assert!(!deserialize_scalar(&GROUP_ORDER).unwrap().is_canonical());
    assert!(deserialize_scalar(&[0u8; 32]).unwrap().is_canonical());
}

#[test]
fn signatures_are_r_then_s() {
    let r = deserialize_point(&EIGHT_TORSION[1]).unwrap();
    let s = Scalar { bytes: GROUP_ORDER };
    let bytes = serialize_signature(&r, &s);
    assert_eq!(bytes.len(), 64);
    assert_eq!(bytes[..32], EIGHT_TORSION[1]);
    assert_eq!(bytes[32..], GROUP_ORDER);
    // The permissive decoder gives both back; the strict one stops at the scalar.
    assert_eq!(deserialize_signature(&bytes), Ok((r, s)));
    assert_eq!(deserialize_signature_strict(&bytes), Err(Error::NonCanonicalScalar));
}

#[test]
fn strict_signature_looks_at_the_scalar_first() {
    let mut bytes = [0u8; 64];
    // R is not canonical and the scalar is not canonical: the scalar is reported.
    bytes[..32].copy_from_slice(&EIGHT_TORSION_NON_CANONICAL[2]);
    bytes[32..].copy_from_slice(&GROUP_ORDER);
    assert_eq!(deserialize_signature_strict(&bytes), Err(Error::NonCanonicalScalar));
    // With a canonical scalar the encoding of R is reported.
    bytes[32] -= 1;
    assert_eq!(deserialize_signature_strict(&bytes), Err(Error::NonCanonicalPointEncoding));
    // With a canonical R that is no point, the decompression is reported.
    bytes[..32].copy_from_slice(&[0u8; 32]);
    bytes[0] = 2;
    assert_eq!(deserialize_signature_strict(&bytes), Err(Error::PointDecompressionFailure));
    // With a point, the result is the scalar and the point, in this order.
    bytes[..32].copy_from_slice(&BASEPOINT);
    let (s, r) = deserialize_signature_strict(&bytes).unwrap();
    assert_eq!(r, Point::basepoint());
    assert_eq!(s.bytes[..], bytes[32..]);
    // The permissive decoder reports what it finds in R first.
    bytes[..32].copy_from_slice(&[0u8; 32]);
    bytes[0] = 2;
    assert_eq!(deserialize_signature(&bytes), Err(Error::PointDecompressionFailure));
}

#[test]
fn single_signature_algorithm_rejects_small_keys() {
    // A valid signature under the cofactored equation, by a key of small order.
    let key = deserialize_point(&EIGHT_TORSION[4]).unwrap();
    let s = Scalar::from_bytes_mod_order([7u8; 32]);
    let r = Point::basepoint().mul(&s);
    let message = b"any message";
    assert!(ed25519_speccheck::verify_cofactored(message, &key, &(r, s)).is_ok());
    assert!(!verify_signature(&s, &r, message, &key));
}

#[test]
fn single_signature_algorithm_accepts_an_ordinary_signature() {
    // a = 3, r = 5, A = 3 B, R = 5 B, s = r + h a.
    let mut three = [0u8; 32];
    three[0] = 3;
    let mut five = [0u8; 32];
    five[0] = 5;
    let a = Scalar { bytes: three };
    let nonce = Scalar { bytes: five };
    let key = Point::basepoint().mul(&a);
    let r = Point::basepoint().mul(&nonce);
    let message = b"attack at dawn";
    let h = ed25519_speccheck::compute_hram(message, &key, &r);
    let s = nonce.add(&h.mul(&a));
    assert!(verify_signature(&s, &r, message, &key));
    assert!(!verify_signature(&s, &r, b"attack at dusk", &key));
    assert!(!verify_signature(&nonce, &r, message, &key));
}
