use ed25519_speccheck::hashing::{hash_bytes_to_scalar, hash_nonce, hash_to_scalar};
use ed25519_speccheck::{
    compute_hram, compute_hram_with_pk_array, compute_hram_with_r_array, deserialize_point, eight,
    multiple_of_eight_le, new_rng, pick_small_nonzero_point, Point, Scalar, EIGHT_TORSION,
    EIGHT_TORSION_NON_CANONICAL,
};
use rand::RngCore;

const GROUP_ORDER: [u8; 32] = [
    237, 211, 245, 92, 26, 99, 18, 88, 214, 156, 247, 162, 222, 249, 222, 20, 0, 0, 0, 0, 0, 0, 0,
    0, 0, 0, 0, 0, 0, 0, 0, 16,
];

fn small(n: u8) -> Scalar {
    let mut bytes = [0u8; 32];
    bytes[0] = n;
    Scalar { bytes }
}

fn torsion(i: usize) -> Point {
    deserialize_point(&EIGHT_TORSION[i]).unwrap()
}

fn identity() -> Point {
    torsion(0)
}

#[test]
fn basepoint_has_the_known_encoding() {
    let mut expected = [0x66u8; 32];
    expected[0] = 0x58;
    assert_eq!(Point::basepoint().compress(), expected);
    assert!(!Point::basepoint().is_identity());
    assert!(!Point::basepoint().is_small_order());
}

#[test]
fn identity_is_recognised() {
    assert!(identity().is_identity());
    assert!(identity().is_small_order());
    for i in 1..8 {
        assert!(!torsion(i).is_identity(), "entry {}", i);
    }
    // Every encoding of the neutral element decodes to it.
    for i in [0usize, 1, 3] {
        assert!(deserialize_point(&EIGHT_TORSION_NON_CANONICAL[i]).unwrap().is_identity());
    }
}

#[test]
fn torsion_subgroup_is_cyclic() {
    let generator = torsion(1);
    let mut multiple = identity();
    for i in 0..8usize {
        assert_eq!(multiple.compress(), EIGHT_TORSION[i], "multiple {}", i);
        assert_eq!(generator.mul(&small(i as u8)).compress(), EIGHT_TORSION[i], "multiple {}", i);
        multiple = multiple.add(&generator);
    }
    assert!(multiple.is_identity());
}

#[test]
fn negation_mirrors_the_torsion_table() {
    for i in 0..8usize {
        assert_eq!(torsion(i).neg().compress(), EIGHT_TORSION[(8 - i) % 8]);
        assert!(torsion(i).add(&torsion(i).neg()).is_identity());
    }
    let b = Point::basepoint();
    assert_ne!(b.neg(), b);
    assert_eq!(b.neg().neg(), b);
}

#[test]
fn subtraction_undoes_addition() {
    let b = Point::basepoint();
    let t = torsion(3);
    assert_eq!(b.add(&t).sub(&t), b);
    assert_ne!(b.add(&t), b);
    assert!(b.sub(&b).is_identity());
    assert_eq!(torsion(5).sub(&torsion(2)).compress(), EIGHT_TORSION[3]);
    assert_eq!(b.sub(&t), b.add(&t.neg()));
}

#[test]
fn scalar_multiples_of_the_basepoint() {
    let b = Point::basepoint();
    assert!(b.mul(&small(0)).is_identity());
    assert_eq!(b.mul(&small(1)), b);
    assert_eq!(b.mul(&small(2)), b.add(&b));
    assert_eq!(b.mul(&small(3)), b.add(&b).add(&b));
    // The group order takes the basepoint to the neutral element.
    assert!(b.mul(&Scalar { bytes: GROUP_ORDER }).is_identity());
    // One more than the group order gives the basepoint back.
    let mut next = GROUP_ORDER;
    next[0] += 1;
    assert_eq!(b.mul(&Scalar { bytes: next }), b);
}

#[test]
fn point_arithmetic_takes_the_low_255_bits_of_a_scalar() {
    let mut with_high_bit = [0u8; 32];
    with_high_bit[0] = 3;
    with_high_bit[31] = 0x80;
    let b = Point::basepoint();
    assert_eq!(b.mul(&Scalar { bytes: with_high_bit }), b.mul(&small(3)));
    assert_eq!(Scalar::from_bits(with_high_bit), small(3));
    assert_eq!(Scalar::from_bits([0xffu8; 32]).bytes[31], 0x7f);
}

#[test]
fn cofactor_clears_the_torsion() {
    for i in 0..8usize {
        assert!(torsion(i).mul_by_cofactor().is_identity());
        assert!(torsion(i).is_small_order());
    }
    let b = Point::basepoint();
    assert_eq!(b.mul_by_cofactor(), b.mul(&small(8)));
    let mixed = b.add(&torsion(1));
    assert!(!mixed.is_small_order());
    assert_eq!(mixed.mul_by_cofactor(), b.mul(&small(8)));
}

#[test]
fn double_scalar_multiplication() {
    let b = Point::basepoint();
    let t = torsion(1);
    let zero = Scalar::zero();
    assert_eq!(Point::vartime_double_scalar_mul_basepoint(&zero, &t, &small(1)), b);
    assert_eq!(Point::vartime_double_scalar_mul_basepoint(&small(1), &t, &zero), t);
    assert!(Point::vartime_double_scalar_mul_basepoint(&zero, &t, &zero).is_identity());
    assert_eq!(
        Point::vartime_double_scalar_mul_basepoint(&small(3), &t, &small(5)),
        t.mul(&small(3)).add(&b.mul(&small(5)))
    );
}

#[test]
fn small_nonzero_points_by_index() {
    for idx in 0..21u64 {
        let point = pick_small_nonzero_point(idx).unwrap();
        assert_eq!(point.compress(), EIGHT_TORSION[(idx % 7 + 1) as usize]);
        assert!(!point.is_identity());
        assert!(point.is_small_order());
    }
    assert_eq!(
        pick_small_nonzero_point(u64::MAX).unwrap().compress(),
        EIGHT_TORSION[(u64::MAX % 7 + 1) as usize]
    );
}

#[test]
fn scalars_reduce_modulo_the_group_order() {
    assert_eq!(Scalar::from_bytes_mod_order(GROUP_ORDER), Scalar::zero());
    let mut next = GROUP_ORDER;
    next[0] += 1;
    assert_eq!(Scalar::from_bytes_mod_order(next), small(1));
    assert_eq!(Scalar::from_bytes_mod_order([9u8; 32]), Scalar { bytes: [9u8; 32] });
    // 2^256 - 1 modulo the group order.
    let expected: [u8; 32] = [
        28, 149, 152, 141, 116, 49, 236, 214, 112, 207, 125, 115, 244, 91, 239, 198, 254, 255,
        255, 255, 255, 255, 255, 255, 255, 255, 255, 255, 255, 255, 255, 15,
    ];
    assert_eq!(Scalar::from_bytes_mod_order([0xffu8; 32]).bytes, expected);
    assert_eq!(Scalar { bytes: [0xffu8; 32] }.reduce().bytes, expected);
    // 2^512 - 1 modulo the group order.
    let expected_wide: [u8; 32] = [
        0, 15, 156, 68, 227, 17, 6, 164, 71, 147, 133, 104, 167, 27, 14, 208, 101, 190, 245, 23,
        210, 115, 236, 206, 61, 154, 48, 124, 27, 65, 153, 3,
    ];
    assert_eq!(Scalar::from_bytes_mod_order_wide(&[0xffu8; 64]).bytes, expected_wide);
    let mut low_only = [0u8; 64];
    low_only[..32].copy_from_slice(&next);
    assert_eq!(Scalar::from_bytes_mod_order_wide(&low_only), small(1));
}

#[test]
fn canonical_scalars() {
    let mut below = GROUP_ORDER;
    below[0] -= 1;
    assert_eq!(Scalar::from_canonical_bytes(below), Some(Scalar { bytes: below }));
    assert_eq!(Scalar::from_canonical_bytes(GROUP_ORDER), None);
    assert_eq!(Scalar::from_canonical_bytes([0xffu8; 32]), None);
    assert!(Scalar { bytes: below }.is_canonical());
    assert!(!Scalar { bytes: GROUP_ORDER }.is_canonical());
    assert!(Scalar::zero().is_canonical());
}

#[test]
fn scalar_arithmetic_is_modulo_the_group_order() {
    let mut minus_one = GROUP_ORDER;
    minus_one[0] -= 1;
    let minus_one = Scalar { bytes: minus_one };
    assert_eq!(small(3).mul(&small(5)), small(15));
    assert_eq!(small(3).add(&small(5)), small(8));
    assert_eq!(minus_one.add(&small(1)), Scalar::zero());
    assert_eq!(minus_one.add(&small(3)), small(2));
    assert_eq!(minus_one.mul(&minus_one), small(1));
    assert_eq!(minus_one.mul(&small(2)).add(&small(2)), Scalar::zero());
    // Scalars at or above the group order count by their residue.
    let order = Scalar { bytes: GROUP_ORDER };
    assert_eq!(order.mul(&small(7)), Scalar::zero());
    assert_eq!(order.add(&small(7)), small(7));
}

#[test]
fn eight_is_eight() {
    assert_eq!(eight(), small(8));
    assert!(multiple_of_eight_le(eight()));
    assert!(multiple_of_eight_le(Scalar::zero()));
    assert!(multiple_of_eight_le(small(16)));
    assert!(!multiple_of_eight_le(small(4)));
    assert!(!multiple_of_eight_le(small(9)));
    // Only the lowest byte counts.
    let mut bytes = [0xffu8; 32];
    bytes[0] = 0xf8;
    assert!(multiple_of_eight_le(Scalar { bytes }));
}

#[test]
fn hashing_to_a_scalar() {
    // SHA-512 of the empty string, as a little-endian integer modulo the group order.
    let expected_empty: [u8; 32] = [
        158, 245, 160, 234, 147, 103, 142, 183, 141, 105, 179, 51, 103, 225, 41, 84, 59, 13, 133,
        32, 18, 44, 66, 231, 223, 233, 209, 151, 127, 108, 58, 12,
    ];
    assert_eq!(hash_bytes_to_scalar(&[]).bytes, expected_empty);
    assert_eq!(hash_to_scalar(&[], &[], &[]).bytes, expected_empty);
    // SHA-512 of 32 bytes 01, 32 bytes 02 and "abc".
    let expected: [u8; 32] = [
        184, 151, 166, 206, 31, 185, 205, 231, 141, 79, 51, 115, 126, 159, 201, 173, 182, 241, 42,
        161, 138, 117, 82, 149, 215, 246, 106, 51, 158, 164, 221, 3,
    ];
    assert_eq!(hash_to_scalar(&[1u8; 32], &[2u8; 32], b"abc").bytes, expected);
    assert_eq!(hash_nonce(&[1u8; 32], &[[2u8; 32].as_slice(), b"abc"].concat()).bytes, expected);
    // The order of the parts matters.
    assert_ne!(hash_to_scalar(&[2u8; 32], &[1u8; 32], b"abc").bytes, expected);
}

#[test]
fn challenge_is_hashed_from_r_then_key_then_message() {
    let key = Point::basepoint();
    let r = torsion(1);
    let message = b"message";
    let expected = hash_to_scalar(&EIGHT_TORSION[1], &key.compress(), message);
    assert_eq!(compute_hram(message, &key, &r), expected);
    assert_eq!(compute_hram_with_r_array(message, &key, &EIGHT_TORSION[1]), expected);
    assert_eq!(compute_hram_with_pk_array(message, &key.compress(), &r), expected);
    assert_ne!(compute_hram(message, &r, &key), expected);
}

#[test]
fn challenge_differs_with_the_bytes_that_are_hashed() {
    let wire = EIGHT_TORSION_NON_CANONICAL[2];
    let point = deserialize_point(&wire).unwrap();
    let other = Point::basepoint();
    let message = b"message";
    assert_ne!(
        compute_hram(message, &other, &point),
        compute_hram_with_r_array(message, &other, &wire)
    );
    assert_ne!(
        compute_hram(message, &point, &other),
        compute_hram_with_pk_array(message, &wire, &other)
    );
}

#[test]
fn generator_starts_from_the_fixed_seed() {
    let mut first = new_rng();
    let mut second = new_rng();
    let mut a = [0u8; 32];
    let mut b = [0u8; 32];
    first.fill_bytes(&mut a);
    second.fill_bytes(&mut b);
    assert_eq!(a, b);
    assert_ne!(a, [0u8; 32]);
    assert_eq!(first.next_u64(), second.next_u64());
    first.fill_bytes(&mut a);
    assert_ne!(a, b);
    // The same generator as `StdRng` seeded with the bytes of pi, four times over.
    let mut seed = [0u8; 32];
    for i in 0..4 {
        seed[8 * i..8 * i + 8].copy_from_slice(&std::f64::consts::PI.to_le_bytes()[..]);
    }
    let mut reference: rand::rngs::StdRng = rand::SeedableRng::from_seed(seed);
    let mut fresh = new_rng();
    assert_eq!(reference.next_u64(), fresh.next_u64());
}
