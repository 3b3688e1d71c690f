use ed25519_speccheck::non_reducing_scalar52::{
    add_group_order, high_bits_clear, raise_past_high_bits, Scalar52,
};

const GROUP_ORDER: [u8; 32] = [
    237, 211, 245, 92, 26, 99, 18, 88, 214, 156, 247, 162, 222, 249, 222, 20, 0, 0, 0, 0, 0, 0, 0,
    0, 0, 0, 0, 0, 0, 0, 0, 16,
];

const MASK: u64 = (1u64 << 52) - 1;

#[test]
fn group_order_in_limbs() {
    let l = Scalar52::group_order();
    assert_eq!(
        l.0,
        [0x0002631a5cf5d3ed, 0x000dea2f79cd6581, 0x000000000014def9, 0, 0x0000100000000000]
    );
    assert_eq!(l.to_bytes(), GROUP_ORDER);
    assert_eq!(Scalar52::from_bytes(&GROUP_ORDER), l);
}

#[test]
fn zero_in_limbs() {
    assert_eq!(Scalar52::zero().0, [0u64; 5]);
    assert_eq!(Scalar52::zero().to_bytes(), [0u8; 32]);
    assert_eq!(Scalar52::from_bytes(&[0u8; 32]), Scalar52::zero());
}

#[test]
fn limbs_take_52_bits_each() {
    // All bits set: four full limbs and 48 bits in the last.
    let all = Scalar52::from_bytes(&[0xffu8; 32]);
    assert_eq!(all.0, [MASK, MASK, MASK, MASK, (1u64 << 48) - 1]);
    // One bit at a time lands in the limb and at the place that its weight says.
    for bit in 0..256usize {
        let mut bytes = [0u8; 32];
        bytes[bit / 8] = 1 << (bit % 8);
        let s = Scalar52::from_bytes(&bytes);
        let mut expected = [0u64; 5];
        expected[bit / 52] = 1u64 << (bit % 52);
        assert_eq!(s.0, expected, "bit {}", bit);
        assert_eq!(s.to_bytes(), bytes, "bit {}", bit);
    }
}

#[test]
fn bytes_round_trip() {
    let mut bytes = [0u8; 32];
    for (i, b) in bytes.iter_mut().enumerate() {
        *b = (i as u8).wrapping_mul(37).wrapping_add(11);
    }
    assert_eq!(Scalar52::from_bytes(&bytes).to_bytes(), bytes);
    assert_eq!(Scalar52::from_bytes(&[0xffu8; 32]).to_bytes(), [0xffu8; 32]);
}

#[test]
fn to_bytes_drops_what_is_above_256_bits() {
    let s = Scalar52([1, 0, 0, 0, MASK]);
    let mut expected = [0u8; 32];
    expected[0] = 1;
    for b in expected[26..].iter_mut() {
        *b = 0xff;
    }
    assert_eq!(s.to_bytes(), expected);
}

#[test]
fn addition_carries_between_limbs() {
    let one = Scalar52([1, 0, 0, 0, 0]);
    let full = Scalar52([MASK, MASK, 0, 0, 0]);
    assert_eq!(Scalar52::add(&full, &one).0, [0, 0, 1, 0, 0]);
    assert_eq!(Scalar52::add(&one, &one).0, [2, 0, 0, 0, 0]);
    assert_eq!(Scalar52::add(&Scalar52::zero(), &full), full);
}

#[test]
fn addition_wraps_at_260_bits_only() {
    let top = Scalar52([MASK, MASK, MASK, MASK, MASK]);
    let one = Scalar52([1, 0, 0, 0, 0]);
    assert_eq!(Scalar52::add(&top, &one), Scalar52::zero());
    assert_eq!(Scalar52::add(&top, &top).0, [MASK - 1, MASK, MASK, MASK, MASK]);
}

#[test]
fn adding_the_group_order_does_not_reduce() {
    let mut five = [0u8; 32];
    five[0] = 5;
    let s = Scalar52::from_bytes(&five);
    let l = Scalar52::group_order();
    let once = Scalar52::add(&s, &l);
    let mut expected = GROUP_ORDER;
    expected[0] += 5;
    assert_eq!(once.to_bytes(), expected);
    // Twice the group order plus five is 2^253 + 2 * 27742317777372353535851937790883648493 + 5.
    let twice = Scalar52::add(&once, &l);
    let expected_twice: [u8; 32] = [
        223, 167, 235, 185, 52, 198, 36, 176, 172, 57, 239, 69, 189, 243, 189, 41, 0, 0, 0, 0, 0,
        0, 0, 0, 0, 0, 0, 0, 0, 0, 0, 32,
    ];
    assert_eq!(twice.to_bytes(), expected_twice);
    // The group order itself added to itself.
    let double = Scalar52::add(&l, &l);
    let expected_double: [u8; 32] = [
        218, 167, 235, 185, 52, 198, 36, 176, 172, 57, 239, 69, 189, 243, 189, 41, 0, 0, 0, 0, 0,
        0, 0, 0, 0, 0, 0, 0, 0, 0, 0, 32,
    ];
    assert_eq!(double.to_bytes(), expected_double);
}

fn small(n: u8) -> [u8; 32] {
    let mut bytes = [0u8; 32];
    bytes[0] = n;
    bytes
}

/// Twice the group order, 2^253 + 2 * 27742317777372353535851937790883648493.
const TWICE_GROUP_ORDER: [u8; 32] = [
    218, 167, 235, 185, 52, 198, 36, 176, 172, 57, 239, 69, 189, 243, 189, 41, 0, 0, 0, 0, 0, 0, 0,
    0, 0, 0, 0, 0, 0, 0, 0, 32,
];

#[test]
fn group_order_is_added_without_reduction() {
    assert_eq!(add_group_order(&[0u8; 32]), GROUP_ORDER);
    let mut expected = GROUP_ORDER;
    expected[0] += 5;
    assert_eq!(add_group_order(&small(5)), expected);
    assert_eq!(add_group_order(&GROUP_ORDER), TWICE_GROUP_ORDER);
    // Above 256 bits the sum wraps: 2^256 - 1 + L is L - 1 modulo 2^256.
    let mut wrapped = GROUP_ORDER;
    wrapped[0] -= 1;
    assert_eq!(add_group_order(&[0xffu8; 32]), wrapped);
}

#[test]
fn high_bits_are_the_three_highest() {
    assert!(high_bits_clear(&[0u8; 32]));
    assert!(high_bits_clear(&GROUP_ORDER));
    assert!(!high_bits_clear(&TWICE_GROUP_ORDER));
    for bit in 0..8u8 {
        let mut bytes = [0xffu8; 32];
        bytes[31] = 1 << bit;
        assert_eq!(high_bits_clear(&bytes), bit < 5, "bit {}", bit);
    }
    // The largest integer below 2^253.
    let mut bytes = [0xffu8; 32];
    bytes[31] = 0x1f;
    assert!(high_bits_clear(&bytes));
}

#[test]
fn scalars_are_raised_past_the_high_bits() {
    // Below the group order it takes two steps, but for the largest: L - 1 + L is above 2^253.
    assert_eq!(raise_past_high_bits(&[0u8; 32]), TWICE_GROUP_ORDER);
    let mut expected = TWICE_GROUP_ORDER;
    expected[0] += 5;
    assert_eq!(raise_past_high_bits(&small(5)), expected);
    let mut largest = GROUP_ORDER;
    largest[0] -= 1;
    let mut expected = TWICE_GROUP_ORDER;
    expected[0] -= 1;
    assert_eq!(raise_past_high_bits(&largest), expected);
    // From the group order on one step is enough.
    assert_eq!(raise_past_high_bits(&GROUP_ORDER), TWICE_GROUP_ORDER);
    // At or above 2^253 nothing is added.
    assert_eq!(raise_past_high_bits(&TWICE_GROUP_ORDER), TWICE_GROUP_ORDER);
    assert_eq!(raise_past_high_bits(&[0xffu8; 32]), [0xffu8; 32]);
    // The largest integer below 2^253 goes up by one group order.
    let mut below = [0xffu8; 32];
    below[31] = 0x1f;
    let expected: [u8; 32] = [
        236, 211, 245, 92, 26, 99, 18, 88, 214, 156, 247, 162, 222, 249, 222, 20, 0, 0, 0, 0, 0,
        0, 0, 0, 0, 0, 0, 0, 0, 0, 0, 48,
    ];
    assert_eq!(raise_past_high_bits(&below), expected);
}
