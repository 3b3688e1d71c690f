//! Little-endian integers over byte sequences.
use vstd::prelude::*;

verus! {

/// The integer that `bytes[i..]` spells in little-endian order.
pub open spec fn le_nat_from(bytes: Seq<u8>, i: int) -> nat
    decreases bytes.len() - i,
{
    if 0 <= i < bytes.len() {
        bytes[i] as nat + 256 * le_nat_from(bytes, i + 1)
    } else {
        0
    }
}

/// The integer that `bytes` spells in little-endian order.
pub open spec fn le_nat(bytes: Seq<u8>) -> nat {
    le_nat_from(bytes, 0)
}

/// 2^248, the weight of the last of 32 bytes.
pub open spec fn pow2_248() -> nat {
    0x100000000000000000000000000000000000000000000000000000000000000nat
}

/// 2^255.
pub open spec fn pow2_255() -> nat {
    0x8000000000000000000000000000000000000000000000000000000000000000nat
}

/// 2^256.
pub open spec fn pow2_256() -> nat {
    0x10000000000000000000000000000000000000000000000000000000000000000nat
}

/// The order of the prime-order subgroup of the curve,
/// 2^252 + 27742317777372353535851937790883648493.
pub open spec fn group_order() -> nat {
    0x1000000000000000000000000000000014def9dea2f79cd65812631a5cf5d3ednat
}

/// The prime of the base field, 2^255 - 19.
pub open spec fn field_prime() -> nat {
    0x7fffffffffffffffffffffffffffffffffffffffffffffffffffffffffffffednat
}

/// The value of the first 31 of 32 bytes.
pub open spec fn le_nat_low31(bytes: Seq<u8>) -> nat {
    bytes[0] as nat + 0x100 * (bytes[1] as nat) + 0x10000 * (bytes[2] as nat) + 0x1000000 * (
    bytes[3] as nat) + 0x100000000 * (bytes[4] as nat) + 0x10000000000 * (bytes[5] as nat)
        + 0x1000000000000 * (bytes[6] as nat) + 0x100000000000000 * (bytes[7] as nat)
        + 0x10000000000000000nat * (bytes[8] as nat) + 0x1000000000000000000nat * (bytes[9] as nat)
        + 0x100000000000000000000nat * (bytes[10] as nat) + 0x10000000000000000000000nat * (
    bytes[11] as nat) + 0x1000000000000000000000000nat * (bytes[12] as nat)
        + 0x100000000000000000000000000nat * (bytes[13] as nat) + 0x10000000000000000000000000000nat
        * (bytes[14] as nat) + 0x1000000000000000000000000000000nat * (bytes[15] as nat)
        + 0x100000000000000000000000000000000nat * (bytes[16] as nat)
        + 0x10000000000000000000000000000000000nat * (bytes[17] as nat)
        + 0x1000000000000000000000000000000000000nat * (bytes[18] as nat)
        + 0x100000000000000000000000000000000000000nat * (bytes[19] as nat)
        + 0x10000000000000000000000000000000000000000nat * (bytes[20] as nat)
        + 0x1000000000000000000000000000000000000000000nat * (bytes[21] as nat)
        + 0x100000000000000000000000000000000000000000000nat * (bytes[22] as nat)
        + 0x10000000000000000000000000000000000000000000000nat * (bytes[23] as nat)
        + 0x1000000000000000000000000000000000000000000000000nat * (bytes[24] as nat)
        + 0x100000000000000000000000000000000000000000000000000nat * (bytes[25] as nat)
        + 0x10000000000000000000000000000000000000000000000000000nat * (bytes[26] as nat)
        + 0x1000000000000000000000000000000000000000000000000000000nat * (bytes[27] as nat)
        + 0x100000000000000000000000000000000000000000000000000000000nat * (bytes[28] as nat)
        + 0x10000000000000000000000000000000000000000000000000000000000nat * (bytes[29] as nat)
        + 0x1000000000000000000000000000000000000000000000000000000000000nat * (bytes[30] as nat)
}

/// Bytes that are all zero from `i` on spell 0 from `i` on.
pub proof fn lemma_le_nat_from_zeros(bytes: Seq<u8>, i: int)
    requires
        0 <= i <= bytes.len(),
        forall|j: int| i <= j < bytes.len() ==> bytes[j] == 0,
    ensures
        le_nat_from(bytes, i) == 0,
    decreases bytes.len() - i,
{
    if i < bytes.len() {
        lemma_le_nat_from_zeros(bytes, i + 1);
    }
}

/// Two byte sequences of one length that spell the same integer from `i` on
/// agree from `i` on.
pub proof fn lemma_le_nat_from_injective(a: Seq<u8>, b: Seq<u8>, i: int)
    requires
        a.len() == b.len(),
        0 <= i <= a.len(),
        le_nat_from(a, i) == le_nat_from(b, i),
    ensures
        forall|j: int| i <= j < a.len() ==> a[j] == b[j],
    decreases a.len() - i,
{
    if i < a.len() {
        lemma_le_nat_from_injective(a, b, i + 1);
    }
}

/// Two byte sequences of one length that spell the same integer are equal.
pub proof fn lemma_le_nat_injective(a: Seq<u8>, b: Seq<u8>)
    requires
        a.len() == b.len(),
        le_nat(a) == le_nat(b),
    ensures
        a == b,
{
    lemma_le_nat_from_injective(a, b, 0);
    assert(a =~= b);
}

/// The 32 bytes that spell `value` in little-endian order, for a value
/// below 2^256.
pub open spec fn le_bytes_32(value: nat) -> Seq<u8> {
    choose|bytes: Seq<u8>| bytes.len() == 32 && le_nat(bytes) == value
}

/// Spelling the value of 32 bytes gives the bytes back.
pub proof fn lemma_le_bytes_32(bytes: Seq<u8>)
    requires
        bytes.len() == 32,
    ensures
        le_bytes_32(le_nat(bytes)) == bytes,
{
    let found = le_bytes_32(le_nat(bytes));
    assert(found.len() == 32 && le_nat(found) == le_nat(bytes));
    lemma_le_nat_injective(found, bytes);
}

/// What is left of `value` above its `i` lowest bytes.
pub open spec fn above_bytes(value: nat, i: nat) -> nat
    decreases i,
{
    if i == 0 {
        value
    } else {
        above_bytes(value, (i - 1) as nat) / 256
    }
}

/// Byte `i` of an integer, counted from the least significant.
pub open spec fn byte_of(value: nat, i: nat) -> u8 {
    (above_bytes(value, i) % 256) as u8
}

/// The bytes of an integer spell what is left of the integer above them.
proof fn lemma_byte_of(value: nat, bytes: Seq<u8>, i: int)
    requires
        0 <= i <= 32,
        bytes.len() == 32,
        forall|j: int| 0 <= j < 32 ==> bytes[j] == byte_of(value, j as nat),
        value < pow2_256(),
    ensures
        le_nat_from(bytes, i) == above_bytes(value, i as nat),
    decreases 32 - i,
{
    if i < 32 {
        lemma_byte_of(value, bytes, i + 1);
        assert(above_bytes(value, (i + 1) as nat) == above_bytes(value, i as nat) / 256);
    } else {
        reveal_with_fuel(above_bytes, 33);
        assert(above_bytes(value, 32) == 0);
    }
}

/// An integer below 2^256 is spelled by 32 bytes.
pub proof fn lemma_small_scalar_has_bytes(value: nat)
    requires
        value < pow2_256(),
    ensures
        le_bytes_32(value).len() == 32,
        le_nat(le_bytes_32(value)) == value,
{
    let bytes = Seq::new(32, |i: int| byte_of(value, i as nat));
    lemma_byte_of(value, bytes, 0);
    assert(bytes.len() == 32 && le_nat(bytes) == value);
}

/// A 32-byte little-endian integer is the weighted sum of its bytes.
pub proof fn lemma_le_nat_32(bytes: Seq<u8>)
    requires
        bytes.len() == 32,
    ensures
        le_nat(bytes) == le_nat_low31(bytes) + pow2_248() * (bytes[31] as nat),
        le_nat_low31(bytes) < pow2_248(),
        le_nat(bytes) < pow2_256(),
{
    reveal_with_fuel(le_nat_from, 33);
}

/// The y-coordinate that a 32-byte encoding of a point carries in its low
/// 255 bits.
pub open spec fn y_coordinate(bytes: Seq<u8>) -> nat {
    le_nat(bytes) % pow2_255()
}

/// The highest bit of a 32-byte encoding of a point: the sign of x.
pub open spec fn sign_bit(bytes: Seq<u8>) -> bool {
    bytes[31] >= 128
}

/// The y-coordinate of a 32-byte encoding, split at the last byte, and the
/// value of the encoding, split into y-coordinate and sign bit.
pub proof fn lemma_y_coordinate(bytes: Seq<u8>)
    requires
        bytes.len() == 32,
    ensures
        y_coordinate(bytes) == le_nat_low31(bytes) + pow2_248() * ((bytes[31] % 128) as nat),
        y_coordinate(bytes) < pow2_255(),
        le_nat(bytes) == y_coordinate(bytes) + if sign_bit(bytes) {
            pow2_255()
        } else {
            0
        },
{
    lemma_le_nat_32(bytes);
    let low = le_nat_low31(bytes) + pow2_248() * ((bytes[31] % 128) as nat);
    let high = (bytes[31] / 128) as nat;
    assert(le_nat(bytes) == pow2_255() * high + low);
    assert(low < pow2_255());
    vstd::arithmetic::div_mod::lemma_fundamental_div_mod_converse(
        le_nat(bytes) as int,
        pow2_255() as int,
        high as int,
        low as int,
    );
}

/// The first 32 bytes of a slice, as an array.
pub fn array_32(slice: &[u8]) -> (out: [u8; 32])
    requires
        slice@.len() == 32,
    ensures
        out@ == slice@,
{
    let mut out: [u8; 32] = [0u8; 32];
    let mut i: usize = 0;
    while i < 32
        invariant
            i <= 32,
            slice@.len() == 32,
            forall|j: int| 0 <= j < i ==> out@[j] == slice@[j],
        decreases 32 - i,
    {
        out[i] = slice[i];
        i += 1;
    }
    assert(out@ =~= slice@);
    out
}

/// Whether two 32-byte arrays hold the same bytes.
pub fn same_32(a: &[u8; 32], b: &[u8; 32]) -> (same: bool)
    ensures
        same == (a@ == b@),
{
    let mut i: usize = 0;
    while i < 32
        invariant
            i <= 32,
            forall|j: int| 0 <= j < i ==> a@[j] == b@[j],
        decreases 32 - i,
    {
        if a[i] != b[i] {
            return false;
        }
        i += 1;
    }
    assert(a@ =~= b@);
    true
}

} // verus!
