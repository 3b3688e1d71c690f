//! Integers of up to 260 bits in five limbs of 52 bits each, with an
//! addition that does not reduce modulo the group order.
//!
//! Adding the group order to a scalar gives another spelling of the same
//! residue, which a decoder that does not check the range takes for a valid
//! scalar.
use vstd::prelude::*;
use crate::bytes::{group_order, le_nat, lemma_le_nat_32, pow2_256};

verus! {

/// 2^52, the weight of a limb.
pub open spec fn pow2_52() -> nat {
    0x10000000000000
}

/// 2^253: at and above it one of the three highest bits of 32 bytes is set.
pub open spec fn pow2_253() -> nat {
    0x2000000000000000000000000000000000000000000000000000000000000000nat
}

/// 2^260, where five limbs end.
pub open spec fn pow2_260() -> nat {
    0x100000000000000000000000000000000000000000000000000000000000000000nat
}

/// The integer that five limbs hold: limb `i` has weight 2^(52 i).
pub open spec fn limbs_value(limbs: Seq<u64>) -> nat {
    limbs[0] as nat + 0x10000000000000 * (limbs[1] as nat) + 0x100000000000000000000000000nat * (
    limbs[2] as nat) + 0x1000000000000000000000000000000000000000nat * (limbs[3] as nat)
        + 0x10000000000000000000000000000000000000000000000000000nat * (limbs[4] as nat)
}

/// An integer in five limbs of 52 bits.
#[derive(Clone, Copy, Debug, PartialEq, Eq)]
pub struct Scalar52(pub [u64; 5]);

impl View for Scalar52 {
    type V = nat;

    /// The integer that the limbs hold.
    open spec fn view(&self) -> nat {
        limbs_value(self.0@)
    }
}

/// The six bytes from `at` on, as a little-endian integer.
pub open spec fn le_48(bytes: Seq<u8>, at: int) -> nat {
    bytes[at] as nat + 0x100 * (bytes[at + 1] as nat) + 0x10000 * (bytes[at + 2] as nat)
        + 0x1000000 * (bytes[at + 3] as nat) + 0x100000000 * (bytes[at + 4] as nat)
        + 0x10000000000 * (bytes[at + 5] as nat)
}

/// Reads six bytes as a little-endian integer.
fn get_48(bytes: &[u8; 32], at: usize) -> (x: u64)
    requires
        at + 6 <= 32,
    ensures
        x == le_48(bytes@, at as int),
        x < 0x1000000000000,
{
    (bytes[at] as u64) + 0x100 * (bytes[at + 1] as u64) + 0x10000 * (bytes[at + 2] as u64)
        + 0x1000000 * (bytes[at + 3] as u64) + 0x100000000 * (bytes[at + 4] as u64)
        + 0x10000000000 * (bytes[at + 5] as u64)
}

/// Writes an integer below 2^48 into six bytes, least significant first.
fn put_48(bytes: &mut [u8; 32], at: usize, x: u64)
    requires
        at + 6 <= 32,
        x < 0x1000000000000,
    ensures
        le_48(final(bytes)@, at as int) == x,
        forall|i: int| 0 <= i < 32 && !(at <= i < at + 6) ==> final(bytes)@[i] == old(bytes)@[i],
{
    let b0: u64 = x % 256;
    let x1: u64 = x / 256;
    let b1: u64 = x1 % 256;
    let x2: u64 = x1 / 256;
    let b2: u64 = x2 % 256;
    let x3: u64 = x2 / 256;
    let b3: u64 = x3 % 256;
    let x4: u64 = x3 / 256;
    let b4: u64 = x4 % 256;
    let b5: u64 = x4 / 256;
    bytes[at] = b0 as u8;
    bytes[at + 1] = b1 as u8;
    bytes[at + 2] = b2 as u8;
    bytes[at + 3] = b3 as u8;
    bytes[at + 4] = b4 as u8;
    bytes[at + 5] = b5 as u8;
}

/// The value of 32 bytes, split where the five limbs split it: six bytes,
/// one byte shared by two limbs, six bytes, and so on.
pub proof fn lemma_le_nat_by_limbs(bytes: Seq<u8>)
    requires
        bytes.len() == 32,
    ensures
        le_nat(bytes) == le_48(bytes, 0) + 0x1000000000000 * (bytes[6] as nat)
            + 0x100000000000000 * le_48(bytes, 7) + 0x100000000000000000000000000nat * le_48(
            bytes,
            13,
        ) + 0x100000000000000000000000000000000000000nat * (bytes[19] as nat)
            + 0x10000000000000000000000000000000000000000nat * le_48(bytes, 20)
            + 0x10000000000000000000000000000000000000000000000000000nat * le_48(bytes, 26),
{
    lemma_le_nat_32(bytes);
}

impl Scalar52 {
    /// Every limb is below 2^52.
    pub open spec fn wf(&self) -> bool {
        forall|i: int| 0 <= i < 5 ==> self.0@[i] < pow2_52()
    }

    /// The integer 0.
    pub fn zero() -> (s: Scalar52)
        ensures
            s.wf(),
            s@ == 0,
    {
        Scalar52([0, 0, 0, 0, 0])
    }

    /// The group order.
    pub fn group_order() -> (l: Scalar52)
        ensures
            l.wf(),
            l@ == group_order(),
    {
        Scalar52(
            [
                0x0002631a5cf5d3ed,
                0x000dea2f79cd6581,
                0x000000000014def9,
                0x0000000000000000,
                0x0000100000000000,
            ],
        )
    }

    /// The integer that 32 bytes spell in little-endian order.
    pub fn from_bytes(bytes: &[u8; 32]) -> (s: Scalar52)
        ensures
            s.wf(),
            s@ == le_nat(bytes@),
    {
        let shared_low: u64 = bytes[6] as u64;
        let shared_high: u64 = bytes[19] as u64;
        let l0: u64 = get_48(bytes, 0) + (shared_low % 16) * 0x1000000000000;
        let l1: u64 = shared_low / 16 + get_48(bytes, 7) * 16;
        let l2: u64 = get_48(bytes, 13) + (shared_high % 16) * 0x1000000000000;
        let l3: u64 = shared_high / 16 + get_48(bytes, 20) * 16;
        let l4: u64 = get_48(bytes, 26);
        proof {
            lemma_le_nat_by_limbs(bytes@);
        }
        Scalar52([l0, l1, l2, l3, l4])
    }

    /// The low 256 bits of the integer, as 32 little-endian bytes.
    pub fn to_bytes(&self) -> (bytes: [u8; 32])
        requires
            self.wf(),
        ensures
            le_nat(bytes@) == self@ % pow2_256(),
            self@ < pow2_256() ==> le_nat(bytes@) == self@,
    {
        let l0: u64 = self.0[0];
        let l1: u64 = self.0[1];
        let l2: u64 = self.0[2];
        let l3: u64 = self.0[3];
        let l4: u64 = self.0[4];
        let mut bytes: [u8; 32] = [0u8; 32];
        put_48(&mut bytes, 0, l0 % 0x1000000000000);
        bytes[6] = (l0 / 0x1000000000000 + (l1 % 16) * 16) as u8;
        put_48(&mut bytes, 7, l1 / 16);
        put_48(&mut bytes, 13, l2 % 0x1000000000000);
        bytes[19] = (l2 / 0x1000000000000 + (l3 % 16) * 16) as u8;
        put_48(&mut bytes, 20, l3 / 16);
        put_48(&mut bytes, 26, l4 % 0x1000000000000);
        proof {
            lemma_le_nat_by_limbs(bytes@);
            let dropped = (l4 / 0x1000000000000) as nat;
            assert(self@ == pow2_256() * dropped + le_nat(bytes@));
            lemma_le_nat_32(bytes@);
            vstd::arithmetic::div_mod::lemma_fundamental_div_mod_converse(
                self@ as int,
                pow2_256() as int,
                dropped as int,
                le_nat(bytes@) as int,
            );
            if self@ < pow2_256() {
                vstd::arithmetic::div_mod::lemma_small_mod(self@, pow2_256());
            }
        }
        bytes
    }

    /// The sum of two integers, modulo 2^260 and nothing else.
    pub fn add(a: &Scalar52, b: &Scalar52) -> (sum: Scalar52)
        requires
            a.wf(),
            b.wf(),
        ensures
            sum.wf(),
            sum@ == (a@ + b@) % pow2_260(),
            a@ + b@ < pow2_260() ==> sum@ == a@ + b@,
    {
        let c0: u64 = a.0[0] + b.0[0];
        let c1: u64 = a.0[1] + b.0[1] + c0 / 0x10000000000000;
        let c2: u64 = a.0[2] + b.0[2] + c1 / 0x10000000000000;
        let c3: u64 = a.0[3] + b.0[3] + c2 / 0x10000000000000;
        let c4: u64 = a.0[4] + b.0[4] + c3 / 0x10000000000000;
        let sum = Scalar52(
            [
                c0 % 0x10000000000000,
                c1 % 0x10000000000000,
                c2 % 0x10000000000000,
                c3 % 0x10000000000000,
                c4 % 0x10000000000000,
            ],
        );
        proof {
            let carry = (c4 / 0x10000000000000) as nat;
            assert(a@ + b@ == pow2_260() * carry + sum@);
            assert(sum@ < pow2_260());
            vstd::arithmetic::div_mod::lemma_fundamental_div_mod_converse(
                (a@ + b@) as int,
                pow2_260() as int,
                carry as int,
                sum@ as int,
            );
            if a@ + b@ < pow2_260() {
                vstd::arithmetic::div_mod::lemma_small_mod(a@ + b@, pow2_260());
            }
        }
        sum
    }
}

/// The 32 bytes of a 256-bit integer plus the group order, not reduced
/// modulo the group order: what is above 256 bits is dropped.
pub fn add_group_order(bytes: &[u8; 32]) -> (more: [u8; 32])
    ensures
        le_nat(more@) == (le_nat(bytes@) + group_order()) % pow2_256(),
        le_nat(bytes@) + group_order() < pow2_256() ==> le_nat(more@) == le_nat(bytes@)
            + group_order(),
{
    proof {
        lemma_le_nat_32(bytes@);
    }
    let sum = Scalar52::add(&Scalar52::from_bytes(bytes), &Scalar52::group_order());
    proof {
        if le_nat(bytes@) + group_order() < pow2_256() {
            vstd::arithmetic::div_mod::lemma_small_mod(
                le_nat(bytes@) + group_order(),
                pow2_256(),
            );
        }
    }
    sum.to_bytes()
}

/// How far an integer is below 2^253.
pub open spec fn below_high_bits(value: nat) -> nat {
    if value < pow2_253() {
        (pow2_253() - value) as nat
    } else {
        0
    }
}

/// The integer with the group order added as often as it takes to reach
/// 2^253, where one of the three highest bits of its 32 bytes is set.
pub open spec fn raised(value: nat) -> nat
    decreases below_high_bits(value),
{
    if value >= pow2_253() {
        value
    } else {
        raised(value + group_order())
    }
}

/// How often the group order is added to an integer until it reaches 2^253.
pub open spec fn lifts(value: nat) -> nat
    decreases below_high_bits(value),
{
    if value >= pow2_253() {
        0
    } else {
        1 + lifts(value + group_order())
    }
}

/// Raising adds a multiple of the group order and ends within one group
/// order above 2^253; an integer below the group order is raised at least
/// once.
pub proof fn lemma_raised(value: nat)
    ensures
        raised(value) == value + lifts(value) * group_order(),
        raised(value) >= pow2_253(),
        value < pow2_253() ==> raised(value) < pow2_253() + group_order(),
        value < group_order() ==> lifts(value) >= 1,
    decreases below_high_bits(value),
{
    if value < pow2_253() {
        let next = value + group_order();
        lemma_raised(next);
        assert((1 + lifts(next)) * group_order() == group_order() + lifts(next) * group_order())
            by (nonlinear_arith);
    } else {
        assert(0 * group_order() == 0);
    }
}

/// Whether the three highest bits of 32 bytes are clear: whether the
/// integer that they spell is below 2^253.
pub fn high_bits_clear(bytes: &[u8; 32]) -> (clear: bool)
    ensures
        clear == (le_nat(bytes@) < pow2_253()),
{
    let top: u8 = bytes[31];
    proof {
        lemma_le_nat_32(bytes@);
        assert((top & 224u8 == 0u8) <==> top < 32u8) by (bit_vector);
    }
    (top & 224u8) == 0u8
}

/// The 32 bytes of the first of `s`, `s + L`, `s + 2 L`, .. that has one
/// of its three highest bits set, for the 256-bit integer `s` that the
/// bytes spell and the group order `L`.
pub fn raise_past_high_bits(bytes: &[u8; 32]) -> (raised_bytes: [u8; 32])
    ensures
        le_nat(raised_bytes@) == raised(le_nat(bytes@)),
{
    let order = Scalar52::group_order();
    let mut s_nonreducing = Scalar52::from_bytes(bytes);
    let mut raised_bytes = s_nonreducing.to_bytes();
    proof {
        lemma_le_nat_32(bytes@);
    }
    while high_bits_clear(&raised_bytes)
        invariant
            s_nonreducing.wf(),
            order.wf(),
            order@ == group_order(),
            s_nonreducing@ < pow2_256(),
            le_nat(raised_bytes@) == s_nonreducing@,
            raised(s_nonreducing@) == raised(le_nat(bytes@)),
        decreases below_high_bits(s_nonreducing@),
    {
        s_nonreducing = Scalar52::add(&s_nonreducing, &order);
        raised_bytes = s_nonreducing.to_bytes();
    }
    raised_bytes
}

} // verus!
