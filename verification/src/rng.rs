//! The seeded generator that every forging procedure draws from.
//!
//! The generator is `StdRng` of rand, seeded with a fixed constant.  In
//! the version of rand that this crate builds on, `StdRng` is the ChaCha
//! stream cipher with 20 rounds, keyed with the seed, on every target but
//! Emscripten: it hands out the words of the key stream one after the
//! other, nothing else enters.  So its output is a function of the seed and
//! of the number of words drawn before, and the contracts name what each
//! draw returns.
use vstd::prelude::*;
use rand::RngCore;
use rand::SeedableRng;
use rand::rngs::StdRng;

verus! {

/// `StdRng` of rand: its state is not visible here.
#[verifier::external_type_specification]
#[verifier::external_body]
pub struct ExStdRng(StdRng);

/// The seed that a generator was made from.
pub uninterp spec fn rng_seed(rng: StdRng) -> Seq<u8>;

/// The number of 32-bit words that a generator has handed out so far.
pub uninterp spec fn rng_words(rng: StdRng) -> nat;

/// The bytes that a generator made from `seed` writes into a buffer of 32
/// bytes after it has handed out `words` words.
pub uninterp spec fn keystream_bytes(seed: Seq<u8>, words: nat) -> Seq<u8>;

/// The 64-bit integer that a generator made from `seed` returns after it
/// has handed out `words` words.
pub uninterp spec fn keystream_u64(seed: Seq<u8>, words: nat) -> u64;

/// The fixed seed: the eight bytes of the double-precision number nearest
/// to pi, least significant first, four times over.
pub open spec fn pi_seed() -> Seq<u8> {
    Seq::new(
        32,
        |i: int|
            if i % 8 == 0 {
                0x18u8
            } else if i % 8 == 1 {
                0x2du8
            } else if i % 8 == 2 {
                0x44u8
            } else if i % 8 == 3 {
                0x54u8
            } else if i % 8 == 4 {
                0xfbu8
            } else if i % 8 == 5 {
                0x21u8
            } else if i % 8 == 6 {
                0x09u8
            } else {
                0x40u8
            },
    )
}

/// The 32 bytes that the generator of this crate hands out after `words`
/// words.
pub open spec fn stream_bytes(words: nat) -> Seq<u8> {
    keystream_bytes(pi_seed(), words)
}

/// The 64-bit integer that the generator of this crate hands out after
/// `words` words.
pub open spec fn stream_u64(words: nat) -> u64 {
    keystream_u64(pi_seed(), words)
}

/// The generator of this crate after it has handed out `words` words.
pub open spec fn stream_at(rng: StdRng, words: nat) -> bool {
    rng_seed(rng) == pi_seed() && rng_words(rng) == words
}

/// `StdRng::from_seed` of rand: a generator that has handed out nothing.
#[verifier::external_body]
fn std_rng_from_seed(seed: [u8; 32]) -> (rng: StdRng)
    ensures
        rng_seed(rng) == seed@,
        rng_words(rng) == 0,
{
    StdRng::from_seed(seed)
}

/// `fill_bytes` of `StdRng` on a buffer of 32 bytes, which takes eight
/// words from the generator.
#[verifier::external_body]
pub(crate) fn fill_bytes_32(rng: &mut StdRng) -> (out: [u8; 32])
    ensures
        out@ == keystream_bytes(rng_seed(*old(rng)), rng_words(*old(rng))),
        rng_seed(*final(rng)) == rng_seed(*old(rng)),
        rng_words(*final(rng)) == rng_words(*old(rng)) + 8,
{
    let mut out = [0u8; 32];
    rng.fill_bytes(&mut out);
    out
}

/// `next_u64` of `StdRng`, which takes two words from the generator.
#[verifier::external_body]
pub(crate) fn next_u64(rng: &mut StdRng) -> (out: u64)
    ensures
        out == keystream_u64(rng_seed(*old(rng)), rng_words(*old(rng))),
        rng_seed(*final(rng)) == rng_seed(*old(rng)),
        rng_words(*final(rng)) == rng_words(*old(rng)) + 2,
{
    rng.next_u64()
}

/// The generator that every forging procedure starts from.
pub fn new_rng() -> (rng: StdRng)
    ensures
        stream_at(rng, 0),
{
    let pi_bytes: [u8; 32] = [
        0x18, 0x2d, 0x44, 0x54, 0xfb, 0x21, 0x09, 0x40, 0x18, 0x2d, 0x44, 0x54, 0xfb, 0x21, 0x09,
        0x40, 0x18, 0x2d, 0x44, 0x54, 0xfb, 0x21, 0x09, 0x40, 0x18, 0x2d, 0x44, 0x54, 0xfb, 0x21,
        0x09, 0x40,
    ];
    assert(pi_bytes@ =~= pi_seed());
    std_rng_from_seed(pi_bytes)
}

} // verus!
