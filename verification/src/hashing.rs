//! Hashing to a scalar: SHA-512, reduced modulo the group order.
use vstd::prelude::*;
use sha2::Digest;
use sha2::Sha512;
use crate::bytes::{group_order, le_nat};
use crate::point::Point;
use crate::scalar::Scalar;

verus! {

/// The SHA-512 digest of a byte string, 64 bytes.
pub uninterp spec fn sha512_digest(data: Seq<u8>) -> Seq<u8>;

/// The scalar that a byte string hashes to: its digest as a 512-bit
/// little-endian integer, reduced modulo the group order.
pub open spec fn hashed_scalar(data: Seq<u8>) -> nat {
    le_nat(sha512_digest(data)) % group_order()
}

/// The challenge scalar of a signature: the hash of the encoding of R, the
/// encoding of the public key and the message, in this order.
pub open spec fn hram(message: Seq<u8>, pub_key: Seq<u8>, r: Seq<u8>) -> nat {
    hashed_scalar(r + pub_key + message)
}

/// `Sha512` of sha2, fed one byte string and finalized.
#[verifier::external_body]
fn sha512(data: &[u8]) -> (digest: [u8; 64])
    ensures
        digest@ == sha512_digest(data@),
{
    let mut digest = [0u8; 64];
    digest.copy_from_slice(&Sha512::default().chain(data).finalize()[..]);
    digest
}

/// Appends the bytes of `part` to `buffer`.
pub fn append(buffer: &mut Vec<u8>, part: &[u8])
    ensures
        final(buffer)@ == old(buffer)@ + part@,
{
    let ghost before = buffer@;
    let mut i: usize = 0;
    while i < part.len()
        invariant
            i <= part@.len(),
            buffer@ == before + part@.subrange(0, i as int),
        decreases part@.len() - i,
    {
        buffer.push(part[i]);
        i += 1;
        assert(buffer@ =~= before + part@.subrange(0, i as int));
    }
    assert(part@.subrange(0, part@.len() as int) =~= part@);
}

/// The scalar that a byte string hashes to.
pub fn hash_bytes_to_scalar(data: &[u8]) -> (h: Scalar)
    ensures
        h@ == hashed_scalar(data@),
        h.canonical(),
{
    let digest = sha512(data);
    Scalar::from_bytes_mod_order_wide(&digest)
}

/// The scalar that the concatenation of three byte strings hashes to.
pub fn hash_to_scalar(r_bytes: &[u8], a_bytes: &[u8], message: &[u8]) -> (h: Scalar)
    ensures
        h@ == hram(message@, a_bytes@, r_bytes@),
        h.canonical(),
{
    let mut input: Vec<u8> = Vec::new();
    append(&mut input, r_bytes);
    append(&mut input, a_bytes);
    append(&mut input, message);
    hash_bytes_to_scalar(input.as_slice())
}

/// The scalar that a nonce and a message hash to, in this order: the
/// secret scalar behind the point R of an ordinary signature.
pub open spec fn nonce_scalar(nonce: Seq<u8>, message: Seq<u8>) -> nat {
    hashed_scalar(nonce + message)
}

/// The scalar that a nonce and a message hash to, in this order.
pub fn hash_nonce(nonce: &[u8], message: &[u8]) -> (r: Scalar)
    ensures
        r@ == nonce_scalar(nonce@, message@),
        r.canonical(),
{
    let mut input: Vec<u8> = Vec::new();
    append(&mut input, nonce);
    append(&mut input, message);
    hash_bytes_to_scalar(input.as_slice())
}

/// The challenge scalar as a verifier computes it that encodes both points
/// anew before hashing.
pub fn compute_hram(message: &[u8], pub_key: &Point, signature_r: &Point) -> (h: Scalar)
    ensures
        h@ == hram(message@, pub_key@, signature_r@),
        h.canonical(),
{
    let r_bytes = signature_r.compress();
    let a_bytes = pub_key.compress();
    hash_to_scalar(r_bytes.as_slice(), a_bytes.as_slice(), message)
}

/// The challenge scalar as a verifier computes it that hashes the bytes of
/// R as they came over the wire.
pub fn compute_hram_with_r_array(message: &[u8], pub_key: &Point, signature_r: &[u8]) -> (h:
    Scalar)
    ensures
        h@ == hram(message@, pub_key@, signature_r@),
        h.canonical(),
{
    let a_bytes = pub_key.compress();
    hash_to_scalar(signature_r, a_bytes.as_slice(), message)
}

/// The challenge scalar as a verifier computes it that hashes the bytes of
/// the public key as they came over the wire.
pub fn compute_hram_with_pk_array(message: &[u8], pub_key_arr: &[u8], signature_r: &Point) -> (h:
    Scalar)
    ensures
        h@ == hram(message@, pub_key_arr@, signature_r@),
        h.canonical(),
{
    let r_bytes = signature_r.compress();
    hash_to_scalar(r_bytes.as_slice(), pub_key_arr, message)
}

} // verus!
