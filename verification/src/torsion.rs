//! The eight points whose order divides eight.
use vstd::prelude::*;
use crate::algorithm2::{
    canonical_point_encoding, lemma_canonical_round_trip, small_order_pattern_minus_one,
};
use crate::bytes::{field_prime, lemma_le_nat_injective, lemma_y_coordinate, y_coordinate};
use crate::error::Error;
use crate::point::{decompressed, deserialize_point, edwards_neg, Point, reencodes};

verus! {

/// The canonical encodings of the points of small order.  The subgroup is
/// cyclic: entry `i` is `i` times a generator `P` of order eight, so entry 0
/// is the neutral element, entry 4 has order two, entries 2 and 6 have
/// order four and the odd entries have order eight.
pub const EIGHT_TORSION: [[u8; 32]; 8] = [
    [
        1, 0, 0, 0, 0, 0, 0, 0, 0, 0, 0, 0, 0, 0, 0, 0, 0, 0, 0, 0, 0, 0, 0, 0, 0, 0, 0, 0, 0, 0,
        0, 0,
    ],
    [
        199, 23, 106, 112, 61, 77, 216, 79, 186, 60, 11, 118, 13, 16, 103, 15, 42, 32, 83, 250, 44,
        57, 204, 198, 78, 199, 253, 119, 146, 172, 3, 122,
    ],
    [
        0, 0, 0, 0, 0, 0, 0, 0, 0, 0, 0, 0, 0, 0, 0, 0, 0, 0, 0, 0, 0, 0, 0, 0, 0, 0, 0, 0, 0, 0,
        0, 128,
    ],
    [
        38, 232, 149, 143, 194, 178, 39, 176, 69, 195, 244, 137, 242, 239, 152, 240, 213, 223, 172,
        5, 211, 198, 51, 57, 177, 56, 2, 136, 109, 83, 252, 5,
    ],
    [
        236, 255, 255, 255, 255, 255, 255, 255, 255, 255, 255, 255, 255, 255, 255, 255, 255, 255,
        255, 255, 255, 255, 255, 255, 255, 255, 255, 255, 255, 255, 255, 127,
    ],
    [
        38, 232, 149, 143, 194, 178, 39, 176, 69, 195, 244, 137, 242, 239, 152, 240, 213, 223, 172,
        5, 211, 198, 51, 57, 177, 56, 2, 136, 109, 83, 252, 133,
    ],
    [
        0, 0, 0, 0, 0, 0, 0, 0, 0, 0, 0, 0, 0, 0, 0, 0, 0, 0, 0, 0, 0, 0, 0, 0, 0, 0, 0, 0, 0, 0,
        0, 0,
    ],
    [
        199, 23, 106, 112, 61, 77, 216, 79, 186, 60, 11, 118, 13, 16, 103, 15, 42, 32, 83, 250, 44,
        57, 204, 198, 78, 199, 253, 119, 146, 172, 3, 250,
    ],
];

/// Encodings of points of small order that are not canonical.  In order:
/// the neutral element as (-0, 1), as (-0, 2^255 - 18) and, at index 3, as
/// (0, 2^255 - 18); at index 2 the point of order two as (-0, -1); at
/// indices 4 and 5 the two points of order four with y = 2^255 - 19.
pub const EIGHT_TORSION_NON_CANONICAL: [[u8; 32]; 6] = [
    [
        1, 0, 0, 0, 0, 0, 0, 0, 0, 0, 0, 0, 0, 0, 0, 0, 0, 0, 0, 0, 0, 0, 0, 0, 0, 0, 0, 0, 0, 0,
        0, 128,
    ],
    [
        238, 255, 255, 255, 255, 255, 255, 255, 255, 255, 255, 255, 255, 255, 255, 255, 255, 255,
        255, 255, 255, 255, 255, 255, 255, 255, 255, 255, 255, 255, 255, 255,
    ],
    [
        236, 255, 255, 255, 255, 255, 255, 255, 255, 255, 255, 255, 255, 255, 255, 255, 255, 255,
        255, 255, 255, 255, 255, 255, 255, 255, 255, 255, 255, 255, 255, 255,
    ],
    [
        238, 255, 255, 255, 255, 255, 255, 255, 255, 255, 255, 255, 255, 255, 255, 255, 255, 255,
        255, 255, 255, 255, 255, 255, 255, 255, 255, 255, 255, 255, 255, 127,
    ],
    [
        237, 255, 255, 255, 255, 255, 255, 255, 255, 255, 255, 255, 255, 255, 255, 255, 255, 255,
        255, 255, 255, 255, 255, 255, 255, 255, 255, 255, 255, 255, 255, 255,
    ],
    [
        237, 255, 255, 255, 255, 255, 255, 255, 255, 255, 255, 255, 255, 255, 255, 255, 255, 255,
        255, 255, 255, 255, 255, 255, 255, 255, 255, 255, 255, 255, 255, 127,
    ],
];

/// The encoding in the table of one of the seven points of small order
/// other than the neutral element: entry `idx mod 7 + 1`.
pub open spec fn small_nonzero_encoding(idx: nat) -> Seq<u8> {
    EIGHT_TORSION[(idx % 7) as int + 1]@
}

/// The entries of the table are canonical encodings.
pub proof fn lemma_torsion_table_is_canonical(i: int)
    requires
        0 <= i < 8,
    ensures
        canonical_point_encoding(EIGHT_TORSION[i]@),
{
    let entry = EIGHT_TORSION[i]@;
    lemma_y_coordinate(entry);
    if i == 0 {
        assert(entry[31] == 0 && entry[0] == 1);
    } else if i == 1 {
        assert(entry[31] == 122 && entry[0] == 199);
    } else if i == 2 {
        assert(entry[31] == 128 && entry[0] == 0);
    } else if i == 3 {
        assert(entry[31] == 5 && entry[0] == 38);
    } else if i == 4 {
        assert(entry[31] == 127 && entry[0] == 236);
    } else if i == 5 {
        assert(entry[31] == 133 && entry[0] == 38);
    } else if i == 6 {
        assert(entry[31] == 0 && entry[0] == 0);
    } else {
        assert(entry[31] == 250 && entry[0] == 199);
    }
}

/// Decoded and encoded anew, the encoding EC FF .. FF of the point of order
/// two is the entry of that point in the table.
pub proof fn lemma_order_two_reencoded(encoding: Seq<u8>)
    requires
        encoding.len() == 32,
        reencodes(EIGHT_TORSION_NON_CANONICAL[2]@, encoding),
    ensures
        encoding == small_nonzero_encoding(3),
{
    let wire = EIGHT_TORSION_NON_CANONICAL[2]@;
    let entry = EIGHT_TORSION[4]@;
    lemma_y_coordinate(wire);
    lemma_y_coordinate(entry);
    lemma_y_coordinate(encoding);
    assert(wire[31] == 255 && wire[0] == 236);
    assert(entry[31] == 127 && entry[0] == 236);
    assert(y_coordinate(wire) == field_prime() - 1);
    vstd::arithmetic::div_mod::lemma_small_mod((field_prime() - 1) as nat, field_prime());
    lemma_le_nat_injective(encoding, entry);
}

/// The encoding EC FF .. FF of the point of order two is not canonical.
pub proof fn lemma_order_two_non_canonical()
    ensures
        !canonical_point_encoding(EIGHT_TORSION_NON_CANONICAL[2]@),
{
    let wire = EIGHT_TORSION_NON_CANONICAL[2]@;
    assert(wire[0] == 0xEC);
    assert(small_order_pattern_minus_one(wire));
}

/// Whether the bytes are the encoding of a point of small order other than
/// the neutral element: an entry of the table but the first, or the
/// negative of one.
pub open spec fn small_order_encoding(p: Seq<u8>) -> bool {
    exists|idx: nat|
        p == #[trigger] small_nonzero_encoding(idx) || p == edwards_neg(
            small_nonzero_encoding(idx),
        )
}

/// The entries of the table and their negatives are of small order.
pub proof fn lemma_small_order(idx: nat)
    ensures
        small_order_encoding(small_nonzero_encoding(idx)),
        small_order_encoding(edwards_neg(small_nonzero_encoding(idx))),
{
    let entry = small_nonzero_encoding(idx);
    assert(entry == small_nonzero_encoding(idx) || entry == edwards_neg(
        small_nonzero_encoding(idx),
    ));
    let negative = edwards_neg(entry);
    assert(negative == small_nonzero_encoding(idx) || negative == edwards_neg(
        small_nonzero_encoding(idx),
    ));
}

/// One of the seven points of small order other than the neutral element,
/// chosen by an arbitrary integer: the point with the encoding
/// `EIGHT_TORSION[idx mod 7 + 1]`.
pub fn pick_small_nonzero_point(idx: u64) -> (out: Result<Point, Error>)
    ensures
        out matches Ok(p) ==> p@ == small_nonzero_encoding(idx as nat),
        match decompressed(small_nonzero_encoding(idx as nat)) {
            Some(encoding) => out matches Ok(p) && p@ == encoding,
            None => out == Err::<Point, Error>(Error::PointDecompressionFailure),
        },
{
    let entry: [u8; 32] = EIGHT_TORSION[(idx % 7 + 1) as usize];
    let out = deserialize_point(entry.as_slice());
    proof {
        if let Ok(p) = out {
            lemma_torsion_table_is_canonical((idx % 7) as int + 1);
            lemma_canonical_round_trip(entry@, p@);
        }
    }
    out
}

} // verus!
