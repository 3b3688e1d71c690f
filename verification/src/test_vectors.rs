//! The forging procedures and the vectors they produce.
//!
//! Each procedure starts the seeded generator anew, builds a public key and
//! a point R from a part of large order and a part of small order, and
//! draws messages until the part of small order cancels in the equation it
//! aims at.  Before a vector leaves, it is run through the verification
//! equations: a vector that does not behave as its scenario says is an
//! error, never a result.
use vstd::prelude::*;
use crate::algorithm2::canonical_point_encoding;
use crate::bytes::group_order;
use crate::error::Error;
use crate::non_reducing_scalar52::pow2_253;
use crate::test_vectors::non_canonical::{
    non_zero_mixed_small_non_canonical_spec, non_zero_small_non_canonical_mixed_spec,
};
use crate::test_vectors::outcome::{
    Class, classes, cofactorless_if_on_wire_bytes, cofactorless_if_reencoded, malleable,
    passes_both, passes_cofactored_only, passes_on_wire_bytes_alone, passes_reencoded_alone,
    passes_unless_pre_reduced, wire_r, wire_s,
};
use crate::test_vectors::pairs::{
    non_zero_mixed_mixed_spec, non_zero_mixed_small_spec, non_zero_small_mixed_spec,
    zero_small_small_spec,
};
use crate::test_vectors::singles::{large_s_spec, pre_reduced_scalar_spec, really_large_s_spec};

pub mod non_canonical;
pub mod outcome;
pub mod pairs;
pub mod search;
pub mod singles;

pub use crate::test_vectors::non_canonical::{
    non_zero_mixed_small_non_canonical, non_zero_small_non_canonical_mixed,
};
pub use crate::test_vectors::pairs::{
    non_zero_mixed_mixed, non_zero_mixed_small, non_zero_small_mixed, zero_small_small,
};
pub use crate::test_vectors::singles::{large_s, pre_reduced_scalar, really_large_s};

verus! {

/// A message, a public key and a signature over the message, as the bytes
/// that go over the wire.
#[derive(Debug, PartialEq, Eq)]
pub struct TestVector {
    pub message: [u8; 32],
    pub pub_key: [u8; 32],
    pub signature: Vec<u8>,
}

/// A test vector as three byte sequences.
pub struct TestVectorView {
    pub message: Seq<u8>,
    pub pub_key: Seq<u8>,
    pub signature: Seq<u8>,
}

impl View for TestVector {
    type V = TestVectorView;

    open spec fn view(&self) -> TestVectorView {
        TestVectorView {
            message: self.message@,
            pub_key: self.pub_key@,
            signature: self.signature@,
        }
    }
}

/// The views of a sequence of vectors.
pub open spec fn views_of(vectors: Seq<TestVector>) -> Seq<TestVectorView> {
    Seq::new(vectors.len(), |i: int| vectors[i]@)
}

/// What is said of the vector at position `k` of the generated sequence:
/// how it stands towards the verification equations, where its scalar
/// lies, and of which classes its key and its point R are.
pub open spec fn documented_cell(k: int, vector: TestVectorView) -> bool {
    if k == 0 {
        &&& passes_both(vector)
        &&& wire_s(vector) == 0
        &&& classes(vector, Class::Small, Class::Small)
    } else if k == 1 {
        &&& passes_both(vector)
        &&& wire_s(vector) < group_order()
        &&& classes(vector, Class::Small, Class::Mixed)
    } else if k == 2 {
        &&& passes_both(vector)
        &&& wire_s(vector) < group_order()
        &&& classes(vector, Class::Mixed, Class::Small)
    } else if k == 3 {
        &&& passes_both(vector)
        &&& wire_s(vector) < group_order()
        &&& classes(vector, Class::Mixed, Class::Mixed)
    } else if k == 4 {
        &&& passes_cofactored_only(vector)
        &&& wire_s(vector) < group_order()
        &&& classes(vector, Class::Mixed, Class::Mixed)
    } else if k == 5 {
        &&& passes_unless_pre_reduced(vector)
        &&& wire_s(vector) < group_order()
        &&& classes(vector, Class::Mixed, Class::Large)
    } else if k == 6 {
        &&& passes_both(vector)
        &&& malleable(vector)
        &&& group_order() <= wire_s(vector) < 2 * group_order()
        &&& classes(vector, Class::Large, Class::Large)
    } else if k == 7 {
        &&& passes_both(vector)
        &&& malleable(vector)
        &&& pow2_253() <= wire_s(vector) < pow2_253() + group_order()
        &&& classes(vector, Class::Large, Class::Large)
    } else if k == 8 {
        &&& passes_reencoded_alone(vector)
        &&& wire_s(vector) < group_order()
        &&& classes(vector, Class::Mixed, Class::Small)
        &&& !canonical_point_encoding(wire_r(vector))
    } else if k == 9 {
        &&& passes_on_wire_bytes_alone(vector)
        &&& wire_s(vector) < group_order()
        &&& classes(vector, Class::Mixed, Class::Small)
        &&& !canonical_point_encoding(wire_r(vector))
    } else if k == 10 {
        &&& cofactorless_if_reencoded(vector)
        &&& wire_s(vector) < group_order()
        &&& classes(vector, Class::Small, Class::Mixed)
        &&& !canonical_point_encoding(vector.pub_key)
    } else if k == 11 {
        &&& cofactorless_if_on_wire_bytes(vector)
        &&& wire_s(vector) < group_order()
        &&& classes(vector, Class::Small, Class::Mixed)
        &&& !canonical_point_encoding(vector.pub_key)
    } else {
        false
    }
}

/// The vectors so far and then those of the next procedure, or the first
/// error.
pub open spec fn and_then(
    so_far: Result<Seq<TestVectorView>, Error>,
    next: Result<Seq<TestVectorView>, Error>,
) -> Result<Seq<TestVectorView>, Error> {
    match so_far {
        Err(e) => Err(e),
        Ok(vectors) => match next {
            Err(e) => Err(e),
            Ok(more) => Ok(vectors + more),
        },
    }
}

/// The second vector of a pair.
pub open spec fn second_of(pair: Result<(TestVectorView, TestVectorView), Error>) -> Result<
    Seq<TestVectorView>,
    Error,
> {
    match pair {
        Err(e) => Err(e),
        Ok((_, second)) => Ok(seq![second]),
    }
}

/// The second vector of a pair, then the first.
pub open spec fn swapped(pair: Result<(TestVectorView, TestVectorView), Error>) -> Result<
    Seq<TestVectorView>,
    Error,
> {
    match pair {
        Err(e) => Err(e),
        Ok((first, second)) => Ok(seq![second, first]),
    }
}

/// Both vectors of a pair.
pub open spec fn both_of(pair: Result<(TestVectorView, TestVectorView), Error>) -> Result<
    Seq<TestVectorView>,
    Error,
> {
    match pair {
        Err(e) => Err(e),
        Ok((first, second)) => Ok(seq![first, second]),
    }
}

/// The one vector of a procedure.
pub open spec fn one_of(vector: Result<TestVectorView, Error>) -> Result<
    Seq<TestVectorView>,
    Error,
> {
    match vector {
        Err(e) => Err(e),
        Ok(only) => Ok(seq![only]),
    }
}

/// What the procedure at position `step` contributes to the generated
/// sequence: the second vector of each of the first three pairs, both
/// vectors of the fourth pair in reverse order, the three single vectors,
/// and both vectors of each of the two pairs in non-canonical encodings.
pub open spec fn contribution(step: nat) -> Result<Seq<TestVectorView>, Error> {
    if step == 1 {
        second_of(zero_small_small_spec())
    } else if step == 2 {
        second_of(non_zero_mixed_small_spec())
    } else if step == 3 {
        second_of(non_zero_small_mixed_spec())
    } else if step == 4 {
        swapped(non_zero_mixed_mixed_spec())
    } else if step == 5 {
        one_of(pre_reduced_scalar_spec())
    } else if step == 6 {
        one_of(large_s_spec())
    } else if step == 7 {
        one_of(really_large_s_spec())
    } else if step == 8 {
        both_of(non_zero_small_non_canonical_mixed_spec())
    } else if step == 9 {
        both_of(non_zero_mixed_small_non_canonical_spec())
    } else {
        Ok(Seq::empty())
    }
}

/// What the first `steps` procedures contribute together, or the first
/// error among them.
#[verifier::opaque]
pub open spec fn generated_after(steps: nat) -> Result<Seq<TestVectorView>, Error>
    decreases steps,
{
    if steps == 0 {
        Ok(Seq::empty())
    } else {
        and_then(generated_after((steps - 1) as nat), contribution(steps))
    }
}

/// What `generate_test_vectors` returns: what its nine procedures
/// contribute, in their order, or the first error on the way.
pub open spec fn generate_test_vectors_spec() -> Result<Seq<TestVectorView>, Error> {
    generated_after(9)
}

/// One more procedure adds its contribution.
proof fn lemma_next_step(steps: nat)
    requires
        steps >= 1,
    ensures
        generated_after(steps) == and_then(
            generated_after((steps - 1) as nat),
            contribution(steps),
        ),
        generated_after(0) == Ok::<Seq<TestVectorView>, Error>(Seq::empty()),
{
    reveal_with_fuel(generated_after, 2);
}

/// Once a procedure has failed, its error stays.
proof fn lemma_error_stays(steps: nat, later: nat, e: Error)
    requires
        generated_after(steps) == Err::<Seq<TestVectorView>, Error>(e),
        steps <= later,
    ensures
        generated_after(later) == Err::<Seq<TestVectorView>, Error>(e),
    decreases later,
{
    if steps < later {
        lemma_error_stays(steps, (later - 1) as nat, e);
        lemma_next_step(later);
    }
}

/// The vectors are what the first `steps` procedures contribute, and each
/// stands towards the equations as is said of its position.
#[verifier::opaque]
spec fn collected(vectors: Seq<TestVector>, steps: nat) -> bool {
    &&& generated_after(steps) == Ok::<Seq<TestVectorView>, Error>(views_of(vectors))
    &&& forall|k: int| 0 <= k < vectors.len() ==> documented_cell(k, #[trigger] vectors[k]@)
}

/// Nothing is collected before the first procedure.
proof fn lemma_collected_nothing(vectors: Seq<TestVector>)
    requires
        vectors.len() == 0,
    ensures
        collected(vectors, 0),
{
    reveal(collected);
    lemma_next_step(1);
    assert(views_of(vectors) =~= Seq::<TestVectorView>::empty());
}

/// A procedure that fails ends the generation with its error.
proof fn lemma_collected_error(vectors: Seq<TestVector>, step: nat, e: Error)
    requires
        1 <= step <= 9,
        collected(vectors, (step - 1) as nat),
        contribution(step) == Err::<Seq<TestVectorView>, Error>(e),
    ensures
        generate_test_vectors_spec() == Err::<Seq<TestVectorView>, Error>(e),
{
    reveal(collected);
    lemma_next_step(step);
    lemma_error_stays(step, 9, e);
}

/// Appends the one vector that a procedure contributes.
fn push_one(vectors: &mut Vec<TestVector>, vector: TestVector, Ghost(step): Ghost<nat>)
    requires
        step >= 1,
        collected(old(vectors)@, (step - 1) as nat),
        contribution(step) == Ok::<Seq<TestVectorView>, Error>(seq![vector@]),
        documented_cell(old(vectors)@.len() as int, vector@),
    ensures
        collected(final(vectors)@, step),
        final(vectors)@.len() == old(vectors)@.len() + 1,
{
    proof {
        reveal(collected);
        lemma_next_step(step);
    }
    vectors.push(vector);
    assert(views_of(vectors@) =~= views_of(old(vectors)@) + seq![vector@]);
}

/// Appends the two vectors that a procedure contributes.
fn push_two(
    vectors: &mut Vec<TestVector>,
    first: TestVector,
    second: TestVector,
    Ghost(step): Ghost<nat>,
)
    requires
        step >= 1,
        collected(old(vectors)@, (step - 1) as nat),
        contribution(step) == Ok::<Seq<TestVectorView>, Error>(seq![first@, second@]),
        documented_cell(old(vectors)@.len() as int, first@),
        documented_cell(old(vectors)@.len() as int + 1, second@),
    ensures
        collected(final(vectors)@, step),
        final(vectors)@.len() == old(vectors)@.len() + 2,
{
    proof {
        reveal(collected);
        lemma_next_step(step);
    }
    vectors.push(first);
    vectors.push(second);
    assert(views_of(vectors@) =~= views_of(old(vectors)@) + seq![first@, second@]);
}

/// Whether a run of the generator returned what is specified.
pub open spec fn as_generated(out: Result<Vec<TestVector>, Error>) -> bool {
    match out {
        Ok(vectors) => generate_test_vectors_spec() == Ok::<Seq<TestVectorView>, Error>(
            views_of(vectors@),
        ),
        Err(e) => generate_test_vectors_spec() == Err::<Seq<TestVectorView>, Error>(e),
    }
}

/// Two runs of the generator end alike: with the same vectors, byte for
/// byte, or with the same error.
pub proof fn lemma_same_on_every_run(
    first: Result<Vec<TestVector>, Error>,
    second: Result<Vec<TestVector>, Error>,
)
    requires
        as_generated(first),
        as_generated(second),
    ensures
        match (first, second) {
            (Ok(a), Ok(b)) => views_of(a@) == views_of(b@),
            (Err(e), Err(f)) => e == f,
            _ => false,
        },
{
}

/// The twelve vectors, in the order of their scenarios.
///
/// Every run returns the same: the result is a function of the fixed seed
/// alone.  Each vector was run through the verification equations and
/// stands towards them as `documented_cell` says of its position.
pub fn generate_test_vectors() -> (out: Result<Vec<TestVector>, Error>)
    ensures
        as_generated(out),
        out matches Ok(vectors) ==> {
            &&& vectors@.len() == 12
            &&& forall|k: int| 0 <= k < 12 ==> documented_cell(k, #[trigger] vectors@[k]@)
        },
{
    let mut vec: Vec<TestVector> = Vec::new();
    proof {
        lemma_collected_nothing(vec@);
    }

    // S = 0, small A, small R.
    let (_tv1, tv2) = match zero_small_small() {
        Ok(pair) => pair,
        Err(e) => {
            proof {
                lemma_collected_error(vec@, 1, e);
            }
            return Err(e);
        },
    };
    push_one(&mut vec, tv2, Ghost(1));

    // S < L, small A, mixed R.
    let (_tv1, tv2) = match non_zero_mixed_small() {
        Ok(pair) => pair,
        Err(e) => {
            proof {
                lemma_collected_error(vec@, 2, e);
            }
            return Err(e);
        },
    };
    push_one(&mut vec, tv2, Ghost(2));

    // S < L, mixed A, small R.
    let (_tv1, tv2) = match non_zero_small_mixed() {
        Ok(pair) => pair,
        Err(e) => {
            proof {
                lemma_collected_error(vec@, 3, e);
            }
            return Err(e);
        },
    };
    push_one(&mut vec, tv2, Ghost(3));

    // S < L, mixed A, mixed R: first the vector that passes both equations,
    // then the one that fails the cofactorless equation.
    let (tv1, tv2) = match non_zero_mixed_mixed() {
        Ok(pair) => pair,
        Err(e) => {
            proof {
                lemma_collected_error(vec@, 4, e);
            }
            return Err(e);
        },
    };
    push_two(&mut vec, tv2, tv1, Ghost(4));

    // Fails the cofactored equation if and only if 8 h is reduced first.
    let tv1 = match pre_reduced_scalar() {
        Ok(vector) => vector,
        Err(e) => {
            proof {
                lemma_collected_error(vec@, 5, e);
            }
            return Err(e);
        },
    };
    push_one(&mut vec, tv1, Ghost(5));

    // S > L.
    let tv1 = match large_s() {
        Ok(vector) => vector,
        Err(e) => {
            proof {
                lemma_collected_error(vec@, 6, e);
            }
            return Err(e);
        },
    };
    push_one(&mut vec, tv1, Ghost(6));

    // S beyond what a check of the highest bits catches.
    let tv1 = match really_large_s() {
        Ok(vector) => vector,
        Err(e) => {
            proof {
                lemma_collected_error(vec@, 7, e);
            }
            return Err(e);
        },
    };
    push_one(&mut vec, tv1, Ghost(7));

    // R in an encoding that is not canonical.
    let mut tv_vec = match non_zero_small_non_canonical_mixed() {
        Ok(vectors) => vectors,
        Err(e) => {
            proof {
                lemma_collected_error(vec@, 8, e);
            }
            return Err(e);
        },
    };
    let (tv1, tv2) = take_two(&mut tv_vec);
    push_two(&mut vec, tv1, tv2, Ghost(8));

    // A in an encoding that is not canonical.
    let mut tv_vec = match non_zero_mixed_small_non_canonical() {
        Ok(vectors) => vectors,
        Err(e) => {
            proof {
                lemma_collected_error(vec@, 9, e);
            }
            return Err(e);
        },
    };
    let (tv1, tv2) = take_two(&mut tv_vec);
    push_two(&mut vec, tv1, tv2, Ghost(9));

    proof {
        reveal(collected);
    }
    Ok(vec)
}

/// Takes the two vectors out of a sequence of two.
fn take_two(vectors: &mut Vec<TestVector>) -> (pair: (TestVector, TestVector))
    requires
        old(vectors)@.len() == 2,
    ensures
        pair.0 == old(vectors)@[0],
        pair.1 == old(vectors)@[1],
{
    let second = vectors.pop().unwrap();
    let first = vectors.pop().unwrap();
    (first, second)
}

} // verus!
