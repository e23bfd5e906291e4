//! Identifiers for users, sessions and todo items: random 128-bit values,
//! with a deterministic fallback that is fresh by construction.
use vstd::prelude::*;
use vstd::set_lib::{lemma_int_range, lemma_len_subset, set_int_range};

verus! {

/// Relies on uuid::Uuid::new_v4 and Uuid::as_u128: a random version-4 UUID,
/// read as its 128-bit value. Nothing is known of the value drawn.
#[verifier::external_body]
fn random_id() -> (r: u128) {
    uuid::Uuid::new_v4().as_u128()
}

/// Whether `v` occurs in `taken`.
pub fn is_taken(taken: &Vec<u128>, v: u128) -> (r: bool)
    ensures
        r == taken@.contains(v),
{
    let mut i: usize = 0;
    while i < taken.len()
        invariant
            0 <= i <= taken@.len(),
            forall|j: int| 0 <= j < i ==> taken@[j] != v,
        decreases taken@.len() - i,
    {
        if taken[i] == v {
            return true;
        }
        i = i + 1;
    }
    false
}

/// Among the values `0..=taken.len()` at least one is not in `taken`.
proof fn lemma_small_value_free(taken: Seq<u128>)
    requires
        taken.len() < u128::MAX,
    ensures
        exists|c: u128| c <= taken.len() && !taken.contains(c),
{
    if forall|c: u128| c <= taken.len() ==> taken.contains(c) {
        let as_int = taken.map_values(|x: u128| x as int);
        let ints = as_int.to_set();
        lemma_int_range(0, (taken.len() + 1) as int);
        assert forall|k: int| set_int_range(0, (taken.len() + 1) as int).contains(k) implies ints.contains(
            k,
        ) by {
            let c = k as u128;
            assert(taken.contains(c));
            let j = choose|j: int| 0 <= j < taken.len() && taken[j] == c;
            assert(as_int[j] == k);
        }
        vstd::seq_lib::seq_to_set_is_finite(as_int);
        lemma_len_subset(set_int_range(0, (taken.len() + 1) as int), ints);
        as_int.lemma_cardinality_of_set();
        assert(false);
    }
}

/// A value that does not occur in `taken`. A random value is drawn first; on
/// a collision the smallest free value in `0..=taken.len()` is taken instead.
pub fn fresh_id(taken: &Vec<u128>) -> (r: u128)
    ensures
        !taken@.contains(r),
{
    let drawn = random_id();
    if !is_taken(taken, drawn) {
        return drawn;
    }
    let len = taken.len();
    proof {
        assert(taken@.len() == len);
        assert(usize::MAX < u128::MAX);
        lemma_small_value_free(taken@);
    }
    let n = len as u128;
    let mut c: u128 = 0;
    while is_taken(taken, c)
        invariant
            c <= n,
            n == taken@.len(),
            exists|d: u128| c <= d <= n && !taken@.contains(d),
        decreases n - c,
    {
        if c == n {
            assert(false);
        }
        c = c + 1;
    }
    c
}

} // verus!
