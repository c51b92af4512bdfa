//! Random sampling of question indices, and the random display order of a
//! question's answer buttons.
//!
//! The randomness comes from the `rand` crate through one trusted wrapper
//! that permutes a vector in place; everything proved here holds for every
//! permutation the wrapper may produce.

use vstd::prelude::*;

verus! {

/// A sequence is a distinct selection out of `n` when every element is an
/// index below `n` and no element repeats.
pub open spec fn distinct_indices_below(s: Seq<usize>, n: int) -> bool {
    &&& forall|i: int| 0 <= i < s.len() ==> #[trigger] s[i] < n
    &&& s.no_duplicates()
}

/// Relies on rand's `SliceRandom::shuffle` with `rand::thread_rng`: it
/// reorders the slice in place, so the elements afterwards are exactly the
/// elements before, as a multiset. Nothing is assumed about the order.
#[verifier::external_body]
fn shuffle_in_place(v: &mut Vec<usize>)
    ensures
        final(v)@.to_multiset() == old(v)@.to_multiset(),
{
    rand::prelude::SliceRandom::shuffle(v.as_mut_slice(), &mut rand::thread_rng());
}

/// The identity sequence `0, 1, ..., n - 1`.
pub open spec fn identity_seq(n: int) -> Seq<usize> {
    Seq::new(n as nat, |i: int| i as usize)
}

/// Builds the vector `0, 1, ..., n - 1`.
fn identity_vec(n: usize) -> (r: Vec<usize>)
    ensures
        r@ == identity_seq(n as int),
{
    let mut r: Vec<usize> = Vec::new();
    let mut i: usize = 0;
    while i < n
        invariant
            i <= n,
            r@ == identity_seq(i as int),
        decreases n - i,
    {
        r.push(i);
        i += 1;
        proof {
            assert(r@ =~= identity_seq(i as int));
        }
    }
    r
}

/// Two sequences with equal multisets contain the same values; if one has no
/// duplicates, neither has the other.
proof fn lemma_permutation_preserves_distinct(a: Seq<usize>, b: Seq<usize>)
    requires
        a.to_multiset() == b.to_multiset(),
        a.no_duplicates(),
    ensures
        b.no_duplicates(),
        forall|i: int| 0 <= i < b.len() ==> a.contains(#[trigger] b[i]),
{
    a.to_multiset_ensures();
    b.to_multiset_ensures();
    a.lemma_multiset_has_no_duplicates();
    b.lemma_multiset_has_no_duplicates_conv();
    assert forall|i: int| 0 <= i < b.len() implies a.contains(#[trigger] b[i]) by {
        assert(b.to_multiset().count(b[i]) > 0);
    }
}

/// A prefix of a sequence without duplicates has no duplicates either.
proof fn lemma_prefix_no_duplicates(s: Seq<usize>, n: int)
    requires
        0 <= n <= s.len(),
        s.no_duplicates(),
    ensures
        s.subrange(0, n).no_duplicates(),
{
}

/// Samples `n` distinct question indices out of a bank of `len` questions,
/// uniformly at random and in random order: every returned index is below
/// `len` and no index repeats.
pub fn sample_indices(len: usize, n: usize) -> (r: Vec<usize>)
    requires
        n <= len,
    ensures
        r@.len() == n,
        distinct_indices_below(r@, len as int),
{
    let mut all = identity_vec(len);
    shuffle_in_place(&mut all);
    proof {
        assert(identity_seq(len as int).no_duplicates());
        lemma_permutation_preserves_distinct(identity_seq(len as int), all@);
        assert forall|i: int| 0 <= i < all@.len() implies #[trigger] all@[i] < len by {
            assert(identity_seq(len as int).contains(all@[i]));
            let j = choose|j: int|
                0 <= j < len && identity_seq(len as int)[j] == all@[i];
        }
        identity_seq(len as int).to_multiset_ensures();
        all@.to_multiset_ensures();
        assert(all@.len() == len);
    }
    let mut r: Vec<usize> = Vec::new();
    let mut i: usize = 0;
    while i < n
        invariant
            i <= n,
            n <= all@.len(),
            r@ == all@.subrange(0, i as int),
            distinct_indices_below(all@, len as int),
        decreases n - i,
    {
        r.push(all[i]);
        i += 1;
        proof {
            assert(r@ =~= all@.subrange(0, i as int));
        }
    }
    proof {
        lemma_prefix_no_duplicates(all@, n as int);
        assert forall|i: int| 0 <= i < r@.len() implies #[trigger] r@[i] < len by {
            assert(r@[i] == all@[i]);
        }
    }
    r
}

/// The order in which a question's answers are displayed: a permutation of
/// `0, ..., count - 1`. The order is randomized only when there are exactly
/// four answers; with any other count the answers keep their own order.
pub fn display_order(count: usize) -> (r: Vec<usize>)
    requires
        count <= 4,
    ensures
        r@.len() == count,
        distinct_indices_below(r@, count as int),
        count != 4 ==> r@ == identity_seq(count as int),
{
    let mut r = identity_vec(count);
    proof {
        assert(identity_seq(count as int).no_duplicates());
    }
    if count == 4 {
        shuffle_in_place(&mut r);
        proof {
            lemma_permutation_preserves_distinct(identity_seq(count as int), r@);
            assert forall|i: int| 0 <= i < r@.len() implies #[trigger] r@[i] < count by {
                assert(identity_seq(count as int).contains(r@[i]));
                let j = choose|j: int|
                    0 <= j < count && identity_seq(count as int)[j] == r@[i];
            }
            identity_seq(count as int).to_multiset_ensures();
            r@.to_multiset_ensures();
        }
    }
    r
}

} // verus!
