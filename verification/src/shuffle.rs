//! Random orderings, drawn with the `rand` crate.

use crate::text::texts;
use rand::rngs::ThreadRng;
use rand::seq::SliceRandom;
use vstd::prelude::*;

verus! {

/// `rand::rngs::ThreadRng`, the handle to the random generator of the current
/// thread. Nothing of its state is visible here.
#[verifier::external_type_specification]
#[verifier::external_body]
pub struct ExThreadRng(rand::rngs::ThreadRng);

/// `rand::thread_rng` hands out the handle to the generator of the current
/// thread, which the operating system seeds. Nothing is claimed of the
/// handle. The first call on a thread panics if the system gives no seed.
pub assume_specification[ rand::thread_rng ]() -> (rng: ThreadRng);

/// `a` holds the items of `b`, each as often as `b` does, in some order.
pub open spec fn permutes(a: Seq<Seq<char>>, b: Seq<Seq<char>>) -> bool {
    a.to_multiset() == b.to_multiset()
}

/// A reordering has as many items as what it reorders.
pub proof fn lemma_permutes_len(a: Seq<Seq<char>>, b: Seq<Seq<char>>)
    requires
        permutes(a, b),
    ensures
        a.len() == b.len(),
{
    a.to_multiset_ensures();
    b.to_multiset_ensures();
}

/// Calls `rand::seq::SliceRandom::shuffle` on the slice of `words`. It only
/// swaps items of the slice with one another, so afterwards `words` holds the
/// texts it held before, each as often, in an order that `rng` decides.
/// Nothing is claimed of which order that is.
#[verifier::external_body]
pub(crate) fn shuffle(words: &mut Vec<String>, rng: &mut ThreadRng)
    ensures
        permutes(texts(final(words)@), texts(old(words)@)),
{
    words.shuffle(rng)
}

} // verus!
