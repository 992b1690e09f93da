//! Source of randomness for the slideshow ordering.

use std::ops::Range;

use vstd::prelude::*;

verus! {

/// Calls `rand::rng().random_range(range)`: a number drawn uniformly from the half-open range,
/// which the contract states only by its bounds. The range must not be empty (rand panics on
/// an empty range).
#[verifier::external_body]
fn thread_random_range(range: Range<u32>) -> (r: u32)
    requires
        range.start < range.end,
    ensures
        range.start <= r < range.end,
{
    rand::Rng::random_range(&mut rand::rng(), range)
}

/// Calls `SliceRandom::shuffle` with `rand::rng()`: rand's shuffle only swaps elements, so the
/// result holds the same elements; their order is left unsaid.
#[verifier::external_body]
fn thread_shuffle<T>(slice: &mut [T])
    ensures
        final(slice)@.to_multiset() == old(slice)@.to_multiset(),
{
    rand::seq::SliceRandom::shuffle(slice, &mut rand::rng())
}

/// `r` is a number rand's thread-local generator can draw from `range` (an outcome of
/// [`thread_random_range`]).
pub closed spec fn drawn_by_rand(range: Range<u32>, r: u32) -> bool {
    call_ensures(thread_random_range, (range,), r)
}

/// `m` is a slice rand's `SliceRandom::shuffle` with the thread-local generator can have
/// shuffled (a call of [`thread_shuffle`] on it can return): `final(m)@` is a possible order of
/// `m@`.
pub closed spec fn shuffled_by_rand<T>(m: &mut [T]) -> bool {
    call_ensures(thread_shuffle::<T>, (m,), ())
}

/// Randomized choices of the slideshow: where a random start begins, and how a random order
/// permutes the photos.
pub trait Random {
    /// A number in the range.
    fn random_range(&self, range: Range<u32>) -> (r: u32)
        requires
            range.start < range.end,
        ensures
            range.start <= r < range.end,
        default_ensures
            drawn_by_rand(range, r),
    {
        thread_random_range(range)
    }

    /// Reorders the elements.
    fn shuffle<T>(&self, slice: &mut [T])
        ensures
            final(slice)@.to_multiset() == old(slice)@.to_multiset(),
        default_ensures
            exists|m: &mut [T]|
                #[trigger] shuffled_by_rand(m) && m@ == old(slice)@
                    && final(m)@ == final(slice)@,
    {
        thread_shuffle(slice);
        proof {
            assert forall|m: &mut [T]| #[trigger] call_ensures(thread_shuffle::<T>, (m,), ()) implies shuffled_by_rand(m) by {}
        }
    }
}

/// Randomness from the thread-local generator of the `rand` crate.
pub struct RandomImpl;

impl Random for RandomImpl {

}


} // verus!
