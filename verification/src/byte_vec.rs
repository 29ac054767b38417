use vstd::prelude::*;

verus! {

/// Mutable view of the tail `vec[start..]` of a byte vector, through std's
/// `IndexMut<RangeFrom<usize>>` for `Vec<u8>`.
///
/// Trusted: std documents that the returned slice is exactly the elements from
/// `start` to the end, that writes through it land in the vector, and a slice
/// cannot change its length; so the vector afterwards is its unchanged prefix
/// followed by whatever the slice holds when the borrow ends.
#[verifier::external_body]
pub(crate) fn vec_tail_mut(vec: &mut Vec<u8>, start: usize) -> (tail: &mut [u8])
    requires
        start <= old(vec)@.len(),
    ensures
        tail@ == old(vec)@.skip(start as int),
        final(tail)@.len() == tail@.len(),
        final(vec)@ == old(vec)@.take(start as int) + final(tail)@,
{
    &mut vec[start..]
}

} // verus!

verus! {

/// Appends the bytes of `slice` to `vec`.
pub(crate) fn append_bytes(vec: &mut Vec<u8>, slice: &[u8])
    ensures
        final(vec)@ == old(vec)@ + slice@,
{
    vec.extend_from_slice(slice);
    assert(final(vec)@ =~= old(vec)@ + slice@);
}

} // verus!

verus! {

/// The capacity of `vec`, through std's `Vec::capacity`.
///
/// Trusted, with nothing stated: the capacity is what the allocator gave.
#[verifier::external_body]
pub(crate) fn vec_capacity<T>(vec: &Vec<T>) -> usize {
    vec.capacity()
}

} // verus!

verus! {

/// Releases spare capacity of `vec`, through std's `Vec::shrink_to_fit`.
///
/// Trusted: std documents that it only changes the capacity, so the elements
/// stay as they are.
#[verifier::external_body]
pub(crate) fn vec_shrink_to_fit(vec: &mut Vec<u8>)
    ensures
        final(vec)@ == old(vec)@,
{
    vec.shrink_to_fit()
}

} // verus!
