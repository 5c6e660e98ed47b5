//! Buffer transfer protocol: lending a host array to foreign code and back.
//!
//! An array crosses the foreign boundary in three steps. `release` consumes the
//! array and gives a token; while the token lives, the host cannot reach the
//! elements except to hand them to one foreign call at a time; `reclaim`
//! consumes the token and gives the array back. A token cannot be copied, so an
//! array is reclaimed at most once, and only after it was released.

use vstd::prelude::*;

verus! {

/// An array that is lent to foreign code.
///
/// Only `release` makes a token and only `reclaim` unmakes it.
pub struct Lent<T> {
    data: Vec<T>,
}

impl<T> Lent<T> {
    /// The elements that foreign code sees.
    pub closed spec fn view(&self) -> Seq<T> {
        self.data@
    }

    /// Number of elements that foreign code may touch.
    pub fn len(&self) -> (n: usize)
        ensures
            n == self@.len(),
    {
        self.data.len()
    }

    /// The elements, for a foreign call that only reads them. The borrow ends
    /// with the call.
    pub fn use_foreign(&self) -> (slice: &[T])
        ensures
            slice@ == self@,
    {
        self.data.as_slice()
    }

    /// The elements, for a foreign call that writes them in place. What the
    /// call leaves in the slice is what the token holds afterwards.
    pub fn use_foreign_mut(&mut self) -> (slice: &mut [T])
        ensures
            slice@ == old(self)@,
            final(self)@ == final(slice)@,
    {
        self.data.as_mut_slice()
    }
}

/// `Vec::shrink_to_fit`: gives back the capacity the vector does not use. The
/// elements and their order stay as they were.
#[verifier::external_body]
fn shrink_to_fit<T>(array: &mut Vec<T>)
    ensures
        final(array)@ == old(array)@,
{
    array.shrink_to_fit();
}

/// Lends `array` out: the array is consumed, and its storage is cut down to the
/// elements it holds.
pub fn release<T>(array: Vec<T>) -> (lent: Lent<T>)
    ensures
        lent@ == array@,
{
    let mut data = array;
    shrink_to_fit(&mut data);
    Lent { data }
}

/// Takes a lent array back: the token is consumed and the host owns the
/// elements again.
pub fn reclaim<T>(lent: Lent<T>) -> (array: Vec<T>)
    ensures
        array@ == lent@,
{
    lent.data
}

/// Releasing an array and reclaiming it gives the same elements in the same
/// order, and so the same length, whatever the array holds.
pub proof fn lemma_round_trip<T>(array: Vec<T>, lent: Lent<T>, back: Vec<T>)
    requires
        call_ensures(release::<T>, (array,), lent),
        call_ensures(reclaim::<T>, (lent,), back),
    ensures
        back@ == array@,
        back@.len() == array@.len(),
{
}

} // verus!
