//! Relocation of items out of an array, one cell at a time.

use crate::slot::{live, slots_view, MaybeUninit};
use vstd::prelude::*;

verus! {

/// Moves the cell at `ix` out of `xs` and leaves a vacant cell in its place.
///
/// This is the only way a value leaves an array of cells: after the call the
/// place it was read from is vacant, so the value cannot be read a second time.
pub fn copy_item<T, const N: usize>(xs: &mut [MaybeUninit<T>; N], ix: usize) -> (slot: MaybeUninit<
    T,
>)
    requires
        ix < N,
    ensures
        slot@ == slots_view(*old(xs))[ix as int],
        slots_view(*final(xs)) == slots_view(*old(xs)).update(ix as int, None),
{
    let mut slot = MaybeUninit::uninit();
    core::mem::swap(&mut xs[ix], &mut slot);
    assert(slots_view(*xs) =~= slots_view(*old(xs)).update(ix as int, None));
    slot
}

/// One live cell for each item of `arr`, in order.
///
/// Wraps `<[T; N]>::map`, which applies a function to each element of an
/// array in order and returns the results as an array of the same size; here
/// the function is `MaybeUninit::new`, so cell `i` of the result is live and
/// holds item `i` of `arr`.
#[verifier::external_body]
fn init_array<T, const N: usize>(arr: [T; N]) -> (xs: [MaybeUninit<T>; N])
    ensures
        slots_view(xs) == live(arr@),
{
    arr.map(MaybeUninit::new)
}

/// A source array whose items are relocated out one cell at a time.
///
/// The extractor owns the items that have not been relocated yet. Dropping it
/// finalizes exactly those; an item that was moved out is finalized by its new
/// owner and by nobody else.
pub struct AddressExtractor<T, const N: usize> {
    xs: [MaybeUninit<T>; N],
}

impl<T, const N: usize> View for AddressExtractor<T, N> {
    type V = Seq<Option<T>>;

    /// The `N` cells of the source: `Some` for an item still owned here,
    /// `None` for one that was moved out.
    closed spec fn view(&self) -> Seq<Option<T>> {
        slots_view(self.xs)
    }
}

impl<T, const N: usize> AddressExtractor<T, N> {
    /// The source has exactly `N` cells.
    pub proof fn lemma_view_len(&self)
        ensures
            self@.len() == N,
    {
    }

    /// Takes ownership of `arr`; every item is still in place.
    pub fn new(arr: [T; N]) -> (source: Self)
        ensures
            source@ == live(arr@),
    {
        Self { xs: init_array(arr) }
    }

    /// Takes ownership of an array of cells, live or not, as they are.
    pub fn from_uninit(xs: [MaybeUninit<T>; N]) -> (source: Self)
        ensures
            source@ == slots_view(xs),
    {
        Self { xs }
    }

    /// Relocates the cell at `ix` out of the source; the place it leaves behind
    /// is vacant from then on.
    pub fn copy_item(&mut self, ix: usize) -> (slot: MaybeUninit<T>)
        requires
            ix < N,
        ensures
            slot@ == old(self)@[ix as int],
            final(self)@ == old(self)@.update(ix as int, None),
    {
        self::copy_item(&mut self.xs, ix)
    }
}

} // verus!
