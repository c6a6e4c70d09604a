//! Bulk relocation of an array into a wider array of cells.

use crate::addressing::AddressExtractor;
use crate::assertions::Leq;
use crate::slot::{live, slots_view, uninit_array, vacant, MaybeUninit};
use vstd::prelude::*;

verus! {

/// Widens an array of `N` cells to `CAP` cells: the first `N` cells are those
/// of `xs`, moved, and the rest are vacant.
pub fn extend_uninit_array<T, const N: usize, const CAP: usize>(xs: [MaybeUninit<T>; N]) -> (buffer:
    [MaybeUninit<T>; CAP])
    requires
        N <= CAP,
    ensures
        slots_view(buffer) == slots_view(xs) + vacant::<T>((CAP - N) as nat),
{
    let addressor = AddressExtractor::from_uninit(xs);
    copy_from_raw::<T, N, CAP>(addressor)
}

/// Moves the `N` items of `xs` into the first `N` of `CAP` cells; the rest are
/// vacant.
pub fn extend_array<T, const N: usize, const CAP: usize>(xs: [T; N]) -> (buffer: [MaybeUninit<T>;
    CAP])
    requires
        N <= CAP,
    ensures
        slots_view(buffer) == live(xs@) + vacant::<T>((CAP - N) as nat),
{
    let addressor = AddressExtractor::new(xs);
    copy_from_raw::<T, N, CAP>(addressor)
}

/// Relocates every cell of `source` into a fresh buffer of `CAP` cells, cell
/// `i` to cell `i`. The source is left with vacant cells only, so dropping it
/// finalizes nothing that the buffer now owns.
fn copy_from_raw<T, const N: usize, const CAP: usize>(source: AddressExtractor<T, N>) -> (buffer:
    [MaybeUninit<T>; CAP])
    requires
        N <= CAP,
    ensures
        slots_view(buffer) == source@ + vacant::<T>((CAP - N) as nat),
{
    let _fits = Leq::<N, CAP>::check();
    let mut source = source;
    let ghost cells = source@;
    proof {
        source.lemma_view_len();
    }
    let mut buffer: [MaybeUninit<T>; CAP] = uninit_array();
    let mut ix: usize = 0;
    while ix < N
        invariant
            N <= CAP,
            ix <= N,
            cells.len() == N,
            source@ =~= vacant::<T>(ix as nat) + cells.skip(ix as int),
            slots_view(buffer) =~= cells.take(ix as int) + vacant::<T>((CAP - ix) as nat),
        decreases N - ix,
    {
        let ghost filled = slots_view(buffer);
        let slot = source.copy_item(ix);
        buffer[ix] = slot;
        assert(slots_view(buffer) =~= filled.update(ix as int, cells[ix as int]));
        ix += 1;
    }
    assert(cells.take(N as int) =~= cells);
    // Every cell has been relocated: the source is dropped holding nothing.
    assert(source@ =~= vacant::<T>(N as nat));
    buffer
}

} // verus!
