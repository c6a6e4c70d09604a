//! Storage cells: the unit of which the storage of a vector is made.

use vstd::prelude::*;

verus! {

/// A storage cell that is either vacant or holds exactly one live value.
///
/// The owner of a cell keeps track of whether it is live: every operation
/// that reads a value out of a cell has as its precondition that the cell is
/// live. Writing a cell needs no such care, and a vacant cell costs nothing
/// to drop.
pub struct MaybeUninit<T> {
    value: Option<T>,
}

impl<T> View for MaybeUninit<T> {
    type V = Option<T>;

    /// `Some(v)` for a live cell holding `v`, `None` for a vacant one.
    closed spec fn view(&self) -> Option<T> {
        self.value
    }
}

impl<T> MaybeUninit<T> {
    /// Whether the cell holds a live value.
    pub open spec fn is_init(&self) -> bool {
        self@ is Some
    }

    /// Two cells with the same contents are the same cell value.
    pub proof fn lemma_view_injective(a: Self, b: Self)
        requires
            a@ == b@,
        ensures
            a == b,
    {
    }

    /// A vacant cell.
    pub fn uninit() -> (slot: Self)
        ensures
            slot@ is None,
    {
        MaybeUninit { value: None }
    }

    /// A live cell holding `value`.
    pub fn new(value: T) -> (slot: Self)
        ensures
            slot@ == Some(value),
    {
        MaybeUninit { value: Some(value) }
    }

    /// Consumes a live cell and hands out the value it held.
    pub fn assume_init(self) -> (value: T)
        requires
            self.is_init(),
        ensures
            self@ == Some(value),
    {
        self.value.unwrap()
    }

    /// Borrows the value of a live cell.
    pub fn assume_init_ref(&self) -> (value: &T)
        requires
            self.is_init(),
        ensures
            self@ == Some(*value),
    {
        self.value.as_ref().unwrap()
    }
}

/// The contents of an array of cells, cell by cell.
pub open spec fn slots_view<T, const N: usize>(xs: [MaybeUninit<T>; N]) -> Seq<Option<T>> {
    Seq::new(N as nat, |i: int| xs[i]@)
}

/// `n` vacant cells.
pub open spec fn vacant<T>(n: nat) -> Seq<Option<T>> {
    Seq::new(n, |i: int| None::<T>)
}

/// One live cell for each value of `items`, in order.
pub open spec fn live<T>(items: Seq<T>) -> Seq<Option<T>> {
    Seq::new(items.len(), |i: int| Some(items[i]))
}

/// Arrays of cells with the same contents are the same array value.
pub proof fn lemma_slots_view_injective<T, const N: usize>(
    a: [MaybeUninit<T>; N],
    b: [MaybeUninit<T>; N],
)
    requires
        slots_view(a) == slots_view(b),
    ensures
        a == b,
{
    assert forall|i: int| 0 <= i < N implies a[i] == b[i] by {
        assert(slots_view(a)[i] == slots_view(b)[i]);
        MaybeUninit::lemma_view_injective(a[i], b[i]);
    }
    assert(a =~= b);
}

/// An array of `N` vacant cells.
///
/// Wraps `core::array::from_fn`, which builds an array by calling the given
/// function once per index; here the function is `MaybeUninit::uninit`, so
/// every cell of the result is vacant.
#[verifier::external_body]
pub(crate) fn uninit_array<T, const N: usize>() -> (xs: [MaybeUninit<T>; N])
    ensures
        slots_view(xs) == vacant::<T>(N as nat),
{
    core::array::from_fn(|_ix| MaybeUninit::uninit())
}

} // verus!
