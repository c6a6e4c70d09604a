//! Bounds between sizes that are settled before anything runs.

use vstd::prelude::*;

verus! {

/// Evidence that `LESSER` is at most `GREATER`.
///
/// The bound is settled statically: obtaining the evidence has the bound as
/// its precondition, so a caller for which it fails is rejected before
/// anything runs.
pub struct Leq<const LESSER: usize, const GREATER: usize>;

impl<const LESSER: usize, const GREATER: usize> Leq<LESSER, GREATER> {
    /// The bound that this type stands for.
    pub open spec fn holds() -> bool {
        LESSER <= GREATER
    }

    /// Checks the bound and returns the evidence of it.
    pub fn check() -> (evidence: Self)
        requires
            Self::holds(),
        ensures
            evidence == (Self {}),
    {
        Self {}
    }
}

} // verus!
