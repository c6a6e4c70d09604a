//! Iteration over the items of a vector, by reference and by value.

use crate::addressing::copy_item;
use crate::slot::{live, slots_view, vacant, MaybeUninit};
use crate::ConstVec;
use vstd::prelude::*;

verus! {

/// What the next step of an iteration yields, given the items still to come.
pub open spec fn next_item<T>(rest: Seq<T>) -> Option<T> {
    if rest.len() > 0 {
        Some(rest[0])
    } else {
        None
    }
}

/// The items still to come after one more step of an iteration.
pub open spec fn after_next<T>(rest: Seq<T>) -> Seq<T> {
    if rest.len() > 0 {
        rest.skip(1)
    } else {
        rest
    }
}

/// The items still to come after `steps` steps of an iteration.
pub open spec fn after_steps<T>(rest: Seq<T>, steps: nat) -> Seq<T>
    decreases steps,
{
    if steps == 0 {
        rest
    } else {
        after_steps(after_next(rest), (steps - 1) as nat)
    }
}

/// An iteration over `items` yields them one per step in index order, and
/// nothing from then on: step `n`, counted from 0, yields `items[n]` where
/// `n` is below the number of items, and nothing where it is not. So an
/// iteration over `k` items is used up after exactly `k` steps.
pub proof fn lemma_iteration_in_order<T>(items: Seq<T>, n: nat)
    ensures
        after_steps(items, n) == (if n <= items.len() {
            items.skip(n as int)
        } else {
            Seq::<T>::empty()
        }),
        n < items.len() ==> next_item(after_steps(items, n)) == Some(items[n as int]),
        n >= items.len() ==> next_item(after_steps(items, n)) is None,
    decreases n,
{
    if n == 0 {
        assert(items.skip(0) =~= items);
    } else if items.len() == 0 {
        lemma_iteration_in_order(items, (n - 1) as nat);
    } else {
        let rest = items.skip(1);
        lemma_iteration_in_order(rest, (n - 1) as nat);
        if n <= items.len() {
            assert(rest.skip(n - 1) =~= items.skip(n as int));
        }
    }
}

/// Both iterators of a vector yield the same item at every step, namely the
/// item of the vector at that index, and nothing once the items are used up.
/// Here `by_ref` is any fresh iterator by reference over `v`, the first or a
/// later one, and `by_value` is the iterator that `v` is turned into.
pub proof fn lemma_iterators_agree<T, const CAP: usize>(
    v: ConstVec<T, CAP>,
    by_ref: ConstVecIter<'_, T, CAP>,
    by_value: ConstVecIntoIter<T, CAP>,
    n: nat,
)
    requires
        by_ref.wf(),
        by_ref.source() == v,
        by_ref.position() == 0,
        by_value@ == v@,
    ensures
        next_item(after_steps(by_ref@, n)) == next_item(after_steps(by_value@, n)),
        n < v@.len() ==> next_item(after_steps(by_ref@, n)) == Some(v@[n as int]),
        n >= v@.len() ==> next_item(after_steps(by_ref@, n)) is None,
{
    assert(v@.skip(0) =~= v@);
    lemma_iteration_in_order(v@, n);
}

/// Iterates over the items of a vector by reference, in index order.
pub struct ConstVecIter<'a, T, const N: usize> {
    vec: &'a ConstVec<T, N>,
    ix: usize,
}

impl<'a, T, const N: usize> View for ConstVecIter<'a, T, N> {
    type V = Seq<T>;

    /// The items still to come, in the order in which they come.
    closed spec fn view(&self) -> Seq<T> {
        self.vec@.skip(self.ix as int)
    }
}

impl<'a, T, const N: usize> ConstVecIter<'a, T, N> {
    /// The vector that is iterated over.
    pub closed spec fn source(&self) -> ConstVec<T, N> {
        *self.vec
    }

    /// The number of items yielded so far.
    pub closed spec fn position(&self) -> nat {
        self.ix as nat
    }

    /// The invariant of the iterator: its vector is well formed and its
    /// position lies within it.
    pub open spec fn wf(&self) -> bool {
        &&& self.source().wf()
        &&& self.position() <= self.source()@.len()
        &&& self@ == self.source()@.skip(self.position() as int)
    }

    /// Yields the next item, if one is left. The vector is not changed.
    pub fn next(&mut self) -> (item: Option<&'a T>)
        requires
            old(self).wf(),
        ensures
            final(self).wf(),
            final(self).source() == old(self).source(),
            final(self)@ == after_next(old(self)@),
            old(self)@.len() > 0 ==> item == Some(&old(self)@[0]),
            old(self)@.len() == 0 ==> item is None,
    {
        let vec: &'a ConstVec<T, N> = self.vec;
        if self.ix < vec.len {
            let res = vec.get(self.ix);
            self.ix += 1;
            assert(self@ =~= old(self)@.skip(1));
            res
        } else {
            None
        }
    }

    /// The number of items still to come, as a lower and an upper bound.
    pub fn size_hint(&self) -> (hint: (usize, Option<usize>))
        requires
            self.wf(),
        ensures
            hint.0 == self@.len(),
            hint.1 == Some(hint.0),
    {
        let len: usize = self.vec.len - self.ix;
        (len, Some(len))
    }
}

/// Iterates over the items of a vector by value, in index order. The
/// iterator owns the items that it has not yielded yet.
pub struct ConstVecIntoIter<T, const CAP: usize> {
    xs: [MaybeUninit<T>; CAP],
    ix: usize,
    len: usize,
}

impl<T, const CAP: usize> View for ConstVecIntoIter<T, CAP> {
    type V = Seq<T>;

    /// The items still to come, in the order in which they come.
    closed spec fn view(&self) -> Seq<T> {
        Seq::new((self.len - self.ix) as nat, |i: int| self.xs[self.ix + i]@->Some_0)
    }
}

impl<T, const CAP: usize> ConstVecIntoIter<T, CAP> {
    /// The contents of the `CAP` cells of the storage.
    pub closed spec fn slots(&self) -> Seq<Option<T>> {
        slots_view(self.xs)
    }

    /// The number of items yielded so far.
    pub closed spec fn position(&self) -> nat {
        self.ix as nat
    }

    /// The number of items that the vector held when the iteration began.
    pub closed spec fn total(&self) -> nat {
        self.len as nat
    }

    /// The invariant of the iterator: the cells of the items still to come
    /// are live and hold them in order, and every other cell is vacant:
    /// those of the items already yielded, and those that never held one.
    pub open spec fn wf(&self) -> bool {
        &&& self.position() + self@.len() == self.total()
        &&& self.total() <= CAP
        &&& self.slots() == vacant::<T>(self.position()) + live(self@) + vacant::<T>(
            (CAP - self.position() - self@.len()) as nat,
        )
    }

    /// In a well-formed iterator the live cells are exactly those of the items
    /// still to come. So an iterator that is dropped early finalizes those
    /// items and no other: not the ones it has yielded, and nothing from behind
    /// the last item.
    pub proof fn lemma_live_range(&self)
        requires
            self.wf(),
        ensures
            self.slots().len() == CAP,
            forall|i: int| 0 <= i < self.position() ==> self.slots()[i] is None,
            forall|i: int|
                0 <= i < self@.len() ==> self.slots()[self.position() + i] == Some(self@[i]),
            forall|i: int| self.total() <= i < CAP ==> self.slots()[i] is None,
    {
    }

    /// An iterator whose cells hold `rest` right behind `ix` vacant cells, and
    /// nothing else, is well formed and has `rest` as its view.
    proof fn lemma_view_from_slots(it: Self, rest: Seq<T>)
        requires
            it.ix + rest.len() == it.len,
            it.len <= CAP,
            it.slots() == vacant::<T>(it.ix as nat) + live(rest) + vacant::<T>(
                (CAP - it.ix - rest.len()) as nat,
            ),
        ensures
            it@ == rest,
            it.wf(),
    {
        assert forall|i: int| 0 <= i < rest.len() implies it@[i] == rest[i] by {
            assert(it.slots()[it.ix + i] == Some(rest[i]));
        }
        assert(it@ =~= rest);
    }

    /// Yields the next item, if one is left, and gives up its cell.
    pub fn next(&mut self) -> (item: Option<T>)
        requires
            old(self).wf(),
        ensures
            final(self).wf(),
            final(self)@ == after_next(old(self)@),
            item == next_item(old(self)@),
            final(self).total() == old(self).total(),
    {
        if self.ix < self.len {
            let ghost rest = self@;
            assert(self.slots()[self.ix as int] == Some(rest[0]));
            let item = copy_item(&mut self.xs, self.ix).assume_init();
            self.ix += 1;
            proof {
                let left = rest.skip(1);
                assert(self.slots() =~= vacant::<T>(self.ix as nat) + live(left) + vacant::<T>(
                    (CAP - self.ix - left.len()) as nat,
                ));
                Self::lemma_view_from_slots(*self, left);
            }
            Some(item)
        } else {
            None
        }
    }

    /// The number of items still to come, as a lower and an upper bound.
    pub fn size_hint(&self) -> (hint: (usize, Option<usize>))
        requires
            self.wf(),
        ensures
            hint.0 == self@.len(),
            hint.1 == Some(hint.0),
    {
        let len: usize = self.len - self.ix;
        (len, Some(len))
    }
}

impl<T, const CAP: usize> ConstVec<T, CAP> {
    /// A fresh iterator over the items by reference. The vector stays as it
    /// is and can be iterated over again.
    pub fn iter(&self) -> (it: ConstVecIter<'_, T, CAP>)
        requires
            self.wf(),
        ensures
            it.wf(),
            it.source() == *self,
            it.position() == 0,
            it@ == self@,
    {
        let it = ConstVecIter { vec: self, ix: 0 };
        assert(it@ =~= self@);
        it
    }

    /// Turns the vector into an iterator over its items by value.
    pub fn into_iter(self) -> (it: ConstVecIntoIter<T, CAP>)
        requires
            self.wf(),
        ensures
            it.wf(),
            it.position() == 0,
            it.total() == self@.len(),
            it@ == self@,
    {
        let it = ConstVecIntoIter { xs: self.xs, ix: 0, len: self.len };
        proof {
            assert(it.slots() =~= vacant::<T>(0) + live(self@) + vacant::<T>(
                (CAP - 0 - self@.len()) as nat,
            ));
            ConstVecIntoIter::lemma_view_from_slots(it, self@);
        }
        it
    }
}

} // verus!
