//! A vector of fixed capacity whose every mutation consumes the vector and
//! returns the new one.
//!
//! The storage is an array of `CAP` cells together with a length. The cells
//! below the length are live, the cells from the length on are vacant, and no
//! operation ever reads a vacant cell or leaves a live one behind the length.

use crate::addressing::copy_item;
use crate::array_extension::extend_array;
use crate::assertions::Leq;
use crate::slot::{lemma_slots_view_injective, live, slots_view, uninit_array, vacant, MaybeUninit};
use vstd::prelude::*;

pub mod addressing;
pub mod array_extension;
pub mod assertions;
pub mod iter;
pub mod slot;

verus! {

/// A vector that holds at most `CAP` items in place.
pub struct ConstVec<T, const CAP: usize> {
    len: usize,
    xs: [MaybeUninit<T>; CAP],
}

/// What a bounded insertion hands back when the vector is full: the vector as
/// it was, and the item that found no room.
pub struct CapacityError<T, const CAP: usize> {
    pub vector: ConstVec<T, CAP>,
    pub item: T,
}

/// A sequence with the item at `ix` removed and the last item put in its
/// place. The order of the other items is kept, that of the last one is not.
pub open spec fn swap_removed<T>(items: Seq<T>, ix: int) -> Seq<T>
    recommends
        0 <= ix < items.len(),
{
    items.update(ix, items.last()).drop_last()
}

impl<T, const CAP: usize> View for ConstVec<T, CAP> {
    type V = Seq<T>;

    /// The items of the vector, in index order.
    closed spec fn view(&self) -> Seq<T> {
        Seq::new(self.len as nat, |i: int| self.xs[i]@->Some_0)
    }
}

impl<T, const CAP: usize> ConstVec<T, CAP> {
    /// The contents of the `CAP` cells of the storage.
    pub closed spec fn slots(&self) -> Seq<Option<T>> {
        slots_view(self.xs)
    }

    /// The invariant of the vector: it holds at most `CAP` items, the cells
    /// below its length are live and hold its items in order, and every cell
    /// from its length on is vacant.
    pub open spec fn wf(&self) -> bool {
        &&& self@.len() <= CAP
        &&& self.slots() == live(self@) + vacant::<T>((CAP - self@.len()) as nat)
    }

    /// A well-formed vector is determined by its items.
    pub proof fn lemma_view_injective(a: Self, b: Self)
        requires
            a.wf(),
            b.wf(),
            a@ == b@,
        ensures
            a == b,
    {
        lemma_slots_view_injective(a.xs, b.xs);
    }

    /// In a well-formed vector the live cells are exactly those below the
    /// length, and cell `i` of them holds item `i`. So an operation that takes
    /// the item of a cell out can find one only below the length, and what lies
    /// from the length on holds nothing that could be read or finalized.
    pub proof fn lemma_live_prefix(&self)
        requires
            self.wf(),
        ensures
            self.slots().len() == CAP,
            forall|i: int| 0 <= i < self@.len() ==> self.slots()[i] == Some(self@[i]),
            forall|i: int| self@.len() <= i < CAP ==> self.slots()[i] is None,
    {
    }

    /// Pushing `items` one after another onto the empty vector gives, after
    /// each push, the vector of the items pushed so far, in the order in which
    /// they were pushed. Here `states[0]` is the empty vector and
    /// `states[k + 1]` is what `push` returns for `states[k]` and `items[k]`.
    pub proof fn lemma_pushes_in_order(states: Seq<Self>, items: Seq<T>, k: int)
        requires
            states.len() == items.len() + 1,
            states[0]@ == Seq::<T>::empty(),
            forall|i: int| 0 <= i < items.len() ==> (#[trigger] states[i + 1])@ == states[i]@.push(
                items[i],
            ),
            0 <= k <= items.len(),
        ensures
            states[k]@ == items.take(k),
            k == items.len() ==> states[k]@ == items,
        decreases k,
    {
        if k == 0 {
            assert(items.take(0) =~= Seq::<T>::empty());
        } else {
            Self::lemma_pushes_in_order(states, items, k - 1);
            assert(states[(k - 1) + 1]@ == states[k - 1]@.push(items[k - 1]));
            assert(items.take(k) =~= items.take(k - 1).push(items[k - 1]));
        }
        assert(items.take(items.len() as int) =~= items);
    }

    /// `pop` undoes the most recent `push`: where `pushed` is what `push`
    /// returns for `before` and `item`, and `popped` and `out` are what `pop`
    /// returns for `pushed`, `popped` is `before` and `out` is `item`.
    pub proof fn lemma_pop_undoes_push(before: Self, item: T, pushed: Self, popped: Self, out: T)
        requires
            before.wf(),
            pushed@ == before@.push(item),
            popped.wf(),
            popped@ == pushed@.drop_last(),
            out == pushed@.last(),
        ensures
            popped == before,
            out == item,
    {
        assert(before@.push(item).drop_last() =~= before@);
        Self::lemma_view_injective(popped, before);
    }

    /// Sets the length to `length` and leaves the cells as they are. The
    /// caller shows that the live cells are exactly the first `length`; the
    /// result is then well formed, and its items are what those cells hold.
    pub fn set_len(self, length: usize) -> (v: Self)
        requires
            length <= CAP,
            forall|i: int| 0 <= i < CAP ==> (self.slots()[i] is Some <==> i < length),
        ensures
            v.wf(),
            v@.len() == length,
            v.slots() == self.slots(),
            forall|i: int| 0 <= i < length ==> self.slots()[i] == Some(v@[i]),
    {
        let mut v = self;
        v.len = length;
        assert forall|i: int| 0 <= i < CAP implies v.slots()[i] == (live(v@) + vacant::<T>(
            (CAP - v@.len()) as nat,
        ))[i] by {
            assert(self.slots()[i] is Some <==> i < length);
        }
        assert(v.slots() =~= live(v@) + vacant::<T>((CAP - v@.len()) as nat));
        v
    }

    /// The items of a well-formed vector are what its live cells hold.
    proof fn lemma_view_from_slots(v: Self, items: Seq<T>)
        requires
            v.wf(),
            items.len() <= CAP,
            v.slots() == live(items) + vacant::<T>((CAP - items.len()) as nat),
        ensures
            v@ == items,
    {
        if v@.len() < items.len() {
            assert(v.slots()[v@.len() as int] is None);
            assert(v.slots()[v@.len() as int] == Some(items[v@.len() as int]));
        }
        if items.len() < v@.len() {
            assert(v.slots()[items.len() as int] is None);
            assert(v.slots()[items.len() as int] == Some(v@[items.len() as int]));
        }
        assert forall|i: int| 0 <= i < items.len() implies v@[i] == items[i] by {
            assert(v.slots()[i] == Some(items[i]));
            assert(v.slots()[i] == Some(v@[i]));
        }
        assert(v@ =~= items);
    }

    /// The empty vector.
    pub fn new() -> (v: Self)
        ensures
            v.wf(),
            v@ == Seq::<T>::empty(),
    {
        let v = Self { len: 0, xs: uninit_array() };
        assert(v@ =~= Seq::<T>::empty());
        assert(v.slots() =~= live(v@) + vacant::<T>((CAP - v@.len()) as nat));
        v
    }

    /// Appends `item`. The vector must have room for it.
    pub fn push_unchecked(self, item: T) -> (v: Self)
        requires
            self.wf(),
            self@.len() < CAP,
        ensures
            v.wf(),
            v@ == self@.push(item),
    {
        let mut v = self;
        let len: usize = v.len;
        v.xs[len] = MaybeUninit::new(item);
        assert(v.slots() =~= self.slots().update(len as int, Some(item)));
        let v = v.set_len(len + 1);
        proof {
            let items = self@.push(item);
            assert(v.slots() =~= live(items) + vacant::<T>((CAP - items.len()) as nat));
            Self::lemma_view_from_slots(v, items);
        }
        v
    }

    /// Appends `item`. The vector must have room for it.
    pub fn push(self, item: T) -> (v: Self)
        requires
            self.wf(),
            self@.len() < CAP,
        ensures
            v.wf(),
            v@ == self@.push(item),
    {
        self.push_unchecked(item)
    }

    /// Appends `item` if there is room for it. A full vector comes back
    /// unchanged inside the error, together with the item.
    pub fn try_push(self, item: T) -> (r: Result<Self, CapacityError<T, CAP>>)
        requires
            self.wf(),
        ensures
            match r {
                Ok(v) => self@.len() < CAP && v.wf() && v@ == self@.push(item),
                Err(e) => self@.len() == CAP && e.vector == self && e.item == item,
            },
    {
        if self.len < CAP {
            Ok(self.push_unchecked(item))
        } else {
            Err(CapacityError { vector: self, item })
        }
    }

    /// Removes the last item and returns it. The vector must not be empty.
    pub fn pop_unchecked(self) -> (r: (Self, T))
        requires
            self.wf(),
            self@.len() > 0,
        ensures
            r.0.wf(),
            r.0@ == self@.drop_last(),
            r.1 == self@.last(),
    {
        let mut v = self;
        let new_len: usize = v.len - 1;
        assert(self.slots()[new_len as int] == Some(self@.last()));
        let item = copy_item(&mut v.xs, new_len).assume_init();
        let v = v.set_len(new_len);
        proof {
            let items = self@.drop_last();
            assert(v.slots() =~= live(items) + vacant::<T>((CAP - items.len()) as nat));
            Self::lemma_view_from_slots(v, items);
        }
        (v, item)
    }

    /// Removes the last item and returns it. The vector must not be empty.
    pub fn pop(self) -> (r: (Self, T))
        requires
            self.wf(),
            self@.len() > 0,
        ensures
            r.0.wf(),
            r.0@ == self@.drop_last(),
            r.1 == self@.last(),
    {
        self.pop_unchecked()
    }

    /// Removes the last item and returns it, if there is one. An empty vector
    /// comes back unchanged.
    pub fn try_pop(self) -> (r: (Self, Option<T>))
        requires
            self.wf(),
        ensures
            r.0.wf(),
            self@.len() > 0 ==> r.0@ == self@.drop_last() && r.1 == Some(self@.last()),
            self@.len() == 0 ==> r.0 == self && r.1 is None,
    {
        if self.len > 0 {
            let (v, item) = self.pop_unchecked();
            (v, Some(item))
        } else {
            (self, None)
        }
    }

    /// Removes the item at `ix` and returns it; the last item takes its place,
    /// so the order of the items is not kept. Where `ix` is the last index this
    /// is `try_pop`. Where there is no item at `ix` the vector comes back
    /// unchanged.
    pub fn try_swap_remove(self, ix: usize) -> (r: (Self, Option<T>))
        requires
            self.wf(),
        ensures
            r.0.wf(),
            ix < self@.len() ==> r.0@ == swap_removed(self@, ix as int) && r.1 == Some(
                self@[ix as int],
            ),
            ix >= self@.len() ==> r.0 == self && r.1 is None,
    {
        if self.len > 0 {
            if ix == self.len - 1 {
                assert(swap_removed(self@, ix as int) =~= self@.drop_last());
                self.try_pop()
            } else if ix < self.len {
                let mut v = self;
                let last: usize = v.len - 1;
                assert(self.slots()[ix as int] == Some(self@[ix as int]));
                assert(self.slots()[last as int] == Some(self@.last()));
                let removing = copy_item(&mut v.xs, ix).assume_init();
                let swapping = copy_item(&mut v.xs, last);
                let ghost emptied = slots_view(v.xs);
                v.xs[ix] = swapping;
                assert(slots_view(v.xs) =~= emptied.update(ix as int, Some(self@.last())));
                let v = v.set_len(last);
                proof {
                    let items = swap_removed(self@, ix as int);
                    assert(v.slots() =~= live(items) + vacant::<T>((CAP - items.len()) as nat));
                    Self::lemma_view_from_slots(v, items);
                }
                (v, Some(removing))
            } else {
                (self, None)
            }
        } else {
            (self, None)
        }
    }

    /// The vector that holds the items of `xs`, in order. The array must fit
    /// into the capacity, which is settled before any item is moved.
    pub fn from_array<const N: usize>(xs: [T; N]) -> (v: Self)
        requires
            N <= CAP,
        ensures
            v.wf(),
            v@ == xs@,
    {
        let _fits = Leq::<N, CAP>::check();
        let v = Self { len: 0, xs: extend_array::<T, N, CAP>(xs) };
        let v = v.set_len(N);
        proof {
            Self::lemma_view_from_slots(v, xs@);
        }
        v
    }

    /// The number of items.
    pub fn len(&self) -> (n: usize)
        ensures
            n == self@.len(),
    {
        self.len
    }

    /// Whether the vector holds no item.
    pub fn is_empty(&self) -> (b: bool)
        ensures
            b == (self@.len() == 0),
    {
        self.len == 0
    }

    /// The items, borrowed, in index order.
    pub fn as_slice(&self) -> (items: Vec<&T>)
        requires
            self.wf(),
        ensures
            items@.len() == self@.len(),
            forall|i: int| 0 <= i < self@.len() ==> *items@[i] == self@[i],
    {
        let mut items: Vec<&T> = Vec::new();
        let mut ix: usize = 0;
        while ix < self.len
            invariant
                self.wf(),
                ix <= self.len,
                items@.len() == ix,
                forall|i: int| 0 <= i < ix ==> *items@[i] == self@[i],
            decreases self.len - ix,
        {
            assert(self.slots()[ix as int] == Some(self@[ix as int]));
            items.push(self.xs[ix].assume_init_ref());
            ix += 1;
        }
        items
    }

    /// The item at `ix`, if there is one.
    pub fn get(&self, ix: usize) -> (item: Option<&T>)
        requires
            self.wf(),
        ensures
            ix < self@.len() ==> item == Some(&self@[ix as int]),
            ix >= self@.len() ==> item is None,
    {
        if ix < self.len {
            assert(self.slots()[ix as int] == Some(self@[ix as int]));
            Some(self.xs[ix].assume_init_ref())
        } else {
            None
        }
    }
}

} // verus!
