//! The buffer handle that owns a block of element slots.
use vstd::layout::size_of;
use vstd::prelude::*;

verus! {

/// Capacity after one growth step from `cap`: the first block holds one
/// element, each later one twice as many as before.
pub open spec fn grown_capacity(cap: nat) -> nat {
    if cap == 0 {
        1
    } else {
        2 * cap
    }
}

/// A block of `n` slots stays within the platform's addressable-size limit.
pub open spec fn layout_fits<T>(n: nat) -> bool {
    n * size_of::<T>() <= isize::MAX as nat
}

/// An owned block of `cap` slots. A slot is either initialised (`Some`) or
/// uninitialised (`None`); the handle itself never decides which slots are
/// live, its owner does.
pub struct RawVec<T> {
    slots: Vec<Option<T>>,
    cap: usize,
}

impl<T> View for RawVec<T> {
    type V = Seq<Option<T>>;

    closed spec fn view(&self) -> Seq<Option<T>> {
        self.slots@
    }
}

impl<T> RawVec<T> {
    /// The number of slots backed by the block.
    pub open spec fn capacity(&self) -> nat {
        self@.len()
    }

    /// The slot count matches the capacity, elements are not zero-sized, and
    /// the block fits the addressable-size limit.
    pub closed spec fn well_formed(&self) -> bool {
        &&& self.slots@.len() == self.cap
        &&& size_of::<T>() > 0
        &&& layout_fits::<T>(self.cap as nat)
    }

    /// An empty handle: no block, capacity 0. Zero-sized elements are not
    /// supported.
    pub fn new() -> (r: Self)
        requires
            size_of::<T>() > 0,
        ensures
            r.well_formed(),
            r@ == Seq::<Option<T>>::empty(),
    {
        RawVec { slots: Vec::new(), cap: 0 }
    }

    /// A handle over exactly `n` uninitialised slots.
    pub(crate) fn with_capacity(n: usize) -> (r: Self)
        requires
            size_of::<T>() > 0,
            layout_fits::<T>(n as nat),
        ensures
            r.well_formed(),
            r@.len() == n,
            forall|i: int| 0 <= i < n ==> (#[trigger] r@[i]) is None,
    {
        let mut slots: Vec<Option<T>> = Vec::with_capacity(n);
        while slots.len() < n
            invariant
                slots@.len() <= n,
                forall|i: int| 0 <= i < slots@.len() ==> (#[trigger] slots@[i]) is None,
            decreases n - slots@.len(),
        {
            slots.push(None);
        }
        RawVec { slots, cap: n }
    }

    /// What well-formedness tells of the capacity and the element type.
    pub(crate) proof fn lemma_bounds(&self)
        requires
            self.well_formed(),
        ensures
            self.capacity() <= usize::MAX,
            layout_fits::<T>(self.capacity()),
            size_of::<T>() > 0,
    {
    }

    /// The number of slots, as a value.
    pub(crate) fn cap(&self) -> (r: usize)
        requires
            self.well_formed(),
        ensures
            r == self.capacity(),
    {
        self.cap
    }

    /// Grows the block to `grown_capacity` slots; the old slots keep their
    /// contents and the new ones are uninitialised.
    pub(crate) fn grow(&mut self)
        requires
            old(self).well_formed(),
            layout_fits::<T>(grown_capacity(old(self).capacity())),
        ensures
            final(self).well_formed(),
            final(self).capacity() == grown_capacity(old(self).capacity()),
            forall|i: int| 0 <= i < old(self)@.len() ==> final(self)@[i] == old(self)@[i],
            forall|i: int|
                old(self)@.len() <= i < final(self)@.len() ==> (#[trigger] final(self)@[i]) is None,
    {
        let ghost n = grown_capacity(self.cap as nat);
        proof {
            let s = size_of::<T>();
            assert(n <= n * s) by (nonlinear_arith)
                requires
                    s >= 1,
            ;
        }
        let new_cap: usize = if self.cap == 0 {
            1
        } else {
            self.cap * 2
        };
        self.slots.reserve(new_cap - self.cap);
        while self.slots.len() < new_cap
            invariant
                old(self).slots@.len() == old(self).cap,
                old(self).cap < new_cap,
                old(self).cap <= self.slots@.len() <= new_cap,
                self.slots@.subrange(0, old(self).cap as int) == old(self).slots@,
                forall|i: int|
                    old(self).cap <= i < self.slots@.len() ==> (#[trigger] self.slots@[i]) is None,
            decreases new_cap - self.slots@.len(),
        {
            self.slots.push(None);
        }
        self.cap = new_cap;
    }

    /// Fills the uninitialised slot `i` with `elem`.
    pub(crate) fn write(&mut self, i: usize, elem: T)
        requires
            old(self).well_formed(),
            i < old(self)@.len(),
            old(self)@[i as int] is None,
        ensures
            final(self).well_formed(),
            final(self)@ == old(self)@.update(i as int, Some(elem)),
    {
        self.slots.set(i, Some(elem));
    }

    /// The slot `i`, to read in place.
    pub(crate) fn slot(&self, i: usize) -> (r: &Option<T>)
        requires
            self.well_formed(),
            i < self@.len(),
        ensures
            *r == self@[i as int],
    {
        &self.slots[i]
    }

    /// The slot `i`, to change in place.
    pub(crate) fn slot_mut(&mut self, i: usize) -> (r: &mut Option<T>)
        requires
            old(self).well_formed(),
            i < old(self)@.len(),
        ensures
            *r == old(self)@[i as int],
            final(self).well_formed(),
            final(self)@ == old(self)@.update(i as int, *final(r)),
    {
        &mut self.slots[i]
    }

    /// Moves the element out of the initialised slot `i`, which becomes
    /// uninitialised.
    pub(crate) fn read(&mut self, i: usize) -> (r: T)
        requires
            old(self).well_formed(),
            i < old(self)@.len(),
            old(self)@[i as int] is Some,
        ensures
            final(self).well_formed(),
            Some(r) == old(self)@[i as int],
            final(self)@ == old(self)@.update(i as int, None),
    {
        let mut taken: Option<T> = None;
        std::mem::swap(&mut taken, &mut self.slots[i]);
        taken.unwrap()
    }
}

} // verus!
