//! The growable contiguous container.
use crate::drain::Drain;
use crate::into_iter::MyIntoIter;
use crate::raw_val_iter::RawValIter;
use crate::raw_vec::{grown_capacity, layout_fits, RawVec};
use vstd::arithmetic::power2::{lemma_pow2_unfold, pow2};
use vstd::layout::size_of;
use vstd::prelude::*;

verus! {

/// Capacity after a push onto a container of length `len` and capacity
/// `cap`: a full container grows one step first.
pub open spec fn capacity_after_push(len: nat, cap: nat) -> nat {
    if len == cap {
        grown_capacity(cap)
    } else {
        cap
    }
}

/// Capacity of a new container after `n` pushes.
pub open spec fn capacity_after_pushes(n: nat) -> nat
    decreases n,
{
    if n == 0 {
        0
    } else {
        capacity_after_push((n - 1) as nat, capacity_after_pushes((n - 1) as nat))
    }
}

/// After `n` pushes onto a new container the capacity is at least `n`, and
/// it has followed the doubling progression 1, 2, 4, ...: it is the least
/// power of two `2^k` that holds `n` elements (0 while nothing was pushed).
pub proof fn lemma_capacity_after_pushes(n: nat) -> (k: nat)
    ensures
        n == 0 ==> capacity_after_pushes(n) == 0,
        n > 0 ==> capacity_after_pushes(n) == pow2(k),
        n > 0 ==> n <= pow2(k) < 2 * n,
    decreases n,
{
    if n <= 1 {
        assert(capacity_after_pushes(0) == 0);
        assert(pow2(0) == 1) by {
            vstd::arithmetic::power2::lemma2_to64();
        }
        0
    } else {
        let j = lemma_capacity_after_pushes((n - 1) as nat);
        lemma_pow2_unfold(j + 1);
        assert(capacity_after_pushes(n) == capacity_after_push(
            (n - 1) as nat,
            capacity_after_pushes((n - 1) as nat),
        ));
        if (n - 1) as nat == pow2(j) {
            j + 1
        } else {
            j
        }
    }
}

/// Reading index `i` right after inserting `x` there gives `x`, and the
/// length has grown by exactly one; removing index `i` gives back the value
/// that was there, and the length shrinks by exactly one. Stated over the
/// views that `insert`, `remove` and `index` speak of.
pub proof fn lemma_insert_then_read<T>(s: Seq<T>, i: int, x: T)
    requires
        0 <= i <= s.len(),
    ensures
        s.insert(i, x)[i] == x,
        s.insert(i, x).len() == s.len() + 1,
        s.insert(i, x).remove(i) == s,
        i < s.len() ==> s.remove(i).len() == s.len() - 1,
        i < s.len() ==> s.remove(i).insert(i, s[i]) == s,
{
    assert(s.insert(i, x).remove(i) =~= s);
    if i < s.len() {
        assert(s.remove(i).insert(i, s[i]) =~= s);
    }
}

/// A growable array. Slots `[0, len)` of the buffer hold the elements; the
/// slots after them are uninitialised.
pub struct MyVec<T> {
    buf: RawVec<T>,
    len: usize,
}

impl<T> View for MyVec<T> {
    type V = Seq<T>;

    closed spec fn view(&self) -> Seq<T> {
        Seq::new(self.len as nat, |i: int| self.buf@[i]->0)
    }
}

impl<T> MyVec<T> {
    /// The number of element slots currently backed by memory.
    pub closed spec fn capacity(&self) -> nat {
        self.buf.capacity()
    }

    /// Exactly the slots below the length are initialised.
    pub closed spec fn well_formed(&self) -> bool {
        &&& self.buf.well_formed()
        &&& self.len <= self.buf.capacity()
        &&& forall|i: int|
            0 <= i < self.buf@.len() ==> ((#[trigger] self.buf@[i]) is Some <==> i < self.len)
    }

    /// There is room for one more element, or the grown block still fits
    /// the addressable-size limit.
    pub open spec fn can_grow_by_one(&self) -> bool {
        self@.len() < self.capacity() || layout_fits::<T>(grown_capacity(self.capacity()))
    }

    /// An empty container with no block. Zero-sized elements are not
    /// supported.
    pub fn new() -> (r: Self)
        requires
            size_of::<T>() > 0,
        ensures
            r.well_formed(),
            r@ == Seq::<T>::empty(),
            r.capacity() == 0,
    {
        MyVec { buf: RawVec::new(), len: 0 }
    }

    /// The number of element slots currently backed by memory.
    pub fn cap(&self) -> (r: usize)
        requires
            self.well_formed(),
        ensures
            r == self.capacity(),
    {
        self.buf.cap()
    }

    /// The number of elements.
    pub fn len(&self) -> (r: usize)
        requires
            self.well_formed(),
        ensures
            r == self@.len(),
            r <= self.capacity(),
    {
        self.len
    }

    /// Whether there are no elements.
    pub fn is_empty(&self) -> (r: bool)
        requires
            self.well_formed(),
        ensures
            r == (self@.len() == 0),
    {
        self.len == 0
    }

    /// The element at `index`, or `None` past the length.
    pub fn get(&self, index: usize) -> (r: Option<&T>)
        requires
            self.well_formed(),
        ensures
            index < self@.len() ==> r == Some(&self@[index as int]),
            index >= self@.len() ==> r is None,
    {
        if index < self.len {
            match self.buf.slot(index) {
                Some(elem) => Some(elem),
                None => None,
            }
        } else {
            None
        }
    }

    /// The element at `index`, which must be below the length.
    pub fn index(&self, index: usize) -> (r: &T)
        requires
            self.well_formed(),
            index < self@.len(),
        ensures
            *r == self@[index as int],
    {
        self.buf.slot(index).as_ref().unwrap()
    }

    /// The element at `index`, to change in place; `index` must be below the
    /// length.
    pub fn index_mut(&mut self, index: usize) -> (r: &mut T)
        requires
            old(self).well_formed(),
            index < old(self)@.len(),
        ensures
            *r == old(self)@[index as int],
            final(self).well_formed(),
            final(self).capacity() == old(self).capacity(),
            final(self)@ == old(self)@.update(index as int, *final(r)),
    {
        match self.buf.slot_mut(index) {
            Some(elem) => elem,
            None => vstd::pervasive::unreached(),
        }
    }

    /// Appends `elem`, growing the buffer first when it is full.
    pub fn push(&mut self, elem: T)
        requires
            old(self).well_formed(),
            old(self).can_grow_by_one(),
        ensures
            final(self).well_formed(),
            final(self)@ == old(self)@.push(elem),
            final(self).capacity() == capacity_after_push(
                old(self)@.len(),
                old(self).capacity(),
            ),
    {
        if self.len == self.buf.cap() {
            self.buf.grow();
        }
        proof {
            self.buf.lemma_bounds();
        }
        self.buf.write(self.len, elem);
        self.len = self.len + 1;
        proof {
            assert(self@ =~= old(self)@.push(elem));
        }
    }

    /// Moves the last element out, or returns `None` when there is none.
    pub fn pop(&mut self) -> (r: Option<T>)
        requires
            old(self).well_formed(),
        ensures
            final(self).well_formed(),
            final(self).capacity() == old(self).capacity(),
            old(self)@.len() == 0 ==> r is None && final(self)@ == old(self)@,
            old(self)@.len() > 0 ==> r == Some(old(self)@.last()) && final(self)@
                == old(self)@.drop_last(),
    {
        if self.len == 0 {
            None
        } else {
            self.len = self.len - 1;
            let elem = self.buf.read(self.len);
            proof {
                assert(self@ =~= old(self)@.drop_last());
            }
            Some(elem)
        }
    }

    /// Puts `elem` at `index`, moving the elements from `index` on one slot
    /// toward the end. An index past the length is out of bounds.
    pub fn insert(&mut self, index: usize, elem: T)
        requires
            old(self).well_formed(),
            index <= old(self)@.len(),
            old(self).can_grow_by_one(),
        ensures
            final(self).well_formed(),
            final(self)@ == old(self)@.insert(index as int, elem),
            final(self).capacity() == capacity_after_push(
                old(self)@.len(),
                old(self).capacity(),
            ),
    {
        if self.len == self.buf.cap() {
            self.buf.grow();
        }
        proof {
            self.buf.lemma_bounds();
        }
        let ghost before = self.buf@;
        let len = self.len;
        assert(forall|j: int| 0 <= j < before.len() ==> (before[j] is Some <==> j < len)) by {
            assert forall|j: int| 0 <= j < before.len() implies (before[j] is Some <==> j < len) by {
                if j < old(self).buf@.len() {
                    assert(old(self).buf@[j] is Some <==> j < len);
                }
            }
        }
        let mut k = self.len;
        while k > index
            invariant
                self.buf.well_formed(),
                self.buf@.len() == before.len(),
                self.len == len,
                index <= k <= len < before.len(),
                forall|j: int| 0 <= j < before.len() ==> (before[j] is Some <==> j < len),
                self.buf@[k as int] is None,
                forall|j: int| 0 <= j < k ==> self.buf@[j] == before[j],
                forall|j: int| k < j <= self.len ==> self.buf@[j] == before[j - 1],
                forall|j: int| self.len < j < before.len() ==> self.buf@[j] == before[j],
            decreases k,
        {
            assert(self.buf@[k - 1] == before[k - 1]);
            assert(before[k - 1] is Some);
            let moved = self.buf.read(k - 1);
            self.buf.write(k, moved);
            k = k - 1;
        }
        self.buf.write(index, elem);
        self.len = self.len + 1;
        proof {
            assert forall|j: int| 0 <= j < self.buf@.len() implies (#[trigger] self.buf@[j] is Some
                <==> j < self.len) by {
                if j < index {
                    assert(self.buf@[j] == before[j]);
                } else if index < j <= len {
                    assert(self.buf@[j] == before[j - 1]);
                } else if j > len {
                    assert(self.buf@[j] == before[j]);
                }
            }
            assert(self@ =~= old(self)@.insert(index as int, elem));
        }
    }

    /// Moves the element at `index` out, moving the elements after it one
    /// slot toward the start. An index at or past the length is out of
    /// bounds.
    pub fn remove(&mut self, index: usize) -> (r: T)
        requires
            old(self).well_formed(),
            index < old(self)@.len(),
        ensures
            final(self).well_formed(),
            final(self).capacity() == old(self).capacity(),
            r == old(self)@[index as int],
            final(self)@ == old(self)@.remove(index as int),
    {
        let ghost before = self.buf@;
        let removed = self.buf.read(index);
        let mut k = index;
        while k + 1 < self.len
            invariant
                self.buf.well_formed(),
                self.buf@.len() == before.len(),
                index <= k < self.len <= before.len(),
                self.len == old(self).len,
                forall|j: int| 0 <= j < before.len() ==> (before[j] is Some <==> j < self.len),
                self.buf@[k as int] is None,
                forall|j: int| 0 <= j < k ==> self.buf@[j] == before[j + if j < index { 0int } else { 1int }],
                forall|j: int| k < j < before.len() ==> self.buf@[j] == before[j],
            decreases self.len - k,
        {
            assert(self.buf@[k + 1] == before[k + 1]);
            assert(before[k + 1] is Some);
            let moved = self.buf.read(k + 1);
            self.buf.write(k, moved);
            k = k + 1;
        }
        self.len = self.len - 1;
        proof {
            assert forall|j: int| 0 <= j < self.buf@.len() implies (#[trigger] self.buf@[j] is Some
                <==> j < self.len) by {
                if j < k {
                    assert(self.buf@[j] == before[j + if j < index { 0int } else { 1int }]);
                } else if j > k {
                    assert(self.buf@[j] == before[j]);
                }
            }
            assert(self@ =~= old(self)@.remove(index as int));
        }
        removed
    }

    /// Empties the container at once and returns an iterator over the
    /// elements it held. The capacity stays as it was.
    pub fn drain(&mut self) -> (d: Drain<T>)
        requires
            old(self).well_formed(),
        ensures
            final(self).well_formed(),
            final(self)@ == Seq::<T>::empty(),
            final(self).capacity() == old(self).capacity(),
            d.well_formed(),
            d@ == old(self)@,
    {
        let iter = RawValIter::new(&*self);
        proof {
            let s = size_of::<T>();
            let (n, c) = (self.len as nat, self.buf.capacity());
            self.buf.lemma_bounds();
            assert(n * s <= c * s) by (nonlinear_arith)
                requires
                    n <= c,
            ;
        }
        let ghost before = self.buf@;
        let len = self.len;
        assert(forall|j: int| 0 <= j < before.len() ==> (before[j] is Some <==> j < len));
        let mut taken = RawVec::with_capacity(len);
        let mut i: usize = 0;
        while i < len
            invariant
                self.buf.well_formed(),
                taken.well_formed(),
                self.len == len,
                len <= before.len(),
                self.buf@.len() == before.len(),
                taken@.len() == len,
                0 <= i <= len,
                forall|j: int| 0 <= j < before.len() ==> (before[j] is Some <==> j < len),
                forall|j: int| 0 <= j < i ==> self.buf@[j] is None,
                forall|j: int| i <= j < before.len() ==> self.buf@[j] == before[j],
                forall|j: int| 0 <= j < i ==> taken@[j] == before[j],
                forall|j: int| i <= j < len ==> taken@[j] is None,
            decreases len - i,
        {
            assert(self.buf@[i as int] == before[i as int]);
            let elem = self.buf.read(i);
            taken.write(i, elem);
            i = i + 1;
        }
        self.len = 0;
        proof {
            assert forall|j: int| 0 <= j < self.buf@.len() implies #[trigger] self.buf@[j] is None by {
                if j >= len {
                    assert(self.buf@[j] == before[j]);
                }
            }
            assert(self@ =~= Seq::<T>::empty());
            assert forall|j: int| 0 <= j < taken@.len() implies (#[trigger] taken@[j] is Some
                <==> iter.start <= j < iter.end) by {
                assert(taken@[j] == before[j]);
            }
            assert(iter.window(taken@) =~= old(self)@) by {
                assert forall|j: int| 0 <= j < len implies #[trigger] iter.window(taken@)[j]
                    == old(self)@[j] by {
                    assert(taken@[j] == before[j]);
                }
            }
        }
        Drain::new(taken, iter)
    }

    /// Turns the container into an iterator that owns its buffer and hands
    /// each element out once.
    pub fn into_iter(self) -> (it: MyIntoIter<T>)
        requires
            self.well_formed(),
        ensures
            it.well_formed(),
            it@ == self@,
    {
        let iter = RawValIter::new(&self);
        proof {
            assert(iter.window(self.buf@) =~= self@);
        }
        MyIntoIter::new(self.buf, iter)
    }
}

} // verus!
