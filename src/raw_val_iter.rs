//! A cursor over a window of initialised slots. It owns nothing: each step
//! is handed the buffer that holds the slots.
use crate::my_vec::MyVec;
use crate::raw_vec::RawVec;
use vstd::prelude::*;

verus! {

/// The half-open window `[start, end)` of slots not yet moved out.
pub(crate) struct RawValIter {
    pub(crate) start: usize,
    pub(crate) end: usize,
}

impl RawValIter {
    /// The window lies in `slots`, and exactly the slots inside it are
    /// initialised.
    pub(crate) open spec fn covers<T>(&self, slots: Seq<Option<T>>) -> bool {
        &&& self.start <= self.end <= slots.len()
        &&& forall|i: int|
            0 <= i < slots.len() ==> ((#[trigger] slots[i]) is Some <==> self.start <= i < self.end)
    }

    /// The elements still in the window, front first.
    pub(crate) open spec fn window<T>(&self, slots: Seq<Option<T>>) -> Seq<T> {
        Seq::new((self.end - self.start) as nat, |i: int| slots[self.start + i]->0)
    }

    /// A cursor over the live elements of `slice`.
    pub(crate) fn new<T>(slice: &MyVec<T>) -> (r: Self)
        requires
            slice.well_formed(),
        ensures
            r.start == 0,
            r.end == slice@.len(),
    {
        RawValIter { start: 0, end: slice.len() }
    }

    /// Moves the front element of the window out of `buf`.
    pub(crate) fn next<T>(&mut self, buf: &mut RawVec<T>) -> (r: Option<T>)
        requires
            old(buf).well_formed(),
            old(self).covers(old(buf)@),
        ensures
            final(buf).well_formed(),
            final(buf)@.len() == old(buf)@.len(),
            final(self).covers(final(buf)@),
            final(self).end == old(self).end,
            old(self).window(old(buf)@).len() == 0 ==> r is None && final(self).window(final(buf)@)
                == old(self).window(old(buf)@),
            old(self).window(old(buf)@).len() > 0 ==> r == Some(old(self).window(old(buf)@)[0])
                && final(self).window(final(buf)@) == old(self).window(old(buf)@).drop_first(),
    {
        if self.start == self.end {
            None
        } else {
            let elem = buf.read(self.start);
            self.start = self.start + 1;
            proof {
                assert(self.window(buf@) =~= old(self).window(old(buf)@).drop_first());
            }
            Some(elem)
        }
    }

    /// Moves the back element of the window out of `buf`.
    pub(crate) fn next_back<T>(&mut self, buf: &mut RawVec<T>) -> (r: Option<T>)
        requires
            old(buf).well_formed(),
            old(self).covers(old(buf)@),
        ensures
            final(buf).well_formed(),
            final(buf)@.len() == old(buf)@.len(),
            final(self).covers(final(buf)@),
            final(self).start == old(self).start,
            old(self).window(old(buf)@).len() == 0 ==> r is None && final(self).window(final(buf)@)
                == old(self).window(old(buf)@),
            old(self).window(old(buf)@).len() > 0 ==> r == Some(old(self).window(old(buf)@).last())
                && final(self).window(final(buf)@) == old(self).window(old(buf)@).drop_last(),
    {
        if self.start == self.end {
            None
        } else {
            self.end = self.end - 1;
            let elem = buf.read(self.end);
            proof {
                assert(self.window(buf@) =~= old(self).window(old(buf)@).drop_last());
            }
            Some(elem)
        }
    }

    /// The exact number of elements left, as lower and upper bound.
    pub(crate) fn size_hint(&self) -> (r: (usize, Option<usize>))
        requires
            self.start <= self.end,
        ensures
            r.0 == self.end - self.start,
            r.1 == Some(r.0),
    {
        let len = self.end - self.start;
        (len, Some(len))
    }
}

} // verus!
