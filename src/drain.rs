//! The draining iterator: it holds the elements taken out of a container,
//! which keeps its buffer and reads as empty from then on.
use crate::raw_val_iter::RawValIter;
use crate::raw_vec::RawVec;
use vstd::prelude::*;

verus! {

/// Owns the elements that were live when the container was drained, and a
/// cursor over those not yet handed out. Slots outside the cursor's window
/// are uninitialised, so dropping the iterator destroys exactly the
/// elements it still holds.
pub struct Drain<T> {
    buf: RawVec<T>,
    iter: RawValIter,
}

impl<T> View for Drain<T> {
    type V = Seq<T>;

    /// The elements still to come, front first.
    closed spec fn view(&self) -> Seq<T> {
        self.iter.window(self.buf@)
    }
}

impl<T> Drain<T> {
    /// Exactly the slots in the cursor's window are initialised.
    pub closed spec fn well_formed(&self) -> bool {
        &&& self.buf.well_formed()
        &&& self.iter.covers(self.buf@)
    }

    pub(crate) fn new(buf: RawVec<T>, iter: RawValIter) -> (r: Self)
        requires
            buf.well_formed(),
            iter.covers(buf@),
        ensures
            r.well_formed(),
            r@ == iter.window(buf@),
    {
        Drain { buf: buf, iter }
    }

    /// Hands out the front element.
    pub fn next(&mut self) -> (r: Option<T>)
        requires
            old(self).well_formed(),
        ensures
            final(self).well_formed(),
            old(self)@.len() == 0 ==> r is None && final(self)@ == old(self)@,
            old(self)@.len() > 0 ==> r == Some(old(self)@[0]) && final(self)@
                == old(self)@.drop_first(),
    {
        self.iter.next(&mut self.buf)
    }

    /// Hands out the back element.
    pub fn next_back(&mut self) -> (r: Option<T>)
        requires
            old(self).well_formed(),
        ensures
            final(self).well_formed(),
            old(self)@.len() == 0 ==> r is None && final(self)@ == old(self)@,
            old(self)@.len() > 0 ==> r == Some(old(self)@.last()) && final(self)@
                == old(self)@.drop_last(),
    {
        self.iter.next_back(&mut self.buf)
    }

    /// The exact number of elements left, as lower and upper bound.
    pub fn size_hint(&self) -> (r: (usize, Option<usize>))
        requires
            self.well_formed(),
        ensures
            r.0 == self@.len(),
            r.1 == Some(r.0),
    {
        self.iter.size_hint()
    }
}

} // verus!
