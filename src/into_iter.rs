//! The consuming iterator: it owns the buffer taken from a container and
//! hands each element out once.
use crate::raw_val_iter::RawValIter;
use crate::raw_vec::RawVec;
use vstd::prelude::*;

verus! {

/// Consuming `rest` from both ends, one step per entry of `steps`: `true`
/// takes the front element, `false` the back one, and a step on an empty
/// sequence yields nothing. The result is what the front steps yielded, in
/// order, what the back steps yielded, in order, and what is left.
pub open spec fn consume_both_ends<T>(rest: Seq<T>, steps: Seq<bool>) -> (Seq<T>, Seq<T>, Seq<T>)
    decreases steps.len(),
{
    if steps.len() == 0 || rest.len() == 0 {
        (Seq::empty(), Seq::empty(), rest)
    } else if steps[0] {
        let (f, b, r) = consume_both_ends(rest.drop_first(), steps.drop_first());
        (seq![rest[0]] + f, b, r)
    } else {
        let (f, b, r) = consume_both_ends(rest.drop_last(), steps.drop_first());
        (f, seq![rest.last()] + b, r)
    }
}

/// Any interleaving of front and back steps hands out every element exactly
/// once: the front yields, then what is left, then the back yields in
/// reverse order, make up the whole sequence. With at least as many steps
/// as elements, nothing is left, whatever the split between the two ends.
pub proof fn lemma_consume_both_ends<T>(rest: Seq<T>, steps: Seq<bool>)
    ensures
        ({
            let (f, b, r) = consume_both_ends(rest, steps);
            &&& f + r + b.reverse() == rest
            &&& steps.len() >= rest.len() ==> r.len() == 0 && f + b.reverse() == rest
        }),
    decreases steps.len(),
{
    let (f, b, r) = consume_both_ends(rest, steps);
    if steps.len() == 0 || rest.len() == 0 {
        assert(f + r + b.reverse() =~= rest);
    } else if steps[0] {
        lemma_consume_both_ends(rest.drop_first(), steps.drop_first());
        let (f1, b1, r1) = consume_both_ends(rest.drop_first(), steps.drop_first());
        assert(f + r + b.reverse() =~= seq![rest[0]] + (f1 + r1 + b1.reverse()));
        assert(f + r + b.reverse() =~= rest);
    } else {
        lemma_consume_both_ends(rest.drop_last(), steps.drop_first());
        let (f1, b1, r1) = consume_both_ends(rest.drop_last(), steps.drop_first());
        assert(b.reverse() =~= b1.reverse().push(rest.last()));
        assert(f + r + b.reverse() =~= (f1 + r1 + b1.reverse()).push(rest.last()));
        assert(f + r + b.reverse() =~= rest);
    }
    if steps.len() >= rest.len() {
        assert(r.len() == 0);
        assert(f + b.reverse() =~= f + r + b.reverse());
    }
}

/// Owns a buffer and a cursor over the elements not yet handed out. Slots
/// outside the cursor's window are uninitialised, so dropping the iterator
/// destroys exactly the elements it still holds and then frees the block.
pub struct MyIntoIter<T> {
    _buf: RawVec<T>,
    iter: RawValIter,
}

impl<T> View for MyIntoIter<T> {
    type V = Seq<T>;

    /// The elements still to come, front first.
    closed spec fn view(&self) -> Seq<T> {
        self.iter.window(self._buf@)
    }
}

impl<T> MyIntoIter<T> {
    /// Exactly the slots in the cursor's window are initialised.
    pub closed spec fn well_formed(&self) -> bool {
        &&& self._buf.well_formed()
        &&& self.iter.covers(self._buf@)
    }

    pub(crate) fn new(buf: RawVec<T>, iter: RawValIter) -> (r: Self)
        requires
            buf.well_formed(),
            iter.covers(buf@),
        ensures
            r.well_formed(),
            r@ == iter.window(buf@),
    {
        MyIntoIter { _buf: buf, iter }
    }

    /// Hands out the front element.
    pub fn next(&mut self) -> (r: Option<T>)
        requires
            old(self).well_formed(),
        ensures
            final(self).well_formed(),
            old(self)@.len() == 0 ==> r is None && final(self)@ == old(self)@,
            old(self)@.len() > 0 ==> r == Some(old(self)@[0]) && final(self)@
                == old(self)@.drop_first(),
    {
        self.iter.next(&mut self._buf)
    }

    /// Hands out the back element.
    pub fn next_back(&mut self) -> (r: Option<T>)
        requires
            old(self).well_formed(),
        ensures
            final(self).well_formed(),
            old(self)@.len() == 0 ==> r is None && final(self)@ == old(self)@,
            old(self)@.len() > 0 ==> r == Some(old(self)@.last()) && final(self)@
                == old(self)@.drop_last(),
    {
        self.iter.next_back(&mut self._buf)
    }

    /// The exact number of elements left, as lower and upper bound.
    pub fn size_hint(&self) -> (r: (usize, Option<usize>))
        requires
            self.well_formed(),
        ensures
            r.0 == self@.len(),
            r.1 == Some(r.0),
    {
        self.iter.size_hint()
    }
}

} // verus!
