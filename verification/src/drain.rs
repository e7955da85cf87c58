use vstd::prelude::*;
use crate::raw::RawValIter;
use crate::raw::lemma_yield_partition;

verus! {

/// Draining iterator: created by [`crate::Vec::drain`], which empties the
/// container the moment the iterator is made. It yields the formerly-present
/// elements from either end; whatever it does not yield is dropped with it,
/// so the elements leave the container exactly once either way.
pub struct Drain<T> {
    /// The cursor pair over the drained span.
    pub iter: RawValIter<T>,
}

impl<T> Drain<T> {
    /// The wrapped cursor pair is well formed.
    pub open spec fn wf(&self) -> bool {
        self.iter.wf()
    }

    /// Elements not yet yielded, front to back.
    pub open spec fn pending(&self) -> Seq<T> {
        self.iter.pending()
    }

    /// Elements already yielded from the front, in yield order.
    pub open spec fn done_front(&self) -> Seq<T> {
        self.iter.done_front()
    }

    /// Elements already yielded from the back, kept in original order.
    pub open spec fn done_back(&self) -> Seq<T> {
        self.iter.done_back()
    }

    /// The elements the drained container held, front to back.
    pub open spec fn orig(&self) -> Seq<T> {
        self.iter.orig@
    }

    /// Yield the next element from the front, or `None` once exhausted.
    pub fn next(&mut self) -> (r: Option<T>)
        requires
            old(self).wf(),
        ensures
            final(self).wf(),
            final(self).orig() == old(self).orig(),
            old(self).pending().len() == 0 ==> r is None && *final(self) == *old(self),
            old(self).pending().len() > 0 ==> {
                &&& r == Some(old(self).pending().first())
                &&& final(self).pending() == old(self).pending().drop_first()
                &&& final(self).done_front() == old(self).done_front().push(
                    old(self).pending().first(),
                )
                &&& final(self).done_back() == old(self).done_back()
            },
    {
        self.iter.next()
    }

    /// Yield the next element from the back, or `None` once exhausted.
    pub fn next_back(&mut self) -> (r: Option<T>)
        requires
            old(self).wf(),
        ensures
            final(self).wf(),
            final(self).orig() == old(self).orig(),
            old(self).pending().len() == 0 ==> r is None && *final(self) == *old(self),
            old(self).pending().len() > 0 ==> {
                &&& r == Some(old(self).pending().last())
                &&& final(self).pending() == old(self).pending().drop_last()
                &&& final(self).done_back() == seq![old(self).pending().last()] + old(
                    self,
                ).done_back()
                &&& final(self).done_front() == old(self).done_front()
            },
    {
        self.iter.next_back()
    }

    /// Exact count of the elements not yet yielded, and `Some` of it.
    pub fn size_hint(&self) -> (r: (usize, Option<usize>))
        requires
            self.wf(),
        ensures
            r.0 == self.pending().len(),
            r.1 == Some(r.0),
    {
        self.iter.size_hint()
    }
}

/// The drained elements are yielded exactly once: front yields, pending
/// elements and back yields split the drained run into three adjacent pieces,
/// whatever the interleaving, and their counts sum to the drained length.
pub proof fn lemma_drain_yields_each_once<T>(d: Drain<T>)
    requires
        d.wf(),
    ensures
        d.done_front() + d.pending() + d.done_back() == d.orig(),
        d.done_front().len() + d.pending().len() + d.done_back().len() == d.orig().len(),
{
    lemma_yield_partition(d.iter);
}

} // verus!
