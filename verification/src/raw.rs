use vstd::prelude::*;

verus! {

/// Owned storage block: a run of slots, each either holding a live element
/// (`Some`) or standing for uninitialized storage (`None`).
///
/// The buffer knows how many slots it has allocated (its capacity) and how to
/// grow geometrically, but nothing about how many slots are in use; that count
/// lives in the container. All slot-level reads and writes of the container go
/// through this one type, and dropping it releases the allocation, and every
/// element still in a slot, exactly once. Elements of zero size need no
/// special casing: slots are held per element, with no address arithmetic.
pub struct RawVec<T> {
    /// The allocation: one entry per storage slot.
    pub storage: std::vec::Vec<Option<T>>,
}

impl<T> View for RawVec<T> {
    type V = Seq<Option<T>>;

    open spec fn view(&self) -> Seq<Option<T>> {
        self.storage@
    }
}

impl<T> RawVec<T> {
    /// Number of allocated slots.
    pub open spec fn spec_cap(&self) -> nat {
        self@.len()
    }

    /// A buffer with capacity 0: no slots, nothing allocated.
    pub fn new() -> (r: Self)
        ensures
            r@.len() == 0,
    {
        RawVec { storage: std::vec::Vec::new() }
    }

    /// A buffer of `cap` slots, all uninitialized.
    pub fn with_slots(cap: usize) -> (r: Self)
        ensures
            r@.len() == cap,
            forall|i: int| 0 <= i < cap ==> r@[i] is None,
    {
        let mut storage: std::vec::Vec<Option<T>> = std::vec::Vec::new();
        while storage.len() < cap
            invariant
                storage@.len() <= cap,
                forall|i: int| 0 <= i < storage@.len() ==> storage@[i] is None,
            decreases cap - storage@.len(),
        {
            storage.push(None);
        }
        RawVec { storage }
    }

    /// Current capacity, as a run-time value.
    pub fn cap(&self) -> (c: usize)
        ensures
            c == self@.len(),
    {
        self.storage.len()
    }

    /// Grow the allocation: a capacity-0 buffer gets exactly one slot;
    /// otherwise the capacity doubles. Slots already present keep their
    /// contents; every new slot is uninitialized.
    ///
    /// The doubled capacity must still be representable; the container keeps
    /// that bound as part of its own contracts.
    pub fn grow(&mut self)
        requires
            2 * old(self)@.len() <= usize::MAX,
        ensures
            final(self)@.len() == if old(self)@.len() == 0 { 1nat } else { 2 * old(self)@.len() },
            forall|i: int| 0 <= i < old(self)@.len() ==> final(self)@[i] == old(self)@[i],
            forall|i: int|
                old(self)@.len() <= i < final(self)@.len() ==> final(self)@[i] is None,
    {
        if self.storage.len() == 0 {
            self.storage.push(None);
        } else {
            let target: usize = 2 * self.storage.len();
            while self.storage.len() < target
                invariant
                    old(self)@.len() <= self.storage@.len() <= target,
                    target == 2 * old(self)@.len(),
                    forall|i: int| 0 <= i < old(self)@.len() ==> self.storage@[i] == old(self)@[i],
                    forall|i: int|
                        old(self)@.len() <= i < self.storage@.len() ==> self.storage@[i] is None,
                decreases target - self.storage@.len(),
            {
                self.storage.push(None);
            }
        }
    }

    /// Write `v` into slot `i`, making that slot initialized.
    pub fn write(&mut self, i: usize, v: T)
        requires
            i < old(self)@.len(),
        ensures
            final(self)@ == old(self)@.update(i as int, Some(v)),
    {
        let slot = &mut self.storage[i];
        *slot = Some(v);
    }

    /// Move the element out of slot `i`, leaving that slot uninitialized.
    pub fn take_out(&mut self, i: usize) -> (v: T)
        requires
            i < old(self)@.len(),
            old(self)@[i as int] is Some,
        ensures
            v == old(self)@[i as int].unwrap(),
            final(self)@ == old(self)@.update(i as int, None),
    {
        let slot = &mut self.storage[i];
        let taken = slot.take();
        taken.unwrap()
    }

    /// Borrow the element in slot `i`.
    pub fn read(&self, i: usize) -> (r: &T)
        requires
            i < self@.len(),
            self@[i as int] is Some,
        ensures
            *r == self@[i as int].unwrap(),
    {
        let slot = &self.storage[i];
        match slot {
            Some(v) => v,
            None => unreached(),
        }
    }
}

/// Front/back cursor pair over a span of initialized slots: the shared core
/// of both consuming iterators.
///
/// The span `[front, back)` holds the elements not yet yielded; it only ever
/// shrinks, from either end. The iterator owns the buffer the span lies in,
/// so the memory stays alive for exactly as long as the cursors do, and
/// whatever the span still holds is dropped with the iterator — abandoning it
/// early leaks nothing and double-yields nothing. `orig` is a ghost record of
/// the elements the span started with, so that contracts can say which part
/// of that run has been yielded from each end.
pub struct RawValIter<T> {
    /// The buffer holding the span.
    pub buf: RawVec<T>,
    /// First slot not yet yielded.
    pub front: usize,
    /// One past the last slot not yet yielded.
    pub back: usize,
    /// The elements the span held when the iterator was created.
    pub orig: Ghost<Seq<T>>,
}

impl<T> RawValIter<T> {
    /// The cursor invariant: the span lies inside the original run, which
    /// lies inside the buffer, and every slot still in the span holds the
    /// element it started with.
    pub open spec fn wf(&self) -> bool {
        &&& self.front <= self.back
        &&& self.back <= self.orig@.len()
        &&& self.orig@.len() <= self.buf@.len()
        &&& forall|i: int|
            self.front <= i < self.back ==> (#[trigger] self.buf@[i]) == Some(self.orig@[i])
    }

    /// Elements not yet yielded, front to back.
    pub open spec fn pending(&self) -> Seq<T> {
        self.orig@.subrange(self.front as int, self.back as int)
    }

    /// Elements already yielded from the front, in yield order.
    pub open spec fn done_front(&self) -> Seq<T> {
        self.orig@.take(self.front as int)
    }

    /// Elements already yielded from the back, kept in original order (the
    /// most recently yielded element stands first).
    pub open spec fn done_back(&self) -> Seq<T> {
        self.orig@.skip(self.back as int)
    }

    /// A cursor pair over the first `len` slots of `buf`, all of which must
    /// be initialized. For a zero-length span the two cursors coincide.
    pub fn new(buf: RawVec<T>, len: usize) -> (r: Self)
        requires
            len <= buf@.len(),
            forall|i: int| 0 <= i < len ==> (#[trigger] buf@[i]) is Some,
        ensures
            r.wf(),
            r.orig@ == Seq::new(len as nat, |i: int| buf@[i].unwrap()),
            r.pending() == r.orig@,
            r.done_front() == Seq::<T>::empty(),
            r.done_back() == Seq::<T>::empty(),
            r.buf@ == buf@,
    {
        let ghost orig = Seq::new(len as nat, |i: int| buf@[i].unwrap());
        let r = RawValIter { buf, front: 0, back: len, orig: Ghost(orig) };
        proof {
            assert(r.pending() =~= r.orig@);
            assert(r.done_front() =~= Seq::<T>::empty());
            assert(r.done_back() =~= Seq::<T>::empty());
        }
        r
    }

    /// Yield the element at the front of the span, or `None` when the span is
    /// exhausted. The slot it came from becomes uninitialized and the span
    /// shrinks by one from the front.
    pub fn next(&mut self) -> (r: Option<T>)
        requires
            old(self).wf(),
        ensures
            final(self).wf(),
            final(self).orig@ == old(self).orig@,
            old(self).pending().len() == 0 ==> r is None && *final(self) == *old(self),
            old(self).pending().len() > 0 ==> {
                &&& r == Some(old(self).pending().first())
                &&& final(self).pending() == old(self).pending().drop_first()
                &&& final(self).done_front() == old(self).done_front().push(
                    old(self).pending().first(),
                )
                &&& final(self).done_back() == old(self).done_back()
            },
    {
        if self.front == self.back {
            None
        } else {
            let v = self.buf.take_out(self.front);
            self.front = self.front + 1;
            proof {
                assert(self.pending() =~= old(self).pending().drop_first());
                assert(self.done_front() =~= old(self).done_front().push(
                    old(self).pending().first(),
                ));
            }
            Some(v)
        }
    }

    /// Yield the element at the back of the span, or `None` when the span is
    /// exhausted. The back cursor moves first, then the slot at the new back
    /// position is read out; the span shrinks by one from the back.
    pub fn next_back(&mut self) -> (r: Option<T>)
        requires
            old(self).wf(),
        ensures
            final(self).wf(),
            final(self).orig@ == old(self).orig@,
            old(self).pending().len() == 0 ==> r is None && *final(self) == *old(self),
            old(self).pending().len() > 0 ==> {
                &&& r == Some(old(self).pending().last())
                &&& final(self).pending() == old(self).pending().drop_last()
                &&& final(self).done_back() == seq![old(self).pending().last()] + old(
                    self,
                ).done_back()
                &&& final(self).done_front() == old(self).done_front()
            },
    {
        if self.front == self.back {
            None
        } else {
            self.back = self.back - 1;
            let v = self.buf.take_out(self.back);
            proof {
                assert(self.pending() =~= old(self).pending().drop_last());
                assert(self.done_back() =~= seq![old(self).pending().last()] + old(
                    self,
                ).done_back());
            }
            Some(v)
        }
    }

    /// Exact count of the elements not yet yielded — never an estimate —
    /// given as the count and `Some` of the same count.
    pub fn size_hint(&self) -> (r: (usize, Option<usize>))
        requires
            self.wf(),
        ensures
            r.0 == self.pending().len(),
            r.1 == Some(r.0),
    {
        let n = self.back - self.front;
        (n, Some(n))
    }
}

/// However front and back yields are interleaved, the elements yielded from
/// the front, those still pending, and those yielded from the back split the
/// original run into three adjacent pieces: nothing is yielded twice, nothing
/// is skipped, and the three counts always sum to the original length.
pub proof fn lemma_yield_partition<T>(it: RawValIter<T>)
    requires
        it.wf(),
    ensures
        it.done_front() + it.pending() + it.done_back() == it.orig@,
        it.done_front().len() + it.pending().len() + it.done_back().len() == it.orig@.len(),
{
    assert(it.done_front() + it.pending() + it.done_back() =~= it.orig@);
}

} // verus!
