//! A contiguous, growable sequence container built over a hand-managed
//! storage buffer.
//!
//! The buffer ([`raw::RawVec`]) owns a block of slots and grows by doubling;
//! the container ([`Vec`]) tracks how many of the leading slots hold live
//! elements and keeps the rest uninitialized. Consumption goes through two
//! iterators ([`IntoIter`] and [`drain::Drain`]) that share one front/back
//! cursor primitive ([`raw::RawValIter`]).

pub mod drain;
pub mod raw;

use vstd::prelude::*;
use vstd::std_specs::cmp::PartialEqSpec;
use crate::drain::Drain;
use crate::raw::RawValIter;
use crate::raw::RawVec;
use crate::raw::lemma_yield_partition;

verus! {

/// Contiguous, dynamically-sized run of elements.
///
/// The first `len` slots of the buffer hold the elements, in order; every
/// slot past `len` is uninitialized. `wf` states exactly that, and every
/// operation requires and preserves it.
pub struct Vec<T> {
    /// Count of initialized slots.
    pub len: usize,
    /// The owned storage block.
    pub buf: RawVec<T>,
}

impl<T> View for Vec<T> {
    type V = Seq<T>;

    open spec fn view(&self) -> Seq<T> {
        Seq::new(self.len as nat, |i: int| self.buf@[i].unwrap())
    }
}

impl<T> Vec<T> {
    /// The container invariant: the length fits the capacity, slots below the
    /// length are initialized, and slots at or above it are not.
    pub open spec fn wf(&self) -> bool {
        &&& self.len <= self.buf@.len()
        &&& forall|i: int| 0 <= i < self.len ==> (#[trigger] self.buf@[i]) is Some
        &&& forall|i: int| self.len <= i < self.buf@.len() ==> (#[trigger] self.buf@[i]) is None
    }

    /// Number of allocated slots.
    pub open spec fn spec_cap(&self) -> nat {
        self.buf@.len()
    }

    /// A new container: length 0, nothing allocated.
    pub fn new() -> (r: Self)
        ensures
            r.wf(),
            r@ == Seq::<T>::empty(),
            r.spec_cap() == 0,
    {
        let r = Vec { buf: RawVec::new(), len: 0 };
        proof {
            assert(r@ =~= Seq::<T>::empty());
        }
        r
    }

    fn cap(&self) -> (c: usize)
        ensures
            c == self.spec_cap(),
    {
        self.buf.cap()
    }

    /// Append `elem` at the end, growing the buffer if it is full.
    ///
    /// The bound on the length keeps the doubled capacity representable: a
    /// capacity computation that overflows is a fatal error with no recovery
    /// path, so verified callers rule it out up front.
    pub fn push(&mut self, elem: T)
        requires
            old(self).wf(),
            old(self)@.len() < old(self).spec_cap() || 2 * old(self)@.len() <= usize::MAX,
        ensures
            final(self).wf(),
            final(self)@ == old(self)@.push(elem),
            final(self).spec_cap() == if old(self)@.len() < old(self).spec_cap() {
                old(self).spec_cap()
            } else if old(self).spec_cap() == 0 {
                1nat
            } else {
                2 * old(self).spec_cap()
            },
    {
        if self.len == self.cap() {
            self.buf.grow();
        }
        self.buf.write(self.len, elem);
        self.len = self.len + 1;
        proof {
            assert(self@ =~= old(self)@.push(elem));
        }
    }

    /// Remove and return the last element, or `None` when the container is
    /// empty. Popping from an empty container is a normal outcome, not an
    /// error.
    pub fn pop(&mut self) -> (r: Option<T>)
        requires
            old(self).wf(),
        ensures
            final(self).wf(),
            final(self).spec_cap() == old(self).spec_cap(),
            old(self)@.len() == 0 ==> r is None && final(self)@ == old(self)@,
            old(self)@.len() > 0 ==> r == Some(old(self)@.last()) && final(self)@ == old(
                self,
            )@.drop_last(),
    {
        if self.len == 0 {
            None
        } else {
            let v = self.buf.take_out(self.len - 1);
            self.len = self.len - 1;
            proof {
                assert(self@ =~= old(self)@.drop_last());
            }
            Some(v)
        }
    }

    /// Insert `elem` at position `index`, shifting every element at or after
    /// `index` one slot to the right. Each shift moves the element (the source
    /// slot becomes uninitialized), never copies it.
    ///
    /// An index beyond the length is a programmer error, never an expected
    /// run-time outcome, so such calls are excluded up front rather than
    /// tolerated.
    pub fn insert(&mut self, index: usize, elem: T)
        requires
            old(self).wf(),
            index <= old(self)@.len(),
            old(self)@.len() < old(self).spec_cap() || 2 * old(self)@.len() <= usize::MAX,
        ensures
            final(self).wf(),
            final(self)@ == old(self)@.insert(index as int, elem),
            final(self).spec_cap() == if old(self)@.len() < old(self).spec_cap() {
                old(self).spec_cap()
            } else if old(self).spec_cap() == 0 {
                1nat
            } else {
                2 * old(self).spec_cap()
            },
    {
        if self.len == self.cap() {
            self.buf.grow();
        }
        let mut j: usize = self.len;
        while j > index
            invariant
                index <= j <= self.len,
                self.len == old(self).len,
                self.len < self.buf@.len(),
                self.buf@.len() == if old(self)@.len() < old(self).spec_cap() {
                    old(self).spec_cap()
                } else if old(self).spec_cap() == 0 {
                    1nat
                } else {
                    2 * old(self).spec_cap()
                },
                forall|i: int| 0 <= i < j ==> self.buf@[i] == old(self).buf@[i],
                self.buf@[j as int] is None,
                forall|i: int| j < i <= self.len ==> self.buf@[i] == old(self).buf@[i - 1],
                forall|i: int| self.len < i < self.buf@.len() ==> (#[trigger] self.buf@[i]) is None,
                old(self).wf(),
            decreases j,
        {
            let v = self.buf.take_out(j - 1);
            self.buf.write(j, v);
            j = j - 1;
        }
        self.buf.write(index, elem);
        self.len = self.len + 1;
        proof {
            assert(self@ =~= old(self)@.insert(index as int, elem));
        }
    }

    /// Remove and return the element at position `index`, shifting every
    /// later element one slot to the left.
    ///
    /// An index at or beyond the length is a programmer error, never an
    /// expected run-time outcome, so such calls are excluded up front rather
    /// than tolerated.
    pub fn remove(&mut self, index: usize) -> (r: T)
        requires
            old(self).wf(),
            index < old(self)@.len(),
        ensures
            final(self).wf(),
            final(self).spec_cap() == old(self).spec_cap(),
            r == old(self)@[index as int],
            final(self)@ == old(self)@.remove(index as int),
    {
        let r = self.buf.take_out(index);
        let mut j: usize = index;
        while j + 1 < self.len
            invariant
                index <= j < self.len,
                self.len == old(self).len,
                self.len <= self.buf@.len(),
                self.buf@.len() == old(self).buf@.len(),
                forall|i: int| 0 <= i < index ==> self.buf@[i] == old(self).buf@[i],
                forall|i: int| index <= i < j ==> self.buf@[i] == old(self).buf@[i + 1],
                self.buf@[j as int] is None,
                forall|i: int| j < i < self.len ==> self.buf@[i] == old(self).buf@[i],
                forall|i: int| self.len <= i < self.buf@.len() ==> (#[trigger] self.buf@[i]) is None,
                old(self).wf(),
            decreases self.len - j,
        {
            let v = self.buf.take_out(j + 1);
            self.buf.write(j, v);
            j = j + 1;
        }
        self.len = self.len - 1;
        proof {
            assert(self@ =~= old(self)@.remove(index as int));
        }
        r
    }

    /// Borrow the element at position `index`: the read half of the
    /// slice-style view over the initialized range.
    pub fn get(&self, index: usize) -> (r: &T)
        requires
            self.wf(),
            index < self@.len(),
        ensures
            *r == self@[index as int],
    {
        self.buf.read(index)
    }

    /// Overwrite the element at position `index` with `value`: the write half
    /// of the slice-style view over the initialized range.
    pub fn set(&mut self, index: usize, value: T)
        requires
            old(self).wf(),
            index < old(self)@.len(),
        ensures
            final(self).wf(),
            final(self).spec_cap() == old(self).spec_cap(),
            final(self)@ == old(self)@.update(index as int, value),
    {
        self.buf.write(index, value);
        proof {
            assert(self@ =~= old(self)@.update(index as int, value));
        }
    }

    /// Consume the container into an owning iterator over all its elements.
    /// The buffer moves into the iterator; the container is gone afterwards.
    pub fn into_iter(self) -> (it: IntoIter<T>)
        requires
            self.wf(),
        ensures
            it.wf(),
            it.orig() == self@,
            it.pending() == self@,
            it.done_front() == Seq::<T>::empty(),
            it.done_back() == Seq::<T>::empty(),
    {
        let Vec { buf, len } = self;
        let iter = RawValIter::new(buf, len);
        proof {
            assert(iter.orig@ =~= self@);
        }
        IntoIter { iter }
    }

    /// Move every element out into a draining iterator. The container's
    /// length reads 0 the moment this returns, its capacity is unchanged, and
    /// it stays usable; the elements now live only in the iterator. This
    /// always drains the whole container, never a sub-range.
    pub fn drain(&mut self) -> (d: Drain<T>)
        requires
            old(self).wf(),
        ensures
            final(self).wf(),
            final(self).len == 0,
            final(self)@ == Seq::<T>::empty(),
            final(self).spec_cap() == old(self).spec_cap(),
            d.wf(),
            d.orig() == old(self)@,
            d.pending() == old(self)@,
            d.done_front() == Seq::<T>::empty(),
            d.done_back() == Seq::<T>::empty(),
    {
        let cap = self.buf.cap();
        let mut taken = RawVec::with_slots(cap);
        core::mem::swap(&mut self.buf, &mut taken);
        let len = self.len;
        self.len = 0;
        let iter = RawValIter::new(taken, len);
        proof {
            assert(iter.orig@ =~= old(self)@);
            assert(self@ =~= Seq::<T>::empty());
        }
        Drain { iter }
    }
}

/// The contents of a container built from nothing but pushes, in push order:
/// [`Vec::new`] gives the empty run and each [`Vec::push`] appends one value,
/// so this is the fold of those contracts over the pushed values.
pub open spec fn after_pushes<T>(vs: Seq<T>) -> Seq<T>
    decreases vs.len(),
{
    if vs.len() == 0 {
        Seq::empty()
    } else {
        after_pushes(vs.drop_last()).push(vs.last())
    }
}

/// Law: a container built by pushing `vs[0], vs[1], ...` onto a new container
/// has length equal to the number of pushes, and reading any slot `i` gives
/// the `i`-th pushed value.
pub proof fn lemma_pushes_build_exactly<T>(vs: Seq<T>)
    ensures
        after_pushes(vs) == vs,
        after_pushes(vs).len() == vs.len(),
        forall|i: int| 0 <= i < vs.len() ==> after_pushes(vs)[i] == vs[i],
    decreases vs.len(),
{
    if vs.len() == 0 {
        assert(after_pushes(vs) =~= vs);
    } else {
        lemma_pushes_build_exactly(vs.drop_last());
        assert(after_pushes(vs) =~= vs);
    }
}

/// Law: a push followed immediately by a pop returns the pushed value and
/// restores the prior contents. In the terms of the two contracts: popping
/// the run `s.push(elem)` yields `Some` of its last element, which is `elem`,
/// and leaves `drop_last` of it, which is `s` again.
pub proof fn lemma_push_pop_inverse<T>(s: Seq<T>, elem: T)
    ensures
        s.push(elem).len() == s.len() + 1,
        s.push(elem).last() == elem,
        s.push(elem).drop_last() == s,
{
    assert(s.push(elem).drop_last() =~= s);
}

/// Law: after inserting `v` at position `i`, slot `i` reads `v`, every
/// element before `i` keeps its slot, and every element from `i` on moves
/// exactly one slot to the right — the relative order of all previously
/// present elements is preserved.
pub proof fn lemma_insert_preserves_order<T>(s: Seq<T>, i: int, v: T)
    requires
        0 <= i <= s.len(),
    ensures
        s.insert(i, v).len() == s.len() + 1,
        s.insert(i, v)[i] == v,
        forall|j: int| 0 <= j < i ==> s.insert(i, v)[j] == s[j],
        forall|j: int| i <= j < s.len() ==> s.insert(i, v)[j + 1] == s[j],
{
    s.insert_ensures(i, v);
}

/// Law: after removing position `i`, the length drops by one, every element
/// before `i` keeps its slot, and every element after `i` moves exactly one
/// slot to the left — the relative order of the remaining elements is
/// preserved. The removed value itself is pinned by [`Vec::remove`]'s own
/// contract to be what slot `i` held.
pub proof fn lemma_remove_preserves_order<T>(s: Seq<T>, i: int)
    requires
        0 <= i < s.len(),
    ensures
        s.remove(i).len() == s.len() - 1,
        forall|j: int| 0 <= j < i ==> s.remove(i)[j] == s[j],
        forall|j: int| i <= j < s.len() - 1 ==> s.remove(i)[j] == s[j + 1],
{
    s.remove_ensures(i);
}

/// Position-by-position equality of two runs of elements, under the meaning
/// the element type itself gives `==`.
pub open spec fn elems_eq_spec<T: PartialEq>(a: Seq<T>, b: Seq<T>) -> bool {
    &&& a.len() == b.len()
    &&& forall|i: int| #![auto] 0 <= i < a.len() ==> a[i].eq_spec(&b[i])
}

impl<T: PartialEq> Vec<T> {
    /// Equality of two containers: the lengths match and every pair of
    /// elements at the same position compares equal, element comparison being
    /// the element type's own. Where that comparison obeys its specification,
    /// the result is exactly position-by-position equality of the contents.
    pub fn eq(&self, other: &Vec<T>) -> (r: bool)
        requires
            self.wf(),
            other.wf(),
        ensures
            T::obeys_eq_spec() ==> r == elems_eq_spec(self@, other@),
    {
        if self.len != other.len {
            return false;
        }
        let mut i: usize = 0;
        while i < self.len
            invariant
                self.wf(),
                other.wf(),
                self.len == other.len,
                i <= self.len,
                T::obeys_eq_spec() ==> forall|j: int|
                    #![auto]
                    0 <= j < i ==> self@[j].eq_spec(&other@[j]),
            decreases self.len - i,
        {
            let a = self.get(i);
            let b = other.get(i);
            let same: bool = *a == *b;
            if !same {
                return false;
            }
            i = i + 1;
        }
        true
    }
}

/// Owning iterator: created by [`Vec::into_iter`], it holds the container's
/// buffer and yields every element from either end. Whatever it does not
/// yield is dropped with it, so each element leaves the buffer exactly once.
pub struct IntoIter<T> {
    /// The cursor pair over the owned span.
    pub iter: RawValIter<T>,
}

impl<T> IntoIter<T> {
    /// The wrapped cursor pair is well formed.
    pub open spec fn wf(&self) -> bool {
        self.iter.wf()
    }

    /// Elements not yet yielded, front to back.
    pub open spec fn pending(&self) -> Seq<T> {
        self.iter.pending()
    }

    /// Elements already yielded from the front, in yield order.
    pub open spec fn done_front(&self) -> Seq<T> {
        self.iter.done_front()
    }

    /// Elements already yielded from the back, kept in original order.
    pub open spec fn done_back(&self) -> Seq<T> {
        self.iter.done_back()
    }

    /// The elements the consumed container held, front to back.
    pub open spec fn orig(&self) -> Seq<T> {
        self.iter.orig@
    }

    /// Yield the next element from the front, or `None` once exhausted.
    pub fn next(&mut self) -> (r: Option<T>)
        requires
            old(self).wf(),
        ensures
            final(self).wf(),
            final(self).orig() == old(self).orig(),
            old(self).pending().len() == 0 ==> r is None && *final(self) == *old(self),
            old(self).pending().len() > 0 ==> {
                &&& r == Some(old(self).pending().first())
                &&& final(self).pending() == old(self).pending().drop_first()
                &&& final(self).done_front() == old(self).done_front().push(
                    old(self).pending().first(),
                )
                &&& final(self).done_back() == old(self).done_back()
            },
    {
        self.iter.next()
    }

    /// Yield the next element from the back, or `None` once exhausted.
    pub fn next_back(&mut self) -> (r: Option<T>)
        requires
            old(self).wf(),
        ensures
            final(self).wf(),
            final(self).orig() == old(self).orig(),
            old(self).pending().len() == 0 ==> r is None && *final(self) == *old(self),
            old(self).pending().len() > 0 ==> {
                &&& r == Some(old(self).pending().last())
                &&& final(self).pending() == old(self).pending().drop_last()
                &&& final(self).done_back() == seq![old(self).pending().last()] + old(
                    self,
                ).done_back()
                &&& final(self).done_front() == old(self).done_front()
            },
    {
        self.iter.next_back()
    }

    /// Exact count of the elements not yet yielded, and `Some` of it.
    pub fn size_hint(&self) -> (r: (usize, Option<usize>))
        requires
            self.wf(),
        ensures
            r.0 == self.pending().len(),
            r.1 == Some(r.0),
    {
        self.iter.size_hint()
    }
}

/// Front yields, pending elements and back yields split the consumed
/// container's run into three adjacent pieces, whatever the interleaving:
/// front-to-back and back-to-front yields never overlap, and their counts
/// plus the pending count always sum to the original length.
pub proof fn lemma_into_iter_yields_each_once<T>(it: IntoIter<T>)
    requires
        it.wf(),
    ensures
        it.done_front() + it.pending() + it.done_back() == it.orig(),
        it.done_front().len() + it.pending().len() + it.done_back().len() == it.orig().len(),
{
    lemma_yield_partition(it.iter);
}

} // verus!

