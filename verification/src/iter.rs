use vstd::prelude::*;

use crate::RangeVec;

verus! {

/// A finite, double-ended iterator over the values at a caller-chosen index
/// span: indices inside the store's covering range yield the stored value,
/// all others yield the default value. The span is consumed from either end
/// independently, and once it is exhausted the iterator stays exhausted.
pub struct Iter<'a, T> {
    store: &'a RangeVec<T>,
    cur: core::ops::Range<usize>,
}

impl<'a, T> Iter<'a, T> {
    /// The store being read.
    pub closed spec fn store(self) -> RangeVec<T> {
        *self.store
    }

    /// The first index not yet consumed.
    pub closed spec fn lo(self) -> int {
        self.cur.start as int
    }

    /// One past the last index not yet consumed.
    pub closed spec fn hi(self) -> int {
        self.cur.end as int
    }

    /// The cursor never runs backwards.
    pub closed spec fn wf(self) -> bool {
        self.cur.start <= self.cur.end
    }

    /// The values not yet consumed, in index order.
    pub open spec fn remaining(self) -> Seq<T> {
        self.store().content_seq(self.lo(), self.hi())
    }

    /// Builds an iterator over `[range.start, range.end)`; a reversed range
    /// normalizes to an empty span.
    pub(crate) fn new(store: &'a RangeVec<T>, range: core::ops::Range<usize>) -> (it: Self)
        ensures
            it.store() == *store,
            it.wf(),
            it.lo() == range.start,
            it.hi() == (if range.start <= range.end {
                range.end as int
            } else {
                range.start as int
            }),
    {
        let end = if range.start <= range.end {
            range.end
        } else {
            range.start
        };
        Iter { store, cur: range.start..end }
    }

    /// Takes the value at the front of the span, or `None` when the span is
    /// exhausted.
    pub fn next(&mut self) -> (r: Option<&'a T>)
        requires
            old(self).wf(),
        ensures
            final (self).wf(),
            final (self).store() == old(self).store(),
            final (self).hi() == old(self).hi(),
            old(self).remaining().len() == 0 ==> r is None && final (self).lo() == old(self).lo(),
            old(self).remaining().len() > 0 ==> final (self).lo() == old(self).lo() + 1 && (
            r matches Some(v) && *v == old(self).remaining()[0]),
    {
        if self.cur.start >= self.cur.end {
            None
        } else {
            let i = self.cur.start;
            self.cur.start = i + 1;
            Some(self.store.get(i))
        }
    }

    /// Takes the value at the back of the span, or `None` when the span is
    /// exhausted.
    pub fn next_back(&mut self) -> (r: Option<&'a T>)
        requires
            old(self).wf(),
        ensures
            final (self).wf(),
            final (self).store() == old(self).store(),
            final (self).lo() == old(self).lo(),
            old(self).remaining().len() == 0 ==> r is None && final (self).hi() == old(self).hi(),
            old(self).remaining().len() > 0 ==> final (self).hi() == old(self).hi() - 1 && (
            r matches Some(v) && *v == old(self).remaining().last()),
    {
        if self.cur.start >= self.cur.end {
            None
        } else {
            let i = self.cur.end - 1;
            self.cur.end = i;
            Some(self.store.get(i))
        }
    }

    /// How many values are left: exact, and cheap to compute.
    pub fn len(&self) -> (n: usize)
        requires
            self.wf(),
        ensures
            n == self.remaining().len(),
    {
        self.cur.end - self.cur.start
    }

    /// The exact remaining length, as the usual lower and upper bound pair.
    pub fn size_hint(&self) -> (h: (usize, Option<usize>))
        requires
            self.wf(),
        ensures
            h.0 == self.remaining().len(),
            h.1 == Some(h.0),
    {
        let n = self.cur.end - self.cur.start;
        (n, Some(n))
    }
}

} // verus!
