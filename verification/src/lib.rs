//! `RangeVec` is a container that yields a value for every index, while only a
//! small covering range of indices actually holds non-default values; only that
//! range is stored. Reads outside the stored range return the default value,
//! and every mutation grows or trims the stored range so that it is always the
//! smallest span covering all non-default values.

pub use iter::Iter;

mod iter;
mod render;

use vstd::laws_eq::obeys_concrete_eq;
use vstd::prelude::*;
use vstd::std_specs::cmp::PartialEqSpec;

verus! {

/// With `obeys_concrete_eq::<T>()`, the executable `==` on `T` agrees with
/// mathematical equality; this unfolds that fact for use at comparison sites.
proof fn concrete_eq_facts<T: PartialEq>()
    requires
        obeys_concrete_eq::<T>(),
    ensures
        T::obeys_eq_spec(),
        forall|x: T, y: T| #[trigger] x.eq_spec(&y) <==> x == y,
{
    reveal(vstd::laws_eq::obeys_concrete_eq);
}

/// A container that behaves as if every index of type `usize` maps to a value
/// of type `T`, where all but a contiguous covering range of indices hold the
/// default value. Only the covering range is stored, in a growable buffer; the
/// `offset` field is the logical index of the first stored element.
///
/// The default value is computed once at construction and cached for the
/// container's whole lifetime; it is a logic error for two calls to
/// `T::default()` to return different results while the container lives.
#[derive(Debug, Clone)]
pub struct RangeVec<T> {
    data: Vec<T>,
    offset: usize,
    default_item: T,
}

impl<T> RangeVec<T> {
    /// The cached default value, which stands for "absent".
    pub closed spec fn default_val(self) -> T {
        self.default_item
    }

    /// The logical content: a total function from index to value. Indices
    /// outside the stored range hold the default value.
    pub closed spec fn spec_get(self, i: int) -> T {
        if self.offset <= i < self.offset + self.data@.len() {
            self.data@[i - self.offset]
        } else {
            self.default_item
        }
    }

    /// The stored covering range, `None` when nothing is stored.
    pub closed spec fn spec_range(self) -> Option<core::ops::Range<usize>> {
        if self.data@.len() == 0 {
            None
        } else {
            Some(
                (core::ops::Range {
                    start: self.offset,
                    end: (self.offset + self.data@.len()) as usize,
                }),
            )
        }
    }

    /// Structural bound: the exclusive end of the stored range is
    /// representable as a `usize`.
    spec fn inv_basic(self) -> bool {
        self.offset + self.data@.len() <= usize::MAX
    }

    /// Minimality: a non-empty stored range begins and ends with a
    /// non-default value, so it is the smallest span covering all
    /// non-default values.
    spec fn inv_minimal(self) -> bool {
        self.data@.len() > 0 ==> self.data@[0] != self.default_item && self.data@[self.data@.len()
            - 1] != self.default_item
    }

    /// Well-formedness: every constructor establishes this and every method
    /// preserves it.
    pub closed spec fn wf(self) -> bool {
        self.inv_basic() && self.inv_minimal()
    }

    /// The values at the consecutive indices `[a, b)`, as a sequence.
    pub open spec fn content_seq(self, a: int, b: int) -> Seq<T> {
        Seq::new(if a <= b { (b - a) as nat } else { 0 }, |k: int| self.spec_get(a + k))
    }

    /// Two stores are observably equal when they hold the same default value
    /// and the same value at every index; every read goes through those.
    pub open spec fn same_content(a: Self, b: Self) -> bool {
        a.default_val() == b.default_val() && forall|i: int| a.spec_get(i) == b.spec_get(i)
    }

    /// How a store after `set(index, value)` relates to the store before it.
    pub open spec fn sets_to(pre: Self, post: Self, index: usize, value: T) -> bool {
        &&& post.wf()
        &&& post.default_val() == pre.default_val()
        &&& post.spec_get(index as int) == value
        &&& forall|j: int| j != index ==> post.spec_get(j) == pre.spec_get(j)
    }

    /// How a store after `reset(index)` relates to the store before it.
    pub open spec fn resets_to(pre: Self, post: Self, index: usize) -> bool {
        &&& post.wf()
        &&& post.default_val() == pre.default_val()
        &&& post.spec_get(index as int) == post.default_val()
        &&& forall|j: int| j != index ==> post.spec_get(j) == pre.spec_get(j)
    }

    /// What a read observes right after a write: a store that
    /// `set(index, value)` produced holds exactly `value` at `index`, so a
    /// `get(index)` returns it; after `reset(index)`, or after writing the
    /// default value, a `get(index)` returns the default value.
    pub proof fn lemma_get_after_write(pre: Self, post: Self, index: usize, value: T)
        requires
            Self::sets_to(pre, post, index, value) || Self::resets_to(pre, post, index),
        ensures
            Self::sets_to(pre, post, index, value) ==> post.spec_get(index as int) == value,
            Self::sets_to(pre, post, index, value) && value == pre.default_val() ==> post.spec_get(
                index as int,
            ) == post.default_val(),
            Self::resets_to(pre, post, index) ==> post.spec_get(index as int)
                == post.default_val(),
    {
    }

    /// The covering range is determined by the content: two well-formed
    /// stores holding the same value at every index store the same range.
    pub proof fn lemma_content_determines_range(a: Self, b: Self)
        requires
            a.wf(),
            b.wf(),
            Self::same_content(a, b),
        ensures
            a.spec_range() == b.spec_range(),
    {
        if a.data@.len() == 0 && b.data@.len() == 0 {
        } else if a.data@.len() > 0 && b.data@.len() == 0 {
            assert(a.spec_get(a.offset as int) == b.spec_get(a.offset as int));
            assert(false);
        } else if a.data@.len() == 0 && b.data@.len() > 0 {
            assert(a.spec_get(b.offset as int) == b.spec_get(b.offset as int));
            assert(false);
        } else {
            let a_last = a.offset + a.data@.len() - 1;
            let b_last = b.offset + b.data@.len() - 1;
            assert(a.spec_get(a.offset as int) != a.default_val());
            assert(a.spec_get(a_last) != a.default_val());
            assert(b.spec_get(b.offset as int) != b.default_val());
            assert(b.spec_get(b_last) != b.default_val());
            assert(b.spec_get(a.offset as int) != b.default_val());
            assert(b.offset <= a.offset);
            assert(a.spec_get(b.offset as int) != a.default_val());
            assert(a.offset <= b.offset);
            assert(b.spec_get(a_last) != b.default_val());
            assert(a_last <= b_last);
            assert(a.spec_get(b_last) != a.default_val());
            assert(b_last <= a_last);
        }
    }

    /// Resetting the same index twice in a row has the same observable
    /// effect as resetting it once: the second reset finds the default value
    /// already in place and changes nothing observable.
    pub proof fn lemma_reset_idempotent(s0: Self, s1: Self, s2: Self, index: usize)
        requires
            Self::resets_to(s0, s1, index),
            Self::resets_to(s1, s2, index),
        ensures
            Self::same_content(s1, s2),
            s1.spec_range() == s2.spec_range(),
    {
        assert(forall|i: int| s1.spec_get(i) == s2.spec_get(i));
        Self::lemma_content_determines_range(s1, s2);
    }

    /// The two segment-access methods let a caller observe the same logical
    /// contents for a span: the concatenation of the two slices one hands
    /// out equals the single contiguous slice the other hands out, both
    /// being exactly the values at the span.
    pub proof fn lemma_segment_observation_agrees(
        self,
        a: int,
        b: int,
        seg0: Seq<T>,
        seg1: Seq<T>,
        contiguous: Seq<T>,
    )
        requires
            seg0 == self.content_seq(a, b),
            seg1 == Seq::<T>::empty(),
            contiguous == self.content_seq(a, b),
        ensures
            seg0 + seg1 == contiguous,
    {
        assert(seg0 + seg1 =~= contiguous);
    }

    /// Traversing a span backward yields exactly the reversal of traversing
    /// it forward: position `k` from the back holds the value at index
    /// `b - 1 - k`.
    pub proof fn lemma_reverse_iteration(self, a: int, b: int)
        requires
            a <= b,
        ensures
            self.content_seq(a, b).reverse() == Seq::new((b - a) as nat, |k: int| self.spec_get(b - 1 - k)),
    {
        assert(self.content_seq(a, b).reverse() =~= Seq::new(
            (b - a) as nat,
            |k: int| self.spec_get(b - 1 - k),
        ));
    }

    /// Returns the stored covering range: the smallest index span `[start, end)`
    /// containing every non-default value, or `None` when every index holds
    /// the default value.
    pub fn range(&self) -> (r: Option<core::ops::Range<usize>>)
        requires
            self.wf(),
        ensures
            r == self.spec_range(),
            r is None <==> (forall|i: int| self.spec_get(i) == self.default_val()),
            r matches Some(rng) ==> rng.start < rng.end && self.spec_get(rng.start as int)
                != self.default_val() && self.spec_get(rng.end - 1) != self.default_val() && (forall|
                i: int,
            |
                !(rng.start <= i < rng.end) ==> self.spec_get(i) == self.default_val()),
    {
        if self.data.len() == 0 {
            None
        } else {
            assert(self.spec_get(self.offset as int) != self.default_val());
            Some(self.offset..self.offset + self.data.len())
        }
    }

    /// Returns the size of the stored covering range.
    pub fn range_size(&self) -> (n: usize)
        requires
            self.wf(),
        ensures
            n == (match self.spec_range() {
                Some(rng) => rng.end - rng.start,
                None => 0,
            }),
    {
        self.data.len()
    }

    /// Returns `true` when no value is stored, i.e. every index holds the
    /// default value.
    pub fn is_empty(&self) -> (b: bool)
        requires
            self.wf(),
        ensures
            b <==> (forall|i: int| self.spec_get(i) == self.default_val()),
            b <==> self.spec_range() is None,
    {
        let e = self.data.len() == 0;
        if !e {
            assert(self.spec_get(self.offset as int) != self.default_val());
        }
        e
    }

    /// Resets every index to the default value.
    pub fn clear(&mut self)
        ensures
            final (self).wf(),
            final (self).default_val() == old(self).default_val(),
            forall|i: int| final (self).spec_get(i) == final (self).default_val(),
            final (self).spec_range() is None,
    {
        self.data.clear();
    }

    /// Creates an iterator over the values at `[range.start, range.end)`,
    /// yielding the stored value inside the covering range and the default
    /// value everywhere else; a reversed range yields nothing.
    pub fn iter<'a>(&'a self, range: core::ops::Range<usize>) -> (it: Iter<'a, T>)
        ensures
            it.store() == *self,
            it.wf(),
            it.lo() == range.start,
            it.hi() == (if range.start <= range.end {
                range.end as int
            } else {
                range.start as int
            }),
    {
        Iter::new(self, range)
    }

    /// Provides a reference to the value at `index`: the stored element when
    /// `index` lies in the covering range, the default value otherwise.
    pub fn get(&self, index: usize) -> (r: &T)
        ensures
            *r == self.spec_get(index as int),
    {
        if index >= self.offset && index - self.offset < self.data.len() {
            &self.data[index - self.offset]
        } else {
            &self.default_item
        }
    }
}

impl<T: Copy + PartialEq + Default> RangeVec<T> {
    /// Creates an empty container: every index holds the default value, which
    /// is computed here, once.
    pub fn new() -> (r: Self)
        ensures
            r.wf(),
            call_ensures(T::default, (), r.default_val()),
            forall|i: int| r.spec_get(i) == r.default_val(),
            r.spec_range() is None,
    {
        RangeVec { data: Vec::new(), offset: 0, default_item: T::default() }
    }

    /// The position of the first stored element that differs from the default
    /// value, or the buffer length when there is none.
    fn first_non_default(&self) -> (k: usize)
        requires
            obeys_concrete_eq::<T>(),
        ensures
            k <= self.data@.len(),
            forall|j: int| 0 <= j < k ==> self.data@[j] == self.default_val(),
            k < self.data@.len() ==> self.data@[k as int] != self.default_val(),
    {
        let n = self.data.len();
        let mut k: usize = 0;
        while k < n
            invariant
                k <= n,
                n == self.data@.len(),
                obeys_concrete_eq::<T>(),
                forall|j: int| 0 <= j < k ==> self.data@[j] == self.default_val(),
            decreases n - k,
        {
            let same = self.data[k] == self.default_item;
            proof {
                concrete_eq_facts::<T>();
            }
            if !same {
                return k;
            }
            k += 1;
        }
        k
    }

    /// One past the position of the last stored element that differs from the
    /// default value, or `0` when there is none.
    fn one_past_last_non_default(&self) -> (k: usize)
        requires
            obeys_concrete_eq::<T>(),
        ensures
            k <= self.data@.len(),
            forall|j: int| k <= j < self.data@.len() ==> self.data@[j] == self.default_val(),
            k > 0 ==> self.data@[k - 1] != self.default_val(),
    {
        let n = self.data.len();
        let mut k: usize = n;
        while k > 0
            invariant
                k <= n,
                n == self.data@.len(),
                obeys_concrete_eq::<T>(),
                forall|j: int| k <= j < self.data@.len() ==> self.data@[j] == self.default_val(),
            decreases k,
        {
            let same = self.data[k - 1] == self.default_item;
            proof {
                concrete_eq_facts::<T>();
            }
            if !same {
                return k;
            }
            k -= 1;
        }
        k
    }

    /// Trims every leading default value off the stored buffer; clears the
    /// buffer entirely when every stored value is default.
    fn shrink_left(&mut self)
        requires
            obeys_concrete_eq::<T>(),
            old(self).inv_basic(),
        ensures
            final (self).inv_basic(),
            final (self).default_val() == old(self).default_val(),
            forall|i: int| final (self).spec_get(i) == old(self).spec_get(i),
            final (self).data@.len() > 0 ==> final (self).data@[0] != final (self).default_val(),
            final (self).data@.len() > 0 ==> old(self).offset <= final (self).offset
                && final (self).offset + final (self).data@.len() == old(self).offset + old(
                self,
            ).data@.len() && final (self).data@[final (self).data@.len() - 1] == old(self).data@[old(
                self,
            ).data@.len() - 1],
            final (self).data@.len() == 0 ==> forall|i: int|
                old(self).spec_get(i) == old(self).default_val(),
    {
        let k = self.first_non_default();
        if k == self.data.len() {
            self.data.clear();
        } else if k > 0 {
            let rest = self.data.split_off(k);
            self.data = rest;
            self.offset = self.offset + k;
        }
    }

    /// Trims every trailing default value off the stored buffer; clears the
    /// buffer entirely when every stored value is default.
    fn shrink_right(&mut self)
        requires
            obeys_concrete_eq::<T>(),
            old(self).inv_basic(),
        ensures
            final (self).inv_basic(),
            final (self).default_val() == old(self).default_val(),
            forall|i: int| final (self).spec_get(i) == old(self).spec_get(i),
            final (self).data@.len() > 0 ==> final (self).data@[final (self).data@.len() - 1]
                != final (self).default_val(),
            final (self).data@.len() > 0 ==> final (self).offset == old(self).offset
                && final (self).data@.len() <= old(self).data@.len() && final (self).data@[0]
                == old(self).data@[0],
            final (self).data@.len() == 0 ==> forall|i: int|
                old(self).spec_get(i) == old(self).default_val(),
    {
        let k = self.one_past_last_non_default();
        if k == 0 {
            self.data.clear();
        } else {
            self.data.truncate(k);
        }
    }

    /// After a single-index mutation, re-establishes minimality by trimming
    /// from whichever end the mutated index touches; an interior mutation
    /// cannot break minimality, so nothing is scanned then.
    fn shrink(&mut self, index: usize)
        requires
            obeys_concrete_eq::<T>(),
            old(self).inv_basic(),
            old(self).data@.len() > 0,
            old(self).offset <= index < old(self).offset + old(self).data@.len(),
            index != old(self).offset ==> old(self).data@[0] != old(self).default_val(),
            index != old(self).offset + old(self).data@.len() - 1 ==> old(self).data@[old(
                self,
            ).data@.len() - 1] != old(self).default_val(),
        ensures
            final (self).wf(),
            final (self).default_val() == old(self).default_val(),
            forall|i: int| final (self).spec_get(i) == old(self).spec_get(i),
    {
        if index == self.offset {
            self.shrink_left();
        } else if index == self.offset + self.data.len() - 1 {
            self.shrink_right();
        }
    }

    /// Expands the stored buffer so that `index` lies inside the covering
    /// range, filling newly created slots with the default value. Pure
    /// expansion: never shrinks and never inspects stored values.
    fn grow_to_include(&mut self, index: usize)
        requires
            old(self).inv_basic(),
            index < usize::MAX,
        ensures
            final (self).inv_basic(),
            final (self).default_val() == old(self).default_val(),
            forall|i: int| final (self).spec_get(i) == old(self).spec_get(i),
            final (self).offset <= index < final (self).offset + final (self).data@.len(),
            old(self).data@.len() == 0 ==> final (self).offset == index
                && final (self).data@.len() == 1,
            old(self).data@.len() > 0 ==> final (self).offset == (if index < old(self).offset {
                index as int
            } else {
                old(self).offset as int
            }) && final (self).offset + final (self).data@.len() == (if index + 1 > old(self).offset
                + old(self).data@.len() {
                index + 1
            } else {
                old(self).offset + old(self).data@.len()
            }),
    {
        if self.data.len() == 0 {
            self.offset = index;
            self.data.push(self.default_item);
        } else if index < self.offset {
            let additional = self.offset - index;
            let mut grown: Vec<T> = Vec::new();
            let mut c: usize = 0;
            while c < additional
                invariant
                    c <= additional,
                    grown@.len() == c,
                    forall|j: int| 0 <= j < c ==> grown@[j] == self.default_val(),
                decreases additional - c,
            {
                grown.push(self.default_item);
                c += 1;
            }
            grown.append(&mut self.data);
            self.data = grown;
            self.offset = index;
        } else if index >= self.offset + self.data.len() {
            let additional = index - (self.offset + self.data.len()) + 1;
            let mut c: usize = 0;
            while c < additional
                invariant
                    c <= additional,
                    self.offset == old(self).offset,
                    self.default_item == old(self).default_item,
                    self.data@.len() == old(self).data@.len() + c,
                    old(self).offset + old(self).data@.len() + additional <= usize::MAX,
                    forall|j: int|
                        0 <= j < old(self).data@.len() ==> self.data@[j] == old(self).data@[j],
                    forall|j: int|
                        old(self).data@.len() <= j < self.data@.len() ==> self.data@[j] == self.default_val(),
                decreases additional - c,
            {
                self.data.push(self.default_item);
                c += 1;
            }
        }
    }

    /// Writes a non-default value at an index outside the covering range,
    /// growing the buffer to reach it; writing the default value outside the
    /// range is a no-op, since the range is already minimal with respect to it.
    fn grow_and_set(&mut self, index: usize, value: T)
        requires
            obeys_concrete_eq::<T>(),
            old(self).inv_basic(),
            !(old(self).offset <= index < old(self).offset + old(self).data@.len()),
            value != old(self).default_val() ==> index < usize::MAX,
        ensures
            final (self).inv_basic(),
            final (self).default_val() == old(self).default_val(),
            final (self).spec_get(index as int) == value,
            forall|j: int| j != index ==> final (self).spec_get(j) == old(self).spec_get(j),
            old(self).wf() ==> final (self).wf(),
    {
        let ne = value != self.default_item;
        proof {
            concrete_eq_facts::<T>();
        }
        if ne {
            self.grow_to_include(index);
            let ghost grown = *self;
            self.data[index - self.offset] = value;
            proof {
                let p = index - self.offset;
                assert(self.data@[p] == value);
                assert(p == 0 || p == self.data@.len() - 1);
                if old(self).wf() && old(self).data@.len() > 0 {
                    if p == 0 {
                        let last = self.offset + self.data@.len() - 1;
                        assert(last == old(self).offset + old(self).data@.len() - 1);
                        assert(grown.data@[self.data@.len() - 1] == grown.spec_get(last));
                        assert(old(self).data@[old(self).data@.len() - 1] == old(self).spec_get(
                            last,
                        ));
                    } else {
                        assert(grown.data@[0] == grown.spec_get(self.offset as int));
                        assert(old(self).data@[0] == old(self).spec_get(self.offset as int));
                    }
                }
            }
        }
    }

    /// Resets the value at `index` to the default value and re-trims the
    /// covering range; outside the range this is a no-op, since the value
    /// there is already the default.
    pub fn reset(&mut self, index: usize)
        requires
            obeys_concrete_eq::<T>(),
            old(self).wf(),
        ensures
            final (self).wf(),
            final (self).default_val() == old(self).default_val(),
            final (self).spec_get(index as int) == final (self).default_val(),
            forall|j: int| j != index ==> final (self).spec_get(j) == old(self).spec_get(j),
            Self::resets_to(*old(self), *final (self), index),
    {
        if index >= self.offset && index - self.offset < self.data.len() {
            self.data[index - self.offset] = self.default_item;
            self.shrink(index);
        }
    }

    /// Applies `f` to the value at `index` in place, then re-trims or grows
    /// the covering range according to the value `f` left behind: a value
    /// equal to the default outside the range costs nothing, a non-default
    /// value outside the range grows the range to reach `index`. Returns
    /// whatever `f` returns.
    pub fn get_mut_with<F: FnOnce(&mut T) -> R, R>(&mut self, index: usize, f: F) -> (r: R)
        requires
            obeys_concrete_eq::<T>(),
            old(self).wf(),
            forall|m: &mut T|
                mut_ref_current(m) == old(self).spec_get(index as int) ==> #[trigger] call_requires(
                    f,
                    (m,),
                ),
            index == usize::MAX ==> forall|m: &mut T, ret: R|
                mut_ref_current(m) == old(self).spec_get(index as int) && #[trigger] call_ensures(
                    f,
                    (m,),
                    ret,
                ) ==> mut_ref_future(m) == old(self).default_val(),
        ensures
            final (self).wf(),
            final (self).default_val() == old(self).default_val(),
            exists|m: &mut T|
                mut_ref_current(m) == old(self).spec_get(index as int) && #[trigger] call_ensures(
                    f,
                    (m,),
                    r,
                ) && final (self).spec_get(index as int) == mut_ref_future(m),
            forall|j: int| j != index ==> final (self).spec_get(j) == old(self).spec_get(j),
    {
        if index >= self.offset && index - self.offset < self.data.len() {
            let idx = index - self.offset;
            let r = f(&mut self.data[idx]);
            self.shrink(index);
            r
        } else {
            let mut scratch = self.default_item;
            let r = f(&mut scratch);
            self.grow_and_set(index, scratch);
            r
        }
    }

    /// Applies `f` to every index of `range` in increasing order, with the
    /// same in-range and out-of-range behaviour as a single-index mutation,
    /// but with one re-trimming pass at the end instead of one per index.
    /// `f` receives each index alongside the current value and returns the
    /// value to store. An empty or reversed range mutates nothing.
    #[verifier::loop_isolation(false)]
    pub fn mutate_many<F: FnMut(usize, T) -> T>(
        &mut self,
        range: core::ops::Range<usize>,
        f: F,
    )
        requires
            obeys_concrete_eq::<T>(),
            old(self).wf(),
            forall|i: usize|
                range.start <= i < range.end ==> call_requires(
                    f,
                    (i, old(self).spec_get(i as int)),
                ),
        ensures
            final (self).wf(),
            final (self).default_val() == old(self).default_val(),
            forall|j: int|
                !(range.start <= j < range.end) ==> final (self).spec_get(j) == old(self).spec_get(
                    j,
                ),
            forall|i: usize|
                range.start <= i < range.end ==> call_ensures(
                    f,
                    (i, old(self).spec_get(i as int)),
                    final (self).spec_get(i as int),
                ),
    {
        let mut g = f;
        let ghost f0 = g;
        let mut i = range.start;
        while i < range.end
            invariant
                range.start <= i,
                range.start < range.end ==> i <= range.end,
                range.start >= range.end ==> i == range.start,
                g == f0,
                f0 == f,
                self.inv_basic(),
                self.default_val() == old(self).default_val(),
                forall|j: int|
                    !(range.start <= j < i) ==> self.spec_get(j) == old(self).spec_get(j),
                forall|k: usize|
                    range.start <= k < i ==> call_ensures(
                        f,
                        (k, old(self).spec_get(k as int)),
                        #[trigger] self.spec_get(k as int),
                    ),
            decreases range.end - i,
        {
            let ghost prev = *self;
            proof {
                assert(self.spec_get(i as int) == old(self).spec_get(i as int));
            }
            if i >= self.offset && i - self.offset < self.data.len() {
                let idx = i - self.offset;
                proof {
                    assert(self.data@[idx as int] == self.spec_get(i as int));
                }
                let out = g(i, self.data[idx]);
                self.data[idx] = out;
                proof {
                    assert(self.spec_get(i as int) == out);
                    assert(forall|j: int| j != i ==> self.spec_get(j) == prev.spec_get(j));
                }
            } else {
                proof {
                    assert(self.spec_get(i as int) == self.default_val());
                }
                let out = g(i, self.default_item);
                self.grow_and_set(i, out);
            }
            proof {
                assert forall|k: usize| range.start <= k < i + 1 implies call_ensures(
                    f,
                    (k, old(self).spec_get(k as int)),
                    #[trigger] self.spec_get(k as int),
                ) by {
                    if k < i {
                        assert(self.spec_get(k as int) == prev.spec_get(k as int));
                    }
                }
            }
            i += 1;
        }
        self.shrink_left();
        self.shrink_right();
    }

    /// Applies `f` to every currently non-default value, handing it the
    /// index alongside the value and storing what it returns; indices holding
    /// the default value are never visited. One re-trimming pass runs at the
    /// end.
    #[verifier::loop_isolation(false)]
    pub fn mutate_non_default<F: FnMut(usize, T) -> T>(&mut self, f: F)
        requires
            obeys_concrete_eq::<T>(),
            old(self).wf(),
            forall|i: usize|
                old(self).spec_get(i as int) != old(self).default_val() ==> call_requires(
                    f,
                    (i, old(self).spec_get(i as int)),
                ),
        ensures
            final (self).wf(),
            final (self).default_val() == old(self).default_val(),
            forall|j: int|
                old(self).spec_get(j) == old(self).default_val() ==> final (self).spec_get(j)
                    == old(self).spec_get(j),
            forall|i: usize|
                old(self).spec_get(i as int) != old(self).default_val() ==> call_ensures(
                    f,
                    (i, old(self).spec_get(i as int)),
                    final (self).spec_get(i as int),
                ),
    {
        let mut g = f;
        let ghost f0 = g;
        let n = self.data.len();
        let mut k: usize = 0;
        while k < n
            invariant
                k <= n,
                n == self.data@.len(),
                g == f0,
                f0 == f,
                self.inv_basic(),
                self.offset == old(self).offset,
                self.data@.len() == old(self).data@.len(),
                self.default_val() == old(self).default_val(),
                forall|j: int|
                    !(self.offset <= j < self.offset + k) ==> self.spec_get(j) == old(
                        self,
                    ).spec_get(j),
                forall|j: int|
                    self.offset <= j < self.offset + k && old(self).spec_get(j) == old(
                        self,
                    ).default_val() ==> self.spec_get(j) == old(self).spec_get(j),
                forall|i: usize|
                    self.offset <= i < self.offset + k && old(self).spec_get(i as int) != old(
                        self,
                    ).default_val() ==> call_ensures(
                        f,
                        (i, old(self).spec_get(i as int)),
                        #[trigger] self.spec_get(i as int),
                    ),
            decreases n - k,
        {
            let ghost prev = *self;
            let logical = self.offset + k;
            let cur = self.data[k];
            let ne = cur != self.default_item;
            proof {
                concrete_eq_facts::<T>();
                assert(cur == self.spec_get(logical as int));
                assert(self.spec_get(logical as int) == old(self).spec_get(logical as int));
            }
            if ne {
                let out = g(logical, cur);
                self.data[k] = out;
                proof {
                    assert(self.spec_get(logical as int) == out);
                    assert(forall|j: int| j != logical ==> self.spec_get(j) == prev.spec_get(j));
                }
            }
            proof {
                assert forall|i: usize|
                    self.offset <= i < self.offset + k + 1 && old(self).spec_get(i as int) != old(
                        self,
                    ).default_val() implies call_ensures(
                    f,
                    (i, old(self).spec_get(i as int)),
                    #[trigger] self.spec_get(i as int),
                ) by {
                    if i < logical {
                        assert(self.spec_get(i as int) == prev.spec_get(i as int));
                    }
                }
            }
            k += 1;
        }
        self.shrink_left();
        self.shrink_right();
    }

    /// Keeps only the values at indices inside `range`, resetting every
    /// other index to the default value and re-trimming the covering range;
    /// an empty or reversed range resets everything.
    pub fn truncate(&mut self, range: core::ops::Range<usize>)
        requires
            obeys_concrete_eq::<T>(),
            old(self).wf(),
        ensures
            final (self).wf(),
            final (self).default_val() == old(self).default_val(),
            forall|j: int|
                range.start <= j < range.end ==> final (self).spec_get(j) == old(self).spec_get(j),
            forall|j: int|
                !(range.start <= j < range.end) ==> final (self).spec_get(j)
                    == final (self).default_val(),
    {
        if range.start >= range.end {
            self.data.clear();
            return ;
        }
        let new_end = if range.end >= self.offset {
            let d = range.end - self.offset;
            if d < self.data.len() {
                d
            } else {
                self.data.len()
            }
        } else {
            0
        };
        self.data.truncate(new_end);
        let new_start = if range.start >= self.offset {
            let d = range.start - self.offset;
            if d < self.data.len() {
                d
            } else {
                self.data.len()
            }
        } else {
            0
        };
        let rest = self.data.split_off(new_start);
        self.data = rest;
        self.offset = self.offset + new_start;
        self.shrink_left();
        self.shrink_right();
    }

    /// Copies the values at `range` out of the store, in index order.
    fn copy_span(&self, range: core::ops::Range<usize>) -> (buf: Vec<T>)
        requires
            range.start < range.end ==> self.offset <= range.start && range.end <= self.offset
                + self.data@.len(),
        ensures
            buf@ == self.content_seq(range.start as int, range.end as int),
    {
        let mut buf: Vec<T> = Vec::new();
        if range.start < range.end {
            let span = range.end - range.start;
            let base = range.start - self.offset;
            let mut k: usize = 0;
            while k < span
                invariant
                    k <= span,
                    span == range.end - range.start,
                    base == range.start - self.offset,
                    self.offset <= range.start,
                    range.end <= self.offset + self.data@.len(),
                    buf@.len() == k,
                    forall|j: int| 0 <= j < k ==> buf@[j] == self.spec_get(range.start + j),
                decreases span - k,
            {
                buf.push(self.data[base + k]);
                k += 1;
            }
        }
        proof {
            assert(buf@ =~= self.content_seq(range.start as int, range.end as int));
        }
        buf
    }

    /// Writes `buf` back over the values at `range`, in index order.
    fn paste_span(&mut self, range: core::ops::Range<usize>, buf: &Vec<T>)
        requires
            range.start < range.end ==> old(self).offset <= range.start && range.end <= old(
                self,
            ).offset + old(self).data@.len(),
            buf@.len() == (if range.start < range.end {
                range.end - range.start
            } else {
                0
            }),
        ensures
            final (self).offset == old(self).offset,
            final (self).data@.len() == old(self).data@.len(),
            final (self).default_val() == old(self).default_val(),
            forall|j: int|
                !(range.start <= j < range.end) ==> final (self).spec_get(j) == old(self).spec_get(
                    j,
                ),
            forall|k: int|
                0 <= k < buf@.len() ==> final (self).spec_get(range.start + k) == buf@[k],
    {
        if range.start < range.end {
            let span = range.end - range.start;
            let base = range.start - self.offset;
            let mut k: usize = 0;
            while k < span
                invariant
                    k <= span,
                    span == range.end - range.start,
                    base == range.start - self.offset,
                    self.offset == old(self).offset,
                    self.offset <= range.start,
                    range.end <= self.offset + self.data@.len(),
                    self.data@.len() == old(self).data@.len(),
                    self.default_item == old(self).default_item,
                    buf@.len() == span,
                    forall|j: int|
                        !(range.start <= j < range.start + k) ==> self.spec_get(j) == old(
                            self,
                        ).spec_get(j),
                    forall|j: int|
                        0 <= j < k ==> self.spec_get(range.start + j) == buf@[j],
                decreases span - k,
            {
                self.data[base + k] = buf[k];
                k += 1;
            }
        }
    }

    /// Grows the covering range to reach both ends of `range`, hands `f` the
    /// backing storage for `range` as two mutable slices whose concatenation,
    /// in order, holds exactly the values at `range`, and re-trims the
    /// covering range afterwards. The storage here is always contiguous, so
    /// the first slice holds everything and the second is empty; callers must
    /// accept any split. Returns whatever `f` returns. An empty or reversed
    /// range hands `f` two empty slices and changes nothing.
    pub fn as_mut_slices_with<F: FnOnce(&mut [T], &mut [T]) -> R, R>(
        &mut self,
        range: core::ops::Range<usize>,
        f: F,
    ) -> (r: R)
        requires
            obeys_concrete_eq::<T>(),
            old(self).wf(),
            range.start < range.end ==> range.end < usize::MAX,
            forall|a: &mut [T], b: &mut [T]|
                a@ == old(self).content_seq(range.start as int, range.end as int) && b@ == Seq::<
                    T,
                >::empty() ==> #[trigger] call_requires(f, (a, b)),
        ensures
            final (self).wf(),
            final (self).default_val() == old(self).default_val(),
            forall|j: int|
                !(range.start <= j < range.end) ==> final (self).spec_get(j) == old(self).spec_get(
                    j,
                ),
            exists|a: &mut [T], b: &mut [T]|
                a@ == old(self).content_seq(range.start as int, range.end as int) && b@ == Seq::<
                    T,
                >::empty() && #[trigger] call_ensures(f, (a, b), r) && (final (a)@.len()
                == range.end - range.start && final (b)@.len() == 0 ==> forall|k: int|
                0 <= k < range.end - range.start ==> final (self).spec_get(range.start + k)
                    == final (a)@[k]) && (!(final (a)@.len() == range.end - range.start && final (
            b)@.len() == 0) ==> forall|j: int|
                range.start <= j < range.end ==> final (self).spec_get(j) == old(self).spec_get(j)),
    {
        let span = if range.start < range.end {
            self.grow_to_include(range.start);
            self.grow_to_include(range.end);
            range.end - range.start
        } else {
            0
        };
        let mut buf = self.copy_span(range.start..range.end);
        let mut second: Vec<T> = Vec::new();
        proof {
            assert(buf@ =~= old(self).content_seq(range.start as int, range.end as int));
        }
        let r = f(buf.as_mut_slice(), second.as_mut_slice());
        if buf.len() == span && second.len() == 0 {
            self.paste_span(range.start..range.end, &buf);
        }
        self.shrink_left();
        self.shrink_right();
        r
    }

    /// Grows the covering range to reach both ends of `range`, hands `f` one
    /// mutable slice holding exactly the values at `range`, and re-trims the
    /// covering range afterwards. Returns whatever `f` returns. An empty or
    /// reversed range hands `f` an empty slice and changes nothing.
    pub fn make_contiguous_with<F: FnOnce(&mut [T]) -> R, R>(
        &mut self,
        range: core::ops::Range<usize>,
        f: F,
    ) -> (r: R)
        requires
            obeys_concrete_eq::<T>(),
            old(self).wf(),
            range.start < range.end ==> range.end < usize::MAX,
            forall|s: &mut [T]|
                s@ == old(self).content_seq(range.start as int, range.end as int)
                    ==> #[trigger] call_requires(f, (s,)),
        ensures
            final (self).wf(),
            final (self).default_val() == old(self).default_val(),
            forall|j: int|
                !(range.start <= j < range.end) ==> final (self).spec_get(j) == old(self).spec_get(
                    j,
                ),
            exists|s: &mut [T]|
                s@ == old(self).content_seq(range.start as int, range.end as int)
                    && #[trigger] call_ensures(f, (s,), r) && (final (s)@.len() == range.end
                    - range.start ==> forall|k: int|
                    0 <= k < range.end - range.start ==> final (self).spec_get(range.start + k)
                        == final (s)@[k]) && (final (s)@.len() != range.end - range.start
                    ==> forall|j: int|
                    range.start <= j < range.end ==> final (self).spec_get(j) == old(
                        self,
                    ).spec_get(j)),
    {
        let span = if range.start < range.end {
            self.grow_to_include(range.start);
            self.grow_to_include(range.end);
            range.end - range.start
        } else {
            0
        };
        let mut buf = self.copy_span(range.start..range.end);
        proof {
            assert(buf@ =~= old(self).content_seq(range.start as int, range.end as int));
        }
        let r = f(buf.as_mut_slice());
        if buf.len() == span {
            self.paste_span(range.start..range.end, &buf);
        }
        self.shrink_left();
        self.shrink_right();
        r
    }

    /// Sets the value at `index`. Inside the covering range the element is
    /// overwritten in place and the range re-trimmed; outside it, a
    /// non-default value grows the range to reach `index`, while a default
    /// value is a no-op.
    pub fn set(&mut self, index: usize, value: T)
        requires
            obeys_concrete_eq::<T>(),
            old(self).wf(),
            value != old(self).default_val() ==> index < usize::MAX,
        ensures
            final (self).wf(),
            final (self).default_val() == old(self).default_val(),
            final (self).spec_get(index as int) == value,
            forall|j: int| j != index ==> final (self).spec_get(j) == old(self).spec_get(j),
            Self::sets_to(*old(self), *final (self), index, value),
    {
        if index >= self.offset && index - self.offset < self.data.len() {
            self.data[index - self.offset] = value;
            self.shrink(index);
        } else {
            self.grow_and_set(index, value);
        }
    }
}

/// An empty store, as `Default`: the same as `RangeVec::new()`.
impl<T: Copy + PartialEq + Default> Default for RangeVec<T> {
    fn default() -> (r: Self)
        ensures
            r.wf(),
            call_ensures(T::default, (), r.default_val()),
            forall|i: int| r.spec_get(i) == r.default_val(),
            r.spec_range() is None,
    {
        Self::new()
    }
}

/// Square-bracket read access: `v[i]` is the value at index `i`, the default
/// value whenever `i` lies outside the covering range.
impl<T: Copy + PartialEq + Default> core::ops::Index<usize> for RangeVec<T> {
    type Output = T;

    fn index(&self, index: usize) -> (r: &T)
        ensures
            *r == self.spec_get(index as int),
    {
        self.get(index)
    }
}

impl<T: Copy + PartialEq + Default> vstd::std_specs::core::IndexSpecImpl<usize> for RangeVec<T> {
    open spec fn index_req(&self, index: &usize) -> bool {
        true
    }
}

} // verus!
