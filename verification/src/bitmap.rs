//! A filtered view on a collection: a boolean visibility mask over an
//! existing, unmodified collection, narrowed by predicates and iterated
//! without copying or reordering the backing storage.

use vstd::prelude::*;

verus! {

/// The number of `true` entries of a mask.
pub open spec fn count_true(m: Seq<bool>) -> nat
    decreases m.len(),
{
    if m.len() == 0 {
        0
    } else {
        (if m[0] {
            1nat
        } else {
            0nat
        }) + count_true(m.drop_first())
    }
}

/// The elements of `es` visible under mask `m`, from position `k` on, in
/// index order. The walk ends as soon as either the elements or the mask run
/// out, so a mask shorter than the collection truncates iteration.
pub open spec fn visible_from<T>(es: Seq<T>, m: Seq<bool>, k: int) -> Seq<T>
    decreases es.len() + m.len() - k,
{
    if k < es.len() && k < m.len() {
        if m[k] {
            seq![es[k]] + visible_from(es, m, k + 1)
        } else {
            visible_from(es, m, k + 1)
        }
    } else {
        Seq::<T>::empty()
    }
}

/// A collection whose elements can be read, one owned copy at a time, at any
/// position. The filtered view reads its wrapped collection through this trait.
pub trait Indexed {
    /// The element handed out at each position.
    type Item;

    /// The collection's own validity condition.
    spec fn inv(&self) -> bool;

    /// The elements, in position order.
    spec fn elems(&self) -> Seq<Self::Item>;

    /// The number of elements.
    fn length(&self) -> (n: usize)
        requires
            self.inv(),
        ensures
            n == self.elems().len(),
    ;

    /// An owned copy of the element at position `i`.
    fn get(&self, i: usize) -> (x: Self::Item)
        requires
            self.inv(),
            i < self.elems().len(),
        ensures
            x == self.elems()[i as int],
    ;
}

impl<T: Copy> Indexed for Vec<T> {
    type Item = T;

    open spec fn inv(&self) -> bool {
        true
    }

    open spec fn elems(&self) -> Seq<T> {
        self@
    }

    fn length(&self) -> (n: usize) {
        self.len()
    }

    fn get(&self, i: usize) -> (x: T) {
        self[i]
    }
}

/// The error reported where an operation is a deliberate capability gap of
/// the design rather than a recoverable runtime failure.
#[derive(Debug, PartialEq, Eq)]
pub struct Unsupported;

/// A collection wrapper that can hide individual elements from iteration: a
/// non-owning reference to a wrapped collection, a boolean visibility mask,
/// and a maintained count of the visible entries.
#[derive(Debug)]
pub struct FilteredCollection<'a, C: Indexed> {
    /// The wrapped collection.
    wrapped: &'a C,
    /// The per-index visibility mask.
    bitmap: Vec<bool>,
    /// The number of `true` entries of the mask.
    valid_items: usize,
}

/// An iterator over the visible elements of a `FilteredCollection`: the
/// wrapped collection's elements and the mask walked in lock-step.
#[derive(Debug)]
pub struct FilteredCollectionIterator<'a, C: Indexed> {
    /// The wrapped collection.
    wrapped: &'a C,
    /// The visibility mask of the view that produced this iterator.
    bitmap: &'a Vec<bool>,
    /// The next position to look at.
    pos: usize,
}

impl<'a, C: Indexed> FilteredCollection<'a, C> {
    /// Well-formedness: the wrapped collection is valid and the cached count
    /// equals the number of `true` mask entries.
    pub closed spec fn wf(&self) -> bool {
        &&& self.wrapped.inv()
        &&& self.valid_items == count_true(self.bitmap@)
    }

    /// The visibility mask.
    pub closed spec fn mask(&self) -> Seq<bool> {
        self.bitmap@
    }

    /// The wrapped collection's elements.
    pub closed spec fn elems(&self) -> Seq<C::Item> {
        self.wrapped.elems()
    }

    /// The visible elements, in index order.
    pub open spec fn visible(&self) -> Seq<C::Item> {
        visible_from(self.elems(), self.mask(), 0)
    }

    /// Wrap `wrapped` with a fresh mask of `len` entries, all visible. The
    /// view is faithful only while `len` matches the wrapped collection's
    /// length and the wrapped collection stays unchanged; a mismatch yields
    /// truncated, not corrupted, iteration.
    pub fn new(wrapped: &'a C, len: usize) -> (r: Self)
        requires
            wrapped.inv(),
        ensures
            r.wf(),
            r.elems() == wrapped.elems(),
            r.mask() == Seq::new(len as nat, |i: int| true),
            count_true(r.mask()) == len,
    {
        let bitmap: Vec<bool> = vec![true; len];
        proof {
            assert(bitmap@ =~= Seq::new(len as nat, |i: int| true));
            lemma_count_true_all(bitmap@);
        }
        Self { wrapped, bitmap, valid_items: len }
    }

    /// The number of visible elements: the maintained count, independent of
    /// the wrapped collection's true size.
    pub fn len(&self) -> (n: usize)
        requires
            self.wf(),
        ensures
            n == count_true(self.mask()),
    {
        self.valid_items
    }

    /// Whether the view has any visible element.
    pub fn is_empty(&self) -> (r: bool)
        requires
            self.wf(),
        ensures
            r == (count_true(self.mask()) == 0),
    {
        self.valid_items == 0
    }

    /// Walk the mask and the wrapped collection in lock-step; for each entry
    /// still visible, let `f` decide whether it stays visible. Already-hidden
    /// entries are skipped without consulting `f`, so filtering only ever
    /// narrows the visible set, and entries past the wrapped collection's end
    /// are left untouched.
    pub fn retain<F: Fn(&C::Item) -> bool>(&mut self, f: F)
        requires
            old(self).wf(),
            forall|i: int|
                0 <= i < old(self).mask().len() && i < old(self).elems().len() && old(self).mask()[i]
                    ==> call_requires(f, (&old(self).elems()[i],)),
        ensures
            final(self).wf(),
            final(self).elems() == old(self).elems(),
            final(self).mask().len() == old(self).mask().len(),
            forall|i: int|
                0 <= i < old(self).mask().len() && final(self).mask()[i] ==> old(self).mask()[i],
            forall|i: int|
                old(self).elems().len() <= i < old(self).mask().len() ==> final(self).mask()[i]
                    == old(self).mask()[i],
            forall|i: int|
                0 <= i < old(self).mask().len() && i < old(self).elems().len() && old(self).mask()[i]
                    ==> call_ensures(f, (&old(self).elems()[i],), final(self).mask()[i]),
    {
        let mask_len = self.bitmap.len();
        let elems_len = self.wrapped.length();
        let n = if mask_len < elems_len {
            mask_len
        } else {
            elems_len
        };
        let mut i: usize = 0;
        while i < n
            invariant
                i <= n,
                n <= self.bitmap@.len(),
                n <= self.elems().len(),
                n == if old(self).mask().len() < old(self).elems().len() {
                    old(self).mask().len()
                } else {
                    old(self).elems().len()
                },
                self.wrapped == old(self).wrapped,
                self.wrapped.inv(),
                self.bitmap@.len() == old(self).bitmap@.len(),
                self.valid_items == count_true(self.bitmap@),
                forall|j: int| i <= j < self.bitmap@.len() ==> self.bitmap@[j] == old(self).mask()[j],
                forall|j: int| 0 <= j < i && self.bitmap@[j] ==> old(self).mask()[j],
                forall|j: int|
                    0 <= j < i && old(self).mask()[j] ==> call_ensures(
                        f,
                        (&old(self).elems()[j],),
                        self.bitmap@[j],
                    ),
                forall|j: int|
                    i <= j < n && old(self).mask()[j] ==> call_requires(
                        f,
                        (&old(self).elems()[j],),
                    ),
            decreases n - i,
        {
            if self.bitmap[i] {
                let x = self.wrapped.get(i);
                let keep = f(&x);
                if !keep {
                    proof {
                        lemma_count_true_update_false(self.bitmap@, i as int);
                    }
                    self.bitmap[i] = false;
                    self.valid_items = self.valid_items - 1;
                }
            }
            i = i + 1;
        }
    }

    /// An iterator over the visible elements of this view.
    pub fn iter(&'a self) -> (it: FilteredCollectionIterator<'a, C>)
        requires
            self.wf(),
        ensures
            it.inv(),
            it.remaining() == self.visible(),
    {
        FilteredCollectionIterator { wrapped: self.wrapped, bitmap: &self.bitmap, pos: 0 }
    }

    /// Masked mutable iteration is a deliberate capability gap of this
    /// design: the call reports the gap instead of producing an iterator.
    pub fn iter_mut(&mut self) -> (r: Result<(), Unsupported>)
        ensures
            *final(self) == *old(self),
            r == Result::<(), Unsupported>::Err(Unsupported),
    {
        Err(Unsupported)
    }
}

impl<'a, C: Indexed> FilteredCollectionIterator<'a, C> {
    /// Validity: the wrapped collection is valid.
    pub closed spec fn inv(&self) -> bool {
        self.wrapped.inv()
    }

    /// The visible elements not yet produced, in index order.
    pub closed spec fn remaining(&self) -> Seq<C::Item> {
        visible_from(self.wrapped.elems(), self.bitmap@, self.pos as int)
    }

    /// Advance past hidden entries to the next visible element and yield an
    /// owned copy of it, or signal the end once the elements or the mask run
    /// out. Once exhausted, every later call also signals the end.
    pub fn next(&mut self) -> (r: Option<C::Item>)
        requires
            old(self).inv(),
        ensures
            final(self).inv(),
            old(self).remaining().len() > 0 ==> {
                &&& r == Some(old(self).remaining()[0])
                &&& final(self).remaining() == old(self).remaining().drop_first()
            },
            old(self).remaining().len() == 0 ==> {
                &&& r is None
                &&& final(self).remaining() == old(self).remaining()
            },
    {
        let elems_len = self.wrapped.length();
        let mask_len = self.bitmap.len();
        while self.pos < elems_len && self.pos < mask_len
            invariant
                self.wrapped == old(self).wrapped,
                self.bitmap == old(self).bitmap,
                elems_len == self.wrapped.elems().len(),
                mask_len == self.bitmap@.len(),
                self.wrapped.inv(),
                self.remaining() == old(self).remaining(),
            decreases elems_len + mask_len - self.pos,
        {
            if self.bitmap[self.pos] {
                let x = self.wrapped.get(self.pos);
                proof {
                    assert(old(self).remaining()[0] == x);
                    assert(old(self).remaining().drop_first() =~= visible_from(
                        self.wrapped.elems(),
                        self.bitmap@,
                        self.pos as int + 1,
                    ));
                }
                self.pos = self.pos + 1;
                return Some(x);
            }
            self.pos = self.pos + 1;
        }
        None
    }
}

/// The mask left by one `retain` pass with predicate `p`: an entry stays
/// visible exactly where it was visible and, within the wrapped collection's
/// range, `p` accepts its element; entries past that range are left as found.
pub open spec fn mask_after_retain<T>(m: Seq<bool>, es: Seq<T>, p: spec_fn(T) -> bool) -> Seq<
    bool,
> {
    Seq::new(m.len(), |i: int| m[i] && (i < es.len() ==> p(es[i])))
}

/// A `retain` outcome is exactly `mask_after_retain`: the clauses of
/// `retain`'s contract, with a predicate that answers `p` of its argument on
/// every call, pin the new mask down pointwise.
pub proof fn lemma_retain_exact<T>(
    m0: Seq<bool>,
    m1: Seq<bool>,
    es: Seq<T>,
    p: spec_fn(T) -> bool,
)
    requires
        m1.len() == m0.len(),
        forall|i: int| 0 <= i < m0.len() && m1[i] ==> m0[i],
        forall|i: int| es.len() <= i < m0.len() ==> m1[i] == m0[i],
        forall|i: int| 0 <= i < m0.len() && i < es.len() && m0[i] ==> m1[i] == p(es[i]),
    ensures
        m1 == mask_after_retain(m0, es, p),
{
    assert(m1 =~= mask_after_retain(m0, es, p));
}

/// Filter-monotonicity law: two `retain` passes narrow the visible set to
/// exactly the entries that were visible before and whose elements both
/// predicates accept — the cumulative intersection, never more.
pub proof fn lemma_retain_monotonic<T>(
    m: Seq<bool>,
    es: Seq<T>,
    p1: spec_fn(T) -> bool,
    p2: spec_fn(T) -> bool,
)
    ensures
        forall|i: int|
            0 <= i < m.len() && i < es.len() ==> mask_after_retain(
                mask_after_retain(m, es, p1),
                es,
                p2,
            )[i] == (m[i] && p1(es[i]) && p2(es[i])),
        forall|i: int|
            0 <= i < m.len() && mask_after_retain(mask_after_retain(m, es, p1), es, p2)[i]
                ==> m[i],
{
}

/// Filter-count law: where the mask is no longer than the wrapped collection,
/// the visible sequence holds exactly as many elements as the mask has `true`
/// entries — the count that `len` reports.
pub proof fn lemma_visible_count<T>(es: Seq<T>, m: Seq<bool>)
    requires
        m.len() <= es.len(),
    ensures
        visible_from(es, m, 0).len() == count_true(m),
{
    lemma_visible_count_from(es, m, 0);
    assert(m.skip(0) =~= m);
}

/// Re-iteration law: two iterators obtained from the same unmodified filtered
/// collection produce the same sequence of elements.
pub proof fn lemma_reiteration<'a, C: Indexed>(
    fc: &FilteredCollection<'a, C>,
    it1: &FilteredCollectionIterator<'a, C>,
    it2: &FilteredCollectionIterator<'a, C>,
)
    requires
        it1.remaining() == fc.visible(),
        it2.remaining() == fc.visible(),
    ensures
        it1.remaining() == it2.remaining(),
{
}

/// From position `k` on, the visible elements are counted by the `true`
/// entries of the rest of the mask.
proof fn lemma_visible_count_from<T>(es: Seq<T>, m: Seq<bool>, k: int)
    requires
        m.len() <= es.len(),
        0 <= k <= m.len(),
    ensures
        visible_from(es, m, k).len() == count_true(m.skip(k)),
    decreases m.len() - k,
{
    if k < m.len() {
        lemma_visible_count_from(es, m, k + 1);
        assert(m.skip(k).drop_first() =~= m.skip(k + 1));
        assert(m.skip(k)[0] == m[k]);
    } else {
        assert(m.skip(k) =~= Seq::<bool>::empty());
    }
}

/// A mask of `true` entries alone has as many `true` entries as it is long.
proof fn lemma_count_true_all(m: Seq<bool>)
    requires
        forall|i: int| 0 <= i < m.len() ==> m[i],
    ensures
        count_true(m) == m.len(),
    decreases m.len(),
{
    if m.len() > 0 {
        lemma_count_true_all(m.drop_first());
    }
}

/// Hiding one visible entry lowers the `true` count by exactly one.
proof fn lemma_count_true_update_false(m: Seq<bool>, i: int)
    requires
        0 <= i < m.len(),
        m[i],
    ensures
        count_true(m.update(i, false)) + 1 == count_true(m),
    decreases m.len(),
{
    if i == 0 {
        assert(m.update(0, false).drop_first() =~= m.drop_first());
    } else {
        assert(m.update(i, false).drop_first() =~= m.drop_first().update(i - 1, false));
        lemma_count_true_update_false(m.drop_first(), i - 1);
    }
}

} // verus!
