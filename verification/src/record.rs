//! The columnar container for two-field records: one growable column per
//! field, kept in lock-step, with per-index access and synchronized iteration.

use vstd::prelude::*;
use crate::Column;
use crate::bitmap::Indexed;

verus! {

/// One logical row: a record with two schema fields, `a` and `b`.
#[derive(Clone, Copy, PartialEq, Eq, Debug)]
pub struct Record<A, B> {
    pub a: A,
    pub b: B,
}

/// Struct-of-arrays storage for a sequence of `Record<A, B>` values:
/// one growable column per field, always of equal length.
#[derive(Debug)]
pub struct RecordColumn<A, B> {
    a: Vec<A>,
    b: Vec<B>,
}

impl<A, B> View for RecordColumn<A, B> {
    type V = Seq<Record<A, B>>;

    /// The container abstracts to the row-major sequence of its records.
    closed spec fn view(&self) -> Seq<Record<A, B>> {
        Seq::new(self.a@.len(), |i: int| Record { a: self.a@[i], b: self.b@[i] })
    }
}

impl<A, B> RecordColumn<A, B> {
    /// Well-formedness: every field column has the same length.
    pub closed spec fn wf(&self) -> bool {
        self.a@.len() == self.b@.len()
    }

    /// The column holding field `a` of every record.
    pub closed spec fn col_a(&self) -> Seq<A> {
        self.a@
    }

    /// The column holding field `b` of every record.
    pub closed spec fn col_b(&self) -> Seq<B> {
        self.b@
    }

    /// The common column length.
    pub fn len(&self) -> (n: usize)
        ensures
            n == self@.len(),
    {
        self.a.len()
    }

    /// Whether the container holds no records.
    pub fn is_empty(&self) -> (r: bool)
        ensures
            r == (self@.len() == 0),
    {
        self.a.is_empty()
    }

    /// Truncate every column to length zero; capacity may be retained.
    pub fn clear(&mut self)
        ensures
            final(self).wf(),
            final(self)@ == Seq::<Record<A, B>>::empty(),
    {
        self.a.clear();
        self.b.clear();
        proof {
            assert(self@ =~= Seq::<Record<A, B>>::empty());
        }
    }

    /// Reserve storage for `additional` more records in every column.
    pub fn reserve(&mut self, additional: usize)
        ensures
            final(self)@ == old(self)@,
            final(self).col_a() == old(self).col_a(),
            final(self).col_b() == old(self).col_b(),
            final(self).wf() == old(self).wf(),
    {
        self.a.reserve(additional);
        self.b.reserve(additional);
    }

    /// The capacity of the representative first column; the columns grow
    /// together, so it speaks for all of them.
    pub fn capacity(&self) -> (n: usize)
        ensures
            n >= self@.len(),
    {
        vec_capacity(&self.a)
    }
}

/// A transient view of one record: one shared borrow per field, all at one
/// fixed logical index of the container that produced it.
#[derive(Debug)]
pub struct RecordRef<'a, A, B> {
    pub a: &'a A,
    pub b: &'a B,
}

impl<'a, A: Copy, B: Copy> RecordRef<'a, A, B> {
    /// Copy every referenced field value back into a standalone record.
    pub fn to_owned(&self) -> (r: Record<A, B>)
        ensures
            r == (Record { a: *self.a, b: *self.b }),
    {
        Record { a: *self.a, b: *self.b }
    }
}

/// A transient view of one record: one mutable borrow per field, all at one
/// fixed logical index of the container that produced it.
#[derive(Debug)]
pub struct RecordRefMut<'a, A, B> {
    pub a: &'a mut A,
    pub b: &'a mut B,
}

/// Relies on `Vec::capacity`: the vector can hold at least its current
/// elements without reallocating, so the capacity is at least the length.
#[verifier::external_body]
fn vec_capacity<T>(v: &Vec<T>) -> (n: usize)
    ensures
        n >= v@.len(),
{
    v.capacity()
}

impl<A: Copy, B: Copy> RecordColumn<A, B> {
    /// Append every record of `records` to the container, each field to its
    /// column, preserving input order.
    pub fn extend(&mut self, records: Vec<Record<A, B>>)
        requires
            old(self).wf(),
        ensures
            final(self).wf(),
            final(self)@ == old(self)@ + records@,
    {
        let n = records.len();
        let mut i: usize = 0;
        while i < n
            invariant
                i <= n,
                n == records@.len(),
                self.wf(),
                self@ == old(self)@ + records@.take(i as int),
            decreases n - i,
        {
            let ghost prev = *self;
            let r = records[i];
            self.a.push(r.a);
            self.b.push(r.b);
            proof {
                assert(self.a@ == prev.a@.push(r.a));
                assert(self.b@ == prev.b@.push(r.b));
                assert(prev@ == old(self)@ + records@.take(i as int));
                assert(r == records@[i as int]);
                assert(self@ =~= prev@.push(r));
                assert(records@.take(i + 1) =~= records@.take(i as int).push(r));
                assert(self@ =~= old(self)@ + records@.take(i + 1));
            }
            i = i + 1;
        }
        proof {
            assert(records@.take(n as int) =~= records@);
        }
    }

    /// A mutable per-field view of the record at position `index`. Positions
    /// at or past `len` are bounds violations and are excluded up front;
    /// the container never clamps or wraps an index.
    pub fn index_mut<'a>(&'a mut self, index: usize) -> (r: RecordRefMut<'a, A, B>)
        requires
            old(self).wf(),
            index < old(self)@.len(),
        ensures
            *r.a == old(self)@[index as int].a,
            *r.b == old(self)@[index as int].b,
            final(self)@ == old(self)@.update(
                index as int,
                Record { a: *final(r.a), b: *final(r.b) },
            ),
            final(self).wf(),
    {
        let ra = &mut self.a[index];
        let rb = &mut self.b[index];
        RecordRefMut { a: ra, b: rb }
    }

    /// An owned copy of the record at position `index`. Positions at or past
    /// `len` are bounds violations and are excluded up front; the container
    /// never clamps or wraps an index.
    pub fn index(&self, index: usize) -> (r: Record<A, B>)
        requires
            self.wf(),
            index < self@.len(),
        ensures
            r == self@[index as int],
    {
        Record { a: self.a[index], b: self.b[index] }
    }
}

impl<A: Copy, B: Copy> Column for Record<A, B> {
    type Output = RecordColumn<A, B>;

    open spec fn output_is_empty(out: &RecordColumn<A, B>) -> bool {
        out.wf() && out@ == Seq::<Record<A, B>>::empty()
    }

    fn new() -> (r: RecordColumn<A, B>) {
        let r = RecordColumn { a: Vec::new(), b: Vec::new() };
        proof {
            assert(r@ =~= Seq::<Record<A, B>>::empty());
        }
        r
    }

    fn with_capacity(capacity: usize) -> (r: RecordColumn<A, B>) {
        let r = RecordColumn { a: Vec::with_capacity(capacity), b: Vec::with_capacity(capacity) };
        proof {
            assert(r@ =~= Seq::<Record<A, B>>::empty());
        }
        r
    }
}

/// A synchronized iterator over a container: one cursor per field column,
/// all cursors advanced together, one step per produced `RecordRef`.
#[derive(Debug)]
pub struct RecordColumnIterator<'a, A, B> {
    col: &'a RecordColumn<A, B>,
    pos: usize,
}

impl<'a, A, B> RecordColumnIterator<'a, A, B> {
    /// Validity: the container is well formed and the cursor has not run past it.
    pub closed spec fn inv(&self) -> bool {
        self.col.wf() && self.pos <= self.col@.len()
    }

    /// The records not yet produced, in order.
    pub closed spec fn remaining(&self) -> Seq<Record<A, B>> {
        self.col@.skip(self.pos as int)
    }

    /// Advance every per-field cursor one step; yield a `RecordRef` holding the
    /// captured per-field borrows, or signal the end once any cursor is
    /// exhausted. Once exhausted, every later call also signals the end.
    pub fn next(&mut self) -> (r: Option<RecordRef<'a, A, B>>)
        requires
            old(self).inv(),
        ensures
            final(self).inv(),
            old(self).remaining().len() > 0 ==> {
                &&& r matches Some(rr)
                &&& *rr.a == old(self).remaining()[0].a
                &&& *rr.b == old(self).remaining()[0].b
                &&& final(self).remaining() == old(self).remaining().drop_first()
            },
            old(self).remaining().len() == 0 ==> {
                &&& r is None
                &&& final(self).remaining() == old(self).remaining()
            },
    {
        if self.pos < self.col.a.len() && self.pos < self.col.b.len() {
            let rr = RecordRef { a: &self.col.a[self.pos], b: &self.col.b[self.pos] };
            proof {
                assert(self.col@.skip(self.pos as int).drop_first() =~= self.col@.skip(
                    self.pos as int + 1,
                ));
            }
            self.pos = self.pos + 1;
            Some(rr)
        } else {
            None
        }
    }
}

/// A synchronized mutable iterator: a cursor advanced one logical record per
/// step over the container handed to each call of `next`.
#[derive(Debug)]
pub struct RecordColumnIteratorMut {
    pos: usize,
}

impl RecordColumnIteratorMut {
    /// The position of the cursor: how many records have been produced.
    pub closed spec fn cursor(&self) -> int {
        self.pos as int
    }

    /// Advance the cursor one step; yield a `RecordRefMut` holding one mutable
    /// borrow per field of the next record of `col`, or signal the end once the
    /// cursor is exhausted. Once exhausted, every later call also signals the end.
    pub fn next<'a, A, B>(&mut self, col: &'a mut RecordColumn<A, B>) -> (r: Option<
        RecordRefMut<'a, A, B>,
    >)
        requires
            old(col).wf(),
        ensures
            final(col).wf(),
            old(self).cursor() < old(col)@.len() ==> {
                &&& r matches Some(rr)
                &&& *rr.a == old(col)@[old(self).cursor()].a
                &&& *rr.b == old(col)@[old(self).cursor()].b
                &&& final(col)@ == old(col)@.update(
                    old(self).cursor(),
                    Record { a: *final(rr.a), b: *final(rr.b) },
                )
                &&& final(self).cursor() == old(self).cursor() + 1
            },
            old(self).cursor() >= old(col)@.len() ==> {
                &&& r is None
                &&& *final(col) == *old(col)
                &&& final(self).cursor() == old(self).cursor()
            },
    {
        if self.pos < col.a.len() && self.pos < col.b.len() {
            let rr = RecordRefMut { a: &mut col.a[self.pos], b: &mut col.b[self.pos] };
            self.pos = self.pos + 1;
            Some(rr)
        } else {
            None
        }
    }
}

impl<A, B> RecordColumn<A, B> {
    /// A synchronized iterator over the container's records, starting at the
    /// first one. A fresh iterator is required for every traversal.
    pub fn iter<'a>(&'a self) -> (it: RecordColumnIterator<'a, A, B>)
        requires
            self.wf(),
        ensures
            it.inv(),
            it.remaining() == self@,
    {
        let it = RecordColumnIterator { col: self, pos: 0 };
        proof {
            assert(it.remaining() =~= self@);
        }
        it
    }

    /// A synchronized mutable iterator, its cursor at the first record. Each
    /// call of `next` hands it the container; it is single-pass, and a fresh
    /// iterator is required for a second mutable traversal.
    pub fn iter_mut(&mut self) -> (it: RecordColumnIteratorMut)
        ensures
            *final(self) == *old(self),
            it.cursor() == 0,
    {
        RecordColumnIteratorMut { pos: 0 }
    }
}

impl<A: Copy, B: Copy> Indexed for RecordColumn<A, B> {
    type Item = Record<A, B>;

    open spec fn inv(&self) -> bool {
        self.wf()
    }

    open spec fn elems(&self) -> Seq<Record<A, B>> {
        self@
    }

    fn length(&self) -> (n: usize) {
        self.len()
    }

    fn get(&self, i: usize) -> (x: Record<A, B>) {
        self.index(i)
    }
}

/// Re-iteration law: two iterators obtained from the same unmodified
/// container produce the same sequence of records.
pub proof fn lemma_container_reiteration<'a, A, B>(
    c: &RecordColumn<A, B>,
    it1: &RecordColumnIterator<'a, A, B>,
    it2: &RecordColumnIterator<'a, A, B>,
)
    requires
        it1.remaining() == c@,
        it2.remaining() == c@,
    ensures
        it1.remaining() == it2.remaining(),
{
}

/// The row-major record list assembled from two field columns in lock-step;
/// positions past the end of a column take an unconstrained value.
pub open spec fn rows<A, B>(sa: Seq<A>, sb: Seq<B>) -> Seq<Record<A, B>> {
    Seq::new(sa.len(), |i: int| Record { a: sa[i], b: sb[i] })
}

/// The layout correspondence: a well-formed container's row-major view is the
/// lock-step zip of its field columns.
pub proof fn lemma_rows_of_columns<A, B>(c: &RecordColumn<A, B>)
    requires
        c.wf(),
    ensures
        c@ == rows(c.col_a(), c.col_b()),
{
    assert(c@ =~= rows(c.col_a(), c.col_b()));
}

/// Round-trip law: a container built from a record list by `extend` holds
/// exactly that list, so reading every position back with `index` reproduces
/// the list, in order.
pub proof fn lemma_round_trip<A, B>(c: &RecordColumn<A, B>, rs: Seq<Record<A, B>>)
    requires
        c@ == Seq::<Record<A, B>>::empty() + rs,
    ensures
        c@.len() == rs.len(),
        forall|i: int| 0 <= i < rs.len() ==> c@[i] == rs[i],
{
    assert(c@ =~= rs);
}

/// Mutation-consistency law: applying `f` to field `a` of every record as one
/// bulk pass over the `a` column alone, leaving the `b` column untouched,
/// yields the same row-major record list as updating each record of the
/// container's view element-wise.
pub proof fn lemma_mutation_consistency<A, B>(c: &RecordColumn<A, B>, f: spec_fn(A) -> A)
    requires
        c.wf(),
    ensures
        rows(c.col_a().map_values(f), c.col_b()) == c@.map_values(
            |r: Record<A, B>| Record { a: f(r.a), b: r.b },
        ),
{
    assert(rows(c.col_a().map_values(f), c.col_b()) =~= c@.map_values(
        |r: Record<A, B>| Record { a: f(r.a), b: r.b },
    ));
}

/// Length-invariant law: every field column of a well-formed container has the
/// common length that `len` reports. `extend`, `clear` and `reserve` each
/// ensure well-formedness, so the law holds after any sequence of them.
pub proof fn lemma_length_invariant<A, B>(c: &RecordColumn<A, B>)
    requires
        c.wf(),
    ensures
        c.col_a().len() == c@.len(),
        c.col_b().len() == c@.len(),
{
}

} // verus!
