//! A columnar representation for tuples: the pair instance, storing a
//! sequence of two-component tuples as one growable column per component.

use vstd::prelude::*;
use crate::Column;

verus! {

/// A placeholder struct wrapping a type `T` that stands for a tuple shape:
/// either a tuple of plain components, or the tuple of their columns.
#[derive(Debug)]
pub struct Col<T> {
    /// The wrapped data.
    t: T,
}

impl<A, B> View for Col<(Vec<A>, Vec<B>)> {
    type V = Seq<(A, B)>;

    /// The columns abstract to the row-major sequence of the stored tuples.
    closed spec fn view(&self) -> Seq<(A, B)> {
        Seq::new(self.t.0@.len(), |i: int| (self.t.0@[i], self.t.1@[i]))
    }
}

impl<A, B> Col<(Vec<A>, Vec<B>)> {
    /// Well-formedness: both component columns have the same length.
    pub closed spec fn wf(&self) -> bool {
        self.t.0@.len() == self.t.1@.len()
    }

    /// The common column length.
    pub fn len(&self) -> (n: usize)
        ensures
            n == self@.len(),
    {
        self.t.0.len()
    }

    /// Whether the columns hold no tuples.
    pub fn is_empty(&self) -> (r: bool)
        ensures
            r == (self@.len() == 0),
    {
        self.t.0.is_empty()
    }
}

impl<A: Copy, B: Copy> Col<(Vec<A>, Vec<B>)> {
    /// Append every tuple of `elements`, each component to its column,
    /// preserving input order.
    pub fn extend(&mut self, elements: Vec<(A, B)>)
        requires
            old(self).wf(),
        ensures
            final(self).wf(),
            final(self)@ == old(self)@ + elements@,
    {
        let n = elements.len();
        let mut i: usize = 0;
        while i < n
            invariant
                i <= n,
                n == elements@.len(),
                self.wf(),
                self@ == old(self)@ + elements@.take(i as int),
            decreases n - i,
        {
            let ghost prev = *self;
            let e = elements[i];
            self.t.0.push(e.0);
            self.t.1.push(e.1);
            proof {
                assert(self@ =~= prev@.push(e));
                assert(elements@.take(i + 1) =~= elements@.take(i as int).push(e));
                assert(self@ =~= old(self)@ + elements@.take(i + 1));
            }
            i = i + 1;
        }
        proof {
            assert(elements@.take(n as int) =~= elements@);
        }
    }

    /// A synchronized iterator over the stored tuples, starting at the first.
    pub fn iter<'a>(&'a self) -> (it: ColIterator<'a, A, B>)
        requires
            self.wf(),
        ensures
            it.inv(),
            it.remaining() == self@,
    {
        let it = ColIterator { col: self, pos: 0 };
        proof {
            assert(it.remaining() =~= self@);
        }
        it
    }

    /// A synchronized mutable iterator, its cursor at the first tuple. Each
    /// call of `next` hands it the columns; it is single-pass, and a fresh
    /// iterator is required for a second mutable traversal.
    pub fn iter_mut(&mut self) -> (it: ColIteratorMut)
        ensures
            *final(self) == *old(self),
            it.cursor() == 0,
    {
        ColIteratorMut { pos: 0 }
    }
}

/// A synchronized iterator over a pair column: one cursor per component
/// column, advanced together, yielding one borrow per component each step.
#[derive(Debug)]
pub struct ColIterator<'a, A, B> {
    col: &'a Col<(Vec<A>, Vec<B>)>,
    pos: usize,
}

impl<'a, A, B> ColIterator<'a, A, B> {
    /// Validity: the columns are well formed and the cursor has not run past them.
    pub closed spec fn inv(&self) -> bool {
        self.col.wf() && self.pos <= self.col@.len()
    }

    /// The tuples not yet produced, in order.
    pub closed spec fn remaining(&self) -> Seq<(A, B)> {
        self.col@.skip(self.pos as int)
    }

    /// Advance both component cursors one step; yield one borrow per
    /// component, or signal the end once any cursor is exhausted. Once
    /// exhausted, every later call also signals the end.
    pub fn next(&mut self) -> (r: Option<(&'a A, &'a B)>)
        requires
            old(self).inv(),
        ensures
            final(self).inv(),
            old(self).remaining().len() > 0 ==> {
                &&& r matches Some(p)
                &&& *p.0 == old(self).remaining()[0].0
                &&& *p.1 == old(self).remaining()[0].1
                &&& final(self).remaining() == old(self).remaining().drop_first()
            },
            old(self).remaining().len() == 0 ==> {
                &&& r is None
                &&& final(self).remaining() == old(self).remaining()
            },
    {
        if self.pos < self.col.t.0.len() && self.pos < self.col.t.1.len() {
            let p = (&self.col.t.0[self.pos], &self.col.t.1[self.pos]);
            proof {
                assert(self.col@.skip(self.pos as int).drop_first() =~= self.col@.skip(
                    self.pos as int + 1,
                ));
            }
            self.pos = self.pos + 1;
            Some(p)
        } else {
            None
        }
    }
}

/// A synchronized mutable iterator over a pair column: a cursor advanced one
/// tuple per step over the columns handed to each call of `next`.
#[derive(Debug)]
pub struct ColIteratorMut {
    pos: usize,
}

impl ColIteratorMut {
    /// The position of the cursor: how many tuples have been produced.
    pub closed spec fn cursor(&self) -> int {
        self.pos as int
    }

    /// Advance the cursor one step; yield one mutable borrow per component of
    /// the next tuple of `col`, or signal the end once the cursor is
    /// exhausted. Once exhausted, every later call also signals the end.
    pub fn next<'a, A, B>(&mut self, col: &'a mut Col<(Vec<A>, Vec<B>)>) -> (r: Option<
        (&'a mut A, &'a mut B),
    >)
        requires
            old(col).wf(),
        ensures
            final(col).wf(),
            old(self).cursor() < old(col)@.len() ==> {
                &&& r matches Some(p)
                &&& *p.0 == old(col)@[old(self).cursor()].0
                &&& *p.1 == old(col)@[old(self).cursor()].1
                &&& final(col)@ == old(col)@.update(
                    old(self).cursor(),
                    (*final(p.0), *final(p.1)),
                )
                &&& final(self).cursor() == old(self).cursor() + 1
            },
            old(self).cursor() >= old(col)@.len() ==> {
                &&& r is None
                &&& *final(col) == *old(col)
                &&& final(self).cursor() == old(self).cursor()
            },
    {
        if self.pos < col.t.0.len() && self.pos < col.t.1.len() {
            let p = (&mut col.t.0[self.pos], &mut col.t.1[self.pos]);
            self.pos = self.pos + 1;
            Some(p)
        } else {
            None
        }
    }
}

impl<A: Copy, B: Copy> Column for Col<(A, B)> {
    type Output = Col<(Vec<A>, Vec<B>)>;

    open spec fn output_is_empty(out: &Col<(Vec<A>, Vec<B>)>) -> bool {
        out.wf() && out@ == Seq::<(A, B)>::empty()
    }

    fn new() -> (r: Col<(Vec<A>, Vec<B>)>) {
        let r = Col { t: (Vec::new(), Vec::new()) };
        proof {
            assert(r@ =~= Seq::<(A, B)>::empty());
        }
        r
    }

    fn with_capacity(capacity: usize) -> (r: Col<(Vec<A>, Vec<B>)>) {
        let r = Col { t: (Vec::with_capacity(capacity), Vec::with_capacity(capacity)) };
        proof {
            assert(r@ =~= Seq::<(A, B)>::empty());
        }
        r
    }
}

} // verus!
