//! A growable vector that manages its capacity explicitly: storage is
//! claimed on the first push and doubled whenever the length reaches the
//! capacity.

use vstd::prelude::*;
use vstd::slice::slice_index_get;
use vstd::std_specs::vec::vec_index_mut;

verus! {

pub const DEFAULT_CAPACITY: usize = 4;

/// A growable vector; the view lists its elements in order.
pub struct Vector<T> {
    buf: Vec<T>,
    cap: usize,
    allocated: bool,
}

/// A borrowing cursor over a vector, front to back.
pub struct Iter<'a, T> {
    elems: &'a [T],
}

/// A mutating cursor over a vector, front to back. What is written through
/// the handed-out references becomes the final content of the slice it
/// walks.
pub struct IterMut<'a, T> {
    pub elems: &'a mut [T],
}

impl<T> View for Vector<T> {
    type V = Seq<T>;

    closed spec fn view(&self) -> Seq<T> {
        self.buf@
    }
}

impl<T> Vector<T> {
    /// The capacity the vector believes it has claimed.
    pub closed spec fn spec_capacity(self) -> int {
        self.cap as int
    }

    /// Well-formedness: the claimed capacity is never zero. Constructors
    /// establish it and every method keeps it.
    pub closed spec fn wf(self) -> bool {
        self.cap >= 1
    }

    /// Whether storage has been claimed yet; a fresh vector claims it on
    /// the first push.
    pub closed spec fn storage_claimed(self) -> bool {
        self.allocated
    }

    pub fn new() -> (r: Vector<T>)
        ensures
            r@ == Seq::<T>::empty(),
            r.spec_capacity() == DEFAULT_CAPACITY,
            !r.storage_claimed(),
            r.wf(),
    {
        Self::with_capacity(DEFAULT_CAPACITY)
    }

    pub fn with_capacity(capacity: usize) -> (r: Vector<T>)
        requires
            capacity >= 1,
        ensures
            r@ == Seq::<T>::empty(),
            r.spec_capacity() == capacity,
            !r.storage_claimed(),
            r.wf(),
    {
        Vector { buf: Vec::new(), cap: capacity, allocated: false }
    }

    /// Whether the next push must claim more storage first.
    pub fn need_to_grow(&self) -> (r: bool)
        ensures
            r == !(self@.len() < self.spec_capacity()),
    {
        !(self.buf.len() < self.cap)
    }

    /// Claims the initial storage.
    fn allocate(&mut self)
        ensures
            final(self)@ == old(self)@,
            final(self).spec_capacity() == old(self).spec_capacity(),
            final(self).storage_claimed(),
            final(self).wf() == old(self).wf(),
    {
        self.buf.reserve(self.cap);
        self.allocated = true;
    }

    /// Doubles the claimed storage; only a vector that has filled its
    /// current storage is reallocated.
    fn reallocate(&mut self)
        requires
            old(self).wf(),
            old(self)@.len() > 0,
            old(self).spec_capacity() * 2 <= usize::MAX,
        ensures
            final(self)@ == old(self)@,
            final(self).spec_capacity() == old(self).spec_capacity() * 2,
            final(self).storage_claimed() == old(self).storage_claimed(),
            final(self).wf(),
    {
        let new_capacity = self.cap * 2;
        if new_capacity > self.buf.len() {
            self.buf.reserve(new_capacity - self.buf.len());
        }
        self.cap = new_capacity;
    }

    /// Claims storage if none is held yet, and grows it if it is full.
    fn ensure_allocation(&mut self)
        requires
            old(self).wf(),
            old(self).storage_claimed() && old(self)@.len() >= old(self).spec_capacity() ==> old(
                self,
            ).spec_capacity() * 2 <= usize::MAX,
        ensures
            final(self)@ == old(self)@,
            final(self).spec_capacity() == if old(self).storage_claimed() && old(self)@.len()
                >= old(self).spec_capacity() {
                old(self).spec_capacity() * 2
            } else {
                old(self).spec_capacity()
            },
            final(self).storage_claimed(),
            final(self).wf(),
    {
        if !self.allocated {
            self.allocate();
        } else {
            if self.need_to_grow() {
                self.reallocate();
            }
        }
    }

    pub fn len(&self) -> (r: usize)
        ensures
            r == self@.len(),
    {
        self.buf.len()
    }

    pub fn capacity(&self) -> (r: usize)
        ensures
            r == self.spec_capacity(),
    {
        self.cap
    }

    pub fn is_empty(&self) -> (r: bool)
        ensures
            r == (self@.len() == 0),
    {
        self.buf.len() == 0
    }

    pub fn peek(&self) -> (r: Option<&T>)
        ensures
            self@.len() == 0 ==> r is None,
            self@.len() != 0 ==> r is Some && *r.unwrap() == self@.last(),
    {
        if self.buf.len() == 0 {
            None
        } else {
            Some(&self.buf[self.buf.len() - 1])
        }
    }

    /// The element at `index`, defined exactly for indices below the
    /// length.
    pub fn get(&self, index: usize) -> (r: Option<&T>)
        ensures
            index >= self@.len() ==> r is None,
            index < self@.len() ==> r is Some && *r.unwrap() == self@[index as int],
    {
        if index >= self.buf.len() {
            return None;
        }
        Some(&self.buf[index])
    }

    /// A mutable reference to the element at `index`, defined exactly for
    /// indices below the length.
    pub fn get_mut(&mut self, index: usize) -> (r: Option<&mut T>)
        ensures
            final(self).spec_capacity() == old(self).spec_capacity(),
            final(self).wf() == old(self).wf(),
            index >= old(self)@.len() ==> r is None && final(self)@ == old(self)@,
            index < old(self)@.len() ==> r is Some && *r.unwrap() == old(self)@[index as int]
                && final(self)@ == old(self)@.update(index as int, *final(r.unwrap())),
    {
        if index >= self.buf.len() {
            return None;
        }
        Some(vec_index_mut(&mut self.buf, index))
    }

    /// A borrowing front-to-back cursor over the elements.
    pub fn iter(&self) -> (r: Iter<'_, T>)
        ensures
            r.remaining() == self@,
    {
        Iter { elems: self.buf.as_slice() }
    }

    /// A mutating front-to-back cursor over the elements. What the caller
    /// writes through the cursor becomes the vector's new content.
    pub fn iter_mut(&mut self) -> (r: IterMut<'_, T>)
        ensures
            r.remaining() == old(self)@,
            final(self)@ == final(r.elems)@,
            final(self).spec_capacity() == old(self).spec_capacity(),
            final(self).wf() == old(self).wf(),
    {
        IterMut { elems: self.buf.as_mut_slice() }
    }

    /// Appends an element, claiming or doubling storage first when needed.
    pub fn push(&mut self, item: T)
        requires
            old(self).wf(),
            old(self).storage_claimed() && old(self)@.len() >= old(self).spec_capacity() ==> old(
                self,
            ).spec_capacity() * 2 <= usize::MAX,
        ensures
            final(self)@ == old(self)@.push(item),
            final(self).spec_capacity() == if old(self).storage_claimed() && old(self)@.len()
                >= old(self).spec_capacity() {
                old(self).spec_capacity() * 2
            } else {
                old(self).spec_capacity()
            },
            final(self).storage_claimed(),
            final(self).wf(),
    {
        self.ensure_allocation();
        self.buf.push(item);
    }

    /// Removes and returns the last element, keeping the capacity.
    pub fn pop(&mut self) -> (r: Option<T>)
        ensures
            final(self).spec_capacity() == old(self).spec_capacity(),
            final(self).wf() == old(self).wf(),
            old(self)@.len() == 0 ==> r is None && final(self)@ == old(self)@,
            old(self)@.len() != 0 ==> r == Some(old(self)@.last()) && final(self)@ == old(self)@.drop_last(),
    {
        if self.buf.len() == 0 {
            return None;
        }
        self.buf.pop()
    }
}

impl<'a, T> Iter<'a, T> {
    /// The elements not yet handed out, in order.
    pub closed spec fn remaining(&self) -> Seq<T> {
        self.elems@
    }

    /// A reference to the next element, or nothing when exhausted.
    pub fn next(&mut self) -> (r: Option<&'a T>)
        ensures
            old(self).remaining().len() == 0 ==> r is None && final(self).remaining() == old(
                self,
            ).remaining(),
            old(self).remaining().len() != 0 ==> r is Some && *r.unwrap() == old(
                self,
            ).remaining().first() && final(self).remaining() == old(self).remaining().drop_first(),
    {
        let n = self.elems.len();
        if n == 0 {
            None
        } else {
            let first: &'a T = slice_index_get(self.elems, 0);
            let rest: &'a [T] = vstd::slice::slice_subrange(self.elems, 1, n);
            self.elems = rest;
            proof {
                assert(self.elems@ =~= old(self).remaining().drop_first());
            }
            Some(first)
        }
    }
}

impl<'a, T> IterMut<'a, T> {
    /// The elements not yet handed out, in order.
    pub open spec fn remaining(&self) -> Seq<T> {
        self.elems@
    }

    /// A mutable reference to the next element, or nothing when exhausted.
    pub fn next(&mut self) -> (r: Option<&'a mut T>)
        ensures
            old(self).remaining().len() == 0 ==> r is None && final(self).remaining() == old(
                self,
            ).remaining(),
            old(self).remaining().len() != 0 ==> r is Some && *r.unwrap() == old(
                self,
            ).remaining().first() && final(self).remaining() == old(self).remaining().drop_first(),
    {
        let mut taken: &'a mut [T] = &mut [];
        core::mem::swap(&mut self.elems, &mut taken);
        let n = taken.len();
        if n == 0 {
            self.elems = taken;
            None
        } else {
            let (first_part, rest) = taken.split_at_mut(1);
            self.elems = rest;
            match first_part.first_mut() {
                Some(m) => {
                    proof {
                        assert(self.elems@ =~= old(self).remaining().drop_first());
                    }
                    Some(m)
                },
                None => None,
            }
        }
    }
}

} // verus!
