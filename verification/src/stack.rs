//! A last-in first-out stack with owning, borrowing and mutating cursors
//! over its elements, each walking from the top down.

use vstd::prelude::*;
use vstd::slice::slice_index_get;

verus! {

/// A stack; the view lists its elements from bottom to top.
#[derive(Debug)]
pub struct Stack<T> {
    data: Vec<T>,
}

/// An owning cursor: hands the elements out top-first, consuming them.
pub struct IntoIter<T>(Stack<T>);

/// A borrowing cursor: hands out references to the elements top-first.
pub struct Iter<'a, T> {
    elems: &'a [T],
}

/// A mutating cursor: hands out mutable references to the elements
/// top-first. What is written through the handed-out references becomes
/// the final content of the slice it walks.
pub struct IterMut<'a, T> {
    pub elems: &'a mut [T],
}

impl<T> View for Stack<T> {
    type V = Seq<T>;

    closed spec fn view(&self) -> Seq<T> {
        self.data@
    }
}

impl<T> View for IntoIter<T> {
    type V = Seq<T>;

    closed spec fn view(&self) -> Seq<T> {
        self.0@
    }
}

impl<T> Stack<T> {
    pub fn new() -> (r: Stack<T>)
        ensures
            r@ == Seq::<T>::empty(),
    {
        Stack { data: Vec::new() }
    }

    pub fn len(&self) -> (r: usize)
        ensures
            r == self@.len(),
    {
        self.data.len()
    }

    pub fn is_empty(&self) -> (r: bool)
        ensures
            r == (self@.len() == 0),
    {
        self.data.len() == 0
    }

    pub fn peek(&self) -> (r: Option<&T>)
        ensures
            self@.len() == 0 ==> r is None,
            self@.len() != 0 ==> r is Some && *r.unwrap() == self@.last(),
    {
        if self.data.len() == 0 {
            None
        } else {
            Some(&self.data[self.data.len() - 1])
        }
    }

    pub fn peek_mut(&mut self) -> (r: Option<&mut T>)
        ensures
            old(self)@.len() == 0 ==> r is None && final(self)@ == old(self)@,
            old(self)@.len() != 0 ==> r is Some && *r.unwrap() == old(self)@.last() && final(self)@
                == old(self)@.update(old(self)@.len() - 1, *final(r.unwrap())),
    {
        self.data.as_mut_slice().last_mut()
    }

    pub fn push(&mut self, item: T)
        ensures
            final(self)@ == old(self)@.push(item),
    {
        self.data.push(item);
    }

    pub fn pop(&mut self) -> (r: Option<T>)
        ensures
            old(self)@.len() == 0 ==> r is None && final(self)@ == old(self)@,
            old(self)@.len() != 0 ==> r == Some(old(self)@.last()) && final(self)@ == old(self)@.drop_last(),
    {
        self.data.pop()
    }

    /// Consumes the stack into an owning top-first cursor.
    pub fn into_iter(self) -> (r: IntoIter<T>)
        ensures
            r@ == self@,
    {
        IntoIter(self)
    }

    /// A borrowing top-first cursor over the elements.
    pub fn iter(&self) -> (r: Iter<'_, T>)
        ensures
            r.remaining() == self@,
    {
        Iter { elems: self.data.as_slice() }
    }

    /// A mutating top-first cursor over the elements. What the caller
    /// writes through the cursor becomes the stack's new content.
    pub fn iter_mut(&mut self) -> (r: IterMut<'_, T>)
        ensures
            r.remaining() == old(self)@,
            final(self)@ == final(r.elems)@,
    {
        IterMut { elems: self.data.as_mut_slice() }
    }
}

impl<T> IntoIter<T> {
    /// The next element from the top, or nothing when exhausted.
    pub fn next(&mut self) -> (r: Option<T>)
        ensures
            old(self)@.len() == 0 ==> r is None && final(self)@ == old(self)@,
            old(self)@.len() != 0 ==> r == Some(old(self)@.last()) && final(self)@ == old(self)@.drop_last(),
    {
        self.0.pop()
    }
}

impl<'a, T> Iter<'a, T> {
    /// The elements not yet handed out, from bottom to top.
    pub closed spec fn remaining(&self) -> Seq<T> {
        self.elems@
    }

    /// A reference to the next element from the top, or nothing when
    /// exhausted.
    pub fn next(&mut self) -> (r: Option<&'a T>)
        ensures
            old(self).remaining().len() == 0 ==> r is None && final(self).remaining() == old(
                self,
            ).remaining(),
            old(self).remaining().len() != 0 ==> r is Some && *r.unwrap() == old(
                self,
            ).remaining().last() && final(self).remaining() == old(self).remaining().drop_last(),
    {
        let n = self.elems.len();
        if n == 0 {
            None
        } else {
            let last: &'a T = slice_index_get(self.elems, n - 1);
            let rest: &'a [T] = vstd::slice::slice_subrange(self.elems, 0, n - 1);
            self.elems = rest;
            proof {
                assert(self.elems@ =~= old(self).remaining().drop_last());
            }
            Some(last)
        }
    }
}

impl<'a, T> IterMut<'a, T> {
    /// The elements not yet handed out, from bottom to top.
    pub open spec fn remaining(&self) -> Seq<T> {
        self.elems@
    }

    /// A mutable reference to the next element from the top, or nothing
    /// when exhausted.
    pub fn next(&mut self) -> (r: Option<&'a mut T>)
        ensures
            old(self).remaining().len() == 0 ==> r is None && final(self).remaining() == old(
                self,
            ).remaining(),
            old(self).remaining().len() != 0 ==> r is Some && *r.unwrap() == old(
                self,
            ).remaining().last() && final(self).remaining() == old(self).remaining().drop_last(),
    {
        let mut taken: &'a mut [T] = &mut [];
        core::mem::swap(&mut self.elems, &mut taken);
        let n = taken.len();
        if n == 0 {
            self.elems = taken;
            None
        } else {
            let (rest, last_part) = taken.split_at_mut(n - 1);
            self.elems = rest;
            match last_part.first_mut() {
                Some(m) => {
                    proof {
                        assert(self.elems@ =~= old(self).remaining().drop_last());
                    }
                    Some(m)
                },
                None => None,
            }
        }
    }
}

} // verus!
