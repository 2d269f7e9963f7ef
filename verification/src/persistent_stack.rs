//! A persistent stack: prepending or taking the tail yields a new stack
//! that shares its spine with the old one through reference counting.

use std::rc::Rc;

use vstd::prelude::*;

verus! {

struct Node<T> {
    value: T,
    next: PLink<T>,
}

type PLink<T> = Option<Rc<Node<T>>>;

/// A borrowing cursor over a persistent stack, from the top down.
pub struct Iter<'a, T> {
    cur: Option<&'a Node<T>>,
}

/// A persistent stack; the view lists its elements from top to bottom.
/// The stored count grows with every prepend but is carried over unchanged
/// by `tail`, so it can exceed the number of elements still reachable.
pub struct PersistentStack<T> {
    head: PLink<T>,
    count: usize,
}

/// The values reachable from a link, nearest first.
spec fn link_seq<T>(link: PLink<T>) -> Seq<T>
    decreases link,
{
    match link {
        None => Seq::empty(),
        Some(node) => seq![node.value] + link_seq(node.next),
    }
}

impl<T> PersistentStack<T> {
    /// The elements from top to bottom.
    pub closed spec fn elems(self) -> Seq<T> {
        link_seq(self.head)
    }

    /// The stored element count.
    pub closed spec fn stored_count(self) -> int {
        self.count as int
    }

    pub fn new() -> (r: PersistentStack<T>)
        ensures
            r.elems() == Seq::<T>::empty(),
            r.stored_count() == 0,
    {
        PersistentStack { head: None, count: 0 }
    }

    pub fn len(&self) -> (r: usize)
        ensures
            r == self.stored_count(),
    {
        self.count
    }

    pub fn is_empty(&self) -> (r: bool)
        ensures
            r == (self.stored_count() == 0),
    {
        self.count == 0
    }

    pub fn peek(&self) -> (r: Option<&T>)
        ensures
            self.elems().len() == 0 ==> r is None,
            self.elems().len() != 0 ==> r is Some && *r.unwrap() == self.elems().first(),
    {
        match &self.head {
            None => None,
            Some(node) => Some(&node.value),
        }
    }

    /// A new stack with `val` on top, sharing this stack's spine.
    pub fn prepend(&self, val: T) -> (r: PersistentStack<T>)
        requires
            self.stored_count() < usize::MAX,
        ensures
            r.elems() == seq![val] + self.elems(),
            r.stored_count() == self.stored_count() + 1,
    {
        let next = match &self.head {
            None => None,
            Some(node) => Some(rc_clone(node)),
        };
        PersistentStack { count: self.count + 1, head: Some(Rc::new(Node { value: val, next })) }
    }

    /// A new stack without this stack's top element; the stored count is
    /// carried over unchanged.
    pub fn tail(&self) -> (r: PersistentStack<T>)
        ensures
            r.elems() == if self.elems().len() == 0 {
                Seq::<T>::empty()
            } else {
                self.elems().drop_first()
            },
            r.stored_count() == self.stored_count(),
    {
        let head = match &self.head {
            None => None,
            Some(node) => match &node.next {
                None => None,
                Some(next_node) => Some(rc_clone(next_node)),
            },
        };
        proof {
            if self.elems().len() != 0 {
                assert(link_seq(self.head).drop_first() =~= link_seq(
                    self.head.unwrap().next,
                ));
            }
        }
        PersistentStack { count: self.count, head }
    }

    /// A borrowing cursor over the elements, from the top down.
    pub fn iter(&self) -> (r: Iter<'_, T>)
        ensures
            r.remaining() == self.elems(),
    {
        match &self.head {
            None => Iter { cur: None },
            Some(node) => Iter { cur: Some(&**node) },
        }
    }
}

impl<'a, T> Iter<'a, T> {
    /// The elements not yet handed out, nearest first.
    pub closed spec fn remaining(&self) -> Seq<T> {
        match self.cur {
            None => Seq::empty(),
            Some(node) => seq![node.value] + link_seq(node.next),
        }
    }

    /// A reference to the next element down, or nothing when exhausted.
    pub fn next(&mut self) -> (r: Option<&'a T>)
        ensures
            old(self).remaining().len() == 0 ==> r is None && final(self).remaining() == old(
                self,
            ).remaining(),
            old(self).remaining().len() != 0 ==> r is Some && *r.unwrap() == old(
                self,
            ).remaining().first() && final(self).remaining() == old(self).remaining().drop_first(),
    {
        match self.cur {
            None => None,
            Some(node) => {
                let value = &node.value;
                self.cur = match &node.next {
                    None => None,
                    Some(next_node) => Some(&**next_node),
                };
                proof {
                    assert(final(self).remaining() =~= old(self).remaining().drop_first());
                }
                Some(value)
            },
        }
    }
}

/// Relies on `Rc::clone`: the clone is a handle to the same shared value.
#[verifier::external_body]
fn rc_clone<T>(rc: &Rc<T>) -> (r: Rc<T>)
    ensures
        r == *rc,
{
    Rc::clone(rc)
}

} // verus!
