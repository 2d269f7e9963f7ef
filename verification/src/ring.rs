//! The cursor arithmetic of a bounded ring buffer.

use vstd::prelude::*;

verus! {

/// One byte written into a ring buffer: the write head advances by one
/// slot, wrapping at the capacity, and pushes the read tail ahead of it
/// when it catches up.
pub fn ring_step(head: usize, tail: usize, capacity: usize) -> (r: (usize, usize))
    requires
        capacity >= 1,
        head < capacity,
        tail < capacity,
    ensures
        r.0 == (head + 1) % (capacity as int),
        r.1 == if (head + 1) % (capacity as int) == tail {
            (tail + 1) % (capacity as int)
        } else {
            tail as int
        },
        r.0 < capacity,
        r.1 < capacity,
{
    let new_head = (head + 1) % capacity;
    let new_tail = if new_head == tail {
        (tail + 1) % capacity
    } else {
        tail
    };
    (new_head, new_tail)
}

} // verus!
