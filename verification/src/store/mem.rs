//! Reading out of an in-memory ring buffer.
use std::collections::VecDeque;

use vstd::prelude::*;

use crate::vecdeque::{copied_from, copied_into, VecDequeExt};

verus! {

/// Fills `target` with the bytes of `source` from `start` on, as many as
/// fit and are there. Returns how many bytes were copied.
pub fn fill_with_offset(target: &mut [u8], source: &VecDeque<u8>, start: usize) -> (n: usize)
    requires
        start <= source@.len(),
    ensures
        n == copied_from(source@, start as int, old(target)@.len() as int).len(),
        copied_into(
            old(target)@,
            final(target)@,
            copied_from(source@, start as int, old(target)@.len() as int),
        ),
{
    source.copy_starting_at(start, target)
}

} // verus!
