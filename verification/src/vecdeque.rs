//! Copying out of a `VecDeque<u8>` buffer.
use std::collections::VecDeque;

use vstd::prelude::*;

verus! {

/// The bytes of `src` from `start` on, at most `max` of them.
pub open spec fn copied_from(src: Seq<u8>, start: int, max: int) -> Seq<u8> {
    let avail = src.len() - start;
    let n = if avail < max { avail } else { max };
    src.subrange(start, start + n)
}

/// `after` holds `copied` at its front and `before` everywhere else.
pub open spec fn copied_into(before: Seq<u8>, after: Seq<u8>, copied: Seq<u8>) -> bool {
    &&& after.len() == before.len()
    &&& after.subrange(0, copied.len() as int) == copied
    &&& after.subrange(copied.len() as int, after.len() as int) == before.subrange(
        copied.len() as int,
        before.len() as int,
    )
}

pub trait VecDequeExt: View<V = Seq<u8>> {
    /// Copies from this vecdeque into a provided slice. You can provide a
    /// start to skip the first `start` items in the vecdeque. Returns how many
    /// bytes were copied.
    fn copy_starting_at(&self, start: usize, target: &mut [u8]) -> (n: usize)
        requires
            start <= self@.len(),
        ensures
            n == copied_from(self@, start as int, old(target)@.len() as int).len(),
            copied_into(
                old(target)@,
                final(target)@,
                copied_from(self@, start as int, old(target)@.len() as int),
            ),
    ;
}

impl VecDequeExt for VecDeque<u8> {
    fn copy_starting_at(&self, start: usize, target: &mut [u8]) -> (n: usize) {
        let avail = self.len() - start;
        let n_to_copy = if avail < target.len() { avail } else { target.len() };
        let ghost before = target@;
        let mut k: usize = 0;
        while k < n_to_copy
            invariant
                k <= n_to_copy,
                n_to_copy <= target@.len(),
                start + n_to_copy <= self.len(),
                target@.len() == before.len(),
                forall|m: int| 0 <= m < k ==> target@[m] == self@[start + m],
                forall|m: int| k <= m < target@.len() ==> target@[m] == before[m],
            decreases n_to_copy - k,
        {
            let b = self[start + k];
            target[k] = b;
            k += 1;
        }
        assert(target@.subrange(0, n_to_copy as int) =~= self@.subrange(
            start as int,
            start + n_to_copy,
        ));
        assert(target@.subrange(n_to_copy as int, target@.len() as int) =~= before.subrange(
            n_to_copy as int,
            before.len() as int,
        ));
        n_to_copy
    }
}

} // verus!
