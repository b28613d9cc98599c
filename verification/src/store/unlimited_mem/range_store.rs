//! An in-memory store that keeps every downloaded part of a stream, one
//! buffer per contiguous part.
use std::collections::TryReserveError;
use std::ops::Range;

use rangemap::RangeSet;
use vstd::prelude::*;

use crate::range_set::{range_set_insert, range_set_new, range_set_points};

verus! {

/// One buffer of the store: `(position of its first byte, its bytes)`.
pub type EntryView = (u64, Seq<u8>);

/// Entry `e` holds the byte at position `pos`.
pub open spec fn holds(e: EntryView, pos: int) -> bool {
    e.0 <= pos < e.0 + e.1.len()
}

/// Entry `e` ends (exclusively) at `pos`.
pub open spec fn ends_at(e: EntryView, pos: int) -> bool {
    e.0 + e.1.len() == pos
}

/// `i` is the first entry of `es` that holds `pos`.
pub open spec fn is_first_holding(es: Seq<EntryView>, pos: int, i: int) -> bool {
    &&& 0 <= i < es.len()
    &&& holds(es[i], pos)
    &&& forall|j: int| 0 <= j < i ==> !holds(#[trigger] es[j], pos)
}

/// The first entry of `es` that holds `pos`, if any; reads are served from it.
pub open spec fn first_holding(es: Seq<EntryView>, pos: int) -> Option<int> {
    if exists|i: int| is_first_holding(es, pos, i) {
        Some(choose|i: int| is_first_holding(es, pos, i))
    } else {
        None
    }
}

/// `i` is the first entry of `es` that ends at `pos`.
pub open spec fn is_first_ending_at(es: Seq<EntryView>, pos: int, i: int) -> bool {
    &&& 0 <= i < es.len()
    &&& ends_at(es[i], pos)
    &&& forall|j: int| 0 <= j < i ==> !ends_at(#[trigger] es[j], pos)
}

/// The first entry of `es` that ends at `pos`, if any; appends at `pos` extend it.
pub open spec fn first_ending_at(es: Seq<EntryView>, pos: int) -> Option<int> {
    if exists|i: int| is_first_ending_at(es, pos, i) {
        Some(choose|i: int| is_first_ending_at(es, pos, i))
    } else {
        None
    }
}

/// The byte a read at `pos` returns first, if the store holds `pos`.
pub open spec fn stored_at(es: Seq<EntryView>, pos: int) -> Option<u8> {
    match first_holding(es, pos) {
        Some(i) => Some(es[i].1[pos - es[i].0]),
        None => None,
    }
}

/// What a read at `pos` into a buffer of `max` bytes copies: the bytes of
/// the first entry holding `pos`, from `pos` up to the end of that entry or
/// `max` bytes, whichever is less.
pub open spec fn read_from(es: Seq<EntryView>, pos: int, max: int) -> Seq<u8> {
    match first_holding(es, pos) {
        Some(i) => {
            let off = pos - es[i].0;
            let avail = es[i].1.len() - off;
            let n = if avail < max { avail } else { max };
            es[i].1.subrange(off, off + n)
        },
        None => Seq::empty(),
    }
}

/// The entries after appending `bytes` at `pos`: the first entry ending at
/// `pos` grows, otherwise a new entry starting at `pos` is added.
pub open spec fn appended(es: Seq<EntryView>, pos: u64, bytes: Seq<u8>) -> Seq<EntryView> {
    match first_ending_at(es, pos as int) {
        Some(j) => es.update(j, (es[j].0, es[j].1 + bytes)),
        None => es.push((pos, bytes)),
    }
}

/// Every entry ends at a position that fits in a `u64`.
pub open spec fn entries_fit(es: Seq<EntryView>) -> bool {
    forall|i: int| 0 <= i < es.len() ==> #[trigger] es[i].0 + es[i].1.len() <= u64::MAX
}

/// The positions held by some entry.
pub open spec fn held_points(es: Seq<EntryView>) -> Set<u64> {
    Set::new(|p: u64| exists|i: int| 0 <= i < es.len() && holds(#[trigger] es[i], p as int))
}

pub struct Entry {
    start: u64,
    data: Vec<u8>,
}

impl View for Entry {
    type V = EntryView;

    closed spec fn view(&self) -> EntryView {
        (self.start, self.data@)
    }
}

impl Entry {
    fn first() -> (e: Entry)
        ensures
            e@ == (0u64, Seq::<u8>::empty()),
    {
        Entry { start: 0, data: Vec::with_capacity(10_000) }
    }

    fn range(&self) -> (r: Range<u64>)
        requires
            self@.0 + self@.1.len() <= u64::MAX,
        ensures
            r.start == self@.0,
            r.end == self@.0 + self@.1.len(),
    {
        Range { start: self.start, end: self.start + self.data.len() as u64 }
    }
}

/// The capacity of `v` (`Vec::capacity`); the allocator decides it.
#[verifier::external_body]
fn vec_capacity(v: &Vec<u8>) -> usize {
    v.capacity()
}

pub struct RangeStore {
    buffers: Vec<Entry>,
}

impl View for RangeStore {
    type V = Seq<EntryView>;

    closed spec fn view(&self) -> Seq<EntryView> {
        self.buffers@.map_values(|e: Entry| e@)
    }
}

proof fn lemma_first_holding_unique(es: Seq<EntryView>, pos: int, i: int)
    requires
        is_first_holding(es, pos, i),
    ensures
        first_holding(es, pos) == Some(i),
{
    let c = choose|k: int| is_first_holding(es, pos, k);
    assert(is_first_holding(es, pos, c));
    if c < i {
        assert(!holds(es[c], pos));
    } else if c > i {
        assert(!holds(es[i], pos));
    }
}

proof fn lemma_first_ending_unique(es: Seq<EntryView>, pos: int, i: int)
    requires
        is_first_ending_at(es, pos, i),
    ensures
        first_ending_at(es, pos) == Some(i),
{
    let c = choose|k: int| is_first_ending_at(es, pos, k);
    assert(is_first_ending_at(es, pos, c));
    if c < i {
        assert(!ends_at(es[c], pos));
    } else if c > i {
        assert(!ends_at(es[i], pos));
    }
}


/// Reading back an append: when the store held none of the positions
/// `pos..pos + bytes.len()` (none is in what `ranges` reports), a read at any
/// of them after `append_at(pos, bytes)` returns the appended bytes from that
/// position on, as many as fit in the read buffer.
pub proof fn lemma_read_after_append(es: Seq<EntryView>, pos: u64, bytes: Seq<u8>, p: int, max: int)
    requires
        entries_fit(es),
        pos + bytes.len() <= u64::MAX,
        forall|q: u64| pos <= q < pos + bytes.len() ==> !#[trigger] held_points(es).contains(q),
        pos <= p < pos + bytes.len(),
        0 <= max,
    ensures
        ({
            let left = pos + bytes.len() - p;
            let n = if left < max { left } else { max };
            read_from(appended(es, pos, bytes), p, max) == bytes.subrange(p - pos, p - pos + n)
        }),
{
    let es2 = appended(es, pos, bytes);
    assert(!held_points(es).contains(p as u64));
    assert forall|k: int| 0 <= k < es.len() implies !holds(#[trigger] es[k], p) by {
        if holds(es[k], p) {
            assert(held_points(es).contains(p as u64));
        }
    }
    match first_ending_at(es, pos as int) {
        Some(j) => {
            assert(is_first_ending_at(es, pos as int, j)) by {
                let c = choose|c: int| is_first_ending_at(es, pos as int, c);
            }
            assert(is_first_holding(es2, p, j));
            lemma_first_holding_unique(es2, p, j);
            let off = p - es[j].0;
            assert(es2[j].1 =~= es[j].1 + bytes);
            let left = pos + bytes.len() - p;
            let n = if left < max { left } else { max };
            assert(es2[j].1.subrange(off, off + n) =~= bytes.subrange(p - pos, p - pos + n));
        },
        None => {
            let j = es.len() as int;
            assert(is_first_holding(es2, p, j));
            lemma_first_holding_unique(es2, p, j);
        },
    }
}

/// Appending leaves every other position alone: after `append_at(pos, bytes)`
/// the byte a read finds at a position outside `pos..pos + bytes.len()` is the
/// one it found before.
pub proof fn lemma_append_keeps_rest(es: Seq<EntryView>, pos: u64, bytes: Seq<u8>, q: int)
    requires
        entries_fit(es),
        !(pos <= q < pos + bytes.len()),
    ensures
        stored_at(appended(es, pos, bytes), q) == stored_at(es, q),
{
    let es2 = appended(es, pos, bytes);
    match first_ending_at(es, pos as int) {
        Some(j) => {
            assert(is_first_ending_at(es, pos as int, j)) by {
                let c = choose|c: int| is_first_ending_at(es, pos as int, c);
            }
            assert forall|k: int| 0 <= k < es.len() implies holds(#[trigger] es2[k], q) == holds(es[k], q) by {}
            lemma_same_holding(es, es2, q);
            if let Some(i) = first_holding(es, q) {
                if i == j {
                    assert(es2[j].1 =~= es[j].1 + bytes);
                }
            }
        },
        None => {
            assert forall|k: int| 0 <= k < es.len() implies holds(#[trigger] es2[k], q) == holds(es[k], q) by {}
            assert(!holds(es2[es.len() as int], q));
            lemma_same_holding(es, es2, q);
        },
    }
}

/// Two entry lists that agree on which entries hold `pos` (the second one may
/// have extra entries that do not) pick the same first holding entry.
proof fn lemma_same_holding(es: Seq<EntryView>, es2: Seq<EntryView>, pos: int)
    requires
        es.len() <= es2.len(),
        forall|k: int| 0 <= k < es.len() ==> holds(#[trigger] es2[k], pos) == holds(es[k], pos),
        forall|k: int| es.len() <= k < es2.len() ==> !holds(#[trigger] es2[k], pos),
    ensures
        first_holding(es2, pos) == first_holding(es, pos),
{
    if exists|i: int| is_first_holding(es, pos, i) {
        let i = choose|i: int| is_first_holding(es, pos, i);
        assert(is_first_holding(es2, pos, i));
        lemma_first_holding_unique(es, pos, i);
        lemma_first_holding_unique(es2, pos, i);
    } else if exists|i: int| is_first_holding(es2, pos, i) {
        let i = choose|i: int| is_first_holding(es2, pos, i);
        if i >= es.len() {
            assert(!holds(es2[i], pos));
        }
        assert forall|j: int| 0 <= j < i implies !holds(#[trigger] es[j], pos) by {
            assert(!holds(es2[j], pos));
        }
        assert(is_first_holding(es, pos, i));
    }
}

impl RangeStore {
    /// The stored buffers are in the shape that `entries_fit` describes.
    pub open spec fn wf(&self) -> bool {
        entries_fit(self@)
    }

    pub fn new() -> (s: Self)
        ensures
            s.wf(),
            s@ == seq![(0u64, Seq::<u8>::empty())],
    {
        let mut buffers = Vec::with_capacity(10);
        buffers.push(Entry::first());
        let s = Self { buffers };
        assert(s@ =~= seq![(0u64, Seq::<u8>::empty())]);
        s
    }

    /// Appends `bytes` at stream position `pos`. Only growing an existing
    /// buffer reserves memory; when the allocator refuses, nothing changes.
    pub fn append_at(&mut self, pos: u64, bytes: &[u8]) -> (r: Result<(), TryReserveError>)
        requires
            old(self).wf(),
            pos + bytes@.len() <= u64::MAX,
        ensures
            final(self).wf(),
            r is Ok ==> final(self)@ == appended(old(self)@, pos, bytes@),
            r is Err ==> final(self)@ == old(self)@ && first_ending_at(old(self)@, pos as int) is Some,
    {
        let ghost es = self@;
        let mut i: usize = 0;
        while i < self.buffers.len()
            invariant
                i <= self.buffers.len(),
                self@ == es,
                es == old(self)@,
                pos + bytes@.len() <= u64::MAX,
                entries_fit(es),
                forall|j: int| 0 <= j < i ==> !ends_at(#[trigger] es[j], pos as int),
            decreases self.buffers.len() - i,
        {
            assert(self.buffers@[i as int]@ == es[i as int]);
            let r = self.buffers[i].range();
            if r.end == pos {
                proof {
                    assert(is_first_ending_at(es, pos as int, i as int));
                    lemma_first_ending_unique(es, pos as int, i as int);
                }
                let mut entry = self.buffers.remove(i);
                assert(entry@ == es[i as int]);
                let needed = bytes.len().saturating_sub(vec_capacity(&entry.data));
                let reserved = entry.data.try_reserve(needed);
                if let Err(e) = reserved {
                    self.buffers.insert(i, entry);
                    assert(self@ =~= es);
                    return Err(e);
                }
                entry.data.extend_from_slice(bytes);
                assert(entry.data@ =~= es[i as int].1 + bytes@);
                self.buffers.insert(i, entry);
                assert(self@ =~= es.update(i as int, (es[i as int].0, es[i as int].1 + bytes@)));
                assert(entries_fit(self@)) by {
                    assert(es[i as int].0 + es[i as int].1.len() == pos);
                }
                return Ok(());
            }
            i += 1;
        }
        proof {
            if exists|k: int| is_first_ending_at(es, pos as int, k) {
                let k = choose|k: int| is_first_ending_at(es, pos as int, k);
                assert(!ends_at(es[k], pos as int));
            }
        }
        let data = vstd::slice::slice_to_vec(bytes);
        self.buffers.push(Entry { start: pos, data });
        assert(self@ =~= es.push((pos, bytes@)));
        Ok(())
    }

    /// Copies into `buf` the bytes at `pos` and after, out of the first buffer
    /// that holds `pos`; returns how many were copied (0 when none holds it).
    pub fn copy_at(&self, pos: u64, buf: &mut [u8]) -> (n: usize)
        requires
            self.wf(),
        ensures
            n == read_from(self@, pos as int, old(buf)@.len() as int).len(),
            final(buf)@.len() == old(buf)@.len(),
            final(buf)@.subrange(0, n as int) == read_from(self@, pos as int, old(buf)@.len() as int),
            final(buf)@.subrange(n as int, final(buf)@.len() as int) == old(buf)@.subrange(
                n as int,
                old(buf)@.len() as int,
            ),
            n == old(buf)@.len() ==> final(buf)@ == read_from(self@, pos as int, old(buf)@.len() as int),
    {
        let ghost es = self@;
        let mut i: usize = 0;
        while i < self.buffers.len()
            invariant
                i <= self.buffers.len(),
                self@ == es,
                buf@ == old(buf)@,
                entries_fit(es),
                forall|j: int| 0 <= j < i ==> !holds(#[trigger] es[j], pos as int),
            decreases self.buffers.len() - i,
        {
            assert(self.buffers@[i as int]@ == es[i as int]);
            let r = self.buffers[i].range();
            if r.start <= pos && pos < r.end {
                proof {
                    assert(is_first_holding(es, pos as int, i as int));
                    lemma_first_holding_unique(es, pos as int, i as int);
                }
                let entry = &self.buffers[i];
                assert(entry@ == es[i as int]);
                assert(entry.data@ == es[i as int].1);
                assert(pos - entry.start < entry.data@.len());
                let offset = (pos - entry.start) as usize;
                let available = entry.data.len() - offset;
                let to_copy = if available < buf.len() { available } else { buf.len() };
                assert(offset == pos - entry.start);
                assert(offset + to_copy <= entry.data@.len());
                let ghost old_buf = buf@;
                let mut k: usize = 0;
                while k < to_copy
                    invariant
                        k <= to_copy,
                        to_copy <= buf@.len(),
                        buf@.len() == old_buf.len(),
                        offset + to_copy <= entry.data.len(),
                        forall|m: int| 0 <= m < k ==> buf@[m] == entry.data@[offset + m],
                        forall|m: int| k <= m < buf@.len() ==> buf@[m] == old_buf[m],
                    decreases to_copy - k,
                {
                    let b = entry.data[offset + k];
                    buf[k] = b;
                    k += 1;
                }
                assert(buf@.subrange(0, to_copy as int) =~= entry.data@.subrange(
                    offset as int,
                    offset + to_copy,
                ));
                assert(buf@.subrange(to_copy as int, buf@.len() as int) =~= old_buf.subrange(
                    to_copy as int,
                    old_buf.len() as int,
                ));
                assert(to_copy == buf@.len() ==> buf@.subrange(0, to_copy as int) =~= buf@);
                return to_copy;
            }
            i += 1;
        }
        proof {
            if exists|k: int| is_first_holding(es, pos as int, k) {
                let k = choose|k: int| is_first_holding(es, pos as int, k);
                assert(!holds(es[k], pos as int));
            }
        }
        assert(buf@.subrange(0, 0) =~= Seq::<u8>::empty());
        assert(buf@.subrange(0, buf@.len() as int) =~= buf@);
        0
    }

    /// The non-empty parts of the stream the store holds.
    pub fn ranges(&self) -> (s: RangeSet<u64>)
        requires
            self.wf(),
        ensures
            range_set_points(s) == held_points(self@),
    {
        let ghost es = self@;
        let mut s = range_set_new();
        let mut i: usize = 0;
        while i < self.buffers.len()
            invariant
                i <= self.buffers.len(),
                self@ == es,
                entries_fit(es),
                forall|p: u64|
                    range_set_points(s).contains(p) <==> exists|k: int|
                        0 <= k < i && holds(#[trigger] es[k], p as int),
            decreases self.buffers.len() - i,
        {
            assert(self.buffers@[i as int]@ == es[i as int]);
            let r = self.buffers[i].range();
            let ghost before = range_set_points(s);
            if r.start < r.end {
                range_set_insert(&mut s, r);
            }
            assert forall|p: u64|
                range_set_points(s).contains(p) <==> exists|k: int|
                    0 <= k < i + 1 && holds(#[trigger] es[k], p as int) by {
                if range_set_points(s).contains(p) && !before.contains(p) {
                    assert(holds(es[i as int], p as int));
                }
                if exists|k: int| 0 <= k < i + 1 && holds(#[trigger] es[k], p as int) {
                    let k = choose|k: int| 0 <= k < i + 1 && holds(#[trigger] es[k], p as int);
                    if k < i {
                        assert(before.contains(p));
                    }
                }
            }
            i += 1;
        }
        assert(range_set_points(s) =~= held_points(es));
        s
    }
}

} // verus!
