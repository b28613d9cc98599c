use std::ops::Range;

use rangemap::RangeSet;
use stream_owl::range_set::{covers_range, range_set_from_ranges};
use stream_owl::store::capacity::{Bounds, Capacity};
use stream_owl::store::limited_mem::{Error as LimitedError, Memory as LimitedMemory};
use stream_owl::store::migrate::missing;
use stream_owl::store::migrate::range_list::{correct_for_capacity, iter_by_importance, len, ranges_we_can_take};
use stream_owl::store::unlimited_mem::range_store::RangeStore;
use stream_owl::store::unlimited_mem::{Error as UnlimitedError, Memory as UnlimitedMemory};
use stream_owl::store::migrate::{CopyProgress, COPY_CHUNK};
use stream_owl::store::range_watch::RangeWatch;

fn set(ranges: &[Range<u64>]) -> RangeSet<u64> {
    let mut s = RangeSet::new();
    for r in ranges {
        s.insert(r.clone());
    }
    s
}

#[test]
fn capacity_frees_and_takes() {
    let mut cap = Capacity::new(Bounds::Limited(10));
    assert_eq!(cap.available(), 10);
    cap.remove(4);
    assert_eq!(cap.available(), 6);
    assert!(cap.can_write());
    cap.remove(20);
    assert_eq!(cap.available(), 0);
    assert!(!cap.can_write());
    assert!(cap.add(3));
    assert!(cap.can_write());
    assert_eq!(cap.available(), 3);
    cap.reset();
    assert_eq!(cap.available(), 10);

    let unlimited = Capacity::new(Bounds::Unlimited);
    assert_eq!(unlimited.available(), usize::MAX);
}

#[test]
fn limited_memory_reads_back_writes() {
    let mut mem = LimitedMemory::new(Capacity::new(Bounds::Limited(8))).unwrap();
    assert_eq!(mem.write_at(&[1, 2, 3, 4, 5], 0).unwrap(), 5);
    assert!(matches!(mem.write_at(&[9], 7), Err(LimitedError::SeekInProgress)));

    let mut buf = [0u8; 3];
    assert_eq!(mem.read_at(&mut buf, 1), 3);
    assert_eq!(buf, [2, 3, 4]);
    assert_eq!(mem.last_read_pos(), 1);

    // 3 + 3 bytes free: writes 5, dropping the 2 oldest
    assert_eq!(mem.write_at(&[6, 7, 8, 9, 10], 5).unwrap(), 5);
    let mut buf = [0u8; 8];
    assert_eq!(mem.read_at(&mut buf, 2), 8);
    assert_eq!(buf, [3, 4, 5, 6, 7, 8, 9, 10]);
    assert_eq!(mem.ranges(), set(&[2..10]));
    assert!(mem.gapless_from_till(3, 9));
    assert!(!mem.gapless_from_till(1, 9));
    assert_eq!(mem.n_supported_ranges(), 1);

    mem.writer_jump(100);
    assert_eq!(mem.ranges(), RangeSet::new());
    assert_eq!(mem.last_read_pos(), 100);
}

#[test]
fn range_store_appends_and_copies() {
    let mut store = RangeStore::new();
    store.append_at(0, &[1, 2, 3]).unwrap();
    store.append_at(3, &[4]).unwrap();
    store.append_at(10, &[7, 8]).unwrap();
    assert_eq!(store.ranges(), set(&[0..4, 10..12]));

    let mut buf = [0u8; 3];
    assert_eq!(store.copy_at(1, &mut buf), 3);
    assert_eq!(buf, [2, 3, 4]);
    let mut buf = [0u8; 3];
    assert_eq!(store.copy_at(11, &mut buf), 1);
    assert_eq!(buf, [8, 0, 0]);
    assert_eq!(store.copy_at(5, &mut buf), 0);
}

#[test]
fn unlimited_memory_keeps_everything() {
    let mut mem = UnlimitedMemory::new(Capacity::new(Bounds::Unlimited));
    assert_eq!(mem.write_at(&[1, 2, 3], 0).unwrap(), 3);
    assert!(matches!(mem.write_at(&[1], 10), Err(UnlimitedError::SeekInProgress)));
    mem.writer_jump(10);
    assert_eq!(mem.write_at(&[5, 6], 10).unwrap(), 2);
    assert_eq!(mem.ranges(), set(&[0..3, 10..12]));
    assert!(mem.gapless_from_till(0, 3));
    assert!(!mem.gapless_from_till(0, 11));
    let mut buf = [0u8; 4];
    assert_eq!(mem.read_at(&mut buf, 10), 2);
    assert_eq!(buf, [5, 6, 0, 0]);
    assert_eq!(mem.last_read_pos(), 10);
}

#[test]
fn missing_finds_leftmost_run() {
    let a = set(&[0..10, 20..30]);
    let b = set(&[5..25, 40..45]);
    assert_eq!(missing(&a, &b), Some(10..20));
    assert_eq!(missing(&set(&[0..50]), &b), None);
    assert_eq!(missing(&RangeSet::new(), &b), Some(5..25));
}

#[test]
fn capacity_keeps_center_first() {
    let list = vec![0..10, 20..30, 40..50];
    assert_eq!(correct_for_capacity(list.clone(), Bounds::Limited(15)), set(&[20..30, 45..50]));
    assert_eq!(correct_for_capacity(list.clone(), Bounds::Limited(5)), set(&[25..30]));
    assert_eq!(correct_for_capacity(list, Bounds::Unlimited), set(&[0..10, 20..30, 40..50]));
}

#[test]
fn ranges_around_reader() {
    let list = vec![0..10, 20..30, 40..50];
    assert_eq!(ranges_we_can_take(&list, 20, 2), vec![20..30, 40..50]);
    assert_eq!(ranges_we_can_take(&list, 20, 3), vec![20..30, 40..50, 0..10]);
    assert_eq!(ranges_we_can_take(&list, 25, 1), vec![20..30]);
    assert_eq!(ranges_we_can_take(&list, 5, 1), vec![0..10]);
    assert_eq!(ranges_we_can_take(&list, 15, 1), vec![20..30]);
    assert_eq!(ranges_we_can_take(&list, 45, 2), vec![40..50, 20..30]);
    assert_eq!(ranges_we_can_take(&list, 60, 2), vec![20..30, 40..50]);
}

#[test]
fn importance_starts_at_center() {
    let mut it = iter_by_importance(vec![0..1, 2..3, 4..5, 6..7]);
    assert_eq!(it.next(), Some(4..5));
    assert_eq!(it.next(), Some(6..7));
    assert_eq!(len(&(3..10)), 7);
}

#[test]
fn set_helpers() {
    let s = range_set_from_ranges(&vec![0..5, 5..5, 7..9]);
    assert_eq!(s, set(&[0..5, 7..9]));
    assert!(covers_range(&s, 1, 5));
    assert!(!covers_range(&s, 1, 6));
    assert!(covers_range(&s, 8, 8));
}

#[test]
fn migration_copies_until_done() {
    let needed = set(&[0..5000, 6000..6100]);
    let mut progress = CopyProgress::new();
    assert_eq!(progress.next_chunk(&needed), Some((0..5000, COPY_CHUNK)));
    progress.copied(0, COPY_CHUNK);
    // the rest of a long run is still to copy
    assert_eq!(progress.next_chunk(&needed), Some((4096..5000, 904)));
    progress.copied(4096, 904);
    assert_eq!(progress.next_chunk(&needed), Some((6000..6100, 100)));
    progress.copied(6000, 0);
    assert_eq!(progress.next_chunk(&needed), Some((6000..6100, 100)));
    progress.copied(6000, 100);
    assert_eq!(progress.next_chunk(&needed), None);
}

#[test]
fn range_watch_announces() {
    let mut watch = RangeWatch::new();
    assert!(!watch.available(3));
    watch.received(5..5);
    assert!(!watch.available(5));
    watch.received(0..10);
    assert!(watch.available(3));
    assert!(!watch.available(10));
    watch.received(10..20);
    assert!(watch.available(10));
}

#[test]
fn rereading_frees_capacity_past_the_buffer() {
    let mut mem = LimitedMemory::new(Capacity::new(Bounds::Limited(10))).unwrap();
    assert_eq!(mem.write_at(&[1; 10], 0).unwrap(), 10);
    assert_eq!(mem.available(), 0);
    let mut buf = [0u8; 10];
    assert_eq!(mem.read_at(&mut buf, 0), 10);
    assert_eq!(mem.read_at(&mut buf, 0), 10);
    assert_eq!(mem.available(), 20);
    assert!(mem.available() > mem.buffer_cap());
}
