use std::io;

use rangemap::RangeSet;
use stream_owl::http_client::headers::{range, ResponseHead};
use stream_owl::http_client::request::range_request_value;
use stream_owl::http_client::throttle::{LimiterSetup, Throttle};
use stream_owl::network::{Bandwidth, BandwidthAllowed, BandwidthError};
use stream_owl::reader::prefetch::{Prefetch, Prefetching};
use stream_owl::reader::{seek_position, ReaderState, SeekFrom};
use stream_owl::target::StreamTarget;
use stream_owl::testing::{
    bytes_to_send, content_range_value, parse_range_request, range_to_send, remove_pauses, test_data,
    triggered_action, Action, Event,
};
use stream_owl::text::{find_first, find_last, rsplit_once, split_once, starts_with, strip_prefix};
use stream_owl::http_client::leftover::Leftover;

fn bandwidth(n: u32) -> Bandwidth {
    Bandwidth::from_minimum(n, Ok(1)).unwrap()
}

#[test]
fn test_data_tells_position() {
    let data = test_data(10);
    assert_eq!(data.len(), 12);
    for (i, chunk) in data.chunks(4).enumerate() {
        let n = u32::from_ne_bytes(chunk.try_into().unwrap());
        assert_eq!(n as usize, 4 * i);
    }
    assert!(test_data(0).is_empty());
}

#[test]
fn scripted_events_trigger_in_order() {
    let mut script = vec![
        (Event::ByteRequested(500), Action::Cut { at: 600 }),
        (Event::Any, Action::Pause),
        (Event::ByteRequested(100), Action::Crash),
    ];
    assert!(Event::ByteRequested(5).active(&(0..10)));
    assert!(!Event::ByteRequested(10).active(&(0..10)));
    assert_eq!(triggered_action(&script, &(400..1000)), Some(Action::Cut { at: 600 }));
    assert_eq!(triggered_action(&script, &(0..200)), Some(Action::Pause));
    remove_pauses(&mut script);
    assert_eq!(triggered_action(&script, &(0..200)), Some(Action::Crash));
    assert_eq!(triggered_action(&script, &(200..300)), None);
    assert_eq!(script.len(), 2);
}

#[test]
fn range_headers_round_trip() {
    let request = range_request_value(&(1200..4500));
    assert_eq!(parse_range_request(&request), Some((1200, 4500)));
    assert_eq!(parse_range_request(b"bytes=12"), None);
    assert_eq!(parse_range_request(b"items=1-2"), None);

    let value = content_range_value(10, 20, 300);
    assert_eq!(value, b"bytes 10-20/300".to_vec());
    let head = ResponseHead { status: 206, content_length: None, content_range: Some(value) };
    assert_eq!(range(&head), Ok(Some(10..20)));
}

#[test]
fn bandwidth_needs_minimum() {
    assert_eq!(bandwidth(5000).get(), 5000);
    assert!(matches!(
        Bandwidth::from_minimum(100, Ok(2304)),
        Err(BandwidthError::TooSmall { minimum: 2304 })
    ));
    assert!(matches!(
        Bandwidth::from_minimum(100, Err(io::Error::new(io::ErrorKind::Other, "no socket"))),
        Err(BandwidthError::CheckingSocketOpt(_))
    ));
    assert_eq!(Bandwidth::practically_infinite().get(), u32::MAX);
    // no receive buffer is ever allowed to be empty
    assert!(Bandwidth::bytes(0).is_err());
    assert!(Bandwidth::kbytes(0).is_err());
    let b = bandwidth(1000);
    assert_eq!(b.optimal_send_buf_size(4096), 1000);
    assert_eq!(b.bytes_per_second(), 125);
    assert_eq!(bandwidth(9).bytes_per_second(), 2);
    assert_eq!(bandwidth(16).bytes_per_second(), 2);
    assert_eq!(b.optimal_send_buf_size(512), 512);
    assert_eq!(b.optimal_burst_size(1000), 2000);
    assert_eq!(b.optimal_burst_size(3000), 3000);
    assert_eq!(Bandwidth::practically_infinite().optimal_burst_size(10), u32::MAX);
}

#[test]
fn throttle_configures_limiter() {
    let mut throttle = Throttle::new();
    assert_eq!(throttle.bytes_to_check(100), None);
    let setup = throttle.set_lim(bandwidth(1000), 4096);
    assert_eq!(setup, LimiterSetup { send_buf_size: 1000, per_second: 125, burst_size: 2000 });
    assert_eq!(throttle.bytes_to_check(100), Some(100));
    assert_eq!(throttle.bytes_to_check(0), None);
    assert_eq!(throttle.pending_to_check(), None);
    throttle.check_refused(100);
    assert_eq!(throttle.pending_to_check(), Some(100));
    let setup = throttle.handle_bandwidth_lim_change(BandwidthAllowed::UnLimited, 4096);
    assert_eq!(setup, LimiterSetup { send_buf_size: 4096, per_second: 536_870_912, burst_size: u32::MAX });
    assert_eq!(throttle.pending_to_check(), None);
    assert_eq!(throttle.bytes_to_check(100), None);
}

#[test]
fn seeks_resolve_positions() {
    assert_eq!(seek_position(SeekFrom::Start(10), 5, None).unwrap(), 10);
    assert_eq!(seek_position(SeekFrom::Current(10), 5, None).unwrap(), 15);
    assert_eq!(seek_position(SeekFrom::End(10), 5, Some(100)).unwrap(), 90);
    assert_eq!(seek_position(SeekFrom::End(200), 5, Some(100)).unwrap(), 0);
    assert!(seek_position(SeekFrom::End(10), 5, None).is_err());

    let mut state = ReaderState::new(100);
    state.apply_seek(500, false);
    assert_eq!(state.curr_pos(), 500);
    assert_eq!(state.last_seek(), 500);
    state.apply_seek(600, true);
    assert_eq!(state.curr_pos(), 600);
    assert_eq!(state.last_seek(), 500);
    let mut buf = [7u8; 4];
    assert_eq!(state.read_prefetched(&mut buf), 0);
    assert_eq!(buf, [7; 4]);
    state.advance(4);
    assert_eq!(state.curr_pos(), 604);
}

#[test]
fn prefetch_amounts() {
    let mut prefetch = Prefetch::new(100);
    assert!(prefetch.should_run(10));
    assert!(!prefetch.should_run(100));
    assert_eq!(prefetch.bytes_to_prefetch(10, 0, None), 90);
    assert_eq!(prefetch.bytes_to_prefetch(10, 950, Some(1000)), 50);
    prefetch.deactivate();
    assert!(!prefetch.should_run(10));
    prefetch.reset();
    assert!(!prefetch.should_run(0));

    let mut prefetching = Prefetching { pos: 10, still_needed: 30 };
    prefetching.account_for_bytes_read(20);
    assert_eq!(prefetching.still_needed, 10);
    assert_eq!(prefetching.finish(10), 10..30);
}

#[test]
fn target_picks_next_range() {
    let mut target = StreamTarget::new(0, 1000);
    let mut ranges = RangeSet::new();
    assert_eq!(target.next_range(None, &ranges), Some(0..1000));
    assert_eq!(target.next_range(Some(5000), &ranges), Some(0..1000));
    ranges.insert(0..1500);
    target.set_pos(1200);
    assert_eq!(target.next_range(Some(5000), &ranges), Some(1500..2500));
    ranges.insert(1500..5000);
    assert_eq!(target.next_range(Some(5000), &ranges), None);
    ranges.remove(100..200);
    assert_eq!(target.next_range(Some(5000), &ranges), Some(100..200));
    target.advance(300);
    assert_eq!(target.pos(), 1500);
    assert_eq!(target.chunk_size(), 1000);
}

#[test]
fn byte_string_helpers() {
    assert_eq!(find_first(b"a-b-c", b'-'), Some(1));
    assert_eq!(find_last(b"a-b-c", b'-'), Some(3));
    assert_eq!(find_last(b"abc", b'-'), None);
    assert_eq!(split_once(b"a-b-c", b'-'), Some((&b"a"[..], &b"b-c"[..])));
    assert_eq!(rsplit_once(b"a-b-c", b'-'), Some((&b"a-b"[..], &b"c"[..])));
    assert!(starts_with(b"bytes 1-2", b"bytes"));
    assert!(!starts_with(b"byt", b"bytes"));
    assert_eq!(strip_prefix(b"bytes=1-2", b"bytes="), Some(&b"1-2"[..]));
}

#[test]
fn leftover_bytes_keep_order() {
    let mut leftover = Leftover::new();
    assert!(leftover.is_empty());
    let now = leftover.split_frame(&[1, 2, 3, 4, 5], 2);
    assert_eq!(now, vec![1, 2]);
    let now = leftover.split_frame(&[6, 7], 0);
    assert!(now.is_empty());
    assert_eq!(leftover.to_write(4), vec![3, 4, 5, 6]);
    leftover.written(2);
    assert_eq!(leftover.to_write(10), vec![5, 6, 7]);
    leftover.written(3);
    assert!(leftover.is_empty());
}

#[test]
fn prefetched_bytes_are_served() {
    let mut prefetch = Prefetch::new(8);
    prefetch.store_prefetched(100, &[10, 11, 12, 13]);
    let mut buf = [0u8; 3];
    assert_eq!(prefetch.read_from_prefetched(&mut buf, 101), 3);
    assert_eq!(buf, [11, 12, 13]);
    let mut buf = [0u8; 3];
    assert_eq!(prefetch.read_from_prefetched(&mut buf, 104), 0);
    assert_eq!(prefetch.read_from_prefetched(&mut buf, 99), 0);
}

#[test]
fn prefetch_runs_once_after_short_read() {
    let mut state = ReaderState::new(100);
    assert_eq!(state.prefetch_amount(), 100);
    assert_eq!(state.start_prefetch(10, Some(50)), Some(50));
    assert_eq!(state.start_prefetch(10, Some(50)), None);
    state.finish_prefetch(&[1, 2, 3]);
    let mut buf = [0u8; 2];
    assert_eq!(state.read_prefetched(&mut buf), 2);
    assert_eq!(buf, [1, 2]);
    assert_eq!(state.curr_pos(), 2);

    let mut state = ReaderState::new(100);
    assert_eq!(state.start_prefetch(100, None), None);
    assert_eq!(state.start_prefetch(30, None), Some(70));
}

fn number_at(data: &[u8], pos: u64) -> u32 {
    let p = pos as usize;
    u32::from_ne_bytes([data[p], data[p + 1], data[p + 2], data[p + 3]])
}

#[test]
fn simple_seek_from_all_sides_works() {
    let test_file_size = 10_000u32;
    let data = test_data(test_file_size);
    assert_eq!(number_at(&data, 0), 0);

    let pos = seek_position(SeekFrom::Start(40), 4, None).unwrap();
    assert_eq!(pos, 40);
    assert_eq!(number_at(&data, pos), 40);

    // reading 4 bytes moved the position on by 4
    let pos = seek_position(SeekFrom::Current(36), pos + 4, None).unwrap();
    assert_eq!(pos, 80);
    assert_eq!(number_at(&data, pos), 80);

    let pos = seek_position(SeekFrom::End(40), pos + 4, Some(test_file_size as u64)).unwrap();
    assert_eq!(pos, test_file_size as u64 - 40);
    assert_eq!(number_at(&data, pos), test_file_size - 40);
}

#[test]
fn seek_back_from_current() {
    assert_eq!(seek_position(SeekFrom::Current(-10), 100, None).unwrap(), 90);
    assert_eq!(seek_position(SeekFrom::Current(-100), 100, None).unwrap(), 0);
}

#[test]
fn server_sends_what_the_script_leaves() {
    assert_eq!(range_to_send(None, 8, 20), 8..20);
    assert_eq!(range_to_send(Some(Action::Pause), 8, 20), 8..20);
    assert_eq!(range_to_send(Some(Action::Cut { at: 12 }), 8, 20), 8..12);
    let data = test_data(40);
    assert_eq!(bytes_to_send(&data, 8..12), data[8..12].to_vec());
    assert_eq!(bytes_to_send(&data, 5..5), Vec::<u8>::new());
}
