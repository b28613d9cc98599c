//! The logic of the test servers: the data they serve, how they read a
//! range request, which scripted action a request triggers, and how they
//! describe the range they send.
use std::ops::Range;

use vstd::prelude::*;

use crate::http_client::headers::{header_text, range_content_length_spec, range_spec, bytes_unit};
use crate::http_client::request::{bytes_eq, range_request_spec};
use crate::text::{
    dec_string, is_digit, lemma_dec_string_digits, lemma_parse_dec_string, lemma_rsplit_at_last,
    lemma_split_at_first, parse_u64, parse_u64_spec, push_decimal, split_once, split_once_spec,
    strip_prefix, strip_prefix_spec,
};

verus! {

/// The little-endian bytes of `n`.
pub open spec fn le_bytes(n: u32) -> Seq<u8> {
    seq![
        (n % 256) as u8,
        ((n / 256) % 256) as u8,
        ((n / 65536) % 256) as u8,
        ((n / 16777216) % 256) as u8,
    ]
}

/// `u32::to_ne_bytes`: the bytes of `n` in the byte order of the machine,
/// little- or big-endian.
#[verifier::external_body]
fn u32_to_ne_bytes(n: u32) -> (b: [u8; 4])
    ensures
        b@ == le_bytes(n) || b@ == le_bytes(n).reverse(),
{
    n.to_ne_bytes()
}

/// The bytes of `n` little endian when `little`, else big endian.
pub open spec fn ordered_bytes(n: u32, little: bool) -> Seq<u8> {
    if little {
        le_bytes(n)
    } else {
        le_bytes(n).reverse()
    }
}

/// The first `count` four-byte chunks of `data` hold `0, 4, 8, ...`, all in
/// the byte order `little` picks.
pub open spec fn numbers_in_order(data: Seq<u8>, count: int, little: bool) -> bool {
    forall|k: int|
        0 <= k < count ==> #[trigger] data.subrange(4 * k, 4 * k + 4) == ordered_bytes(
            (4 * k) as u32,
            little,
        )
}

/// Whether the machine stores numbers little endian: the order in which
/// `u32::to_ne_bytes` gives the bytes of 1.
fn machine_is_little_endian() -> bool {
    let one = u32_to_ne_bytes(1);
    one[0] == 1u8
}

/// The bytes of `n` in the order `little` picks.
fn push_ordered(data: &mut Vec<u8>, n: u32, little: bool)
    ensures
        final(data)@ == old(data)@ + ordered_bytes(n, little),
{
    let b0 = (n % 256) as u8;
    let b1 = ((n / 256) % 256) as u8;
    let b2 = ((n / 65536) % 256) as u8;
    let b3 = ((n / 16777216) % 256) as u8;
    if little {
        data.push(b0);
        data.push(b1);
        data.push(b2);
        data.push(b3);
    } else {
        data.push(b3);
        data.push(b2);
        data.push(b1);
        data.push(b0);
    }
    assert(data@ =~= old(data)@ + ordered_bytes(n, little));
}

/// The test data: the numbers `0, 4, 8, ...` below `bytes`, each as its four
/// bytes in the one byte order of the machine, so a number read at a
/// position tells the position.
pub fn test_data(bytes: u32) -> (data: Vec<u8>)
    ensures
        data@.len() == 4 * ((bytes as int + 3) / 4),
        exists|little: bool| #[trigger] numbers_in_order(data@, (bytes as int + 3) / 4, little),
{
    let little = machine_is_little_endian();
    let mut data: Vec<u8> = Vec::new();
    let mut n: u32 = 0;
    let mut k: usize = 0;
    while n < bytes
        invariant
            n as int == 4 * k,
            n <= bytes || k == (bytes as int + 3) / 4,
            k <= (bytes as int + 3) / 4,
            n < bytes ==> k < (bytes as int + 3) / 4,
            data@.len() == 4 * k,
            forall|j: int|
                0 <= j < k ==> #[trigger] data@.subrange(4 * j, 4 * j + 4) == ordered_bytes(
                    (4 * j) as u32,
                    little,
                ),
        decreases (bytes as int + 3) / 4 - k,
    {
        let ghost before = data@;
        push_ordered(&mut data, n, little);
        assert(data@.subrange(4 * k, 4 * k + 4) =~= ordered_bytes(n, little));
        assert forall|j: int| 0 <= j < k + 1 implies #[trigger] data@.subrange(4 * j, 4 * j + 4)
            == ordered_bytes((4 * j) as u32, little) by {
            if j < k {
                assert(data@.subrange(4 * j, 4 * j + 4) =~= before.subrange(4 * j, 4 * j + 4));
            }
        }
        k += 1;
        if n > u32::MAX - 4 {
            assert(k == (bytes as int + 3) / 4);
            assert(numbers_in_order(data@, (bytes as int + 3) / 4, little));
            return data;
        }
        n = n + 4;
    }
    assert(numbers_in_order(data@, (bytes as int + 3) / 4, little));
    data
}

#[derive(Debug, Clone, Copy, PartialEq, Eq, Structural)]
pub enum Event {
    Any,
    ByteRequested(u64),
}

#[derive(Debug, Clone, Copy, PartialEq, Eq, Structural)]
pub enum Action {
    Cut { at: u64 },
    Crash,
    Pause,
}

pub open spec fn event_active(e: Event, range: Range<u64>) -> bool {
    match e {
        Event::ByteRequested(n) => range.start <= n < range.end,
        Event::Any => true,
    }
}

impl Event {
    /// Whether a request for `range` triggers this event.
    pub fn active(&self, range: &Range<u64>) -> (r: bool)
        ensures
            r == event_active(*self, *range),
    {
        match self {
            Event::ByteRequested(n) => range.start <= *n && *n < range.end,
            Event::Any => true,
        }
    }
}

/// The action of the first scripted event that a request for `range`
/// triggers, if any.
pub fn triggered_action(on_event: &Vec<(Event, Action)>, range: &Range<u64>) -> (r: Option<Action>)
    ensures
        match r {
            Some(a) => exists|i: int|
                0 <= i < on_event@.len() && #[trigger] on_event@[i].1 == a && event_active(
                    on_event@[i].0,
                    *range,
                ) && forall|j: int| 0 <= j < i ==> !event_active(#[trigger] on_event@[j].0, *range),
            None => forall|j: int|
                0 <= j < on_event@.len() ==> !event_active(#[trigger] on_event@[j].0, *range),
        },
{
    let mut i: usize = 0;
    while i < on_event.len()
        invariant
            i <= on_event@.len(),
            forall|j: int| 0 <= j < i ==> !event_active(#[trigger] on_event@[j].0, *range),
        decreases on_event.len() - i,
    {
        if on_event[i].0.active(range) {
            return Some(on_event[i].1);
        }
        i += 1;
    }
    None
}

/// The script without its plain pauses, order kept (unpausing removes any
/// future pauses).
pub open spec fn without_pauses(s: Seq<(Event, Action)>) -> Seq<(Event, Action)> {
    s.filter(|ea: (Event, Action)| ea.1 != Action::Pause)
}

/// The part of the requested `start..stop` a server sends after `action`:
/// all of it, or up to `at` when the action cuts the response short.
pub fn range_to_send(action: Option<Action>, start: u64, stop: u64) -> (r: Range<u64>)
    ensures
        r.start == start,
        r.end == match action {
            Some(Action::Cut { at }) => at,
            _ => stop,
        },
{
    match action {
        Some(Action::Cut { at }) => Range { start, end: at },
        _ => Range { start, end: stop },
    }
}

/// The bytes of `data` at the positions of `range`.
pub fn bytes_to_send(data: &Vec<u8>, range: Range<u64>) -> (r: Vec<u8>)
    requires
        range.start <= range.end <= data@.len(),
    ensures
        r@ == data@.subrange(range.start as int, range.end as int),
{
    let mut r: Vec<u8> = Vec::new();
    let len: usize = data.len();
    assert(range.end <= len);
    let mut i: usize = range.start as usize;
    let end: usize = range.end as usize;
    while i < end
        invariant
            range.start <= i <= end,
            end == range.end,
            end <= data@.len(),
            r@ == data@.subrange(range.start as int, i as int),
        decreases end - i,
    {
        r.push(data[i]);
        i += 1;
        assert(r@ =~= data@.subrange(range.start as int, i as int));
    }
    r
}

/// Removes every scripted pause.
pub fn remove_pauses(on_event: &mut Vec<(Event, Action)>)
    ensures
        final(on_event)@ == without_pauses(old(on_event)@),
{
    let ghost orig = on_event@;
    let mut kept: Vec<(Event, Action)> = Vec::new();
    let mut i: usize = 0;
    while i < on_event.len()
        invariant
            i <= on_event@.len(),
            on_event@ == orig,
            kept@ == without_pauses(orig.take(i as int)),
        decreases on_event.len() - i,
    {
        let ea = on_event[i];
        proof {
            assert(orig.take(i + 1).drop_last() =~= orig.take(i as int));
            reveal_with_fuel(Seq::filter, 1);
        }
        if ea.1 != Action::Pause {
            kept.push(ea);
        }
        i += 1;
    }
    assert(orig.take(i as int) =~= orig);
    *on_event = kept;
}

/// How the test server reads a `Range` request header: `bytes=<start>-<stop>`.
pub open spec fn parse_range_request_spec(v: Seq<u8>) -> Option<(u64, u64)> {
    match strip_prefix_spec(v, bytes_eq()) {
        None => None,
        Some(rest) => match split_once_spec(rest, 45u8) {
            None => None,
            Some((start, stop)) => match (parse_u64_spec(start), parse_u64_spec(stop)) {
                (Ok(start), Ok(stop)) => Some((start, stop)),
                _ => None,
            },
        },
    }
}

/// Reads a `Range` request header; `None` where the server would give up.
pub fn parse_range_request(v: &[u8]) -> (r: Option<(u64, u64)>)
    ensures
        r == parse_range_request_spec(v@),
{
    let prefix: [u8; 6] = [98u8, 121u8, 116u8, 101u8, 115u8, 61u8];
    assert(prefix@ =~= bytes_eq());
    let rest = match strip_prefix(v, &prefix) {
        None => return None,
        Some(rest) => rest,
    };
    let (start, stop) = match split_once(rest, 45u8) {
        None => return None,
        Some(parts) => parts,
    };
    match (parse_u64(start), parse_u64(stop)) {
        (Ok(start), Ok(stop)) => Some((start, stop)),
        _ => None,
    }
}

/// The `Content-Range` the test server answers with:
/// `bytes <start>-<stop>/<total>`.
pub open spec fn content_range_spec(start: u64, stop: u64, total: u64) -> Seq<u8> {
    bytes_unit() + dec_string(start as nat) + seq![45u8] + dec_string(stop as nat) + seq![47u8]
        + dec_string(total as nat)
}

pub fn content_range_value(start: u64, stop: u64, total: u64) -> (v: Vec<u8>)
    ensures
        v@ == content_range_spec(start, stop, total),
{
    let mut v: Vec<u8> = Vec::new();
    v.push(98u8);
    v.push(121u8);
    v.push(116u8);
    v.push(101u8);
    v.push(115u8);
    v.push(32u8);
    assert(v@ =~= bytes_unit());
    push_decimal(start, &mut v);
    v.push(45u8);
    push_decimal(stop, &mut v);
    v.push(47u8);
    push_decimal(total, &mut v);
    v
}

/// The server reads back the range the client asks for: parsing the
/// `Range` header written for `start..end` gives `(start, end)`.
pub proof fn lemma_range_request_roundtrip(start: u64, end: u64)
    ensures
        parse_range_request_spec(range_request_spec(start, end)) == Some((start, end)),
{
    let ds = dec_string(start as nat);
    let de = dec_string(end as nat);
    let v = range_request_spec(start, end);
    assert(v.take(6) =~= bytes_eq());
    assert(v.skip(6) =~= ds + seq![45u8] + de);
    lemma_dec_string_digits(start as nat);
    lemma_split_at_first(ds, 45u8, de);
    lemma_parse_dec_string(start);
    lemma_parse_dec_string(end);
}

/// The client reads back the range the test server describes: for
/// `start <= stop`, the `Content-Range` written for `start`, `stop` and
/// `total` reads as the range `start..stop` of a stream of `total` bytes.
pub proof fn lemma_content_range_roundtrip(start: u64, stop: u64, total: u64)
    requires
        start <= stop,
    ensures
        range_spec(Some(content_range_spec(start, stop, total))) == Ok::<
            Option<(u64, u64)>,
            crate::http_client::headers::Error,
        >(Some((start, stop))),
        range_content_length_spec(Some(content_range_spec(start, stop, total))) == Ok::<
            Option<u64>,
            crate::http_client::headers::Error,
        >(Some(total)),
{
    let ds = dec_string(start as nat);
    let dp = dec_string(stop as nat);
    let dt = dec_string(total as nat);
    let v = content_range_spec(start, stop, total);
    lemma_dec_string_digits(start as nat);
    lemma_dec_string_digits(stop as nat);
    lemma_dec_string_digits(total as nat);
    assert(header_text(v)) by {
        assert forall|i: int| 0 <= i < v.len() implies crate::text::is_visible_ascii(#[trigger] v[i]) by {
            if i < 6 {
            } else if i < 6 + ds.len() {
                assert(v[i] == ds[i - 6]);
            } else if i == 6 + ds.len() {
            } else if i < 7 + ds.len() + dp.len() {
                assert(v[i] == dp[i - 7 - ds.len()]);
            } else if i == 7 + ds.len() + dp.len() {
            } else {
                assert(v[i] == dt[i - 8 - ds.len() - dp.len()]);
            }
        }
    }
    let rest = ds + seq![45u8] + dp + seq![47u8] + dt;
    assert(v.take(6) =~= bytes_unit());
    assert(v.skip(6) =~= rest);
    let range_part = ds + seq![45u8] + dp;
    assert(rest =~= range_part + seq![47u8] + dt);
    lemma_rsplit_at_last(range_part, 47u8, dt);
    lemma_split_at_first(ds, 45u8, dp);
    lemma_parse_dec_string(start);
    lemma_parse_dec_string(stop);
    lemma_parse_dec_string(total);
    assert(range_part != seq![42u8]) by {
        assert(range_part[ds.len() as int] == 45u8);
        if range_part == seq![42u8] {
            assert(range_part.len() == 1);
        }
    }
    assert(dt != seq![42u8]) by {
        assert(is_digit(dt[0]));
    }
}

} // verus!
