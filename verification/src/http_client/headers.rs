//! Reading sizes and ranges out of the headers of a response.
use std::ops::Range;

use vstd::prelude::*;

use crate::text::{
    is_header_text, is_star, is_visible_ascii, parse_u64, parse_u64_spec, rsplit_once,
    rsplit_once_spec, split_once, split_once_spec, strip_prefix, strip_prefix_spec, IntErrorKind,
};

verus! {

/// What the client reads of a response: its status code and the raw values
/// of the headers it looks at.
#[derive(Debug, Clone)]
pub struct ResponseHead {
    pub status: u16,
    pub content_length: Option<Vec<u8>>,
    pub content_range: Option<Vec<u8>>,
}

#[derive(Debug, Clone, Copy, PartialEq, Eq, Structural)]
pub enum Error {
    CorruptHeader,
    ContentLengthNotNumber(IntErrorKind),
    MissingContentRange,
    RangeNotBytes,
    InvalidRangeHeader,
    MissingRangeDelimiter,
    RangeStartNotNumber(IntErrorKind),
    RangeStopNotNumber(IntErrorKind),
    RangeStartSmallerThenEnd,
}

pub open spec fn opt_bytes(o: Option<Vec<u8>>) -> Option<Seq<u8>> {
    match o {
        Some(v) => Some(v@),
        None => None,
    }
}

/// A header value that reads as text: visible ASCII and tabs only.
pub open spec fn header_text(v: Seq<u8>) -> bool {
    forall|i: int| 0 <= i < v.len() ==> is_visible_ascii(#[trigger] v[i])
}

/// `bytes `
pub open spec fn bytes_unit() -> Seq<u8> {
    seq![98u8, 121u8, 116u8, 101u8, 115u8, 32u8]
}

pub open spec fn content_length_spec(h: Option<Seq<u8>>) -> Result<Option<u64>, Error> {
    match h {
        None => Ok(None),
        Some(v) => if !header_text(v) {
            Err(Error::CorruptHeader)
        } else {
            match parse_u64_spec(v) {
                Ok(n) => Ok(Some(n)),
                Err(e) => Err(Error::ContentLengthNotNumber(e)),
            }
        },
    }
}

/// A `Content-Range` value `bytes <range>/<total>` split into its range and
/// total parts (at the last `/`).
pub open spec fn range_and_total_spec(h: Option<Seq<u8>>) -> Result<(Seq<u8>, Seq<u8>), Error> {
    match h {
        None => Err(Error::MissingContentRange),
        Some(v) => if !header_text(v) {
            Err(Error::CorruptHeader)
        } else {
            match strip_prefix_spec(v, bytes_unit()) {
                None => Err(Error::RangeNotBytes),
                Some(rest) => match rsplit_once_spec(rest, 47u8) {
                    None => Err(Error::InvalidRangeHeader),
                    Some(parts) => Ok(parts),
                },
            }
        },
    }
}

pub open spec fn range_content_length_spec(h: Option<Seq<u8>>) -> Result<Option<u64>, Error> {
    match range_and_total_spec(h) {
        Err(e) => Err(e),
        Ok((_, total)) => if total == seq![42u8] {
            Ok(None)
        } else {
            match parse_u64_spec(total) {
                Ok(n) => Ok(Some(n)),
                Err(e) => Err(Error::ContentLengthNotNumber(e)),
            }
        },
    }
}

/// The range part `<start>-<stop>` of a `Content-Range` value; `*` means no
/// range. An unreadable start or stop is reported as `RangeStartNotNumber`.
pub open spec fn range_spec(h: Option<Seq<u8>>) -> Result<Option<(u64, u64)>, Error> {
    match range_and_total_spec(h) {
        Err(e) => Err(e),
        Ok((range, _)) => if range == seq![42u8] {
            Ok(None)
        } else {
            match split_once_spec(range, 45u8) {
                None => Err(Error::MissingRangeDelimiter),
                Some((start, stop)) => match parse_u64_spec(start) {
                    Err(e) => Err(Error::RangeStartNotNumber(e)),
                    Ok(start) => match parse_u64_spec(stop) {
                        Err(e) => Err(Error::RangeStartNotNumber(e)),
                        Ok(stop) => if stop < start {
                            Err(Error::RangeStartSmallerThenEnd)
                        } else {
                            Ok(Some((start, stop)))
                        },
                    },
                },
            }
        },
    }
}

fn header_as_text(v: &[u8]) -> (r: Result<&[u8], Error>)
    ensures
        match r {
            Ok(t) => header_text(v@) && t@ == v@,
            Err(e) => !header_text(v@) && e == Error::CorruptHeader,
        },
{
    if is_header_text(v) {
        Ok(v)
    } else {
        Err(Error::CorruptHeader)
    }
}

/// The `Content-Length` of a response, if it has one.
pub fn content_length(response: &ResponseHead) -> (r: Result<Option<u64>, Error>)
    ensures
        r == content_length_spec(opt_bytes(response.content_length)),
{
    match &response.content_length {
        None => Ok(None),
        Some(v) => {
            let text = header_as_text(v.as_slice())?;
            match parse_u64(text) {
                Ok(n) => Ok(Some(n)),
                Err(e) => Err(Error::ContentLengthNotNumber(e)),
            }
        },
    }
}

fn range_and_total(response: &ResponseHead) -> (r: Result<(&[u8], &[u8]), Error>)
    ensures
        match (r, range_and_total_spec(opt_bytes(response.content_range))) {
            (Ok((a, b)), Ok((sa, sb))) => a@ == sa && b@ == sb,
            (Err(e), Err(se)) => e == se,
            _ => false,
        },
{
    let v = match &response.content_range {
        None => return Err(Error::MissingContentRange),
        Some(v) => v,
    };
    let text = header_as_text(v.as_slice())?;
    let unit: [u8; 6] = [98u8, 121u8, 116u8, 101u8, 115u8, 32u8];
    assert(unit@ =~= bytes_unit());
    let rest = match strip_prefix(text, &unit) {
        None => return Err(Error::RangeNotBytes),
        Some(rest) => rest,
    };
    match rsplit_once(rest, 47u8) {
        None => Err(Error::InvalidRangeHeader),
        Some(parts) => Ok(parts),
    }
}

/// The total size a `Content-Range` reports; `*` means unknown.
pub fn range_content_length(response: &ResponseHead) -> (r: Result<Option<u64>, Error>)
    ensures
        r == range_content_length_spec(opt_bytes(response.content_range)),
{
    let content_length = range_and_total(response)?.1;
    if is_star(content_length) {
        Ok(None)
    } else {
        match parse_u64(content_length) {
            Ok(n) => Ok(Some(n)),
            Err(e) => Err(Error::ContentLengthNotNumber(e)),
        }
    }
}

/// The range a `Content-Range` reports; `*` means none.
pub fn range(response: &ResponseHead) -> (r: Result<Option<Range<u64>>, Error>)
    ensures
        match (r, range_spec(opt_bytes(response.content_range))) {
            (Ok(Some(got)), Ok(Some((start, stop)))) => got.start == start && got.end == stop,
            (Ok(None), Ok(None)) => true,
            (Err(e), Err(se)) => e == se,
            _ => false,
        },
{
    let range = range_and_total(response)?.0;
    if is_star(range) {
        return Ok(None);
    }
    let (start, stop) = match split_once(range, 45u8) {
        None => return Err(Error::MissingRangeDelimiter),
        Some(parts) => parts,
    };
    let start = match parse_u64(start) {
        Ok(n) => n,
        Err(e) => return Err(Error::RangeStartNotNumber(e)),
    };
    let stop = match parse_u64(stop) {
        Ok(n) => n,
        Err(e) => return Err(Error::RangeStartNotNumber(e)),
    };
    if stop < start {
        Err(Error::RangeStartSmallerThenEnd)
    } else {
        Ok(Some(Range { start, end: stop }))
    }
}

} // verus!
