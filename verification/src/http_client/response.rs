//! Sorting a response into the kinds the client can work with.
use std::ops::Range;

use vstd::prelude::*;

use crate::http_client::headers::{
    self, bytes_unit, content_length, content_length_spec, header_text, opt_bytes, range,
    range_content_length, range_content_length_spec, range_spec, ResponseHead,
};
use crate::text::{
    dec_string, is_digit, is_visible_ascii, lemma_dec_string_digits, lemma_parse_dec_string,
    lemma_rsplit_at_last, lemma_split_at_first,
};

verus! {

/// A response the client can work with. Its body stays with the
/// connection; this holds what the head says about it.
#[derive(Debug)]
pub enum ValidResponse {
    FullContent {
        /// servers are allowed to leave out Content-Length, a livestream
        /// could leave it out for example
        size: Option<u64>,
    },
    PartialContent { size: Option<u64>, range: Range<u64> },
    RangeNotSatisfiable { size: Option<u64> },
}

#[derive(Debug, Clone, Copy, PartialEq, Eq, Structural)]
pub enum Error {
    InvalidPartialContentHeader(headers::Error),
    InvalidRangeNotSatHeader(headers::Error),
    InvalidOkHeader(headers::Error),
    IncorrectStatus(u16),
    /// The http spec does not allow range: * (indicating unsatisfied) with a
    /// PARTIAL_CONTENT status
    UnsatisfiedRangeInPartialContent,
}

pub const OK: u16 = 200;

pub const PARTIAL_CONTENT: u16 = 206;

pub const RANGE_NOT_SATISFIABLE: u16 = 416;

/// How a response head is classified.
pub open spec fn valid_response_spec(head: ResponseHead) -> Result<ValidResponse, Error> {
    if head.status == 200 {
        match content_length_spec(opt_bytes(head.content_length)) {
            Ok(size) => Ok(ValidResponse::FullContent { size }),
            Err(e) => Err(Error::InvalidOkHeader(e)),
        }
    } else if head.status == 206 {
        match range_content_length_spec(opt_bytes(head.content_range)) {
            Err(e) => Err(Error::InvalidPartialContentHeader(e)),
            Ok(size) => match range_spec(opt_bytes(head.content_range)) {
                Err(e) => Err(Error::InvalidPartialContentHeader(e)),
                Ok(None) => Err(Error::UnsatisfiedRangeInPartialContent),
                Ok(Some((start, end))) => Ok(
                    ValidResponse::PartialContent { size, range: Range { start, end } },
                ),
            },
        }
    } else if head.status == 416 {
        match range_content_length_spec(opt_bytes(head.content_range)) {
            Ok(size) => Ok(ValidResponse::RangeNotSatisfiable { size }),
            Err(e) => Err(Error::InvalidRangeNotSatHeader(e)),
        }
    } else {
        Err(Error::IncorrectStatus(head.status))
    }
}

/// A range response is taken as soon as its `Content-Range` header reads:
/// it is partial content with the range the header gives, and with the
/// total size the header gives, `None` when the total is `*` (the size of a
/// live stream is not known). Anything else in the header is an error.
pub proof fn lemma_partial_content_taken(head: ResponseHead)
    requires
        head.status == 206,
    ensures
        match (
            range_content_length_spec(opt_bytes(head.content_range)),
            range_spec(opt_bytes(head.content_range)),
        ) {
            (Ok(size), Ok(Some((start, end)))) => valid_response_spec(head) matches Ok(
                ValidResponse::PartialContent { size: s, range: rg },
            ) && s == size && rg.start == start && rg.end == end,
            _ => valid_response_spec(head) is Err,
        },
{
}

/// A response is sorted by its status alone: 200 is the whole stream, of
/// the size its `Content-Length` gives (none without one); 416 is an
/// unsatisfiable range, with the total its `Content-Range` gives; any other
/// status but 206 is refused as incorrect, naming that status.
pub proof fn lemma_classified_by_status(head: ResponseHead)
    ensures
        head.status == 200 ==> match content_length_spec(opt_bytes(head.content_length)) {
            Ok(size) => valid_response_spec(head) matches Ok(ValidResponse::FullContent { size: s })
                && s == size,
            Err(e) => valid_response_spec(head) == Err::<ValidResponse, Error>(Error::InvalidOkHeader(e)),
        },
        head.status == 416 ==> match range_content_length_spec(opt_bytes(head.content_range)) {
            Ok(size) => valid_response_spec(head) matches Ok(ValidResponse::RangeNotSatisfiable { size: s })
                && s == size,
            Err(e) => valid_response_spec(head) == Err::<ValidResponse, Error>(
                Error::InvalidRangeNotSatHeader(e),
            ),
        },
        head.status != 200 && head.status != 206 && head.status != 416 ==> valid_response_spec(head)
            == Err::<ValidResponse, Error>(Error::IncorrectStatus(head.status)),
        // only a 200 response is taken as the whole stream, only a 206 one
        // as part of it
        valid_response_spec(head) matches Ok(ValidResponse::FullContent { .. }) ==> head.status == 200,
        valid_response_spec(head) matches Ok(ValidResponse::PartialContent { .. }) ==> head.status == 206,
        valid_response_spec(head) matches Ok(ValidResponse::RangeNotSatisfiable { .. }) ==> head.status
            == 416,
{
}

/// `UnsatisfiedRangeInPartialContent` answers a range response whose range
/// is `*`, and nothing else: an unknown total size is no reason for it.
pub proof fn lemma_unsatisfied_only_for_star(head: ResponseHead)
    ensures
        valid_response_spec(head) matches Err(Error::UnsatisfiedRangeInPartialContent) ==> head.status
            == 206 && range_spec(opt_bytes(head.content_range)) == Ok::<Option<(u64, u64)>, headers::Error>(
            None,
        ),
        head.status == 206 && range_content_length_spec(opt_bytes(head.content_range)) is Ok
            && range_spec(opt_bytes(head.content_range)) == Ok::<Option<(u64, u64)>, headers::Error>(None)
            ==> valid_response_spec(head) matches Err(Error::UnsatisfiedRangeInPartialContent),
{
}

/// The `Content-Range` value `bytes <start>-<end>/<total>`, with `*` for a
/// total that is not known.
pub open spec fn content_range_text(start: u64, end: u64, total: Option<u64>) -> Seq<u8> {
    bytes_unit() + dec_string(start as nat) + seq![45u8] + dec_string(end as nat) + seq![47u8]
        + match total {
        Some(t) => dec_string(t as nat),
        None => seq![42u8],
    }
}

/// A range response whose `Content-Range` reads `bytes <start>-<end>/<total>`
/// is partial content of the range `start..end` of a stream of `total`
/// bytes, and one whose total is `*` (a live stream) is partial content of
/// that range of a stream of unknown size: never an error.
pub proof fn lemma_partial_content_of_content_range(head: ResponseHead, start: u64, end: u64, total: Option<u64>)
    requires
        head.status == 206,
        start <= end,
        opt_bytes(head.content_range) == Some(content_range_text(start, end, total)),
    ensures
        valid_response_spec(head) matches Ok(ValidResponse::PartialContent { size, range: rg })
            && size == total && rg.start == start && rg.end == end,
{
    lemma_content_range_text_reads(start, end, total);
    lemma_partial_content_taken(head);
}

/// `bytes <start>-<end>/<total>` reads as the range `start..end` and the
/// total `total` (`None` for `*`).
#[verifier::rlimit(30)]
proof fn lemma_content_range_text_reads(start: u64, end: u64, total: Option<u64>)
    requires
        start <= end,
    ensures
        range_content_length_spec(Some(content_range_text(start, end, total)))
            == Ok::<Option<u64>, headers::Error>(total),
        range_spec(Some(content_range_text(start, end, total)))
            == Ok::<Option<(u64, u64)>, headers::Error>(Some((start, end))),
{
    let ds = dec_string(start as nat);
    let dp = dec_string(end as nat);
    let dt = match total {
        Some(t) => dec_string(t as nat),
        None => seq![42u8],
    };
    let v = content_range_text(start, end, total);
    lemma_dec_string_digits(start as nat);
    lemma_dec_string_digits(end as nat);
    if let Some(t) = total {
        lemma_dec_string_digits(t as nat);
        lemma_parse_dec_string(t);
        assert(dt != seq![42u8]) by {
            assert(is_digit(dt[0]));
        }
    }
    assert(dt.len() >= 1);
    assert forall|i: int| 0 <= i < dt.len() implies #[trigger] dt[i] != 47u8 && is_visible_ascii(dt[i]) by {
        if let Some(t) = total {
            assert(is_digit(dec_string(t as nat)[i]));
        }
    }
    assert(header_text(v)) by {
        assert forall|i: int| 0 <= i < v.len() implies is_visible_ascii(#[trigger] v[i]) by {
            if i < 6 {
            } else if i < 6 + ds.len() {
                assert(v[i] == ds[i - 6]);
            } else if i == 6 + ds.len() {
            } else if i < 7 + ds.len() + dp.len() {
                assert(v[i] == dp[i - 7 - ds.len()]);
            } else if i == 7 + ds.len() + dp.len() {
            } else {
                assert(v[i] == dt[i - 8 - ds.len() - dp.len()]);
            }
        }
    }
    let rest = ds + seq![45u8] + dp + seq![47u8] + dt;
    assert(v.take(6) =~= bytes_unit());
    assert(v.skip(6) =~= rest);
    let range_part = ds + seq![45u8] + dp;
    assert(rest =~= range_part + seq![47u8] + dt);
    lemma_rsplit_at_last(range_part, 47u8, dt);
    assert forall|i: int| 0 <= i < ds.len() implies ds[i] != 45u8 by {
        assert(is_digit(ds[i]));
    }
    lemma_split_at_first(ds, 45u8, dp);
    lemma_parse_dec_string(start);
    lemma_parse_dec_string(end);
    assert(range_part != seq![42u8]) by {
        assert(range_part[ds.len() as int] == 45u8);
        if range_part == seq![42u8] {
            assert(range_part.len() == 1);
        }
    }
}

impl ValidResponse {
    pub open spec fn stream_size_spec(&self) -> Option<u64> {
        match *self {
            ValidResponse::FullContent { size } => size,
            ValidResponse::PartialContent { size, .. } => size,
            ValidResponse::RangeNotSatisfiable { size } => size,
        }
    }

    /// Classifies a response by its status; the headers each kind needs
    /// must be readable.
    pub fn try_from(response: &ResponseHead) -> (r: Result<ValidResponse, Error>)
        ensures
            r == valid_response_spec(*response),
            // a range response with a readable range is taken, whether or
            // not the total size is known (a live stream leaves it out)
            response.status == 206 ==> match (
                range_content_length_spec(opt_bytes(response.content_range)),
                range_spec(opt_bytes(response.content_range)),
            ) {
                (Ok(size), Ok(Some((start, end)))) => r matches Ok(
                    ValidResponse::PartialContent { size: s, range: rg },
                ) && s == size && rg.start == start && rg.end == end,
                _ => r is Err,
            },
            response.status != 200 && response.status != 206 && response.status != 416 ==> r
                == Err::<ValidResponse, Error>(Error::IncorrectStatus(response.status)),
            response.status == 200 ==> match content_length_spec(opt_bytes(response.content_length)) {
                Ok(size) => r matches Ok(ValidResponse::FullContent { size: s }) && s == size,
                Err(_) => r is Err,
            },
            // only a range of `*` is an unsatisfied range
            r matches Err(Error::UnsatisfiedRangeInPartialContent) ==> response.status == 206
                && range_spec(opt_bytes(response.content_range)) == Ok::<Option<(u64, u64)>, headers::Error>(None),
    {
        proof {
            if response.status == 206 {
                lemma_partial_content_taken(*response);
            }
            lemma_unsatisfied_only_for_star(*response);
            lemma_classified_by_status(*response);
        }
        match response.status {
            OK => Self::check_ok(response),
            PARTIAL_CONTENT => Self::check_partial_content(response),
            RANGE_NOT_SATISFIABLE => Self::check_range_not_sat(response),
            code => Err(Error::IncorrectStatus(code)),
        }
    }

    pub fn stream_size(&self) -> (r: Option<u64>)
        ensures
            r == self.stream_size_spec(),
    {
        match self {
            ValidResponse::FullContent { size } => *size,
            ValidResponse::PartialContent { size, .. } => *size,
            ValidResponse::RangeNotSatisfiable { size } => *size,
        }
    }

    fn check_ok(response: &ResponseHead) -> (r: Result<ValidResponse, Error>)
        requires
            response.status == 200,
        ensures
            r == valid_response_spec(*response),
    {
        match content_length(response) {
            Ok(size) => Ok(ValidResponse::FullContent { size }),
            Err(e) => Err(Error::InvalidOkHeader(e)),
        }
    }

    fn check_partial_content(response: &ResponseHead) -> (r: Result<ValidResponse, Error>)
        requires
            response.status == 206,
        ensures
            r == valid_response_spec(*response),
    {
        let size = match range_content_length(response) {
            Ok(size) => size,
            Err(e) => return Err(Error::InvalidPartialContentHeader(e)),
        };
        match range(response) {
            Err(e) => Err(Error::InvalidPartialContentHeader(e)),
            Ok(None) => Err(Error::UnsatisfiedRangeInPartialContent),
            Ok(Some(range)) => Ok(ValidResponse::PartialContent { size, range }),
        }
    }

    fn check_range_not_sat(response: &ResponseHead) -> (r: Result<ValidResponse, Error>)
        requires
            response.status == 416,
        ensures
            r == valid_response_spec(*response),
    {
        match range_content_length(response) {
            Ok(size) => Ok(ValidResponse::RangeNotSatisfiable { size }),
            Err(e) => Err(Error::InvalidRangeNotSatHeader(e)),
        }
    }
}

} // verus!
