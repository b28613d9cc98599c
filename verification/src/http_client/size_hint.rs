//! Bounds on the size of the stream as reported by the responses seen.
use vstd::prelude::*;

use crate::http_client::headers::{header_text, opt_bytes, ResponseHead};
use crate::text::{is_header_text, parse_u64, parse_u64_spec, rsplit_once, rsplit_once_spec, starts_with};

verus! {

/// `bytes`
pub open spec fn bytes_word() -> Seq<u8> {
    seq![98u8, 121u8, 116u8, 101u8, 115u8]
}

/// The size a response reports: the `Content-Length` of a 200 response, or
/// the total after the last `/` of a `bytes` `Content-Range` of a 206
/// response; nothing when that is missing or unreadable.
pub open spec fn reported_size(head: ResponseHead) -> Option<u64> {
    if head.status == 200 {
        match opt_bytes(head.content_length) {
            Some(v) => if header_text(v) {
                match parse_u64_spec(v) {
                    Ok(n) => Some(n),
                    Err(_) => None,
                }
            } else {
                None
            },
            None => None,
        }
    } else if head.status == 206 {
        match opt_bytes(head.content_range) {
            Some(v) => if header_text(v) && bytes_word().len() <= v.len() && v.take(
                bytes_word().len() as int,
            ) == bytes_word() {
                match rsplit_once_spec(v, 47u8) {
                    Some((_, total)) => match parse_u64_spec(total) {
                        Ok(n) => Some(n),
                        Err(_) => None,
                    },
                    None => None,
                }
            } else {
                None
            },
            None => None,
        }
    } else {
        None
    }
}

/// The bounds after taking in one more estimate.
pub open spec fn with_estimate(bounds: Option<(u64, u64)>, estimate: u64) -> Option<(u64, u64)> {
    match bounds {
        None => Some((estimate, estimate)),
        Some((lower, higher)) => if estimate < lower {
            Some((estimate, higher))
        } else if estimate > higher {
            Some((lower, estimate))
        } else {
            Some((lower, higher))
        },
    }
}

#[derive(Debug, Default, Clone, Copy)]
pub struct SizeHint {
    estimate_bounds: Option<(u64, u64)>,
}

impl View for SizeHint {
    type V = Option<(u64, u64)>;

    closed spec fn view(&self) -> Option<(u64, u64)> {
        self.estimate_bounds
    }
}

impl SizeHint {
    /// No estimate yet.
    pub fn new() -> (h: SizeHint)
        ensures
            h@ is None,
    {
        SizeHint { estimate_bounds: None }
    }

    pub fn add(&mut self, estimate: u64)
        ensures
            final(self)@ == with_estimate(old(self)@, estimate),
    {
        match self.estimate_bounds {
            Some((lower, higher)) => {
                if estimate < lower {
                    self.estimate_bounds = Some((estimate, higher));
                } else if estimate > higher {
                    self.estimate_bounds = Some((lower, estimate));
                }
            },
            None => self.estimate_bounds = Some((estimate, estimate)),
        }
    }

    /// Takes in the size the response reports, if it reports one.
    pub fn update_from_headers(&mut self, response: &ResponseHead)
        ensures
            final(self)@ == match reported_size(*response) {
                Some(n) => with_estimate(old(self)@, n),
                None => old(self)@,
            },
    {
        if response.status == 200 {
            if let Some(v) = &response.content_length {
                if is_header_text(v.as_slice()) {
                    if let Ok(n) = parse_u64(v.as_slice()) {
                        self.add(n);
                    }
                }
            }
        } else if response.status == 206 {
            if let Some(v) = &response.content_range {
                let word: [u8; 5] = [98u8, 121u8, 116u8, 101u8, 115u8];
                assert(word@ =~= bytes_word());
                if is_header_text(v.as_slice()) && starts_with(v.as_slice(), &word) {
                    assert(v@.take(5) =~= v@.subrange(0, 5));
                    if let Some((_, total)) = rsplit_once(v.as_slice(), 47u8) {
                        if let Ok(n) = parse_u64(total) {
                            self.add(n);
                        }
                    }
                } else {
                    assert(5 <= v@.len() ==> v@.take(5) =~= v@.subrange(0, 5));
                }
            }
        }
    }

    /// Data size could still be more.
    pub fn highest_estimate(&self) -> (r: Option<u64>)
        ensures
            r == match self@ {
                Some((_, higher)) => Some(higher),
                None => None::<u64>,
            },
    {
        match self.estimate_bounds {
            Some((_lower, higher)) => Some(higher),
            None => None,
        }
    }

    /// Data size can still be less.
    pub fn lowest_estimate(&self) -> (r: Option<u64>)
        ensures
            r == match self@ {
                Some((lower, _)) => Some(lower),
                None => None::<u64>,
            },
    {
        match self.estimate_bounds {
            Some((lower, _higher)) => Some(lower),
            None => None,
        }
    }
}

/// Estimates only widen the bounds: with bounds `lower <= higher`, after
/// taking in an estimate the lower bound is the smaller of the two, the
/// higher bound the larger, and the estimate lies between them.
pub proof fn lemma_estimate_within_bounds(bounds: Option<(u64, u64)>, estimate: u64)
    requires
        bounds matches Some((lower, higher)) ==> lower <= higher,
    ensures
        with_estimate(bounds, estimate) matches Some((lower, higher)) && lower <= estimate
            <= higher && lower <= higher,
        bounds matches Some((l0, h0)) ==> with_estimate(bounds, estimate) == Some(
            (if estimate < l0 { estimate } else { l0 }, if estimate > h0 { estimate } else { h0 }),
        ),
{
}

} // verus!
