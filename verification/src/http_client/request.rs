//! The `Range` header of the requests the client sends.
use std::ops::Range;

use vstd::prelude::*;

use crate::http_client::cookies::Cookies;
use crate::text::{dec_string, push_decimal};

verus! {

/// `bytes=`
pub open spec fn bytes_eq() -> Seq<u8> {
    seq![98u8, 121u8, 116u8, 101u8, 115u8, 61u8]
}

/// The `Range` request header value `bytes=<start>-<end>`.
pub open spec fn range_request_spec(start: u64, end: u64) -> Seq<u8> {
    bytes_eq() + dec_string(start as nat) + seq![45u8] + dec_string(end as nat)
}

/// The `Range` header value asking for `range`.
pub fn range_request_value(range: &Range<u64>) -> (v: Vec<u8>)
    ensures
        v@ == range_request_spec(range.start, range.end),
{
    let mut v: Vec<u8> = Vec::new();
    v.push(98u8);
    v.push(121u8);
    v.push(116u8);
    v.push(101u8);
    v.push(115u8);
    v.push(61u8);
    assert(v@ =~= bytes_eq());
    push_decimal(range.start, &mut v);
    v.push(45u8);
    push_decimal(range.end, &mut v);
    v
}

/// The headers a request for a range of the stream carries.
#[derive(Debug, Clone, Copy, PartialEq, Eq, Structural)]
pub enum HeaderKind {
    Host,
    UserAgent,
    Accept,
    Connection,
    Range,
    Cookie,
}

/// Why no request could be made for a url.
#[derive(Debug, Clone, Copy, PartialEq, Eq, Structural)]
pub enum RequestError {
    /// the url has no host part
    UrlWithoutHost,
    /// the url's host is not a valid header value
    InvalidHost,
}

/// A byte that a header value may hold (`http::HeaderValue::from_str`).
pub open spec fn header_value_byte(b: u8) -> bool {
    (b >= 32 && b != 127) || b == 9
}

/// A valid header value: each byte is one a header value may hold.
pub open spec fn header_value(v: Seq<u8>) -> bool {
    forall|i: int| 0 <= i < v.len() ==> header_value_byte(#[trigger] v[i])
}

/// `stream-owl`
pub open spec fn user_agent() -> Seq<u8> {
    seq![115u8, 116u8, 114u8, 101u8, 97u8, 109u8, 45u8, 111u8, 119u8, 108u8]
}

/// `*/*`
pub open spec fn accept_any() -> Seq<u8> {
    seq![42u8, 47u8, 42u8]
}

/// `keep-alive`
pub open spec fn keep_alive() -> Seq<u8> {
    seq![107u8, 101u8, 101u8, 112u8, 45u8, 97u8, 108u8, 105u8, 118u8, 101u8]
}

/// The headers of a request to host `host` for the range `range` carrying
/// `cookies`, in the order they are set. Each cookie replaces the one set
/// before it, so only the newest is sent.
pub open spec fn request_headers_spec(host: Seq<u8>, range: Seq<u8>, cookies: Seq<Seq<u8>>) -> Seq<
    (HeaderKind, Seq<u8>),
> {
    seq![
        (HeaderKind::Host, host),
        (HeaderKind::UserAgent, user_agent()),
        (HeaderKind::Accept, accept_any()),
        (HeaderKind::Connection, keep_alive()),
        (HeaderKind::Range, range),
    ] + if cookies.len() > 0 {
        seq![(HeaderKind::Cookie, cookies.last())]
    } else {
        Seq::empty()
    }
}

pub open spec fn headers_view(v: Seq<(HeaderKind, Vec<u8>)>) -> Seq<(HeaderKind, Seq<u8>)> {
    v.map_values(|h: (HeaderKind, Vec<u8>)| (h.0, h.1@))
}

/// The headers of a GET request for the range header value `range` to the
/// url's host `host`, carrying the cookies the server set.
pub fn request_headers(host: Option<&[u8]>, range: &[u8], cookies: &Cookies) -> (r: Result<
    Vec<(HeaderKind, Vec<u8>)>,
    RequestError,
>)
    ensures
        host is None ==> r == Err::<Vec<(HeaderKind, Vec<u8>)>, RequestError>(
            RequestError::UrlWithoutHost,
        ),
        host matches Some(h) ==> if header_value(h@) {
            r matches Ok(v) && headers_view(v@) == request_headers_spec(h@, range@, cookies@)
        } else {
            r == Err::<Vec<(HeaderKind, Vec<u8>)>, RequestError>(RequestError::InvalidHost)
        },
{
    let name = match host {
        None => return Err(RequestError::UrlWithoutHost),
        Some(h) => h,
    };
    let mut i: usize = 0;
    while i < name.len()
        invariant
            host == Some(name),
            i <= name@.len(),
            forall|k: int| 0 <= k < i ==> header_value_byte(#[trigger] name@[k]),
        decreases name.len() - i,
    {
        let b = name[i];
        if !((b >= 32 && b != 127) || b == 9) {
            assert(!header_value_byte(name@[i as int]));
            assert(!header_value(name@));
            return Err(RequestError::InvalidHost);
        }
        i += 1;
    }
    let mut headers: Vec<(HeaderKind, Vec<u8>)> = Vec::new();
    headers.push((HeaderKind::Host, vstd::slice::slice_to_vec(name)));
    headers.push(
        (HeaderKind::UserAgent, vec![115u8, 116u8, 114u8, 101u8, 97u8, 109u8, 45u8, 111u8, 119u8, 108u8]),
    );
    headers.push((HeaderKind::Accept, vec![42u8, 47u8, 42u8]));
    headers.push(
        (HeaderKind::Connection, vec![107u8, 101u8, 101u8, 112u8, 45u8, 97u8, 108u8, 105u8, 118u8, 101u8]),
    );
    headers.push((HeaderKind::Range, vstd::slice::slice_to_vec(range)));
    let list = cookies.list();
    let n = list.len();
    if n > 0 {
        let newest = vstd::slice::slice_to_vec(list[n - 1].as_slice());
        assert(newest@ == cookies@.last());
        headers.push((HeaderKind::Cookie, newest));
    }
    assert(headers_view(headers@) =~= request_headers_spec(name@, range@, cookies@));
    Ok(headers)
}

} // verus!
