//! Connecting to the stream's server: following its redirects and taking in
//! the response that ends them.
use http::uri::InvalidUri;

use vstd::prelude::*;

use crate::http_client::headers::ResponseHead;
use crate::http_client::response::{valid_response_spec, Error, ValidResponse};
use crate::http_client::size::{truncated, Size, SizeVariant};
use crate::text::is_header_text;
use crate::http_client::headers::{header_text, opt_bytes};

verus! {

#[verifier::external_type_specification]
#[verifier::external_body]
pub struct ExInvalidUri(InvalidUri);

/// The status code of a redirect (`302 Found`).
pub const FOUND: u16 = 302;

/// How many redirects are followed at most; one more is an error.
pub const MAX_REDIRECTS: u32 = 10;

/// The host of `url` read as a URI by `http::Uri`: `None` when `url` is not
/// a URI, `Some(None)` for a URI without host.
pub uninterp spec fn parsed_uri_host(url: Seq<u8>) -> Option<Option<Seq<u8>>>;

/// The host of `url` (`http::Uri::try_from`, then `Uri::host`), or the
/// parse error when `url` is not a URI.
#[verifier::external_body]
fn uri_host(url: &[u8]) -> (r: Result<Option<Vec<u8>>, InvalidUri>)
    ensures
        match r {
            Ok(h) => parsed_uri_host(url@) == Some(opt_bytes(h)),
            Err(_) => parsed_uri_host(url@) is None,
        },
{
    match http::Uri::try_from(url) {
        Ok(uri) => Ok(
            match uri.host() {
                Some(h) => Some(h.as_bytes().to_vec()),
                None => None,
            },
        ),
        Err(e) => Err(e),
    }
}

/// Why following a redirect failed.
#[derive(Debug)]
pub enum RedirectError {
    /// the server redirected more than `MAX_REDIRECTS` times
    TooManyRedirects,
    /// the server redirected without a `Location` header
    MissingRedirectLocation,
    /// the `Location` header does not read as text
    BrokenRedirectLocation,
    /// the `Location` header is not a URI
    InvalidUriRedirectLocation(InvalidUri),
}

/// What to do after a response came in.
#[derive(Debug, Clone, Copy, PartialEq, Eq, Structural)]
pub enum ConnectStep {
    /// The response is no redirect: it is the one to stream from.
    Arrived,
    /// Send the request again to the new url; over a new connection when the
    /// host changed.
    Redirect { reconnect: bool },
}

pub struct RedirectsView {
    pub count: u32,
    pub url: Seq<u8>,
    pub conn_host: Option<Seq<u8>>,
}

/// The state of the redirect loop: how many redirects were followed, the
/// url to request and the host the current connection goes to.
pub struct Redirects {
    count: u32,
    url: Vec<u8>,
    conn_host: Option<Vec<u8>>,
}

impl View for Redirects {
    type V = RedirectsView;

    closed spec fn view(&self) -> RedirectsView {
        RedirectsView { count: self.count, url: self.url@, conn_host: opt_bytes(self.conn_host) }
    }
}

/// Whether two optional byte strings are equal.
fn opt_bytes_equal(a: &Option<Vec<u8>>, b: &Option<Vec<u8>>) -> (r: bool)
    ensures
        r == (opt_bytes(*a) == opt_bytes(*b)),
{
    match (a, b) {
        (None, None) => true,
        (Some(x), Some(y)) => {
            if x.len() != y.len() {
                assert(x@.len() != y@.len());
                return false;
            }
            let mut i: usize = 0;
            while i < x.len()
                invariant
                    i <= x.len(),
                    x.len() == y.len(),
                    opt_bytes(*a) == Some(x@),
                    opt_bytes(*b) == Some(y@),
                    forall|k: int| 0 <= k < i ==> x@[k] == y@[k],
                decreases x.len() - i,
            {
                if x[i] != y[i] {
                    assert(x@[i as int] != y@[i as int]);
                    assert(x@ != y@);
                    return false;
                }
                i += 1;
            }
            assert(x@ =~= y@);
            true
        },
        _ => false,
    }
}

impl Redirects {
    /// No redirect followed yet; `url` is requested over a connection to
    /// `host`, the url's host.
    pub fn new(url: Vec<u8>, host: Option<Vec<u8>>) -> (r: Self)
        ensures
            r@ == (RedirectsView { count: 0, url: url@, conn_host: opt_bytes(host) }),
    {
        Redirects { count: 0, url, conn_host: host }
    }

    /// The url to request.
    pub fn url(&self) -> (u: &Vec<u8>)
        ensures
            u@ == self@.url,
    {
        &self.url
    }

    /// How many redirects were followed.
    pub fn count(&self) -> (n: u32)
        ensures
            n == self@.count,
    {
        self.count
    }

    /// Follows a redirect to `location`, given what parsing it as a URI gave:
    /// a new connection is needed when the host differs from the current
    /// connection's.
    pub fn follow(&mut self, location: Vec<u8>, host: Result<Option<Vec<u8>>, InvalidUri>) -> (r:
        Result<ConnectStep, RedirectError>)
        requires
            old(self)@.count < MAX_REDIRECTS,
        ensures
            match host {
                Err(_) => (r matches Err(RedirectError::InvalidUriRedirectLocation(_)))
                    && final(self)@ == old(self)@,
                Ok(h) => {
                    &&& r == Ok::<ConnectStep, RedirectError>(
                        ConnectStep::Redirect { reconnect: opt_bytes(h) != old(self)@.conn_host },
                    )
                    &&& final(self)@ == (RedirectsView {
                        count: (old(self)@.count + 1) as u32,
                        url: location@,
                        conn_host: opt_bytes(h),
                    })
                },
            },
    {
        match host {
            Err(e) => Err(RedirectError::InvalidUriRedirectLocation(e)),
            Ok(h) => {
                let reconnect = !opt_bytes_equal(&h, &self.conn_host);
                self.url = location;
                if reconnect {
                    self.conn_host = h;
                }
                self.count = self.count + 1;
                Ok(ConnectStep::Redirect { reconnect })
            },
        }
    }

    /// Decides on a response with status `status` and `Location` header
    /// `location`: anything but a redirect ends the loop; a redirect is
    /// followed unless it would be one more than `MAX_REDIRECTS` or its
    /// location is missing, unreadable or not a URI.
    pub fn on_response(&mut self, status: u16, location: Option<&[u8]>) -> (r: Result<
        ConnectStep,
        RedirectError,
    >)
        ensures
            status != FOUND ==> (r == Ok::<ConnectStep, RedirectError>(ConnectStep::Arrived)
                && final(self)@ == old(self)@),
            // no more than `MAX_REDIRECTS` redirects are ever followed
            old(self)@.count <= MAX_REDIRECTS ==> final(self)@.count <= MAX_REDIRECTS,
            status == FOUND && old(self)@.count >= MAX_REDIRECTS ==> ((r matches Err(
                RedirectError::TooManyRedirects,
            )) && final(self)@ == old(self)@),
            status == FOUND && old(self)@.count < MAX_REDIRECTS ==> match location {
                None => (r matches Err(RedirectError::MissingRedirectLocation)) && final(self)@
                    == old(self)@,
                Some(l) => if !header_text(l@) {
                    (r matches Err(RedirectError::BrokenRedirectLocation)) && final(self)@
                        == old(self)@
                } else {
                    match parsed_uri_host(l@) {
                        None => (r matches Err(RedirectError::InvalidUriRedirectLocation(_)))
                            && final(self)@ == old(self)@,
                        Some(h) => {
                            &&& r == Ok::<ConnectStep, RedirectError>(
                                ConnectStep::Redirect { reconnect: h != old(self)@.conn_host },
                            )
                            &&& final(self)@ == (RedirectsView {
                                count: (old(self)@.count + 1) as u32,
                                url: l@,
                                conn_host: h,
                            })
                        },
                    }
                },
            },
    {
        if status != FOUND {
            return Ok(ConnectStep::Arrived);
        }
        if self.count >= MAX_REDIRECTS {
            return Err(RedirectError::TooManyRedirects);
        }
        let location = match location {
            None => return Err(RedirectError::MissingRedirectLocation),
            Some(l) => l,
        };
        if !is_header_text(location) {
            return Err(RedirectError::BrokenRedirectLocation);
        }
        let host = uri_host(location);
        self.follow(vstd::slice::slice_to_vec(location), host)
    }
}

/// Takes in the response that ended the redirects: sorts it by kind and,
/// when it is one the client can work with, updates the known stream size
/// from it.
pub fn accept_response(head: &ResponseHead, size: &mut Size) -> (r: Result<ValidResponse, Error>)
    ensures
        r == valid_response_spec(*head),
        r is Err ==> final(size)@ == old(size)@,
        r matches Ok(v) ==> {
            &&& final(size)@.1 == old(size)@.1.wrapping_add(1)
            &&& final(size)@.0 == match v.stream_size_spec() {
                Some(n) => truncated(SizeVariant::Known(n)),
                None => SizeVariant::Unknown,
            }
        },
{
    let response = ValidResponse::try_from(head);
    if let Ok(v) = &response {
        size.update(v);
    }
    response
}

} // verus!
