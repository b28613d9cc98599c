use stream_owl::http_client::connect::{ConnectStep, RedirectError, Redirects, MAX_REDIRECTS};
use stream_owl::http_client::read::try_into_client;

fn at(location: &[u8]) -> Option<&[u8]> {
    Some(location)
}

fn start() -> Redirects {
    Redirects::new(b"http://example.com/feed.mp3".to_vec(), Some(b"example.com".to_vec()))
}

#[test]
fn non_redirect_arrives() {
    let mut r = start();
    assert!(matches!(r.on_response(200, None), Ok(ConnectStep::Arrived)));
    assert!(matches!(r.on_response(206, at(b"http://x.org/")), Ok(ConnectStep::Arrived)));
    assert_eq!(r.count(), 0);
    assert_eq!(r.url(), &b"http://example.com/feed.mp3".to_vec());
}

#[test]
fn redirect_to_other_host_reconnects() {
    let mut r = start();
    let step = r.on_response(302, at(b"http://cdn.example.org/a.mp3")).unwrap();
    assert_eq!(step, ConnectStep::Redirect { reconnect: true });
    assert_eq!(r.url(), &b"http://cdn.example.org/a.mp3".to_vec());
    assert_eq!(r.count(), 1);
    let step = r.on_response(302, at(b"http://cdn.example.org/b.mp3")).unwrap();
    assert_eq!(step, ConnectStep::Redirect { reconnect: false });
    assert_eq!(r.count(), 2);
    let step = r.on_response(302, at(b"/relative/path")).unwrap();
    assert_eq!(step, ConnectStep::Redirect { reconnect: true });
}

#[test]
fn broken_redirects_fail() {
    let mut r = start();
    assert!(matches!(r.on_response(302, None), Err(RedirectError::MissingRedirectLocation)));
    assert!(matches!(r.on_response(302, at(&[b'/', 0x01])), Err(RedirectError::BrokenRedirectLocation)));
    assert!(matches!(
        r.on_response(302, at(b"http://exa mple.com/")),
        Err(RedirectError::InvalidUriRedirectLocation(_))
    ));
    assert_eq!(r.count(), 0);
}

#[test]
fn too_many_redirects_fail() {
    let mut r = start();
    for _ in 0..MAX_REDIRECTS {
        assert!(matches!(r.on_response(302, at(b"http://example.com/again")), Ok(ConnectStep::Redirect { .. })));
    }
    assert_eq!(r.count(), MAX_REDIRECTS);
    assert!(matches!(
        r.on_response(302, at(b"http://example.com/again")),
        Err(RedirectError::TooManyRedirects)
    ));
}

#[test]
fn client_back_only_after_body() {
    assert_eq!(try_into_client(7u32, true).unwrap(), 7);
    assert!(try_into_client(7u32, false).is_err());
}
