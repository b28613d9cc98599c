use std::ops::Range;

use stream_owl::http_client::cookies::Cookies;
use stream_owl::http_client::headers::{content_length, range, range_content_length, Error, ResponseHead};
use stream_owl::http_client::request::{range_request_value, request_headers, HeaderKind, RequestError};
use stream_owl::http_client::response::{Error as ResponseError, ValidResponse};
use stream_owl::text::{parse_u64, IntErrorKind};

fn head(status: u16, content_length: Option<&str>, content_range: Option<&str>) -> ResponseHead {
    ResponseHead {
        status,
        content_length: content_length.map(|v| v.as_bytes().to_vec()),
        content_range: content_range.map(|v| v.as_bytes().to_vec()),
    }
}

#[test]
fn test_range() {
    for (testcase, expected) in [("content-range", "bytes */10000", None)]
        .map(|(_key, val, expected)| (head(416, None, Some(val)), expected))
    {
        let expected: Option<Range<u64>> = expected;
        assert_eq!(range(&testcase).unwrap(), expected)
    }
}

#[test]
fn range_header_values() {
    assert_eq!(range(&head(206, None, Some("bytes 10-20/100"))), Ok(Some(10..20)));
    assert_eq!(range(&head(206, None, None)), Err(Error::MissingContentRange));
    assert_eq!(range(&head(206, None, Some("items 10-20/100"))), Err(Error::RangeNotBytes));
    assert_eq!(range(&head(206, None, Some("bytes 10-20"))), Err(Error::InvalidRangeHeader));
    assert_eq!(range(&head(206, None, Some("bytes 1020/100"))), Err(Error::MissingRangeDelimiter));
    assert_eq!(
        range(&head(206, None, Some("bytes x-20/100"))),
        Err(Error::RangeStartNotNumber(IntErrorKind::InvalidDigit))
    );
    assert_eq!(
        range(&head(206, None, Some("bytes 10-/100"))),
        Err(Error::RangeStartNotNumber(IntErrorKind::Empty))
    );
    assert_eq!(range(&head(206, None, Some("bytes 20-10/100"))), Err(Error::RangeStartSmallerThenEnd));
    let mut corrupt = head(206, None, None);
    corrupt.content_range = Some(vec![98, 121, 116, 101, 115, 32, 1]);
    assert_eq!(range(&corrupt), Err(Error::CorruptHeader));
}

#[test]
fn content_length_values() {
    assert_eq!(content_length(&head(200, Some("1234"), None)), Ok(Some(1234)));
    assert_eq!(content_length(&head(200, None, None)), Ok(None));
    assert_eq!(
        content_length(&head(200, Some("12a"), None)),
        Err(Error::ContentLengthNotNumber(IntErrorKind::InvalidDigit))
    );
    assert_eq!(range_content_length(&head(206, None, Some("bytes 0-1/77"))), Ok(Some(77)));
    assert_eq!(range_content_length(&head(206, None, Some("bytes 0-1/*"))), Ok(None));
}

#[test]
fn parse_u64_like_std() {
    for text in ["0", "42", "+7", "18446744073709551615", "18446744073709551616", "", "+", "-", "-1", "1 "] {
        let ours = parse_u64(text.as_bytes());
        match text.parse::<u64>() {
            Ok(n) => assert_eq!(ours, Ok(n), "{text}"),
            Err(e) => {
                let kind = match e.kind() {
                    std::num::IntErrorKind::Empty => IntErrorKind::Empty,
                    std::num::IntErrorKind::InvalidDigit => IntErrorKind::InvalidDigit,
                    std::num::IntErrorKind::PosOverflow => IntErrorKind::PosOverflow,
                    other => panic!("unexpected kind {other:?}"),
                };
                assert_eq!(ours, Err(kind), "{text}");
            }
        }
    }
}

#[test]
fn responses_are_classified() {
    match ValidResponse::try_from(&head(200, Some("500"), None)).unwrap() {
        ValidResponse::FullContent { size } => assert_eq!(size, Some(500)),
        other => panic!("{other:?}"),
    }
    match ValidResponse::try_from(&head(416, None, Some("bytes */10000"))).unwrap() {
        ValidResponse::RangeNotSatisfiable { size } => assert_eq!(size, Some(10000)),
        other => panic!("{other:?}"),
    }
    assert_eq!(
        ValidResponse::try_from(&head(206, None, Some("bytes */10000"))).unwrap_err(),
        ResponseError::UnsatisfiedRangeInPartialContent
    );
    assert_eq!(
        ValidResponse::try_from(&head(200, Some("x"), None)).unwrap_err(),
        ResponseError::InvalidOkHeader(Error::ContentLengthNotNumber(IntErrorKind::InvalidDigit))
    );
    assert_eq!(
        ValidResponse::try_from(&head(206, None, None)).unwrap_err(),
        ResponseError::InvalidPartialContentHeader(Error::MissingContentRange)
    );
    assert_eq!(
        ValidResponse::try_from(&head(416, None, Some("bytes */x"))).unwrap_err(),
        ResponseError::InvalidRangeNotSatHeader(Error::ContentLengthNotNumber(IntErrorKind::InvalidDigit))
    );
    assert_eq!(ValidResponse::try_from(&head(404, None, None)).unwrap_err(), ResponseError::IncorrectStatus(404));
    assert_eq!(ValidResponse::try_from(&head(200, None, None)).unwrap().stream_size(), None);
}

#[test]
fn range_request_is_formatted() {
    assert_eq!(range_request_value(&(0..999)), b"bytes=0-999".to_vec());
    assert_eq!(range_request_value(&(1234..18446744073709551615)), b"bytes=1234-18446744073709551615".to_vec());
}

#[test]
fn cookies_keep_what_servers_set() {
    let mut cookies = Cookies::new();
    cookies.get_from(&vec![
        b"session=abc; Path=/".to_vec(),
        b"no-delimiter".to_vec(),
        vec![b'x', b'=', 1, b';'],
        b"theme=dark; Secure".to_vec(),
    ]);
    assert_eq!(cookies.list(), &vec![b"session=abc".to_vec(), b"theme=dark".to_vec()]);
}

#[test]
fn request_carries_newest_cookie() {
    let mut cookies = Cookies::new();
    let headers = request_headers(Some(&b"example.com"[..]), b"bytes=0-99", &cookies).unwrap();
    assert_eq!(
        headers,
        vec![
            (HeaderKind::Host, b"example.com".to_vec()),
            (HeaderKind::UserAgent, b"stream-owl".to_vec()),
            (HeaderKind::Accept, b"*/*".to_vec()),
            (HeaderKind::Connection, b"keep-alive".to_vec()),
            (HeaderKind::Range, b"bytes=0-99".to_vec()),
        ]
    );
    cookies.get_from(&vec![b"a=1; Path=/".to_vec(), b"b=2; Path=/".to_vec()]);
    let headers = request_headers(Some(&b"example.com"[..]), b"bytes=0-99", &cookies).unwrap();
    assert_eq!(headers.len(), 6);
    assert_eq!(headers[5], (HeaderKind::Cookie, b"b=2".to_vec()));

    assert_eq!(request_headers(None, b"bytes=0-99", &cookies), Err(RequestError::UrlWithoutHost));
    assert_eq!(
        request_headers(Some(&[b'a', 127][..]), b"bytes=0-99", &cookies),
        Err(RequestError::InvalidHost)
    );
}
