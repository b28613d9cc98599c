use stream_owl::http_client::connect::accept_response;
use stream_owl::http_client::headers::ResponseHead;
use stream_owl::http_client::response::{Error, ValidResponse};
use stream_owl::http_client::size::{Size, SizeVariant};
use stream_owl::http_client::size_hint::SizeHint;

#[test]
fn encode_matches_decode() {
    let test_cases = [
        SizeVariant::Unknown,
        SizeVariant::Known(0),
        SizeVariant::Known(2u64.pow(61)),
        SizeVariant::StreamEnded(0),
        SizeVariant::StreamEnded(2u64.pow(61)),
    ];
    for val in test_cases {
        let encoded = val.encode();
        assert_eq!(SizeVariant::decode(encoded), val, "encoded: {encoded}");
    }

    let out_of_bound_cases = [
        (
            SizeVariant::Known(u64::MAX),
            SizeVariant::Known(2u64.pow(62) - 1),
        ),
        (
            SizeVariant::StreamEnded(u64::MAX),
            SizeVariant::StreamEnded(2u64.pow(62) - 1),
        ),
    ];
    for (broken_input, acceptable_output) in out_of_bound_cases {
        let encoded = broken_input.encode();
        assert_eq!(SizeVariant::decode(encoded), acceptable_output)
    }
}

#[test]
fn size_encoding_exact_values() {
    assert_eq!(SizeVariant::Unknown.encode(), u64::MAX);
    assert_eq!(SizeVariant::Known(5).encode(), 0x4000_0000_0000_0005);
    assert_eq!(SizeVariant::StreamEnded(5).encode(), 0x8000_0000_0000_0005);
}

#[test]
fn size_tracks_responses() {
    let mut size = Size::new();
    assert_eq!(size.get(), SizeVariant::Unknown);
    assert_eq!(size.known(), None);
    assert!(!size.eof_smaller_then(u64::MAX));
    assert_eq!(size.requests_analyzed(), 0);

    let changed = size.update(&ValidResponse::FullContent { size: Some(1000) });
    assert!(changed);
    assert_eq!(size.known(), Some(1000));
    assert_eq!(size.requests_analyzed(), 1);
    assert!(!size.eof_smaller_then(999));
    assert!(size.eof_smaller_then(1000));
    assert!(size.eof_smaller_then(2000));

    let changed = size.update(&ValidResponse::FullContent { size: Some(1000) });
    assert!(!changed);
    assert_eq!(size.requests_analyzed(), 2);

    size.mark_stream_end(700);
    assert_eq!(size.get(), SizeVariant::StreamEnded(700));
    assert!(size.eof_smaller_then(701));
    assert!(size.eof_smaller_then(700));
    assert!(!size.eof_smaller_then(699));
}

#[test]
fn accept_response_updates_size() {
    let mut size = Size::new();
    let head = ResponseHead {
        status: 206,
        content_length: None,
        content_range: Some(b"bytes 0-99/1000".to_vec()),
    };
    let response = accept_response(&head, &mut size).unwrap();
    match response {
        ValidResponse::PartialContent { size: s, range } => {
            assert_eq!(s, Some(1000));
            assert_eq!(range, 0..99);
        }
        other => panic!("expected partial content, got {other:?}"),
    }
    assert_eq!(size.known(), Some(1000));
    assert_eq!(size.requests_analyzed(), 1);

    let broken = ResponseHead { status: 500, content_length: None, content_range: None };
    assert_eq!(accept_response(&broken, &mut size).unwrap_err(), Error::IncorrectStatus(500));
    assert_eq!(size.requests_analyzed(), 1);
}

#[test]
fn size_hint_widens_bounds() {
    let mut hint = SizeHint::new();
    assert_eq!(hint.highest_estimate(), None);
    hint.add(100);
    hint.add(50);
    hint.add(70);
    hint.add(300);
    assert_eq!(hint.lowest_estimate(), Some(50));
    assert_eq!(hint.highest_estimate(), Some(300));

    let mut hint = SizeHint::new();
    hint.update_from_headers(&ResponseHead {
        status: 200,
        content_length: Some(b"1234".to_vec()),
        content_range: None,
    });
    hint.update_from_headers(&ResponseHead {
        status: 206,
        content_length: None,
        content_range: Some(b"bytes 0-10/99".to_vec()),
    });
    hint.update_from_headers(&ResponseHead {
        status: 404,
        content_length: Some(b"5".to_vec()),
        content_range: None,
    });
    assert_eq!(hint.lowest_estimate(), Some(99));
    assert_eq!(hint.highest_estimate(), Some(1234));
}
