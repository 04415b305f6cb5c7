use lsp_bridge::frame::find_delimiter;
use lsp_bridge::frame::frame_after;
use lsp_bridge::frame::make_payload;
use lsp_bridge::frame::next_frame;
use lsp_bridge::frame::FrameError;
use lsp_bridge::frame::Located;
use lsp_bridge::frame::is_length_name;
use lsp_bridge::header::Header;
use lsp_bridge::header::HeaderScan;

#[test]
fn payload_of_ascii_body() {
    assert_eq!(make_payload("hello"), "Content-Length: 5\r\n\r\nhello");
}

#[test]
fn payload_of_empty_body() {
    assert_eq!(make_payload(""), "Content-Length: 0\r\n\r\n");
}

#[test]
fn payload_counts_bytes_not_characters() {
    assert_eq!(make_payload("h\u{e9}llo \u{1f980}"), "Content-Length: 11\r\n\r\nh\u{e9}llo \u{1f980}");
}

#[test]
fn payload_of_long_body_has_every_digit_of_its_length() {
    let body = "x".repeat(12_345);
    let frame = make_payload(&body);
    assert!(frame.starts_with("Content-Length: 12345\r\n\r\n"));
    assert_eq!(frame.len(), 25 + 12_345);
    assert!(frame.ends_with(&body));
}

#[test]
fn payload_has_no_trailing_framing() {
    let frame = make_payload("{}");
    assert_eq!(frame.as_bytes(), b"Content-Length: 2\r\n\r\n{}");
}

#[test]
fn delimiter_is_found_at_its_first_place() {
    assert_eq!(find_delimiter(b"ab\r\n\r\ncd\r\n\r\n"), Some(2));
    assert_eq!(find_delimiter(b"\r\n\r\n"), Some(0));
    assert_eq!(find_delimiter(b"\r\n\r"), None);
    assert_eq!(find_delimiter(b"a\r\nb\r\n"), None);
    assert_eq!(find_delimiter(b"\r\r\n\r\n"), Some(1));
    assert_eq!(find_delimiter(b""), None);
}

#[test]
fn frame_round_trip() {
    let frame = make_payload("{\"a\":1}");
    let bytes = frame.as_bytes();
    assert_eq!(next_frame(bytes), Located::Frame { start: 21, end: 28 });
    assert_eq!(&bytes[21..28], b"{\"a\":1}");
}

#[test]
fn frame_round_trip_of_body_that_holds_the_delimiter() {
    let body = "a\r\n\r\nb\r\n\r\n";
    let frame = make_payload(body);
    let bytes = frame.as_bytes();
    match next_frame(bytes) {
        Located::Frame { start, end } => {
            assert_eq!(&bytes[start..end], body.as_bytes());
            assert_eq!(end, bytes.len());
        }
        other => panic!("no frame: {:?}", other),
    }
}

#[test]
fn frame_round_trip_of_empty_body() {
    let frame = make_payload("");
    assert_eq!(next_frame(frame.as_bytes()), Located::Frame { start: 21, end: 21 });
}

#[test]
fn two_frames_at_once_are_cut_apart() {
    let first = make_payload("{\"n\":1}");
    let second = make_payload("{\"n\":22}");
    let mut both = first.clone().into_bytes();
    both.extend_from_slice(second.as_bytes());
    match next_frame(&both) {
        Located::Frame { start, end } => {
            assert_eq!(&both[start..end], b"{\"n\":1}");
            assert_eq!(&both[end..], second.as_bytes());
            match next_frame(&both[end..]) {
                Located::Frame { start: s, end: e } => {
                    assert_eq!(&both[end..][s..e], b"{\"n\":22}");
                    assert_eq!(end + e, both.len());
                }
                other => panic!("no second frame: {:?}", other),
            }
        }
        other => panic!("no first frame: {:?}", other),
    }
}

#[test]
fn every_proper_prefix_of_a_frame_is_wanting() {
    let frame = make_payload("{\"k\":\"v\"}");
    let bytes = frame.as_bytes();
    for cut in 0..bytes.len() {
        assert_eq!(next_frame(&bytes[..cut]), Located::Wanting, "prefix of {} bytes", cut);
    }
    assert!(matches!(next_frame(bytes), Located::Frame { .. }));
}

#[test]
fn header_of_another_name_declares_no_length() {
    assert_eq!(next_frame(b"X-Anything: 2\r\n\r\n{}"), Located::Failed(FrameError::MissingLength));
    assert_eq!(next_frame(b"Content-Type: 2\r\n\r\n{}"), Located::Failed(FrameError::MissingLength));
    assert_eq!(next_frame(b"Content-Lengths: 2\r\n\r\n{}"), Located::Failed(FrameError::MissingLength));
    assert_eq!(next_frame(b"Content_Length: 2\r\n\r\n{}"), Located::Failed(FrameError::MissingLength));
    assert_eq!(next_frame(b"Length: 2\r\n\r\n{}"), Located::Failed(FrameError::MissingLength));
}

#[test]
fn case_of_the_header_name_does_not_count() {
    assert_eq!(next_frame(b"content-length: 2\r\n\r\n{}"), Located::Frame { start: 21, end: 23 });
    assert_eq!(next_frame(b"CONTENT-LENGTH: 2\r\n\r\n{}"), Located::Frame { start: 21, end: 23 });
    assert_eq!(next_frame(b"cOnTeNt-LeNgTh: 2\r\n\r\n{}"), Located::Frame { start: 21, end: 23 });
}

#[test]
fn length_header_is_known_by_its_name() {
    assert!(is_length_name(b"Content-Length"));
    assert!(is_length_name(b"content-length"));
    assert!(is_length_name(b"CONTENT-LENGTH"));
    assert!(!is_length_name(b"Content-Type"));
    assert!(!is_length_name(b"Content-Lengt"));
    assert!(!is_length_name(b"Content-Length "));
    assert!(!is_length_name(b"Content\x0dLength"));
    assert!(!is_length_name(b"Content-Lengt\x48\x00"));
    assert!(!is_length_name(b"\x23ontent-Length"));
    assert!(!is_length_name(b""));
}

#[test]
fn header_value_may_have_space_around_it_and_a_plus_sign() {
    assert_eq!(next_frame(b"Content-Length:   +2  \r\n\r\n{}tail"), Located::Frame { start: 26, end: 28 });
}

#[test]
fn block_without_header_declares_no_length() {
    assert_eq!(next_frame(b"\r\n\r\n{}"), Located::Failed(FrameError::MissingLength));
}

#[test]
fn non_numeric_length_is_refused() {
    assert_eq!(next_frame(b"Content-Length: abc\r\n\r\n{}"), Located::Failed(FrameError::InvalidLength));
    assert_eq!(next_frame(b"Content-Length: \r\n\r\n{}"), Located::Failed(FrameError::InvalidLength));
    assert_eq!(next_frame(b"Content-Length: -1\r\n\r\n{}"), Located::Failed(FrameError::InvalidLength));
    assert_eq!(next_frame(b"Content-Length: 1 2\r\n\r\n{}"), Located::Failed(FrameError::InvalidLength));
    assert_eq!(
        next_frame(b"Content-Length: 99999999999999999999999999\r\n\r\n{}"),
        Located::Failed(FrameError::InvalidLength)
    );
}

#[test]
fn malformed_header_is_refused() {
    assert_eq!(next_frame(b"Content Length: 2\r\n\r\n{}"), Located::Failed(FrameError::MalformedHeader));
    assert_eq!(next_frame(b"no colon here\r\n\r\n{}"), Located::Failed(FrameError::MalformedHeader));
    assert_eq!(next_frame(b"\x00\x01\r\n\r\n"), Located::Failed(FrameError::MalformedHeader));
}

#[test]
fn second_header_is_refused() {
    assert_eq!(
        next_frame(b"Content-Length: 2\r\nContent-Type: x\r\n\r\n{}"),
        Located::Failed(FrameError::MalformedHeader)
    );
}

#[test]
fn section_that_ends_before_the_blank_line_is_refused() {
    assert_eq!(next_frame(b"Content-Length: 2\n\n{}\r\n\r\n"), Located::Failed(FrameError::MalformedHeader));
}

#[test]
fn huge_declared_length_is_wanting() {
    let header = format!("Content-Length: {}\r\n\r\n", usize::MAX);
    assert_eq!(next_frame(header.as_bytes()), Located::Wanting);
}

fn length(value: &[u8]) -> Header {
    Header { name: b"Content-Length".to_vec(), value: value.to_vec() }
}

#[test]
fn frame_after_follows_the_scan() {
    let buffer = b"0123456789";
    assert_eq!(frame_after(buffer, 4, &HeaderScan::Malformed), Located::Failed(FrameError::MalformedHeader));
    assert_eq!(frame_after(buffer, 4, &HeaderScan::Partial), Located::Failed(FrameError::MalformedHeader));
    let none = HeaderScan::Complete { end: 4, headers: vec![] };
    assert_eq!(frame_after(buffer, 4, &none), Located::Failed(FrameError::MissingLength));
    let other = HeaderScan::Complete { end: 4, headers: vec![Header { name: b"Content-Type".to_vec(), value: b"2".to_vec() }] };
    assert_eq!(frame_after(buffer, 4, &other), Located::Failed(FrameError::MissingLength));
    let later = HeaderScan::Complete {
        end: 4,
        headers: vec![Header { name: b"Content-Type".to_vec(), value: b"2".to_vec() }, length(b"2")],
    };
    assert_eq!(frame_after(buffer, 4, &later), Located::Failed(FrameError::MissingLength));
    let early = HeaderScan::Complete { end: 3, headers: vec![length(b"2")] };
    assert_eq!(frame_after(buffer, 4, &early), Located::Failed(FrameError::MalformedHeader));
    let bad = HeaderScan::Complete { end: 4, headers: vec![length(b"two")] };
    assert_eq!(frame_after(buffer, 4, &bad), Located::Failed(FrameError::InvalidLength));
    let fits = HeaderScan::Complete { end: 4, headers: vec![length(b"6")] };
    assert_eq!(frame_after(buffer, 4, &fits), Located::Frame { start: 4, end: 10 });
    let short = HeaderScan::Complete { end: 4, headers: vec![length(b"7")] };
    assert_eq!(frame_after(buffer, 4, &short), Located::Wanting);
    let first = HeaderScan::Complete { end: 4, headers: vec![length(b"1"), length(b"5")] };
    assert_eq!(frame_after(buffer, 4, &first), Located::Frame { start: 4, end: 5 });
    let beyond = HeaderScan::Complete { end: 40, headers: vec![length(b"1")] };
    assert_eq!(frame_after(buffer, 40, &beyond), Located::Wanting);
}
