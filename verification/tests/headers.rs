use parsip::scan::{scan_code, scan_digit, scan_version};
use parsip::{header_value, message_header, parse_headers};
use parsip::{Error, Header, Headers, Scan, SipVersion, Span};

fn span_bytes<'a>(buf: &'a [u8], s: &Span) -> &'a [u8] {
    &buf[s.start..s.end]
}

#[test]
fn test_header_value_empty() {
    let buf = b"\r\nAccept: */*\r\n\r\n";
    assert_eq!(header_value(buf, 0), Scan::Found(Span { start: 0, end: 0 }, 2));
}

#[test]
fn test_header_value_plain() {
    let buf = b"foo.bar\r\nAccept: */*\r\n\r\n";
    assert_eq!(header_value(buf, 0), Scan::Found(Span { start: 0, end: 7 }, 9));
}

#[test]
fn test_header_value_trims_trailing_whitespace() {
    let buf = b"value  \t\r\nX";
    assert_eq!(header_value(buf, 0), Scan::Found(Span { start: 0, end: 5 }, 10));
}

#[test]
fn test_header_value_fold_needs_next_byte() {
    let buf = b"value\r\n";
    assert_eq!(header_value(buf, 0), Scan::More(Some(1)));
}

#[test]
fn test_header_value_bare_lf_rejected() {
    let buf = b"value\nX";
    assert_eq!(header_value(buf, 0), Scan::Fail(Error::NewLine, 5));
}

#[test]
fn test_message_header_simple() {
    let buf = b"Host: example.com\r\nX";
    let expected = Header {
        name: Span { start: 0, end: 4 },
        value: Span { start: 6, end: 17 },
    };
    assert_eq!(message_header(buf, 0), Scan::Found(expected, 19));
}

#[test]
fn test_message_header_empty_name_allowed() {
    let buf = b": v\r\nX";
    let expected = Header {
        name: Span { start: 0, end: 0 },
        value: Span { start: 2, end: 3 },
    };
    assert_eq!(message_header(buf, 0), Scan::Found(expected, 5));
}

#[test]
fn test_parse_headers_two() {
    let buf = b"Host: foo.bar\r\nAccept: */*\r\n\r\n";
    let mut headers = Headers::with_capacity(4);
    assert_eq!(parse_headers(buf, 0, &mut headers), Scan::Found(2, 28));
    assert_eq!(headers.len(), 2);
    assert_eq!(span_bytes(buf, &headers.get(0).name), b"Host");
    assert_eq!(span_bytes(buf, &headers.get(0).value), b"foo.bar");
    assert_eq!(span_bytes(buf, &headers.get(1).name), b"Accept");
    assert_eq!(span_bytes(buf, &headers.get(1).value), b"*/*");
}

#[test]
fn test_parse_headers_stops_at_capacity() {
    let buf = b"A: 1\r\nB: 2\r\n\r\n";
    let mut headers = Headers::with_capacity(1);
    assert_eq!(parse_headers(buf, 0, &mut headers), Scan::Found(1, 6));
    assert_eq!(headers.len(), 1);
    assert_eq!(span_bytes(buf, &headers.get(0).name), b"A");
}

#[test]
fn test_parse_headers_zero_capacity() {
    let buf = b"A: 1\r\n\r\n";
    let mut headers = Headers::with_capacity(0);
    assert_eq!(parse_headers(buf, 0, &mut headers), Scan::Found(0, 0));
    assert_eq!(headers.len(), 0);
}

#[test]
fn test_headers_allocation() {
    let headers = Headers::with_capacity(3);
    assert_eq!(headers.capacity(), 3);
    assert_eq!(headers.len(), 0);
}

#[test]
fn test_scan_digit_values() {
    assert_eq!(scan_digit(b"7x", 0, Error::Status), Scan::Found(7, 1));
    assert_eq!(scan_digit(b"x", 0, Error::Status), Scan::Fail(Error::Status, 0));
    assert_eq!(scan_digit(b"", 0, Error::Status), Scan::More(Some(1)));
}

#[test]
fn test_scan_code_combines_digits() {
    assert_eq!(scan_code(b"486 ", 0), Scan::Found(486, 3));
    assert_eq!(scan_code(b"48", 0), Scan::More(Some(1)));
}

#[test]
fn test_scan_version_mixed_case() {
    assert_eq!(scan_version(b"sIp/6.9 ", 0), Scan::Found(SipVersion(6, 9), 7));
    assert_eq!(scan_version(b"SIP/2x0 ", 0), Scan::Fail(Error::Version, 5));
    assert_eq!(scan_version(b"SIP/2.", 0), Scan::More(Some(1)));
}

#[test]
fn test_header_value_utf8_bytes_kept() {
    let buf = b"\xe3\x81\xb2\r\nX";
    assert_eq!(header_value(buf, 0), Scan::Found(Span { start: 0, end: 3 }, 5));
}
