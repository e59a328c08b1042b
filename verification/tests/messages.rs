use parsip::{Error, Headers, ParseResult, Request, Response, SipVersion, Span};

fn span_bytes<'a>(buf: &'a [u8], s: &Span) -> &'a [u8] {
    &buf[s.start..s.end]
}

#[test]
fn test_request_simple() {
    let buf = b"INVITE sip:callee@domain.com SIP/2.0\r\n\r\n";
    let mut req = Request::new(Headers::with_capacity(4));
    let result = req.parse(buf);
    assert_eq!(result, ParseResult::Done(buf.len()));
    assert_eq!(span_bytes(buf, &req.method.unwrap()), b"INVITE");
    assert_eq!(span_bytes(buf, &req.path.unwrap()), b"sip:callee@domain.com");
    assert_eq!(req.version.unwrap(), SipVersion(2, 0));
    assert_eq!(req.headers.len(), 0);
}

#[test]
fn test_request_headers() {
    let buf = b"INVITE sip:callee@domain.com SIP/2.0\r\nHost: foo.com\r\nTo: <sip:carol@chicago.com>\r\n\r\n";
    let mut req = Request::new(Headers::with_capacity(4));
    let result = req.parse(buf);
    assert_eq!(result, ParseResult::Done(buf.len()));
    assert_eq!(span_bytes(buf, &req.method.unwrap()), b"INVITE");
    assert_eq!(span_bytes(buf, &req.path.unwrap()), b"sip:callee@domain.com");
    assert_eq!(req.version.unwrap(), SipVersion(2, 0));
    assert_eq!(req.headers.len(), 2);
    assert_eq!(span_bytes(buf, &req.headers.get(0).name), b"Host");
    assert_eq!(span_bytes(buf, &req.headers.get(0).value), b"foo.com");
    assert_eq!(span_bytes(buf, &req.headers.get(1).name), b"To");
    assert_eq!(span_bytes(buf, &req.headers.get(1).value), b"<sip:carol@chicago.com>");
}

#[test]
fn test_request_headers_max() {
    let buf = b"INVITE sip:callee@domain.com SIP/2.0\r\nA: A\r\nB: B\r\nC: C\r\nD: D\r\n\r\n";
    let mut req = Request::new(Headers::with_capacity(4));
    let result = req.parse(buf);
    assert_eq!(result, ParseResult::Done(buf.len()));
    assert_eq!(req.headers.len(), 4);
}

#[test]
fn test_request_multibyte() {
    let buf = b"INVITE sip:callee@domain.com SIP/2.0\r\nHost: foo.com\r\nUser-Agent: \xe3\x81\xb2\xe3/1.0\r\n\r\n";
    let mut req = Request::new(Headers::with_capacity(4));
    let result = req.parse(buf);
    assert_eq!(result, ParseResult::Done(buf.len()));
    assert_eq!(span_bytes(buf, &req.method.unwrap()), b"INVITE");
    assert_eq!(span_bytes(buf, &req.path.unwrap()), b"sip:callee@domain.com");
    assert_eq!(req.version.unwrap(), SipVersion(2, 0));
    assert_eq!(span_bytes(buf, &req.headers.get(0).name), b"Host");
    assert_eq!(span_bytes(buf, &req.headers.get(0).value), b"foo.com");
    assert_eq!(span_bytes(buf, &req.headers.get(1).name), b"User-Agent");
    assert_eq!(span_bytes(buf, &req.headers.get(1).value), b"\xe3\x81\xb2\xe3/1.0");
}

#[test]
fn test_request_partial() {
    let buf = b"INVITE sip:callee@domain.com SIP/2.0\r\n\r";
    let mut req = Request::new(Headers::with_capacity(4));
    let result = req.parse(buf);
    assert_eq!(result, ParseResult::NeedsMore(Some(1)));
    assert_eq!(span_bytes(buf, &req.method.unwrap()), b"INVITE");
    assert_eq!(span_bytes(buf, &req.path.unwrap()), b"sip:callee@domain.com");
    assert_eq!(req.version.unwrap(), SipVersion(2, 0));
}

#[test]
fn test_request_newlines() {
    let buf = b"INVITE sip:callee@domain.com SIP/2.0\nHost: foo.bar\n\n";
    let mut req = Request::new(Headers::with_capacity(4));
    let result = req.parse(buf);
    assert_eq!(result, ParseResult::Failed(Error::NewLine, 36));
}

#[test]
fn test_request_empty_lines_prefix() {
    let buf = b"\r\n\r\nINVITE sip:callee@domain.com SIP/2.0\r\n\r\n";
    let mut req = Request::new(Headers::with_capacity(4));
    let result = req.parse(buf);
    assert_eq!(result, ParseResult::Done(buf.len()));
    assert_eq!(span_bytes(buf, &req.method.unwrap()), b"INVITE");
    assert_eq!(span_bytes(buf, &req.path.unwrap()), b"sip:callee@domain.com");
    assert_eq!(req.version.unwrap(), SipVersion(2, 0));
    assert_eq!(req.headers.len(), 0);
}

#[test]
fn test_request_empty_lines_prefix_lf_only() {
    let buf = b"\n\nINVITE sip:callee@domain.com SIP/2.0\r\n\r\n";
    let mut req = Request::new(Headers::with_capacity(4));
    let result = req.parse(buf);
    assert_eq!(result, ParseResult::Done(buf.len()));
    assert_eq!(span_bytes(buf, &req.method.unwrap()), b"INVITE");
    assert_eq!(span_bytes(buf, &req.path.unwrap()), b"sip:callee@domain.com");
    assert_eq!(req.version.unwrap(), SipVersion(2, 0));
}

#[test]
fn test_request_with_invalid_token_delimiter() {
    let buf = b"GET\n/ SIP/2.0\r\nHost: foo.bar\r\n\r\n";
    let mut req = Request::new(Headers::with_capacity(4));
    let result = req.parse(buf);
    assert_eq!(result, ParseResult::Failed(Error::Delimiter, 3));
}

#[test]
fn test_request_headers_with_continuation() {
    let buf = b"INVITE sip:callee@domain.com SIP/2.0\r\nNewFangledHeader:   newfangled value\r\n continued newfangled value\r\n\r\n";
    let mut req = Request::new(Headers::with_capacity(4));
    let result = req.parse(buf);
    assert_eq!(result, ParseResult::Done(buf.len()));
    assert_eq!(req.headers.len(), 1);
    assert_eq!(span_bytes(buf, &req.headers.get(0).name), b"NewFangledHeader");
    assert_eq!(
        span_bytes(buf, &req.headers.get(0).value),
        &b"newfangled value\r\n continued newfangled value"[..]
    );
}

#[test]
fn test_response_simple() {
    let buf = b"SIP/2.0 200 OK\r\n\r\n";
    let mut res = Response::new(Headers::with_capacity(4));
    let result = res.parse(buf);
    assert_eq!(result, ParseResult::Done(buf.len()));
    assert_eq!(res.version.unwrap(), SipVersion(2, 0));
    assert_eq!(res.code.unwrap(), 200);
    assert_eq!(span_bytes(buf, &res.reason.unwrap()), b"OK");
}

#[test]
fn test_response_newlines() {
    let buf = b"SIP/2.0 403 Forbidden\nServer: foo.bar\n\n";
    let mut res = Response::new(Headers::with_capacity(4));
    let result = res.parse(buf);
    assert_eq!(result, ParseResult::Failed(Error::NewLine, 21));
}

#[test]
fn test_response_reason_missing() {
    let buf = b"SIP/2.0 200 \r\n\r\n";
    let mut res = Response::new(Headers::with_capacity(4));
    let result = res.parse(buf);
    assert_eq!(result, ParseResult::Done(buf.len()));
    assert_eq!(res.version.unwrap(), SipVersion(2, 0));
    assert_eq!(res.code.unwrap(), 200);
    assert_eq!(span_bytes(buf, &res.reason.unwrap()), b"");
}

#[test]
fn test_response_reason_missing_no_space() {
    let buf = b"SIP/2.0 200\r\n\r\n";
    let mut res = Response::new(Headers::with_capacity(4));
    let result = res.parse(buf);
    assert_eq!(result, ParseResult::Failed(Error::Delimiter, 11));
    assert_eq!(res.version.unwrap(), SipVersion(2, 0));
    assert_eq!(res.code.unwrap(), 200);
}

#[test]
fn test_response_reason_with_space_and_tab() {
    let buf = b"SIP/2.0 101 Switching Protocols\t\r\n\r\n";
    let mut res = Response::new(Headers::with_capacity(4));
    let result = res.parse(buf);
    assert_eq!(result, ParseResult::Done(buf.len()));
    assert_eq!(res.version.unwrap(), SipVersion(2, 0));
    assert_eq!(res.code.unwrap(), 101);
    assert_eq!(span_bytes(buf, &res.reason.unwrap()), b"Switching Protocols\t");
}

#[test]
fn test_response_reason_with_obsolete_text_byte() {
    let buf = b"SIP/2.0 200 X\xFFZ\r\n\r\n";
    let mut res = Response::new(Headers::with_capacity(4));
    let result = res.parse(buf);
    assert_eq!(result, ParseResult::Failed(Error::Encoding, 12));
}

#[test]
fn test_response_reason_with_nul_byte() {
    let buf = b"SIP/2.0 200 \x00\r\n\r\n";
    let mut res = Response::new(Headers::with_capacity(4));
    let result = res.parse(buf);
    assert_eq!(result, ParseResult::Failed(Error::NewLine, 12));
}

#[test]
fn test_response_version_missing_space() {
    let buf = b"SIP/2.0";
    let mut res = Response::new(Headers::with_capacity(4));
    let result = res.parse(buf);
    assert_eq!(result, ParseResult::NeedsMore(Some(1)));
    assert_eq!(res.version.unwrap(), SipVersion(2, 0));
}

#[test]
fn test_response_code_missing_space() {
    let buf = b"SIP/2.0 200";
    let mut res = Response::new(Headers::with_capacity(4));
    let result = res.parse(buf);
    assert_eq!(result, ParseResult::NeedsMore(Some(1)));
    assert_eq!(res.version.unwrap(), SipVersion(2, 0));
    assert_eq!(res.code.unwrap(), 200);
}

#[test]
fn test_response_empty_lines_prefix_lf_only() {
    let buf = b"\n\nSIP/2.0 200 OK\n\n";
    let mut res = Response::new(Headers::with_capacity(4));
    let result = res.parse(buf);
    assert_eq!(result, ParseResult::Failed(Error::NewLine, 16));
}

#[test]
fn test_request_to_bob() {
    let buf = b"INVITE sip:bob@biloxi.com SIP/2.0\r\nTo: Bob\r\n\r\n";
    let mut req = Request::new(Headers::with_capacity(4));
    let result = req.parse(buf);
    assert_eq!(result, ParseResult::Done(buf.len()));
    assert_eq!(span_bytes(buf, &req.method.unwrap()), b"INVITE");
    assert_eq!(span_bytes(buf, &req.path.unwrap()), b"sip:bob@biloxi.com");
    assert_eq!(req.version.unwrap(), SipVersion(2, 0));
    assert_eq!(req.headers.len(), 1);
    assert_eq!(span_bytes(buf, &req.headers.get(0).name), b"To");
    assert_eq!(span_bytes(buf, &req.headers.get(0).value), b"Bob");
}

#[test]
fn test_request_growth_never_regresses() {
    let buf = b"INVITE sip:bob@biloxi.com SIP/2.0\r\nTo: Bob\r\n\r\n";
    let mut req = Request::new(Headers::with_capacity(4));
    let mut method_seen = false;
    let mut path_seen = false;
    let mut version_seen = false;
    for k in 0..=buf.len() {
        let result = req.parse(&buf[..k]);
        if k < buf.len() {
            assert!(matches!(result, ParseResult::NeedsMore(_)));
        } else {
            assert_eq!(result, ParseResult::Done(buf.len()));
        }
        if method_seen {
            assert!(req.method.is_some());
        }
        if path_seen {
            assert!(req.path.is_some());
        }
        if version_seen {
            assert!(req.version.is_some());
        }
        method_seen = req.method.is_some();
        path_seen = req.path.is_some();
        version_seen = req.version.is_some();
    }
    let method = req.method;
    let path = req.path;
    let version = req.version;
    let again = req.parse(buf);
    assert_eq!(again, ParseResult::Done(buf.len()));
    assert_eq!(req.method, method);
    assert_eq!(req.path, path);
    assert_eq!(req.version, version);
}

#[test]
fn test_request_zero_copy_offsets() {
    let buf = b"INVITE sip:bob@biloxi.com SIP/2.0\r\nTo: Bob\r\n\r\n";
    let mut req = Request::new(Headers::with_capacity(4));
    let result = req.parse(buf);
    assert_eq!(result, ParseResult::Done(buf.len()));
    assert_eq!(req.method.unwrap(), Span { start: 0, end: 6 });
    assert_eq!(req.path.unwrap(), Span { start: 7, end: 25 });
    assert_eq!(req.headers.get(0).name, Span { start: 35, end: 37 });
    assert_eq!(req.headers.get(0).value, Span { start: 39, end: 42 });
}

#[test]
fn test_request_capacity_bound() {
    let buf = b"INVITE x SIP/2.0\r\nA: 1\r\nB: 2\r\n\r\n";
    let mut req = Request::new(Headers::with_capacity(2));
    let result = req.parse(buf);
    assert_eq!(result, ParseResult::Done(buf.len()));
    assert!(req.headers.len() <= req.headers.capacity());
    assert_eq!(req.headers.len(), 2);
}

#[test]
fn test_request_capacity_exceeded() {
    let buf = b"INVITE x SIP/2.0\r\nA: 1\r\nB: 2\r\n\r\n";
    let mut req = Request::new(Headers::with_capacity(1));
    let result = req.parse(buf);
    assert_eq!(result, ParseResult::Failed(Error::NewLine, 24));
    assert_eq!(req.headers.len(), 1);
    assert_eq!(span_bytes(buf, &req.headers.get(0).name), b"A");
    assert_eq!(span_bytes(buf, &req.headers.get(0).value), b"1");
}

#[test]
fn test_request_folded_header() {
    let buf = b"INVITE x SIP/2.0\r\nX: a\r\n b\r\n\r\n";
    let mut req = Request::new(Headers::with_capacity(4));
    let result = req.parse(buf);
    assert_eq!(result, ParseResult::Done(buf.len()));
    assert_eq!(req.headers.len(), 1);
    assert_eq!(span_bytes(buf, &req.headers.get(0).name), b"X");
    assert_eq!(span_bytes(buf, &req.headers.get(0).value), b"a\r\n b");
}

#[test]
fn test_request_folded_header_trailing_blank_trimmed() {
    let buf = b"INVITE x SIP/2.0\r\nX: a\r\n b \r\n\r\n";
    let mut req = Request::new(Headers::with_capacity(4));
    let result = req.parse(buf);
    assert_eq!(result, ParseResult::Done(buf.len()));
    assert_eq!(req.headers.len(), 1);
    assert_eq!(span_bytes(buf, &req.headers.get(0).value), b"a\r\n b");
}

#[test]
fn test_response_bare_lf_in_header_line() {
    let buf = b"SIP/2.0 200 OK\r\nA: 1\n\r\n";
    let mut res = Response::new(Headers::with_capacity(4));
    let result = res.parse(buf);
    assert_eq!(result, ParseResult::Failed(Error::NewLine, 20));
}

#[test]
fn test_request_empty_method() {
    let buf = b"@ sip:x SIP/2.0\r\n\r\n";
    let mut req = Request::new(Headers::with_capacity(4));
    let result = req.parse(buf);
    assert_eq!(result, ParseResult::Failed(Error::Token, 0));
}

#[test]
fn test_request_empty_target() {
    let buf = b"INVITE  SIP/2.0\r\n\r\n";
    let mut req = Request::new(Headers::with_capacity(4));
    let result = req.parse(buf);
    assert_eq!(result, ParseResult::Failed(Error::Token, 7));
}

#[test]
fn test_request_bad_version() {
    let buf = b"GET / HTTP/1.1\r\n\r\n";
    let mut req = Request::new(Headers::with_capacity(4));
    let result = req.parse(buf);
    assert_eq!(result, ParseResult::Failed(Error::Version, 6));
}

#[test]
fn test_response_bad_status_digit() {
    let buf = b"SIP/2.0 2x0 \r\n\r\n";
    let mut res = Response::new(Headers::with_capacity(4));
    let result = res.parse(buf);
    assert_eq!(result, ParseResult::Failed(Error::Status, 9));
}

#[test]
fn test_request_header_value_bad_byte() {
    let buf = b"INVITE x SIP/2.0\r\nA: \x01ok\r\n\r\n";
    let mut req = Request::new(Headers::with_capacity(4));
    let result = req.parse(buf);
    assert_eq!(result, ParseResult::Failed(Error::HeaderValue, 21));
}

#[test]
fn test_request_header_missing_colon() {
    let buf = b"INVITE x SIP/2.0\r\nHost foo\r\n\r\n";
    let mut req = Request::new(Headers::with_capacity(4));
    let result = req.parse(buf);
    assert_eq!(result, ParseResult::Failed(Error::Delimiter, 23));
}

#[test]
fn test_request_version_case_insensitive() {
    let buf = b"INVITE x sip/2.0\r\n\r\n";
    let mut req = Request::new(Headers::with_capacity(4));
    let result = req.parse(buf);
    assert_eq!(result, ParseResult::Done(buf.len()));
    assert_eq!(req.version.unwrap(), SipVersion(2, 0));
}

#[test]
fn test_request_reused_across_messages() {
    let first = b"INVITE sip:bob@biloxi.com SIP/2.0\r\nTo: Bob\r\n\r\n";
    let second = b"ACK sip:a@b.c SIP/1.1\r\n\r\n";
    let mut req = Request::new(Headers::with_capacity(4));
    assert_eq!(req.parse(first), ParseResult::Done(first.len()));
    assert_eq!(req.parse(second), ParseResult::Done(second.len()));
    assert_eq!(span_bytes(second, &req.method.unwrap()), b"ACK");
    assert_eq!(span_bytes(second, &req.path.unwrap()), b"sip:a@b.c");
    assert_eq!(req.version.unwrap(), SipVersion(1, 1));
    assert_eq!(req.headers.len(), 0);
}

#[test]
fn test_response_incomplete_mid_headers_keeps_length() {
    let buf = b"SIP/2.0 200 OK\r\nHo";
    let mut res = Response::new(Headers::with_capacity(4));
    let result = res.parse(buf);
    assert!(matches!(result, ParseResult::NeedsMore(_)));
    assert_eq!(res.code.unwrap(), 200);
    assert_eq!(res.headers.len(), 0);
}

#[test]
fn test_response_with_headers() {
    let buf = b"SIP/2.0 180 Ringing\r\nVia: SIP/2.0/UDP pc.example.com\r\nContent-Length: 0\r\n\r\n";
    let mut res = Response::new(Headers::with_capacity(4));
    let result = res.parse(buf);
    assert_eq!(result, ParseResult::Done(buf.len()));
    assert_eq!(res.code.unwrap(), 180);
    assert_eq!(res.headers.len(), 2);
    assert_eq!(span_bytes(buf, &res.headers.get(0).name), b"Via");
    assert_eq!(span_bytes(buf, &res.headers.get(0).value), b"SIP/2.0/UDP pc.example.com");
    assert_eq!(span_bytes(buf, &res.headers.get(1).name), b"Content-Length");
    assert_eq!(span_bytes(buf, &res.headers.get(1).value), b"0");
}

#[test]
fn test_response_reason_multibyte_text() {
    let buf = b"SIP/2.0 200 d\xc3\xa9j\xc3\xa0 vu\r\n\r\n";
    let mut res = Response::new(Headers::with_capacity(4));
    let result = res.parse(buf);
    assert_eq!(result, ParseResult::Done(buf.len()));
    assert_eq!(span_bytes(buf, &res.reason.unwrap()), "d\u{e9}j\u{e0} vu".as_bytes());
}

#[test]
fn test_response_reason_overlong_encoding_rejected() {
    let buf = b"SIP/2.0 200 \xe0\x80\x80\r\n\r\n";
    let mut res = Response::new(Headers::with_capacity(4));
    let result = res.parse(buf);
    assert_eq!(result, ParseResult::Failed(Error::Encoding, 12));
}
