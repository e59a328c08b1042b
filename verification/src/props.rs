//! Laws of the parser, stated over the specification-level scanners.
//!
//! The central one is growth-monotonicity: feeding the parser any prefix of
//! a buffer whose parse completes can only report the same completed parse
//! or ask for more bytes — it can never report a violation, a different
//! result, or different field values. It rests on one fact per scanner: a
//! scan that completes (recognition or violation) on a truncated buffer
//! completes identically on the full one.
use vstd::prelude::*;

use crate::chars::{is_blank_byte, is_value_byte, COLON, CR, LF};
use crate::scan::{
    blank_class, lemma_span_end, lemma_span_end_take, reason_class, span_end, spec_code,
    spec_crlf, spec_opt_span, spec_reason, spec_req_span, spec_skip_lines, spec_sp, spec_version,
    token_class, uri_class, Error, Scan, Span,
};
use crate::sip::{
    hv_scan, lemma_headers_range, lemma_message_header_range, spec_header_value, spec_headers,
    spec_message_header, spec_request, spec_response, ParseResult,
};

verus! {

/// A line-terminator scan that completes on a truncation completes
/// identically on the full sequence.
pub proof fn lemma_crlf_take(s: Seq<u8>, k: int, p: int)
    requires
        s.len() <= usize::MAX,
        0 <= p,
        0 <= k <= s.len(),
    ensures
        !(spec_crlf(s.take(k), p) is More) ==> spec_crlf(s.take(k), p) == spec_crlf(s, p),
{
    let t = s.take(k);
    if p < k {
        assert(t[p] == s[p]);
        if p + 1 < k {
            assert(t[p + 1] == s[p + 1]);
        }
    }
}

/// A space scan that completes on a truncation completes identically on
/// the full sequence.
pub proof fn lemma_sp_take(s: Seq<u8>, k: int, p: int)
    requires
        s.len() <= usize::MAX,
        0 <= p,
        0 <= k <= s.len(),
    ensures
        !(spec_sp(s.take(k), p) is More) ==> spec_sp(s.take(k), p) == spec_sp(s, p),
{
    let t = s.take(k);
    if p < k {
        assert(t[p] == s[p]);
    }
}

/// A version scan that completes on a truncation completes identically on
/// the full sequence.
pub proof fn lemma_version_take(s: Seq<u8>, k: int, p: int)
    requires
        s.len() <= usize::MAX,
        0 <= p,
        0 <= k <= s.len(),
    ensures
        !(spec_version(s.take(k), p) is More) ==> spec_version(s.take(k), p) == spec_version(s, p),
{
    let t = s.take(k);
    assert forall|x: int| 0 <= x < k implies t[x] == s[x] by {}
}

/// A status-code scan that completes on a truncation completes identically
/// on the full sequence.
pub proof fn lemma_code_take(s: Seq<u8>, k: int, p: int)
    requires
        s.len() <= usize::MAX,
        0 <= p,
        0 <= k <= s.len(),
    ensures
        !(spec_code(s.take(k), p) is More) ==> spec_code(s.take(k), p) == spec_code(s, p),
{
    let t = s.take(k);
    assert forall|x: int| 0 <= x < k implies t[x] == s[x] by {}
}

/// A required-run scan that completes on a truncation completes
/// identically on the full sequence.
pub proof fn lemma_req_span_take(s: Seq<u8>, k: int, p: int, f: spec_fn(u8) -> bool, kind: Error)
    requires
        s.len() <= usize::MAX,
        0 <= p <= k <= s.len(),
    ensures
        !(spec_req_span(s.take(k), p, f, kind) is More) ==> spec_req_span(s.take(k), p, f, kind)
            == spec_req_span(s, p, f, kind),
{
    lemma_span_end_take(s, k, p, f);
    lemma_span_end(s, p, f);
}

/// An optional-run scan that completes on a truncation completes
/// identically on the full sequence.
pub proof fn lemma_opt_span_take(s: Seq<u8>, k: int, p: int, f: spec_fn(u8) -> bool)
    requires
        s.len() <= usize::MAX,
        0 <= p <= k <= s.len(),
    ensures
        !(spec_opt_span(s.take(k), p, f) is More) ==> spec_opt_span(s.take(k), p, f)
            == spec_opt_span(s, p, f),
{
    lemma_span_end_take(s, k, p, f);
    lemma_span_end(s, p, f);
}

/// A reason-phrase scan that completes on a truncation completes
/// identically on the full sequence.
pub proof fn lemma_reason_take(s: Seq<u8>, k: int, p: int)
    requires
        s.len() <= usize::MAX,
        0 <= p <= k <= s.len(),
    ensures
        !(spec_reason(s.take(k), p) is More) ==> spec_reason(s.take(k), p) == spec_reason(s, p),
{
    let t = s.take(k);
    lemma_opt_span_take(s, k, p, reason_class());
    lemma_span_end_take(s, k, p, reason_class());
    lemma_span_end(s, p, reason_class());
    if !(spec_opt_span(t, p, reason_class()) is More) {
        let e = span_end(s, p, reason_class());
        assert(t.subrange(p, e) =~= s.subrange(p, e));
    }
}

/// The blank-line skipper never reports a violation.
pub proof fn lemma_skip_no_fail(s: Seq<u8>, p: int)
    ensures
        !(spec_skip_lines(s, p) is Fail),
    decreases s.len() - p,
{
    if 0 <= p < s.len() {
        if s[p] == LF {
            lemma_skip_no_fail(s, p + 1);
        } else if s[p] == CR && p + 1 < s.len() && s[p + 1] == LF {
            lemma_skip_no_fail(s, p + 2);
        }
    }
}

/// A blank-line skip on a truncation either cannot be decided yet, stops
/// exactly at the truncation point, or agrees with the skip on the full
/// sequence.
pub proof fn lemma_skip_take(s: Seq<u8>, k: int, p: int)
    requires
        s.len() <= usize::MAX,
        0 <= p <= k <= s.len(),
    ensures
        spec_skip_lines(s.take(k), p) matches Scan::Found(v, j) ==> j == k || spec_skip_lines(
            s,
            p,
        ) == spec_skip_lines(s.take(k), p),
    decreases s.len() - p,
{
    let t = s.take(k);
    if p < k {
        assert(t[p] == s[p]);
        if s[p] == LF {
            lemma_skip_take(s, k, p + 1);
        } else if s[p] == CR {
            if p + 1 < k {
                assert(t[p + 1] == s[p + 1]);
                if s[p + 1] == LF {
                    lemma_skip_take(s, k, p + 2);
                }
            }
        }
    }
}

/// A header-value scan that completes on a truncation completes
/// identically on the full sequence.
pub proof fn lemma_hv_take(s: Seq<u8>, k: int, p: int, i: int, ce: int)
    requires
        s.len() <= usize::MAX,
        0 <= p <= i,
        i <= k <= s.len(),
        p <= ce <= i,
    ensures
        !(hv_scan(s.take(k), p, i, ce) is More) ==> hv_scan(s.take(k), p, i, ce) == hv_scan(
            s,
            p,
            i,
            ce,
        ),
    decreases k - i,
{
    let t = s.take(k);
    if i < k {
        assert(t[i] == s[i]);
        if s[i] == LF {
            if i + 1 < k {
                assert(t[i + 1] == s[i + 1]);
                if is_blank_byte(s[i + 1]) {
                    lemma_hv_take(s, k, p, i + 2, ce);
                } else if i > p {
                    assert(t[i - 1] == s[i - 1]);
                }
            }
        } else if is_blank_byte(s[i]) || s[i] == CR {
            lemma_hv_take(s, k, p, i + 1, ce);
        } else if is_value_byte(s[i]) {
            lemma_hv_take(s, k, p, i + 1, i + 1);
        }
    }
}

/// A header scan that completes on a truncation completes identically on
/// the full sequence.
pub proof fn lemma_mh_take(s: Seq<u8>, k: int, p: int)
    requires
        0 <= p <= k <= s.len(),
        s.len() <= usize::MAX,
    ensures
        !(spec_message_header(s.take(k), p) is More) ==> spec_message_header(s.take(k), p)
            == spec_message_header(s, p),
{
    let t = s.take(k);
    lemma_opt_span_take(s, k, p, token_class());
    lemma_span_end(s, p, token_class());
    lemma_span_end_take(s, k, p, token_class());
    match spec_opt_span(t, p, token_class()) {
        Scan::Found(name, p1) => {
            let q = p1 as int;
            lemma_span_end_take(s, k, q, blank_class());
            lemma_span_end(s, q, blank_class());
            let e2 = span_end(s, q, blank_class());
            let e2t = span_end(t, q, blank_class());
            if e2t < k {
                assert(t[e2t] == s[e2t]);
                if s[e2t] == COLON {
                    lemma_span_end_take(s, k, e2t + 1, blank_class());
                    lemma_span_end(s, e2t + 1, blank_class());
                    let p2 = span_end(t, e2t + 1, blank_class());
                    lemma_hv_take(s, k, p2, p2, p2);
                }
            }
        }
        _ => {}
    }
}

/// A header-block scan that completes on a truncation completes
/// identically on the full sequence: same headers, same count, same
/// stopping offset, or same violation.
pub proof fn lemma_headers_take(s: Seq<u8>, k: int, p: int, cap: nat)
    requires
        0 <= p <= k <= s.len(),
        s.len() <= usize::MAX,
        cap <= usize::MAX,
    ensures
        !(spec_headers(s.take(k), p, cap).res is More) ==> spec_headers(s.take(k), p, cap)
            == spec_headers(s, p, cap),
    decreases cap,
{
    let t = s.take(k);
    if cap > 0 {
        lemma_crlf_take(s, k, p);
        match spec_crlf(t, p) {
            Scan::Fail(_, _) => {
                lemma_mh_take(s, k, p);
                match spec_message_header(t, p) {
                    Scan::Found(hdr, n) => {
                        lemma_message_header_range(t, p);
                        lemma_headers_take(s, k, n as int, (cap - 1) as nat);
                    }
                    _ => {}
                }
            }
            _ => {}
        }
    }
}

/// A blank-line skip stops between its start and the end of the sequence.
pub proof fn lemma_skip_range(s: Seq<u8>, p: int)
    requires
        s.len() <= usize::MAX,
        0 <= p <= s.len(),
    ensures
        spec_skip_lines(s, p) matches Scan::Found(v, j) ==> p <= j <= s.len(),
    decreases s.len() - p,
{
    if p < s.len() {
        if s[p] == LF {
            lemma_skip_range(s, p + 1);
        } else if s[p] == CR && p + 1 < s.len() && s[p + 1] == LF {
            lemma_skip_range(s, p + 2);
        }
    }
}

/// A request parse that completes on a truncation of the buffer — with the
/// message recognized or with a violation — comes out identical on the
/// full buffer: same outcome and the same recognized fields.
#[verifier::rlimit(100)]
pub proof fn lemma_request_take(s: Seq<u8>, k: int, cap: nat)
    requires
        s.len() <= usize::MAX,
        cap <= usize::MAX,
        0 <= k <= s.len(),
    ensures
        !(spec_request(s.take(k), cap).out is NeedsMore) ==> spec_request(s.take(k), cap)
            == spec_request(s, cap),
{
    let t = s.take(k);
    lemma_skip_no_fail(t, 0);
    lemma_skip_take(s, k, 0);
    lemma_skip_range(t, 0);
    match spec_skip_lines(t, 0) {
        Scan::Found(_, j0) => {
            let p0 = j0 as int;
            lemma_req_span_take(s, k, p0, token_class(), Error::Token);
            match spec_req_span(t, p0, token_class(), Error::Token) {
                Scan::Found(m, j1) => {
                    let p1 = j1 as int;
                    lemma_sp_take(s, k, p1);
                    match spec_sp(t, p1) {
                        Scan::Found(_, j2) => {
                            let p2 = j2 as int;
                            lemma_req_span_take(s, k, p2, uri_class(), Error::Token);
                            match spec_req_span(t, p2, uri_class(), Error::Token) {
                                Scan::Found(u, j3) => {
                                    let p3 = j3 as int;
                                    lemma_sp_take(s, k, p3);
                                    match spec_sp(t, p3) {
                                        Scan::Found(_, j4) => {
                                            let p4 = j4 as int;
                                            lemma_version_take(s, k, p4);
                                            match spec_version(t, p4) {
                                                Scan::Found(v, j5) => {
                                                    let p5 = j5 as int;
                                                    lemma_crlf_take(s, k, p5);
                                                    match spec_crlf(t, p5) {
                                                        Scan::Found(_, j6) => {
                                                            let p6 = j6 as int;
                                                            lemma_headers_take(s, k, p6, cap);
                                                            lemma_headers_range(t, p6, cap);
                                                            match spec_headers(t, p6, cap).res {
                                                                Scan::Found(_, j7) => {
                                                                    let p7 = j7 as int;
                                                                    lemma_crlf_take(s, k, p7);
                                                                }
                                                                _ => {}
                                                            }
                                                        }
                                                        _ => {}
                                                    }
                                                }
                                                _ => {}
                                            }
                                        }
                                        _ => {}
                                    }
                                }
                                _ => {}
                            }
                        }
                        _ => {}
                    }
                }
                _ => {}
            }
        }
        _ => {}
    }
}

/// A response parse that completes on a truncation of the buffer comes out
/// identical on the full buffer, as [`lemma_request_take`] shows for
/// requests.
#[verifier::rlimit(100)]
pub proof fn lemma_response_take(s: Seq<u8>, k: int, cap: nat)
    requires
        s.len() <= usize::MAX,
        cap <= usize::MAX,
        0 <= k <= s.len(),
    ensures
        !(spec_response(s.take(k), cap).out is NeedsMore) ==> spec_response(s.take(k), cap)
            == spec_response(s, cap),
{
    let t = s.take(k);
    lemma_skip_no_fail(t, 0);
    lemma_skip_take(s, k, 0);
    lemma_skip_range(t, 0);
    match spec_skip_lines(t, 0) {
        Scan::Found(_, j0) => {
            let p0 = j0 as int;
            lemma_version_take(s, k, p0);
            match spec_version(t, p0) {
                Scan::Found(v, j1) => {
                    let p1 = j1 as int;
                    lemma_sp_take(s, k, p1);
                    match spec_sp(t, p1) {
                        Scan::Found(_, j2) => {
                            let p2 = j2 as int;
                            lemma_code_take(s, k, p2);
                            match spec_code(t, p2) {
                                Scan::Found(c, j3) => {
                                    let p3 = j3 as int;
                                    lemma_sp_take(s, k, p3);
                                    match spec_sp(t, p3) {
                                        Scan::Found(_, j4) => {
                                            let p4 = j4 as int;
                                            lemma_reason_take(s, k, p4);
                                            lemma_span_end(t, p4, reason_class());
                                            lemma_span_end_take(s, k, p4, reason_class());
                                            match spec_reason(t, p4) {
                                                Scan::Found(rp, j5) => {
                                                    let p5 = j5 as int;
                                                    lemma_crlf_take(s, k, p5);
                                                    match spec_crlf(t, p5) {
                                                        Scan::Found(_, j6) => {
                                                            let p6 = j6 as int;
                                                            lemma_headers_take(s, k, p6, cap);
                                                            lemma_headers_range(t, p6, cap);
                                                            match spec_headers(t, p6, cap).res {
                                                                Scan::Found(_, j7) => {
                                                                    let p7 = j7 as int;
                                                                    lemma_crlf_take(s, k, p7);
                                                                }
                                                                _ => {}
                                                            }
                                                        }
                                                        _ => {}
                                                    }
                                                }
                                                _ => {}
                                            }
                                        }
                                        _ => {}
                                    }
                                }
                                _ => {}
                            }
                        }
                        _ => {}
                    }
                }
                _ => {}
            }
        }
        _ => {}
    }
}

/// Idempotence under growth, for requests: when a buffer parses completely,
/// any prefix of it parses either to that very same completed result — with
/// identical field values and consumed count, and only when the prefix
/// holds the whole consumed message — or to a report that more bytes are
/// needed; never to a violation. So fields recognized on a shorter buffer
/// are never rolled back or contradicted as the buffer grows, and
/// re-parsing a completely parsed buffer is a function of the bytes alone:
/// it yields the identical fields and consumed count again.
pub proof fn lemma_request_growth(s: Seq<u8>, k: int, cap: nat)
    requires
        s.len() <= usize::MAX,
        cap <= usize::MAX,
        0 <= k <= s.len(),
        spec_request(s, cap).out is Done,
    ensures
        spec_request(s.take(k), cap).out is Done || spec_request(s.take(k), cap).out is NeedsMore,
        spec_request(s.take(k), cap).out is Done ==> spec_request(s.take(k), cap) == spec_request(
            s,
            cap,
        ),
        spec_request(s.take(k), cap).out matches ParseResult::Done(n) ==> n <= k,
{
    lemma_request_take(s, k, cap);
    lemma_request_range(s.take(k), cap);
}

/// Idempotence under growth, for responses, as [`lemma_request_growth`]
/// states it for requests.
pub proof fn lemma_response_growth(s: Seq<u8>, k: int, cap: nat)
    requires
        s.len() <= usize::MAX,
        cap <= usize::MAX,
        0 <= k <= s.len(),
        spec_response(s, cap).out is Done,
    ensures
        spec_response(s.take(k), cap).out is Done || spec_response(s.take(k), cap).out
            is NeedsMore,
        spec_response(s.take(k), cap).out is Done ==> spec_response(s.take(k), cap)
            == spec_response(s, cap),
        spec_response(s.take(k), cap).out matches ParseResult::Done(n) ==> n <= k,
{
    lemma_response_take(s, k, cap);
    lemma_response_range(s.take(k), cap);
}

/// Zero-copy, for requests: every span a request parse reports — method,
/// request target, and each header's name and value — is a sub-range of
/// the buffer, and a completed parse consumed no more bytes than the
/// buffer holds.
pub proof fn lemma_request_range(s: Seq<u8>, cap: nat)
    requires
        s.len() <= usize::MAX,
        cap <= usize::MAX,
    ensures
        ({
            let sp = spec_request(s, cap);
            &&& (sp.out matches ParseResult::Done(n) ==> n <= s.len())
            &&& (sp.method matches Some(m) ==> m.start <= m.end <= s.len())
            &&& (sp.path matches Some(u) ==> u.start <= u.end <= s.len())
            &&& forall|j: int|
                0 <= j < sp.hwrit.len() ==> (#[trigger] sp.hwrit[j]).name.start
                    <= sp.hwrit[j].name.end <= s.len() && sp.hwrit[j].value.start
                    <= sp.hwrit[j].value.end <= s.len()
        }),
{
    lemma_skip_range(s, 0);
    match spec_skip_lines(s, 0) {
        Scan::Found(_, j0) => {
            let p0 = j0 as int;
            lemma_span_end(s, p0, token_class());
            match spec_req_span(s, p0, token_class(), Error::Token) {
                Scan::Found(m, j1) => {
                    let p1 = j1 as int;
                    match spec_sp(s, p1) {
                        Scan::Found(_, j2) => {
                            let p2 = j2 as int;
                            lemma_span_end(s, p2, uri_class());
                            match spec_req_span(s, p2, uri_class(), Error::Token) {
                                Scan::Found(u, j3) => {
                                    match spec_sp(s, j3 as int) {
                                        Scan::Found(_, j4) => {
                                            match spec_version(s, j4 as int) {
                                                Scan::Found(v, j5) => {
                                                    match spec_crlf(s, j5 as int) {
                                                        Scan::Found(_, j6) => {
                                                            lemma_headers_range(
                                                                s,
                                                                j6 as int,
                                                                cap,
                                                            );
                                                        }
                                                        _ => {}
                                                    }
                                                }
                                                _ => {}
                                            }
                                        }
                                        _ => {}
                                    }
                                }
                                _ => {}
                            }
                        }
                        _ => {}
                    }
                }
                _ => {}
            }
        }
        _ => {}
    }
}

/// Zero-copy, for responses: every span a response parse reports — reason
/// phrase, and each header's name and value — is a sub-range of the
/// buffer, and a completed parse consumed no more bytes than the buffer
/// holds.
pub proof fn lemma_response_range(s: Seq<u8>, cap: nat)
    requires
        s.len() <= usize::MAX,
        cap <= usize::MAX,
    ensures
        ({
            let sp = spec_response(s, cap);
            &&& (sp.out matches ParseResult::Done(n) ==> n <= s.len())
            &&& (sp.reason matches Some(rp) ==> rp.start <= rp.end <= s.len())
            &&& forall|j: int|
                0 <= j < sp.hwrit.len() ==> (#[trigger] sp.hwrit[j]).name.start
                    <= sp.hwrit[j].name.end <= s.len() && sp.hwrit[j].value.start
                    <= sp.hwrit[j].value.end <= s.len()
        }),
{
    lemma_skip_range(s, 0);
    match spec_skip_lines(s, 0) {
        Scan::Found(_, j0) => {
            match spec_version(s, j0 as int) {
                Scan::Found(v, j1) => {
                    match spec_sp(s, j1 as int) {
                        Scan::Found(_, j2) => {
                            match spec_code(s, j2 as int) {
                                Scan::Found(c, j3) => {
                                    match spec_sp(s, j3 as int) {
                                        Scan::Found(_, j4) => {
                                            let p4 = j4 as int;
                                            lemma_span_end(s, p4, reason_class());
                                            match spec_reason(s, p4) {
                                                Scan::Found(rp, j5) => {
                                                    match spec_crlf(s, j5 as int) {
                                                        Scan::Found(_, j6) => {
                                                            lemma_headers_range(
                                                                s,
                                                                j6 as int,
                                                                cap,
                                                            );
                                                        }
                                                        _ => {}
                                                    }
                                                }
                                                _ => {}
                                            }
                                        }
                                        _ => {}
                                    }
                                }
                                _ => {}
                            }
                        }
                        _ => {}
                    }
                }
                _ => {}
            }
        }
        _ => {}
    }
}

/// Capacity bound: a parse never recognizes more headers than the
/// collection's capacity, and a completely scanned header block holds at
/// most that many.
pub proof fn lemma_request_capacity(s: Seq<u8>, cap: nat)
    requires
        s.len() <= usize::MAX,
        cap <= usize::MAX,
    ensures
        spec_request(s, cap).hwrit.len() <= cap,
        spec_request(s, cap).headers matches Some(hs) ==> hs.len() <= cap,
{
    lemma_request_headers_stage(s, cap);
}

/// Capacity bound for responses, as [`lemma_request_capacity`] states it
/// for requests.
pub proof fn lemma_response_capacity(s: Seq<u8>, cap: nat)
    requires
        s.len() <= usize::MAX,
        cap <= usize::MAX,
    ensures
        spec_response(s, cap).hwrit.len() <= cap,
        spec_response(s, cap).headers matches Some(hs) ==> hs.len() <= cap,
{
    lemma_response_headers_stage(s, cap);
}

/// The headers a request parse reports all come from one header-block
/// scan, bounded by the collection's capacity.
proof fn lemma_request_headers_stage(s: Seq<u8>, cap: nat)
    requires
        s.len() <= usize::MAX,
        cap <= usize::MAX,
    ensures
        spec_request(s, cap).hwrit.len() <= cap,
        spec_request(s, cap).headers matches Some(hs) ==> hs == spec_request(s, cap).hwrit,
{
    lemma_skip_range(s, 0);
    match spec_skip_lines(s, 0) {
        Scan::Found(_, j0) => {
            match spec_req_span(s, j0 as int, token_class(), Error::Token) {
                Scan::Found(m, j1) => {
                    match spec_sp(s, j1 as int) {
                        Scan::Found(_, j2) => {
                            match spec_req_span(s, j2 as int, uri_class(), Error::Token) {
                                Scan::Found(u, j3) => {
                                    match spec_sp(s, j3 as int) {
                                        Scan::Found(_, j4) => {
                                            match spec_version(s, j4 as int) {
                                                Scan::Found(v, j5) => {
                                                    match spec_crlf(s, j5 as int) {
                                                        Scan::Found(_, j6) => {
                                                            lemma_headers_range(
                                                                s,
                                                                j6 as int,
                                                                cap,
                                                            );
                                                        }
                                                        _ => {}
                                                    }
                                                }
                                                _ => {}
                                            }
                                        }
                                        _ => {}
                                    }
                                }
                                _ => {}
                            }
                        }
                        _ => {}
                    }
                }
                _ => {}
            }
        }
        _ => {}
    }
}

/// The headers a response parse reports all come from one header-block
/// scan, bounded by the collection's capacity.
proof fn lemma_response_headers_stage(s: Seq<u8>, cap: nat)
    requires
        s.len() <= usize::MAX,
        cap <= usize::MAX,
    ensures
        spec_response(s, cap).hwrit.len() <= cap,
        spec_response(s, cap).headers matches Some(hs) ==> hs == spec_response(s, cap).hwrit,
{
    lemma_skip_range(s, 0);
    match spec_skip_lines(s, 0) {
        Scan::Found(_, j0) => {
            match spec_version(s, j0 as int) {
                Scan::Found(v, j1) => {
                    match spec_sp(s, j1 as int) {
                        Scan::Found(_, j2) => {
                            match spec_code(s, j2 as int) {
                                Scan::Found(c, j3) => {
                                    match spec_sp(s, j3 as int) {
                                        Scan::Found(_, j4) => {
                                            let p4 = j4 as int;
                                            lemma_span_end(s, p4, reason_class());
                                            match spec_reason(s, p4) {
                                                Scan::Found(rp, j5) => {
                                                    match spec_crlf(s, j5 as int) {
                                                        Scan::Found(_, j6) => {
                                                            lemma_headers_range(
                                                                s,
                                                                j6 as int,
                                                                cap,
                                                            );
                                                        }
                                                        _ => {}
                                                    }
                                                }
                                                _ => {}
                                            }
                                        }
                                        _ => {}
                                    }
                                }
                                _ => {}
                            }
                        }
                        _ => {}
                    }
                }
                _ => {}
            }
        }
        _ => {}
    }
}

/// A header-value content byte: one that is recorded as content, moving
/// the span's end — a value byte that is not a blank.
pub open spec fn is_content_byte(b: u8) -> bool {
    is_value_byte(b) && !is_blank_byte(b)
}

/// Scanning across a run of content bytes moves the content end to the end
/// of the run.
proof fn lemma_hv_over_content(s: Seq<u8>, p: int, i: int, j: int, ce: int)
    requires
        0 <= p <= i < j <= s.len(),
        p <= ce <= i,
        forall|x: int| i <= x < j ==> is_content_byte(#[trigger] s[x]),
    ensures
        hv_scan(s, p, i, ce) == hv_scan(s, p, j, j),
    decreases j - i,
{
    assert(s[i] != LF && s[i] != CR && !is_blank_byte(s[i]));
    if i + 1 < j {
        lemma_hv_over_content(s, p, i + 1, j, i + 1);
    }
}

/// Scanning across a run of blanks leaves the content end unmoved.
proof fn lemma_hv_over_blanks(s: Seq<u8>, p: int, i: int, j: int, ce: int)
    requires
        0 <= p <= i <= j <= s.len(),
        p <= ce <= i,
        forall|x: int| i <= x < j ==> is_blank_byte(#[trigger] s[x]) || s[x] == CR,
    ensures
        hv_scan(s, p, i, ce) == hv_scan(s, p, j, ce),
    decreases j - i,
{
    if i < j {
        assert(s[i] != LF);
        lemma_hv_over_blanks(s, p, i + 1, j, ce);
    }
}

/// Folding round-trip: a header value that spans two lines through a
/// `\r\n` followed by a blank is recognized as one value. Its span runs
/// from the value's first byte to the end of the second line's content, so
/// the interior `\r\n`, the fold blank and the content around them stand
/// in it verbatim, while the blanks after the true end of the content are
/// trimmed; scanning stops after the line's closing `\r\n`.
///
/// Here `p..i1` is the first line's content, `i1` the interior `\r\n`
/// whose following byte is the fold blank, `i1 + 3..i2` the second line's
/// content, `i2..i3` trailing blanks, and `i3` the closing `\r\n`, after
/// which the line is over (the next byte is not a blank).
pub proof fn lemma_value_folding(s: Seq<u8>, p: int, i1: int, i2: int, i3: int)
    requires
        s.len() <= usize::MAX,
        0 <= p < i1,
        i1 + 3 < i2,
        i2 <= i3,
        i3 + 2 < s.len(),
        forall|x: int| p <= x < i1 ==> is_content_byte(#[trigger] s[x]),
        s[i1] == CR && s[i1 + 1] == LF && is_blank_byte(s[i1 + 2]),
        forall|x: int| i1 + 3 <= x < i2 ==> is_content_byte(#[trigger] s[x]),
        forall|x: int| i2 <= x < i3 ==> is_blank_byte(#[trigger] s[x]),
        s[i3] == CR && s[i3 + 1] == LF && !is_blank_byte(s[i3 + 2]),
    ensures
        spec_header_value(s, p) == Scan::<Span>::Found(
            Span { start: p as usize, end: i2 as usize },
            (i3 + 2) as usize,
        ),
{
    lemma_hv_over_content(s, p, p, i1, p);
    assert(hv_scan(s, p, i1, i1) == hv_scan(s, p, i1 + 1, i1));
    assert(hv_scan(s, p, i1 + 1, i1) == hv_scan(s, p, i1 + 3, i1));
    lemma_hv_over_content(s, p, i1 + 3, i2, i1 + 3);
    assert(hv_scan(s, p, i1 + 3, i1) == hv_scan(s, p, i1 + 3, i1 + 3)) by {
        assert(is_content_byte(s[i1 + 3]));
    }
    lemma_hv_over_blanks(s, p, i2, i3, i2);
    assert(hv_scan(s, p, i3, i2) == hv_scan(s, p, i3 + 1, i2));
    assert(hv_scan(s, p, i3 + 1, i2) == Scan::<Span>::Found(
        Span { start: p as usize, end: i2 as usize },
        (i3 + 2) as usize,
    ));
}

/// A completed request parse recognized every field: the method, the
/// target, the version and the header block are all present, so what the
/// parse leaves in the result object no longer depends on anything set
/// before it ran.
pub proof fn lemma_request_done_fields(s: Seq<u8>, cap: nat)
    requires
        spec_request(s, cap).out is Done,
    ensures
        spec_request(s, cap).method is Some,
        spec_request(s, cap).path is Some,
        spec_request(s, cap).version is Some,
        spec_request(s, cap).headers is Some,
{
}

/// A completed response parse recognized every field, as
/// [`lemma_request_done_fields`] states for requests.
pub proof fn lemma_response_done_fields(s: Seq<u8>, cap: nat)
    requires
        spec_response(s, cap).out is Done,
    ensures
        spec_response(s, cap).version is Some,
        spec_response(s, cap).code is Some,
        spec_response(s, cap).reason is Some,
        spec_response(s, cap).headers is Some,
{
}

} // verus!
