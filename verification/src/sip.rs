//! SIP message parsing: headers, the header block, and the `Request` and
//! `Response` entry points.
//!
//! A parse never copies message bytes: every recognized field is a [`Span`]
//! of offsets into the caller's buffer. A parse may be re-run on the same
//! object as the caller's buffer grows; each run re-evaluates the whole
//! buffer from its start and overwrites the fields it recognizes, and a run
//! that ends early (more bytes needed, or a violation) leaves every field
//! recognized before that point readable.
use vstd::prelude::*;

use crate::chars::{blank_byte, is_blank_byte, is_value_byte, value_byte, COLON, CR, HTAB, LF, SP};
use crate::scan::{
    lemma_span_end, scan_code, scan_crlf, scan_hcolon, scan_name, scan_reason, scan_sp,
    scan_token, scan_uri, scan_version, skip_blank_lines, span_end, spec_code, spec_crlf,
    spec_hcolon, spec_opt_span, spec_reason, spec_req_span, spec_skip_lines, spec_sp,
    spec_version, blank_class, token_class, uri_class, Error, Scan, SipVersion, Span,
};

verus! {

/// A parsed header: its name, a span of token bytes, and its value, a span
/// of the bytes between the colon and the line's end, with line folds kept
/// verbatim and trailing blanks trimmed.
#[derive(Clone, Copy, PartialEq, Eq, Structural, Debug)]
pub struct Header {
    /// The name portion of the header. Every byte is a token byte, so the
    /// span is valid US-ASCII text.
    pub name: Span,
    /// The value portion of the header. The grammar admits non-ASCII
    /// bytes, so the span is not guaranteed to be text.
    pub value: Span,
}

impl Header {
    /// A header whose spans are empty, for filling unused collection slots.
    pub fn empty() -> (h: Header)
        ensures
            h == (Header { name: Span { start: 0, end: 0 }, value: Span { start: 0, end: 0 } }),
    {
        Header { name: Span { start: 0, end: 0 }, value: Span { start: 0, end: 0 } }
    }
}

/// A fixed-capacity collection of header slots, allocated once by the
/// caller and reused across parses. Its capacity never changes; its
/// effective length — how many slots hold meaningful data — is tracked
/// separately and is all that the collection exposes.
pub struct Headers {
    slots: Vec<Header>,
    count: usize,
}

impl Headers {
    /// All slots, including those beyond the effective length.
    pub closed spec fn slot_seq(&self) -> Seq<Header> {
        self.slots@
    }

    /// The effective length.
    pub closed spec fn count_spec(&self) -> nat {
        self.count as nat
    }

    /// The fixed capacity.
    pub open spec fn cap(&self) -> nat {
        self.slot_seq().len()
    }

    /// The effective length never exceeds the capacity.
    pub open spec fn inv(&self) -> bool {
        self.count_spec() <= self.cap()
    }

    /// Allocates a collection of `cap` empty slots with effective length 0.
    pub fn with_capacity(cap: usize) -> (h: Headers)
        ensures
            h.inv(),
            h.cap() == cap,
            h@ == Seq::<Header>::empty(),
    {
        let mut slots: Vec<Header> = Vec::new();
        let mut i: usize = 0;
        while i < cap
            invariant
                slots@.len() == i,
                i <= cap,
            decreases cap - i,
        {
            slots.push(Header::empty());
            i = i + 1;
        }
        let h = Headers { slots, count: 0 };
        proof {
            assert(h@ =~= Seq::<Header>::empty());
        }
        h
    }

    /// The capacity the collection was allocated with.
    pub fn capacity(&self) -> (n: usize)
        ensures
            n as nat == self.cap(),
    {
        self.slots.len()
    }

    /// The effective length: how many slots hold meaningful data.
    pub fn len(&self) -> (n: usize)
        ensures
            n as nat == self.count_spec(),
            self.inv() ==> n as nat == self@.len(),
    {
        self.count
    }

    /// The header in slot `i`, which must lie within the effective length.
    pub fn get(&self, i: usize) -> (h: Header)
        requires
            self.inv(),
            i < self@.len(),
        ensures
            h == self@[i as int],
    {
        self.slots[i]
    }
}

impl View for Headers {
    type V = Seq<Header>;

    /// The valid prefix: the slots within the effective length.
    closed spec fn view(&self) -> Seq<Header> {
        self.slots@.take(self.count as int)
    }
}

/// The header-value scan in progress: `p` is where the value began, `i`
/// where scanning has reached, and `ce` one past the last content byte seen
/// so far. Blanks and carriage returns are stepped over without moving
/// `ce`, so trailing blanks are trimmed from the reported span; a line feed
/// followed by a blank is a fold and stays inside the value; a line feed
/// after anything else ends the value, and must complete a strict `\r\n`.
pub open spec fn hv_scan(s: Seq<u8>, p: int, i: int, ce: int) -> Scan<Span>
    decreases s.len() - i,
{
    if i < p || i >= s.len() {
        Scan::More(None)
    } else if s[i] == LF {
        if i + 1 >= s.len() {
            Scan::More(Some(1))
        } else if is_blank_byte(s[i + 1]) {
            hv_scan(s, p, i + 2, ce)
        } else if i > p && s[i - 1] == CR {
            Scan::Found(Span { start: p as usize, end: ce as usize }, (i + 1) as usize)
        } else {
            Scan::Fail(Error::NewLine, i as usize)
        }
    } else if s[i] == SP || s[i] == HTAB || s[i] == CR {
        hv_scan(s, p, i + 1, ce)
    } else if is_value_byte(s[i]) {
        hv_scan(s, p, i + 1, i + 1)
    } else {
        Scan::Fail(Error::HeaderValue, i as usize)
    }
}

/// Scans one header value beginning at `p`, including its terminating
/// `\r\n`: [`hv_scan`] started with no content seen yet.
pub open spec fn spec_header_value(s: Seq<u8>, p: int) -> Scan<Span> {
    hv_scan(s, p, p, p)
}

/// Bounds of a completed header-value scan: the reported span starts at
/// `p`, ends at or before the stopping offset, and everything stays within
/// the buffer.
pub proof fn lemma_hv_range(s: Seq<u8>, p: int, i: int, ce: int)
    requires
        s.len() <= usize::MAX,
        0 <= p <= i <= s.len(),
        p <= ce <= i,
    ensures
        hv_scan(s, p, i, ce) matches Scan::Found(sp, n) ==> sp.start == p && p <= sp.end
            && sp.end as int <= n <= s.len(),
    decreases s.len() - i,
{
    if i < s.len() {
        if s[i] == LF {
            if i + 1 < s.len() && is_blank_byte(s[i + 1]) {
                lemma_hv_range(s, p, i + 2, ce);
            }
        } else if s[i] == SP || s[i] == HTAB || s[i] == CR {
            lemma_hv_range(s, p, i + 1, ce);
        } else if is_value_byte(s[i]) {
            lemma_hv_range(s, p, i + 1, i + 1);
        }
    }
}

/// Runtime scanner for [`spec_header_value`].
pub fn header_value(buf: &[u8], p: usize) -> (r: Scan<Span>)
    requires
        p <= buf@.len(),
    ensures
        r == spec_header_value(buf@, p as int),
        r matches Scan::Found(sp, n) ==> p <= sp.start <= sp.end && sp.end <= n <= buf@.len(),
{
    let mut i: usize = p;
    let mut ce: usize = p;
    loop
        invariant
            p <= i <= buf@.len(),
            p <= ce <= i,
            spec_header_value(buf@, p as int) == hv_scan(buf@, p as int, i as int, ce as int),
        decreases buf@.len() - i,
    {
        if i >= buf.len() {
            return Scan::More(None);
        }
        let b = buf[i];
        if b == LF {
            if i + 1 >= buf.len() {
                return Scan::More(Some(1));
            }
            if blank_byte(buf[i + 1]) {
                i = i + 2;
            } else if i > p && buf[i - 1] == CR {
                return Scan::Found(Span { start: p, end: ce }, i + 1);
            } else {
                return Scan::Fail(Error::NewLine, i);
            }
        } else if b == SP || b == HTAB || b == CR {
            i = i + 1;
        } else if value_byte(b) {
            ce = i + 1;
            i = i + 1;
        } else {
            return Scan::Fail(Error::HeaderValue, i);
        }
    }
}

/// Scans one `name: value` header line beginning at `p`: an optional token
/// run, the colon with its surrounding blanks, then the folded value with
/// its terminating `\r\n`.
pub open spec fn spec_message_header(s: Seq<u8>, p: int) -> Scan<Header> {
    match spec_opt_span(s, p, token_class()) {
        Scan::Found(name, p1) => match spec_hcolon(s, p1 as int) {
            Scan::Found(_, p2) => match spec_header_value(s, p2 as int) {
                Scan::Found(value, p3) => Scan::Found(Header { name, value }, p3),
                Scan::More(h) => Scan::More(h),
                Scan::Fail(e, a) => Scan::Fail(e, a),
            },
            Scan::More(h) => Scan::More(h),
            Scan::Fail(e, a) => Scan::Fail(e, a),
        },
        Scan::More(h) => Scan::More(h),
        Scan::Fail(e, a) => Scan::Fail(e, a),
    }
}

/// Bounds of a completed header scan: both spans lie between `p` and the
/// stopping offset, name before value.
pub proof fn lemma_message_header_range(s: Seq<u8>, p: int)
    requires
        s.len() <= usize::MAX,
        0 <= p <= s.len(),
    ensures
        spec_message_header(s, p) matches Scan::Found(h, n) ==> p <= n <= s.len()
            && h.name.start == p && h.name.start <= h.name.end
            && h.name.end as int <= h.value.start as int
            && h.value.start <= h.value.end && h.value.end as int <= n,
{
    lemma_span_end(s, p, token_class());
    let e1 = span_end(s, p, token_class());
    if e1 < s.len() {
        lemma_span_end(s, e1, blank_class());
        let e2 = span_end(s, e1, blank_class());
        if e2 < s.len() && s[e2] == COLON {
            lemma_span_end(s, e2 + 1, blank_class());
            let p2 = span_end(s, e2 + 1, blank_class());
            lemma_hv_range(s, p2, p2, p2);
        }
    }
}

/// Runtime scanner for [`spec_message_header`].
pub fn message_header(buf: &[u8], p: usize) -> (r: Scan<Header>)
    requires
        p <= buf@.len(),
    ensures
        r == spec_message_header(buf@, p as int),
        r matches Scan::Found(h, n) ==> p <= n <= buf@.len(),
{
    let r0 = scan_name(buf, p);
    proof {
        lemma_span_end(buf@, p as int, token_class());
    }
    match r0 {
        Scan::Found(name, p1) => match scan_hcolon(buf, p1) {
            Scan::Found(_, p2) => {
                proof {
                    lemma_span_end(buf@, p1 as int, blank_class());
                    let e2 = span_end(buf@, p1 as int, blank_class());
                    lemma_span_end(buf@, e2 + 1, blank_class());
                }
                match header_value(buf, p2) {
                    Scan::Found(value, p3) => Scan::Found(Header { name, value }, p3),
                    Scan::More(h) => Scan::More(h),
                    Scan::Fail(e, a) => Scan::Fail(e, a),
                }
            }
            Scan::More(h) => Scan::More(h),
            Scan::Fail(e, a) => Scan::Fail(e, a),
        },
        Scan::More(h) => Scan::More(h),
        Scan::Fail(e, a) => Scan::Fail(e, a),
    }
}

/// The outcome of scanning a header block: the headers recognized and
/// written into slots, and the scan's result. When the block completes,
/// the result carries the count of headers written and the offset of the
/// blank terminator line (or of the first header line that no longer fit).
pub struct HeadersOut {
    /// The headers recognized so far, in order.
    pub hs: Seq<Header>,
    /// The block's result; a `Found` count always equals `hs.len()`.
    pub res: Scan<usize>,
}

/// Scans the header block beginning at `p` into at most `cap` slots.
/// Scanning stops without consuming anything further when the next bytes
/// are a blank line (left for the caller), or when `cap` headers have been
/// recognized (any remaining header lines are also left in place).
pub open spec fn spec_headers(s: Seq<u8>, p: int, cap: nat) -> HeadersOut
    decreases cap,
{
    if cap == 0 {
        HeadersOut { hs: Seq::empty(), res: Scan::Found(0, p as usize) }
    } else {
        match spec_crlf(s, p) {
            Scan::Found(_, _) => HeadersOut { hs: Seq::empty(), res: Scan::Found(0, p as usize) },
            Scan::More(h) => HeadersOut { hs: Seq::empty(), res: Scan::More(h) },
            Scan::Fail(_, _) => match spec_message_header(s, p) {
                Scan::Found(hdr, n) => {
                    let rest = spec_headers(s, n as int, (cap - 1) as nat);
                    HeadersOut {
                        hs: seq![hdr] + rest.hs,
                        res: match rest.res {
                            Scan::Found(c, q) => Scan::Found((c + 1) as usize, q),
                            r => r,
                        },
                    }
                }
                Scan::More(h) => HeadersOut { hs: Seq::empty(), res: Scan::More(h) },
                Scan::Fail(e, a) => HeadersOut { hs: Seq::empty(), res: Scan::Fail(e, a) },
            },
        }
    }
}

/// Bounds of a header-block scan: at most `cap` headers are recognized, a
/// completed block's count equals the number recognized, scanning stays
/// within the buffer, and every recognized span lies within the buffer.
pub proof fn lemma_headers_range(s: Seq<u8>, p: int, cap: nat)
    requires
        s.len() <= usize::MAX,
        cap <= usize::MAX,
        0 <= p <= s.len(),
    ensures
        spec_headers(s, p, cap).hs.len() <= cap,
        spec_headers(s, p, cap).res matches Scan::Found(c, q) ==> c as nat == spec_headers(
            s,
            p,
            cap,
        ).hs.len() && p <= q <= s.len(),
        forall|j: int|
            0 <= j < spec_headers(s, p, cap).hs.len() ==> {
                let h = #[trigger] spec_headers(s, p, cap).hs[j];
                &&& p <= h.name.start <= h.name.end <= s.len()
                &&& p <= h.value.start <= h.value.end <= s.len()
            },
    decreases cap,
{
    if cap > 0 {
        lemma_message_header_range(s, p);
        match spec_crlf(s, p) {
            Scan::Fail(_, _) => {
                match spec_message_header(s, p) {
                    Scan::Found(hdr, n) => {
                        lemma_headers_range(s, n as int, (cap - 1) as nat);
                    }
                    _ => {}
                }
            }
            _ => {}
        }
    }
}

/// Scans headers from `buf` at `p` into the collection's slots, writing
/// each recognized header into the next free slot in place.
///
/// On a completed block the collection's effective length is set to the
/// count of headers written; when the buffer ends or a violation stops the
/// block early, slots already written keep the headers recognized before
/// that point but the effective length is left as it was.
#[verifier::rlimit(50)]
pub fn parse_headers(buf: &[u8], p: usize, headers: &mut Headers) -> (r: Scan<usize>)
    requires
        p <= buf@.len(),
        old(headers).inv(),
    ensures
        final(headers).inv(),
        final(headers).cap() == old(headers).cap(),
        ({
            let out = spec_headers(buf@, p as int, old(headers).cap());
            &&& r == out.res
            &&& forall|j: int|
                0 <= j < out.hs.len() ==> #[trigger] final(headers).slot_seq()[j] == out.hs[j]
            &&& forall|j: int|
                out.hs.len() <= j < final(headers).cap()
                    ==> #[trigger] final(headers).slot_seq()[j] == old(headers).slot_seq()[j]
            &&& (r is Found ==> final(headers)@ == out.hs)
            &&& (!(r is Found) ==> final(headers).count_spec() == old(headers).count_spec())
        }),
{
    let cap = headers.slots.len();
    let ghost full = spec_headers(buf@, p as int, cap as nat);
    let mut i: usize = 0;
    let mut q: usize = p;
    proof {
        assert(buf@.len() <= usize::MAX) by {
            let n = vstd::slice::spec_slice_len(buf);
            vstd::slice::axiom_spec_len(buf);
        }
    }
    loop
        invariant
            i <= cap,
            q <= buf@.len(),
            buf@.len() <= usize::MAX,
            cap == headers.slots@.len(),
            cap as nat == old(headers).cap(),
            headers.count == old(headers).count,
            old(headers).inv(),
            full == spec_headers(buf@, p as int, cap as nat),
            ({
                let rest = spec_headers(buf@, q as int, (cap - i) as nat);
                &&& full.hs == headers.slots@.take(i as int) + rest.hs
                &&& full.res == match rest.res {
                    Scan::Found(c, q2) => Scan::Found((c + i) as usize, q2),
                    r => r,
                }
            }),
            forall|j: int|
                i <= j < cap ==> #[trigger] headers.slots@[j] == old(headers).slots@[j],
        ensures
            i <= cap,
            q <= buf@.len(),
            cap == headers.slots@.len(),
            headers.count == old(headers).count,
            full.hs == headers.slots@.take(i as int),
            full.res == Scan::Found(i, q),
            forall|j: int|
                i <= j < cap ==> #[trigger] headers.slots@[j] == old(headers).slots@[j],
        decreases cap - i,
    {
        proof {
            lemma_headers_range(buf@, q as int, (cap - i) as nat);
        }
        if i >= cap {
            proof {
                assert(full.hs =~= headers.slots@.take(i as int));
            }
            break ;
        }
        let peek = scan_crlf(buf, q);
        if let Scan::More(h) = peek {
            return Scan::More(h);
        }
        if let Scan::Found(_, _) = peek {
            proof {
                assert(full.hs =~= headers.slots@.take(i as int));
            }
            break ;
        }
        match message_header(buf, q) {
            Scan::Found(hdr, n) => {
                proof {
                    lemma_message_header_range(buf@, q as int);
                    lemma_headers_range(buf@, n as int, (cap - (i + 1)) as nat);
                }
                let ghost pre = headers.slots@;
                headers.slots[i] = hdr;
                proof {
                    assert(headers.slots@.take((i + 1) as int) =~= pre.take(i as int) + seq![hdr]);
                    assert(full.hs =~= headers.slots@.take((i + 1) as int) + spec_headers(
                        buf@,
                        n as int,
                        (cap - (i + 1)) as nat,
                    ).hs);
                }
                i = i + 1;
                q = n;
            }
            Scan::More(h) => {
                return Scan::More(h);
            }
            Scan::Fail(e, a) => {
                return Scan::Fail(e, a);
            }
        }
    }
    headers.count = i;
    proof {
        assert(headers@ =~= full.hs);
    }
    Scan::Found(i, q)
}

/// The outcome of a whole parse.
#[derive(Clone, Copy, PartialEq, Eq, Debug)]
pub enum ParseResult {
    /// The message parsed completely; the payload is the number of bytes
    /// consumed from the start of the buffer.
    Done(usize),
    /// The buffer ended before the message could be decided; the payload
    /// hints how many further bytes would let the parse progress, where
    /// that is known.
    NeedsMore(Option<usize>),
    /// The input violates the grammar: the kind of violation, and the
    /// offending byte's offset.
    Failed(Error, usize),
}

/// Everything one request parse determines: each line field the scan
/// recognized (`None` where the scan did not reach or complete that
/// field), the headers written into slots, the completed header block if
/// the block was scanned to its end, and the overall outcome.
pub struct SpecRequest {
    /// The method span, once recognized.
    pub method: Option<Span>,
    /// The request-target span, once recognized.
    pub path: Option<Span>,
    /// The version, once recognized.
    pub version: Option<SipVersion>,
    /// Headers written into slots, even when the block did not complete.
    pub hwrit: Seq<Header>,
    /// The header block, once completely scanned.
    pub headers: Option<Seq<Header>>,
    /// The overall outcome.
    pub out: ParseResult,
}

/// Parses a whole request from the start of `s` into a collection of
/// capacity `cap`: blank lines, then `Method SP Request-URI SP SIP-Version
/// CRLF`, then the header block, then the blank terminator line. Each field
/// is recognized the moment its own scan completes, and stays recognized
/// whatever happens later.
pub open spec fn spec_request(s: Seq<u8>, cap: nat) -> SpecRequest {
    let none = SpecRequest {
        method: None,
        path: None,
        version: None,
        hwrit: Seq::empty(),
        headers: None,
        out: ParseResult::Done(0),
    };
    match spec_skip_lines(s, 0) {
        Scan::More(h) => SpecRequest { out: ParseResult::NeedsMore(h), ..none },
        Scan::Fail(e, a) => SpecRequest { out: ParseResult::Failed(e, a), ..none },
        Scan::Found(_, p0) => match spec_req_span(s, p0 as int, token_class(), Error::Token) {
            Scan::More(h) => SpecRequest { out: ParseResult::NeedsMore(h), ..none },
            Scan::Fail(e, a) => SpecRequest { out: ParseResult::Failed(e, a), ..none },
            Scan::Found(m, p1) => match spec_sp(s, p1 as int) {
                Scan::More(h) => SpecRequest {
                    method: Some(m),
                    out: ParseResult::NeedsMore(h),
                    ..none
                },
                Scan::Fail(e, a) => SpecRequest {
                    method: Some(m),
                    out: ParseResult::Failed(e, a),
                    ..none
                },
                Scan::Found(_, p2) => match spec_req_span(s, p2 as int, uri_class(), Error::Token) {
                    Scan::More(h) => SpecRequest {
                        method: Some(m),
                        out: ParseResult::NeedsMore(h),
                        ..none
                    },
                    Scan::Fail(e, a) => SpecRequest {
                        method: Some(m),
                        out: ParseResult::Failed(e, a),
                        ..none
                    },
                    Scan::Found(u, p3) => match spec_sp(s, p3 as int) {
                        Scan::More(h) => SpecRequest {
                            method: Some(m),
                            path: Some(u),
                            out: ParseResult::NeedsMore(h),
                            ..none
                        },
                        Scan::Fail(e, a) => SpecRequest {
                            method: Some(m),
                            path: Some(u),
                            out: ParseResult::Failed(e, a),
                            ..none
                        },
                        Scan::Found(_, p4) => match spec_version(s, p4 as int) {
                            Scan::More(h) => SpecRequest {
                                method: Some(m),
                                path: Some(u),
                                out: ParseResult::NeedsMore(h),
                                ..none
                            },
                            Scan::Fail(e, a) => SpecRequest {
                                method: Some(m),
                                path: Some(u),
                                out: ParseResult::Failed(e, a),
                                ..none
                            },
                            Scan::Found(v, p5) => {
                                let line = SpecRequest {
                                    method: Some(m),
                                    path: Some(u),
                                    version: Some(v),
                                    ..none
                                };
                                match spec_crlf(s, p5 as int) {
                                    Scan::More(h) => SpecRequest {
                                        out: ParseResult::NeedsMore(h),
                                        ..line
                                    },
                                    Scan::Fail(e, a) => SpecRequest {
                                        out: ParseResult::Failed(e, a),
                                        ..line
                                    },
                                    Scan::Found(_, p6) => {
                                        let hout = spec_headers(s, p6 as int, cap);
                                        match hout.res {
                                            Scan::More(h) => SpecRequest {
                                                hwrit: hout.hs,
                                                out: ParseResult::NeedsMore(h),
                                                ..line
                                            },
                                            Scan::Fail(e, a) => SpecRequest {
                                                hwrit: hout.hs,
                                                out: ParseResult::Failed(e, a),
                                                ..line
                                            },
                                            Scan::Found(_, p7) => match spec_crlf(s, p7 as int) {
                                                Scan::More(h) => SpecRequest {
                                                    hwrit: hout.hs,
                                                    headers: Some(hout.hs),
                                                    out: ParseResult::NeedsMore(h),
                                                    ..line
                                                },
                                                Scan::Fail(e, a) => SpecRequest {
                                                    hwrit: hout.hs,
                                                    headers: Some(hout.hs),
                                                    out: ParseResult::Failed(e, a),
                                                    ..line
                                                },
                                                Scan::Found(_, p8) => SpecRequest {
                                                    hwrit: hout.hs,
                                                    headers: Some(hout.hs),
                                                    out: ParseResult::Done(p8),
                                                    ..line
                                                },
                                            },
                                        }
                                    }
                                }
                            }
                        },
                    },
                },
            },
        },
    }
}

/// A parsed request.
///
/// Each optional field is `None` until a parse recognizes it; a field that
/// a parse could not finish scanning is left as it was, never rolled back.
pub struct Request {
    /// The request method, such as `INVITE`: a span of token bytes.
    pub method: Option<Span>,
    /// The request target, such as `sip:callee@domain.com`: a span of
    /// visible ASCII bytes, not decomposed further.
    pub path: Option<Span>,
    /// The request version, such as `SIP/2.0`.
    pub version: Option<SipVersion>,
    /// The request headers.
    pub headers: Headers,
}

impl Request {
    /// Creates a new request around a header collection the caller
    /// allocated.
    pub fn new(headers: Headers) -> (r: Request)
        ensures
            r.method is None,
            r.path is None,
            r.version is None,
            r.headers == headers,
    {
        Request { method: None, path: None, version: None, headers }
    }

    /// Parses the buffer from its start as a SIP request, per
    /// [`spec_request`] at the collection's capacity: every field the scan
    /// recognizes is written into `self` the moment its own scan completes;
    /// recognized headers are written into the collection's slots in order,
    /// and the collection's effective length is set as soon as the header
    /// block itself is scanned to its end, whatever happens afterwards.
    pub fn parse(&mut self, buf: &[u8]) -> (r: ParseResult)
        requires
            old(self).headers.inv(),
        ensures
            final(self).headers.inv(),
            final(self).headers.cap() == old(self).headers.cap(),
            ({
                let sp = spec_request(buf@, old(self).headers.cap());
                &&& r == sp.out
                &&& final(self).method == (if sp.method is Some {
                    sp.method
                } else {
                    old(self).method
                })
                &&& final(self).path == (if sp.path is Some {
                    sp.path
                } else {
                    old(self).path
                })
                &&& final(self).version == (if sp.version is Some {
                    sp.version
                } else {
                    old(self).version
                })
                &&& forall|j: int|
                    0 <= j < sp.hwrit.len()
                        ==> #[trigger] final(self).headers.slot_seq()[j] == sp.hwrit[j]
                &&& forall|j: int|
                    sp.hwrit.len() <= j < final(self).headers.cap()
                        ==> #[trigger] final(self).headers.slot_seq()[j] == old(
                        self,
                    ).headers.slot_seq()[j]
                &&& match sp.headers {
                    Some(hs) => final(self).headers@ == hs,
                    None => final(self).headers.count_spec() == old(self).headers.count_spec(),
                }
            }),
    {
        let _cap = self.headers.capacity();
        let _len = buf.len();
        let p0 = match skip_blank_lines(buf, 0) {
            Scan::Found(_, j) => j,
            Scan::More(h) => {
                return ParseResult::NeedsMore(h);
            }
            Scan::Fail(e, a) => {
                return ParseResult::Failed(e, a);
            }
        };
        let (m, p1) = match scan_token(buf, p0) {
            Scan::Found(sp, n) => (sp, n),
            Scan::More(h) => {
                return ParseResult::NeedsMore(h);
            }
            Scan::Fail(e, a) => {
                return ParseResult::Failed(e, a);
            }
        };
        self.method = Some(m);
        let p2 = match scan_sp(buf, p1) {
            Scan::Found(_, n) => n,
            Scan::More(h) => {
                return ParseResult::NeedsMore(h);
            }
            Scan::Fail(e, a) => {
                return ParseResult::Failed(e, a);
            }
        };
        let (u, p3) = match scan_uri(buf, p2) {
            Scan::Found(sp, n) => (sp, n),
            Scan::More(h) => {
                return ParseResult::NeedsMore(h);
            }
            Scan::Fail(e, a) => {
                return ParseResult::Failed(e, a);
            }
        };
        self.path = Some(u);
        let p4 = match scan_sp(buf, p3) {
            Scan::Found(_, n) => n,
            Scan::More(h) => {
                return ParseResult::NeedsMore(h);
            }
            Scan::Fail(e, a) => {
                return ParseResult::Failed(e, a);
            }
        };
        let (v, p5) = match scan_version(buf, p4) {
            Scan::Found(v, n) => (v, n),
            Scan::More(h) => {
                return ParseResult::NeedsMore(h);
            }
            Scan::Fail(e, a) => {
                return ParseResult::Failed(e, a);
            }
        };
        self.version = Some(v);
        let p6 = match scan_crlf(buf, p5) {
            Scan::Found(_, n) => n,
            Scan::More(h) => {
                return ParseResult::NeedsMore(h);
            }
            Scan::Fail(e, a) => {
                return ParseResult::Failed(e, a);
            }
        };
        let p7 = match parse_headers(buf, p6, &mut self.headers) {
            Scan::Found(_, n) => n,
            Scan::More(h) => {
                return ParseResult::NeedsMore(h);
            }
            Scan::Fail(e, a) => {
                return ParseResult::Failed(e, a);
            }
        };
        proof {
            lemma_headers_range(buf@, p6 as int, old(self).headers.cap());
        }
        match scan_crlf(buf, p7) {
            Scan::Found(_, p8) => ParseResult::Done(p8),
            Scan::More(h) => ParseResult::NeedsMore(h),
            Scan::Fail(e, a) => ParseResult::Failed(e, a),
        }
    }
}


/// Everything one response parse determines, as [`SpecRequest`] does for
/// requests.
pub struct SpecResponse {
    /// The version, once recognized.
    pub version: Option<SipVersion>,
    /// The status code, once recognized.
    pub code: Option<u16>,
    /// The reason-phrase span, once recognized; it may be empty.
    pub reason: Option<Span>,
    /// Headers written into slots, even when the block did not complete.
    pub hwrit: Seq<Header>,
    /// The header block, once completely scanned.
    pub headers: Option<Seq<Header>>,
    /// The overall outcome.
    pub out: ParseResult,
}

/// Parses a whole response from the start of `s` into a collection of
/// capacity `cap`: blank lines, then `SIP-Version SP Status-Code SP
/// Reason-Phrase CRLF`, then the header block, then the blank terminator
/// line. Each field is recognized the moment its own scan completes, and
/// stays recognized whatever happens later.
pub open spec fn spec_response(s: Seq<u8>, cap: nat) -> SpecResponse {
    let none = SpecResponse {
        version: None,
        code: None,
        reason: None,
        hwrit: Seq::empty(),
        headers: None,
        out: ParseResult::Done(0),
    };
    match spec_skip_lines(s, 0) {
        Scan::More(h) => SpecResponse { out: ParseResult::NeedsMore(h), ..none },
        Scan::Fail(e, a) => SpecResponse { out: ParseResult::Failed(e, a), ..none },
        Scan::Found(_, p0) => match spec_version(s, p0 as int) {
            Scan::More(h) => SpecResponse { out: ParseResult::NeedsMore(h), ..none },
            Scan::Fail(e, a) => SpecResponse { out: ParseResult::Failed(e, a), ..none },
            Scan::Found(v, p1) => match spec_sp(s, p1 as int) {
                Scan::More(h) => SpecResponse {
                    version: Some(v),
                    out: ParseResult::NeedsMore(h),
                    ..none
                },
                Scan::Fail(e, a) => SpecResponse {
                    version: Some(v),
                    out: ParseResult::Failed(e, a),
                    ..none
                },
                Scan::Found(_, p2) => match spec_code(s, p2 as int) {
                    Scan::More(h) => SpecResponse {
                        version: Some(v),
                        out: ParseResult::NeedsMore(h),
                        ..none
                    },
                    Scan::Fail(e, a) => SpecResponse {
                        version: Some(v),
                        out: ParseResult::Failed(e, a),
                        ..none
                    },
                    Scan::Found(c, p3) => match spec_sp(s, p3 as int) {
                        Scan::More(h) => SpecResponse {
                            version: Some(v),
                            code: Some(c),
                            out: ParseResult::NeedsMore(h),
                            ..none
                        },
                        Scan::Fail(e, a) => SpecResponse {
                            version: Some(v),
                            code: Some(c),
                            out: ParseResult::Failed(e, a),
                            ..none
                        },
                        Scan::Found(_, p4) => match spec_reason(s, p4 as int) {
                            Scan::More(h) => SpecResponse {
                                version: Some(v),
                                code: Some(c),
                                out: ParseResult::NeedsMore(h),
                                ..none
                            },
                            Scan::Fail(e, a) => SpecResponse {
                                version: Some(v),
                                code: Some(c),
                                out: ParseResult::Failed(e, a),
                                ..none
                            },
                            Scan::Found(rp, p5) => {
                                let line = SpecResponse {
                                    version: Some(v),
                                    code: Some(c),
                                    reason: Some(rp),
                                    ..none
                                };
                                match spec_crlf(s, p5 as int) {
                                    Scan::More(h) => SpecResponse {
                                        out: ParseResult::NeedsMore(h),
                                        ..line
                                    },
                                    Scan::Fail(e, a) => SpecResponse {
                                        out: ParseResult::Failed(e, a),
                                        ..line
                                    },
                                    Scan::Found(_, p6) => {
                                        let hout = spec_headers(s, p6 as int, cap);
                                        match hout.res {
                                            Scan::More(h) => SpecResponse {
                                                hwrit: hout.hs,
                                                out: ParseResult::NeedsMore(h),
                                                ..line
                                            },
                                            Scan::Fail(e, a) => SpecResponse {
                                                hwrit: hout.hs,
                                                out: ParseResult::Failed(e, a),
                                                ..line
                                            },
                                            Scan::Found(_, p7) => match spec_crlf(s, p7 as int) {
                                                Scan::More(h) => SpecResponse {
                                                    hwrit: hout.hs,
                                                    headers: Some(hout.hs),
                                                    out: ParseResult::NeedsMore(h),
                                                    ..line
                                                },
                                                Scan::Fail(e, a) => SpecResponse {
                                                    hwrit: hout.hs,
                                                    headers: Some(hout.hs),
                                                    out: ParseResult::Failed(e, a),
                                                    ..line
                                                },
                                                Scan::Found(_, p8) => SpecResponse {
                                                    hwrit: hout.hs,
                                                    headers: Some(hout.hs),
                                                    out: ParseResult::Done(p8),
                                                    ..line
                                                },
                                            },
                                        }
                                    }
                                }
                            }
                        },
                    },
                },
            },
        },
    }
}

/// A parsed response.
///
/// Each optional field is `None` until a parse recognizes it; a field that
/// a parse could not finish scanning is left as it was, never rolled back.
pub struct Response {
    /// The response version, such as `SIP/2.0`.
    pub version: Option<SipVersion>,
    /// The response code, such as `200`.
    pub code: Option<u16>,
    /// The response reason-phrase, such as `OK`: a span of well-formed
    /// text, possibly empty.
    pub reason: Option<Span>,
    /// The response headers.
    pub headers: Headers,
}

impl Response {
    /// Creates a new response around a header collection the caller
    /// allocated.
    pub fn new(headers: Headers) -> (r: Response)
        ensures
            r.version is None,
            r.code is None,
            r.reason is None,
            r.headers == headers,
    {
        Response { version: None, code: None, reason: None, headers }
    }

    /// Parses the buffer from its start as a SIP response, per
    /// [`spec_response`] at the collection's capacity: every field the scan
    /// recognizes is written into `self` the moment its own scan completes;
    /// recognized headers are written into the collection's slots in order,
    /// and the collection's effective length is set as soon as the header
    /// block itself is scanned to its end, whatever happens afterwards.
    pub fn parse(&mut self, buf: &[u8]) -> (r: ParseResult)
        requires
            old(self).headers.inv(),
        ensures
            final(self).headers.inv(),
            final(self).headers.cap() == old(self).headers.cap(),
            ({
                let sp = spec_response(buf@, old(self).headers.cap());
                &&& r == sp.out
                &&& final(self).version == (if sp.version is Some {
                    sp.version
                } else {
                    old(self).version
                })
                &&& final(self).code == (if sp.code is Some {
                    sp.code
                } else {
                    old(self).code
                })
                &&& final(self).reason == (if sp.reason is Some {
                    sp.reason
                } else {
                    old(self).reason
                })
                &&& forall|j: int|
                    0 <= j < sp.hwrit.len()
                        ==> #[trigger] final(self).headers.slot_seq()[j] == sp.hwrit[j]
                &&& forall|j: int|
                    sp.hwrit.len() <= j < final(self).headers.cap()
                        ==> #[trigger] final(self).headers.slot_seq()[j] == old(
                        self,
                    ).headers.slot_seq()[j]
                &&& match sp.headers {
                    Some(hs) => final(self).headers@ == hs,
                    None => final(self).headers.count_spec() == old(self).headers.count_spec(),
                }
            }),
    {
        let _cap = self.headers.capacity();
        let _len = buf.len();
        let p0 = match skip_blank_lines(buf, 0) {
            Scan::Found(_, j) => j,
            Scan::More(h) => {
                return ParseResult::NeedsMore(h);
            }
            Scan::Fail(e, a) => {
                return ParseResult::Failed(e, a);
            }
        };
        let (v, p1) = match scan_version(buf, p0) {
            Scan::Found(v, n) => (v, n),
            Scan::More(h) => {
                return ParseResult::NeedsMore(h);
            }
            Scan::Fail(e, a) => {
                return ParseResult::Failed(e, a);
            }
        };
        self.version = Some(v);
        let p2 = match scan_sp(buf, p1) {
            Scan::Found(_, n) => n,
            Scan::More(h) => {
                return ParseResult::NeedsMore(h);
            }
            Scan::Fail(e, a) => {
                return ParseResult::Failed(e, a);
            }
        };
        let (code, p3) = match scan_code(buf, p2) {
            Scan::Found(c2, n) => (c2, n),
            Scan::More(h) => {
                return ParseResult::NeedsMore(h);
            }
            Scan::Fail(e, a) => {
                return ParseResult::Failed(e, a);
            }
        };
        self.code = Some(code);
        let p4 = match scan_sp(buf, p3) {
            Scan::Found(_, n) => n,
            Scan::More(h) => {
                return ParseResult::NeedsMore(h);
            }
            Scan::Fail(e, a) => {
                return ParseResult::Failed(e, a);
            }
        };
        let (rp, p5) = match scan_reason(buf, p4) {
            Scan::Found(sp, n) => (sp, n),
            Scan::More(h) => {
                return ParseResult::NeedsMore(h);
            }
            Scan::Fail(e, a) => {
                return ParseResult::Failed(e, a);
            }
        };
        self.reason = Some(rp);
        let p6 = match scan_crlf(buf, p5) {
            Scan::Found(_, n) => n,
            Scan::More(h) => {
                return ParseResult::NeedsMore(h);
            }
            Scan::Fail(e, a) => {
                return ParseResult::Failed(e, a);
            }
        };
        let p7 = match parse_headers(buf, p6, &mut self.headers) {
            Scan::Found(_, n) => n,
            Scan::More(h) => {
                return ParseResult::NeedsMore(h);
            }
            Scan::Fail(e, a) => {
                return ParseResult::Failed(e, a);
            }
        };
        proof {
            lemma_headers_range(buf@, p6 as int, old(self).headers.cap());
        }
        match scan_crlf(buf, p7) {
            Scan::Found(_, p8) => ParseResult::Done(p8),
            Scan::More(h) => ParseResult::NeedsMore(h),
            Scan::Fail(e, a) => ParseResult::Failed(e, a),
        }
    }
}

} // verus!
