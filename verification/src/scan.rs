//! Primitive byte-level scanners.
//!
//! Every scanner is specified against a pure function over the buffer's byte
//! sequence (`spec_...`), so that a scan's whole outcome — what was
//! recognized, where scanning stopped, or exactly why and where it could not
//! proceed — is pinned down by its contract. Positions are byte offsets into
//! the caller's buffer; a recognized stretch of bytes is reported as a
//! [`Span`] of offsets, never as a copy.
use vstd::prelude::*;

use crate::chars::{
    blank_byte, check_utf8, digit_byte, is_blank_byte, is_digit_byte, is_reason_byte,
    is_token_byte, is_uri_byte, reason_byte, token_byte, uri_byte, utf8_ok, COLON, CR, DIGIT_0,
    DOT, LF, SLASH, SP,
};

verus! {

/// A half-open range `start..end` of byte offsets into the buffer a scan was
/// run on. Spans are how results reference the caller's bytes without
/// copying them.
#[derive(Clone, Copy, PartialEq, Eq, Structural, Debug)]
pub struct Span {
    /// Offset of the first byte of the range.
    pub start: usize,
    /// Offset one past the last byte of the range.
    pub end: usize,
}

impl Span {
    /// The bytes of `buf` that this span designates.
    pub fn slice_in<'a>(&self, buf: &'a [u8]) -> (r: &'a [u8])
        requires
            self.start <= self.end <= buf@.len(),
        ensures
            r@ == buf@.subrange(self.start as int, self.end as int),
    {
        vstd::slice::slice_subrange(buf, self.start, self.end)
    }
}

/// SIP-Version: major and minor, each a single decimal digit, as written in
/// `SIP/<major>.<minor>`.
#[derive(Clone, Copy, PartialEq, Eq, Structural, Debug)]
pub struct SipVersion(pub u8, pub u8);

/// The ways a parse can reject its input, each reported together with the
/// offending byte's offset.
#[derive(Clone, Copy, PartialEq, Eq, Structural, Debug)]
pub enum Error {
    /// Invalid byte in a header name.
    HeaderName,
    /// Invalid byte in a header value.
    HeaderValue,
    /// Invalid byte where a line ending (CRLF) was required.
    NewLine,
    /// Invalid byte in a response's status code.
    Status,
    /// Invalid byte where a token was required.
    Token,
    /// More headers than the provided collection can hold.
    TooManyHeaders,
    /// Invalid byte in the SIP version.
    Version,
    /// A required space or colon delimiter was missing or misplaced.
    Delimiter,
    /// A recognized span is not well-formed text.
    Encoding,
}

/// The outcome of one scanner: the recognized value and the offset scanning
/// stopped at; or a report that the buffer ended before the grammar rule
/// could be decided, with a hint of how many further bytes would let this
/// scanner progress, where that is known; or a grammar violation and the
/// offending byte's offset.
#[derive(Clone, Copy, PartialEq, Eq, Debug)]
pub enum Scan<V> {
    /// The rule was recognized: the value, and the offset of the first
    /// unconsumed byte.
    Found(V, usize),
    /// The buffer ended before the rule could be decided.
    More(Option<usize>),
    /// The input violates the grammar at the given offset.
    Fail(Error, usize),
}

/// The token character class, as a value.
pub open spec fn token_class() -> spec_fn(u8) -> bool {
    |b: u8| is_token_byte(b)
}

/// The request-target character class, as a value.
pub open spec fn uri_class() -> spec_fn(u8) -> bool {
    |b: u8| is_uri_byte(b)
}

/// The reason-phrase character class, as a value.
pub open spec fn reason_class() -> spec_fn(u8) -> bool {
    |b: u8| is_reason_byte(b)
}

/// The blank (space or horizontal tab) character class, as a value.
pub open spec fn blank_class() -> spec_fn(u8) -> bool {
    |b: u8| is_blank_byte(b)
}

/// The offset of the first byte at or after `p` that does not satisfy `f`,
/// or the end of the sequence if every byte from `p` on satisfies it.
pub open spec fn span_end(s: Seq<u8>, p: int, f: spec_fn(u8) -> bool) -> int
    decreases s.len() - p,
{
    if p < 0 || p >= s.len() {
        p
    } else if !f(s[p]) {
        p
    } else {
        span_end(s, p + 1, f)
    }
}

/// Bounds and meaning of [`span_end`]: it lies between `p` and the end, all
/// bytes before it satisfy the class, and the byte at it (if any) does not.
pub proof fn lemma_span_end(s: Seq<u8>, p: int, f: spec_fn(u8) -> bool)
    requires
        0 <= p <= s.len(),
    ensures
        p <= span_end(s, p, f) <= s.len(),
        forall|i: int| p <= i < span_end(s, p, f) ==> f(s[i]),
        span_end(s, p, f) < s.len() ==> !f(s[span_end(s, p, f)]),
    decreases s.len() - p,
{
    if p < s.len() && f(s[p]) {
        lemma_span_end(s, p + 1, f);
    }
}

/// On a truncation of the sequence, the run is cut off at the truncation
/// point and otherwise unchanged.
pub proof fn lemma_span_end_take(s: Seq<u8>, k: int, p: int, f: spec_fn(u8) -> bool)
    requires
        0 <= p <= k <= s.len(),
    ensures
        span_end(s.take(k), p, f) == if span_end(s, p, f) <= k {
            span_end(s, p, f)
        } else {
            k
        },
    decreases s.len() - p,
{
    let t = s.take(k);
    if p == k {
        assert(span_end(t, p, f) == p);
        lemma_span_end(s, p, f);
    } else if !f(s[p]) {
        assert(t[p] == s[p]);
    } else {
        assert(t[p] == s[p]);
        lemma_span_end_take(s, k, p + 1, f);
        assert(span_end(t, p, f) == span_end(t, p + 1, f));
        assert(span_end(s, p, f) == span_end(s, p + 1, f));
    }
}

/// Scans the two-byte line terminator `\r\n` at `p`.
pub open spec fn spec_crlf(s: Seq<u8>, p: int) -> Scan<()> {
    if p >= s.len() {
        Scan::More(Some(2))
    } else if s[p] != CR {
        Scan::Fail(Error::NewLine, p as usize)
    } else if p + 1 >= s.len() {
        Scan::More(Some(1))
    } else if s[p + 1] != LF {
        Scan::Fail(Error::NewLine, (p + 1) as usize)
    } else {
        Scan::Found((), (p + 2) as usize)
    }
}

/// Runtime scanner for [`spec_crlf`].
pub fn scan_crlf(buf: &[u8], p: usize) -> (r: Scan<()>)
    requires
        p <= buf@.len(),
    ensures
        r == spec_crlf(buf@, p as int),
{
    if p >= buf.len() {
        Scan::More(Some(2))
    } else if buf[p] != CR {
        Scan::Fail(Error::NewLine, p)
    } else if p + 1 >= buf.len() {
        Scan::More(Some(1))
    } else if buf[p + 1] != LF {
        Scan::Fail(Error::NewLine, p + 1)
    } else {
        Scan::Found((), p + 2)
    }
}

/// Scans exactly one space byte at `p`.
pub open spec fn spec_sp(s: Seq<u8>, p: int) -> Scan<()> {
    if p >= s.len() {
        Scan::More(Some(1))
    } else if s[p] != SP {
        Scan::Fail(Error::Delimiter, p as usize)
    } else {
        Scan::Found((), (p + 1) as usize)
    }
}

/// Runtime scanner for [`spec_sp`].
pub fn scan_sp(buf: &[u8], p: usize) -> (r: Scan<()>)
    requires
        p <= buf@.len(),
    ensures
        r == spec_sp(buf@, p as int),
{
    if p >= buf.len() {
        Scan::More(Some(1))
    } else if buf[p] != SP {
        Scan::Fail(Error::Delimiter, p)
    } else {
        Scan::Found((), p + 1)
    }
}

/// Scans one decimal digit at `p` and yields its numeric value; a non-digit
/// is reported with the given error kind.
pub open spec fn spec_digit(s: Seq<u8>, p: int, kind: Error) -> Scan<u8> {
    if p >= s.len() {
        Scan::More(Some(1))
    } else if !is_digit_byte(s[p]) {
        Scan::Fail(kind, p as usize)
    } else {
        Scan::Found((s[p] - DIGIT_0) as u8, (p + 1) as usize)
    }
}

/// Runtime scanner for [`spec_digit`].
pub fn scan_digit(buf: &[u8], p: usize, kind: Error) -> (r: Scan<u8>)
    requires
        p <= buf@.len(),
    ensures
        r == spec_digit(buf@, p as int, kind),
{
    if p >= buf.len() {
        Scan::More(Some(1))
    } else if !digit_byte(buf[p]) {
        Scan::Fail(kind, p)
    } else {
        Scan::Found(buf[p] - DIGIT_0, p + 1)
    }
}

/// Scans the version marker `SIP/<d>.<d>` at `p`, matching the letters
/// case-insensitively.
pub open spec fn spec_version(s: Seq<u8>, p: int) -> Scan<SipVersion> {
    if p >= s.len() {
        Scan::More(Some(7))
    } else if s[p] != 0x53 && s[p] != 0x73 {  // S / s
        Scan::Fail(Error::Version, p as usize)
    } else if p + 1 >= s.len() {
        Scan::More(Some(6))
    } else if s[p + 1] != 0x49 && s[p + 1] != 0x69 {  // I / i
        Scan::Fail(Error::Version, (p + 1) as usize)
    } else if p + 2 >= s.len() {
        Scan::More(Some(5))
    } else if s[p + 2] != 0x50 && s[p + 2] != 0x70 {  // P / p
        Scan::Fail(Error::Version, (p + 2) as usize)
    } else if p + 3 >= s.len() {
        Scan::More(Some(4))
    } else if s[p + 3] != SLASH {
        Scan::Fail(Error::Version, (p + 3) as usize)
    } else if p + 4 >= s.len() {
        Scan::More(Some(3))
    } else if !is_digit_byte(s[p + 4]) {
        Scan::Fail(Error::Version, (p + 4) as usize)
    } else if p + 5 >= s.len() {
        Scan::More(Some(2))
    } else if s[p + 5] != DOT {
        Scan::Fail(Error::Version, (p + 5) as usize)
    } else if p + 6 >= s.len() {
        Scan::More(Some(1))
    } else if !is_digit_byte(s[p + 6]) {
        Scan::Fail(Error::Version, (p + 6) as usize)
    } else {
        Scan::Found(SipVersion((s[p + 4] - DIGIT_0) as u8, (s[p + 6] - DIGIT_0) as u8),
            (p + 7) as usize)
    }
}

/// Runtime scanner for [`spec_version`].
pub fn scan_version(buf: &[u8], p: usize) -> (r: Scan<SipVersion>)
    requires
        p <= buf@.len(),
    ensures
        r == spec_version(buf@, p as int),
{
    if p >= buf.len() {
        Scan::More(Some(7))
    } else if buf[p] != 0x53 && buf[p] != 0x73 {
        Scan::Fail(Error::Version, p)
    } else if p + 1 >= buf.len() {
        Scan::More(Some(6))
    } else if buf[p + 1] != 0x49 && buf[p + 1] != 0x69 {
        Scan::Fail(Error::Version, p + 1)
    } else if p + 2 >= buf.len() {
        Scan::More(Some(5))
    } else if buf[p + 2] != 0x50 && buf[p + 2] != 0x70 {
        Scan::Fail(Error::Version, p + 2)
    } else if p + 3 >= buf.len() {
        Scan::More(Some(4))
    } else if buf[p + 3] != SLASH {
        Scan::Fail(Error::Version, p + 3)
    } else if p + 4 >= buf.len() {
        Scan::More(Some(3))
    } else if !digit_byte(buf[p + 4]) {
        Scan::Fail(Error::Version, p + 4)
    } else if p + 5 >= buf.len() {
        Scan::More(Some(2))
    } else if buf[p + 5] != DOT {
        Scan::Fail(Error::Version, p + 5)
    } else if p + 6 >= buf.len() {
        Scan::More(Some(1))
    } else if !digit_byte(buf[p + 6]) {
        Scan::Fail(Error::Version, p + 6)
    } else {
        Scan::Found(SipVersion(buf[p + 4] - DIGIT_0, buf[p + 6] - DIGIT_0), p + 7)
    }
}

/// Scans exactly three decimal digits at `p` and combines them into a status
/// code.
pub open spec fn spec_code(s: Seq<u8>, p: int) -> Scan<u16> {
    if p >= s.len() {
        Scan::More(Some(3))
    } else if !is_digit_byte(s[p]) {
        Scan::Fail(Error::Status, p as usize)
    } else if p + 1 >= s.len() {
        Scan::More(Some(2))
    } else if !is_digit_byte(s[p + 1]) {
        Scan::Fail(Error::Status, (p + 1) as usize)
    } else if p + 2 >= s.len() {
        Scan::More(Some(1))
    } else if !is_digit_byte(s[p + 2]) {
        Scan::Fail(Error::Status, (p + 2) as usize)
    } else {
        Scan::Found(
            (100 * (s[p] - DIGIT_0) + 10 * (s[p + 1] - DIGIT_0) + (s[p + 2] - DIGIT_0)) as u16,
            (p + 3) as usize,
        )
    }
}

/// Runtime scanner for [`spec_code`].
pub fn scan_code(buf: &[u8], p: usize) -> (r: Scan<u16>)
    requires
        p <= buf@.len(),
    ensures
        r == spec_code(buf@, p as int),
{
    if p >= buf.len() {
        Scan::More(Some(3))
    } else if !digit_byte(buf[p]) {
        Scan::Fail(Error::Status, p)
    } else if p + 1 >= buf.len() {
        Scan::More(Some(2))
    } else if !digit_byte(buf[p + 1]) {
        Scan::Fail(Error::Status, p + 1)
    } else if p + 2 >= buf.len() {
        Scan::More(Some(1))
    } else if !digit_byte(buf[p + 2]) {
        Scan::Fail(Error::Status, p + 2)
    } else {
        let d0 = (buf[p] - DIGIT_0) as u16;
        let d1 = (buf[p + 1] - DIGIT_0) as u16;
        let d2 = (buf[p + 2] - DIGIT_0) as u16;
        Scan::Found(100 * d0 + 10 * d1 + d2, p + 3)
    }
}

/// Scans the maximal run of bytes of class `f` starting at `p`, requiring it
/// to be non-empty; an empty run is reported with the given error kind, and
/// a run still open at the end of the buffer cannot be decided yet.
pub open spec fn spec_req_span(s: Seq<u8>, p: int, f: spec_fn(u8) -> bool, kind: Error) -> Scan<
    Span,
> {
    let e = span_end(s, p, f);
    if e >= s.len() {
        Scan::More(None)
    } else if e == p {
        Scan::Fail(kind, p as usize)
    } else {
        Scan::Found(Span { start: p as usize, end: e as usize }, e as usize)
    }
}

/// Scans the maximal run of bytes of class `f` starting at `p`; the run may
/// be empty, but one still open at the end of the buffer cannot be decided
/// yet.
pub open spec fn spec_opt_span(s: Seq<u8>, p: int, f: spec_fn(u8) -> bool) -> Scan<Span> {
    let e = span_end(s, p, f);
    if e >= s.len() {
        Scan::More(None)
    } else {
        Scan::Found(Span { start: p as usize, end: e as usize }, e as usize)
    }
}

/// Runtime scanner for a required token run: [`spec_req_span`] with the
/// token class and [`Error::Token`].
pub fn scan_token(buf: &[u8], p: usize) -> (r: Scan<Span>)
    requires
        p <= buf@.len(),
    ensures
        r == spec_req_span(buf@, p as int, token_class(), Error::Token),
        r matches Scan::Found(sp, n) ==> p <= sp.start <= sp.end && sp.end == n && n <= buf@.len(),
{
    let e = token_run_end(buf, p);
    proof {
        lemma_span_end(buf@, p as int, token_class());
    }
    if e >= buf.len() {
        Scan::More(None)
    } else if e == p {
        Scan::Fail(Error::Token, p)
    } else {
        Scan::Found(Span { start: p, end: e }, e)
    }
}

/// Runtime scanner for a required request-target run: [`spec_req_span`] with
/// the request-target class and [`Error::Token`].
pub fn scan_uri(buf: &[u8], p: usize) -> (r: Scan<Span>)
    requires
        p <= buf@.len(),
    ensures
        r == spec_req_span(buf@, p as int, uri_class(), Error::Token),
        r matches Scan::Found(sp, n) ==> p <= sp.start <= sp.end && sp.end == n && n <= buf@.len(),
{
    let e = uri_run_end(buf, p);
    proof {
        lemma_span_end(buf@, p as int, uri_class());
    }
    if e >= buf.len() {
        Scan::More(None)
    } else if e == p {
        Scan::Fail(Error::Token, p)
    } else {
        Scan::Found(Span { start: p, end: e }, e)
    }
}

/// Runtime scanner for an optional token run: [`spec_opt_span`] with the
/// token class. Used for header names, which the header scanner permits to
/// be empty.
pub fn scan_name(buf: &[u8], p: usize) -> (r: Scan<Span>)
    requires
        p <= buf@.len(),
    ensures
        r == spec_opt_span(buf@, p as int, token_class()),
        r matches Scan::Found(sp, n) ==> p <= sp.start <= sp.end && sp.end == n && n <= buf@.len(),
{
    let e = token_run_end(buf, p);
    proof {
        lemma_span_end(buf@, p as int, token_class());
    }
    if e >= buf.len() {
        Scan::More(None)
    } else {
        Scan::Found(Span { start: p, end: e }, e)
    }
}

/// Scans an optional reason-phrase run at `p` and then checks that its bytes
/// are well-formed text; a span that is not is reported as an encoding
/// violation at the span's start.
pub open spec fn spec_reason(s: Seq<u8>, p: int) -> Scan<Span> {
    match spec_opt_span(s, p, reason_class()) {
        Scan::Found(sp, n) => if utf8_ok(s.subrange(sp.start as int, sp.end as int)) {
            Scan::Found(sp, n)
        } else {
            Scan::Fail(Error::Encoding, sp.start)
        },
        r => r,
    }
}

/// Runtime scanner for [`spec_reason`].
pub fn scan_reason(buf: &[u8], p: usize) -> (r: Scan<Span>)
    requires
        p <= buf@.len(),
    ensures
        r == spec_reason(buf@, p as int),
        r matches Scan::Found(sp, n) ==> p <= sp.start <= sp.end && sp.end == n && n <= buf@.len(),
{
    let e = reason_run_end(buf, p);
    proof {
        lemma_span_end(buf@, p as int, reason_class());
    }
    if e >= buf.len() {
        Scan::More(None)
    } else if check_utf8(buf, p, e) {
        Scan::Found(Span { start: p, end: e }, e)
    } else {
        Scan::Fail(Error::Encoding, p)
    }
}

/// Skips the run of blank lines (`\r\n` or a bare `\n`) before a message
/// starts, stopping at the first byte that does not begin a line ending. A
/// lone `\r` at the end of the buffer cannot be decided yet.
pub open spec fn spec_skip_lines(s: Seq<u8>, p: int) -> Scan<()>
    decreases s.len() - p,
{
    if p < 0 || p >= s.len() {
        Scan::Found((), p as usize)
    } else if s[p] == LF {
        spec_skip_lines(s, p + 1)
    } else if s[p] == CR {
        if p + 1 >= s.len() {
            Scan::More(Some(1))
        } else if s[p + 1] == LF {
            spec_skip_lines(s, p + 2)
        } else {
            Scan::Found((), p as usize)
        }
    } else {
        Scan::Found((), p as usize)
    }
}

/// Runtime scanner for [`spec_skip_lines`].
pub fn skip_blank_lines(buf: &[u8], p: usize) -> (r: Scan<()>)
    requires
        p <= buf@.len(),
    ensures
        r == spec_skip_lines(buf@, p as int),
        r matches Scan::Found(v, n) ==> p <= n <= buf@.len(),
{
    let mut i: usize = p;
    loop
        invariant
            p <= i <= buf@.len(),
            spec_skip_lines(buf@, p as int) == spec_skip_lines(buf@, i as int),
        decreases buf@.len() - i,
    {
        if i >= buf.len() {
            return Scan::Found((), i);
        }
        let b = buf[i];
        if b == LF {
            i = i + 1;
        } else if b == CR {
            if i + 1 >= buf.len() {
                return Scan::More(Some(1));
            }
            if buf[i + 1] == LF {
                i = i + 2;
            } else {
                return Scan::Found((), i);
            }
        } else {
            return Scan::Found((), i);
        }
    }
}

/// Scans the colon separating a header name from its value, with optional
/// blanks on either side; scanning stops at the first byte after the
/// trailing blanks.
pub open spec fn spec_hcolon(s: Seq<u8>, p: int) -> Scan<()> {
    let e = span_end(s, p, blank_class());
    if e >= s.len() {
        Scan::More(None)
    } else if s[e] != COLON {
        Scan::Fail(Error::Delimiter, e as usize)
    } else {
        Scan::Found((), span_end(s, e + 1, blank_class()) as usize)
    }
}

/// Runtime scanner for [`spec_hcolon`].
pub fn scan_hcolon(buf: &[u8], p: usize) -> (r: Scan<()>)
    requires
        p <= buf@.len(),
    ensures
        r == spec_hcolon(buf@, p as int),
        r matches Scan::Found(v, n) ==> p <= n <= buf@.len(),
{
    let e = blank_run_end(buf, p);
    proof {
        lemma_span_end(buf@, p as int, blank_class());
    }
    if e >= buf.len() {
        Scan::More(None)
    } else if buf[e] != COLON {
        Scan::Fail(Error::Delimiter, e)
    } else {
        let n = blank_run_end(buf, e + 1);
        proof {
            lemma_span_end(buf@, e + 1, blank_class());
        }
        Scan::Found((), n)
    }
}

/// The end of the token run starting at `p`.
fn token_run_end(buf: &[u8], p: usize) -> (e: usize)
    requires
        p <= buf@.len(),
    ensures
        e == span_end(buf@, p as int, token_class()),
{
    let mut i: usize = p;
    while i < buf.len()
        invariant
            p <= i <= buf@.len(),
            span_end(buf@, p as int, token_class()) == span_end(buf@, i as int, token_class()),
        decreases buf@.len() - i,
    {
        if !token_byte(buf[i]) {
            return i;
        }
        i = i + 1;
    }
    i
}

/// The end of the request-target run starting at `p`.
fn uri_run_end(buf: &[u8], p: usize) -> (e: usize)
    requires
        p <= buf@.len(),
    ensures
        e == span_end(buf@, p as int, uri_class()),
{
    let mut i: usize = p;
    while i < buf.len()
        invariant
            p <= i <= buf@.len(),
            span_end(buf@, p as int, uri_class()) == span_end(buf@, i as int, uri_class()),
        decreases buf@.len() - i,
    {
        if !uri_byte(buf[i]) {
            return i;
        }
        i = i + 1;
    }
    i
}

/// The end of the reason-phrase run starting at `p`.
fn reason_run_end(buf: &[u8], p: usize) -> (e: usize)
    requires
        p <= buf@.len(),
    ensures
        e == span_end(buf@, p as int, reason_class()),
{
    let mut i: usize = p;
    while i < buf.len()
        invariant
            p <= i <= buf@.len(),
            span_end(buf@, p as int, reason_class()) == span_end(buf@, i as int, reason_class()),
        decreases buf@.len() - i,
    {
        if !reason_byte(buf[i]) {
            return i;
        }
        i = i + 1;
    }
    i
}

/// The end of the blank run starting at `p`.
fn blank_run_end(buf: &[u8], p: usize) -> (e: usize)
    requires
        p <= buf@.len(),
    ensures
        e == span_end(buf@, p as int, blank_class()),
{
    let mut i: usize = p;
    while i < buf.len()
        invariant
            p <= i <= buf@.len(),
            span_end(buf@, p as int, blank_class()) == span_end(buf@, i as int, blank_class()),
        decreases buf@.len() - i,
    {
        if !blank_byte(buf[i]) {
            return i;
        }
        i = i + 1;
    }
    i
}

} // verus!
