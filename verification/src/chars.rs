//! Byte classifiers for the four lexical classes of the SIP grammar, and a
//! well-formedness check for UTF-8 byte sequences.
//!
//! These classifiers are the single point of truth for which bytes a token,
//! a request target, a reason phrase or a header value may contain; every
//! scanner defers to them.
use vstd::prelude::*;

verus! {

/// The carriage-return byte, `\r`.
pub const CR: u8 = 0x0d;

/// The line-feed byte, `\n`.
pub const LF: u8 = 0x0a;

/// The space byte.
pub const SP: u8 = 0x20;

/// The horizontal-tab byte, `\t`.
pub const HTAB: u8 = 0x09;

/// The colon byte, `:`.
pub const COLON: u8 = 0x3a;

/// The full-stop byte, `.`.
pub const DOT: u8 = 0x2e;

/// The solidus byte, `/`.
pub const SLASH: u8 = 0x2f;

/// The byte of the digit `0`.
pub const DIGIT_0: u8 = 0x30;

/// The byte of the digit `9`.
pub const DIGIT_9: u8 = 0x39;

/// A token byte: an alphanumeric, or one of the punctuation characters
/// permitted in method and header names:
/// `-` `.` `!` `%` `*` `_` `+` `` ` `` `'` `~`.
pub open spec fn is_token_byte(b: u8) -> bool {
    ||| 0x61 <= b <= 0x7a  // a-z
    ||| 0x41 <= b <= 0x5a  // A-Z
    ||| 0x30 <= b <= 0x39  // 0-9
    ||| b == 0x2d || b == 0x2e || b == 0x21 || b == 0x25 || b == 0x2a
    ||| b == 0x5f || b == 0x2b || b == 0x60 || b == 0x27 || b == 0x7e
}

/// A request-target byte: visible, non-whitespace, non-control ASCII.
pub open spec fn is_uri_byte(b: u8) -> bool {
    0x21 <= b <= 0x7e
}

/// A reason-phrase byte: printable ASCII, space, horizontal tab, or any
/// non-ASCII byte; carriage return, line feed, NUL and the other control
/// bytes are excluded.
pub open spec fn is_reason_byte(b: u8) -> bool {
    b == SP || b == HTAB || 0x21 <= b <= 0x7e || b >= 0x80
}

/// A header-value content byte: any byte except the control characters
/// (the bytes that terminate or fold a line are handled by the value
/// scanner itself before this class is consulted).
pub open spec fn is_value_byte(b: u8) -> bool {
    b == HTAB || (b >= 0x20 && b != 0x7f)
}

/// A blank byte inside a header line: space or horizontal tab.
pub open spec fn is_blank_byte(b: u8) -> bool {
    b == SP || b == HTAB
}

/// An ASCII decimal digit.
pub open spec fn is_digit_byte(b: u8) -> bool {
    DIGIT_0 <= b <= DIGIT_9
}

/// Runtime classifier for [`is_token_byte`].
pub fn token_byte(b: u8) -> (r: bool)
    ensures
        r == is_token_byte(b),
{
    (0x61 <= b && b <= 0x7a) || (0x41 <= b && b <= 0x5a) || (0x30 <= b && b <= 0x39)
        || b == 0x2d || b == 0x2e || b == 0x21 || b == 0x25 || b == 0x2a
        || b == 0x5f || b == 0x2b || b == 0x60 || b == 0x27 || b == 0x7e
}

/// Runtime classifier for [`is_uri_byte`].
pub fn uri_byte(b: u8) -> (r: bool)
    ensures
        r == is_uri_byte(b),
{
    0x21 <= b && b <= 0x7e
}

/// Runtime classifier for [`is_reason_byte`].
pub fn reason_byte(b: u8) -> (r: bool)
    ensures
        r == is_reason_byte(b),
{
    b == SP || b == HTAB || (0x21 <= b && b <= 0x7e) || b >= 0x80
}

/// Runtime classifier for [`is_value_byte`].
pub fn value_byte(b: u8) -> (r: bool)
    ensures
        r == is_value_byte(b),
{
    b == HTAB || (b >= 0x20 && b != 0x7f)
}

/// Runtime classifier for [`is_blank_byte`].
pub fn blank_byte(b: u8) -> (r: bool)
    ensures
        r == is_blank_byte(b),
{
    b == SP || b == HTAB
}

/// Runtime classifier for [`is_digit_byte`].
pub fn digit_byte(b: u8) -> (r: bool)
    ensures
        r == is_digit_byte(b),
{
    DIGIT_0 <= b && b <= DIGIT_9
}

/// A UTF-8 continuation byte.
pub open spec fn is_cont_byte(b: u8) -> bool {
    0x80 <= b <= 0xbf
}

/// Whether a byte sequence is well-formed UTF-8: a sequence of one- to
/// four-byte encodings with the shortest form enforced and the surrogate
/// range excluded.
pub open spec fn utf8_ok(s: Seq<u8>) -> bool
    decreases s.len(),
{
    if s.len() == 0 {
        true
    } else {
        let b0 = s[0];
        if b0 < 0x80 {
            utf8_ok(s.skip(1))
        } else if 0xc2 <= b0 && b0 <= 0xdf {
            s.len() >= 2 && is_cont_byte(s[1]) && utf8_ok(s.skip(2))
        } else if b0 == 0xe0 {
            s.len() >= 3 && 0xa0 <= s[1] && s[1] <= 0xbf && is_cont_byte(s[2]) && utf8_ok(s.skip(3))
        } else if b0 == 0xed {
            s.len() >= 3 && 0x80 <= s[1] && s[1] <= 0x9f && is_cont_byte(s[2]) && utf8_ok(s.skip(3))
        } else if (0xe1 <= b0 && b0 <= 0xec) || b0 == 0xee || b0 == 0xef {
            s.len() >= 3 && is_cont_byte(s[1]) && is_cont_byte(s[2]) && utf8_ok(s.skip(3))
        } else if b0 == 0xf0 {
            s.len() >= 4 && 0x90 <= s[1] && s[1] <= 0xbf && is_cont_byte(s[2]) && is_cont_byte(s[3])
                && utf8_ok(s.skip(4))
        } else if 0xf1 <= b0 && b0 <= 0xf3 {
            s.len() >= 4 && is_cont_byte(s[1]) && is_cont_byte(s[2]) && is_cont_byte(s[3])
                && utf8_ok(s.skip(4))
        } else if b0 == 0xf4 {
            s.len() >= 4 && 0x80 <= s[1] && s[1] <= 0x8f && is_cont_byte(s[2]) && is_cont_byte(s[3])
                && utf8_ok(s.skip(4))
        } else {
            false
        }
    }
}

/// An ASCII-only sequence is always well-formed UTF-8.
pub proof fn lemma_ascii_utf8_ok(s: Seq<u8>)
    requires
        forall|i: int| 0 <= i < s.len() ==> s[i] < 0x80,
    ensures
        utf8_ok(s),
    decreases s.len(),
{
    if s.len() > 0 {
        lemma_ascii_utf8_ok(s.skip(1));
    }
}

/// Checks that the bytes of `buf` in the range `start..end` are well-formed
/// UTF-8.
pub fn check_utf8(buf: &[u8], start: usize, end: usize) -> (r: bool)
    requires
        start <= end <= buf@.len(),
    ensures
        r == utf8_ok(buf@.subrange(start as int, end as int)),
{
    let mut i: usize = start;
    while i < end
        invariant
            start <= i <= end <= buf@.len(),
            utf8_ok(buf@.subrange(start as int, end as int)) == utf8_ok(
                buf@.subrange(i as int, end as int),
            ),
        decreases end - i,
    {
        let b0 = buf[i];
        let mut step: usize = 1;
        if b0 < 0x80 {
            step = 1;
        } else if 0xc2 <= b0 && b0 <= 0xdf {
            if end - i < 2 || !cont_byte(buf[i + 1]) {
                return report_bad(buf, i, end);
            }
            step = 2;
        } else if b0 == 0xe0 {
            if end - i < 3 || !(0xa0 <= buf[i + 1] && buf[i + 1] <= 0xbf)
                || !cont_byte(buf[i + 2]) {
                return report_bad(buf, i, end);
            }
            step = 3;
        } else if b0 == 0xed {
            if end - i < 3 || !(0x80 <= buf[i + 1] && buf[i + 1] <= 0x9f)
                || !cont_byte(buf[i + 2]) {
                return report_bad(buf, i, end);
            }
            step = 3;
        } else if (0xe1 <= b0 && b0 <= 0xec) || b0 == 0xee || b0 == 0xef {
            if end - i < 3 || !cont_byte(buf[i + 1]) || !cont_byte(buf[i + 2]) {
                return report_bad(buf, i, end);
            }
            step = 3;
        } else if b0 == 0xf0 {
            if end - i < 4 || !(0x90 <= buf[i + 1] && buf[i + 1] <= 0xbf)
                || !cont_byte(buf[i + 2]) || !cont_byte(buf[i + 3]) {
                return report_bad(buf, i, end);
            }
            step = 4;
        } else if 0xf1 <= b0 && b0 <= 0xf3 {
            if end - i < 4 || !cont_byte(buf[i + 1]) || !cont_byte(buf[i + 2])
                || !cont_byte(buf[i + 3]) {
                return report_bad(buf, i, end);
            }
            step = 4;
        } else if b0 == 0xf4 {
            if end - i < 4 || !(0x80 <= buf[i + 1] && buf[i + 1] <= 0x8f)
                || !cont_byte(buf[i + 2]) || !cont_byte(buf[i + 3]) {
                return report_bad(buf, i, end);
            }
            step = 4;
        } else {
            return report_bad(buf, i, end);
        }
        proof {
            lemma_utf8_step(buf@, i as int, end as int, step as int);
        }
        i = i + step;
    }
    proof {
        assert(buf@.subrange(end as int, end as int) =~= Seq::<u8>::empty());
    }
    true
}

/// Runtime classifier for [`is_cont_byte`].
fn cont_byte(b: u8) -> (r: bool)
    ensures
        r == is_cont_byte(b),
{
    0x80 <= b && b <= 0xbf
}

/// Used when the encoding at `i` is found malformed: the whole range is then
/// not well-formed.
fn report_bad(buf: &[u8], i: usize, end: usize) -> (r: bool)
    requires
        i < end <= buf@.len(),
        !utf8_first_ok(buf@.subrange(i as int, end as int)),
    ensures
        r == utf8_ok(buf@.subrange(i as int, end as int)),
{
    false
}

/// Whether the first encoded character of a non-empty sequence is complete
/// and well-formed (ignoring the rest of the sequence).
pub open spec fn utf8_first_ok(s: Seq<u8>) -> bool {
    s.len() > 0 && {
        let b0 = s[0];
        if b0 < 0x80 {
            true
        } else if 0xc2 <= b0 && b0 <= 0xdf {
            s.len() >= 2 && is_cont_byte(s[1])
        } else if b0 == 0xe0 {
            s.len() >= 3 && 0xa0 <= s[1] && s[1] <= 0xbf && is_cont_byte(s[2])
        } else if b0 == 0xed {
            s.len() >= 3 && 0x80 <= s[1] && s[1] <= 0x9f && is_cont_byte(s[2])
        } else if (0xe1 <= b0 && b0 <= 0xec) || b0 == 0xee || b0 == 0xef {
            s.len() >= 3 && is_cont_byte(s[1]) && is_cont_byte(s[2])
        } else if b0 == 0xf0 {
            s.len() >= 4 && 0x90 <= s[1] && s[1] <= 0xbf && is_cont_byte(s[2]) && is_cont_byte(s[3])
        } else if 0xf1 <= b0 && b0 <= 0xf3 {
            s.len() >= 4 && is_cont_byte(s[1]) && is_cont_byte(s[2]) && is_cont_byte(s[3])
        } else if b0 == 0xf4 {
            s.len() >= 4 && 0x80 <= s[1] && s[1] <= 0x8f && is_cont_byte(s[2]) && is_cont_byte(s[3])
        } else {
            false
        }
    }
}

/// The length in bytes of the first encoded character of a sequence whose
/// first character is well-formed.
pub open spec fn utf8_first_len(s: Seq<u8>) -> int {
    let b0 = s[0];
    if b0 < 0x80 {
        1
    } else if b0 <= 0xdf {
        2
    } else if b0 <= 0xef {
        3
    } else {
        4
    }
}

/// Consuming one complete well-formed character leaves the well-formedness
/// of the rest unchanged.
proof fn lemma_utf8_step(s: Seq<u8>, i: int, end: int, step: int)
    requires
        0 <= i < end <= s.len(),
        utf8_first_ok(s.subrange(i, end)),
        step == utf8_first_len(s.subrange(i, end)),
        i + step <= end,
    ensures
        utf8_ok(s.subrange(i, end)) == utf8_ok(s.subrange(i + step, end)),
{
    assert(s.subrange(i, end).skip(step) =~= s.subrange(i + step, end));
}

} // verus!
