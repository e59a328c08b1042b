//! An incremental, zero-copy parser for SIP request and response messages.
//!
//! The parser is driven from a byte buffer that a caller may grow across
//! repeated calls as more data arrives. A parse either completes (`Done`,
//! with the number of bytes consumed), reports that the buffer ended before
//! the grammar could be decided (`NeedsMore`), or rejects the input with an
//! error kind and the offending byte's offset (`Failed`). Every recognized
//! field is a span of offsets into the caller's buffer: nothing is copied.

pub mod chars;
pub mod props;
pub mod scan;
pub mod sip;

pub use scan::{Error, Scan, SipVersion, Span};
pub use sip::{header_value, message_header, parse_headers};
pub use sip::{Header, Headers, ParseResult, Request, Response};
