//! The failure cases of the two decoders.

use vstd::prelude::*;

verus! {

/// Why a decode call failed. Every failure is fatal to the call: no partial
/// list of items is ever returned beside an error.
#[derive(Clone, Copy, Debug, PartialEq, Eq, Structural)]
pub enum DecodeError {
    /// The first four bytes of the stream do not match the magic constant.
    BadMagic,
    /// The version byte is not the single supported value.
    UnsupportedVersion,
    /// Fewer bytes were available than a header field, length prefix or
    /// payload declared.
    TruncatedInput,
    /// A MIME-type section's payload is not valid UTF-8.
    InvalidEncoding,
    /// A content section appeared with no unconsumed MIME-type label before
    /// it.
    ContentWithoutMimeType,
    /// A section tag byte is neither the MIME-type nor the content marker;
    /// the offending byte is carried for diagnostics.
    UnknownSectionTag(u8),
    /// Oneshot mode: every candidate label was empty after filtering.
    NoValidMimeType,
}

impl DecodeError {
    /// A short name for the error, for callers that report failures as text.
    pub fn describe(&self) -> (r: &'static str)
        ensures
            r@.len() > 0,
    {
        proof {
            reveal_strlit("bad magic header");
            reveal_strlit("unsupported protocol version");
            reveal_strlit("truncated input");
            reveal_strlit("payload is not valid UTF-8");
            reveal_strlit("content section without a MIME type");
            reveal_strlit("unknown section tag");
            reveal_strlit("no usable MIME type was given");
        }
        match self {
            DecodeError::BadMagic => "bad magic header",
            DecodeError::UnsupportedVersion => "unsupported protocol version",
            DecodeError::TruncatedInput => "truncated input",
            DecodeError::InvalidEncoding => "payload is not valid UTF-8",
            DecodeError::ContentWithoutMimeType => "content section without a MIME type",
            DecodeError::UnknownSectionTag(_) => "unknown section tag",
            DecodeError::NoValidMimeType => "no usable MIME type was given",
        }
    }
}

} // verus!
