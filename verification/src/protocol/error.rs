//! Errors from private transport encoding or decoding.

use vstd::prelude::*;

use crate::text::decimal;
use crate::text::push_decimal;

verus! {

/// Errors from private transport encoding or decoding.
#[derive(Debug, Clone, Copy, PartialEq, Eq, Structural)]
pub enum ProtocolError {
    /// The input does not contain a full frame.
    Incomplete {
        /// Total bytes required.
        needed: usize,
        /// Bytes currently available.
        available: usize,
    },
    /// The frame marker is not `CHVS`.
    BadMagic,
    /// The fixed header size is not supported.
    UnsupportedHeader(usize),
    /// The message identifier is not defined.
    UnknownMessageKind(u16),
    /// The frame exceeds the hard decoder limit.
    FrameTooLarge(usize),
    /// The caller supplied more than one frame.
    TrailingBytes(usize),
    /// Field tag zero is reserved.
    ReservedFieldTag,
    /// A field exceeds the representable size.
    FieldTooLarge {
        /// Field tag.
        tag: u16,
        /// Field size.
        size: usize,
    },
    /// A field appears more than once.
    DuplicateField(u16),
    /// The payload field sequence is truncated or invalid.
    MalformedFields,
    /// A required field is absent.
    MissingField(u16),
    /// A fixed-size field has the wrong size.
    InvalidFieldSize {
        /// Field tag.
        tag: u16,
        /// Required size.
        expected: usize,
    },
    /// A text field is not valid UTF-8.
    InvalidUtf8Field(u16),
}

impl ProtocolError {
    /// The words that describe this error.
    pub open spec fn text(self) -> Seq<char> {
        match self {
            ProtocolError::Incomplete { needed, available } => "incomplete frame: need "@ + decimal(
                needed as nat,
            ) + " bytes, have "@ + decimal(available as nat),
            ProtocolError::BadMagic => "invalid private transport frame magic"@,
            ProtocolError::UnsupportedHeader(len) => "unsupported private transport header length "@
                + decimal(len as nat),
            ProtocolError::UnknownMessageKind(kind) => "unknown private transport message kind "@
                + decimal(kind as nat),
            ProtocolError::FrameTooLarge(size) => "private transport frame is too large: "@
                + decimal(size as nat) + " bytes"@,
            ProtocolError::TrailingBytes(count) => "private transport frame has "@ + decimal(
                count as nat,
            ) + " trailing bytes"@,
            ProtocolError::ReservedFieldTag => "private transport field tag zero is reserved"@,
            ProtocolError::FieldTooLarge { tag, size } => "private transport field "@ + decimal(
                tag as nat,
            ) + " is too large: "@ + decimal(size as nat) + " bytes"@,
            ProtocolError::DuplicateField(tag) => "duplicate private transport field "@ + decimal(
                tag as nat,
            ),
            ProtocolError::MalformedFields => "malformed private transport fields"@,
            ProtocolError::MissingField(tag) => "missing private transport field "@ + decimal(
                tag as nat,
            ),
            ProtocolError::InvalidFieldSize { tag, expected } => "private transport field "@
                + decimal(tag as nat) + " must contain "@ + decimal(expected as nat) + " bytes"@,
            ProtocolError::InvalidUtf8Field(tag) => "private transport field "@ + decimal(
                tag as nat,
            ) + " is not valid UTF-8"@,
        }
    }

    /// Describe this error in words.
    #[must_use]
    pub fn message(&self) -> (r: String)
        ensures
            r@ == self.text(),
    {
        let mut out = String::new();
        match *self {
            ProtocolError::Incomplete { needed, available } => {
                out.append("incomplete frame: need ");
                push_decimal(&mut out, needed as u64);
                out.append(" bytes, have ");
                push_decimal(&mut out, available as u64);
            },
            ProtocolError::BadMagic => {
                out.append("invalid private transport frame magic");
            },
            ProtocolError::UnsupportedHeader(len) => {
                out.append("unsupported private transport header length ");
                push_decimal(&mut out, len as u64);
            },
            ProtocolError::UnknownMessageKind(kind) => {
                out.append("unknown private transport message kind ");
                push_decimal(&mut out, kind as u64);
            },
            ProtocolError::FrameTooLarge(size) => {
                out.append("private transport frame is too large: ");
                push_decimal(&mut out, size as u64);
                out.append(" bytes");
            },
            ProtocolError::TrailingBytes(count) => {
                out.append("private transport frame has ");
                push_decimal(&mut out, count as u64);
                out.append(" trailing bytes");
            },
            ProtocolError::ReservedFieldTag => {
                out.append("private transport field tag zero is reserved");
            },
            ProtocolError::FieldTooLarge { tag, size } => {
                out.append("private transport field ");
                push_decimal(&mut out, tag as u64);
                out.append(" is too large: ");
                push_decimal(&mut out, size as u64);
                out.append(" bytes");
            },
            ProtocolError::DuplicateField(tag) => {
                out.append("duplicate private transport field ");
                push_decimal(&mut out, tag as u64);
            },
            ProtocolError::MalformedFields => {
                out.append("malformed private transport fields");
            },
            ProtocolError::MissingField(tag) => {
                out.append("missing private transport field ");
                push_decimal(&mut out, tag as u64);
            },
            ProtocolError::InvalidFieldSize { tag, expected } => {
                out.append("private transport field ");
                push_decimal(&mut out, tag as u64);
                out.append(" must contain ");
                push_decimal(&mut out, expected as u64);
                out.append(" bytes");
            },
            ProtocolError::InvalidUtf8Field(tag) => {
                out.append("private transport field ");
                push_decimal(&mut out, tag as u64);
                out.append(" is not valid UTF-8");
            },
        }
        proof {
            assert(out@ =~= self.text());
        }
        out
    }
}

} // verus!
