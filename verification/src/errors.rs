//! Error taxonomy of the decoder.
//!
//! Container-level structural failures abort a parse; stream-level
//! decompression failures degrade to raw bytes; record-level failures may
//! be recovered from by resynchronisation.

use vstd::prelude::*;
use vstd::string::{StringExecFns, StrSliceExecFns};

verus! {

/// Everything that can go wrong while decoding a document.
#[derive(Debug)]
pub enum HwpError {
    /// The document header does not carry the expected signature.
    InvalidSignature,
    /// The document version is not supported by this decoder.
    UnsupportedVersion { version: String },
    /// A structural invariant of the container or document is broken.
    InvalidFormat { reason: String },
    /// Every attempted decompression method failed.
    DecompressionError(String),
    /// A record or field could not be parsed.
    ParseError { offset: usize, message: String },
    /// Malformed text encoding (UTF-16 surrogates, EUC-KR bytes).
    EncodingError(String),
    /// A known but unimplemented part of the format was encountered.
    UnsupportedFeature { feature: String },
    /// A record failed its frame-level sanity checks.
    InvalidRecord { tag: u16, level: u8, size: u32 },
    /// A tag or size failed context-sensitive validation.
    ValidationError { message: String },
    /// A read would have run past the end of the available bytes.
    BufferUnderflow { requested: usize, available: usize },
}

pub type HwpResult<T> = Result<T, HwpError>;

impl HwpError {
    /// A short human-readable description of the error.
    pub fn message(&self) -> (r: String)
        ensures
            match self {
                HwpError::InvalidSignature => r@ == "Invalid document signature"@,
                HwpError::UnsupportedVersion { version } => r@ == "Unsupported version: "@
                    + version@,
                HwpError::InvalidFormat { reason } => r@ == "Invalid file format: "@ + reason@,
                HwpError::DecompressionError(m) => r@ == "Decompression failed: "@ + m@,
                HwpError::ParseError { offset, message } => r@ == "Parse error: "@ + message@,
                HwpError::EncodingError(m) => r@ == "Encoding error: "@ + m@,
                HwpError::UnsupportedFeature { feature } => r@ == "Unsupported feature: "@
                    + feature@,
                HwpError::InvalidRecord { tag, level, size } => r@ == "Invalid record"@,
                HwpError::ValidationError { message } => r@ == "Validation error: "@ + message@,
                HwpError::BufferUnderflow { requested, available } => r@ == "Buffer underflow"@,
            },
    {
        match self {
            HwpError::InvalidSignature => String::from_str("Invalid document signature"),
            HwpError::UnsupportedVersion { version } => {
                let mut s = String::from_str("Unsupported version: ");
                s.append(version.as_str());
                s
            },
            HwpError::InvalidFormat { reason } => {
                let mut s = String::from_str("Invalid file format: ");
                s.append(reason.as_str());
                s
            },
            HwpError::DecompressionError(m) => {
                let mut s = String::from_str("Decompression failed: ");
                s.append(m.as_str());
                s
            },
            HwpError::ParseError { offset: _, message } => {
                let mut s = String::from_str("Parse error: ");
                s.append(message.as_str());
                s
            },
            HwpError::EncodingError(m) => {
                let mut s = String::from_str("Encoding error: ");
                s.append(m.as_str());
                s
            },
            HwpError::UnsupportedFeature { feature } => {
                let mut s = String::from_str("Unsupported feature: ");
                s.append(feature.as_str());
                s
            },
            HwpError::InvalidRecord { tag: _, level: _, size: _ } => String::from_str(
                "Invalid record",
            ),
            HwpError::ValidationError { message } => {
                let mut s = String::from_str("Validation error: ");
                s.append(message.as_str());
                s
            },
            HwpError::BufferUnderflow { requested: _, available: _ } => String::from_str(
                "Buffer underflow",
            ),
        }
    }
}

} // verus!
