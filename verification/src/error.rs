//! Error type of the library.

use vstd::prelude::*;
use crate::text::{concat, dec_chars, owned, push_str, string_from, u64_chars};

verus! {

/// Failures of storage decisions, archive handling and bookkeeping.
/// Payloads are plain text: the caller keeps the underlying system error.
#[derive(Debug, Clone)]
pub enum TripleWrapperError {
    Io(String),
    ArchiveNotFound(String),
    InsufficientSpace { needed: u64, available: u64, device: String },
    NoWorkspace(String),
    ToolNotFound(String),
    CompressionFailed(String),
    ChecksumMismatch { expected: String, actual: String },
    Cancelled,
    InvalidFormat(String),
    Config(String),
    Serde(String),
    DBus(String),
    SysInfo(String),
    Internal(String),
}

pub type Result<T> = std::result::Result<T, TripleWrapperError>;

/// The human-readable text of an error.
pub open spec fn error_text(e: TripleWrapperError) -> Seq<char> {
    match e {
        TripleWrapperError::Io(m) => "I/O error: "@ + m@,
        TripleWrapperError::ArchiveNotFound(p) => "Archive not found: "@ + p@,
        TripleWrapperError::InsufficientSpace { needed, available, device } => "Insufficient space: need "@
            + dec_chars(needed as nat) + " bytes, have "@ + dec_chars(available as nat)
            + " bytes on "@ + device@,
        TripleWrapperError::NoWorkspace(m) => "No suitable workspace found: "@ + m@,
        TripleWrapperError::ToolNotFound(m) => "Compression tool not found: "@ + m@,
        TripleWrapperError::CompressionFailed(m) => "Compression failed: "@ + m@,
        TripleWrapperError::ChecksumMismatch { expected, actual } => "Checksum mismatch: expected "@
            + expected@ + ", got "@ + actual@,
        TripleWrapperError::Cancelled => "Operation cancelled"@,
        TripleWrapperError::InvalidFormat(m) => "Invalid archive format: "@ + m@,
        TripleWrapperError::Config(m) => "Configuration error: "@ + m@,
        TripleWrapperError::Serde(m) => "Serialization error: "@ + m@,
        TripleWrapperError::DBus(m) => "DBus error: "@ + m@,
        TripleWrapperError::SysInfo(m) => "System info error: "@ + m@,
        TripleWrapperError::Internal(m) => "Internal error: "@ + m@,
    }
}

impl TripleWrapperError {
    /// The text `Display` would show for this error.
    pub fn message(&self) -> (r: String)
        ensures
            r@ == error_text(*self),
    {
        match self {
            TripleWrapperError::Io(m) => concat("I/O error: ", m.as_str()),
            TripleWrapperError::ArchiveNotFound(p) => concat("Archive not found: ", p.as_str()),
            TripleWrapperError::InsufficientSpace { needed, available, device } => {
                let mut v: Vec<char> = Vec::new();
                push_str(&mut v, "Insufficient space: need ");
                let n = u64_chars(*needed);
                crate::text::push_all(&mut v, &n);
                push_str(&mut v, " bytes, have ");
                let a = u64_chars(*available);
                crate::text::push_all(&mut v, &a);
                push_str(&mut v, " bytes on ");
                push_str(&mut v, device.as_str());
                string_from(&v)
            },
            TripleWrapperError::NoWorkspace(m) => concat(
                "No suitable workspace found: ",
                m.as_str(),
            ),
            TripleWrapperError::ToolNotFound(m) => concat(
                "Compression tool not found: ",
                m.as_str(),
            ),
            TripleWrapperError::CompressionFailed(m) => concat("Compression failed: ", m.as_str()),
            TripleWrapperError::ChecksumMismatch { expected, actual } => {
                let mut v: Vec<char> = Vec::new();
                push_str(&mut v, "Checksum mismatch: expected ");
                push_str(&mut v, expected.as_str());
                push_str(&mut v, ", got ");
                push_str(&mut v, actual.as_str());
                string_from(&v)
            },
            TripleWrapperError::Cancelled => owned("Operation cancelled"),
            TripleWrapperError::InvalidFormat(m) => concat(
                "Invalid archive format: ",
                m.as_str(),
            ),
            TripleWrapperError::Config(m) => concat("Configuration error: ", m.as_str()),
            TripleWrapperError::Serde(m) => concat("Serialization error: ", m.as_str()),
            TripleWrapperError::DBus(m) => concat("DBus error: ", m.as_str()),
            TripleWrapperError::SysInfo(m) => concat("System info error: ", m.as_str()),
            TripleWrapperError::Internal(m) => concat("Internal error: ", m.as_str()),
        }
    }
}

} // verus!
