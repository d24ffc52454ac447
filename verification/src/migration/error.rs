//! Errors returned by the migration tool.
use crate::text::copy_str;
use vstd::prelude::*;

verus! {

/// Top-level migration tool error.
#[derive(Clone, Debug)]
pub enum MigrationError {
    /// I/O failure reading the source file.
    SourceRead {
        /// Path to the source file.
        path: String,
        /// Rendering of the underlying I/O error.
        message: String,
    },
    /// CSV parse failure.
    Csv {
        /// Path to the source file.
        path: String,
        /// Rendering of the CSV error.
        message: String,
    },
    /// JSON parse failure.
    Json {
        /// Path to the source file.
        path: String,
        /// Rendering of the JSON error.
        message: String,
    },
    /// Invalid source record.
    InvalidRecord {
        /// One-based row index (0 when not known).
        row: usize,
        /// Human-readable reason.
        message: String,
    },
    /// Storage backend failure.
    Storage(String),
    /// Domain validation failure.
    Domain(String),
    /// Signal types validation failure.
    Types(String),
    /// Generic operational error.
    Other(String),
}

/// The error is an invalid-record error at row 0 with the given message.
pub open spec fn is_invalid_record(e: MigrationError, message: Seq<char>) -> bool {
    e matches MigrationError::InvalidRecord { row, message: m } && row == 0 && m@ == message
}

impl MigrationError {
    /// Creates a generic operational error.
    pub fn other(message: &str) -> (e: MigrationError)
        ensures
            e matches MigrationError::Other(m) && m@ == message@,
    {
        MigrationError::Other(copy_str(message))
    }

    /// An invalid-record error at row 0.
    pub fn invalid(message: &str) -> (e: MigrationError)
        ensures
            is_invalid_record(e, message@),
    {
        MigrationError::InvalidRecord { row: 0, message: copy_str(message) }
    }
}

} // verus!
