//! The failures that cross the vault's boundary.

use vstd::prelude::*;
use vstd::string::StringExecFns;

verus! {

/// Every failure that a vault operation reports.
#[derive(Debug)]
pub enum Error {
    /// Storage, encoding, malformed input, absent key material, or a record
    /// that is missing right after it was written. The text is for
    /// diagnostics only.
    InternalError(String),
    /// The recorded migration history contradicts the catalog.
    MigrationError(String),
    /// Authenticated decryption failed: wrong key, altered envelope, or a
    /// payload that is not text.
    DecryptError,
}

impl Error {
    /// The text that [`Error::message`] returns.
    pub open spec fn message_text(self) -> Seq<char> {
        match self {
            Error::InternalError(detail) => "internal error: "@ + detail@,
            Error::MigrationError(detail) => "database migrate error: "@ + detail@,
            Error::DecryptError => "data decryption error"@,
        }
    }

    /// Renders the failure for a log line or a host dialog.
    pub fn message(&self) -> (text: String)
        ensures
            text@ == self.message_text(),
    {
        match self {
            Error::InternalError(detail) => {
                String::from_str("internal error: ").concat(detail.as_str())
            },
            Error::MigrationError(detail) => {
                String::from_str("database migrate error: ").concat(detail.as_str())
            },
            Error::DecryptError => String::from_str("data decryption error"),
        }
    }

    /// An [`Error::InternalError`] that carries `detail`.
    pub fn internal(detail: &str) -> (err: Error)
        ensures
            err matches Error::InternalError(text) && text@ == detail@,
    {
        Error::InternalError(String::from_str(detail))
    }
}

} // verus!
