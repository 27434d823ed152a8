//! What can go wrong, and how it is told to the user.

use crate::text::{decimal, decimal_text};
use vstd::prelude::*;

verus! {

/// The failures of the library and of the layers around it. Failures that
/// come from outside (the file system, a decoder) carry their message as
/// text.
#[derive(Debug, Clone)]
pub enum MulchError {
    NotInitialized,
    DomainNotFound { domain: String, available: String },
    InvalidDomainName(String),
    DomainAlreadyExists(String),
    RecordNotFound(String),
    AmbiguousId { id: String, count: usize, ids: String },
    LockTimeout(String),
    ValidationError(String),
    Io(String),
    Json(String),
    Yaml(String),
}

impl MulchError {
    /// The message of the failure.
    pub open spec fn message_text(self) -> Seq<char> {
        match self {
            MulchError::NotInitialized => "No .mulch/ directory found. Run `mulch init` first."@,
            MulchError::DomainNotFound { domain, available } => "Domain \""@ + domain@
                + "\" not found in config. Available domains: "@ + available@,
            MulchError::InvalidDomainName(name) => "Invalid domain name: \""@ + name@
                + "\". Only alphanumeric characters, hyphens, and underscores are allowed."@,
            MulchError::DomainAlreadyExists(name) => "Domain \""@ + name@ + "\" already exists."@,
            MulchError::RecordNotFound(id) => "Record \""@ + id@
                + "\" not found. Run `mulch query` to see record IDs."@,
            MulchError::AmbiguousId { id, count, ids } => "Ambiguous identifier \""@ + id@
                + "\" matches "@ + decimal_text(count as nat) + " records: "@ + ids@
                + ". Use more characters to disambiguate."@,
            MulchError::LockTimeout(path) => "Timed out waiting for lock on "@ + path@
                + ". If no other mulch process is running, delete the lock file manually."@,
            MulchError::ValidationError(detail) => "Schema validation failed: "@ + detail@,
            MulchError::Io(detail) => detail@,
            MulchError::Json(detail) => "JSON error: "@ + detail@,
            MulchError::Yaml(detail) => "YAML error: "@ + detail@,
        }
    }

    /// The message of the failure, as shown to the user.
    pub fn message(&self) -> (s: String)
        ensures
            s@ == self.message_text(),
    {
        let mut s = String::new();
        match self {
            MulchError::NotInitialized => {
                s.append("No .mulch/ directory found. Run `mulch init` first.");
            },
            MulchError::DomainNotFound { domain, available } => {
                s.append("Domain \"");
                s.append(domain.as_str());
                s.append("\" not found in config. Available domains: ");
                s.append(available.as_str());
            },
            MulchError::InvalidDomainName(name) => {
                s.append("Invalid domain name: \"");
                s.append(name.as_str());
                s.append(
                    "\". Only alphanumeric characters, hyphens, and underscores are allowed.",
                );
            },
            MulchError::DomainAlreadyExists(name) => {
                s.append("Domain \"");
                s.append(name.as_str());
                s.append("\" already exists.");
            },
            MulchError::RecordNotFound(id) => {
                s.append("Record \"");
                s.append(id.as_str());
                s.append("\" not found. Run `mulch query` to see record IDs.");
            },
            MulchError::AmbiguousId { id, count, ids } => {
                s.append("Ambiguous identifier \"");
                s.append(id.as_str());
                s.append("\" matches ");
                s.append(decimal(*count as u64).as_str());
                s.append(" records: ");
                s.append(ids.as_str());
                s.append(". Use more characters to disambiguate.");
            },
            MulchError::LockTimeout(path) => {
                s.append("Timed out waiting for lock on ");
                s.append(path.as_str());
                s.append(
                    ". If no other mulch process is running, delete the lock file manually.",
                );
            },
            MulchError::ValidationError(detail) => {
                s.append("Schema validation failed: ");
                s.append(detail.as_str());
            },
            MulchError::Io(detail) => {
                s.append(detail.as_str());
            },
            MulchError::Json(detail) => {
                s.append("JSON error: ");
                s.append(detail.as_str());
            },
            MulchError::Yaml(detail) => {
                s.append("YAML error: ");
                s.append(detail.as_str());
            },
        }
        s
    }
}

} // verus!
