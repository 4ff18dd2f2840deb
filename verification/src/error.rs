//! The crate's error type: a failure category together with a
//! human-readable description and, where one exists, the description of the
//! underlying cause.

use vstd::prelude::*;

verus! {

/// The category of a failure, as the protocol and lookup logic distinguish
/// them: transport failures (connect, read, write, timeout), malformed or
/// mismatched RCON messages, payloads too large to frame, response bytes
/// that are not valid text, a failed authentication transaction, and
/// configuration defects surfaced at startup.
#[derive(Clone, Copy, Debug, PartialEq, Eq, Structural)]
pub enum ErrorKind {
    Transport,
    Protocol,
    Encoding,
    Decoding,
    Authentication,
    Configuration,
}

/// A single opaque failure value: every error of the crate carries its
/// category, a description, and optionally the description of its cause.
#[derive(Debug)]
pub struct Error {
    /// The failure category
    pub kind: ErrorKind,
    /// The error description
    pub error: String,
    /// The description of the underlying error, where one exists
    pub source: Option<String>,
    /// A captured backtrace, rendered as text, where the surrounding
    /// program captured one
    pub backtrace: Option<String>,
}

impl Error {
    /// Creates a new error; no backtrace is captured here
    pub fn new(kind: ErrorKind, error: String, source: Option<String>) -> (r: Error)
        ensures
            r.kind == kind,
            r.error == error,
            r.source == source,
            r.backtrace is None,
    {
        Error { kind, error, source, backtrace: None }
    }

    /// Whether the error carries a captured backtrace or not
    pub fn has_backtrace(&self) -> (r: bool)
        ensures
            r == (self.backtrace is Some),
    {
        self.backtrace.is_some()
    }
}

} // verus!
