//! The error taxonomy of the tool.
//!
//! Every failure of the core is one of these kinds; none is retried.  The
//! `error` field carries the underlying message verbatim so that a caller
//! can surface it.

use vstd::prelude::*;

verus! {

/// What went wrong.  Each kind is terminal for the current invocation.
#[derive(Clone, Copy, PartialEq, Eq, Structural, Debug)]
pub enum ErrorKind {
    /// An invalid numeric limit or logically conflicting toggle overrides.
    Config,
    /// A transport-level failure reaching the remote service.
    Remote,
    /// A response that does not match the expected shape.
    Decode,
    /// A local cache file that exists but is not valid structured data.
    CacheCorrupt,
    /// A registry that loaded but contains zero entries.
    EmptySites,
    /// A site code that validation explicitly rejected.
    SiteNotFound,
}

/// An error of the core: its kind, and the underlying message.
#[derive(Debug)]
pub struct Error {
    pub kind: ErrorKind,
    pub error: String,
}

impl Error {
    /// Builds an error of the given kind carrying `message` verbatim.
    pub fn new(kind: ErrorKind, message: String) -> (r: Error)
        ensures
            r.kind == kind,
            r.error@ == message@,
    {
        Error { kind, error: message }
    }

    /// The carried message, for display by the caller.
    pub fn message(&self) -> (r: &String)
        ensures
            r@ == self.error@,
    {
        &self.error
    }
}

} // verus!
