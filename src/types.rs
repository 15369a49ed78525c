use vstd::prelude::*;

verus! {

/// How a failure reported by a connection is classified.
#[derive(Clone, Copy, Debug, PartialEq, Eq, Structural)]
pub enum ErrorKind {
    /// The server answered with an error of no more specific kind.
    ResponseError,
    /// The server has no script cached under the requested digest.
    NoScriptError,
    /// A reply could not be converted to the requested type.
    TypeError,
    /// The transport failed.
    IoError,
}

/// A failure of a request, with its classification and a description.
#[derive(Clone, Debug, PartialEq, Eq)]
pub struct RedisError {
    pub kind: ErrorKind,
    pub detail: String,
}

impl RedisError {
    /// Creates an error of the given kind.
    pub fn new(kind: ErrorKind, detail: &str) -> (r: RedisError)
        ensures
            r.kind == kind,
            r.detail@ == detail@,
    {
        RedisError { kind, detail: detail.to_owned() }
    }

    /// The classification of this error.
    pub fn kind(&self) -> (r: ErrorKind)
        ensures
            r == self.kind,
    {
        self.kind
    }

    /// Whether the server reported that the script is not cached.
    pub open spec fn is_no_script(&self) -> bool {
        self.kind == ErrorKind::NoScriptError
    }
}

} // verus!
