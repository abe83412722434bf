//! The closed set of failure kinds at the simulation's boundary.
//!
//! The core itself has no recoverable errors: absent components come back
//! as absent values.  What can fail lives in the collaborators around the
//! core — reading assets or the tile map from disk, decoding them, and
//! the rendering backend — and each such failure is carried up as one of
//! these three kinds, with a human-readable message.

use vstd::prelude::*;

verus! {

/// A failure at the simulation's boundary.
#[derive(Debug)]
pub enum Error {
    /// Reading or writing a file failed.
    Io(String),
    /// A persisted document could not be decoded.
    Decode(String),
    /// The rendering backend failed.
    Backend(String),
}

impl Error {
    /// The carried message.
    pub fn message(&self) -> (r: &String)
        ensures
            r@ == (match self {
                Error::Io(m) => m@,
                Error::Decode(m) => m@,
                Error::Backend(m) => m@,
            }),
    {
        match self {
            Error::Io(m) => m,
            Error::Decode(m) => m,
            Error::Backend(m) => m,
        }
    }

    /// Whether two errors are of the same kind.
    pub fn same_kind(&self, other: &Error) -> (r: bool)
        ensures
            r == ((self is Io && other is Io) || (self is Decode && other is Decode) || (
            self is Backend && other is Backend)),
    {
        match (self, other) {
            (Error::Io(_), Error::Io(_)) => true,
            (Error::Decode(_), Error::Decode(_)) => true,
            (Error::Backend(_), Error::Backend(_)) => true,
            _ => false,
        }
    }
}

} // verus!
