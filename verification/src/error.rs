//! The closed set of failure kinds the library reports.

use vstd::prelude::*;

verus! {

/// A failure surfaced to the caller.  Discovery failures are reported as
/// `NotFound`; filesystem, subprocess and catalog-decoding failures all
/// collapse into the `Io` kind.
#[derive(Debug)]
pub enum Error {
    /// A directory or executable expected on disk was missing at
    /// discovery time.
    NotFound { message: String },
    /// A filesystem, subprocess-spawn, or catalog-decoding failure.
    Io { message: String },
}

impl Error {
    /// The diagnostic text carried by this error.
    pub open spec fn spec_message(&self) -> Seq<char> {
        match self {
            Error::NotFound { message } => message@,
            Error::Io { message } => message@,
        }
    }

    /// Read the diagnostic text carried by this error.
    pub fn message(&self) -> (r: &String)
        ensures
            r@ == self.spec_message(),
    {
        match self {
            Error::NotFound { message } => message,
            Error::Io { message } => message,
        }
    }

    /// Whether this error reports a missing directory or executable.
    pub fn is_not_found(&self) -> (r: bool)
        ensures
            r == (self is NotFound),
    {
        match self {
            Error::NotFound { .. } => true,
            Error::Io { .. } => false,
        }
    }
}

} // verus!
