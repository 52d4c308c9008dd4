//! The pipeline's error taxonomy. Every failure carries a human-readable
//! message; the variant says which class of failure occurred, so callers can
//! react without parsing text.

use vstd::prelude::*;

verus! {

/// A pipeline failure.
///
/// `Configuration` covers user-fixable problems (missing credential, a year
/// out of range, a bad part selector); `Locked` means the puzzle's unlock
/// instant has not been reached; `Network` carries a transport or status
/// failure; `MalformedPage` means the expected content region was absent;
/// `Template` names a rendering problem; `Io` names a failed write.
#[derive(Debug)]
pub enum Error {
    Configuration { message: String },
    Locked { message: String },
    Network { message: String },
    MalformedPage { message: String },
    Template { message: String },
    Io { message: String },
}

impl Error {
    /// The message text carried by the error, whatever its variant.
    pub open spec fn spec_message(&self) -> Seq<char> {
        match self {
            Error::Configuration { message } => message@,
            Error::Locked { message } => message@,
            Error::Network { message } => message@,
            Error::MalformedPage { message } => message@,
            Error::Template { message } => message@,
            Error::Io { message } => message@,
        }
    }

    /// Returns the human-readable message of this error.
    pub fn message(&self) -> (r: String)
        ensures
            r@ == self.spec_message(),
    {
        match self {
            Error::Configuration { message } => message.clone(),
            Error::Locked { message } => message.clone(),
            Error::Network { message } => message.clone(),
            Error::MalformedPage { message } => message.clone(),
            Error::Template { message } => message.clone(),
            Error::Io { message } => message.clone(),
        }
    }
}

} // verus!
