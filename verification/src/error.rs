//! The failures of pairing two captures.

use vstd::prelude::*;
use vstd::string::StringExecFns;

verus! {

/// No capture in the directory of `path` was taken within the forward window
/// after the capture at `path`.
#[derive(Debug)]
pub struct NoMovingPath(pub String);

impl NoMovingPath {
    /// The error for the fixed capture at `path`.
    pub fn new(path: &str) -> (error: NoMovingPath)
        ensures
            error.0@ == path@,
    {
        NoMovingPath(String::from_str(path))
    }

    /// The text of the message.
    pub open spec fn spec_message(&self) -> Seq<char> {
        "No moving path for path: "@ + self.0@
    }

    /// The message, which names the path.
    pub fn message(&self) -> (text: String)
        ensures
            text@ == self.spec_message(),
    {
        String::from_str("No moving path for path: ").concat(self.0.as_str())
    }
}

/// Why no pairing could be made for a fixed capture.
#[derive(Debug)]
pub enum ResolveError {
    /// The first characters of the fixed capture's file name are no
    /// timestamp. Holds the capture's path.
    MalformedTimestamp(String),
    /// No capture qualifies as the moving one.
    NoMovingCapture(NoMovingPath),
}

impl ResolveError {
    /// The path that the error holds.
    pub open spec fn spec_path(&self) -> Seq<char> {
        match self {
            ResolveError::MalformedTimestamp(path) => path@,
            ResolveError::NoMovingCapture(error) => error.0@,
        }
    }

    /// The path of the fixed capture that the error is about.
    pub fn path(&self) -> (path: &str)
        ensures
            path@ == self.spec_path(),
    {
        match self {
            ResolveError::MalformedTimestamp(path) => path.as_str(),
            ResolveError::NoMovingCapture(error) => error.0.as_str(),
        }
    }

    /// The text of the message.
    pub open spec fn spec_message(&self) -> Seq<char> {
        match self {
            ResolveError::MalformedTimestamp(path) => "Malformed timestamp in the name of: "@
                + path@,
            ResolveError::NoMovingCapture(error) => error.spec_message(),
        }
    }

    /// The message, which ends with the offending path.
    pub fn message(&self) -> (text: String)
        ensures
            text@ == self.spec_message(),
    {
        match self {
            ResolveError::MalformedTimestamp(path) => String::from_str(
                "Malformed timestamp in the name of: ",
            ).concat(path.as_str()),
            ResolveError::NoMovingCapture(error) => error.message(),
        }
    }
}

/// Every message ends with the path that the error is about.
pub proof fn law_message_names_path(error: ResolveError)
    ensures
        error.spec_message().len() >= error.spec_path().len(),
        error.spec_message().subrange(
            error.spec_message().len() - error.spec_path().len(),
            error.spec_message().len() as int,
        ) == error.spec_path(),
{
}

} // verus!
