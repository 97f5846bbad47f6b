//! The errors of the library, with the text each one prints.
use vstd::prelude::*;

use crate::text::owned;

verus! {

/// Why an analysis, a fix or an explanation could not be produced. Paths
/// are held as text; an I/O failure is held as the message of its source.
#[derive(Debug, Clone, PartialEq, Eq)]
pub enum ShedError {
    Read { path: String, message: String },
    Write { path: String, message: String },
    Parse { path: String, message: String },
    ManifestNotFound { path: String },
    NonUtf8Path { path: String },
    UnknownRule { rule_id: String },
}

impl ShedError {
    /// The text the error displays.
    pub open spec fn spec_message(&self) -> Seq<char> {
        match self {
            ShedError::Read { path, message } => "could not read "@ + path@ + ": "@ + message@,
            ShedError::Write { path, message } => "could not write "@ + path@ + ": "@
                + message@,
            ShedError::Parse { path, message } => "could not parse "@ + path@ + ": "@
                + message@,
            ShedError::ManifestNotFound { path } => "manifest not found at "@ + path@,
            ShedError::NonUtf8Path { path } => "path is not valid UTF-8: "@ + path@,
            ShedError::UnknownRule { rule_id } => "unknown rule: "@ + rule_id@,
        }
    }

    /// The text the error displays.
    pub fn message(&self) -> (r: String)
        ensures
            r@ == self.spec_message(),
    {
        match self {
            ShedError::Read { path, message } => {
                let mut out = owned("could not read ");
                out.append(path.as_str());
                out.append(": ");
                out.append(message.as_str());
                out
            },
            ShedError::Write { path, message } => {
                let mut out = owned("could not write ");
                out.append(path.as_str());
                out.append(": ");
                out.append(message.as_str());
                out
            },
            ShedError::Parse { path, message } => {
                let mut out = owned("could not parse ");
                out.append(path.as_str());
                out.append(": ");
                out.append(message.as_str());
                out
            },
            ShedError::ManifestNotFound { path } => {
                let mut out = owned("manifest not found at ");
                out.append(path.as_str());
                out
            },
            ShedError::NonUtf8Path { path } => {
                let mut out = owned("path is not valid UTF-8: ");
                out.append(path.as_str());
                out
            },
            ShedError::UnknownRule { rule_id } => {
                let mut out = owned("unknown rule: ");
                out.append(rule_id.as_str());
                out
            },
        }
    }
}

} // verus!
