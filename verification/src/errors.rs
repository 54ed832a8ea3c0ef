//! The library's error type.
//!
//! A missing resource is never an error here: backends treat absence as an
//! empty discovery result. Errors are raised only for content that is present
//! but malformed, and for a dispatch request that no backend can serve.

use vstd::prelude::*;

verus! {

/// An error surfaced to the caller of the engine.
#[derive(Debug)]
pub enum RtError {
    /// A backend's resource exists but could not be parsed.
    Malformed { path: String, detail: String },
    /// A task was requested that no backend exposes.
    UnknownTask { name: String },
}

impl RtError {
    /// The rendered message of this error.
    pub open spec fn message_spec(&self) -> Seq<char> {
        match self {
            RtError::Malformed { path, detail } => "Failed to parse "@ + path@ + ": "@
                + detail@,
            RtError::UnknownTask { name } => "Unknown task '"@ + name@ + "'"@,
        }
    }

    /// Renders the error as a human-readable message.
    pub fn message(&self) -> (r: String)
        ensures
            r@ == self.message_spec(),
    {
        match self {
            RtError::Malformed { path, detail } => {
                let mut s = String::from_str("Failed to parse ");
                s.append(path.as_str());
                s.append(": ");
                s.append(detail.as_str());
                proof {
                    assert(s@ =~= self.message_spec());
                }
                s
            },
            RtError::UnknownTask { name } => {
                let mut s = String::from_str("Unknown task '");
                s.append(name.as_str());
                s.append("'");
                proof {
                    assert(s@ =~= self.message_spec());
                }
                s
            },
        }
    }
}

} // verus!
