//! Error types.

use vstd::prelude::*;
use vstd::string::StringExecFns;

verus! {

/// Errors that can occur during SAV parsing.
#[derive(Debug)]
pub enum FsSavError {
    /// File not found
    FileNotFound(String),
    /// IO error (its message)
    Io(String),
    /// Save file parsing error
    ParseError(String),
    /// JSON serialization error (its message)
    Json(String),
    /// Invalid save file structure
    InvalidStructure(String),
    /// Watch error
    WatchError(String),
}

/// The text that describes an error.
pub open spec fn error_message(e: FsSavError) -> Seq<char> {
    match e {
        FsSavError::FileNotFound(s) => "File not found: "@ + s@,
        FsSavError::Io(s) => "IO error: "@ + s@,
        FsSavError::ParseError(s) => "Failed to parse save file: "@ + s@,
        FsSavError::Json(s) => "JSON error: "@ + s@,
        FsSavError::InvalidStructure(s) => "Invalid save file structure: "@ + s@,
        FsSavError::WatchError(s) => "Watch error: "@ + s@,
    }
}

impl FsSavError {
    /// The text that describes this error.
    pub fn message(&self) -> (r: String)
        ensures
            r@ == error_message(*self),
    {
        let (prefix, detail) = match self {
            FsSavError::FileNotFound(s) => ("File not found: ", s),
            FsSavError::Io(s) => ("IO error: ", s),
            FsSavError::ParseError(s) => ("Failed to parse save file: ", s),
            FsSavError::Json(s) => ("JSON error: ", s),
            FsSavError::InvalidStructure(s) => ("Invalid save file structure: ", s),
            FsSavError::WatchError(s) => ("Watch error: ", s),
        };
        let mut r = String::from_str(prefix);
        r.append(detail.as_str());
        r
    }
}

} // verus!
