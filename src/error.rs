use vstd::prelude::*;
use vstd::string::*;

use crate::codec::ParseError;

verus! {

/// Why an operation of the library failed.
#[derive(Debug, Clone, PartialEq)]
pub enum Error {
    /// The request file at the path could not be read as a request.
    Parse(String, ParseError),
    /// The project or request, named by its path, does not exist.
    NotFound(String),
    /// A project of this name is already there.
    AlreadyExists(String),
    /// The storage failed: what was being done, and why.
    Storage(String),
    /// The request could not be sent, or no response came.
    Transport(String),
    /// The editor could not be started, or it failed.
    EditorLaunch(String),
}

pub open spec fn parse_error_text(e: ParseError) -> Seq<char> {
    match e {
        ParseError::MissingMethod => "Missing method"@,
        ParseError::MissingUrl => "Missing URL"@,
    }
}

/// The message that presents an error.
pub open spec fn error_text(e: Error) -> Seq<char> {
    match e {
        Error::Parse(path, p) => "Failed to parse request file "@ + path@ + ": "@ + parse_error_text(
            p,
        ),
        Error::NotFound(what) => "Not found: "@ + what@,
        Error::AlreadyExists(name) => "Project already exists: "@ + name@,
        Error::Storage(what) => what@,
        Error::Transport(what) => what@,
        Error::EditorLaunch(what) => what@,
    }
}

impl ParseError {
    /// A short description of the error.
    pub fn message(&self) -> (r: String)
        ensures
            r@ == parse_error_text(*self),
    {
        match self {
            ParseError::MissingMethod => String::from_str("Missing method"),
            ParseError::MissingUrl => String::from_str("Missing URL"),
        }
    }
}

impl Error {
    /// A human-readable description of the error.
    pub fn message(&self) -> (r: String)
        ensures
            r@ == error_text(*self),
    {
        match self {
            Error::Parse(path, p) => {
                let mut r = String::from_str("Failed to parse request file ");
                r.append(path.as_str());
                r.append(": ");
                r.append(p.message().as_str());
                r
            },
            Error::NotFound(what) => {
                let mut r = String::from_str("Not found: ");
                r.append(what.as_str());
                r
            },
            Error::AlreadyExists(name) => {
                let mut r = String::from_str("Project already exists: ");
                r.append(name.as_str());
                r
            },
            Error::Storage(what) => what.clone(),
            Error::Transport(what) => what.clone(),
            Error::EditorLaunch(what) => what.clone(),
        }
    }
}

} // verus!
