//! The error kinds that a resolution pass can end with.
use vstd::prelude::*;
use crate::text::concat;

verus! {

/// A failure of a resolution pass, with its message.
#[derive(Debug, Clone)]
pub enum YincError {
    Io(String),
    Yaml(String),
    Json(String),
    Http(String),
    Glob(String),
    Shell(String),
    Include(String),
    Parse(String),
}

/// The words that introduce the message of each error kind.
pub open spec fn error_prefix(e: YincError) -> Seq<char> {
    match e {
        YincError::Io(_) => "IO error: "@,
        YincError::Yaml(_) => "YAML error: "@,
        YincError::Json(_) => "JSON error: "@,
        YincError::Http(_) => "HTTP error: "@,
        YincError::Glob(_) => "Glob pattern error: "@,
        YincError::Shell(_) => "Shell command error: "@,
        YincError::Include(_) => "Include error: "@,
        YincError::Parse(_) => "Parse error: "@,
    }
}

impl YincError {
    /// The message that the error carries.
    pub open spec fn message(self) -> Seq<char> {
        match self {
            YincError::Io(m) => m@,
            YincError::Yaml(m) => m@,
            YincError::Json(m) => m@,
            YincError::Http(m) => m@,
            YincError::Glob(m) => m@,
            YincError::Shell(m) => m@,
            YincError::Include(m) => m@,
            YincError::Parse(m) => m@,
        }
    }

    /// The text shown to a user: the kind's words, then the message.
    pub fn to_string(&self) -> (r: String)
        ensures
            r@ == error_prefix(*self) + self.message(),
    {
        match self {
            YincError::Io(m) => concat("IO error: ", m.as_str()),
            YincError::Yaml(m) => concat("YAML error: ", m.as_str()),
            YincError::Json(m) => concat("JSON error: ", m.as_str()),
            YincError::Http(m) => concat("HTTP error: ", m.as_str()),
            YincError::Glob(m) => concat("Glob pattern error: ", m.as_str()),
            YincError::Shell(m) => concat("Shell command error: ", m.as_str()),
            YincError::Include(m) => concat("Include error: ", m.as_str()),
            YincError::Parse(m) => concat("Parse error: ", m.as_str()),
        }
    }
}

} // verus!
