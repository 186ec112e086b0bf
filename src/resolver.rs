//! Syntactic tests on a directive's text, and the existence check on a path.
use vstd::prelude::*;
use crate::error::YincError;
use crate::text::{concat, contains_char, ends_with, lower_of, starts_with, to_lowercase};

verus! {

/// The text names a remote resource.
pub open spec fn is_url_text(s: Seq<char>) -> bool {
    "http://"@.is_prefix_of(s) || "https://"@.is_prefix_of(s)
}

/// The text holds a wildcard or a character class.
pub open spec fn is_glob_text(s: Seq<char>) -> bool {
    s.contains('*') || s.contains('?') || s.contains('[')
}

/// The message of the error for a path that does not exist.
pub open spec fn not_found_message(full_path: Seq<char>) -> Seq<char> {
    "File not found: "@ + full_path
}

/// Stateless helpers that route a directive's text.
pub struct Resolver;

impl Resolver {
    /// Whether `path` starts with `http://` or `https://`.
    pub fn is_url(path: &str) -> (r: bool)
        ensures
            r == is_url_text(path@),
    {
        starts_with(path, "http://") || starts_with(path, "https://")
    }

    /// Whether `path` contains `*`, `?` or `[`.
    pub fn is_glob_pattern(path: &str) -> (r: bool)
        ensures
            r == is_glob_text(path@),
    {
        contains_char(path, '*') || contains_char(path, '?') || contains_char(path, '[')
    }

    /// Whether `path`, lowercased, ends with `.json`.
    pub fn is_json_file(path: &str) -> (r: bool)
        ensures
            r == ".json"@.is_suffix_of(lower_of(path@)),
    {
        let lower = to_lowercase(path);
        ends_with(lower.as_str(), ".json")
    }

    /// Whether a file reached by a plain path is read as JSON: its path ends
    /// with `.json`, compared case-sensitively.
    pub fn parses_as_json(path: &str) -> (r: bool)
        ensures
            r == ".json"@.is_suffix_of(path@),
    {
        ends_with(path, ".json")
    }

    /// Accepts a joined path that exists, and names it in the error when it
    /// does not.
    pub fn resolve_path(full_path: String, exists: bool) -> (r: Result<String, YincError>)
        ensures
            exists ==> r == Ok::<String, YincError>(full_path),
            !exists ==> (r matches Err(YincError::Include(m)) && m@ == not_found_message(full_path@)),
    {
        if !exists {
            return Err(YincError::Include(concat("File not found: ", full_path.as_str())));
        }
        Ok(full_path)
    }
}

} // verus!
