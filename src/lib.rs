//! Resolution of include directives inside parsed configuration documents.
use vstd::prelude::*;
use vstd::string::*;

pub mod directive;
pub mod document;
pub mod engine;
pub mod error;
pub mod resolver;
pub mod shell;
pub mod text;

pub use directive::{classify, Directive, Source};
pub use document::Document;
pub use engine::{Resolution, Step};
pub use error::YincError;
pub use resolver::Resolver;
pub use shell::ShellExecutor;

verus! {

/// Settings of one resolution pass and of its output.
#[derive(Debug, Clone)]
pub struct Config {
    /// Width of indentation in the output.
    pub indent_width: usize,
    /// Whether the output holds several documents.
    pub output_multi_documents: bool,
    /// The tag that marks a node to be replaced by the content it names.
    pub include_tag: String,
    /// The tag reserved for replacing nodes; resolution does not read it.
    pub replace_tag: String,
}

impl Default for Config {
    fn default() -> (r: Config)
        ensures
            r.indent_width == 2,
            !r.output_multi_documents,
            r.include_tag@ == "!include"@,
            r.replace_tag@ == "!replace"@,
    {
        Config {
            indent_width: 2,
            output_multi_documents: false,
            include_tag: String::from_str("!include"),
            replace_tag: String::from_str("!replace"),
        }
    }
}

} // verus!
