//! The errors that the library reports.

use crate::text::{append, chars_of, string_of};
use vstd::prelude::*;

verus! {

/// What can go wrong. Each variant that stands for a failure outside the
/// library carries the text of that failure.
#[derive(Debug, Clone)]
pub enum DevRecapError {
    /// The version-control layer failed.
    Git(String),
    /// Reading or writing failed.
    Io(String),
    /// The configuration is not usable.
    Config(String),
    /// A configuration file could not be read as TOML.
    TomlParse(String),
    /// A configuration could not be written as TOML.
    TomlSerialize(String),
    /// A request over the network failed.
    Http(String),
    /// A value could not be read or written as JSON.
    Json(String),
    /// The summarising service answered with an error.
    ClaudeApi(String),
    /// The cache failed.
    Cache(String),
    /// No repository lies at the path.
    RepositoryNotFound(String),
    /// No commit of the repository passed the filters.
    NoCommitsFound {
        /// The author that was asked for, or `any`.
        author: String,
    },
    /// The time window is not usable.
    InvalidTimespan(String),
    /// A required setting is missing.
    MissingConfig(String),
    /// A pattern is no valid expression.
    Regex(String),
    /// Anything else.
    Other(String),
}

impl DevRecapError {
    /// A configuration error with the given text.
    pub fn config(msg: &str) -> (e: DevRecapError)
        ensures
            e matches DevRecapError::Config(text) && text@ == msg@,
    {
        DevRecapError::Config(string_of(&chars_of(msg)))
    }

    /// An error of the summarising service with the given text.
    pub fn claude_api(msg: &str) -> (e: DevRecapError)
        ensures
            e matches DevRecapError::ClaudeApi(text) && text@ == msg@,
    {
        DevRecapError::ClaudeApi(string_of(&chars_of(msg)))
    }

    /// An error of no particular kind with the given text.
    pub fn other(msg: &str) -> (e: DevRecapError)
        ensures
            e matches DevRecapError::Other(text) && text@ == msg@,
    {
        DevRecapError::Other(string_of(&chars_of(msg)))
    }

    /// What the error says, as one line of text.
    pub open spec fn spec_message(self) -> Seq<char> {
        match self {
            DevRecapError::Git(text) => "Git error: "@ + text@,
            DevRecapError::Io(text) => "IO error: "@ + text@,
            DevRecapError::Config(text) => "Configuration error: "@ + text@,
            DevRecapError::TomlParse(text) => "TOML parse error: "@ + text@,
            DevRecapError::TomlSerialize(text) => "TOML serialization error: "@ + text@,
            DevRecapError::Http(text) => "HTTP error: "@ + text@,
            DevRecapError::Json(text) => "JSON error: "@ + text@,
            DevRecapError::ClaudeApi(text) => "API error: "@ + text@,
            DevRecapError::Cache(text) => "Cache error: "@ + text@,
            DevRecapError::RepositoryNotFound(text) => "Repository not found at path: "@ + text@,
            DevRecapError::NoCommitsFound { author } => "No commits found for author "@ + author@
                + " in timespan"@,
            DevRecapError::InvalidTimespan(text) => "Invalid timespan: "@ + text@,
            DevRecapError::MissingConfig(text) => "Missing required configuration: "@ + text@,
            DevRecapError::Regex(text) => "Regex error: "@ + text@,
            DevRecapError::Other(text) => text@,
        }
    }

    /// What the error says, as one line of text.
    pub fn message(&self) -> (text: String)
        ensures
            text@ == self.spec_message(),
    {
        let (head, body, tail): (&str, &String, &str) = match self {
            DevRecapError::Git(text) => ("Git error: ", text, ""),
            DevRecapError::Io(text) => ("IO error: ", text, ""),
            DevRecapError::Config(text) => ("Configuration error: ", text, ""),
            DevRecapError::TomlParse(text) => ("TOML parse error: ", text, ""),
            DevRecapError::TomlSerialize(text) => ("TOML serialization error: ", text, ""),
            DevRecapError::Http(text) => ("HTTP error: ", text, ""),
            DevRecapError::Json(text) => ("JSON error: ", text, ""),
            DevRecapError::ClaudeApi(text) => ("API error: ", text, ""),
            DevRecapError::Cache(text) => ("Cache error: ", text, ""),
            DevRecapError::RepositoryNotFound(text) => ("Repository not found at path: ", text, ""),
            DevRecapError::NoCommitsFound { author } => (
                "No commits found for author ",
                author,
                " in timespan",
            ),
            DevRecapError::InvalidTimespan(text) => ("Invalid timespan: ", text, ""),
            DevRecapError::MissingConfig(text) => ("Missing required configuration: ", text, ""),
            DevRecapError::Regex(text) => ("Regex error: ", text, ""),
            DevRecapError::Other(text) => ("", text, ""),
        };
        proof {
            reveal_strlit("");
            reveal_strlit(" in timespan");
        }
        let mut out: Vec<char> = chars_of(head);
        append(&mut out, &chars_of(body.as_str()));
        append(&mut out, &chars_of(tail));
        proof {
            assert(out@ =~= head@ + body@ + tail@);
            if tail@.len() == 0 {
                assert(head@ + body@ + tail@ =~= head@ + body@);
            }
            if head@.len() == 0 {
                assert(head@ + body@ =~= body@);
            }
        }
        string_of(&out)
    }
}

} // verus!
