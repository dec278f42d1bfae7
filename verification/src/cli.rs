//! The command line: which subcommand runs.
use crate::text::{concat, str_equal, to_owned};
use vstd::prelude::*;

verus! {

/// A subcommand of the program.
pub enum Command {
    /// Run the web server (also when no subcommand is given).
    Serve,
    /// Print a DOI's Crossref JSON.
    Json,
    /// Print a paper's page.
    Html,
    /// Print a paper's BibTeX entry.
    Bib,
    /// Print a paper's abstract.
    Abs,
    /// Print the Crossref records in the cache.
    Cache,
    /// An unknown subcommand.
    Unknown(String),
}

/// The subcommand that a command-line word names.
pub fn command(sub: Option<&str>) -> (c: Command)
    ensures
        match sub {
            None => c is Serve,
            Some(s) => if s@ == "serve"@ {
                c is Serve
            } else if s@ == "json"@ {
                c is Json
            } else if s@ == "html"@ {
                c is Html
            } else if s@ == "bib"@ {
                c is Bib
            } else if s@ == "abs"@ {
                c is Abs
            } else if s@ == "cache"@ {
                c is Cache
            } else {
                c matches Command::Unknown(u) && u@ == s@
            },
        },
{
    match sub {
        None => Command::Serve,
        Some(s) => if str_equal(s, "serve") {
            Command::Serve
        } else if str_equal(s, "json") {
            Command::Json
        } else if str_equal(s, "html") {
            Command::Html
        } else if str_equal(s, "bib") {
            Command::Bib
        } else if str_equal(s, "abs") {
            Command::Abs
        } else if str_equal(s, "cache") {
            Command::Cache
        } else {
            Command::Unknown(to_owned(s))
        },
    }
}

/// The complaint about an unknown subcommand.
pub fn unknown_command_message(cmd: &str) -> (m: String)
    ensures
        m@ == "unknown command "@ + cmd@,
{
    concat("unknown command ", cmd)
}

/// The list of subcommands, printed after an unknown one.
pub fn available_commands() -> (m: &'static str)
    ensures
        m@ == "available commands are: serve, json, html, bib, abs, cache"@,
{
    "available commands are: serve, json, html, bib, abs, cache"
}

/// What the `abs` subcommand prints for an abstract's text.
pub fn abstract_output(text: Option<String>) -> (out: String)
    ensures
        out@ == match text {
            Some(t) => t@,
            None => "No abstract found."@,
        },
{
    match text {
        Some(t) => t,
        None => to_owned("No abstract found."),
    }
}

} // verus!
