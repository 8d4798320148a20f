//! The ways in which a run can fail.

use vstd::prelude::*;
use vstd::string::StringExecFns;
use crate::diagnostic::{compilation_report, report_spans, simplified_location, simplify_location};
use crate::paint::{is_rendering, render};
use crate::suggestion::expr_text;

verus! {

/// Errors that can occur during a run. Each carries its message.
#[derive(Debug)]
pub enum LobError {
    /// The file system refused something.
    Io(String),
    /// The compiler rejected the generated program. The message is the
    /// report for the user, ready to be shown.
    Compilation(String),
    /// No cache directory could be had.
    Cache(String),
    /// No usable compiler was found.
    Toolchain(String),
    /// No expression was given.
    InvalidExpression(String),
}

/// The words that stand before the message of an error of each kind.
pub open spec fn message_prefix(error: LobError) -> Seq<char> {
    match error {
        LobError::Io(_) => "IO error: "@,
        LobError::Compilation(_) => "Compilation failed:\n"@,
        LobError::Cache(_) => "Cache error: "@,
        LobError::Toolchain(_) => "Toolchain error: "@,
        LobError::InvalidExpression(_) => "Invalid expression: "@,
    }
}

/// The message that an error carries.
pub open spec fn detail_of(error: LobError) -> Seq<char> {
    match error {
        LobError::Io(m) => m@,
        LobError::Compilation(m) => m@,
        LobError::Cache(m) => m@,
        LobError::Toolchain(m) => m@,
        LobError::InvalidExpression(m) => m@,
    }
}

impl LobError {
    /// The error in words: its kind, then its message.
    pub fn message(&self) -> (out: String)
        ensures
            out@ == message_prefix(*self) + detail_of(*self),
    {
        match self {
            LobError::Io(m) => String::from_str("IO error: ").concat(m.as_str()),
            LobError::Compilation(m) => String::from_str("Compilation failed:\n").concat(
                m.as_str(),
            ),
            LobError::Cache(m) => String::from_str("Cache error: ").concat(m.as_str()),
            LobError::Toolchain(m) => String::from_str("Toolchain error: ").concat(m.as_str()),
            LobError::InvalidExpression(m) => String::from_str("Invalid expression: ").concat(
                m.as_str(),
            ),
        }
    }

    /// Formats the compiler's diagnostic text for the user: the report on it,
    /// rendered for the terminal.
    pub fn format_compilation_error(stderr: &str, user_expression: Option<&str>) -> (out: String)
        ensures
            is_rendering(report_spans(stderr@, expr_text(user_expression)), out@),
    {
        let report = compilation_report(stderr, user_expression);
        render(&report)
    }

    /// Cuts the path of a file location down to the file's name.
    pub fn simplify_error_location(line: &str) -> (r: Option<String>)
        ensures
            r is Some <==> simplified_location(line@) is Some,
            r matches Some(s) ==> Some(s@) == simplified_location(line@),
    {
        simplify_location(line)
    }
}

} // verus!
