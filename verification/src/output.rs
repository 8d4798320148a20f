//! The format in which a generated program writes its result.

use vstd::prelude::*;
use crate::text::same_text;

verus! {

/// Output format for results.
#[derive(Clone, Copy, Debug, PartialEq, Eq, Structural)]
pub enum OutputFormat {
    /// Debug form.
    Debug,
    /// One JSON array.
    Json,
    /// JSON values, one to a line.
    JsonLines,
    /// Comma-separated values.
    Csv,
    /// A table with a header row.
    Table,
}

/// The output format that a name selects, if it names one.
pub open spec fn output_format_named(name: Seq<char>) -> Option<OutputFormat> {
    if name == "debug"@ {
        Some(OutputFormat::Debug)
    } else if name == "json"@ {
        Some(OutputFormat::Json)
    } else if name == "jsonl"@ || name == "jsonlines"@ {
        Some(OutputFormat::JsonLines)
    } else if name == "csv"@ {
        Some(OutputFormat::Csv)
    } else if name == "table"@ {
        Some(OutputFormat::Table)
    } else {
        None
    }
}

/// The name of an output format.
pub open spec fn output_format_name(format: OutputFormat) -> Seq<char> {
    match format {
        OutputFormat::Debug => "debug"@,
        OutputFormat::Json => "json"@,
        OutputFormat::JsonLines => "jsonlines"@,
        OutputFormat::Csv => "csv"@,
        OutputFormat::Table => "table"@,
    }
}

/// The format that is used where none is chosen: debug form on an interactive
/// terminal, lines of JSON into a pipe.
pub open spec fn default_output_format(is_terminal: bool) -> OutputFormat {
    if is_terminal {
        OutputFormat::Debug
    } else {
        OutputFormat::JsonLines
    }
}

impl OutputFormat {
    /// The format that `s` names, if it names one.
    pub fn from_str(s: &str) -> (r: Option<Self>)
        ensures
            r == output_format_named(s@),
    {
        if same_text(s, "debug") {
            Some(OutputFormat::Debug)
        } else if same_text(s, "json") {
            Some(OutputFormat::Json)
        } else if same_text(s, "jsonl") || same_text(s, "jsonlines") {
            Some(OutputFormat::JsonLines)
        } else if same_text(s, "csv") {
            Some(OutputFormat::Csv)
        } else if same_text(s, "table") {
            Some(OutputFormat::Table)
        } else {
            None
        }
    }

    /// The format that is used where none is chosen.
    pub fn default(is_terminal: bool) -> (format: Self)
        ensures
            format == default_output_format(is_terminal),
    {
        if is_terminal {
            OutputFormat::Debug
        } else {
            OutputFormat::JsonLines
        }
    }

    /// The format's name.
    pub fn as_str(self) -> (name: &'static str)
        ensures
            name@ == output_format_name(self),
    {
        match self {
            OutputFormat::Debug => "debug",
            OutputFormat::Json => "json",
            OutputFormat::JsonLines => "jsonlines",
            OutputFormat::Csv => "csv",
            OutputFormat::Table => "table",
        }
    }
}

/// Every format is selected by its own name.
pub proof fn lemma_name_selects_format(format: OutputFormat)
    ensures
        output_format_named(output_format_name(format)) == Some(format),
{
    reveal_strlit("debug");
    reveal_strlit("json");
    reveal_strlit("jsonl");
    reveal_strlit("jsonlines");
    reveal_strlit("csv");
    reveal_strlit("table");
    match format {
        OutputFormat::Debug => {},
        OutputFormat::Json => {
            assert("json"@.len() != "debug"@.len());
        },
        OutputFormat::JsonLines => {
            assert("jsonlines"@.len() != "debug"@.len());
            assert("jsonlines"@.len() != "json"@.len());
        },
        OutputFormat::Csv => {
            assert("csv"@.len() != "debug"@.len());
            assert("csv"@.len() != "json"@.len());
            assert("csv"@.len() != "jsonl"@.len());
            assert("csv"@.len() != "jsonlines"@.len());
        },
        OutputFormat::Table => {
            assert("table"@[0] != "debug"@[0]);
            assert("table"@.len() != "json"@.len());
            assert("table"@[0] != "jsonl"@[0]);
            assert("table"@.len() != "jsonlines"@.len());
            assert("table"@.len() != "csv"@.len());
        },
    }
}

} // verus!
