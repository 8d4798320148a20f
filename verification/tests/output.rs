//! Tests for the output formats.

use lob::output::OutputFormat;

#[test]
fn test_output_format_from_str() {
    assert_eq!(OutputFormat::from_str("debug"), Some(OutputFormat::Debug));
    assert_eq!(OutputFormat::from_str("json"), Some(OutputFormat::Json));
    assert_eq!(
        OutputFormat::from_str("jsonl"),
        Some(OutputFormat::JsonLines)
    );
    assert_eq!(
        OutputFormat::from_str("jsonlines"),
        Some(OutputFormat::JsonLines)
    );
    assert_eq!(OutputFormat::from_str("csv"), Some(OutputFormat::Csv));
    assert_eq!(OutputFormat::from_str("invalid"), None);
}

#[test]
fn test_output_format_as_str() {
    assert_eq!(OutputFormat::Debug.as_str(), "debug");
    assert_eq!(OutputFormat::Json.as_str(), "json");
    assert_eq!(OutputFormat::JsonLines.as_str(), "jsonlines");
    assert_eq!(OutputFormat::Csv.as_str(), "csv");
}

#[test]
fn test_output_format_default() {
    assert_eq!(OutputFormat::default(true), OutputFormat::Debug);
    assert_eq!(OutputFormat::default(false), OutputFormat::JsonLines);
}
