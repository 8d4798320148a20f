//! Tests for the input source.

use lob::input::{InputFormat, InputSource};

#[test]
fn test_input_format_as_str() {
    assert_eq!(InputFormat::Lines.as_str(), "lines");
    assert_eq!(InputFormat::Csv.as_str(), "csv");
    assert_eq!(InputFormat::Tsv.as_str(), "tsv");
    assert_eq!(InputFormat::JsonLines.as_str(), "jsonlines");
}

#[test]
fn test_input_source_is_stdin() {
    let source = InputSource::new(vec![], InputFormat::Lines);
    assert!(source.is_stdin());

    let source = InputSource::new(vec!["test.txt".to_string()], InputFormat::Lines);
    assert!(!source.is_stdin());
}

#[test]
fn test_input_source_validate_missing_file() {
    let source = InputSource::new(
        vec!["/nonexistent/file.txt".to_string()],
        InputFormat::Lines,
    );
    assert!(source.validate(&vec![false]).is_err());
}

#[test]
fn test_input_source_validate_empty() {
    let source = InputSource::new(vec![], InputFormat::Lines);
    assert!(source.validate(&vec![]).is_ok());
}
