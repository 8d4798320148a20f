//! The text of the statements that a generated program is made of.
//!
//! The generated program calls a small fixed vocabulary of functions that read
//! input and write output. Only their names and call shapes are known here.

use vstd::prelude::*;

verus! {

/// Gathers the files to read: the generated program takes them as its arguments.
pub const FILES: &'static str = r#"    let files: Vec<_> = std::env::args().skip(1).map(|p| std::path::PathBuf::from(p)).collect();
"#;

/// Reads lines from standard input.
pub const LINES_STDIN: &'static str = r#"    let stdin_data = input();
"#;

/// Reads lines from the files.
pub const LINES_FILES: &'static str = r#"    let stdin_data = input_from_files(&files);
"#;

/// Reads comma-separated records from standard input.
pub const CSV_STDIN: &'static str = r#"    let stdin_data = input_csv();
"#;

/// Reads comma-separated records from the files.
pub const CSV_FILES: &'static str = r#"    let stdin_data = input_csv_from_files(&files);
"#;

/// Reads tab-separated records from standard input.
pub const TSV_STDIN: &'static str = r#"    let stdin_data = input_tsv();
"#;

/// Reads tab-separated records from the files.
pub const TSV_FILES: &'static str = r#"    let stdin_data = input_tsv_from_files(&files);
"#;

/// Reads one JSON value per line from standard input.
pub const JSON_STDIN: &'static str = r#"    let stdin_data = input_json();
"#;

/// Reads one JSON value per line from the files.
pub const JSON_FILES: &'static str = r#"    let stdin_data = input_json_from_files(&files);
"#;

/// Prints each element of a sequence in debug form.
pub const DEBUG_LAZY: &'static str = r#"    for item in result {
        println!("{:?}", item);
    }
"#;

/// Prints a single value in debug form.
pub const DEBUG_TERMINAL: &'static str = r#"    println!("{:?}", result);
"#;

/// Collects a sequence and prints it as one JSON array.
pub const JSON_LAZY: &'static str = r#"    let items: Vec<_> = result.collect();
    println!("{}", serde_json::to_string_pretty(&items).unwrap());
"#;

/// Prints a single value as JSON.
pub const JSON_TERMINAL: &'static str = r#"    println!("{}", serde_json::to_string(&result).unwrap());
"#;

/// Prints each element of a sequence as JSON, one to a line.
pub const JSON_LINES_LAZY: &'static str = r#"    for item in result {
        println!("{}", serde_json::to_string(&item).unwrap());
    }
"#;

/// Prints a single value as one line of JSON.
pub const JSON_LINES_TERMINAL: &'static str = r#"    println!("{}", serde_json::to_string(&result).unwrap());
"#;

/// Collects a sequence and writes it as CSV.
pub const CSV_LAZY: &'static str = r#"    let items: Vec<_> = result.collect();
    output_csv(&items);
"#;

/// Writes a single value as CSV: as a collection of one row.
pub const CSV_TERMINAL: &'static str = r#"    output_csv(&[result]);
"#;

/// Collects a sequence and prints it as a table, with the columns in
/// lexical order of the first row's keys. An empty sequence prints nothing.
pub const TABLE_LAZY: &'static str = r#"    let items: Vec<_> = result.collect();
    if !items.is_empty() {
        let mut builder = Builder::default();
        // Extract headers from first item
        let mut headers: Vec<_> = items[0].keys().collect();
        headers.sort();
        builder.push_record(headers.iter().map(|k| k.as_str()));
        // Add data rows
        for item in &items {
            let row: Vec<_> = headers.iter().map(|k| item.get(*k).map(|v| v.as_str()).unwrap_or("")).collect();
            builder.push_record(row);
        }
        let table = builder.build().with(Style::rounded()).to_string();
        println!("{}", table);
    }
"#;

/// Prints a single record as a table of one row, with the columns in
/// lexical order of its keys.
pub const TABLE_TERMINAL: &'static str = r#"    let mut builder = Builder::default();
    let mut headers: Vec<_> = result.keys().collect();
    headers.sort();
    builder.push_record(headers.iter().map(|k| k.as_str()));
    let row: Vec<_> = headers.iter().map(|k| result.get(*k).map(|v| v.as_str()).unwrap_or("")).collect();
    builder.push_record(row);
    let table = builder.build().with(Style::rounded()).to_string();
    println!("{}", table);
"#;

} // verus!
