//! Tests for the report and its rendering with colours switched off.

use lob::diagnostic::{classify, compilation_report, LineKind, Span, Style, Tint};
use lob::error::LobError;
use lob::paint::{assemble, plain_text, render, show_span, show_spans};

fn texts(spans: &[Span]) -> Vec<(Style, &str)> {
    spans.iter().map(|s| (s.style, s.text.as_str())).collect()
}

fn kind(line: &str) -> LineKind {
    classify(&line.chars().collect())
}

#[test]
fn report_without_anything_to_say() {
    let report = compilation_report("", None);
    assert_eq!(
        texts(&report),
        vec![
            (Style::Bold(Tint::Red), "✗ Compilation Error"),
            (Style::Plain, "\n"),
            (Style::Plain, "\n"),
            (Style::Plain, "\n"),
            (
                Style::Colored(Tint::Blue),
                "Tip: Check your expression syntax and ensure all parentheses match"
            ),
        ]
    );
}

#[test]
fn report_with_expression_suggestion_and_lines() {
    let stderr = "error[E0308]: mismatched types\n  --> /c/s/k.rs:4:9\n   |\n 4 |     x > 5\n   |         ^ expected `&String`, found integer\n\n   = note: see above\n   = help: parse it\n        ^^^\nplain\n";
    let report = compilation_report(stderr, Some("_.filter(|x| x > 5)"));
    assert_eq!(
        texts(&report),
        vec![
            (Style::Bold(Tint::Red), "✗ Compilation Error"),
            (Style::Plain, "\n"),
            (Style::Plain, "\n"),
            (Style::Plain, "  "),
            (Style::Bold(Tint::Cyan), "Your expression:"),
            (Style::Plain, " "),
            (Style::Colored(Tint::Yellow), "_.filter(|x| x > 5)"),
            (Style::Plain, "\n"),
            (Style::Plain, "\n"),
            (Style::Plain, "  "),
            (Style::Bold(Tint::Red), "Problem:"),
            (Style::Plain, "\n"),
            (Style::Plain, "    "),
            (Style::Plain, "Cannot compare string with number"),
            (Style::Plain, "\n"),
            (Style::Plain, "\n"),
            (Style::Plain, "  "),
            (Style::Bold(Tint::Blue), "How to fix:"),
            (Style::Plain, "\n"),
            (Style::Plain, "    • "),
            (Style::Plain, "Parse to number first: x.parse::<i32>().unwrap()"),
            (Style::Plain, "\n"),
            (Style::Plain, "    • "),
            (Style::Plain, "Compare string lengths instead: x.len() > 5"),
            (Style::Plain, "\n"),
            (Style::Plain, "    • "),
            (Style::Plain, "Compare as strings: x > \"5\""),
            (Style::Plain, "\n"),
            (Style::Plain, "\n"),
            (Style::Plain, "  "),
            (Style::Bold(Tint::Red), "error[E0308]: mismatched types"),
            (Style::Plain, "\n"),
            (Style::Plain, "  "),
            (Style::Colored(Tint::Cyan), "--> k.rs:4:9"),
            (Style::Plain, "\n"),
            (Style::Plain, "  "),
            (Style::Colored(Tint::Cyan), "   |"),
            (Style::Plain, "\n"),
            (Style::Plain, "  "),
            (Style::Plain, " 4 |     x > 5"),
            (Style::Plain, "\n"),
            (Style::Plain, "  "),
            (Style::Colored(Tint::Cyan), "   |         ^ expected `&String`, found integer"),
            (Style::Plain, "\n"),
            (Style::Plain, "\n"),
            (Style::Plain, "  "),
            (Style::Colored(Tint::Cyan), "   = note: see above"),
            (Style::Plain, "\n"),
            (Style::Plain, "  "),
            (Style::Colored(Tint::Blue), "   = help: parse it"),
            (Style::Plain, "\n"),
            (Style::Plain, "  "),
            (Style::Bold(Tint::Red), "        ^^^"),
            (Style::Plain, "\n"),
            (Style::Plain, "  "),
            (Style::Plain, "plain"),
            (Style::Plain, "\n"),
            (Style::Plain, "\n"),
            (
                Style::Colored(Tint::Blue),
                "Tip: Check your expression syntax and ensure all parentheses match"
            ),
        ]
    );
}

#[test]
fn report_in_plain_text() {
    let stderr = "error: test\n\n  --> /a/b.rs:1:2\nwarning: unused";
    let expected = "✗ Compilation Error\n\n  error: test\n\n  --> b.rs:1:2\n  warning: unused\n\nTip: Check your expression syntax and ensure all parentheses match";
    assert_eq!(plain_text(&compilation_report(stderr, None)), expected);
}

#[test]
fn rendering_without_colours_is_the_plain_text() {
    colored::control::set_override(false);
    let stderr = "error: test\n = help: x\n ^^^\n  | y\n";
    let report = compilation_report(stderr, Some("_.map(|x| x)"));
    assert_eq!(render(&report), plain_text(&report));
    assert_eq!(
        LobError::format_compilation_error(stderr, Some("_.map(|x| x)")),
        plain_text(&report)
    );
    for span in &report {
        assert_eq!(show_span(span), span.text);
    }
    assert_eq!(assemble(&show_spans(&report)), plain_text(&report));
}

#[test]
fn unrecognized_diagnostic_has_no_suggestion_but_keeps_its_lines() {
    colored::control::set_override(false);
    let formatted = LobError::format_compilation_error("some random error\nsecond line", None);
    assert!(!formatted.contains("Problem:"));
    assert!(!formatted.contains("How to fix:"));
    assert_eq!(
        formatted,
        "✗ Compilation Error\n\n  some random error\n  second line\n\nTip: Check your expression syntax and ensure all parentheses match"
    );
}

#[test]
fn type_mismatch_suggests_numeric_parsing() {
    colored::control::set_override(false);
    let formatted = LobError::format_compilation_error(
        "error[E0308]: mismatched types\n expected `&String`, found integer",
        None,
    );
    let problem = formatted.find("  Problem:\n").unwrap();
    let fixes = formatted.find("  How to fix:\n").unwrap();
    assert!(problem < fixes);
    assert!(formatted[fixes..].contains("    • Parse to number first: x.parse::<i32>().unwrap()"));
    assert!(formatted.contains("  error[E0308]: mismatched types\n"));
}

#[test]
fn assemble_puts_parts_together() {
    assert_eq!(assemble(&vec![]), "");
    assert_eq!(assemble(&vec!["a".to_string(), "".to_string(), "bc".to_string()]), "abc");
}

#[test]
fn kinds_of_lines() {
    assert_eq!(kind("error: aborting due to 2 previous errors"), LineKind::AbortSummary);
    assert_eq!(kind("error: could not compile `x`"), LineKind::AbortSummary);
    assert_eq!(kind("error: expected `;`"), LineKind::ErrorHeader);
    assert_eq!(kind("error[E0308]: mismatched types"), LineKind::ErrorHeader);
    assert_eq!(kind(" error: indented"), LineKind::Other);
    assert_eq!(kind("warning: unused"), LineKind::WarningHeader);
    assert_eq!(kind("warning[x]: unused"), LineKind::WarningHeader);
    assert_eq!(kind("  --> src/main.rs:1:1"), LineKind::Location);
    assert_eq!(kind("-->"), LineKind::Location);
    assert_eq!(kind(" 12 | let x = y;"), LineKind::SourceLine);
    assert_eq!(kind("12| let x = y;"), LineKind::SourceLine);
    assert_eq!(kind(" a2 | let x = y;"), LineKind::Other);
    assert_eq!(kind(" 1 2 | let x = y;"), LineKind::Other);
    assert_eq!(kind("   |"), LineKind::Annotation);
    assert_eq!(kind("   | ^^^ here"), LineKind::Annotation);
    assert_eq!(kind("|"), LineKind::Annotation);
    assert_eq!(kind("      ^^^^"), LineKind::Caret);
    assert_eq!(kind("  ^ | ^"), LineKind::Caret);
    assert_eq!(kind("  ^ x"), LineKind::Other);
    assert_eq!(kind("  = help: do this"), LineKind::Help);
    assert_eq!(kind("  = note: that"), LineKind::Note);
    assert_eq!(kind("= note:"), LineKind::Note);
    assert_eq!(kind("anything else"), LineKind::Other);
    assert_eq!(kind(""), LineKind::Blank);
    assert_eq!(kind("  \t\u{a0}\u{2003} "), LineKind::Blank);
}

#[test]
fn locations_are_cut_down_to_the_file_name() {
    let short = |line: &str| LobError::simplify_error_location(line);
    assert_eq!(short("  --> /a/b/c.rs:1:2").unwrap(), "--> c.rs:1:2");
    assert_eq!(short("--> c.rs:1:2").unwrap(), "--> c.rs:1:2");
    assert_eq!(short("x --> a/b:c/d:e   ").unwrap(), "--> b:c/d:e");
    assert_eq!(short("-->    /a/:9").unwrap(), "--> :9");
    assert_eq!(short("-->:").unwrap(), "--> :");
    assert_eq!(short("--> a --> /b/c:1").unwrap(), "--> c:1");
    assert_eq!(short("--> /a/b"), None);
    assert_eq!(short("->"), None);
    assert_eq!(short(""), None);
}
