//! Suggestions for common compiler errors.
//!
//! The compiler's diagnostic text is matched against a fixed, ordered list of
//! rules. The first rule that matches decides the suggestion; text that matches
//! no rule gets none.

use vstd::prelude::*;
use vstd::string::StringExecFns;
use crate::text::{chars_of, contains, has};

verus! {

/// A suggested fix for a compilation error.
pub struct ErrorSuggestion {
    /// Description of the problem.
    pub problem: String,
    /// Potential fixes, most useful first.
    pub fixes: Vec<String>,
}

/// What an `ErrorSuggestion` holds, as plain text.
pub struct SuggestionText {
    pub problem: Seq<char>,
    pub fixes: Seq<Seq<char>>,
}

impl View for ErrorSuggestion {
    type V = SuggestionText;

    open spec fn view(&self) -> SuggestionText {
        SuggestionText { problem: self.problem@, fixes: self.fixes.deep_view() }
    }
}

/// The failure patterns that are recognised, in the order in which they are tried.
#[derive(Clone, Copy, Debug, PartialEq, Eq, Structural)]
pub enum Rule {
    /// A string is compared with a number.
    StringNumber,
    /// A format-parsing flag was written as a method of the expression.
    ParseCsvMethod,
    /// A call to a free function that does not exist.
    UnknownFunction,
    /// A closure returns a value of the wrong type.
    ClosureMismatch,
    /// A string is indexed with a string.
    StringIndex,
    /// An optional value is used where its content is expected.
    UnextractedOption,
    /// A value that is no iterator is used as one.
    NotIterator,
}

/// What is known of the expression that was compiled: its text, if any.
pub open spec fn expr_text(user_expr: Option<&str>) -> Option<Seq<char>> {
    match user_expr {
        Some(e) => Some(e@),
        None => None,
    }
}

/// The first rule that `stderr` matches, if any.
pub open spec fn rule_for(stderr: Seq<char>, user_expr: Option<Seq<char>>) -> Option<Rule> {
    if (contains(stderr, "mismatched types"@) || contains(stderr, "PartialOrd"@)) && contains(
        stderr,
        "String"@,
    ) && contains(stderr, "integer"@) {
        Some(Rule::StringNumber)
    } else if contains(stderr, "cannot find function"@) {
        if user_expr matches Some(e) && contains(e, ".parse_csv"@) {
            Some(Rule::ParseCsvMethod)
        } else {
            Some(Rule::UnknownFunction)
        }
    } else if contains(stderr, "mismatched types"@) && contains(stderr, "closure"@) {
        Some(Rule::ClosureMismatch)
    } else if contains(stderr, "cannot index"@) && contains(stderr, "with `&str`"@) {
        Some(Rule::StringIndex)
    } else if contains(stderr, "Option<"@) && contains(stderr, "expected"@) {
        Some(Rule::UnextractedOption)
    } else if contains(stderr, "not an iterator"@) || (contains(stderr, "doesn't implement"@)
        && contains(stderr, "Iterator"@)) {
        Some(Rule::NotIterator)
    } else {
        None
    }
}

/// The problem statement that goes with a rule.
pub open spec fn problem_text(rule: Rule) -> Seq<char> {
    match rule {
        Rule::StringNumber => "Cannot compare string with number"@,
        Rule::ParseCsvMethod => "parse_csv() is not a method"@,
        Rule::UnknownFunction => "Unknown function or method"@,
        Rule::ClosureMismatch => "Type mismatch in closure"@,
        Rule::StringIndex => "Cannot index string with string"@,
        Rule::UnextractedOption => "Operation returns Option - need to unwrap"@,
        Rule::NotIterator => "Value is not an iterator"@,
    }
}

/// The fixes that go with a rule, in the order in which they are shown.
pub open spec fn fix_texts(rule: Rule) -> Seq<Seq<char>> {
    match rule {
        Rule::StringNumber => seq![
            "Parse to number first: x.parse::<i32>().unwrap()"@,
            "Compare string lengths instead: x.len() > 5"@,
            "Compare as strings: x > \"5\""@,
        ],
        Rule::ParseCsvMethod => seq!["Use --parse-csv flag: lob --parse-csv '_.filter(...)'"@],
        Rule::UnknownFunction => seq![
            "Check available operations: filter, map, take, skip, count, sum"@,
            "See docs: https://github.com/olirice/lob"@,
        ],
        Rule::ClosureMismatch => seq![
            "Check your closure parameter types"@,
            "Use explicit types: |x: &Type| if inference fails"@,
        ],
        Rule::StringIndex => seq![
            "For CSV: use --parse-csv flag to parse files"@,
            "Access columns with: row[\"column_name\"]"@,
        ],
        Rule::UnextractedOption => seq![
            "Extract value: value.unwrap()"@,
            "With fallback: value.unwrap_or(default)"@,
        ],
        Rule::NotIterator => seq![
            "Create iterator: value.iter()"@,
            "Check if result is terminal (count, sum return values, not iterators)"@,
        ],
    }
}

/// The suggestion that a rule stands for.
pub open spec fn suggestion_text(rule: Rule) -> SuggestionText {
    SuggestionText { problem: problem_text(rule), fixes: fix_texts(rule) }
}

/// The suggestion for `stderr`, if it matches a rule.
pub open spec fn suggestion_for(stderr: Seq<char>, user_expr: Option<Seq<char>>) -> Option<
    SuggestionText,
> {
    match rule_for(stderr, user_expr) {
        Some(rule) => Some(suggestion_text(rule)),
        None => None,
    }
}

/// Finds the first rule that the diagnostic text matches.
pub fn match_rule(stderr: &Vec<char>, user_expr: Option<&str>) -> (r: Option<Rule>)
    ensures
        r == rule_for(stderr@, expr_text(user_expr)),
{
    let mismatched = has(stderr, "mismatched types");
    if (mismatched || has(stderr, "PartialOrd")) && has(stderr, "String") && has(
        stderr,
        "integer",
    ) {
        return Some(Rule::StringNumber);
    }
    if has(stderr, "cannot find function") {
        if let Some(e) = user_expr {
            let expr = chars_of(e);
            if has(&expr, ".parse_csv") {
                return Some(Rule::ParseCsvMethod);
            }
        }
        return Some(Rule::UnknownFunction);
    }
    if mismatched && has(stderr, "closure") {
        return Some(Rule::ClosureMismatch);
    }
    if has(stderr, "cannot index") && has(stderr, "with `&str`") {
        return Some(Rule::StringIndex);
    }
    if has(stderr, "Option<") && has(stderr, "expected") {
        return Some(Rule::UnextractedOption);
    }
    if has(stderr, "not an iterator") || (has(stderr, "doesn't implement") && has(
        stderr,
        "Iterator",
    )) {
        return Some(Rule::NotIterator);
    }
    None
}

fn two(a: &str, b: &str) -> (v: Vec<String>)
    ensures
        v.deep_view() == seq![a@, b@],
{
    let mut v: Vec<String> = Vec::new();
    v.push(String::from_str(a));
    v.push(String::from_str(b));
    assert(v.deep_view() =~= seq![a@, b@]);
    v
}

fn three(a: &str, b: &str, c: &str) -> (v: Vec<String>)
    ensures
        v.deep_view() == seq![a@, b@, c@],
{
    let mut v: Vec<String> = Vec::new();
    v.push(String::from_str(a));
    v.push(String::from_str(b));
    v.push(String::from_str(c));
    assert(v.deep_view() =~= seq![a@, b@, c@]);
    v
}

/// Builds the suggestion that a rule stands for.
pub fn suggestion_of(rule: Rule) -> (s: ErrorSuggestion)
    ensures
        s@ == suggestion_text(rule),
{
    match rule {
        Rule::StringNumber => ErrorSuggestion {
            problem: String::from_str("Cannot compare string with number"),
            fixes: three(
                "Parse to number first: x.parse::<i32>().unwrap()",
                "Compare string lengths instead: x.len() > 5",
                "Compare as strings: x > \"5\"",
            ),
        },
        Rule::ParseCsvMethod => {
            let mut fixes: Vec<String> = Vec::new();
            fixes.push(String::from_str("Use --parse-csv flag: lob --parse-csv '_.filter(...)'"));
            assert(fixes.deep_view() =~= fix_texts(rule));
            ErrorSuggestion { problem: String::from_str("parse_csv() is not a method"), fixes }
        },
        Rule::UnknownFunction => ErrorSuggestion {
            problem: String::from_str("Unknown function or method"),
            fixes: two(
                "Check available operations: filter, map, take, skip, count, sum",
                "See docs: https://github.com/olirice/lob",
            ),
        },
        Rule::ClosureMismatch => ErrorSuggestion {
            problem: String::from_str("Type mismatch in closure"),
            fixes: two(
                "Check your closure parameter types",
                "Use explicit types: |x: &Type| if inference fails",
            ),
        },
        Rule::StringIndex => ErrorSuggestion {
            problem: String::from_str("Cannot index string with string"),
            fixes: two(
                "For CSV: use --parse-csv flag to parse files",
                "Access columns with: row[\"column_name\"]",
            ),
        },
        Rule::UnextractedOption => ErrorSuggestion {
            problem: String::from_str("Operation returns Option - need to unwrap"),
            fixes: two("Extract value: value.unwrap()", "With fallback: value.unwrap_or(default)"),
        },
        Rule::NotIterator => ErrorSuggestion {
            problem: String::from_str("Value is not an iterator"),
            fixes: two(
                "Create iterator: value.iter()",
                "Check if result is terminal (count, sum return values, not iterators)",
            ),
        },
    }
}

/// Detects common error patterns in the compiler's diagnostic text and gives
/// the suggestion of the first one that matches.
pub fn get_suggestion(stderr: &str, user_expr: Option<&str>) -> (r: Option<ErrorSuggestion>)
    ensures
        r is Some <==> suggestion_for(stderr@, expr_text(user_expr)) is Some,
        r matches Some(s) ==> Some(s@) == suggestion_for(stderr@, expr_text(user_expr)),
{
    let hay = chars_of(stderr);
    match match_rule(&hay, user_expr) {
        Some(rule) => Some(suggestion_of(rule)),
        None => None,
    }
}

} // verus!
