//! Tests for the order of the suggestion rules.

use lob::suggestion::{get_suggestion, match_rule, suggestion_of, Rule};

fn rule(stderr: &str, expr: Option<&str>) -> Option<Rule> {
    match_rule(&stderr.chars().collect(), expr)
}

#[test]
fn the_first_rule_that_matches_wins() {
    assert_eq!(
        rule("mismatched types: String vs integer; cannot find function; closure", None),
        Some(Rule::StringNumber)
    );
    assert_eq!(
        rule("cannot find function in closure with mismatched types", None),
        Some(Rule::UnknownFunction)
    );
    assert_eq!(
        rule("mismatched types in closure; cannot index a value with `&str`", None),
        Some(Rule::ClosureMismatch)
    );
    assert_eq!(
        rule("cannot index x with `&str`; expected Option<i32>", None),
        Some(Rule::StringIndex)
    );
    assert_eq!(
        rule("expected Option<i32>; not an iterator", None),
        Some(Rule::UnextractedOption)
    );
    assert_eq!(rule("`i32` is not an iterator", None), Some(Rule::NotIterator));
    assert_eq!(rule("doesn't implement Iterator", None), Some(Rule::NotIterator));
    assert_eq!(rule("doesn't implement Debug", None), None);
    assert_eq!(rule("", None), None);
}

#[test]
fn string_and_number_need_both_words() {
    assert_eq!(rule("PartialOrd: String with integer", None), Some(Rule::StringNumber));
    assert_eq!(rule("mismatched types: expected `&String`, found integer", None), Some(Rule::StringNumber));
    assert_eq!(rule("mismatched types: String", None), None);
    assert_eq!(rule("mismatched types: integer", None), None);
    assert_eq!(rule("String and integer", None), None);
    assert_eq!(rule("mismatched Types: String integer", None), None);
}

#[test]
fn the_expression_tells_a_flag_from_a_function() {
    let stderr = "error: cannot find function `parse_csv`";
    assert_eq!(rule(stderr, Some("_.parse_csv()")), Some(Rule::ParseCsvMethod));
    assert_eq!(rule(stderr, Some("parse_csv(_)")), Some(Rule::UnknownFunction));
    assert_eq!(rule(stderr, None), Some(Rule::UnknownFunction));
    assert_eq!(rule("cannot find value", Some("_.parse_csv()")), None);
}

#[test]
fn every_rule_has_its_suggestion() {
    let expected: [(Rule, &str, &[&str]); 7] = [
        (
            Rule::StringNumber,
            "Cannot compare string with number",
            &[
                "Parse to number first: x.parse::<i32>().unwrap()",
                "Compare string lengths instead: x.len() > 5",
                "Compare as strings: x > \"5\"",
            ],
        ),
        (
            Rule::ParseCsvMethod,
            "parse_csv() is not a method",
            &["Use --parse-csv flag: lob --parse-csv '_.filter(...)'"],
        ),
        (
            Rule::UnknownFunction,
            "Unknown function or method",
            &[
                "Check available operations: filter, map, take, skip, count, sum",
                "See docs: https://github.com/olirice/lob",
            ],
        ),
        (
            Rule::ClosureMismatch,
            "Type mismatch in closure",
            &[
                "Check your closure parameter types",
                "Use explicit types: |x: &Type| if inference fails",
            ],
        ),
        (
            Rule::StringIndex,
            "Cannot index string with string",
            &[
                "For CSV: use --parse-csv flag to parse files",
                "Access columns with: row[\"column_name\"]",
            ],
        ),
        (
            Rule::UnextractedOption,
            "Operation returns Option - need to unwrap",
            &["Extract value: value.unwrap()", "With fallback: value.unwrap_or(default)"],
        ),
        (
            Rule::NotIterator,
            "Value is not an iterator",
            &[
                "Create iterator: value.iter()",
                "Check if result is terminal (count, sum return values, not iterators)",
            ],
        ),
    ];
    for (rule, problem, fixes) in expected {
        let suggestion = suggestion_of(rule);
        assert_eq!(suggestion.problem, problem);
        assert_eq!(suggestion.fixes, fixes);
    }
    let suggestion = get_suggestion("x is not an iterator", None).unwrap();
    assert_eq!(suggestion.problem, "Value is not an iterator");
}
