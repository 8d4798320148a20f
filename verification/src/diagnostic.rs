//! Turns the compiler's diagnostic text into a report for the user.
//!
//! A report is a sequence of spans: pieces of text, each with the style in
//! which it is to be shown. It holds a header, the user's expression if it is
//! known, a suggestion if the text matches a known failure pattern, every line
//! of the diagnostic text with a presentation chosen by the line's kind, and a
//! closing tip. Styles change how a line looks, never what it says; the one
//! line whose text is rewritten is a file location, whose path is cut down to
//! the file's name.

use vstd::prelude::*;
use vstd::string::StringExecFns;
use crate::suggestion::{
    expr_text,
    get_suggestion,
    suggestion_for,
    ErrorSuggestion,
    SuggestionText,
};
use crate::text::{
    after_last_char,
    begins_at,
    char_index_from,
    chars_of,
    cut,
    drop_trailing_spaces,
    drop_trailing_spaces_in,
    find_from,
    find_in,
    index_after_last_char,
    index_of_char,
    is_number,
    is_number_in,
    lemma_char_index_bounds,
    lines,
    matches_at,
    skip_spaces,
    skip_spaces_in,
    split_lines,
    starts_with,
};

verus! {

/// The colours that a report uses.
#[derive(Clone, Copy, Debug, PartialEq, Eq, Structural)]
pub enum Tint {
    Red,
    Yellow,
    Blue,
    Cyan,
}

/// How a span is to be shown.
#[derive(Clone, Copy, Debug, PartialEq, Eq, Structural)]
pub enum Style {
    /// As it is.
    Plain,
    /// In a colour.
    Colored(Tint),
    /// In a colour, and bold.
    Bold(Tint),
}

/// A piece of a report.
#[derive(Debug)]
pub struct Span {
    pub style: Style,
    pub text: String,
}

/// What a `Span` holds, as plain text.
pub struct SpanText {
    pub style: Style,
    pub text: Seq<char>,
}

impl View for Span {
    type V = SpanText;

    open spec fn view(&self) -> SpanText {
        SpanText { style: self.style, text: self.text@ }
    }
}

impl DeepView for Span {
    type V = SpanText;

    open spec fn deep_view(&self) -> SpanText {
        self@
    }
}

/// What a line of diagnostic text is.
#[derive(Clone, Copy, Debug, PartialEq, Eq, Structural)]
pub enum LineKind {
    /// The compiler's closing line: it gave up, or could not compile.
    AbortSummary,
    /// The first line of an error.
    ErrorHeader,
    /// The first line of a warning.
    WarningHeader,
    /// The file, line and column that a message is about.
    Location,
    /// A line of source code behind its line number.
    SourceLine,
    /// A gutter line: it carries an annotation, or nothing.
    Annotation,
    /// A line of carets that underlines something.
    Caret,
    /// Advice from the compiler.
    Help,
    /// A remark from the compiler.
    Note,
    /// Any other line that holds text.
    Other,
    /// A line that holds nothing but white space.
    Blank,
}

/// Where the text of `line` begins, once leading white space is passed.
pub open spec fn text_start(line: Seq<char>) -> int {
    skip_spaces(line, 0, line.len() as int)
}

/// `line` is source code behind a line number: before its first `|` stands a
/// decimal number and nothing else.
pub open spec fn is_source_line(line: Seq<char>) -> bool {
    let lo = text_start(line);
    let bar = char_index_from(line, '|', lo, line.len() as int);
    bar < line.len() && is_number(line.subrange(lo, drop_trailing_spaces(line, lo, bar)))
}

/// `c` may stand in a line of carets.
pub open spec fn is_caret_char(c: char) -> bool {
    c == '^' || c == ' ' || c == '|'
}

/// `line` underlines something: it holds a caret, and after its leading
/// white space nothing but carets, spaces and bars.
pub open spec fn is_caret_line(line: Seq<char>) -> bool {
    &&& line.contains('^')
    &&& forall|k: int| text_start(line) <= k < line.len() ==> is_caret_char(#[trigger] line[k])
}

/// The kind of a line. The kinds are tried in a fixed order and the first one
/// that fits is taken.
pub open spec fn kind_of(line: Seq<char>) -> LineKind {
    let lo = text_start(line);
    if starts_with(line, "error: aborting"@) || starts_with(line, "error: could not compile"@) {
        LineKind::AbortSummary
    } else if starts_with(line, "error:"@) || starts_with(line, "error["@) {
        LineKind::ErrorHeader
    } else if starts_with(line, "warning:"@) || starts_with(line, "warning["@) {
        LineKind::WarningHeader
    } else if matches_at(line, "-->"@, lo) {
        LineKind::Location
    } else if is_source_line(line) {
        LineKind::SourceLine
    } else if matches_at(line, "|"@, lo) {
        LineKind::Annotation
    } else if is_caret_line(line) {
        LineKind::Caret
    } else if matches_at(line, "= help:"@, lo) {
        LineKind::Help
    } else if matches_at(line, "= note:"@, lo) {
        LineKind::Note
    } else if lo < line.len() {
        LineKind::Other
    } else {
        LineKind::Blank
    }
}

/// A file location with its path cut down to the file's name: the arrow, then
/// what follows the last `/` before the first colon. There is none where the
/// line holds no arrow, or no colon after it.
pub open spec fn simplified_location(line: Seq<char>) -> Option<Seq<char>> {
    match find_from(line, "-->"@, 0) {
        None => None,
        Some(arrow) => {
            let lo = skip_spaces(line, arrow + 3, line.len() as int);
            let hi = drop_trailing_spaces(line, lo, line.len() as int);
            let colon = char_index_from(line, ':', lo, hi);
            if colon < hi {
                Some("--> "@ + line.subrange(after_last_char(line, '/', lo, colon), hi))
            } else {
                None
            }
        },
    }
}

/// The style in which a line of a kind is shown.
pub open spec fn style_of(kind: LineKind) -> Style {
    match kind {
        LineKind::AbortSummary | LineKind::ErrorHeader | LineKind::Caret => Style::Bold(Tint::Red),
        LineKind::WarningHeader => Style::Bold(Tint::Yellow),
        LineKind::Location | LineKind::Annotation | LineKind::Note => Style::Colored(Tint::Cyan),
        LineKind::Help => Style::Colored(Tint::Blue),
        LineKind::SourceLine | LineKind::Other | LineKind::Blank => Style::Plain,
    }
}

/// The text that is shown for a line: the line itself, but for a file
/// location that can be simplified.
pub open spec fn shown_text(line: Seq<char>) -> Seq<char> {
    if kind_of(line) == LineKind::Location {
        match simplified_location(line) {
            Some(short) => short,
            None => line,
        }
    } else {
        line
    }
}

/// A span that is shown as it is.
pub open spec fn plain(text: Seq<char>) -> SpanText {
    SpanText { style: Style::Plain, text }
}

/// A span that is shown in a style.
pub open spec fn styled(style: Style, text: Seq<char>) -> SpanText {
    SpanText { style, text }
}

/// The end of a line of the report.
pub open spec fn newline() -> SpanText {
    plain("\n"@)
}

/// The spans that show one line of diagnostic text, line ending included. A
/// blank line is shown empty; any other is indented by two spaces.
pub open spec fn line_spans(line: Seq<char>) -> Seq<SpanText> {
    if kind_of(line) == LineKind::Blank {
        seq![newline()]
    } else {
        seq![plain("  "@), styled(style_of(kind_of(line)), shown_text(line)), newline()]
    }
}

/// The spans that show the first `n` of `lines`.
pub open spec fn body_spans(lines: Seq<Seq<char>>, n: int) -> Seq<SpanText>
    decreases n,
{
    if n <= 0 {
        Seq::empty()
    } else {
        body_spans(lines, n - 1) + line_spans(lines[n - 1])
    }
}

/// The report's header, and the empty line after it.
pub open spec fn header_spans() -> Seq<SpanText> {
    seq![styled(Style::Bold(Tint::Red), "✗ Compilation Error"@), newline(), newline()]
}

/// The user's expression, where it is known, and the empty line after it.
pub open spec fn expression_spans(user_expr: Option<Seq<char>>) -> Seq<SpanText> {
    match user_expr {
        Some(e) => seq![
            plain("  "@),
            styled(Style::Bold(Tint::Cyan), "Your expression:"@),
            plain(" "@),
            styled(Style::Colored(Tint::Yellow), e),
            newline(),
            newline(),
        ],
        None => Seq::empty(),
    }
}

/// The first `n` fixes of a suggestion, one to a line behind a bullet.
pub open spec fn fix_spans(fixes: Seq<Seq<char>>, n: int) -> Seq<SpanText>
    decreases n,
{
    if n <= 0 {
        Seq::empty()
    } else {
        fix_spans(fixes, n - 1) + seq![plain("    • "@), plain(fixes[n - 1]), newline()]
    }
}

/// The suggestion block: the problem, the fixes, and an empty line. There is
/// none where nothing is suggested.
pub open spec fn suggestion_spans(suggestion: Option<SuggestionText>) -> Seq<SpanText> {
    match suggestion {
        Some(s) => seq![
            plain("  "@),
            styled(Style::Bold(Tint::Red), "Problem:"@),
            newline(),
            plain("    "@),
            plain(s.problem),
            newline(),
            newline(),
            plain("  "@),
            styled(Style::Bold(Tint::Blue), "How to fix:"@),
            newline(),
        ] + fix_spans(s.fixes, s.fixes.len() as int) + seq![newline()],
        None => Seq::empty(),
    }
}

/// The empty line and the tip that close a report.
pub open spec fn footer_spans() -> Seq<SpanText> {
    seq![
        newline(),
        styled(
            Style::Colored(Tint::Blue),
            "Tip: Check your expression syntax and ensure all parentheses match"@,
        ),
    ]
}

/// The whole report on the diagnostic text `stderr`.
pub open spec fn report_spans(stderr: Seq<char>, user_expr: Option<Seq<char>>) -> Seq<SpanText> {
    header_spans() + expression_spans(user_expr) + suggestion_spans(
        suggestion_for(stderr, user_expr),
    ) + body_spans(lines(stderr), lines(stderr).len() as int) + footer_spans()
}

/// The text of the first `n` of `spans`, one after the other.
pub open spec fn joined_text(spans: Seq<SpanText>, n: int) -> Seq<char>
    decreases n,
{
    if n <= 0 {
        Seq::empty()
    } else {
        joined_text(spans, n - 1) + spans[n - 1].text
    }
}

/// What a report says when every style is left out.
pub open spec fn plain_text_of(spans: Seq<SpanText>) -> Seq<char> {
    joined_text(spans, spans.len() as int)
}

fn put(out: &mut Vec<Span>, style: Style, text: &str)
    ensures
        final(out).deep_view() == old(out).deep_view().push(styled(style, text@)),
{
    let ghost before = out.deep_view();
    out.push(Span { style, text: String::from_str(text) });
    assert(out.deep_view() =~= before.push(styled(style, text@)));
}

fn put_string(out: &mut Vec<Span>, style: Style, text: String)
    ensures
        final(out).deep_view() == old(out).deep_view().push(styled(style, text@)),
{
    let ghost before = out.deep_view();
    out.push(Span { style, text });
    assert(out.deep_view() =~= before.push(styled(style, text@)));
}

fn has_only_caret_chars(line: &Vec<char>, from: usize) -> (b: bool)
    requires
        from <= line.len(),
    ensures
        b == (forall|k: int| from <= k < line.len() ==> is_caret_char(#[trigger] line@[k])),
{
    let mut i: usize = from;
    while i < line.len()
        invariant
            from <= i <= line.len(),
            forall|k: int| from <= k < i ==> is_caret_char(#[trigger] line@[k]),
        decreases line.len() - i,
    {
        let c = line[i];
        if !(c == '^' || c == ' ' || c == '|') {
            return false;
        }
        i += 1;
    }
    true
}

/// Tells what kind of line `line` is.
pub fn classify(line: &Vec<char>) -> (kind: LineKind)
    ensures
        kind == kind_of(line@),
{
    let n = line.len();
    let lo = skip_spaces_in(line, 0, n);
    if begins_at(line, 0, "error: aborting") || begins_at(line, 0, "error: could not compile") {
        return LineKind::AbortSummary;
    }
    if begins_at(line, 0, "error:") || begins_at(line, 0, "error[") {
        return LineKind::ErrorHeader;
    }
    if begins_at(line, 0, "warning:") || begins_at(line, 0, "warning[") {
        return LineKind::WarningHeader;
    }
    if begins_at(line, lo, "-->") {
        return LineKind::Location;
    }
    let bar = index_of_char(line, '|', lo, n);
    if bar < n {
        let end = drop_trailing_spaces_in(line, lo, bar);
        if is_number_in(line, lo, end) {
            return LineKind::SourceLine;
        }
    }
    if begins_at(line, lo, "|") {
        return LineKind::Annotation;
    }
    let caret = index_of_char(line, '^', 0, n);
    proof {
        lemma_char_index_bounds(line@, '^', 0, n as int);
    }
    if caret < n && has_only_caret_chars(line, lo) {
        return LineKind::Caret;
    }
    if begins_at(line, lo, "= help:") {
        return LineKind::Help;
    }
    if begins_at(line, lo, "= note:") {
        return LineKind::Note;
    }
    if lo < n {
        LineKind::Other
    } else {
        LineKind::Blank
    }
}

/// Cuts the path of a file location down to the file's name.
pub fn simplify_location(line: &str) -> (r: Option<String>)
    ensures
        r is Some <==> simplified_location(line@) is Some,
        r matches Some(s) ==> Some(s@) == simplified_location(line@),
{
    let cs = chars_of(line);
    let n = cs.len();
    let arrow_text = chars_of("-->");
    proof {
        reveal_strlit("-->");
    }
    let arrow = match find_in(&cs, &arrow_text, 0) {
        Some(a) => a,
        None => {
            return None;
        },
    };
    proof {
        crate::text::lemma_find_from_is_least(cs@, arrow_text@, 0);
    }
    let lo = skip_spaces_in(&cs, arrow + 3, n);
    let hi = drop_trailing_spaces_in(&cs, lo, n);
    let colon = index_of_char(&cs, ':', lo, hi);
    if colon >= hi {
        return None;
    }
    let name_start = index_after_last_char(&cs, '/', lo, colon);
    let mut out = String::from_str("--> ");
    let tail = cut(line, name_start, hi);
    out.append(tail.as_str());
    Some(out)
}

/// The style in which a line of a kind is shown.
pub fn style_for(kind: LineKind) -> (style: Style)
    ensures
        style == style_of(kind),
{
    match kind {
        LineKind::AbortSummary | LineKind::ErrorHeader | LineKind::Caret => Style::Bold(Tint::Red),
        LineKind::WarningHeader => Style::Bold(Tint::Yellow),
        LineKind::Location | LineKind::Annotation | LineKind::Note => Style::Colored(Tint::Cyan),
        LineKind::Help => Style::Colored(Tint::Blue),
        LineKind::SourceLine | LineKind::Other | LineKind::Blank => Style::Plain,
    }
}

fn put_line(out: &mut Vec<Span>, line: &str)
    ensures
        final(out).deep_view() == old(out).deep_view() + line_spans(line@),
{
    let ghost before = out.deep_view();
    let cs = chars_of(line);
    let kind = classify(&cs);
    match kind {
        LineKind::Blank => {
            put(out, Style::Plain, "\n");
        },
        _ => {
            let short = match kind {
                LineKind::Location => simplify_location(line),
                _ => None,
            };
            put(out, Style::Plain, "  ");
            match short {
                Some(text) => put_string(out, style_for(kind), text),
                None => put(out, style_for(kind), line),
            }
            put(out, Style::Plain, "\n");
        },
    }
    assert(out.deep_view() =~= before + line_spans(line@));
}

fn put_header(out: &mut Vec<Span>)
    ensures
        final(out).deep_view() == old(out).deep_view() + header_spans(),
{
    let ghost before = out.deep_view();
    put(out, Style::Bold(Tint::Red), "✗ Compilation Error");
    put(out, Style::Plain, "\n");
    put(out, Style::Plain, "\n");
    assert(out.deep_view() =~= before + header_spans());
}

fn put_expression(out: &mut Vec<Span>, user_expr: Option<&str>)
    ensures
        final(out).deep_view() == old(out).deep_view() + expression_spans(expr_text(user_expr)),
{
    let ghost before = out.deep_view();
    if let Some(e) = user_expr {
        put(out, Style::Plain, "  ");
        put(out, Style::Bold(Tint::Cyan), "Your expression:");
        put(out, Style::Plain, " ");
        put(out, Style::Colored(Tint::Yellow), e);
        put(out, Style::Plain, "\n");
        put(out, Style::Plain, "\n");
    }
    assert(out.deep_view() =~= before + expression_spans(expr_text(user_expr)));
}

fn put_suggestion(out: &mut Vec<Span>, suggestion: Option<ErrorSuggestion>)
    ensures
        final(out).deep_view() == old(out).deep_view() + suggestion_spans(
            match suggestion {
                Some(s) => Some(s@),
                None => None,
            },
        ),
{
    let ghost before = out.deep_view();
    match suggestion {
        None => {
            assert(out.deep_view() =~= before + Seq::<SpanText>::empty());
        },
        Some(s) => {
            let ErrorSuggestion { problem, fixes } = s;
            let ghost texts = fixes.deep_view();
            put(out, Style::Plain, "  ");
            put(out, Style::Bold(Tint::Red), "Problem:");
            put(out, Style::Plain, "\n");
            put(out, Style::Plain, "    ");
            put_string(out, Style::Plain, problem);
            put(out, Style::Plain, "\n");
            put(out, Style::Plain, "\n");
            put(out, Style::Plain, "  ");
            put(out, Style::Bold(Tint::Blue), "How to fix:");
            put(out, Style::Plain, "\n");
            let ghost head = out.deep_view();
            let mut i: usize = 0;
            while i < fixes.len()
                invariant
                    0 <= i <= fixes.len(),
                    texts == fixes.deep_view(),
                    out.deep_view() == head + fix_spans(texts, i as int),
                decreases fixes.len() - i,
            {
                put(out, Style::Plain, "    • ");
                put(out, Style::Plain, fixes[i].as_str());
                put(out, Style::Plain, "\n");
                assert(out.deep_view() =~= head + fix_spans(texts, i + 1));
                i += 1;
            }
            put(out, Style::Plain, "\n");
            assert(out.deep_view() =~= before + suggestion_spans(Some(s@)));
        },
    }
}

fn put_footer(out: &mut Vec<Span>)
    ensures
        final(out).deep_view() == old(out).deep_view() + footer_spans(),
{
    let ghost before = out.deep_view();
    put(out, Style::Plain, "\n");
    put(
        out,
        Style::Colored(Tint::Blue),
        "Tip: Check your expression syntax and ensure all parentheses match",
    );
    assert(out.deep_view() =~= before + footer_spans());
}

/// Builds the report on the compiler's diagnostic text `stderr`, for the
/// expression `user_expr` where it is known.
pub fn compilation_report(stderr: &str, user_expr: Option<&str>) -> (out: Vec<Span>)
    ensures
        out.deep_view() == report_spans(stderr@, expr_text(user_expr)),
{
    let mut out: Vec<Span> = Vec::new();
    assert(out.deep_view() =~= Seq::<SpanText>::empty());
    put_header(&mut out);
    put_expression(&mut out, user_expr);
    put_suggestion(&mut out, get_suggestion(stderr, user_expr));
    let ghost head = out.deep_view();
    assert(head =~= header_spans() + expression_spans(expr_text(user_expr)) + suggestion_spans(
        suggestion_for(stderr@, expr_text(user_expr)),
    ));
    let all = split_lines(stderr);
    let ghost texts = all.deep_view();
    let mut i: usize = 0;
    while i < all.len()
        invariant
            0 <= i <= all.len(),
            texts == all.deep_view(),
            out.deep_view() == head + body_spans(texts, i as int),
        decreases all.len() - i,
    {
        put_line(&mut out, all[i].as_str());
        assert(out.deep_view() =~= head + body_spans(texts, i + 1));
        i += 1;
    }
    put_footer(&mut out);
    assert(out.deep_view() =~= report_spans(stderr@, expr_text(user_expr)));
    out
}

/// Diagnostic text that matches no known pattern gets no suggestion block:
/// its report is the header, the expression, the lines and the tip.
pub proof fn lemma_no_pattern_no_block(stderr: Seq<char>, user_expr: Option<Seq<char>>)
    requires
        suggestion_for(stderr, user_expr) is None,
    ensures
        report_spans(stderr, user_expr) == header_spans() + expression_spans(user_expr)
            + body_spans(lines(stderr), lines(stderr).len() as int) + footer_spans(),
{
    assert(header_spans() + expression_spans(user_expr) + Seq::<SpanText>::empty()
        =~= header_spans() + expression_spans(user_expr));
}

/// A line keeps its text: but for a file location, what is shown of a line
/// that holds text is two spaces, the line itself, and the line ending.
pub proof fn lemma_line_text_is_kept(line: Seq<char>)
    requires
        kind_of(line) != LineKind::Location,
    ensures
        plain_text_of(line_spans(line)) == if kind_of(line) == LineKind::Blank {
            "\n"@
        } else {
            "  "@ + line + "\n"@
        },
{
    reveal_with_fuel(joined_text, 4);
    let spans = line_spans(line);
    if kind_of(line) == LineKind::Blank {
        assert(plain_text_of(spans) =~= "\n"@);
    } else {
        assert(plain_text_of(spans) =~= "  "@ + line + "\n"@);
    }
}

/// Every line of the diagnostic text is shown, in order: the body of a
/// report holds the spans of each line, one line after the other.
pub proof fn lemma_body_shows_every_line(lines: Seq<Seq<char>>, n: int, i: int)
    requires
        0 <= i < n <= lines.len(),
    ensures
        exists|before: Seq<SpanText>, after: Seq<SpanText>|
            body_spans(lines, n) == before + line_spans(lines[i]) + after,
    decreases n,
{
    if i == n - 1 {
        let before = body_spans(lines, n - 1);
        let after = Seq::<SpanText>::empty();
        assert(body_spans(lines, n) =~= before + line_spans(lines[i]) + after);
    } else {
        lemma_body_shows_every_line(lines, n - 1, i);
        let (before, after) = choose|before: Seq<SpanText>, after: Seq<SpanText>|
            body_spans(lines, n - 1) == before + line_spans(lines[i]) + after;
        let rest = after + line_spans(lines[n - 1]);
        assert(body_spans(lines, n) =~= before + line_spans(lines[i]) + rest);
    }
}

} // verus!
