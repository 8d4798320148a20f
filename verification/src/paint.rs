//! Shows a report on a terminal.
//!
//! Colours come from the `colored` crate, which decides from the process's
//! environment whether it colours at all. So a report has more than one
//! rendering: each styled span comes out either as its text, or as its text
//! with the escape sequences of its style around it.

use vstd::prelude::*;
use vstd::string::StringExecFns;
use colored::Colorize;
use crate::diagnostic::{
    expression_spans,
    header_spans,
    joined_text,
    plain_text_of,
    report_spans,
    suggestion_spans,
    Span,
    SpanText,
    Style,
    Tint,
};
use crate::suggestion::suggestion_for;
use crate::text::{contains, matches_at};

verus! {

/// The sequence that ends every style.
pub open spec fn reset() -> Seq<char> {
    "\u{1b}[0m"@
}

/// The sequence that begins a colour.
pub open spec fn colour_start(tint: Tint) -> Seq<char> {
    match tint {
        Tint::Red => "\u{1b}[31m"@,
        Tint::Yellow => "\u{1b}[33m"@,
        Tint::Blue => "\u{1b}[34m"@,
        Tint::Cyan => "\u{1b}[36m"@,
    }
}

/// The sequence that begins a colour in bold.
pub open spec fn bold_start(tint: Tint) -> Seq<char> {
    match tint {
        Tint::Red => "\u{1b}[1;31m"@,
        Tint::Yellow => "\u{1b}[1;33m"@,
        Tint::Blue => "\u{1b}[1;34m"@,
        Tint::Cyan => "\u{1b}[1;36m"@,
    }
}

/// `text` from index `i` on, with the style begun again after every reset
/// that stands in it, so that a reset inside the text does not end the style
/// of the whole.
pub open spec fn restyled(text: Seq<char>, start: Seq<char>, i: int) -> Seq<char>
    decreases text.len() - i,
{
    if i < 0 || i >= text.len() {
        Seq::empty()
    } else if matches_at(text, reset(), i) && i + 4 <= text.len() {
        reset() + start + restyled(text, start, i + 4)
    } else {
        seq![text[i]] + restyled(text, start, i + 1)
    }
}

/// What `colored` writes for `text` in a style when it colours: the sequence
/// that begins the style, the text, and the reset.
pub open spec fn painted(start: Seq<char>, text: Seq<char>) -> Seq<char> {
    start + restyled(text, start, 0) + reset()
}

/// `colored::Colorize::color`, written out through `Display`. With colouring
/// switched off in the environment the text comes back as it is; otherwise it
/// comes back between the colour's escape sequence and a reset, with the
/// colour begun again after every reset inside the text.
#[verifier::external_body]
fn paint(tint: Tint, text: &str) -> (out: String)
    ensures
        out@ == text@ || out@ == painted(colour_start(tint), text@),
{
    let color = match tint {
        Tint::Red => colored::Color::Red,
        Tint::Yellow => colored::Color::Yellow,
        Tint::Blue => colored::Color::Blue,
        Tint::Cyan => colored::Color::Cyan,
    };
    text.color(color).to_string()
}

/// `colored::Colorize::color` followed by `colored::Colorize::bold`, written
/// out through `Display`. With colouring switched off in the environment the
/// text comes back as it is; otherwise it comes back between the escape
/// sequence for bold in that colour and a reset, with the style begun again
/// after every reset inside the text.
#[verifier::external_body]
fn paint_bold(tint: Tint, text: &str) -> (out: String)
    ensures
        out@ == text@ || out@ == painted(bold_start(tint), text@),
{
    let color = match tint {
        Tint::Red => colored::Color::Red,
        Tint::Yellow => colored::Color::Yellow,
        Tint::Blue => colored::Color::Blue,
        Tint::Cyan => colored::Color::Cyan,
    };
    text.color(color).bold().to_string()
}

/// `out` is a way in which `span` may be shown.
pub open spec fn span_shows(span: SpanText, out: Seq<char>) -> bool {
    match span.style {
        Style::Plain => out == span.text,
        Style::Colored(tint) => out == span.text || out == painted(colour_start(tint), span.text),
        Style::Bold(tint) => out == span.text || out == painted(bold_start(tint), span.text),
    }
}

/// `parts` shows `spans`, one part to a span.
pub open spec fn shows(spans: Seq<SpanText>, parts: Seq<Seq<char>>) -> bool {
    &&& parts.len() == spans.len()
    &&& forall|i: int| 0 <= i < spans.len() ==> span_shows(spans[i], #[trigger] parts[i])
}

/// The first `n` of `parts`, one after the other.
pub open spec fn concat(parts: Seq<Seq<char>>, n: int) -> Seq<char>
    decreases n,
{
    if n <= 0 {
        Seq::empty()
    } else {
        concat(parts, n - 1) + parts[n - 1]
    }
}

/// `out` is a rendering of `spans`: each span shown in one of its ways, one
/// after the other.
pub open spec fn is_rendering(spans: Seq<SpanText>, out: Seq<char>) -> bool {
    exists|parts: Seq<Seq<char>>| shows(spans, parts) && out == concat(parts, parts.len() as int)
}

/// A rendering in which no span was coloured says what the report says, and
/// nothing else.
pub proof fn lemma_uncoloured_rendering(spans: Seq<SpanText>, parts: Seq<Seq<char>>, n: int)
    requires
        parts.len() == spans.len(),
        0 <= n <= spans.len(),
        forall|i: int| 0 <= i < spans.len() ==> parts[i] == spans[i].text,
    ensures
        concat(parts, n) == joined_text(spans, n),
    decreases n,
{
    if n > 0 {
        lemma_uncoloured_rendering(spans, parts, n - 1);
    }
}

/// A report whose spans are all plain has one rendering: its text.
pub proof fn lemma_plain_report_has_one_rendering(spans: Seq<SpanText>, out: Seq<char>)
    requires
        forall|i: int| 0 <= i < spans.len() ==> spans[i].style == Style::Plain,
        is_rendering(spans, out),
    ensures
        out == plain_text_of(spans),
{
    let parts = choose|parts: Seq<Seq<char>>|
        shows(spans, parts) && out == concat(parts, parts.len() as int);
    assert forall|i: int| 0 <= i < spans.len() implies parts[i] == spans[i].text by {
        assert(span_shows(spans[i], parts[i]));
    }
    lemma_uncoloured_rendering(spans, parts, spans.len() as int);
}

/// Shows one span in its style.
pub fn show_span(span: &Span) -> (out: String)
    ensures
        span_shows(span@, out@),
{
    match span.style {
        Style::Plain => span.text.clone(),
        Style::Colored(tint) => paint(tint, span.text.as_str()),
        Style::Bold(tint) => paint_bold(tint, span.text.as_str()),
    }
}

/// Shows every span in its style.
pub fn show_spans(spans: &Vec<Span>) -> (parts: Vec<String>)
    ensures
        shows(spans.deep_view(), parts.deep_view()),
{
    let mut parts: Vec<String> = Vec::new();
    let mut i: usize = 0;
    while i < spans.len()
        invariant
            0 <= i <= spans.len(),
            parts.len() == i,
            forall|k: int|
                0 <= k < i ==> span_shows(spans.deep_view()[k], #[trigger] parts.deep_view()[k]),
        decreases spans.len() - i,
    {
        let ghost before = parts.deep_view();
        let part = show_span(&spans[i]);
        let ghost shown = part@;
        parts.push(part);
        assert(spans.deep_view()[i as int] == spans@[i as int]@);
        assert forall|k: int| 0 <= k < i + 1 implies span_shows(
            spans.deep_view()[k],
            #[trigger] parts.deep_view()[k],
        ) by {
            if k < i {
                assert(parts.deep_view()[k] == before[k]);
            } else {
                assert(parts.deep_view()[k] == shown);
            }
        }
        i += 1;
    }
    parts
}

/// Puts the parts of a rendering together.
pub fn assemble(parts: &Vec<String>) -> (out: String)
    ensures
        out@ == concat(parts.deep_view(), parts.len() as int),
{
    let mut out = String::new();
    let mut i: usize = 0;
    while i < parts.len()
        invariant
            0 <= i <= parts.len(),
            out@ == concat(parts.deep_view(), i as int),
        decreases parts.len() - i,
    {
        out.append(parts[i].as_str());
        i += 1;
    }
    out
}

/// What a report says, with every style left out.
pub fn plain_text(spans: &Vec<Span>) -> (out: String)
    ensures
        out@ == plain_text_of(spans.deep_view()),
{
    let mut out = String::new();
    let mut i: usize = 0;
    while i < spans.len()
        invariant
            0 <= i <= spans.len(),
            out@ == joined_text(spans.deep_view(), i as int),
        decreases spans.len() - i,
    {
        out.append(spans[i].text.as_str());
        i += 1;
    }
    out
}

/// Renders a report for the terminal. Whether the styles come out as colours
/// is for the environment to say.
pub fn render(spans: &Vec<Span>) -> (out: String)
    ensures
        is_rendering(spans.deep_view(), out@),
{
    let parts = show_spans(spans);
    assemble(&parts)
}

/// A text that holds no escape character holds no reset, and is written as
/// it stands.
pub proof fn lemma_restyled_without_escape(text: Seq<char>, start: Seq<char>, i: int)
    requires
        0 <= i <= text.len(),
        !text.contains('\u{1b}'),
    ensures
        restyled(text, start, i) == text.skip(i),
    decreases text.len() - i,
{
    reveal_strlit("\u{1b}[0m");
    if i < text.len() {
        if matches_at(text, reset(), i) {
            assert(text.subrange(i, i + reset().len())[0] == reset()[0]);
            assert(text[i] == '\u{1b}');
        }
        lemma_restyled_without_escape(text, start, i + 1);
        assert(seq![text[i]] + text.skip(i + 1) =~= text.skip(i));
    } else {
        assert(text.skip(i) =~= Seq::<char>::empty());
    }
}

/// What is found in a part of a text is found in the text.
pub proof fn lemma_found_in_a_part(a: Seq<char>, b: Seq<char>, c: Seq<char>)
    requires
        contains(a, b),
        contains(b, c),
    ensures
        contains(a, c),
{
    let p = choose|p: int| matches_at(a, b, p);
    let q = choose|q: int| matches_at(b, c, q);
    assert(a.subrange(p + q, p + q + c.len()) =~= b.subrange(q, q + c.len()));
    assert(matches_at(a, c, p + q));
}

/// Every way of showing a span holds the span's text, if that holds no
/// escape character.
pub proof fn lemma_shown_span_holds_its_text(span: SpanText, out: Seq<char>)
    requires
        span_shows(span, out),
        !span.text.contains('\u{1b}'),
    ensures
        contains(out, span.text),
{
    let text = span.text;
    if out == text {
        assert(out.subrange(0, text.len() as int) =~= text);
        assert(matches_at(out, text, 0));
    } else {
        let start = match span.style {
            Style::Bold(tint) => bold_start(tint),
            Style::Colored(tint) => colour_start(tint),
            Style::Plain => Seq::empty(),
        };
        lemma_restyled_without_escape(text, start, 0);
        assert(text.skip(0) =~= text);
        assert(out == start + text + reset());
        assert(out.subrange(start.len() as int, (start.len() + text.len()) as int) =~= text);
        assert(matches_at(out, text, start.len() as int));
    }
}

/// Parts that are put together are all found in the whole.
pub proof fn lemma_whole_holds_its_parts(parts: Seq<Seq<char>>, n: int, i: int)
    requires
        0 <= i < n <= parts.len(),
    ensures
        contains(concat(parts, n), parts[i]),
    decreases n,
{
    let whole = concat(parts, n);
    let front = concat(parts, n - 1);
    if i == n - 1 {
        assert(whole.subrange(front.len() as int, (front.len() + parts[i].len()) as int) =~= parts[i]);
        assert(matches_at(whole, parts[i], front.len() as int));
    } else {
        lemma_whole_holds_its_parts(parts, n - 1, i);
        let p = choose|p: int| matches_at(front, parts[i], p);
        assert(whole.subrange(p, p + parts[i].len()) =~= front.subrange(p, p + parts[i].len()));
        assert(matches_at(whole, parts[i], p));
    }
}

/// A rendering says what the report says, with colours or without: the text
/// of every span is found in it, as long as the text holds no escape
/// character.
pub proof fn lemma_rendering_holds_every_text(spans: Seq<SpanText>, out: Seq<char>, i: int)
    requires
        is_rendering(spans, out),
        0 <= i < spans.len(),
        !spans[i].text.contains('\u{1b}'),
    ensures
        contains(out, spans[i].text),
{
    let parts = choose|parts: Seq<Seq<char>>|
        shows(spans, parts) && out == concat(parts, parts.len() as int);
    assert(span_shows(spans[i], parts[i]));
    lemma_shown_span_holds_its_text(spans[i], parts[i]);
    lemma_whole_holds_its_parts(parts, parts.len() as int, i);
    lemma_found_in_a_part(out, parts[i], spans[i].text);
}

/// A report on diagnostic text that matches a known pattern names the
/// problem and the fixes, however it is rendered.
pub proof fn lemma_rendered_report_names_the_problem(
    stderr: Seq<char>,
    user_expr: Option<Seq<char>>,
    out: Seq<char>,
)
    requires
        suggestion_for(stderr, user_expr) is Some,
        is_rendering(report_spans(stderr, user_expr), out),
    ensures
        contains(out, "Problem:"@),
        contains(out, "How to fix:"@),
{
    reveal_strlit("Problem:");
    reveal_strlit("How to fix:");
    let spans = report_spans(stderr, user_expr);
    let before = (header_spans().len() + expression_spans(user_expr).len()) as int;
    let block = suggestion_spans(suggestion_for(stderr, user_expr));
    assert(block[1].text == "Problem:"@);
    assert(block[8].text == "How to fix:"@);
    assert(spans[before + 1] == block[1]);
    assert(spans[before + 8] == block[8]);
    assert(!"Problem:"@.contains('\u{1b}')) by {
        if "Problem:"@.contains('\u{1b}') {
            let k = choose|k: int| 0 <= k < "Problem:"@.len() && "Problem:"@[k] == '\u{1b}';
            assert("Problem:"@.len() == 8);
        }
    }
    assert(!"How to fix:"@.contains('\u{1b}')) by {
        if "How to fix:"@.contains('\u{1b}') {
            let k = choose|k: int| 0 <= k < "How to fix:"@.len() && "How to fix:"@[k] == '\u{1b}';
            assert("How to fix:"@.len() == 11);
        }
    }
    lemma_rendering_holds_every_text(spans, out, before + 1);
    lemma_rendering_holds_every_text(spans, out, before + 8);
}

} // verus!
