//! Synthesizes a complete program around a user's expression.
//!
//! The program imports what it needs, reads its input if the expression asks
//! for it, binds the expression's value to `result`, and writes `result` out.
//! Its text is a function of the expression, the input source and the output
//! format alone: the same inputs give the same text, character for character.

use vstd::prelude::*;
use vstd::string::StringExecFns;
use crate::error::LobError;
use crate::input::{InputFormat, InputSource};
use crate::output::OutputFormat;
use crate::template::{
    CSV_FILES,
    CSV_LAZY,
    CSV_STDIN,
    CSV_TERMINAL,
    DEBUG_LAZY,
    DEBUG_TERMINAL,
    FILES,
    JSON_FILES,
    JSON_LAZY,
    JSON_LINES_LAZY,
    JSON_LINES_TERMINAL,
    JSON_STDIN,
    JSON_TERMINAL,
    LINES_FILES,
    LINES_STDIN,
    TABLE_LAZY,
    TABLE_TERMINAL,
    TSV_FILES,
    TSV_STDIN,
};
use crate::text::{
    char_index_from,
    chars_of,
    contains,
    cut,
    has,
    is_space,
    lemma_char_index_bounds,
    lemma_skip_spaces_bounds,
    lemma_skip_spaces_is,
    skip_spaces,
    skip_spaces_in,
};

verus! {

/// The expression asks for the input: its first character that is no white
/// space is the marker `_`.
pub open spec fn reads_input(expr: Seq<char>) -> bool {
    let at = skip_spaces(expr, 0, expr.len() as int);
    at < expr.len() && expr[at] == '_'
}

/// The expression as it is bound in the program: where it asks for the input,
/// the marker gives way to the name that the input is bound to. Underscores
/// after the marker stay as they are.
pub open spec fn bound_expression(expr: Seq<char>) -> Seq<char> {
    if reads_input(expr) {
        let at = skip_spaces(expr, 0, expr.len() as int);
        expr.take(at) + "stdin_data"@ + expr.skip(at + 1)
    } else {
        expr
    }
}

/// The expression already yields a single value: its text holds the call of
/// an operation that consumes a sequence. The test looks at the text only, so
/// it also fires where such a call stands inside a closure.
pub open spec fn is_terminal_expr(expr: Seq<char>) -> bool {
    ||| contains(expr, ".collect("@)
    ||| contains(expr, ".count()"@)
    ||| contains(expr, ".sum("@)
    ||| contains(expr, ".sum::"@)
    ||| contains(expr, ".min()"@)
    ||| contains(expr, ".max()"@)
    ||| contains(expr, ".reduce("@)
    ||| contains(expr, ".fold("@)
    ||| contains(expr, ".fold_left("@)
    ||| contains(expr, ".first()"@)
    ||| contains(expr, ".last()"@)
    ||| contains(expr, ".to_list()"@)
    ||| contains(expr, ".any("@)
    ||| contains(expr, ".all("@)
}

/// What every program imports, and what it imports for its output format.
pub open spec fn imports(format: OutputFormat) -> Seq<char> {
    "use lob_prelude::*;\nuse std::collections::HashMap;\n"@ + match format {
        OutputFormat::Json | OutputFormat::JsonLines => "use lob_prelude::serde_json;\n"@,
        OutputFormat::Table => "use lob_prelude::tabled::builder::Builder;\nuse lob_prelude::tabled::settings::Style;\n"@,
        OutputFormat::Debug | OutputFormat::Csv => Seq::empty(),
    }
}

/// The statement that reads the input and binds it: one of eight, by format
/// and by whether standard input or files are read.
pub open spec fn acquisition(format: InputFormat, from_stdin: bool) -> Seq<char> {
    if from_stdin {
        match format {
            InputFormat::Lines => LINES_STDIN@,
            InputFormat::Csv => CSV_STDIN@,
            InputFormat::Tsv => TSV_STDIN@,
            InputFormat::JsonLines => JSON_STDIN@,
        }
    } else {
        FILES@ + match format {
            InputFormat::Lines => LINES_FILES@,
            InputFormat::Csv => CSV_FILES@,
            InputFormat::Tsv => TSV_FILES@,
            InputFormat::JsonLines => JSON_FILES@,
        }
    }
}

/// The statements that write `result` out: one of ten, by format and by
/// whether `result` is a single value or a sequence still to be consumed.
pub open spec fn output_stage(format: OutputFormat, terminal: bool) -> Seq<char> {
    match format {
        OutputFormat::Debug => if terminal {
            DEBUG_TERMINAL@
        } else {
            DEBUG_LAZY@
        },
        OutputFormat::Json => if terminal {
            JSON_TERMINAL@
        } else {
            JSON_LAZY@
        },
        OutputFormat::JsonLines => if terminal {
            JSON_LINES_TERMINAL@
        } else {
            JSON_LINES_LAZY@
        },
        OutputFormat::Csv => if terminal {
            CSV_TERMINAL@
        } else {
            CSV_LAZY@
        },
        OutputFormat::Table => if terminal {
            TABLE_TERMINAL@
        } else {
            TABLE_LAZY@
        },
    }
}

/// The whole program for an expression.
pub open spec fn program_text(
    expr: Seq<char>,
    input_format: InputFormat,
    from_stdin: bool,
    output_format: OutputFormat,
) -> Seq<char> {
    imports(output_format) + "\nfn main() {\n"@ + (if reads_input(expr) {
        acquisition(input_format, from_stdin)
    } else {
        Seq::empty()
    }) + "    let result = "@ + bound_expression(expr) + ";\n"@ + output_stage(
        output_format,
        is_terminal_expr(expr),
    ) + "}\n"@
}

/// Generates a program from an expression.
#[derive(Debug)]
pub struct CodeGenerator {
    expression: String,
    input_source: InputSource,
    output_format: OutputFormat,
}

impl CodeGenerator {
    /// The expression that the program is built around.
    pub closed spec fn expression(&self) -> Seq<char> {
        self.expression@
    }

    /// The format in which the program reads its input.
    pub closed spec fn input_format(&self) -> InputFormat {
        self.input_source.format
    }

    /// Whether the program reads standard input.
    pub closed spec fn from_stdin(&self) -> bool {
        self.input_source.reads_stdin()
    }

    /// The format in which the program writes its result.
    pub closed spec fn output_format(&self) -> OutputFormat {
        self.output_format
    }

    /// The files that the program reads; none where it reads standard input.
    pub closed spec fn files(&self) -> Seq<String> {
        self.input_source.files@
    }

    /// The expression that the program is built around.
    pub fn user_expression(&self) -> (text: &str)
        ensures
            text@ == self.expression(),
    {
        self.expression.as_str()
    }

    /// The files that the program reads. They are handed to the program as
    /// its arguments when it is run.
    pub fn input_files(&self) -> (files: &Vec<String>)
        ensures
            files@ == self.files(),
            self.from_stdin() == (files@.len() == 0),
    {
        &self.input_source.files
    }

    /// A generator for the given expression.
    pub fn new(expression: String, input_source: InputSource, output_format: OutputFormat) -> (g:
        Self)
        ensures
            g.expression() == expression@,
            g.input_format() == input_source.format,
            g.from_stdin() == input_source.reads_stdin(),
            g.files() == input_source.files@,
            g.output_format() == output_format,
    {
        CodeGenerator { expression, input_source, output_format }
    }

    /// Generates the complete program. This never fails: whether the
    /// expression is well formed is for the compiler to say.
    pub fn generate(&self) -> (r: Result<String, LobError>)
        ensures
            r matches Ok(code) && code@ == program_text(
                self.expression(),
                self.input_format(),
                self.from_stdin(),
                self.output_format(),
            ),
    {
        let mut code = String::from_str("use lob_prelude::*;\nuse std::collections::HashMap;\n");
        match self.output_format {
            OutputFormat::Json | OutputFormat::JsonLines => {
                code.append("use lob_prelude::serde_json;\n");
            },
            OutputFormat::Table => {
                code.append(
                    "use lob_prelude::tabled::builder::Builder;\nuse lob_prelude::tabled::settings::Style;\n",
                );
            },
            OutputFormat::Debug | OutputFormat::Csv => {
                assert(code@ + Seq::<char>::empty() =~= code@);
            },
        }
        assert(code@ == imports(self.output_format));
        code.append("\nfn main() {\n");

        let expr = self.expression.as_str();
        let cs = chars_of(expr);
        let at = skip_spaces_in(&cs, 0, cs.len());
        let ghost head = code@;
        if at < cs.len() && cs[at] == '_' {
            self.generate_input(&mut code);
            code.append("    let result = ");
            code.append(cut(expr, 0, at).as_str());
            code.append("stdin_data");
            code.append(cut(expr, at + 1, cs.len()).as_str());
            assert(code@ =~= head + acquisition(self.input_format(), self.from_stdin())
                + "    let result = "@ + bound_expression(self.expression()));
        } else {
            code.append("    let result = ");
            code.append(expr);
            assert(code@ =~= head + Seq::<char>::empty() + "    let result = "@
                + bound_expression(self.expression()));
        }
        code.append(";\n");
        self.generate_output(&mut code);
        code.append("}\n");
        Ok(code)
    }

    /// Adds the statement that reads the input.
    pub fn generate_input(&self, code: &mut String)
        ensures
            final(code)@ == old(code)@ + acquisition(self.input_format(), self.from_stdin()),
    {
        let ghost before = code@;
        if self.input_source.is_stdin() {
            match self.input_source.format {
                InputFormat::Lines => code.append(LINES_STDIN),
                InputFormat::Csv => code.append(CSV_STDIN),
                InputFormat::Tsv => code.append(TSV_STDIN),
                InputFormat::JsonLines => code.append(JSON_STDIN),
            }
        } else {
            code.append(FILES);
            match self.input_source.format {
                InputFormat::Lines => code.append(LINES_FILES),
                InputFormat::Csv => code.append(CSV_FILES),
                InputFormat::Tsv => code.append(TSV_FILES),
                InputFormat::JsonLines => code.append(JSON_FILES),
            }
        }
        assert(code@ =~= before + acquisition(self.input_format(), self.from_stdin()));
    }

    /// Adds the statements that write the result out.
    pub fn generate_output(&self, code: &mut String)
        ensures
            final(code)@ == old(code)@ + output_stage(
                self.output_format(),
                is_terminal_expr(self.expression()),
            ),
    {
        let terminal = self.has_terminal_operation();
        match self.output_format {
            OutputFormat::Debug => code.append(
                if terminal {
                    DEBUG_TERMINAL
                } else {
                    DEBUG_LAZY
                },
            ),
            OutputFormat::Json => code.append(
                if terminal {
                    JSON_TERMINAL
                } else {
                    JSON_LAZY
                },
            ),
            OutputFormat::JsonLines => code.append(
                if terminal {
                    JSON_LINES_TERMINAL
                } else {
                    JSON_LINES_LAZY
                },
            ),
            OutputFormat::Csv => code.append(
                if terminal {
                    CSV_TERMINAL
                } else {
                    CSV_LAZY
                },
            ),
            OutputFormat::Table => code.append(
                if terminal {
                    TABLE_TERMINAL
                } else {
                    TABLE_LAZY
                },
            ),
        }
    }

    /// Whether the expression already yields a single value.
    pub fn has_terminal_operation(&self) -> (r: bool)
        ensures
            r == is_terminal_expr(self.expression()),
    {
        let cs = chars_of(self.expression.as_str());
        has(&cs, ".collect(") || has(&cs, ".count()") || has(&cs, ".sum(") || has(&cs, ".sum::")
            || has(&cs, ".min()") || has(&cs, ".max()") || has(&cs, ".reduce(") || has(
            &cs,
            ".fold(",
        ) || has(&cs, ".fold_left(") || has(&cs, ".first()") || has(&cs, ".last()") || has(
            &cs,
            ".to_list()",
        ) || has(&cs, ".any(") || has(&cs, ".all(")
    }
}

/// Where an expression asks for the input, the marker that is replaced is
/// the first underscore of the expression.
pub proof fn lemma_marker_is_first_underscore(expr: Seq<char>)
    requires
        reads_input(expr),
    ensures
        char_index_from(expr, '_', 0, expr.len() as int) == skip_spaces(
            expr,
            0,
            expr.len() as int,
        ),
{
    let n = expr.len() as int;
    lemma_skip_spaces_bounds(expr, 0, n);
    lemma_char_index_bounds(expr, '_', 0, n);
    let at = skip_spaces(expr, 0, n);
    let first = char_index_from(expr, '_', 0, n);
    if first < at {
        assert(is_space(expr[first]));
    }
}

/// The program's text is decided by the expression, the input format, the
/// kind of source and the output format: generators that agree on these
/// generate the same program.
pub proof fn lemma_generation_is_deterministic(a: CodeGenerator, b: CodeGenerator)
    requires
        a.expression() == b.expression(),
        a.input_format() == b.input_format(),
        a.from_stdin() == b.from_stdin(),
        a.output_format() == b.output_format(),
    ensures
        program_text(a.expression(), a.input_format(), a.from_stdin(), a.output_format())
            == program_text(b.expression(), b.input_format(), b.from_stdin(), b.output_format()),
{
}

/// An expression that does not ask for the input gets no statement that
/// reads it, and is bound as it stands.
pub proof fn lemma_no_marker_no_input(
    expr: Seq<char>,
    input_format: InputFormat,
    from_stdin: bool,
    output_format: OutputFormat,
)
    requires
        !reads_input(expr),
    ensures
        program_text(expr, input_format, from_stdin, output_format) == imports(output_format)
            + "\nfn main() {\n"@ + "    let result = "@ + expr + ";\n"@ + output_stage(
            output_format,
            is_terminal_expr(expr),
        ) + "}\n"@,
{
    assert(imports(output_format) + "\nfn main() {\n"@ + Seq::<char>::empty() =~= imports(
        output_format,
    ) + "\nfn main() {\n"@);
}

/// The eight statements that read the input are all different: the format
/// and the kind of source can be told from the statement.
pub proof fn lemma_acquisition_forms_differ(
    format_a: InputFormat,
    stdin_a: bool,
    format_b: InputFormat,
    stdin_b: bool,
)
    requires
        format_a != format_b || stdin_a != stdin_b,
    ensures
        acquisition(format_a, stdin_a) != acquisition(format_b, stdin_b),
{
    reveal_strlit("    let files: Vec<_> = std::env::args().skip(1).map(|p| std::path::PathBuf::from(p)).collect();\n");
    reveal_strlit("    let stdin_data = input();\n");
    reveal_strlit("    let stdin_data = input_csv();\n");
    reveal_strlit("    let stdin_data = input_tsv();\n");
    reveal_strlit("    let stdin_data = input_json();\n");
    reveal_strlit("    let stdin_data = input_from_files(&files);\n");
    reveal_strlit("    let stdin_data = input_csv_from_files(&files);\n");
    reveal_strlit("    let stdin_data = input_tsv_from_files(&files);\n");
    reveal_strlit("    let stdin_data = input_json_from_files(&files);\n");
    let a = acquisition(format_a, stdin_a);
    let b = acquisition(format_b, stdin_b);
    assert(FILES@.len() == 97);
    assert(a.len() == match (format_a, stdin_a) {
        (InputFormat::Lines, true) => 30nat,
        (InputFormat::Csv, true) => 34nat,
        (InputFormat::Tsv, true) => 34nat,
        (InputFormat::JsonLines, true) => 35nat,
        (InputFormat::Lines, false) => 144nat,
        (InputFormat::Csv, false) => 148nat,
        (InputFormat::Tsv, false) => 148nat,
        (InputFormat::JsonLines, false) => 149nat,
    });
    assert(b.len() == match (format_b, stdin_b) {
        (InputFormat::Lines, true) => 30nat,
        (InputFormat::Csv, true) => 34nat,
        (InputFormat::Tsv, true) => 34nat,
        (InputFormat::JsonLines, true) => 35nat,
        (InputFormat::Lines, false) => 144nat,
        (InputFormat::Csv, false) => 148nat,
        (InputFormat::Tsv, false) => 148nat,
        (InputFormat::JsonLines, false) => 149nat,
    });
    if a.len() == b.len() {
        if stdin_a {
            assert(CSV_STDIN@[27] == 'c');
            assert(TSV_STDIN@[27] == 't');
            assert(a[27] != b[27]);
        } else {
            assert(CSV_FILES@[27] == 'c');
            assert(TSV_FILES@[27] == 't');
            assert((FILES@ + CSV_FILES@)[124] == CSV_FILES@[27]);
            assert((FILES@ + TSV_FILES@)[124] == TSV_FILES@[27]);
            assert(a[124] != b[124]);
        }
    }
}

/// How far from its end the two output stages of a format first differ.
spec fn stage_mark(format: OutputFormat) -> int {
    match format {
        OutputFormat::Debug => 1,
        OutputFormat::Json => 13,
        OutputFormat::JsonLines => 1,
        OutputFormat::Csv => 3,
        OutputFormat::Table => 1,
    }
}

/// The two output stages of a format differ at `stage_mark` from their end,
/// and both reach that far.
proof fn lemma_output_stages_differ(format: OutputFormat)
    ensures
        stage_mark(format) < output_stage(format, true).len(),
        stage_mark(format) < output_stage(format, false).len(),
        output_stage(format, true)[output_stage(format, true).len() - 1 - stage_mark(format)]
            != output_stage(format, false)[output_stage(format, false).len() - 1 - stage_mark(
            format,
        )],
{
    match format {
        OutputFormat::Debug => {
            reveal_strlit("    println!(\"{:?}\", result);\n");
            reveal_strlit("    for item in result {\n        println!(\"{:?}\", item);\n    }\n");
            assert(DEBUG_TERMINAL@.len() == 30);
            assert(DEBUG_LAZY@.len() == 63);
            assert(DEBUG_TERMINAL@[28] == ';');
            assert(DEBUG_LAZY@[61] == '}');
        },
        OutputFormat::Json => {
            reveal_strlit("    println!(\"{}\", serde_json::to_string(&result).unwrap());\n");
            reveal_strlit("    let items: Vec<_> = result.collect();\n    println!(\"{}\", serde_json::to_string_pretty(&items).unwrap());\n");
            assert(JSON_TERMINAL@.len() == 61);
            assert(JSON_LAZY@.len() == 109);
            assert(JSON_TERMINAL@[47] == 't');
            assert(JSON_LAZY@[95] == 's');
        },
        OutputFormat::JsonLines => {
            reveal_strlit("    println!(\"{}\", serde_json::to_string(&result).unwrap());\n");
            reveal_strlit("    for item in result {\n        println!(\"{}\", serde_json::to_string(&item).unwrap());\n    }\n");
            assert(JSON_LINES_TERMINAL@.len() == 61);
            assert(JSON_LINES_LAZY@.len() == 94);
            assert(JSON_LINES_TERMINAL@[59] == ';');
            assert(JSON_LINES_LAZY@[92] == '}');
        },
        OutputFormat::Csv => {
            reveal_strlit("    output_csv(&[result]);\n");
            reveal_strlit("    let items: Vec<_> = result.collect();\n    output_csv(&items);\n");
            assert(CSV_TERMINAL@.len() == 27);
            assert(CSV_LAZY@.len() == 66);
            assert(CSV_TERMINAL@[23] == ']');
            assert(CSV_LAZY@[62] == 's');
        },
        OutputFormat::Table => {
            reveal_strlit("    let mut builder = Builder::default();\n    let mut headers: Vec<_> = result.keys().collect();\n    headers.sort();\n    builder.push_record(headers.iter().map(|k| k.as_str()));\n    let row: Vec<_> = headers.iter().map(|k| result.get(*k).map(|v| v.as_str()).unwrap_or(\"\")).collect();\n    builder.push_record(row);\n    let table = builder.build().with(Style::rounded()).to_string();\n    println!(\"{}\", table);\n");
            reveal_strlit("    let items: Vec<_> = result.collect();\n    if !items.is_empty() {\n        let mut builder = Builder::default();\n        // Extract headers from first item\n        let mut headers: Vec<_> = items[0].keys().collect();\n        headers.sort();\n        builder.push_record(headers.iter().map(|k| k.as_str()));\n        // Add data rows\n        for item in &items {\n            let row: Vec<_> = headers.iter().map(|k| item.get(*k).map(|v| v.as_str()).unwrap_or(\"\")).collect();\n            builder.push_record(row);\n        }\n        let table = builder.build().with(Style::rounded()).to_string();\n        println!(\"{}\", table);\n    }\n");
            assert(TABLE_TERMINAL@.len() == 409);
            assert(TABLE_LAZY@.len() == 631);
            assert(TABLE_TERMINAL@[407] == ';');
            assert(TABLE_LAZY@[629] == '}');
        },
    }
}

/// What stands at index 8 of the statement that opens a program's body: `r`
/// where the expression is bound at once, something else where the input is
/// read first.
proof fn lemma_body_opening(format: InputFormat, from_stdin: bool)
    ensures
        acquisition(format, from_stdin).len() > 8,
        acquisition(format, from_stdin)[8] != 'r',
        "    let result = "@.len() == 17,
        "    let result = "@[8] == 'r',
{
    reveal_strlit("    let result = ");
    reveal_strlit("    let files: Vec<_> = std::env::args().skip(1).map(|p| std::path::PathBuf::from(p)).collect();\n");
    reveal_strlit("    let stdin_data = input();\n");
    reveal_strlit("    let stdin_data = input_csv();\n");
    reveal_strlit("    let stdin_data = input_tsv();\n");
    reveal_strlit("    let stdin_data = input_json();\n");
    if from_stdin {
        assert(LINES_STDIN@[8] == 's');
        assert(CSV_STDIN@[8] == 's');
        assert(TSV_STDIN@[8] == 's');
        assert(JSON_STDIN@[8] == 's');
    } else {
        assert(FILES@[8] == 'f');
        assert(FILES@.len() == 97);
        let rest = acquisition(format, from_stdin).skip(97);
        assert(acquisition(format, from_stdin) =~= FILES@ + rest);
        assert((FILES@ + rest)[8] == FILES@[8]);
    }
}

/// An expression can be read off the text that it is bound as: expressions
/// that are bound alike, and that agree on whether they ask for the input,
/// are the same.
pub proof fn lemma_binding_keeps_expressions_apart(a: Seq<char>, b: Seq<char>)
    requires
        reads_input(a) == reads_input(b),
        bound_expression(a) == bound_expression(b),
    ensures
        a == b,
{
    if reads_input(a) {
        reveal_strlit("stdin_data");
        let name = "stdin_data"@;
        let at_a = skip_spaces(a, 0, a.len() as int);
        let at_b = skip_spaces(b, 0, b.len() as int);
        let bound_a = bound_expression(a);
        let bound_b = bound_expression(b);
        lemma_skip_spaces_bounds(a, 0, a.len() as int);
        lemma_skip_spaces_bounds(b, 0, b.len() as int);
        assert(name[0] == 's');
        assert(bound_a.len() == a.len() + 9);
        assert(bound_b.len() == b.len() + 9);
        assert forall|j: int| 0 <= j < at_a implies is_space(#[trigger] bound_a[j]) by {
            assert(bound_a[j] == a[j]);
        }
        assert(bound_a[at_a] == name[0]);
        lemma_skip_spaces_is(bound_a, 0, at_a, bound_a.len() as int);
        assert forall|j: int| 0 <= j < at_b implies is_space(#[trigger] bound_b[j]) by {
            assert(bound_b[j] == b[j]);
        }
        assert(bound_b[at_b] == name[0]);
        lemma_skip_spaces_is(bound_b, 0, at_b, bound_b.len() as int);
        assert(at_a == at_b);
        assert forall|j: int| 0 <= j < a.len() implies a[j] == b[j] by {
            if j < at_a {
                assert(bound_a[j] == a[j]);
                assert(bound_b[j] == b[j]);
            } else if j > at_a {
                assert(bound_a[j + 9] == a[j]);
                assert(bound_b[j + 9] == b[j]);
            }
        }
        assert(a =~= b);
    }
}

/// Texts that differ at an index of their second part differ.
proof fn lemma_differ_early(
    head: Seq<char>,
    xa: Seq<char>,
    xb: Seq<char>,
    ra: Seq<char>,
    rb: Seq<char>,
    i: int,
)
    requires
        0 <= i < xa.len(),
        i < xb.len(),
        xa[i] != xb[i],
    ensures
        head + xa + ra != head + xb + rb,
{
    assert((head + xa + ra)[head.len() as int + i] == xa[i]);
    assert((head + xb + rb)[head.len() as int + i] == xb[i]);
}

/// Texts that end alike and differ just before, counted from the end,
/// differ.
proof fn lemma_differ_late(
    fa: Seq<char>,
    fb: Seq<char>,
    sa: Seq<char>,
    sb: Seq<char>,
    end: Seq<char>,
    k: int,
)
    requires
        0 <= k < sa.len(),
        k < sb.len(),
        sa[sa.len() - 1 - k] != sb[sb.len() - 1 - k],
    ensures
        fa + sa + end != fb + sb + end,
{
    let pa = fa + sa + end;
    let pb = fb + sb + end;
    assert(pa[pa.len() - end.len() - 1 - k] == sa[sa.len() - 1 - k]);
    assert(pb[pb.len() - end.len() - 1 - k] == sb[sb.len() - 1 - k]);
}

/// Texts that begin alike and end alike are the same only if they are the
/// same in between.
proof fn lemma_differ_between(pre: Seq<char>, x: Seq<char>, y: Seq<char>, post: Seq<char>)
    requires
        x != y,
    ensures
        pre + x + post != pre + y + post,
{
    let px = pre + x + post;
    let py = pre + y + post;
    if px == py {
        assert(px.len() == pre.len() + x.len() + post.len());
        assert(py.len() == pre.len() + y.len() + post.len());
        assert(x.len() == y.len());
        assert(px.subrange(pre.len() as int, (pre.len() + x.len()) as int) =~= x);
        assert(py.subrange(pre.len() as int, (pre.len() + y.len()) as int) =~= y);
    }
}

/// The parts of a text can be grouped at will.
proof fn lemma_regroup(
    a: Seq<char>,
    b: Seq<char>,
    c: Seq<char>,
    d: Seq<char>,
    e: Seq<char>,
    f: Seq<char>,
    g: Seq<char>,
)
    ensures
        a + b + c + d + e + f + g == a + (b + c) + (d + e + f + g),
        a + b + c + d + e + f + g == (a + b + c + d + e) + f + g,
        a + b + c + d + e + f + g == (a + b + c) + d + (e + f + g),
{
    assert(a + b + c + d + e + f + g =~= a + (b + c) + (d + e + f + g));
    assert(a + b + c + d + e + f + g =~= (a + b + c + d + e) + f + g);
    assert(a + b + c + d + e + f + g =~= (a + b + c) + d + (e + f + g));
}

/// Different expressions give different programs, whatever the formats and
/// the kind of source: the expression can be read off the program.
pub proof fn lemma_expressions_have_their_own_programs(
    a: Seq<char>,
    b: Seq<char>,
    input_format: InputFormat,
    from_stdin: bool,
    output_format: OutputFormat,
)
    requires
        a != b,
    ensures
        program_text(a, input_format, from_stdin, output_format) != program_text(
            b,
            input_format,
            from_stdin,
            output_format,
        ),
{
    let head = imports(output_format) + "\nfn main() {\n"@;
    let bind = "    let result = "@;
    let semi = ";\n"@;
    let end = "}\n"@;
    let read_a = if reads_input(a) {
        acquisition(input_format, from_stdin)
    } else {
        Seq::empty()
    };
    let read_b = if reads_input(b) {
        acquisition(input_format, from_stdin)
    } else {
        Seq::empty()
    };
    let bound_a = bound_expression(a);
    let bound_b = bound_expression(b);
    let stage_a = output_stage(output_format, is_terminal_expr(a));
    let stage_b = output_stage(output_format, is_terminal_expr(b));
    lemma_regroup(head, read_a, bind, bound_a, semi, stage_a, end);
    lemma_regroup(head, read_b, bind, bound_b, semi, stage_b, end);
    if reads_input(a) != reads_input(b) {
        lemma_body_opening(input_format, from_stdin);
        assert(Seq::<char>::empty() + bind =~= bind);
        lemma_differ_early(
            head,
            read_a + bind,
            read_b + bind,
            bound_a + semi + stage_a + end,
            bound_b + semi + stage_b + end,
            8,
        );
    } else if is_terminal_expr(a) != is_terminal_expr(b) {
        lemma_output_stages_differ(output_format);
        lemma_differ_late(
            head + read_a + bind + bound_a + semi,
            head + read_b + bind + bound_b + semi,
            stage_a,
            stage_b,
            end,
            stage_mark(output_format),
        );
    } else {
        if bound_a == bound_b {
            lemma_binding_keeps_expressions_apart(a, b);
        }
        lemma_differ_between(head + read_a + bind, bound_a, bound_b, semi + stage_a + end);
    }
}

} // verus!
