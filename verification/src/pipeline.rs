//! The course of a run.
//!
//! A run is planned from the command line, and then moves through a fixed
//! series of stages: the program is synthesized, its key is looked up in the
//! cache, it is compiled unless its binary was found, and the binary is
//! executed. At every stage the caller does the stage's task and reports
//! what happened; what follows is decided here.

use vstd::prelude::*;
use vstd::string::StringExecFns;
use crate::codegen::CodeGenerator;
use crate::error::LobError;
use crate::input::{first_missing, InputFormat, InputSource};
use crate::output::{default_output_format, output_format_named, OutputFormat};

verus! {

/// What the command line asked for.
#[derive(Debug)]
pub struct Options {
    /// The expression to run.
    pub expression: Option<String>,
    /// The files to read; none to read standard input.
    pub files: Vec<String>,
    /// Parse the input as comma-separated values.
    pub parse_csv: bool,
    /// Parse the input as tab-separated values.
    pub parse_tsv: bool,
    /// Parse the input as lines of JSON.
    pub parse_json: bool,
    /// The name of the output format.
    pub format: Option<String>,
    /// Print the generated program and stop.
    pub show_source: bool,
    /// Clear the cache and stop.
    pub clear_cache: bool,
    /// Print the cache's statistics and stop.
    pub cache_stats: bool,
}

/// What a run is to do.
#[derive(Debug)]
pub enum Command {
    /// Clear the cache.
    ClearCache,
    /// Print the cache's statistics.
    CacheStats,
    /// Print the welcome message.
    Welcome,
    /// Print the generated program.
    ShowSource(CodeGenerator),
    /// Compile the generated program, unless it is cached, and execute it.
    Run(CodeGenerator),
}

/// The input format that the flags select: the first that is set of comma-
/// separated, tab-separated and JSON; plain lines where none is.
pub open spec fn selected_input_format(o: Options) -> InputFormat {
    if o.parse_csv {
        InputFormat::Csv
    } else if o.parse_tsv {
        InputFormat::Tsv
    } else if o.parse_json {
        InputFormat::JsonLines
    } else {
        InputFormat::Lines
    }
}

/// The output format that is used: the one that is named, if a name is given
/// and names one; the default for the kind of output where no name is given.
pub open spec fn selected_output_format(o: Options, stdout_is_terminal: bool) -> Option<
    OutputFormat,
> {
    match o.format {
        Some(name) => output_format_named(name@),
        None => Some(default_output_format(stdout_is_terminal)),
    }
}

/// `g` generates the program that the options ask for.
pub open spec fn generates_for(g: CodeGenerator, o: Options, stdout_is_terminal: bool) -> bool {
    &&& o.expression matches Some(e) && g.expression() == e@
    &&& g.input_format() == selected_input_format(o)
    &&& g.from_stdin() == (o.files@.len() == 0)
    &&& g.files() == o.files@
    &&& Some(g.output_format()) == selected_output_format(o, stdout_is_terminal)
}

/// `r` is what the options ask for. Cache management comes first: clearing,
/// then statistics. Without an expression an interactive run with no files
/// is welcomed and any other is an error. Every file must be there, and the
/// output format must be known. Then the program is shown or run.
pub open spec fn is_command_for(
    r: Result<Command, LobError>,
    o: Options,
    present: Seq<bool>,
    stdin_is_terminal: bool,
    stdout_is_terminal: bool,
) -> bool {
    let missing = first_missing(present, o.files@.len() as int);
    if o.clear_cache {
        r matches Ok(Command::ClearCache)
    } else if o.cache_stats {
        r matches Ok(Command::CacheStats)
    } else if o.expression is None {
        if o.files@.len() == 0 && stdin_is_terminal {
            r matches Ok(Command::Welcome)
        } else {
            r matches Err(LobError::InvalidExpression(m)) && m@
                == "No expression provided. Use --help for usage."@
        }
    } else if missing < o.files@.len() {
        r matches Err(LobError::Io(m)) && m@ == "File not found: "@ + o.files@[missing]@
    } else if selected_output_format(o, stdout_is_terminal) is None {
        r matches Err(LobError::InvalidExpression(m)) && m@ == "Unknown output format: "@
            + o.format->0@
    } else if o.show_source {
        r matches Ok(Command::ShowSource(g)) && generates_for(g, o, stdout_is_terminal)
    } else {
        r matches Ok(Command::Run(g)) && generates_for(g, o, stdout_is_terminal)
    }
}

/// Plans a run from the command line. `present` says of each file, in
/// order, whether it exists; the two flags say whether standard input and
/// standard output are attached to an interactive terminal.
pub fn command_for(
    options: Options,
    present: &Vec<bool>,
    stdin_is_terminal: bool,
    stdout_is_terminal: bool,
) -> (r: Result<Command, LobError>)
    ensures
        is_command_for(r, options, present@, stdin_is_terminal, stdout_is_terminal),
{
    if options.clear_cache {
        return Ok(Command::ClearCache);
    }
    if options.cache_stats {
        return Ok(Command::CacheStats);
    }
    let Options {
        expression,
        files,
        parse_csv,
        parse_tsv,
        parse_json,
        format,
        show_source,
        clear_cache: _,
        cache_stats: _,
    } = options;
    let expression = match expression {
        Some(e) => e,
        None => {
            if files.len() == 0 && stdin_is_terminal {
                return Ok(Command::Welcome);
            }
            return Err(
                LobError::InvalidExpression(
                    String::from_str("No expression provided. Use --help for usage."),
                ),
            );
        },
    };
    let input_format = if parse_csv {
        InputFormat::Csv
    } else if parse_tsv {
        InputFormat::Tsv
    } else if parse_json {
        InputFormat::JsonLines
    } else {
        InputFormat::Lines
    };
    let input_source = InputSource::new(files, input_format);
    match input_source.validate(present) {
        Ok(_) => {},
        Err(e) => {
            return Err(e);
        },
    }
    let output_format = match &format {
        Some(name) => match OutputFormat::from_str(name.as_str()) {
            Some(f) => f,
            None => {
                return Err(
                    LobError::InvalidExpression(
                        String::from_str("Unknown output format: ").concat(name.as_str()),
                    ),
                );
            },
        },
        None => OutputFormat::default(stdout_is_terminal),
    };
    let generator = CodeGenerator::new(expression, input_source, output_format);
    if show_source {
        Ok(Command::ShowSource(generator))
    } else {
        Ok(Command::Run(generator))
    }
}

/// Where a run stands.
#[derive(Clone, Copy, Debug, PartialEq, Eq, Structural)]
pub enum Stage {
    /// The program is being synthesized.
    Synthesizing,
    /// The program's key is being looked up in the cache.
    HashLookup,
    /// The binary was found in the cache.
    CacheHit,
    /// The program is being compiled.
    Compiling,
    /// The compiler has written the binary.
    Linked,
    /// The compiler has rejected the program.
    CompileFailed,
    /// The binary is being executed.
    Executing { cache_hit: bool },
    /// The binary has run and reported success.
    Success { cache_hit: bool },
    /// The binary has run and reported failure, with this status.
    NonZeroExit { status: i32, cache_hit: bool },
}

/// What the caller reports.
#[derive(Clone, Copy, Debug, PartialEq, Eq, Structural)]
pub enum Event {
    /// The program's text is there.
    Synthesized,
    /// The binary for the program's key is in the cache.
    BinaryFound,
    /// It is not.
    BinaryMissing,
    /// The compiler ran and reported success.
    CompilerSucceeded,
    /// The compiler ran and reported failure.
    CompilerFailed,
    /// The binary is ready to be executed.
    Ready,
    /// The binary has run and exited with this status.
    Exited(i32),
}

/// What the caller is to do at a stage.
#[derive(Clone, Copy, Debug, PartialEq, Eq, Structural)]
pub enum Task {
    /// Generate the program's text.
    Synthesize,
    /// See whether the binary for the program's key is there.
    LookUp,
    /// Find a compiler, store the source and compile it to the binary path.
    Compile,
    /// Go on: the binary is there.
    Proceed,
    /// Run the binary on the user's input, on this process's own standard
    /// streams, with the input files as its arguments.
    Execute,
    /// Show the report on the compiler's diagnostic text and stop. Nothing
    /// is left in the cache.
    ReportCompilation,
    /// Stop: the run has succeeded.
    Finish,
    /// Stop: the binary has failed with this status.
    ReportExit(i32),
}

/// The stage that follows when `event` is reported at `stage`. Nothing
/// follows an event that does not belong to the stage, and nothing follows
/// the last stage of a run.
pub open spec fn next_stage(stage: Stage, event: Event) -> Option<Stage> {
    match (stage, event) {
        (Stage::Synthesizing, Event::Synthesized) => Some(Stage::HashLookup),
        (Stage::HashLookup, Event::BinaryFound) => Some(Stage::CacheHit),
        (Stage::HashLookup, Event::BinaryMissing) => Some(Stage::Compiling),
        (Stage::Compiling, Event::CompilerSucceeded) => Some(Stage::Linked),
        (Stage::Compiling, Event::CompilerFailed) => Some(Stage::CompileFailed),
        (Stage::CacheHit, Event::Ready) => Some(Stage::Executing { cache_hit: true }),
        (Stage::Linked, Event::Ready) => Some(Stage::Executing { cache_hit: false }),
        (Stage::Executing { cache_hit }, Event::Exited(status)) => if status == 0 {
            Some(Stage::Success { cache_hit })
        } else {
            Some(Stage::NonZeroExit { status, cache_hit })
        },
        _ => None,
    }
}

/// What is to be done at a stage.
pub open spec fn task_at(stage: Stage) -> Task {
    match stage {
        Stage::Synthesizing => Task::Synthesize,
        Stage::HashLookup => Task::LookUp,
        Stage::CacheHit | Stage::Linked => Task::Proceed,
        Stage::Compiling => Task::Compile,
        Stage::CompileFailed => Task::ReportCompilation,
        Stage::Executing { .. } => Task::Execute,
        Stage::Success { .. } => Task::Finish,
        Stage::NonZeroExit { status, .. } => Task::ReportExit(status),
    }
}

/// A run is over at this stage.
pub open spec fn is_final(stage: Stage) -> bool {
    stage is CompileFailed || stage is Success || stage is NonZeroExit
}

/// The status with which the tool exits at the end of a run: zero after
/// success, one after any failure.
pub open spec fn exit_status_at(stage: Stage) -> i32 {
    if stage is Success {
        0
    } else {
        1
    }
}

/// How far a run has come.
pub open spec fn progress(stage: Stage) -> nat {
    match stage {
        Stage::Synthesizing => 0,
        Stage::HashLookup => 1,
        Stage::Compiling => 2,
        Stage::CacheHit | Stage::Linked | Stage::CompileFailed => 3,
        Stage::Executing { .. } => 4,
        Stage::Success { .. } | Stage::NonZeroExit { .. } => 5,
    }
}

/// The stage that a run is at after the first `n` of `events`, from `start`
/// on; none if one of them did not belong to its stage.
pub open spec fn stage_after(start: Stage, events: Seq<Event>, n: int) -> Option<Stage>
    decreases n,
{
    if n <= 0 {
        Some(start)
    } else {
        match stage_after(start, events, n - 1) {
            Some(stage) => next_stage(stage, events[n - 1]),
            None => None,
        }
    }
}

impl Stage {
    /// The stage at which every run begins.
    pub fn start() -> (stage: Self)
        ensures
            stage == Stage::Synthesizing,
    {
        Stage::Synthesizing
    }

    /// The stage that follows when `event` is reported.
    pub fn step(self, event: Event) -> (next: Option<Stage>)
        ensures
            next == next_stage(self, event),
    {
        match (self, event) {
            (Stage::Synthesizing, Event::Synthesized) => Some(Stage::HashLookup),
            (Stage::HashLookup, Event::BinaryFound) => Some(Stage::CacheHit),
            (Stage::HashLookup, Event::BinaryMissing) => Some(Stage::Compiling),
            (Stage::Compiling, Event::CompilerSucceeded) => Some(Stage::Linked),
            (Stage::Compiling, Event::CompilerFailed) => Some(Stage::CompileFailed),
            (Stage::CacheHit, Event::Ready) => Some(Stage::Executing { cache_hit: true }),
            (Stage::Linked, Event::Ready) => Some(Stage::Executing { cache_hit: false }),
            (Stage::Executing { cache_hit }, Event::Exited(status)) => if status == 0 {
                Some(Stage::Success { cache_hit })
            } else {
                Some(Stage::NonZeroExit { status, cache_hit })
            },
            _ => None,
        }
    }

    /// What the caller is to do now.
    pub fn task(self) -> (task: Task)
        ensures
            task == task_at(self),
    {
        match self {
            Stage::Synthesizing => Task::Synthesize,
            Stage::HashLookup => Task::LookUp,
            Stage::CacheHit | Stage::Linked => Task::Proceed,
            Stage::Compiling => Task::Compile,
            Stage::CompileFailed => Task::ReportCompilation,
            Stage::Executing { .. } => Task::Execute,
            Stage::Success { .. } => Task::Finish,
            Stage::NonZeroExit { status, .. } => Task::ReportExit(status),
        }
    }

    /// Whether the run is over.
    pub fn is_done(self) -> (done: bool)
        ensures
            done == is_final(self),
    {
        match self {
            Stage::CompileFailed | Stage::Success { .. } | Stage::NonZeroExit { .. } => true,
            _ => false,
        }
    }

    /// The status with which the tool exits at the end of the run.
    pub fn exit_status(self) -> (status: i32)
        ensures
            status == exit_status_at(self),
    {
        match self {
            Stage::Success { .. } => 0,
            _ => 1,
        }
    }
}

/// Every event that belongs to a stage moves the run on.
pub proof fn lemma_step_advances(stage: Stage, event: Event)
    requires
        next_stage(stage, event) is Some,
    ensures
        progress(next_stage(stage, event)->0) > progress(stage),
{
}

/// A run is over exactly where no event is taken any more.
pub proof fn lemma_final_stages_take_no_event(stage: Stage)
    ensures
        is_final(stage) <==> forall|event: Event| next_stage(stage, event) is None,
{
    if !is_final(stage) {
        let event = match stage {
            Stage::Synthesizing => Event::Synthesized,
            Stage::HashLookup => Event::BinaryFound,
            Stage::Compiling => Event::CompilerSucceeded,
            Stage::CacheHit | Stage::Linked => Event::Ready,
            _ => Event::Exited(0),
        };
        assert(next_stage(stage, event) is Some);
    }
}

/// No run takes more than five events.
pub proof fn lemma_runs_are_short(events: Seq<Event>, n: int)
    requires
        0 <= n <= events.len(),
        stage_after(Stage::Synthesizing, events, n) is Some,
    ensures
        progress(stage_after(Stage::Synthesizing, events, n)->0) >= n,
        n <= 5,
    decreases n,
{
    if n > 0 {
        lemma_runs_are_short(events, n - 1);
        lemma_step_advances(stage_after(Stage::Synthesizing, events, n - 1)->0, events[n - 1]);
    }
}

/// A binary that is found in the cache is executed without being compiled:
/// after the hit the only way on is to execution, and the run is marked as a
/// cache hit.
pub proof fn lemma_hit_skips_compiling(event: Event)
    ensures
        next_stage(Stage::HashLookup, Event::BinaryFound) == Some(Stage::CacheHit),
        next_stage(Stage::CacheHit, event) is Some ==> next_stage(Stage::CacheHit, event) == Some(
            Stage::Executing { cache_hit: true },
        ),
{
}

/// A run that executes its binary as a cache hit has not compiled: it got
/// there by three events, and the second was that the binary was found.
pub proof fn lemma_hit_runs_never_compile(events: Seq<Event>, n: int)
    requires
        0 <= n <= events.len(),
        stage_after(Stage::Synthesizing, events, n) == Some(Stage::Executing { cache_hit: true }),
    ensures
        n == 3,
        events[0] == Event::Synthesized,
        events[1] == Event::BinaryFound,
        events[2] == Event::Ready,
{
    lemma_runs_are_short(events, n);
    reveal_with_fuel(stage_after, 6);
}

/// A failed compilation ends the run, and the tool reports failure.
pub proof fn lemma_compile_failure_is_final(event: Event)
    ensures
        next_stage(Stage::Compiling, Event::CompilerFailed) == Some(Stage::CompileFailed),
        next_stage(Stage::CompileFailed, event) is None,
        task_at(Stage::CompileFailed) == Task::ReportCompilation,
        exit_status_at(Stage::CompileFailed) != 0,
{
}

/// A binary that exits with a status other than zero ends the run in a
/// failure of its own, which carries the status.
pub proof fn lemma_exit_status_is_carried(cache_hit: bool, status: i32)
    requires
        status != 0,
    ensures
        next_stage(Stage::Executing { cache_hit }, Event::Exited(status)) == Some(
            Stage::NonZeroExit { status, cache_hit },
        ),
        task_at(Stage::NonZeroExit { status, cache_hit }) == Task::ReportExit(status),
        exit_status_at(Stage::NonZeroExit { status, cache_hit }) != 0,
{
}

} // verus!
