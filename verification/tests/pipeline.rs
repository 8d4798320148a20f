//! Tests for the course of a run.

use lob::error::LobError;
use lob::pipeline::{command_for, Command, Event, Options, Stage, Task};

fn options(expression: Option<&str>) -> Options {
    Options {
        expression: expression.map(|e| e.to_string()),
        files: vec![],
        parse_csv: false,
        parse_tsv: false,
        parse_json: false,
        format: None,
        show_source: false,
        clear_cache: false,
        cache_stats: false,
    }
}

fn run(events: &[Event]) -> Option<Stage> {
    let mut stage = Stage::start();
    for event in events {
        stage = stage.step(*event)?;
    }
    Some(stage)
}

#[test]
fn run_with_cache_miss() {
    let stage = run(&[
        Event::Synthesized,
        Event::BinaryMissing,
        Event::CompilerSucceeded,
        Event::Ready,
        Event::Exited(0),
    ])
    .unwrap();
    assert_eq!(stage, Stage::Success { cache_hit: false });
    assert!(stage.is_done());
    assert_eq!(stage.task(), Task::Finish);
    assert_eq!(stage.exit_status(), 0);
}

#[test]
fn run_with_cache_hit_skips_the_compiler() {
    let mut stage = Stage::start();
    let mut tasks = vec![stage.task()];
    for event in [Event::Synthesized, Event::BinaryFound, Event::Ready, Event::Exited(0)] {
        stage = stage.step(event).unwrap();
        tasks.push(stage.task());
    }
    assert_eq!(stage, Stage::Success { cache_hit: true });
    assert_eq!(
        tasks,
        vec![Task::Synthesize, Task::LookUp, Task::Proceed, Task::Execute, Task::Finish]
    );
    assert!(!tasks.contains(&Task::Compile));
}

#[test]
fn run_with_compile_failure_stops() {
    let stage = run(&[Event::Synthesized, Event::BinaryMissing, Event::CompilerFailed]).unwrap();
    assert_eq!(stage, Stage::CompileFailed);
    assert!(stage.is_done());
    assert_eq!(stage.task(), Task::ReportCompilation);
    assert_eq!(stage.exit_status(), 1);
    assert_eq!(stage.step(Event::Ready), None);
    assert_eq!(stage.step(Event::Exited(0)), None);
    assert_eq!(stage.step(Event::CompilerSucceeded), None);
}

#[test]
fn run_with_failing_program_carries_the_status() {
    let stage = run(&[Event::Synthesized, Event::BinaryFound, Event::Ready, Event::Exited(3)])
        .unwrap();
    assert_eq!(stage, Stage::NonZeroExit { status: 3, cache_hit: true });
    assert_eq!(stage.task(), Task::ReportExit(3));
    assert_eq!(stage.exit_status(), 1);
    assert!(stage.is_done());

    let stage = run(&[
        Event::Synthesized,
        Event::BinaryMissing,
        Event::CompilerSucceeded,
        Event::Ready,
        Event::Exited(-1),
    ])
    .unwrap();
    assert_eq!(stage, Stage::NonZeroExit { status: -1, cache_hit: false });
}

#[test]
fn run_refuses_events_out_of_turn() {
    assert_eq!(run(&[Event::BinaryFound]), None);
    assert_eq!(run(&[Event::Synthesized, Event::Ready]), None);
    assert_eq!(run(&[Event::Synthesized, Event::BinaryFound, Event::CompilerSucceeded]), None);
    assert_eq!(run(&[Event::Synthesized, Event::BinaryMissing, Event::Ready]), None);
    assert_eq!(
        run(&[Event::Synthesized, Event::BinaryFound, Event::Ready, Event::Exited(0), Event::Exited(0)]),
        None
    );
    assert_eq!(run(&[]), Some(Stage::Synthesizing));
    assert!(!Stage::start().is_done());
}

#[test]
fn command_clear_cache_comes_first() {
    let mut o = options(Some("_.count()"));
    o.clear_cache = true;
    o.cache_stats = true;
    assert!(matches!(command_for(o, &vec![], false, false), Ok(Command::ClearCache)));

    let mut o = options(None);
    o.cache_stats = true;
    assert!(matches!(command_for(o, &vec![], false, false), Ok(Command::CacheStats)));
}

#[test]
fn command_without_expression() {
    assert!(matches!(command_for(options(None), &vec![], true, true), Ok(Command::Welcome)));

    match command_for(options(None), &vec![], false, true) {
        Err(LobError::InvalidExpression(message)) => {
            assert_eq!(message, "No expression provided. Use --help for usage.")
        }
        _ => panic!("Expected an invalid expression"),
    }

    let mut o = options(None);
    o.files = vec!["data.txt".to_string()];
    match command_for(o, &vec![true], true, true) {
        Err(e) => assert_eq!(
            e.message(),
            "Invalid expression: No expression provided. Use --help for usage."
        ),
        _ => panic!("Expected an invalid expression"),
    }
}

#[test]
fn command_with_missing_file() {
    let mut o = options(Some("_.count()"));
    o.files = vec!["a.txt".to_string(), "b.txt".to_string(), "c.txt".to_string()];
    o.format = Some("nonsense".to_string());
    match command_for(o, &vec![true, false, false], false, false) {
        Err(LobError::Io(message)) => assert_eq!(message, "File not found: b.txt"),
        _ => panic!("Expected an IO error"),
    }
}

#[test]
fn command_with_unknown_format() {
    let mut o = options(Some("_.count()"));
    o.format = Some("yaml".to_string());
    match command_for(o, &vec![], false, false) {
        Err(LobError::InvalidExpression(message)) => {
            assert_eq!(message, "Unknown output format: yaml")
        }
        _ => panic!("Expected an invalid expression"),
    }
}

#[test]
fn command_run_picks_the_formats() {
    let mut o = options(Some("_.take(2)"));
    o.parse_tsv = true;
    o.parse_json = true;
    o.files = vec!["a.tsv".to_string()];
    match command_for(o, &vec![true], false, false) {
        Ok(Command::Run(generator)) => {
            let code = generator.generate().unwrap();
            assert!(code.contains("let stdin_data = input_tsv_from_files(&files);"));
            assert!(code.contains("serde_json::to_string(&item)"));
        }
        _ => panic!("Expected a run"),
    }

    let mut o = options(Some("_.take(2)"));
    o.parse_csv = true;
    o.parse_tsv = true;
    match command_for(o, &vec![], false, true) {
        Ok(Command::Run(generator)) => {
            let code = generator.generate().unwrap();
            assert!(code.contains("let stdin_data = input_csv();"));
            assert!(code.contains("println!(\"{:?}\", item);"));
        }
        _ => panic!("Expected a run"),
    }
}

#[test]
fn command_show_source() {
    let mut o = options(Some("_.count()"));
    o.show_source = true;
    o.format = Some("table".to_string());
    match command_for(o, &vec![], false, true) {
        Ok(Command::ShowSource(generator)) => {
            let code = generator.generate().unwrap();
            assert!(code.contains("use lob_prelude::tabled::builder::Builder;"));
        }
        _ => panic!("Expected the source to be shown"),
    }
}
