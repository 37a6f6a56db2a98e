//! The evaluation state machine, driven with made-up reports.
use monch::engine::{InputSlot, InputSource, OutputSink, OutputSlot, StagePlumbing};
use monch::error::Error;
use monch::eval::{Action, Evaluation, Event};
use monch::exe::Lookup;
use monch::exit::Exit;
use monch::parser::Parser;

/// Where the fake searches find programs.
fn lookup(name: &str, shell_path: bool) -> Lookup {
    let shell = ["ls", "get"];
    let system = ["true", "false", "cat", "pwd"];
    let table: &[&str] = if shell_path { &shell } else { &system };
    if table.contains(&name) {
        Lookup::Found(format!("/{}", name))
    } else {
        Lookup::NotFound
    }
}

/// A short name for each action, recording the run.
fn describe(a: &Action) -> String {
    match a {
        Action::SearchShellPath(n) => format!("shell-search {}", n),
        Action::SearchSystemPath(n) => format!("system-search {}", n),
        Action::OpenInput(InputSource::Inherit) => "open-input inherit".to_string(),
        Action::OpenInput(InputSource::File(f)) => format!("open-input {}", f),
        Action::MakePipe(k) => format!("pipe {}", k),
        Action::OpenOutput(OutputSink::Inherit) => "open-output inherit".to_string(),
        Action::OpenOutput(OutputSink::Truncate(f)) => format!("open-output truncate {}", f),
        Action::OpenOutput(OutputSink::Append(f)) => format!("open-output append {}", f),
        Action::Launch(i, _) => format!("launch {}", i),
        Action::Wait(i) => format!("wait {}", i),
        Action::Finish(_) => "finish".to_string(),
    }
}

/// Runs an evaluation with every outside step succeeding and the given
/// statuses for the stages; returns the actions and the result.
fn run(line: &str, exits: &[Exit]) -> (Vec<String>, Result<Exit, Error>, Vec<StagePlumbing>) {
    let cmd = Parser::new().parse_command(line).unwrap();
    let mut eval = Evaluation::new(&cmd);
    let mut event = Event::Start;
    let mut log = Vec::new();
    let mut slots = Vec::new();
    loop {
        let action = eval.next(event);
        log.push(describe(&action));
        event = match action {
            Action::SearchShellPath(n) => Event::Searched(lookup(&n, true)),
            Action::SearchSystemPath(n) => Event::Searched(lookup(&n, false)),
            Action::Launch(i, slot) => {
                assert!(eval.stage(i).is_some());
                slots.push(slot);
                Event::Ready
            }
            Action::Wait(i) => Event::Exited(exits[i]),
            Action::Finish(r) => return (log, r, slots),
            _ => Event::Ready,
        };
    }
}

#[test]
fn evaluation_of_structured_pipeline() {
    let ok = Exit::Code(0);
    let (log, r, slots) = run("ls | get .name", &[ok, ok, ok]);
    assert_eq!(
        log,
        vec![
            "shell-search ls",
            "shell-search get",
            "open-input inherit",
            "pipe 0",
            "pipe 1",
            "open-output inherit",
            "launch 0",
            "launch 1",
            "launch 2",
            "wait 0",
            "wait 1",
            "wait 2",
            "finish",
        ]
    );
    assert_eq!(r.unwrap(), ok);
    assert_eq!(
        slots,
        vec![
            StagePlumbing { stdin: InputSlot::CommandInput, stdout: OutputSlot::PipeWrite(0) },
            StagePlumbing { stdin: InputSlot::PipeRead(0), stdout: OutputSlot::PipeWrite(1) },
            StagePlumbing { stdin: InputSlot::PipeRead(1), stdout: OutputSlot::CommandOutput },
        ]
    );
}

#[test]
fn evaluation_first_failure() {
    let (log, r, _) = run("true | false", &[Exit::Code(0), Exit::Code(1)]);
    assert_eq!(r.unwrap(), Exit::Code(1));
    assert_eq!(log.iter().filter(|a| a.starts_with("wait")).count(), 2);
    assert_eq!(log[0], "shell-search true");
    assert_eq!(log[1], "system-search true");
}

#[test]
fn evaluation_type_error_touches_nothing() {
    let (log, r, _) = run("cat <in.txt | get .name > out.bin", &[]);
    assert_eq!(
        log,
        vec![
            "shell-search cat",
            "system-search cat",
            "shell-search get",
            "finish",
        ]
    );
    assert!(matches!(r, Err(Error::TypeMismatch { .. })));
}

#[test]
fn evaluation_command_not_found() {
    let (log, r, _) = run("ls | nonexistent_cmd", &[]);
    assert_eq!(log.last().unwrap(), "finish");
    assert!(!log.iter().any(|a| a.starts_with("open") || a.starts_with("launch")));
    assert_eq!(r.unwrap_err().as_exit(), Exit::Code(127));
}

#[test]
fn evaluation_redirections_and_builtins() {
    let (log, r, _) = run("ls >> names.bin", &[Exit::Code(0)]);
    assert_eq!(
        log,
        vec![
            "shell-search ls",
            "open-input inherit",
            "open-output append names.bin",
            "launch 0",
            "wait 0",
            "finish",
        ]
    );
    assert_eq!(r.unwrap(), Exit::Code(0));
    let (log, r, _) = run("cd /", &[Exit::Code(0)]);
    assert_eq!(log[0], "open-input inherit");
    assert_eq!(r.unwrap(), Exit::Code(0));
}

#[test]
fn evaluation_passes_failures_on() {
    let cmd = Parser::new().parse_command("cd /tmp").unwrap();
    let mut eval = Evaluation::new(&cmd);
    assert!(matches!(eval.next(Event::Start), Action::OpenInput(_)));
    match eval.next(Event::Failed(Error::Io("no such file".into()))) {
        Action::Finish(Err(Error::Io(m))) => assert_eq!(m, "no such file"),
        _ => panic!("expected the failure to end the evaluation"),
    }
}

#[test]
fn evaluation_of_empty_pipeline() {
    let cmd = monch::ast::Command { pipeline: vec![], stdin_redirect: None, stdout_redirect: None };
    let mut eval = Evaluation::new(&cmd);
    match eval.next(Event::Start) {
        Action::Finish(Ok(e)) => assert_eq!(e, Exit::Code(0)),
        _ => panic!("an empty pipeline finishes at once with success"),
    }
}

#[test]
fn evaluation_failed_search_ends_it() {
    let cmd = Parser::new().parse_command("ls").unwrap();
    let mut eval = Evaluation::new(&cmd);
    match eval.next(Event::Start) {
        Action::SearchShellPath(n) => assert_eq!(n, "ls"),
        _ => panic!("expected a search"),
    }
    match eval.next(Event::Failed(Error::Io("boom".into()))) {
        Action::Finish(Err(Error::Io(m))) => assert_eq!(m, "boom"),
        _ => panic!("expected the failure to end the evaluation"),
    }
}

#[test]
fn evaluation_missing_status_is_an_error() {
    let cmd = Parser::new().parse_command("cd /").unwrap();
    let mut eval = Evaluation::new(&cmd);
    assert!(matches!(eval.next(Event::Start), Action::OpenInput(_)));
    assert!(matches!(eval.next(Event::Ready), Action::OpenOutput(_)));
    assert!(matches!(eval.next(Event::Ready), Action::Launch(0, _)));
    assert!(matches!(eval.next(Event::Ready), Action::Wait(0)));
    match eval.next(Event::Ready) {
        Action::Finish(Err(Error::ExecutionFailed(m))) => {
            assert_eq!(m, "a stage ended without an exit status")
        }
        _ => panic!("expected an execution error"),
    }
}
