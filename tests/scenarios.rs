//! Command lines taken through the library's part of the engine, with the
//! program searches answered from fixed tables.
use monch::engine::{check_pipeline, eval_invocation, CheckedPipeline, Stage};
use monch::error::Error;
use monch::exe::{resolve_step, Executable, Lookup, ResolveStep};
use monch::exit::{aggregate_exit, Exit};
use monch::parser::Parser;
use monch::path::{DataPath, Selector};

const SHELL_PATH: [&str; 2] = ["ls", "get"];
const SYSTEM_PATH: [&str; 5] = ["ls", "pwd", "true", "false", "cat"];

fn search(name: &str, table: &[&str], dir: &str) -> Lookup {
    if table.contains(&name) {
        Lookup::Found(format!("{}/{}", dir, name))
    } else {
        Lookup::NotFound
    }
}

fn resolve(name: &str) -> Result<Executable, Error> {
    let mut shell = None;
    let mut system = None;
    loop {
        match resolve_step(name, &shell, &system) {
            ResolveStep::SearchShellPath => shell = Some(search(name, &SHELL_PATH, "/monch/bin")),
            ResolveStep::SearchSystemPath => system = Some(search(name, &SYSTEM_PATH, "/usr/bin")),
            ResolveStep::Done(r) => return r,
        }
    }
}

/// Parses, resolves and checks a command line, as the shell does before
/// opening anything.
fn prepare(line: &str) -> Result<CheckedPipeline, Error> {
    let cmd = Parser::new().parse_command(line).unwrap();
    let mut stages = Vec::new();
    for inv in &cmd.pipeline {
        let (command, args) = eval_invocation(inv);
        let exe = resolve(&command)?;
        stages.push(Stage { command, exe, args });
    }
    check_pipeline(stages, cmd.stdout_redirect.is_some())
}

fn commands(p: &CheckedPipeline) -> Vec<String> {
    p.stages().iter().map(|s| s.command.clone()).collect()
}

#[test]
fn cd_then_pwd() {
    let p = prepare("cd /").unwrap();
    assert_eq!(commands(&p), vec!["cd"]);
    assert!(matches!(p.stages()[0].exe, Executable::Cd(_)));
    assert_eq!(p.stages()[0].args, vec!["/".to_string()]);
    let p = prepare("pwd").unwrap();
    assert_eq!(commands(&p), vec!["pwd"]);
    assert_eq!(aggregate_exit(&vec![Exit::Code(0)]), Exit::Code(0));
}

#[test]
fn ls_alone_is_formatted() {
    let p = prepare("ls").unwrap();
    assert_eq!(commands(&p), vec!["ls", "to"]);
    assert_eq!(p.stages()[1].args, vec!["tty".to_string()]);
    match &p.stages()[0].exe {
        Executable::External(e) => assert_eq!(e.binary(), "/monch/bin/ls"),
        _ => panic!("ls resolves on the shell's path first"),
    }
}

#[test]
fn ls_get_name_is_formatted() {
    let p = prepare("ls | get .name").unwrap();
    assert_eq!(commands(&p), vec!["ls", "get", "to"]);
    assert_eq!(p.plumbing().len(), 3);
    let path = DataPath::parse(&p.stages()[1].args[0]);
    assert_eq!(path.0, vec![Selector::Key("name".into())]);
}

#[test]
fn ls_into_file_keeps_raw_records() {
    let p = prepare("ls > out.bin").unwrap();
    assert_eq!(commands(&p), vec!["ls"]);
    // `to cbor` copies records through unchanged, but it declares a record
    // stream on stdin, and a system program's unknown output does not
    // connect to that
    match prepare("cat out.bin | to cbor > out2.bin") {
        Err(Error::TypeMismatch { l_cmd, r_cmd, .. }) => {
            assert_eq!(l_cmd, "cat");
            assert_eq!(r_cmd, "to");
        }
        _ => panic!("expected a type mismatch"),
    }
    let p = prepare("to cbor <out.bin >out2.bin").unwrap();
    assert_eq!(commands(&p), vec!["to"]);
    assert!(prepare("cat out.bin | get .name").is_err());
}

#[test]
fn unknown_command_is_not_found() {
    match prepare("ls | nonexistent_cmd") {
        Err(e) => {
            assert_eq!(e.as_exit(), Exit::Code(127));
            assert!(e.message().starts_with("nonexistent_cmd: command not found"));
        }
        Ok(_) => panic!("expected command not found"),
    }
}

#[test]
fn true_pipe_false_fails() {
    let p = prepare("true | false").unwrap();
    assert_eq!(commands(&p), vec!["true", "false"]);
    assert_eq!(aggregate_exit(&vec![Exit::Code(0), Exit::Code(1)]), Exit::Code(1));
}

#[test]
fn split_head_of_path() {
    let p = DataPath::parse("a.2.b");
    let (head, tail) = p.split_head().unwrap();
    assert_eq!(head, Selector::Key("a".into()));
    assert_eq!(tail.0, vec![Selector::Index(2), Selector::Key("b".into())]);
    assert!(DataPath::parse("..").split_head().is_none());
}
