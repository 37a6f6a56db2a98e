use monch::engine::{
    check_pipeline, eval_invocation, input_source, output_sink, plan_plumbing, InputSlot,
    InputSource, OutputSink, OutputSlot, Stage, StagePlumbing,
};
use monch::error::Error;
use monch::exe::{
    builtin, resolve_step, Cd, Conversion, Executable, ExternalExecutable, ImmediateProc, Lookup,
    ResolveStep, To,
};
use monch::exit::{aggregate_exit, Exit};
use monch::parser::Parser;
use monch::types::{can_connect, Ty};

const ALL: [Ty; 6] = [Ty::Any, Ty::Unknown, Ty::Nothing, Ty::Cbor, Ty::Text, Ty::Tty];

fn args(a: &[&str]) -> Vec<String> {
    a.iter().map(|s| s.to_string()).collect()
}

fn shell_tool(path: &str) -> Executable {
    let mut e = ExternalExecutable::new(path.to_string());
    e.set_input_type(Ty::Cbor);
    e.set_output_type(Ty::Cbor);
    Executable::External(e)
}

fn system_tool(path: &str) -> Executable {
    Executable::External(ExternalExecutable::new(path.to_string()))
}

fn stage(name: &str, exe: Executable, a: &[&str]) -> Stage {
    Stage { command: name.to_string(), exe, args: args(a) }
}

/// Runs resolution to its end, answering searches from the given tables.
fn resolve(name: &str, shell: Lookup, system: Lookup) -> Result<Executable, Error> {
    let mut shell_done: Option<Lookup> = None;
    let mut system_done: Option<Lookup> = None;
    let mut shell = Some(shell);
    let mut system = Some(system);
    loop {
        match resolve_step(name, &shell_done, &system_done) {
            ResolveStep::SearchShellPath => shell_done = shell.take(),
            ResolveStep::SearchSystemPath => system_done = system.take(),
            ResolveStep::Done(r) => return r,
        }
    }
}

#[test]
fn lattice_law_on_every_pair() {
    for from in ALL {
        for to in ALL {
            let expected = to == Ty::Any || to == Ty::Nothing || from == to;
            assert_eq!(can_connect(from, to), expected, "{:?} -> {:?}", from, to);
        }
    }
    assert!(!can_connect(Ty::Unknown, Ty::Cbor));
    assert!(!can_connect(Ty::Cbor, Ty::Text));
    assert!(can_connect(Ty::Tty, Ty::Any));
}

#[test]
fn type_names_parse_and_show() {
    assert_eq!(Ty::parse(" TTY "), Some(Ty::Tty));
    assert_eq!(Ty::parse("Cbor"), Some(Ty::Cbor));
    assert_eq!(Ty::parse("text\n"), Some(Ty::Text));
    assert_eq!(Ty::parse("any"), None);
    assert_eq!(Ty::parse(""), None);
    assert_eq!(Ty::Any.name(), "[any]");
    assert_eq!(Ty::Unknown.name(), "[unknown]");
    assert_eq!(Ty::Nothing.name(), "[nothing]");
    assert_eq!(Ty::Cbor.name(), "cbor");
}

#[test]
fn exit_accessors() {
    assert_eq!(Exit::Code(3).code(), Some(3));
    assert_eq!(Exit::Code(3).signal(), None);
    assert_eq!(Exit::Signal(9).signal(), Some(9));
    assert_eq!(Exit::Signal(9).code(), None);
    assert!(Exit::success_status().success());
    assert!(!Exit::Signal(0).success());
    assert_eq!(Exit::failure(), Exit::Code(1));
    assert_eq!(Exit::bad_syntax(), Exit::Code(2));
    assert_eq!(Exit::could_not_execute(), Exit::Code(126));
    assert_eq!(Exit::command_not_found(), Exit::Code(127));
    assert_eq!(Exit::Code(0).to_text(), "0");
    assert_eq!(Exit::Code(127).to_text(), "127");
    assert_eq!(Exit::Signal(15).to_text(), "signal(15)");
    assert_eq!(ImmediateProc(Exit::Code(4)).wait(), Exit::Code(4));
}

#[test]
fn reduce_worst_keeps_first_failure() {
    assert_eq!(Exit::reduce_worst(Exit::Code(0), Exit::Code(5)), Exit::Code(5));
    assert_eq!(Exit::reduce_worst(Exit::Code(2), Exit::Code(5)), Exit::Code(2));
    assert_eq!(Exit::reduce_worst(Exit::Signal(9), Exit::Code(0)), Exit::Signal(9));
}

#[test]
fn aggregate_exit_first_failure() {
    assert_eq!(aggregate_exit(&vec![]), Exit::Code(0));
    assert_eq!(aggregate_exit(&vec![Exit::Code(0), Exit::Code(0)]), Exit::Code(0));
    assert_eq!(
        aggregate_exit(&vec![Exit::Code(0), Exit::Signal(13), Exit::Code(2)]),
        Exit::Signal(13)
    );
    // `true | false`
    assert_eq!(aggregate_exit(&vec![Exit::Code(0), Exit::Code(1)]), Exit::Code(1));
}

#[test]
fn errors_map_to_exits_and_messages() {
    let e = Error::ResolveBinary { cmd: "nope".into(), message: "cannot find binary path".into() };
    assert_eq!(e.as_exit(), Exit::Code(127));
    assert_eq!(e.message(), "nope: command not found: cannot find binary path");
    assert_eq!(Error::Io("boom".into()).as_exit(), Exit::Code(1));
    assert_eq!(Error::Io("boom".into()).message(), "boom");
    assert_eq!(Error::ExecutionFailed("x".into()).as_exit(), Exit::Code(126));
    assert_eq!(
        Error::ExecutionFailed("x".into()).message(),
        "execution of child process failed: x"
    );
    assert_eq!(Error::BadWorkingDirectory("/x".into()).as_exit(), Exit::Code(1));
    assert_eq!(
        Error::BadWorkingDirectory("/x".into()).message(),
        "invalid working directory '/x'"
    );
    let m = Error::TypeMismatch {
        l_cmd: "true".into(),
        l_ty: Ty::Unknown,
        r_cmd: "get".into(),
        r_ty: Ty::Cbor,
    };
    assert_eq!(m.as_exit(), Exit::Code(2));
    assert_eq!(m.message(), "cannot pipe true ([unknown]) into get (cbor)");
}

#[test]
fn builtins_declare_types() {
    assert!(matches!(builtin("cd"), Some(Executable::Cd(_))));
    assert!(matches!(builtin("to"), Some(Executable::To(_))));
    assert!(builtin("CD").is_none());
    assert_eq!(Cd.input_type(&args(&["/"])), Ty::Nothing);
    assert_eq!(Cd.output_type(&args(&["/"])), Ty::Nothing);
    assert_eq!(To.input_type(&args(&["tty"])), Ty::Cbor);
    assert_eq!(To.output_type(&args(&["tty"])), Ty::Tty);
    assert_eq!(To.output_type(&args(&["cbor"])), Ty::Cbor);
    assert_eq!(To.output_type(&args(&["json"])), Ty::Nothing);
    assert_eq!(To.output_type(&args(&[])), Ty::Nothing);
}

#[test]
fn to_parse_args_messages() {
    assert_eq!(To::parse_args(&args(&["text"])), Ok(Ty::Text));
    assert_eq!(
        To::parse_args(&args(&["a", "b"])),
        Err("to: expected one argument only".to_string())
    );
    assert_eq!(
        To::parse_args(&args(&["json"])),
        Err("to: 'json' is not a valid type name".to_string())
    );
}

#[test]
fn cd_takes_one_argument() {
    // `cd /`
    assert_eq!(Cd::target(&args(&["/"])), Ok(&"/".to_string()));
    assert_eq!(
        Cd::target(&args(&[])),
        Err("monch: cd: too many arguments".to_string())
    );
    assert!(Cd::target(&args(&["a", "b"])).is_err());
}

#[test]
fn external_executable_setters() {
    let mut e = ExternalExecutable::new("/bin/x".to_string());
    assert_eq!(e.input_type(&args(&[])), Ty::Any);
    assert_eq!(e.output_type(&args(&[])), Ty::Unknown);
    e.set_output_type(Ty::Text);
    e.set_input_type(Ty::Nothing);
    assert_eq!(e.output_type(&args(&[])), Ty::Text);
    assert_eq!(e.input_type(&args(&[])), Ty::Nothing);
    assert_eq!(e.binary(), "/bin/x");
}

#[test]
fn resolution_order() {
    // builtins come first, without any search
    assert!(matches!(
        resolve_step("cd", &None, &None),
        ResolveStep::Done(Ok(Executable::Cd(_)))
    ));
    assert!(matches!(resolve_step("ls", &None, &None), ResolveStep::SearchShellPath));
    assert!(matches!(
        resolve_step("ls", &Some(Lookup::NotFound), &None),
        ResolveStep::SearchSystemPath
    ));

    // found on the shell's path: records in and out
    match resolve("ls", Lookup::Found("/m/ls".into()), Lookup::Found("/bin/ls".into())) {
        Ok(Executable::External(e)) => {
            assert_eq!(e.binary(), "/m/ls");
            assert_eq!(e.input_type(&vec![]), Ty::Cbor);
            assert_eq!(e.output_type(&vec![]), Ty::Cbor);
        }
        _ => panic!("expected an external executable"),
    }

    // found on the system path only: anything in, unknown out
    match resolve("true", Lookup::NotFound, Lookup::Found("/bin/true".into())) {
        Ok(Executable::External(e)) => {
            assert_eq!(e.binary(), "/bin/true");
            assert_eq!(e.input_type(&vec![]), Ty::Any);
            assert_eq!(e.output_type(&vec![]), Ty::Unknown);
        }
        _ => panic!("expected an external executable"),
    }

    // found nowhere: command not found, exit 127
    match resolve("nonexistent_cmd", Lookup::NotFound, Lookup::NotFound) {
        Err(e) => {
            assert_eq!(e.as_exit(), Exit::Code(127));
            assert_eq!(
                e.message(),
                "nonexistent_cmd: command not found: cannot find binary path"
            );
        }
        Ok(_) => panic!("expected an error"),
    }

    // a failed search is an error, not a fall-through
    match resolve("ls", Lookup::Failed("permission denied".into()), Lookup::Found("/bin/ls".into()))
    {
        Err(Error::ResolveBinary { cmd, message }) => {
            assert_eq!(cmd, "ls");
            assert_eq!(message, "permission denied");
        }
        _ => panic!("expected a resolve error"),
    }
}

#[test]
fn structured_output_gets_formatter() {
    // `ls` alone
    let p = check_pipeline(vec![stage("ls", shell_tool("/m/ls"), &[])], false).unwrap();
    let stages = p.stages();
    assert_eq!(stages.len(), 2);
    assert_eq!(stages[1].command, "to");
    assert_eq!(stages[1].args, args(&["tty"]));
    assert!(matches!(stages[1].exe, Executable::To(_)));
    p.stages_connect();

    // `ls | get .name`
    let p = check_pipeline(
        vec![stage("ls", shell_tool("/m/ls"), &[]), stage("get", shell_tool("/m/get"), &[".name"])],
        false,
    )
    .unwrap();
    assert_eq!(p.len(), 3);
    assert_eq!(p.stages()[2].command, "to");
}

#[test]
fn redirected_output_keeps_raw_records() {
    // `ls > out.bin`
    let p = check_pipeline(vec![stage("ls", shell_tool("/m/ls"), &[])], true).unwrap();
    assert_eq!(p.len(), 1);
    assert_eq!(p.stages()[0].command, "ls");

    // unknown output gets no formatter either
    let p = check_pipeline(vec![stage("true", system_tool("/bin/true"), &[])], false).unwrap();
    assert_eq!(p.len(), 1);
}

#[test]
fn type_mismatch_rejects_pipeline() {
    let r = check_pipeline(
        vec![
            stage("true", system_tool("/bin/true"), &[]),
            stage("cat", system_tool("/bin/cat"), &[]),
            stage("get", shell_tool("/m/get"), &[".x"]),
            stage("ls", shell_tool("/m/ls"), &[]),
        ],
        false,
    );
    match r {
        Err(Error::TypeMismatch { l_cmd, l_ty, r_cmd, r_ty }) => {
            assert_eq!(l_cmd, "cat");
            assert_eq!(l_ty, Ty::Unknown);
            assert_eq!(r_cmd, "get");
            assert_eq!(r_ty, Ty::Cbor);
        }
        _ => panic!("expected a type mismatch"),
    }
    // `true | false` connects: unknown into anything
    assert!(check_pipeline(
        vec![stage("true", system_tool("/bin/true"), &[]), stage("false", system_tool("/bin/false"), &[])],
        false
    )
    .is_ok());
    // a `to` with a bad target declares nothing, which only `Any` and `Nothing` accept
    assert!(check_pipeline(
        vec![
            stage("ls", shell_tool("/m/ls"), &[]),
            stage("to", Executable::To(To), &["json"]),
            stage("get", shell_tool("/m/get"), &[]),
        ],
        false
    )
    .is_err());
    // an empty pipeline checks trivially
    assert_eq!(check_pipeline(vec![], false).unwrap().len(), 0);
}

#[test]
fn plumbing_plan_hands_each_half_once() {
    let plan = plan_plumbing(3);
    assert_eq!(
        plan,
        vec![
            StagePlumbing { stdin: InputSlot::CommandInput, stdout: OutputSlot::PipeWrite(0) },
            StagePlumbing { stdin: InputSlot::PipeRead(0), stdout: OutputSlot::PipeWrite(1) },
            StagePlumbing { stdin: InputSlot::PipeRead(1), stdout: OutputSlot::CommandOutput },
        ]
    );
    assert_eq!(
        plan_plumbing(1),
        vec![StagePlumbing { stdin: InputSlot::CommandInput, stdout: OutputSlot::CommandOutput }]
    );
    assert!(plan_plumbing(0).is_empty());
    let p = check_pipeline(vec![stage("ls", shell_tool("/m/ls"), &[])], false).unwrap();
    assert_eq!(p.plumbing(), plan_plumbing(2));
}

#[test]
fn command_ends_and_invocations() {
    let parser = Parser::new();
    let cmd = parser.parse_command("cat <in.txt | sort >>out.txt").unwrap();
    assert!(matches!(input_source(&cmd), InputSource::File(f) if f == "in.txt"));
    assert!(matches!(output_sink(&cmd), OutputSink::Append(f) if f == "out.txt"));
    let (name, a) = eval_invocation(&cmd.pipeline[1]);
    assert_eq!(name, "sort");
    assert!(a.is_empty());

    let cmd = parser.parse_command("ls -l 'a b' > out.bin").unwrap();
    assert!(matches!(input_source(&cmd), InputSource::Inherit));
    assert!(matches!(output_sink(&cmd), OutputSink::Truncate(f) if f == "out.bin"));
    let (name, a) = eval_invocation(&cmd.pipeline[0]);
    assert_eq!(name, "ls");
    assert_eq!(a, args(&["-l", "a b"]));

    let cmd = parser.parse_command("pwd").unwrap();
    assert!(matches!(output_sink(&cmd), OutputSink::Inherit));
}

#[test]
fn to_conversions() {
    assert_eq!(To::conversion(Ty::Tty), Conversion::Render);
    assert_eq!(To::conversion(Ty::Cbor), Conversion::PassThrough);
    assert_eq!(To::conversion(Ty::Text), Conversion::Unsupported);
}

#[test]
fn literal_terms_evaluate_to_themselves() {
    let t = monch::ast::Term::Literal { value: "a b".to_string() };
    assert_eq!(monch::engine::eval_term(&t).unwrap(), "a b");
}

#[test]
fn exit_from_process_status() {
    assert_eq!(Exit::from_status(Some(3), None), Exit::Code(3));
    assert_eq!(Exit::from_status(Some(-1), Some(9)), Exit::Code(u32::MAX));
    assert_eq!(Exit::from_status(None, Some(9)), Exit::Signal(9));
    assert_eq!(Exit::Code(4294967295).to_text(), "4294967295");
    assert_eq!(Exit::Code(10).to_text(), "10");
}

#[test]
fn type_names_trim_unicode_white_space() {
    assert_eq!(Ty::parse("\u{3000}tty\u{a0}\u{85}"), Some(Ty::Tty));
    assert_eq!(Ty::parse("\u{200b}tty"), None);
    assert_eq!(Ty::parse(" \t\n "), None);
}
