use monch::ast::{ReadRedirect, Term, WriteRedirect};
use monch::parser::Parser;

fn lit(t: &Term) -> &str {
    match t {
        Term::Literal { value } => value,
    }
}

#[test]
fn pipeline_with_redirections() {
    let cmd = Parser::new()
        .parse_command("cat <input.txt | get .name | grep \"foo bar\" >out.txt")
        .unwrap();
    assert_eq!(cmd.pipeline.len(), 3);
    assert_eq!(lit(&cmd.pipeline[0].executable), "cat");
    assert!(cmd.pipeline[0].arguments.is_empty());
    assert_eq!(lit(&cmd.pipeline[1].executable), "get");
    assert_eq!(lit(&cmd.pipeline[1].arguments[0]), ".name");
    assert_eq!(lit(&cmd.pipeline[2].arguments[0]), "foo bar");
    match &cmd.stdin_redirect {
        Some(ReadRedirect::File { file }) => assert_eq!(lit(file), "input.txt"),
        None => panic!("expected an input redirection"),
    }
    match &cmd.stdout_redirect {
        Some(WriteRedirect::TruncateFile { file }) => assert_eq!(lit(file), "out.txt"),
        _ => panic!("expected a truncating redirection"),
    }
}

#[test]
fn quotes_are_stripped_without_escapes() {
    let cmd = Parser::new().parse_command("echo 'a \"b\"' \"c\\n\"  x>>'log file'").unwrap();
    let args: Vec<&str> = cmd.pipeline[0].arguments.iter().map(lit).collect();
    assert_eq!(args, vec!["a \"b\"", "c\\n", "x"]);
    match &cmd.stdout_redirect {
        Some(WriteRedirect::AppendFile { file }) => assert_eq!(lit(file), "log file"),
        _ => panic!("expected an appending redirection"),
    }
}

#[test]
fn malformed_command_lines() {
    let p = Parser::new();
    assert!(p.parse_command("").is_err());
    assert!(p.parse_command("   ").is_err());
    assert!(p.parse_command("ls |").is_err());
    assert!(p.parse_command("| ls").is_err());
    assert!(p.parse_command("echo 'open").is_err());
    assert!(p.parse_command("ls >").is_err());
    assert!(p.parse_command("ls > a > b").is_err());
    assert!(p.parse_command("cat <a <b").is_err());
    assert!(p.parse_command("ls > out | cat").is_err());
    assert!(p.parse_command("ls | cat <in").is_err());
    assert!(p.parse_command("ls\nls").is_err());
    let e = p.parse_command("ls | cat <in").unwrap_err();
    assert_eq!(
        e.message,
        "cannot redirect input unless it's from the first command in a pipeline"
    );
}

#[test]
fn script_lines() {
    let script = Parser::new()
        .parse_script("cd /\n\n  pwd\nls | get .name > names.bin\n")
        .unwrap();
    assert_eq!(script.commands.len(), 3);
    assert_eq!(lit(&script.commands[0].pipeline[0].executable), "cd");
    assert_eq!(lit(&script.commands[0].pipeline[0].arguments[0]), "/");
    assert_eq!(lit(&script.commands[1].pipeline[0].executable), "pwd");
    assert_eq!(script.commands[2].pipeline.len(), 2);
    assert!(Parser::new().parse_script("").unwrap().commands.is_empty());
    assert!(Parser::new().parse_script("ls\nls |\n").is_err());
}
