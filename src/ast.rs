//! The syntax tree of a command line.
use vstd::prelude::*;

verus! {

/// Something that evaluates to a string.
#[derive(Debug)]
pub enum Term {
    /// A literal word.
    Literal { value: String },
}

/// One stage of a pipeline as written: a program and its arguments.
#[derive(Debug)]
pub struct Invocation {
    /// The name of the program to run.
    pub executable: Term,
    /// The arguments handed to it.
    pub arguments: Vec<Term>,
}

/// Where the first stage reads from, when not from the shell's input.
#[derive(Debug)]
pub enum ReadRedirect {
    /// Read the contents of a file.
    File { file: Term },
}

/// Where the last stage writes to, when not to the shell's output.
#[derive(Debug)]
pub enum WriteRedirect {
    /// Truncate or create the file, and write into it.
    TruncateFile { file: Term },
    /// Append to the file, creating it if need be.
    AppendFile { file: Term },
}

/// A complete command line: a pipeline and its redirections.
#[derive(Debug)]
pub struct Command {
    /// The stages from left to right; each one's output feeds the next one's input.
    pub pipeline: Vec<Invocation>,
    /// The first stage's input redirection, if any.
    pub stdin_redirect: Option<ReadRedirect>,
    /// The last stage's output redirection, if any.
    pub stdout_redirect: Option<WriteRedirect>,
}

/// A script: a list of commands.
#[derive(Debug)]
pub struct Script {
    /// The commands, in order.
    pub commands: Vec<Command>,
}

/// An invocation's words, for contracts.
pub struct InvocationView {
    pub executable: Seq<char>,
    pub arguments: Seq<Seq<char>>,
}

/// An output redirection, for contracts.
pub enum WriteRedirectView {
    TruncateFile(Seq<char>),
    AppendFile(Seq<char>),
}

/// A command's content, for contracts.
pub struct CommandView {
    pub pipeline: Seq<InvocationView>,
    pub stdin_redirect: Option<Seq<char>>,
    pub stdout_redirect: Option<WriteRedirectView>,
}

impl View for Term {
    type V = Seq<char>;

    open spec fn view(&self) -> Seq<char> {
        match self {
            Term::Literal { value } => value@,
        }
    }
}

/// The words of a list of terms.
pub open spec fn terms_view(ts: Seq<Term>) -> Seq<Seq<char>> {
    ts.map_values(|t: Term| t@)
}

impl View for Invocation {
    type V = InvocationView;

    open spec fn view(&self) -> InvocationView {
        InvocationView { executable: self.executable@, arguments: terms_view(self.arguments@) }
    }
}

impl View for ReadRedirect {
    type V = Seq<char>;

    open spec fn view(&self) -> Seq<char> {
        match self {
            ReadRedirect::File { file } => file@,
        }
    }
}

impl View for WriteRedirect {
    type V = WriteRedirectView;

    open spec fn view(&self) -> WriteRedirectView {
        match self {
            WriteRedirect::TruncateFile { file } => WriteRedirectView::TruncateFile(file@),
            WriteRedirect::AppendFile { file } => WriteRedirectView::AppendFile(file@),
        }
    }
}

impl View for Command {
    type V = CommandView;

    open spec fn view(&self) -> CommandView {
        CommandView {
            pipeline: self.pipeline@.map_values(|i: Invocation| i@),
            stdin_redirect: match self.stdin_redirect {
                Some(r) => Some(r@),
                None => None,
            },
            stdout_redirect: match self.stdout_redirect {
                Some(w) => Some(w@),
                None => None,
            },
        }
    }
}

impl View for Script {
    type V = Seq<CommandView>;

    open spec fn view(&self) -> Seq<CommandView> {
        self.commands@.map_values(|c: Command| c@)
    }
}

} // verus!
