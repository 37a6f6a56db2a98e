//! What a command name resolves to, and the pipe types each runnable declares.
use crate::error::{Error, ErrorView};
use crate::exit::Exit;
use crate::types::{str_eq, Ty};
use vstd::prelude::*;

verus! {

/// The evaluated arguments of a stage.
pub type Args = Vec<String>;

/// The characters of each argument.
pub open spec fn args_view(args: Seq<String>) -> Seq<Seq<char>> {
    args.map_values(|a: String| a@)
}

/// The builtin that changes the interpreter's working directory.
pub struct Cd;

/// The builtin that converts a record stream into another pipe type.
pub struct To;

impl Cd {
    /// `cd` reads nothing.
    pub fn input_type(&self, args: &Args) -> (r: Ty)
        ensures
            r == Ty::Nothing,
    {
        Ty::Nothing
    }

    /// `cd` writes nothing.
    pub fn output_type(&self, args: &Args) -> (r: Ty)
        ensures
            r == Ty::Nothing,
    {
        Ty::Nothing
    }

    /// The directory that `cd` was asked to enter: its one argument. With
    /// any other number of arguments, the diagnostic to show instead.
    pub fn target(args: &Args) -> (r: Result<&String, String>)
        ensures
            args@.len() == 1 ==> r == Ok::<&String, String>(&args@[0]),
            args@.len() != 1 ==> r is Err && r->Err_0@ == "monch: cd: too many arguments"@,
    {
        if args.len() == 1 {
            Ok(&args[0])
        } else {
            let mut m = String::new();
            m.append("monch: cd: too many arguments");
            Err(m)
        }
    }
}

impl To {
    /// The target type named by the arguments of `to`: exactly one argument,
    /// naming `cbor`, `text` or `tty`.
    pub open spec fn spec_target(args: Seq<Seq<char>>) -> Option<Ty> {
        if args.len() == 1 {
            Ty::spec_parse(args[0])
        } else {
            None
        }
    }

    /// Reads the arguments of a `to` invocation: the type to convert to, or
    /// a diagnostic.
    pub fn parse_args(args: &Args) -> (r: Result<Ty, String>)
        ensures
            r is Ok <==> To::spec_target(args_view(args@)) is Some,
            r is Ok ==> r->Ok_0 == To::spec_target(args_view(args@))->0,
            args@.len() != 1 ==> r is Err && r->Err_0@ == "to: expected one argument only"@,
            args@.len() == 1 && r is Err ==> r->Err_0@ == "to: '"@ + args@[0]@
                + "' is not a valid type name"@,
    {
        if args.len() != 1 {
            let mut m = String::new();
            m.append("to: expected one argument only");
            return Err(m);
        }
        match Ty::parse(args[0].as_str()) {
            Some(ty) => Ok(ty),
            None => {
                let mut m = String::new();
                m.append("to: '");
                m.append(args[0].as_str());
                m.append("' is not a valid type name");
                Err(m)
            },
        }
    }

    /// How `to` converts its input for a target type: records are rendered
    /// as text for a terminal, passed through unchanged for `cbor`, and any
    /// other target is an error at run time.
    pub fn conversion(target: Ty) -> (r: Conversion)
        ensures
            r == (match target {
                Ty::Tty => Conversion::Render,
                Ty::Cbor => Conversion::PassThrough,
                _ => Conversion::Unsupported,
            }),
    {
        match target {
            Ty::Tty => Conversion::Render,
            Ty::Cbor => Conversion::PassThrough,
            _ => Conversion::Unsupported,
        }
    }

    /// `to` reads a record stream.
    pub fn input_type(&self, args: &Args) -> (r: Ty)
        ensures
            r == Ty::Cbor,
    {
        Ty::Cbor
    }

    /// `to` writes the type its argument names, or nothing when the
    /// arguments name no type.
    pub fn output_type(&self, args: &Args) -> (r: Ty)
        ensures
            r == (match To::spec_target(args_view(args@)) {
                Some(t) => t,
                None => Ty::Nothing,
            }),
    {
        match To::parse_args(args) {
            Ok(t) => t,
            Err(_) => Ty::Nothing,
        }
    }
}

/// What `to` does with its input.
#[derive(Clone, Copy, Debug, PartialEq, Eq, Structural)]
pub enum Conversion {
    /// Render each record as human-readable text.
    Render,
    /// Copy the bytes through unchanged.
    PassThrough,
    /// Fail: the target cannot be produced.
    Unsupported,
}

/// A program outside the shell, run as a child process.
pub struct ExternalExecutable {
    binary: String,
    input_type: Ty,
    output_type: Ty,
}

impl ExternalExecutable {
    /// The path of the program to run.
    pub closed spec fn spec_binary(&self) -> Seq<char> {
        self.binary@
    }

    /// The declared input type.
    pub closed spec fn spec_input_type(&self) -> Ty {
        self.input_type
    }

    /// The declared output type.
    pub closed spec fn spec_output_type(&self) -> Ty {
        self.output_type
    }

    /// A program at `path` that accepts anything and whose output is not known.
    pub fn new(path: String) -> (r: ExternalExecutable)
        ensures
            r.spec_binary() == path@,
            r.spec_input_type() == Ty::Any,
            r.spec_output_type() == Ty::Unknown,
    {
        ExternalExecutable { binary: path, input_type: Ty::Any, output_type: Ty::Unknown }
    }

    /// Declares the type of what the program writes.
    pub fn set_output_type(&mut self, ty: Ty)
        ensures
            final(self).spec_binary() == old(self).spec_binary(),
            final(self).spec_input_type() == old(self).spec_input_type(),
            final(self).spec_output_type() == ty,
    {
        self.output_type = ty;
    }

    /// Declares the type of what the program reads.
    pub fn set_input_type(&mut self, ty: Ty)
        ensures
            final(self).spec_binary() == old(self).spec_binary(),
            final(self).spec_output_type() == old(self).spec_output_type(),
            final(self).spec_input_type() == ty,
    {
        self.input_type = ty;
    }

    /// The path of the program to run.
    pub fn binary(&self) -> (r: &String)
        ensures
            r@ == self.spec_binary(),
    {
        &self.binary
    }

    /// The declared input type, whatever the arguments.
    pub fn input_type(&self, args: &Args) -> (r: Ty)
        ensures
            r == self.spec_input_type(),
    {
        self.input_type
    }

    /// The declared output type, whatever the arguments.
    pub fn output_type(&self, args: &Args) -> (r: Ty)
        ensures
            r == self.spec_output_type(),
    {
        self.output_type
    }
}

/// A stage's exit status known without running anything.
pub struct ImmediateProc(pub Exit);

impl ImmediateProc {
    /// The status it holds.
    pub fn wait(self) -> (r: Exit)
        ensures
            r == self.0,
    {
        self.0
    }
}

/// Something a stage can run: a builtin or an outside program.
pub enum Executable {
    Cd(Cd),
    To(To),
    External(ExternalExecutable),
}

/// What an [`Executable`] is, for contracts.
pub enum ExeView {
    Cd,
    To,
    External { binary: Seq<char>, input: Ty, output: Ty },
}

impl View for Executable {
    type V = ExeView;

    open spec fn view(&self) -> ExeView {
        match self {
            Executable::Cd(_) => ExeView::Cd,
            Executable::To(_) => ExeView::To,
            Executable::External(e) => ExeView::External {
                binary: e.spec_binary(),
                input: e.spec_input_type(),
                output: e.spec_output_type(),
            },
        }
    }
}

impl ExeView {
    /// The declared input type for these arguments.
    pub open spec fn input_type(self, args: Seq<Seq<char>>) -> Ty {
        match self {
            ExeView::Cd => Ty::Nothing,
            ExeView::To => Ty::Cbor,
            ExeView::External { input, .. } => input,
        }
    }

    /// The declared output type for these arguments.
    pub open spec fn output_type(self, args: Seq<Seq<char>>) -> Ty {
        match self {
            ExeView::Cd => Ty::Nothing,
            ExeView::To => match To::spec_target(args) {
                Some(t) => t,
                None => Ty::Nothing,
            },
            ExeView::External { output, .. } => output,
        }
    }
}

impl Executable {
    /// The declared input type for these arguments.
    pub fn input_type(&self, args: &Args) -> (r: Ty)
        ensures
            r == self@.input_type(args_view(args@)),
    {
        match self {
            Executable::Cd(c) => c.input_type(args),
            Executable::To(t) => t.input_type(args),
            Executable::External(e) => e.input_type(args),
        }
    }

    /// The declared output type for these arguments.
    pub fn output_type(&self, args: &Args) -> (r: Ty)
        ensures
            r == self@.output_type(args_view(args@)),
    {
        match self {
            Executable::Cd(c) => c.output_type(args),
            Executable::To(t) => t.output_type(args),
            Executable::External(e) => e.output_type(args),
        }
    }
}

/// The builtin of a name, if there is one; names are case-sensitive.
pub open spec fn spec_builtin(name: Seq<char>) -> Option<ExeView> {
    if name == "cd"@ {
        Some(ExeView::Cd)
    } else if name == "to"@ {
        Some(ExeView::To)
    } else {
        None
    }
}

/// Looks a name up in the builtin registry.
pub fn builtin(name: &str) -> (r: Option<Executable>)
    ensures
        r is Some <==> spec_builtin(name@) is Some,
        r is Some ==> r->0@ == spec_builtin(name@)->0,
{
    if str_eq(name, "cd") {
        Some(Executable::Cd(Cd))
    } else if str_eq(name, "to") {
        Some(Executable::To(To))
    } else {
        None
    }
}

/// The outcome of searching a list of directories for a program.
pub enum Lookup {
    /// The program was found at this path.
    Found(String),
    /// No directory holds a program of that name.
    NotFound,
    /// The search itself failed, with this diagnostic.
    Failed(String),
}

/// The next thing resolution needs, or its result.
pub enum ResolveStep {
    /// Search the shell's own search path for the name.
    SearchShellPath,
    /// Search the system's search path for the name.
    SearchSystemPath,
    /// Resolution is over.
    Done(Result<Executable, Error>),
}

/// The diagnostic for a name that no search path holds.
pub open spec fn not_found_message() -> Seq<char> {
    "cannot find binary path"@
}

/// The resolution rules, given what the searches done so far returned:
/// builtins first, then the shell's search path, whose programs read and
/// write records, then the system's search path, whose programs read
/// anything and write what the shell does not know. A failed search is an
/// error; a name found nowhere is an error.
pub open spec fn spec_resolve_step(
    name: Seq<char>,
    shell: Option<Lookup>,
    system: Option<Lookup>,
) -> Option<Result<ExeView, ErrorView>> {
    if spec_builtin(name) is Some {
        Some(Ok(spec_builtin(name)->0))
    } else {
        match shell {
            None => None,
            Some(Lookup::Found(p)) => Some(
                Ok(ExeView::External { binary: p@, input: Ty::Cbor, output: Ty::Cbor }),
            ),
            Some(Lookup::Failed(m)) => Some(Err(ErrorView::ResolveBinary { cmd: name, message: m@ })),
            Some(Lookup::NotFound) => match system {
                None => None,
                Some(Lookup::Found(p)) => Some(
                    Ok(ExeView::External { binary: p@, input: Ty::Any, output: Ty::Unknown }),
                ),
                Some(Lookup::Failed(m)) => Some(
                    Err(ErrorView::ResolveBinary { cmd: name, message: m@ }),
                ),
                Some(Lookup::NotFound) => Some(
                    Err(ErrorView::ResolveBinary { cmd: name, message: not_found_message() }),
                ),
            },
        }
    }
}

/// One step of resolving a command name: either the search to run next, or
/// the result. `shell` and `system` hold the searches already run.
pub fn resolve_step(name: &str, shell: &Option<Lookup>, system: &Option<Lookup>) -> (r:
    ResolveStep)
    ensures
        spec_resolve_step(name@, *shell, *system) is None ==> (if spec_builtin(name@) is None
            && shell is None {
            r is SearchShellPath
        } else {
            r is SearchSystemPath
        }),
        spec_resolve_step(name@, *shell, *system) is Some ==> (r matches ResolveStep::Done(res)
            && match spec_resolve_step(name@, *shell, *system)->0 {
            Ok(e) => res is Ok && res->Ok_0@ == e,
            Err(e) => res is Err && res->Err_0@ == e,
        }),
{
    if let Some(b) = builtin(name) {
        return ResolveStep::Done(Ok(b));
    }
    match shell {
        None => ResolveStep::SearchShellPath,
        Some(Lookup::Found(p)) => {
            let mut e = ExternalExecutable::new(p.clone());
            e.set_input_type(Ty::Cbor);
            e.set_output_type(Ty::Cbor);
            ResolveStep::Done(Ok(Executable::External(e)))
        },
        Some(Lookup::Failed(m)) => ResolveStep::Done(
            Err(Error::ResolveBinary { cmd: name.to_owned(), message: m.clone() }),
        ),
        Some(Lookup::NotFound) => match system {
            None => ResolveStep::SearchSystemPath,
            Some(Lookup::Found(p)) => {
                let e = ExternalExecutable::new(p.clone());
                ResolveStep::Done(Ok(Executable::External(e)))
            },
            Some(Lookup::Failed(m)) => ResolveStep::Done(
                Err(Error::ResolveBinary { cmd: name.to_owned(), message: m.clone() }),
            ),
            Some(Lookup::NotFound) => {
                let mut m = String::new();
                m.append("cannot find binary path");
                ResolveStep::Done(Err(Error::ResolveBinary { cmd: name.to_owned(), message: m }))
            },
        },
    }
}

} // verus!
