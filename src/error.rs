//! Errors that stop a pipeline before or while it is launched.
use crate::exit::Exit;
use crate::types::Ty;
use vstd::prelude::*;

verus! {

/// Why the shell could not run a command line.
#[derive(Debug)]
pub enum Error {
    /// An operating-system operation failed.
    Io(String),
    /// A child process could not be started or waited for.
    ExecutionFailed(String),
    /// The command name could not be resolved to something runnable.
    ResolveBinary { cmd: String, message: String },
    /// A new working directory was not a real directory.
    BadWorkingDirectory(String),
    /// Two adjacent stages do not agree on the data between them.
    TypeMismatch { l_cmd: String, l_ty: Ty, r_cmd: String, r_ty: Ty },
}

/// The content of an [`Error`], for contracts.
pub enum ErrorView {
    Io(Seq<char>),
    ExecutionFailed(Seq<char>),
    ResolveBinary { cmd: Seq<char>, message: Seq<char> },
    BadWorkingDirectory(Seq<char>),
    TypeMismatch { l_cmd: Seq<char>, l_ty: Ty, r_cmd: Seq<char>, r_ty: Ty },
}

impl View for Error {
    type V = ErrorView;

    open spec fn view(&self) -> ErrorView {
        match self {
            Error::Io(m) => ErrorView::Io(m@),
            Error::ExecutionFailed(m) => ErrorView::ExecutionFailed(m@),
            Error::ResolveBinary { cmd, message } => ErrorView::ResolveBinary {
                cmd: cmd@,
                message: message@,
            },
            Error::BadWorkingDirectory(d) => ErrorView::BadWorkingDirectory(d@),
            Error::TypeMismatch { l_cmd, l_ty, r_cmd, r_ty } => ErrorView::TypeMismatch {
                l_cmd: l_cmd@,
                l_ty: *l_ty,
                r_cmd: r_cmd@,
                r_ty: *r_ty,
            },
        }
    }
}

impl ErrorView {
    /// The exit status that stands for this error: I/O and working-directory
    /// errors fail with 1, type mismatches are bad syntax (2), spawn failures
    /// 126 and unresolved commands 127.
    pub open spec fn exit(self) -> Exit {
        match self {
            ErrorView::Io(_) => Exit::Code(1),
            ErrorView::ExecutionFailed(_) => Exit::Code(126),
            ErrorView::ResolveBinary { .. } => Exit::Code(127),
            ErrorView::BadWorkingDirectory(_) => Exit::Code(1),
            ErrorView::TypeMismatch { .. } => Exit::Code(2),
        }
    }

    /// The diagnostic shown to users.
    pub open spec fn message(self) -> Seq<char> {
        match self {
            ErrorView::Io(m) => m,
            ErrorView::ExecutionFailed(m) => "execution of child process failed: "@ + m,
            ErrorView::ResolveBinary { cmd, message } => cmd + ": command not found: "@ + message,
            ErrorView::BadWorkingDirectory(d) => "invalid working directory '"@ + d + "'"@,
            ErrorView::TypeMismatch { l_cmd, l_ty, r_cmd, r_ty } => "cannot pipe "@ + l_cmd
                + " ("@ + l_ty.spec_name() + ") into "@ + r_cmd + " ("@ + r_ty.spec_name()
                + ")"@,
        }
    }
}

impl Error {
    /// The exit status that stands for this error.
    pub fn as_exit(&self) -> (r: Exit)
        ensures
            r == self@.exit(),
    {
        match self {
            Error::Io(_) => Exit::Code(1),
            Error::ExecutionFailed(_) => Exit::Code(126),
            Error::ResolveBinary { .. } => Exit::Code(127),
            Error::BadWorkingDirectory(_) => Exit::Code(1),
            Error::TypeMismatch { .. } => Exit::Code(2),
        }
    }

    /// The diagnostic shown to users.
    pub fn message(&self) -> (r: String)
        ensures
            r@ == self@.message(),
    {
        let mut t = String::new();
        match self {
            Error::Io(m) => {
                t.append(m.as_str());
            },
            Error::ExecutionFailed(m) => {
                t.append("execution of child process failed: ");
                t.append(m.as_str());
            },
            Error::ResolveBinary { cmd, message } => {
                t.append(cmd.as_str());
                t.append(": command not found: ");
                t.append(message.as_str());
            },
            Error::BadWorkingDirectory(d) => {
                t.append("invalid working directory '");
                t.append(d.as_str());
                t.append("'");
            },
            Error::TypeMismatch { l_cmd, l_ty, r_cmd, r_ty } => {
                t.append("cannot pipe ");
                t.append(l_cmd.as_str());
                t.append(" (");
                t.append(l_ty.name());
                t.append(") into ");
                t.append(r_cmd.as_str());
                t.append(" (");
                t.append(r_ty.name());
                t.append(")");
            },
        }
        assert(t@ == self@.message());
        t
    }
}

} // verus!
