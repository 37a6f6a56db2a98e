//! The pipeline engine's decisions: evaluating invocations into stages,
//! appending the terminal formatter, checking pipe types, and planning which
//! stream each stage receives. Launching and waiting are left to the caller,
//! which may only plan plumbing for a pipeline that passed the type check.
use crate::ast::{Command, Invocation, ReadRedirect, Term, WriteRedirect, terms_view};
use crate::error::{Error, ErrorView};
use crate::exe::{args_view, Args, ExeView, Executable, To};
use crate::types::{can_connect, connects, Ty};
use vstd::prelude::*;

verus! {

/// The string a term stands for.
fn term_value(term: &Term) -> (r: String)
    ensures
        r@ == term@,
{
    match term {
        Term::Literal { value } => value.clone(),
    }
}

/// Evaluates a term to its string value; a literal always evaluates.
pub fn eval_term(term: &Term) -> (r: Result<String, Error>)
    ensures
        r is Ok,
        r->Ok_0@ == term@,
{
    Ok(term_value(term))
}

/// Evaluates an invocation's program name and arguments.
pub fn eval_invocation(inv: &Invocation) -> (r: (String, Args))
    ensures
        r.0@ == inv@.executable,
        args_view(r.1@) == inv@.arguments,
{
    let command = term_value(&inv.executable);
    let mut args: Args = Vec::new();
    let mut i: usize = 0;
    while i < inv.arguments.len()
        invariant
            i <= inv.arguments@.len(),
            args_view(args@) == terms_view(inv.arguments@).subrange(0, i as int),
        decreases inv.arguments.len() - i,
    {
        let a = term_value(&inv.arguments[i]);
        let ghost before = args@;
        args.push(a);
        assert(args_view(args@) == args_view(before).push(a@));
        assert(terms_view(inv.arguments@).subrange(0, i + 1) == terms_view(
            inv.arguments@,
        ).subrange(0, i as int).push(inv.arguments@[i as int]@));
        i = i + 1;
    }
    assert(terms_view(inv.arguments@).subrange(0, i as int) == terms_view(inv.arguments@));
    (command, args)
}

/// A stage of a pipeline before it runs.
pub struct Stage {
    /// The name the stage was invoked by.
    pub command: String,
    /// What the stage runs.
    pub exe: Executable,
    /// The evaluated arguments.
    pub args: Args,
}

/// A stage's content, for contracts.
pub struct StageView {
    pub command: Seq<char>,
    pub exe: ExeView,
    pub args: Seq<Seq<char>>,
}

impl View for Stage {
    type V = StageView;

    open spec fn view(&self) -> StageView {
        StageView { command: self.command@, exe: self.exe@, args: args_view(self.args@) }
    }
}

impl StageView {
    /// The type the stage declares on stdin.
    pub open spec fn input_type(self) -> Ty {
        self.exe.input_type(self.args)
    }

    /// The type the stage declares on stdout.
    pub open spec fn output_type(self) -> Ty {
        self.exe.output_type(self.args)
    }
}

/// The stages' contents.
pub open spec fn stages_view(s: Seq<Stage>) -> Seq<StageView> {
    s.map_values(|st: Stage| st@)
}

/// Whether stage `i`'s output may feed stage `i + 1`'s input.
pub open spec fn pair_connects(s: Seq<StageView>, i: int) -> bool {
    connects(s[i].output_type(), s[i + 1].input_type())
}

/// Whether every adjacent pair of stages connects.
pub open spec fn all_connect(s: Seq<StageView>) -> bool {
    forall|i: int| 0 <= i < s.len() - 1 ==> #[trigger] pair_connects(s, i)
}

/// The formatter stage `to tty`.
pub open spec fn to_tty_stage() -> StageView {
    StageView { command: "to"@, exe: ExeView::To, args: seq!["tty"@] }
}

/// Whether a formatter must be appended: the last stage declares a record
/// stream on stdout and stdout is not redirected.
pub open spec fn needs_formatter(s: Seq<StageView>, stdout_redirected: bool) -> bool {
    s.len() > 0 && s.last().output_type() == Ty::Cbor && !stdout_redirected
}

/// The stages that actually run: those given, plus `to tty` at the end when
/// a formatter is needed.
pub open spec fn realize(s: Seq<StageView>, stdout_redirected: bool) -> Seq<StageView> {
    if needs_formatter(s, stdout_redirected) {
        s.push(to_tty_stage())
    } else {
        s
    }
}

/// The realized pipeline gains one trailing stage, `to tty`, exactly when
/// the last stage declares a record stream on stdout and stdout is not
/// redirected; otherwise it is the pipeline as given.
pub proof fn lemma_formatter_rule(s: Seq<StageView>, stdout_redirected: bool)
    ensures
        (s.len() > 0 && s.last().output_type() == Ty::Cbor && !stdout_redirected) ==> {
            let r = realize(s, stdout_redirected);
            &&& r.len() == s.len() + 1
            &&& r.subrange(0, s.len() as int) == s
            &&& r.last().command == "to"@
            &&& r.last().exe == ExeView::To
            &&& r.last().args == seq!["tty"@]
        },
        !(s.len() > 0 && s.last().output_type() == Ty::Cbor && !stdout_redirected) ==> realize(
            s,
            stdout_redirected,
        ) == s,
{
    if needs_formatter(s, stdout_redirected) {
        assert(realize(s, stdout_redirected).subrange(0, s.len() as int) =~= s);
    }
}

/// The error for stages `i` and `i + 1` not connecting.
pub open spec fn mismatch(s: Seq<StageView>, i: int) -> ErrorView {
    ErrorView::TypeMismatch {
        l_cmd: s[i].command,
        l_ty: s[i].output_type(),
        r_cmd: s[i + 1].command,
        r_ty: s[i + 1].input_type(),
    }
}

/// A pipeline whose adjacent stages all connect: only such a pipeline can
/// have its plumbing planned.
pub struct CheckedPipeline {
    stages: Vec<Stage>,
}

impl CheckedPipeline {
    #[verifier::type_invariant]
    spec fn type_inv(self) -> bool {
        all_connect(stages_view(self.stages@))
    }

    /// The stages, in order.
    pub closed spec fn spec_stages(&self) -> Seq<StageView> {
        stages_view(self.stages@)
    }

    /// The stages, in order.
    pub fn stages(&self) -> (r: &Vec<Stage>)
        ensures
            stages_view(r@) == self.spec_stages(),
    {
        &self.stages
    }

    /// The number of stages.
    pub fn len(&self) -> (r: usize)
        ensures
            r == self.spec_stages().len(),
    {
        self.stages.len()
    }

    /// Every value of this type has all its adjacent stages connecting.
    pub fn stages_connect(&self)
        ensures
            all_connect(self.spec_stages()),
    {
        proof {
            use_type_invariant(self);
        }
    }

    /// Plans the plumbing: the first stage reads the command's input, the
    /// last writes the command's output, and between stages `k` and `k + 1`
    /// runs pipe `k`, whose write half goes to stage `k` and read half to
    /// stage `k + 1`.
    pub fn plumbing(&self) -> (r: Vec<StagePlumbing>)
        ensures
            r@ == plan(self.spec_stages().len() as nat),
    {
        plan_plumbing(self.stages.len())
    }
}

/// Adds the formatter if needed, then checks every adjacent pair of stages.
/// On success the pipeline holds the realized stages; otherwise the error
/// names the first pair that does not connect.
pub fn check_pipeline(stages: Vec<Stage>, stdout_redirected: bool) -> (r: Result<
    CheckedPipeline,
    Error,
>)
    ensures
        ({
            let s = realize(stages_view(stages@), stdout_redirected);
            &&& r is Ok <==> all_connect(s)
            &&& r is Ok ==> r->Ok_0.spec_stages() == s
            &&& r is Err ==> exists|i: int|
                0 <= i < s.len() - 1 && !pair_connects(s, i) && (forall|j: int|
                    0 <= j < i ==> pair_connects(s, j)) && r->Err_0@ == mismatch(s, i)
        }),
{
    let ghost s0 = stages_view(stages@);
    let mut stages = stages;
    let n = stages.len();
    if n > 0 {
        let last_out = stages[n - 1].exe.output_type(&stages[n - 1].args);
        if last_out == Ty::Cbor && !stdout_redirected {
            let tty = Stage {
                command: "to".to_owned(),
                exe: Executable::To(To),
                args: vec!["tty".to_owned()],
            };
            assert(args_view(tty.args@) =~= seq!["tty"@]);
            stages.push(tty);
            assert(stages_view(stages@) =~= s0.push(to_tty_stage()));
        }
    }
    assert(stages_view(stages@) == realize(s0, stdout_redirected));
    match check_pairs(&stages) {
        Ok(()) => Ok(CheckedPipeline { stages }),
        Err(e) => Err(e),
    }
}

/// Checks every adjacent pair of stages, failing on the first pair that
/// does not connect.
fn check_pairs(stages: &Vec<Stage>) -> (r: Result<(), Error>)
    ensures
        ({
            let s = stages_view(stages@);
            &&& r is Ok <==> all_connect(s)
            &&& r is Err ==> exists|i: int|
                0 <= i < s.len() - 1 && !pair_connects(s, i) && (forall|j: int|
                    0 <= j < i ==> pair_connects(s, j)) && r->Err_0@ == mismatch(s, i)
        }),
{
    let ghost s = stages_view(stages@);
    let mut i: usize = 0;
    while i < stages.len() && i + 1 < stages.len()
        invariant
            s == stages_view(stages@),
            i <= stages@.len(),
            forall|j: int| 0 <= j < i ==> pair_connects(s, j),
        decreases stages.len() - i,
    {
        let l_out = stages[i].exe.output_type(&stages[i].args);
        let r_in = stages[i + 1].exe.input_type(&stages[i + 1].args);
        if !can_connect(l_out, r_in) {
            let e = Error::TypeMismatch {
                l_cmd: stages[i].command.clone(),
                l_ty: l_out,
                r_cmd: stages[i + 1].command.clone(),
                r_ty: r_in,
            };
            assert(e@ == mismatch(s, i as int));
            assert(!pair_connects(s, i as int));
            assert(!all_connect(s));
            assert(exists|k: int|
                0 <= k < s.len() - 1 && !pair_connects(s, k) && (forall|j: int|
                    0 <= j < k ==> pair_connects(s, j)) && e@ == mismatch(s, k)) by {
                assert(0 <= i < s.len() - 1);
            }
            return Err(e);
        }
        i = i + 1;
    }
    Ok(())
}

/// Where a stage's stdin comes from.
#[derive(Clone, Copy, Debug, PartialEq, Eq, Structural)]
pub enum InputSlot {
    /// The command's input: its redirection, or the shell's own stdin.
    CommandInput,
    /// The read half of this pipe.
    PipeRead(usize),
}

/// Where a stage's stdout goes.
#[derive(Clone, Copy, Debug, PartialEq, Eq, Structural)]
pub enum OutputSlot {
    /// The command's output: its redirection, or the shell's own stdout.
    CommandOutput,
    /// The write half of this pipe.
    PipeWrite(usize),
}

/// The streams planned for one stage; every stage's stderr is the shell's.
#[derive(Clone, Copy, Debug, PartialEq, Eq, Structural)]
pub struct StagePlumbing {
    pub stdin: InputSlot,
    pub stdout: OutputSlot,
}

/// The plumbing of stage `i` among `n`.
pub open spec fn stage_plan(n: nat, i: nat) -> StagePlumbing {
    StagePlumbing {
        stdin: if i == 0 {
            InputSlot::CommandInput
        } else {
            InputSlot::PipeRead((i - 1) as usize)
        },
        stdout: if i + 1 == n {
            OutputSlot::CommandOutput
        } else {
            OutputSlot::PipeWrite(i as usize)
        },
    }
}

/// The plumbing of a pipeline of `n` stages.
pub open spec fn plan(n: nat) -> Seq<StagePlumbing> {
    Seq::new(n, |i: int| stage_plan(n, i as nat))
}

/// Plans the plumbing of `n` stages joined by `n - 1` pipes.
pub fn plan_plumbing(n: usize) -> (r: Vec<StagePlumbing>)
    ensures
        r@ == plan(n as nat),
{
    let mut r: Vec<StagePlumbing> = Vec::new();
    let mut i: usize = 0;
    while i < n
        invariant
            i <= n,
            r@ == plan(n as nat).subrange(0, i as int),
        decreases n - i,
    {
        let stdin = if i == 0 {
            InputSlot::CommandInput
        } else {
            InputSlot::PipeRead(i - 1)
        };
        let stdout = if i + 1 == n {
            OutputSlot::CommandOutput
        } else {
            OutputSlot::PipeWrite(i)
        };
        r.push(StagePlumbing { stdin, stdout });
        assert(r@ =~= plan(n as nat).subrange(0, i + 1));
        i = i + 1;
    }
    assert(r@ =~= plan(n as nat));
    r
}

/// Every stream the plan hands out goes to exactly one stage, and every
/// stream it needs is handed out: the command's input to the first stage,
/// its output to the last, each pipe's write half to the stage before it and
/// its read half to the stage after it. So once all stages are launched the
/// engine holds no pipe half.
pub proof fn lemma_plan_ownership(n: nat)
    requires
        0 < n <= usize::MAX,
    ensures
        forall|i: int, j: int|
            0 <= i < n && 0 <= j < n && #[trigger] plan(n)[i].stdin == #[trigger] plan(n)[j].stdin
                ==> i == j,
        forall|i: int, j: int|
            0 <= i < n && 0 <= j < n && #[trigger] plan(n)[i].stdout
                == #[trigger] plan(n)[j].stdout ==> i == j,
        plan(n)[0].stdin == InputSlot::CommandInput,
        plan(n)[n - 1].stdout == OutputSlot::CommandOutput,
        forall|k: int|
            0 <= k < n - 1 ==> (#[trigger] plan(n)[k]).stdout == OutputSlot::PipeWrite(k as usize)
                && plan(n)[k + 1].stdin == InputSlot::PipeRead(k as usize),
        forall|i: int|
            0 <= i < n ==> match (#[trigger] plan(n)[i]).stdin {
                InputSlot::PipeRead(k) => k < n - 1,
                InputSlot::CommandInput => true,
            } && match plan(n)[i].stdout {
                OutputSlot::PipeWrite(k) => k < n - 1,
                OutputSlot::CommandOutput => true,
            },
{
    assert forall|i: int, j: int|
        0 <= i < n && 0 <= j < n && #[trigger] plan(n)[i].stdin == #[trigger] plan(n)[j].stdin
            implies i == j by {
        if i > 0 && j > 0 {
            assert(((i - 1) as usize) as int == i - 1);
            assert(((j - 1) as usize) as int == j - 1);
        }
    }
    assert forall|i: int, j: int|
        0 <= i < n && 0 <= j < n && #[trigger] plan(n)[i].stdout == #[trigger] plan(n)[j].stdout
            implies i == j by {
        if i + 1 < n && j + 1 < n {
            assert((i as usize) as int == i);
            assert((j as usize) as int == j);
        }
    }
}

/// Where the command's input comes from.
pub enum InputSource {
    /// A duplicate of the shell's own stdin.
    Inherit,
    /// The named file, opened for reading.
    File(String),
}

/// Where the command's output goes.
pub enum OutputSink {
    /// A duplicate of the shell's own stdout.
    Inherit,
    /// The named file, truncated or created.
    Truncate(String),
    /// The named file, appended to or created.
    Append(String),
}

/// The redirection a source stands for: none for the shell's own stdin.
pub open spec fn source_view(src: InputSource) -> Option<Seq<char>> {
    match src {
        InputSource::Inherit => None,
        InputSource::File(name) => Some(name@),
    }
}

/// The redirection a sink stands for: none for the shell's own stdout.
pub open spec fn sink_view(sink: OutputSink) -> Option<crate::ast::WriteRedirectView> {
    match sink {
        OutputSink::Inherit => None,
        OutputSink::Truncate(name) => Some(crate::ast::WriteRedirectView::TruncateFile(name@)),
        OutputSink::Append(name) => Some(crate::ast::WriteRedirectView::AppendFile(name@)),
    }
}

/// The source of the command's input.
pub fn input_source(cmd: &Command) -> (r: InputSource)
    ensures
        source_view(r) == cmd@.stdin_redirect,
        match cmd@.stdin_redirect {
            None => r is Inherit,
            Some(f) => r matches InputSource::File(name) && name@ == f,
        },
{
    match &cmd.stdin_redirect {
        None => InputSource::Inherit,
        Some(ReadRedirect::File { file }) => InputSource::File(term_value(file)),
    }
}

/// The sink of the command's output.
pub fn output_sink(cmd: &Command) -> (r: OutputSink)
    ensures
        sink_view(r) == cmd@.stdout_redirect,
        match cmd@.stdout_redirect {
            None => r is Inherit,
            Some(crate::ast::WriteRedirectView::TruncateFile(f)) => r matches OutputSink::Truncate(
                name,
            ) && name@ == f,
            Some(crate::ast::WriteRedirectView::AppendFile(f)) => r matches OutputSink::Append(
                name,
            ) && name@ == f,
        },
{
    match &cmd.stdout_redirect {
        None => OutputSink::Inherit,
        Some(WriteRedirect::TruncateFile { file }) => OutputSink::Truncate(term_value(file)),
        Some(WriteRedirect::AppendFile { file }) => OutputSink::Append(term_value(file)),
    }
}

} // verus!
