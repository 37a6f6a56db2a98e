//! The evaluation of one command as a state machine. The machine decides;
//! its driver does the outside work each action names (searching for a
//! program, opening a file, making a pipe, launching or waiting for a
//! stage) and reports back how it went.
use crate::ast::{Command, InvocationView, WriteRedirectView};
use crate::engine::{
    all_connect, check_pipeline, eval_invocation, input_source, mismatch, output_sink,
    pair_connects, realize, sink_view, source_view, stage_plan, stages_view, CheckedPipeline,
    InputSource, OutputSink, Stage, StagePlumbing, StageView,
};
use crate::error::{Error, ErrorView};
use crate::exe::{resolve_step, spec_resolve_step, Args, ExeView, Lookup, ResolveStep};
use crate::exit::{aggregate_exit, first_failure, Exit};
use vstd::prelude::*;

verus! {

/// What the driver reports after doing an action.
pub enum Event {
    /// The evaluation begins.
    Start,
    /// A search asked for ended so.
    Searched(Lookup),
    /// The stream asked for is open, or the stage asked for is launched.
    Ready,
    /// The stage waited for ended so.
    Exited(Exit),
    /// The action failed.
    Failed(Error),
}

/// What the driver is to do next.
pub enum Action {
    /// Search the shell's search path for this program.
    SearchShellPath(String),
    /// Search the system's search path for this program.
    SearchSystemPath(String),
    /// Open the command's input.
    OpenInput(InputSource),
    /// Make pipe `k`, between stages `k` and `k + 1`.
    MakePipe(usize),
    /// Open the command's output.
    OpenOutput(OutputSink),
    /// Launch stage `i` with these streams; every stage's stderr is the shell's.
    Launch(usize, StagePlumbing),
    /// Wait for stage `i`.
    Wait(usize),
    /// The evaluation is over, with this result.
    Finish(Result<Exit, Error>),
}

impl Action {
    /// Whether the action makes the driver touch the outside world beyond a search.
    pub open spec fn has_effect(self) -> bool {
        self is OpenInput || self is MakePipe || self is OpenOutput || self is Launch || self is Wait
    }
}

/// Where an evaluation stands.
#[derive(Clone, Copy, Debug, PartialEq, Eq, Structural)]
pub enum Phase {
    /// Resolving command names to runnables.
    Resolving,
    /// Opening step `k` was asked for: 0 is the input, `1 ..= n - 1` pipe
    /// `k - 1`, `n` the output.
    Opening(usize),
    /// Stage `i` was asked to launch.
    Launching(usize),
    /// Waiting for the stage after those that have exited.
    Waiting,
    /// Finished.
    Done,
}

/// Where resolving the command names from one of them on gets.
pub enum Resolution {
    /// The name of invocation `index` needs a search: of the shell's search
    /// path when `shell_path`, else of the system's.
    Search { index: int, shell_path: bool },
    /// Resolution failed with this error.
    Failed(ErrorView),
    /// Every name is resolved.
    Resolved,
}

/// Resolving the names of `invocations[k..]`, given the searches already
/// answered for the name of invocation `k`: builtins and names whose
/// searches are answered resolve at once, the first other name asks for a
/// search, and the first error ends resolution.
pub open spec fn resolution_from(
    invocations: Seq<(Seq<char>, Seq<Seq<char>>)>,
    k: int,
    shell: Option<Lookup>,
    system: Option<Lookup>,
) -> Resolution
    decreases invocations.len() - k,
{
    if k < 0 || k >= invocations.len() {
        Resolution::Resolved
    } else {
        match spec_resolve_step(invocations[k].0, shell, system) {
            None => Resolution::Search { index: k, shell_path: shell is None },
            Some(Err(e)) => Resolution::Failed(e),
            Some(Ok(_)) => resolution_from(invocations, k + 1, None, None),
        }
    }
}

/// The searches answered after a report: a search result goes to the
/// shell's search path if that one was not answered yet, else to the system's.
pub open spec fn answered(shell: Option<Lookup>, system: Option<Lookup>, event: Event) -> (
    Option<Lookup>,
    Option<Lookup>,
) {
    match event {
        Event::Searched(l) => if shell is None {
            (Some(l), system)
        } else {
            (shell, Some(l))
        },
        _ => (shell, system),
    }
}

/// The diagnostic when a stage is waited for and no status comes back.
pub open spec fn no_status_message() -> Seq<char> {
    "a stage ended without an exit status"@
}

/// The evaluation of one command.
pub struct Evaluation {
    invocations: Vec<(String, Args)>,
    stages: Vec<Stage>,
    shell: Option<Lookup>,
    system: Option<Lookup>,
    stdout_redirected: bool,
    input: Option<InputSource>,
    output: Option<OutputSink>,
    stdin_view: Ghost<Option<Seq<char>>>,
    stdout_view: Ghost<Option<WriteRedirectView>>,
    checked: Option<CheckedPipeline>,
    resolved: Ghost<Seq<StageView>>,
    lookups: Ghost<Seq<(Option<Lookup>, Option<Lookup>)>>,
    phase: Phase,
    exits: Vec<Exit>,
}

/// Whether each stage runs what the resolution rules give for its name and
/// the searches answered for it.
pub open spec fn stages_resolved(
    stages: Seq<StageView>,
    invocations: Seq<(Seq<char>, Seq<Seq<char>>)>,
    lookups: Seq<(Option<Lookup>, Option<Lookup>)>,
) -> bool {
    &&& stages.len() <= lookups.len()
    &&& forall|i: int|
        0 <= i < stages.len() ==> spec_resolve_step(invocations[i].0, lookups[i].0, lookups[i].1)
            == Some(Ok::<ExeView, ErrorView>((#[trigger] stages[i]).exe))
}

/// Whether each stage carries the name and arguments of the invocation at
/// its place.
pub open spec fn stages_match(
    stages: Seq<StageView>,
    invocations: Seq<(Seq<char>, Seq<Seq<char>>)>,
) -> bool {
    &&& stages.len() <= invocations.len()
    &&& forall|i: int|
        0 <= i < stages.len() ==> (#[trigger] stages[i]).command == invocations[i].0
            && stages[i].args == invocations[i].1
}

impl Evaluation {
    /// Where the evaluation stands.
    pub closed spec fn spec_phase(&self) -> Phase {
        self.phase
    }

    /// The stages that passed the type check, once it has run.
    pub closed spec fn spec_checked(&self) -> Option<Seq<StageView>> {
        match self.checked {
            Some(c) => Some(c.spec_stages()),
            None => None,
        }
    }

    /// The number of stages that run.
    pub closed spec fn spec_len(&self) -> nat {
        match self.checked {
            Some(c) => c.spec_stages().len(),
            None => 0,
        }
    }

    /// The stages that the command names resolved to, once all are resolved.
    pub closed spec fn spec_resolved(&self) -> Seq<StageView> {
        self.resolved@
    }

    /// The number of command names resolved while resolving.
    pub closed spec fn spec_resolved_count(&self) -> int {
        self.stages@.len() as int
    }

    /// The searches answered for the name being resolved: the shell's
    /// search path, then the system's.
    pub closed spec fn spec_answered(&self) -> (Option<Lookup>, Option<Lookup>) {
        (self.shell, self.system)
    }

    /// For each resolved command name, the answers of the searches that
    /// resolved it: the shell's search path, then the system's.
    pub closed spec fn spec_lookups(&self) -> Seq<(Option<Lookup>, Option<Lookup>)> {
        self.lookups@
    }

    /// Whether the command redirects its output.
    pub closed spec fn spec_stdout_redirected(&self) -> bool {
        self.stdout_redirected
    }

    /// The command's input redirection.
    pub closed spec fn spec_stdin_redirect(&self) -> Option<Seq<char>> {
        self.stdin_view@
    }

    /// The command's output redirection.
    pub closed spec fn spec_stdout_redirect(&self) -> Option<WriteRedirectView> {
        self.stdout_view@
    }

    /// The statuses of the stages that have exited, in order.
    pub closed spec fn spec_exits(&self) -> Seq<Exit> {
        self.exits@
    }

    /// The program names and arguments of the command's invocations, in order.
    pub closed spec fn spec_invocations(&self) -> Seq<(Seq<char>, Seq<Seq<char>>)> {
        invocations_view(self.invocations@)
    }

    /// The invariant of an evaluation.
    pub closed spec fn wf(&self) -> bool {
        &&& stages_match(stages_view(self.stages@), self.spec_invocations())
        &&& stages_resolved(stages_view(self.stages@), self.spec_invocations(), self.lookups@)
        &&& self.stdout_redirected == (self.stdout_view@ is Some)
        &&& (self.checked is Some ==> stages_resolved(
            self.resolved@,
            self.spec_invocations(),
            self.lookups@,
        ))
        &&& (self.checked is Some ==> self.spec_checked()->0 == realize(
            self.resolved@,
            self.stdout_redirected,
        ) && stages_match(self.resolved@, self.spec_invocations())
            && self.resolved@.len() == self.invocations@.len())
        &&& (self.phase is Resolving ==> self.checked is None && self.input is Some
            && source_view(self.input->0) == self.stdin_view@)
        &&& (self.phase is Resolving || self.phase is Opening) ==> self.output is Some
            && sink_view(self.output->0) == self.stdout_view@
            || (self.phase matches Phase::Opening(k) && k == self.spec_len())
        &&& (self.phase is Opening || self.phase is Launching || self.phase is Waiting)
            ==> self.checked is Some && self.spec_len() >= 1 && all_connect(
            self.spec_checked()->0,
        )
        &&& (self.phase matches Phase::Opening(k) ==> k <= self.spec_len())
        &&& (self.phase matches Phase::Launching(i) ==> i < self.spec_len())
        &&& (self.phase is Waiting ==> self.exits@.len() < self.spec_len())
        &&& (!(self.phase is Waiting || self.phase is Done) ==> self.exits@.len() == 0)
    }

    /// Begins evaluating a command.
    pub fn new(cmd: &Command) -> (r: Evaluation)
        ensures
            r.wf(),
            r.spec_invocations() == words_of(cmd@.pipeline),
            r.spec_phase() is Resolving,
            r.spec_resolved_count() == 0,
            r.spec_answered() == (None::<Lookup>, None::<Lookup>),
            r.spec_exits().len() == 0,
            r.spec_stdout_redirected() == cmd@.stdout_redirect is Some,
            r.spec_stdin_redirect() == cmd@.stdin_redirect,
            r.spec_stdout_redirect() == cmd@.stdout_redirect,
    {
        let mut invocations: Vec<(String, Args)> = Vec::new();
        let mut i: usize = 0;
        while i < cmd.pipeline.len()
            invariant
                i <= cmd.pipeline@.len(),
                invocations_view(invocations@) == words_of(cmd@.pipeline).subrange(0, i as int),
            decreases cmd.pipeline.len() - i,
        {
            let ghost before = invocations@;
            invocations.push(eval_invocation(&cmd.pipeline[i]));
            assert(invocations_view(invocations@) =~= invocations_view(before).push(
                (cmd@.pipeline[i as int].executable, cmd@.pipeline[i as int].arguments),
            ));
            assert(words_of(cmd@.pipeline).subrange(0, i + 1) =~= words_of(cmd@.pipeline).subrange(
                0,
                i as int,
            ).push((cmd@.pipeline[i as int].executable, cmd@.pipeline[i as int].arguments)));
            i = i + 1;
        }
        assert(words_of(cmd@.pipeline).subrange(0, i as int) =~= words_of(cmd@.pipeline));
        let r = Evaluation {
            invocations,
            stages: Vec::new(),
            shell: None,
            system: None,
            stdout_redirected: cmd.stdout_redirect.is_some(),
            input: Some(input_source(cmd)),
            output: Some(output_sink(cmd)),
            stdin_view: Ghost(cmd@.stdin_redirect),
            stdout_view: Ghost(cmd@.stdout_redirect),
            checked: None,
            resolved: Ghost(Seq::empty()),
            lookups: Ghost(Seq::empty()),
            phase: Phase::Resolving,
            exits: Vec::new(),
        };
        assert(stages_view(r.stages@) =~= Seq::<StageView>::empty());
        r
    }

    /// The stage that a `Launch` action names.
    pub fn stage(&self, i: usize) -> (r: Option<&Stage>)
        ensures
            r is Some <==> self.spec_checked() is Some && i < self.spec_len(),
            r is Some ==> r->0@ == self.spec_checked()->0[i as int],
    {
        match &self.checked {
            Some(c) => {
                if i < c.len() {
                    Some(&c.stages()[i])
                } else {
                    None
                }
            },
            None => None,
        }
    }

    /// Takes the driver's report on the last action and decides the next.
    ///
    /// A failure report ends the evaluation with that error. Otherwise, by
    /// phase: resolving asks for the searches the resolution rules need and
    /// ends on a resolution error; once every name is resolved, a pipeline
    /// with a pair of stages that does not connect ends with the first
    /// mismatch, an empty one ends in success, and any other opens the
    /// command's input; then the pipes are made in order, the command's
    /// output is opened, the stages are launched in order with their planned
    /// streams, and they are waited for in order; the last status ends the
    /// evaluation with the first-failure status of all of them.
    pub fn next(&mut self, event: Event) -> (r: Action)
        requires
            old(self).wf(),
            !(old(self).spec_phase() is Done),
        ensures
            final(self).wf(),
            r is Finish <==> final(self).spec_phase() is Done,
            final(self).spec_invocations() == old(self).spec_invocations(),
            final(self).spec_stdout_redirected() == old(self).spec_stdout_redirected(),
            final(self).spec_stdin_redirect() == old(self).spec_stdin_redirect(),
            final(self).spec_stdout_redirect() == old(self).spec_stdout_redirect(),
            final(self).spec_checked() is Some ==> final(self).spec_checked()->0 == realize(
                final(self).spec_resolved(),
                final(self).spec_stdout_redirected(),
            ) && final(self).spec_resolved().len() == final(self).spec_invocations().len()
                && stages_match(final(self).spec_resolved(), final(self).spec_invocations())
                && stages_resolved(
                final(self).spec_resolved(),
                final(self).spec_invocations(),
                final(self).spec_lookups(),
            ),
            r.has_effect() ==> final(self).spec_checked() is Some && all_connect(
                final(self).spec_checked()->0,
            ),
            // a failure report ends the evaluation with it
            event matches Event::Failed(e) ==> (r matches Action::Finish(Err(f)) && f@ == e@),
            // resolving
            old(self).spec_phase() is Resolving && !(event is Failed) ==> ({
                let (sh, sy) = answered(old(self).spec_answered().0, old(self).spec_answered().1, event);
                match resolution_from(
                    old(self).spec_invocations(),
                    old(self).spec_resolved_count(),
                    sh,
                    sy,
                ) {
                    Resolution::Search { index, shell_path } => {
                        &&& final(self).spec_phase() is Resolving
                        &&& final(self).spec_resolved_count() == index
                        &&& if shell_path {
                            r matches Action::SearchShellPath(n) && n@
                                == old(self).spec_invocations()[index].0
                        } else {
                            r matches Action::SearchSystemPath(n) && n@
                                == old(self).spec_invocations()[index].0
                        }
                    },
                    Resolution::Failed(e) => r matches Action::Finish(Err(f)) && f@ == e,
                    Resolution::Resolved => {
                        let s = realize(final(self).spec_resolved(), old(self).spec_stdout_redirected());
                        &&& final(self).spec_resolved().len() == old(self).spec_invocations().len()
                        &&& !all_connect(s) ==> (r matches Action::Finish(Err(f)) && exists|i: int|
                            0 <= i < s.len() - 1 && !pair_connects(s, i) && (forall|j: int|
                                0 <= j < i ==> pair_connects(s, j)) && f@ == mismatch(s, i))
                        &&& all_connect(s) && s.len() == 0 ==> (r matches Action::Finish(Ok(x))
                            && x == Exit::Code(0))
                        &&& all_connect(s) && s.len() > 0 ==> (r matches Action::OpenInput(src)
                            && source_view(src) == old(self).spec_stdin_redirect()
                            && final(self).spec_phase() == Phase::Opening(0)
                            && final(self).spec_checked() == Some(s))
                    },
                }
            }),
            // after the check, the stages and their number stay as they are
            !(old(self).spec_phase() is Resolving) ==> final(self).spec_checked() == old(
                self,
            ).spec_checked(),
            // opening: the pipes in order, then the command's output, then the first launch
            !(event is Failed) ==> (old(self).spec_phase() matches Phase::Opening(k) ==> {
                let n = old(self).spec_len();
                &&& k + 1 < n ==> (r matches Action::MakePipe(j) && j == k
                    && final(self).spec_phase() == Phase::Opening((k + 1) as usize))
                &&& k + 1 == n ==> (r matches Action::OpenOutput(o) && sink_view(o) == old(
                    self,
                ).spec_stdout_redirect() && final(self).spec_phase() == Phase::Opening(
                    (k + 1) as usize,
                ))
                &&& k == n ==> (r matches Action::Launch(i, slot) && i == 0 && slot == stage_plan(
                    n,
                    0,
                ) && final(self).spec_phase() == Phase::Launching(0))
            }),
            // launching: the stages in order, then the first wait
            !(event is Failed) ==> (old(self).spec_phase() matches Phase::Launching(i) ==> {
                let n = old(self).spec_len();
                &&& i + 1 < n ==> (r matches Action::Launch(j, slot) && j == i + 1 && slot
                    == stage_plan(n, (i + 1) as nat) && final(self).spec_phase()
                    == Phase::Launching((i + 1) as usize))
                &&& i + 1 >= n ==> (r matches Action::Wait(j) && j == 0 && final(self).spec_phase()
                    is Waiting)
            }),
            // waiting: the stages in order, then the first-failure status
            old(self).spec_phase() is Waiting ==> match event {
                Event::Exited(x) => {
                    let ex = old(self).spec_exits().push(x);
                    &&& final(self).spec_exits() == ex
                    &&& ex.len() < old(self).spec_len() ==> (r matches Action::Wait(j) && j
                        == ex.len() && final(self).spec_phase() is Waiting)
                    &&& ex.len() >= old(self).spec_len() ==> (r matches Action::Finish(Ok(e)) && e
                        == first_failure(ex))
                },
                Event::Failed(_) => true,
                _ => r matches Action::Finish(Err(f)) && f@ == ErrorView::ExecutionFailed(
                    no_status_message(),
                ),
            },
            !(old(self).spec_phase() is Waiting) ==> final(self).spec_exits() == old(
                self,
            ).spec_exits(),
    {
        if let Event::Failed(e) = event {
            self.phase = Phase::Done;
            return Action::Finish(Err(e));
        }
        match self.phase {
            Phase::Resolving => self.resolve(event),
            Phase::Opening(k) => {
                let n = match &self.checked {
                    Some(c) => c.len(),
                    None => 0,
                };
                if k < n - 1 {
                    self.phase = Phase::Opening(k + 1);
                    Action::MakePipe(k)
                } else if k == n - 1 {
                    self.phase = Phase::Opening(k + 1);
                    match self.output.take() {
                        Some(o) => Action::OpenOutput(o),
                        None => Action::OpenOutput(OutputSink::Inherit),
                    }
                } else {
                    self.phase = Phase::Launching(0);
                    Action::Launch(0, stage_plan_exec(n, 0))
                }
            },
            Phase::Launching(i) => {
                let n = match &self.checked {
                    Some(c) => c.len(),
                    None => 0,
                };
                if i < n - 1 {
                    self.phase = Phase::Launching(i + 1);
                    Action::Launch(i + 1, stage_plan_exec(n, i + 1))
                } else {
                    self.phase = Phase::Waiting;
                    Action::Wait(0)
                }
            },
            Phase::Waiting => {
                let x = match event {
                    Event::Exited(x) => x,
                    _ => {
                        let mut m = String::new();
                        m.append("a stage ended without an exit status");
                        self.phase = Phase::Done;
                        return Action::Finish(Err(Error::ExecutionFailed(m)));
                    },
                };
                self.exits.push(x);
                let n = match &self.checked {
                    Some(c) => c.len(),
                    None => 0,
                };
                if self.exits.len() < n {
                    Action::Wait(self.exits.len())
                } else {
                    let e = aggregate_exit(&self.exits);
                    self.phase = Phase::Done;
                    Action::Finish(Ok(e))
                }
            },
            Phase::Done => Action::Finish(Ok(Exit::Code(0))),
        }
    }

    /// The resolving phase: records a search result, then resolves the
    /// next command name, or checks the pipeline once all are resolved.
    fn resolve(&mut self, event: Event) -> (r: Action)
        requires
            old(self).wf(),
            old(self).spec_phase() is Resolving,
            !(event is Failed),
        ensures
            final(self).wf(),
            r is Finish <==> final(self).spec_phase() is Done,
            final(self).spec_exits() == old(self).spec_exits(),
            final(self).spec_invocations() == old(self).spec_invocations(),
            final(self).spec_stdout_redirected() == old(self).spec_stdout_redirected(),
            final(self).spec_stdin_redirect() == old(self).spec_stdin_redirect(),
            final(self).spec_stdout_redirect() == old(self).spec_stdout_redirect(),
            !(final(self).spec_phase() is Resolving || final(self).spec_phase() is Done)
                ==> r is OpenInput,
            r.has_effect() ==> r is OpenInput && final(self).spec_checked() is Some && all_connect(
                final(self).spec_checked()->0,
            ),
            ({
                let (sh, sy) = answered(old(self).spec_answered().0, old(self).spec_answered().1, event);
                match resolution_from(
                    old(self).spec_invocations(),
                    old(self).spec_resolved_count(),
                    sh,
                    sy,
                ) {
                    Resolution::Search { index, shell_path } => {
                        &&& final(self).spec_phase() is Resolving
                        &&& final(self).spec_resolved_count() == index
                        &&& if shell_path {
                            r matches Action::SearchShellPath(n) && n@
                                == old(self).spec_invocations()[index].0
                        } else {
                            r matches Action::SearchSystemPath(n) && n@
                                == old(self).spec_invocations()[index].0
                        }
                    },
                    Resolution::Failed(e) => r matches Action::Finish(Err(f)) && f@ == e,
                    Resolution::Resolved => {
                        let s = realize(final(self).spec_resolved(), old(self).spec_stdout_redirected());
                        &&& final(self).spec_resolved().len() == old(self).spec_invocations().len()
                        &&& !all_connect(s) ==> (r matches Action::Finish(Err(f)) && exists|i: int|
                            0 <= i < s.len() - 1 && !pair_connects(s, i) && (forall|j: int|
                                0 <= j < i ==> pair_connects(s, j)) && f@ == mismatch(s, i))
                        &&& all_connect(s) && s.len() == 0 ==> (r matches Action::Finish(Ok(x))
                            && x == Exit::Code(0))
                        &&& all_connect(s) && s.len() > 0 ==> (r matches Action::OpenInput(src)
                            && source_view(src) == old(self).spec_stdin_redirect()
                            && final(self).spec_phase() == Phase::Opening(0)
                            && final(self).spec_checked() == Some(s))
                    },
                }
            }),
    {
        let ghost invs = self.spec_invocations();
        let ghost k0 = self.stages@.len() as int;
        if let Event::Searched(l) = event {
            if self.shell.is_none() {
                self.shell = Some(l);
            } else {
                self.system = Some(l);
            }
        }
        assert((self.shell, self.system) == answered(old(self).shell, old(self).system, event));
        let ghost outcome = resolution_from(invs, k0, self.shell, self.system);
        while self.stages.len() < self.invocations.len()
            invariant
                self.wf(),
                self.phase is Resolving,
                self.exits@ == old(self).exits@,
                self.invocations@ == old(self).invocations@,
                invs == self.spec_invocations(),
                self.stdout_redirected == old(self).stdout_redirected,
                self.stdin_view == old(self).stdin_view,
                self.stdout_view == old(self).stdout_view,
                outcome == resolution_from(invs, self.stages@.len() as int, self.shell, self.system),
                outcome == resolution_from(
                    old(self).spec_invocations(),
                    old(self).spec_resolved_count(),
                    answered(old(self).spec_answered().0, old(self).spec_answered().1, event).0,
                    answered(old(self).spec_answered().0, old(self).spec_answered().1, event).1,
                ),
            decreases self.invocations@.len() - self.stages@.len(),
        {
            let k = self.stages.len();
            let step = resolve_step(self.invocations[k].0.as_str(), &self.shell, &self.system);
            assert(invs[k as int].0 == self.invocations@[k as int].0@);
            match step {
                ResolveStep::SearchShellPath => {
                    assert(spec_resolve_step(invs[k as int].0, self.shell, self.system) is None);
                    assert(outcome == Resolution::Search { index: k as int, shell_path: true });
                    return Action::SearchShellPath(self.invocations[k].0.clone());
                },
                ResolveStep::SearchSystemPath => {
                    assert(spec_resolve_step(invs[k as int].0, self.shell, self.system) is None);
                    assert(crate::exe::spec_builtin(invs[k as int].0) is None);
                    assert(outcome == Resolution::Search { index: k as int, shell_path: false });
                    return Action::SearchSystemPath(self.invocations[k].0.clone());
                },
                ResolveStep::Done(Ok(exe)) => {
                    let command = self.invocations[k].0.clone();
                    let args = copy_args(&self.invocations[k].1);
                    let ghost before = stages_view(self.stages@);
                    let ghost pair = (self.shell, self.system);
                    self.stages.push(Stage { command, exe, args });
                    assert(stages_view(self.stages@) =~= before.push(self.stages@[k as int]@));
                    proof {
                        if self.lookups@.len() > k {
                            self.lookups@ = self.lookups@.subrange(0, k as int);
                        }
                        self.lookups@ = self.lookups@.push(pair);
                    }
                    self.shell = None;
                    self.system = None;
                },
                ResolveStep::Done(Err(e)) => {
                    self.phase = Phase::Done;
                    return Action::Finish(Err(e));
                },
            }
        }
        let mut stages: Vec<Stage> = Vec::new();
        std::mem::swap(&mut stages, &mut self.stages);
        assert(stages_view(self.stages@) =~= Seq::<StageView>::empty());
        self.resolved = Ghost(stages_view(stages@));
        match check_pipeline(stages, self.stdout_redirected) {
            Err(e) => {
                self.phase = Phase::Done;
                Action::Finish(Err(e))
            },
            Ok(c) => {
                if c.len() == 0 {
                    self.phase = Phase::Done;
                    return Action::Finish(Ok(Exit::Code(0)));
                }
                c.stages_connect();
                self.checked = Some(c);
                self.phase = Phase::Opening(0);
                match self.input.take() {
                    Some(i) => Action::OpenInput(i),
                    None => Action::OpenInput(InputSource::Inherit),
                }
            },
        }
    }
}

/// The program name and arguments of each invocation.
pub open spec fn words_of(p: Seq<InvocationView>) -> Seq<(Seq<char>, Seq<Seq<char>>)> {
    p.map_values(|inv: InvocationView| (inv.executable, inv.arguments))
}

/// The names and arguments' contents.
pub open spec fn invocations_view(v: Seq<(String, Args)>) -> Seq<(Seq<char>, Seq<Seq<char>>)> {
    v.map_values(|p: (String, Args)| (p.0@, crate::exe::args_view(p.1@)))
}

/// A copy of a list of arguments.
fn copy_args(args: &Args) -> (r: Args)
    ensures
        crate::exe::args_view(r@) == crate::exe::args_view(args@),
{
    let mut r: Args = Vec::new();
    let mut i: usize = 0;
    while i < args.len()
        invariant
            i <= args@.len(),
            crate::exe::args_view(r@) == crate::exe::args_view(args@).subrange(0, i as int),
        decreases args.len() - i,
    {
        let ghost before = r@;
        let a = args[i].clone();
        r.push(a);
        assert(crate::exe::args_view(r@) =~= crate::exe::args_view(before).push(args@[i as int]@));
        assert(crate::exe::args_view(r@) =~= crate::exe::args_view(args@).subrange(0, i + 1));
        i = i + 1;
    }
    assert(crate::exe::args_view(args@).subrange(0, i as int) =~= crate::exe::args_view(args@));
    r
}

/// The plumbing of stage `i` among `n`.
fn stage_plan_exec(n: usize, i: usize) -> (r: StagePlumbing)
    requires
        i < n,
    ensures
        r == stage_plan(n as nat, i as nat),
{
    StagePlumbing {
        stdin: if i == 0 {
            crate::engine::InputSlot::CommandInput
        } else {
            crate::engine::InputSlot::PipeRead(i - 1)
        },
        stdout: if i + 1 == n {
            crate::engine::OutputSlot::CommandOutput
        } else {
            crate::engine::OutputSlot::PipeWrite(i)
        },
    }
}

} // verus!
