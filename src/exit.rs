//! Process exit statuses and their aggregation over a pipeline.
use crate::text::{decimal, push_char, u32_text};
use vstd::prelude::*;

verus! {

/// How a process ended: with an exit code, or killed by a signal.
#[derive(Clone, Copy, Debug, PartialEq, Eq, Structural)]
pub enum Exit {
    /// The process exited with this code.
    Code(u32),
    /// The process was killed by this signal.
    Signal(u32),
}

impl Exit {
    /// A successful exit: code 0.
    pub fn success_status() -> (r: Exit)
        ensures
            r == Exit::Code(0),
    {
        Exit::Code(0)
    }

    /// A generic failure: code 1.
    pub fn failure() -> (r: Exit)
        ensures
            r == Exit::Code(1),
    {
        Exit::Code(1)
    }

    /// Bad syntax, or misuse of a builtin: code 2.
    pub fn bad_syntax() -> (r: Exit)
        ensures
            r == Exit::Code(2),
    {
        Exit::Code(2)
    }

    /// A command was found but could not be executed: code 126.
    pub fn could_not_execute() -> (r: Exit)
        ensures
            r == Exit::Code(126),
    {
        Exit::Code(126)
    }

    /// No command of that name was found: code 127.
    pub fn command_not_found() -> (r: Exit)
        ensures
            r == Exit::Code(127),
    {
        Exit::Code(127)
    }

    /// Whether this status is the successful exit code 0.
    pub open spec fn is_success(self) -> bool {
        self == Exit::Code(0)
    }

    /// The exit code, if the process exited with one.
    pub fn code(&self) -> (r: Option<u32>)
        ensures
            r == (match *self {
                Exit::Code(c) => Some(c),
                Exit::Signal(_) => None,
            }),
    {
        match self {
            Exit::Code(c) => Some(*c),
            Exit::Signal(_) => None,
        }
    }

    /// The signal number that killed the process, if it was killed.
    pub fn signal(&self) -> (r: Option<u32>)
        ensures
            r == (match *self {
                Exit::Signal(s) => Some(s),
                Exit::Code(_) => None,
            }),
    {
        match self {
            Exit::Signal(s) => Some(*s),
            Exit::Code(_) => None,
        }
    }

    /// Whether this status is a successful exit: code 0.
    pub fn success(&self) -> (r: bool)
        ensures
            r == self.is_success(),
    {
        match self {
            Exit::Code(c) => *c == 0,
            Exit::Signal(_) => false,
        }
    }

    /// The status of a finished process from what the operating system
    /// reports: its exit code if it has one, taken bit for bit as unsigned,
    /// else the number of the signal that killed it.
    pub fn from_status(code: Option<i32>, signal: Option<i32>) -> (r: Exit)
        requires
            code is Some || signal is Some,
        ensures
            code matches Some(c) ==> r == Exit::Code(#[verifier::truncate] (c as u32)),
            code is None ==> r == Exit::Signal(#[verifier::truncate] (signal->0 as u32)),
    {
        match code {
            Some(c) => Exit::Code(#[verifier::truncate] (c as u32)),
            None => match signal {
                Some(s) => Exit::Signal(#[verifier::truncate] (s as u32)),
                None => Exit::Code(1),
            },
        }
    }

    /// The worse of two statuses, as a short-circuiting `&&` sees them: the
    /// first one unless it is a success.
    pub fn reduce_worst(a: Exit, b: Exit) -> (r: Exit)
        ensures
            r == (if !a.is_success() { a } else { b }),
    {
        if !a.success() {
            a
        } else {
            b
        }
    }

    /// The status as shown to users: the code, or `signal(n)`.
    pub open spec fn spec_text(self) -> Seq<char> {
        match self {
            Exit::Code(c) => decimal(c as nat),
            Exit::Signal(s) => ("signal("@ + decimal(s as nat)).push(')'),
        }
    }

    /// The status as shown to users: the code, or `signal(n)`.
    pub fn to_text(&self) -> (r: String)
        ensures
            r@ == self.spec_text(),
    {
        match self {
            Exit::Code(c) => u32_text(*c),
            Exit::Signal(s) => {
                let mut t = String::new();
                t.append("signal(");
                assert(t@ == "signal("@);
                t.append(u32_text(*s).as_str());
                push_char(&mut t, ')');
                t
            },
        }
    }
}

/// The status of a whole pipeline from its stages' statuses, in order: the
/// first one that is not a success, or success when there is none.
pub open spec fn first_failure(exits: Seq<Exit>) -> Exit
    decreases exits.len(),
{
    if exits.len() == 0 {
        Exit::Code(0)
    } else if !exits[0].is_success() {
        exits[0]
    } else {
        first_failure(exits.drop_first())
    }
}

/// Folds the stages' statuses of a pipeline into the pipeline's status: the
/// first status that is not a success, else success (also for no stages).
pub fn aggregate_exit(exits: &Vec<Exit>) -> (r: Exit)
    ensures
        r == first_failure(exits@),
{
    let mut i: usize = 0;
    assert(exits@.subrange(0, exits@.len() as int) == exits@);
    while i < exits.len()
        invariant
            i <= exits@.len(),
            forall|j: int| 0 <= j < i ==> (#[trigger] exits@[j]).is_success(),
            first_failure(exits@) == first_failure(exits@.subrange(i as int, exits@.len() as int)),
        decreases exits.len() - i,
    {
        let e = exits[i];
        let ghost rest = exits@.subrange(i as int, exits@.len() as int);
        assert(rest[0] == e);
        if !e.success() {
            return e;
        }
        assert(rest.drop_first() == exits@.subrange(i + 1, exits@.len() as int));
        i = i + 1;
    }
    assert(exits@.subrange(i as int, exits@.len() as int).len() == 0);
    Exit::Code(0)
}

/// The first-failure rule: the pipeline's status is the status of the first
/// stage that did not succeed, and success exactly when every stage succeeded.
pub proof fn lemma_first_failure(exits: Seq<Exit>)
    ensures
        (forall|i: int| 0 <= i < exits.len() ==> (#[trigger] exits[i]).is_success())
            ==> first_failure(exits) == Exit::Code(0),
        forall|i: int|
            0 <= i < exits.len() && !(#[trigger] exits[i]).is_success() && (forall|j: int|
                0 <= j < i ==> exits[j].is_success()) ==> first_failure(exits) == exits[i],
    decreases exits.len(),
{
    if exits.len() > 0 {
        let rest = exits.drop_first();
        lemma_first_failure(rest);
        assert forall|i: int|
            0 <= i < exits.len() && !(#[trigger] exits[i]).is_success() && (forall|j: int|
                0 <= j < i ==> exits[j].is_success()) implies first_failure(exits) == exits[i] by {
            if i > 0 {
                assert(rest[i - 1] == exits[i]);
                assert forall|j: int| 0 <= j < i - 1 implies rest[j].is_success() by {
                    assert(rest[j] == exits[j + 1]);
                }
            }
        }
        if forall|i: int| 0 <= i < exits.len() ==> (#[trigger] exits[i]).is_success() {
            assert forall|i: int| 0 <= i < rest.len() implies (#[trigger] rest[i]).is_success() by {
                assert(rest[i] == exits[i + 1]);
            }
        }
    }
}

} // verus!
