//! The outside world of the GitHub source, and what was asked of it.

use crate::task_sources::github::api::{GhIssue, GhOutcome, GhRequest, Label, RequestView};
use crate::task_sources::github::GhTokenOutcome;
use vstd::prelude::*;
use vstd::string::*;

verus! {

/// The `gh` program with the JSON that it prints, the environment and the files. Nothing is
/// assumed of what they do. An error is a message.
pub trait GhPort: Send {
    /// Runs the `gh` program.
    fn run(&self, request: &GhRequest) -> GhOutcome;

    /// The age of a file in seconds and nanoseconds; none where it is missing or lies in the
    /// future.
    fn age(&self, path: &str) -> Option<(u64, u32)>;

    /// The value of an environment variable; none where it is not set.
    fn env(&self, name: &str) -> Option<String>;

    /// Runs `gh auth token`.
    fn gh_auth_token(&self) -> GhTokenOutcome;

    /// Writes a file, and the directories above it.
    fn write_file(&self, path: &str, content: &str) -> Result<(), String>;

    /// The labels that a JSON text lists, or why it does not.
    fn parse_labels(&self, text: &str) -> Result<Vec<Label>, String>;

    /// The issues that a JSON text lists, or why it does not.
    fn parse_issues(&self, text: &str) -> Result<Vec<GhIssue>, String>;

    /// The issue that a JSON text describes, or why it does not.
    fn parse_issue(&self, text: &str) -> Result<GhIssue, String>;
}

/// Something that was asked of the outside world, and what came of it.
pub enum GhStep {
    /// `gh` was run with a request.
    Run(RequestView, GhOutcome),
    /// The age of a file was looked up.
    Age(Seq<char>, Option<(u64, u32)>),
    /// An environment variable was read.
    Env(Seq<char>, Option<String>),
    /// `gh auth token` was run.
    AuthToken(GhTokenOutcome),
    /// A file was to be written.
    WriteFile(Seq<char>, Seq<char>, Result<(), String>),
}

/// Whether `gh` was run with a request, and how that ended.
pub open spec fn ran<P: GhPort>(port: &P, q: &GhRequest, o: GhOutcome) -> bool {
    call_ensures(P::run, (port, q), o)
}

/// Whether the age of a file was looked up.
pub open spec fn aged<P: GhPort>(port: &P, path: &str, age: Option<(u64, u32)>) -> bool {
    call_ensures(P::age, (port, path), age)
}

/// Whether an environment variable was read, and its value.
pub open spec fn variable<P: GhPort>(port: &P, name: &str, v: Option<String>) -> bool {
    call_ensures(P::env, (port, name), v)
}

/// Whether a file was to be written, with the result.
pub open spec fn wrote<P: GhPort>(
    port: &P,
    path: &str,
    content: &str,
    done: Result<(), String>,
) -> bool {
    call_ensures(P::write_file, (port, path, content), done)
}

/// Whether a step is one that the outside world took: what came of it is what was returned.
pub open spec fn step_of<P: GhPort>(port: &P, step: GhStep) -> bool {
    match step {
        GhStep::Run(want, o) => exists|q: GhRequest| q@ == want && #[trigger] ran(port, &q, o),
        GhStep::Age(path, age) => exists|p: &str| p@ == path && #[trigger] aged(port, p, age),
        GhStep::Env(name, v) => exists|n: &str| n@ == name && #[trigger] variable(port, n, v),
        GhStep::AuthToken(o) => call_ensures(P::gh_auth_token, (port,), o),
        GhStep::WriteFile(path, content, done) => exists|p: &str, c: &str|
            p@ == path && c@ == content && #[trigger] wrote(port, p, c, done),
    }
}

/// The outside world, with a record of everything that was asked of it. It is within reach of
/// this module alone, so nothing is asked of it that is not recorded.
pub struct RecordedGh<P: GhPort> {
    gh: P,
    record: Ghost<Seq<GhStep>>,
}

impl<P: GhPort> RecordedGh<P> {
    /// The outside world.
    pub closed spec fn port(&self) -> P {
        self.gh
    }

    /// What was asked, from the first step on.
    pub closed spec fn steps(&self) -> Seq<GhStep> {
        self.record@
    }

    /// Whether this is the outside world after one more step.
    pub open spec fn stepped(&self, before: &Self, step: GhStep) -> bool {
        &&& self.port() == before.port()
        &&& self.steps() == before.steps().push(step)
        &&& step_of(&before.port(), step)
    }

    /// Whether this is the outside world after the given steps, taken in this order, and no
    /// others.
    pub open spec fn after_steps(&self, before: &Self, steps: Seq<GhStep>) -> bool {
        &&& self.port() == before.port()
        &&& self.steps() == before.steps() + steps
        &&& forall|i: int| 0 <= i < steps.len() ==> step_of(&before.port(), #[trigger] steps[i])
    }

    /// An outside world of which nothing was asked.
    pub fn new(gh: P) -> (r: Self)
        ensures
            r.port() == gh,
            r.steps() == Seq::<GhStep>::empty(),
    {
        RecordedGh { gh, record: Ghost(Seq::empty()) }
    }

    /// Runs the `gh` program.
    pub fn run(&mut self, request: &GhRequest) -> (r: GhOutcome)
        ensures
            final(self).stepped(old(self), GhStep::Run(request@, r)),
    {
        let o = self.gh.run(request);
        self.record = Ghost(self.record@.push(GhStep::Run(request@, o)));
        assert(ran(&self.gh, request, o));
        o
    }

    /// The age of a file.
    pub fn age(&mut self, path: &str) -> (r: Option<(u64, u32)>)
        ensures
            final(self).stepped(old(self), GhStep::Age(path@, r)),
    {
        let age = self.gh.age(path);
        self.record = Ghost(self.record@.push(GhStep::Age(path@, age)));
        assert(aged(&self.gh, path, age));
        age
    }

    /// The value of an environment variable.
    pub fn env(&mut self, name: &str) -> (r: Option<String>)
        ensures
            final(self).stepped(old(self), GhStep::Env(name@, r)),
    {
        let v = self.gh.env(name);
        self.record = Ghost(self.record@.push(GhStep::Env(name@, v)));
        assert(variable(&self.gh, name, v));
        v
    }

    /// Runs `gh auth token`.
    pub fn gh_auth_token(&mut self) -> (r: GhTokenOutcome)
        ensures
            final(self).stepped(old(self), GhStep::AuthToken(r)),
    {
        let o = self.gh.gh_auth_token();
        self.record = Ghost(self.record@.push(GhStep::AuthToken(o)));
        o
    }

    /// Writes a file, and the directories above it.
    pub fn write_file(&mut self, path: &str, content: &str) -> (r: Result<(), String>)
        ensures
            final(self).stepped(old(self), GhStep::WriteFile(path@, content@, r)),
    {
        let done = self.gh.write_file(path, content);
        self.record = Ghost(self.record@.push(GhStep::WriteFile(path@, content@, done)));
        assert(wrote(&self.gh, path, content, done));
        done
    }

    /// The labels that a JSON text lists.
    pub fn parse_labels(&self, text: &str) -> (r: Result<Vec<Label>, String>)
        ensures
            call_ensures(P::parse_labels, (&self.port(), text), r),
    {
        self.gh.parse_labels(text)
    }

    /// The issues that a JSON text lists.
    pub fn parse_issues(&self, text: &str) -> (r: Result<Vec<GhIssue>, String>)
        ensures
            call_ensures(P::parse_issues, (&self.port(), text), r),
    {
        self.gh.parse_issues(text)
    }

    /// The issue that a JSON text describes.
    pub fn parse_issue(&self, text: &str) -> (r: Result<GhIssue, String>)
        ensures
            call_ensures(P::parse_issue, (&self.port(), text), r),
    {
        self.gh.parse_issue(text)
    }
}

/// One more step behind the steps that were taken.
pub proof fn lemma_one_more_step<P: GhPort>(
    start: RecordedGh<P>,
    steps: Seq<GhStep>,
    before: RecordedGh<P>,
    step: GhStep,
    after: RecordedGh<P>,
)
    requires
        before.after_steps(&start, steps),
        after.stepped(&before, step),
    ensures
        after.after_steps(&start, steps.push(step)),
{
    assert(after.steps() =~= start.steps() + steps.push(step));
    assert forall|i: int| 0 <= i < steps.push(step).len() implies step_of(
        &start.port(),
        #[trigger] steps.push(step)[i],
    ) by {
        if i < steps.len() {
            assert(steps.push(step)[i] == steps[i]);
        }
    }
}

/// Before the first step none was taken.
pub proof fn lemma_no_step<P: GhPort>(start: RecordedGh<P>)
    ensures
        start.after_steps(&start, Seq::<GhStep>::empty()),
{
    assert(start.steps() + Seq::<GhStep>::empty() =~= start.steps());
}

} // verus!
