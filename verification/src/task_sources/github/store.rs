//! The GitHub task source at work on a repository.

use crate::clock;
use crate::clock::{to_rfc3339, utc_now, Instant};
use crate::json;
use crate::task::{Task, TaskView};
use crate::task_source;
use crate::task_source::{
    from_outside, ErrorView, TaskSource, TaskSourceError, TaskSourceResult,
};
use crate::task_sources::github;
use crate::task_sources::github::api;
use crate::task_sources::github::api::{GhClient, GhIssue, GhOutcome};
use crate::task_sources::github::port;
use crate::task_sources::github::port::{GhPort, GhStep, RecordedGh};
use crate::task_sources::github::{
    resolve_token_from, token_of_gh, GhTokenOutcome, GithubSettings, GithubTaskSource, SetupAction,
};
use crate::text;
use vstd::prelude::*;
use vstd::string::*;

verus! {

/// Whether the environment gave no token, `gh auth token` was asked, and what it came to.
pub open spec fn asked_gh<P: GhPort>(
    before: &RecordedGh<P>,
    github: Option<String>,
    ralph: Option<String>,
    o: GhTokenOutcome,
    after: &RecordedGh<P>,
) -> bool {
    after.after_steps(
        before,
        seq![
            GhStep::Env("GITHUB_TOKEN"@, github),
            GhStep::Env("RALPH_GITHUB_TOKEN"@, ralph),
            GhStep::AuthToken(o),
        ],
    )
}

/// What looking for a token comes to where `GITHUB_TOKEN` gave none: the token of
/// `RALPH_GITHUB_TOKEN`, and where that gives none what `gh auth token` says.
pub open spec fn token_of_ralph<P: GhPort>(
    before: &RecordedGh<P>,
    github: Option<String>,
    ralph: Option<String>,
    after: &RecordedGh<P>,
    r: Result<Seq<char>, ErrorView>,
) -> bool {
    match github::first_token(None, None, json::opt_text(ralph)) {
        Some(t) => r == Ok::<Seq<char>, ErrorView>(t) && after.after_steps(
            before,
            seq![
                GhStep::Env("GITHUB_TOKEN"@, github),
                GhStep::Env("RALPH_GITHUB_TOKEN"@, ralph),
            ],
        ),
        None => exists|o: GhTokenOutcome| #[trigger]
            asked_gh(before, github, ralph, o, after) && r == github::gh_token(o),
    }
}

/// What looking for a token comes to where the configuration gave none: the token of
/// `GITHUB_TOKEN`, and where that gives none the search goes on.
pub open spec fn token_of_github<P: GhPort>(
    before: &RecordedGh<P>,
    github: Option<String>,
    after: &RecordedGh<P>,
    r: Result<Seq<char>, ErrorView>,
) -> bool {
    match github::first_token(None, json::opt_text(github), None) {
        Some(t) => r == Ok::<Seq<char>, ErrorView>(t) && after.after_steps(
            before,
            seq![GhStep::Env("GITHUB_TOKEN"@, github)],
        ),
        None => exists|ralph: Option<String>| #[trigger]
            token_of_ralph(before, github, ralph, after, r),
    }
}

/// Whether `r` is what looking for a token came to, given the one of the configuration. Each
/// place is asked only where those before it gave none.
pub open spec fn token_resolved<P: GhPort>(
    before: &RecordedGh<P>,
    config: Option<Seq<char>>,
    after: &RecordedGh<P>,
    r: Result<Seq<char>, ErrorView>,
) -> bool {
    match github::first_token(config, None, None) {
        Some(t) => r == Ok::<Seq<char>, ErrorView>(t) && after == before,
        None => exists|github: Option<String>| #[trigger]
            token_of_github(before, github, after, r),
    }
}

/// Whether the tasks stand for issues that were fetched, and nothing else was asked.
pub open spec fn tasks_fetched<P: GhPort>(
    before: &RecordedGh<P>,
    c: GhClient,
    after: &RecordedGh<P>,
    tasks: Seq<TaskView>,
) -> bool {
    exists|found: Vec<GhIssue>| #[trigger]
        api::plain_issues_answered(before, github::issues_request(c), after, Ok(found)) && tasks
            == found@.map_values(|i: GhIssue| github::issue_task(i))
}

/// Whether fetching issues ended in the error, and nothing else was asked.
pub open spec fn not_fetched<P: GhPort>(
    before: &RecordedGh<P>,
    c: GhClient,
    after: &RecordedGh<P>,
    e: TaskSourceError,
) -> bool {
    api::plain_issues_answered(before, github::issues_request(c), after, Err(e))
}

/// Whether a text is the time stamp of an instant.
pub open spec fn is_stamp(content: Seq<char>) -> bool {
    exists|now: Instant| now.is_valid() && content == #[trigger] clock::stamp_of(now)
}

/// The requests for the first labels, in order, with how each ended.
pub open spec fn label_runs(c: GhClient, outcomes: Seq<GhOutcome>) -> Seq<GhStep> {
    Seq::new(
        outcomes.len(),
        |i: int| GhStep::Run(github::label_request(c, github::all_labels()[i]), outcomes[i]),
    )
}

/// Whether the first requests for labels ended without an error: each label was created, or
/// was there already.
pub open spec fn labels_made(outcomes: Seq<GhOutcome>, n: int) -> bool {
    forall|i: int| 0 <= i < n ==> github::label_reply(#[trigger] outcomes[i]) is None
}

/// Whether a label was asked for that could not be created, and then nothing more was done;
/// those before it were created, or were there already.
pub open spec fn label_failed<P: GhPort>(
    before: GithubStore<P>,
    age: Option<(u64, u32)>,
    outcomes: Seq<GhOutcome>,
    after: GithubStore<P>,
    e: TaskSourceError,
) -> bool {
    &&& 0 < outcomes.len() <= github::all_labels().len()
    &&& labels_made(outcomes, outcomes.len() - 1)
    &&& github::label_reply(outcomes.last()) == Some(e@)
    &&& after.recorded().after_steps(
        &before.recorded(),
        seq![GhStep::Age(before.marker(), age)] + label_runs(before.inner().api_client(), outcomes),
    )
}

/// Whether every label was created, or was there already, and then the file that says so was
/// to be written, with the given result.
pub open spec fn all_labels_made<P: GhPort>(
    before: GithubStore<P>,
    age: Option<(u64, u32)>,
    outcomes: Seq<GhOutcome>,
    content: Seq<char>,
    done: Result<(), String>,
    after: GithubStore<P>,
) -> bool {
    &&& outcomes.len() == github::all_labels().len()
    &&& labels_made(outcomes, outcomes.len() as int)
    &&& is_stamp(content)
    &&& after.recorded().after_steps(
        &before.recorded(),
        (seq![GhStep::Age(before.marker(), age)] + label_runs(
            before.inner().api_client(),
            outcomes,
        )).push(GhStep::WriteFile(before.marker(), content, done)),
    )
}

/// What set-up comes to, given the age of the file that says when it was done. Where it was
/// done recently, nothing more is asked. Else it asks for every label, one after the other, and
/// then notes that it is done; at the first error it ends.
pub open spec fn set_up<P: GhPort>(
    before: GithubStore<P>,
    age: Option<(u64, u32)>,
    after: GithubStore<P>,
    r: TaskSourceResult<()>,
) -> bool {
    if github::recently_set_up(age) {
        r is Ok && after.recorded().after_steps(
            &before.recorded(),
            seq![GhStep::Age(before.marker(), age)],
        )
    } else {
        ||| exists|outcomes: Seq<GhOutcome>, content: Seq<char>, done: Result<(), String>|
            #[trigger]
            all_labels_made(before, age, outcomes, content, done, after) && r
                == task_source::outside_result(done)
        ||| r is Err && exists|outcomes: Seq<GhOutcome>| #[trigger]
            label_failed(before, age, outcomes, after, r->Err_0)
    }
}

/// What set-up comes to. The source in memory stays as it is.
pub open spec fn setup_result<P: GhPort>(
    before: GithubStore<P>,
    after: GithubStore<P>,
    r: TaskSourceResult<()>,
) -> bool {
    after.inner() == before.inner() && exists|age: Option<(u64, u32)>| #[trigger]
        set_up(before, age, after, r)
}

/// What a refresh comes to: the tasks stand for the issues that were fetched, or fetching them
/// ended in an error and the tasks stay as they were.
pub open spec fn refresh_result<P: GhPort>(
    before: GithubStore<P>,
    after: GithubStore<P>,
    r: TaskSourceResult<()>,
) -> bool {
    match r {
        Ok(_) => {
            &&& after.inner().api_client() == before.inner().api_client()
            &&& after.inner().settings() == before.inner().settings()
            &&& after.inner().root() == before.inner().root()
            &&& tasks_fetched(
                &before.recorded(),
                before.inner().api_client(),
                &after.recorded(),
                after.inner().held(),
            )
        },
        Err(e) => after.inner() == before.inner() && not_fetched(
            &before.recorded(),
            before.inner().api_client(),
            &after.recorded(),
            e,
        ),
    }
}

/// Whether a change of the tasks was refused, nothing changed and nothing was asked.
pub open spec fn change_refused<P: GhPort, T>(
    before: GithubStore<P>,
    change: Seq<char>,
    after: GithubStore<P>,
    r: TaskSourceResult<T>,
) -> bool {
    after == before && r is Err && r->Err_0@ == github::unsupported_change(change)
}

/// Whether nothing was asked of the outside world yet.
pub open spec fn unasked<P: GhPort>(gh: RecordedGh<P>, port: P) -> bool {
    gh.port() == port && gh.steps() == Seq::<GhStep>::empty()
}

/// Whether looking for a token, and nothing before it, came to the result and left the outside
/// world as given.
pub open spec fn token_found<P: GhPort>(
    port: P,
    config: Option<Seq<char>>,
    after: RecordedGh<P>,
    r: Result<Seq<char>, ErrorView>,
) -> bool {
    exists|start: RecordedGh<P>| #[trigger]
        unasked(start, port) && token_resolved(&start, config, &after, r)
}

/// The contents of an owned optional string, as a slice.
fn slice_of(s: &Option<String>) -> (r: Option<&str>)
    ensures
        task_source::opt_str(r) == json::opt_text(*s),
{
    match s {
        Some(s) => Some(s.as_str()),
        None => None,
    }
}

/// Looks for a token: in the configuration, in the environment variables `GITHUB_TOKEN` and
/// `RALPH_GITHUB_TOKEN`, and last by `gh auth token`. Each is asked only where those before it
/// gave none.
pub fn resolve_token<P: GhPort>(
    config_token: Option<&str>,
    gh: &mut RecordedGh<P>,
) -> (r: TaskSourceResult<String>)
    ensures
        token_resolved(old(gh), task_source::opt_str(config_token), final(gh), api::text_result(r)),
{
    let ghost start = *gh;
    let ghost config = task_source::opt_str(config_token);
    if let Some(token) = resolve_token_from(config_token, None, None) {
        return Ok(token);
    }
    let github = gh.env("GITHUB_TOKEN");
    let ghost s1 = Seq::<GhStep>::empty().push(GhStep::Env("GITHUB_TOKEN"@, github));
    let ghost first = *gh;
    proof {
        port::lemma_no_step(start);
        port::lemma_one_more_step(
            start,
            Seq::empty(),
            start,
            GhStep::Env("GITHUB_TOKEN"@, github),
            first,
        );
        assert(s1 =~= seq![GhStep::Env("GITHUB_TOKEN"@, github)]);
    }
    if let Some(token) = resolve_token_from(None, slice_of(&github), None) {
        let r: TaskSourceResult<String> = Ok(token);
        assert(token_of_github(&start, github, gh, api::text_result(r)));
        return r;
    }
    let ralph = gh.env("RALPH_GITHUB_TOKEN");
    let ghost s2 = s1.push(GhStep::Env("RALPH_GITHUB_TOKEN"@, ralph));
    let ghost second = *gh;
    proof {
        port::lemma_one_more_step(
            start,
            s1,
            first,
            GhStep::Env("RALPH_GITHUB_TOKEN"@, ralph),
            second,
        );
        assert(s2 =~= seq![
            GhStep::Env("GITHUB_TOKEN"@, github),
            GhStep::Env("RALPH_GITHUB_TOKEN"@, ralph),
        ]);
    }
    let r: TaskSourceResult<String> = match resolve_token_from(None, None, slice_of(&ralph)) {
        Some(token) => Ok(token),
        None => {
            let outcome = gh.gh_auth_token();
            let ghost o = outcome;
            proof {
                port::lemma_one_more_step(start, s2, second, GhStep::AuthToken(o), *gh);
                assert(s2.push(GhStep::AuthToken(o)) =~= seq![
                    GhStep::Env("GITHUB_TOKEN"@, github),
                    GhStep::Env("RALPH_GITHUB_TOKEN"@, ralph),
                    GhStep::AuthToken(o),
                ]);
                assert(asked_gh(&start, github, ralph, o, gh));
            }
            token_of_gh(outcome)
        },
    };
    assert(token_of_ralph(&start, github, ralph, gh, api::text_result(r)));
    assert(token_of_github(&start, github, gh, api::text_result(r)));
    r
}

/// The GitHub task source, with what it needs to reach GitHub.
pub struct GithubStore<P: GhPort> {
    source: GithubTaskSource,
    gh: RecordedGh<P>,
}

impl<P: GhPort> GithubStore<P> {
    /// The task source in memory.
    pub closed spec fn inner(&self) -> GithubTaskSource {
        self.source
    }

    /// What the source reaches GitHub by, with what was asked of it.
    pub closed spec fn recorded(&self) -> RecordedGh<P> {
        self.gh
    }

    /// The file whose age says when set-up was last done.
    pub open spec fn marker(&self) -> Seq<char> {
        github::setup_marker(self.inner().root())
    }

    /// The task source of a configuration, at work through a port. What is wrong with the
    /// configuration is reported first; then a token is looked for.
    pub fn from_config(
        settings: GithubSettings,
        workspace_root: &str,
        port: P,
    ) -> (r: TaskSourceResult<Self>)
        ensures
            match github::settings_error(settings) {
                Some(e) => r is Err && r->Err_0@ == e,
                None => match r {
                    Ok(s) => {
                        &&& s.inner().held() == Seq::<TaskView>::empty()
                        &&& s.inner().filter() is None
                        &&& s.inner().settings() == settings->Read_0
                        &&& s.inner().root() == workspace_root@
                        &&& text::split_at_first(settings->Read_0.repo@, '/') == Some(
                            (s.inner().api_client().owner_text(), s.inner().api_client().repo_text()),
                        )
                        &&& token_found(
                            port,
                            json::opt_text(settings->Read_0.token),
                            s.recorded(),
                            Ok(s.inner().api_client().token_text()),
                        )
                    },
                    Err(e) => exists|after: RecordedGh<P>| #[trigger]
                        token_found(
                            port,
                            json::opt_text(settings->Read_0.token),
                            after,
                            Err(e@),
                        ),
                },
            },
    {
        let mut gh = RecordedGh::new(port);
        let ghost start = gh;
        assert(unasked(start, port));
        let token: TaskSourceResult<String> = match &settings {
            GithubSettings::Read(c) => match c.validate() {
                Ok(_) => resolve_token(slice_of(&c.token), &mut gh),
                Err(_) => Ok(String::new()),
            },
            _ => Ok(String::new()),
        };
        let ghost found = api::text_result(token);
        let ghost after = gh;
        let ghost fine = github::settings_error(settings) is None;
        assert(fine ==> token_found(port, json::opt_text(settings->Read_0.token), after, found));
        match GithubTaskSource::from_config(settings, workspace_root, token) {
            Ok(source) => Ok(GithubStore { source, gh }),
            Err(e) => Err(e),
        }
    }
}

impl<P: GhPort> TaskSource for GithubStore<P> {
    open spec fn tasks(&self) -> Seq<TaskView> {
        self.inner().held()
    }

    open spec fn loop_filter(&self) -> Option<Seq<char>> {
        self.inner().filter()
    }

    open spec fn set_up_to(&self, after: &Self, r: TaskSourceResult<()>) -> bool {
        setup_result(*self, *after, r)
    }

    open spec fn refreshed_to(&self, after: &Self, r: TaskSourceResult<()>) -> bool {
        refresh_result(*self, *after, r)
    }

    open spec fn limited_to(&self, loop_id: Option<Seq<char>>, after: &Self) -> bool {
        &&& after.recorded() == self.recorded()
        &&& after.inner().api_client() == self.inner().api_client()
        &&& after.inner().settings() == self.inner().settings()
        &&& after.inner().root() == self.inner().root()
        &&& after.inner().held() == self.inner().held()
        &&& after.inner().filter() == loop_id
    }

    open spec fn added_to(&self, task: Task, after: &Self, r: TaskSourceResult<Task>) -> bool {
        change_refused(*self, "add"@, *after, r)
    }

    open spec fn ensured_to(&self, task: Task, after: &Self, r: TaskSourceResult<Task>) -> bool {
        change_refused(*self, "ensure"@, *after, r)
    }

    open spec fn closed_to(
        &self,
        id: Seq<char>,
        after: &Self,
        r: TaskSourceResult<Option<Task>>,
    ) -> bool {
        change_refused(*self, "close"@, *after, r)
    }

    open spec fn started_to(
        &self,
        id: Seq<char>,
        after: &Self,
        r: TaskSourceResult<Option<Task>>,
    ) -> bool {
        change_refused(*self, "start"@, *after, r)
    }

    open spec fn failed_to(
        &self,
        id: Seq<char>,
        after: &Self,
        r: TaskSourceResult<Option<Task>>,
    ) -> bool {
        change_refused(*self, "fail"@, *after, r)
    }

    open spec fn reopened_to(
        &self,
        id: Seq<char>,
        after: &Self,
        r: TaskSourceResult<Option<Task>>,
    ) -> bool {
        change_refused(*self, "reopen"@, *after, r)
    }

    fn setup(&mut self) -> (r: TaskSourceResult<()>) {
        let ghost before = *self;
        let ghost start = self.gh;
        let ghost c = self.source.api_client();
        let ghost marker = self.marker();
        let file = self.source.setup_cache_path();
        let path = file.as_str();
        let age = self.gh.age(path);
        let ghost look = GhStep::Age(marker, age);
        let ghost mut outcomes: Seq<GhOutcome> = Seq::empty();
        proof {
            port::lemma_no_step(start);
            port::lemma_one_more_step(start, Seq::empty(), start, look, self.gh);
            assert(Seq::<GhStep>::empty().push(look) =~= seq![look]);
            assert(seq![look] + label_runs(c, outcomes) =~= seq![look]);
        }
        let mut action = self.source.setup_start(age);
        let mut place: usize = 0;
        loop
            invariant
                before == *old(self),
                self.source == before.source,
                start == before.gh,
                c == self.source.api_client(),
                marker == before.marker(),
                path@ == marker,
                look == GhStep::Age(marker, age),
                place == outcomes.len(),
                place <= github::all_labels().len(),
                labels_made(outcomes, place as int),
                self.gh.after_steps(&start, seq![look] + label_runs(c, outcomes)),
                match action {
                    SetupAction::Skip => github::recently_set_up(age) && place == 0,
                    SetupAction::Create(q) => !github::recently_set_up(age) && place
                        < github::all_labels().len() && q@ == github::label_request(
                        c,
                        github::all_labels()[place as int],
                    ),
                    SetupAction::WriteCache => !github::recently_set_up(age) && place
                        == github::all_labels().len(),
                    SetupAction::Stop(e) => false,
                },
            decreases github::all_labels().len() - place,
        {
            let ghost steps = seq![look] + label_runs(c, outcomes);
            let ghost earlier = self.gh;
            match action {
                SetupAction::Create(request) => {
                    let outcome = self.gh.run(&request);
                    let ghost o = outcome;
                    let ghost more = outcomes.push(o);
                    proof {
                        let step = GhStep::Run(request@, o);
                        port::lemma_one_more_step(start, steps, earlier, step, self.gh);
                        assert(steps.push(step) =~= seq![look] + label_runs(c, more));
                    }
                    let next = self.source.setup_next(place, outcome);
                    match next {
                        SetupAction::Stop(e) => {
                            let r: TaskSourceResult<()> = Err(e);
                            assert(label_failed(before, age, more, *self, r->Err_0));
                            assert(set_up(before, age, *self, r));
                            return r;
                        },
                        other => {
                            proof {
                                outcomes = more;
                            }
                            action = other;
                        },
                    }
                    place = place + 1;
                },
                SetupAction::Skip => {
                    let r: TaskSourceResult<()> = Ok(());
                    assert(steps =~= seq![look]);
                    assert(set_up(before, age, *self, r));
                    return r;
                },
                SetupAction::Stop(e) => {
                    return Err(e);
                },
                SetupAction::WriteCache => {
                    let now = utc_now();
                    let stamp = to_rfc3339(now);
                    let content = stamp.as_str();
                    assert(content@ == clock::stamp_of(now));
                    assert(is_stamp(content@));
                    let done = self.gh.write_file(path, content);
                    let ghost result = done;
                    let r = from_outside(done);
                    proof {
                        port::lemma_one_more_step(
                            start,
                            steps,
                            earlier,
                            GhStep::WriteFile(marker, content@, result),
                            self.gh,
                        );
                        assert(all_labels_made(before, age, outcomes, content@, result, *self));
                        assert(set_up(before, age, *self, r));
                    }
                    return r;
                },
            }
        }
    }

    fn refresh(&mut self) -> (r: TaskSourceResult<()>) {
        let ghost before = *self;
        let names = self.source.refresh_labels();
        match self.source.client().list_issues(&mut self.gh, &names, "all") {
            Err(e) => Err(e),
            Ok(issues) => {
                self.source.refresh_with(&issues);
                assert(tasks_fetched(
                    &before.recorded(),
                    before.inner().api_client(),
                    &self.recorded(),
                    self.inner().held(),
                ));
                Ok(())
            },
        }
    }

    fn set_loop_filter(&mut self, loop_id: Option<&str>) {
        self.source.set_loop_filter(loop_id);
    }

    fn get(&self, id: &str) -> (r: TaskSourceResult<Option<Task>>)
        ensures
            r is Ok,
    {
        self.source.get(id)
    }

    fn get_by_key(&self, key: &str) -> (r: TaskSourceResult<Option<Task>>)
        ensures
            r is Ok,
    {
        self.source.get_by_key(key)
    }

    fn all(&self) -> (r: TaskSourceResult<Vec<Task>>)
        ensures
            r is Ok,
    {
        self.source.all()
    }

    fn open(&self) -> (r: TaskSourceResult<Vec<Task>>)
        ensures
            r is Ok,
    {
        self.source.open()
    }

    fn pending(&self) -> (r: TaskSourceResult<Vec<Task>>)
        ensures
            r is Ok,
    {
        self.source.pending()
    }

    fn ready(&self) -> (r: TaskSourceResult<Vec<Task>>)
        ensures
            r is Ok,
    {
        self.source.ready()
    }

    fn add(&mut self, task: Task) -> (r: TaskSourceResult<Task>) {
        self.source.add(task)
    }

    fn close(&mut self, id: &str) -> (r: TaskSourceResult<Option<Task>>) {
        self.source.close(id)
    }

    fn start(&mut self, id: &str) -> (r: TaskSourceResult<Option<Task>>) {
        self.source.start(id)
    }

    fn fail(&mut self, id: &str) -> (r: TaskSourceResult<Option<Task>>) {
        self.source.fail(id)
    }

    fn reopen(&mut self, id: &str) -> (r: TaskSourceResult<Option<Task>>) {
        self.source.reopen(id)
    }

    fn ensure(&mut self, task: Task) -> (r: TaskSourceResult<Task>) {
        self.source.ensure(task)
    }
}

} // verus!
