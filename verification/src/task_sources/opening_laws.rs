//! How stores are chosen, opened, queried and read anew.

use crate::config;
use crate::config::{ConnectorConfig, TaskSourceConfig};
use crate::json;
use crate::pattern;
use crate::task;
use crate::task::{Task, TaskView};
use crate::task_cli;
use crate::task_source;
use crate::task_source::{TaskSource, TaskSourceError, TaskSourceResult};
use crate::task_source_registry;
use crate::task_source_registry::TaskSourceRegistry;
use crate::task_sources::github;
use crate::task_sources::github::api;
use crate::task_sources::github::api::{GhClient, GhIssue, GhOutcome};
use crate::task_sources::github::config::GithubTaskSourceConfig;
use crate::task_sources::github::port::{GhPort, GhStep, RecordedGh};
use crate::task_sources::github::reply_laws;
use crate::task_sources::github::store;
use crate::task_sources::github::store::resolve_token;
use crate::task_sources::any::AnyTaskSource;
use crate::task_sources::github::store::GithubStore;
use crate::task_sources::github::{GhTokenOutcome, GithubSettings, GithubTaskSource};
use crate::task_sources::jsonl;
use crate::task_sources::jsonl_laws;
use crate::task_sources::jsonl_store;
use crate::task_sources::jsonl_store::JsonlStore;
use crate::task_sources::mock::MockTaskSource;
use crate::task_sources::task_file::{FileStep, RecordedFile, TaskFile};
use crate::text;
use vstd::prelude::*;
use vstd::string::*;

verus! {

/// The source in memory answers each query, unless an error is injected for it; then it fails
/// with that error alone.
pub proof fn mock_queries_fail_by_injection(
    s: &MockTaskSource,
    x: &str,
    got: TaskSourceResult<Option<Task>>,
    keyed: TaskSourceResult<Option<Task>>,
    all: TaskSourceResult<Vec<Task>>,
    open: TaskSourceResult<Vec<Task>>,
    pending: TaskSourceResult<Vec<Task>>,
    ready: TaskSourceResult<Vec<Task>>,
)
    requires
        call_ensures(MockTaskSource::get, (s, x), got),
        call_ensures(MockTaskSource::get_by_key, (s, x), keyed),
        call_ensures(MockTaskSource::all, (s,), all),
        call_ensures(MockTaskSource::open, (s,), open),
        call_ensures(MockTaskSource::pending, (s,), pending),
        call_ensures(MockTaskSource::ready, (s,), ready),
    ensures
        got is Err <==> s.error_for("get"@) is Some,
        keyed is Err <==> s.error_for("get_by_key"@) is Some,
        all is Err <==> s.error_for("all"@) is Some,
        open is Err <==> s.error_for("open"@) is Some,
        pending is Err <==> s.error_for("pending"@) is Some,
        ready is Err <==> s.error_for("ready"@) is Some,
{
}

/// Setting up the source in memory, and reading it anew, changes no task.
pub proof fn mock_keeps_its_tasks(s: &mut MockTaskSource, r: TaskSourceResult<()>)
    ensures
        call_ensures(MockTaskSource::setup, (s,), r) ==> final(s).tasks() == old(s).tasks() && (r
            is Err <==> old(s).error_for("setup"@) is Some),
        call_ensures(MockTaskSource::refresh, (s,), r) ==> final(s).tasks() == old(s).tasks() && (r
            is Err <==> old(s).error_for("refresh"@) is Some),
{
}

/// Setting up the file store creates the directory of its file, does nothing else to the file,
/// and fails where that fails.
pub proof fn file_set_up_creates_the_directory<F: TaskFile>(
    s: &mut JsonlStore<F>,
    r: TaskSourceResult<()>,
)
    requires
        call_ensures(JsonlStore::<F>::setup, (s,), r),
    ensures
        ({
            let n = old(s).recorded().steps().len() as int;
            let a = final(s).recorded().steps();
            &&& final(s).tasks() == old(s).tasks()
            &&& a.len() == n + 1 && a.take(n) == old(s).recorded().steps()
            &&& a[n] is CreateDirectory
            &&& match a[n]->CreateDirectory_0 {
                Ok(_) => r is Ok,
                Err(m) => r is Err && r->Err_0 is Other && r->Err_0->Other_0@ == m@,
            }
        }),
{
    let n = old(s).recorded().steps().len() as int;
    let a = final(s).recorded().steps();
    let done = choose|done: Result<(), String>| #[trigger]
        jsonl_store::directory_created(*old(s), done, *final(s)) && r == task_source::outside_result(
            done,
        );
    let more = seq![FileStep::CreateDirectory(done)];
    assert(a == old(s).recorded().steps() + more);
    assert(a[n] == more[0]);
    assert(a.take(n) =~= old(s).recorded().steps());
}

/// Reading the file store anew locks its file against writing, reads it and lets it go. The
/// tasks are then those of the lines of the file that hold one; where the file cannot be locked
/// or read they stay.
pub proof fn file_refresh_reads_the_file<F: TaskFile>(
    s: &mut JsonlStore<F>,
    r: TaskSourceResult<()>,
)
    requires
        call_ensures(JsonlStore::<F>::refresh, (s,), r),
    ensures
        ({
            let n = old(s).recorded().steps().len() as int;
            let a = final(s).recorded().steps();
            &&& a.len() > n && a.take(n) == old(s).recorded().steps()
            &&& a[n] is LockShared
            &&& r is Err ==> final(s).tasks() == old(s).tasks()
            &&& a[n] == FileStep::LockShared(Ok(())) ==> a.len() == n + 3 && a[n + 1] is Read && a[n
                + 2] == FileStep::Unlock
            &&& a[n] != FileStep::LockShared(Ok(())) ==> r is Err && a.len() == n + 1
            &&& r is Ok ==> a[n + 1]->Read_0 is Ok && jsonl_store::holds_tasks(
                &old(s).port(),
                a[n + 1]->Read_0->Ok_0,
                final(s).tasks(),
            )
        }),
{
    let b = old(s).recorded().steps();
    let n = b.len() as int;
    let a = final(s).recorded().steps();
    match r {
        Ok(_) => {
            let content = choose|content: Option<String>| #[trigger]
                jsonl_store::tasks_refreshed(*old(s), content, *final(s));
            let more = seq![
                FileStep::LockShared(Ok(())),
                FileStep::Read(Ok(content)),
                FileStep::Unlock,
            ];
            assert(a == b + more);
            assert(a[n] == more[0] && a[n + 1] == more[1] && a[n + 2] == more[2]);
        },
        Err(e) => {
            let one = seq![FileStep::LockShared(Err(e->Other_0))];
            let three = seq![
                FileStep::LockShared(Ok(())),
                FileStep::Read(Err(e->Other_0)),
                FileStep::Unlock,
            ];
            if a == b + one {
                assert(a[n] == one[0]);
            } else {
                assert(a == b + three);
                assert(a[n] == three[0] && a[n + 1] == three[1] && a[n + 2] == three[2]);
            }
        },
    }
    assert(a.take(n) =~= b);
}

/// A change of the file store begins with a lock that keeps others out. Where it is not given
/// nothing else is done; where it is, it is given up at the end, whatever happens. A change
/// that fails has written nothing.
pub proof fn file_locks_are_given_up<F: TaskFile>(
    s: &mut JsonlStore<F>,
    id: &str,
    r: TaskSourceResult<Option<Task>>,
)
    requires
        call_ensures(JsonlStore::<F>::close, (s, id), r),
    ensures
        ({
            let n = old(s).recorded().steps().len() as int;
            let a = final(s).recorded().steps();
            &&& a.len() > n
            &&& a[n] is LockExclusive
            &&& a[n] == FileStep::LockExclusive(Ok(())) ==> a.last() == FileStep::Unlock
            &&& a[n] != FileStep::LockExclusive(Ok(())) ==> a.len() == n + 1 && r is Err
                && final(s).tasks() == old(s).tasks()
            &&& r is Err ==> forall|k: int|
                n <= k < a.len() && (#[trigger] a[k]) is Write ==> a[k]->Write_1 is Err
        }),
{
    let x = choose|x: String|
        x@ == id@ && #[trigger] jsonl_store::change_result(
            *old(s),
            jsonl::Mutation::Close(x),
            *final(s),
            r,
        );
    let m = jsonl::Mutation::Close(x);
    match r {
        Ok(t) => {
            let (content, text) = choose|content: Option<String>, text: Seq<char>| #[trigger]
                jsonl_store::change_written(
                    *old(s),
                    m,
                    content,
                    text,
                    Ok(()),
                    *final(s),
                    task::opt_view(t),
                );
            lemma_appended(
                old(s).recorded().steps(),
                seq![
                    FileStep::LockExclusive(Ok(())),
                    FileStep::Read(Ok(content)),
                    FileStep::Write(text, Ok(())),
                    FileStep::Unlock,
                ],
                final(s).recorded().steps(),
            );
        },
        Err(e) => {
            lemma_failed(*old(s), m, *final(s), e);
        },
    }
}

proof fn lemma_appended(b: Seq<FileStep>, more: Seq<FileStep>, a: Seq<FileStep>)
    requires
        a == b + more,
        more.len() > 0,
    ensures
        a[b.len() as int] == more[0],
        a.last() == more.last(),
        a.len() == b.len() + more.len(),
        forall|k: int| b.len() <= k < a.len() ==> #[trigger] a[k] == more[k - b.len()],
{
}

proof fn lemma_failed<F: TaskFile>(
    before: JsonlStore<F>,
    m: jsonl::Mutation,
    after: JsonlStore<F>,
    e: TaskSourceError,
)
    requires
        jsonl_store::change_failed(before, m, after, e),
    ensures
        ({
            let n = before.recorded().steps().len() as int;
            let a = after.recorded().steps();
            &&& a.len() > n
            &&& a[n] is LockExclusive
            &&& a[n] == FileStep::LockExclusive(Ok(())) ==> a.last() == FileStep::Unlock
            &&& a[n] != FileStep::LockExclusive(Ok(())) ==> a.len() == n + 1 && after.tasks()
                == before.tasks()
            &&& forall|k: int|
                n <= k < a.len() && (#[trigger] a[k]) is Write ==> a[k]->Write_1 is Err
        }),
{
    let b = before.recorded().steps();
    let a = after.recorded().steps();
    let one = seq![FileStep::LockExclusive(Err(e->Other_0))];
    let three = seq![
        FileStep::LockExclusive(Ok(())),
        FileStep::Read(Err(e->Other_0)),
        FileStep::Unlock,
    ];
    if e is Other && after.inner() == before.inner() && after.recorded().after_steps(
        &before.recorded(),
        one,
    ) {
        lemma_appended(b, one, a);
    } else if e is Other && after.inner() == before.inner() && after.recorded().after_steps(
        &before.recorded(),
        three,
    ) {
        lemma_appended(b, three, a);
    } else if exists|content: Option<String>, reply: Option<TaskView>| #[trigger]
        jsonl_store::change_not_encoded(before, m, content, after, reply, e) {
        let (content, reply) = choose|content: Option<String>, reply: Option<TaskView>| #[trigger]
            jsonl_store::change_not_encoded(before, m, content, after, reply, e);
        lemma_appended(
            b,
            seq![FileStep::LockExclusive(Ok(())), FileStep::Read(Ok(content)), FileStep::Unlock],
            a,
        );
    } else {
        let (content, text, reply) = choose|
            content: Option<String>,
            text: Seq<char>,
            reply: Option<TaskView>,
        | #[trigger]
            jsonl_store::change_written(before, m, content, text, Err(e->Other_0), after, reply);
        lemma_appended(
            b,
            seq![
                FileStep::LockExclusive(Ok(())),
                FileStep::Read(Ok(content)),
                FileStep::Write(text, Err(e->Other_0)),
                FileStep::Unlock,
            ],
            a,
        );
    }
}

/// Whether there is a token and it is not empty.
pub open spec fn usable(t: Option<Seq<char>>) -> bool {
    t is Some && t->0.len() > 0
}

/// A token of the configuration is taken without asking for another. Else `GITHUB_TOKEN` is read
/// and taken where it is usable, else `RALPH_GITHUB_TOKEN`, and last `gh auth token` is asked;
/// nothing is asked that is not needed.
pub proof fn tokens_are_asked_for_in_order<P: GhPort>(
    config_token: Option<&str>,
    gh: &mut RecordedGh<P>,
    r: TaskSourceResult<String>,
)
    requires
        call_ensures(resolve_token::<P>, (config_token, gh), r),
    ensures
        ({
            let b = old(gh).steps();
            let a = final(gh).steps();
            let n = b.len() as int;
            let given = task_source::opt_str(config_token);
            &&& usable(given) ==> r is Ok && r->Ok_0@ == given->0 && a == b
            &&& !usable(given) ==> {
                &&& a.len() > n && a[n] is Env && a[n]->Env_0 == "GITHUB_TOKEN"@
                &&& usable(json::opt_text(a[n]->Env_1)) ==> r is Ok && r->Ok_0@ == a[n]->Env_1->0@
                    && a.len() == n + 1
                &&& !usable(json::opt_text(a[n]->Env_1)) ==> {
                    &&& a.len() > n + 1 && a[n + 1] is Env && a[n + 1]->Env_0
                        == "RALPH_GITHUB_TOKEN"@
                    &&& usable(json::opt_text(a[n + 1]->Env_1)) ==> r is Ok && r->Ok_0@ == a[n
                        + 1]->Env_1->0@ && a.len() == n + 2
                    &&& !usable(json::opt_text(a[n + 1]->Env_1)) ==> a.len() == n + 3 && a[n + 2]
                        is AuthToken && api::text_result(r) == github::gh_token(
                        a[n + 2]->AuthToken_0,
                    )
                }
            }
        }),
{
    let b = old(gh).steps();
    let a = final(gh).steps();
    let n = b.len() as int;
    let given = task_source::opt_str(config_token);
    let t = api::text_result(r);
    if !usable(given) {
        let first = choose|first: Option<String>| #[trigger]
            store::token_of_github(old(gh), first, final(gh), t);
        let s1 = GhStep::Env("GITHUB_TOKEN"@, first);
        if usable(json::opt_text(first)) {
            assert(a == b + seq![s1]);
            assert(a[n] == s1);
        } else {
            let second = choose|second: Option<String>| #[trigger]
                store::token_of_ralph(old(gh), first, second, final(gh), t);
            let s2 = GhStep::Env("RALPH_GITHUB_TOKEN"@, second);
            if usable(json::opt_text(second)) {
                assert(a == b + seq![s1, s2]);
                assert(a[n] == s1 && a[n + 1] == s2);
            } else {
                let o = choose|o: GhTokenOutcome| #[trigger]
                    store::asked_gh(old(gh), first, second, o, final(gh)) && t == github::gh_token(
                        o,
                    );
                let s3 = GhStep::AuthToken(o);
                assert(a == b + seq![s1, s2, s3]);
                assert(a[n] == s1 && a[n + 1] == s2 && a[n + 2] == s3);
            }
        }
    }
}

/// A GitHub source cannot be made without a configuration, from one that cannot be read, from
/// one that is refused, or without a token; each is reported as what it is. Else it holds no
/// tasks, is not limited to a loop, and talks to the repository of the configuration with the
/// token.
pub proof fn github_sources_need_settings_and_a_token(
    settings: GithubSettings,
    root: &str,
    token: TaskSourceResult<String>,
    r: TaskSourceResult<GithubTaskSource>,
    checked: Result<(), String>,
)
    requires
        call_ensures(GithubTaskSource::from_config, (settings, root, token), r),
        settings matches GithubSettings::Read(c) ==> call_ensures(
            GithubTaskSourceConfig::validate,
            (&c,),
            checked,
        ),
    ensures
        match settings {
            GithubSettings::Absent => r is Err && r->Err_0 is Config && r->Err_0->Config_0@
                == "GitHub task source requires config"@,
            GithubSettings::Unreadable(e) => r is Err && r->Err_0 is Config && r->Err_0->Config_0@
                == "invalid GitHub config: "@ + e@,
            GithubSettings::Read(c) => match checked {
                Err(m) => r is Err && r->Err_0 is Config && r->Err_0->Config_0@ == m@,
                Ok(_) => match token {
                    Err(e) => r is Err && r->Err_0 == e,
                    Ok(t) => {
                        &&& r is Ok
                        &&& r->Ok_0.held().len() == 0
                        &&& r->Ok_0.filter() is None
                        &&& r->Ok_0.root() == root@
                        &&& r->Ok_0.api_client().token_text() == t@
                        &&& c.repo@ == r->Ok_0.api_client().owner_text() + seq!['/']
                            + r->Ok_0.api_client().repo_text()
                        &&& !r->Ok_0.api_client().owner_text().contains('/')
                    },
                },
            },
        },
{
    if let GithubSettings::Read(c) = settings {
        text::lemma_split_at_first(c.repo@, '/');
    }
}

/// A source that nothing is registered under is refused by its name. A source chosen by name
/// alone has no configuration, and without a choice it is the JSONL source.
pub proof fn unknown_sources_are_refused<S: TaskSource, F>(
    registry: &TaskSourceRegistry<F>,
    c: TaskSourceConfig,
    root: &str,
    r: TaskSourceResult<S>,
    usual: TaskSourceConfig,
) where F: Fn(&ConnectorConfig, &str) -> TaskSourceResult<S>
    requires
        call_ensures(TaskSourceRegistry::<F>::create::<S>, (registry, &c, root), r),
        call_ensures(TaskSourceConfig::default, (), usual),
    ensures
        ({
            let name = match c {
                TaskSourceConfig::Named(n) => n@,
                TaskSourceConfig::Typed { source_type, .. } => source_type@,
            };
            registry.factory_for(name) is None ==> r is Err && r->Err_0 is Config
                && r->Err_0->Config_0@ == "unknown task source type: "@ + name
        }),
        usual matches TaskSourceConfig::Named(n) ==> n@ == "jsonl"@,
        usual matches TaskSourceConfig::Typed { source_type, config } ==> source_type@ == "jsonl"@
            && config is Null,
{
}

/// A source that was chosen and could not be made or set up is no source; the error is reported
/// to the user as one of making it.
pub proof fn failed_choices_are_reported<S>(made: TaskSourceResult<S>, r: Result<S, String>)
    requires
        call_ensures(task_cli::report_create::<S>, (made,), r),
    ensures
        made matches Ok(s) ==> r is Ok && r->Ok_0 == s,
        made is Err ==> r is Err && "Failed to create task source: "@.is_prefix_of(r->Err_0@),
{
    if let Err(e) = made {
        let what = "Failed to create task source: "@;
        assert(r->Err_0@.take(what.len() as int) =~= what);
    }
}

/// Asking for an issue makes one request for its number. An answer that there is none is no
/// error.
pub proof fn issues_are_asked_for_by_number<P: GhPort>(
    c: &GhClient,
    gh: &mut RecordedGh<P>,
    number: u64,
    r: TaskSourceResult<Option<GhIssue>>,
)
    requires
        call_ensures(GhClient::get_issue::<P>, (c, gh, number), r),
    ensures
        ({
            let b = old(gh).steps();
            let a = final(gh).steps();
            let n = b.len() as int;
            &&& a.len() == n + 1
            &&& a[n] is Run
            &&& a[n]->Run_0.args == seq![
                "api"@,
                "--method"@,
                "GET"@,
                reply_laws::path_of(*c) + ("/issues/"@ + text::decimal_text(number as nat)),
            ]
            &&& (api::gh_reply(a[n]->Run_1, "null"@) matches Err(e) && e is NotFound) ==> r is Ok
                && r->Ok_0 is None
            &&& (api::gh_reply(a[n]->Run_1, "null"@) matches Err(e) && !(e is NotFound)) ==> r
                is Err
        }),
{
    let want = api::single_request(
        c.token_text(),
        "GET"@,
        c.path() + ("/issues/"@ + text::decimal_text(number as nat)),
        None,
    );
    let reply = choose|reply: Result<Seq<char>, crate::task_source::ErrorView>|
        api::answered(old(gh), want, "null"@, final(gh), reply)
            && #[trigger] api::maybe_issue_of_reply(&old(gh).port(), reply, r);
    let o = choose|o: GhOutcome| #[trigger]
        api::asked(old(gh), want, o, final(gh)) && reply == api::gh_reply(o, "null"@);
    assert(final(gh).steps()[old(gh).steps().len() as int] == GhStep::Run(want, o));
    assert(want.args =~= seq![
        "api"@,
        "--method"@,
        "GET"@,
        reply_laws::path_of(*c) + ("/issues/"@ + text::decimal_text(number as nat)),
    ]);
}

/// Reading the tasks of a file takes one step, which reads it. A file that is not there holds no
/// tasks; one that cannot be read is an error; else the tasks are those of its lines that hold
/// one, each line that is not blank being read by itself.
pub proof fn files_hold_the_tasks_of_their_lines<F: TaskFile>(
    file: &mut RecordedFile<F>,
    r: TaskSourceResult<Vec<Task>>,
)
    requires
        call_ensures(jsonl_store::read_tasks_from_file::<F>, (file,), r),
    ensures
        ({
            let b = old(file).steps();
            let a = final(file).steps();
            let n = b.len() as int;
            &&& a.len() == n + 1 && a[n] is Read
            &&& match a[n]->Read_0 {
                Err(m) => r is Err && r->Err_0 is Other && r->Err_0->Other_0@ == m@,
                Ok(None) => r is Ok && r->Ok_0@.len() == 0,
                Ok(Some(content)) => r is Ok && exists|parsed: Seq<Option<Task>>| #[trigger]
                    lines_read(&old(file).port(), content@, parsed) && task::views(r->Ok_0@)
                        == parsed.filter(|o: Option<Task>| o is Some).map_values(
                        |o: Option<Task>| o->0@,
                    ),
            }
        }),
{
    match r {
        Ok(tasks) => {
            let held = task::views(tasks@);
            assert(held.len() == tasks@.len());
            let content = choose|content: Option<String>| #[trigger]
                jsonl_store::holds_tasks(&old(file).port(), content, held) && final(file).stepped(
                    old(file),
                    FileStep::Read(Ok(content)),
                );
            let parsed = choose|parsed: Seq<Option<Task>>| #[trigger]
                jsonl_store::tasks_read(&old(file).port(), content, parsed, held);
            if let Some(c) = content {
                jsonl_laws::lemma_well_formed(parsed);
                assert(lines_read(&old(file).port(), c@, parsed));
            }
        },
        Err(e) => {},
    }
}

/// Whether each line of the contents that is not blank was read by the file, in order.
pub open spec fn lines_read<F: TaskFile>(
    file: &F,
    content: Seq<char>,
    parsed: Seq<Option<Task>>,
) -> bool {
    &&& parsed.len() == jsonl::stored_lines(content).len()
    &&& forall|i: int|
        0 <= i < parsed.len() ==> jsonl_store::text_parsed(
            file,
            jsonl::stored_lines(content)[i],
            #[trigger] parsed[i],
        )
}

/// Writing tasks to a file takes one step, which writes all of them, each encoded on a line of
/// its own and in order. Where one cannot be encoded nothing is done to the file.
pub proof fn files_are_written_whole<F: TaskFile>(
    file: &mut RecordedFile<F>,
    tasks: Vec<Task>,
    r: TaskSourceResult<()>,
)
    requires
        call_ensures(jsonl_store::write_tasks_to_file::<F>, (file, &tasks), r),
    ensures
        ({
            let b = old(file).steps();
            let a = final(file).steps();
            let n = b.len() as int;
            &&& a == b || a.len() == n + 1 && a[n] is Write
            &&& r is Ok ==> a.len() == n + 1 && a[n]->Write_1 is Ok && exists|lines: Seq<String>|
                #[trigger]
                each_on_a_line(&old(file).port(), tasks@, lines) && a[n]->Write_0
                    == jsonl::file_text(pattern::texts(lines))
            &&& r is Err && a.len() == n + 1 ==> a[n]->Write_1 is Err
            &&& r is Err && a == b ==> exists|i: int, m: String|
                0 <= i < tasks@.len() && #[trigger] jsonl_store::not_encoded(
                    &old(file).port(),
                    tasks@[i],
                    m,
                ) && r->Err_0 is Other && r->Err_0->Other_0@ == "task serialization failed: "@ + m@
        }),
{
    match r {
        Ok(_) => {
            let text = choose|text: Seq<char>| #[trigger]
                jsonl_store::encoded_text(&old(file).port(), tasks@, text) && final(file).stepped(
                    old(file),
                    FileStep::Write(text, Ok(())),
                );
            let lines = choose|lines: Seq<String>| #[trigger]
                jsonl_store::encoded_as(&old(file).port(), tasks@, lines) && text
                    == jsonl::file_text(pattern::texts(lines));
            assert(each_on_a_line(&old(file).port(), tasks@, lines));
        },
        Err(e) => {
            if final(file).steps() == old(file).steps() {
                assert(jsonl_store::some_not_encoded(&old(file).port(), tasks@, e));
                let i = choose|i: int|
                    0 <= i < tasks@.len() && jsonl_store::encoding_failed(
                        &old(file).port(),
                        #[trigger] tasks@[i],
                        e,
                    );
                let m = choose|m: String| #[trigger]
                    jsonl_store::not_encoded(&old(file).port(), tasks@[i], m) && e@
                        == task_source::ErrorView::Other("task serialization failed: "@ + m@);
                assert(jsonl_store::not_encoded(&old(file).port(), tasks@[i], m));
            }
        },
    }
}

/// Whether the lines are what the tasks were encoded as, one for each and in order.
pub open spec fn each_on_a_line<F: TaskFile>(
    file: &F,
    tasks: Seq<Task>,
    lines: Seq<String>,
) -> bool {
    lines.len() == tasks.len() && forall|i: int|
        0 <= i < tasks.len() ==> call_ensures(
            F::encode_task,
            (file, &tasks[i]),
            Ok(#[trigger] lines[i]),
        )
}

/// A source that is registered is made by its factory from its configuration and the root of
/// the workspace, and then set up. An error of the factory or of the set-up is returned; else
/// the source as it is after set-up.
pub proof fn chosen_sources_are_made_and_set_up<S: TaskSource, F>(
    registry: &TaskSourceRegistry<F>,
    c: TaskSourceConfig,
    root: &str,
    f: F,
    r: TaskSourceResult<S>,
) where F: Fn(&ConnectorConfig, &str) -> TaskSourceResult<S>
    requires
        call_ensures(TaskSourceRegistry::<F>::create::<S>, (registry, &c, root), r),
        registry.factory_for(
            match c {
                TaskSourceConfig::Named(n) => n@,
                TaskSourceConfig::Typed { source_type, .. } => source_type@,
            },
        ) == Some(f),
    ensures
        exists|product: TaskSourceResult<S>| #[trigger]
            product_of(f, given_config(c), root, product) && match product {
                Err(e) => r is Err && r->Err_0 == e,
                Ok(s) => exists|t: S, done: TaskSourceResult<()>| #[trigger]
                    s.set_up_to(&t, done) && match done {
                        Ok(_) => r is Ok && r->Ok_0 == t,
                        Err(e) => r is Err && r->Err_0 == e,
                    },
            },
{
    let product = choose|product: TaskSourceResult<S>|
        f.ensures((&config::chosen_config(c), root), product)
            && #[trigger] task_source_registry::made(product, r);
    assert(product_of(f, given_config(c), root, product));
    if let Ok(s) = product {
        let (t, done) = choose|t: S, done: TaskSourceResult<()>| #[trigger]
            task_source_registry::set_up(s, t, done, r);
        assert(s.set_up_to(&t, done));
    }
}

/// The configuration that a choice gives: none where the source is chosen by name alone.
pub open spec fn given_config(c: TaskSourceConfig) -> ConnectorConfig {
    if c is Typed {
        c->config
    } else {
        ConnectorConfig::Null
    }
}

/// Whether a factory made the product from a configuration and a root.
pub open spec fn product_of<S, F: Fn(&ConnectorConfig, &str) -> TaskSourceResult<S>>(
    f: F,
    c: ConnectorConfig,
    root: &str,
    product: TaskSourceResult<S>,
) -> bool {
    f.ensures((&c, root), product)
}

/// Opening the file store locks the file against writing, reads it and lets it go. The store is
/// on the file that the configuration names, is not limited to a loop, and holds the tasks of
/// the file.
pub proof fn file_stores_open_on_their_file<F: TaskFile>(
    c: ConnectorConfig,
    root: &str,
    file: F,
    path: String,
    r: TaskSourceResult<JsonlStore<F>>,
)
    requires
        call_ensures(JsonlStore::<F>::from_config, (&c, root, file), r),
        call_ensures(jsonl::JsonlTaskSource::path_from_config, (&c, root), path),
    ensures
        r matches Ok(s) ==> {
            &&& s.loop_filter() is None
            &&& s.inner().file() == path@
            &&& s.recorded().steps().len() == 3
            &&& s.recorded().steps()[0] == FileStep::LockShared(Ok(()))
            &&& s.recorded().steps()[1] is Read && s.recorded().steps()[1]->Read_0 is Ok
            &&& s.recorded().steps()[2] == FileStep::Unlock
            &&& jsonl_store::holds_tasks(
                &file,
                s.recorded().steps()[1]->Read_0->Ok_0,
                s.tasks(),
            )
        },
        r matches Err(e) ==> e is Other,
{
    if let Ok(s) = r {
        let content = choose|content: Option<String>| #[trigger]
            jsonl_store::opened_with(file, content, s);
        assert(s.recorded().steps()[1] == FileStep::Read(Ok(content)));
    }
}

/// A source that is one of several is that one: its tasks, its loop, and what becomes of it.
pub proof fn any_source_is_its_own<F: TaskFile, P: GhPort>(
    a: JsonlStore<F>,
    b: JsonlStore<F>,
    x: GithubStore<P>,
    y: GithubStore<P>,
    id: Seq<char>,
    t: Task,
    l: Option<Seq<char>>,
    unit: TaskSourceResult<()>,
    one: TaskSourceResult<Task>,
    found: TaskSourceResult<Option<Task>>,
)
    ensures
        ({
            let m = AnyTaskSource::<F, P>::Jsonl(a);
            let n = AnyTaskSource::<F, P>::Jsonl(b);
            &&& m.tasks() == a.tasks() && m.loop_filter() == a.loop_filter()
            &&& m.set_up_to(&n, unit) == a.set_up_to(&b, unit)
            &&& m.refreshed_to(&n, unit) == a.refreshed_to(&b, unit)
            &&& m.limited_to(l, &n) == a.limited_to(l, &b)
            &&& m.added_to(t, &n, one) == a.added_to(t, &b, one)
            &&& m.ensured_to(t, &n, one) == a.ensured_to(t, &b, one)
            &&& m.closed_to(id, &n, found) == a.closed_to(id, &b, found)
            &&& m.started_to(id, &n, found) == a.started_to(id, &b, found)
            &&& m.failed_to(id, &n, found) == a.failed_to(id, &b, found)
            &&& m.reopened_to(id, &n, found) == a.reopened_to(id, &b, found)
        }),
        ({
            let m = AnyTaskSource::<F, P>::Github(x);
            let n = AnyTaskSource::<F, P>::Github(y);
            &&& m.tasks() == x.tasks() && m.loop_filter() == x.loop_filter()
            &&& m.set_up_to(&n, unit) == x.set_up_to(&y, unit)
            &&& m.refreshed_to(&n, unit) == x.refreshed_to(&y, unit)
            &&& m.limited_to(l, &n) == x.limited_to(l, &y)
            &&& m.added_to(t, &n, one) == x.added_to(t, &y, one)
            &&& m.ensured_to(t, &n, one) == x.ensured_to(t, &y, one)
            &&& m.closed_to(id, &n, found) == x.closed_to(id, &y, found)
            &&& m.started_to(id, &n, found) == x.started_to(id, &y, found)
            &&& m.failed_to(id, &n, found) == x.failed_to(id, &y, found)
            &&& m.reopened_to(id, &n, found) == x.reopened_to(id, &y, found)
        }),
{
}

} // verus!
