//! What the stores do when tasks are changed, set up and read anew.

use crate::change_laws;
use crate::clock;
use crate::clock::Instant;
use crate::json;
use crate::query_laws;
use crate::task;
use crate::task::{Task, TaskStatus, TaskView};
use crate::task_list;
use crate::task_list::Change;
use crate::task_source;
use crate::task_source::{ErrorView, TaskSource, TaskSourceError, TaskSourceResult};
use crate::task_sources::github;
use crate::task_sources::github::api;
use crate::task_sources::github::api::{GhClient, GhIssue, GhOutcome};
use crate::task_sources::github::port::{GhPort, GhStep};
use crate::task_sources::github::reply_laws;
use crate::task_sources::github::store;
use crate::task_sources::github::store::GithubStore;
use crate::task_sources::github::GithubTaskSource;
use crate::task_sources::jsonl;
use crate::task_sources::jsonl_store;
use crate::task_sources::jsonl_store::JsonlStore;
use crate::task_sources::mock::{MockError, MockTaskSource};
use crate::task_sources::task_file::{FileStep, TaskFile};
use crate::text;
use vstd::prelude::*;
use vstd::string::*;

verus! {

/// An injected error is returned as the error of its kind with its message; one to be tried
/// again names no time.
pub proof fn injected_errors_are_returned(e: MockError, r: TaskSourceError)
    requires
        call_ensures(MockError::into_task_source_error, (e,), r),
    ensures
        match e {
            MockError::Auth(m) => r is Auth && r->Auth_0@ == m@,
            MockError::NotFound(m) => r is NotFound && r->NotFound_0@ == m@,
            MockError::Config(m) => r is Config && r->Config_0@ == m@,
            MockError::Retryable(m) => r is Retryable && r->source@ == m@ && r->retry_after is None,
            MockError::Other(m) => r is Other && r->Other_0@ == m@,
        },
{
}

/// Whether one call was counted: that of the method and no other, up to what a count can hold.
pub open spec fn one_call_counted(
    before: &MockTaskSource,
    after: &MockTaskSource,
    method: Seq<char>,
) -> bool {
    &&& before.calls_of(method) < usize::MAX ==> after.calls_of(method) == before.calls_of(method)
        + 1
    &&& forall|m: Seq<char>| m != method ==> #[trigger] after.calls_of(m) == before.calls_of(m)
}

/// The source in memory counts every change. Where an error is injected for a change it fails
/// and changes no task; else it succeeds, and the first task with the identifier is closed and
/// has the time of its end, while nothing else changes; where there is none nothing changes.
pub proof fn mock_closes_the_first(
    s: &mut MockTaskSource,
    id: &str,
    r: TaskSourceResult<Option<Task>>,
    i: int,
)
    requires
        call_ensures(MockTaskSource::close, (s, id), r),
    ensures
        one_call_counted(old(s), final(s), "close"@),
        r is Err <==> old(s).error_for("close"@) is Some,
        r is Err ==> final(s).tasks() == old(s).tasks(),
        r is Ok && query_laws::first_with_id(old(s).tasks(), id@, i) ==> exists|at: Instant| #[trigger]
            at.is_valid() && final(s).tasks() == old(s).tasks().update(
                i,
                TaskView {
                    status: TaskStatus::Closed,
                    closed: Some(clock::stamp_of(at)),
                    ..old(s).tasks()[i]
                },
            ) && task::opt_view(r->Ok_0) == Some(final(s).tasks()[i]),
        r is Ok && (forall|j: int|
            0 <= j < old(s).tasks().len() ==> (#[trigger] old(s).tasks()[j]).id != id@)
            ==> final(s).tasks() == old(s).tasks() && r->Ok_0 is None,
{
    let b = old(s).tasks();
    if let Ok(t) = r {
        let at = choose|at: Instant|
            at.is_valid() && task_source::carried_out(
                b,
                Change::Close(id@, #[trigger] clock::stamp_of(at)),
                final(s).tasks(),
                task::opt_view(t),
            );
        if query_laws::first_with_id(b, id@, i) {
            change_laws::state_changes_set_state_and_time(b, id@, clock::stamp_of(at), i);
            assert(at.is_valid());
        }
        if forall|j: int| 0 <= j < b.len() ==> (#[trigger] b[j]).id != id@ {
            change_laws::state_changes_of_no_task_do_nothing(b, id@, clock::stamp_of(at));
        }
    }
}

/// The source in memory starts the first task with the identifier: it is in progress and has
/// the time of its start, and nothing else changes.
pub proof fn mock_starts_the_first(
    s: &mut MockTaskSource,
    id: &str,
    r: TaskSourceResult<Option<Task>>,
    i: int,
)
    requires
        call_ensures(MockTaskSource::start, (s, id), r),
    ensures
        one_call_counted(old(s), final(s), "start"@),
        r is Err <==> old(s).error_for("start"@) is Some,
        r is Err ==> final(s).tasks() == old(s).tasks(),
        r is Ok && query_laws::first_with_id(old(s).tasks(), id@, i) ==> exists|at: Instant| #[trigger]
            at.is_valid() && final(s).tasks() == old(s).tasks().update(
                i,
                TaskView {
                    status: TaskStatus::InProgress,
                    started: Some(clock::stamp_of(at)),
                    ..old(s).tasks()[i]
                },
            ) && task::opt_view(r->Ok_0) == Some(final(s).tasks()[i]),
{
    let b = old(s).tasks();
    if let Ok(t) = r {
        let at = choose|at: Instant|
            at.is_valid() && task_source::carried_out(
                b,
                Change::Start(id@, #[trigger] clock::stamp_of(at)),
                final(s).tasks(),
                task::opt_view(t),
            );
        if query_laws::first_with_id(b, id@, i) {
            change_laws::state_changes_set_state_and_time(b, id@, clock::stamp_of(at), i);
            assert(at.is_valid());
        }
    }
}

/// The source in memory fails the first task with the identifier: it is failed and has the time
/// of its end, and nothing else changes.
pub proof fn mock_fails_the_first(
    s: &mut MockTaskSource,
    id: &str,
    r: TaskSourceResult<Option<Task>>,
    i: int,
)
    requires
        call_ensures(MockTaskSource::fail, (s, id), r),
    ensures
        one_call_counted(old(s), final(s), "fail"@),
        r is Err <==> old(s).error_for("fail"@) is Some,
        r is Err ==> final(s).tasks() == old(s).tasks(),
        r is Ok && query_laws::first_with_id(old(s).tasks(), id@, i) ==> exists|at: Instant| #[trigger]
            at.is_valid() && final(s).tasks() == old(s).tasks().update(
                i,
                TaskView {
                    status: TaskStatus::Failed,
                    closed: Some(clock::stamp_of(at)),
                    ..old(s).tasks()[i]
                },
            ) && task::opt_view(r->Ok_0) == Some(final(s).tasks()[i]),
{
    let b = old(s).tasks();
    if let Ok(t) = r {
        let at = choose|at: Instant|
            at.is_valid() && task_source::carried_out(
                b,
                Change::Fail(id@, #[trigger] clock::stamp_of(at)),
                final(s).tasks(),
                task::opt_view(t),
            );
        if query_laws::first_with_id(b, id@, i) {
            change_laws::state_changes_set_state_and_time(b, id@, clock::stamp_of(at), i);
            assert(at.is_valid());
        }
    }
}

/// The source in memory reopens the first task with the identifier: it is open and has no time
/// of its end any more, and nothing else changes.
pub proof fn mock_reopens_the_first(
    s: &mut MockTaskSource,
    id: &str,
    r: TaskSourceResult<Option<Task>>,
    i: int,
)
    requires
        call_ensures(MockTaskSource::reopen, (s, id), r),
    ensures
        one_call_counted(old(s), final(s), "reopen"@),
        r is Err <==> old(s).error_for("reopen"@) is Some,
        r is Err ==> final(s).tasks() == old(s).tasks(),
        r is Ok && query_laws::first_with_id(old(s).tasks(), id@, i) ==> final(s).tasks()
            == old(s).tasks().update(
            i,
            TaskView { status: TaskStatus::Open, closed: None, ..old(s).tasks()[i] },
        ) && task::opt_view(r->Ok_0) == Some(final(s).tasks()[i]),
{
    let b = old(s).tasks();
    if r is Ok && query_laws::first_with_id(b, id@, i) {
        change_laws::state_changes_set_state_and_time(b, id@, seq![], i);
    }
}

/// The source in memory adds a task behind all others, as it is.
pub proof fn mock_adds_behind_all(s: &mut MockTaskSource, t: Task, r: TaskSourceResult<Task>)
    requires
        call_ensures(MockTaskSource::add, (s, t), r),
    ensures
        one_call_counted(old(s), final(s), "add"@),
        r is Err <==> old(s).error_for("add"@) is Some,
        r is Err ==> final(s).tasks() == old(s).tasks(),
        r is Ok ==> final(s).tasks() == old(s).tasks().push(t@) && r->Ok_0@ == t@,
{
}

/// The source in memory ensures a task: it adds one whose key is new, and otherwise updates the
/// first task with the key.
pub proof fn mock_ensures_by_key(
    s: &mut MockTaskSource,
    t: Task,
    r: TaskSourceResult<Task>,
    key: Seq<char>,
    i: int,
)
    requires
        call_ensures(MockTaskSource::ensure, (s, t), r),
        t@.key == Some(key),
    ensures
        one_call_counted(old(s), final(s), "ensure"@),
        r is Err <==> old(s).error_for("ensure"@) is Some,
        r is Err ==> final(s).tasks() == old(s).tasks(),
        r is Ok && (forall|j: int|
            0 <= j < old(s).tasks().len() ==> (#[trigger] old(s).tasks()[j]).key != Some(key))
            ==> final(s).tasks() == old(s).tasks().push(t@) && r->Ok_0@ == t@,
        r is Ok && 0 <= i < old(s).tasks().len() && old(s).tasks()[i].key == Some(key) && (forall|
            j: int,
        | 0 <= j < i ==> (#[trigger] old(s).tasks()[j]).key != Some(key)) ==> {
            let x = final(s).tasks()[i];
            &&& final(s).tasks() == old(s).tasks().update(i, x)
            &&& r->Ok_0@ == x
            &&& x == TaskView {
                title: t@.title,
                priority: t@.priority,
                description: if t@.description is Some {
                    t@.description
                } else {
                    old(s).tasks()[i].description
                },
                blocked_by: if t@.blocked_by.len() > 0 {
                    t@.blocked_by
                } else {
                    old(s).tasks()[i].blocked_by
                },
                ..old(s).tasks()[i]
            }
        },
{
    let b = old(s).tasks();
    if r is Ok {
        if forall|j: int| 0 <= j < b.len() ==> (#[trigger] b[j]).key != Some(key) {
            change_laws::ensuring_adds_a_new_task(b, t@);
        }
        if 0 <= i < b.len() && b[i].key == Some(key) && (forall|j: int|
            0 <= j < i ==> (#[trigger] b[j]).key != Some(key)) {
            change_laws::ensuring_updates_the_keyed_task(b, t@, key, i);
            assert(final(s).tasks() =~= b.update(i, final(s).tasks()[i]));
        }
    }
}

/// Whether steps were taken on a file for a change that succeeded: it was locked against all
/// others, read, written and let go, and nothing else.
pub open spec fn locked_read_written(
    before: Seq<FileStep>,
    after: Seq<FileStep>,
    text: Seq<char>,
) -> bool {
    &&& after.len() == before.len() + 4
    &&& after.take(before.len() as int) == before
    &&& after[before.len() as int] == FileStep::LockExclusive(Ok(()))
    &&& after[before.len() as int + 1] is Read
    &&& after[before.len() as int + 2] == FileStep::Write(text, Ok(()))
    &&& after[before.len() as int + 3] == FileStep::Unlock
}

proof fn lemma_written<F: TaskFile>(
    before: JsonlStore<F>,
    m: jsonl::Mutation,
    after: JsonlStore<F>,
    reply: Option<TaskView>,
)
    requires
        jsonl_store::change_made(before, m, after, reply),
    ensures
        exists|text: Seq<char>| #[trigger]
            locked_read_written(before.recorded().steps(), after.recorded().steps(), text)
                && jsonl_store::encoded_text(&before.port(), after.inner().values(), text),
{
    let (content, text) = choose|content: Option<String>, text: Seq<char>| #[trigger]
        jsonl_store::change_written(before, m, content, text, Ok(()), after, reply);
    let b = before.recorded().steps();
    let a = after.recorded().steps();
    let more = seq![
        FileStep::LockExclusive(Ok(())),
        FileStep::Read(Ok(content)),
        FileStep::Write(text, Ok(())),
        FileStep::Unlock,
    ];
    assert(a == b + more);
    let n = b.len() as int;
    assert(a[n] == more[0] && a[n + 1] == more[1] && a[n + 2] == more[2] && a[n + 3] == more[3]);
    assert(a.take(n) =~= b);
    assert(locked_read_written(b, a, text));
}

/// A task that the file store closed, started, failed or reopened is held so, and the tasks that
/// the store then holds were written to the file, all under one lock that keeps others out.
pub proof fn file_changes_are_written<F: TaskFile>(
    s: &mut JsonlStore<F>,
    id: &str,
    r: TaskSourceResult<Option<Task>>,
)
    requires
        call_ensures(JsonlStore::<F>::close, (s, id), r) || call_ensures(
            JsonlStore::<F>::start,
            (s, id),
            r,
        ) || call_ensures(JsonlStore::<F>::fail, (s, id), r) || call_ensures(
            JsonlStore::<F>::reopen,
            (s, id),
            r,
        ),
        r is Ok,
    ensures
        change_laws::answered_by(id@, final(s).tasks(), task::opt_view(r->Ok_0)),
        exists|text: Seq<char>| #[trigger]
            locked_read_written(old(s).recorded().steps(), final(s).recorded().steps(), text)
                && jsonl_store::encoded_text(&old(s).port(), final(s).inner().values(), text),
{
    let t = task::opt_view(r->Ok_0);
    change_laws::stores_hold_what_they_changed(id@, final(s).tasks(), t);
    if call_ensures(JsonlStore::<F>::close, (s, id), r) {
        let x = choose|x: String|
            x@ == id@ && #[trigger] jsonl_store::change_result(
                *old(s),
                jsonl::Mutation::Close(x),
                *final(s),
                r,
            );
        lemma_written(*old(s), jsonl::Mutation::Close(x), *final(s), t);
    } else if call_ensures(JsonlStore::<F>::start, (s, id), r) {
        let x = choose|x: String|
            x@ == id@ && #[trigger] jsonl_store::change_result(
                *old(s),
                jsonl::Mutation::Start(x),
                *final(s),
                r,
            );
        lemma_written(*old(s), jsonl::Mutation::Start(x), *final(s), t);
    } else if call_ensures(JsonlStore::<F>::fail, (s, id), r) {
        let x = choose|x: String|
            x@ == id@ && #[trigger] jsonl_store::change_result(
                *old(s),
                jsonl::Mutation::Fail(x),
                *final(s),
                r,
            );
        lemma_written(*old(s), jsonl::Mutation::Fail(x), *final(s), t);
    } else {
        let x = choose|x: String|
            x@ == id@ && #[trigger] jsonl_store::change_result(
                *old(s),
                jsonl::Mutation::Reopen(x),
                *final(s),
                r,
            );
        lemma_written(*old(s), jsonl::Mutation::Reopen(x), *final(s), t);
    }
}

/// A task that was added to the file store, or ensured in it, was written to the file with all
/// the others, all under one lock that keeps others out.
pub proof fn file_additions_are_written<F: TaskFile>(
    s: &mut JsonlStore<F>,
    t: Task,
    r: TaskSourceResult<Task>,
)
    requires
        call_ensures(JsonlStore::<F>::add, (s, t), r) || call_ensures(
            JsonlStore::<F>::ensure,
            (s, t),
            r,
        ),
        r is Ok,
    ensures
        exists|text: Seq<char>| #[trigger]
            locked_read_written(old(s).recorded().steps(), final(s).recorded().steps(), text)
                && jsonl_store::encoded_text(&old(s).port(), final(s).inner().values(), text),
{
    if call_ensures(JsonlStore::<F>::add, (s, t), r) {
        lemma_written(*old(s), jsonl::Mutation::Add(t), *final(s), Some(r->Ok_0@));
    } else {
        lemma_written(*old(s), jsonl::Mutation::Ensure(t), *final(s), Some(r->Ok_0@));
    }
}

/// The tasks that the file held when it was read for a change.
pub open spec fn held_by_file<F: TaskFile>(
    before: JsonlStore<F>,
    after: JsonlStore<F>,
    base: Seq<TaskView>,
) -> bool {
    let n = before.recorded().steps().len() as int;
    let a = after.recorded().steps();
    &&& a.len() > n + 1
    &&& a[n + 1] is Read
    &&& a[n + 1]->Read_0 is Ok
    &&& jsonl_store::holds_tasks(&before.port(), a[n + 1]->Read_0->Ok_0, base)
}

proof fn lemma_base<F: TaskFile>(
    before: JsonlStore<F>,
    m: jsonl::Mutation,
    after: JsonlStore<F>,
    reply: Option<TaskView>,
) -> (r: (Seq<TaskView>, Instant))
    requires
        jsonl_store::change_made(before, m, after, reply),
    ensures
        held_by_file(before, after, r.0),
        task_source::carried_out(r.0, jsonl::change_at(m, r.1), after.tasks(), reply),
{
    let (content, text) = choose|content: Option<String>, text: Seq<char>| #[trigger]
        jsonl_store::change_written(before, m, content, text, Ok(()), after, reply);
    let n = before.recorded().steps().len() as int;
    let more = seq![
        FileStep::LockExclusive(Ok(())),
        FileStep::Read(Ok(content)),
        FileStep::Write(text, Ok(())),
        FileStep::Unlock,
    ];
    assert(after.recorded().steps()[n + 1] == more[1]);
    let (base, at) = choose|base: Seq<TaskView>, at: Instant|
        at.is_valid() && jsonl_store::holds_tasks(&before.port(), content, base)
            && #[trigger] task_source::carried_out(
            base,
            jsonl::change_at(m, at),
            after.inner().held(),
            reply,
        );
    (base, at)
}

/// Adding to the file store puts the task, as it is, behind the tasks that the file held when it
/// was read for it, whatever the store held in memory.
pub proof fn file_additions_follow_the_file<F: TaskFile>(
    s: &mut JsonlStore<F>,
    t: Task,
    r: TaskSourceResult<Task>,
)
    requires
        call_ensures(JsonlStore::<F>::add, (s, t), r),
        r is Ok,
    ensures
        r->Ok_0@ == t@,
        exists|base: Seq<TaskView>| #[trigger]
            held_by_file(*old(s), *final(s), base) && final(s).tasks() == base.push(t@),
{
    let (base, at) = lemma_base(
        *old(s),
        jsonl::Mutation::Add(t),
        *final(s),
        Some(r->Ok_0@),
    );
    change_laws::adding_puts_the_task_last(base, t@);
    assert(held_by_file(*old(s), *final(s), base));
}

/// Whether all tasks but those with the identifier are the same.
pub open spec fn same_but(a: Seq<TaskView>, b: Seq<TaskView>, id: Seq<char>) -> bool {
    a.len() == b.len() && forall|j: int|
        0 <= j < a.len() && (#[trigger] a[j]).id != id ==> b[j] == a[j]
}

proof fn lemma_same_but(base: Seq<TaskView>, id: Seq<char>, stamp: Seq<char>)
    ensures
        same_but(base, task_list::applied(base, Change::Close(id, stamp)), id),
        same_but(base, task_list::applied(base, Change::Start(id, stamp)), id),
        same_but(base, task_list::applied(base, Change::Fail(id, stamp)), id),
        same_but(base, task_list::applied(base, Change::Reopen(id)), id),
{
    query_laws::finding_gives_the_first(base, id);
    if task_list::by_id(base, id) is Some {
        let i = choose|i: int| #[trigger]
            query_laws::first_with_id(base, id, i) && base[i] == task_list::by_id(base, id)->0;
        change_laws::state_changes_set_state_and_time(base, id, stamp, i);
    } else {
        change_laws::state_changes_of_no_task_do_nothing(base, id, stamp);
    }
}

/// A task of the file store is closed, started, failed or reopened among the tasks that the file
/// held when it was read for it, whatever the store held in memory; the others stay as they were
/// in the file.
pub proof fn file_changes_follow_the_file<F: TaskFile>(
    s: &mut JsonlStore<F>,
    id: &str,
    r: TaskSourceResult<Option<Task>>,
)
    requires
        call_ensures(JsonlStore::<F>::close, (s, id), r) || call_ensures(
            JsonlStore::<F>::start,
            (s, id),
            r,
        ) || call_ensures(JsonlStore::<F>::fail, (s, id), r) || call_ensures(
            JsonlStore::<F>::reopen,
            (s, id),
            r,
        ),
        r is Ok,
    ensures
        exists|base: Seq<TaskView>| #[trigger]
            held_by_file(*old(s), *final(s), base) && same_but(base, final(s).tasks(), id@),
{
    let t = task::opt_view(r->Ok_0);
    let m = if call_ensures(JsonlStore::<F>::close, (s, id), r) {
        jsonl::Mutation::Close(
            choose|x: String|
                x@ == id@ && #[trigger] jsonl_store::change_result(
                    *old(s),
                    jsonl::Mutation::Close(x),
                    *final(s),
                    r,
                ),
        )
    } else if call_ensures(JsonlStore::<F>::start, (s, id), r) {
        jsonl::Mutation::Start(
            choose|x: String|
                x@ == id@ && #[trigger] jsonl_store::change_result(
                    *old(s),
                    jsonl::Mutation::Start(x),
                    *final(s),
                    r,
                ),
        )
    } else if call_ensures(JsonlStore::<F>::fail, (s, id), r) {
        jsonl::Mutation::Fail(
            choose|x: String|
                x@ == id@ && #[trigger] jsonl_store::change_result(
                    *old(s),
                    jsonl::Mutation::Fail(x),
                    *final(s),
                    r,
                ),
        )
    } else {
        jsonl::Mutation::Reopen(
            choose|x: String|
                x@ == id@ && #[trigger] jsonl_store::change_result(
                    *old(s),
                    jsonl::Mutation::Reopen(x),
                    *final(s),
                    r,
                ),
        )
    };
    assert(jsonl_store::change_result(*old(s), m, *final(s), r));
    let (base, at) = lemma_base(*old(s), m, *final(s), t);
    lemma_same_but(base, id@, clock::stamp_of(at));
    assert(held_by_file(*old(s), *final(s), base));
}

/// The labels that set-up asks for, in order: name, colour and description of each.
pub open spec fn nine_labels() -> Seq<(Seq<char>, Seq<char>, Seq<char>)> {
    seq![
        ("status/todo"@, "0e8a16"@, "Ralph: task is open"@),
        ("status/in-progress"@, "fbca04"@, "Ralph: task in progress"@),
        ("status/done"@, "6f42c1"@, "Ralph: task completed"@),
        ("status/failed"@, "d93f0b"@, "Ralph: task failed"@),
        ("priority/1"@, "b60205"@, "Ralph: highest priority"@),
        ("priority/2"@, "d93f0b"@, "Ralph: high priority"@),
        ("priority/3"@, "e99695"@, "Ralph: medium priority"@),
        ("priority/4"@, "c2e0c6"@, "Ralph: low priority"@),
        ("priority/5"@, "0e8a16"@, "Ralph: lowest priority"@),
    ]
}

/// Whether a step asks for a label to be created.
pub open spec fn asks_for_label(
    step: GhStep,
    c: GhClient,
    d: (Seq<char>, Seq<char>, Seq<char>),
) -> bool {
    &&& step is Run
    &&& step->Run_0.args == seq![
        "api"@,
        "--method"@,
        "POST"@,
        reply_laws::path_of(c) + "/labels"@,
        "--input"@,
        "-"@,
    ]
    &&& step->Run_0.input == Some(
        reply_laws::object_of(
            seq![
                ("color"@, json::json_string_text(d.1)),
                ("description"@, json::json_string_text(d.2)),
                ("name"@, json::json_string_text(d.0)),
            ],
        ),
    )
}

proof fn lemma_label_request(c: GhClient, d: (Seq<char>, Seq<char>, Seq<char>), o: GhOutcome)
    ensures
        asks_for_label(GhStep::Run(github::label_request(c, d), o), c, d),
{
    let q = github::label_request(c, d);
    assert(q.args =~= seq![
        "api"@,
        "--method"@,
        "POST"@,
        reply_laws::path_of(c) + "/labels"@,
        "--input"@,
        "-"@,
    ]);
    let l = api::label_fields(d.0, d.1, d.2);
    reply_laws::lemma_object(l);
    assert(l =~= seq![
        ("color"@, json::json_string_text(d.1)),
        ("description"@, json::json_string_text(d.2)),
        ("name"@, json::json_string_text(d.0)),
    ]);
}

/// Setting up the GitHub store asks for the age of its marker first. Where the marker is less
/// than a day old nothing else is asked; else, where set-up succeeds, each of the nine labels
/// was asked for, in order, and then the marker was written. At the first label that cannot be
/// had set-up ends with its error.
pub proof fn github_set_up_asks_for_labels<P: GhPort>(
    s: &mut GithubStore<P>,
    r: TaskSourceResult<()>,
)
    requires
        call_ensures(GithubStore::<P>::setup, (s,), r),
    ensures
        ({
            let n = old(s).recorded().steps().len() as int;
            let a = final(s).recorded().steps();
            &&& final(s).tasks() == old(s).tasks()
            &&& a.len() > n && a.take(n) == old(s).recorded().steps()
            &&& a[n] is Age && a[n]->Age_0 == old(s).marker()
            &&& (a[n]->Age_1 matches Some(age) && age.0 < 86400) ==> r is Ok && a.len() == n + 1
            &&& !(a[n]->Age_1 matches Some(age) && age.0 < 86400) && r is Ok ==> {
                &&& a.len() == n + 11
                &&& forall|k: int|
                    n < k <= n + 9 ==> asks_for_label(
                        #[trigger] a[k],
                        old(s).inner().api_client(),
                        nine_labels()[k - n - 1],
                    )
                &&& a[n + 10] is WriteFile && a[n + 10]->WriteFile_0 == old(s).marker()
            }
            &&& forall|k: int|
                n < k < a.len() && (#[trigger] a[k]) is Run && github::label_reply(a[k]->Run_1)
                    is Some ==> k == a.len() - 1 && r is Err && r->Err_0@ == github::label_reply(
                    a[k]->Run_1,
                )->0
            &&& forall|k: int|
                n < k < a.len() && (#[trigger] a[k]) is WriteFile && a[k]->WriteFile_2 is Err ==> r
                    is Err
        }),
{
    let before = *old(s);
    let after = *final(s);
    let n = before.recorded().steps().len() as int;
    let a = after.recorded().steps();
    let c = before.inner().api_client();
    let age = choose|age: Option<(u64, u32)>| #[trigger] store::set_up(before, age, after, r);
    let look = GhStep::Age(before.marker(), age);
    if github::recently_set_up(age) {
        assert(a == before.recorded().steps() + seq![look]);
        assert(a[n] == look);
    } else if exists|outcomes: Seq<GhOutcome>, content: Seq<char>, done: Result<(), String>|
        #[trigger]
        store::all_labels_made(before, age, outcomes, content, done, after) && r
            == task_source::outside_result(done) {
        let (outcomes, content, done) = choose|
            outcomes: Seq<GhOutcome>,
            content: Seq<char>,
            done: Result<(), String>,
        | #[trigger]
            store::all_labels_made(before, age, outcomes, content, done, after) && r
                == task_source::outside_result(done);
        let more = (seq![look] + store::label_runs(c, outcomes)).push(
            GhStep::WriteFile(before.marker(), content, done),
        );
        assert(github::all_labels().len() == 9);
        assert(a == before.recorded().steps() + more);
        assert(a[n] == more[0]);
        assert(a[n + 10] == more[10]);
        assert(github::all_labels() =~= nine_labels());
        assert forall|k: int| n < k <= n + 9 implies asks_for_label(
            #[trigger] a[k],
            c,
            nine_labels()[k - n - 1],
        ) by {
            assert(a[k] == more[k - n]);
            assert(more[k - n] == store::label_runs(c, outcomes)[k - n - 1]);
            lemma_label_request(c, nine_labels()[k - n - 1], outcomes[k - n - 1]);
        }
        assert forall|k: int|
            n < k < a.len() && (#[trigger] a[k]) is Run && github::label_reply(a[k]->Run_1)
                is Some implies false by {
            assert(a[k] == more[k - n]);
            if k <= n + 9 {
                assert(more[k - n] == store::label_runs(c, outcomes)[k - n - 1]);
                assert(github::label_reply(outcomes[k - n - 1]) is None);
            }
        }
        assert forall|k: int|
            n < k < a.len() && (#[trigger] a[k]) is WriteFile && a[k]->WriteFile_2 is Err implies r
            is Err by {
            assert(a[k] == more[k - n]);
            if k <= n + 9 {
                assert(more[k - n] == store::label_runs(c, outcomes)[k - n - 1]);
            }
        }
    } else {
        let outcomes = choose|outcomes: Seq<GhOutcome>| #[trigger]
            store::label_failed(before, age, outcomes, after, r->Err_0);
        let more = seq![look] + store::label_runs(c, outcomes);
        assert(a == before.recorded().steps() + more);
        assert(a[n] == more[0]);
        assert forall|k: int| n < k < a.len() implies (#[trigger] a[k]) is Run && a[k]->Run_1
            == outcomes[k - n - 1] by {
            assert(a[k] == more[k - n]);
            assert(more[k - n] == store::label_runs(c, outcomes)[k - n - 1]);
        }
        assert forall|k: int|
            n < k < a.len() && (#[trigger] a[k]) is Run && github::label_reply(a[k]->Run_1)
                is Some implies k == a.len() - 1 by {
            if k < a.len() - 1 {
                assert(github::label_reply(outcomes[k - n - 1]) is None);
            }
        }
        assert(a.len() == n + 1 + outcomes.len());
    }
    assert(a.take(n) =~= before.recorded().steps());
}

/// A refresh of the GitHub store makes one request, for the issues in any state with the state
/// labels, from the oldest on; its tasks are then those that the issues stand for, pull
/// requests left out.
pub proof fn github_refresh_asks_for_issues<P: GhPort>(
    s: &mut GithubStore<P>,
    r: TaskSourceResult<()>,
)
    requires
        call_ensures(GithubStore::<P>::refresh, (s,), r),
        r is Ok,
    ensures
        ({
            let n = old(s).recorded().steps().len() as int;
            let a = final(s).recorded().steps();
            let c = old(s).inner().api_client();
            &&& a.len() == n + 1
            &&& a[n] is Run && a[n]->Run_0.args == seq![
                "api"@,
                "--paginate"@,
                "--method"@,
                "GET"@,
                reply_laws::path_of(c) + ("/issues?labels="@ + text::joined(
                    seq!["status/todo"@, "status/in-progress"@, "status/done"@, "status/failed"@],
                    ","@,
                ) + "&state="@ + "all"@ + "&per_page=100&sort=created&direction=asc"@),
            ]
            &&& exists|text: &str, listed: Vec<GhIssue>| #[trigger]
                api::issues_parsed(&old(s).recorded().port(), text, Ok(listed)) && api::gh_reply(
                    a[n]->Run_1,
                    "[]"@,
                ) == Ok::<Seq<char>, ErrorView>(text@) && final(s).tasks() == listed@.filter(
                    |i: GhIssue| i.pull_request is None,
                ).map_values(|i: GhIssue| github::issue_task(i))
        }),
{
    let before = *old(s);
    let after = *final(s);
    let c = before.inner().api_client();
    let want = github::issues_request(c);
    let found = choose|found: Vec<GhIssue>| #[trigger]
        api::plain_issues_answered(&before.recorded(), want, &after.recorded(), Ok(found))
            && after.inner().held() == found@.map_values(|i: GhIssue| github::issue_task(i));
    let listed = choose|listed: TaskSourceResult<Vec<GhIssue>>|
        api::issues_answered(&before.recorded(), want, &after.recorded(), listed)
            && #[trigger] api::without_pull_requests(listed, Ok(found));
    let reply = choose|reply: Result<Seq<char>, ErrorView>|
        api::answered(&before.recorded(), want, "[]"@, &after.recorded(), reply)
            && #[trigger] api::issues_of_reply(&before.recorded().port(), reply, listed);
    let o = choose|o: GhOutcome| #[trigger]
        api::asked(&before.recorded(), want, o, &after.recorded()) && reply == api::gh_reply(
            o,
            "[]"@,
        );
    assert(github::status_names() =~= seq![
        "status/todo"@,
        "status/in-progress"@,
        "status/done"@,
        "status/failed"@,
    ]);
    assert((|i: GhIssue| i.pull_request is None) =~= api::no_pull_request());
    assert(after.recorded().steps()[before.recorded().steps().len() as int] == GhStep::Run(want, o));
    let (text, read) = choose|text: &str, read: Result<Vec<GhIssue>, String>|
        text@ == reply->Ok_0 && #[trigger] api::issues_parsed(
            &before.recorded().port(),
            text,
            read,
        ) && listed == task_source::outside_result(read);
    let issues = listed->Ok_0;
    assert(api::issues_parsed(&before.recorded().port(), text, Ok(issues)));
}

/// The tasks of the GitHub source after a refresh are those that the issues stand for, one for
/// each and in their order.
pub proof fn issues_become_tasks(s: &mut GithubTaskSource, issues: Vec<GhIssue>, r: ())
    requires
        call_ensures(GithubTaskSource::refresh_with, (s, &issues), r),
    ensures
        final(s).held().len() == issues@.len(),
        forall|i: int|
            0 <= i < issues@.len() ==> #[trigger] final(s).held()[i] == github::issue_task(
                issues@[i],
            ),
        final(s).filter() == old(s).filter(),
{
}

} // verus!
