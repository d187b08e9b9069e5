//! What the changes of a store do to its tasks, field by field.

use crate::clock;
use crate::clock::Instant;
use crate::query_laws;
use crate::task;
use crate::task::{Task, TaskStatus, TaskView};
use crate::task_list;
use crate::task_list::Change;
use crate::task_source;
use crate::task_source::TaskSourceError;
use crate::text;
use vstd::prelude::*;
use vstd::string::*;

verus! {

/// Closing a task makes it closed and notes the time; starting makes it in progress and notes
/// the time; failing makes it failed and notes the time of the end; reopening makes it open
/// and forgets the time of the end. All other fields of the task, all other tasks and their
/// order stay.
pub proof fn state_changes_set_state_and_time(
    s: Seq<TaskView>,
    id: Seq<char>,
    stamp: Seq<char>,
    i: int,
)
    requires
        query_laws::first_with_id(s, id, i),
    ensures
        task_list::applied(s, Change::Close(id, stamp)) == s.update(
            i,
            TaskView { status: TaskStatus::Closed, closed: Some(stamp), ..s[i] },
        ),
        task_list::applied(s, Change::Start(id, stamp)) == s.update(
            i,
            TaskView { status: TaskStatus::InProgress, started: Some(stamp), ..s[i] },
        ),
        task_list::applied(s, Change::Fail(id, stamp)) == s.update(
            i,
            TaskView { status: TaskStatus::Failed, closed: Some(stamp), ..s[i] },
        ),
        task_list::applied(s, Change::Reopen(id)) == s.update(
            i,
            TaskView { status: TaskStatus::Open, closed: None, ..s[i] },
        ),
        task_list::replied(s, Change::Close(id, stamp)) == Some(
            task_list::applied(s, Change::Close(id, stamp))[i],
        ),
        task_list::replied(s, Change::Start(id, stamp)) == Some(
            task_list::applied(s, Change::Start(id, stamp))[i],
        ),
        task_list::replied(s, Change::Fail(id, stamp)) == Some(
            task_list::applied(s, Change::Fail(id, stamp))[i],
        ),
        task_list::replied(s, Change::Reopen(id)) == Some(
            task_list::applied(s, Change::Reopen(id))[i],
        ),
{
    let p = task_list::has_id(id);
    assert forall|j: int| 0 <= j < i implies !p(#[trigger] s[j]) by {
        assert(s[j].id != id);
    }
    task_list::lemma_first_place_is(s, p, i);
}

/// A change of state of a task that is not there changes nothing and finds nothing.
pub proof fn state_changes_of_no_task_do_nothing(
    s: Seq<TaskView>,
    id: Seq<char>,
    stamp: Seq<char>,
)
    requires
        forall|i: int| 0 <= i < s.len() ==> (#[trigger] s[i]).id != id,
    ensures
        task_list::applied(s, Change::Close(id, stamp)) == s,
        task_list::applied(s, Change::Start(id, stamp)) == s,
        task_list::applied(s, Change::Fail(id, stamp)) == s,
        task_list::applied(s, Change::Reopen(id)) == s,
        task_list::replied(s, Change::Close(id, stamp)) is None,
        task_list::replied(s, Change::Start(id, stamp)) is None,
        task_list::replied(s, Change::Fail(id, stamp)) is None,
        task_list::replied(s, Change::Reopen(id)) is None,
{
    task_list::lemma_first_place(s, task_list::has_id(id));
}

/// Adding puts the task behind all others, as it is, and replies with it.
pub proof fn adding_puts_the_task_last(s: Seq<TaskView>, t: TaskView)
    ensures
        task_list::applied(s, Change::Add(t)) == s.push(t),
        task_list::replied(s, Change::Add(t)) == Some(t),
{
}

/// Ensuring a task whose key is taken brings the first task with that key up to date: it gets
/// the new title and priority, the new description where there is one, and the new blockers
/// where there are any. Nothing else of it changes, and no other task does.
pub proof fn ensuring_updates_the_keyed_task(
    s: Seq<TaskView>,
    t: TaskView,
    key: Seq<char>,
    i: int,
)
    requires
        t.key == Some(key),
        0 <= i < s.len(),
        s[i].key == Some(key),
        forall|j: int| 0 <= j < i ==> (#[trigger] s[j]).key != Some(key),
    ensures
        ({
            let after = task_list::applied(s, Change::Ensure(t));
            let x = after[i];
            &&& after.len() == s.len()
            &&& forall|j: int| 0 <= j < s.len() && j != i ==> #[trigger] after[j] == s[j]
            &&& task_list::replied(s, Change::Ensure(t)) == Some(x)
            &&& x.title == t.title
            &&& x.priority == t.priority
            &&& t.description is Some ==> x.description == t.description
            &&& t.description is None ==> x.description == s[i].description
            &&& t.blocked_by.len() > 0 ==> x.blocked_by == t.blocked_by
            &&& t.blocked_by.len() == 0 ==> x.blocked_by == s[i].blocked_by
            &&& x.id == s[i].id
            &&& x.key == s[i].key
            &&& x.status == s[i].status
            &&& x.loop_id == s[i].loop_id
            &&& x.created == s[i].created
            &&& x.started == s[i].started
            &&& x.closed == s[i].closed
            &&& x.metadata == s[i].metadata
        }),
{
    let p = task_list::has_key(key);
    assert forall|j: int| 0 <= j < i implies !p(#[trigger] s[j]) by {
        assert(s[j].key != Some(key));
    }
    task_list::lemma_first_place_is(s, p, i);
}

/// Ensuring a task without a key, or with a key that no task has, adds it as it is.
pub proof fn ensuring_adds_a_new_task(s: Seq<TaskView>, t: TaskView)
    requires
        t.key matches Some(key) ==> forall|j: int|
            0 <= j < s.len() ==> (#[trigger] s[j]).key != Some(key),
    ensures
        task_list::applied(s, Change::Ensure(t)) == s.push(t),
        task_list::replied(s, Change::Ensure(t)) == Some(t),
{
    if let Some(key) = t.key {
        let q = task_list::has_key(key);
        task_list::lemma_first_place(s, q);
        if let Some(i) = task_list::first_place(s, q) {
            assert(q(s[i]));
        }
    }
}

/// Where the reply to a change of state is a task, the store holds that task as the first with
/// its identifier; where it is none, the store holds no such task.
pub open spec fn answered_by(
    id: Seq<char>,
    after: Seq<TaskView>,
    reply: Option<TaskView>,
) -> bool {
    match reply {
        Some(t) => exists|i: int| #[trigger]
            query_laws::first_with_id(after, id, i) && after[i] == t,
        None => forall|i: int| 0 <= i < after.len() ==> (#[trigger] after[i]).id != id,
    }
}

proof fn lemma_first_stays(s: Seq<TaskView>, id: Seq<char>, i: int, t: TaskView)
    requires
        query_laws::first_with_id(s, id, i),
        t.id == id,
    ensures
        query_laws::first_with_id(s.update(i, t), id, i),
{
    assert forall|j: int| 0 <= j < i implies (#[trigger] s.update(i, t)[j]).id != id by {
        assert(s.update(i, t)[j] == s[j]);
    }
}

/// After a store has closed, started, failed or reopened a task, the task that it replies with
/// is the one with the identifier, in the new state and with the time of the change, and the
/// store holds it so.
pub proof fn stores_hold_what_they_changed(
    id: Seq<char>,
    after: Seq<TaskView>,
    reply: Option<TaskView>,
)
    ensures
        task_source::closed_in_store(id, after, reply) ==> answered_by(id, after, reply) && (
        reply matches Some(t) ==> t.id == id && t.status == TaskStatus::Closed && exists|at: Instant|
            at.is_valid() && t.closed == Some(#[trigger] clock::stamp_of(at))),
        task_source::started_in_store(id, after, reply) ==> answered_by(id, after, reply) && (
        reply matches Some(t) ==> t.id == id && t.status == TaskStatus::InProgress
            && exists|at: Instant|
            at.is_valid() && t.started == Some(#[trigger] clock::stamp_of(at))),
        task_source::failed_in_store(id, after, reply) ==> answered_by(id, after, reply) && (
        reply matches Some(t) ==> t.id == id && t.status == TaskStatus::Failed && exists|at: Instant|
            at.is_valid() && t.closed == Some(#[trigger] clock::stamp_of(at))),
        task_source::reopened_in_store(id, after, reply) ==> answered_by(id, after, reply) && (
        reply matches Some(t) ==> t.id == id && t.status == TaskStatus::Open && t.closed is None),
{
    if task_source::closed_in_store(id, after, reply) {
        let (base, at) = choose|base: Seq<TaskView>, t: Instant|
            t.is_valid() && #[trigger] task_source::carried_out(
                base,
                Change::Close(id, clock::stamp_of(t)),
                after,
                reply,
            );
        lemma_state_change(base, id, clock::stamp_of(at), Change::Close(id, clock::stamp_of(at)));
    }
    if task_source::started_in_store(id, after, reply) {
        let (base, at) = choose|base: Seq<TaskView>, t: Instant|
            t.is_valid() && #[trigger] task_source::carried_out(
                base,
                Change::Start(id, clock::stamp_of(t)),
                after,
                reply,
            );
        lemma_state_change(base, id, clock::stamp_of(at), Change::Start(id, clock::stamp_of(at)));
    }
    if task_source::failed_in_store(id, after, reply) {
        let (base, at) = choose|base: Seq<TaskView>, t: Instant|
            t.is_valid() && #[trigger] task_source::carried_out(
                base,
                Change::Fail(id, clock::stamp_of(t)),
                after,
                reply,
            );
        lemma_state_change(base, id, clock::stamp_of(at), Change::Fail(id, clock::stamp_of(at)));
    }
    if task_source::reopened_in_store(id, after, reply) {
        let base = choose|base: Seq<TaskView>| #[trigger]
            task_source::carried_out(base, Change::Reopen(id), after, reply);
        lemma_state_change(base, id, seq![], Change::Reopen(id));
    }
}

proof fn lemma_state_change(base: Seq<TaskView>, id: Seq<char>, stamp: Seq<char>, c: Change)
    requires
        c == Change::Close(id, stamp) || c == Change::Start(id, stamp) || c == Change::Fail(
            id,
            stamp,
        ) || c == Change::Reopen(id),
    ensures
        answered_by(id, task_list::applied(base, c), task_list::replied(base, c)),
        task_list::replied(base, c) matches Some(t) ==> t.id == id && match c {
            Change::Close(_, _) => t.status == TaskStatus::Closed && t.closed == Some(stamp),
            Change::Start(_, _) => t.status == TaskStatus::InProgress && t.started == Some(stamp),
            Change::Fail(_, _) => t.status == TaskStatus::Failed && t.closed == Some(stamp),
            _ => t.status == TaskStatus::Open && t.closed is None,
        },
{
    let p = task_list::has_id(id);
    task_list::lemma_first_place(base, p);
    match task_list::first_place(base, p) {
        Some(i) => {
            assert forall|j: int| 0 <= j < i implies (#[trigger] base[j]).id != id by {
                assert(!p(base[j]));
            }
            assert(query_laws::first_with_id(base, id, i));
            state_changes_set_state_and_time(base, id, stamp, i);
            lemma_first_stays(base, id, i, task_list::applied(base, c)[i]);
        },
        None => {
            assert forall|j: int| 0 <= j < base.len() implies (#[trigger] base[j]).id != id by {
                assert(!p(base[j]));
            }
            state_changes_of_no_task_do_nothing(base, id, stamp);
        },
    }
}

/// After a store has added a task, it holds it behind all others with every field as it was
/// given, but for the identifier, which is the store's to choose; and it replies with it.
pub proof fn stores_hold_what_they_added(t: TaskView, after: Seq<TaskView>, reply: TaskView)
    requires
        task_source::added_to_store(t, after, reply),
    ensures
        after.len() > 0,
        after.last() == reply,
        reply.title == t.title,
        reply.description == t.description,
        reply.key == t.key,
        reply.status == t.status,
        reply.priority == t.priority,
        reply.blocked_by == t.blocked_by,
        reply.loop_id == t.loop_id,
        reply.created == t.created,
        reply.started == t.started,
        reply.closed == t.closed,
        reply.metadata == t.metadata,
{
    let (base, id) = choose|base: Seq<TaskView>, id: Seq<char>| #[trigger]
        task_source::carried_out(base, Change::Add(TaskView { id, ..t }), after, Some(reply));
    adding_puts_the_task_last(base, TaskView { id, ..t });
}

/// After a store has ensured a keyed task, it holds one with that key and with the title and
/// the priority that were given, the description where one was given, and the blockers where
/// any were given; and it replies with it.
pub proof fn stores_hold_what_they_ensured(
    t: TaskView,
    key: Seq<char>,
    after: Seq<TaskView>,
    reply: TaskView,
)
    requires
        t.key == Some(key),
        task_source::ensured_in_store(t, after, reply),
    ensures
        after.contains(reply),
        reply.key == Some(key),
        reply.title == t.title,
        reply.priority == t.priority,
        t.description is Some ==> reply.description == t.description,
        t.blocked_by.len() > 0 ==> reply.blocked_by == t.blocked_by,
{
    let (base, id) = choose|base: Seq<TaskView>, id: Seq<char>| #[trigger]
        task_source::carried_out(base, Change::Ensure(TaskView { id, ..t }), after, Some(reply));
    let x = TaskView { id, ..t };
    let p = task_list::has_key(key);
    task_list::lemma_first_place(base, p);
    match task_list::first_place(base, p) {
        Some(i) => {
            assert(p(base[i]));
            assert forall|j: int| 0 <= j < i implies (#[trigger] base[j]).key != Some(key) by {
                assert(!p(base[j]));
            }
            ensuring_updates_the_keyed_task(base, x, key, i);
            assert(after[i] == reply);
        },
        None => {
            assert forall|j: int| 0 <= j < base.len() implies (#[trigger] base[j]).key != Some(
                key,
            ) by {
                assert(!p(base[j]));
            }
            ensuring_adds_a_new_task(base, x);
            assert(after[base.len() as int] == reply);
        },
    }
}

/// A new task has the title and the priority that it was given, is open, was made at the given
/// time, and has nothing else.
pub proof fn new_tasks_are_open(title: String, priority: u8, at: Instant, r: Task)
    requires
        call_ensures(Task::new_at, (title, priority, at), r),
    ensures
        r.title@ == title@,
        r.priority == priority,
        r.status == TaskStatus::Open,
        at.seconds >= 0 ==> r.id@ == "task-"@ + text::decimal_text(at.seconds as nat) + "-"@
            + text::decimal_text(at.nanos as nat),
        r.created@ == clock::rfc3339_text(at.seconds, at.nanos),
        r.description is None,
        r.key is None,
        r.loop_id is None,
        r.started is None,
        r.closed is None,
        r.blocked_by@.len() == 0,
        r.metadata@.len() == 0,
{
    query_laws::views_show_every_field(r);
}

/// A task that is started is in progress and has the time of its start; nothing else of it
/// changes.
pub proof fn starting_a_task(t: &mut Task, at: Instant, r: ())
    requires
        call_ensures(Task::start_at, (t, at), r),
    ensures
        final(t)@ == (TaskView {
            status: TaskStatus::InProgress,
            started: Some(clock::rfc3339_text(at.seconds, at.nanos)),
            ..old(t)@
        }),
{
}

/// A task that is closed has the time of its end; nothing else of it changes.
pub proof fn closing_a_task(t: &mut Task, at: Instant, r: ())
    requires
        call_ensures(Task::close_at, (t, at), r),
    ensures
        final(t)@ == (TaskView {
            status: TaskStatus::Closed,
            closed: Some(clock::rfc3339_text(at.seconds, at.nanos)),
            ..old(t)@
        }),
{
}

/// A task that failed has the time of its end; nothing else of it changes.
pub proof fn failing_a_task(t: &mut Task, at: Instant, r: ())
    requires
        call_ensures(Task::fail_at, (t, at), r),
    ensures
        final(t)@ == (TaskView {
            status: TaskStatus::Failed,
            closed: Some(clock::rfc3339_text(at.seconds, at.nanos)),
            ..old(t)@
        }),
{
}

/// A task that is reopened is open and has no time of its end; nothing else of it changes.
pub proof fn reopening_a_task(t: &mut Task, r: ())
    requires
        call_ensures(Task::reopen, (t,), r),
    ensures
        final(t)@ == (TaskView { status: TaskStatus::Open, closed: None, ..old(t)@ }),
{
}

/// A state is final where it is closed or failed.
pub proof fn closed_and_failed_are_final(s: TaskStatus, r: bool)
    requires
        call_ensures(TaskStatus::is_terminal, (&s,), r),
    ensures
        r <==> s == TaskStatus::Closed || s == TaskStatus::Failed,
{
}

/// An instant is after another where it has more seconds, or as many and more nanoseconds.
pub proof fn later_means_more(a: Instant, b: Instant, r: bool)
    requires
        call_ensures(Instant::is_after, (&a, &b), r),
        a.nanos < 1_000_000_000,
        b.nanos < 1_000_000_000,
    ensures
        r <==> a.seconds * 1_000_000_000 + a.nanos > b.seconds * 1_000_000_000 + b.nanos,
{
}

/// The message of an error names its kind and ends with what went wrong.
pub proof fn errors_name_their_kind(e: TaskSourceError, r: String)
    requires
        call_ensures(TaskSourceError::to_string, (&e,), r),
    ensures
        match e {
            TaskSourceError::Retryable { source, .. } => r@ == "retryable error: "@ + source@,
            TaskSourceError::Auth(m) => r@ == "auth error: "@ + m@,
            TaskSourceError::NotFound(m) => r@ == "not found: "@ + m@,
            TaskSourceError::Config(m) => r@ == "config error: "@ + m@,
            TaskSourceError::Other(m) => r@ == "task source error: "@ + m@,
        },
{
}

} // verus!
