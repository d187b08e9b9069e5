//! The interface of a task store.
//!
//! [`TaskSource`] separates the life of tasks from where they are kept: a JSONL file, a
//! GitHub repository, or memory.

use crate::clock;
use crate::clock::Instant;
use crate::task;
use crate::task::{Task, TaskView};
use crate::task_list;
use crate::task_list::Change;
use vstd::prelude::*;
use vstd::string::*;

verus! {

/// Errors of task source operations.
///
/// The variants let callers decide whether to try again and what to report.
#[derive(Debug, PartialEq)]
pub enum TaskSourceError {
    /// Worth another try after a delay (rate limit, passing network failure).
    Retryable {
        /// What went wrong.
        source: String,
        /// How many seconds to wait, where the other side said so.
        retry_after: Option<u64>,
    },
    /// Authentication failed: give up.
    Auth(String),
    /// There is no such resource.
    NotFound(String),
    /// The configuration is wrong.
    Config(String),
    /// Anything else.
    Other(String),
}

/// The contents of a [`TaskSourceError`].
pub enum ErrorView {
    Retryable { source: Seq<char>, retry_after: Option<u64> },
    Auth(Seq<char>),
    NotFound(Seq<char>),
    Config(Seq<char>),
    Other(Seq<char>),
}

impl View for TaskSourceError {
    type V = ErrorView;

    open spec fn view(&self) -> ErrorView {
        match self {
            TaskSourceError::Retryable { source, retry_after } => ErrorView::Retryable {
                source: source@,
                retry_after: *retry_after,
            },
            TaskSourceError::Auth(m) => ErrorView::Auth(m@),
            TaskSourceError::NotFound(m) => ErrorView::NotFound(m@),
            TaskSourceError::Config(m) => ErrorView::Config(m@),
            TaskSourceError::Other(m) => ErrorView::Other(m@),
        }
    }
}

/// The message of an error.
pub open spec fn error_text(e: ErrorView) -> Seq<char> {
    match e {
        ErrorView::Retryable { source, retry_after: _ } => "retryable error: "@ + source,
        ErrorView::Auth(m) => "auth error: "@ + m,
        ErrorView::NotFound(m) => "not found: "@ + m,
        ErrorView::Config(m) => "config error: "@ + m,
        ErrorView::Other(m) => "task source error: "@ + m,
    }
}

impl TaskSourceError {
    /// The message of the error.
    pub fn to_string(&self) -> (r: String)
        ensures
            r@ == error_text(self@),
    {
        match self {
            TaskSourceError::Retryable { source, retry_after: _ } => "retryable error: ".to_string(

            ).concat(source.as_str()),
            TaskSourceError::Auth(m) => "auth error: ".to_string().concat(m.as_str()),
            TaskSourceError::NotFound(m) => "not found: ".to_string().concat(m.as_str()),
            TaskSourceError::Config(m) => "config error: ".to_string().concat(m.as_str()),
            TaskSourceError::Other(m) => "task source error: ".to_string().concat(m.as_str()),
        }
    }
}

/// The result of a task source operation.
pub type TaskSourceResult<T> = Result<T, TaskSourceError>;

/// What an operation outside amounts to: its value, or its message as a generic error.
pub open spec fn outside_result<T>(done: Result<T, String>) -> TaskSourceResult<T> {
    match done {
        Ok(v) => Ok(v),
        Err(m) => Err(TaskSourceError::Other(m)),
    }
}

/// What an operation outside amounts to: its value, or its message as a generic error.
pub fn from_outside<T>(done: Result<T, String>) -> (r: TaskSourceResult<T>)
    ensures
        r == outside_result(done),
{
    match done {
        Ok(v) => Ok(v),
        Err(m) => Err(TaskSourceError::Other(m)),
    }
}

/// Whether a store holds `after`, and replied with `reply`, because it applied the change to
/// the tasks `base`.
pub open spec fn carried_out(
    base: Seq<TaskView>,
    c: Change,
    after: Seq<TaskView>,
    reply: Option<TaskView>,
) -> bool {
    after == task_list::applied(base, c) && reply == task_list::replied(base, c)
}

/// Whether a store added the task to the tasks that it held, under an identifier of the
/// store's choice.
pub open spec fn added_to_store(t: TaskView, after: Seq<TaskView>, reply: TaskView) -> bool {
    exists|base: Seq<TaskView>, id: Seq<char>| #[trigger]
        carried_out(base, Change::Add(TaskView { id, ..t }), after, Some(reply))
}

/// Whether a store brought the task with the same key up to date, or added the task under an
/// identifier of the store's choice.
pub open spec fn ensured_in_store(t: TaskView, after: Seq<TaskView>, reply: TaskView) -> bool {
    exists|base: Seq<TaskView>, id: Seq<char>| #[trigger]
        carried_out(base, Change::Ensure(TaskView { id, ..t }), after, Some(reply))
}

/// Whether a store closed the task with the identifier, if it held one.
pub open spec fn closed_in_store(
    id: Seq<char>,
    after: Seq<TaskView>,
    reply: Option<TaskView>,
) -> bool {
    exists|base: Seq<TaskView>, t: Instant|
        t.is_valid() && #[trigger] carried_out(
            base,
            Change::Close(id, clock::stamp_of(t)),
            after,
            reply,
        )
}

/// Whether a store started the task with the identifier, if it held one.
pub open spec fn started_in_store(
    id: Seq<char>,
    after: Seq<TaskView>,
    reply: Option<TaskView>,
) -> bool {
    exists|base: Seq<TaskView>, t: Instant|
        t.is_valid() && #[trigger] carried_out(
            base,
            Change::Start(id, clock::stamp_of(t)),
            after,
            reply,
        )
}

/// Whether a store failed the task with the identifier, if it held one.
pub open spec fn failed_in_store(
    id: Seq<char>,
    after: Seq<TaskView>,
    reply: Option<TaskView>,
) -> bool {
    exists|base: Seq<TaskView>, t: Instant|
        t.is_valid() && #[trigger] carried_out(
            base,
            Change::Fail(id, clock::stamp_of(t)),
            after,
            reply,
        )
}

/// Whether a store reopened the task with the identifier, if it held one.
pub open spec fn reopened_in_store(
    id: Seq<char>,
    after: Seq<TaskView>,
    reply: Option<TaskView>,
) -> bool {
    exists|base: Seq<TaskView>| #[trigger]
        carried_out(base, Change::Reopen(id), after, reply)
}

/// The contents of an optional string slice.
pub open spec fn opt_str(s: Option<&str>) -> Option<Seq<char>> {
    match s {
        Some(s) => Some(s@),
        None => None,
    }
}

/// Task lifecycle operations of a store.
///
/// Queries answer from the tasks in memory. Changes are written through: a store may first
/// read the tasks anew, so what a change is applied to is what was stored, not what was last
/// read.
pub trait TaskSource: Send {
    /// The tasks in memory, in the order of the store.
    spec fn tasks(&self) -> Seq<TaskView>;

    /// The loop that queries are limited to.
    spec fn loop_filter(&self) -> Option<Seq<char>>;

    /// Whether set-up came to the result, and left the store as it is after it.
    spec fn set_up_to(&self, after: &Self, r: TaskSourceResult<()>) -> bool;

    /// Whether a refresh came to the result, and left the store as it is after it.
    spec fn refreshed_to(&self, after: &Self, r: TaskSourceResult<()>) -> bool;

    /// Whether limiting queries to a loop left the store as it is after it.
    spec fn limited_to(&self, loop_id: Option<Seq<char>>, after: &Self) -> bool;

    /// Whether adding the task came to the result, and left the store as it is after it.
    spec fn added_to(&self, task: Task, after: &Self, r: TaskSourceResult<Task>) -> bool;

    /// Whether ensuring the task came to the result, and left the store as it is after it.
    spec fn ensured_to(&self, task: Task, after: &Self, r: TaskSourceResult<Task>) -> bool;

    /// Whether closing a task came to the result, and left the store as it is after it.
    spec fn closed_to(
        &self,
        id: Seq<char>,
        after: &Self,
        r: TaskSourceResult<Option<Task>>,
    ) -> bool;

    /// Whether starting a task came to the result, and left the store as it is after it.
    spec fn started_to(
        &self,
        id: Seq<char>,
        after: &Self,
        r: TaskSourceResult<Option<Task>>,
    ) -> bool;

    /// Whether failing a task came to the result, and left the store as it is after it.
    spec fn failed_to(
        &self,
        id: Seq<char>,
        after: &Self,
        r: TaskSourceResult<Option<Task>>,
    ) -> bool;

    /// Whether reopening a task came to the result, and left the store as it is after it.
    spec fn reopened_to(
        &self,
        id: Seq<char>,
        after: &Self,
        r: TaskSourceResult<Option<Task>>,
    ) -> bool;

    /// Makes the store ready: creates what it needs. Doing so again is harmless.
    fn setup(&mut self) -> (r: TaskSourceResult<()>)
        ensures
            old(self).set_up_to(final(self), r),
            final(self).tasks() == old(self).tasks(),
            final(self).loop_filter() == old(self).loop_filter(),
    ;

    /// Reads the tasks anew from the store.
    fn refresh(&mut self) -> (r: TaskSourceResult<()>)
        ensures
            old(self).refreshed_to(final(self), r),
            final(self).loop_filter() == old(self).loop_filter(),
    ;

    /// Limits queries to a loop. `None` means all loops.
    fn set_loop_filter(&mut self, loop_id: Option<&str>)
        ensures
            old(self).limited_to(opt_str(loop_id), final(self)),
            final(self).tasks() == old(self).tasks(),
            final(self).loop_filter() == opt_str(loop_id),
    ;

    /// The task with the identifier.
    fn get(&self, id: &str) -> (r: TaskSourceResult<Option<Task>>)
        ensures
            r matches Ok(t) ==> task::opt_view(t) == task_list::by_id(self.tasks(), id@),
    ;

    /// The task with the stable key.
    fn get_by_key(&self, key: &str) -> (r: TaskSourceResult<Option<Task>>)
        ensures
            r matches Ok(t) ==> task::opt_view(t) == task_list::by_key(self.tasks(), key@),
    ;

    /// All tasks of the loop.
    fn all(&self) -> (r: TaskSourceResult<Vec<Task>>)
        ensures
            r matches Ok(v) ==> task::views(v@) == task_list::scoped(
                self.tasks(),
                self.loop_filter(),
            ),
    ;

    /// The tasks that are not closed: open, in progress or failed.
    fn open(&self) -> (r: TaskSourceResult<Vec<Task>>)
        ensures
            r matches Ok(v) ==> task::views(v@) == task_list::open_in(
                self.tasks(),
                self.loop_filter(),
            ),
    ;

    /// The tasks that still need work: open or in progress.
    fn pending(&self) -> (r: TaskSourceResult<Vec<Task>>)
        ensures
            r matches Ok(v) ==> task::views(v@) == task_list::pending_in(
                self.tasks(),
                self.loop_filter(),
            ),
    ;

    /// The open tasks whose blockers are all closed or failed.
    fn ready(&self) -> (r: TaskSourceResult<Vec<Task>>)
        ensures
            r matches Ok(v) ==> task::views(v@) == task_list::ready_in(
                self.tasks(),
                self.loop_filter(),
            ),
    ;

    /// Adds a task. Returns it, with the identifier that the store gave it.
    fn add(&mut self, task: Task) -> (r: TaskSourceResult<Task>)
        ensures
            old(self).added_to(task, final(self), r),
            final(self).loop_filter() == old(self).loop_filter(),
            r matches Ok(t) ==> added_to_store(task@, final(self).tasks(), t@),
    ;

    /// Marks a task as done. Returns it as it is then.
    fn close(&mut self, id: &str) -> (r: TaskSourceResult<Option<Task>>)
        ensures
            old(self).closed_to(id@, final(self), r),
            final(self).loop_filter() == old(self).loop_filter(),
            r matches Ok(t) ==> closed_in_store(id@, final(self).tasks(), task::opt_view(t)),
    ;

    /// Marks a task as in progress. Returns it as it is then.
    fn start(&mut self, id: &str) -> (r: TaskSourceResult<Option<Task>>)
        ensures
            old(self).started_to(id@, final(self), r),
            final(self).loop_filter() == old(self).loop_filter(),
            r matches Ok(t) ==> started_in_store(id@, final(self).tasks(), task::opt_view(t)),
    ;

    /// Marks a task as failed. Returns it as it is then.
    fn fail(&mut self, id: &str) -> (r: TaskSourceResult<Option<Task>>)
        ensures
            old(self).failed_to(id@, final(self), r),
            final(self).loop_filter() == old(self).loop_filter(),
            r matches Ok(t) ==> failed_in_store(id@, final(self).tasks(), task::opt_view(t)),
    ;

    /// Marks a task as open again. Returns it as it is then.
    fn reopen(&mut self, id: &str) -> (r: TaskSourceResult<Option<Task>>)
        ensures
            old(self).reopened_to(id@, final(self), r),
            final(self).loop_filter() == old(self).loop_filter(),
            r matches Ok(t) ==> reopened_in_store(id@, final(self).tasks(), task::opt_view(t)),
    ;

    /// Adds a task unless one with the same key exists; that one then gets the new title and
    /// priority, and the new description and blockers where there are any, and keeps its
    /// state.
    fn ensure(&mut self, task: Task) -> (r: TaskSourceResult<Task>)
        ensures
            old(self).ensured_to(task, final(self), r),
            final(self).loop_filter() == old(self).loop_filter(),
            r matches Ok(t) ==> ensured_in_store(task@, final(self).tasks(), t@),
    ;
}

} // verus!
