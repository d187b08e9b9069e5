//! Task source in memory, for tests.
//!
//! Errors can be injected per method, and calls are counted, so that code around a task
//! source can be tried without files or subprocesses.

use crate::clock;
use crate::clock::{utc_now, Instant};
use crate::entries;
use crate::entries::{place_for, set_entry};
use crate::json;
use crate::task;
use crate::task::{Task, TaskView};
use crate::task_list;
use crate::task_list::{
    add_task, close_task, ensure_task, fail_task, open_tasks, pending_tasks, ready_tasks,
    reopen_task, start_task, task_by_id, task_by_key, tasks_in_loop, Change,
};
use crate::task_source;
use crate::task_source::{ErrorView, TaskSource, TaskSourceError, TaskSourceResult};
use crate::text::same_text;
use vstd::prelude::*;
use vstd::string::*;

verus! {

/// An error to inject.
#[derive(Debug, PartialEq)]
pub enum MockError {
    Auth(String),
    NotFound(String),
    Config(String),
    Retryable(String),
    Other(String),
}

/// The error that an injected error stands for.
pub open spec fn injected(e: MockError) -> ErrorView {
    match e {
        MockError::Auth(m) => ErrorView::Auth(m@),
        MockError::NotFound(m) => ErrorView::NotFound(m@),
        MockError::Config(m) => ErrorView::Config(m@),
        MockError::Retryable(m) => ErrorView::Retryable { source: m@, retry_after: None },
        MockError::Other(m) => ErrorView::Other(m@),
    }
}

impl MockError {
    /// The task source error that the injected error stands for.
    pub fn into_task_source_error(self) -> (r: TaskSourceError)
        ensures
            r@ == injected(self),
    {
        match self {
            MockError::Auth(msg) => TaskSourceError::Auth(msg),
            MockError::NotFound(msg) => TaskSourceError::NotFound(msg),
            MockError::Config(msg) => TaskSourceError::Config(msg),
            MockError::Retryable(msg) => TaskSourceError::Retryable {
                source: msg,
                retry_after: None,
            },
            MockError::Other(msg) => TaskSourceError::Other(msg),
        }
    }
}

impl Clone for MockError {
    fn clone(&self) -> (r: Self)
        ensures
            r == *self,
    {
        match self {
            MockError::Auth(msg) => MockError::Auth(msg.clone()),
            MockError::NotFound(msg) => MockError::NotFound(msg.clone()),
            MockError::Config(msg) => MockError::Config(msg.clone()),
            MockError::Retryable(msg) => MockError::Retryable(msg.clone()),
            MockError::Other(msg) => MockError::Other(msg.clone()),
        }
    }
}

/// One more, but not beyond what the type holds.
pub open spec fn one_more(n: usize) -> usize {
    if n < usize::MAX {
        (n + 1) as usize
    } else {
        n
    }
}

/// Task source in memory, with error injection and call counts.
pub struct MockTaskSource {
    tasks: Vec<Task>,
    loop_filter: Option<String>,
    inject_errors: Vec<(String, MockError)>,
    call_counts: Vec<(String, usize)>,
}

impl MockTaskSource {
    /// The tasks that the source holds.
    pub closed spec fn held(&self) -> Seq<TaskView> {
        task::views(self.tasks@)
    }

    /// The loop that queries are limited to.
    pub closed spec fn filter(&self) -> Option<Seq<char>> {
        json::opt_text(self.loop_filter)
    }

    /// The error that is injected for a method.
    pub closed spec fn error_for(&self, method: Seq<char>) -> Option<MockError> {
        entries::value_for(self.inject_errors@, method)
    }

    /// How often a method was called.
    pub closed spec fn calls_of(&self, method: Seq<char>) -> usize {
        match entries::value_for(self.call_counts@, method) {
            Some(n) => n,
            None => 0,
        }
    }

    /// Whether the counts of this source are those of `before` with one more call of the
    /// method, and its injected errors are the same.
    pub open spec fn counted(&self, before: &MockTaskSource, method: Seq<char>) -> bool {
        &&& self.calls_of(method) == one_more(before.calls_of(method))
        &&& forall|m: Seq<char>|
            m != method ==> #[trigger] self.calls_of(m) == before.calls_of(m)
        &&& forall|m: Seq<char>| #[trigger] self.error_for(m) == before.error_for(m)
    }

    /// An empty source.
    pub fn new() -> (r: Self)
        ensures
            r.held() == Seq::<TaskView>::empty(),
            r.filter() is None,
            forall|m: Seq<char>| (#[trigger] r.error_for(m)) is None,
            forall|m: Seq<char>| #[trigger] r.calls_of(m) == 0,
    {
        let r = MockTaskSource {
            tasks: Vec::new(),
            loop_filter: None,
            inject_errors: Vec::new(),
            call_counts: Vec::new(),
        };
        assert(r.held() =~= Seq::<TaskView>::empty());
        r
    }

    /// A source that holds the tasks.
    pub fn with_tasks(tasks: Vec<Task>) -> (r: Self)
        ensures
            r.held() == task::views(tasks@),
            r.filter() is None,
            forall|m: Seq<char>| (#[trigger] r.error_for(m)) is None,
            forall|m: Seq<char>| #[trigger] r.calls_of(m) == 0,
    {
        MockTaskSource {
            tasks,
            loop_filter: None,
            inject_errors: Vec::new(),
            call_counts: Vec::new(),
        }
    }

    /// Injects an error for a method. Every call of the method returns it until it is
    /// cleared.
    pub fn inject_error(&mut self, method: &str, error: MockError)
        ensures
            final(self).held() == old(self).held(),
            final(self).filter() == old(self).filter(),
            final(self).error_for(method@) == Some(error),
            forall|m: Seq<char>|
                m != method@ ==> #[trigger] final(self).error_for(m) == old(self).error_for(m),
            forall|m: Seq<char>| #[trigger] final(self).calls_of(m) == old(self).calls_of(m),
    {
        set_entry(&mut self.inject_errors, method, error);
    }

    /// Clears the error that was injected for a method.
    pub fn clear_error(&mut self, method: &str)
        ensures
            final(self).held() == old(self).held(),
            final(self).filter() == old(self).filter(),
            final(self).error_for(method@) is None,
            forall|m: Seq<char>|
                m != method@ ==> #[trigger] final(self).error_for(m) == old(self).error_for(m),
            forall|m: Seq<char>| #[trigger] final(self).calls_of(m) == old(self).calls_of(m),
    {
        let ghost before = self.inject_errors@;
        let mut kept: Vec<(String, MockError)> = Vec::new();
        let mut i: usize = self.inject_errors.len();
        assert(before.skip(before.len() as int) =~= Seq::<(String, MockError)>::empty());
        while i > 0
            invariant
                i <= self.inject_errors@.len(),
                self.inject_errors@ == before,
                entries::value_for(kept@, method@) is None,
                forall|m: Seq<char>|
                    m != method@ ==> #[trigger] entries::value_for(kept@, m) == entries::value_for(
                        before.skip(i as int),
                        m,
                    ),
            decreases i,
        {
            i = i - 1;
            assert(before.skip(i as int).skip(1) =~= before.skip(i + 1));
            assert(before.skip(i as int)[0] == before[i as int]);
            let ghost tail = kept@;
            if !same_text(self.inject_errors[i].0.as_str(), method) {
                let e = (self.inject_errors[i].0.clone(), self.inject_errors[i].1.clone());
                kept.insert(0, e);
                assert(kept@.skip(1) =~= tail);
                assert(kept@[0] == e);
            }
            assert forall|m: Seq<char>| m != method@ implies #[trigger] entries::value_for(kept@, m)
                == entries::value_for(before.skip(i as int), m) by {
                assert(entries::value_for(tail, m) == entries::value_for(before.skip(i + 1), m));
            }
        }
        assert(before.skip(0) =~= before);
        self.inject_errors = kept;
        assert forall|m: Seq<char>| m != method@ implies #[trigger] self.error_for(m) == old(
            self,
        ).error_for(m) by {
            assert(entries::value_for(kept@, m) == entries::value_for(before.skip(0), m));
        }
    }

    /// How often a method was called. Set-up, refresh and changes are counted; queries are
    /// not.
    pub fn call_count(&self, method: &str) -> (r: usize)
        ensures
            r == self.calls_of(method@),
    {
        let i: usize = place_for(&self.call_counts, method);
        if i < self.call_counts.len() {
            self.call_counts[i].1
        } else {
            0
        }
    }

    /// Counts a call of a method.
    pub fn track(&mut self, method: &str)
        ensures
            final(self).held() == old(self).held(),
            final(self).filter() == old(self).filter(),
            final(self).counted(old(self), method@),
    {
        let n: usize = self.call_count(method);
        let next: usize = if n < usize::MAX {
            n + 1
        } else {
            n
        };
        set_entry(&mut self.call_counts, method, next);
    }

    /// The error that a call of the method returns.
    pub fn check_error(&self, method: &str) -> (r: Option<TaskSourceError>)
        ensures
            match r {
                Some(e) => self.error_for(method@) is Some && e@ == injected(
                    self.error_for(method@)->0,
                ),
                None => self.error_for(method@) is None,
            },
    {
        let i: usize = place_for(&self.inject_errors, method);
        if i < self.inject_errors.len() {
            Some(self.inject_errors[i].1.clone().into_task_source_error())
        } else {
            None
        }
    }

    /// The tasks of the loop that queries are limited to.
    pub fn filtered_tasks(&self) -> (r: Vec<Task>)
        ensures
            task::views(r@) == task_list::scoped(self.held(), self.filter()),
    {
        tasks_in_loop(&self.tasks, &self.loop_filter)
    }
}

/// What a counted operation leaves: the call is counted; with an injected error it returns
/// that error and changes no task.
pub open spec fn guarded<T>(
    before: &MockTaskSource,
    after: &MockTaskSource,
    method: Seq<char>,
    r: TaskSourceResult<T>,
) -> bool {
    &&& after.counted(before, method)
    &&& after.filter() == before.filter()
    &&& match before.error_for(method) {
        Some(e) => after.held() == before.held() && r is Err && r->Err_0@ == injected(e),
        None => r is Ok,
    }
}

/// Whether a query was answered: with the error that is injected for it, and otherwise with
/// success.
pub open spec fn answered<T>(
    source: &MockTaskSource,
    method: Seq<char>,
    r: TaskSourceResult<T>,
) -> bool {
    match source.error_for(method) {
        Some(e) => r is Err && r->Err_0@ == injected(e),
        None => r is Ok,
    }
}

/// Calls and injected errors do not depend on the tasks.
proof fn lemma_books(a: MockTaskSource, b: MockTaskSource)
    requires
        a.call_counts == b.call_counts,
        a.inject_errors == b.inject_errors,
    ensures
        forall|m: Seq<char>| #[trigger] a.calls_of(m) == b.calls_of(m),
        forall|m: Seq<char>| #[trigger] a.error_for(m) == b.error_for(m),
{
}

impl TaskSource for MockTaskSource {
    open spec fn tasks(&self) -> Seq<TaskView> {
        self.held()
    }

    open spec fn loop_filter(&self) -> Option<Seq<char>> {
        self.filter()
    }

    open spec fn set_up_to(&self, after: &Self, r: TaskSourceResult<()>) -> bool {
        guarded(self, after, "setup"@, r) && after.held() == self.held()
    }

    open spec fn refreshed_to(&self, after: &Self, r: TaskSourceResult<()>) -> bool {
        guarded(self, after, "refresh"@, r) && after.held() == self.held()
    }

    open spec fn limited_to(&self, loop_id: Option<Seq<char>>, after: &Self) -> bool {
        &&& after.held() == self.held()
        &&& after.filter() == loop_id
        &&& forall|m: Seq<char>| #[trigger] after.error_for(m) == self.error_for(m)
        &&& forall|m: Seq<char>| #[trigger] after.calls_of(m) == self.calls_of(m)
    }

    open spec fn added_to(&self, task: Task, after: &Self, r: TaskSourceResult<Task>) -> bool {
        guarded(self, after, "add"@, r) && (r matches Ok(t) ==> task_source::carried_out(
            self.held(),
            Change::Add(task@),
            after.held(),
            Some(t@),
        ))
    }

    open spec fn ensured_to(&self, task: Task, after: &Self, r: TaskSourceResult<Task>) -> bool {
        guarded(self, after, "ensure"@, r) && (r matches Ok(t) ==> task_source::carried_out(
            self.held(),
            Change::Ensure(task@),
            after.held(),
            Some(t@),
        ))
    }

    open spec fn closed_to(
        &self,
        id: Seq<char>,
        after: &Self,
        r: TaskSourceResult<Option<Task>>,
    ) -> bool {
        guarded(self, after, "close"@, r) && (r matches Ok(t) ==> exists|at: Instant|
            at.is_valid() && task_source::carried_out(
                self.held(),
                Change::Close(id, #[trigger] clock::stamp_of(at)),
                after.held(),
                task::opt_view(t),
            ))
    }

    open spec fn started_to(
        &self,
        id: Seq<char>,
        after: &Self,
        r: TaskSourceResult<Option<Task>>,
    ) -> bool {
        guarded(self, after, "start"@, r) && (r matches Ok(t) ==> exists|at: Instant|
            at.is_valid() && task_source::carried_out(
                self.held(),
                Change::Start(id, #[trigger] clock::stamp_of(at)),
                after.held(),
                task::opt_view(t),
            ))
    }

    open spec fn failed_to(
        &self,
        id: Seq<char>,
        after: &Self,
        r: TaskSourceResult<Option<Task>>,
    ) -> bool {
        guarded(self, after, "fail"@, r) && (r matches Ok(t) ==> exists|at: Instant|
            at.is_valid() && task_source::carried_out(
                self.held(),
                Change::Fail(id, #[trigger] clock::stamp_of(at)),
                after.held(),
                task::opt_view(t),
            ))
    }

    open spec fn reopened_to(
        &self,
        id: Seq<char>,
        after: &Self,
        r: TaskSourceResult<Option<Task>>,
    ) -> bool {
        guarded(self, after, "reopen"@, r) && (r matches Ok(t) ==> task_source::carried_out(
            self.held(),
            Change::Reopen(id),
            after.held(),
            task::opt_view(t),
        ))
    }

    fn setup(&mut self) -> (r: TaskSourceResult<()>) {
        self.track("setup");
        match self.check_error("setup") {
            Some(e) => Err(e),
            None => Ok(()),
        }
    }

    fn refresh(&mut self) -> (r: TaskSourceResult<()>) {
        self.track("refresh");
        match self.check_error("refresh") {
            Some(e) => Err(e),
            None => Ok(()),
        }
    }

    fn set_loop_filter(&mut self, loop_id: Option<&str>) {
        self.loop_filter = match loop_id {
            Some(l) => Some(l.to_string()),
            None => None,
        };
    }

    fn get(&self, id: &str) -> (r: TaskSourceResult<Option<Task>>)
        ensures
            answered(self, "get"@, r),
    {
        match self.check_error("get") {
            Some(e) => Err(e),
            None => Ok(task_by_id(&self.tasks, id)),
        }
    }

    fn get_by_key(&self, key: &str) -> (r: TaskSourceResult<Option<Task>>)
        ensures
            answered(self, "get_by_key"@, r),
    {
        match self.check_error("get_by_key") {
            Some(e) => Err(e),
            None => Ok(task_by_key(&self.tasks, key)),
        }
    }

    fn all(&self) -> (r: TaskSourceResult<Vec<Task>>)
        ensures
            answered(self, "all"@, r),
    {
        match self.check_error("all") {
            Some(e) => Err(e),
            None => Ok(self.filtered_tasks()),
        }
    }

    fn open(&self) -> (r: TaskSourceResult<Vec<Task>>)
        ensures
            answered(self, "open"@, r),
    {
        match self.check_error("open") {
            Some(e) => Err(e),
            None => Ok(open_tasks(&self.filtered_tasks())),
        }
    }

    fn pending(&self) -> (r: TaskSourceResult<Vec<Task>>)
        ensures
            answered(self, "pending"@, r),
    {
        match self.check_error("pending") {
            Some(e) => Err(e),
            None => Ok(pending_tasks(&self.filtered_tasks())),
        }
    }

    fn ready(&self) -> (r: TaskSourceResult<Vec<Task>>)
        ensures
            answered(self, "ready"@, r),
    {
        match self.check_error("ready") {
            Some(e) => Err(e),
            None => Ok(ready_tasks(&self.filtered_tasks())),
        }
    }

    fn add(&mut self, task: Task) -> (r: TaskSourceResult<Task>) {
        self.track("add");
        match self.check_error("add") {
            Some(e) => Err(e),
            None => {
                let ghost counted = *self;
                let t = add_task(&mut self.tasks, task);
                proof {
                    lemma_books(*self, counted);
                    let same = TaskView { id: task@.id, ..task@ };
                    assert(same == task@);
                    assert(task_source::carried_out(
                        old(self).held(),
                        Change::Add(same),
                        self.held(),
                        Some(t@),
                    ));
                }
                Ok(t)
            },
        }
    }

    fn close(&mut self, id: &str) -> (r: TaskSourceResult<Option<Task>>) {
        self.track("close");
        match self.check_error("close") {
            Some(e) => Err(e),
            None => {
                let ghost counted = *self;
                let t = utc_now();
                let r = close_task(&mut self.tasks, id, t);
                proof {
                    lemma_books(*self, counted);
                    assert(task_source::carried_out(
                        old(self).held(),
                        Change::Close(id@, clock::stamp_of(t)),
                        self.held(),
                        task::opt_view(r),
                    ));
                }
                Ok(r)
            },
        }
    }

    fn start(&mut self, id: &str) -> (r: TaskSourceResult<Option<Task>>) {
        self.track("start");
        match self.check_error("start") {
            Some(e) => Err(e),
            None => {
                let ghost counted = *self;
                let t = utc_now();
                let r = start_task(&mut self.tasks, id, t);
                proof {
                    lemma_books(*self, counted);
                    assert(task_source::carried_out(
                        old(self).held(),
                        Change::Start(id@, clock::stamp_of(t)),
                        self.held(),
                        task::opt_view(r),
                    ));
                }
                Ok(r)
            },
        }
    }

    fn fail(&mut self, id: &str) -> (r: TaskSourceResult<Option<Task>>) {
        self.track("fail");
        match self.check_error("fail") {
            Some(e) => Err(e),
            None => {
                let ghost counted = *self;
                let t = utc_now();
                let r = fail_task(&mut self.tasks, id, t);
                proof {
                    lemma_books(*self, counted);
                    assert(task_source::carried_out(
                        old(self).held(),
                        Change::Fail(id@, clock::stamp_of(t)),
                        self.held(),
                        task::opt_view(r),
                    ));
                }
                Ok(r)
            },
        }
    }

    fn reopen(&mut self, id: &str) -> (r: TaskSourceResult<Option<Task>>) {
        self.track("reopen");
        match self.check_error("reopen") {
            Some(e) => Err(e),
            None => {
                let ghost counted = *self;
                let r = reopen_task(&mut self.tasks, id);
                proof {
                    lemma_books(*self, counted);
                    assert(task_source::carried_out(
                        old(self).held(),
                        Change::Reopen(id@),
                        self.held(),
                        task::opt_view(r),
                    ));
                }
                Ok(r)
            },
        }
    }

    fn ensure(&mut self, task: Task) -> (r: TaskSourceResult<Task>) {
        self.track("ensure");
        match self.check_error("ensure") {
            Some(e) => Err(e),
            None => {
                let ghost counted = *self;
                let t = ensure_task(&mut self.tasks, task);
                proof {
                    lemma_books(*self, counted);
                    let same = TaskView { id: task@.id, ..task@ };
                    assert(same == task@);
                    assert(task_source::carried_out(
                        old(self).held(),
                        Change::Ensure(same),
                        self.held(),
                        Some(t@),
                    ));
                }
                Ok(t)
            },
        }
    }
}

} // verus!
