//! One of the task sources that a program offers.

use crate::task::{Task, TaskView};
use crate::task_source::{TaskSource, TaskSourceResult};
use crate::task_sources::github::port::GhPort;
use crate::task_sources::github::store::GithubStore;
use crate::task_sources::jsonl_store::JsonlStore;
use crate::task_sources::task_file::TaskFile;
use vstd::prelude::*;

verus! {

/// A task source on a JSONL file or on GitHub issues.
pub enum AnyTaskSource<F: TaskFile, P: GhPort> {
    Jsonl(JsonlStore<F>),
    Github(GithubStore<P>),
}

impl<F: TaskFile, P: GhPort> TaskSource for AnyTaskSource<F, P> {
    open spec fn tasks(&self) -> Seq<TaskView> {
        match self {
            AnyTaskSource::Jsonl(s) => s.tasks(),
            AnyTaskSource::Github(s) => s.tasks(),
        }
    }

    open spec fn loop_filter(&self) -> Option<Seq<char>> {
        match self {
            AnyTaskSource::Jsonl(s) => s.loop_filter(),
            AnyTaskSource::Github(s) => s.loop_filter(),
        }
    }

    open spec fn set_up_to(&self, after: &Self, r: TaskSourceResult<()>) -> bool {
        match (self, after) {
            (AnyTaskSource::Jsonl(a), AnyTaskSource::Jsonl(b)) => a.set_up_to(b, r),
            (AnyTaskSource::Github(a), AnyTaskSource::Github(b)) => a.set_up_to(b, r),
            _ => false,
        }
    }

    open spec fn refreshed_to(&self, after: &Self, r: TaskSourceResult<()>) -> bool {
        match (self, after) {
            (AnyTaskSource::Jsonl(a), AnyTaskSource::Jsonl(b)) => a.refreshed_to(b, r),
            (AnyTaskSource::Github(a), AnyTaskSource::Github(b)) => a.refreshed_to(b, r),
            _ => false,
        }
    }

    open spec fn limited_to(&self, loop_id: Option<Seq<char>>, after: &Self) -> bool {
        match (self, after) {
            (AnyTaskSource::Jsonl(a), AnyTaskSource::Jsonl(b)) => a.limited_to(loop_id, b),
            (AnyTaskSource::Github(a), AnyTaskSource::Github(b)) => a.limited_to(loop_id, b),
            _ => false,
        }
    }

    open spec fn added_to(&self, task: Task, after: &Self, r: TaskSourceResult<Task>) -> bool {
        match (self, after) {
            (AnyTaskSource::Jsonl(a), AnyTaskSource::Jsonl(b)) => a.added_to(task, b, r),
            (AnyTaskSource::Github(a), AnyTaskSource::Github(b)) => a.added_to(task, b, r),
            _ => false,
        }
    }

    open spec fn ensured_to(&self, task: Task, after: &Self, r: TaskSourceResult<Task>) -> bool {
        match (self, after) {
            (AnyTaskSource::Jsonl(a), AnyTaskSource::Jsonl(b)) => a.ensured_to(task, b, r),
            (AnyTaskSource::Github(a), AnyTaskSource::Github(b)) => a.ensured_to(task, b, r),
            _ => false,
        }
    }

    open spec fn closed_to(
        &self,
        id: Seq<char>,
        after: &Self,
        r: TaskSourceResult<Option<Task>>,
    ) -> bool {
        match (self, after) {
            (AnyTaskSource::Jsonl(a), AnyTaskSource::Jsonl(b)) => a.closed_to(id, b, r),
            (AnyTaskSource::Github(a), AnyTaskSource::Github(b)) => a.closed_to(id, b, r),
            _ => false,
        }
    }

    open spec fn started_to(
        &self,
        id: Seq<char>,
        after: &Self,
        r: TaskSourceResult<Option<Task>>,
    ) -> bool {
        match (self, after) {
            (AnyTaskSource::Jsonl(a), AnyTaskSource::Jsonl(b)) => a.started_to(id, b, r),
            (AnyTaskSource::Github(a), AnyTaskSource::Github(b)) => a.started_to(id, b, r),
            _ => false,
        }
    }

    open spec fn failed_to(
        &self,
        id: Seq<char>,
        after: &Self,
        r: TaskSourceResult<Option<Task>>,
    ) -> bool {
        match (self, after) {
            (AnyTaskSource::Jsonl(a), AnyTaskSource::Jsonl(b)) => a.failed_to(id, b, r),
            (AnyTaskSource::Github(a), AnyTaskSource::Github(b)) => a.failed_to(id, b, r),
            _ => false,
        }
    }

    open spec fn reopened_to(
        &self,
        id: Seq<char>,
        after: &Self,
        r: TaskSourceResult<Option<Task>>,
    ) -> bool {
        match (self, after) {
            (AnyTaskSource::Jsonl(a), AnyTaskSource::Jsonl(b)) => a.reopened_to(id, b, r),
            (AnyTaskSource::Github(a), AnyTaskSource::Github(b)) => a.reopened_to(id, b, r),
            _ => false,
        }
    }

    fn setup(&mut self) -> (r: TaskSourceResult<()>) {
        match self {
            AnyTaskSource::Jsonl(s) => s.setup(),
            AnyTaskSource::Github(s) => s.setup(),
        }
    }

    fn refresh(&mut self) -> (r: TaskSourceResult<()>) {
        match self {
            AnyTaskSource::Jsonl(s) => s.refresh(),
            AnyTaskSource::Github(s) => s.refresh(),
        }
    }

    fn set_loop_filter(&mut self, loop_id: Option<&str>) {
        match self {
            AnyTaskSource::Jsonl(s) => s.set_loop_filter(loop_id),
            AnyTaskSource::Github(s) => s.set_loop_filter(loop_id),
        }
    }

    fn get(&self, id: &str) -> (r: TaskSourceResult<Option<Task>>)
        ensures
            r is Ok,
    {
        match self {
            AnyTaskSource::Jsonl(s) => s.get(id),
            AnyTaskSource::Github(s) => s.get(id),
        }
    }

    fn get_by_key(&self, key: &str) -> (r: TaskSourceResult<Option<Task>>)
        ensures
            r is Ok,
    {
        match self {
            AnyTaskSource::Jsonl(s) => s.get_by_key(key),
            AnyTaskSource::Github(s) => s.get_by_key(key),
        }
    }

    fn all(&self) -> (r: TaskSourceResult<Vec<Task>>)
        ensures
            r is Ok,
    {
        match self {
            AnyTaskSource::Jsonl(s) => s.all(),
            AnyTaskSource::Github(s) => s.all(),
        }
    }

    fn open(&self) -> (r: TaskSourceResult<Vec<Task>>)
        ensures
            r is Ok,
    {
        match self {
            AnyTaskSource::Jsonl(s) => s.open(),
            AnyTaskSource::Github(s) => s.open(),
        }
    }

    fn pending(&self) -> (r: TaskSourceResult<Vec<Task>>)
        ensures
            r is Ok,
    {
        match self {
            AnyTaskSource::Jsonl(s) => s.pending(),
            AnyTaskSource::Github(s) => s.pending(),
        }
    }

    fn ready(&self) -> (r: TaskSourceResult<Vec<Task>>)
        ensures
            r is Ok,
    {
        match self {
            AnyTaskSource::Jsonl(s) => s.ready(),
            AnyTaskSource::Github(s) => s.ready(),
        }
    }

    fn add(&mut self, task: Task) -> (r: TaskSourceResult<Task>) {
        match self {
            AnyTaskSource::Jsonl(s) => s.add(task),
            AnyTaskSource::Github(s) => s.add(task),
        }
    }

    fn close(&mut self, id: &str) -> (r: TaskSourceResult<Option<Task>>) {
        match self {
            AnyTaskSource::Jsonl(s) => s.close(id),
            AnyTaskSource::Github(s) => s.close(id),
        }
    }

    fn start(&mut self, id: &str) -> (r: TaskSourceResult<Option<Task>>) {
        match self {
            AnyTaskSource::Jsonl(s) => s.start(id),
            AnyTaskSource::Github(s) => s.start(id),
        }
    }

    fn fail(&mut self, id: &str) -> (r: TaskSourceResult<Option<Task>>) {
        match self {
            AnyTaskSource::Jsonl(s) => s.fail(id),
            AnyTaskSource::Github(s) => s.fail(id),
        }
    }

    fn reopen(&mut self, id: &str) -> (r: TaskSourceResult<Option<Task>>) {
        match self {
            AnyTaskSource::Jsonl(s) => s.reopen(id),
            AnyTaskSource::Github(s) => s.reopen(id),
        }
    }

    fn ensure(&mut self, task: Task) -> (r: TaskSourceResult<Task>) {
        match self {
            AnyTaskSource::Jsonl(s) => s.ensure(task),
            AnyTaskSource::Github(s) => s.ensure(task),
        }
    }
}

} // verus!
