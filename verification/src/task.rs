//! Tasks and their states.

use crate::clock;
use crate::clock::{to_rfc3339, utc_now, Instant};
use crate::json;
use crate::pattern;
use crate::text;
use crate::text::decimal;
use vstd::prelude::*;
use vstd::string::*;

verus! {

/// The state of a task.
#[derive(Debug, Clone, Copy, PartialEq, Eq, Structural)]
pub enum TaskStatus {
    /// Not started.
    Open,
    /// Being worked on.
    InProgress,
    /// Done.
    Closed,
    /// Given up.
    Failed,
}

/// Whether a task in this state needs no more work.
pub open spec fn terminal(s: TaskStatus) -> bool {
    s is Closed || s is Failed
}

impl TaskStatus {
    /// Whether a task in this state needs no more work: it is closed or failed.
    pub fn is_terminal(&self) -> (r: bool)
        ensures
            r == terminal(*self),
    {
        match self {
            TaskStatus::Closed => true,
            TaskStatus::Failed => true,
            _ => false,
        }
    }
}

/// A value in a task's metadata.
#[derive(Debug, PartialEq)]
pub enum MetaValue {
    /// A string.
    Text(String),
    /// A list of strings.
    List(Vec<String>),
    /// Any other JSON value, as its text.
    Json(String),
}

/// The contents of a [`MetaValue`].
pub enum MetaView {
    Text(Seq<char>),
    List(Seq<Seq<char>>),
    Json(Seq<char>),
}

impl View for MetaValue {
    type V = MetaView;

    open spec fn view(&self) -> MetaView {
        match self {
            MetaValue::Text(s) => MetaView::Text(s@),
            MetaValue::List(v) => MetaView::List(pattern::texts(v@)),
            MetaValue::Json(s) => MetaView::Json(s@),
        }
    }
}

/// The contents of a metadata list.
pub open spec fn entries(v: Seq<(String, MetaValue)>) -> Seq<(Seq<char>, MetaView)> {
    v.map_values(|e: (String, MetaValue)| (e.0@, e.1@))
}

/// Metadata with the value of `key` set: in its place where the key is there, else at the
/// end.
pub open spec fn with_entry(
    m: Seq<(Seq<char>, MetaView)>,
    key: Seq<char>,
    value: MetaView,
) -> Seq<(Seq<char>, MetaView)>
    decreases m.len(),
{
    if m.len() == 0 {
        seq![(key, value)]
    } else if m[0].0 == key {
        m.update(0, (key, value))
    } else {
        seq![m[0]] + with_entry(m.skip(1), key, value)
    }
}

/// The value of `key`.
pub open spec fn entry_of(m: Seq<(Seq<char>, MetaView)>, key: Seq<char>) -> Option<MetaView>
    decreases m.len(),
{
    if m.len() == 0 {
        None
    } else if m[0].0 == key {
        Some(m[0].1)
    } else {
        entry_of(m.skip(1), key)
    }
}

/// Whether each key occurs once.
pub open spec fn distinct_keys(m: Seq<(Seq<char>, MetaView)>) -> bool {
    forall|i: int, j: int| 0 <= i < j < m.len() ==> (#[trigger] m[i]).0 != (#[trigger] m[j]).0
}

/// A work item.
#[derive(Debug, PartialEq)]
pub struct Task {
    /// Identifier, assigned by the store.
    pub id: String,
    /// Short description.
    pub title: String,
    /// Long description.
    pub description: Option<String>,
    /// Stable key, by which a task is found again.
    pub key: Option<String>,
    /// State.
    pub status: TaskStatus,
    /// Priority, 1 (highest) to 5.
    pub priority: u8,
    /// Identifiers of the tasks that have to be finished first.
    pub blocked_by: Vec<String>,
    /// The loop that owns the task.
    pub loop_id: Option<String>,
    /// RFC 3339 time of creation.
    pub created: String,
    /// RFC 3339 time of the last start.
    pub started: Option<String>,
    /// RFC 3339 time at which the task was closed or failed.
    pub closed: Option<String>,
    /// Further fields, by key; no key occurs twice.
    pub metadata: Vec<(String, MetaValue)>,
}

/// The contents of a [`Task`].
#[verifier::ext_equal]
pub struct TaskView {
    pub id: Seq<char>,
    pub title: Seq<char>,
    pub description: Option<Seq<char>>,
    pub key: Option<Seq<char>>,
    pub status: TaskStatus,
    pub priority: u8,
    pub blocked_by: Seq<Seq<char>>,
    pub loop_id: Option<Seq<char>>,
    pub created: Seq<char>,
    pub started: Option<Seq<char>>,
    pub closed: Option<Seq<char>>,
    pub metadata: Seq<(Seq<char>, MetaView)>,
}

impl View for Task {
    type V = TaskView;

    open spec fn view(&self) -> TaskView {
        TaskView {
            id: self.id@,
            title: self.title@,
            description: json::opt_text(self.description),
            key: json::opt_text(self.key),
            status: self.status,
            priority: self.priority,
            blocked_by: pattern::texts(self.blocked_by@),
            loop_id: json::opt_text(self.loop_id),
            created: self.created@,
            started: json::opt_text(self.started),
            closed: json::opt_text(self.closed),
            metadata: entries(self.metadata@),
        }
    }
}

/// The contents of a list of tasks.
pub open spec fn views(v: Seq<Task>) -> Seq<TaskView> {
    v.map_values(|t: Task| t@)
}

/// The contents of an optional task.
pub open spec fn opt_view(t: Option<Task>) -> Option<TaskView> {
    match t {
        Some(t) => Some(t@),
        None => None,
    }
}

/// A copy of an optional string.
pub fn copy_opt(s: &Option<String>) -> (r: Option<String>)
    ensures
        r == *s,
{
    match s {
        Some(s) => Some(s.clone()),
        None => None,
    }
}

/// A copy of a list of strings.
pub fn copy_texts(v: &Vec<String>) -> (r: Vec<String>)
    ensures
        r@ == v@,
{
    let mut out: Vec<String> = Vec::new();
    let mut i: usize = 0;
    while i < v.len()
        invariant
            i <= v@.len(),
            out@ == v@.take(i as int),
        decreases v@.len() - i,
    {
        out.push(v[i].clone());
        i = i + 1;
        assert(out@ =~= v@.take(i as int));
    }
    assert(v@.take(i as int) =~= v@);
    out
}

impl Clone for MetaValue {
    fn clone(&self) -> (r: Self)
        ensures
            r@ == self@,
    {
        match self {
            MetaValue::Text(s) => MetaValue::Text(s.clone()),
            MetaValue::List(v) => MetaValue::List(copy_texts(v)),
            MetaValue::Json(s) => MetaValue::Json(s.clone()),
        }
    }
}

/// A copy of a metadata list.
fn copy_entries(v: &Vec<(String, MetaValue)>) -> (r: Vec<(String, MetaValue)>)
    ensures
        entries(r@) == entries(v@),
{
    let mut out: Vec<(String, MetaValue)> = Vec::new();
    let mut i: usize = 0;
    while i < v.len()
        invariant
            i <= v@.len(),
            entries(out@) == entries(v@).take(i as int),
        decreases v@.len() - i,
    {
        let ghost before = out@;
        let e = (v[i].0.clone(), v[i].1.clone());
        out.push(e);
        assert(entries(out@) =~= entries(before).push((e.0@, e.1@)));
        assert(entries(v@)[i as int] == (v@[i as int].0@, v@[i as int].1@));
        i = i + 1;
        assert(entries(out@) =~= entries(v@).take(i as int));
    }
    assert(entries(v@).take(i as int) =~= entries(v@));
    out
}

impl Clone for Task {
    fn clone(&self) -> (r: Self)
        ensures
            r@ == self@,
    {
        Task {
            id: self.id.clone(),
            title: self.title.clone(),
            description: copy_opt(&self.description),
            key: copy_opt(&self.key),
            status: self.status,
            priority: self.priority,
            blocked_by: copy_texts(&self.blocked_by),
            loop_id: copy_opt(&self.loop_id),
            created: self.created.clone(),
            started: copy_opt(&self.started),
            closed: copy_opt(&self.closed),
            metadata: copy_entries(&self.metadata),
        }
    }
}

/// The identifier of a task made at an instant.
pub open spec fn new_id(t: Instant) -> Seq<char> {
    "task-"@ + text::decimal_text(t.seconds as nat) + "-"@ + text::decimal_text(t.nanos as nat)
}

/// A task made at an instant.
pub open spec fn new_task(title: Seq<char>, priority: u8, t: Instant) -> TaskView {
    TaskView {
        id: new_id(t),
        title,
        description: None,
        key: None,
        status: TaskStatus::Open,
        priority,
        blocked_by: seq![],
        loop_id: None,
        created: clock::stamp_of(t),
        started: None,
        closed: None,
        metadata: seq![],
    }
}

/// A task that was closed.
pub open spec fn closed_task(t: TaskView, stamp: Seq<char>) -> TaskView {
    TaskView { status: TaskStatus::Closed, closed: Some(stamp), ..t }
}

/// A task that failed.
pub open spec fn failed_task(t: TaskView, stamp: Seq<char>) -> TaskView {
    TaskView { status: TaskStatus::Failed, closed: Some(stamp), ..t }
}

/// A task that was started.
pub open spec fn started_task(t: TaskView, stamp: Seq<char>) -> TaskView {
    TaskView { status: TaskStatus::InProgress, started: Some(stamp), ..t }
}

/// A task that was reopened.
pub open spec fn reopened_task(t: TaskView) -> TaskView {
    TaskView { status: TaskStatus::Open, closed: None, ..t }
}

/// Whether the first task with this identifier is finished. A task that is not in the list
/// is not finished.
pub open spec fn finished(id: Seq<char>, all: Seq<TaskView>) -> bool
    decreases all.len(),
{
    if all.len() == 0 {
        false
    } else if all[0].id == id {
        terminal(all[0].status)
    } else {
        finished(id, all.skip(1))
    }
}

/// Whether work on the task can begin: it is open and all its blockers are finished.
pub open spec fn ready_among(t: TaskView, all: Seq<TaskView>) -> bool {
    t.status is Open && forall|i: int|
        0 <= i < t.blocked_by.len() ==> finished(#[trigger] t.blocked_by[i], all)
}

/// Whether the first task with this identifier is finished.
fn is_finished(id: &String, all: &Vec<Task>) -> (r: bool)
    ensures
        r == finished(id@, views(all@)),
{
    let ghost ts = views(all@);
    let mut i: usize = 0;
    assert(ts.skip(0) =~= ts);
    while i < all.len()
        invariant
            i <= all@.len(),
            ts == views(all@),
            finished(id@, ts) == finished(id@, ts.skip(i as int)),
        decreases all@.len() - i,
    {
        assert(ts.skip(i as int)[0] == all@[i as int]@);
        assert(ts.skip(i as int).skip(1) =~= ts.skip(i + 1));
        if all[i].id == *id {
            return all[i].status.is_terminal();
        }
        i = i + 1;
    }
    false
}

impl Task {
    /// A new open task, made at the given time.
    pub fn new_at(title: String, priority: u8, t: Instant) -> (r: Self)
        requires
            t.is_valid(),
            t.seconds >= 0,
        ensures
            r@ == new_task(title@, priority, t),
            t.is_writable() ==> clock::instant_of(r@.created) == Some(t),
    {
        let mut id = "task-".to_string();
        id.append(decimal(t.seconds as u64).as_str());
        id.append("-");
        id.append(decimal(t.nanos as u64).as_str());
        let r = Task {
            id,
            title,
            description: None,
            key: None,
            status: TaskStatus::Open,
            priority,
            blocked_by: Vec::new(),
            loop_id: None,
            created: to_rfc3339(t),
            started: None,
            closed: None,
            metadata: Vec::new(),
        };
        assert(r@ =~= new_task(title@, priority, t));
        r
    }

    /// A new open task, made now.
    pub fn new(title: String, priority: u8) -> (r: Self)
        ensures
            exists|t: Instant|
                t.is_valid() && t.seconds >= 0 && r@ == #[trigger] new_task(title@, priority, t),
    {
        Task::new_at(title, priority, utc_now())
    }

    /// The task with its loop set.
    pub fn with_loop_id(self, loop_id: Option<String>) -> (r: Self)
        ensures
            r@ == (TaskView { loop_id: json::opt_text(loop_id), ..self@ }),
    {
        let mut t = self;
        t.loop_id = loop_id;
        t
    }

    /// The task with its description set.
    pub fn with_description(self, description: Option<String>) -> (r: Self)
        ensures
            r@ == (TaskView { description: json::opt_text(description), ..self@ }),
    {
        let mut t = self;
        t.description = description;
        t
    }

    /// The task with its key set.
    pub fn with_key(self, key: Option<String>) -> (r: Self)
        ensures
            r@ == (TaskView { key: json::opt_text(key), ..self@ }),
    {
        let mut t = self;
        t.key = key;
        t
    }

    /// The task with one more blocker.
    pub fn with_blocker(self, id: String) -> (r: Self)
        ensures
            r@ == (TaskView { blocked_by: self@.blocked_by.push(id@), ..self@ }),
    {
        let mut t = self;
        t.blocked_by.push(id);
        assert(t@.blocked_by =~= self@.blocked_by.push(id@));
        t
    }

    /// Marks the task as in progress, as of the given time.
    pub fn start_at(&mut self, t: Instant)
        requires
            t.is_valid(),
        ensures
            final(self)@ == started_task(old(self)@, clock::stamp_of(t)),
            t.is_writable() ==> clock::instant_of(clock::stamp_of(t)) == Some(t),
    {
        self.status = TaskStatus::InProgress;
        self.started = Some(to_rfc3339(t));
    }

    /// Marks the task as in progress, as of now.
    pub fn start(&mut self)
        ensures
            exists|t: Instant|
                t.is_valid() && final(self)@ == started_task(
                    old(self)@,
                    #[trigger] clock::stamp_of(t),
                ),
    {
        self.start_at(utc_now());
    }

    /// Marks the task as done, as of the given time.
    pub fn close_at(&mut self, t: Instant)
        requires
            t.is_valid(),
        ensures
            final(self)@ == closed_task(old(self)@, clock::stamp_of(t)),
            t.is_writable() ==> clock::instant_of(clock::stamp_of(t)) == Some(t),
    {
        self.status = TaskStatus::Closed;
        self.closed = Some(to_rfc3339(t));
    }

    /// Marks the task as failed, as of the given time.
    pub fn fail_at(&mut self, t: Instant)
        requires
            t.is_valid(),
        ensures
            final(self)@ == failed_task(old(self)@, clock::stamp_of(t)),
            t.is_writable() ==> clock::instant_of(clock::stamp_of(t)) == Some(t),
    {
        self.status = TaskStatus::Failed;
        self.closed = Some(to_rfc3339(t));
    }

    /// Marks the task as open again.
    pub fn reopen(&mut self)
        ensures
            final(self)@ == reopened_task(old(self)@),
    {
        self.status = TaskStatus::Open;
        self.closed = None;
    }

    /// Whether work on the task can begin: it is open and each of its blockers is a task of
    /// the list that is closed or failed.
    pub fn is_ready(&self, all: &Vec<Task>) -> (r: bool)
        ensures
            r == ready_among(self@, views(all@)),
    {
        match self.status {
            TaskStatus::Open => {},
            _ => {
                return false;
            },
        }
        let mut i: usize = 0;
        while i < self.blocked_by.len()
            invariant
                i <= self.blocked_by@.len(),
                forall|j: int| 0 <= j < i ==> finished(#[trigger] self@.blocked_by[j], views(all@)),
            decreases self.blocked_by@.len() - i,
        {
            assert(self@.blocked_by[i as int] == self.blocked_by@[i as int]@);
            if !is_finished(&self.blocked_by[i], all) {
                return false;
            }
            i = i + 1;
        }
        true
    }
}

} // verus!
