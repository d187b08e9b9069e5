//! Queries and changes on a list of tasks.
//!
//! Every store keeps its tasks as a list, in the order in which they were added. What a
//! query selects and what a change does are functions of that list.

use crate::clock;
use crate::clock::Instant;
use crate::json;
use crate::task;
use crate::task::{Task, TaskStatus, TaskView};
use crate::text::same_text;
use vstd::prelude::*;
use vstd::string::*;

verus! {

/// The place of the first task that `p` accepts.
pub open spec fn first_place(s: Seq<TaskView>, p: spec_fn(TaskView) -> bool) -> Option<int>
    decreases s.len(),
{
    if s.len() == 0 {
        None
    } else if p(s[0]) {
        Some(0)
    } else {
        match first_place(s.skip(1), p) {
            Some(i) => Some(i + 1),
            None => None,
        }
    }
}

/// What the place of the first accepted task says of the list.
pub proof fn lemma_first_place(s: Seq<TaskView>, p: spec_fn(TaskView) -> bool)
    ensures
        match first_place(s, p) {
            Some(i) => 0 <= i < s.len() && p(s[i]) && forall|j: int| 0 <= j < i ==> !p(#[trigger] s[j]),
            None => forall|j: int| 0 <= j < s.len() ==> !p(#[trigger] s[j]),
        },
    decreases s.len(),
{
    if s.len() > 0 && !p(s[0]) {
        let t = s.skip(1);
        lemma_first_place(t, p);
        assert forall|j: int|
            0 <= j < s.len() && (first_place(s, p) is None || j < first_place(s, p)->0) implies !p(
            #[trigger] s[j],
        ) by {
            if j > 0 {
                assert(s[j] == t[j - 1]);
            }
        }
    }
}

/// The first accepted task, found by its place.
pub proof fn lemma_first_place_is(s: Seq<TaskView>, p: spec_fn(TaskView) -> bool, i: int)
    requires
        0 <= i < s.len(),
        p(s[i]),
        forall|j: int| 0 <= j < i ==> !p(#[trigger] s[j]),
    ensures
        first_place(s, p) == Some(i),
{
    lemma_first_place(s, p);
}

/// Accepts the tasks with an identifier.
pub open spec fn has_id(id: Seq<char>) -> spec_fn(TaskView) -> bool {
    |t: TaskView| t.id == id
}

/// Accepts the tasks with a key.
pub open spec fn has_key(key: Seq<char>) -> spec_fn(TaskView) -> bool {
    |t: TaskView| t.key == Some(key)
}

/// Accepts the tasks of a loop; without a loop, all tasks.
pub open spec fn in_loop(filter: Option<Seq<char>>) -> spec_fn(TaskView) -> bool {
    |t: TaskView| filter is None || t.loop_id == filter
}

/// Accepts the tasks that are not closed.
pub open spec fn not_closed() -> spec_fn(TaskView) -> bool {
    |t: TaskView| !(t.status is Closed)
}

/// Accepts the tasks that still need work.
pub open spec fn unfinished() -> spec_fn(TaskView) -> bool {
    |t: TaskView| !task::terminal(t.status)
}

/// Accepts the tasks that work can begin on, given all tasks.
pub open spec fn workable(all: Seq<TaskView>) -> spec_fn(TaskView) -> bool {
    |t: TaskView| task::ready_among(t, all)
}

/// The first task with an identifier.
pub open spec fn by_id(s: Seq<TaskView>, id: Seq<char>) -> Option<TaskView> {
    match first_place(s, has_id(id)) {
        Some(i) => Some(s[i]),
        None => None,
    }
}

/// The first task with a key.
pub open spec fn by_key(s: Seq<TaskView>, key: Seq<char>) -> Option<TaskView> {
    match first_place(s, has_key(key)) {
        Some(i) => Some(s[i]),
        None => None,
    }
}

/// The tasks of a loop.
pub open spec fn scoped(s: Seq<TaskView>, filter: Option<Seq<char>>) -> Seq<TaskView> {
    s.filter(in_loop(filter))
}

/// The tasks of a loop that are not closed.
pub open spec fn open_in(s: Seq<TaskView>, filter: Option<Seq<char>>) -> Seq<TaskView> {
    scoped(s, filter).filter(not_closed())
}

/// The tasks of a loop that still need work.
pub open spec fn pending_in(s: Seq<TaskView>, filter: Option<Seq<char>>) -> Seq<TaskView> {
    scoped(s, filter).filter(unfinished())
}

/// The tasks of a loop that work can begin on.
pub open spec fn ready_in(s: Seq<TaskView>, filter: Option<Seq<char>>) -> Seq<TaskView> {
    let all = scoped(s, filter);
    all.filter(workable(all))
}

/// A task of the list, brought up to date by a task with the same key: title and priority
/// are taken over, description and blockers only where the new task has any. State, times,
/// identifier, loop and metadata stay.
pub open spec fn merged_task(existing: TaskView, new: TaskView) -> TaskView {
    TaskView {
        title: new.title,
        priority: new.priority,
        description: if new.description is Some {
            new.description
        } else {
            existing.description
        },
        blocked_by: if new.blocked_by.len() > 0 {
            new.blocked_by
        } else {
            existing.blocked_by
        },
        ..existing
    }
}

/// A change to a list of tasks. Where a change stamps a time, the text of the time is its
/// last field.
pub enum Change {
    Add(TaskView),
    Close(Seq<char>, Seq<char>),
    Start(Seq<char>, Seq<char>),
    Fail(Seq<char>, Seq<char>),
    Reopen(Seq<char>),
    Ensure(TaskView),
}

/// The place of the task that a change rewrites, and what it becomes. A change without one
/// adds a task or does nothing.
pub open spec fn rewritten(s: Seq<TaskView>, c: Change) -> Option<(int, TaskView)> {
    match c {
        Change::Add(_) => None,
        Change::Close(id, stamp) => match first_place(s, has_id(id)) {
            Some(i) => Some((i, task::closed_task(s[i], stamp))),
            None => None,
        },
        Change::Start(id, stamp) => match first_place(s, has_id(id)) {
            Some(i) => Some((i, task::started_task(s[i], stamp))),
            None => None,
        },
        Change::Fail(id, stamp) => match first_place(s, has_id(id)) {
            Some(i) => Some((i, task::failed_task(s[i], stamp))),
            None => None,
        },
        Change::Reopen(id) => match first_place(s, has_id(id)) {
            Some(i) => Some((i, task::reopened_task(s[i]))),
            None => None,
        },
        Change::Ensure(t) => match t.key {
            Some(key) => match first_place(s, has_key(key)) {
                Some(i) => Some((i, merged_task(s[i], t))),
                None => None,
            },
            None => None,
        },
    }
}

/// The task that a change adds when it rewrites none.
pub open spec fn added(c: Change) -> Option<TaskView> {
    match c {
        Change::Add(t) => Some(t),
        Change::Ensure(t) => Some(t),
        _ => None,
    }
}

/// The list after a change.
pub open spec fn applied(s: Seq<TaskView>, c: Change) -> Seq<TaskView> {
    match rewritten(s, c) {
        Some((i, t)) => s.update(i, t),
        None => match added(c) {
            Some(t) => s.push(t),
            None => s,
        },
    }
}

/// The task that a change rewrote or added, as it is afterwards.
pub open spec fn replied(s: Seq<TaskView>, c: Change) -> Option<TaskView> {
    match rewritten(s, c) {
        Some((_, t)) => Some(t),
        None => added(c),
    }
}

/// How a filter grows by one more task.
pub proof fn lemma_filter_step(s: Seq<TaskView>, p: spec_fn(TaskView) -> bool, i: int)
    requires
        0 <= i < s.len(),
    ensures
        s.take(i + 1).filter(p) == if p(s[i]) {
            s.take(i).filter(p).push(s[i])
        } else {
            s.take(i).filter(p)
        },
{
    reveal(Seq::filter);
    assert(s.take(i + 1).drop_last() =~= s.take(i));
}

/// What a filter keeps, the list held.
pub proof fn lemma_filter_from(s: Seq<TaskView>, p: spec_fn(TaskView) -> bool, i: int)
    requires
        0 <= i < s.filter(p).len(),
    ensures
        s.contains(s.filter(p)[i]),
    decreases s.len(),
{
    reveal(Seq::filter);
    if s.len() > 0 {
        let rest = s.drop_last();
        if i < rest.filter(p).len() {
            lemma_filter_from(rest, p, i);
            let j = choose|j: int| 0 <= j < rest.len() && rest[j] == rest.filter(p)[i];
            assert(s[j] == s.filter(p)[i]);
        } else {
            assert(s[s.len() - 1] == s.filter(p)[i]);
        }
    }
}

/// The place of the first task with the identifier.
pub fn find_id(tasks: &Vec<Task>, id: &str) -> (r: Option<usize>)
    ensures
        match r {
            Some(i) => i < tasks@.len() && first_place(task::views(tasks@), has_id(id@)) == Some(
                i as int,
            ),
            None => first_place(task::views(tasks@), has_id(id@)) is None,
        },
{
    let ghost s = task::views(tasks@);
    let ghost p = has_id(id@);
    let mut i: usize = 0;
    while i < tasks.len()
        invariant
            i <= tasks@.len(),
            s == task::views(tasks@),
            p == has_id(id@),
            forall|j: int| 0 <= j < i ==> !p(#[trigger] s[j]),
        decreases tasks@.len() - i,
    {
        assert(s[i as int].id == tasks@[i as int].id@);
        if same_text(tasks[i].id.as_str(), id) {
            proof {
                lemma_first_place_is(s, p, i as int);
            }
            return Some(i);
        }
        i = i + 1;
    }
    proof {
        lemma_first_place(s, p);
    }
    None
}

/// The place of the first task with the key.
pub fn find_key(tasks: &Vec<Task>, key: &str) -> (r: Option<usize>)
    ensures
        match r {
            Some(i) => i < tasks@.len() && first_place(task::views(tasks@), has_key(key@)) == Some(
                i as int,
            ),
            None => first_place(task::views(tasks@), has_key(key@)) is None,
        },
{
    let ghost s = task::views(tasks@);
    let ghost p = has_key(key@);
    let mut i: usize = 0;
    while i < tasks.len()
        invariant
            i <= tasks@.len(),
            s == task::views(tasks@),
            p == has_key(key@),
            forall|j: int| 0 <= j < i ==> !p(#[trigger] s[j]),
        decreases tasks@.len() - i,
    {
        assert(s[i as int].key == json::opt_text(tasks@[i as int].key));
        match &tasks[i].key {
            Some(k) => {
                if same_text(k.as_str(), key) {
                    proof {
                        lemma_first_place_is(s, p, i as int);
                    }
                    return Some(i);
                }
            },
            None => {},
        }
        i = i + 1;
    }
    proof {
        lemma_first_place(s, p);
    }
    None
}

/// The first task with the identifier.
pub fn task_by_id(tasks: &Vec<Task>, id: &str) -> (r: Option<Task>)
    ensures
        task::opt_view(r) == by_id(task::views(tasks@), id@),
{
    match find_id(tasks, id) {
        Some(i) => Some(tasks[i].clone()),
        None => None,
    }
}

/// The first task with the key.
pub fn task_by_key(tasks: &Vec<Task>, key: &str) -> (r: Option<Task>)
    ensures
        task::opt_view(r) == by_key(task::views(tasks@), key@),
{
    match find_key(tasks, key) {
        Some(i) => Some(tasks[i].clone()),
        None => None,
    }
}

/// Whether a task belongs to the loop.
fn belongs(t: &Task, filter: &Option<String>) -> (r: bool)
    ensures
        r == in_loop(json::opt_text(*filter))(t@),
{
    match filter {
        None => true,
        Some(f) => match &t.loop_id {
            Some(l) => same_text(l.as_str(), f.as_str()),
            None => false,
        },
    }
}

/// The tasks of the loop, in order.
pub fn tasks_in_loop(tasks: &Vec<Task>, filter: &Option<String>) -> (r: Vec<Task>)
    ensures
        task::views(r@) == scoped(task::views(tasks@), json::opt_text(*filter)),
{
    let ghost s = task::views(tasks@);
    let ghost p = in_loop(json::opt_text(*filter));
    let mut out: Vec<Task> = Vec::new();
    let mut i: usize = 0;
    assert(task::views(out@) =~= s.take(0).filter(p)) by {
        reveal(Seq::filter);
    }
    while i < tasks.len()
        invariant
            i <= tasks@.len(),
            s == task::views(tasks@),
            p == in_loop(json::opt_text(*filter)),
            task::views(out@) == s.take(i as int).filter(p),
        decreases tasks@.len() - i,
    {
        let ghost before = out@;
        proof {
            lemma_filter_step(s, p, i as int);
        }
        if belongs(&tasks[i], filter) {
            let t = tasks[i].clone();
            out.push(t);
            assert(task::views(out@) =~= task::views(before).push(t@));
        }
        i = i + 1;
    }
    assert(s.take(i as int) =~= s);
    out
}

/// The tasks that are not closed, in order.
pub fn open_tasks(tasks: &Vec<Task>) -> (r: Vec<Task>)
    ensures
        task::views(r@) == task::views(tasks@).filter(not_closed()),
{
    let ghost s = task::views(tasks@);
    let ghost p = not_closed();
    let mut out: Vec<Task> = Vec::new();
    let mut i: usize = 0;
    assert(task::views(out@) =~= s.take(0).filter(p)) by {
        reveal(Seq::filter);
    }
    while i < tasks.len()
        invariant
            i <= tasks@.len(),
            s == task::views(tasks@),
            p == not_closed(),
            task::views(out@) == s.take(i as int).filter(p),
        decreases tasks@.len() - i,
    {
        let ghost before = out@;
        proof {
            lemma_filter_step(s, p, i as int);
        }
        if tasks[i].status != TaskStatus::Closed {
            let t = tasks[i].clone();
            out.push(t);
            assert(task::views(out@) =~= task::views(before).push(t@));
        }
        i = i + 1;
    }
    assert(s.take(i as int) =~= s);
    out
}

/// The tasks that still need work, in order.
pub fn pending_tasks(tasks: &Vec<Task>) -> (r: Vec<Task>)
    ensures
        task::views(r@) == task::views(tasks@).filter(unfinished()),
{
    let ghost s = task::views(tasks@);
    let ghost p = unfinished();
    let mut out: Vec<Task> = Vec::new();
    let mut i: usize = 0;
    assert(task::views(out@) =~= s.take(0).filter(p)) by {
        reveal(Seq::filter);
    }
    while i < tasks.len()
        invariant
            i <= tasks@.len(),
            s == task::views(tasks@),
            p == unfinished(),
            task::views(out@) == s.take(i as int).filter(p),
        decreases tasks@.len() - i,
    {
        let ghost before = out@;
        proof {
            lemma_filter_step(s, p, i as int);
        }
        if !tasks[i].status.is_terminal() {
            let t = tasks[i].clone();
            out.push(t);
            assert(task::views(out@) =~= task::views(before).push(t@));
        }
        i = i + 1;
    }
    assert(s.take(i as int) =~= s);
    out
}

/// The tasks that work can begin on, in order.
pub fn ready_tasks(tasks: &Vec<Task>) -> (r: Vec<Task>)
    ensures
        task::views(r@) == task::views(tasks@).filter(workable(task::views(tasks@))),
{
    let ghost s = task::views(tasks@);
    let ghost p = workable(s);
    let mut out: Vec<Task> = Vec::new();
    let mut i: usize = 0;
    assert(task::views(out@) =~= s.take(0).filter(p)) by {
        reveal(Seq::filter);
    }
    while i < tasks.len()
        invariant
            i <= tasks@.len(),
            s == task::views(tasks@),
            p == workable(s),
            task::views(out@) == s.take(i as int).filter(p),
        decreases tasks@.len() - i,
    {
        let ghost before = out@;
        proof {
            lemma_filter_step(s, p, i as int);
        }
        if tasks[i].is_ready(tasks) {
            let t = tasks[i].clone();
            out.push(t);
            assert(task::views(out@) =~= task::views(before).push(t@));
        }
        i = i + 1;
    }
    assert(s.take(i as int) =~= s);
    out
}

/// Adds a task at the end.
pub fn add_task(tasks: &mut Vec<Task>, t: Task) -> (r: Task)
    ensures
        task::views(final(tasks)@) == applied(task::views(old(tasks)@), Change::Add(t@)),
        Some(r@) == replied(task::views(old(tasks)@), Change::Add(t@)),
{
    tasks.push(t.clone());
    assert(task::views(tasks@) =~= task::views(old(tasks)@).push(t@));
    t
}

/// Marks the first task with the identifier as done.
pub fn close_task(tasks: &mut Vec<Task>, id: &str, t: Instant) -> (r: Option<Task>)
    requires
        t.is_valid(),
    ensures
        task::views(final(tasks)@) == applied(
            task::views(old(tasks)@),
            Change::Close(id@, clock::stamp_of(t)),
        ),
        task::opt_view(r) == replied(
            task::views(old(tasks)@),
            Change::Close(id@, clock::stamp_of(t)),
        ),
{
    match find_id(tasks, id) {
        Some(i) => {
            let mut x = tasks[i].clone();
            x.close_at(t);
            let r = x.clone();
            tasks.set(i, x);
            assert(task::views(tasks@) =~= task::views(old(tasks)@).update(i as int, x@));
            Some(r)
        },
        None => None,
    }
}

/// Marks the first task with the identifier as in progress.
pub fn start_task(tasks: &mut Vec<Task>, id: &str, t: Instant) -> (r: Option<Task>)
    requires
        t.is_valid(),
    ensures
        task::views(final(tasks)@) == applied(
            task::views(old(tasks)@),
            Change::Start(id@, clock::stamp_of(t)),
        ),
        task::opt_view(r) == replied(
            task::views(old(tasks)@),
            Change::Start(id@, clock::stamp_of(t)),
        ),
{
    match find_id(tasks, id) {
        Some(i) => {
            let mut x = tasks[i].clone();
            x.start_at(t);
            let r = x.clone();
            tasks.set(i, x);
            assert(task::views(tasks@) =~= task::views(old(tasks)@).update(i as int, x@));
            Some(r)
        },
        None => None,
    }
}

/// Marks the first task with the identifier as failed.
pub fn fail_task(tasks: &mut Vec<Task>, id: &str, t: Instant) -> (r: Option<Task>)
    requires
        t.is_valid(),
    ensures
        task::views(final(tasks)@) == applied(
            task::views(old(tasks)@),
            Change::Fail(id@, clock::stamp_of(t)),
        ),
        task::opt_view(r) == replied(task::views(old(tasks)@), Change::Fail(id@, clock::stamp_of(t))),
{
    match find_id(tasks, id) {
        Some(i) => {
            let mut x = tasks[i].clone();
            x.fail_at(t);
            let r = x.clone();
            tasks.set(i, x);
            assert(task::views(tasks@) =~= task::views(old(tasks)@).update(i as int, x@));
            Some(r)
        },
        None => None,
    }
}

/// Marks the first task with the identifier as open again.
pub fn reopen_task(tasks: &mut Vec<Task>, id: &str) -> (r: Option<Task>)
    ensures
        task::views(final(tasks)@) == applied(task::views(old(tasks)@), Change::Reopen(id@)),
        task::opt_view(r) == replied(task::views(old(tasks)@), Change::Reopen(id@)),
{
    match find_id(tasks, id) {
        Some(i) => {
            let mut x = tasks[i].clone();
            x.reopen();
            let r = x.clone();
            tasks.set(i, x);
            assert(task::views(tasks@) =~= task::views(old(tasks)@).update(i as int, x@));
            Some(r)
        },
        None => None,
    }
}

/// A task brought up to date by another.
fn merge(existing: &Task, new: &Task) -> (r: Task)
    ensures
        r@ == merged_task(existing@, new@),
{
    let mut x = existing.clone();
    let n = new.clone();
    x.title = n.title;
    x.priority = n.priority;
    if n.description.is_some() {
        x.description = n.description;
    }
    assert(new@.blocked_by.len() == n.blocked_by@.len()) by {
        assert(n@.blocked_by.len() == n.blocked_by@.len());
    }
    if n.blocked_by.len() > 0 {
        x.blocked_by = n.blocked_by;
    }
    x
}

/// Brings the first task with the key of `t` up to date, or adds `t`.
pub fn ensure_task(tasks: &mut Vec<Task>, t: Task) -> (r: Task)
    ensures
        task::views(final(tasks)@) == applied(task::views(old(tasks)@), Change::Ensure(t@)),
        Some(r@) == replied(task::views(old(tasks)@), Change::Ensure(t@)),
{
    let found: Option<usize> = match &t.key {
        Some(key) => find_key(tasks, key.as_str()),
        None => None,
    };
    match found {
        Some(i) => {
            let x = merge(&tasks[i], &t);
            let r = x.clone();
            tasks.set(i, x);
            assert(task::views(tasks@) =~= task::views(old(tasks)@).update(i as int, x@));
            r
        },
        None => {
            tasks.push(t.clone());
            assert(task::views(tasks@) =~= task::views(old(tasks)@).push(t@));
            t
        },
    }
}

} // verus!
