//! Tasks and lists of tasks.

use ralph_tasks::clock::{now, Instant};
use ralph_tasks::task::{Task, TaskStatus};
use ralph_tasks::task_list::{
    add_task, close_task, ensure_task, fail_task, open_tasks, pending_tasks, ready_tasks,
    reopen_task, start_task, task_by_id, task_by_key, tasks_in_loop,
};

fn at() -> Instant {
    Instant {
        seconds: 1_774_692_000,
        nanos: 500_000_000,
    }
}

fn task(id: &str) -> Task {
    let mut t = Task::new_at(format!("Title {id}"), 3, at());
    t.id = id.to_string();
    t
}

#[test]
fn new_tasks_are_open() {
    let t = Task::new_at("T".into(), 4, at());
    assert_eq!(t.id, "task-1774692000-500000000");
    assert_eq!(t.created, "2026-03-28T10:00:00.500+00:00");
    assert_eq!(t.status, TaskStatus::Open);
    assert_eq!(t.priority, 4);
    assert!(t.blocked_by.is_empty() && t.metadata.is_empty());
    assert!(t.key.is_none() && t.started.is_none() && t.closed.is_none());
}

#[test]
fn the_clock_moves_on() {
    let a = now();
    let t = Task::new("T".into(), 1);
    let b = now();
    assert!(!a.is_after(&b));
    assert!(t.id.starts_with("task-"));
    assert!(a.seconds > 1_500_000_000);
}

#[test]
fn terminal_states() {
    assert!(TaskStatus::Closed.is_terminal());
    assert!(TaskStatus::Failed.is_terminal());
    assert!(!TaskStatus::Open.is_terminal());
    assert!(!TaskStatus::InProgress.is_terminal());
}

#[test]
fn readiness_follows_the_blockers() {
    let waits = task("w").with_blocker("a".into()).with_blocker("b".into());
    let mut all = vec![task("a"), task("b"), waits.clone()];
    assert!(!waits.is_ready(&all));
    close_task(&mut all, "a", at());
    assert!(!waits.is_ready(&all));
    fail_task(&mut all, "b", at());
    assert!(waits.is_ready(&all));
    reopen_task(&mut all, "a");
    assert!(!waits.is_ready(&all));
    start_task(&mut all, "a", at());
    assert!(!waits.is_ready(&all));
    assert!(!task("x").with_blocker("gone".into()).is_ready(&all));
}

#[test]
fn reopening_undoes_closing_and_failing() {
    let before = vec![task("a"), task("b")];
    let mut v = before.clone();
    close_task(&mut v, "b", at());
    assert_ne!(v, before);
    reopen_task(&mut v, "b");
    assert_eq!(v, before);
    fail_task(&mut v, "a", at());
    reopen_task(&mut v, "a");
    assert_eq!(v, before);
}

#[test]
fn only_the_first_task_with_an_identifier_changes() {
    let mut v = vec![task("a"), task("a")];
    let r = close_task(&mut v, "a", at()).unwrap();
    assert_eq!(r.status, TaskStatus::Closed);
    assert_eq!(v[1].status, TaskStatus::Open);
    assert_eq!(task_by_id(&v, "a").unwrap().status, TaskStatus::Closed);
}

#[test]
fn ensuring_twice_is_ensuring_once() {
    let t = task("n")
        .with_key(Some("k".into()))
        .with_description(Some("D".into()))
        .with_blocker("x".into());
    let mut v = vec![task("a").with_key(Some("k".into())), task("b")];
    let first = ensure_task(&mut v, t.clone());
    let once = v.clone();
    let second = ensure_task(&mut v, t);
    assert_eq!(first, second);
    assert_eq!(v, once);
    assert_eq!(v.len(), 2);
    assert_eq!(task_by_key(&v, "k").unwrap(), first);
    let unkeyed = ensure_task(&mut v, task("u"));
    assert_eq!(unkeyed.id, "u");
    assert_eq!(v.len(), 3);
}

#[test]
fn added_tasks_are_found() {
    let mut v = vec![task("a")];
    let t = add_task(&mut v, task("z"));
    assert_eq!(task_by_id(&v, "z"), Some(t));
    assert_eq!(task_by_id(&v, "none"), None);
}

#[test]
fn selections_keep_the_order() {
    let mut v = vec![task("a"), task("b").with_loop_id(Some("l".into())), task("c")];
    close_task(&mut v, "a", at());
    fail_task(&mut v, "c", at());
    let ids = |v: Vec<Task>| v.into_iter().map(|t| t.id).collect::<Vec<_>>();
    assert_eq!(ids(open_tasks(&v)), vec!["b", "c"]);
    assert_eq!(ids(pending_tasks(&v)), vec!["b"]);
    assert_eq!(ids(ready_tasks(&v)), vec!["b"]);
    assert_eq!(ids(tasks_in_loop(&v, &Some("l".into()))), vec!["b"]);
    assert_eq!(ids(tasks_in_loop(&v, &None)), vec!["a", "b", "c"]);
}
