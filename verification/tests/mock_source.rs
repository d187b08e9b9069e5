//! The task source in memory.

use ralph_tasks::task::{Task, TaskStatus};
use ralph_tasks::task_source::{TaskSource, TaskSourceError};
use ralph_tasks::task_sources::mock::{MockError, MockTaskSource};

#[test]
fn add_and_get() {
    let mut src = MockTaskSource::new();
    let task = Task::new("Test task".to_string(), 2);
    let id = task.id.clone();
    let added = src.add(task).unwrap();
    assert_eq!(added.title, "Test task");

    let found = src.get(&id).unwrap().expect("should find task by id");
    assert_eq!(found.title, "Test task");
    assert_eq!(found.priority, 2);
}

#[test]
fn error_injection() {
    let mut src = MockTaskSource::new();

    src.inject_error("refresh", MockError::Auth("bad token".into()));
    let err = src.refresh().unwrap_err();
    assert!(
        err.to_string().contains("bad token"),
        "expected auth error, got: {}",
        err.to_string()
    );

    src.clear_error("refresh");
    src.refresh().unwrap();
}

#[test]
fn call_tracking() {
    let mut src = MockTaskSource::new();
    assert_eq!(src.call_count("refresh"), 0);

    src.refresh().unwrap();
    src.refresh().unwrap();
    src.refresh().unwrap();
    assert_eq!(src.call_count("refresh"), 3);
    assert_eq!(src.call_count("setup"), 0);
}

#[test]
fn lifecycle() {
    let mut src = MockTaskSource::new();
    let task = Task::new("Lifecycle".to_string(), 1);
    let id = task.id.clone();
    src.add(task).unwrap();

    let started = src.start(&id).unwrap().expect("should start");
    assert_eq!(started.status, TaskStatus::InProgress);
    assert!(started.started.is_some());

    let failed = src.fail(&id).unwrap().expect("should fail");
    assert_eq!(failed.status, TaskStatus::Failed);
    assert!(failed.closed.is_some());

    let reopened = src.reopen(&id).unwrap().expect("should reopen");
    assert_eq!(reopened.status, TaskStatus::Open);
    assert!(reopened.closed.is_none());

    let closed = src.close(&id).unwrap().expect("should close");
    assert_eq!(closed.status, TaskStatus::Closed);
    assert!(closed.closed.is_some());
}

fn task(id: &str) -> Task {
    let mut t = Task::new(format!("Title {id}"), 3);
    t.id = id.to_string();
    t
}

#[test]
fn errors_stand_for_task_source_errors() {
    let m = || "m".to_string();
    assert_eq!(
        MockError::Auth(m()).into_task_source_error(),
        TaskSourceError::Auth(m())
    );
    assert_eq!(
        MockError::NotFound(m()).into_task_source_error(),
        TaskSourceError::NotFound(m())
    );
    assert_eq!(
        MockError::Config(m()).into_task_source_error(),
        TaskSourceError::Config(m())
    );
    assert_eq!(
        MockError::Retryable(m()).into_task_source_error(),
        TaskSourceError::Retryable {
            source: m(),
            retry_after: None
        }
    );
    assert_eq!(
        MockError::Other(m()).into_task_source_error(),
        TaskSourceError::Other(m())
    );
}

#[test]
fn error_messages_name_the_kind() {
    let m = || "m".to_string();
    let retry = TaskSourceError::Retryable {
        source: m(),
        retry_after: Some(1),
    };
    assert_eq!(retry.to_string(), "retryable error: m");
    assert_eq!(TaskSourceError::Auth(m()).to_string(), "auth error: m");
    assert_eq!(TaskSourceError::NotFound(m()).to_string(), "not found: m");
    assert_eq!(TaskSourceError::Config(m()).to_string(), "config error: m");
    assert_eq!(
        TaskSourceError::Other(m()).to_string(),
        "task source error: m"
    );
}

#[test]
fn injected_errors_leave_tasks_alone_and_are_counted() {
    let mut src = MockTaskSource::with_tasks(vec![task("a")]);
    src.inject_error("close", MockError::Other("down".into()));
    assert_eq!(
        src.close("a").unwrap_err(),
        TaskSourceError::Other("down".into())
    );
    assert_eq!(src.call_count("close"), 1);
    assert_eq!(src.get("a").unwrap().unwrap().status, TaskStatus::Open);
    src.inject_error("close", MockError::Auth("no".into()));
    assert_eq!(src.close("a").unwrap_err(), TaskSourceError::Auth("no".into()));
    src.clear_error("close");
    assert_eq!(src.close("a").unwrap().unwrap().status, TaskStatus::Closed);
    assert_eq!(src.call_count("close"), 3);
    assert_eq!(src.call_count("get"), 0);
}

#[test]
fn every_counted_method_is_counted_and_can_fail() {
    let mut src = MockTaskSource::with_tasks(vec![task("a")]);
    for name in ["setup", "refresh", "add", "start", "fail", "reopen", "ensure"] {
        src.inject_error(name, MockError::NotFound(name.to_string()));
    }
    assert!(src.setup().is_err());
    assert!(src.refresh().is_err());
    assert!(src.add(task("b")).is_err());
    assert!(src.start("a").is_err());
    assert!(src.fail("a").is_err());
    assert!(src.reopen("a").is_err());
    assert!(src.ensure(task("c")).is_err());
    for name in ["setup", "refresh", "add", "start", "fail", "reopen", "ensure"] {
        assert_eq!(src.call_count(name), 1, "{name}");
    }
    assert_eq!(src.all().unwrap().len(), 1);
}

#[test]
fn injected_errors_are_returned_by_queries_until_cleared() {
    let mut src = MockTaskSource::with_tasks(vec![task("a")]);
    let names = ["get", "get_by_key", "all", "open", "pending", "ready"];
    for name in names {
        src.inject_error(name, MockError::Auth(name.to_string()));
    }
    let auth = |name: &str| TaskSourceError::Auth(name.to_string());
    for _ in 0..2 {
        assert_eq!(src.get("a").unwrap_err(), auth("get"));
        assert_eq!(src.get_by_key("k").unwrap_err(), auth("get_by_key"));
        assert_eq!(src.all().unwrap_err(), auth("all"));
        assert_eq!(src.open().unwrap_err(), auth("open"));
        assert_eq!(src.pending().unwrap_err(), auth("pending"));
        assert_eq!(src.ready().unwrap_err(), auth("ready"));
    }
    src.clear_error("all");
    assert_eq!(src.all().unwrap().len(), 1);
    assert!(src.open().is_err());
}

#[test]
fn changes_of_unknown_tasks_find_nothing() {
    let mut src = MockTaskSource::with_tasks(vec![task("a")]);
    assert!(src.close("z").unwrap().is_none());
    assert!(src.start("z").unwrap().is_none());
    assert!(src.fail("z").unwrap().is_none());
    assert!(src.reopen("z").unwrap().is_none());
    assert_eq!(src.get("a").unwrap().unwrap().status, TaskStatus::Open);
}

#[test]
fn ensure_reuses_the_task_with_the_key() {
    let mut src = MockTaskSource::new();
    let first = task("1").with_key(Some("k".into())).with_blocker("x".into());
    src.ensure(first).unwrap();
    src.start("1").unwrap();
    let mut again = task("2").with_key(Some("k".into()));
    again.title = "New".to_string();
    again.priority = 1;
    let got = src.ensure(again).unwrap();
    assert_eq!(got.id, "1");
    assert_eq!(got.title, "New");
    assert_eq!(got.priority, 1);
    assert_eq!(got.status, TaskStatus::InProgress);
    assert_eq!(got.blocked_by, vec!["x"]);
    assert_eq!(src.all().unwrap().len(), 1);
    let more = task("3").with_key(Some("k".into())).with_blocker("y".into());
    assert_eq!(src.ensure(more).unwrap().blocked_by, vec!["y"]);
    assert_eq!(src.get_by_key("k").unwrap().unwrap().id, "1");
    assert!(src.get_by_key("none").unwrap().is_none());
}

#[test]
fn queries_nest_and_respect_the_loop() {
    let mut tasks = Vec::new();
    for (id, status) in [
        ("o", TaskStatus::Open),
        ("p", TaskStatus::InProgress),
        ("c", TaskStatus::Closed),
        ("f", TaskStatus::Failed),
    ] {
        let mut t = task(id).with_loop_id(Some("l".into()));
        t.status = status;
        tasks.push(t);
    }
    tasks.push(task("waits").with_blocker("o".into()).with_loop_id(Some("l".into())));
    tasks.push(task("freed").with_blocker("f".into()).with_loop_id(Some("l".into())));
    tasks.push(task("other"));
    let mut src = MockTaskSource::with_tasks(tasks);
    src.set_loop_filter(Some("l"));
    let ids = |v: Vec<Task>| v.into_iter().map(|t| t.id).collect::<Vec<_>>();
    assert_eq!(ids(src.all().unwrap()), vec!["o", "p", "c", "f", "waits", "freed"]);
    assert_eq!(ids(src.open().unwrap()), vec!["o", "p", "f", "waits", "freed"]);
    assert_eq!(ids(src.pending().unwrap()), vec!["o", "p", "waits", "freed"]);
    assert_eq!(ids(src.ready().unwrap()), vec!["o", "freed"]);
    src.set_loop_filter(None);
    assert_eq!(src.all().unwrap().len(), 7);
}

#[test]
fn a_blocker_outside_the_loop_is_not_finished() {
    let mut done = task("done");
    done.status = TaskStatus::Closed;
    let waits = task("w").with_blocker("done".into()).with_loop_id(Some("l".into()));
    let mut src = MockTaskSource::with_tasks(vec![done, waits]);
    assert_eq!(src.ready().unwrap().len(), 1);
    src.set_loop_filter(Some("l"));
    assert!(src.ready().unwrap().is_empty());
}
