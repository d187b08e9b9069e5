//! The task source on a JSONL file.

use ralph_tasks::clock::Instant;
use ralph_tasks::config::ConnectorConfig;
use ralph_tasks::task::{Task, TaskStatus};
use ralph_tasks::task_source::TaskSourceError;
use ralph_tasks::task_sources::jsonl::{
    file_content, task_lines, tasks_of_lines, JsonlTaskSource, Mutation,
};

fn task(id: &str) -> Task {
    let mut t = Task::new(format!("Title {id}"), 3);
    t.id = id.to_string();
    t
}

fn at() -> Instant {
    Instant {
        seconds: 1_774_692_000,
        nanos: 0,
    }
}

fn source() -> JsonlTaskSource {
    JsonlTaskSource::from_config(&ConnectorConfig::Null, "/w", Ok(vec![])).unwrap()
}

fn path(config: &str) -> String {
    JsonlTaskSource::path_from_config(&ConnectorConfig::Json(config.to_string()), "/w")
}

#[test]
fn path_comes_from_the_configuration_or_the_workspace() {
    assert_eq!(source().path(), "/w/.ralph/agent/tasks.jsonl");
    assert_eq!(path("{\"path\": \"/x/t.jsonl\"}"), "/x/t.jsonl");
    assert_eq!(path("{\"path\":\"a\",\"path\":\"b\\n\"}"), "b\n");
    assert_eq!(path("{}"), "/w/.ralph/agent/tasks.jsonl");
    assert_eq!(path("{\"path\": 3}"), "/w/.ralph/agent/tasks.jsonl");
    assert_eq!(path("{\"path\": null}"), "/w/.ralph/agent/tasks.jsonl");
    assert_eq!(path("[\"path\"]"), "/w/.ralph/agent/tasks.jsonl");
    let below = JsonlTaskSource::path_from_config(&ConnectorConfig::Null, "w/");
    assert_eq!(below, "w/.ralph/agent/tasks.jsonl");
}

#[test]
fn a_file_that_cannot_be_read_is_an_error() {
    let err = TaskSourceError::Other("io".into());
    let r = JsonlTaskSource::from_config(&ConnectorConfig::Null, "/w", Err(err));
    assert_eq!(r.unwrap_err(), TaskSourceError::Other("io".into()));
}

#[test]
fn lines_are_split_and_blank_ones_left_out() {
    let want: Vec<String> = vec!["{a}".into(), " {b}".into(), "{c}\r".into()];
    assert_eq!(task_lines("{a}\r\n\n  \t\n {b}\n{c}\r"), want);
    assert!(task_lines("").is_empty());
    assert!(task_lines("\n\n").is_empty());
}

#[test]
fn written_lines_come_back() {
    let lines: Vec<String> = vec!["{\"a\":1}".into(), "x \u{e9}".into(), "z".into()];
    let content = file_content(&lines);
    assert_eq!(content, "{\"a\":1}\nx \u{e9}\nz\n");
    assert_eq!(task_lines(&content), lines);
    assert_eq!(file_content(&vec![]), "");
}

#[test]
fn malformed_lines_are_left_out() {
    let got = tasks_of_lines(&vec![Some(task("a")), None, Some(task("b"))]);
    let ids: Vec<String> = got.into_iter().map(|t| t.id).collect();
    assert_eq!(ids, vec!["a", "b"]);
}

#[test]
fn changes_apply_to_what_the_file_holds() {
    let mut s = source();
    s.refresh_with(vec![task("old")]);
    let r = s.mutate(vec![task("a"), task("b")], Mutation::Close("b".into()), at());
    let closed = r.unwrap();
    assert_eq!(closed.status, TaskStatus::Closed);
    assert_eq!(closed.closed.as_deref(), Some("2026-03-28T10:00:00+00:00"));
    assert!(s.get("old").unwrap().is_none());
    assert_eq!(s.get("b").unwrap().unwrap(), closed);
    assert_eq!(s.get("a").unwrap().unwrap().status, TaskStatus::Open);
    assert_eq!(s.tasks().len(), 2);
}

#[test]
fn every_change_does_what_it_says() {
    let mut s = source();
    assert_eq!(
        s.mutate(vec![], Mutation::Add(task("a")), at()).unwrap().id,
        "a"
    );
    let started = s.mutate(vec![task("a")], Mutation::Start("a".into()), at());
    let started = started.unwrap();
    assert_eq!(started.status, TaskStatus::InProgress);
    assert_eq!(started.started.as_deref(), Some("2026-03-28T10:00:00+00:00"));
    let failed = s.mutate(vec![started], Mutation::Fail("a".into()), at()).unwrap();
    assert_eq!(failed.status, TaskStatus::Failed);
    let open = s.mutate(vec![failed], Mutation::Reopen("a".into()), at()).unwrap();
    assert_eq!(open.status, TaskStatus::Open);
    assert_eq!(open.closed, None);
    assert!(open.started.is_some());
    assert!(s.mutate(vec![open], Mutation::Close("z".into()), at()).is_none());
    assert_eq!(s.tasks().len(), 1);
    let keyed = task("k").with_key(Some("key".into()));
    let e = s.mutate(vec![keyed], Mutation::Ensure(task("n").with_key(Some("key".into()))), at());
    assert_eq!(e.unwrap().id, "k");
    assert_eq!(s.tasks().len(), 1);
}

#[test]
fn queries_respect_the_loop() {
    let mut s = source();
    let mut done = task("c");
    done.status = TaskStatus::Closed;
    s.refresh_with(vec![task("a").with_loop_id(Some("l".into())), task("b"), done]);
    assert_eq!(s.all().unwrap().len(), 3);
    assert_eq!(s.open().unwrap().len(), 2);
    assert_eq!(s.pending().unwrap().len(), 2);
    s.set_loop_filter(Some("l"));
    assert_eq!(s.all().unwrap().len(), 1);
    assert_eq!(s.ready().unwrap()[0].id, "a");
    assert!(s.get_by_key("none").unwrap().is_none());
}
