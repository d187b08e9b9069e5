//! The task source on GitHub issues.

use ralph_tasks::task::{MetaValue, Task, TaskStatus};
use ralph_tasks::task_source::TaskSourceError;
use ralph_tasks::task_sources::github::api::{
    GhIssue, GhMilestone, GhOutcome, GhUser, Label,
};
use ralph_tasks::task_sources::github::config::{
    CacheConfig, ErrorBehavior, GithubMode, GithubTaskSourceConfig,
};
use ralph_tasks::task_sources::github::{
    priority_labels, resolve_token_from, status_labels, token_of_gh, GhTokenOutcome,
    GithubSettings, GithubTaskSource, SetupAction,
};

fn settings(repo: &str) -> GithubSettings {
    GithubSettings::Read(GithubTaskSourceConfig {
        repo: repo.to_string(),
        mode: GithubMode::default(),
        project: None,
        cache: CacheConfig::default(),
        on_error: ErrorBehavior::default(),
        token: Some("ghp_test123".to_string()),
    })
}

fn source() -> GithubTaskSource {
    GithubTaskSource::from_config(
        settings("acme/widgets"),
        "/tmp",
        Ok("ghp_test123".to_string()),
    )
    .ok()
    .unwrap()
}

#[test]
fn from_config_null_returns_error() {
    let result =
        GithubTaskSource::from_config(GithubSettings::Absent, "/tmp", Ok("t".to_string()));
    let err = result.err().unwrap();
    assert!(
        matches!(err, TaskSourceError::Config(_)),
        "expected Config error, got: {err:?}"
    );
    assert!(err.to_string().contains("requires config"));
}

#[test]
fn from_config_invalid_repo_returns_error() {
    let result =
        GithubTaskSource::from_config(settings("no-slash"), "/tmp", Ok("ghp_test".to_string()));
    let err = result.err().unwrap();
    assert!(
        matches!(err, TaskSourceError::Config(_)),
        "expected Config error, got: {err:?}"
    );
    assert!(err.to_string().contains("owner/repo"));
}

#[test]
fn from_config_minimal_with_token() {
    let source = source();
    assert_eq!(source.config().repo, "acme/widgets");
    assert!(source.all().unwrap().is_empty());
    assert!(source.loop_filter().is_none());
    assert_eq!(
        source.client().get_issue_request(1).args[3],
        "/repos/acme/widgets/issues/1"
    );
    assert_eq!(source.client().get_issue_request(1).env[0].1, "ghp_test123");
}

#[test]
fn from_config_reports_unreadable_settings_and_missing_tokens() {
    let err = GithubTaskSource::from_config(
        GithubSettings::Unreadable("missing field `repo`".into()),
        "/tmp",
        Ok("t".into()),
    )
    .err()
    .unwrap();
    assert_eq!(
        err,
        TaskSourceError::Config("invalid GitHub config: missing field `repo`".into())
    );
    let err = GithubTaskSource::from_config(
        settings("a/b"),
        "/tmp",
        Err(TaskSourceError::Auth("none".into())),
    )
    .err()
    .unwrap();
    assert_eq!(err, TaskSourceError::Auth("none".into()));
}

#[test]
fn resolve_token_config_takes_priority() {
    let result = resolve_token_from(Some("config_token"), Some("env_token"), Some("ralph_token"));
    assert_eq!(result, Some("config_token".to_string()));
}

#[test]
fn resolve_token_env_fallback() {
    let result = resolve_token_from(None, Some("env_token"), Some("ralph_token"));
    assert_eq!(result, Some("env_token".to_string()));
}

#[test]
fn resolve_token_ralph_env_fallback() {
    let result = resolve_token_from(None, None, Some("ralph_token"));
    assert_eq!(result, Some("ralph_token".to_string()));
}

#[test]
fn resolve_token_empty_strings_skipped() {
    let result = resolve_token_from(Some(""), Some(""), Some("ralph_token"));
    assert_eq!(result, Some("ralph_token".to_string()));
}

#[test]
fn resolve_token_none_when_all_missing() {
    let result = resolve_token_from(None, None, None);
    assert!(result.is_none());
}

#[test]
fn token_of_the_gh_program() {
    assert_eq!(
        token_of_gh(GhTokenOutcome::Printed(" tok\n".into())),
        Ok("tok".to_string())
    );
    assert_eq!(
        token_of_gh(GhTokenOutcome::Printed(" \n".into())),
        Err(TaskSourceError::Auth("gh auth token returned empty".into()))
    );
    assert_eq!(
        token_of_gh(GhTokenOutcome::Refused("no login".into())),
        Err(TaskSourceError::Auth("gh auth token failed: no login".into()))
    );
    assert_eq!(
        token_of_gh(GhTokenOutcome::Broken("io".into())),
        Err(TaskSourceError::Auth("failed to run gh auth token: io".into()))
    );
    assert_eq!(
        token_of_gh(GhTokenOutcome::Missing),
        Err(TaskSourceError::Config(
            "no GitHub token found: set config.token, GITHUB_TOKEN, RALPH_GITHUB_TOKEN, or install gh CLI"
                .into()
        ))
    );
}

#[test]
fn set_loop_filter_stores_value() {
    let mut source = source();
    assert!(source.loop_filter().is_none());
    source.set_loop_filter(Some("loop-42"));
    assert_eq!(source.loop_filter().as_deref(), Some("loop-42"));
    source.set_loop_filter(None);
    assert!(source.loop_filter().is_none());
}

#[test]
fn setup_cache_counts_for_a_day() {
    assert_eq!(source().setup_cache_path(), "/tmp/.ralph/.github-setup-done");
    assert!(!GithubTaskSource::setup_cache_is_valid(None));
    assert!(GithubTaskSource::setup_cache_is_valid(Some((0, 0))));
    assert!(GithubTaskSource::setup_cache_is_valid(Some((86399, 999_999_999))));
    assert!(!GithubTaskSource::setup_cache_is_valid(Some((86400, 0))));
}

fn ok() -> GhOutcome {
    GhOutcome::Finished {
        success: true,
        code: Some(0),
        stdout: "{}".into(),
        stderr: String::new(),
    }
}

fn refused(stderr: &str) -> GhOutcome {
    GhOutcome::Finished {
        success: false,
        code: Some(1),
        stdout: String::new(),
        stderr: stderr.into(),
    }
}

#[test]
fn setup_creates_every_label_once_in_order() {
    let s = source();
    assert!(s.setup_start(Some((5, 0))) == SetupAction::Skip);
    let mut names = Vec::new();
    let mut action = s.setup_start(None);
    let mut place = 0;
    while let SetupAction::Create(request) = action {
        assert_eq!(request.args[3], "/repos/acme/widgets/labels");
        let body: serde_json::Value = serde_json::from_str(&request.input.unwrap()).unwrap();
        names.push(body["name"].as_str().unwrap().to_string());
        let outcome = if place == 2 { refused("(HTTP 422)") } else { ok() };
        action = s.setup_next(place, outcome);
        place += 1;
    }
    assert!(action == SetupAction::WriteCache);
    assert_eq!(
        names,
        vec![
            "status/todo",
            "status/in-progress",
            "status/done",
            "status/failed",
            "priority/1",
            "priority/2",
            "priority/3",
            "priority/4",
            "priority/5"
        ]
    );
    let stop = SetupAction::Stop(TaskSourceError::NotFound("(HTTP 404)".into()));
    assert!(s.setup_next(0, refused("(HTTP 404)")) == stop);
}

#[test]
fn label_definitions_are_exact() {
    assert_eq!(
        status_labels()[3],
        ("status/failed", "d93f0b", "Ralph: task failed")
    );
    assert_eq!(
        priority_labels()[0],
        ("priority/1", "b60205", "Ralph: highest priority")
    );
}

#[test]
fn refresh_asks_for_all_issues_with_state_labels() {
    let mut s = source();
    assert_eq!(
        s.client().list_issues_request(&s.refresh_labels(), "all").args[4],
        "/repos/acme/widgets/issues?labels=status/todo,status/in-progress,status/done,status/failed&state=all&per_page=100&sort=created&direction=asc"
    );
    s.refresh_with(&vec![make_issue(2, "b", &[]), make_issue(1, "a", &[])]);
    let ids: Vec<String> = s.all().unwrap().into_iter().map(|t| t.id).collect();
    assert_eq!(ids, vec!["2", "1"]);
    assert_eq!(s.get("1").unwrap().unwrap().title, "a");
    assert_eq!(s.get_by_key("2").unwrap().unwrap().title, "b");
}

/// A minimal issue.
fn make_issue(number: u64, title: &str, labels: &[&str]) -> GhIssue {
    GhIssue {
        number,
        title: title.to_string(),
        body: None,
        state: "open".to_string(),
        labels: labels
            .iter()
            .map(|n| Label {
                name: n.to_string(),
                color: "000000".to_string(),
                description: None,
            })
            .collect(),
        created_at: "2026-03-28T10:00:00Z".to_string(),
        closed_at: None,
        assignees: Vec::new(),
        milestone: None,
        pull_request: None,
    }
}

fn meta<'a>(task: &'a Task, key: &str) -> &'a MetaValue {
    &task.metadata.iter().find(|e| e.0 == key).unwrap().1
}

#[test]
fn issue_to_task_full() {
    let mut issue = make_issue(
        42,
        "Fix login",
        &["status/in-progress", "priority/2", "bug", "loop/abc"],
    );
    issue.body = Some(
        "Fix the bug.\n\n<!-- ralph:metadata:v1 {\"blocked_by\":[\"10\"],\"key\":\"spec:auth\",\"started\":\"2026-03-28T09:00:00Z\"} -->"
            .to_string(),
    );
    issue.closed_at = Some("2026-03-28T12:00:00Z".to_string());
    issue.assignees = vec![GhUser {
        login: "alice".to_string(),
    }];
    issue.milestone = Some(GhMilestone {
        number: 1,
        title: "v1.0".to_string(),
    });

    let task = GithubTaskSource::issue_to_task(&issue);

    assert_eq!(task.id, "42");
    assert_eq!(task.title, "Fix login");
    assert_eq!(task.description.as_deref(), Some("Fix the bug."));
    assert_eq!(task.key.as_deref(), Some("spec:auth"));
    assert_eq!(task.status, TaskStatus::InProgress);
    assert_eq!(task.priority, 2);
    assert_eq!(task.blocked_by, vec!["10"]);
    assert_eq!(task.loop_id.as_deref(), Some("abc"));
    assert_eq!(task.started.as_deref(), Some("2026-03-28T09:00:00Z"));
    assert_eq!(task.closed.as_deref(), Some("2026-03-28T12:00:00Z"));
    assert_eq!(
        *meta(&task, "assignees"),
        MetaValue::List(vec!["alice".to_string()])
    );
    assert_eq!(*meta(&task, "milestone"), MetaValue::Text("v1.0".to_string()));
    assert_eq!(
        *meta(&task, "user_labels"),
        MetaValue::List(vec!["bug".to_string()])
    );
    assert_eq!(task.metadata.len(), 3);
}

#[test]
fn issue_to_task_minimal() {
    let issue = make_issue(1, "Simple", &["status/todo"]);
    let task = GithubTaskSource::issue_to_task(&issue);

    assert_eq!(task.id, "1");
    assert_eq!(task.title, "Simple");
    assert!(task.description.is_none());
    assert_eq!(task.key.as_deref(), Some("1"));
    assert_eq!(task.status, TaskStatus::Open);
    assert_eq!(task.priority, 3);
    assert!(task.blocked_by.is_empty());
    assert!(task.loop_id.is_none());
    assert!(task.started.is_none());
    assert!(task.closed.is_none());
    assert!(task.metadata.is_empty());
}

#[test]
fn issue_to_task_no_status_label_defaults_open() {
    let issue = make_issue(5, "No status", &["bug", "priority/1"]);
    let task = GithubTaskSource::issue_to_task(&issue);

    assert_eq!(task.status, TaskStatus::Open);
    assert_eq!(task.priority, 1);
}

#[test]
fn issue_to_task_strips_metadata_from_description() {
    let mut issue = make_issue(7, "Has meta", &["status/todo"]);
    issue.body =
        Some("User visible text.\n\n<!-- ralph:metadata:v1 {\"key\":\"test\"} -->".to_string());

    let task = GithubTaskSource::issue_to_task(&issue);
    assert_eq!(task.description.as_deref(), Some("User visible text."));
    assert_eq!(task.key.as_deref(), Some("test"));
}

#[test]
fn the_first_label_that_says_something_counts() {
    let labels = [
        "priority/x",
        "priority/300",
        "priority/+4",
        "priority/1",
        "status/other",
        "status/failed",
        "status/done",
        "loop/",
        "loop/b",
    ];
    let mut issue = make_issue(9, "T", &labels);
    issue.body = Some(
        "<!-- ralph:metadata:v1 {\"loop_id\":\"m\",\"closed\":\"c\"} -->".to_string(),
    );
    let task = GithubTaskSource::issue_to_task(&issue);
    assert_eq!(task.priority, 4);
    assert_eq!(task.status, TaskStatus::Failed);
    assert_eq!(task.loop_id.as_deref(), Some(""));
    assert_eq!(task.closed.as_deref(), Some("c"));
    assert!(task.metadata.is_empty());
    issue.labels.truncate(7);
    let task = GithubTaskSource::issue_to_task(&issue);
    assert_eq!(task.loop_id.as_deref(), Some("m"));
}

#[test]
fn query_all_respects_loop_filter() {
    let mut source = source();

    let mut t1 = Task::new("Loop A".to_string(), 1);
    t1.loop_id = Some("loop-a".to_string());
    let mut t2 = Task::new("Loop B".to_string(), 1);
    t2.loop_id = Some("loop-b".to_string());
    let t3 = Task::new("No loop".to_string(), 1);

    source.set_tasks(vec![t1, t2, t3]);

    assert_eq!(source.all().unwrap().len(), 3);

    source.set_loop_filter(Some("loop-a"));
    let filtered = source.all().unwrap();
    assert_eq!(filtered.len(), 1);
    assert_eq!(filtered[0].title, "Loop A");
}

fn one_of_each() -> Vec<Task> {
    let mut t_open = Task::new("Open".to_string(), 1);
    t_open.status = TaskStatus::Open;
    let mut t_closed = Task::new("Closed".to_string(), 1);
    t_closed.status = TaskStatus::Closed;
    let mut t_failed = Task::new("Failed".to_string(), 1);
    t_failed.status = TaskStatus::Failed;
    let mut t_ip = Task::new("InProgress".to_string(), 1);
    t_ip.status = TaskStatus::InProgress;
    vec![t_open, t_closed, t_failed, t_ip]
}

#[test]
fn query_open_excludes_closed_includes_failed() {
    let mut source = source();
    source.set_tasks(one_of_each());
    let open = source.open().unwrap();
    assert_eq!(open.len(), 3);
    assert!(!open.iter().any(|t| t.title == "Closed"));
}

#[test]
fn query_pending_excludes_terminal() {
    let mut source = source();
    source.set_tasks(one_of_each());
    let pending = source.pending().unwrap();
    assert_eq!(pending.len(), 2);
    assert!(pending.iter().all(|t| !t.status.is_terminal()));
}

#[test]
fn query_ready_checks_blockers() {
    let mut source = source();

    let t1 = Task::new("Unblocked".to_string(), 1);
    let t1_id = t1.id.clone();
    let mut t2 = Task::new("Blocked".to_string(), 2);
    t2.blocked_by = vec![t1_id];

    source.set_tasks(vec![t1, t2]);

    let ready = source.ready().unwrap();
    assert_eq!(ready.len(), 1);
    assert_eq!(ready[0].title, "Unblocked");
}

#[test]
fn changes_are_refused() {
    let mut s = source();
    s.set_tasks(vec![Task::new("T".into(), 1)]);
    let message = |change: &str| {
        TaskSourceError::Config(format!("GitHub {change} not yet implemented"))
    };
    assert_eq!(s.add(Task::new("x".into(), 1)).unwrap_err(), message("add"));
    assert_eq!(s.close("1").unwrap_err(), message("close"));
    assert_eq!(s.start("1").unwrap_err(), message("start"));
    assert_eq!(s.fail("1").unwrap_err(), message("fail"));
    assert_eq!(s.reopen("1").unwrap_err(), message("reopen"));
    assert_eq!(s.ensure(Task::new("x".into(), 1)).unwrap_err(), message("ensure"));
    assert_eq!(s.all().unwrap().len(), 1);
}
