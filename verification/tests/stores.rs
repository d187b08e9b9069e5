//! The JSONL and GitHub sources at work, on files and a repository in memory.

use ralph_tasks::config::ConnectorConfig;
use ralph_tasks::task::{Task, TaskStatus};
use ralph_tasks::task_source::{TaskSource, TaskSourceError, TaskSourceResult};
use ralph_tasks::task_sources::any::AnyTaskSource;
use ralph_tasks::task_sources::github::api::{
    GhClient, GhIssue, GhOutcome, GhRequest, IssueUpdate, Label,
};
use ralph_tasks::task_sources::github::config::{
    CacheConfig, ErrorBehavior, GithubMode, GithubTaskSourceConfig,
};
use ralph_tasks::task_sources::github::port::{GhPort, RecordedGh};
use ralph_tasks::task_sources::github::store::{resolve_token, GithubStore};
use ralph_tasks::task_sources::github::{GhTokenOutcome, GithubSettings};
use ralph_tasks::task_sources::jsonl_store::JsonlStore;
use ralph_tasks::task_sources::task_file::TaskFile;
use std::sync::{Arc, Mutex};

/// A file in memory whose lines are `id|status`, with `|key` behind it where there is one.
#[derive(Clone, Default)]
struct MemoryFile {
    content: Arc<Mutex<Option<String>>>,
    log: Arc<Mutex<Vec<String>>>,
    broken: Arc<Mutex<bool>>,
}

impl MemoryFile {
    fn note(&self, what: &str) {
        self.log.lock().unwrap().push(what.to_string());
    }

    fn taken_log(&self) -> Vec<String> {
        std::mem::take(&mut *self.log.lock().unwrap())
    }
}

impl TaskFile for MemoryFile {
    fn create_directory(&self) -> Result<(), String> {
        self.note("directory");
        Ok(())
    }

    fn lock_shared(&self) -> Result<(), String> {
        self.note("shared");
        Ok(())
    }

    fn lock_exclusive(&self) -> Result<(), String> {
        self.note("exclusive");
        Ok(())
    }

    fn unlock(&self) {
        self.note("unlock");
    }

    fn read(&self) -> Result<Option<String>, String> {
        self.note("read");
        if *self.broken.lock().unwrap() {
            return Err("disk".into());
        }
        Ok(self.content.lock().unwrap().clone())
    }

    fn write(&self, content: &str) -> Result<(), String> {
        self.note("write");
        *self.content.lock().unwrap() = Some(content.to_string());
        Ok(())
    }

    fn parse_task_line(&self, line: &str) -> Option<Task> {
        let parts: Vec<&str> = line.split('|').collect();
        let mut t = Task::new("T".into(), 3);
        t.id = parts[0].to_string();
        t.status = match *parts.get(1)? {
            "open" => TaskStatus::Open,
            "closed" => TaskStatus::Closed,
            _ => return None,
        };
        t.key = parts.get(2).map(|k| k.to_string());
        Some(t)
    }

    fn encode_task(&self, task: &Task) -> Result<String, String> {
        let status = match task.status {
            TaskStatus::Open => "open",
            TaskStatus::Closed => "closed",
            _ => return Err("cannot encode".into()),
        };
        let key = task.key.as_ref().map(|k| format!("|{k}")).unwrap_or_default();
        Ok(format!("{}|{}{}", task.id, status, key))
    }
}

fn task(id: &str) -> Task {
    let mut t = Task::new(format!("Title {id}"), 3);
    t.id = id.to_string();
    t
}

fn store(file: &MemoryFile) -> JsonlStore<MemoryFile> {
    JsonlStore::from_config(&ConnectorConfig::Null, "/w", file.clone())
        .ok()
        .unwrap()
}

#[test]
fn jsonl_changes_are_written_through() {
    let file = MemoryFile::default();
    let mut s = store(&file);
    assert_eq!(file.taken_log(), vec!["shared", "read", "unlock"]);
    s.setup().unwrap();
    s.add(task("a")).unwrap();
    assert_eq!(
        file.taken_log(),
        vec!["directory", "exclusive", "read", "write", "unlock"]
    );
    assert_eq!(file.content.lock().unwrap().as_deref(), Some("a|open\n"));
    let closed = s.close("a").unwrap().unwrap();
    assert_eq!(closed.status, TaskStatus::Closed);
    assert_eq!(file.content.lock().unwrap().as_deref(), Some("a|closed\n"));
    assert!(s.reopen("zz").unwrap().is_none());
    assert_eq!(s.reopen("a").unwrap().unwrap().status, TaskStatus::Open);
    assert_eq!(s.ensure(task("b")).unwrap().id, "b");
    assert_eq!(
        file.content.lock().unwrap().as_deref(),
        Some("a|open\nb|open\n")
    );
}

#[test]
fn jsonl_loops_side_by_side_lose_nothing() {
    let file = MemoryFile::default();
    let mut one = store(&file);
    let mut two = store(&file);
    one.add(task("a")).unwrap();
    two.add(task("b")).unwrap();
    one.add(task("c")).unwrap();
    assert_eq!(
        file.content.lock().unwrap().as_deref(),
        Some("a|open\nb|open\nc|open\n")
    );
    assert_eq!(two.all().unwrap().len(), 2);
    two.refresh().unwrap();
    assert_eq!(two.all().unwrap().len(), 3);
}

#[test]
fn jsonl_malformed_lines_are_passed_over() {
    let file = MemoryFile::default();
    *file.content.lock().unwrap() = Some("a|open\n\nnonsense\n  \nb|closed".to_string());
    let s = store(&file);
    let ids: Vec<String> = s.all().unwrap().into_iter().map(|t| t.id).collect();
    assert_eq!(ids, vec!["a", "b"]);
    assert_eq!(s.open().unwrap().len(), 1);
    assert_eq!(s.get("b").unwrap().unwrap().status, TaskStatus::Closed);
}

#[test]
fn jsonl_errors_of_the_file_are_passed_on() {
    let file = MemoryFile::default();
    let mut s = store(&file);
    s.add(task("a")).unwrap();
    *file.broken.lock().unwrap() = true;
    file.taken_log();
    let disk = TaskSourceError::Other("disk".into());
    assert_eq!(s.refresh().unwrap_err(), disk);
    assert_eq!(s.close("a").unwrap_err(), disk);
    assert_eq!(
        file.taken_log(),
        vec!["shared", "read", "unlock", "exclusive", "read", "unlock"]
    );
    assert_eq!(s.all().unwrap().len(), 1);
    let r = JsonlStore::from_config(&ConnectorConfig::Null, "/w", file.clone());
    assert_eq!(r.err().unwrap(), disk);
    *file.broken.lock().unwrap() = false;
    assert_eq!(
        s.fail("a").unwrap_err(),
        TaskSourceError::Other("task serialization failed: cannot encode".into())
    );
    assert_eq!(file.content.lock().unwrap().as_deref(), Some("a|open\n"));
}

/// A repository in memory.
#[derive(Clone, Default)]
struct Repository {
    runs: Arc<Mutex<Vec<Vec<String>>>>,
    answers: Arc<Mutex<Vec<GhOutcome>>>,
    cache: Arc<Mutex<Option<String>>>,
    age: Arc<Mutex<Option<(u64, u32)>>>,
    token: Arc<Mutex<Option<String>>>,
    asked: Arc<Mutex<usize>>,
    variables: Arc<Mutex<Vec<String>>>,
}

fn answer(success: bool, stdout: &str, stderr: &str) -> GhOutcome {
    GhOutcome::Finished {
        success,
        code: Some(i32::from(!success)),
        stdout: stdout.to_string(),
        stderr: stderr.to_string(),
    }
}

impl GhPort for Repository {
    fn run(&self, request: &GhRequest) -> GhOutcome {
        self.runs.lock().unwrap().push(request.args.clone());
        self.answers
            .lock()
            .unwrap()
            .pop()
            .unwrap_or_else(|| answer(true, "{}", ""))
    }

    fn parse_labels(&self, text: &str) -> Result<Vec<Label>, String> {
        if text == "\"bad\"" {
            return Err("no list".into());
        }
        Ok(text
            .trim_matches(|c| c == '[' || c == ']')
            .split_terminator(',')
            .map(|n| n.trim_matches('"'))
            .map(|n| Label {
                name: n.to_string(),
                color: "c".into(),
                description: None,
            })
            .collect())
    }

    fn parse_issues(&self, text: &str) -> Result<Vec<GhIssue>, String> {
        if text == "\"bad\"" {
            return Err("no list".into());
        }
        Ok(text
            .trim_matches(|c| c == '[' || c == ']')
            .split_terminator(',')
            .map(|n| n.trim_matches('"'))
            .map(|n| GhIssue {
                number: n.trim_start_matches('p').parse().unwrap(),
                title: n.to_string(),
                body: None,
                state: "open".into(),
                labels: vec![Label {
                    name: "status/in-progress".into(),
                    color: "c".into(),
                    description: None,
                }],
                created_at: "2026-01-01T00:00:00Z".into(),
                closed_at: None,
                assignees: vec![],
                milestone: None,
                pull_request: n.starts_with('p').then_some("{}".to_string()),
            })
            .collect())
    }

    fn parse_issue(&self, text: &str) -> Result<GhIssue, String> {
        self.parse_issues(text).map(|mut issues| issues.remove(0))
    }

    fn age(&self, path: &str) -> Option<(u64, u32)> {
        assert_eq!(path, "/w/.ralph/.github-setup-done");
        *self.age.lock().unwrap()
    }

    fn env(&self, name: &str) -> Option<String> {
        self.variables.lock().unwrap().push(name.to_string());
        (name == "RALPH_GITHUB_TOKEN")
            .then_some(())
            .and(self.token.lock().unwrap().clone())
    }

    fn gh_auth_token(&self) -> GhTokenOutcome {
        *self.asked.lock().unwrap() += 1;
        GhTokenOutcome::Printed("from gh\n".into())
    }

    fn write_file(&self, _path: &str, content: &str) -> Result<(), String> {
        *self.cache.lock().unwrap() = Some(content.to_string());
        *self.age.lock().unwrap() = Some((0, 1));
        Ok(())
    }
}

fn settings(repo: &str, token: Option<&str>) -> GithubSettings {
    GithubSettings::Read(GithubTaskSourceConfig {
        repo: repo.to_string(),
        mode: GithubMode::default(),
        project: None,
        cache: CacheConfig::default(),
        on_error: ErrorBehavior::default(),
        token: token.map(String::from),
    })
}

fn github(port: &Repository) -> GithubStore<Repository> {
    GithubStore::from_config(settings("acme/widgets", Some("ghp_test123")), "/w", port.clone())
        .ok()
        .unwrap()
}

#[test]
fn setup_cache_write_and_validate() {
    let port = Repository::default();
    let mut source = github(&port);
    source.setup().unwrap();
    assert_eq!(port.runs.lock().unwrap().len(), 9);
    assert!(port.cache.lock().unwrap().as_ref().unwrap().starts_with("20"));
    source.setup().unwrap();
    assert_eq!(port.runs.lock().unwrap().len(), 9);
    *port.age.lock().unwrap() = Some((86400, 0));
    source.setup().unwrap();
    assert_eq!(port.runs.lock().unwrap().len(), 18);
}

#[test]
fn github_setup_stops_at_an_error() {
    let port = Repository::default();
    port.answers.lock().unwrap().push(answer(false, "", "HTTP 503"));
    port.answers.lock().unwrap().push(answer(false, "", "HTTP 422"));
    let err = github(&port).setup().unwrap_err();
    assert_eq!(
        err,
        TaskSourceError::Retryable {
            source: "server error (HTTP 503): HTTP 503".into(),
            retry_after: None
        }
    );
    assert_eq!(port.runs.lock().unwrap().len(), 2);
    assert!(port.cache.lock().unwrap().is_none());
}

#[test]
fn github_refresh_takes_issues_and_leaves_pull_requests() {
    let port = Repository::default();
    port.answers.lock().unwrap().push(answer(true, "[\"1\",\"p2\",\"3\"]\n", ""));
    let mut s = github(&port);
    s.refresh().unwrap();
    let ids: Vec<String> = s.all().unwrap().into_iter().map(|t| t.id).collect();
    assert_eq!(ids, vec!["1", "3"]);
    assert_eq!(s.get("3").unwrap().unwrap().status, TaskStatus::InProgress);
    port.answers.lock().unwrap().push(answer(true, "\"bad\"", ""));
    assert_eq!(s.refresh().unwrap_err(), TaskSourceError::Other("no list".into()));
    port.answers.lock().unwrap().push(GhOutcome::Broken("pipe".into()));
    assert_eq!(s.refresh().unwrap_err(), TaskSourceError::Other("pipe".into()));
    assert_eq!(s.all().unwrap().len(), 2);
    port.answers.lock().unwrap().push(answer(true, "", ""));
    s.refresh().unwrap();
    assert!(s.all().unwrap().is_empty());
}

fn gh(port: &Repository) -> RecordedGh<Repository> {
    RecordedGh::new(port.clone())
}

fn client() -> GhClient {
    GhClient::new("acme".into(), "widgets".into(), "t".into())
}

fn missing() -> GhOutcome {
    answer(false, "", "gh: Not Found (HTTP 404)")
}

#[test]
fn client_lists_labels() {
    let port = Repository::default();
    port.answers.lock().unwrap().push(answer(true, "[\"a\",\"b\"]\n", ""));
    let labels = client().list_labels(&mut gh(&port)).unwrap();
    let names: Vec<&str> = labels.iter().map(|l| l.name.as_str()).collect();
    assert_eq!(names, vec!["a", "b"]);
    assert_eq!(port.runs.lock().unwrap()[0][4], "/repos/acme/widgets/labels?per_page=100");
    port.answers.lock().unwrap().push(answer(true, " \n", ""));
    assert!(client().list_labels(&mut gh(&port)).unwrap().is_empty());
    port.answers.lock().unwrap().push(answer(true, "\"bad\"", ""));
    let err = client().list_labels(&mut gh(&port)).err().unwrap();
    assert_eq!(err, TaskSourceError::Other("no list".into()));
    port.answers.lock().unwrap().push(missing());
    let err = client().list_labels(&mut gh(&port)).err().unwrap();
    assert!(matches!(err, TaskSourceError::NotFound(_)));
}

#[test]
fn client_gets_an_issue_or_none() {
    let port = Repository::default();
    port.answers.lock().unwrap().push(answer(true, "7", ""));
    let found = client().get_issue(&mut gh(&port), 7).ok().unwrap();
    assert_eq!(found.unwrap().number, 7);
    assert_eq!(port.runs.lock().unwrap()[0][3], "/repos/acme/widgets/issues/7");
    port.answers.lock().unwrap().push(missing());
    assert!(client().get_issue(&mut gh(&port), 7).ok().unwrap().is_none());
    port.answers.lock().unwrap().push(GhOutcome::Missing);
    let err = client().get_issue(&mut gh(&port), 7).err().unwrap();
    assert!(matches!(err, TaskSourceError::Config(_)));
}

#[test]
fn client_creates_and_changes_issues() {
    let port = Repository::default();
    port.answers.lock().unwrap().push(answer(true, "8", ""));
    let made = client().create_issue(&mut gh(&port), "T", "B", &vec!["l".into()], &vec![]);
    assert_eq!(made.ok().unwrap().number, 8);
    port.answers.lock().unwrap().push(answer(true, "8", ""));
    let changed = client().update_issue(&mut gh(&port), 8, &IssueUpdate::default());
    assert_eq!(changed.ok().unwrap().number, 8);
    port.answers.lock().unwrap().push(missing());
    let err = client().update_issue(&mut gh(&port), 9, &IssueUpdate::default()).err().unwrap();
    assert!(matches!(err, TaskSourceError::NotFound(_)));
    let runs = port.runs.lock().unwrap();
    let methods: Vec<&str> = runs.iter().map(|r| r[2].as_str()).collect();
    assert_eq!(methods, vec!["POST", "PATCH", "PATCH"]);
}

#[test]
fn client_creates_labels_that_may_exist() {
    let port = Repository::default();
    assert!(client().create_label(&mut gh(&port), "n", "c", "d").is_ok());
    port.answers.lock().unwrap().push(answer(false, "", "Validation Failed (HTTP 422)"));
    assert!(client().create_label(&mut gh(&port), "n", "c", "d").is_ok());
    port.answers.lock().unwrap().push(missing());
    assert!(client().create_label(&mut gh(&port), "n", "c", "d").is_err());
}

#[test]
fn answers_that_are_no_json_are_errors() {
    let port = Repository::default();
    let spoilt = || port.answers.lock().unwrap().push(answer(true, "<html>", ""));
    let is_fault = |e: TaskSourceError| matches!(e, TaskSourceError::Other(m) if m == "expected value at line 1 column 1");
    spoilt();
    assert!(is_fault(client().create_label(&mut gh(&port), "n", "c", "d").err().unwrap()));
    spoilt();
    assert!(is_fault(client().list_labels(&mut gh(&port)).err().unwrap()));
    spoilt();
    assert!(is_fault(client().list_issues(&mut gh(&port), &vec![], "all").err().unwrap()));
    spoilt();
    assert!(is_fault(client().get_issue(&mut gh(&port), 1).err().unwrap()));
    spoilt();
    assert!(is_fault(github(&port).setup().err().unwrap()));
    assert!(port.cache.lock().unwrap().is_none());
    spoilt();
    assert!(is_fault(github(&port).refresh().err().unwrap()));
}

#[test]
fn ensuring_twice_on_a_file_is_ensuring_once() {
    let file = MemoryFile::default();
    let mut s = store(&file);
    s.add(task("a")).unwrap();
    let keyed = task("b").with_key(Some("k".into()));
    let first = s.ensure(keyed.clone()).unwrap();
    let before = s.all().unwrap();
    let written = file.content.lock().unwrap().clone();
    file.taken_log();
    let second = s.ensure(keyed).unwrap();
    assert_eq!(second.id, first.id);
    assert_eq!(second.title, first.title);
    assert_eq!(s.all().unwrap().len(), before.len());
    assert_eq!(*file.content.lock().unwrap(), written);
    assert_eq!(file.taken_log(), vec!["exclusive", "read", "write", "unlock"]);
}

#[test]
fn tasks_are_read_back_between_blank_and_malformed_lines() {
    let file = MemoryFile::default();
    let mut s = store(&file);
    s.add(task("a")).unwrap();
    s.add(task("b")).unwrap();
    let written = file.content.lock().unwrap().clone().unwrap();
    assert_eq!(written, "a|open\nb|open\n");
    *file.content.lock().unwrap() = Some(written.replace('\n', "\n\n  \nbroken\n"));
    s.refresh().unwrap();
    let ids: Vec<String> = s.all().unwrap().into_iter().map(|t| t.id).collect();
    assert_eq!(ids, vec!["a", "b"]);
    *file.content.lock().unwrap() = None;
    s.refresh().unwrap();
    assert!(s.all().unwrap().is_empty());
}

#[test]
fn github_tokens_are_looked_for_in_order() {
    let port = Repository::default();
    assert_eq!(resolve_token(Some("c"), &mut gh(&port)).unwrap(), "c");
    assert!(port.variables.lock().unwrap().is_empty());
    *port.token.lock().unwrap() = Some("r".into());
    assert_eq!(resolve_token(Some(""), &mut gh(&port)).unwrap(), "r");
    assert_eq!(*port.asked.lock().unwrap(), 0);
    *port.token.lock().unwrap() = None;
    assert_eq!(resolve_token(None, &mut gh(&port)).unwrap(), "from gh");
    assert_eq!(*port.asked.lock().unwrap(), 1);
}

#[test]
fn github_configuration_comes_before_the_token() {
    let port = Repository::default();
    let r = GithubStore::from_config(settings("no-slash", None), "/w", port.clone());
    assert_eq!(
        r.err().unwrap(),
        TaskSourceError::Config("repo must be in 'owner/repo' format, got: no-slash".into())
    );
    let r = GithubStore::from_config(GithubSettings::Absent, "/w", port.clone());
    assert!(r.is_err());
    assert_eq!(*port.asked.lock().unwrap(), 0);
    assert!(GithubStore::from_config(settings("a/b", None), "/w", port.clone()).is_ok());
    assert_eq!(*port.asked.lock().unwrap(), 1);
}

#[test]
fn either_source_behaves_as_itself() {
    let file = MemoryFile::default();
    let port = Repository::default();
    let mut jsonl: AnyTaskSource<MemoryFile, Repository> = AnyTaskSource::Jsonl(store(&file));
    let mut github: AnyTaskSource<MemoryFile, Repository> = AnyTaskSource::Github(github(&port));
    jsonl.setup().unwrap();
    github.setup().unwrap();
    let t = task("a").with_key(Some("k".into())).with_loop_id(Some("l".into()));
    jsonl.ensure(t.clone()).unwrap();
    jsonl.set_loop_filter(Some("l"));
    assert_eq!(jsonl.all().unwrap().len(), 1);
    assert_eq!(jsonl.open().unwrap().len(), 1);
    assert_eq!(jsonl.pending().unwrap().len(), 1);
    assert_eq!(jsonl.ready().unwrap().len(), 1);
    assert_eq!(jsonl.get("a").unwrap().unwrap().id, "a");
    assert_eq!(jsonl.get_by_key("k").unwrap().unwrap().id, "a");
    assert!(jsonl.close("a").unwrap().is_some());
    assert!(jsonl.reopen("a").unwrap().is_some());
    jsonl.refresh().unwrap();
    assert!(github.add(t.clone()).is_err());
    assert!(github.ensure(t).is_err());
    assert!(github.close("1").is_err());
    assert!(github.start("1").is_err());
    assert!(github.fail("1").is_err());
    assert!(github.reopen("1").is_err());
    assert!(github.get("1").unwrap().is_none());
}
