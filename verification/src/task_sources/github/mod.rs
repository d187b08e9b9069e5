//! GitHub-backed task source.
//!
//! Issues stand for tasks: labels carry status, priority and loop, and the issue body
//! carries what GitHub has no place for.

pub mod api;
pub mod config;
pub mod laws;
pub mod metadata;
pub mod metadata_laws;
pub mod port;
pub mod reply_laws;
pub mod store;

use crate::json;
use crate::number;
use crate::number::parse_unsigned;
use crate::pattern;
use crate::task;
use crate::task::{copy_opt, MetaValue, MetaView, Task, TaskStatus, TaskView};
use crate::task_list;
use crate::task_list::{
    open_tasks, pending_tasks, ready_tasks, task_by_id, task_by_key, tasks_in_loop,
};
use crate::task_source;
use crate::task_source::{ErrorView, TaskSourceError, TaskSourceResult};
use crate::task_sources::github::api::{
    call_reply, label_created, GhClient, GhIssue, GhOutcome, GhRequest, GhUser, Label,
};
use crate::task_sources::github::config::GithubTaskSourceConfig;
use crate::task_sources::github::metadata::{parse_metadata, strip_metadata};
use crate::text;
use crate::text::{decimal, glue, same_text, starts_with, strip_prefix, trim};
use vstd::prelude::*;
use vstd::string::*;

verus! {

/// The names of labels.
pub open spec fn label_names(labels: Seq<Label>) -> Seq<Seq<char>> {
    labels.map_values(|l: Label| l.name@)
}

/// The names of users.
pub open spec fn logins(users: Seq<GhUser>) -> Seq<Seq<char>> {
    users.map_values(|u: GhUser| u.login@)
}

/// What the first label that `f` reads something from says.
pub open spec fn first_said<T>(
    names: Seq<Seq<char>>,
    f: spec_fn(Seq<char>) -> Option<T>,
) -> Option<T>
    decreases names.len(),
{
    if names.len() == 0 {
        None
    } else if f(names[0]) is Some {
        f(names[0])
    } else {
        first_said(names.skip(1), f)
    }
}

/// The status that a label says.
pub open spec fn said_status(name: Seq<char>) -> Option<TaskStatus> {
    if name == "status/todo"@ {
        Some(TaskStatus::Open)
    } else if name == "status/in-progress"@ {
        Some(TaskStatus::InProgress)
    } else if name == "status/done"@ {
        Some(TaskStatus::Closed)
    } else if name == "status/failed"@ {
        Some(TaskStatus::Failed)
    } else {
        None
    }
}

/// The priority that a label says: the number behind `priority/`.
pub open spec fn said_priority(name: Seq<char>) -> Option<u8> {
    match text::after_prefix(name, "priority/"@) {
        Some(n) => match number::unsigned_number(n, 255) {
            Some(p) => Some(p as u8),
            None => None,
        },
        None => None,
    }
}

/// The loop that a label says: what stands behind `loop/`.
pub open spec fn said_loop(name: Seq<char>) -> Option<Seq<char>> {
    text::after_prefix(name, "loop/"@)
}

/// Accepts the labels that are the user's own.
pub open spec fn user_label() -> spec_fn(Seq<char>) -> bool {
    |name: Seq<char>|
        !"status/"@.is_prefix_of(name) && !"priority/"@.is_prefix_of(name)
            && !"loop/"@.is_prefix_of(name)
}

/// The status of an issue; open where no label says it.
pub open spec fn issue_status(names: Seq<Seq<char>>) -> TaskStatus {
    match first_said(names, |n: Seq<char>| said_status(n)) {
        Some(s) => s,
        None => TaskStatus::Open,
    }
}

/// The priority of an issue; 3 where no label says it.
pub open spec fn issue_priority(names: Seq<Seq<char>>) -> u8 {
    match first_said(names, |n: Seq<char>| said_priority(n)) {
        Some(p) => p,
        None => 3,
    }
}

/// The loop that the labels of an issue name.
pub open spec fn issue_loop(names: Seq<Seq<char>>) -> Option<Seq<char>> {
    first_said(names, |n: Seq<char>| said_loop(n))
}

/// One of two optional texts: the first that there is.
pub open spec fn either(a: Option<Seq<char>>, b: Option<Seq<char>>) -> Option<Seq<char>> {
    if a is Some {
        a
    } else {
        b
    }
}

/// The body of an issue.
pub open spec fn issue_body(i: GhIssue) -> Seq<char> {
    match i.body {
        Some(b) => b@,
        None => seq![],
    }
}

/// What an issue says beyond the fields of a task: who it is assigned to, its milestone, and
/// the user's own labels.
pub open spec fn issue_extras(i: GhIssue) -> Seq<(Seq<char>, MetaView)> {
    let own = label_names(i.labels@).filter(user_label());
    (if i.assignees@.len() > 0 {
        seq![("assignees"@, MetaView::List(logins(i.assignees@)))]
    } else {
        seq![]
    }) + (match i.milestone {
        Some(m) => seq![("milestone"@, MetaView::Text(m.title@))],
        None => seq![],
    }) + (if own.len() > 0 {
        seq![("user_labels"@, MetaView::List(own))]
    } else {
        seq![]
    })
}

/// The task that an issue stands for.
pub open spec fn issue_task(i: GhIssue) -> TaskView {
    let names = label_names(i.labels@);
    let body = issue_body(i);
    let meta = metadata::parsed(body);
    let number = text::decimal_text(i.number as nat);
    TaskView {
        id: number,
        title: i.title@,
        description: if metadata::stripped(body).len() > 0 {
            Some(metadata::stripped(body))
        } else {
            None
        },
        key: either(meta.key, Some(number)),
        status: issue_status(names),
        priority: issue_priority(names),
        blocked_by: meta.blocked_by,
        loop_id: either(issue_loop(names), meta.loop_id),
        created: i.created_at@,
        started: meta.started,
        closed: either(json::opt_text(i.closed_at), meta.closed),
        metadata: issue_extras(i),
    }
}

/// The status that a label says.
fn status_of_label(name: &str) -> (r: Option<TaskStatus>)
    ensures
        r == said_status(name@),
{
    if same_text(name, "status/todo") {
        Some(TaskStatus::Open)
    } else if same_text(name, "status/in-progress") {
        Some(TaskStatus::InProgress)
    } else if same_text(name, "status/done") {
        Some(TaskStatus::Closed)
    } else if same_text(name, "status/failed") {
        Some(TaskStatus::Failed)
    } else {
        None
    }
}

/// The status of an issue.
fn status_of(labels: &Vec<Label>) -> (r: TaskStatus)
    ensures
        r == issue_status(label_names(labels@)),
{
    let ghost names = label_names(labels@);
    let ghost f = |n: Seq<char>| said_status(n);
    let mut i: usize = 0;
    assert(names.skip(0) =~= names);
    while i < labels.len()
        invariant
            i <= labels@.len(),
            names == label_names(labels@),
            f == (|n: Seq<char>| said_status(n)),
            first_said(names, f) == first_said(names.skip(i as int), f),
        decreases labels@.len() - i,
    {
        assert(names.skip(i as int)[0] == labels@[i as int].name@);
        assert(names.skip(i as int).skip(1) =~= names.skip(i + 1));
        if let Some(s) = status_of_label(labels[i].name.as_str()) {
            return s;
        }
        i = i + 1;
    }
    TaskStatus::Open
}

/// The priority that a label says.
fn priority_of_label(name: &str) -> (r: Option<u8>)
    ensures
        r == said_priority(name@),
{
    match strip_prefix(name, "priority/") {
        Some(n) => match parse_unsigned(n.as_str(), 255) {
            Some(p) => Some(p as u8),
            None => None,
        },
        None => None,
    }
}

/// The priority of an issue.
fn priority_of(labels: &Vec<Label>) -> (r: u8)
    ensures
        r == issue_priority(label_names(labels@)),
{
    let ghost names = label_names(labels@);
    let ghost f = |n: Seq<char>| said_priority(n);
    let mut i: usize = 0;
    assert(names.skip(0) =~= names);
    while i < labels.len()
        invariant
            i <= labels@.len(),
            names == label_names(labels@),
            f == (|n: Seq<char>| said_priority(n)),
            first_said(names, f) == first_said(names.skip(i as int), f),
        decreases labels@.len() - i,
    {
        assert(names.skip(i as int)[0] == labels@[i as int].name@);
        assert(names.skip(i as int).skip(1) =~= names.skip(i + 1));
        if let Some(p) = priority_of_label(labels[i].name.as_str()) {
            return p;
        }
        i = i + 1;
    }
    3
}

/// The loop that the labels of an issue name.
fn loop_of(labels: &Vec<Label>) -> (r: Option<String>)
    ensures
        json::opt_text(r) == issue_loop(label_names(labels@)),
{
    let ghost names = label_names(labels@);
    let ghost f = |n: Seq<char>| said_loop(n);
    let mut i: usize = 0;
    assert(names.skip(0) =~= names);
    while i < labels.len()
        invariant
            i <= labels@.len(),
            names == label_names(labels@),
            f == (|n: Seq<char>| said_loop(n)),
            first_said(names, f) == first_said(names.skip(i as int), f),
        decreases labels@.len() - i,
    {
        assert(names.skip(i as int)[0] == labels@[i as int].name@);
        assert(names.skip(i as int).skip(1) =~= names.skip(i + 1));
        if let Some(l) = strip_prefix(labels[i].name.as_str(), "loop/") {
            return Some(l);
        }
        i = i + 1;
    }
    None
}

/// The labels that are the user's own, in order.
fn user_labels(labels: &Vec<Label>) -> (r: Vec<String>)
    ensures
        pattern::texts(r@) == label_names(labels@).filter(user_label()),
{
    let ghost names = label_names(labels@);
    let ghost p = user_label();
    let mut out: Vec<String> = Vec::new();
    let mut i: usize = 0;
    assert(pattern::texts(out@) =~= names.take(0).filter(p)) by {
        reveal(Seq::filter);
    }
    while i < labels.len()
        invariant
            i <= labels@.len(),
            names == label_names(labels@),
            p == user_label(),
            pattern::texts(out@) == names.take(i as int).filter(p),
        decreases labels@.len() - i,
    {
        let ghost before = out@;
        proof {
            reveal(Seq::filter);
            assert(names.take(i + 1).drop_last() =~= names.take(i as int));
            assert(names.take(i + 1).last() == labels@[i as int].name@);
        }
        let name = labels[i].name.as_str();
        if !starts_with(name, "status/") && !starts_with(name, "priority/") && !starts_with(
            name,
            "loop/",
        ) {
            out.push(name.to_string());
            assert(pattern::texts(out@) =~= pattern::texts(before).push(name@));
        }
        i = i + 1;
    }
    assert(names.take(i as int) =~= names);
    out
}

/// The names of the users.
fn names_of(users: &Vec<GhUser>) -> (r: Vec<String>)
    ensures
        pattern::texts(r@) == logins(users@),
{
    let mut out: Vec<String> = Vec::new();
    let mut i: usize = 0;
    while i < users.len()
        invariant
            i <= users@.len(),
            pattern::texts(out@) == logins(users@).take(i as int),
        decreases users@.len() - i,
    {
        let ghost before = out@;
        out.push(users[i].login.clone());
        assert(pattern::texts(out@) =~= pattern::texts(before).push(users@[i as int].login@));
        assert(logins(users@).take(i + 1) =~= logins(users@).take(i as int).push(
            users@[i as int].login@,
        ));
        i = i + 1;
    }
    assert(logins(users@).take(i as int) =~= logins(users@));
    out
}

/// What an issue says beyond the fields of a task.
fn extras_of(issue: &GhIssue) -> (r: Vec<(String, MetaValue)>)
    ensures
        task::entries(r@) == issue_extras(*issue),
{
    let mut out: Vec<(String, MetaValue)> = Vec::new();
    let own = user_labels(&issue.labels);
    if issue.assignees.len() > 0 {
        out.push(("assignees".to_string(), MetaValue::List(names_of(&issue.assignees))));
    }
    if let Some(m) = &issue.milestone {
        out.push(("milestone".to_string(), MetaValue::Text(m.title.clone())));
    }
    assert(own@.len() == pattern::texts(own@).len());
    if own.len() > 0 {
        out.push(("user_labels".to_string(), MetaValue::List(own)));
    }
    assert(task::entries(out@) =~= issue_extras(*issue));
    out
}

/// The GitHub configuration that a source is made from.
#[derive(Debug, PartialEq)]
pub enum GithubSettings {
    /// There is none.
    Absent,
    /// It could not be read; the reason is given.
    Unreadable(String),
    /// It was read.
    Read(GithubTaskSourceConfig),
}

/// What `gh auth token` came to.
#[derive(Debug, PartialEq)]
pub enum GhTokenOutcome {
    /// It succeeded, with this output.
    Printed(String),
    /// It failed, with this error output.
    Refused(String),
    /// The program is not installed.
    Missing,
    /// It could not be run; the reason is given.
    Broken(String),
}

/// The first of the given tokens that is there and not empty.
pub open spec fn first_token(
    config: Option<Seq<char>>,
    github: Option<Seq<char>>,
    ralph: Option<Seq<char>>,
) -> Option<Seq<char>> {
    if config matches Some(t) && t.len() > 0 {
        config
    } else if github matches Some(t) && t.len() > 0 {
        github
    } else if ralph matches Some(t) && t.len() > 0 {
        ralph
    } else {
        None
    }
}

/// The token to use: of the configuration, of the environment variables `GITHUB_TOKEN` and
/// `RALPH_GITHUB_TOKEN`, in this order. Empty ones are passed over.
pub fn resolve_token_from(
    config_token: Option<&str>,
    github_token: Option<&str>,
    ralph_token: Option<&str>,
) -> (r: Option<String>)
    ensures
        json::opt_text(r) == first_token(
            task_source::opt_str(config_token),
            task_source::opt_str(github_token),
            task_source::opt_str(ralph_token),
        ),
{
    if let Some(t) = config_token {
        if !t.is_empty() {
            return Some(t.to_string());
        }
    }
    if let Some(t) = github_token {
        if !t.is_empty() {
            return Some(t.to_string());
        }
    }
    if let Some(t) = ralph_token {
        if !t.is_empty() {
            return Some(t.to_string());
        }
    }
    None
}

/// The token that `gh auth token` gave, or why there is none.
pub open spec fn gh_token(o: GhTokenOutcome) -> Result<Seq<char>, ErrorView> {
    match o {
        GhTokenOutcome::Printed(out) => if text::trimmed(out@).len() == 0 {
            Err(ErrorView::Auth("gh auth token returned empty"@))
        } else {
            Ok(text::trimmed(out@))
        },
        GhTokenOutcome::Refused(err) => Err(ErrorView::Auth("gh auth token failed: "@ + err@)),
        GhTokenOutcome::Missing => Err(
            ErrorView::Config(
                "no GitHub token found: set config.token, GITHUB_TOKEN, RALPH_GITHUB_TOKEN, or install gh CLI"@,
            ),
        ),
        GhTokenOutcome::Broken(err) => Err(
            ErrorView::Auth("failed to run gh auth token: "@ + err@),
        ),
    }
}

/// The token that `gh auth token` gave, or why there is none. It is asked where
/// [`resolve_token_from`] finds no token.
pub fn token_of_gh(outcome: GhTokenOutcome) -> (r: TaskSourceResult<String>)
    ensures
        api::text_result(r) == gh_token(outcome),
{
    match outcome {
        GhTokenOutcome::Printed(out) => {
            let token = trim(out.as_str());
            if token.as_str().is_empty() {
                Err(TaskSourceError::Auth("gh auth token returned empty".to_string()))
            } else {
                Ok(token)
            }
        },
        GhTokenOutcome::Refused(err) => Err(
            TaskSourceError::Auth(glue("gh auth token failed: ", err.as_str())),
        ),
        GhTokenOutcome::Missing => Err(
            TaskSourceError::Config(
                "no GitHub token found: set config.token, GITHUB_TOKEN, RALPH_GITHUB_TOKEN, or install gh CLI".to_string(),
            ),
        ),
        GhTokenOutcome::Broken(err) => Err(
            TaskSourceError::Auth(glue("failed to run gh auth token: ", err.as_str())),
        ),
    }
}

/// The labels that stand for states: name, colour and description of each.
pub open spec fn status_label_texts() -> Seq<(Seq<char>, Seq<char>, Seq<char>)> {
    seq![
        ("status/todo"@, "0e8a16"@, "Ralph: task is open"@),
        ("status/in-progress"@, "fbca04"@, "Ralph: task in progress"@),
        ("status/done"@, "6f42c1"@, "Ralph: task completed"@),
        ("status/failed"@, "d93f0b"@, "Ralph: task failed"@),
    ]
}

/// The labels that stand for priorities: name, colour and description of each.
pub open spec fn priority_label_texts() -> Seq<(Seq<char>, Seq<char>, Seq<char>)> {
    seq![
        ("priority/1"@, "b60205"@, "Ralph: highest priority"@),
        ("priority/2"@, "d93f0b"@, "Ralph: high priority"@),
        ("priority/3"@, "e99695"@, "Ralph: medium priority"@),
        ("priority/4"@, "c2e0c6"@, "Ralph: low priority"@),
        ("priority/5"@, "0e8a16"@, "Ralph: lowest priority"@),
    ]
}

/// The contents of a list of label definitions.
pub open spec fn definitions(
    v: Seq<(&'static str, &'static str, &'static str)>,
) -> Seq<(Seq<char>, Seq<char>, Seq<char>)> {
    v.map_values(|d: (&'static str, &'static str, &'static str)| (d.0@, d.1@, d.2@))
}

/// The labels that stand for states.
pub fn status_labels() -> (r: Vec<(&'static str, &'static str, &'static str)>)
    ensures
        definitions(r@) == status_label_texts(),
{
    let mut v: Vec<(&'static str, &'static str, &'static str)> = Vec::new();
    v.push(("status/todo", "0e8a16", "Ralph: task is open"));
    v.push(("status/in-progress", "fbca04", "Ralph: task in progress"));
    v.push(("status/done", "6f42c1", "Ralph: task completed"));
    v.push(("status/failed", "d93f0b", "Ralph: task failed"));
    assert(definitions(v@) =~= status_label_texts());
    v
}

/// The labels that stand for priorities.
pub fn priority_labels() -> (r: Vec<(&'static str, &'static str, &'static str)>)
    ensures
        definitions(r@) == priority_label_texts(),
{
    let mut v: Vec<(&'static str, &'static str, &'static str)> = Vec::new();
    v.push(("priority/1", "b60205", "Ralph: highest priority"));
    v.push(("priority/2", "d93f0b", "Ralph: high priority"));
    v.push(("priority/3", "e99695", "Ralph: medium priority"));
    v.push(("priority/4", "c2e0c6", "Ralph: low priority"));
    v.push(("priority/5", "0e8a16", "Ralph: lowest priority"));
    assert(definitions(v@) =~= priority_label_texts());
    v
}

/// The seconds for which a finished set-up is not done again: a day.
pub const SETUP_CACHE_SECONDS: u64 = 86400;

/// What set-up does next.
#[derive(PartialEq)]
pub enum SetupAction {
    /// Nothing: it was done recently.
    Skip,
    /// Make a request.
    Create(GhRequest),
    /// Note that set-up is done.
    WriteCache,
    /// Give up with an error.
    Stop(TaskSourceError),
}

/// Task source on the issues of a GitHub repository.
pub struct GithubTaskSource {
    config: GithubTaskSourceConfig,
    client: GhClient,
    tasks: Vec<Task>,
    loop_filter: Option<String>,
    workspace_root: String,
}

/// Why no source can be made from a configuration.
pub open spec fn settings_error(s: GithubSettings) -> Option<ErrorView> {
    match s {
        GithubSettings::Absent => Some(ErrorView::Config("GitHub task source requires config"@)),
        GithubSettings::Unreadable(e) => Some(
            ErrorView::Config("invalid GitHub config: "@ + e@),
        ),
        GithubSettings::Read(c) => match config::complaint(c) {
            Some(m) => Some(ErrorView::Config(m)),
            None => None,
        },
    }
}

impl GithubTaskSource {
    /// The tasks in memory.
    pub closed spec fn held(&self) -> Seq<TaskView> {
        task::views(self.tasks@)
    }

    /// The loop that queries are limited to.
    pub closed spec fn filter(&self) -> Option<Seq<char>> {
        json::opt_text(self.loop_filter)
    }

    /// The configuration.
    pub closed spec fn settings(&self) -> GithubTaskSourceConfig {
        self.config
    }

    /// The client for the repository.
    pub closed spec fn api_client(&self) -> GhClient {
        self.client
    }

    /// The root of the workspace.
    pub closed spec fn root(&self) -> Seq<char> {
        self.workspace_root@
    }

    /// A source without tasks, from its configuration and the token that was found for it.
    /// What is wrong with the configuration is reported first, then that there is no token.
    pub fn from_config(
        settings: GithubSettings,
        workspace_root: &str,
        token: TaskSourceResult<String>,
    ) -> (r: TaskSourceResult<Self>)
        ensures
            match (settings_error(settings), token) {
                (Some(e), _) => r is Err && r->Err_0@ == e,
                (None, Err(e)) => r is Err && r->Err_0 == e,
                (None, Ok(t)) => {
                    &&& r is Ok
                    &&& r->Ok_0.held() == Seq::<TaskView>::empty()
                    &&& r->Ok_0.filter() is None
                    &&& r->Ok_0.settings() == settings->Read_0
                    &&& r->Ok_0.root() == workspace_root@
                    &&& r->Ok_0.api_client().token_text() == t@
                    &&& text::split_at_first(settings->Read_0.repo@, '/') == Some(
                        (r->Ok_0.api_client().owner_text(), r->Ok_0.api_client().repo_text()),
                    )
                },
            },
    {
        match settings {
            GithubSettings::Absent => Err(
                TaskSourceError::Config("GitHub task source requires config".to_string()),
            ),
            GithubSettings::Unreadable(e) => Err(
                TaskSourceError::Config(glue("invalid GitHub config: ", e.as_str())),
            ),
            GithubSettings::Read(c) => match c.validate() {
                Err(m) => Err(TaskSourceError::Config(m)),
                Ok(_) => match token {
                    Err(e) => Err(e),
                    Ok(t) => {
                        let (owner, repo) = c.owner_repo();
                        let source = GithubTaskSource {
                            config: c,
                            client: GhClient::new(owner, repo, t),
                            tasks: Vec::new(),
                            loop_filter: None,
                            workspace_root: workspace_root.to_string(),
                        };
                        assert(source.held() =~= Seq::<TaskView>::empty());
                        Ok(source)
                    },
                },
            },
        }
    }

    /// The configuration.
    pub fn config(&self) -> (r: &GithubTaskSourceConfig)
        ensures
            *r == self.settings(),
    {
        &self.config
    }

    /// The client for the repository.
    pub fn client(&self) -> (r: &GhClient)
        ensures
            *r == self.api_client(),
    {
        &self.client
    }

    /// The loop that queries are limited to.
    pub fn loop_filter(&self) -> (r: Option<String>)
        ensures
            json::opt_text(r) == self.filter(),
    {
        copy_opt(&self.loop_filter)
    }

    /// The file whose age says when set-up was last done.
    pub fn setup_cache_path(&self) -> (r: String)
        ensures
            r@ == setup_marker(self.root()),
    {
        text::join_path(self.workspace_root.as_str(), ".ralph/.github-setup-done")
    }

    /// Whether set-up was done recently, by the age in seconds and nanoseconds of the file
    /// that says so. There is no age where the file is missing or lies in the future.
    pub fn setup_cache_is_valid(age: Option<(u64, u32)>) -> (r: bool)
        ensures
            r == recently_set_up(age),
    {
        match age {
            Some(a) => a.0 < SETUP_CACHE_SECONDS,
            None => false,
        }
    }

    /// The request for the label at a place in the list of all labels, those of the states
    /// first; nothing behind the last.
    fn label_at(&self, place: usize) -> (r: Option<GhRequest>)
        ensures
            match r {
                Some(q) => place < all_labels().len() && q@ == label_request(
                    self.api_client(),
                    all_labels()[place as int],
                ),
                None => place >= all_labels().len(),
            },
    {
        let states = status_labels();
        let priorities = priority_labels();
        assert(definitions(states@).len() == states@.len());
        assert(definitions(priorities@).len() == priorities@.len());
        if place < states.len() {
            let (name, color, description) = states[place];
            assert(all_labels()[place as int] == definitions(states@)[place as int]);
            Some(self.client.create_label_request(name, color, description))
        } else if place - states.len() < priorities.len() {
            let (name, color, description) = priorities[place - states.len()];
            assert(all_labels()[place as int] == definitions(priorities@)[place - states@.len()]);
            Some(self.client.create_label_request(name, color, description))
        } else {
            None
        }
    }

    /// How set-up begins: not at all where it was done recently, else with the first label.
    pub fn setup_start(&self, age: Option<(u64, u32)>) -> (r: SetupAction)
        ensures
            if recently_set_up(age) {
                r is Skip
            } else {
                r is Create && r->Create_0@ == label_request(self.api_client(), all_labels()[0])
            },
    {
        if GithubTaskSource::setup_cache_is_valid(age) {
            SetupAction::Skip
        } else {
            match self.label_at(0) {
                Some(q) => SetupAction::Create(q),
                None => SetupAction::WriteCache,
            }
        }
    }

    /// How set-up goes on when the request for the label at a place has come to its end: it
    /// stops at an error, else the next label follows, and behind the last one set-up is
    /// noted as done.
    pub fn setup_next(&self, place: usize, outcome: GhOutcome) -> (r: SetupAction)
        requires
            place < all_labels().len(),
        ensures
            match label_reply(outcome) {
                Some(e) => r is Stop && r->Stop_0@ == e,
                None => if place + 1 < all_labels().len() {
                    r is Create && r->Create_0@ == label_request(
                        self.api_client(),
                        all_labels()[place + 1],
                    )
                } else {
                    r is WriteCache
                },
            },
    {
        match label_created(call_reply(outcome)) {
            Err(e) => SetupAction::Stop(e),
            Ok(_) => match self.label_at(place + 1) {
                Some(q) => SetupAction::Create(q),
                None => SetupAction::WriteCache,
            },
        }
    }

    /// The labels that a refresh asks for: those that stand for states.
    pub fn refresh_labels(&self) -> (r: Vec<String>)
        ensures
            pattern::texts(r@) == status_names(),
    {
        let states = status_labels();
        let mut names: Vec<String> = Vec::new();
        let mut i: usize = 0;
        while i < states.len()
            invariant
                i <= states@.len(),
                definitions(states@) == status_label_texts(),
                names@.len() == i,
                forall|j: int| 0 <= j < i ==> (#[trigger] names@[j])@ == status_names()[j],
            decreases states@.len() - i,
        {
            assert(definitions(states@)[i as int].0 == states@[i as int].0@);
            names.push(states[i].0.to_string());
            i = i + 1;
        }
        assert(status_label_texts().len() == definitions(states@).len());
        assert(pattern::texts(names@) =~= status_names());
        names
    }

    /// Takes the issues that a refresh gave as the tasks.
    pub fn refresh_with(&mut self, issues: &Vec<GhIssue>)
        ensures
            final(self).held() == issues@.map_values(|i: GhIssue| issue_task(i)),
            final(self).filter() == old(self).filter(),
            final(self).settings() == old(self).settings(),
            final(self).api_client() == old(self).api_client(),
            final(self).root() == old(self).root(),
    {
        let mut tasks: Vec<Task> = Vec::new();
        let mut i: usize = 0;
        while i < issues.len()
            invariant
                i <= issues@.len(),
                tasks@.len() == i,
                forall|j: int| 0 <= j < i ==> (#[trigger] tasks@[j])@ == issue_task(issues@[j]),
            decreases issues@.len() - i,
        {
            tasks.push(GithubTaskSource::issue_to_task(&issues[i]));
            i = i + 1;
        }
        self.tasks = tasks;
        assert(self.held() =~= issues@.map_values(|i: GhIssue| issue_task(i)));
    }

    /// Takes the tasks as they are.
    pub fn set_tasks(&mut self, tasks: Vec<Task>)
        ensures
            final(self).held() == task::views(tasks@),
            final(self).filter() == old(self).filter(),
            final(self).settings() == old(self).settings(),
            final(self).api_client() == old(self).api_client(),
            final(self).root() == old(self).root(),
    {
        self.tasks = tasks;
    }

    /// The task that an issue stands for.
    ///
    /// Labels say status, priority and loop; the metadata comment in the body says the rest,
    /// and the loop where no label does. Without a key of its own, the issue number is the
    /// key.
    pub fn issue_to_task(issue: &GhIssue) -> (r: Task)
        ensures
            r@ == issue_task(*issue),
    {
        let body = match &issue.body {
            Some(b) => b.as_str(),
            None => "",
        };
        proof {
            reveal_strlit("");
            assert(body@ =~= issue_body(*issue));
        }
        let meta = parse_metadata(body);
        let visible = strip_metadata(body);
        let number = decimal(issue.number);
        let loop_id = match loop_of(&issue.labels) {
            Some(l) => Some(l),
            None => meta.loop_id,
        };
        let key = match meta.key {
            Some(k) => Some(k),
            None => Some(number.clone()),
        };
        let closed = match &issue.closed_at {
            Some(c) => Some(c.clone()),
            None => meta.closed,
        };
        let description = if visible.as_str().is_empty() {
            None
        } else {
            Some(visible)
        };
        let r = Task {
            id: number,
            title: issue.title.clone(),
            description,
            key,
            status: status_of(&issue.labels),
            priority: priority_of(&issue.labels),
            blocked_by: meta.blocked_by,
            loop_id,
            created: issue.created_at.clone(),
            started: meta.started,
            closed,
            metadata: extras_of(issue),
        };
        assert(r@ =~= issue_task(*issue));
        r
    }

    /// The tasks of the loop that queries are limited to.
    pub fn filtered_tasks(&self) -> (r: Vec<Task>)
        ensures
            task::views(r@) == task_list::scoped(self.held(), self.filter()),
    {
        tasks_in_loop(&self.tasks, &self.loop_filter)
    }

    /// Limits queries to a loop. `None` means all loops.
    pub fn set_loop_filter(&mut self, loop_id: Option<&str>)
        ensures
            final(self).held() == old(self).held(),
            final(self).filter() == task_source::opt_str(loop_id),
            final(self).settings() == old(self).settings(),
            final(self).api_client() == old(self).api_client(),
            final(self).root() == old(self).root(),
    {
        self.loop_filter = match loop_id {
            Some(l) => Some(l.to_string()),
            None => None,
        };
    }

    /// The task with the identifier, which is an issue number.
    pub fn get(&self, id: &str) -> (r: TaskSourceResult<Option<Task>>)
        ensures
            r is Ok,
            task::opt_view(r->Ok_0) == task_list::by_id(self.held(), id@),
    {
        Ok(task_by_id(&self.tasks, id))
    }

    /// The task with the stable key.
    pub fn get_by_key(&self, key: &str) -> (r: TaskSourceResult<Option<Task>>)
        ensures
            r is Ok,
            task::opt_view(r->Ok_0) == task_list::by_key(self.held(), key@),
    {
        Ok(task_by_key(&self.tasks, key))
    }

    /// All tasks of the loop.
    pub fn all(&self) -> (r: TaskSourceResult<Vec<Task>>)
        ensures
            r is Ok,
            task::views(r->Ok_0@) == task_list::scoped(self.held(), self.filter()),
    {
        Ok(self.filtered_tasks())
    }

    /// The tasks that are not closed.
    pub fn open(&self) -> (r: TaskSourceResult<Vec<Task>>)
        ensures
            r is Ok,
            task::views(r->Ok_0@) == task_list::open_in(self.held(), self.filter()),
    {
        Ok(open_tasks(&self.filtered_tasks()))
    }

    /// The tasks that still need work.
    pub fn pending(&self) -> (r: TaskSourceResult<Vec<Task>>)
        ensures
            r is Ok,
            task::views(r->Ok_0@) == task_list::pending_in(self.held(), self.filter()),
    {
        Ok(pending_tasks(&self.filtered_tasks()))
    }

    /// The open tasks whose blockers are all closed or failed.
    pub fn ready(&self) -> (r: TaskSourceResult<Vec<Task>>)
        ensures
            r is Ok,
            task::views(r->Ok_0@) == task_list::ready_in(self.held(), self.filter()),
    {
        Ok(ready_tasks(&self.filtered_tasks()))
    }

    /// Changes are refused: the name of the change says which.
    fn unsupported(change: &str) -> (r: TaskSourceError)
        ensures
            r@ == unsupported_change(change@),
    {
        let mut m = "GitHub ".to_string();
        m.append(change);
        m.append(" not yet implemented");
        TaskSourceError::Config(m)
    }

    /// Adding tasks is not supported.
    pub fn add(&mut self, _task: Task) -> (r: TaskSourceResult<Task>)
        ensures
            *final(self) == *old(self),
            r is Err,
            r->Err_0@ == unsupported_change("add"@),
    {
        Err(GithubTaskSource::unsupported("add"))
    }

    /// Closing tasks is not supported.
    pub fn close(&mut self, _id: &str) -> (r: TaskSourceResult<Option<Task>>)
        ensures
            *final(self) == *old(self),
            r is Err,
            r->Err_0@ == unsupported_change("close"@),
    {
        Err(GithubTaskSource::unsupported("close"))
    }

    /// Starting tasks is not supported.
    pub fn start(&mut self, _id: &str) -> (r: TaskSourceResult<Option<Task>>)
        ensures
            *final(self) == *old(self),
            r is Err,
            r->Err_0@ == unsupported_change("start"@),
    {
        Err(GithubTaskSource::unsupported("start"))
    }

    /// Failing tasks is not supported.
    pub fn fail(&mut self, _id: &str) -> (r: TaskSourceResult<Option<Task>>)
        ensures
            *final(self) == *old(self),
            r is Err,
            r->Err_0@ == unsupported_change("fail"@),
    {
        Err(GithubTaskSource::unsupported("fail"))
    }

    /// Reopening tasks is not supported.
    pub fn reopen(&mut self, _id: &str) -> (r: TaskSourceResult<Option<Task>>)
        ensures
            *final(self) == *old(self),
            r is Err,
            r->Err_0@ == unsupported_change("reopen"@),
    {
        Err(GithubTaskSource::unsupported("reopen"))
    }

    /// Ensuring tasks is not supported.
    pub fn ensure(&mut self, _task: Task) -> (r: TaskSourceResult<Task>)
        ensures
            *final(self) == *old(self),
            r is Err,
            r->Err_0@ == unsupported_change("ensure"@),
    {
        Err(GithubTaskSource::unsupported("ensure"))
    }
}

/// The error that a change is refused with.
pub open spec fn unsupported_change(change: Seq<char>) -> ErrorView {
    ErrorView::Config("GitHub "@ + change + " not yet implemented"@)
}

/// The names of the labels that stand for states.
pub open spec fn status_names() -> Seq<Seq<char>> {
    status_label_texts().map_values(|d: (Seq<char>, Seq<char>, Seq<char>)| d.0)
}

/// The request for all issues, open and closed, that carry the state labels.
pub open spec fn issues_request(c: GhClient) -> api::RequestView {
    api::issues_request(c.token_text(), c.path(), status_names(), "all"@)
}

/// The file whose age says when set-up was last done.
pub open spec fn setup_marker(root: Seq<char>) -> Seq<char> {
    text::path_below(root, ".ralph/.github-setup-done"@)
}

/// Whether set-up was done recently enough, given the age of the file that says so.
pub open spec fn recently_set_up(age: Option<(u64, u32)>) -> bool {
    age matches Some(a) && a.0 < SETUP_CACHE_SECONDS
}

/// All labels that set-up creates, in order.
pub open spec fn all_labels() -> Seq<(Seq<char>, Seq<char>, Seq<char>)> {
    status_label_texts() + priority_label_texts()
}

/// The error that the creation of a label ended with.
pub open spec fn label_reply(o: GhOutcome) -> Option<ErrorView> {
    api::label_reply(api::gh_reply(o, "null"@))
}

/// The request that creates a label.
pub open spec fn label_request(
    c: GhClient,
    d: (Seq<char>, Seq<char>, Seq<char>),
) -> api::RequestView {
    api::single_request(
        c.token_text(),
        "POST"@,
        c.path() + "/labels"@,
        Some(crate::record::record_text(api::label_fields(d.0, d.1, d.2))),
    )
}

/// The states, in the order of their labels.
pub open spec fn label_states() -> Seq<TaskStatus> {
    seq![TaskStatus::Open, TaskStatus::InProgress, TaskStatus::Closed, TaskStatus::Failed]
}

/// Each label that set-up creates for a state says that state, and no two say the same; none
/// of them counts as a label of the user.
pub proof fn status_labels_say_states(i: int)
    requires
        0 <= i < status_label_texts().len(),
    ensures
        status_label_texts().len() == label_states().len(),
        said_status(status_label_texts()[i].0) == Some(label_states()[i]),
        said_priority(status_label_texts()[i].0) is None,
        said_loop(status_label_texts()[i].0) is None,
        !user_label()(status_label_texts()[i].0),
{
    reveal_strlit("status/todo");
    reveal_strlit("status/in-progress");
    reveal_strlit("status/done");
    reveal_strlit("status/failed");
    reveal_strlit("status/");
    reveal_strlit("priority/");
    reveal_strlit("loop/");
    let name = status_label_texts()[i].0;
    assert("status/todo"@.len() == 11 && "status/done"@.len() == 11);
    assert("status/todo"@[7] == 't' && "status/done"@[7] == 'd');
    assert(name[0] == 's' && "priority/"@[0] == 'p' && "loop/"@[0] == 'l');
    assert("status/"@.is_prefix_of(name)) by {
        assert(name.take(7) =~= "status/"@);
    }
}

/// Each label that set-up creates for a priority says its place in the list, counted from
/// one; none of them counts as a label of the user.
pub proof fn priority_labels_say_priorities(i: int)
    requires
        0 <= i < priority_label_texts().len(),
    ensures
        said_priority(priority_label_texts()[i].0) == Some((i + 1) as u8),
        said_status(priority_label_texts()[i].0) is None,
        said_loop(priority_label_texts()[i].0) is None,
        !user_label()(priority_label_texts()[i].0),
{
    reveal_strlit("status/todo");
    reveal_strlit("status/in-progress");
    reveal_strlit("status/done");
    reveal_strlit("status/failed");
    reveal_strlit("priority/");
    reveal_strlit("loop/");
    reveal_strlit("priority/1");
    reveal_strlit("priority/2");
    reveal_strlit("priority/3");
    reveal_strlit("priority/4");
    reveal_strlit("priority/5");
    let name = priority_label_texts()[i].0;
    assert(name.len() == 10);
    assert("priority/"@.is_prefix_of(name)) by {
        assert(name.take(9) =~= "priority/"@);
    }
    let d = name.skip(9);
    assert(d.len() == 1 && d[0] == (0x31 + i) as char);
    assert(d.drop_last() =~= Seq::<char>::empty());
    assert(number::digits_value(d) == i + 1) by {
        reveal_with_fuel(number::digits_value, 2);
    }
    assert(name[0] == 'p' && "status/todo"@[0] == 's' && "status/in-progress"@[0] == 's'
        && "status/done"@[0] == 's' && "status/failed"@[0] == 's' && "loop/"@[0] == 'l');
}

} // verus!
