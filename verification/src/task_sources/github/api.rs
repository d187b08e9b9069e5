//! Requests to the GitHub API and what their replies mean.
//!
//! Every request is a run of `gh api`, which takes care of the base URL and of pagination.
//! The token is handed over in the environment. This module says what is run, and what a
//! finished run amounts to.

use crate::json;
use crate::json::{json_find_fault, json_write_string, json_write_strings};
use crate::number;
use crate::number::{integer, parse_unsigned};
use crate::pattern;
use crate::pattern::{regex_captures, HTTP_STATUS_PATTERN, RETRY_AFTER_PATTERN};
use crate::record;
use crate::record::{with_member, Member};
use crate::task_source;
use crate::task_source::{from_outside, ErrorView, TaskSourceError, TaskSourceResult};
use crate::task_sources::github::port::{GhPort, GhStep, RecordedGh};
use crate::text;
use crate::text::{contains_text, decimal, glue, join, trim};
use vstd::prelude::*;
use vstd::string::*;

verus! {

/// A label of a repository.
#[derive(Debug, Clone, PartialEq)]
pub struct Label {
    pub name: String,
    pub color: String,
    pub description: Option<String>,
}

/// A GitHub user.
#[derive(Debug, Clone, PartialEq)]
pub struct GhUser {
    pub login: String,
}

/// A GitHub milestone.
#[derive(Debug, Clone, PartialEq)]
pub struct GhMilestone {
    pub number: u64,
    pub title: String,
}

/// A GitHub issue.
#[derive(Debug, Clone, PartialEq)]
pub struct GhIssue {
    pub number: u64,
    pub title: String,
    pub body: Option<String>,
    pub state: String,
    pub labels: Vec<Label>,
    pub created_at: String,
    pub closed_at: Option<String>,
    pub assignees: Vec<GhUser>,
    pub milestone: Option<GhMilestone>,
    /// What makes an issue a pull request, as JSON text.
    pub pull_request: Option<String>,
}

/// The fields of an issue to change. Fields that are `None` are left alone.
#[derive(Debug, PartialEq)]
pub struct IssueUpdate {
    pub title: Option<String>,
    pub body: Option<String>,
    pub state: Option<String>,
    /// All labels that the issue is to have.
    pub labels: Option<Vec<String>>,
    /// All users that the issue is to be assigned to.
    pub assignees: Option<Vec<String>>,
}

/// The contents of an [`IssueUpdate`].
#[verifier::ext_equal]
pub struct IssueUpdateView {
    pub title: Option<Seq<char>>,
    pub body: Option<Seq<char>>,
    pub state: Option<Seq<char>>,
    pub labels: Option<Seq<Seq<char>>>,
    pub assignees: Option<Seq<Seq<char>>>,
}

/// The contents of an optional list of strings.
pub open spec fn opt_texts(v: Option<Vec<String>>) -> Option<Seq<Seq<char>>> {
    match v {
        Some(v) => Some(pattern::texts(v@)),
        None => None,
    }
}

impl View for IssueUpdate {
    type V = IssueUpdateView;

    open spec fn view(&self) -> IssueUpdateView {
        IssueUpdateView {
            title: json::opt_text(self.title),
            body: json::opt_text(self.body),
            state: json::opt_text(self.state),
            labels: opt_texts(self.labels),
            assignees: opt_texts(self.assignees),
        }
    }
}

impl Default for IssueUpdate {
    fn default() -> (r: Self)
        ensures
            r@ == (IssueUpdateView {
                title: None,
                body: None,
                state: None,
                labels: None,
                assignees: None,
            }),
    {
        IssueUpdate { title: None, body: None, state: None, labels: None, assignees: None }
    }
}

/// A string as a member of a request body, left out if there is none.
pub open spec fn text_field(name: Seq<char>, v: Option<Seq<char>>) -> Seq<Member> {
    match v {
        Some(s) => seq![(name, json::json_string_text(s))],
        None => seq![],
    }
}

/// A list as a member of a request body, left out if there is none.
pub open spec fn list_field(name: Seq<char>, v: Option<Seq<Seq<char>>>) -> Seq<Member> {
    match v {
        Some(l) => seq![(name, json::json_list_text(l))],
        None => seq![],
    }
}

/// The members of the JSON object that an update is sent as, by name.
pub open spec fn update_fields(u: IssueUpdateView) -> Seq<Member> {
    list_field("assignees"@, u.assignees) + text_field("body"@, u.body) + list_field(
        "labels"@,
        u.labels,
    ) + text_field("state"@, u.state) + text_field("title"@, u.title)
}

/// Whether each member can be read back from a written object.
pub open spec fn all_read_back(ms: Seq<Member>) -> bool {
    forall|i: int| 0 <= i < ms.len() ==> record::reads_back(#[trigger] ms[i])
}

/// Appends a string member, if there is one.
fn with_text(body: String, name: &str, value: Option<&str>, ms: Ghost<Seq<Member>>) -> (r: String)
    requires
        body@ == record::record_body(ms@),
        body@.len() == 0 <==> ms@.len() == 0,
        all_read_back(ms@),
    ensures
        r@ == record::record_body(ms@ + text_field(name@, crate::task_source::opt_str(value))),
        r@.len() == 0 <==> (ms@ + text_field(
            name@,
            crate::task_source::opt_str(value),
        )).len() == 0,
        all_read_back(ms@ + text_field(name@, crate::task_source::opt_str(value))),
{
    match value {
        Some(v) => {
            let t = json_write_string(v);
            let r = with_member(body, name, t.as_str(), ms);
            assert(ms@ + text_field(name@, Some(v@)) =~= ms@.push((name@, t@)));
            r
        },
        None => {
            assert(ms@ + text_field(name@, None) =~= ms@);
            body
        },
    }
}

/// Appends a list member, if there is one.
fn with_list(
    body: String,
    name: &str,
    value: Option<&Vec<String>>,
    ms: Ghost<Seq<Member>>,
) -> (r: String)
    requires
        body@ == record::record_body(ms@),
        body@.len() == 0 <==> ms@.len() == 0,
        all_read_back(ms@),
    ensures
        r@ == record::record_body(ms@ + list_field(name@, ref_texts(value))),
        r@.len() == 0 <==> (ms@ + list_field(name@, ref_texts(value))).len() == 0,
        all_read_back(ms@ + list_field(name@, ref_texts(value))),
{
    match value {
        Some(v) => {
            let t = json_write_strings(v);
            let r = with_member(body, name, t.as_str(), ms);
            assert(ms@ + list_field(name@, Some(pattern::texts(v@))) =~= ms@.push((name@, t@)));
            r
        },
        None => {
            assert(ms@ + list_field(name@, None) =~= ms@);
            body
        },
    }
}

/// The contents of an optional list of strings.
pub open spec fn ref_texts(v: Option<&Vec<String>>) -> Option<Seq<Seq<char>>> {
    match v {
        Some(v) => Some(pattern::texts(v@)),
        None => None,
    }
}

/// Closes a JSON object.
fn braced(body: String, ms: Ghost<Seq<Member>>) -> (r: String)
    requires
        body@ == record::record_body(ms@),
        all_read_back(ms@),
    ensures
        r@ == record::record_text(ms@),
        json::object_members(r@) == Some(ms@),
{
    let mut out = String::new();
    out.push('{');
    out.append(body.as_str());
    out.push('}');
    proof {
        assert(out@ =~= record::record_text(ms@));
        record::lemma_record_read_back(ms@);
    }
    out
}

/// An optional string as a slice.
fn slice_of(s: &Option<String>) -> (r: Option<&str>)
    ensures
        crate::task_source::opt_str(r) == json::opt_text(*s),
{
    match s {
        Some(s) => Some(s.as_str()),
        None => None,
    }
}

impl IssueUpdate {
    /// The update as a JSON object with the fields that are set. Reading the object gives
    /// exactly those members.
    pub fn to_json(&self) -> (r: String)
        ensures
            r@ == record::record_text(update_fields(self@)),
            json::object_members(r@) == Some(update_fields(self@)),
    {
        let ghost u = self@;
        let ghost none = Seq::<Member>::empty();
        let body = with_list(String::new(), "assignees", self.assignees.as_ref(), Ghost(none));
        let ghost a = list_field("assignees"@, u.assignees);
        assert(none + a =~= a);
        let body = with_text(body, "body", slice_of(&self.body), Ghost(a));
        let ghost b = a + text_field("body"@, u.body);
        let body = with_list(body, "labels", self.labels.as_ref(), Ghost(b));
        let ghost c = b + list_field("labels"@, u.labels);
        let body = with_text(body, "state", slice_of(&self.state), Ghost(c));
        let ghost d = c + text_field("state"@, u.state);
        let body = with_text(body, "title", slice_of(&self.title), Ghost(d));
        braced(body, Ghost(update_fields(u)))
    }
}

/// A run of the `gh` program.
#[derive(PartialEq)]
pub struct GhRequest {
    /// The arguments, in order.
    pub args: Vec<String>,
    /// Environment variables to set.
    pub env: Vec<(String, String)>,
    /// What to write to standard input.
    pub input: Option<String>,
}

/// The contents of a [`GhRequest`].
#[verifier::ext_equal]
pub struct RequestView {
    pub args: Seq<Seq<char>>,
    pub env: Seq<(Seq<char>, Seq<char>)>,
    pub input: Option<Seq<char>>,
}

impl View for GhRequest {
    type V = RequestView;

    open spec fn view(&self) -> RequestView {
        RequestView {
            args: pattern::texts(self.args@),
            env: json::member_texts(self.env@),
            input: json::opt_text(self.input),
        }
    }
}

/// How a run of the `gh` program ended.
#[derive(Debug, PartialEq)]
pub enum GhOutcome {
    /// The program is not installed.
    Missing,
    /// The program could not be run, or not be talked to.
    Broken(String),
    /// The program ran to its end.
    Finished { success: bool, code: Option<i32>, stdout: String, stderr: String },
}

/// Client for the issues and labels of a repository.
#[derive(PartialEq)]
pub struct GhClient {
    owner: String,
    repo: String,
    token: String,
}

/// The environment of a request.
pub open spec fn request_env(token: Seq<char>) -> Seq<(Seq<char>, Seq<char>)> {
    seq![("GH_TOKEN"@, token), ("NO_COLOR"@, "1"@)]
}

/// A single request, with a JSON body or without.
pub open spec fn single_request(
    token: Seq<char>,
    method: Seq<char>,
    endpoint: Seq<char>,
    body: Option<Seq<char>>,
) -> RequestView {
    RequestView {
        args: seq!["api"@, "--method"@, method, endpoint] + if body is Some {
            seq!["--input"@, "-"@]
        } else {
            seq![]
        },
        env: request_env(token),
        input: body,
    }
}

/// A request for all pages of a list.
pub open spec fn paginated_request(token: Seq<char>, endpoint: Seq<char>) -> RequestView {
    RequestView {
        args: seq!["api"@, "--paginate"@, "--method"@, "GET"@, endpoint],
        env: request_env(token),
        input: None,
    }
}

/// The request for the issues that carry the labels and are in the state, oldest first.
pub open spec fn issues_request(
    token: Seq<char>,
    path: Seq<char>,
    labels: Seq<Seq<char>>,
    state: Seq<char>,
) -> RequestView {
    paginated_request(
        token,
        path + ("/issues?labels="@ + text::joined(labels, ","@) + "&state="@ + state
            + "&per_page=100&sort=created&direction=asc"@),
    )
}

/// The path of a repository in the API.
pub open spec fn repo_path(owner: Seq<char>, repo: Seq<char>) -> Seq<char> {
    "/repos/"@ + owner + "/"@ + repo
}

impl GhClient {
    /// The owner of the repository.
    pub closed spec fn owner_text(&self) -> Seq<char> {
        self.owner@
    }

    /// The name of the repository.
    pub closed spec fn repo_text(&self) -> Seq<char> {
        self.repo@
    }

    /// The token that requests are made with.
    pub closed spec fn token_text(&self) -> Seq<char> {
        self.token@
    }

    /// The path of the client's repository.
    pub open spec fn path(&self) -> Seq<char> {
        repo_path(self.owner_text(), self.repo_text())
    }

    /// A client for `owner/repo`.
    pub fn new(owner: String, repo: String, token: String) -> (r: Self)
        ensures
            r.owner_text() == owner@,
            r.repo_text() == repo@,
            r.token_text() == token@,
    {
        GhClient { owner, repo, token }
    }

    /// The environment of the client's requests.
    fn env(&self) -> (r: Vec<(String, String)>)
        ensures
            json::member_texts(r@) == request_env(self.token_text()),
    {
        let mut v: Vec<(String, String)> = Vec::new();
        v.push(("GH_TOKEN".to_string(), self.token.clone()));
        v.push(("NO_COLOR".to_string(), "1".to_string()));
        assert(json::member_texts(v@) =~= request_env(self.token_text()));
        v
    }

    /// The request for one call of the API.
    pub fn call_request(&self, method: &str, endpoint: &str, body: Option<String>) -> (r: GhRequest)
        ensures
            r@ == single_request(self.token_text(), method@, endpoint@, json::opt_text(body)),
    {
        let mut args: Vec<String> = Vec::new();
        args.push("api".to_string());
        args.push("--method".to_string());
        args.push(method.to_string());
        args.push(endpoint.to_string());
        if body.is_some() {
            args.push("--input".to_string());
            args.push("-".to_string());
        }
        let r = GhRequest { args, env: self.env(), input: body };
        assert(r@ =~= single_request(
            self.token_text(),
            method@,
            endpoint@,
            json::opt_text(body),
        ));
        r
    }

    /// The request for all pages of a list.
    pub fn call_paginated_request(&self, endpoint: &str) -> (r: GhRequest)
        ensures
            r@ == paginated_request(self.token_text(), endpoint@),
    {
        let mut args: Vec<String> = Vec::new();
        args.push("api".to_string());
        args.push("--paginate".to_string());
        args.push("--method".to_string());
        args.push("GET".to_string());
        args.push(endpoint.to_string());
        let r = GhRequest { args, env: self.env(), input: None };
        assert(r@ =~= paginated_request(self.token_text(), endpoint@));
        r
    }

    /// The path of the repository, with more behind it.
    fn endpoint(&self, rest: &str) -> (r: String)
        ensures
            r@ == self.path() + rest@,
    {
        let mut out = "/repos/".to_string();
        out.append(self.owner.as_str());
        out.append("/");
        out.append(self.repo.as_str());
        out.append(rest);
        out
    }

    /// The request for all labels of the repository.
    pub fn list_labels_request(&self) -> (r: GhRequest)
        ensures
            r@ == paginated_request(self.token_text(), self.path() + "/labels?per_page=100"@),
    {
        let endpoint = self.endpoint("/labels?per_page=100");
        self.call_paginated_request(endpoint.as_str())
    }

    /// The request for the issues that carry the labels and are in the state. The reply
    /// contains pull requests too.
    pub fn list_issues_request(&self, labels: &Vec<String>, state: &str) -> (r: GhRequest)
        ensures
            r@ == issues_request(
                self.token_text(),
                self.path(),
                pattern::texts(labels@),
                state@,
            ),
    {
        let mut rest = "/issues?labels=".to_string();
        rest.append(join(labels, ",").as_str());
        rest.append("&state=");
        rest.append(state);
        rest.append("&per_page=100&sort=created&direction=asc");
        let endpoint = self.endpoint(rest.as_str());
        self.call_paginated_request(endpoint.as_str())
    }

    /// The request that creates an issue. Without assignees the field is left out.
    pub fn create_issue_request(
        &self,
        title: &str,
        body: &str,
        labels: &Vec<String>,
        assignees: &Vec<String>,
    ) -> (r: GhRequest)
        ensures
            r@ == single_request(
                self.token_text(),
                "POST"@,
                self.path() + "/issues"@,
                Some(
                    record::record_text(
                        new_issue_fields(
                            title@,
                            body@,
                            pattern::texts(labels@),
                            pattern::texts(assignees@),
                        ),
                    ),
                ),
            ),
            json::object_members(r@.input->0) == Some(
                new_issue_fields(
                    title@,
                    body@,
                    pattern::texts(labels@),
                    pattern::texts(assignees@),
                ),
            ),
    {
        let ghost none = Seq::<Member>::empty();
        let some: Option<&Vec<String>> = if assignees.len() > 0 {
            Some(assignees)
        } else {
            None
        };
        assert(pattern::texts(assignees@).len() == assignees@.len());
        let text = with_list(String::new(), "assignees", some, Ghost(none));
        let ghost a = list_field("assignees"@, ref_texts(some));
        assert(none + a =~= a);
        let text = with_text(text, "body", Some(body), Ghost(a));
        let ghost b = a + text_field("body"@, Some(body@));
        let text = with_list(text, "labels", Some(labels), Ghost(b));
        let ghost c = b + list_field("labels"@, Some(pattern::texts(labels@)));
        let text = with_text(text, "title", Some(title), Ghost(c));
        let ghost d = c + text_field("title"@, Some(title@));
        let text = braced(text, Ghost(d));
        let endpoint = self.endpoint("/issues");
        self.call_request("POST", endpoint.as_str(), Some(text))
    }

    /// The request that changes an issue. Only the fields that are set are sent.
    pub fn update_issue_request(&self, number: u64, updates: &IssueUpdate) -> (r: GhRequest)
        ensures
            r@ == single_request(
                self.token_text(),
                "PATCH"@,
                self.path() + ("/issues/"@ + text::decimal_text(number as nat)),
                Some(record::record_text(update_fields(updates@))),
            ),
    {
        let rest = glue("/issues/", decimal(number).as_str());
        let endpoint = self.endpoint(rest.as_str());
        self.call_request("PATCH", endpoint.as_str(), Some(updates.to_json()))
    }

    /// The request for one issue.
    pub fn get_issue_request(&self, number: u64) -> (r: GhRequest)
        ensures
            r@ == single_request(
                self.token_text(),
                "GET"@,
                self.path() + ("/issues/"@ + text::decimal_text(number as nat)),
                None,
            ),
    {
        let rest = glue("/issues/", decimal(number).as_str());
        let endpoint = self.endpoint(rest.as_str());
        self.call_request("GET", endpoint.as_str(), None)
    }

    /// The request that creates a label.
    pub fn create_label_request(&self, name: &str, color: &str, description: &str) -> (r: GhRequest)
        ensures
            r@ == single_request(
                self.token_text(),
                "POST"@,
                self.path() + "/labels"@,
                Some(record::record_text(label_fields(name@, color@, description@))),
            ),
            json::object_members(r@.input->0) == Some(label_fields(name@, color@, description@)),
    {
        let ghost none = Seq::<Member>::empty();
        let text = with_text(String::new(), "color", Some(color), Ghost(none));
        let ghost a = text_field("color"@, Some(color@));
        assert(none + a =~= a);
        let text = with_text(text, "description", Some(description), Ghost(a));
        let ghost b = a + text_field("description"@, Some(description@));
        let text = with_text(text, "name", Some(name), Ghost(b));
        let ghost c = b + text_field("name"@, Some(name@));
        let text = braced(text, Ghost(c));
        let endpoint = self.endpoint("/labels");
        self.call_request("POST", endpoint.as_str(), Some(text))
    }
}

/// The members of the JSON object that a new issue is sent as, by name.
pub open spec fn new_issue_fields(
    title: Seq<char>,
    body: Seq<char>,
    labels: Seq<Seq<char>>,
    assignees: Seq<Seq<char>>,
) -> Seq<Member> {
    list_field(
        "assignees"@,
        if assignees.len() > 0 {
            Some(assignees)
        } else {
            None
        },
    ) + text_field("body"@, Some(body)) + list_field("labels"@, Some(labels)) + text_field(
        "title"@,
        Some(title),
    )
}

/// The members of the JSON object that a new label is sent as, by name.
pub open spec fn label_fields(
    name: Seq<char>,
    color: Seq<char>,
    description: Seq<char>,
) -> Seq<Member> {
    text_field("color"@, Some(color)) + text_field("description"@, Some(description))
        + text_field("name"@, Some(name))
}

/// The second group of a match, as a number.
pub open spec fn captured_number(groups: Option<Seq<Seq<char>>>, max: nat) -> Option<nat> {
    match groups {
        Some(g) => number::unsigned_number(g[1], max),
        None => None,
    }
}

/// The HTTP status in an error output: the first `HTTP` and three digits.
pub open spec fn http_status(stderr: Seq<char>) -> Option<nat> {
    captured_number(pattern::first_http_status(stderr), 65535)
}

/// The seconds to wait that an error output hints at.
pub open spec fn retry_seconds(stderr: Seq<char>) -> Option<nat> {
    captured_number(pattern::first_retry_hint(stderr), u64::MAX as nat)
}

/// A hint of at least two groups.
proof fn lemma_groups(s: Seq<char>)
    ensures
        pattern::first_http_status(s) matches Some(g) ==> g.len() == 2,
        pattern::first_retry_hint(s) matches Some(g) ==> g.len() == 2,
    decreases s.len(),
{
    if s.len() > 0 {
        lemma_groups(s.drop_first());
    }
}

/// The second group of a match, as a number that does not exceed `max`.
fn group_number(groups: Option<Vec<Option<String>>>, max: u64) -> (r: Option<u64>)
    requires
        groups matches Some(g) ==> g@.len() == 2 && g@[1] is Some,
    ensures
        match r {
            Some(n) => groups is Some && number::unsigned_number(
                groups->0@[1]->0@,
                max as nat,
            ) == Some(n as nat),
            None => groups matches Some(g) ==> number::unsigned_number(
                g@[1]->0@,
                max as nat,
            ) is None,
        },
{
    match groups {
        Some(g) => match &g[1] {
            Some(s) => parse_unsigned(s.as_str(), max),
            None => None,
        },
        None => None,
    }
}

/// The HTTP status in an error output, such as 404 in `gh: Not Found (HTTP 404)`.
pub fn extract_http_status(stderr: &str) -> (r: Option<u16>)
    ensures
        match r {
            Some(n) => http_status(stderr@) == Some(n as nat),
            None => http_status(stderr@) is None,
        },
{
    let groups = regex_captures(HTTP_STATUS_PATTERN, stderr);
    proof {
        lemma_groups(stderr@);
    }
    match group_number(groups, 65535) {
        Some(n) => Some(n as u16),
        None => None,
    }
}

/// The seconds to wait that an error output hints at, such as 30 in `Retry-After: 30`.
pub fn extract_retry_after(stderr: &str) -> (r: Option<u64>)
    ensures
        match r {
            Some(n) => retry_seconds(stderr@) == Some(n as nat),
            None => retry_seconds(stderr@) is None,
        },
{
    let groups = regex_captures(RETRY_AFTER_PATTERN, stderr);
    proof {
        lemma_groups(stderr@);
    }
    group_number(groups, u64::MAX)
}

/// An optional number of seconds as a machine number.
pub open spec fn seconds_of(n: Option<nat>) -> Option<u64> {
    match n {
        Some(n) => Some(n as u64),
        None => None,
    }
}

/// What an error output and an exit code mean.
pub open spec fn gh_error(stderr: Seq<char>, exit_code: Option<i32>) -> ErrorView {
    match http_status(stderr) {
        Some(status) => if status == 401 || status == 403 {
            ErrorView::Auth(
                "GitHub API auth failed (HTTP "@ + text::decimal_text(status) + "): "@ + stderr,
            )
        } else if status == 404 {
            ErrorView::NotFound(stderr)
        } else if status == 422 {
            ErrorView::Config("GitHub API validation error (HTTP 422): "@ + stderr)
        } else if status == 429 {
            ErrorView::Retryable {
                source: "rate limited: "@ + stderr,
                retry_after: seconds_of(retry_seconds(stderr)),
            }
        } else if 500 <= status <= 599 {
            ErrorView::Retryable {
                source: "server error (HTTP "@ + text::decimal_text(status) + "): "@ + stderr,
                retry_after: None,
            }
        } else {
            ErrorView::Other(
                "GitHub API error (HTTP "@ + text::decimal_text(status) + "): "@ + stderr,
            )
        },
        None => if text::holds_text(stderr, "auth"@) || text::holds_text(stderr, "login"@)
            || text::holds_text(stderr, "token"@) {
            ErrorView::Auth("GitHub auth issue: "@ + stderr)
        } else {
            let code: int = match exit_code {
                Some(c) => c as int,
                None => -1,
            };
            ErrorView::Other(
                "gh api failed (exit "@ + number::integer_text(code) + "): "@ + stderr,
            )
        },
    }
}

/// A message that names an HTTP status and repeats the error output.
fn status_message(before: &str, status: u16, stderr: &str) -> (r: String)
    ensures
        r@ == before@ + text::decimal_text(status as nat) + "): "@ + stderr@,
{
    let mut out = before.to_string();
    out.append(decimal(status as u64).as_str());
    out.append("): ");
    out.append(stderr);
    out
}

/// The error that a failed run of `gh` means: by the HTTP status in its error output, or
/// without one by its words.
pub fn map_gh_error(stderr: &str, exit_code: Option<i32>) -> (r: TaskSourceError)
    ensures
        r@ == gh_error(stderr@, exit_code),
{
    match extract_http_status(stderr) {
        Some(status) => {
            if status == 401 || status == 403 {
                TaskSourceError::Auth(status_message("GitHub API auth failed (HTTP ", status, stderr))
            } else if status == 404 {
                TaskSourceError::NotFound(stderr.to_string())
            } else if status == 422 {
                TaskSourceError::Config(glue("GitHub API validation error (HTTP 422): ", stderr))
            } else if status == 429 {
                TaskSourceError::Retryable {
                    source: glue("rate limited: ", stderr),
                    retry_after: extract_retry_after(stderr),
                }
            } else if 500 <= status && status <= 599 {
                TaskSourceError::Retryable {
                    source: status_message("server error (HTTP ", status, stderr),
                    retry_after: None,
                }
            } else {
                TaskSourceError::Other(status_message("GitHub API error (HTTP ", status, stderr))
            }
        },
        None => {
            if contains_text(stderr, "auth") || contains_text(stderr, "login") || contains_text(
                stderr,
                "token",
            ) {
                TaskSourceError::Auth(glue("GitHub auth issue: ", stderr))
            } else {
                let code: i32 = match exit_code {
                    Some(c) => c,
                    None => -1,
                };
                let mut out = "gh api failed (exit ".to_string();
                out.append(integer(code).as_str());
                out.append("): ");
                out.append(stderr);
                TaskSourceError::Other(out)
            }
        },
    }
}

/// What a run of `gh` that should print JSON amounts to, given what is wrong with the JSON
/// that it printed: the JSON text, or `empty` where nothing was printed, or an error.
pub open spec fn reply_given(
    o: GhOutcome,
    fault: Option<Seq<char>>,
    empty: Seq<char>,
) -> Result<Seq<char>, ErrorView> {
    match o {
        GhOutcome::Missing => Err(
            ErrorView::Config("'gh' CLI not found \u{2014} install from https://cli.github.com"@),
        ),
        GhOutcome::Broken(e) => Err(ErrorView::Other(e@)),
        GhOutcome::Finished { success, code, stdout, stderr } => if !success {
            Err(gh_error(stderr@, code))
        } else if text::trimmed(stdout@).len() == 0 {
            Ok(empty)
        } else {
            match fault {
                Some(m) => Err(ErrorView::Other(m)),
                None => Ok(text::trimmed(stdout@)),
            }
        },
    }
}

/// What is wrong with the JSON that a run of `gh` printed.
pub open spec fn output_fault(o: GhOutcome) -> Option<Seq<char>> {
    match o {
        GhOutcome::Finished { success, code, stdout, stderr } => json::json_fault(
            text::trimmed(stdout@),
        ),
        _ => None,
    }
}

/// What a run of `gh` that should print JSON amounts to: the JSON text, or `empty` where
/// nothing was printed, or an error. Output that is no JSON is an error.
pub open spec fn gh_reply(o: GhOutcome, empty: Seq<char>) -> Result<Seq<char>, ErrorView> {
    reply_given(o, output_fault(o), empty)
}

/// The contents of a result that holds a string.
pub open spec fn text_result(r: TaskSourceResult<String>) -> Result<Seq<char>, ErrorView> {
    match r {
        Ok(s) => Ok(s@),
        Err(e) => Err(e@),
    }
}

/// What a run of `gh` amounts to, given what is wrong with the JSON that it printed.
pub fn reply_with(outcome: GhOutcome, fault: Option<String>, empty: &str) -> (r: TaskSourceResult<
    String,
>)
    ensures
        text_result(r) == reply_given(outcome, json::opt_text(fault), empty@),
{
    match outcome {
        GhOutcome::Missing => Err(
            TaskSourceError::Config(
                "'gh' CLI not found \u{2014} install from https://cli.github.com".to_string(),
            ),
        ),
        GhOutcome::Broken(e) => Err(TaskSourceError::Other(e)),
        GhOutcome::Finished { success, code, stdout, stderr } => {
            if success {
                let t = trim(stdout.as_str());
                if t.as_str().is_empty() {
                    Ok(empty.to_string())
                } else {
                    match fault {
                        Some(m) => Err(TaskSourceError::Other(m)),
                        None => Ok(t),
                    }
                }
            } else {
                Err(map_gh_error(stderr.as_str(), code))
            }
        },
    }
}

/// What a run of `gh` amounts to. What a successful run printed must be JSON.
fn reply_or(outcome: GhOutcome, empty: &str) -> (r: TaskSourceResult<String>)
    ensures
        text_result(r) == gh_reply(outcome, empty@),
{
    let fault: Option<String> = match &outcome {
        GhOutcome::Finished { success, code: _, stdout, stderr: _ } => if *success {
            json_find_fault(trim(stdout.as_str()).as_str())
        } else {
            None
        },
        _ => None,
    };
    reply_with(outcome, fault, empty)
}

/// The JSON text that a single request was answered with; `null` where the answer is empty.
pub fn call_reply(outcome: GhOutcome) -> (r: TaskSourceResult<String>)
    ensures
        text_result(r) == gh_reply(outcome, "null"@),
{
    reply_or(outcome, "null")
}

/// The JSON text that a request for a list was answered with; an empty list where the answer
/// is empty.
pub fn paginated_reply(outcome: GhOutcome) -> (r: TaskSourceResult<String>)
    ensures
        text_result(r) == gh_reply(outcome, "[]"@),
{
    reply_or(outcome, "[]")
}

/// Accepts the issues that are no pull requests.
pub open spec fn no_pull_request() -> spec_fn(GhIssue) -> bool {
    |i: GhIssue| i.pull_request is None
}

/// The issues without the pull requests among them, in order.
pub fn issues_only(issues: Vec<GhIssue>) -> (r: Vec<GhIssue>)
    ensures
        r@ == issues@.filter(no_pull_request()),
{
    let ghost s = issues@;
    let ghost p = no_pull_request();
    let mut rest = issues;
    let mut out: Vec<GhIssue> = Vec::new();
    proof {
        reveal(Seq::filter);
        assert(s.take(s.len() as int) =~= s);
    }
    while rest.len() > 0
        invariant
            rest@.len() <= s.len(),
            rest@ == s.take(rest@.len() as int),
            p == no_pull_request(),
            s.filter(p) == s.take(rest@.len() as int).filter(p) + out@,
        decreases rest@.len(),
    {
        let ghost n = rest@.len() as int;
        let ghost tail = out@;
        let last = rest.pop();
        if let Some(i) = last {
            proof {
                reveal(Seq::filter);
                assert(s.take(n).drop_last() =~= s.take(n - 1));
                assert(s.take(n).last() == i);
                assert(rest@ =~= s.take(n - 1));
            }
            if i.pull_request.is_none() {
                out.insert(0, i);
                assert(s.take(n - 1).filter(p).push(i) + tail =~= s.take(n - 1).filter(p) + out@);
            }
        }
    }
    proof {
        reveal(Seq::filter);
        assert(s.take(0).filter(p) =~= Seq::<GhIssue>::empty());
        assert(Seq::<GhIssue>::empty() + out@ =~= out@);
    }
    out
}

/// What the answer to a request for one issue means: there is no text where the issue does
/// not exist.
pub open spec fn found_text(
    reply: Result<Seq<char>, ErrorView>,
) -> Result<Option<Seq<char>>, ErrorView> {
    match reply {
        Ok(t) => Ok(Some(t)),
        Err(ErrorView::NotFound(_)) => Ok(None),
        Err(e) => Err(e),
    }
}

/// The JSON text of an issue that was asked for; none where the issue does not exist.
pub fn issue_found(reply: TaskSourceResult<String>) -> (r: TaskSourceResult<Option<String>>)
    ensures
        match r {
            Ok(t) => found_text(text_result(reply)) == Ok::<Option<Seq<char>>, ErrorView>(
                json::opt_text(t),
            ),
            Err(e) => found_text(text_result(reply)) == Err::<Option<Seq<char>>, ErrorView>(e@),
        },
{
    match reply {
        Ok(t) => Ok(Some(t)),
        Err(TaskSourceError::NotFound(_)) => Ok(None),
        Err(e) => Err(e),
    }
}

/// What the answer to the creation of a label means: that the label is there already is no
/// error.
pub fn label_created(reply: TaskSourceResult<String>) -> (r: TaskSourceResult<()>)
    ensures
        label_result(label_reply(text_result(reply)), r),
{
    match reply {
        Ok(_) => Ok(()),
        Err(TaskSourceError::Config(m)) => {
            if contains_text(m.as_str(), "422") {
                Ok(())
            } else {
                Err(TaskSourceError::Config(m))
            }
        },
        Err(e) => Err(e),
    }
}

/// Whether a request was made, and nothing else, and how it ended.
pub open spec fn asked<P: GhPort>(
    before: &RecordedGh<P>,
    want: RequestView,
    o: GhOutcome,
    after: &RecordedGh<P>,
) -> bool {
    after.stepped(before, GhStep::Run(want, o))
}

/// Whether a request was made, and nothing else, and was answered: `reply` is what the run of
/// `gh` amounts to.
pub open spec fn answered<P: GhPort>(
    before: &RecordedGh<P>,
    want: RequestView,
    empty: Seq<char>,
    after: &RecordedGh<P>,
    reply: Result<Seq<char>, ErrorView>,
) -> bool {
    exists|o: GhOutcome| #[trigger] asked(before, want, o, after) && reply == gh_reply(o, empty)
}

/// Whether a JSON text was read as labels.
pub open spec fn labels_parsed<P: GhPort>(
    port: &P,
    text: &str,
    r: Result<Vec<Label>, String>,
) -> bool {
    call_ensures(P::parse_labels, (port, text), r)
}

/// Whether a JSON text was read as issues.
pub open spec fn issues_parsed<P: GhPort>(
    port: &P,
    text: &str,
    r: Result<Vec<GhIssue>, String>,
) -> bool {
    call_ensures(P::parse_issues, (port, text), r)
}

/// Whether a JSON text was read as an issue.
pub open spec fn issue_parsed<P: GhPort>(
    port: &P,
    text: &str,
    r: Result<GhIssue, String>,
) -> bool {
    call_ensures(P::parse_issue, (port, text), r)
}

/// What is made of a reply that lists labels: an error of the reply is passed on, and its text
/// is read.
pub open spec fn labels_of_reply<P: GhPort>(
    port: &P,
    reply: Result<Seq<char>, ErrorView>,
    r: TaskSourceResult<Vec<Label>>,
) -> bool {
    match reply {
        Err(e) => r is Err && r->Err_0@ == e,
        Ok(t) => exists|text: &str, read: Result<Vec<Label>, String>|
            text@ == t && #[trigger] labels_parsed(port, text, read) && r == task_source::outside_result(read),
    }
}

/// What is made of a reply that lists issues: an error of the reply is passed on, and its text
/// is read.
pub open spec fn issues_of_reply<P: GhPort>(
    port: &P,
    reply: Result<Seq<char>, ErrorView>,
    r: TaskSourceResult<Vec<GhIssue>>,
) -> bool {
    match reply {
        Err(e) => r is Err && r->Err_0@ == e,
        Ok(t) => exists|text: &str, read: Result<Vec<GhIssue>, String>|
            text@ == t && #[trigger] issues_parsed(port, text, read) && r == task_source::outside_result(read),
    }
}

/// What is made of a reply that describes an issue: an error of the reply is passed on, and
/// its text is read.
pub open spec fn issue_of_reply<P: GhPort>(
    port: &P,
    reply: Result<Seq<char>, ErrorView>,
    r: TaskSourceResult<GhIssue>,
) -> bool {
    match reply {
        Err(e) => r is Err && r->Err_0@ == e,
        Ok(t) => exists|text: &str, read: Result<GhIssue, String>|
            text@ == t && #[trigger] issue_parsed(port, text, read) && r == task_source::outside_result(read),
    }
}

/// Whether labels are what a request was answered with.
pub open spec fn labels_answered<P: GhPort>(
    before: &RecordedGh<P>,
    want: RequestView,
    after: &RecordedGh<P>,
    r: TaskSourceResult<Vec<Label>>,
) -> bool {
    exists|reply: Result<Seq<char>, ErrorView>|
        answered(before, want, "[]"@, after, reply) && #[trigger] labels_of_reply(
            &before.port(),
            reply,
            r,
        )
}

/// Whether issues are what a request was answered with.
pub open spec fn issues_answered<P: GhPort>(
    before: &RecordedGh<P>,
    want: RequestView,
    after: &RecordedGh<P>,
    r: TaskSourceResult<Vec<GhIssue>>,
) -> bool {
    exists|reply: Result<Seq<char>, ErrorView>|
        answered(before, want, "[]"@, after, reply) && #[trigger] issues_of_reply(
            &before.port(),
            reply,
            r,
        )
}

/// Whether an issue is what a request was answered with.
pub open spec fn issue_answered<P: GhPort>(
    before: &RecordedGh<P>,
    want: RequestView,
    after: &RecordedGh<P>,
    r: TaskSourceResult<GhIssue>,
) -> bool {
    exists|reply: Result<Seq<char>, ErrorView>|
        answered(before, want, "null"@, after, reply) && #[trigger] issue_of_reply(
            &before.port(),
            reply,
            r,
        )
}

/// What is left of listed issues without the pull requests.
pub open spec fn without_pull_requests(
    listed: TaskSourceResult<Vec<GhIssue>>,
    r: TaskSourceResult<Vec<GhIssue>>,
) -> bool {
    match listed {
        Ok(v) => r is Ok && r->Ok_0@ == v@.filter(no_pull_request()),
        Err(e) => r is Err && r->Err_0 == e,
    }
}

/// Whether issues without pull requests are what a request was answered with.
pub open spec fn plain_issues_answered<P: GhPort>(
    before: &RecordedGh<P>,
    want: RequestView,
    after: &RecordedGh<P>,
    r: TaskSourceResult<Vec<GhIssue>>,
) -> bool {
    exists|listed: TaskSourceResult<Vec<GhIssue>>|
        issues_answered(before, want, after, listed) && #[trigger] without_pull_requests(listed, r)
}

/// An issue that was read.
pub open spec fn some_issue(r: TaskSourceResult<GhIssue>) -> TaskSourceResult<Option<GhIssue>> {
    match r {
        Ok(i) => Ok(Some(i)),
        Err(e) => Err(e),
    }
}

/// What is made of a reply that describes an issue which may not exist: an error of the reply
/// is passed on, unless it says that there is no such issue, and its text is read.
pub open spec fn maybe_issue_of_reply<P: GhPort>(
    port: &P,
    reply: Result<Seq<char>, ErrorView>,
    r: TaskSourceResult<Option<GhIssue>>,
) -> bool {
    match found_text(reply) {
        Err(e) => r is Err && r->Err_0@ == e,
        Ok(None) => r == Ok::<Option<GhIssue>, TaskSourceError>(None),
        Ok(Some(t)) => exists|text: &str, read: Result<GhIssue, String>|
            text@ == t && #[trigger] issue_parsed(port, text, read) && r == some_issue(
                task_source::outside_result(read),
            ),
    }
}

/// Whether an issue, or that there is none, is what a request was answered with.
pub open spec fn maybe_issue_answered<P: GhPort>(
    before: &RecordedGh<P>,
    want: RequestView,
    after: &RecordedGh<P>,
    r: TaskSourceResult<Option<GhIssue>>,
) -> bool {
    exists|reply: Result<Seq<char>, ErrorView>|
        answered(before, want, "null"@, after, reply) && #[trigger] maybe_issue_of_reply(
            &before.port(),
            reply,
            r,
        )
}

/// The error that the creation of a label ended with. That the label is there already is
/// none.
pub open spec fn label_reply(reply: Result<Seq<char>, ErrorView>) -> Option<ErrorView> {
    match reply {
        Ok(_) => None,
        Err(ErrorView::Config(m)) => if text::holds_text(m, "422"@) {
            None
        } else {
            Some(ErrorView::Config(m))
        },
        Err(e) => Some(e),
    }
}

/// What the creation of a label comes to, given the error that it ended with.
pub open spec fn label_result(e: Option<ErrorView>, r: TaskSourceResult<()>) -> bool {
    match e {
        Some(e) => r is Err && r->Err_0@ == e,
        None => r is Ok,
    }
}

/// Whether the creation of a label came to the result.
pub open spec fn label_answered<P: GhPort>(
    before: &RecordedGh<P>,
    want: RequestView,
    after: &RecordedGh<P>,
    r: TaskSourceResult<()>,
) -> bool {
    exists|reply: Result<Seq<char>, ErrorView>| #[trigger]
        answered(before, want, "null"@, after, reply) && label_result(label_reply(reply), r)
}

impl GhClient {
    /// Makes a request, and gives the JSON text that it was answered with; `null` where the
    /// answer is empty.
    fn call<P: GhPort>(
        gh: &mut RecordedGh<P>,
        request: GhRequest,
    ) -> (r: TaskSourceResult<String>)
        ensures
            final(gh).port() == old(gh).port(),
            answered(old(gh), request@, "null"@, final(gh), text_result(r)),
    {
        let ghost start = *gh;
        let outcome = gh.run(&request);
        let ghost o = outcome;
        let r = call_reply(outcome);
        assert(asked(&start, request@, o, gh));
        r
    }

    /// Makes a request for a list, and gives the JSON text that it was answered with; an
    /// empty list where the answer is empty.
    fn call_paginated<P: GhPort>(
        gh: &mut RecordedGh<P>,
        request: GhRequest,
    ) -> (r: TaskSourceResult<String>)
        ensures
            final(gh).port() == old(gh).port(),
            answered(old(gh), request@, "[]"@, final(gh), text_result(r)),
    {
        let ghost start = *gh;
        let outcome = gh.run(&request);
        let ghost o = outcome;
        let r = paginated_reply(outcome);
        assert(asked(&start, request@, o, gh));
        r
    }

    /// Makes a request that is answered with an issue.
    fn call_for_issue<P: GhPort>(
        gh: &mut RecordedGh<P>,
        request: GhRequest,
    ) -> (r: TaskSourceResult<GhIssue>)
        ensures
            issue_answered(old(gh), request@, final(gh), r),
    {
        let ghost want = request@;
        let ghost start = *gh;
        let reply = GhClient::call(gh, request);
        let ghost t = text_result(reply);
        match reply {
            Err(e) => {
                let r: TaskSourceResult<GhIssue> = Err(e);
                assert(issue_of_reply(&start.port(), t, r));
                assert(issue_answered(&start, want, gh, r));
                r
            },
            Ok(text) => {
                let text = text.as_str();
                let read = gh.parse_issue(text);
                let ghost before = read;
                assert(issue_parsed(&start.port(), text, before));
                let r = from_outside(read);
                assert(issue_of_reply(&start.port(), t, r));
                assert(issue_answered(&start, want, gh, r));
                r
            },
        }
    }

    /// All labels of the repository.
    pub fn list_labels<P: GhPort>(
        &self,
        gh: &mut RecordedGh<P>,
    ) -> (r: TaskSourceResult<Vec<Label>>)
        ensures
            labels_answered(
                old(gh),
                paginated_request(self.token_text(), self.path() + "/labels?per_page=100"@),
                final(gh),
                r,
            ),
    {
        let request = self.list_labels_request();
        let ghost want = request@;
        let ghost start = *gh;
        let reply = GhClient::call_paginated(gh, request);
        let ghost t = text_result(reply);
        match reply {
            Err(e) => {
                let r: TaskSourceResult<Vec<Label>> = Err(e);
                assert(labels_of_reply(&start.port(), t, r));
                assert(labels_answered(&start, want, gh, r));
                r
            },
            Ok(text) => {
                let text = text.as_str();
                let read = gh.parse_labels(text);
                let ghost before = read;
                assert(labels_parsed(&start.port(), text, before));
                let r = from_outside(read);
                assert(labels_of_reply(&start.port(), t, r));
                assert(labels_answered(&start, want, gh, r));
                r
            },
        }
    }

    /// The issues that carry the labels and are in the state, without the pull requests that
    /// GitHub lists among them.
    pub fn list_issues<P: GhPort>(
        &self,
        gh: &mut RecordedGh<P>,
        labels: &Vec<String>,
        state: &str,
    ) -> (r: TaskSourceResult<Vec<GhIssue>>)
        ensures
            plain_issues_answered(
                old(gh),
                issues_request(
                    self.token_text(),
                    self.path(),
                    pattern::texts(labels@),
                    state@,
                ),
                final(gh),
                r,
            ),
    {
        let request = self.list_issues_request(labels, state);
        let ghost want = request@;
        let ghost start = *gh;
        let reply = GhClient::call_paginated(gh, request);
        let ghost t = text_result(reply);
        let listed: TaskSourceResult<Vec<GhIssue>> = match reply {
            Err(e) => Err(e),
            Ok(text) => {
                let text = text.as_str();
                let read = gh.parse_issues(text);
                let ghost before = read;
                assert(issues_parsed(&start.port(), text, before));
                from_outside(read)
            },
        };
        assert(issues_of_reply(&start.port(), t, listed));
        assert(issues_answered(&start, want, gh, listed));
        let ghost before = listed;
        let r: TaskSourceResult<Vec<GhIssue>> = match listed {
            Ok(v) => Ok(issues_only(v)),
            Err(e) => Err(e),
        };
        assert(without_pull_requests(before, r));
        assert(plain_issues_answered(&start, want, gh, r));
        r
    }

    /// Creates an issue.
    pub fn create_issue<P: GhPort>(
        &self,
        gh: &mut RecordedGh<P>,
        title: &str,
        body: &str,
        labels: &Vec<String>,
        assignees: &Vec<String>,
    ) -> (r: TaskSourceResult<GhIssue>)
        ensures
            issue_answered(
                old(gh),
                single_request(
                    self.token_text(),
                    "POST"@,
                    self.path() + "/issues"@,
                    Some(
                        record::record_text(
                            new_issue_fields(
                                title@,
                                body@,
                                pattern::texts(labels@),
                                pattern::texts(assignees@),
                            ),
                        ),
                    ),
                ),
                final(gh),
                r,
            ),
    {
        GhClient::call_for_issue(gh, self.create_issue_request(title, body, labels, assignees))
    }

    /// Changes an issue. Only the fields that are set are sent.
    pub fn update_issue<P: GhPort>(
        &self,
        gh: &mut RecordedGh<P>,
        number: u64,
        updates: &IssueUpdate,
    ) -> (r: TaskSourceResult<GhIssue>)
        ensures
            issue_answered(
                old(gh),
                single_request(
                    self.token_text(),
                    "PATCH"@,
                    self.path() + ("/issues/"@ + text::decimal_text(number as nat)),
                    Some(record::record_text(update_fields(updates@))),
                ),
                final(gh),
                r,
            ),
    {
        GhClient::call_for_issue(gh, self.update_issue_request(number, updates))
    }

    /// One issue; `None` where it does not exist.
    pub fn get_issue<P: GhPort>(
        &self,
        gh: &mut RecordedGh<P>,
        number: u64,
    ) -> (r: TaskSourceResult<Option<GhIssue>>)
        ensures
            maybe_issue_answered(
                old(gh),
                single_request(
                    self.token_text(),
                    "GET"@,
                    self.path() + ("/issues/"@ + text::decimal_text(number as nat)),
                    None,
                ),
                final(gh),
                r,
            ),
    {
        let request = self.get_issue_request(number);
        let ghost want = request@;
        let ghost start = *gh;
        let reply = GhClient::call(gh, request);
        let ghost t = text_result(reply);
        let r: TaskSourceResult<Option<GhIssue>> = match issue_found(reply) {
            Err(e) => Err(e),
            Ok(None) => Ok(None),
            Ok(Some(text)) => {
                let text = text.as_str();
                let read = gh.parse_issue(text);
                let ghost before = read;
                assert(issue_parsed(&start.port(), text, before));
                match from_outside(read) {
                    Ok(i) => Ok(Some(i)),
                    Err(e) => Err(e),
                }
            },
        };
        assert(maybe_issue_of_reply(&start.port(), t, r));
        assert(maybe_issue_answered(&start, want, gh, r));
        r
    }

    /// Creates a label. That it exists already is no error.
    pub fn create_label<P: GhPort>(
        &self,
        gh: &mut RecordedGh<P>,
        name: &str,
        color: &str,
        description: &str,
    ) -> (r: TaskSourceResult<()>)
        ensures
            label_answered(
                old(gh),
                single_request(
                    self.token_text(),
                    "POST"@,
                    self.path() + "/labels"@,
                    Some(record::record_text(label_fields(name@, color@, description@))),
                ),
                final(gh),
                r,
            ),
    {
        let request = self.create_label_request(name, color, description);
        let ghost want = request@;
        let ghost start = *gh;
        let reply = GhClient::call(gh, request);
        let ghost t = text_result(reply);
        let r = label_created(reply);
        assert(answered(&start, want, "null"@, gh, t) && label_result(label_reply(t), r));
        assert(label_answered(&start, want, gh, r));
        r
    }
}

} // verus!
