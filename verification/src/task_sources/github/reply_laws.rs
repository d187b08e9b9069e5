//! What requests to GitHub hold, what their replies mean, and what set-up asks for.

use crate::json;
use crate::number;
use crate::pattern;
use crate::task_source::{TaskSourceError, TaskSourceResult};
use crate::task_sources::github;
use crate::task_sources::github::api;
use crate::task_sources::github::api::{
    call_reply, extract_http_status, extract_retry_after, issue_found, issues_only, label_created,
    map_gh_error, paginated_reply, reply_with, GhClient, GhIssue, GhOutcome, GhRequest,
};
use crate::task_sources::github::config::{
    default_cache_ttl, CacheConfig, ErrorBehavior, GithubMode, GithubTaskSourceConfig,
};
use crate::task_sources::github::{
    priority_labels, resolve_token_from, status_labels, token_of_gh, GhTokenOutcome,
    GithubTaskSource, SetupAction,
};
use crate::text;
use crate::text_laws;
use crate::unicode;
use vstd::prelude::*;
use vstd::string::*;

verus! {

/// Whether an HTTP status stands at a place of a text: `HTTP`, a space and three digits.
pub open spec fn status_at(s: Seq<char>, i: int) -> bool {
    &&& 0 <= i
    &&& i + 8 <= s.len()
    &&& s[i] == 'H' && s[i + 1] == 'T' && s[i + 2] == 'T' && s[i + 3] == 'P' && s[i + 4] == ' '
    &&& unicode::decimal_digit(s[i + 5]) && unicode::decimal_digit(s[i + 6])
        && unicode::decimal_digit(s[i + 7])
}

proof fn lemma_status_head(s: Seq<char>)
    ensures
        status_at(s, 0) <==> s.len() >= 8 && "HTTP "@.is_prefix_of(s) && unicode::decimal_digit(
            s[5],
        ) && unicode::decimal_digit(s[6]) && unicode::decimal_digit(s[7]),
{
    reveal_strlit("HTTP ");
    if s.len() >= 8 {
        if "HTTP "@.is_prefix_of(s) {
            assert(s.subrange(0, 5) == "HTTP "@);
            assert(s.subrange(0, 5)[0] == s[0] && s.subrange(0, 5)[1] == s[1] && s.subrange(0, 5)[2]
                == s[2] && s.subrange(0, 5)[3] == s[3] && s.subrange(0, 5)[4] == s[4]);
        }
        if s[0] == 'H' && s[1] == 'T' && s[2] == 'T' && s[3] == 'P' && s[4] == ' ' {
            assert(s.subrange(0, 5) =~= "HTTP "@);
        }
    }
}

proof fn lemma_status_found(s: Seq<char>)
    ensures
        pattern::first_http_status(s) is None ==> forall|i: int| !#[trigger] status_at(s, i),
        pattern::first_http_status(s) matches Some(g) ==> g.len() == 2 && exists|i: int| #[trigger]
            status_at(s, i) && g[1] == s.subrange(i + 5, i + 8) && forall|j: int|
                j < i ==> !#[trigger] status_at(s, j),
    decreases s.len(),
{
    if s.len() > 0 {
        lemma_status_head(s);
        let rest = s.drop_first();
        lemma_status_found(rest);
        if status_at(s, 0) {
            let i: int = 0;
            assert(status_at(s, i) && s.subrange(i + 5, i + 8) == s.subrange(5, 8));
        } else {
            assert forall|i: int| #[trigger] status_at(s, i) implies i > 0 && status_at(
                rest,
                i - 1,
            ) by {}
            if let Some(g) = pattern::first_http_status(s) {
                let i = choose|i: int| #[trigger]
                    status_at(rest, i) && g[1] == rest.subrange(i + 5, i + 8) && forall|j: int|
                        j < i ==> !#[trigger] status_at(rest, j);
                assert(status_at(s, i + 1));
                assert(s.subrange(i + 1 + 5, i + 1 + 8) =~= rest.subrange(i + 5, i + 8));
                assert forall|j: int| j < i + 1 implies !#[trigger] status_at(s, j) by {
                    if status_at(s, j) {
                        assert(status_at(rest, j - 1));
                    }
                }
            }
        }
    }
}

/// The HTTP status of an error output is the number that the first three digits behind `HTTP`
/// and a space make; without such digits there is none.
pub proof fn first_status_counts(stderr: &str, r: Option<u16>, i: int)
    requires
        call_ensures(extract_http_status, (stderr,), r),
    ensures
        (forall|j: int| !#[trigger] status_at(stderr@, j)) ==> r is None,
        status_at(stderr@, i) && (forall|j: int| j < i ==> !#[trigger] status_at(stderr@, j)) && '0'
            <= stderr@[i + 5] <= '9' && '0' <= stderr@[i + 6] <= '9' && '0' <= stderr@[i + 7] <= '9'
            ==> r == Some(
            ((stderr@[i + 5] as u32 - 48) * 100 + (stderr@[i + 6] as u32 - 48) * 10 + (
            stderr@[i + 7] as u32 - 48)) as u16,
        ),
{
    let s = stderr@;
    lemma_status_found(s);
    if status_at(s, i) && (forall|j: int| j < i ==> !#[trigger] status_at(s, j)) {
        let g = pattern::first_http_status(s)->0;
        let k = choose|k: int| #[trigger]
            status_at(s, k) && g[1] == s.subrange(k + 5, k + 8) && forall|j: int|
                j < k ==> !#[trigger] status_at(s, j);
        assert(k == i) by {
            if k < i {
                assert(!status_at(s, k));
            }
            if i < k {
                assert(!status_at(s, i));
            }
        }
        let d = s.subrange(i + 5, i + 8);
        assert(d[0] == s[i + 5] && d[1] == s[i + 6] && d[2] == s[i + 7]);
        if '0' <= d[0] <= '9' && '0' <= d[1] <= '9' && '0' <= d[2] <= '9' {
            assert(number::unsigned_digits(d) == d);
            assert(d.drop_last().drop_last().drop_last() =~= Seq::<char>::empty());
            reveal_with_fuel(number::digits_value, 4);
            assert(number::digits_value(d) == (d[0] as u32 - 48) * 100 + (d[1] as u32 - 48) * 10 + (
            d[2] as u32 - 48));
            assert forall|j: int| 0 <= j < d.len() implies number::ascii_digit(#[trigger] d[j]) by {}
        }
    }
}

/// Whether a message ends with a text.
pub open spec fn ends_with(m: Seq<char>, s: Seq<char>) -> bool {
    exists|a: Seq<char>| m == #[trigger] (a + s)
}

/// A failed run of `gh` means what its HTTP status says: 401 and 403 that the token is refused,
/// 404 that nothing is there, 422 that the request is wrong, 429 that there were too many, to be
/// tried again after the time that is hinted at, and 500 to 599 that GitHub failed, to be tried
/// again. Any other status is an error of its own. Without a status, words about
/// authentication say that the token is refused. Every message ends with the error output.
pub proof fn statuses_mean_errors(
    stderr: &str,
    code: Option<i32>,
    status: Option<u16>,
    retry: Option<u64>,
    r: TaskSourceError,
)
    requires
        call_ensures(map_gh_error, (stderr, code), r),
        call_ensures(extract_http_status, (stderr,), status),
        call_ensures(extract_retry_after, (stderr,), retry),
    ensures
        status == Some(401u16) || status == Some(403u16) ==> r is Auth,
        status == Some(404u16) ==> r is NotFound && r->NotFound_0@ == stderr@,
        status == Some(422u16) ==> r is Config,
        status == Some(429u16) ==> r is Retryable && r->retry_after == retry,
        status matches Some(n) ==> 500 <= n <= 599 ==> r is Retryable && r->retry_after is None,
        status matches Some(n) ==> (n != 401 && n != 403 && n != 404 && n != 422 && n != 429 && !(500
            <= n <= 599) <==> r is Other),
        status is None ==> (r is Auth <==> text::holds_text(stderr@, "auth"@) || text::holds_text(
            stderr@,
            "login"@,
        ) || text::holds_text(stderr@, "token"@)),
        status is None ==> r is Auth || r is Other,
        match r {
            TaskSourceError::Retryable { source, .. } => ends_with(source@, stderr@),
            TaskSourceError::Auth(m) => ends_with(m@, stderr@),
            TaskSourceError::NotFound(m) => m@ == stderr@,
            TaskSourceError::Config(m) => ends_with(m@, stderr@) && text::holds_text(m@, "422"@),
            TaskSourceError::Other(m) => ends_with(m@, stderr@),
        },
{
    if status == Some(422u16) {
        let m = "GitHub API validation error (HTTP 422): "@ + stderr@;
        reveal_strlit("GitHub API validation error (HTTP 422): ");
        reveal_strlit("422");
        assert(m.skip(34).subrange(0, 3) =~= "422"@);
        assert("422"@.is_prefix_of(m.skip(34)));
    }
    if status is None {
        let c: int = match code {
            Some(c) => c as int,
            None => -1,
        };
        assert(("gh api failed (exit "@ + number::integer_text(c) + "): "@) + stderr@
            =~= "gh api failed (exit "@ + number::integer_text(c) + "): "@ + stderr@);
    }
}

/// A run of `gh` is an error where the program is missing, could not be run or failed, and
/// where what it printed is no JSON; else it is what was printed without the white space around
/// it, and where nothing was printed the text for that.
pub proof fn runs_mean_replies(
    o: GhOutcome,
    fault: Option<String>,
    empty: &str,
    r: TaskSourceResult<String>,
)
    requires
        call_ensures(reply_with, (o, fault, empty), r),
    ensures
        match o {
            GhOutcome::Missing => r is Err && r->Err_0 is Config && r->Err_0->Config_0@
                == "'gh' CLI not found \u{2014} install from https://cli.github.com"@,
            GhOutcome::Broken(e) => r is Err && r->Err_0 is Other && r->Err_0->Other_0@ == e@,
            GhOutcome::Finished { success, code, stdout, stderr } => if !success {
                r is Err && r->Err_0@ == api::gh_error(stderr@, code)
            } else if text_laws::blank(stdout@) {
                r is Ok && r->Ok_0@ == empty@
            } else {
                match fault {
                    Some(m) => r is Err && r->Err_0 is Other && r->Err_0->Other_0@ == m@,
                    None => r is Ok && r->Ok_0@.len() > 0 && exists|a: Seq<char>, b: Seq<char>|
                        #[trigger]
                        text_laws::core_of(r->Ok_0@, stdout@, a, b),
                }
            },
        },
{
    if let GhOutcome::Finished { success, code, stdout, stderr } = o {
        text_laws::lemma_core(stdout@);
    }
}

/// What a single request and a request for a list mean: an error where the run of `gh` is one
/// or printed what is no JSON, what was printed without the white space around it, and where
/// nothing was printed `null` and the empty list.
pub proof fn answers_are_json(
    o: GhOutcome,
    one: TaskSourceResult<String>,
    many: TaskSourceResult<String>,
)
    requires
        call_ensures(call_reply, (o,), one),
        call_ensures(paginated_reply, (o,), many),
    ensures
        match o {
            GhOutcome::Finished { success, code, stdout, stderr } => if !success {
                one is Err && many is Err
            } else if text_laws::blank(stdout@) {
                one is Ok && one->Ok_0@ == "null"@ && many is Ok && many->Ok_0@ == "[]"@
            } else if one is Ok {
                &&& many is Ok && many->Ok_0@ == one->Ok_0@
                &&& json::json_fault(one->Ok_0@) is None
                &&& exists|a: Seq<char>, b: Seq<char>| #[trigger]
                    text_laws::core_of(one->Ok_0@, stdout@, a, b)
            } else {
                many is Err && exists|t: Seq<char>, a: Seq<char>, b: Seq<char>| #[trigger]
                    text_laws::core_of(t, stdout@, a, b) && json::json_fault(t) is Some
            },
            _ => one is Err && many is Err,
        },
{
    if let GhOutcome::Finished { success, code, stdout, stderr } = o {
        text_laws::lemma_core(stdout@);
        let t = text::trimmed(stdout@);
        let (a, b) = choose|a: Seq<char>, b: Seq<char>| #[trigger]
            text_laws::core_of(t, stdout@, a, b);
        assert(text_laws::core_of(t, stdout@, a, b));
    }
}

/// Issues are listed without the pull requests among them, in order.
pub proof fn pull_requests_are_no_issues(issues: Vec<GhIssue>, r: Vec<GhIssue>)
    requires
        call_ensures(issues_only, (issues,), r),
    ensures
        r@ == issues@.filter(|i: GhIssue| i.pull_request is None),
{
    assert((|i: GhIssue| i.pull_request is None) =~= api::no_pull_request());
}

/// That an issue is not there is no error when it is asked for, and that a label is there
/// already is none when it is created; all other errors are passed on.
pub proof fn expected_errors_are_none(
    reply: TaskSourceResult<String>,
    found: TaskSourceResult<Option<String>>,
    made: TaskSourceResult<()>,
)
    requires
        call_ensures(issue_found, (reply,), found),
        call_ensures(label_created, (reply,), made),
    ensures
        match reply {
            Ok(t) => found is Ok && found->Ok_0 is Some && found->Ok_0->0@ == t@ && made is Ok,
            Err(TaskSourceError::NotFound(m)) => found is Ok && found->Ok_0 is None && made is Err,
            Err(TaskSourceError::Config(m)) => found is Err && (made is Ok <==> text::holds_text(
                m@,
                "422"@,
            )),
            Err(e) => found is Err && found->Err_0@ == e@ && made is Err && made->Err_0@ == e@,
        },
{
}

/// A token is that of the configuration, of `GITHUB_TOKEN` or of `RALPH_GITHUB_TOKEN`: the first
/// in this order that is there and not empty.
pub proof fn tokens_are_looked_for_in_order(
    config: Option<&str>,
    first: Option<&str>,
    second: Option<&str>,
    r: Option<String>,
)
    requires
        call_ensures(resolve_token_from, (config, first, second), r),
    ensures
        (config matches Some(t) && t@.len() > 0) ==> r is Some && r->0@ == config->0@,
        !(config matches Some(t) && t@.len() > 0) && (first matches Some(t) && t@.len() > 0) ==> r
            is Some && r->0@ == first->0@,
        !(config matches Some(t) && t@.len() > 0) && !(first matches Some(t) && t@.len() > 0) && (
        second matches Some(t) && t@.len() > 0) ==> r is Some && r->0@ == second->0@,
        !(config matches Some(t) && t@.len() > 0) && !(first matches Some(t) && t@.len() > 0) && !(
        second matches Some(t) && t@.len() > 0) ==> r is None,
{
}

/// What `gh auth token` prints is the token, without the white space around it; where it prints
/// nothing, fails or cannot be run there is none for want of authentication, and where it is
/// not installed for want of configuration.
pub proof fn gh_prints_the_token(o: GhTokenOutcome, r: TaskSourceResult<String>)
    requires
        call_ensures(token_of_gh, (o,), r),
    ensures
        match o {
            GhTokenOutcome::Printed(out) => if text_laws::blank(out@) {
                r is Err && r->Err_0 is Auth
            } else {
                r is Ok && r->Ok_0@.len() > 0 && exists|a: Seq<char>, b: Seq<char>| #[trigger]
                    text_laws::core_of(r->Ok_0@, out@, a, b)
            },
            GhTokenOutcome::Refused(e) => r is Err && r->Err_0 is Auth && ends_with(
                r->Err_0->Auth_0@,
                e@,
            ),
            GhTokenOutcome::Missing => r is Err && r->Err_0 is Config,
            GhTokenOutcome::Broken(e) => r is Err && r->Err_0 is Auth && ends_with(
                r->Err_0->Auth_0@,
                e@,
            ),
        },
{
    if let GhTokenOutcome::Printed(out) = o {
        text_laws::lemma_core(out@);
    }
}

/// A configuration is refused where its repository has no slash, where it wants to fall back on
/// a cache that is off, or where it wants a project and names none, and accepted otherwise. An
/// accepted one names the owner before the first slash and the repository after it.
pub proof fn configurations_are_checked(
    c: GithubTaskSourceConfig,
    r: Result<(), String>,
    parts: (String, String),
)
    requires
        call_ensures(GithubTaskSourceConfig::validate, (&c,), r),
    ensures
        r is Err <==> !c.repo@.contains('/') || (c.on_error == ErrorBehavior::UseCached
            && !c.cache.enabled) || (c.mode == GithubMode::ProjectsV2 && c.project is None),
        !c.repo@.contains('/') ==> r is Err && ends_with(r->Err_0@, c.repo@),
        r is Ok && call_ensures(GithubTaskSourceConfig::owner_repo, (&c,), parts) ==> c.repo@
            == parts.0@ + seq!['/'] + parts.1@ && !parts.0@.contains('/'),
{
    text::lemma_split_at_first(c.repo@, '/');
}

/// Set-up was done recently where it was done less than a day of 86400 seconds ago; without an
/// age it was not.
pub proof fn set_up_lasts_a_day(age: Option<(u64, u32)>, r: bool)
    requires
        call_ensures(GithubTaskSource::setup_cache_is_valid, (age,), r),
    ensures
        r <==> (age matches Some(a) && a.0 < 86400),
{
}

/// The labels of set-up are four for the states and five for the priorities, each with a name,
/// a colour and a description.
pub proof fn set_up_makes_nine_labels(
    states: Vec<(&'static str, &'static str, &'static str)>,
    priorities: Vec<(&'static str, &'static str, &'static str)>,
)
    requires
        call_ensures(status_labels, (), states),
        call_ensures(priority_labels, (), priorities),
    ensures
        states@.len() == 4,
        priorities@.len() == 5,
        states@[0].0@ == "status/todo"@ && states@[0].1@ == "0e8a16"@ && states@[0].2@
            == "Ralph: task is open"@,
        states@[1].0@ == "status/in-progress"@ && states@[1].1@ == "fbca04"@ && states@[1].2@
            == "Ralph: task in progress"@,
        states@[2].0@ == "status/done"@ && states@[2].1@ == "6f42c1"@ && states@[2].2@
            == "Ralph: task completed"@,
        states@[3].0@ == "status/failed"@ && states@[3].1@ == "d93f0b"@ && states@[3].2@
            == "Ralph: task failed"@,
        priorities@[0].0@ == "priority/1"@ && priorities@[0].1@ == "b60205"@ && priorities@[0].2@
            == "Ralph: highest priority"@,
        priorities@[1].0@ == "priority/2"@ && priorities@[1].1@ == "d93f0b"@ && priorities@[1].2@
            == "Ralph: high priority"@,
        priorities@[2].0@ == "priority/3"@ && priorities@[2].1@ == "e99695"@ && priorities@[2].2@
            == "Ralph: medium priority"@,
        priorities@[3].0@ == "priority/4"@ && priorities@[3].1@ == "c2e0c6"@ && priorities@[3].2@
            == "Ralph: low priority"@,
        priorities@[4].0@ == "priority/5"@ && priorities@[4].1@ == "0e8a16"@ && priorities@[4].2@
            == "Ralph: lowest priority"@,
{
    let s = github::definitions(states@);
    let p = github::definitions(priorities@);
    assert(s.len() == states@.len() && p.len() == priorities@.len());
    assert(s[0].0 == states@[0].0@ && s[1].0 == states@[1].0@ && s[2].0 == states@[2].0@ && s[3].0
        == states@[3].0@);
    assert(p[0].0 == priorities@[0].0@ && p[1].0 == priorities@[1].0@ && p[2].0
        == priorities@[2].0@ && p[3].0 == priorities@[3].0@ && p[4].0 == priorities@[4].0@);
}

/// A refresh asks for the issues with the labels of the four states.
pub proof fn refresh_asks_for_the_states(s: GithubTaskSource, r: Vec<String>)
    requires
        call_ensures(GithubTaskSource::refresh_labels, (&s,), r),
    ensures
        r@.len() == 4,
        r@[0]@ == "status/todo"@,
        r@[1]@ == "status/in-progress"@,
        r@[2]@ == "status/done"@,
        r@[3]@ == "status/failed"@,
{
    let t = pattern::texts(r@);
    assert(t.len() == r@.len());
    assert(t[0] == r@[0]@ && t[1] == r@[1]@ && t[2] == r@[2]@ && t[3] == r@[3]@);
}

/// The path of a client's repository in the API.
pub open spec fn path_of(c: GhClient) -> Seq<char> {
    "/repos/"@ + c.owner_text() + "/"@ + c.repo_text()
}

/// Whether a request hands the token of the client over in the environment, without colours.
pub open spec fn carries_token(q: GhRequest, c: GhClient) -> bool {
    &&& q.env@.len() == 2
    &&& q.env@[0].0@ == "GH_TOKEN"@ && q.env@[0].1@ == c.token_text()
    &&& q.env@[1].0@ == "NO_COLOR"@ && q.env@[1].1@ == "1"@
}

/// Whether a request is a single call of the API: the method, the endpoint, and the body on
/// standard input where there is one.
pub open spec fn is_call(
    q: GhRequest,
    c: GhClient,
    method: Seq<char>,
    endpoint: Seq<char>,
    with_body: bool,
) -> bool {
    &&& carries_token(q, c)
    &&& pattern::texts(q.args@) == if with_body {
        seq!["api"@, "--method"@, method, endpoint, "--input"@, "-"@]
    } else {
        seq!["api"@, "--method"@, method, endpoint]
    }
    &&& q.input is Some <==> with_body
}

/// Whether a request is for all pages of a list.
pub open spec fn is_listing(q: GhRequest, c: GhClient, endpoint: Seq<char>) -> bool {
    &&& carries_token(q, c)
    &&& pattern::texts(q.args@) == seq!["api"@, "--paginate"@, "--method"@, "GET"@, endpoint]
    &&& q.input is None
}

proof fn lemma_env(q: GhRequest, c: GhClient)
    requires
        q@.env == api::request_env(c.token_text()),
    ensures
        carries_token(q, c),
{
    let e = json::member_texts(q.env@);
    assert(e.len() == q.env@.len());
    assert(e[0] == (q.env@[0].0@, q.env@[0].1@) && e[1] == (q.env@[1].0@, q.env@[1].1@));
}

proof fn lemma_call(
    q: GhRequest,
    c: GhClient,
    method: Seq<char>,
    endpoint: Seq<char>,
    body: Option<Seq<char>>,
)
    requires
        q@ == api::single_request(c.token_text(), method, endpoint, body),
    ensures
        is_call(q, c, method, endpoint, body is Some),
        body matches Some(b) ==> q.input->0@ == b,
{
    lemma_env(q, c);
    assert(q@.input == json::opt_text(q.input));
    if body is Some {
        assert(q@.args =~= seq!["api"@, "--method"@, method, endpoint, "--input"@, "-"@]);
    } else {
        assert(q@.args =~= seq!["api"@, "--method"@, method, endpoint]);
    }
}

/// The requests of a client: all labels, all issues with given labels and state from the oldest
/// on, a new issue, a changed issue, an issue by its number, and a new label.
pub proof fn clients_ask_the_api(
    c: GhClient,
    labels: Vec<String>,
    state: &str,
    number: u64,
    title: &str,
    body: &str,
    assignees: Vec<String>,
    updates: api::IssueUpdate,
    q: GhRequest,
)
    ensures
        call_ensures(GhClient::list_labels_request, (&c,), q) ==> is_listing(
            q,
            c,
            path_of(c) + "/labels?per_page=100"@,
        ),
        call_ensures(GhClient::list_issues_request, (&c, &labels, state), q) ==> is_listing(
            q,
            c,
            path_of(c) + ("/issues?labels="@ + text::joined(pattern::texts(labels@), ","@)
                + "&state="@ + state@ + "&per_page=100&sort=created&direction=asc"@),
        ),
        call_ensures(GhClient::create_issue_request, (&c, title, body, &labels, &assignees), q)
            ==> is_call(q, c, "POST"@, path_of(c) + "/issues"@, true),
        call_ensures(GhClient::update_issue_request, (&c, number, &updates), q) ==> is_call(
            q,
            c,
            "PATCH"@,
            path_of(c) + ("/issues/"@ + text::decimal_text(number as nat)),
            true,
        ),
        call_ensures(GhClient::get_issue_request, (&c, number), q) ==> is_call(
            q,
            c,
            "GET"@,
            path_of(c) + ("/issues/"@ + text::decimal_text(number as nat)),
            false,
        ),
        call_ensures(GhClient::create_label_request, (&c, title, state, body), q) ==> is_call(
            q,
            c,
            "POST"@,
            path_of(c) + "/labels"@,
            true,
        ),
{
    if call_ensures(GhClient::list_labels_request, (&c,), q) {
        lemma_env(q, c);
        assert(q@.input == json::opt_text(q.input));
    }
    if call_ensures(GhClient::list_issues_request, (&c, &labels, state), q) {
        lemma_env(q, c);
        assert(q@.input == json::opt_text(q.input));
    }
    if call_ensures(GhClient::create_issue_request, (&c, title, body, &labels, &assignees), q) {
        lemma_call(q, c, "POST"@, path_of(c) + "/issues"@, q@.input);
    }
    if call_ensures(GhClient::update_issue_request, (&c, number, &updates), q) {
        lemma_call(
            q,
            c,
            "PATCH"@,
            path_of(c) + ("/issues/"@ + text::decimal_text(number as nat)),
            q@.input,
        );
    }
    if call_ensures(GhClient::get_issue_request, (&c, number), q) {
        lemma_call(
            q,
            c,
            "GET"@,
            path_of(c) + ("/issues/"@ + text::decimal_text(number as nat)),
            None,
        );
    }
    if call_ensures(GhClient::create_label_request, (&c, title, state, body), q) {
        lemma_call(q, c, "POST"@, path_of(c) + "/labels"@, q@.input);
    }
}

/// A JSON object with the members, each a name and the text of its value, with commas between.
pub open spec fn object_of(ms: Seq<(Seq<char>, Seq<char>)>) -> Seq<char> {
    seq!['{'] + text::joined(
        ms.map_values(|m: (Seq<char>, Seq<char>)| json::json_string_text(m.0) + seq![':'] + m.1),
        seq![','],
    ) + seq!['}']
}

pub(crate) proof fn lemma_object(ms: Seq<(Seq<char>, Seq<char>)>)
    ensures
        crate::record::record_text(ms) == object_of(ms),
{
    lemma_object_body(ms);
}

proof fn lemma_object_body(ms: Seq<(Seq<char>, Seq<char>)>)
    ensures
        crate::record::record_body(ms) == text::joined(
            ms.map_values(
                |m: (Seq<char>, Seq<char>)| json::json_string_text(m.0) + seq![':'] + m.1,
            ),
            seq![','],
        ),
    decreases ms.len(),
{
    let f = |m: (Seq<char>, Seq<char>)| json::json_string_text(m.0) + seq![':'] + m.1;
    let v = ms.map_values(f);
    if ms.len() == 0 {
        assert(crate::record::record_body(ms) =~= text::joined(v, seq![',']));
    } else if ms.len() == 1 {
        assert(v[0] == crate::record::member_text(ms[0]));
    } else {
        lemma_object_body(ms.drop_last());
        assert(v.drop_last() =~= ms.drop_last().map_values(f));
        assert(v.last() == crate::record::member_text(ms.last()));
    }
}

/// A member of a request, where there is a text for it.
pub open spec fn member_if(name: Seq<char>, v: Option<Seq<char>>) -> Seq<(Seq<char>, Seq<char>)> {
    if v is Some {
        seq![(name, v->0)]
    } else {
        seq![]
    }
}

/// The JSON of an optional string.
pub open spec fn json_of(s: Option<String>) -> Option<Seq<char>> {
    if s is Some {
        Some(json::json_string_text(s->0@))
    } else {
        None
    }
}

/// The JSON of an optional list.
pub open spec fn json_list_of(v: Option<Vec<String>>) -> Option<Seq<char>> {
    if v is Some {
        Some(json::json_list_text(pattern::texts(v->0@)))
    } else {
        None
    }
}

/// An update is sent as a JSON object with the fields that are set, and no others; a new label
/// as one with its colour, description and name; a new issue as one with its body, labels and
/// title, and its assignees where it has any.
pub proof fn requests_send_their_fields(
    c: GhClient,
    updates: api::IssueUpdate,
    sent: String,
    name: &str,
    color: &str,
    description: &str,
    label: GhRequest,
    labels: Vec<String>,
    assignees: Vec<String>,
    issue: GhRequest,
)
    requires
        call_ensures(api::IssueUpdate::to_json, (&updates,), sent),
        call_ensures(GhClient::create_label_request, (&c, name, color, description), label),
        call_ensures(
            GhClient::create_issue_request,
            (&c, name, description, &labels, &assignees),
            issue,
        ),
    ensures
        sent@ == object_of(
            member_if("assignees"@, json_list_of(updates.assignees)) + member_if(
                "body"@,
                json_of(updates.body),
            ) + member_if("labels"@, json_list_of(updates.labels)) + member_if(
                "state"@,
                json_of(updates.state),
            ) + member_if("title"@, json_of(updates.title)),
        ),
        label.input is Some && label.input->0@ == object_of(
            seq![
                ("color"@, json::json_string_text(color@)),
                ("description"@, json::json_string_text(description@)),
                ("name"@, json::json_string_text(name@)),
            ],
        ),
        issue.input is Some && issue.input->0@ == object_of(
            member_if(
                "assignees"@,
                if assignees@.len() > 0 {
                    Some(json::json_list_text(pattern::texts(assignees@)))
                } else {
                    None
                },
            ) + seq![
                ("body"@, json::json_string_text(description@)),
                ("labels"@, json::json_list_text(pattern::texts(labels@))),
                ("title"@, json::json_string_text(name@)),
            ],
        ),
{
    let u = api::update_fields(updates@);
    lemma_object(u);
    assert(u =~= member_if("assignees"@, json_list_of(updates.assignees)) + member_if(
        "body"@,
        json_of(updates.body),
    ) + member_if("labels"@, json_list_of(updates.labels)) + member_if(
        "state"@,
        json_of(updates.state),
    ) + member_if("title"@, json_of(updates.title)));
    let l = api::label_fields(name@, color@, description@);
    lemma_object(l);
    assert(l =~= seq![
        ("color"@, json::json_string_text(color@)),
        ("description"@, json::json_string_text(description@)),
        ("name"@, json::json_string_text(name@)),
    ]);
    assert(label@.input == json::opt_text(label.input));
    let n = api::new_issue_fields(
        name@,
        description@,
        pattern::texts(labels@),
        pattern::texts(assignees@),
    );
    lemma_object(n);
    assert(pattern::texts(assignees@).len() == assignees@.len());
    assert(n =~= member_if(
        "assignees"@,
        if assignees@.len() > 0 {
            Some(json::json_list_text(pattern::texts(assignees@)))
        } else {
            None
        },
    ) + seq![
        ("body"@, json::json_string_text(description@)),
        ("labels"@, json::json_list_text(pattern::texts(labels@))),
        ("title"@, json::json_string_text(name@)),
    ]);
    assert(issue@.input == json::opt_text(issue.input));
}

/// Whether a word in small letters stands at a place of a text, in letters of either case.
pub open spec fn spelled_at(s: Seq<char>, i: int, word: Seq<char>) -> bool {
    &&& 0 <= i
    &&& i + word.len() <= s.len()
    &&& forall|k: int|
        0 <= k < word.len() ==> (#[trigger] word[k] == s[i + k] || word[k] as u32 == s[i + k] as u32
            + 32)
}

proof fn lemma_run(a: Seq<char>, rest: Seq<char>, class: spec_fn(char) -> bool)
    requires
        forall|i: int| 0 <= i < a.len() ==> class(#[trigger] a[i]),
        rest.len() > 0 ==> !class(rest[0]),
    ensures
        pattern::run(a + rest, class) == a.len(),
    decreases a.len(),
{
    if a.len() == 0 {
        assert(a + rest =~= rest);
    } else {
        let x = a.drop_first();
        assert forall|i: int| 0 <= i < x.len() implies class(#[trigger] x[i]) by {
            assert(x[i] == a[i + 1]);
        }
        lemma_run(x, rest, class);
        assert((a + rest).drop_first() =~= x + rest);
        assert((a + rest)[0] == a[0]);
    }
}

/// The time to wait is the number behind the first hint: `retry` and `after` in letters of
/// either case with a character between them, and colons or white space before the number.
pub proof fn retry_hints_name_seconds(
    stderr: &str,
    r: Option<u64>,
    a: Seq<char>,
    words: Seq<char>,
    sep: Seq<char>,
    n: u64,
    b: Seq<char>,
)
    requires
        call_ensures(extract_retry_after, (stderr,), r),
        stderr@ == a + (words + sep + text::decimal_text(n as nat) + b),
        forall|i: int| 0 <= i < a.len() ==> #[trigger] a[i] != 'r' && a[i] != 'R',
        words.len() == 11,
        spelled_at(words, 0, "retry"@),
        words[5] != '\n',
        spelled_at(words, 6, "after"@),
        sep.len() > 0,
        forall|i: int|
            0 <= i < sep.len() ==> (#[trigger] sep[i] == ':' || unicode::white_space(sep[i])),
        b.len() > 0 ==> !unicode::decimal_digit(b[0]),
    ensures
        r == Some(n),
{
    let d = text::decimal_text(n as nat);
    let t = words + sep + d + b;
    text_laws::lemma_decimal_value(n as nat);
    reveal_strlit("retry");
    reveal_strlit("after");
    let separator = |c: char| pattern::retry_separator(c);
    let digit = |c: char| unicode::decimal_digit(c);
    assert forall|i: int| 0 <= i < d.len() implies digit(#[trigger] d[i]) && !separator(d[i]) by {
        assert(number::ascii_digit(d[i]));
        unicode::lemma_decimal_digit(d[i]);
    }
    assert(t.skip(11) =~= sep + (d + b));
    assert(d[0] == (d + b)[0]);
    lemma_run(sep, d + b, separator);
    let from = 11 + sep.len() as int;
    assert(t.skip(from) =~= d + b);
    lemma_run(d, b, digit);
    let to = from + d.len();
    assert forall|i: int| 0 <= i < 5 implies pattern::either_case(#[trigger] t[i], "retry"@[i]) by {
        assert(t[i] == words[0 + i]);
        assert("retry"@[i] == words[0 + i] || "retry"@[i] as u32 == words[0 + i] as u32 + 32);
    }
    assert(pattern::begins_with_word(t, "retry"@));
    assert forall|i: int| 0 <= i < 5 implies pattern::either_case(
        #[trigger] t.skip(6)[i],
        "after"@[i],
    ) by {
        assert(t.skip(6)[i] == words[6 + i]);
        assert("after"@[i] == words[6 + i] || "after"@[i] as u32 == words[6 + i] as u32 + 32);
    }
    assert(pattern::begins_with_word(t.skip(6), "after"@));
    assert(t[5] == words[5]);
    assert(pattern::retry_hint_at_head(t) == Some((from, to)));
    assert(t.subrange(from, to) =~= d);
    lemma_hint_behind(a, t);
    assert(pattern::first_retry_hint(stderr@) == pattern::first_retry_hint(t));
    assert(number::ascii_digit(d[0]));
    assert(number::unsigned_digits(d) == d);
}

proof fn lemma_capital(c: char)
    ensures
        c as u32 == 'r' as u32 - 0x20 ==> c == 'R',
{
}

proof fn lemma_hint_behind(a: Seq<char>, t: Seq<char>)
    requires
        forall|i: int| 0 <= i < a.len() ==> #[trigger] a[i] != 'r' && a[i] != 'R',
    ensures
        pattern::first_retry_hint(a + t) == pattern::first_retry_hint(t),
    decreases a.len(),
{
    reveal_strlit("retry");
    if a.len() == 0 {
        assert(a + t =~= t);
    } else {
        let s = a + t;
        let x = a.drop_first();
        assert forall|i: int| 0 <= i < x.len() implies #[trigger] x[i] != 'r' && x[i] != 'R' by {
            assert(x[i] == a[i + 1]);
        }
        assert(s[0] == a[0]);
        assert(a[0] != 'r' && a[0] != 'R');
        if pattern::begins_with_word(s, "retry"@) {
            assert("retry"@[0] == 'r');
            assert(pattern::either_case(s[0], "retry"@[0]));
            lemma_capital(a[0]);
        }
        lemma_hint_behind(x, t);
        assert(s.drop_first() =~= x + t);
    }
}

/// The file that says when set-up was last done lies below the workspace.
pub proof fn the_set_up_marker_lies_in_the_workspace(s: GithubTaskSource, r: String)
    requires
        call_ensures(GithubTaskSource::setup_cache_path, (&s,), r),
    ensures
        r@ == (if s.root().len() == 0 || s.root().last() == '/' {
            s.root()
        } else {
            s.root() + seq!['/']
        }) + ".ralph/.github-setup-done"@,
{
}

/// The GitHub source refuses every change, by the name of the change, and changes nothing.
pub proof fn github_sources_refuse_changes(
    s: &mut GithubTaskSource,
    id: &str,
    t: crate::task::Task,
    done: TaskSourceResult<Option<crate::task::Task>>,
    made: TaskSourceResult<crate::task::Task>,
)
    ensures
        call_ensures(GithubTaskSource::add, (s, t), made) ==> *final(s) == *old(s) && made is Err
            && made->Err_0 is Config && made->Err_0->Config_0@ == "GitHub "@ + "add"@
            + " not yet implemented"@,
        call_ensures(GithubTaskSource::ensure, (s, t), made) ==> *final(s) == *old(s) && made is Err
            && made->Err_0 is Config && made->Err_0->Config_0@ == "GitHub "@ + "ensure"@
            + " not yet implemented"@,
        call_ensures(GithubTaskSource::close, (s, id), done) ==> *final(s) == *old(s) && done is Err
            && done->Err_0 is Config && done->Err_0->Config_0@ == "GitHub "@ + "close"@
            + " not yet implemented"@,
        call_ensures(GithubTaskSource::start, (s, id), done) ==> *final(s) == *old(s) && done is Err
            && done->Err_0 is Config && done->Err_0->Config_0@ == "GitHub "@ + "start"@
            + " not yet implemented"@,
        call_ensures(GithubTaskSource::fail, (s, id), done) ==> *final(s) == *old(s) && done is Err
            && done->Err_0 is Config && done->Err_0->Config_0@ == "GitHub "@ + "fail"@
            + " not yet implemented"@,
        call_ensures(GithubTaskSource::reopen, (s, id), done) ==> *final(s) == *old(s) && done
            is Err && done->Err_0 is Config && done->Err_0->Config_0@ == "GitHub "@ + "reopen"@
            + " not yet implemented"@,
{
}

/// Set-up goes on behind a label exactly where its creation came to no error, and ends with the
/// error where it came to one. Behind the ninth label it notes that it is done.
pub proof fn set_up_goes_on_without_errors(
    s: GithubTaskSource,
    place: usize,
    o: GhOutcome,
    reply: TaskSourceResult<String>,
    made: TaskSourceResult<()>,
    r: SetupAction,
)
    requires
        place < 9,
        call_ensures(call_reply, (o,), reply),
        call_ensures(label_created, (reply,), made),
        call_ensures(GithubTaskSource::setup_next, (&s, place, o), r),
    ensures
        github::label_reply(o) is None <==> made is Ok,
        made is Err ==> r is Stop && r->Stop_0@ == made->Err_0@,
        made is Ok && place < 8 ==> r is Create,
        made is Ok && place == 8 ==> r is WriteCache,
{
    assert(github::all_labels().len() == 9);
}

/// Set-up begins with nothing where it was done less than a day ago, and else with a label.
pub proof fn set_up_begins_by_age(s: GithubTaskSource, age: Option<(u64, u32)>, r: SetupAction)
    requires
        call_ensures(GithubTaskSource::setup_start, (&s, age), r),
    ensures
        (age matches Some(a) && a.0 < 86400) ==> r is Skip,
        !(age matches Some(a) && a.0 < 86400) ==> r is Create,
{
}

/// The messages of errors say what happened, the status or the exit code where there is one, and
/// repeat the error output. Where `gh` gave no exit code it counts as -1.
pub proof fn error_messages_say_what_happened(
    stderr: &str,
    code: Option<i32>,
    status: Option<u16>,
    r: TaskSourceError,
)
    requires
        call_ensures(map_gh_error, (stderr, code), r),
        call_ensures(extract_http_status, (stderr,), status),
    ensures
        match (r, status) {
            (TaskSourceError::Auth(m), Some(n)) => m@ == "GitHub API auth failed (HTTP "@
                + text::decimal_text(n as nat) + "): "@ + stderr@,
            (TaskSourceError::Auth(m), None) => m@ == "GitHub auth issue: "@ + stderr@,
            (TaskSourceError::NotFound(m), _) => m@ == stderr@,
            (TaskSourceError::Config(m), _) => m@ == "GitHub API validation error (HTTP 422): "@
                + stderr@,
            (TaskSourceError::Retryable { source, .. }, Some(n)) => if n == 429 {
                source@ == "rate limited: "@ + stderr@
            } else {
                source@ == "server error (HTTP "@ + text::decimal_text(n as nat) + "): "@ + stderr@
            },
            (TaskSourceError::Retryable { source, .. }, None) => false,
            (TaskSourceError::Other(m), Some(n)) => m@ == "GitHub API error (HTTP "@
                + text::decimal_text(n as nat) + "): "@ + stderr@,
            (TaskSourceError::Other(m), None) => m@ == "gh api failed (exit "@
                + number::integer_text(
                if code is Some {
                    code->0 as int
                } else {
                    -1
                },
            ) + "): "@ + stderr@,
        },
{
}

/// What is wrong with a configuration is said in words, the first complaint alone.
pub proof fn complaints_are_said_in_words(c: GithubTaskSourceConfig, r: Result<(), String>)
    requires
        call_ensures(GithubTaskSourceConfig::validate, (&c,), r),
    ensures
        !c.repo@.contains('/') ==> r is Err && r->Err_0@
            == "repo must be in 'owner/repo' format, got: "@ + c.repo@,
        c.repo@.contains('/') && c.on_error == ErrorBehavior::UseCached && !c.cache.enabled ==> r
            is Err && r->Err_0@ == "on_error: use-cached requires cache.enabled: true"@,
        c.repo@.contains('/') && !(c.on_error == ErrorBehavior::UseCached && !c.cache.enabled)
            && c.mode == GithubMode::ProjectsV2 && c.project is None ==> r is Err && r->Err_0@
            == "projects-v2 mode requires project config"@,
{
}

/// Why `gh auth token` gave no token, and that `gh` is missing, is said in words.
pub proof fn missing_tokens_are_explained(o: GhTokenOutcome, r: TaskSourceResult<String>)
    requires
        call_ensures(token_of_gh, (o,), r),
        r is Err,
    ensures
        match o {
            GhTokenOutcome::Printed(_) => r->Err_0 is Auth && r->Err_0->Auth_0@
                == "gh auth token returned empty"@,
            GhTokenOutcome::Refused(e) => r->Err_0 is Auth && r->Err_0->Auth_0@
                == "gh auth token failed: "@ + e@,
            GhTokenOutcome::Missing => r->Err_0 is Config && r->Err_0->Config_0@
                == "no GitHub token found: set config.token, GITHUB_TOKEN, RALPH_GITHUB_TOKEN, or install gh CLI"@,
            GhTokenOutcome::Broken(e) => r->Err_0 is Auth && r->Err_0->Auth_0@
                == "failed to run gh auth token: "@ + e@,
        },
{
}

/// Where nothing is configured, issues are mapped by labels, nothing is cached, a cache would
/// stay valid for a minute, and an API that cannot be reached is an error.
pub proof fn usual_settings(
    mode: GithubMode,
    cache: CacheConfig,
    ttl: u64,
    on_error: ErrorBehavior,
)
    requires
        call_ensures(GithubMode::default, (), mode),
        call_ensures(CacheConfig::default, (), cache),
        call_ensures(default_cache_ttl, (), ttl),
        call_ensures(ErrorBehavior::default, (), on_error),
    ensures
        mode == GithubMode::Simple,
        !cache.enabled,
        cache.ttl_seconds == 60,
        ttl == 60,
        on_error == ErrorBehavior::Fail,
{
}

} // verus!
