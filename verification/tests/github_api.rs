//! Requests to the GitHub API and what their replies mean.

use ralph_tasks::task_source::{from_outside, TaskSourceError};
use ralph_tasks::task_sources::github::api::{
    call_reply, extract_http_status, extract_retry_after, issue_found, issues_only,
    label_created, map_gh_error, paginated_reply, reply_with, GhClient, GhIssue, GhOutcome,
    IssueUpdate, Label,
};
use std::time::Duration;

#[test]
fn map_gh_error_401() {
    let err = map_gh_error("gh: authentication required (HTTP 401)", Some(1));
    assert!(matches!(err, TaskSourceError::Auth(_)));
    assert!(err.to_string().contains("401"));
}

#[test]
fn map_gh_error_403() {
    let err = map_gh_error("gh: Resource not accessible (HTTP 403)", Some(1));
    assert!(matches!(err, TaskSourceError::Auth(_)));
    assert!(err.to_string().contains("403"));
}

#[test]
fn map_gh_error_404() {
    let err = map_gh_error("gh: Not Found (HTTP 404)", Some(1));
    assert!(matches!(err, TaskSourceError::NotFound(_)));
}

#[test]
fn map_gh_error_422() {
    let err = map_gh_error("gh: Validation Failed (HTTP 422)", Some(1));
    assert!(matches!(err, TaskSourceError::Config(_)));
    assert!(err.to_string().contains("422"));
}

#[test]
fn map_gh_error_429_with_retry_after() {
    let err = map_gh_error(
        "gh: rate limit exceeded (HTTP 429) retry after 30 seconds",
        Some(1),
    );
    match err {
        TaskSourceError::Retryable {
            retry_after,
            source: _,
        } => {
            assert_eq!(
                retry_after.map(Duration::from_secs),
                Some(Duration::from_secs(30))
            );
        }
        other => panic!("expected Retryable, got: {other:?}"),
    }
}

#[test]
fn map_gh_error_500() {
    let err = map_gh_error("gh: Internal Server Error (HTTP 500)", Some(1));
    match err {
        TaskSourceError::Retryable {
            retry_after,
            source: _,
        } => {
            assert!(retry_after.is_none());
        }
        other => panic!("expected Retryable, got: {other:?}"),
    }
}

#[test]
fn map_gh_error_auth_keywords() {
    for keyword in &["auth", "login", "token"] {
        let stderr = format!("failed to {keyword}: something went wrong");
        let err = map_gh_error(&stderr, Some(1));
        assert!(
            matches!(err, TaskSourceError::Auth(_)),
            "expected Auth for keyword '{keyword}', got: {err:?}"
        );
    }
}

#[test]
fn map_gh_error_unknown() {
    let err = map_gh_error("something unexpected happened", Some(42));
    assert!(matches!(err, TaskSourceError::Other(_)));
    assert!(err.to_string().contains("exit 42"));
}

#[test]
fn extract_http_status_various_patterns() {
    assert_eq!(extract_http_status("HTTP 404"), Some(404));
    assert_eq!(extract_http_status("(HTTP 401)"), Some(401));
    assert_eq!(extract_http_status("gh: Not Found (HTTP 404)"), Some(404));
    assert_eq!(extract_http_status("no status here"), None);
    assert_eq!(extract_http_status(""), None);
}

#[test]
fn extract_retry_after_various_patterns() {
    assert_eq!(
        extract_retry_after("retry after 60 seconds").map(Duration::from_secs),
        Some(Duration::from_secs(60))
    );
    assert_eq!(
        extract_retry_after("Retry-After: 30").map(Duration::from_secs),
        Some(Duration::from_secs(30))
    );
    assert_eq!(extract_retry_after("no retry info"), None);
}

#[test]
fn issue_update_to_json_full() {
    let update = IssueUpdate {
        title: Some("New title".into()),
        body: Some("New body".into()),
        state: Some("closed".into()),
        labels: Some(vec!["bug".into(), "urgent".into()]),
        assignees: Some(vec!["alice".into()]),
    };
    let json: serde_json::Value = serde_json::from_str(&update.to_json()).unwrap();
    assert_eq!(json["title"], "New title");
    assert_eq!(json["body"], "New body");
    assert_eq!(json["state"], "closed");
    assert_eq!(json["labels"], serde_json::Value::from(vec!["bug", "urgent"]));
    assert_eq!(json["assignees"], serde_json::Value::from(vec!["alice"]));
}

#[test]
fn issue_update_to_json_partial() {
    let update = IssueUpdate {
        labels: Some(vec!["status/done".into()]),
        ..Default::default()
    };
    let json: serde_json::Value = serde_json::from_str(&update.to_json()).unwrap();
    let obj = json.as_object().unwrap();
    assert_eq!(obj.len(), 1);
    assert_eq!(json["labels"], serde_json::Value::from(vec!["status/done"]));
}

#[test]
fn issue_update_to_json_empty() {
    let update = IssueUpdate::default();
    let json: serde_json::Value = serde_json::from_str(&update.to_json()).unwrap();
    let obj = json.as_object().unwrap();
    assert!(obj.is_empty());
}

#[test]
fn update_text_is_what_a_json_map_gives() {
    let update = IssueUpdate {
        title: Some("T\"".into()),
        body: Some("b\n".into()),
        state: Some("open".into()),
        labels: Some(vec![]),
        assignees: Some(vec!["x".into(), "y".into()]),
    };
    let mut map = serde_json::Map::new();
    map.insert("title".into(), "T\"".into());
    map.insert("body".into(), "b\n".into());
    map.insert("state".into(), "open".into());
    map.insert("labels".into(), serde_json::Value::Array(vec![]));
    map.insert("assignees".into(), serde_json::Value::from(vec!["x", "y"]));
    assert_eq!(update.to_json(), serde_json::to_string(&map).unwrap());
}

fn issue(number: u64, title: &str, pull_request: Option<&str>) -> GhIssue {
    GhIssue {
        number,
        title: title.to_string(),
        body: None,
        state: "open".to_string(),
        labels: vec![],
        created_at: "2026-01-01T00:00:00Z".to_string(),
        closed_at: None,
        assignees: vec![],
        milestone: None,
        pull_request: pull_request.map(String::from),
    }
}

#[test]
fn list_issues_pr_filter_logic() {
    let issue1 = issue(1, "A real issue", None);
    let pr = issue(
        2,
        "A pull request",
        Some("{\"url\":\"https://api.github.com/repos/o/r/pulls/2\"}"),
    );
    let mut issue3 = issue(3, "Another issue", None);
    issue3.state = "closed".to_string();
    issue3.created_at = "2026-01-02T00:00:00Z".to_string();
    issue3.labels.push(Label {
        name: "bug".to_string(),
        color: "d73a4a".to_string(),
        description: None,
    });
    let filtered = issues_only(vec![issue1, pr, issue3]);
    assert_eq!(filtered.len(), 2);
    assert_eq!(filtered[0].number, 1);
    assert_eq!(filtered[1].number, 3);
}

#[test]
fn error_texts_are_exact() {
    let e = map_gh_error("x (HTTP 401)", None);
    assert_eq!(
        e,
        TaskSourceError::Auth("GitHub API auth failed (HTTP 401): x (HTTP 401)".into())
    );
    let e = map_gh_error("x (HTTP 404)", None);
    assert_eq!(e, TaskSourceError::NotFound("x (HTTP 404)".into()));
    let e = map_gh_error("x (HTTP 422)", None);
    assert_eq!(
        e,
        TaskSourceError::Config("GitHub API validation error (HTTP 422): x (HTTP 422)".into())
    );
    let e = map_gh_error("x (HTTP 429)", None);
    assert_eq!(
        e,
        TaskSourceError::Retryable {
            source: "rate limited: x (HTTP 429)".into(),
            retry_after: None
        }
    );
    let e = map_gh_error("x (HTTP 599)", None);
    assert_eq!(
        e,
        TaskSourceError::Retryable {
            source: "server error (HTTP 599): x (HTTP 599)".into(),
            retry_after: None
        }
    );
    let e = map_gh_error("HTTP 418", None);
    assert_eq!(
        e,
        TaskSourceError::Other("GitHub API error (HTTP 418): HTTP 418".into())
    );
    let e = map_gh_error("boom", None);
    assert_eq!(e, TaskSourceError::Other("gh api failed (exit -1): boom".into()));
    let e = map_gh_error("login", Some(4));
    assert_eq!(e, TaskSourceError::Auth("GitHub auth issue: login".into()));
}

#[test]
fn status_digits_beyond_ascii_do_not_count() {
    assert_eq!(extract_http_status("HTTP \u{664}\u{660}\u{664}"), None);
    assert_eq!(extract_http_status("HTTP 40 HTTP 405"), Some(405));
    assert_eq!(extract_http_status("HTTP 4040"), Some(404));
}

#[test]
fn retry_hints_in_any_case_and_with_any_separator() {
    assert_eq!(extract_retry_after("RETRY_AFTER \t: 7"), Some(7));
    assert_eq!(extract_retry_after("retry\nafter 7"), None);
    assert_eq!(extract_retry_after("retry after99"), None);
    assert_eq!(extract_retry_after("retry after 99999999999999999999"), None);
    assert_eq!(
        extract_retry_after("retry after 18446744073709551615"),
        Some(u64::MAX)
    );
}

fn client() -> GhClient {
    GhClient::new("acme".into(), "widgets".into(), "tok".into())
}

#[test]
fn requests_name_the_endpoint_and_carry_the_token() {
    let r = client().get_issue_request(42);
    assert_eq!(
        r.args,
        vec!["api", "--method", "GET", "/repos/acme/widgets/issues/42"]
    );
    assert_eq!(
        r.env,
        vec![
            ("GH_TOKEN".to_string(), "tok".to_string()),
            ("NO_COLOR".to_string(), "1".to_string())
        ]
    );
    assert_eq!(r.input, None);
    let r = client().list_labels_request();
    assert_eq!(
        r.args,
        vec![
            "api",
            "--paginate",
            "--method",
            "GET",
            "/repos/acme/widgets/labels?per_page=100"
        ]
    );
    let r = client().list_issues_request(&vec!["a".into(), "b".into()], "all");
    assert_eq!(
        r.args[4],
        "/repos/acme/widgets/issues?labels=a,b&state=all&per_page=100&sort=created&direction=asc"
    );
}

#[test]
fn requests_with_a_body_read_it_from_standard_input() {
    let r = client().create_issue_request("T", "B", &vec!["l".into()], &vec![]);
    assert_eq!(
        r.args,
        vec![
            "api",
            "--method",
            "POST",
            "/repos/acme/widgets/issues",
            "--input",
            "-"
        ]
    );
    assert_eq!(
        r.input.as_deref(),
        Some("{\"body\":\"B\",\"labels\":[\"l\"],\"title\":\"T\"}")
    );
    let r = client().create_issue_request("T", "B", &vec![], &vec!["u".into()]);
    assert_eq!(
        r.input.as_deref(),
        Some("{\"assignees\":[\"u\"],\"body\":\"B\",\"labels\":[],\"title\":\"T\"}")
    );
    let r = client().create_label_request("n", "c", "d");
    assert_eq!(
        r.input.as_deref(),
        Some("{\"color\":\"c\",\"description\":\"d\",\"name\":\"n\"}")
    );
    let r = client().update_issue_request(7, &IssueUpdate::default());
    assert_eq!(r.args[2], "PATCH");
    assert_eq!(r.input.as_deref(), Some("{}"));
}

fn finished(success: bool, stdout: &str, stderr: &str) -> GhOutcome {
    GhOutcome::Finished {
        success,
        code: Some(1),
        stdout: stdout.to_string(),
        stderr: stderr.to_string(),
    }
}

#[test]
fn replies_are_trimmed_and_empty_ones_filled_in() {
    assert_eq!(call_reply(finished(true, " {} \n", "")).unwrap(), "{}");
    assert_eq!(call_reply(finished(true, " \n", "")).unwrap(), "null");
    assert_eq!(paginated_reply(finished(true, "", "")).unwrap(), "[]");
    assert_eq!(
        call_reply(finished(false, "{}", "HTTP 404")).unwrap_err(),
        TaskSourceError::NotFound("HTTP 404".into())
    );
    assert_eq!(
        call_reply(GhOutcome::Missing).unwrap_err(),
        TaskSourceError::Config(
            "'gh' CLI not found \u{2014} install from https://cli.github.com".into()
        )
    );
    assert_eq!(
        paginated_reply(GhOutcome::Broken("pipe".into())).unwrap_err(),
        TaskSourceError::Other("pipe".into())
    );
}

#[test]
fn output_that_is_no_json_is_an_error() {
    let fault = TaskSourceError::Other("expected value at line 1 column 1".into());
    assert_eq!(call_reply(finished(true, "oops", "")).unwrap_err(), fault);
    assert_eq!(paginated_reply(finished(true, "oops", "")).unwrap_err(), fault);
    assert!(call_reply(finished(true, "[1] [2]", "")).is_err());
    assert_eq!(call_reply(finished(true, "\n[1, 2]\n", "")).unwrap(), "[1, 2]");
    assert_eq!(
        call_reply(finished(false, "oops", "HTTP 404")).unwrap_err(),
        TaskSourceError::NotFound("HTTP 404".into())
    );
    let given = |fault: Option<&str>| {
        reply_with(finished(true, " x ", ""), fault.map(String::from), "null")
    };
    assert_eq!(given(None), Ok("x".to_string()));
    assert_eq!(given(Some("f")), Err(TaskSourceError::Other("f".into())));
    assert_eq!(from_outside(Ok(7)), Ok(7));
    assert_eq!(
        from_outside::<u8>(Err("m".into())),
        Err(TaskSourceError::Other("m".into()))
    );
}

#[test]
fn a_missing_issue_is_none_and_an_existing_label_no_error() {
    assert_eq!(issue_found(Err(TaskSourceError::NotFound("x".into()))), Ok(None));
    assert_eq!(
        issue_found(Err(TaskSourceError::Auth("x".into()))),
        Err(TaskSourceError::Auth("x".into()))
    );
    assert_eq!(issue_found(Ok("{}".into())), Ok(Some("{}".to_string())));
    assert_eq!(label_created(Ok("{}".into())), Ok(()));
    assert_eq!(
        label_created(Err(TaskSourceError::Config("(HTTP 422)".into()))),
        Ok(())
    );
    assert_eq!(
        label_created(Err(TaskSourceError::Config("x".into()))),
        Err(TaskSourceError::Config("x".into()))
    );
}
