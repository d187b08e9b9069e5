//! Metadata comments in issue bodies.

use ralph_tasks::task_sources::github::metadata::{
    decode_metadata, encode_metadata, parse_metadata, strip_metadata, write_metadata,
    IssueMetadata,
};

#[test]
fn parse_empty_body() {
    assert_eq!(parse_metadata(""), IssueMetadata::default());
}

#[test]
fn parse_no_comment() {
    let body = "Just a plain issue description.\n\nWith multiple paragraphs.";
    assert_eq!(parse_metadata(body), IssueMetadata::default());
}

#[test]
fn parse_valid_comment() {
    let mut body = String::from("Fix the login bug.\n\n");
    body.push_str("<!-- ralph:metadata:v1 {");
    body.push_str(r#""blocked_by":["41","43"],"#);
    body.push_str(r#""started":"2026-03-28T10:00:00Z","#);
    body.push_str(r#""closed":"2026-03-28T12:00:00Z","#);
    body.push_str(r#""key":"spec:auth-01","#);
    body.push_str(r#""loop_id":"loop-abc","#);
    body.push_str(r#""priority":2"#);
    body.push_str("} -->");
    let meta = parse_metadata(&body);
    assert_eq!(meta.blocked_by, vec!["41", "43"]);
    assert_eq!(meta.started.as_deref(), Some("2026-03-28T10:00:00Z"));
    assert_eq!(meta.closed.as_deref(), Some("2026-03-28T12:00:00Z"));
    assert_eq!(meta.key.as_deref(), Some("spec:auth-01"));
    assert_eq!(meta.loop_id.as_deref(), Some("loop-abc"));
    assert_eq!(meta.priority, Some(2));
}

#[test]
fn parse_partial_fields() {
    let body = r#"Desc.

<!-- ralph:metadata:v1 {"blocked_by":["7"]} -->"#;
    let meta = parse_metadata(body);
    assert_eq!(meta.blocked_by, vec!["7"]);
    assert!(meta.started.is_none());
    assert!(meta.key.is_none());
    assert!(meta.priority.is_none());
}

#[test]
fn parse_multiple_comments_last_wins() {
    let mut body = String::from("<!-- ralph:metadata:v1 {\"key\":\"first\"} -->\n");
    body.push_str("Some text.\n");
    body.push_str("<!-- ralph:metadata:v1 {\"key\":\"second\"} -->");
    let meta = parse_metadata(&body);
    assert_eq!(meta.key.as_deref(), Some("second"));
}

#[test]
fn parse_corrupt_json_returns_default() {
    let body = "<!-- ralph:metadata:v1 {not valid json} -->";
    let meta = parse_metadata(body);
    assert_eq!(meta, IssueMetadata::default());
}

#[test]
fn write_to_empty_body() {
    let meta = IssueMetadata {
        key: Some("k1".to_string()),
        ..Default::default()
    };
    let result = write_metadata("", &meta);
    assert!(result.starts_with("<!-- ralph:metadata:v1 "));
    assert!(result.contains(r#""key":"k1""#));
    assert!(result.ends_with(" -->"));
}

#[test]
fn write_to_existing_body() {
    let meta = IssueMetadata {
        blocked_by: vec!["5".to_string()],
        ..Default::default()
    };
    let result = write_metadata("Fix the bug.", &meta);
    assert!(result.starts_with("Fix the bug.\n\n<!-- ralph:metadata:v1 "));
}

#[test]
fn write_replaces_existing() {
    let body = "Desc.\n\n<!-- ralph:metadata:v1 {\"key\":\"old\"} -->";
    let meta = IssueMetadata {
        key: Some("new".to_string()),
        ..Default::default()
    };
    let result = write_metadata(body, &meta);
    assert!(result.contains(r#""key":"new""#));
    assert!(!result.contains(r#""key":"old""#));
    assert_eq!(result.matches("<!-- ralph:metadata:v1").count(), 1);
}

#[test]
fn write_default_metadata_no_comment() {
    let body = "Clean issue body.";
    let result = write_metadata(body, &IssueMetadata::default());
    assert_eq!(result, body);
    assert!(!result.contains("ralph:metadata"));
}

#[test]
fn round_trip() {
    let original = IssueMetadata {
        blocked_by: vec!["10".into(), "20".into()],
        started: Some("2026-03-28T10:00:00Z".into()),
        closed: None,
        key: Some("spec:task-01".into()),
        loop_id: Some("loop-xyz".into()),
        priority: Some(1),
    };
    let body = write_metadata("Issue description.", &original);
    let parsed = parse_metadata(&body);
    assert_eq!(parsed, original);
}

#[test]
fn strip_metadata_preserves_user_text() {
    let body = "User text here.\n\n<!-- ralph:metadata:v1 {\"key\":\"x\"} -->";
    let stripped = strip_metadata(body);
    assert_eq!(stripped, "User text here.");
    assert!(!stripped.contains("ralph:metadata"));
}

#[test]
fn written_comment_has_the_exact_text() {
    let meta = IssueMetadata {
        blocked_by: vec!["41".into(), "43".into()],
        started: Some("s".into()),
        closed: Some("c".into()),
        key: Some("k\"\\\n".into()),
        loop_id: Some("l".into()),
        priority: Some(5),
    };
    let mut want = String::from("Desc.\n\n<!-- ralph:metadata:v1 {\"blocked_by\":[\"41\",\"43\"],");
    want.push_str("\"started\":\"s\",\"closed\":\"c\",\"key\":\"k\\\"\\\\\\n\",");
    want.push_str("\"loop_id\":\"l\",\"priority\":5} -->");
    assert_eq!(write_metadata("Desc.", &meta), want);
    assert_eq!(parse_metadata(&want), meta);
}

#[test]
fn encoding_and_decoding_are_inverse() {
    let meta = IssueMetadata {
        blocked_by: vec!["a,b".into(), "\u{e9}\u{1F600}\u{1}".into()],
        key: Some("x}]\"".into()),
        priority: Some(255),
        ..Default::default()
    };
    let json = encode_metadata(&meta);
    assert_eq!(decode_metadata(&json), Some(meta));
}

#[test]
fn decoding_takes_white_space_unknown_fields_and_null() {
    let meta = decode_metadata(
        " { \"other\" : {\"a\":[1,2]} , \"key\" : null , \"priority\":7, \"blocked_by\" : [ ] } ",
    );
    let want = IssueMetadata {
        priority: Some(7),
        ..Default::default()
    };
    assert_eq!(meta, Some(want));
}

#[test]
fn decoding_refuses_what_does_not_fit() {
    assert_eq!(decode_metadata("{\"priority\":256}"), None);
    assert_eq!(decode_metadata("{\"priority\":\"2\"}"), None);
    assert_eq!(decode_metadata("{\"key\":1}"), None);
    assert_eq!(decode_metadata("{\"blocked_by\":[1]}"), None);
    assert_eq!(decode_metadata("{\"key\":\"a\",\"key\":\"b\"}"), None);
    assert_eq!(decode_metadata("{\"key\":\"a\"} x"), None);
    assert_eq!(decode_metadata(""), None);
}

#[test]
fn strip_undoes_write_on_a_body() {
    let meta = IssueMetadata {
        key: Some("k".into()),
        ..Default::default()
    };
    let body = write_metadata("Text.  \n", &meta);
    assert_eq!(strip_metadata(&body), "Text.");
}

#[test]
fn writing_again_changes_nothing() {
    let meta = IssueMetadata {
        key: Some("k".into()),
        ..Default::default()
    };
    let once = write_metadata("Text.", &meta);
    assert_eq!(write_metadata(&once, &meta), once);
}

#[test]
fn the_last_write_counts() {
    let first = IssueMetadata {
        key: Some("first".into()),
        ..Default::default()
    };
    let second = IssueMetadata {
        key: Some("second".into()),
        ..Default::default()
    };
    let twice = write_metadata(&write_metadata("Text.", &first), &second);
    assert_eq!(twice, write_metadata("Text.", &second));
}

#[test]
fn versions_and_line_feeds_in_comments() {
    let v2 = "<!-- ralph:metadata:v27 {\"key\":\"k\"} -->";
    assert_eq!(parse_metadata(v2).key.as_deref(), Some("k"));
    let broken = "<!-- ralph:metadata:v1 {\"key\":\n\"k\"} -->";
    assert_eq!(parse_metadata(broken), IssueMetadata::default());
    assert_eq!(strip_metadata(broken), broken);
}

#[test]
fn dollar_signs_survive_a_replacement() {
    let old = "<!-- ralph:metadata:v1 {\"key\":\"old\"} -->";
    for key in ["cost$5", "US$$ 5", "$1", "${1}", "$key", "5 $, $\" and $"] {
        let meta = IssueMetadata {
            key: Some(key.into()),
            ..Default::default()
        };
        assert_eq!(parse_metadata(&write_metadata(old, &meta)), meta);
        assert_eq!(parse_metadata(&write_metadata("Text.", &meta)), meta);
    }
    let meta = IssueMetadata {
        key: Some("cost$5".into()),
        ..Default::default()
    };
    assert_eq!(
        write_metadata(old, &meta),
        "<!-- ralph:metadata:v1 {\"key\":\"cost$5\"} -->"
    );
}
