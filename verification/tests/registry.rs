//! Task sources by name.

use ralph_tasks::config::{ConnectorConfig, TaskSourceConfig};
use ralph_tasks::task::Task;
use ralph_tasks::task_cli::create_source;
use ralph_tasks::task_source::{TaskSource, TaskSourceError, TaskSourceResult};
use ralph_tasks::task_source_registry::{after_setup, TaskSourceRegistry};
use ralph_tasks::task_sources::github::{GithubSettings, GithubTaskSource};
use ralph_tasks::task_sources::jsonl::JsonlTaskSource;
use ralph_tasks::task_sources::mock::{MockError, MockTaskSource};

type Factory = fn(&ConnectorConfig, &str) -> TaskSourceResult<MockTaskSource>;

/// A source whose one task has the path of the file as its title.
fn jsonl(config: &ConnectorConfig, root: &str) -> TaskSourceResult<MockTaskSource> {
    let source = JsonlTaskSource::from_config(config, root, Ok(vec![]))?;
    Ok(MockTaskSource::with_tasks(vec![Task::new(
        source.path().to_string(),
        1,
    )]))
}

fn github(config: &ConnectorConfig, root: &str) -> TaskSourceResult<MockTaskSource> {
    let settings = match config {
        ConnectorConfig::Null => GithubSettings::Absent,
        ConnectorConfig::Json(_) => GithubSettings::Unreadable("missing field `repo`".into()),
    };
    GithubTaskSource::from_config(settings, root, Ok("t".into()))?;
    Ok(MockTaskSource::new())
}

fn broken(_config: &ConnectorConfig, _root: &str) -> TaskSourceResult<MockTaskSource> {
    let mut source = MockTaskSource::new();
    source.inject_error("setup", MockError::Auth("locked".into()));
    Ok(source)
}

fn registry() -> TaskSourceRegistry<Factory> {
    TaskSourceRegistry::new(jsonl, github)
}

fn named(name: &str) -> TaskSourceConfig {
    TaskSourceConfig::Named(name.to_string())
}

fn typed(name: &str, config: &str) -> TaskSourceConfig {
    TaskSourceConfig::Typed {
        source_type: name.to_string(),
        config: ConnectorConfig::Json(config.to_string()),
    }
}

#[test]
fn new_registers_jsonl() {
    assert!(registry().contains("jsonl"));
}

#[test]
fn new_registers_github() {
    assert!(registry().contains("github"));
    assert!(!registry().contains("other"));
}

#[test]
fn create_with_named_config() {
    let source = registry().create(&named("jsonl"), "/w").unwrap();
    let titles: Vec<String> = source.all().unwrap().into_iter().map(|t| t.title).collect();
    assert_eq!(titles, vec!["/w/.ralph/agent/tasks.jsonl"]);
}

#[test]
fn create_with_typed_config() {
    let source = registry().create(&typed("jsonl", "{}"), "/w");
    assert!(source.is_ok());
}

#[test]
fn create_with_typed_config_custom_path() {
    let config = typed("jsonl", "{\"path\":\"/w/custom/tasks.jsonl\"}");
    let source = registry().create(&config, "/w").unwrap();
    assert_eq!(source.all().unwrap()[0].title, "/w/custom/tasks.jsonl");
}

#[test]
fn create_unknown_type_returns_config_error() {
    let result = registry().create(&named("nonexistent"), "/tmp");
    assert!(result.is_err());
    let err = result.err().unwrap();
    assert!(
        matches!(err, TaskSourceError::Config(ref msg) if msg.contains("unknown task source type: nonexistent")),
        "expected Config error, got: {err:?}"
    );
}

#[test]
fn register_custom_factory() {
    let mut registry = registry();
    let factory: Factory = |_config, root| jsonl(&ConnectorConfig::Null, root);
    registry.register("custom", factory);
    assert!(registry.contains("custom"));
    let source = registry.create(&named("custom"), "/w");
    assert!(source.is_ok());
}

#[test]
fn registering_again_replaces() {
    let mut registry = registry();
    registry.register("jsonl", broken);
    assert!(registry.create(&named("jsonl"), "/w").is_err());
    assert!(registry.contains("github"));
}

#[test]
fn create_calls_setup() {
    let source = registry().create(&named("jsonl"), "/w").unwrap();
    assert_eq!(source.call_count("setup"), 1);
    let mut registry = registry();
    registry.register("broken", broken);
    let err = registry.create(&named("broken"), "/w").err().unwrap();
    assert_eq!(err, TaskSourceError::Auth("locked".into()));
}

#[test]
fn create_github_named_null_config_errors() {
    let result = registry().create(&named("github"), "/tmp");
    assert!(result.is_err());
    let err = result.err().unwrap();
    assert!(
        matches!(err, TaskSourceError::Config(ref msg) if msg.contains("requires config")),
        "expected Config error about requires config, got: {err:?}"
    );
}

#[test]
fn create_github_typed_missing_repo_errors() {
    let result = registry().create(&typed("github", "{}"), "/tmp");
    assert!(result.is_err());
    let err = result.err().unwrap();
    assert!(
        matches!(err, TaskSourceError::Config(_)),
        "expected Config error, got: {err:?}"
    );
}

#[test]
fn default_config_creates_jsonl_source() {
    let source = registry().create(&TaskSourceConfig::default(), "/w");
    assert!(source.is_ok());
}

#[test]
fn setup_results_decide() {
    assert_eq!(after_setup(7, Ok(())), Ok(7));
    let e = || TaskSourceError::Other("x".into());
    assert_eq!(after_setup(7, Err(e())), Err(e()));
}

#[test]
fn commands_report_a_source_that_cannot_be_made() {
    let r = create_source(&registry(), &named("nope"), "/w");
    assert_eq!(
        r.err().unwrap(),
        "Failed to create task source: config error: unknown task source type: nope"
    );
    assert!(create_source(&registry(), &named("jsonl"), "/w").is_ok());
}
