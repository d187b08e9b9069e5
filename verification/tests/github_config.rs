//! Configuration of the GitHub source.

use ralph_tasks::task_sources::github::config::{
    default_cache_ttl, CacheConfig, ErrorBehavior, GithubMode, GithubTaskSourceConfig,
    ProjectV2Config,
};

fn config(repo: &str) -> GithubTaskSourceConfig {
    GithubTaskSourceConfig {
        repo: repo.to_string(),
        mode: GithubMode::default(),
        project: None,
        cache: CacheConfig::default(),
        on_error: ErrorBehavior::default(),
        token: None,
    }
}

#[test]
fn default_cache_is_disabled_with_ttl_60() {
    let cache = CacheConfig::default();
    assert!(!cache.enabled);
    assert_eq!(cache.ttl_seconds, 60);
    assert_eq!(default_cache_ttl(), 60);
}

#[test]
fn default_on_error_is_fail() {
    let behavior = ErrorBehavior::default();
    assert_eq!(behavior, ErrorBehavior::Fail);
}

#[test]
fn mode_without_a_choice_is_simple() {
    assert_eq!(GithubMode::default(), GithubMode::Simple);
}

#[test]
fn validate_repo_without_slash() {
    let config = config("no-slash");
    let err = config.validate().unwrap_err();
    assert!(err.contains("owner/repo"), "got: {err}");
    assert_eq!(err, "repo must be in 'owner/repo' format, got: no-slash");
}

#[test]
fn validate_use_cached_without_cache_enabled() {
    let mut config = config("a/b");
    config.on_error = ErrorBehavior::UseCached;
    let err = config.validate().unwrap_err();
    assert!(err.contains("cache.enabled"), "got: {err}");
}

#[test]
fn validate_projects_v2_without_project_config() {
    let mut config = config("a/b");
    config.mode = GithubMode::ProjectsV2;
    let err = config.validate().unwrap_err();
    assert!(err.contains("project config"), "got: {err}");
}

#[test]
fn owner_repo_parses_correctly() {
    let config = config("acme/widgets");
    let (owner, repo) = config.owner_repo();
    assert_eq!((owner.as_str(), repo.as_str()), ("acme", "widgets"));
}

#[test]
fn owner_repo_splits_at_the_first_slash() {
    let (owner, repo) = config("a/b/c").owner_repo();
    assert_eq!((owner.as_str(), repo.as_str()), ("a", "b/c"));
}

#[test]
fn validate_valid_config_passes() {
    let config = GithubTaskSourceConfig {
        repo: "acme/widgets".to_string(),
        mode: GithubMode::ProjectsV2,
        project: Some(ProjectV2Config {
            org: Some("acme".to_string()),
            number: 1,
        }),
        cache: CacheConfig {
            enabled: true,
            ttl_seconds: 30,
        },
        on_error: ErrorBehavior::UseCached,
        token: None,
    };
    assert!(config.validate().is_ok());
}
