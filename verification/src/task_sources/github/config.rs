//! Configuration of the GitHub task source.

use crate::text;
use crate::text::{find_char, glue, split_once};
use vstd::prelude::*;
use vstd::string::*;

verus! {

/// How issues are mapped to tasks.
#[derive(Debug, Clone, Copy, PartialEq, Eq, Structural)]
pub enum GithubMode {
    /// By labels.
    Simple,
    /// By the fields of a project.
    ProjectsV2,
}

impl Default for GithubMode {
    fn default() -> (r: Self)
        ensures
            r == GithubMode::Simple,
    {
        GithubMode::Simple
    }
}

/// The project that the projects mode uses.
#[derive(Debug, Clone, PartialEq)]
pub struct ProjectV2Config {
    /// The organisation that owns the project, for projects of organisations.
    pub org: Option<String>,
    /// The number of the project.
    pub number: u32,
}

/// Caching.
#[derive(Debug, Clone, Copy, PartialEq, Eq, Structural)]
pub struct CacheConfig {
    /// Whether to cache.
    pub enabled: bool,
    /// How many seconds the cache stays valid.
    pub ttl_seconds: u64,
}

/// The seconds for which a cache stays valid where nothing is said.
pub fn default_cache_ttl() -> (r: u64)
    ensures
        r == 60,
{
    60
}

impl Default for CacheConfig {
    fn default() -> (r: Self)
        ensures
            r == (CacheConfig { enabled: false, ttl_seconds: 60 }),
    {
        CacheConfig { enabled: false, ttl_seconds: default_cache_ttl() }
    }
}

/// What to do when the API cannot be reached.
#[derive(Debug, Clone, Copy, PartialEq, Eq, Structural)]
pub enum ErrorBehavior {
    /// Stop with an error.
    Fail,
    /// Go on with what was cached. Needs caching to be enabled.
    UseCached,
    /// Warn, and go on without tasks.
    Warn,
}

impl Default for ErrorBehavior {
    fn default() -> (r: Self)
        ensures
            r == ErrorBehavior::Fail,
    {
        ErrorBehavior::Fail
    }
}

/// Configuration of the GitHub task source.
#[derive(Debug, Clone, PartialEq)]
pub struct GithubTaskSourceConfig {
    /// The repository, as `owner/repo`.
    pub repo: String,
    /// How issues are mapped to tasks.
    pub mode: GithubMode,
    /// The project, for the projects mode.
    pub project: Option<ProjectV2Config>,
    /// Caching.
    pub cache: CacheConfig,
    /// What to do when the API cannot be reached.
    pub on_error: ErrorBehavior,
    /// The token to use in place of that of the environment.
    pub token: Option<String>,
}

/// What is wrong with a configuration: the first complaint, if there is one.
pub open spec fn complaint(c: GithubTaskSourceConfig) -> Option<Seq<char>> {
    if !c.repo@.contains('/') {
        Some("repo must be in 'owner/repo' format, got: "@ + c.repo@)
    } else if c.on_error is UseCached && !c.cache.enabled {
        Some("on_error: use-cached requires cache.enabled: true"@)
    } else if c.mode is ProjectsV2 && c.project is None {
        Some("projects-v2 mode requires project config"@)
    } else {
        None
    }
}

impl GithubTaskSourceConfig {
    /// Checks the configuration.
    pub fn validate(&self) -> (r: Result<(), String>)
        ensures
            match r {
                Ok(_) => complaint(*self) is None,
                Err(m) => complaint(*self) == Some(m@),
            },
    {
        if find_char(self.repo.as_str(), '/').is_none() {
            return Err(glue("repo must be in 'owner/repo' format, got: ", self.repo.as_str()));
        }
        if self.on_error == ErrorBehavior::UseCached && !self.cache.enabled {
            return Err("on_error: use-cached requires cache.enabled: true".to_string());
        }
        if self.mode == GithubMode::ProjectsV2 && self.project.is_none() {
            return Err("projects-v2 mode requires project config".to_string());
        }
        Ok(())
    }

    /// The owner and the name of the repository: what stands before and after the first
    /// slash.
    pub fn owner_repo(&self) -> (r: (String, String))
        requires
            self.repo@.contains('/'),
        ensures
            text::split_at_first(self.repo@, '/') == Some((r.0@, r.1@)),
    {
        match split_once(self.repo.as_str(), '/') {
            Some(parts) => parts,
            None => (String::new(), String::new()),
        }
    }
}

/// A valid configuration names an owner and a repository, and the two with a slash between
/// them are what was configured; the owner holds no slash.
pub proof fn valid_config_splits(c: GithubTaskSourceConfig)
    requires
        complaint(c) is None,
    ensures
        match text::split_at_first(c.repo@, '/') {
            Some((owner, repo)) => c.repo@ == owner + seq!['/'] + repo && !owner.contains('/'),
            None => false,
        },
{
    text::lemma_split_at_first(c.repo@, '/');
}

} // verus!
