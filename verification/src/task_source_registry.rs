//! Task sources by name.

use crate::config;
use crate::config::{ConnectorConfig, TaskSourceConfig};
use crate::entries;
use crate::entries::{place_for, set_entry};
use crate::task_source::{ErrorView, TaskSource, TaskSourceError, TaskSourceResult};
use crate::text::glue;
use vstd::prelude::*;
use vstd::string::*;

verus! {

/// Factories of task sources, by the name of the source. A factory makes a source from its
/// configuration and the root of the workspace.
pub struct TaskSourceRegistry<F> {
    factories: Vec<(String, F)>,
}

/// Whether a factory can be called.
pub open spec fn callable<S, F: Fn(&ConnectorConfig, &str) -> TaskSourceResult<S>>(f: F) -> bool {
    forall|c: &ConnectorConfig, root: &str| #[trigger] f.requires((c, root))
}

/// Whether `r` is what became of a source that was then set up: set-up came to `done`, and
/// left `t`; its error is returned, and otherwise the source as it is then.
pub open spec fn set_up<S: TaskSource>(
    s: S,
    t: S,
    done: TaskSourceResult<()>,
    r: TaskSourceResult<S>,
) -> bool {
    s.set_up_to(&t, done) && t.tasks() == s.tasks() && t.loop_filter() == s.loop_filter() && r
        == match done {
        Ok(_) => Ok(t),
        Err(e) => Err(e),
    }
}

/// Whether `r` is what became of what a factory made: the factory's error is passed on, and a
/// source is set up.
pub open spec fn made<S: TaskSource>(
    product: TaskSourceResult<S>,
    r: TaskSourceResult<S>,
) -> bool {
    match product {
        Err(e) => r is Err && r->Err_0 == e,
        Ok(s) => exists|t: S, done: TaskSourceResult<()>| #[trigger] set_up(s, t, done, r),
    }
}

/// The error for a name that nothing is registered under.
pub open spec fn unknown_source(name: Seq<char>) -> ErrorView {
    ErrorView::Config("unknown task source type: "@ + name)
}

/// A source whose set-up came to a result: the source, or the error of the set-up.
pub fn after_setup<S>(source: S, setup: TaskSourceResult<()>) -> (r: TaskSourceResult<S>)
    ensures
        r == match setup {
            Ok(_) => Ok(source),
            Err(e) => Err(e),
        },
{
    match setup {
        Ok(_) => Ok(source),
        Err(e) => Err(e),
    }
}

impl<F> TaskSourceRegistry<F> {
    /// The factory that is registered under a name.
    pub closed spec fn factory_for(&self, name: Seq<char>) -> Option<F> {
        entries::value_for(self.factories@, name)
    }

    /// A registry with the sources `jsonl` and `github`.
    pub fn new(jsonl: F, github: F) -> (r: Self)
        ensures
            r.factory_for("jsonl"@) == Some(jsonl),
            r.factory_for("github"@) == Some(github),
            forall|m: Seq<char>|
                m != "jsonl"@ && m != "github"@ ==> (#[trigger] r.factory_for(m)) is None,
    {
        let mut factories: Vec<(String, F)> = Vec::new();
        set_entry(&mut factories, "jsonl", jsonl);
        set_entry(&mut factories, "github", github);
        proof {
            reveal_strlit("jsonl");
            reveal_strlit("github");
            assert("jsonl"@.len() != "github"@.len());
        }
        TaskSourceRegistry { factories }
    }

    /// Registers a factory under a name, in place of the one that was there.
    pub fn register(&mut self, name: &str, factory: F)
        ensures
            final(self).factory_for(name@) == Some(factory),
            forall|m: Seq<char>|
                m != name@ ==> #[trigger] final(self).factory_for(m) == old(self).factory_for(m),
    {
        set_entry(&mut self.factories, name, factory);
    }

    /// Whether a factory is registered under a name.
    pub fn contains(&self, name: &str) -> (r: bool)
        ensures
            r == self.factory_for(name@) is Some,
    {
        place_for(&self.factories, name) < self.factories.len()
    }

    /// The chosen source: made by its factory and then set up. A name that nothing is
    /// registered under is an error; so is what the factory or the set-up reports.
    pub fn create<S: TaskSource>(
        &self,
        config: &TaskSourceConfig,
        workspace_root: &str,
    ) -> (r: TaskSourceResult<S>) where F: Fn(&ConnectorConfig, &str) -> TaskSourceResult<S>
        requires
            self.factory_for(config::chosen_name(*config)) matches Some(f) ==> callable::<S, F>(f),
        ensures
            match self.factory_for(config::chosen_name(*config)) {
                None => r is Err && r->Err_0@ == unknown_source(config::chosen_name(*config)),
                Some(f) => exists|product: TaskSourceResult<S>|
                    f.ensures((&config::chosen_config(*config), workspace_root), product)
                        && #[trigger] made(product, r),
            },
    {
        let (name, connector): (&str, ConnectorConfig) = match config {
            TaskSourceConfig::Named(name) => (name.as_str(), ConnectorConfig::Null),
            TaskSourceConfig::Typed { source_type, config } => (
                source_type.as_str(),
                config.clone(),
            ),
        };
        let i: usize = place_for(&self.factories, name);
        if i < self.factories.len() {
            let factory = &self.factories[i].1;
            let product = factory(&connector, workspace_root);
            match product {
                Err(e) => {
                    let r: TaskSourceResult<S> = Err(e);
                    assert(made(product, r));
                    r
                },
                Ok(s) => {
                    let mut source = s;
                    let done = source.setup();
                    let ghost t = source;
                    let ghost result = done;
                    let r = after_setup(source, done);
                    assert(set_up(s, t, result, r));
                    assert(made(product, r));
                    r
                },
            }
        } else {
            Err(TaskSourceError::Config(glue("unknown task source type: ", name)))
        }
    }
}

} // verus!
