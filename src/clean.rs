//! What the cache-cleaning command removes, decided from its arguments and
//! from which cache directories exist.

use vstd::prelude::*;

verus! {

/// Arguments of the cache-cleaning command.
#[derive(Clone, Debug, PartialEq, Eq)]
pub struct CleanArgs {
    /// Only report what would be removed.
    pub dry_run: bool,
    /// Clean the cache of this backend only.
    pub backend: Option<String>,
    /// Remove all data, the plugin registry included.
    pub all: bool,
}

/// Which directory to remove.
#[derive(Clone, Copy, Debug, PartialEq, Eq, Structural)]
pub enum CleanTarget {
    /// The whole data directory.
    Everything,
    /// The backend's cache, under its own name.
    Backend,
    /// The backend's cache, under the plugin's package name.
    BackendPlugin,
    /// The whole build cache.
    BuildCache,
}

/// The command's decision: remove a directory, or report that there is nothing to remove.
#[derive(Clone, Copy, Debug, PartialEq, Eq, Structural)]
pub enum CleanPlan {
    Remove { target: CleanTarget, dry_run: bool },
    NothingToClean,
    NoBackendCache,
}

/// Names, under the cache directory, where a backend's cache may live: its
/// own name, then `hodu-backend-<name>-plugin`.
pub fn backend_cache_dirs(backend: &str) -> (r: (String, String))
    ensures
        r.0@ == backend@,
        r.1@ == "hodu-backend-"@ + backend@ + "-plugin"@,
{
    let own = String::from_str(backend);
    let mut prefixed = String::from_str("hodu-backend-");
    prefixed.append(backend);
    prefixed.append("-plugin");
    (own, prefixed)
}

/// Decides what to clean. `data_exists` says whether the data directory
/// exists, `cache_exists` whether its cache directory does, and
/// `backend_exists` and `plugin_exists` whether the two directories of
/// `backend_cache_dirs` do.
pub fn plan_clean(
    args: &CleanArgs,
    data_exists: bool,
    cache_exists: bool,
    backend_exists: bool,
    plugin_exists: bool,
) -> (r: CleanPlan)
    ensures
        !data_exists ==> r == CleanPlan::NothingToClean,
        data_exists && args.all ==> r == (CleanPlan::Remove {
            target: CleanTarget::Everything,
            dry_run: args.dry_run,
        }),
        data_exists && !args.all && args.backend is Some ==> r == if backend_exists {
            CleanPlan::Remove { target: CleanTarget::Backend, dry_run: args.dry_run }
        } else if plugin_exists {
            CleanPlan::Remove { target: CleanTarget::BackendPlugin, dry_run: args.dry_run }
        } else {
            CleanPlan::NoBackendCache
        },
        data_exists && !args.all && args.backend is None ==> r == if cache_exists {
            CleanPlan::Remove { target: CleanTarget::BuildCache, dry_run: args.dry_run }
        } else {
            CleanPlan::NothingToClean
        },
{
    if !data_exists {
        return CleanPlan::NothingToClean;
    }
    if args.all {
        return CleanPlan::Remove { target: CleanTarget::Everything, dry_run: args.dry_run };
    }
    match &args.backend {
        Some(_) => {
            if backend_exists {
                CleanPlan::Remove { target: CleanTarget::Backend, dry_run: args.dry_run }
            } else if plugin_exists {
                CleanPlan::Remove { target: CleanTarget::BackendPlugin, dry_run: args.dry_run }
            } else {
                CleanPlan::NoBackendCache
            }
        },
        None => {
            if cache_exists {
                CleanPlan::Remove { target: CleanTarget::BuildCache, dry_run: args.dry_run }
            } else {
                CleanPlan::NothingToClean
            }
        },
    }
}

} // verus!
