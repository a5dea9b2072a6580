//! Scheduler configuration.

use crate::schemas::DAGMeta;
use crate::text::{join_path, path_join};
use vstd::prelude::*;

verus! {

/// Scheduler configuration. Paths are Unix path strings; `sleep_time` is
/// the number of seconds between two polls.
#[derive(Clone, Debug, PartialEq, Default)]
pub struct Cfg {
    pub homedir: String,
    pub dagdir: String,
    pub cachedir: String,
    pub local_cachedir: String,
    pub timestamp: String,
    pub grace_period: usize,
    pub max_dagdirs: usize,
    pub max_concurrency: usize,
    pub sleep_time: u64,
    pub log_level: String,
    pub fail_fast: bool,
}

/// Directory of a run: `<home>/pipelines/<pipeline>/<hash>`.
pub open spec fn dagdir_of(home: Seq<char>, pipeline: Seq<char>, hash: Seq<char>) -> Seq<char> {
    path_join(path_join(path_join(home, "pipelines"@), pipeline), hash)
}

/// Global cache directory: `<home>/.cache/global`.
pub open spec fn cachedir_of(home: Seq<char>) -> Seq<char> {
    path_join(path_join(home, ".cache"@), "global"@)
}

/// Local cache directory: `<home>/.cache/local`.
pub open spec fn local_cachedir_of(home: Seq<char>) -> Seq<char> {
    path_join(path_join(home, ".cache"@), "local"@)
}

/// Directory of a run.
pub fn get_dagdir(homedir: &str, pipeline_name: &str, hash: &str) -> (r: String)
    ensures
        r@ == dagdir_of(homedir@, pipeline_name@, hash@),
{
    let a = join_path(homedir, "pipelines");
    let b = join_path(a.as_str(), pipeline_name);
    join_path(b.as_str(), hash)
}

/// Global and local cache directories.
pub fn get_cache_paths(homedir: &str) -> (r: (String, String))
    ensures
        r.0@ == cachedir_of(homedir@),
        r.1@ == local_cachedir_of(homedir@),
{
    let base = join_path(homedir, ".cache");
    (join_path(base.as_str(), "global"), join_path(base.as_str(), "local"))
}

/// The home directory of the scheduler: `$SDAG_HOME/.sdag` when the
/// variable is set, else `<user home>/.sdag`; an error when neither is known.
pub open spec fn homedir_spec(sdag_home: Option<Seq<char>>, user_home: Option<Seq<char>>) -> Result<
    Seq<char>,
    (),
> {
    match sdag_home {
        Some(h) => Ok(path_join(h, ".sdag"@)),
        None => match user_home {
            Some(h) => Ok(path_join(h, ".sdag"@)),
            None => Err(()),
        },
    }
}

/// Resolve the home directory from the value of `SDAG_HOME` and the user's
/// home directory.
pub fn find_homedir(sdag_home: Option<&str>, user_home: Option<&str>) -> (r: Result<String, String>)
    ensures
        match homedir_spec(
            match sdag_home {
                Some(h) => Some(h@),
                None => None,
            },
            match user_home {
                Some(h) => Some(h@),
                None => None,
            },
        ) {
            Ok(p) => r matches Ok(s) && s@ == p,
            Err(_) => r matches Err(m) && m@
                == "Failed to identify a home directory, please Set the 'SDAG_HOME' environment variable explicitely."@,
        },
{
    match sdag_home {
        Some(h) => Ok(join_path(h, ".sdag")),
        None => match user_home {
            Some(h) => Ok(join_path(h, ".sdag")),
            None => Err(
                String::from_str(
                    "Failed to identify a home directory, please Set the 'SDAG_HOME' environment variable explicitely.",
                ),
            ),
        },
    }
}

/// `r` is the configuration of a run of `meta` under `home`.
pub open spec fn cfg_for(
    r: Cfg,
    home: Seq<char>,
    meta: DAGMeta,
    log_level: Seq<char>,
    max_concurrency: usize,
    time_between_polls: u64,
    slurm_grace_period: usize,
    max_concurrent_runs: usize,
    fail_fast: bool,
) -> bool {
    &&& r.homedir@ == home
    &&& r.dagdir@ == dagdir_of(home, meta.pipeline_name@, meta.hash@)
    &&& r.cachedir@ == cachedir_of(home)
    &&& r.local_cachedir@ == local_cachedir_of(home)
    &&& r.timestamp@ == meta.timestamp@
    &&& r.grace_period == slurm_grace_period
    &&& r.max_dagdirs == max_concurrent_runs
    &&& r.max_concurrency == max_concurrency
    &&& r.sleep_time == time_between_polls
    &&& r.log_level@ == log_level
    &&& r.fail_fast == fail_fast
}

impl Cfg {
    /// Configuration of a run of `meta` under `homedir` (see `cfg_for`).
    pub fn new(
        homedir: &str,
        meta: &DAGMeta,
        log_level: &str,
        max_concurrency: usize,
        time_between_polls: u64,
        slurm_grace_period: usize,
        max_concurrent_runs: usize,
        fail_fast: bool,
    ) -> (r: Self)
        ensures
            cfg_for(
                r,
                homedir@,
                *meta,
                log_level@,
                max_concurrency,
                time_between_polls,
                slurm_grace_period,
                max_concurrent_runs,
                fail_fast,
            ),
    {
        let dagdir = get_dagdir(homedir, meta.pipeline_name.as_str(), meta.hash.as_str());
        let (cachedir, local_cachedir) = get_cache_paths(homedir);
        Cfg {
            homedir: String::from_str(homedir),
            dagdir,
            cachedir,
            local_cachedir,
            timestamp: meta.timestamp.clone(),
            grace_period: slurm_grace_period,
            max_dagdirs: max_concurrent_runs,
            max_concurrency,
            sleep_time: time_between_polls,
            log_level: String::from_str(log_level),
            fail_fast,
        }
    }
}

} // verus!
