//! Process configuration, checked once at startup from the raw settings
//! the process was given.

use vstd::prelude::*;

verus! {

/// Why a process cannot start.
#[derive(PartialEq, Eq, Structural, Clone, Copy, Debug)]
pub enum ConfigError {
    MissingRedisUrl,
    MissingRegion,
    MissingWorkerId,
    /// The region or the worker id is set but empty.
    EmptyValue,
}

/// What the producer and the workers need to reach the broker.
pub struct Config {
    pub redis_url: String,
}

impl Config {
    /// The configuration for a broker URL setting; it must be set.
    pub fn from_setting(redis_url: Option<String>) -> (r: Result<Config, ConfigError>)
        ensures
            redis_url is None <==> r == Err::<Config, _>(ConfigError::MissingRedisUrl),
            redis_url is Some ==> r is Ok && r.unwrap().redis_url@ == redis_url.unwrap()@,
    {
        match redis_url {
            None => Err(ConfigError::MissingRedisUrl),
            Some(redis_url) => Ok(Config { redis_url }),
        }
    }
}

/// A worker's identity: its region, which names its consumer group, and its
/// consumer name within that group.
pub struct WorkerConfig {
    pub region: String,
    pub worker_id: String,
}

/// Checks a worker's settings: both must be present and non-empty.
pub fn worker_config(region: Option<String>, worker_id: Option<String>) -> (r: Result<WorkerConfig, ConfigError>)
    ensures
        region is None ==> r == Err::<WorkerConfig, _>(ConfigError::MissingRegion),
        region is Some && worker_id is None ==> r == Err::<WorkerConfig, _>(ConfigError::MissingWorkerId),
        region is Some && worker_id is Some ==> {
            let g = region.unwrap();
            let w = worker_id.unwrap();
            if g@.len() == 0 || w@.len() == 0 {
                r == Err::<WorkerConfig, _>(ConfigError::EmptyValue)
            } else {
                r is Ok && r.unwrap().region@ == g@ && r.unwrap().worker_id@ == w@
            }
        },
{
    let region = match region {
        None => { return Err(ConfigError::MissingRegion); },
        Some(g) => g,
    };
    let worker_id = match worker_id {
        None => { return Err(ConfigError::MissingWorkerId); },
        Some(w) => w,
    };
    if region.as_str().is_empty() || worker_id.as_str().is_empty() {
        return Err(ConfigError::EmptyValue);
    }
    Ok(WorkerConfig { region, worker_id })
}

} // verus!
