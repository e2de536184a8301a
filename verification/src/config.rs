//! What the sampler is configured with, and the defaults.

use vstd::prelude::*;
use vstd::string::*;

verus! {

/// Where the kernel hands out its trace.
pub const TRACE_PIPE_PATH: &'static str = "/sys/kernel/debug/tracing/trace_pipe";

/// The directory that recordings are written to by default.
pub const DEFAULT_DST_DIR_PATH: &'static str = "/home/lelloman/monnezza-2";

/// How many seconds the supervisor sleeps between two looks at the clock by default.
pub const DEFAULT_MAIN_LOOP_SLEEP_SECS: u64 = 1;

/// How many seconds a recording window lasts by default.
pub const DEFAULT_RECORDING_DURATION_SECS: u64 = 20;

/// The settings of one run of the sampler.
#[derive(Debug, Clone, PartialEq, Eq)]
pub struct Config {
    /// The directory that recordings are written to.
    pub dst_dir_path: String,
    /// How many seconds the supervisor sleeps between two looks at the clock.
    pub main_loop_sleep_secs: u64,
    /// How many seconds a recording window lasts.
    pub recording_duration_secs: u64,
}

impl Default for Config {
    /// The settings that hold where nothing else was asked for.
    fn default() -> (config: Config)
        ensures
            config.dst_dir_path@ == DEFAULT_DST_DIR_PATH@,
            config.main_loop_sleep_secs == DEFAULT_MAIN_LOOP_SLEEP_SECS,
            config.recording_duration_secs == DEFAULT_RECORDING_DURATION_SECS,
    {
        Config {
            dst_dir_path: String::from_str(DEFAULT_DST_DIR_PATH),
            main_loop_sleep_secs: DEFAULT_MAIN_LOOP_SLEEP_SECS,
            recording_duration_secs: DEFAULT_RECORDING_DURATION_SECS,
        }
    }
}

} // verus!
