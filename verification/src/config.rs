//! Constants and configuration used by the experiments.
use vstd::prelude::*;

verus! {

/// Default capacity of the message queue, 0 is unbounded.
pub const QUEUE_CAPACITY: usize = 5000;

/// Default count of elements in a single daisy chain.
pub const PIPELINES: usize = 5;

/// Default count of parallel daisy chains.
pub const LANES: usize = 4000;

/// Default count of messages to send into each lane.
pub const MESSAGES: usize = 100;

/// Default count of how many times to inject messages into the lanes.
pub const ITERATIONS: usize = 1;

/// Default count of threads the async executor will use.
pub const ASYNC_THREAD_COUNT: usize = 1;

/// Logging verbosity. `Off` is the level that the command line calls "none".
#[derive(Debug, Copy, Clone, PartialEq, Eq, Structural)]
pub enum Verbosity {
    Off,
    All,
    Notify,
}

/// Default logging verbosity.
pub const VERBOSITY: Verbosity = Verbosity::Off;

impl Default for Verbosity {
    fn default() -> (v: Self)
        ensures
            v == VERBOSITY,
    {
        VERBOSITY
    }
}

/// Configuration for the experiment.
#[derive(Debug, Copy, Clone)]
pub struct ExperimentConfig {
    /// Capacity of the message queue, zero is unbounded.
    pub capacity: usize,
    /// Count of forwarders in a lane.
    pub pipelines: usize,
    /// Count of lanes.
    pub lanes: usize,
    /// Count of messages per lane.
    pub messages: usize,
    /// Count of iterations of an experiment.
    pub iterations: usize,
    /// Count of threads the async executor will use.
    pub threads: usize,
    /// Verbosity level, mostly used for debugging.
    pub verbosity: Verbosity,
}

/// The configuration an experiment runs with when nothing overrides it.
pub open spec fn default_config() -> ExperimentConfig {
    ExperimentConfig {
        capacity: QUEUE_CAPACITY,
        pipelines: PIPELINES,
        lanes: LANES,
        messages: MESSAGES,
        iterations: ITERATIONS,
        threads: ASYNC_THREAD_COUNT,
        verbosity: VERBOSITY,
    }
}

impl Default for ExperimentConfig {
    fn default() -> (c: Self)
        ensures
            c == default_config(),
    {
        ExperimentConfig {
            capacity: QUEUE_CAPACITY,
            pipelines: PIPELINES,
            lanes: LANES,
            messages: MESSAGES,
            iterations: ITERATIONS,
            threads: ASYNC_THREAD_COUNT,
            verbosity: VERBOSITY,
        }
    }
}

} // verus!
