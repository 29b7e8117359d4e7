//! Configuration faults, found before any connection is made.

use vstd::prelude::*;

verus! {

/// Why a run, a workload or a worker cannot be set up.
#[derive(Clone, Copy, Debug, PartialEq, Eq, Structural)]
pub enum ConfigError {
    /// The five mix percentages do not add up to 100.
    MixSum,
    /// The prefill fraction is not a fraction between 0 and 1.
    PrefillFraction,
    /// The number of keys of a worker is not a power of two greater than 4.
    KeyCount,
    /// A worker would have to insert more keys than it holds.
    KeysExhausted,
    /// The run has no worker.
    NoThreads,
    /// A batch holds no operation.
    EmptyBatch,
    /// A size of the run does not fit the machine word.
    TooLarge,
}

impl ConfigError {
    /// A one-line description for the operator.
    pub fn describe(&self) -> (text: &'static str)
        ensures
            text@ == (match *self {
                ConfigError::MixSum => "mix percentages must sum to 100"@,
                ConfigError::PrefillFraction => "prefill fraction must lie between 0 and 1"@,
                ConfigError::KeyCount => "key count must be a power of two greater than 4"@,
                ConfigError::KeysExhausted => "workload inserts more keys than the worker holds"@,
                ConfigError::NoThreads => "at least one worker thread is needed"@,
                ConfigError::EmptyBatch => "a batch must hold at least one operation"@,
                ConfigError::TooLarge => "run size does not fit the machine word"@,
            }),
    {
        match self {
            ConfigError::MixSum => "mix percentages must sum to 100",
            ConfigError::PrefillFraction => "prefill fraction must lie between 0 and 1",
            ConfigError::KeyCount => "key count must be a power of two greater than 4",
            ConfigError::KeysExhausted => "workload inserts more keys than the worker holds",
            ConfigError::NoThreads => "at least one worker thread is needed",
            ConfigError::EmptyBatch => "a batch must hold at least one operation",
            ConfigError::TooLarge => "run size does not fit the machine word",
        }
    }
}

} // verus!
