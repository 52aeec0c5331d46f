//! Limits for parsers that run in isolation.

use vstd::prelude::*;
use crate::error::span_nanos;

verus! {

/// Memory that a sandboxed parser may use where nothing else is said: 64 MiB.
pub const DEFAULT_MAX_MEMORY: usize = 67108864;

/// Seconds that a sandboxed parser may run where nothing else is said.
pub const DEFAULT_MAX_SECONDS: u64 = 30;

/// Instructions that a sandboxed parser may execute where nothing else is said.
pub const DEFAULT_MAX_INSTRUCTIONS: u64 = 1000000000;

/// Nanoseconds in one second.
pub const NANOS_PER_SECOND: u64 = 1000000000;

/// A copy of a span of time is the same span.
pub assume_specification[ <std::time::Duration as Clone>::clone ](
    span: &std::time::Duration,
) -> (r: std::time::Duration)
    ensures
        r == *span,
;

/// The limits of a sandbox.
#[derive(Debug, Clone)]
pub struct SandboxConfig {
    /// Most memory of one instance, in bytes.
    pub max_memory: usize,
    /// Longest time of one execution.
    pub max_execution_time: std::time::Duration,
    /// Most instructions of one execution, where they are counted.
    pub max_instructions: Option<u64>,
}

/// What a configuration limits: memory in bytes, time in nanoseconds, and instructions.
pub ghost struct SandboxConfigView {
    pub max_memory: usize,
    pub max_nanos: nat,
    pub max_instructions: Option<u64>,
}

impl View for SandboxConfig {
    type V = SandboxConfigView;

    open spec fn view(&self) -> SandboxConfigView {
        SandboxConfigView {
            max_memory: self.max_memory,
            max_nanos: span_nanos(self.max_execution_time),
            max_instructions: self.max_instructions,
        }
    }
}

/// The limits that hold where nothing else is said: 64 MiB, 30 seconds and a thousand
/// million instructions.
pub open spec fn default_limits() -> SandboxConfigView {
    SandboxConfigView {
        max_memory: DEFAULT_MAX_MEMORY,
        max_nanos: (DEFAULT_MAX_SECONDS * NANOS_PER_SECOND) as nat,
        max_instructions: Some(DEFAULT_MAX_INSTRUCTIONS),
    }
}

/// A span of whole seconds. Calls `Duration::from_secs`: the span is as many thousand
/// million nanoseconds long as `count` says.
#[verifier::external_body]
fn seconds(count: u64) -> (r: std::time::Duration)
    ensures
        span_nanos(r) == count * NANOS_PER_SECOND,
{
    std::time::Duration::from_secs(count)
}

impl Default for SandboxConfig {
    fn default() -> (r: SandboxConfig)
        ensures
            r@ == default_limits(),
    {
        SandboxConfig {
            max_memory: DEFAULT_MAX_MEMORY,
            max_execution_time: seconds(DEFAULT_MAX_SECONDS),
            max_instructions: Some(DEFAULT_MAX_INSTRUCTIONS),
        }
    }
}

/// Runs parsers within the limits of its configuration.
#[derive(Debug)]
pub struct SandboxManager {
    config: SandboxConfig,
}

impl SandboxManager {
    /// The configuration of the manager.
    pub closed spec fn spec_config(&self) -> SandboxConfig {
        self.config
    }

    /// A manager with the given configuration.
    pub fn new(config: SandboxConfig) -> (r: SandboxManager)
        ensures
            r.spec_config() == config,
    {
        SandboxManager { config }
    }

    /// A manager with the default configuration.
    pub fn default_config() -> (r: SandboxManager)
        ensures
            r.spec_config()@ == default_limits(),
    {
        SandboxManager::new(SandboxConfig::default())
    }

    /// The configuration of the manager.
    pub fn config(&self) -> (r: &SandboxConfig)
        ensures
            *r == self.spec_config(),
    {
        &self.config
    }
}

} // verus!
