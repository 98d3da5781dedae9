use vstd::prelude::*;

verus! {

/// Attempts made after a lost connection before giving up.
pub const DEFAULT_MAX_ATTEMPTS: u32 = 12;

/// Wait before each attempt, in milliseconds.
pub const DEFAULT_DELAY_MS: u64 = 5000;

/// A fixed retry budget with a fixed wait before each attempt.
#[derive(Clone, Copy, Debug, PartialEq, Eq, Structural)]
pub struct ReconnectPolicy {
    pub max_attempts: u32,
    pub delay_ms: u64,
}

impl ReconnectPolicy {
    /// A policy allows at least one attempt.
    pub open spec fn wf(self) -> bool {
        self.max_attempts >= 1
    }

    /// The usual policy: twelve attempts, five seconds apart.
    pub fn new() -> (r: ReconnectPolicy)
        ensures
            r.wf(),
            r.max_attempts == DEFAULT_MAX_ATTEMPTS,
            r.delay_ms == DEFAULT_DELAY_MS,
    {
        ReconnectPolicy { max_attempts: DEFAULT_MAX_ATTEMPTS, delay_ms: DEFAULT_DELAY_MS }
    }

    /// Whether another attempt is allowed after `failed` attempts failed.
    pub open spec fn may_retry_spec(self, failed: int) -> bool {
        failed < self.max_attempts
    }

    /// Tells whether another attempt is allowed after `failed` attempts failed.
    pub fn may_retry(&self, failed: u32) -> (r: bool)
        ensures
            r == self.may_retry_spec(failed as int),
    {
        failed < self.max_attempts
    }
}

} // verus!
