//! The decisions of one task execution: how long it may run, how often it
//! is tried, and what follows a failed attempt.
use vstd::prelude::*;
use crate::dag::definition::TaskDefinition;

verus! {

/// Seconds a task may run when its definition sets no timeout.
pub const DEFAULT_TIMEOUT_SECS: u64 = 3600;

/// Seconds to wait before a retry when the definition sets no delay.
pub const DEFAULT_RETRY_DELAY_SECS: u64 = 60;

/// The number of retries a task allows (none when unset).
pub open spec fn spec_retries(task: TaskDefinition) -> int {
    match task.retries {
        Some(n) => n as int,
        None => 0,
    }
}

/// What follows an attempt of a task.
#[derive(Debug, Clone, PartialEq)]
pub enum AttemptOutcome {
    /// The attempt succeeded; its output is kept as log and as the task's
    /// output.
    Succeeded { output: String },
    /// The attempt failed and is retried after `delay_secs` seconds as
    /// attempt `next_attempt`.
    Retry { error: String, delay_secs: u64, next_attempt: u32 },
    /// The attempt failed and no attempt is left: the task fails.
    GaveUp { error: String },
}

/// The number of attempts a task gets: its retries plus one.
pub fn max_attempts(task: &TaskDefinition) -> (r: u32)
    requires
        spec_retries(*task) < u32::MAX,
    ensures
        r == spec_retries(*task) + 1,
{
    match task.retries {
        Some(n) => n + 1,
        None => 1,
    }
}

/// Seconds the task may run before the attempt is stopped.
pub fn timeout_secs(task: &TaskDefinition) -> (r: u64)
    ensures
        r == match task.timeout_secs {
            Some(t) => t,
            None => DEFAULT_TIMEOUT_SECS,
        },
{
    match task.timeout_secs {
        Some(t) => t,
        None => DEFAULT_TIMEOUT_SECS,
    }
}

/// Seconds to wait before retrying the task.
pub fn retry_delay_secs(task: &TaskDefinition) -> (r: u64)
    ensures
        r == match task.retry_delay_secs {
            Some(t) => t,
            None => DEFAULT_RETRY_DELAY_SECS,
        },
{
    match task.retry_delay_secs {
        Some(t) => t,
        None => DEFAULT_RETRY_DELAY_SECS,
    }
}

/// Decides what follows attempt number `attempt` of `task`, given its
/// output or its error text: success is kept; a failure is retried while
/// `attempt` is below the number of attempts, and is final otherwise.
pub fn after_attempt(task: &TaskDefinition, attempt: u32, result: Result<String, String>) -> (r:
    AttemptOutcome)
    requires
        spec_retries(*task) < u32::MAX,
    ensures
        match result {
            Ok(out) => r == AttemptOutcome::Succeeded { output: out },
            Err(e) => if attempt < spec_retries(*task) + 1 {
                r == AttemptOutcome::Retry {
                    error: e,
                    delay_secs: match task.retry_delay_secs {
                        Some(t) => t,
                        None => DEFAULT_RETRY_DELAY_SECS,
                    },
                    next_attempt: (attempt + 1) as u32,
                }
            } else {
                r == AttemptOutcome::GaveUp { error: e }
            },
        },
{
    match result {
        Ok(out) => AttemptOutcome::Succeeded { output: out },
        Err(e) => {
            let max = max_attempts(task);
            if attempt < max {
                AttemptOutcome::Retry {
                    error: e,
                    delay_secs: retry_delay_secs(task),
                    next_attempt: attempt + 1,
                }
            } else {
                AttemptOutcome::GaveUp { error: e }
            }
        },
    }
}

} // verus!
