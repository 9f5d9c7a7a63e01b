//! Activities: their states, their retry policy, and the task that a worker receives.

use vstd::prelude::*;
use vstd::string::*;
use crate::json::{Entries, Json};
use crate::seconds::Seconds;
use crate::text::Text;

verus! {

/// State of an activity execution.
#[derive(Clone, Copy, Debug, PartialEq, Eq, Structural)]
pub enum ActivityState {
    Pending,
    Running,
    Completed,
    Failed,
    Retried,
}

impl Default for ActivityState {
    fn default() -> (r: ActivityState)
        ensures
            r == ActivityState::Pending,
    {
        ActivityState::Pending
    }
}

impl DeepView for ActivityState {
    type V = ActivityState;

    open spec fn deep_view(&self) -> ActivityState {
        *self
    }
}

/// The word for a state in the tables.
pub open spec fn activity_state_word(state: ActivityState) -> Text {
    match state {
        ActivityState::Pending => "pending"@,
        ActivityState::Running => "running"@,
        ActivityState::Completed => "completed"@,
        ActivityState::Failed => "failed"@,
        ActivityState::Retried => "retried"@,
    }
}

/// The word for a state in the tables.
pub fn activity_state_to_str(state: ActivityState) -> (r: &'static str)
    ensures
        r@ == activity_state_word(state),
{
    match state {
        ActivityState::Pending => "pending",
        ActivityState::Running => "running",
        ActivityState::Completed => "completed",
        ActivityState::Failed => "failed",
        ActivityState::Retried => "retried",
    }
}

/// Retry configuration for activities and workflow steps.
#[derive(Clone, Copy, Debug, PartialEq, Eq, Structural)]
pub struct RetryPolicy {
    /// Maximum number of attempts (including the first).
    pub maximum_attempts: u32,
    /// Initial retry interval in seconds.
    pub initial_interval_secs: Seconds,
}

impl RetryPolicy {
    /// No attempts beyond the first, and an interval of zero.
    pub open spec fn unset() -> RetryPolicy {
        RetryPolicy { maximum_attempts: 0, initial_interval_secs: Seconds::zero() }
    }

    /// Create a new retry policy with defaults.
    pub fn new() -> (r: RetryPolicy)
        ensures
            r == RetryPolicy::unset(),
    {
        RetryPolicy::default()
    }

    /// Seconds to wait after attempt number `attempt` failed: the initial interval, doubled for
    /// each attempt after the first. The exponent is taken as a 32-bit signed number.
    pub open spec fn backoff(self, attempt: u32) -> int {
        self.initial_interval_secs.scaled_to_i64(backoff_exponent(attempt))
    }

    /// Computes the seconds to wait after attempt number `attempt` failed.
    pub fn backoff_secs(&self, attempt: u32) -> (r: i64)
        ensures
            r == self.backoff(attempt),
    {
        let doublings: u32 = if attempt == 0 { 0 } else { attempt - 1 };
        let k: i32 = if doublings < 0x8000_0000 {
            doublings as i32
        } else {
            let above: u32 = doublings - 0x8000_0000;
            (above as i64 - 0x8000_0000i64) as i32
        };
        self.initial_interval_secs.scale_to_i64(k)
    }
}

/// How often the interval is doubled after attempt number `attempt`: once for each attempt after
/// the first, read as a 32-bit signed number.
pub open spec fn backoff_exponent(attempt: u32) -> int {
    let doublings = if attempt == 0 { 0 } else { attempt - 1 };
    if doublings < 0x8000_0000 {
        doublings
    } else {
        doublings - 0x1_0000_0000
    }
}

impl Default for RetryPolicy {
    fn default() -> (r: RetryPolicy)
        ensures
            r == RetryPolicy::unset(),
    {
        RetryPolicy { maximum_attempts: 0, initial_interval_secs: Seconds { bits: 0 } }
    }
}

impl DeepView for RetryPolicy {
    type V = RetryPolicy;

    open spec fn deep_view(&self) -> RetryPolicy {
        *self
    }
}

/// From one failed attempt to the next the wait doubles, up to the fraction of a second that
/// rounding drops, until the largest number of seconds is reached.
pub proof fn law_backoff_doubles(policy: RetryPolicy, attempt: u32)
    requires
        1 <= attempt < 1024,
        !policy.initial_interval_secs.negative(),
        !policy.initial_interval_secs.is_nan(),
    ensures
        policy.backoff(attempt) >= 0,
        policy.backoff((attempt + 1) as u32) >= policy.backoff(attempt),
        policy.backoff((attempt + 1) as u32) < i64::MAX ==> {
            ||| policy.backoff((attempt + 1) as u32) == 2 * policy.backoff(attempt)
            ||| policy.backoff((attempt + 1) as u32) == 2 * policy.backoff(attempt) + 1
        },
{
    crate::seconds::law_scaling_doubles(policy.initial_interval_secs, attempt - 1);
}

/// Result of an activity execution.
#[derive(Clone, Debug)]
pub enum ActivityResult {
    /// Activity completed successfully with a JSON result.
    Success(Json),
    /// Activity failed with an error message.
    Failure(String),
}

/// A task representing a single activity to be executed by a worker.
#[derive(Clone, Debug)]
pub struct ActivityTask {
    /// Unique activity identifier.
    pub activity_id: String,
    /// Parent step instance ID.
    pub step_id: String,
    /// Parent workflow run ID.
    pub workflow_run_id: String,
    /// Name of the activity type.
    pub name: String,
    /// Arguments for this activity invocation.
    pub args: Vec<(String, String)>,
    /// Retry configuration.
    pub retry_policy: RetryPolicy,
    /// Maximum time between heartbeats before timeout (seconds).
    pub heartbeat_timeout_secs: u64,
    /// Maximum wall-clock time from start to close (seconds).
    pub start_to_close_timeout_secs: u64,
}

/// The view of an [`ActivityTask`].
#[verifier::ext_equal]
pub struct ActivityTaskView {
    pub activity_id: Text,
    pub step_id: Text,
    pub workflow_run_id: Text,
    pub name: Text,
    pub args: Entries,
    pub retry_policy: RetryPolicy,
    pub heartbeat_timeout_secs: u64,
    pub start_to_close_timeout_secs: u64,
}

impl DeepView for ActivityTask {
    type V = ActivityTaskView;

    open spec fn deep_view(&self) -> ActivityTaskView {
        ActivityTaskView {
            activity_id: self.activity_id@,
            step_id: self.step_id@,
            workflow_run_id: self.workflow_run_id@,
            name: self.name@,
            args: self.args.deep_view(),
            retry_policy: self.retry_policy,
            heartbeat_timeout_secs: self.heartbeat_timeout_secs,
            start_to_close_timeout_secs: self.start_to_close_timeout_secs,
        }
    }
}

} // verus!
