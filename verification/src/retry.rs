//! Failed attempts: whether and when a step is tried again.

use vstd::prelude::*;
use vstd::string::*;
use crate::activity::{ActivityState, RetryPolicy};
use crate::clock::{four_digit_year, plus_seconds, time_text, MAX_SECS, MIN_SECS, Timestamp};
use crate::db::activities::{activity_state_updated, ready, step_set, step_state_updated, update_activity_state_at, update_step_state};
use crate::db::rows::{lemma_with_key_changed, with_key, Database, StepRecord, Store};
use crate::db::workflows::time_column;
use crate::text::Text;
use crate::workflow::WorkflowState;

verus! {

/// Another attempt is allowed after attempt number `attempt`.
pub open spec fn retries(policy: RetryPolicy, attempt: u32) -> bool {
    attempt < policy.maximum_attempts
}

/// When the next attempt may start, where one is allowed and attempt number `attempt` failed at
/// `now`.
pub open spec fn next_retry(policy: RetryPolicy, attempt: u32, now: Timestamp) -> Option<Timestamp> {
    if retries(policy, attempt) {
        plus_seconds(now, policy.backoff(attempt))
    } else {
        None
    }
}

/// The time of the next attempt, where one is allowed, lies on the calendar.
pub open spec fn retry_on_calendar(policy: RetryPolicy, attempt: u32, now: Timestamp) -> bool {
    retries(policy, attempt) ==> MIN_SECS <= now.second() + policy.backoff(attempt) <= MAX_SECS
}

/// Whether the time of the next attempt, where one is allowed, lies on the calendar.
pub fn retry_fits(policy: &RetryPolicy, attempt: u32, now: &Timestamp) -> (r: bool)
    ensures
        r == retry_on_calendar(*policy, attempt, *now),
{
    if attempt >= policy.maximum_attempts {
        return true;
    }
    let sum: i128 = now.seconds() as i128 + policy.backoff_secs(attempt) as i128;
    MIN_SECS as i128 <= sum && sum <= MAX_SECS as i128
}

/// The tables after attempt number `attempt` of a step failed: the attempt is marked with the
/// error, and its step waits for the next attempt with exponential backoff, or fails where no more
/// is allowed.
pub open spec fn attempt_failed(
    s: Store,
    activity_id: Text,
    step_id: Text,
    attempt: u32,
    policy: RetryPolicy,
    error: Text,
    now: Timestamp,
) -> Store {
    let marked = activity_state_updated(
        s,
        activity_id,
        ActivityState::Failed,
        None,
        Some(error),
        now,
    ).0;
    let state = if retries(policy, attempt) {
        WorkflowState::Pending
    } else {
        WorkflowState::Failed
    };
    step_state_updated(
        marked,
        step_id,
        state,
        Some(attempt),
        None,
        next_retry(policy, attempt, now),
    ).0
}

/// The step may be handed out from `at` on, and not before.
pub open spec fn ready_from(s: Store, step_id: Text, at: Timestamp) -> bool {
    with_key(s.steps, step_id) matches Some(row) ==> forall|u: Timestamp|
        four_digit_year(u) ==> (ready(row, #[trigger] time_text(u)) <==> at.second() <= u.second())
}

/// Marks an attempt as failed, and its step for the next attempt or as failed. Gives the time of
/// the next attempt, where one is allowed; the step may be handed out from that second on, and not
/// before.
pub fn fail_attempt(
    db: &mut Database,
    activity_id: &str,
    step_id: &str,
    attempt: u32,
    policy: &RetryPolicy,
    error: &str,
    now: &Timestamp,
) -> (r: Option<Timestamp>)
    requires
        now.ordinary(),
        retry_on_calendar(*policy, attempt, *now),
    ensures
        final(db).deep_view() == attempt_failed(
            old(db).deep_view(),
            activity_id@,
            step_id@,
            attempt,
            *policy,
            error@,
            *now,
        ),
        r == next_retry(*policy, attempt, *now),
        r is Some <==> retries(*policy, attempt),
        r matches Some(at) ==> four_digit_year(at) ==> ready_from(
            final(db).deep_view(),
            step_id@,
            at,
        ),
{
    let ghost before = db.deep_view();
    let _marked: Result<(), String> = update_activity_state_at(
        db,
        activity_id,
        ActivityState::Failed,
        None,
        Some(error),
        now,
    );
    if attempt < policy.maximum_attempts {
        let at: Option<Timestamp> = now.plus(policy.backoff_secs(attempt));
        let _set: Result<(), String> = update_step_state(
            db,
            step_id,
            WorkflowState::Pending,
            Some(attempt),
            None,
            at,
        );
        proof {
            lemma_with_key_changed(
                before.steps,
                step_id@,
                |row: StepRecord|
                    step_set(row, ActivityState::Pending, Some(attempt), None, time_column(at)),
                step_id@,
            );
        }
        at
    } else {
        let _set: Result<(), String> = update_step_state(
            db,
            step_id,
            WorkflowState::Failed,
            Some(attempt),
            None,
            None,
        );
        None
    }
}

} // verus!
