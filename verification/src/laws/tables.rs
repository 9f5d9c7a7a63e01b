//! Every operation keeps the rules of the tables.

use vstd::prelude::*;
use crate::activity::{ActivityState, RetryPolicy};
use crate::clock::{time_text, Timestamp};
use crate::db::activities::RunningActivityView;
use crate::db::activities::{activity_state_updated, attempt_inserted, attempt_record, attempt_set, beaten, heartbeat_updated, step_inserted, step_record, step_set, step_state, step_state_updated};
use crate::db::rows::{changed, consistent, has_key, lemma_changed_keeps_keys, lemma_map_keeps_keys, lemma_push_keeps_keys, unique_keys, with_key, ActivityRecord, Keyed, ScheduleRecord, StepRecord, Store, WorkflowRecord};
use crate::db::schedules::{other_schedule, schedule_deleted, schedule_row_inserted, schedule_set, schedule_spec_updated};
use crate::db::workflows::{cancelled, state_set, time_column, workflow_cancelled, workflow_inserted, workflow_record, workflow_state_updated};
use crate::engine::{attempt_in, event_handled, heartbeats_checked, policy_of, reset_to_pending, retries_checked, retry_has_come, started, workflow_processed, workflow_started, workflows_advanced, EngineEventView};
use crate::retry::{attempt_failed, next_retry, retries};
use crate::schedule::ScheduleView;
use crate::scheduler::{own_run, run_triggered, runs_terminated, schedule_processed, scheduled_run, scheduled_steps};
use crate::service::schedules::{schedule_asked, schedule_created, schedule_updated, CreateScheduleRequestView, SpecMessageView};
use crate::service::temporal;
use crate::service::worker::{activity_completed, activity_failure_reported, activity_polled, activity_result_reported, handed_out};
use crate::service::workflows::{cancel_told, run_asked, steps_asked, steps_created, workflow_begun, StartWorkflowRequestView};
use crate::text::Text;
use crate::workflow::{WorkflowInstanceView, WorkflowState, WorkflowStepInstanceView};

verus! {

// ---- changes to rows ------------------------------------------------------------------------

proof fn lemma_workflows_changed(s: Store, after: Seq<WorkflowRecord>)
    requires
        consistent(s),
        unique_keys(after),
        forall|k: Text| #[trigger] has_key(after, k) <==> has_key(s.workflows, k),
    ensures
        consistent(Store { workflows: after, ..s }),
{
    let t = Store { workflows: after, ..s };
    assert forall|i: int| 0 <= i < t.steps.len() implies has_key(
        t.workflows,
        (#[trigger] t.steps[i]).workflow_run_id,
    ) by {
        assert(has_key(s.workflows, s.steps[i].workflow_run_id));
    }
}

proof fn lemma_steps_changed(s: Store, after: Seq<StepRecord>)
    requires
        consistent(s),
        unique_keys(after),
        after.len() == s.steps.len(),
        forall|k: Text| #[trigger] has_key(after, k) <==> has_key(s.steps, k),
        forall|i: int|
            0 <= i < after.len() ==> (#[trigger] after[i]).workflow_run_id
                == s.steps[i].workflow_run_id,
    ensures
        consistent(Store { steps: after, ..s }),
{
    let t = Store { steps: after, ..s };
    assert forall|i: int| 0 <= i < t.steps.len() implies has_key(
        t.workflows,
        (#[trigger] t.steps[i]).workflow_run_id,
    ) by {
        assert(has_key(s.workflows, s.steps[i].workflow_run_id));
    }
    assert forall|i: int| 0 <= i < t.activities.len() implies has_key(
        t.steps,
        (#[trigger] t.activities[i]).step_id,
    ) by {
        assert(has_key(s.steps, s.activities[i].step_id));
    }
}

proof fn lemma_activities_changed(s: Store, after: Seq<ActivityRecord>)
    requires
        consistent(s),
        unique_keys(after),
        after.len() == s.activities.len(),
        forall|i: int|
            0 <= i < after.len() ==> (#[trigger] after[i]).step_id == s.activities[i].step_id && !(
            after[i].state is Retried),
    ensures
        consistent(Store { activities: after, ..s }),
{
    let t = Store { activities: after, ..s };
    assert forall|i: int| 0 <= i < t.activities.len() implies has_key(
        t.steps,
        (#[trigger] t.activities[i]).step_id,
    ) by {
        assert(has_key(s.steps, s.activities[i].step_id));
    }
}

// ---- the tables' own operations -------------------------------------------------------------

/// Inserting a run keeps the rules.
pub proof fn law_workflow_inserted(s: Store, wf: WorkflowInstanceView)
    requires
        consistent(s),
    ensures
        consistent(workflow_inserted(s, wf).0),
{
    let row = workflow_record(wf);
    lemma_push_keeps_keys(s.workflows, row);
    let t = Store { workflows: s.workflows.push(row), ..s };
    assert forall|i: int| 0 <= i < t.steps.len() implies has_key(
        t.workflows,
        (#[trigger] t.steps[i]).workflow_run_id,
    ) by {
        assert(has_key(s.workflows, s.steps[i].workflow_run_id));
    }
}

/// Setting the state of a run keeps the rules.
pub proof fn law_workflow_state_updated(
    s: Store,
    run_id: Text,
    state: WorkflowState,
    result: Option<Text>,
    completed_at: Option<Timestamp>,
)
    requires
        consistent(s),
    ensures
        consistent(workflow_state_updated(s, run_id, state, result, completed_at)),
{
    let change = |row: WorkflowRecord| state_set(row, state, result, time_column(completed_at));
    lemma_changed_keeps_keys(s.workflows, run_id, change);
    lemma_workflows_changed(s, changed(s.workflows, run_id, change));
}

/// Cancelling a run keeps the rules.
pub proof fn law_workflow_cancelled(s: Store, run_id: Text, now: Timestamp)
    requires
        consistent(s),
    ensures
        consistent(workflow_cancelled(s, run_id, now).0),
{
    let change = |row: WorkflowRecord| cancelled(row, time_text(now));
    lemma_changed_keeps_keys(s.workflows, run_id, change);
    lemma_workflows_changed(s, changed(s.workflows, run_id, change));
}

/// Inserting a step keeps the rules.
pub proof fn law_step_inserted(s: Store, step: WorkflowStepInstanceView, now: Timestamp)
    requires
        consistent(s),
    ensures
        consistent(step_inserted(s, step, now).0),
{
    if let Some(state) = step_state(step.state) {
        let row = step_record(step, state, now);
        lemma_push_keeps_keys(s.steps, row);
        let t = Store { steps: s.steps.push(row), ..s };
        if has_key(s.workflows, row.workflow_run_id) {
            assert forall|i: int| 0 <= i < t.steps.len() implies has_key(
                t.workflows,
                (#[trigger] t.steps[i]).workflow_run_id,
            ) by {
                if i < s.steps.len() {
                    assert(has_key(s.workflows, s.steps[i].workflow_run_id));
                }
            }
        }
        assert forall|i: int| 0 <= i < t.activities.len() implies has_key(
            t.steps,
            (#[trigger] t.activities[i]).step_id,
        ) by {
            assert(has_key(s.steps, s.activities[i].step_id));
        }
    }
}

/// Setting a step keeps the rules.
pub proof fn law_step_state_updated(
    s: Store,
    step_id: Text,
    state: WorkflowState,
    attempt: Option<u32>,
    result: Option<Text>,
    next_retry_at: Option<Timestamp>,
)
    requires
        consistent(s),
    ensures
        consistent(step_state_updated(s, step_id, state, attempt, result, next_retry_at).0),
{
    if let Some(to) = step_state(state) {
        let change = |row: StepRecord|
            step_set(row, to, attempt, result, time_column(next_retry_at));
        lemma_changed_keeps_keys(s.steps, step_id, change);
        lemma_steps_changed(s, changed(s.steps, step_id, change));
    }
}

/// Recording an attempt keeps the rules.
pub proof fn law_attempt_inserted(s: Store, id: Text, step_id: Text, attempt: u32, now: Timestamp)
    requires
        consistent(s),
    ensures
        consistent(attempt_inserted(s, id, step_id, attempt, now).0),
{
    let row = attempt_record(id, step_id, attempt, now);
    lemma_push_keeps_keys(s.activities, row);
    let t = Store { activities: s.activities.push(row), ..s };
    if has_key(s.steps, step_id) {
        assert forall|i: int| 0 <= i < t.activities.len() implies has_key(
            t.steps,
            (#[trigger] t.activities[i]).step_id,
        ) by {
            if i < s.activities.len() {
                assert(has_key(s.steps, s.activities[i].step_id));
            }
        }
        assert forall|i: int| 0 <= i < t.activities.len() implies !((
        #[trigger] t.activities[i]).state is Retried) by {
            if i < s.activities.len() {
                assert(!(s.activities[i].state is Retried));
            }
        }
    }
}

/// Ending an attempt keeps the rules.
pub proof fn law_activity_state_updated(
    s: Store,
    id: Text,
    state: ActivityState,
    result: Option<Text>,
    error: Option<Text>,
    now: Timestamp,
)
    requires
        consistent(s),
    ensures
        consistent(activity_state_updated(s, id, state, result, error, now).0),
{
    if !(state is Retried) {
        let change = |row: ActivityRecord| attempt_set(row, state, result, error, time_text(now));
        lemma_changed_keeps_keys(s.activities, id, change);
        let after = changed(s.activities, id, change);
        assert forall|i: int| 0 <= i < after.len() implies (#[trigger] after[i]).step_id
            == s.activities[i].step_id && !(after[i].state is Retried) by {
            assert(!(s.activities[i].state is Retried));
        }
        lemma_activities_changed(s, after);
    }
}

/// A heartbeat keeps the rules.
pub proof fn law_heartbeat_updated(s: Store, id: Text, now: Timestamp)
    requires
        consistent(s),
    ensures
        consistent(heartbeat_updated(s, id, now).0),
{
    let change = |row: ActivityRecord| beaten(row, time_text(now));
    lemma_changed_keeps_keys(s.activities, id, change);
    let after = changed(s.activities, id, change);
    assert forall|i: int| 0 <= i < after.len() implies (#[trigger] after[i]).step_id
        == s.activities[i].step_id && !(after[i].state is Retried) by {
        assert(!(s.activities[i].state is Retried));
    }
    lemma_activities_changed(s, after);
}

/// Inserting a schedule keeps the rules.
pub proof fn law_schedule_row_inserted(s: Store, row: ScheduleRecord)
    requires
        consistent(s),
    ensures
        consistent(schedule_row_inserted(s, row).0),
{
    lemma_push_keeps_keys(s.schedules, row);
}

/// Setting a schedule keeps the rules.
pub proof fn law_schedule_spec_updated(
    s: Store,
    schedule_id: Text,
    namespace: Text,
    schedule: ScheduleView,
    now: Timestamp,
)
    requires
        consistent(s),
    ensures
        consistent(schedule_spec_updated(s, schedule_id, namespace, schedule, now)),
{
    let change = |row: ScheduleRecord|
        if row.namespace == namespace {
            schedule_set(row, schedule, now)
        } else {
            row
        };
    lemma_changed_keeps_keys(s.schedules, schedule_id, change);
}

/// What a filter keeps has its keys apart.
proof fn lemma_filter_keeps_keys(rows: Seq<ScheduleRecord>, test: spec_fn(ScheduleRecord) -> bool)
    ensures
        unique_keys(rows) ==> unique_keys(rows.filter(test)),
        forall|i: int|
            0 <= i < rows.filter(test).len() ==> rows.contains(#[trigger] rows.filter(test)[i])
                && test(rows.filter(test)[i]),
    decreases rows.len(),
{
    reveal(Seq::filter);
    if rows.len() > 0 {
        let front = rows.drop_last();
        let kept = front.filter(test);
        let all = rows.filter(test);
        lemma_filter_keeps_keys(front, test);
        assert forall|i: int| 0 <= i < all.len() implies rows.contains(#[trigger] all[i]) && test(
            all[i],
        ) by {
            if i < kept.len() {
                assert(front.contains(kept[i]));
                let k = choose|k: int| 0 <= k < front.len() && front[k] == kept[i];
                assert(rows[k] == all[i]);
            } else {
                assert(rows[rows.len() - 1] == all[i]);
            }
        }
        if unique_keys(rows) {
            assert forall|i: int, j: int| 0 <= i < j < front.len() implies (
            #[trigger] front[i]).key() != (#[trigger] front[j]).key() by {
                assert(rows[i].key() != rows[j].key());
            }
            assert forall|i: int, j: int| 0 <= i < j < all.len() implies (
            #[trigger] all[i]).key() != (#[trigger] all[j]).key() by {
                assert(all[i] == kept[i]);
                if j < kept.len() {
                    assert(kept[i].key() != kept[j].key());
                } else {
                    assert(front.contains(kept[i]));
                    let k = choose|k: int| 0 <= k < front.len() && front[k] == kept[i];
                    assert(rows[k].key() != rows[rows.len() - 1].key());
                }
            }
        }
    }
}

/// Deleting a schedule keeps the rules.
pub proof fn law_schedule_deleted(s: Store, schedule_id: Text, namespace: Text)
    requires
        consistent(s),
    ensures
        consistent(schedule_deleted(s, schedule_id, namespace)),
{
    lemma_filter_keeps_keys(s.schedules, other_schedule(schedule_id, namespace));
}

/// A schedule that was deleted is no longer found, and every other schedule is as before.
pub proof fn law_deleted_schedule_is_gone(s: Store, schedule_id: Text, namespace: Text, other: Text)
    requires
        consistent(s),
    ensures
        with_key(s.schedules, schedule_id) matches Some(row) ==> row.namespace == namespace
            ==> with_key(schedule_deleted(s, schedule_id, namespace).schedules, schedule_id) is None,
        other != schedule_id ==> with_key(
            schedule_deleted(s, schedule_id, namespace).schedules,
            other,
        ) == with_key(s.schedules, other),
{
    lemma_deleted(s.schedules, schedule_id, namespace, other);
}

proof fn lemma_deleted(rows: Seq<ScheduleRecord>, schedule_id: Text, namespace: Text, other: Text)
    requires
        unique_keys(rows),
    ensures
        with_key(rows, schedule_id) matches Some(row) ==> row.namespace == namespace ==> with_key(
            rows.filter(other_schedule(schedule_id, namespace)),
            schedule_id,
        ) is None,
        other != schedule_id ==> with_key(
            rows.filter(other_schedule(schedule_id, namespace)),
            other,
        ) == with_key(rows, other),
    decreases rows.len(),
{
    reveal(Seq::filter);
    let test = other_schedule(schedule_id, namespace);
    if rows.len() > 0 {
        let front = rows.drop_last();
        let last = rows.last();
        let kept = front.filter(test);
        assert forall|i: int, j: int| 0 <= i < j < front.len() implies (
        #[trigger] front[i]).key() != (#[trigger] front[j]).key() by {
            assert(rows[i].key() != rows[j].key());
        }
        lemma_deleted(front, schedule_id, namespace, other);
        assert(rows =~= front.push(last));
        crate::db::rows::lemma_with_key_push(front, last, schedule_id);
        crate::db::rows::lemma_with_key_push(front, last, other);
        crate::db::rows::lemma_with_key_push(kept, last, schedule_id);
        crate::db::rows::lemma_with_key_push(kept, last, other);
        crate::db::rows::lemma_with_key(front, schedule_id);
        crate::db::rows::lemma_with_key(front, other);
        crate::db::rows::lemma_with_key(kept, schedule_id);
        crate::db::rows::lemma_with_key(kept, other);
        lemma_filter_keeps_keys(front, test);
        if has_key(kept, schedule_id) && !has_key(front, schedule_id) {
            let i = choose|i: int| 0 <= i < kept.len() && (#[trigger] kept[i]).key() == schedule_id;
            assert(front.contains(kept[i]));
            let k = choose|k: int| 0 <= k < front.len() && front[k] == kept[i];
            assert(front[k].key() == schedule_id);
        }
        if has_key(front, schedule_id) && last.key() == schedule_id {
            let i = choose|i: int|
                0 <= i < front.len() && (#[trigger] front[i]).key() == schedule_id;
            assert(rows[i].key() != rows[rows.len() - 1].key());
        }
    }
}

// ---- the engine -----------------------------------------------------------------------------

/// Starting a pending run keeps the rules.
pub proof fn law_workflow_started(s: Store, run_id: Text, now: Timestamp)
    requires
        consistent(s),
    ensures
        consistent(workflow_started(s, run_id, now)),
{
    let change = |row: WorkflowRecord| started(row, time_text(now));
    lemma_changed_keeps_keys(s.workflows, run_id, change);
    lemma_workflows_changed(s, changed(s.workflows, run_id, change));
}

/// Looking at a run keeps the rules.
pub proof fn law_workflow_processed(s: Store, run_id: Text, now: Timestamp)
    requires
        consistent(s),
    ensures
        consistent(workflow_processed(s, run_id, now)),
{
    law_workflow_started(s, run_id, now);
    let open = workflow_started(s, run_id, now);
    law_workflow_state_updated(open, run_id, WorkflowState::Failed, None, Some(now));
    law_workflow_state_updated(open, run_id, WorkflowState::Completed, None, Some(now));
}

/// Looking at runs one after the other keeps the rules.
pub proof fn law_workflows_advanced(s: Store, run_ids: Seq<Text>, now: Timestamp)
    requires
        consistent(s),
    ensures
        consistent(workflows_advanced(s, run_ids, now).0),
    decreases run_ids.len(),
{
    if run_ids.len() > 0 {
        law_workflows_advanced(s, run_ids.drop_last(), now);
        law_workflow_processed(
            workflows_advanced(s, run_ids.drop_last(), now).0,
            run_ids.last(),
            now,
        );
    }
}

/// A failed attempt keeps the rules.
pub proof fn law_attempt_failed(
    s: Store,
    activity_id: Text,
    step_id: Text,
    attempt: u32,
    policy: RetryPolicy,
    error: Text,
    now: Timestamp,
)
    requires
        consistent(s),
    ensures
        consistent(attempt_failed(s, activity_id, step_id, attempt, policy, error, now)),
{
    law_activity_state_updated(s, activity_id, ActivityState::Failed, None, Some(error), now);
    let marked = activity_state_updated(
        s,
        activity_id,
        ActivityState::Failed,
        None,
        Some(error),
        now,
    ).0;
    let state = if retries(policy, attempt) {
        WorkflowState::Pending
    } else {
        WorkflowState::Failed
    };
    law_step_state_updated(
        marked,
        step_id,
        state,
        Some(attempt),
        None,
        next_retry(policy, attempt, now),
    );
}

/// Every event that the engine handles keeps the rules.
pub proof fn law_event_handled(s: Store, event: EngineEventView, now: Timestamp)
    requires
        consistent(s),
    ensures
        consistent(event_handled(s, event, now).0),
{
    match event {
        EngineEventView::WorkflowCreated { run_id } => {
            law_workflow_processed(s, run_id, now);
        },
        EngineEventView::StepCompleted { workflow_run_id } => {
            law_workflow_processed(s, workflow_run_id, now);
        },
        EngineEventView::ScheduleChange => {
            law_workflows_advanced(
                s,
                crate::engine::active_rows(s.workflows).map_values(
                    |row: WorkflowRecord| row.run_id,
                ),
                now,
            );
        },
        EngineEventView::RetryDue { step_id } => {
            let change = |row: StepRecord| reset_to_pending(row);
            lemma_changed_keeps_keys(s.steps, step_id, change);
            let after = changed(s.steps, step_id, change);
            lemma_steps_changed(s, after);
            if let Some(step) = with_key(s.steps, step_id) {
                law_workflow_processed(Store { steps: after, ..s }, step.workflow_run_id, now);
            }
        },
        EngineEventView::HeartbeatTimeout { activity_id } => {
            if let Some(row) = with_key(s.activities, activity_id) {
                let attempt = attempt_in(row.attempt);
                let policy = policy_of(s.steps, row.step_id);
                law_attempt_failed(
                    s,
                    activity_id,
                    row.step_id,
                    attempt,
                    policy,
                    "Heartbeat timeout"@,
                    now,
                );
                let failed = attempt_failed(
                    s,
                    activity_id,
                    row.step_id,
                    attempt,
                    policy,
                    "Heartbeat timeout"@,
                    now,
                );
                if let Some(step) = with_key(failed.steps, row.step_id) {
                    law_workflow_processed(failed, step.workflow_run_id, now);
                }
            }
        },
    }
}

/// Resetting the steps whose time to retry has come keeps the rules.
pub proof fn law_retries_checked(s: Store, now: Timestamp)
    requires
        consistent(s),
    ensures
        consistent(retries_checked(s, now)),
{
    let change = |row: StepRecord|
        if retry_has_come(row, time_text(now)) {
            reset_to_pending(row)
        } else {
            row
        };
    lemma_map_keeps_keys(s.steps, change);
    lemma_steps_changed(s, s.steps.map_values(change));
}

/// Failing the attempts that have been silent for too long keeps the rules.
pub proof fn law_heartbeats_checked(s: Store, list: Seq<RunningActivityView>, now: Timestamp)
    requires
        consistent(s),
    ensures
        consistent(heartbeats_checked(s, list, now).0),
    decreases list.len(),
{
    if list.len() > 0 {
        law_heartbeats_checked(s, list.drop_last(), now);
        let before = heartbeats_checked(s, list.drop_last(), now).0;
        let a = list.last();
        law_attempt_failed(
            before,
            a.id,
            a.step_id,
            a.attempt,
            policy_of(before.steps, a.step_id),
            "Heartbeat timeout"@,
            now,
        );
    }
}

// ---- the services ---------------------------------------------------------------------------

/// Inserting the steps of a run keeps the rules.
pub proof fn law_steps_created(s: Store, steps: Seq<WorkflowStepInstanceView>, now: Timestamp)
    requires
        consistent(s),
    ensures
        consistent(steps_created(s, steps, now).0),
    decreases steps.len(),
{
    if steps.len() > 0 {
        law_steps_created(s, steps.drop_last(), now);
        law_step_inserted(steps_created(s, steps.drop_last(), now).0, steps.last(), now);
    }
}

/// A request to start a workflow keeps the rules.
pub proof fn law_workflow_begun(
    s: Store,
    req: StartWorkflowRequestView,
    run_id: u128,
    ids: Seq<u128>,
    now: Timestamp,
)
    requires
        consistent(s),
    ensures
        consistent(workflow_begun(s, req, run_id, ids, now).0),
{
    law_workflow_inserted(s, run_asked(req, run_id));
    law_steps_created(
        workflow_inserted(s, run_asked(req, run_id)).0,
        steps_asked(req, run_id, ids),
        now,
    );
}

/// A request to cancel a run keeps the rules.
pub proof fn law_cancel_told(s: Store, run_id: Text, now: Timestamp)
    requires
        consistent(s),
    ensures
        consistent(cancel_told(s, run_id, now).0),
{
    law_workflow_cancelled(s, run_id, now);
}

/// Handing out a step keeps the rules.
pub proof fn law_handed_out(s: Store, step: WorkflowStepInstanceView, activity_id: u128, now: Timestamp)
    requires
        consistent(s),
    ensures
        consistent(handed_out(s, step, activity_id, now).0),
{
    let attempt = (step.attempt + 1) as u32;
    let id = crate::ids::uuid_text(step.id);
    law_step_state_updated(s, id, WorkflowState::Running, Some(attempt), None, None);
    let running = step_state_updated(
        s,
        id,
        WorkflowState::Running,
        Some(attempt),
        None,
        None,
    ).0;
    law_attempt_inserted(running, crate::ids::uuid_text(activity_id), id, attempt, now);
    let recorded = attempt_inserted(
        running,
        crate::ids::uuid_text(activity_id),
        id,
        attempt,
        now,
    ).0;
    law_workflow_started(recorded, crate::ids::uuid_text(step.workflow_run_id), now);
}

/// A poll for activities keeps the rules.
pub proof fn law_activity_polled(
    s: Store,
    queue: Text,
    types: Seq<Text>,
    activity_id: u128,
    now: Timestamp,
)
    requires
        consistent(s),
    ensures
        consistent(activity_polled(s, queue, types, activity_id, now).0),
{
    if let Ok(Some(step)) = crate::service::worker::step_offered(s, queue, types, now) {
        law_handed_out(s, step, activity_id, now);
    }
}

/// A report of a result keeps the rules.
pub proof fn law_activity_result_reported(
    s: Store,
    activity_id: Text,
    result_json: Text,
    now: Timestamp,
)
    requires
        consistent(s),
    ensures
        consistent(activity_result_reported(s, activity_id, result_json, now).0),
{
    if let Ok(result) = crate::service::worker::result_reported(result_json) {
        lemma_activity_completed(s, activity_id, result, now);
    }
}

proof fn lemma_activity_completed(s: Store, activity_id: Text, result: Text, now: Timestamp)
    requires
        consistent(s),
    ensures
        consistent(activity_completed(s, activity_id, result, now).0),
{
    law_activity_state_updated(
        s,
        activity_id,
        ActivityState::Completed,
        Some(result),
        None,
        now,
    );
    let marked = activity_state_updated(
        s,
        activity_id,
        ActivityState::Completed,
        Some(result),
        None,
        now,
    ).0;
    if let Some(row) = with_key(marked.activities, activity_id) {
        law_step_state_updated(
            marked,
            row.step_id,
            WorkflowState::Completed,
            None,
            Some(result),
            None,
        );
    }
}

/// A report of a failure keeps the rules.
pub proof fn law_activity_failure_reported(
    s: Store,
    activity_id: Text,
    error_message: Text,
    now: Timestamp,
)
    requires
        consistent(s),
    ensures
        consistent(activity_failure_reported(s, activity_id, error_message, now).0),
{
    if let Ok((step_id, attempt, policy)) = crate::service::worker::failure_found(s, activity_id) {
        law_attempt_failed(s, activity_id, step_id, attempt, policy, error_message, now);
    }
}

/// A request to create a schedule keeps the rules.
pub proof fn law_schedule_created(s: Store, req: CreateScheduleRequestView, now: Timestamp)
    requires
        consistent(s),
    ensures
        consistent(schedule_created(s, req, now).0),
{
    if let Ok(schedule) = schedule_asked(req, now) {
        law_schedule_row_inserted(s, crate::db::schedules::schedule_record(schedule, now));
    }
}

/// A request to change a schedule keeps the rules.
pub proof fn law_schedule_updated(
    s: Store,
    schedule_id: Text,
    namespace: Text,
    spec: Option<SpecMessageView>,
    now: Timestamp,
)
    requires
        consistent(s),
    ensures
        consistent(schedule_updated(s, schedule_id, namespace, spec, now).0),
{
    assert forall|schedule: ScheduleView| consistent(
        #[trigger] schedule_spec_updated(s, schedule_id, namespace, schedule, now),
    ) by {
        law_schedule_spec_updated(s, schedule_id, namespace, schedule, now);
    }
}

// ---- the scheduler --------------------------------------------------------------------------

/// Cancelling the runs of a schedule keeps the rules.
pub proof fn law_runs_terminated(s: Store, schedule_id: Text, now: Timestamp)
    requires
        consistent(s),
    ensures
        consistent(runs_terminated(s, schedule_id, now)),
{
    let change = |row: WorkflowRecord|
        if own_run(row, schedule_id) {
            cancelled(row, time_text(now))
        } else {
            row
        };
    lemma_map_keeps_keys(s.workflows, change);
    lemma_workflows_changed(s, s.workflows.map_values(change));
}

/// A schedule that is looked at, and starts a run or not, keeps the rules.
pub proof fn law_schedule_processed(
    s: Store,
    schedule_id: Text,
    run_id: u128,
    ids: Seq<u128>,
    now: Timestamp,
)
    requires
        consistent(s),
    ensures
        consistent(schedule_processed(s, schedule_id, run_id, ids, now).0),
{
    if let Some(row) = with_key(s.schedules, schedule_id) {
        law_runs_terminated(s, schedule_id, now);
        lemma_run_triggered(s, row, run_id, ids, now);
        lemma_run_triggered(runs_terminated(s, schedule_id, now), row, run_id, ids, now);
    }
}

proof fn lemma_run_triggered(
    s: Store,
    row: ScheduleRecord,
    run_id: u128,
    ids: Seq<u128>,
    now: Timestamp,
)
    requires
        consistent(s),
    ensures
        consistent(run_triggered(s, row, run_id, ids, now).0),
{
    law_workflow_inserted(s, scheduled_run(row, run_id, now));
    law_steps_created(
        workflow_inserted(s, scheduled_run(row, run_id, now)).0,
        scheduled_steps(row, run_id, ids),
        now,
    );
}

// ---- the Temporal service -------------------------------------------------------------------

/// Registering a namespace keeps the rules.
pub proof fn law_namespace_registered(s: Store, name: Text)
    requires
        consistent(s),
    ensures
        consistent(temporal::namespace_registered(s, name)),
{
    if !s.namespaces.contains(name) {
        let after = s.namespaces.push(name);
        assert forall|i: int, j: int|
            0 <= i < after.len() && 0 <= j < after.len() && i != j implies after[i] != after[j] by {
            if i < s.namespaces.len() && j < s.namespaces.len() {
                assert(s.namespaces[i] != s.namespaces[j]);
            } else if i < s.namespaces.len() {
                assert(s.namespaces.contains(s.namespaces[i]));
            } else {
                assert(s.namespaces.contains(s.namespaces[j]));
            }
        }
    }
}

/// A request to start a run keeps the rules.
pub proof fn law_execution_begun(
    s: Store,
    req: temporal::StartWorkflowExecutionRequestView,
    run_id: u128,
    ids: Seq<u128>,
    now: Timestamp,
)
    requires
        consistent(s),
    ensures
        consistent(temporal::execution_begun(s, req, run_id, ids, now).0),
{
    law_workflow_inserted(s, temporal::execution_asked(req, run_id));
    law_steps_created(
        workflow_inserted(s, temporal::execution_asked(req, run_id)).0,
        temporal::execution_steps(req, run_id, ids),
        now,
    );
}

/// A poll of a task queue keeps the rules.
pub proof fn law_queue_polled(s: Store, queue: Text, activity_id: u128, now: Timestamp)
    requires
        consistent(s),
    ensures
        consistent(temporal::queue_polled(s, queue, activity_id, now).0),
{
    if let Ok(Some(step)) = temporal::step_queued(s, queue, now) {
        law_handed_out(s, step, activity_id, now);
    }
}

/// A response with a result keeps the rules.
pub proof fn law_task_completed(
    s: Store,
    token: Seq<u8>,
    result: Option<Seq<Seq<u8>>>,
    now: Timestamp,
)
    requires
        consistent(s),
    ensures
        consistent(temporal::task_completed(s, token, result, now).0),
{
    let activity_id = crate::text::lossy_text(token);
    let value = temporal::result_value(result);
    law_activity_state_updated(
        s,
        activity_id,
        ActivityState::Completed,
        Some(value),
        None,
        now,
    );
    let marked = activity_state_updated(
        s,
        activity_id,
        ActivityState::Completed,
        Some(value),
        None,
        now,
    ).0;
    if let Some(row) = with_key(marked.activities, activity_id) {
        law_step_state_updated(
            marked,
            row.step_id,
            WorkflowState::Completed,
            None,
            Some(value),
            None,
        );
    }
}

/// A request to create or to change a schedule keeps the rules.
pub proof fn law_temporal_schedules(
    s: Store,
    schedule_id: Text,
    namespace: Text,
    schedule: Option<temporal::ScheduleBodyView>,
    now: Timestamp,
)
    requires
        consistent(s),
    ensures
        consistent(temporal::schedule_created(s, schedule_id, namespace, schedule, now).0),
        consistent(temporal::schedule_changed(s, schedule_id, namespace, schedule, now).0),
{
    if let Ok(row) = temporal::row_asked(schedule_id, namespace, schedule, now) {
        law_schedule_row_inserted(s, row);
    }
    if let Some(body) = schedule {
        let ns = crate::service::status::or_default(namespace);
        let change = |row: ScheduleRecord|
            if temporal::is_schedule(row, schedule_id, ns) {
                temporal::body_set(row, body, now)
            } else {
                row
            };
        lemma_map_keeps_keys(s.schedules, change);
    }
}

} // verus!
